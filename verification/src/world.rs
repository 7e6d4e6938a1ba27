//! The entity store: an arena of generational slots with one dense column
//! per component type, plus the deferred command buffer that systems fill
//! while iterating and the scheduler applies at the end of the step.

use vstd::prelude::*;
use crate::components::{
    AmmoPickup, Boost, BoostPickup, DeadProjectile, ExplosionEffect, Interpolation, Player,
    Projectile, TickEffect, TrailEffect, Transform,
};

verus! {

/// An opaque entity identifier: a slot index and the generation the slot
/// had when the entity was spawned. A stale identifier (the slot was
/// since reused) no longer names anything.
#[derive(Clone, Copy, Debug, PartialEq, Eq, Structural)]
pub struct Entity {
    pub index: usize,
    pub generation: u64,
}

/// The components a spawn or insert command attaches, each optional.
pub struct Bundle {
    pub transform: Option<Transform>,
    pub player: Option<Player>,
    pub projectile: Option<Projectile>,
    pub dead_projectile: Option<DeadProjectile>,
    pub explosion_effect: Option<ExplosionEffect>,
    pub tick_effect: Option<TickEffect>,
    pub trail_effect: Option<TrailEffect>,
    pub interpolation: Option<Interpolation>,
    pub boost: Option<Boost>,
    pub ammo_pickup: Option<AmmoPickup>,
    pub boost_pickup: Option<BoostPickup>,
}

pub open spec fn opt_transform_wf(o: Option<Transform>) -> bool {
    match o {
        Some(v) => v.wf(),
        None => true,
    }
}

pub open spec fn opt_player_wf(o: Option<Player>) -> bool {
    match o {
        Some(v) => v.wf(),
        None => true,
    }
}

pub open spec fn opt_projectile_wf(o: Option<Projectile>) -> bool {
    match o {
        Some(v) => v.wf(),
        None => true,
    }
}

pub open spec fn opt_dead_projectile_wf(o: Option<DeadProjectile>) -> bool {
    match o {
        Some(v) => v.timer.wf(),
        None => true,
    }
}

pub open spec fn opt_interpolation_wf(o: Option<Interpolation>) -> bool {
    match o {
        Some(v) => v.wf(),
        None => true,
    }
}

pub open spec fn opt_boost_wf(o: Option<Boost>) -> bool {
    match o {
        Some(v) => v.wf(),
        None => true,
    }
}

pub open spec fn opt_ammo_pickup_wf(o: Option<AmmoPickup>) -> bool {
    match o {
        Some(v) => v.wf(),
        None => true,
    }
}

pub open spec fn opt_boost_pickup_wf(o: Option<BoostPickup>) -> bool {
    match o {
        Some(v) => v.wf(),
        None => true,
    }
}

/// The bundle that attaches nothing.
pub open spec fn empty_bundle() -> Bundle {
    Bundle {
        transform: None,
        player: None,
        projectile: None,
        dead_projectile: None,
        explosion_effect: None,
        tick_effect: None,
        trail_effect: None,
        interpolation: None,
        boost: None,
        ammo_pickup: None,
        boost_pickup: None,
    }
}

impl Bundle {
    /// A bundle attaching nothing.
    pub fn empty() -> (b: Bundle)
        ensures
            b == empty_bundle(),
            b.transform matches None,
            b.player matches None,
            b.projectile matches None,
            b.dead_projectile matches None,
            b.explosion_effect matches None,
            b.tick_effect matches None,
            b.trail_effect matches None,
            b.interpolation matches None,
            b.boost matches None,
            b.ammo_pickup matches None,
            b.boost_pickup matches None,
            b.wf(),
    {
        Bundle {
            transform: None,
            player: None,
            projectile: None,
            dead_projectile: None,
            explosion_effect: None,
            tick_effect: None,
            trail_effect: None,
            interpolation: None,
            boost: None,
            ammo_pickup: None,
            boost_pickup: None,
        }
    }

    /// Every attached component is well-formed.
    pub open spec fn wf(self) -> bool {
        &&& opt_transform_wf(self.transform)
        &&& opt_player_wf(self.player)
        &&& opt_projectile_wf(self.projectile)
        &&& opt_dead_projectile_wf(self.dead_projectile)
        &&& opt_interpolation_wf(self.interpolation)
        &&& opt_boost_wf(self.boost)
        &&& opt_ammo_pickup_wf(self.ammo_pickup)
        &&& opt_boost_pickup_wf(self.boost_pickup)
    }
}

/// The mathematical value of a `World`: one sequence per column.
pub struct WorldModel {
    pub generations: Seq<u64>,
    pub alive: Seq<bool>,
    pub transforms: Seq<Option<Transform>>,
    pub players: Seq<Option<Player>>,
    pub projectiles: Seq<Option<Projectile>>,
    pub dead_projectiles: Seq<Option<DeadProjectile>>,
    pub explosion_effects: Seq<Option<ExplosionEffect>>,
    pub tick_effects: Seq<Option<TickEffect>>,
    pub trail_effects: Seq<Option<TrailEffect>>,
    pub interpolations: Seq<Option<Interpolation>>,
    pub boosts: Seq<Option<Boost>>,
    pub ammo_pickups: Seq<Option<AmmoPickup>>,
    pub boost_pickups: Seq<Option<BoostPickup>>,
}

impl WorldModel {
    pub open spec fn len(self) -> int {
        self.generations.len() as int
    }

    /// Structural well-formedness: every column is as long as the arena,
    /// every attached component is well-formed, and a dead slot holds
    /// nothing.
    pub open spec fn wf(self) -> bool {
        &&& self.alive.len() == self.len()
        &&& self.transforms.len() == self.len()
        &&& self.players.len() == self.len()
        &&& self.projectiles.len() == self.len()
        &&& self.dead_projectiles.len() == self.len()
        &&& self.explosion_effects.len() == self.len()
        &&& self.tick_effects.len() == self.len()
        &&& self.trail_effects.len() == self.len()
        &&& self.interpolations.len() == self.len()
        &&& self.boosts.len() == self.len()
        &&& self.ammo_pickups.len() == self.len()
        &&& self.boost_pickups.len() == self.len()
        &&& forall|i: int|
            0 <= i < self.len() ==> {
                &&& opt_transform_wf(#[trigger] self.transforms[i])
                &&& opt_player_wf(self.players[i])
                &&& opt_projectile_wf(self.projectiles[i])
                &&& opt_dead_projectile_wf(self.dead_projectiles[i])
                &&& opt_interpolation_wf(self.interpolations[i])
                &&& opt_boost_wf(self.boosts[i])
                &&& opt_ammo_pickup_wf(self.ammo_pickups[i])
                &&& opt_boost_pickup_wf(self.boost_pickups[i])
            }
        &&& forall|i: int|
            0 <= i < self.len() && !(#[trigger] self.alive[i]) ==> {
                &&& self.transforms[i] matches None
                &&& self.players[i] matches None
                &&& self.projectiles[i] matches None
                &&& self.dead_projectiles[i] matches None
                &&& self.explosion_effects[i] matches None
                &&& self.tick_effects[i] matches None
                &&& self.trail_effects[i] matches None
                &&& self.interpolations[i] matches None
                &&& self.boosts[i] matches None
                &&& self.ammo_pickups[i] matches None
                &&& self.boost_pickups[i] matches None
            }
    }

    /// Whether `e` names a live entity.
    pub open spec fn valid(self, e: Entity) -> bool {
        &&& e.index < self.len()
        &&& self.alive[e.index as int]
        &&& self.generations[e.index as int] == e.generation
    }
}

/// The lowest dead slot at or after `i`, or the arena length if every
/// slot from `i` on is live.
pub open spec fn lowest_dead_from(alive: Seq<bool>, i: int) -> int
    decreases alive.len() - i,
{
    if i < 0 || i >= alive.len() {
        alive.len() as int
    } else if !alive[i] {
        i
    } else {
        lowest_dead_from(alive, i + 1)
    }
}

/// What a spawn does to the model: the bundle lands in the lowest dead
/// slot, or in a fresh slot at the end if every slot is live.
pub open spec fn spawn_model(m: WorldModel, b: Bundle) -> WorldModel {
    let i = lowest_dead_from(m.alive, 0);
    if i < m.len() {
        WorldModel {
            generations: m.generations,
            alive: m.alive.update(i, true),
            transforms: m.transforms.update(i, b.transform),
            players: m.players.update(i, b.player),
            projectiles: m.projectiles.update(i, b.projectile),
            dead_projectiles: m.dead_projectiles.update(i, b.dead_projectile),
            explosion_effects: m.explosion_effects.update(i, b.explosion_effect),
            tick_effects: m.tick_effects.update(i, b.tick_effect),
            trail_effects: m.trail_effects.update(i, b.trail_effect),
            interpolations: m.interpolations.update(i, b.interpolation),
            boosts: m.boosts.update(i, b.boost),
            ammo_pickups: m.ammo_pickups.update(i, b.ammo_pickup),
            boost_pickups: m.boost_pickups.update(i, b.boost_pickup),
        }
    } else {
        WorldModel {
            generations: m.generations.push(0),
            alive: m.alive.push(true),
            transforms: m.transforms.push(b.transform),
            players: m.players.push(b.player),
            projectiles: m.projectiles.push(b.projectile),
            dead_projectiles: m.dead_projectiles.push(b.dead_projectile),
            explosion_effects: m.explosion_effects.push(b.explosion_effect),
            tick_effects: m.tick_effects.push(b.tick_effect),
            trail_effects: m.trail_effects.push(b.trail_effect),
            interpolations: m.interpolations.push(b.interpolation),
            boosts: m.boosts.push(b.boost),
            ammo_pickups: m.ammo_pickups.push(b.ammo_pickup),
            boost_pickups: m.boost_pickups.push(b.boost_pickup),
        }
    }
}

/// The identifier a spawn hands back.
pub open spec fn spawn_entity(m: WorldModel, b: Bundle) -> Entity {
    let i = lowest_dead_from(m.alive, 0);
    if i < m.len() {
        Entity { index: i as usize, generation: m.generations[i] }
    } else {
        Entity { index: m.len() as usize, generation: 0 }
    }
}

/// What a despawn does to the model: a valid entity's slot dies, empties
/// and moves to the next generation; anything else is a no-op.
pub open spec fn despawn_model(m: WorldModel, e: Entity) -> WorldModel {
    if m.valid(e) {
        let i = e.index as int;
        WorldModel {
            generations: m.generations.update(i, crate::resources::sat_inc(m.generations[i])),
            alive: m.alive.update(i, false),
            transforms: m.transforms.update(i, None),
            players: m.players.update(i, None),
            projectiles: m.projectiles.update(i, None),
            dead_projectiles: m.dead_projectiles.update(i, None),
            explosion_effects: m.explosion_effects.update(i, None),
            tick_effects: m.tick_effects.update(i, None),
            trail_effects: m.trail_effects.update(i, None),
            interpolations: m.interpolations.update(i, None),
            boosts: m.boosts.update(i, None),
            ammo_pickups: m.ammo_pickups.update(i, None),
            boost_pickups: m.boost_pickups.update(i, None),
        }
    } else {
        m
    }
}

/// What an insert does to the model: the bundle's attached components
/// land on a valid entity, component by component; anything else is a
/// no-op.
pub open spec fn insert_model(m: WorldModel, e: Entity, b: Bundle) -> WorldModel {
    if m.valid(e) {
        let i = e.index as int;
        WorldModel {
            generations: m.generations,
            alive: m.alive,
            transforms: if b.transform matches Some(_) {
                m.transforms.update(i, b.transform)
            } else {
                m.transforms
            },
            players: if b.player matches Some(_) {
                m.players.update(i, b.player)
            } else {
                m.players
            },
            projectiles: if b.projectile matches Some(_) {
                m.projectiles.update(i, b.projectile)
            } else {
                m.projectiles
            },
            dead_projectiles: if b.dead_projectile matches Some(_) {
                m.dead_projectiles.update(i, b.dead_projectile)
            } else {
                m.dead_projectiles
            },
            explosion_effects: if b.explosion_effect matches Some(_) {
                m.explosion_effects.update(i, b.explosion_effect)
            } else {
                m.explosion_effects
            },
            tick_effects: if b.tick_effect matches Some(_) {
                m.tick_effects.update(i, b.tick_effect)
            } else {
                m.tick_effects
            },
            trail_effects: if b.trail_effect matches Some(_) {
                m.trail_effects.update(i, b.trail_effect)
            } else {
                m.trail_effects
            },
            interpolations: if b.interpolation matches Some(_) {
                m.interpolations.update(i, b.interpolation)
            } else {
                m.interpolations
            },
            boosts: if b.boost matches Some(_) {
                m.boosts.update(i, b.boost)
            } else {
                m.boosts
            },
            ammo_pickups: if b.ammo_pickup matches Some(_) {
                m.ammo_pickups.update(i, b.ammo_pickup)
            } else {
                m.ammo_pickups
            },
            boost_pickups: if b.boost_pickup matches Some(_) {
                m.boost_pickups.update(i, b.boost_pickup)
            } else {
                m.boost_pickups
            },
        }
    } else {
        m
    }
}

/// A deferred structural change.
pub enum Command {
    /// Create an entity with the bundle's components.
    Spawn(Bundle),
    /// Destroy an entity.
    Despawn(Entity),
    /// Attach the bundle's components to an existing entity.
    Insert(Entity, Bundle),
}

impl Command {
    pub open spec fn wf(self) -> bool {
        match self {
            Command::Spawn(b) => b.wf(),
            Command::Despawn(_) => true,
            Command::Insert(_, b) => b.wf(),
        }
    }
}

/// What one command does to the model.
pub open spec fn apply_one_model(m: WorldModel, c: Command) -> WorldModel {
    match c {
        Command::Spawn(b) => spawn_model(m, b),
        Command::Despawn(e) => despawn_model(m, e),
        Command::Insert(e, b) => insert_model(m, e, b),
    }
}

/// What a whole command list does to the model, first command first.
pub open spec fn apply_model(m: WorldModel, cmds: Seq<Command>) -> WorldModel
    decreases cmds.len(),
{
    if cmds.len() == 0 {
        m
    } else {
        apply_model(apply_one_model(m, cmds[0]), cmds.drop_first())
    }
}

/// The deferred command buffer a system writes while it iterates.
pub struct Commands {
    pub queue: Vec<Command>,
}

impl Commands {
    pub open spec fn wf(self) -> bool {
        forall|i: int| 0 <= i < self.queue.len() ==> (#[trigger] self.queue[i]).wf()
    }

    /// An empty buffer.
    pub fn new() -> (c: Commands)
        ensures
            c.queue@ == Seq::<Command>::empty(),
            c.wf(),
    {
        Commands { queue: Vec::new() }
    }

    /// Queues a spawn.
    pub fn spawn(&mut self, b: Bundle)
        requires
            old(self).wf(),
            b.wf(),
            old(self).queue@.len() < usize::MAX,
        ensures
            final(self).queue@ == old(self).queue@.push(Command::Spawn(b)),
            final(self).wf(),
    {
        self.queue.push(Command::Spawn(b));
    }

    /// Queues a despawn.
    pub fn despawn(&mut self, e: Entity)
        requires
            old(self).wf(),
            old(self).queue@.len() < usize::MAX,
        ensures
            final(self).queue@ == old(self).queue@.push(Command::Despawn(e)),
            final(self).wf(),
    {
        self.queue.push(Command::Despawn(e));
    }

    /// Queues an insert onto an existing entity.
    pub fn insert(&mut self, e: Entity, b: Bundle)
        requires
            old(self).wf(),
            b.wf(),
            old(self).queue@.len() < usize::MAX,
        ensures
            final(self).queue@ == old(self).queue@.push(Command::Insert(e, b)),
            final(self).wf(),
    {
        self.queue.push(Command::Insert(e, b));
    }
}

/// The entity store itself.
pub struct World {
    pub generations: Vec<u64>,
    pub alive: Vec<bool>,
    pub transforms: Vec<Option<Transform>>,
    pub players: Vec<Option<Player>>,
    pub projectiles: Vec<Option<Projectile>>,
    pub dead_projectiles: Vec<Option<DeadProjectile>>,
    pub explosion_effects: Vec<Option<ExplosionEffect>>,
    pub tick_effects: Vec<Option<TickEffect>>,
    pub trail_effects: Vec<Option<TrailEffect>>,
    pub interpolations: Vec<Option<Interpolation>>,
    pub boosts: Vec<Option<Boost>>,
    pub ammo_pickups: Vec<Option<AmmoPickup>>,
    pub boost_pickups: Vec<Option<BoostPickup>>,
}

impl World {
    /// The store's mathematical value.
    pub open spec fn model(self) -> WorldModel {
        WorldModel {
            generations: self.generations@,
            alive: self.alive@,
            transforms: self.transforms@,
            players: self.players@,
            projectiles: self.projectiles@,
            dead_projectiles: self.dead_projectiles@,
            explosion_effects: self.explosion_effects@,
            tick_effects: self.tick_effects@,
            trail_effects: self.trail_effects@,
            interpolations: self.interpolations@,
            boosts: self.boosts@,
            ammo_pickups: self.ammo_pickups@,
            boost_pickups: self.boost_pickups@,
        }
    }

    pub open spec fn wf(self) -> bool {
        self.model().wf()
    }

    /// An empty store.
    pub fn new() -> (w: World)
        ensures
            w.model().len() == 0,
            w.wf(),
    {
        World {
            generations: Vec::new(),
            alive: Vec::new(),
            transforms: Vec::new(),
            players: Vec::new(),
            projectiles: Vec::new(),
            dead_projectiles: Vec::new(),
            explosion_effects: Vec::new(),
            tick_effects: Vec::new(),
            trail_effects: Vec::new(),
            interpolations: Vec::new(),
            boosts: Vec::new(),
            ammo_pickups: Vec::new(),
            boost_pickups: Vec::new(),
        }
    }

    /// The number of slots (live or dead) in the arena.
    pub fn num_slots(&self) -> (n: usize)
        ensures
            n == self.model().len(),
    {
        self.generations.len()
    }

    /// The lowest dead slot, or the arena length if every slot is live.
    fn find_free_slot(&self) -> (i: usize)
        requires
            self.wf(),
        ensures
            i == lowest_dead_from(self.alive@, 0),
            i <= self.alive@.len(),
            i < self.alive@.len() ==> !self.alive@[i as int],
    {
        let n = self.alive.len();
        let mut i: usize = 0;
        while i < n
            invariant
                i <= n,
                n == self.alive@.len(),
                forall|j: int| 0 <= j < i ==> self.alive@[j],
                lowest_dead_from(self.alive@, 0) == lowest_dead_from(self.alive@, i as int),
            decreases n - i,
        {
            if !self.alive[i] {
                return i;
            }
            i = i + 1;
        }
        i
    }

    /// Creates an entity immediately, reusing the lowest dead slot or
    /// growing the arena.
    pub fn spawn_now(&mut self, b: Bundle) -> (e: Entity)
        requires
            old(self).wf(),
            b.wf(),
            old(self).model().len() < 1_000_000_000,
        ensures
            final(self).model() == spawn_model(old(self).model(), b),
            e == spawn_entity(old(self).model(), b),
            final(self).wf(),
            final(self).model().valid(e),
    {
        let i = self.find_free_slot();
        if i < self.alive.len() {
            self.alive[i] = true;
            self.transforms[i] = b.transform;
            self.players[i] = b.player;
            self.projectiles[i] = b.projectile;
            self.dead_projectiles[i] = b.dead_projectile;
            self.explosion_effects[i] = b.explosion_effect;
            self.tick_effects[i] = b.tick_effect;
            self.trail_effects[i] = b.trail_effect;
            self.interpolations[i] = b.interpolation;
            self.boosts[i] = b.boost;
            self.ammo_pickups[i] = b.ammo_pickup;
            self.boost_pickups[i] = b.boost_pickup;
            let g = self.generations[i];
            Entity { index: i, generation: g }
        } else {
            self.generations.push(0);
            self.alive.push(true);
            self.transforms.push(b.transform);
            self.players.push(b.player);
            self.projectiles.push(b.projectile);
            self.dead_projectiles.push(b.dead_projectile);
            self.explosion_effects.push(b.explosion_effect);
            self.tick_effects.push(b.tick_effect);
            self.trail_effects.push(b.trail_effect);
            self.interpolations.push(b.interpolation);
            self.boosts.push(b.boost);
            self.ammo_pickups.push(b.ammo_pickup);
            self.boost_pickups.push(b.boost_pickup);
            Entity { index: i, generation: 0 }
        }
    }

    /// Destroys a valid entity immediately: its slot dies, empties and
    /// moves to the next generation. A stale identifier does nothing.
    pub fn despawn_now(&mut self, e: Entity)
        requires
            old(self).wf(),
        ensures
            final(self).model() == despawn_model(old(self).model(), e),
            final(self).wf(),
    {
        if e.index < self.alive.len() && self.alive[e.index] && self.generations[e.index]
            == e.generation {
            let i = e.index;
            let g = self.generations[i];
            self.generations[i] = if g < u64::MAX {
                g + 1
            } else {
                g
            };
            self.alive[i] = false;
            self.transforms[i] = None;
            self.players[i] = None;
            self.projectiles[i] = None;
            self.dead_projectiles[i] = None;
            self.explosion_effects[i] = None;
            self.tick_effects[i] = None;
            self.trail_effects[i] = None;
            self.interpolations[i] = None;
            self.boosts[i] = None;
            self.ammo_pickups[i] = None;
            self.boost_pickups[i] = None;
        }
    }

    /// Attaches the bundle's components to a valid entity immediately.
    /// A stale identifier does nothing.
    #[verifier::rlimit(100)]
    #[verifier::spinoff_prover]
    pub fn insert_now(&mut self, e: Entity, b: Bundle)
        requires
            old(self).wf(),
            b.wf(),
        ensures
            final(self).model() == insert_model(old(self).model(), e, b),
            final(self).wf(),
    {
        if e.index < self.alive.len() && self.alive[e.index] && self.generations[e.index]
            == e.generation {
            let i = e.index;
            if b.transform.is_some() {
                self.transforms[i] = b.transform;
            }
            if b.player.is_some() {
                self.players[i] = b.player;
            }
            if b.projectile.is_some() {
                self.projectiles[i] = b.projectile;
            }
            if b.dead_projectile.is_some() {
                self.dead_projectiles[i] = b.dead_projectile;
            }
            if b.explosion_effect.is_some() {
                self.explosion_effects[i] = b.explosion_effect;
            }
            if b.tick_effect.is_some() {
                self.tick_effects[i] = b.tick_effect;
            }
            if b.trail_effect.is_some() {
                self.trail_effects[i] = b.trail_effect;
            }
            if b.interpolation.is_some() {
                self.interpolations[i] = b.interpolation;
            }
            if b.boost.is_some() {
                self.boosts[i] = b.boost;
            }
            if b.ammo_pickup.is_some() {
                self.ammo_pickups[i] = b.ammo_pickup;
            }
            if b.boost_pickup.is_some() {
                self.boost_pickups[i] = b.boost_pickup;
            }
        }
    }

    /// The synchronisation barrier: applies every queued command in
    /// order and empties the buffer.
    pub fn apply_commands(&mut self, commands: &mut Commands)
        requires
            old(self).wf(),
            old(commands).wf(),
            old(self).model().len() + old(commands).queue@.len() < 1_000_000_000,
        ensures
            final(self).model() == apply_model(old(self).model(), old(commands).queue@),
            final(commands).queue@ == Seq::<Command>::empty(),
            final(self).wf(),
    {
        let ghost m0 = old(self).model();
        let ghost q0 = old(commands).queue@;
        while commands.queue.len() > 0
            invariant
                self.wf(),
                commands.wf(),
                self.model().len() + commands.queue@.len() < 1_000_000_000,
                apply_model(m0, q0) == apply_model(self.model(), commands.queue@),
            decreases commands.queue@.len(),
        {
            let ghost pre = self.model();
            let ghost prevq = commands.queue@;
            let c = commands.queue.remove(0);
            proof {
                assert(prevq[0].wf());
                assert forall|i: int| 0 <= i < commands.queue@.len() implies (#[trigger] commands
                    .queue@[i]).wf() by {
                    assert(commands.queue@[i] == prevq[i + 1]);
                }
            }
            match c {
                Command::Spawn(b) => {
                    let _spawned = self.spawn_now(b);
                }
                Command::Despawn(e) => {
                    self.despawn_now(e);
                }
                Command::Insert(e, b) => {
                    self.insert_now(e, b);
                }
            }
            proof {
                assert(self.model() == apply_one_model(pre, c));
                assert(prevq.drop_first() =~= commands.queue@);
                assert(apply_model(pre, prevq) == apply_model(self.model(), commands.queue@));
            }
        }
    }
}


/// Applying a concatenation applies the two lists in turn.
pub proof fn lemma_apply_model_app(m: WorldModel, a: Seq<Command>, b: Seq<Command>)
    ensures
        apply_model(m, a + b) == apply_model(apply_model(m, a), b),
    decreases a.len(),
{
    if a.len() == 0 {
        assert(a + b =~= b);
    } else {
        assert((a + b)[0] == a[0]);
        assert((a + b).drop_first() =~= a.drop_first() + b);
        lemma_apply_model_app(apply_one_model(m, a[0]), a.drop_first(), b);
    }
}

/// The lowest dead slot really is dead.
pub proof fn lemma_lowest_dead_is_dead(alive: Seq<bool>, i: int)
    ensures
        lowest_dead_from(alive, i) < alive.len() ==> !alive[lowest_dead_from(alive, i)],
        i <= lowest_dead_from(alive, i) || lowest_dead_from(alive, i) == alive.len() || i < 0,
    decreases alive.len() - i,
{
    if i < 0 || i >= alive.len() {
    } else if !alive[i] {
    } else {
        lemma_lowest_dead_is_dead(alive, i + 1);
    }
}

/// Applying exactly two commands is the two steps in turn.
pub proof fn lemma_apply_model_pair(m: WorldModel, c1: Command, c2: Command)
    ensures
        apply_model(m, seq![c1, c2]) == apply_one_model(apply_one_model(m, c1), c2),
{
    let s = seq![c1, c2];
    assert(s[0] == c1);
    assert(s.drop_first() =~= seq![c2]);
    assert(s.drop_first()[0] == c2);
    assert(s.drop_first().drop_first() =~= Seq::<Command>::empty());
    assert(apply_model(m, s) == apply_model(apply_one_model(m, c1), s.drop_first()));
    assert(apply_model(apply_one_model(m, c1), s.drop_first()) == apply_model(
        apply_one_model(apply_one_model(m, c1), c2),
        s.drop_first().drop_first(),
    ));
}

/// A slot whose generation has moved past an identifier's generation
/// never becomes that identifier again: no command restores it, because
/// generations only grow.
pub proof fn lemma_generation_gap_survives(m: WorldModel, cmds: Seq<Command>, idx: int, g: u64)
    requires
        0 <= idx < m.len(),
        m.generations[idx] > g,
    ensures
        ({
            let r = apply_model(m, cmds);
            &&& m.len() <= r.len()
            &&& idx < r.len()
            &&& r.generations[idx] > g
        }),
    decreases cmds.len(),
{
    if cmds.len() == 0 {
    } else {
        let m1 = apply_one_model(m, cmds[0]);
        match cmds[0] {
            Command::Spawn(b) => {
                lemma_lowest_dead_is_dead(m.alive, 0);
            },
            Command::Despawn(e) => {
                if m.valid(e) && e.index == idx {
                    assert(crate::resources::sat_inc(m.generations[idx]) >= m.generations[idx]);
                }
            },
            Command::Insert(e, b) => {},
        }
        lemma_generation_gap_survives(m1, cmds.drop_first(), idx, g);
    }
}

} // verus!
