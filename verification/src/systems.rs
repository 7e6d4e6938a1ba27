//! The per-step lifecycle systems. Each one is a function of its declared
//! inputs: it reads and mutates components in place, records draw shapes,
//! and queues structural changes (spawns, despawns, inserts) on the
//! command buffer for the end-of-step barrier.

use vstd::prelude::*;
use crate::color::{
    rgb_color_ammo_pickup, rgb_color_boost, rgb_color_death, rgb_color_player, rgb_color_trail, Rgb,
};
use crate::components::{
    AmmoPickup, Boost, BoostPickup, DeadProjectile, ExplosionEffect, Interpolation, Player,
    Projectile, TickEffect, TrailEffect, Transform,
};
use crate::easings::Easing;
use crate::environment::{
    DEAD_PROJECTILE_HEIGHT, DEAD_PROJECTILE_WIDTH, HALF_TURN, MAX_STEP_MICROS, MICROS_PER_SEC,
    POS_LIMIT, SCREEN_HEIGHT, SCREEN_WIDTH, SPEED_LIMIT, TURN, UNIT, VALUE_LIMIT,
    Z_INDEX_AMMO_PICKUP, Z_INDEX_BOOST_PICKUP, Z_INDEX_PLAYER, Z_INDEX_TRAIL_EFFECT,
};
use crate::events::{Events, GameEvents};
use crate::random::rand_range;
use crate::fixed::{clamp_pos, clamp_spec, mul_div, mul_div_trunc, norm_angle, norm_angle_spec};
use crate::resources::{
    Camera, CircleGeometry, DurationWrapper, EntitySpawnTimer, Flash, KeyCodes, Shake, ShapeDraw,
    Time, Timer,
};
use crate::trig::{cos_uturn_spec, forward, sin_uturn_spec};
use crate::world::{Bundle, Command, Commands, Entity, World, WorldModel};

verus! {

// ---------------------------------------------------------------------------
// Shared helpers

/// Whether a position lies outside the screen, widened by `offset` on
/// every side.
pub open spec fn screen_out_of_bounds_spec(x: int, y: int, offset: int) -> bool {
    x < -offset || x > SCREEN_WIDTH + offset || y < -offset || y > SCREEN_HEIGHT + offset
}

/// Boundary test every lifecycle system shares; `offset` widens the
/// screen on every side (`None` means no widening).
pub fn screen_out_of_bounds_test(x: i64, y: i64, offset: Option<i64>) -> (r: bool)
    requires
        offset matches Some(o) ==> 0 <= o < POS_LIMIT,
    ensures
        r == screen_out_of_bounds_spec(
            x as int,
            y as int,
            match offset {
                Some(o) => o as int,
                None => 0,
            },
        ),
{
    let o: i64 = match offset {
        Some(o) => o,
        None => 0,
    };
    x < -o || x > SCREEN_WIDTH + o || y < -o || y > SCREEN_HEIGHT + o
}

/// The entity identifier slot `i` currently carries.
pub open spec fn slot_entity(m: WorldModel, i: int) -> Entity {
    Entity { index: i as usize, generation: m.generations[i] }
}

// ---------------------------------------------------------------------------
// Timing

/// Derives this step's scaled duration from the raw one — opening the
/// slow-motion window on a player death — and ticks the four periodic
/// spawn timers with the scaled duration, so gameplay pacing slows down
/// together with simulation time.
pub fn timing_system(
    events: &mut Events,
    reader: usize,
    timers: &mut EntitySpawnTimer,
    raw_time: &DurationWrapper,
    time: &mut Time,
)
    requires
        old(events).wf(),
        reader < old(events).cursors@.len(),
        old(timers).wf(),
        old(time).wf(),
        raw_time.0 <= MAX_STEP_MICROS,
    ensures
        ({
            let death = old(events).events@.subrange(
                old(events).cursors@[reader as int] as int,
                old(events).events@.len() as int,
            ).contains(GameEvents::PlayerDeath);
            let scaled = old(time).advance_spec(raw_time.0, death);
            &&& *final(time) == scaled
            &&& final(timers).projectile == old(timers).projectile.tick_spec(scaled.duration)
            &&& final(timers).tick_effect == old(timers).tick_effect.tick_spec(scaled.duration)
            &&& final(timers).ammo_pickup == old(timers).ammo_pickup.tick_spec(scaled.duration)
            &&& final(timers).boost_pickup == old(timers).boost_pickup.tick_spec(scaled.duration)
        }),
        final(events).events@ == old(events).events@,
        final(events).cursors@ == old(events).cursors@.update(
            reader as int,
            old(events).events@.len() as usize,
        ),
        final(events).fresh == old(events).fresh,
        final(events).wf(),
        final(time).wf(),
        final(timers).wf(),
        final(time).duration <= raw_time.0,
{
    let death = events.read_contains(reader, GameEvents::PlayerDeath);
    let scaled = time.advance(raw_time.0, death);
    timers.tick_all(scaled);
}

// ---------------------------------------------------------------------------
// Player spawn

/// The bundle the startup stage spawns the player from: screen centre,
/// stock speeds, a full boost reservoir and the repeating shooting tween.
pub open spec fn player_bundle_spec(b: Bundle) -> bool {
    &&& b.player == Some(Player { movement_speed: 100_000_000, rotation_speed: 1_000_000 })
    &&& b.transform == Some(
        Transform {
            rotation: 0,
            x: 240_000_000,
            y: 135_000_000,
            z: Z_INDEX_PLAYER,
            center_rotation: 0,
        },
    )
    &&& b.boost is Some
    &&& b.boost->Some_0 == (Boost {
        max_boost: 100_000_000,
        boost: 100_000_000,
        cooldown: None,
        inc_amount: 10_000_000,
        dec_amount: 50_000_000,
        cooldown_sec: Some(2_000_000),
    })
    &&& b.interpolation is Some
    &&& b.interpolation->Some_0.time == 0
    &&& b.interpolation->Some_0.duration == 240_000
    &&& b.interpolation->Some_0.begin_end@ == seq![(8_000_000i64, 0i64)]
    &&& b.interpolation->Some_0.repeating == true
    &&& b.projectile is None
    &&& b.dead_projectile is None
    &&& b.explosion_effect is None
    &&& b.tick_effect is None
    &&& b.trail_effect is None
    &&& b.ammo_pickup is None
    &&& b.boost_pickup is None
}

/// Queues the player entity: screen centre, 100 px/s forward, a full
/// turn per second, a full boost reservoir, and the repeating shooting
/// tween (8 px to 0 over 0.24 s).
pub fn player_spawn_system(commands: &mut Commands)
    requires
        old(commands).wf(),
        old(commands).queue@.len() < 1_000_000,
    ensures
        final(commands).queue@.len() == old(commands).queue@.len() + 1,
        final(commands).queue@.take(old(commands).queue@.len() as int) == old(commands).queue@,
        final(commands).queue@.last() matches Command::Spawn(b) && player_bundle_spec(b),
        final(commands).wf(),
{
    let mut begin_end: Vec<(i64, i64)> = Vec::new();
    begin_end.push((8_000_000, 0));
    proof {
        assert(begin_end@ =~= seq![(8_000_000i64, 0i64)]);
    }
    let mut b = Bundle::empty();
    b.player = Some(Player { movement_speed: 100_000_000, rotation_speed: 1_000_000 });
    b.transform = Some(
        Transform {
            rotation: 0,
            x: SCREEN_WIDTH / 2,
            y: SCREEN_HEIGHT / 2,
            z: Z_INDEX_PLAYER,
            center_rotation: 0,
        },
    );
    b.boost = Some(Boost::default());
    b.interpolation = Some(Interpolation::new(begin_end, 240_000, true));
    commands.spawn(b);
    proof {
        assert(commands.queue@.take(old(commands).queue@.len() as int) =~= old(commands).queue@);
    }
}

// ---------------------------------------------------------------------------
// Player movement, boost and death

/// Whether slot `i` carries a full player (role, placement and boost).
pub open spec fn player_slot(m: WorldModel, i: int) -> bool {
    &&& 0 <= i < m.len()
    &&& m.alive[i]
    &&& m.players[i] is Some
    &&& m.transforms[i] is Some
    &&& m.boosts[i] is Some
}

/// A per-second rate scaled down to one step of `dt` microseconds.
pub open spec fn per_step(rate: int, dt: int) -> int {
    mul_div_trunc(rate, dt, MICROS_PER_SEC as int)
}

/// The key phase of the boost: the movement factor on the `UNIT` scale
/// and the reservoir after draining, plus whether a boost applied. The
/// keys are read in a fixed order (up, then down), each draining one
/// step's worth while boosting is allowed; the brake factor wins if both
/// are held.
pub open spec fn player_drain_spec(bo: Boost, keys: KeyCodes, dt: u64) -> (int, int, bool) {
    let drain = per_step(bo.dec_amount as int, dt as int);
    let can1 = bo.cooldown is None && bo.boost > 0;
    let up_applies = keys.up && can1;
    let f1: int = if up_applies {
        1_500_000
    } else {
        1_000_000
    };
    let b1: int = if up_applies {
        bo.boost - drain
    } else {
        bo.boost as int
    };
    let can2 = bo.cooldown is None && b1 > 0;
    let down_applies = keys.down && can2;
    let f2: int = if down_applies {
        500_000
    } else {
        f1
    };
    let b2: int = if down_applies {
        b1 - drain
    } else {
        b1
    };
    (f2, b2, up_applies || down_applies)
}

/// The whole boost update for one step: drain while boosting, start the
/// cooldown when the reservoir crosses below zero with none running,
/// otherwise run the cooldown down, and regenerate toward the maximum
/// whenever no boost applied this step.
pub open spec fn player_boost_spec(bo: Boost, keys: KeyCodes, dt: u64) -> Boost {
    let (f, b2, boosted) = player_drain_spec(bo, keys, dt);
    let cd: Option<u64> = if b2 < 0 && bo.cooldown is None {
        bo.cooldown_sec
    } else {
        match bo.cooldown {
            Some(c) => if c > dt {
                Some((c - dt) as u64)
            } else {
                None
            },
            None => None,
        }
    };
    let b3: int = if !boosted {
        let regen = b2 + per_step(bo.inc_amount as int, dt as int);
        if regen > bo.max_boost {
            bo.max_boost as int
        } else {
            regen
        }
    } else {
        b2
    };
    Boost { boost: b3 as i64, cooldown: cd, ..bo }
}

/// The placement update for one step: rotate by the signed key factor
/// times the turn rate, then advance along the new heading by the
/// boosted speed, the position staying clamped to the coordinate range.
pub open spec fn player_transform_spec(
    p: Player,
    t: Transform,
    keys: KeyCodes,
    factor: int,
    dt: u64,
) -> Transform {
    let rot_delta = per_step(p.rotation_speed as int, dt as int);
    let rf: int = (if keys.left {
        1int
    } else {
        0int
    }) - (if keys.right {
        1int
    } else {
        0int
    });
    let heading = norm_angle_spec(t.rotation + rf * rot_delta);
    let bspeed = mul_div_trunc(p.movement_speed as int, factor, UNIT as int);
    let dist = per_step(bspeed, dt as int);
    let dx = mul_div_trunc(-sin_uturn_spec(heading), dist, UNIT as int);
    let dy = mul_div_trunc(cos_uturn_spec(heading), dist, UNIT as int);
    Transform {
        rotation: heading as i64,
        x: clamp_spec(t.x + dx, -POS_LIMIT as int, POS_LIMIT as int) as i64,
        y: clamp_spec(t.y + dy, -POS_LIMIT as int, POS_LIMIT as int) as i64,
        ..t
    }
}

/// All player slots below `i` carry their one-step update.
pub open spec fn players_updated_upto(
    m0: WorldModel,
    tr: Seq<Option<Transform>>,
    bs: Seq<Option<Boost>>,
    keys: KeyCodes,
    dt: u64,
    i: int,
) -> bool {
    forall|j: int|
        #[trigger] player_slot(m0, j) && j < i ==> tr[j] == Some(
            player_transform_spec(
                m0.players[j]->Some_0,
                m0.transforms[j]->Some_0,
                keys,
                player_drain_spec(m0.boosts[j]->Some_0, keys, dt).0,
                dt,
            ),
        ) && bs[j] == Some(player_boost_spec(m0.boosts[j]->Some_0, keys, dt))
}

/// Every slot that is not a player slot below `i` is untouched.
pub open spec fn players_unchanged_outside(
    m0: WorldModel,
    tr: Seq<Option<Transform>>,
    bs: Seq<Option<Boost>>,
    i: int,
) -> bool {
    forall|j: int|
        0 <= j < m0.len() && !(player_slot(m0, j) && j < i) ==> tr[j] == m0.transforms[j] && bs[j]
            == m0.boosts[j]
}

/// The circles recorded for the slots below `i`: each player's updated
/// placement carries its 12 px stroked circle, 1.5 px wide, in white.
pub open spec fn player_circles_upto(m: WorldModel, keys: KeyCodes, dt: u64, i: int) -> Seq<
    crate::resources::ShapeDraw,
>
    decreases i,
{
    if i <= 0 {
        Seq::empty()
    } else {
        player_circles_upto(m, keys, dt, i - 1) + (if player_slot(m, i - 1) {
            seq![
                crate::resources::ShapeDraw {
                    transform: player_transform_spec(
                        m.players[i - 1]->Some_0,
                        m.transforms[i - 1]->Some_0,
                        keys,
                        player_drain_spec(m.boosts[i - 1]->Some_0, keys, dt).0,
                        dt,
                    ),
                    off_x: 0,
                    off_y: 0,
                    off_z: 0,
                    size_a: 12_000_000,
                    size_b: 0,
                    line_width: 1_500_000,
                    filled: false,
                    color: Rgb { r: 255, g: 255, b: 255 },
                },
            ]
        } else {
            Seq::empty()
        })
    }
}

/// The despawns the player system queues for the slots below `i`: one
/// per player while the self-destruct key is down.
pub open spec fn player_cmds_upto(m: WorldModel, keys: KeyCodes, i: int) -> Seq<Command>
    decreases i,
{
    if i <= 0 {
        Seq::empty()
    } else {
        player_cmds_upto(m, keys, i - 1) + (if keys.s && player_slot(m, i - 1) {
            seq![Command::Despawn(slot_entity(m, i - 1))]
        } else {
            Seq::empty()
        })
    }
}

/// The death events the player system sends for the slots below `i`.
pub open spec fn player_events_upto(m: WorldModel, keys: KeyCodes, i: int) -> Seq<GameEvents>
    decreases i,
{
    if i <= 0 {
        Seq::empty()
    } else {
        player_events_upto(m, keys, i - 1) + (if keys.s && player_slot(m, i - 1) {
            seq![GameEvents::PlayerDeath]
        } else {
            Seq::empty()
        })
    }
}

/// One player's update for one step: the new placement and reservoir.
fn player_update(p: Player, t: Transform, bo: Boost, keys: &KeyCodes, dt: u64) -> (out: (
    Transform,
    Boost,
))
    requires
        p.wf(),
        t.wf(),
        bo.wf(),
        dt <= MAX_STEP_MICROS,
    ensures
        out.0 == player_transform_spec(p, t, *keys, player_drain_spec(bo, *keys, dt).0, dt),
        out.1 == player_boost_spec(bo, *keys, dt),
        out.0.wf(),
        out.1.wf(),
{
    proof {
        crate::fixed::lemma_mul_div_trunc_bound(bo.dec_amount as int, dt as int,
            MICROS_PER_SEC as int);
        crate::fixed::lemma_mul_div_trunc_bound(bo.inc_amount as int, dt as int,
            MICROS_PER_SEC as int);
        crate::fixed::lemma_mul_div_trunc_bound(p.rotation_speed as int, dt as int,
            MICROS_PER_SEC as int);
    }
    // Key phase: factor and drain.
    let drain: i64 = mul_div(bo.dec_amount, dt as i64, MICROS_PER_SEC as i64);
    let can1 = bo.can_boost();
    let up_applies = keys.up && can1;
    let mut factor: i64 = 1_000_000;
    let mut b: i64 = bo.boost;
    if up_applies {
        factor = 1_500_000;
        b = b - drain;
    }
    let can2 = bo.no_cooldown() && b > 0;
    let down_applies = keys.down && can2;
    if down_applies {
        factor = 500_000;
        b = b - drain;
    }
    let boosted = up_applies || down_applies;
    // Cooldown bookkeeping and regeneration.
    let cd: Option<u64> = if b < 0 && bo.no_cooldown() {
        bo.cooldown_sec
    } else {
        match bo.cooldown {
            Some(c) => if c > dt {
                Some(c - dt)
            } else {
                None
            },
            None => None,
        }
    };
    if !boosted {
        let regen: i64 = mul_div(bo.inc_amount, dt as i64, MICROS_PER_SEC as i64);
        let grown = b + regen;
        b = if grown > bo.max_boost {
            bo.max_boost
        } else {
            grown
        };
    }
    let bo2 = Boost { boost: b, cooldown: cd, ..bo };
    // Rotation and movement.
    let rot_delta: i64 = mul_div(p.rotation_speed, dt as i64, MICROS_PER_SEC as i64);
    let rf: i64 = (if keys.left {
        1i64
    } else {
        0i64
    }) - (if keys.right {
        1i64
    } else {
        0i64
    });
    proof {
        assert(-100_000_000 <= rf * rot_delta <= 100_000_000) by (nonlinear_arith)
            requires
                -1 <= rf <= 1,
                0 <= rot_delta <= 100_000_000,
        {}
    }
    let heading: i64 = norm_angle(t.rotation + rf * rot_delta);
    proof {
        assert(p.movement_speed * factor <= 2_000_000_000 * (UNIT as int)) by (nonlinear_arith)
            requires
                0 <= p.movement_speed <= 1_000_000_000,
                0 <= factor <= 2_000_000,
                UNIT == 1_000_000,
        {}
        crate::fixed::lemma_mul_div_trunc_upper(p.movement_speed as int, factor as int,
            UNIT as int, 2_000_000_000);
    }
    let bspeed: i64 = mul_div(p.movement_speed, factor, UNIT);
    proof {
        assert(bspeed * dt <= 2_000_000_000 * (MICROS_PER_SEC as int)) by (nonlinear_arith)
            requires
                0 <= bspeed <= 2_000_000_000,
                0 <= dt <= 1_000_000,
                MICROS_PER_SEC == 1_000_000,
        {}
        crate::fixed::lemma_mul_div_trunc_upper(bspeed as int, dt as int, MICROS_PER_SEC as int,
            2_000_000_000);
    }
    let dist: i64 = mul_div(bspeed, dt as i64, MICROS_PER_SEC as i64);
    let d = forward(heading);
    proof {
        assert(d.0 * dist <= 2_000_000_000 * (UNIT as int) && (-d.0) * dist <= 2_000_000_000 * (
        UNIT as int) && d.1 * dist <= 2_000_000_000 * (UNIT as int) && (-d.1) * dist
            <= 2_000_000_000 * (UNIT as int)) by (nonlinear_arith)
            requires
                -1_000_000 <= d.0 <= 1_000_000,
                -1_000_000 <= d.1 <= 1_000_000,
                0 <= dist <= 2_000_000_000,
                UNIT == 1_000_000,
        {}
        crate::fixed::lemma_mul_div_trunc_upper(d.0 as int, dist as int, UNIT as int,
            2_000_000_000);
        crate::fixed::lemma_mul_div_trunc_upper(d.1 as int, dist as int, UNIT as int,
            2_000_000_000);
    }
    let dx: i64 = mul_div(d.0, dist, UNIT);
    let dy: i64 = mul_div(d.1, dist, UNIT);
    let t2 = Transform { rotation: heading, x: clamp_pos(t.x + dx), y: clamp_pos(t.y + dy), ..t };
    (t2, bo2)
}

/// Moves every player: rotates by the held keys, advances along the new
/// heading (boosted or braked while the reservoir and cooldown allow),
/// books the boost drain, cooldown and regeneration, despawns the player
/// and emits `PlayerDeath` when the self-destruct key is down, and
/// records the player's circle for the renderer.
#[verifier::spinoff_prover]
pub fn player_system(
    world: &mut World,
    commands: &mut Commands,
    events: &mut Events,
    circles: &mut CircleGeometry,
    keys: &KeyCodes,
    time: &Time,
)
    requires
        old(world).wf(),
        old(commands).wf(),
        old(events).wf(),
        time.duration <= MAX_STEP_MICROS,
        old(commands).queue@.len() + old(world).model().len() < 1_000_000_000,
        old(events).events@.len() + old(world).model().len() < 1_000_000_000,
    ensures
        final(world).wf(),
        final(commands).wf(),
        final(events).wf(),
        ({
            let m0 = old(world).model();
            let m1 = final(world).model();
            let dt = time.duration;
            &&& m1.generations == m0.generations
            &&& m1.alive == m0.alive
            &&& m1.players == m0.players
            &&& m1.projectiles == m0.projectiles
            &&& m1.dead_projectiles == m0.dead_projectiles
            &&& m1.explosion_effects == m0.explosion_effects
            &&& m1.tick_effects == m0.tick_effects
            &&& m1.trail_effects == m0.trail_effects
            &&& m1.interpolations == m0.interpolations
            &&& m1.ammo_pickups == m0.ammo_pickups
            &&& m1.boost_pickups == m0.boost_pickups
            &&& m1.transforms.len() == m0.transforms.len()
            &&& m1.boosts.len() == m0.boosts.len()
            &&& players_updated_upto(m0, m1.transforms, m1.boosts, *keys, dt, m0.len())
            &&& players_unchanged_outside(m0, m1.transforms, m1.boosts, m0.len())
            &&& final(commands).queue@ == old(commands).queue@ + player_cmds_upto(
                m0,
                *keys,
                m0.len(),
            )
            &&& final(events).events@ == old(events).events@ + player_events_upto(
                m0,
                *keys,
                m0.len(),
            )
            &&& final(events).cursors@ == old(events).cursors@
            &&& final(events).fresh == old(events).fresh
            &&& final(circles).shapes@ == old(circles).shapes@ + player_circles_upto(
                m0,
                *keys,
                dt,
                m0.len(),
            )
        }),
        final(commands).queue@.len() <= old(commands).queue@.len() + old(world).model().len(),
        final(events).events@.len() <= old(events).events@.len() + old(world).model().len(),
        old(circles).shapes@.is_prefix_of(final(circles).shapes@),
{
    let ghost m0 = old(world).model();
    let ghost q0 = old(commands).queue@;
    let ghost e0 = old(events).events@;
    let ghost c0 = old(events).cursors@;
    let ghost f0 = old(events).fresh;
    let ghost s0 = old(circles).shapes@;
    let dt: u64 = time.duration;
    let n = world.num_slots();
    let mut i: usize = 0;
    while i < n
        invariant
            i <= n,
            n == m0.len(),
            dt == time.duration,
            dt <= MAX_STEP_MICROS,
            world.wf(),
            commands.wf(),
            events.wf(),
            events.fresh == f0,
            world.generations@ == m0.generations,
            world.alive@ == m0.alive,
            world.players@ == m0.players,
            world.projectiles@ == m0.projectiles,
            world.dead_projectiles@ == m0.dead_projectiles,
            world.explosion_effects@ == m0.explosion_effects,
            world.tick_effects@ == m0.tick_effects,
            world.trail_effects@ == m0.trail_effects,
            world.interpolations@ == m0.interpolations,
            world.ammo_pickups@ == m0.ammo_pickups,
            world.boost_pickups@ == m0.boost_pickups,
            world.transforms@.len() == n,
            world.boosts@.len() == n,
            players_updated_upto(m0, world.transforms@, world.boosts@, *keys, dt, i as int),
            players_unchanged_outside(m0, world.transforms@, world.boosts@, i as int),
            commands.queue@ == q0 + player_cmds_upto(m0, *keys, i as int),
            events.events@ == e0 + player_events_upto(m0, *keys, i as int),
            events.cursors@ == c0,
            circles.shapes@ == s0 + player_circles_upto(m0, *keys, dt, i as int),
            s0.is_prefix_of(circles.shapes@),
            commands.queue@.len() <= q0.len() + i,
            events.events@.len() <= e0.len() + i,
            q0.len() + m0.len() < 1_000_000_000,
            e0.len() + m0.len() < 1_000_000_000,
        decreases n - i,
    {
        let ghost wpre = world.model();
        let has = world.alive[i] && world.players[i].is_some() && world.transforms[i].is_some()
            && world.boosts[i].is_some();
        proof {
            assert(has == player_slot(m0, i as int));
        }
        if has {
            let p: Player = world.players[i].unwrap();
            let t: Transform = world.transforms[i].unwrap();
            let bo: Boost = world.boosts[i].unwrap();
            proof {
                assert(crate::world::opt_player_wf(m0.players[i as int]));
                assert(crate::world::opt_transform_wf(m0.transforms[i as int]));
                assert(crate::world::opt_boost_wf(m0.boosts[i as int]));
            }
            let upd = player_update(p, t, bo, keys, dt);
            if keys.s {
                events.send(GameEvents::PlayerDeath);
                let g = world.generations[i];
                commands.despawn(Entity { index: i, generation: g });
            }
            world.transforms[i] = Some(upd.0);
            world.boosts[i] = Some(upd.1);
            // The player's stroked circle, radius 12 px, width 1.5 px.
            circles.push(
                ShapeDraw {
                    transform: upd.0,
                    off_x: 0,
                    off_y: 0,
                    off_z: 0,
                    size_a: 12_000_000,
                    size_b: 0,
                    line_width: 1_500_000,
                    filled: false,
                    color: rgb_color_player(),
                },
            );
        }
        proof {
            assert(commands.queue@ =~= q0 + player_cmds_upto(m0, *keys, i + 1));
            assert(events.events@ =~= e0 + player_events_upto(m0, *keys, i + 1));
            assert(circles.shapes@ =~= s0 + player_circles_upto(m0, *keys, dt, i + 1));
            assert(world.wf());
            assert(players_updated_upto(m0, world.transforms@, world.boosts@, *keys, dt, i + 1))
                by {
                assert forall|j: int| #[trigger] player_slot(m0, j) && j < i + 1 implies world
                    .transforms@[j] == Some(
                    player_transform_spec(
                        m0.players[j]->Some_0,
                        m0.transforms[j]->Some_0,
                        *keys,
                        player_drain_spec(m0.boosts[j]->Some_0, *keys, dt).0,
                        dt,
                    ),
                ) && world.boosts@[j] == Some(player_boost_spec(m0.boosts[j]->Some_0, *keys, dt)) by {
                    if j < i {
                        assert(wpre.transforms[j] == world.transforms@[j]);
                        assert(wpre.boosts[j] == world.boosts@[j]);
                    }
                }
            }
            assert(players_unchanged_outside(m0, world.transforms@, world.boosts@, i + 1)) by {
                assert forall|j: int|
                    0 <= j < m0.len() && !(player_slot(m0, j) && j < i + 1) implies world
                    .transforms@[j] == m0.transforms[j] && world.boosts@[j] == m0.boosts[j] by {
                    assert(!(player_slot(m0, j) && j < i));
                    assert(wpre.transforms[j] == m0.transforms[j]);
                    assert(wpre.boosts[j] == m0.boosts[j]);
                }
            }
        }
        i = i + 1;
    }
}

// ---------------------------------------------------------------------------
// Straight flight

/// A transform advanced along its heading by `speed` for one step, the
/// position staying clamped to the coordinate range.
pub open spec fn fly_spec(t: Transform, speed: i64, dt: u64) -> Transform {
    let dist = per_step(speed as int, dt as int);
    let dx = mul_div_trunc(-sin_uturn_spec(t.rotation as int), dist, UNIT as int);
    let dy = mul_div_trunc(cos_uturn_spec(t.rotation as int), dist, UNIT as int);
    Transform {
        x: clamp_spec(t.x + dx, -POS_LIMIT as int, POS_LIMIT as int) as i64,
        y: clamp_spec(t.y + dy, -POS_LIMIT as int, POS_LIMIT as int) as i64,
        ..t
    }
}

/// Advances a transform along its heading by `speed` for one step.
pub fn fly(t: Transform, speed: i64, dt: u64) -> (t2: Transform)
    requires
        t.wf(),
        0 <= speed <= SPEED_LIMIT,
        dt <= MAX_STEP_MICROS,
    ensures
        t2 == fly_spec(t, speed, dt),
        t2.wf(),
{
    proof {
        assert(speed * dt <= 1_000_000_000 * (MICROS_PER_SEC as int)) by (nonlinear_arith)
            requires
                0 <= speed <= 1_000_000_000,
                0 <= dt <= 1_000_000,
                MICROS_PER_SEC == 1_000_000,
        {}
        crate::fixed::lemma_mul_div_trunc_upper(speed as int, dt as int, MICROS_PER_SEC as int,
            1_000_000_000);
    }
    let dist: i64 = mul_div(speed, dt as i64, MICROS_PER_SEC as i64);
    let d = forward(t.rotation);
    proof {
        assert(d.0 * dist <= 1_000_000_000 * (UNIT as int) && (-d.0) * dist <= 1_000_000_000 * (
        UNIT as int) && d.1 * dist <= 1_000_000_000 * (UNIT as int) && (-d.1) * dist
            <= 1_000_000_000 * (UNIT as int)) by (nonlinear_arith)
            requires
                -1_000_000 <= d.0 <= 1_000_000,
                -1_000_000 <= d.1 <= 1_000_000,
                0 <= dist <= 1_000_000_000,
                UNIT == 1_000_000,
        {}
        crate::fixed::lemma_mul_div_trunc_upper(d.0 as int, dist as int, UNIT as int,
            1_000_000_000);
        crate::fixed::lemma_mul_div_trunc_upper(d.1 as int, dist as int, UNIT as int,
            1_000_000_000);
    }
    let dx: i64 = mul_div(d.0, dist, UNIT);
    let dy: i64 = mul_div(d.1, dist, UNIT);
    Transform { x: clamp_pos(t.x + dx), y: clamp_pos(t.y + dy), ..t }
}

// ---------------------------------------------------------------------------
// Projectile flight and boundary death

/// Whether slot `i` carries a flying projectile.
pub open spec fn projectile_slot(m: WorldModel, i: int) -> bool {
    &&& 0 <= i < m.len()
    &&& m.alive[i]
    &&& m.projectiles[i] is Some
    &&& m.transforms[i] is Some
}

/// The two-frame corpse a projectile leaves on the boundary: position
/// clamped into the screen, heading a quarter turn back when a vertical
/// edge was crossed, and a one-shot quarter-second lifetime.
pub open spec fn dead_projectile_bundle(t: Transform, b0: Bundle) -> Bundle {
    Bundle {
        transform: Some(
            Transform {
                rotation: if t.x < 0 || t.x > SCREEN_WIDTH {
                    750_000
                } else {
                    0
                },
                x: clamp_spec(t.x as int, 0, (SCREEN_WIDTH - DEAD_PROJECTILE_HEIGHT) as int) as i64,
                y: clamp_spec(t.y as int, 0, (SCREEN_HEIGHT - DEAD_PROJECTILE_HEIGHT) as int) as i64,
                z: 1_000_000,
                center_rotation: 0,
            },
        ),
        dead_projectile: Some(
            DeadProjectile {
                timer: Timer {
                    elapsed: 0,
                    duration: 250_000,
                    count: 0,
                    finished: false,
                    repeating: false,
                },
            },
        ),
        ..b0
    }
}

/// The commands the projectile system queues for the slots below `i`:
/// for each projectile past a screen edge, its despawn followed by the
/// corpse spawn.
pub open spec fn projectile_cmds_upto(m: WorldModel, empty: Bundle, i: int) -> Seq<Command>
    decreases i,
{
    if i <= 0 {
        Seq::empty()
    } else {
        projectile_cmds_upto(m, empty, i - 1) + (if projectile_slot(m, i - 1)
            && screen_out_of_bounds_spec(
            m.transforms[i - 1]->Some_0.x as int,
            m.transforms[i - 1]->Some_0.y as int,
            0,
        ) {
            seq![
                Command::Despawn(slot_entity(m, i - 1)),
                Command::Spawn(dead_projectile_bundle(m.transforms[i - 1]->Some_0, empty)),
            ]
        } else {
            Seq::empty()
        })
    }
}

/// The circles recorded for the slots below `i`: each flying
/// projectile's advanced placement carries its 2.5 px stroked circle in
/// white.
pub open spec fn projectile_circles_upto(m: WorldModel, dt: u64, i: int) -> Seq<
    crate::resources::ShapeDraw,
>
    decreases i,
{
    if i <= 0 {
        Seq::empty()
    } else {
        projectile_circles_upto(m, dt, i - 1) + (if projectile_slot(m, i - 1) {
            seq![
                crate::resources::ShapeDraw {
                    transform: fly_spec(
                        m.transforms[i - 1]->Some_0,
                        m.projectiles[i - 1]->Some_0.movement_speed,
                        dt,
                    ),
                    off_x: 0,
                    off_y: 0,
                    off_z: 0,
                    size_a: 2_500_000,
                    size_b: 0,
                    line_width: 1_000_000,
                    filled: false,
                    color: Rgb { r: 255, g: 255, b: 255 },
                },
            ]
        } else {
            Seq::empty()
        })
    }
}

/// The boundary-death events for the slots below `i`.
pub open spec fn projectile_events_upto(m: WorldModel, i: int) -> Seq<GameEvents>
    decreases i,
{
    if i <= 0 {
        Seq::empty()
    } else {
        projectile_events_upto(m, i - 1) + (if projectile_slot(m, i - 1)
            && screen_out_of_bounds_spec(
            m.transforms[i - 1]->Some_0.x as int,
            m.transforms[i - 1]->Some_0.y as int,
            0,
        ) {
            seq![GameEvents::ProjectileDeath]
        } else {
            Seq::empty()
        })
    }
}

/// All projectile slots below `i` carry their advanced placement.
pub open spec fn projectiles_updated_upto(
    m0: WorldModel,
    tr: Seq<Option<Transform>>,
    dt: u64,
    i: int,
) -> bool {
    forall|j: int|
        #[trigger] projectile_slot(m0, j) && j < i ==> tr[j] == Some(
            fly_spec(m0.transforms[j]->Some_0, m0.projectiles[j]->Some_0.movement_speed, dt),
        )
}

/// Every slot that is not a projectile slot below `i` keeps its placement.
pub open spec fn projectiles_unchanged_outside(
    m0: WorldModel,
    tr: Seq<Option<Transform>>,
    i: int,
) -> bool {
    forall|j: int|
        0 <= j < m0.len() && !(projectile_slot(m0, j) && j < i) ==> tr[j] == m0.transforms[j]
}

/// Flies every projectile along its heading. One that stands past a
/// screen edge is despawned, leaves a two-frame corpse clamped into the
/// screen, and announces its death; it still flies this step, and the
/// barrier removes it before the next. Each projectile's stroked circle
/// is recorded for the renderer.
#[verifier::spinoff_prover]
pub fn projectile_system(
    world: &mut World,
    commands: &mut Commands,
    events: &mut Events,
    circles: &mut CircleGeometry,
    time: &Time,
)
    requires
        old(world).wf(),
        old(commands).wf(),
        old(events).wf(),
        time.duration <= MAX_STEP_MICROS,
        old(commands).queue@.len() + 2 * old(world).model().len() < 1_000_000_000,
        old(events).events@.len() + old(world).model().len() < 1_000_000_000,
    ensures
        final(world).wf(),
        final(commands).wf(),
        final(events).wf(),
        ({
            let m0 = old(world).model();
            let m1 = final(world).model();
            let dt = time.duration;
            &&& m1.generations == m0.generations
            &&& m1.alive == m0.alive
            &&& m1.players == m0.players
            &&& m1.projectiles == m0.projectiles
            &&& m1.dead_projectiles == m0.dead_projectiles
            &&& m1.explosion_effects == m0.explosion_effects
            &&& m1.tick_effects == m0.tick_effects
            &&& m1.trail_effects == m0.trail_effects
            &&& m1.interpolations == m0.interpolations
            &&& m1.boosts == m0.boosts
            &&& m1.ammo_pickups == m0.ammo_pickups
            &&& m1.boost_pickups == m0.boost_pickups
            &&& m1.transforms.len() == m0.transforms.len()
            &&& projectiles_updated_upto(m0, m1.transforms, dt, m0.len())
            &&& projectiles_unchanged_outside(m0, m1.transforms, m0.len())
            &&& final(commands).queue@ == old(commands).queue@ + projectile_cmds_upto(
                m0,
                crate::world::empty_bundle(),
                m0.len(),
            )
            &&& final(events).events@ == old(events).events@ + projectile_events_upto(m0, m0.len())
            &&& final(events).cursors@ == old(events).cursors@
            &&& final(events).fresh == old(events).fresh
            &&& final(circles).shapes@ == old(circles).shapes@ + projectile_circles_upto(
                m0,
                dt,
                m0.len(),
            )
        }),
        final(commands).queue@.len() <= old(commands).queue@.len() + 2 * old(world).model().len(),
        final(events).events@.len() <= old(events).events@.len() + old(world).model().len(),
        old(circles).shapes@.is_prefix_of(final(circles).shapes@),
{
    let ghost m0 = old(world).model();
    let ghost q0 = old(commands).queue@;
    let ghost e0 = old(events).events@;
    let ghost c0 = old(events).cursors@;
    let ghost f0 = old(events).fresh;
    let ghost s0 = old(circles).shapes@;
    let dt: u64 = time.duration;
    let ghost empty = crate::world::empty_bundle();
    let n = world.num_slots();
    let mut i: usize = 0;
    while i < n
        invariant
            i <= n,
            n == m0.len(),
            dt == time.duration,
            dt <= MAX_STEP_MICROS,
            world.wf(),
            commands.wf(),
            events.wf(),
            events.fresh == f0,
            world.generations@ == m0.generations,
            world.alive@ == m0.alive,
            world.players@ == m0.players,
            world.projectiles@ == m0.projectiles,
            world.dead_projectiles@ == m0.dead_projectiles,
            world.explosion_effects@ == m0.explosion_effects,
            world.tick_effects@ == m0.tick_effects,
            world.trail_effects@ == m0.trail_effects,
            world.interpolations@ == m0.interpolations,
            world.boosts@ == m0.boosts,
            world.ammo_pickups@ == m0.ammo_pickups,
            world.boost_pickups@ == m0.boost_pickups,
            world.transforms@.len() == n,
            projectiles_updated_upto(m0, world.transforms@, dt, i as int),
            projectiles_unchanged_outside(m0, world.transforms@, i as int),
            commands.queue@ == q0 + projectile_cmds_upto(m0, empty, i as int),
            events.events@ == e0 + projectile_events_upto(m0, i as int),
            events.cursors@ == c0,
            circles.shapes@ == s0 + projectile_circles_upto(m0, dt, i as int),
            s0.is_prefix_of(circles.shapes@),
            commands.queue@.len() <= q0.len() + 2 * i,
            events.events@.len() <= e0.len() + i,
            q0.len() + 2 * m0.len() < 1_000_000_000,
            e0.len() + m0.len() < 1_000_000_000,
            empty == crate::world::empty_bundle(),
        decreases n - i,
    {
        let ghost wpre = world.model();
        let has = world.alive[i] && world.projectiles[i].is_some()
            && world.transforms[i].is_some();
        proof {
            assert(has == projectile_slot(m0, i as int));
        }
        if has {
            let pr: Projectile = world.projectiles[i].unwrap();
            let t: Transform = world.transforms[i].unwrap();
            proof {
                assert(crate::world::opt_projectile_wf(m0.projectiles[i as int]));
                assert(crate::world::opt_transform_wf(m0.transforms[i as int]));
            }
            if screen_out_of_bounds_test(t.x, t.y, None) {
                let g = world.generations[i];
                commands.despawn(Entity { index: i, generation: g });
                let mut db = Bundle::empty();
                let rot: i64 = if t.x < 0 || t.x > SCREEN_WIDTH {
                    750_000
                } else {
                    0
                };
                db.transform = Some(
                    Transform {
                        rotation: rot,
                        x: crate::fixed::clamp(t.x, 0, SCREEN_WIDTH - DEAD_PROJECTILE_HEIGHT),
                        y: crate::fixed::clamp(t.y, 0, SCREEN_HEIGHT - DEAD_PROJECTILE_HEIGHT),
                        z: 1_000_000,
                        center_rotation: 0,
                    },
                );
                db.dead_projectile = Some(
                    DeadProjectile { timer: Timer::from_micros(250_000, false) },
                );
                proof {
                    assert(db == dead_projectile_bundle(m0.transforms[i as int]->Some_0, empty));
                }
                commands.spawn(db);
                events.send(GameEvents::ProjectileDeath);
            }
            let t2 = fly(t, pr.movement_speed, dt);
            world.transforms[i] = Some(t2);
            // The projectile's stroked circle, radius 2.5 px.
            circles.push(
                ShapeDraw {
                    transform: t2,
                    off_x: 0,
                    off_y: 0,
                    off_z: 0,
                    size_a: 2_500_000,
                    size_b: 0,
                    line_width: 1_000_000,
                    filled: false,
                    color: rgb_color_player(),
                },
            );
        }
        proof {
            assert(commands.queue@ =~= q0 + projectile_cmds_upto(m0, empty, i + 1));
            assert(events.events@ =~= e0 + projectile_events_upto(m0, i + 1));
            assert(circles.shapes@ =~= s0 + projectile_circles_upto(m0, dt, i + 1));
            assert(world.wf());
            assert(projectiles_updated_upto(m0, world.transforms@, dt, i + 1)) by {
                assert forall|j: int| #[trigger] projectile_slot(m0, j) && j < i + 1 implies world
                    .transforms@[j] == Some(
                    fly_spec(
                        m0.transforms[j]->Some_0,
                        m0.projectiles[j]->Some_0.movement_speed,
                        dt,
                    ),
                ) by {
                    if j < i {
                        assert(wpre.transforms[j] == world.transforms@[j]);
                    }
                }
            }
            assert(projectiles_unchanged_outside(m0, world.transforms@, i + 1)) by {
                assert forall|j: int|
                    0 <= j < m0.len() && !(projectile_slot(m0, j) && j < i + 1) implies world
                    .transforms@[j] == m0.transforms[j] by {
                    assert(!(projectile_slot(m0, j) && j < i));
                    assert(wpre.transforms[j] == m0.transforms[j]);
                }
            }
        }
        i = i + 1;
    }
}

// ---------------------------------------------------------------------------
// Dead projectile animation

/// Whether slot `i` carries a projectile corpse.
pub open spec fn dead_projectile_slot(m: WorldModel, i: int) -> bool {
    &&& 0 <= i < m.len()
    &&& m.alive[i]
    &&& m.dead_projectiles[i] is Some
    &&& m.transforms[i] is Some
}

/// The despawns of the corpses whose timers finish, for slots below `i`.
pub open spec fn dead_projectile_cmds_upto(m: WorldModel, dt: u64, i: int) -> Seq<Command>
    decreases i,
{
    if i <= 0 {
        Seq::empty()
    } else {
        dead_projectile_cmds_upto(m, dt, i - 1) + (if dead_projectile_slot(m, i - 1)
            && m.dead_projectiles[i - 1]->Some_0.timer.tick_spec(dt).finished {
            seq![Command::Despawn(slot_entity(m, i - 1))]
        } else {
            Seq::empty()
        })
    }
}

/// The corpse quads recorded for the slots below `i`: each still-running
/// corpse draws its 6 by 3 pixel sprite, white for the first 0.1 s of the
/// animation and death-colored after.
pub open spec fn dead_projectile_quads_upto(m: WorldModel, dt: u64, i: int) -> Seq<
    crate::resources::ShapeDraw,
>
    decreases i,
{
    if i <= 0 {
        Seq::empty()
    } else {
        dead_projectile_quads_upto(m, dt, i - 1) + (if dead_projectile_slot(m, i - 1)
            && !m.dead_projectiles[i - 1]->Some_0.timer.tick_spec(dt).finished {
            seq![
                crate::resources::ShapeDraw {
                    transform: m.transforms[i - 1]->Some_0,
                    off_x: 0,
                    off_y: 0,
                    off_z: 0,
                    size_a: DEAD_PROJECTILE_WIDTH,
                    size_b: DEAD_PROJECTILE_HEIGHT,
                    line_width: 0,
                    filled: true,
                    color: if m.dead_projectiles[i - 1]->Some_0.timer.tick_spec(dt).elapsed
                        >= 100_000 {
                        Rgb { r: 241, g: 103, b: 69 }
                    } else {
                        Rgb { r: 255, g: 255, b: 255 }
                    },
                },
            ]
        } else {
            Seq::empty()
        })
    }
}

/// All corpse slots below `i` carry their ticked timer.
pub open spec fn dead_projectiles_updated_upto(
    m0: WorldModel,
    dp: Seq<Option<DeadProjectile>>,
    dt: u64,
    i: int,
) -> bool {
    forall|j: int|
        #[trigger] dead_projectile_slot(m0, j) && j < i ==> dp[j] == Some(
            DeadProjectile { timer: m0.dead_projectiles[j]->Some_0.timer.tick_spec(dt) },
        )
}

/// Every slot that is not a corpse slot below `i` keeps its record.
pub open spec fn dead_projectiles_unchanged_outside(
    m0: WorldModel,
    dp: Seq<Option<DeadProjectile>>,
    i: int,
) -> bool {
    forall|j: int|
        0 <= j < m0.len() && !(dead_projectile_slot(m0, j) && j < i) ==> dp[j]
            == m0.dead_projectiles[j]
}

/// Runs every projectile corpse's one-shot timer on the scaled step.
/// A corpse whose timer finishes is despawned; a live one is drawn as a
/// small quad, white for the first 0.1 s and death-colored after.
#[verifier::rlimit(60)]
#[verifier::spinoff_prover]
pub fn projectile_death_system(
    world: &mut World,
    commands: &mut Commands,
    quads: &mut crate::resources::QuadGeometry,
    time: &Time,
)
    requires
        old(world).wf(),
        old(commands).wf(),
        time.duration <= MAX_STEP_MICROS,
        old(commands).queue@.len() + old(world).model().len() < 1_000_000_000,
    ensures
        final(world).wf(),
        final(commands).wf(),
        ({
            let m0 = old(world).model();
            let m1 = final(world).model();
            let dt = time.duration;
            &&& m1.generations == m0.generations
            &&& m1.alive == m0.alive
            &&& m1.players == m0.players
            &&& m1.projectiles == m0.projectiles
            &&& m1.transforms == m0.transforms
            &&& m1.explosion_effects == m0.explosion_effects
            &&& m1.tick_effects == m0.tick_effects
            &&& m1.trail_effects == m0.trail_effects
            &&& m1.interpolations == m0.interpolations
            &&& m1.boosts == m0.boosts
            &&& m1.ammo_pickups == m0.ammo_pickups
            &&& m1.boost_pickups == m0.boost_pickups
            &&& m1.dead_projectiles.len() == m0.dead_projectiles.len()
            &&& dead_projectiles_updated_upto(m0, m1.dead_projectiles, dt, m0.len())
            &&& dead_projectiles_unchanged_outside(m0, m1.dead_projectiles, m0.len())
            &&& final(commands).queue@ == old(commands).queue@ + dead_projectile_cmds_upto(
                m0,
                dt,
                m0.len(),
            )
            &&& final(quads).shapes@ == old(quads).shapes@ + dead_projectile_quads_upto(
                m0,
                dt,
                m0.len(),
            )
        }),
        final(commands).queue@.len() <= old(commands).queue@.len() + old(world).model().len(),
        old(quads).shapes@.is_prefix_of(final(quads).shapes@),
{
    let ghost m0 = old(world).model();
    let ghost q0 = old(commands).queue@;
    let ghost s0 = old(quads).shapes@;
    let dt: u64 = time.duration;
    let n = world.num_slots();
    let mut i: usize = 0;
    while i < n
        invariant
            i <= n,
            n == m0.len(),
            dt == time.duration,
            dt <= MAX_STEP_MICROS,
            world.wf(),
            commands.wf(),
            world.generations@ == m0.generations,
            world.alive@ == m0.alive,
            world.players@ == m0.players,
            world.projectiles@ == m0.projectiles,
            world.transforms@ == m0.transforms,
            world.explosion_effects@ == m0.explosion_effects,
            world.tick_effects@ == m0.tick_effects,
            world.trail_effects@ == m0.trail_effects,
            world.interpolations@ == m0.interpolations,
            world.boosts@ == m0.boosts,
            world.ammo_pickups@ == m0.ammo_pickups,
            world.boost_pickups@ == m0.boost_pickups,
            world.dead_projectiles@.len() == n,
            dead_projectiles_updated_upto(m0, world.dead_projectiles@, dt, i as int),
            dead_projectiles_unchanged_outside(m0, world.dead_projectiles@, i as int),
            commands.queue@ == q0 + dead_projectile_cmds_upto(m0, dt, i as int),
            quads.shapes@ == s0 + dead_projectile_quads_upto(m0, dt, i as int),
            s0.is_prefix_of(quads.shapes@),
            commands.queue@.len() <= q0.len() + i,
            q0.len() + m0.len() < 1_000_000_000,
        decreases n - i,
    {
        let ghost wpre = world.model();
        let has = world.alive[i] && world.dead_projectiles[i].is_some()
            && world.transforms[i].is_some();
        proof {
            assert(has == dead_projectile_slot(m0, i as int));
        }
        if has {
            let dp: DeadProjectile = world.dead_projectiles[i].unwrap();
            let t: Transform = world.transforms[i].unwrap();
            proof {
                assert(crate::world::opt_dead_projectile_wf(m0.dead_projectiles[i as int]));
            }
            let mut timer = dp.timer;
            timer.tick(dt);
            world.dead_projectiles[i] = Some(DeadProjectile { timer });
            if timer.finished {
                let g = world.generations[i];
                commands.despawn(Entity { index: i, generation: g });
            } else {
                // The two-frame corpse quad: white first, death-colored
                // once 0.1 s have elapsed.
                let color = if timer.elapsed >= 100_000 {
                    rgb_color_death()
                } else {
                    rgb_color_player()
                };
                quads.push(
                    ShapeDraw {
                        transform: t,
                        off_x: 0,
                        off_y: 0,
                        off_z: 0,
                        size_a: DEAD_PROJECTILE_WIDTH,
                        size_b: DEAD_PROJECTILE_HEIGHT,
                        line_width: 0,
                        filled: true,
                        color,
                    },
                );
            }
        }
        proof {
            assert(commands.queue@ =~= q0 + dead_projectile_cmds_upto(m0, dt, i + 1));
            assert(quads.shapes@ =~= s0 + dead_projectile_quads_upto(m0, dt, i + 1));
            assert forall|j: int| 0 <= j < m0.len() implies crate::world::opt_dead_projectile_wf(
                #[trigger] world.dead_projectiles@[j],
            ) by {
                assert(crate::world::opt_transform_wf(wpre.transforms[j]));
                assert(crate::world::opt_dead_projectile_wf(wpre.dead_projectiles[j]));
                if has && j == i {
                } else {
                    assert(world.dead_projectiles@[j] == wpre.dead_projectiles[j]);
                }
            }
            assert(world.wf());
            assert(dead_projectiles_updated_upto(m0, world.dead_projectiles@, dt, i + 1)) by {
                assert forall|j: int| #[trigger] dead_projectile_slot(m0, j) && j < i + 1 implies
                    world.dead_projectiles@[j] == Some(
                    DeadProjectile { timer: m0.dead_projectiles[j]->Some_0.timer.tick_spec(dt) },
                ) by {
                    if j < i {
                        assert(wpre.dead_projectiles[j] == world.dead_projectiles@[j]);
                    }
                }
            }
            assert(dead_projectiles_unchanged_outside(m0, world.dead_projectiles@, i + 1)) by {
                assert forall|j: int|
                    0 <= j < m0.len() && !(dead_projectile_slot(m0, j) && j < i + 1) implies world
                    .dead_projectiles@[j] == m0.dead_projectiles[j] by {
                    assert(!(dead_projectile_slot(m0, j) && j < i));
                    assert(wpre.dead_projectiles[j] == m0.dead_projectiles[j]);
                }
            }
        }
        i = i + 1;
    }
}

// ---------------------------------------------------------------------------
// Camera shake and screen flash

/// Reacts to a player death by starting the screen shake, and advances a
/// running shake on the raw (never dilated) step, writing the offset into
/// the camera. As in the shake generator itself, the step that passes the
/// end of the shake recentres the camera. A shake triggered this step
/// starts advancing on the next one.
pub fn camera_shake_system(
    events: &mut Events,
    reader: usize,
    camera: &mut Camera,
    shake: &mut Shake,
    raw_time: &DurationWrapper,
)
    requires
        old(events).wf(),
        reader < old(events).cursors@.len(),
        old(shake).wf(),
        raw_time.0 <= MAX_STEP_MICROS,
    ensures
        final(events).wf(),
        final(shake).wf(),
        final(events).events@ == old(events).events@,
        final(events).cursors@ == old(events).cursors@.update(
            reader as int,
            old(events).events@.len() as usize,
        ),
        final(events).fresh == old(events).fresh,
        ({
            let death = old(events).events@.subrange(
                old(events).cursors@[reader as int] as int,
                old(events).events@.len() as int,
            ).contains(GameEvents::PlayerDeath);
            let triggered = Shake { is_shaking: old(shake).is_shaking || death, ..*old(shake) };
            if !old(shake).is_shaking {
                &&& *final(shake) == triggered
                &&& *final(camera) == *old(camera)
            } else if old(shake).time + raw_time.0 > old(shake).duration {
                &&& *final(shake) == (Shake { is_shaking: false, time: 0, ..triggered })
                &&& *final(camera) == (Camera { x: 0, y: 0, z: 0 })
            } else {
                &&& *final(shake) == (Shake {
                    time: (old(shake).time + raw_time.0) as u64,
                    ..triggered
                })
                &&& final(camera).x == crate::resources::track_offset_spec(
                    old(shake).duration as int,
                    old(shake).frequency as int,
                    old(shake).amplitude as int,
                    old(shake).samples_x@,
                    old(shake).time + raw_time.0,
                )
                &&& final(camera).y == crate::resources::track_offset_spec(
                    old(shake).duration as int,
                    old(shake).frequency as int,
                    old(shake).amplitude as int,
                    old(shake).samples_y@,
                    old(shake).time + raw_time.0,
                )
                &&& final(camera).z == 0
            }
        }),
{
    let was_shaking = shake.is_shaking;
    let death = events.read_contains(reader, GameEvents::PlayerDeath);
    if death {
        shake.on_trigger();
    }
    if was_shaking {
        let offset = shake.advance(raw_time.0);
        camera.x = offset.0;
        camera.y = offset.1;
        camera.z = 0;
    }
}

/// Reacts to a player death by starting the screen flash, and while one
/// runs draws a full-screen quad for a few frames, then resets to the
/// idle state. The flash counts raw frames; it is not slowed down.
pub fn screen_flash_system(
    events: &mut Events,
    reader: usize,
    flash: &mut Flash,
    quads: &mut crate::resources::QuadGeometry,
)
    requires
        old(events).wf(),
        reader < old(events).cursors@.len(),
        old(flash).wf(),
    ensures
        final(events).wf(),
        final(flash).wf(),
        final(events).events@ == old(events).events@,
        final(events).cursors@ == old(events).cursors@.update(
            reader as int,
            old(events).events@.len() as usize,
        ),
        final(events).fresh == old(events).fresh,
        ({
            let death = old(events).events@.subrange(
                old(events).cursors@[reader as int] as int,
                old(events).events@.len() as int,
            ).contains(GameEvents::PlayerDeath);
            let flashing = old(flash).is_flashing || death;
            if !flashing {
                *final(flash) == *old(flash) && final(quads).shapes@ == old(quads).shapes@
            } else if old(flash).frame_cnt > 1 {
                *final(flash) == (Flash {
                    frame_cnt: (old(flash).frame_cnt - 1) as u8,
                    is_flashing: true,
                }) && final(quads).shapes@ == old(quads).shapes@.push(
                    ShapeDraw {
                        transform: Transform { rotation: 0, x: 0, y: 0, z: 0, center_rotation: 0 },
                        off_x: 0,
                        off_y: 0,
                        off_z: 100_000_000,
                        size_a: SCREEN_WIDTH,
                        size_b: SCREEN_HEIGHT,
                        line_width: 0,
                        filled: true,
                        color: Rgb { r: 255, g: 255, b: 255 },
                    },
                )
            } else {
                *final(flash) == (Flash { frame_cnt: 4, is_flashing: false })
                    && final(quads).shapes@ == old(quads).shapes@
            }
        }),
        old(quads).shapes@.is_prefix_of(final(quads).shapes@),
{
    let death = events.read_contains(reader, GameEvents::PlayerDeath);
    if death {
        flash.is_flashing = true;
    }
    if flash.is_flashing {
        flash.frame_cnt = flash.frame_cnt - 1;
        if flash.frame_cnt > 0 {
            // The full-screen overlay quad, drawn far in front.
            quads.push(
                ShapeDraw {
                    transform: Transform { rotation: 0, x: 0, y: 0, z: 0, center_rotation: 0 },
                    off_x: 0,
                    off_y: 0,
                    off_z: 100_000_000,
                    size_a: SCREEN_WIDTH,
                    size_b: SCREEN_HEIGHT,
                    line_width: 0,
                    filled: true,
                    color: rgb_color_player(),
                },
            );
            proof {
                assert(old(quads).shapes@.is_prefix_of(quads.shapes@)) by {
                    assert(quads.shapes@.subrange(0, old(quads).shapes@.len() as int)
                        =~= old(quads).shapes@);
                }
            }
        } else {
            flash.frame_cnt = 4;
            flash.is_flashing = false;
        }
    }
}



// ---------------------------------------------------------------------------
// Projectile spawning

/// A projectile bundle fired from `t` with the given speed, offset by
/// `(dx, dy)` from the shooter.
pub open spec fn projectile_bundle(b0: Bundle, speed: i64, t: Transform, dx: int, dy: int) -> Bundle {
    Bundle {
        transform: Some(
            Transform {
                x: clamp_spec(t.x + dx, -POS_LIMIT as int, POS_LIMIT as int) as i64,
                y: clamp_spec(t.y + dy, -POS_LIMIT as int, POS_LIMIT as int) as i64,
                ..t
            },
        ),
        projectile: Some(Projectile { movement_speed: speed }),
        ..b0
    }
}

/// The projectile speed fired by a player: twice the player's speed,
/// capped at the speed limit.
pub open spec fn fired_speed(p: Player) -> i64 {
    if 2 * p.movement_speed > SPEED_LIMIT {
        SPEED_LIMIT
    } else {
        (2 * p.movement_speed) as i64
    }
}

/// The spawns the projectile spawner queues for the slots below `i`:
/// when the projectile timer just fired, one projectile 12 px ahead of
/// each player, plus two more on the diagonals while the alternate-fire
/// key is down.
pub open spec fn projectile_spawn_cmds_upto(
    m: WorldModel,
    fin: bool,
    space: bool,
    b0: Bundle,
    i: int,
) -> Seq<Command>
    decreases i,
{
    if i <= 0 {
        Seq::empty()
    } else {
        projectile_spawn_cmds_upto(m, fin, space, b0, i - 1) + (if fin && player_slot(m, i - 1) {
            let p = m.players[i - 1]->Some_0;
            let t = m.transforms[i - 1]->Some_0;
            let s = sin_uturn_spec(t.rotation as int);
            let c = cos_uturn_spec(t.rotation as int);
            let main = seq![
                Command::Spawn(
                    projectile_bundle(
                        b0,
                        fired_speed(p),
                        t,
                        mul_div_trunc(-s, 12_000_000, UNIT as int),
                        mul_div_trunc(c, 12_000_000, UNIT as int),
                    ),
                ),
            ];
            if space {
                main + seq![
                    Command::Spawn(
                        projectile_bundle(
                            b0,
                            fired_speed(p),
                            t,
                            mul_div_trunc(c - s, 12_000_000, UNIT as int),
                            mul_div_trunc(s + c, 12_000_000, UNIT as int),
                        ),
                    ),
                    Command::Spawn(
                        projectile_bundle(
                            b0,
                            fired_speed(p),
                            t,
                            mul_div_trunc(-c - s, 12_000_000, UNIT as int),
                            mul_div_trunc(c - s, 12_000_000, UNIT as int),
                        ),
                    ),
                ]
            } else {
                main
            }
        } else {
            Seq::empty()
        })
    }
}

/// While the projectile timer fires, spawns one projectile ahead of each
/// player along its heading — or a three-shot fan (straight plus the two
/// rotated diagonals) while the alternate-fire key is down.
#[verifier::rlimit(100)]
pub fn projectile_spawn_system(
    world: &World,
    commands: &mut Commands,
    timers: &EntitySpawnTimer,
    keys: &KeyCodes,
)
    requires
        world.wf(),
        old(commands).wf(),
        old(commands).queue@.len() + 3 * world.model().len() < 1_000_000_000,
    ensures
        final(commands).wf(),
        final(commands).queue@ == old(commands).queue@ + projectile_spawn_cmds_upto(
            world.model(),
            timers.projectile.finished,
            keys.space,
            crate::world::empty_bundle(),
            world.model().len(),
        ),
        final(commands).queue@.len() <= old(commands).queue@.len() + 3 * world.model().len(),
{
    let ghost m0 = world.model();
    let ghost q0 = old(commands).queue@;
    let fin = timers.projectile.finished;
    let space = keys.space;
    let ghost b0 = crate::world::empty_bundle();
    let n = world.num_slots();
    let mut i: usize = 0;
    while i < n
        invariant
            i <= n,
            n == m0.len(),
            world.wf(),
            commands.wf(),
            m0 == world.model(),
            fin == timers.projectile.finished,
            space == keys.space,
            commands.queue@ == q0 + projectile_spawn_cmds_upto(m0, fin, space, b0, i as int),
            commands.queue@.len() <= q0.len() + 3 * i,
            q0.len() + 3 * m0.len() < 1_000_000_000,
            b0 == crate::world::empty_bundle(),
        decreases n - i,
    {
        let has = world.alive[i] && world.players[i].is_some() && world.transforms[i].is_some()
            && world.boosts[i].is_some();
        proof {
            assert(has == player_slot(m0, i as int));
        }
        if fin && has {
            let p: Player = world.players[i].unwrap();
            let t: Transform = world.transforms[i].unwrap();
            proof {
                assert(crate::world::opt_player_wf(m0.players[i as int]));
                assert(crate::world::opt_transform_wf(m0.transforms[i as int]));
            }
            let speed: i64 = if 2 * p.movement_speed > SPEED_LIMIT {
                SPEED_LIMIT
            } else {
                2 * p.movement_speed
            };
            let d = forward(t.rotation);
            let r = crate::trig::rightward(t.rotation);
            proof {
                assert((d.0 as int) * 12_000_000 <= 24_000_000 * (UNIT as int) && (-(d.0 as int))
                    * 12_000_000 <= 24_000_000 * (UNIT as int) && (d.1 as int) * 12_000_000
                    <= 24_000_000 * (UNIT as int) && (-(d.1 as int)) * 12_000_000 <= 24_000_000 * (
                UNIT as int) && (r.0 + d.0 as int) * 12_000_000 <= 24_000_000 * (UNIT as int) && (
                -(r.0 + d.0 as int)) * 12_000_000 <= 24_000_000 * (UNIT as int) && (r.1
                    + d.1 as int) * 12_000_000 <= 24_000_000 * (UNIT as int) && (-(r.1
                    + d.1 as int)) * 12_000_000 <= 24_000_000 * (UNIT as int) && (-r.0
                    + d.0 as int) * 12_000_000 <= 24_000_000 * (UNIT as int) && (-(-r.0
                    + d.0 as int)) * 12_000_000 <= 24_000_000 * (UNIT as int) && (-r.1
                    + d.1 as int) * 12_000_000 <= 24_000_000 * (UNIT as int) && (-(-r.1
                    + d.1 as int)) * 12_000_000 <= 24_000_000 * (UNIT as int)) by (nonlinear_arith)
                    requires
                        -1_000_000 <= d.0 <= 1_000_000,
                        -1_000_000 <= d.1 <= 1_000_000,
                        -1_000_000 <= r.0 <= 1_000_000,
                        -1_000_000 <= r.1 <= 1_000_000,
                        UNIT == 1_000_000,
                {}
                crate::fixed::lemma_mul_div_trunc_upper(d.0 as int, 12_000_000, UNIT as int,
                    24_000_000);
                crate::fixed::lemma_mul_div_trunc_upper(d.1 as int, 12_000_000, UNIT as int,
                    24_000_000);
                crate::fixed::lemma_mul_div_trunc_upper(r.0 + d.0 as int, 12_000_000, UNIT as int,
                    24_000_000);
                crate::fixed::lemma_mul_div_trunc_upper(r.1 + d.1 as int, 12_000_000, UNIT as int,
                    24_000_000);
                crate::fixed::lemma_mul_div_trunc_upper(-r.0 + d.0 as int, 12_000_000, UNIT as int,
                    24_000_000);
                crate::fixed::lemma_mul_div_trunc_upper(-r.1 + d.1 as int, 12_000_000, UNIT as int,
                    24_000_000);
            }
            let mut b = Bundle::empty();
            b.transform = Some(
                Transform {
                    x: clamp_pos(t.x + mul_div(d.0, 12_000_000, UNIT)),
                    y: clamp_pos(t.y + mul_div(d.1, 12_000_000, UNIT)),
                    ..t
                },
            );
            b.projectile = Some(Projectile { movement_speed: speed });
            commands.spawn(b);
            if space {
                // The heading applied to the diagonal (1, 1).
                let mut b1 = Bundle::empty();
                b1.transform = Some(
                    Transform {
                        x: clamp_pos(t.x + mul_div(r.0 + d.0, 12_000_000, UNIT)),
                        y: clamp_pos(t.y + mul_div(r.1 + d.1, 12_000_000, UNIT)),
                        ..t
                    },
                );
                b1.projectile = Some(Projectile { movement_speed: speed });
                commands.spawn(b1);
                // The heading applied to the diagonal (-1, 1).
                let mut b2 = Bundle::empty();
                b2.transform = Some(
                    Transform {
                        x: clamp_pos(t.x + mul_div(-r.0 + d.0, 12_000_000, UNIT)),
                        y: clamp_pos(t.y + mul_div(-r.1 + d.1, 12_000_000, UNIT)),
                        ..t
                    },
                );
                b2.projectile = Some(Projectile { movement_speed: speed });
                commands.spawn(b2);
            }
        }
        proof {
            assert(commands.queue@ =~= q0 + projectile_spawn_cmds_upto(m0, fin, space, b0, i + 1));
        }
        i = i + 1;
    }
}

// ---------------------------------------------------------------------------
// Tick effect spawning

/// How many full player slots lie below `i`.
pub open spec fn player_count_upto(m: WorldModel, i: int) -> int
    decreases i,
{
    if i <= 0 {
        0
    } else {
        player_count_upto(m, i - 1) + (if player_slot(m, i - 1) {
            1int
        } else {
            0int
        })
    }
}

/// What the tick-effect bundle holds.
pub open spec fn tick_bundle_spec(b: Bundle) -> bool {
    &&& b.tick_effect == Some(TickEffect)
    &&& b.interpolation is Some
    &&& b.interpolation->Some_0.time == 0
    &&& b.interpolation->Some_0.duration == 130_000
    &&& b.interpolation->Some_0.begin_end@ == seq![(32_000_000i64, 0i64)]
    &&& b.interpolation->Some_0.repeating == true
    &&& b.transform is None
    &&& b.player is None
    &&& b.projectile is None
    &&& b.dead_projectile is None
    &&& b.explosion_effect is None
    &&& b.trail_effect is None
    &&& b.boost is None
    &&& b.ammo_pickup is None
    &&& b.boost_pickup is None
}

/// While the tick-effect timer fires, spawns the pulse entity for each
/// player: a repeating tween from 32 px down to 0 over 0.13 s.
pub fn tick_effect_spawn_system(world: &World, commands: &mut Commands, timers: &EntitySpawnTimer)
    requires
        world.wf(),
        old(commands).wf(),
        old(commands).queue@.len() + world.model().len() < 1_000_000_000,
    ensures
        final(commands).wf(),
        old(commands).queue@.is_prefix_of(final(commands).queue@),
        final(commands).queue@.len() == old(commands).queue@.len() + (if timers.tick_effect.finished {
            player_count_upto(world.model(), world.model().len())
        } else {
            0
        }),
        forall|k: int|
            old(commands).queue@.len() <= k < final(commands).queue@.len() ==> ((
            #[trigger] final(commands).queue@[k]) matches Command::Spawn(b)
                && tick_bundle_spec(b)),
        final(commands).queue@.len() <= old(commands).queue@.len() + world.model().len(),
{
    let ghost m0 = world.model();
    let ghost q0 = old(commands).queue@;
    let fin = timers.tick_effect.finished;
    let n = world.num_slots();
    let mut i: usize = 0;
    while i < n
        invariant
            i <= n,
            n == m0.len(),
            world.wf(),
            commands.wf(),
            m0 == world.model(),
            fin == timers.tick_effect.finished,
            q0.is_prefix_of(commands.queue@),
            commands.queue@.len() == q0.len() + (if fin {
                player_count_upto(m0, i as int)
            } else {
                0
            }),
            forall|k: int|
                q0.len() <= k < commands.queue@.len() ==> ((#[trigger] commands.queue@[k]) matches
                    Command::Spawn(b) && tick_bundle_spec(b)),
            commands.queue@.len() <= q0.len() + i,
            q0.len() + m0.len() < 1_000_000_000,
        decreases n - i,
    {
        proof {
            assert(player_count_upto(m0, i + 1) <= player_count_upto(m0, i as int) + 1);
        }
        let has = world.alive[i] && world.players[i].is_some() && world.transforms[i].is_some()
            && world.boosts[i].is_some();
        proof {
            assert(has == player_slot(m0, i as int));
        }
        if fin && has {
            let ghost qpre = commands.queue@;
            let mut b = Bundle::empty();
            b.tick_effect = Some(TickEffect);
            let mut v: Vec<(i64, i64)> = Vec::new();
            v.push((32_000_000, 0));
            proof {
                assert(v@ =~= seq![(32_000_000i64, 0i64)]);
            }
            b.interpolation = Some(Interpolation::new(v, 130_000, true));
            commands.spawn(b);
            proof {
                assert(q0.is_prefix_of(commands.queue@)) by {
                    assert(commands.queue@.subrange(0, q0.len() as int) =~= qpre.subrange(
                        0,
                        q0.len() as int,
                    ));
                }
            }
        }
        i = i + 1;
    }
}


// ---------------------------------------------------------------------------
// Shooting charge tween

/// Whether slot `i` carries a player with its shooting tween.
pub open spec fn shooting_slot(m: WorldModel, i: int) -> bool {
    &&& 0 <= i < m.len()
    &&& m.alive[i]
    &&& m.players[i] is Some
    &&& m.transforms[i] is Some
    &&& m.interpolations[i] is Some
}

/// The charge quads recorded for the slots below `i`: each player's
/// tweened charge size drawn as a filled square an eighth turn beside
/// the ship, in white.
pub open spec fn shooting_quads_upto(m: WorldModel, dt: u64, i: int) -> Seq<
    crate::resources::ShapeDraw,
>
    decreases i,
{
    if i <= 0 {
        Seq::empty()
    } else {
        shooting_quads_upto(m, dt, i - 1) + (if shooting_slot(m, i - 1) && m.interpolations[i
            - 1]->Some_0.begin_end.len() >= 1 {
            seq![
                crate::resources::ShapeDraw {
                    transform: Transform {
                        rotation: norm_angle_spec(
                            m.transforms[i - 1]->Some_0.rotation + 125_000,
                        ) as i64,
                        ..m.transforms[i - 1]->Some_0
                    },
                    off_x: (8_000_000 - m.interpolations[i - 1]->Some_0.value_spec(
                        dt,
                        Easing::EaseInOutCubic,
                        0,
                    ) / 2) as i64,
                    off_y: (8_000_000 - m.interpolations[i - 1]->Some_0.value_spec(
                        dt,
                        Easing::EaseInOutCubic,
                        0,
                    ) / 2) as i64,
                    off_z: Z_INDEX_PLAYER,
                    size_a: m.interpolations[i - 1]->Some_0.value_spec(
                        dt,
                        Easing::EaseInOutCubic,
                        0,
                    ) as i64,
                    size_b: m.interpolations[i - 1]->Some_0.value_spec(
                        dt,
                        Easing::EaseInOutCubic,
                        0,
                    ) as i64,
                    line_width: 0,
                    filled: true,
                    color: Rgb { r: 255, g: 255, b: 255 },
                },
            ]
        } else {
            Seq::empty()
        })
    }
}

/// How one `eval` call leaves a tween: time advanced (or wrapped), the
/// rest untouched.
pub open spec fn interp_evolved(o: Interpolation, n: Interpolation, dt: u64) -> bool {
    &&& n.time == o.time_next(dt)
    &&& n.duration == o.duration
    &&& n.begin_end@ == o.begin_end@
    &&& n.repeating == o.repeating
}

/// All slots satisfying `sl` below `i` carry an evolved tween.
pub open spec fn interps_evolved_upto(
    m0: WorldModel,
    iv: Seq<Option<Interpolation>>,
    sl: spec_fn(WorldModel, int) -> bool,
    dt: u64,
    i: int,
) -> bool {
    forall|j: int|
        #[trigger] sl(m0, j) && j < i ==> iv[j] is Some && interp_evolved(
            m0.interpolations[j]->Some_0,
            iv[j]->Some_0,
            dt,
        )
}

/// Every slot not satisfying `sl` below `i` keeps its tween.
pub open spec fn interps_unchanged_outside(
    m0: WorldModel,
    iv: Seq<Option<Interpolation>>,
    sl: spec_fn(WorldModel, int) -> bool,
    i: int,
) -> bool {
    forall|j: int| 0 <= j < m0.len() && !(sl(m0, j) && j < i) ==> iv[j] == m0.interpolations[j]
}

/// Advances each player's shooting tween on the cubic curve and records
/// the charge quad (the tweened size, offset beside the ship) for the
/// renderer.
#[verifier::spinoff_prover]
pub fn shooting_system(
    world: &mut World,
    quads: &mut crate::resources::QuadGeometry,
    time: &Time,
)
    requires
        old(world).wf(),
        time.duration <= MAX_STEP_MICROS,
    ensures
        final(world).wf(),
        ({
            let m0 = old(world).model();
            let m1 = final(world).model();
            let dt = time.duration;
            &&& m1.generations == m0.generations
            &&& m1.alive == m0.alive
            &&& m1.players == m0.players
            &&& m1.projectiles == m0.projectiles
            &&& m1.dead_projectiles == m0.dead_projectiles
            &&& m1.explosion_effects == m0.explosion_effects
            &&& m1.tick_effects == m0.tick_effects
            &&& m1.trail_effects == m0.trail_effects
            &&& m1.transforms == m0.transforms
            &&& m1.boosts == m0.boosts
            &&& m1.ammo_pickups == m0.ammo_pickups
            &&& m1.boost_pickups == m0.boost_pickups
            &&& m1.interpolations.len() == m0.interpolations.len()
            &&& interps_evolved_upto(m0, m1.interpolations, |m: WorldModel, j: int| shooting_slot(m, j), dt, m0.len())
            &&& interps_unchanged_outside(m0, m1.interpolations, |m: WorldModel, j: int| shooting_slot(m, j), m0.len())
            &&& final(quads).shapes@ == old(quads).shapes@ + shooting_quads_upto(m0, dt, m0.len())
        }),
        old(quads).shapes@.is_prefix_of(final(quads).shapes@),
{
    let ghost m0 = old(world).model();
    let ghost s0 = old(quads).shapes@;
    let ghost sl = |m: WorldModel, j: int| shooting_slot(m, j);
    let dt: u64 = time.duration;
    let n = world.num_slots();
    let mut i: usize = 0;
    while i < n
        invariant
            i <= n,
            n == m0.len(),
            dt == time.duration,
            dt <= MAX_STEP_MICROS,
            world.wf(),
            world.generations@ == m0.generations,
            world.alive@ == m0.alive,
            world.players@ == m0.players,
            world.projectiles@ == m0.projectiles,
            world.dead_projectiles@ == m0.dead_projectiles,
            world.explosion_effects@ == m0.explosion_effects,
            world.tick_effects@ == m0.tick_effects,
            world.trail_effects@ == m0.trail_effects,
            world.transforms@ == m0.transforms,
            world.boosts@ == m0.boosts,
            world.ammo_pickups@ == m0.ammo_pickups,
            world.boost_pickups@ == m0.boost_pickups,
            world.interpolations@.len() == n,
            sl == (|m: WorldModel, j: int| shooting_slot(m, j)),
            interps_evolved_upto(m0, world.interpolations@, sl, dt, i as int),
            interps_unchanged_outside(m0, world.interpolations@, sl, i as int),
            quads.shapes@ == s0 + shooting_quads_upto(m0, dt, i as int),
            s0.is_prefix_of(quads.shapes@),
        decreases n - i,
    {
        let ghost wpre = world.model();
        let has = world.alive[i] && world.players[i].is_some() && world.transforms[i].is_some()
            && world.interpolations[i].is_some();
        proof {
            assert(has == shooting_slot(m0, i as int));
            assert(crate::world::opt_interpolation_wf(wpre.interpolations[i as int]));
        }
        if has {
            let t: Transform = world.transforms[i].unwrap();
            proof {
                assert(crate::world::opt_transform_wf(m0.transforms[i as int]));
            }
            let evaled: Option<(Vec<i64>, bool)> = match &mut world.interpolations[i] {
                Some(it) => Some(it.eval(dt, Easing::EaseInOutCubic)),
                None => None,
            };
            if let Some((values, _finished)) = evaled {
                if values.len() > 0 {
                    let v: i64 = values[0];
                    let half: i64 = ((v as u64) / 2) as i64;
                    // The charge quad, rotated an eighth turn beside the
                    // ship.
                    quads.push(
                        ShapeDraw {
                            transform: Transform {
                                rotation: norm_angle(t.rotation + 125_000),
                                ..t
                            },
                            off_x: 8_000_000 - half,
                            off_y: 8_000_000 - half,
                            off_z: Z_INDEX_PLAYER,
                            size_a: v,
                            size_b: v,
                            line_width: 0,
                            filled: true,
                            color: rgb_color_player(),
                        },
                    );
                }
            }
        }
        proof {
            assert(world.wf());
            assert(quads.shapes@ =~= s0 + shooting_quads_upto(m0, dt, i + 1));
            assert(interps_evolved_upto(m0, world.interpolations@, sl, dt, i + 1)) by {
                assert forall|j: int| #[trigger] sl(m0, j) && j < i + 1 implies world
                    .interpolations@[j] is Some && interp_evolved(
                    m0.interpolations[j]->Some_0,
                    world.interpolations@[j]->Some_0,
                    dt,
                ) by {
                    if j < i {
                        assert(wpre.interpolations[j] == world.interpolations@[j]);
                    } else {
                        assert(sl(m0, j) == shooting_slot(m0, j));
                    }
                }
            }
            assert(interps_unchanged_outside(m0, world.interpolations@, sl, i + 1)) by {
                assert forall|j: int|
                    0 <= j < m0.len() && !(sl(m0, j) && j < i + 1) implies world
                    .interpolations@[j] == m0.interpolations[j] by {
                    assert(!(sl(m0, j) && j < i));
                    assert(wpre.interpolations[j] == m0.interpolations[j]);
                }
            }
        }
        i = i + 1;
    }
}


// ---------------------------------------------------------------------------
// Explosion burst lines

/// Whether slot `i` carries one explosion line.
pub open spec fn explosion_slot(m: WorldModel, i: int) -> bool {
    &&& 0 <= i < m.len()
    &&& m.alive[i]
    &&& m.explosion_effects[i] is Some
    &&& m.interpolations[i] is Some
    &&& m.transforms[i] is Some
}

/// The despawns of the explosion lines whose tween finishes this step,
/// for slots below `i`.
pub open spec fn explosion_cmds_upto(m: WorldModel, dt: u64, i: int) -> Seq<Command>
    decreases i,
{
    if i <= 0 {
        Seq::empty()
    } else {
        explosion_cmds_upto(m, dt, i - 1) + (if explosion_slot(m, i - 1) && m.interpolations[i
            - 1]->Some_0.finished_after(dt) {
            seq![Command::Despawn(slot_entity(m, i - 1))]
        } else {
            Seq::empty()
        })
    }
}

/// Where an explosion line stands after one step: unchanged if its tween
/// finished (the barrier removes it), else advanced along its heading by
/// the tweened speed.
pub open spec fn explosion_new_transform(m: WorldModel, j: int, dt: u64) -> Option<Transform> {
    let it = m.interpolations[j]->Some_0;
    let t = m.transforms[j]->Some_0;
    if it.finished_after(dt) {
        m.transforms[j]
    } else if it.begin_end.len() >= 1 {
        Some(fly_spec(t, it.value_spec(dt, Easing::Linear, 0) as i64, dt))
    } else {
        m.transforms[j]
    }
}

/// The lines recorded for the slots below `i`: each still-running
/// explosion line is drawn at its advanced placement with its tweened
/// length and stroke width, in its own color.
pub open spec fn explosion_lines_upto(m: WorldModel, dt: u64, i: int) -> Seq<
    crate::resources::ShapeDraw,
>
    decreases i,
{
    if i <= 0 {
        Seq::empty()
    } else {
        explosion_lines_upto(m, dt, i - 1) + (if explosion_slot(m, i - 1) && !m.interpolations[i
            - 1]->Some_0.finished_after(dt) && m.interpolations[i - 1]->Some_0.begin_end.len()
            >= 1 {
            seq![
                crate::resources::ShapeDraw {
                    transform: fly_spec(
                        m.transforms[i - 1]->Some_0,
                        m.interpolations[i - 1]->Some_0.value_spec(dt, Easing::Linear, 0) as i64,
                        dt,
                    ),
                    off_x: 0,
                    off_y: 0,
                    off_z: 0,
                    size_a: if m.interpolations[i - 1]->Some_0.begin_end.len() >= 2 {
                        m.interpolations[i - 1]->Some_0.value_spec(dt, Easing::Linear, 1) as i64
                    } else {
                        0
                    },
                    size_b: 0,
                    line_width: if m.interpolations[i - 1]->Some_0.begin_end.len() >= 3 {
                        m.interpolations[i - 1]->Some_0.value_spec(dt, Easing::Linear, 2) as i64
                    } else {
                        0
                    },
                    filled: false,
                    color: m.explosion_effects[i - 1]->Some_0.color,
                },
            ]
        } else {
            Seq::empty()
        })
    }
}

/// All explosion slots below `i` carry their new placement.
pub open spec fn explosions_moved_upto(
    m0: WorldModel,
    tr: Seq<Option<Transform>>,
    dt: u64,
    i: int,
) -> bool {
    forall|j: int|
        #[trigger] explosion_slot(m0, j) && j < i ==> tr[j] == explosion_new_transform(m0, j, dt)
}

/// Every slot that is not an explosion slot below `i` keeps its placement.
pub open spec fn explosions_unchanged_outside(
    m0: WorldModel,
    tr: Seq<Option<Transform>>,
    i: int,
) -> bool {
    forall|j: int|
        0 <= j < m0.len() && !(explosion_slot(m0, j) && j < i) ==> tr[j] == m0.transforms[j]
}

/// Drives each explosion line: its tween blends speed, length and width
/// down to zero on the linear curve; a finished line despawns, a live one
/// advances along its heading by the tweened speed and is recorded as a
/// stroked line for the renderer.
#[verifier::spinoff_prover]
pub fn explosion_system(
    world: &mut World,
    commands: &mut Commands,
    lines: &mut crate::resources::LineGeometry,
    time: &Time,
)
    requires
        old(world).wf(),
        old(commands).wf(),
        time.duration <= MAX_STEP_MICROS,
        old(commands).queue@.len() + old(world).model().len() < 1_000_000_000,
    ensures
        final(world).wf(),
        final(commands).wf(),
        ({
            let m0 = old(world).model();
            let m1 = final(world).model();
            let dt = time.duration;
            &&& m1.generations == m0.generations
            &&& m1.alive == m0.alive
            &&& m1.players == m0.players
            &&& m1.projectiles == m0.projectiles
            &&& m1.dead_projectiles == m0.dead_projectiles
            &&& m1.explosion_effects == m0.explosion_effects
            &&& m1.tick_effects == m0.tick_effects
            &&& m1.trail_effects == m0.trail_effects
            &&& m1.boosts == m0.boosts
            &&& m1.ammo_pickups == m0.ammo_pickups
            &&& m1.boost_pickups == m0.boost_pickups
            &&& m1.interpolations.len() == m0.interpolations.len()
            &&& m1.transforms.len() == m0.transforms.len()
            &&& interps_evolved_upto(m0, m1.interpolations, |m: WorldModel, j: int| explosion_slot(m, j), dt, m0.len())
            &&& interps_unchanged_outside(m0, m1.interpolations, |m: WorldModel, j: int| explosion_slot(m, j), m0.len())
            &&& explosions_moved_upto(m0, m1.transforms, dt, m0.len())
            &&& explosions_unchanged_outside(m0, m1.transforms, m0.len())
            &&& final(commands).queue@ == old(commands).queue@ + explosion_cmds_upto(
                m0,
                dt,
                m0.len(),
            )
            &&& final(lines).shapes@ == old(lines).shapes@ + explosion_lines_upto(
                m0,
                dt,
                m0.len(),
            )
        }),
        final(commands).queue@.len() <= old(commands).queue@.len() + old(world).model().len(),
        old(lines).shapes@.is_prefix_of(final(lines).shapes@),
{
    let ghost m0 = old(world).model();
    let ghost q0 = old(commands).queue@;
    let ghost s0 = old(lines).shapes@;
    let ghost sl = |m: WorldModel, j: int| explosion_slot(m, j);
    let dt: u64 = time.duration;
    let n = world.num_slots();
    let mut i: usize = 0;
    while i < n
        invariant
            i <= n,
            n == m0.len(),
            dt == time.duration,
            dt <= MAX_STEP_MICROS,
            world.wf(),
            commands.wf(),
            world.generations@ == m0.generations,
            world.alive@ == m0.alive,
            world.players@ == m0.players,
            world.projectiles@ == m0.projectiles,
            world.dead_projectiles@ == m0.dead_projectiles,
            world.explosion_effects@ == m0.explosion_effects,
            world.tick_effects@ == m0.tick_effects,
            world.trail_effects@ == m0.trail_effects,
            world.boosts@ == m0.boosts,
            world.ammo_pickups@ == m0.ammo_pickups,
            world.boost_pickups@ == m0.boost_pickups,
            world.interpolations@.len() == n,
            world.transforms@.len() == n,
            sl == (|m: WorldModel, j: int| explosion_slot(m, j)),
            interps_evolved_upto(m0, world.interpolations@, sl, dt, i as int),
            interps_unchanged_outside(m0, world.interpolations@, sl, i as int),
            explosions_moved_upto(m0, world.transforms@, dt, i as int),
            explosions_unchanged_outside(m0, world.transforms@, i as int),
            commands.queue@ == q0 + explosion_cmds_upto(m0, dt, i as int),
            lines.shapes@ == s0 + explosion_lines_upto(m0, dt, i as int),
            commands.queue@.len() <= q0.len() + i,
            q0.len() + m0.len() < 1_000_000_000,
            s0.is_prefix_of(lines.shapes@),
        decreases n - i,
    {
        let ghost wpre = world.model();
        let has = world.alive[i] && world.explosion_effects[i].is_some()
            && world.interpolations[i].is_some() && world.transforms[i].is_some();
        proof {
            assert(has == explosion_slot(m0, i as int));
            assert(crate::world::opt_interpolation_wf(wpre.interpolations[i as int]));
            assert(crate::world::opt_transform_wf(wpre.transforms[i as int]));
        }
        if has {
            let t: Transform = world.transforms[i].unwrap();
            let ex: ExplosionEffect = world.explosion_effects[i].unwrap();
            let evaled: Option<(Vec<i64>, bool)> = match &mut world.interpolations[i] {
                Some(it) => Some(it.eval(dt, Easing::Linear)),
                None => None,
            };
            if let Some((values, finished)) = evaled {
                if finished {
                    let g = world.generations[i];
                    commands.despawn(Entity { index: i, generation: g });
                } else if values.len() >= 1 {
                    let t2 = fly(t, values[0], dt);
                    world.transforms[i] = Some(t2);
                    let len_v: i64 = if values.len() >= 2 {
                        values[1]
                    } else {
                        0
                    };
                    let width_v: i64 = if values.len() >= 3 {
                        values[2]
                    } else {
                        0
                    };
                    lines.push(
                        ShapeDraw {
                            transform: t2,
                            off_x: 0,
                            off_y: 0,
                            off_z: 0,
                            size_a: len_v,
                            size_b: 0,
                            line_width: width_v,
                            filled: false,
                            color: ex.color,
                        },
                    );
                }
            }
        }
        proof {
            assert(commands.queue@ =~= q0 + explosion_cmds_upto(m0, dt, i + 1));
            assert(lines.shapes@ =~= s0 + explosion_lines_upto(m0, dt, i + 1));
            assert forall|j: int| 0 <= j < m0.len() implies crate::world::opt_interpolation_wf(
                #[trigger] world.interpolations@[j],
            ) && crate::world::opt_transform_wf(world.transforms@[j]) by {
                assert(crate::world::opt_transform_wf(wpre.transforms[j]));
                assert(crate::world::opt_interpolation_wf(wpre.interpolations[j]));
                if has && j == i {
                } else {
                    assert(world.interpolations@[j] == wpre.interpolations[j]);
                    assert(world.transforms@[j] == wpre.transforms[j]);
                }
            }
            assert(world.wf());
            assert(interps_evolved_upto(m0, world.interpolations@, sl, dt, i + 1)) by {
                assert forall|j: int| #[trigger] sl(m0, j) && j < i + 1 implies world
                    .interpolations@[j] is Some && interp_evolved(
                    m0.interpolations[j]->Some_0,
                    world.interpolations@[j]->Some_0,
                    dt,
                ) by {
                    if j < i {
                        assert(wpre.interpolations[j] == world.interpolations@[j]);
                    } else {
                        assert(sl(m0, j) == explosion_slot(m0, j));
                    }
                }
            }
            assert(interps_unchanged_outside(m0, world.interpolations@, sl, i + 1)) by {
                assert forall|j: int|
                    0 <= j < m0.len() && !(sl(m0, j) && j < i + 1) implies world
                    .interpolations@[j] == m0.interpolations[j] by {
                    assert(!(sl(m0, j) && j < i));
                    assert(wpre.interpolations[j] == m0.interpolations[j]);
                }
            }
            assert(explosions_moved_upto(m0, world.transforms@, dt, i + 1)) by {
                assert forall|j: int| #[trigger] explosion_slot(m0, j) && j < i + 1 implies world
                    .transforms@[j] == explosion_new_transform(m0, j, dt) by {
                    if j < i {
                        assert(wpre.transforms[j] == world.transforms@[j]);
                    }
                }
            }
            assert(explosions_unchanged_outside(m0, world.transforms@, i + 1)) by {
                assert forall|j: int|
                    0 <= j < m0.len() && !(explosion_slot(m0, j) && j < i + 1) implies world
                    .transforms@[j] == m0.transforms[j] by {
                    assert(!(explosion_slot(m0, j) && j < i));
                    assert(wpre.transforms[j] == m0.transforms[j]);
                }
            }
        }
        i = i + 1;
    }
}


// ---------------------------------------------------------------------------
// Trail and tick effects

/// The first slot at or after `i` that carries a player with a placement,
/// or the arena length if there is none.
pub open spec fn first_player_from(m: WorldModel, i: int) -> int
    decreases m.len() - i,
{
    if i < 0 || i >= m.len() {
        m.len()
    } else if m.alive[i] && m.players[i] is Some && m.transforms[i] is Some {
        i
    } else {
        first_player_from(m, i + 1)
    }
}

/// Two models with the same live players agree on the first player slot.
pub proof fn lemma_first_player_same(m1: WorldModel, m2: WorldModel, i: int)
    requires
        m1.alive == m2.alive,
        m1.players == m2.players,
        m1.transforms == m2.transforms,
        m1.generations.len() == m2.generations.len(),
    ensures
        first_player_from(m1, i) == first_player_from(m2, i),
    decreases m1.len() - i,
{
    if i < 0 || i >= m1.len() {
    } else if m1.alive[i] && m1.players[i] is Some && m1.transforms[i] is Some {
    } else {
        lemma_first_player_same(m1, m2, i + 1);
    }
}

/// Finds the single player the effect systems follow (the lowest player
/// slot), or the arena length if no player exists this step.
fn find_first_player(world: &World) -> (r: usize)
    requires
        world.wf(),
    ensures
        r == first_player_from(world.model(), 0),
        r <= world.model().len(),
        r < world.model().len() ==> world.model().alive[r as int] && world.model().players[r as int]
            is Some && world.model().transforms[r as int] is Some,
{
    let n = world.generations.len();
    let mut i: usize = 0;
    while i < n
        invariant
            i <= n,
            n == world.model().len(),
            world.wf(),
            first_player_from(world.model(), 0) == first_player_from(world.model(), i as int),
        decreases n - i,
    {
        if world.alive[i] && world.players[i].is_some() && world.transforms[i].is_some() {
            return i;
        }
        i = i + 1;
    }
    i
}

/// Whether slot `i` carries one trail circle.
pub open spec fn trail_slot(m: WorldModel, i: int) -> bool {
    &&& 0 <= i < m.len()
    &&& m.alive[i]
    &&& m.trail_effects[i] is Some
    &&& m.interpolations[i] is Some
    &&& m.transforms[i] is Some
}

/// The despawns of every trail-tagged slot below `i` (the cleanup when no
/// player exists).
pub open spec fn trail_cleanup_cmds_upto(m: WorldModel, i: int) -> Seq<Command>
    decreases i,
{
    if i <= 0 {
        Seq::empty()
    } else {
        trail_cleanup_cmds_upto(m, i - 1) + (if 0 <= i - 1 < m.len() && m.alive[i - 1]
            && m.trail_effects[i - 1] is Some {
            seq![Command::Despawn(slot_entity(m, i - 1))]
        } else {
            Seq::empty()
        })
    }
}

/// The despawns of the trail circles whose tween finishes this step, for
/// slots below `i`.
pub open spec fn trail_cmds_upto(m: WorldModel, dt: u64, i: int) -> Seq<Command>
    decreases i,
{
    if i <= 0 {
        Seq::empty()
    } else {
        trail_cmds_upto(m, dt, i - 1) + (if trail_slot(m, i - 1) && m.interpolations[i
            - 1]->Some_0.finished_after(dt) {
            seq![Command::Despawn(slot_entity(m, i - 1))]
        } else {
            Seq::empty()
        })
    }
}

/// The trail color this step: the boost tint while the player's
/// reservoir allows boosting and a boost key is down, else the plain
/// trail amber.
pub open spec fn trail_tint(m: WorldModel, keys: KeyCodes) -> Rgb {
    let f = first_player_from(m, 0);
    if f < m.len() && m.boosts[f] is Some && m.boosts[f]->Some_0.cooldown is None
        && m.boosts[f]->Some_0.boost > 0 && (keys.up || keys.down) {
        Rgb { r: 76, g: 195, b: 217 }
    } else {
        Rgb { r: 255, g: 198, b: 93 }
    }
}

/// The circles recorded for the slots below `i`: each still-running
/// trail circle is drawn in place with its tweened radius, in the trail
/// tint.
pub open spec fn trail_circles_upto(m: WorldModel, keys: KeyCodes, dt: u64, i: int) -> Seq<
    crate::resources::ShapeDraw,
>
    decreases i,
{
    if i <= 0 {
        Seq::empty()
    } else {
        trail_circles_upto(m, keys, dt, i - 1) + (if trail_slot(m, i - 1) && !m.interpolations[i
            - 1]->Some_0.finished_after(dt) && m.interpolations[i - 1]->Some_0.begin_end.len()
            >= 1 {
            seq![
                crate::resources::ShapeDraw {
                    transform: m.transforms[i - 1]->Some_0,
                    off_x: 0,
                    off_y: 0,
                    off_z: 0,
                    size_a: m.interpolations[i - 1]->Some_0.value_spec(
                        dt,
                        Easing::Linear,
                        0,
                    ) as i64,
                    size_b: 0,
                    line_width: 0,
                    filled: true,
                    color: trail_tint(m, keys),
                },
            ]
        } else {
            Seq::empty()
        })
    }
}

/// Drives each trail circle's shrinking tween on the linear curve; a
/// finished circle despawns, a live one is recorded for the renderer,
/// colored for the boost while a boost key is held and boosting is
/// allowed. When no player exists every trail circle is cleaned up
/// instead, so no orphaned trail outlives its ship.
#[verifier::spinoff_prover]
pub fn trail_effect_system(
    world: &mut World,
    commands: &mut Commands,
    circles: &mut CircleGeometry,
    keys: &KeyCodes,
    time: &Time,
)
    requires
        old(world).wf(),
        old(commands).wf(),
        time.duration <= MAX_STEP_MICROS,
        old(commands).queue@.len() + old(world).model().len() < 1_000_000_000,
    ensures
        final(world).wf(),
        final(commands).wf(),
        ({
            let m0 = old(world).model();
            let m1 = final(world).model();
            let dt = time.duration;
            &&& m1.generations == m0.generations
            &&& m1.alive == m0.alive
            &&& m1.players == m0.players
            &&& m1.projectiles == m0.projectiles
            &&& m1.dead_projectiles == m0.dead_projectiles
            &&& m1.explosion_effects == m0.explosion_effects
            &&& m1.tick_effects == m0.tick_effects
            &&& m1.trail_effects == m0.trail_effects
            &&& m1.transforms == m0.transforms
            &&& m1.boosts == m0.boosts
            &&& m1.ammo_pickups == m0.ammo_pickups
            &&& m1.boost_pickups == m0.boost_pickups
            &&& m1.interpolations.len() == m0.interpolations.len()
            &&& if first_player_from(m0, 0) == m0.len() {
                &&& m1.interpolations == m0.interpolations
                &&& final(commands).queue@ == old(commands).queue@ + trail_cleanup_cmds_upto(
                    m0,
                    m0.len(),
                )
                &&& final(circles).shapes@ == old(circles).shapes@
            } else {
                &&& interps_evolved_upto(m0, m1.interpolations, |m: WorldModel, j: int| trail_slot(m, j), dt, m0.len())
                &&& interps_unchanged_outside(m0, m1.interpolations, |m: WorldModel, j: int| trail_slot(m, j), m0.len())
                &&& final(commands).queue@ == old(commands).queue@ + trail_cmds_upto(
                    m0,
                    dt,
                    m0.len(),
                )
                &&& final(circles).shapes@ == old(circles).shapes@ + trail_circles_upto(
                    m0,
                    *keys,
                    dt,
                    m0.len(),
                )
            }
        }),
        final(commands).queue@.len() <= old(commands).queue@.len() + old(world).model().len(),
        old(circles).shapes@.is_prefix_of(final(circles).shapes@),
{
    let ghost m0 = old(world).model();
    let ghost q0 = old(commands).queue@;
    let ghost s0 = old(circles).shapes@;
    let ghost sl = |m: WorldModel, j: int| trail_slot(m, j);
    let dt: u64 = time.duration;
    let n = world.num_slots();
    let first = find_first_player(world);
    if first == n {
        // No player: clean up every trail circle.
        let mut i: usize = 0;
        while i < n
            invariant
                i <= n,
                n == m0.len(),
                world.wf(),
                commands.wf(),
                m0 == world.model(),
                commands.queue@ == q0 + trail_cleanup_cmds_upto(m0, i as int),
                commands.queue@.len() <= q0.len() + i,
                q0.len() + m0.len() < 1_000_000_000,
            decreases n - i,
        {
            if world.alive[i] && world.trail_effects[i].is_some() {
                let g = world.generations[i];
                commands.despawn(Entity { index: i, generation: g });
            }
            proof {
                assert(commands.queue@ =~= q0 + trail_cleanup_cmds_upto(m0, i + 1));
            }
            i = i + 1;
        }
        return ;
    }
    // One boost reservoir colors the trail while a boost key is held.
    let boost_tint: bool = if world.alive[first] && world.boosts[first].is_some() {
        let bo: Boost = world.boosts[first].unwrap();
        bo.can_boost() && (keys.up || keys.down)
    } else {
        false
    };
    let ghost tint = trail_tint(m0, *keys);
    proof {
        assert((if boost_tint {
            Rgb { r: 76, g: 195, b: 217 }
        } else {
            Rgb { r: 255, g: 198, b: 93 }
        }) == tint);
    }
    let mut i: usize = 0;
    while i < n
        invariant
            i <= n,
            n == m0.len(),
            dt == time.duration,
            dt <= MAX_STEP_MICROS,
            world.wf(),
            commands.wf(),
            world.generations@ == m0.generations,
            world.alive@ == m0.alive,
            world.players@ == m0.players,
            world.projectiles@ == m0.projectiles,
            world.dead_projectiles@ == m0.dead_projectiles,
            world.explosion_effects@ == m0.explosion_effects,
            world.tick_effects@ == m0.tick_effects,
            world.trail_effects@ == m0.trail_effects,
            world.transforms@ == m0.transforms,
            world.boosts@ == m0.boosts,
            world.ammo_pickups@ == m0.ammo_pickups,
            world.boost_pickups@ == m0.boost_pickups,
            world.interpolations@.len() == n,
            sl == (|m: WorldModel, j: int| trail_slot(m, j)),
            interps_evolved_upto(m0, world.interpolations@, sl, dt, i as int),
            interps_unchanged_outside(m0, world.interpolations@, sl, i as int),
            commands.queue@ == q0 + trail_cmds_upto(m0, dt, i as int),
            circles.shapes@ == s0 + trail_circles_upto(m0, *keys, dt, i as int),
            tint == trail_tint(m0, *keys),
            boost_tint == (tint == Rgb { r: 76, g: 195, b: 217 }),
            commands.queue@.len() <= q0.len() + i,
            q0.len() + m0.len() < 1_000_000_000,
            s0.is_prefix_of(circles.shapes@),
        decreases n - i,
    {
        let ghost wpre = world.model();
        let has = world.alive[i] && world.trail_effects[i].is_some()
            && world.interpolations[i].is_some() && world.transforms[i].is_some();
        proof {
            assert(has == trail_slot(m0, i as int));
            assert(crate::world::opt_interpolation_wf(wpre.interpolations[i as int]));
        }
        if has {
            let t: Transform = world.transforms[i].unwrap();
            let evaled: Option<(Vec<i64>, bool)> = match &mut world.interpolations[i] {
                Some(it) => Some(it.eval(dt, Easing::Linear)),
                None => None,
            };
            if let Some((values, finished)) = evaled {
                if finished {
                    let g = world.generations[i];
                    commands.despawn(Entity { index: i, generation: g });
                } else if values.len() >= 1 {
                    let color = if boost_tint {
                        rgb_color_boost()
                    } else {
                        rgb_color_trail()
                    };
                    circles.push(
                        ShapeDraw {
                            transform: t,
                            off_x: 0,
                            off_y: 0,
                            off_z: 0,
                            size_a: values[0],
                            size_b: 0,
                            line_width: 0,
                            filled: true,
                            color,
                        },
                    );
                }
            }
        }
        proof {
            assert(commands.queue@ =~= q0 + trail_cmds_upto(m0, dt, i + 1));
            assert(circles.shapes@ =~= s0 + trail_circles_upto(m0, *keys, dt, i + 1));
            assert forall|j: int| 0 <= j < m0.len() implies crate::world::opt_interpolation_wf(
                #[trigger] world.interpolations@[j],
            ) && crate::world::opt_transform_wf(world.transforms@[j]) by {
                assert(crate::world::opt_transform_wf(wpre.transforms[j]));
                assert(crate::world::opt_interpolation_wf(wpre.interpolations[j]));
                if has && j == i {
                } else {
                    assert(world.interpolations@[j] == wpre.interpolations[j]);
                }
            }
            assert(world.wf());
            assert(interps_evolved_upto(m0, world.interpolations@, sl, dt, i + 1)) by {
                assert forall|j: int| #[trigger] sl(m0, j) && j < i + 1 implies world
                    .interpolations@[j] is Some && interp_evolved(
                    m0.interpolations[j]->Some_0,
                    world.interpolations@[j]->Some_0,
                    dt,
                ) by {
                    if j < i {
                        assert(wpre.interpolations[j] == world.interpolations@[j]);
                    } else {
                        assert(sl(m0, j) == trail_slot(m0, j));
                    }
                }
            }
            assert(interps_unchanged_outside(m0, world.interpolations@, sl, i + 1)) by {
                assert forall|j: int|
                    0 <= j < m0.len() && !(sl(m0, j) && j < i + 1) implies world
                    .interpolations@[j] == m0.interpolations[j] by {
                    assert(!(sl(m0, j) && j < i));
                    assert(wpre.interpolations[j] == m0.interpolations[j]);
                }
            }
        }
        i = i + 1;
    }
}

/// Whether slot `i` carries the tick pulse effect.
pub open spec fn tick_slot(m: WorldModel, i: int) -> bool {
    &&& 0 <= i < m.len()
    &&& m.alive[i]
    &&& m.tick_effects[i] is Some
    &&& m.interpolations[i] is Some
}

/// The despawns of the tick pulses whose tween finishes this step, for
/// slots below `i`.
pub open spec fn tick_cmds_upto(m: WorldModel, dt: u64, i: int) -> Seq<Command>
    decreases i,
{
    if i <= 0 {
        Seq::empty()
    } else {
        tick_cmds_upto(m, dt, i - 1) + (if tick_slot(m, i - 1) && m.interpolations[i
            - 1]->Some_0.finished_after(dt) {
            seq![Command::Despawn(slot_entity(m, i - 1))]
        } else {
            Seq::empty()
        })
    }
}

/// The pulse quads recorded for the slots below `i`: each still-running
/// pulse is a white 48 px wide bar of the tweened height, placed at the
/// player position handed in.
pub open spec fn tick_quads_upto(m: WorldModel, px: i64, py: i64, pz: i64, dt: u64, i: int) -> Seq<
    crate::resources::ShapeDraw,
>
    decreases i,
{
    if i <= 0 {
        Seq::empty()
    } else {
        tick_quads_upto(m, px, py, pz, dt, i - 1) + (if tick_slot(m, i - 1) && !m.interpolations[i
            - 1]->Some_0.finished_after(dt) && m.interpolations[i - 1]->Some_0.begin_end.len()
            >= 1 {
            seq![
                crate::resources::ShapeDraw {
                    transform: Transform { rotation: 0, x: px, y: py, z: pz, center_rotation: 0 },
                    off_x: -24_000_000i64,
                    off_y: (16_000_000 - m.interpolations[i - 1]->Some_0.value_spec(
                        dt,
                        Easing::EaseInOutCubic,
                        0,
                    )) as i64,
                    off_z: Z_INDEX_PLAYER,
                    size_a: 48_000_000,
                    size_b: m.interpolations[i - 1]->Some_0.value_spec(
                        dt,
                        Easing::EaseInOutCubic,
                        0,
                    ) as i64,
                    line_width: 0,
                    filled: true,
                    color: Rgb { r: 255, g: 255, b: 255 },
                },
            ]
        } else {
            Seq::empty()
        })
    }
}

/// Drives the tick pulse around the player: its tween shrinks the pulse
/// on the cubic curve; a finished pulse despawns, a live one is recorded
/// as a quad at the player's position. With no player the pulses rest
/// untouched.
#[verifier::spinoff_prover]
pub fn tick_effect_system(
    world: &mut World,
    commands: &mut Commands,
    quads: &mut crate::resources::QuadGeometry,
    time: &Time,
)
    requires
        old(world).wf(),
        old(commands).wf(),
        time.duration <= MAX_STEP_MICROS,
        old(commands).queue@.len() + old(world).model().len() < 1_000_000_000,
    ensures
        final(world).wf(),
        final(commands).wf(),
        ({
            let m0 = old(world).model();
            let m1 = final(world).model();
            let dt = time.duration;
            &&& m1.generations == m0.generations
            &&& m1.alive == m0.alive
            &&& m1.players == m0.players
            &&& m1.projectiles == m0.projectiles
            &&& m1.dead_projectiles == m0.dead_projectiles
            &&& m1.explosion_effects == m0.explosion_effects
            &&& m1.tick_effects == m0.tick_effects
            &&& m1.trail_effects == m0.trail_effects
            &&& m1.transforms == m0.transforms
            &&& m1.boosts == m0.boosts
            &&& m1.ammo_pickups == m0.ammo_pickups
            &&& m1.boost_pickups == m0.boost_pickups
            &&& m1.interpolations.len() == m0.interpolations.len()
            &&& if first_player_from(m0, 0) == m0.len() {
                &&& m1.interpolations == m0.interpolations
                &&& final(commands).queue@ == old(commands).queue@
                &&& final(quads).shapes@ == old(quads).shapes@
            } else {
                &&& interps_evolved_upto(m0, m1.interpolations, |m: WorldModel, j: int| tick_slot(m, j), dt, m0.len())
                &&& interps_unchanged_outside(m0, m1.interpolations, |m: WorldModel, j: int| tick_slot(m, j), m0.len())
                &&& final(commands).queue@ == old(commands).queue@ + tick_cmds_upto(
                    m0,
                    dt,
                    m0.len(),
                )
                &&& final(quads).shapes@ == old(quads).shapes@ + tick_quads_upto(
                    m0,
                    m0.transforms[first_player_from(m0, 0)]->Some_0.x,
                    m0.transforms[first_player_from(m0, 0)]->Some_0.y,
                    m0.transforms[first_player_from(m0, 0)]->Some_0.z,
                    dt,
                    m0.len(),
                )
            }
        }),
        final(commands).queue@.len() <= old(commands).queue@.len() + old(world).model().len(),
        old(quads).shapes@.is_prefix_of(final(quads).shapes@),
{
    let ghost m0 = old(world).model();
    let ghost q0 = old(commands).queue@;
    let ghost s0 = old(quads).shapes@;
    let ghost sl = |m: WorldModel, j: int| tick_slot(m, j);
    let dt: u64 = time.duration;
    let n = world.num_slots();
    let first = find_first_player(world);
    if first == n {
        return ;
    }
    let pp: Transform = world.transforms[first].unwrap();
    let mut i: usize = 0;
    while i < n
        invariant
            i <= n,
            n == m0.len(),
            dt == time.duration,
            dt <= MAX_STEP_MICROS,
            world.wf(),
            commands.wf(),
            world.generations@ == m0.generations,
            world.alive@ == m0.alive,
            world.players@ == m0.players,
            world.projectiles@ == m0.projectiles,
            world.dead_projectiles@ == m0.dead_projectiles,
            world.explosion_effects@ == m0.explosion_effects,
            world.tick_effects@ == m0.tick_effects,
            world.trail_effects@ == m0.trail_effects,
            world.transforms@ == m0.transforms,
            world.boosts@ == m0.boosts,
            world.ammo_pickups@ == m0.ammo_pickups,
            world.boost_pickups@ == m0.boost_pickups,
            world.interpolations@.len() == n,
            sl == (|m: WorldModel, j: int| tick_slot(m, j)),
            interps_evolved_upto(m0, world.interpolations@, sl, dt, i as int),
            interps_unchanged_outside(m0, world.interpolations@, sl, i as int),
            commands.queue@ == q0 + tick_cmds_upto(m0, dt, i as int),
            quads.shapes@ == s0 + tick_quads_upto(m0, pp.x, pp.y, pp.z, dt, i as int),
            pp == m0.transforms[first_player_from(m0, 0)]->Some_0,
            first_player_from(m0, 0) < m0.len(),
            commands.queue@.len() <= q0.len() + i,
            q0.len() + m0.len() < 1_000_000_000,
            s0.is_prefix_of(quads.shapes@),
        decreases n - i,
    {
        let ghost wpre = world.model();
        let has = world.alive[i] && world.tick_effects[i].is_some()
            && world.interpolations[i].is_some();
        proof {
            assert(has == tick_slot(m0, i as int));
            assert(crate::world::opt_interpolation_wf(wpre.interpolations[i as int]));
        }
        if has {
            let evaled: Option<(Vec<i64>, bool)> = match &mut world.interpolations[i] {
                Some(it) => Some(it.eval(dt, Easing::EaseInOutCubic)),
                None => None,
            };
            if let Some((values, finished)) = evaled {
                if finished {
                    let g = world.generations[i];
                    commands.despawn(Entity { index: i, generation: g });
                } else if values.len() >= 1 {
                    let v: i64 = values[0];
                    // The pulse: a 48 px wide bar whose height shrinks.
                    quads.push(
                        ShapeDraw {
                            transform: Transform {
                                rotation: 0,
                                x: pp.x,
                                y: pp.y,
                                z: pp.z,
                                center_rotation: 0,
                            },
                            off_x: -24_000_000i64,
                            off_y: 16_000_000 - v,
                            off_z: Z_INDEX_PLAYER,
                            size_a: 48_000_000,
                            size_b: v,
                            line_width: 0,
                            filled: true,
                            color: rgb_color_player(),
                        },
                    );
                }
            }
        }
        proof {
            assert(commands.queue@ =~= q0 + tick_cmds_upto(m0, dt, i + 1));
            assert(quads.shapes@ =~= s0 + tick_quads_upto(m0, pp.x, pp.y, pp.z, dt, i + 1));
            assert forall|j: int| 0 <= j < m0.len() implies crate::world::opt_interpolation_wf(
                #[trigger] world.interpolations@[j],
            ) && crate::world::opt_transform_wf(world.transforms@[j]) by {
                assert(crate::world::opt_transform_wf(wpre.transforms[j]));
                assert(crate::world::opt_interpolation_wf(wpre.interpolations[j]));
                if has && j == i {
                } else {
                    assert(world.interpolations@[j] == wpre.interpolations[j]);
                }
            }
            assert(world.wf());
            assert(interps_evolved_upto(m0, world.interpolations@, sl, dt, i + 1)) by {
                assert forall|j: int| #[trigger] sl(m0, j) && j < i + 1 implies world
                    .interpolations@[j] is Some && interp_evolved(
                    m0.interpolations[j]->Some_0,
                    world.interpolations@[j]->Some_0,
                    dt,
                ) by {
                    if j < i {
                        assert(wpre.interpolations[j] == world.interpolations@[j]);
                    } else {
                        assert(sl(m0, j) == tick_slot(m0, j));
                    }
                }
            }
            assert(interps_unchanged_outside(m0, world.interpolations@, sl, i + 1)) by {
                assert forall|j: int|
                    0 <= j < m0.len() && !(sl(m0, j) && j < i + 1) implies world
                    .interpolations@[j] == m0.interpolations[j] by {
                    assert(!(sl(m0, j) && j < i));
                    assert(wpre.interpolations[j] == m0.interpolations[j]);
                }
            }
        }
        i = i + 1;
    }
}


// ---------------------------------------------------------------------------
// Trail spawning

/// What a trail bundle may hold: for some player, a circle a fixed
/// distance behind the ship, carrying a repeating shrink tween with a
/// random radius and lifetime.
pub open spec fn trail_bundle_ok(m: WorldModel, b: Bundle) -> bool {
    exists|j: int|
        #[trigger] player_slot(m, j) && {
            let t = m.transforms[j]->Some_0;
            let s = sin_uturn_spec(t.rotation as int);
            let c = cos_uturn_spec(t.rotation as int);
            &&& b.transform == Some(
                Transform {
                    x: clamp_spec(
                        t.x - mul_div_trunc(-s, 14_000_000, UNIT as int),
                        -POS_LIMIT as int,
                        POS_LIMIT as int,
                    ) as i64,
                    y: clamp_spec(
                        t.y - mul_div_trunc(c, 14_000_000, UNIT as int),
                        -POS_LIMIT as int,
                        POS_LIMIT as int,
                    ) as i64,
                    z: clamp_spec(
                        t.z + Z_INDEX_TRAIL_EFFECT,
                        -POS_LIMIT as int,
                        POS_LIMIT as int,
                    ) as i64,
                    ..t
                },
            )
            &&& b.trail_effect == Some(TrailEffect)
            &&& b.interpolation is Some
            &&& b.interpolation->Some_0.time == 0
            &&& 150_000 <= b.interpolation->Some_0.duration < 250_000
            &&& b.interpolation->Some_0.repeating == true
            &&& b.interpolation->Some_0.begin_end@.len() == 1
            &&& 4_000_000 <= b.interpolation->Some_0.begin_end@[0].0 < 6_000_000
            &&& b.interpolation->Some_0.begin_end@[0].1 == 0
            &&& b.player is None
            &&& b.projectile is None
            &&& b.dead_projectile is None
            &&& b.explosion_effect is None
            &&& b.tick_effect is None
            &&& b.boost is None
            &&& b.ammo_pickup is None
            &&& b.boost_pickup is None
        }
}

/// Spawns one trail circle behind each player: a random radius between 4
/// and 6 px shrinking to zero over a random 0.15 to 0.25 s, repeating.
pub fn trail_effect_spawn_system(
    world: &World,
    commands: &mut Commands,
    rng: &mut rand::rngs::SmallRng,
)
    requires
        world.wf(),
        old(commands).wf(),
        old(commands).queue@.len() + world.model().len() < 1_000_000_000,
    ensures
        final(commands).wf(),
        old(commands).queue@.is_prefix_of(final(commands).queue@),
        final(commands).queue@.len() == old(commands).queue@.len() + player_count_upto(
            world.model(),
            world.model().len(),
        ),
        forall|k: int|
            old(commands).queue@.len() <= k < final(commands).queue@.len() ==> ((
            #[trigger] final(commands).queue@[k]) matches Command::Spawn(b) && trail_bundle_ok(
                world.model(),
                b,
            )),
        final(commands).queue@.len() <= old(commands).queue@.len() + world.model().len(),
{
    let ghost m0 = world.model();
    let ghost q0 = old(commands).queue@;
    let n = world.num_slots();
    let mut i: usize = 0;
    while i < n
        invariant
            i <= n,
            n == m0.len(),
            world.wf(),
            commands.wf(),
            m0 == world.model(),
            q0.is_prefix_of(commands.queue@),
            commands.queue@.len() == q0.len() + player_count_upto(m0, i as int),
            commands.queue@.len() <= q0.len() + i,
            forall|k: int|
                q0.len() <= k < commands.queue@.len() ==> ((#[trigger] commands.queue@[k]) matches
                    Command::Spawn(b) && trail_bundle_ok(m0, b)),
            q0.len() + m0.len() < 1_000_000_000,
        decreases n - i,
    {
        proof {
            assert(player_count_upto(m0, i + 1) <= player_count_upto(m0, i as int) + 1);
        }
        let has = world.alive[i] && world.players[i].is_some() && world.transforms[i].is_some()
            && world.boosts[i].is_some();
        proof {
            assert(has == player_slot(m0, i as int));
        }
        if has {
            let ghost qpre = commands.queue@;
            let t: Transform = world.transforms[i].unwrap();
            proof {
                assert(crate::world::opt_transform_wf(m0.transforms[i as int]));
            }
            let radius: i64 = rand_range(rng, 4_000_000, 6_000_000);
            let ttl: i64 = rand_range(rng, 150_000, 250_000);
            let d = forward(t.rotation);
            proof {
                assert(d.0 * 14_000_000 <= 14_000_000 * (UNIT as int) && (-d.0) * 14_000_000
                    <= 14_000_000 * (UNIT as int) && d.1 * 14_000_000 <= 14_000_000 * (
                UNIT as int) && (-d.1) * 14_000_000 <= 14_000_000 * (UNIT as int))
                    by (nonlinear_arith)
                    requires
                        -1_000_000 <= d.0 <= 1_000_000,
                        -1_000_000 <= d.1 <= 1_000_000,
                        UNIT == 1_000_000,
                {}
                crate::fixed::lemma_mul_div_trunc_upper(d.0 as int, 14_000_000, UNIT as int,
                    14_000_000);
                crate::fixed::lemma_mul_div_trunc_upper(d.1 as int, 14_000_000, UNIT as int,
                    14_000_000);
            }
            let mut v: Vec<(i64, i64)> = Vec::new();
            v.push((radius, 0));
            let mut b = Bundle::empty();
            b.trail_effect = Some(TrailEffect);
            b.interpolation = Some(Interpolation::new(v, ttl as u64, true));
            b.transform = Some(
                Transform {
                    x: clamp_pos(t.x - mul_div(d.0, 14_000_000, UNIT)),
                    y: clamp_pos(t.y - mul_div(d.1, 14_000_000, UNIT)),
                    z: clamp_pos(t.z + Z_INDEX_TRAIL_EFFECT),
                    ..t
                },
            );
            commands.spawn(b);
            proof {
                assert(trail_bundle_ok(m0, b)) by {
                    assert(player_slot(m0, i as int));
                    assert(b.interpolation->Some_0.begin_end@[0] == (radius, 0i64));
                }
                assert(q0.is_prefix_of(commands.queue@)) by {
                    assert(commands.queue@.subrange(0, q0.len() as int) =~= qpre.subrange(
                        0,
                        q0.len() as int,
                    ));
                }
            }
        }
        i = i + 1;
    }
}

// ---------------------------------------------------------------------------
// Death explosion spawning

/// What one explosion line bundle may hold: for some player, a line at
/// the ship's position with a random heading, speed, length and lifetime,
/// blending all three down to zero on a one-shot tween.
pub open spec fn explosion_bundle_ok(m: WorldModel, b: Bundle) -> bool {
    exists|j: int|
        #[trigger] player_slot(m, j) && {
            let t = m.transforms[j]->Some_0;
            &&& b.transform is Some
            &&& b.transform->Some_0.x == t.x
            &&& b.transform->Some_0.y == t.y
            &&& b.transform->Some_0.z == t.z
            &&& 0 <= b.transform->Some_0.rotation < TURN
            &&& b.transform->Some_0.center_rotation == t.center_rotation
            &&& b.explosion_effect == Some(ExplosionEffect { color: Rgb { r: 255, g: 255, b: 255 } })
            &&& b.interpolation is Some
            &&& b.interpolation->Some_0.time == 0
            &&& 300_000 <= b.interpolation->Some_0.duration < 500_000
            &&& b.interpolation->Some_0.repeating == false
            &&& b.interpolation->Some_0.begin_end@.len() == 3
            &&& 75_000_000 <= b.interpolation->Some_0.begin_end@[0].0 < 150_000_000
            &&& b.interpolation->Some_0.begin_end@[0].1 == 0
            &&& 2_000_000 <= b.interpolation->Some_0.begin_end@[1].0 < 8_000_000
            &&& b.interpolation->Some_0.begin_end@[1].1 == 0
            &&& b.interpolation->Some_0.begin_end@[2] == (3_000_000i64, 0i64)
            &&& b.player is None
            &&& b.projectile is None
            &&& b.dead_projectile is None
            &&& b.tick_effect is None
            &&& b.trail_effect is None
            &&& b.boost is None
            &&& b.ammo_pickup is None
            &&& b.boost_pickup is None
        }
}

/// On each player death seen this step, spawns a radial burst of 8 to 11
/// explosion lines at the (still live) player's position, each with a
/// random heading, speed, length and lifetime.
pub fn player_explosion_spawn_system(
    world: &World,
    events: &mut Events,
    reader: usize,
    commands: &mut Commands,
    rng: &mut rand::rngs::SmallRng,
)
    requires
        world.wf(),
        old(events).wf(),
        reader < old(events).cursors@.len(),
        old(commands).wf(),
        old(commands).queue@.len() + 16 * world.model().len() + 16 < 1_000_000_000,
    ensures
        final(events).wf(),
        final(commands).wf(),
        final(events).events@ == old(events).events@,
        final(events).cursors@ == old(events).cursors@.update(
            reader as int,
            old(events).events@.len() as usize,
        ),
        final(events).fresh == old(events).fresh,
        old(commands).queue@.is_prefix_of(final(commands).queue@),
        forall|k: int|
            old(commands).queue@.len() <= k < final(commands).queue@.len() ==> ((
            #[trigger] final(commands).queue@[k]) matches Command::Spawn(b) && explosion_bundle_ok(
                world.model(),
                b,
            )),
        !old(events).events@.subrange(
            old(events).cursors@[reader as int] as int,
            old(events).events@.len() as int,
        ).contains(GameEvents::PlayerDeath) ==> final(commands).queue@ == old(commands).queue@,
        // A death seen this step bursts 8 to 11 lines per live player:
        // the appended spawn count is pinned to that band.
        old(events).events@.subrange(
            old(events).cursors@[reader as int] as int,
            old(events).events@.len() as int,
        ).contains(GameEvents::PlayerDeath) ==> {
            let appended = final(commands).queue@.len() - old(commands).queue@.len();
            let pc = player_count_upto(world.model(), world.model().len());
            8 * pc <= appended <= 11 * pc
        },
        final(commands).queue@.len() <= old(commands).queue@.len() + 16 * world.model().len(),
{
    let ghost m0 = world.model();
    let ghost q0 = old(commands).queue@;
    let death = events.read_contains(reader, GameEvents::PlayerDeath);
    if !death {
        return ;
    }
    let n = world.num_slots();
    let mut i: usize = 0;
    while i < n
        invariant
            i <= n,
            n == m0.len(),
            world.wf(),
            commands.wf(),
            m0 == world.model(),
            q0.is_prefix_of(commands.queue@),
            commands.queue@.len() <= q0.len() + 16 * i,
            q0.len() + 8 * player_count_upto(m0, i as int) <= commands.queue@.len(),
            commands.queue@.len() <= q0.len() + 11 * player_count_upto(m0, i as int),
            forall|k: int|
                q0.len() <= k < commands.queue@.len() ==> ((#[trigger] commands.queue@[k]) matches
                    Command::Spawn(b) && explosion_bundle_ok(m0, b)),
            q0.len() + 16 * m0.len() + 16 < 1_000_000_000,
        decreases n - i,
    {
        proof {
            assert(player_count_upto(m0, i + 1) <= player_count_upto(m0, i as int) + 1);
        }
        let ghost qpre_i = commands.queue@;
        let has = world.alive[i] && world.players[i].is_some() && world.transforms[i].is_some()
            && world.boosts[i].is_some();
        proof {
            assert(has == player_slot(m0, i as int));
        }
        if has {
            let t: Transform = world.transforms[i].unwrap();
            proof {
                assert(crate::world::opt_transform_wf(m0.transforms[i as int]));
            }
            let burst: i64 = rand_range(rng, 8, 12);
            let mut c: i64 = 0;
            while c < burst
                invariant
                    0 <= c <= burst <= 11,
                    world.wf(),
                    commands.wf(),
                    m0 == world.model(),
                    player_slot(m0, i as int),
                    t == m0.transforms[i as int]->Some_0,
                    t.wf(),
                    q0.is_prefix_of(commands.queue@),
                    commands.queue@.len() == qpre_i.len() + c,
                    qpre_i.len() <= q0.len() + 16 * i,
                    i < n,
                    n == m0.len(),
                    forall|k: int|
                        q0.len() <= k < commands.queue@.len() ==> ((
                        #[trigger] commands.queue@[k]) matches Command::Spawn(b)
                            && explosion_bundle_ok(m0, b)),
                    q0.len() + 16 * m0.len() + 16 < 1_000_000_000,
                decreases burst - c,
            {
                let ghost qpre = commands.queue@;
                let length: i64 = rand_range(rng, 2_000_000, 8_000_000);
                let ttl: i64 = rand_range(rng, 300_000, 500_000);
                let speed: i64 = rand_range(rng, 75_000_000, 150_000_000);
                let z_angle: i64 = rand_range(rng, 0, TURN);
                let mut v: Vec<(i64, i64)> = Vec::new();
                v.push((speed, 0));
                v.push((length, 0));
                v.push((3_000_000, 0));
                let mut b = Bundle::empty();
                b.transform = Some(Transform { rotation: z_angle, ..t });
                b.explosion_effect = Some(ExplosionEffect { color: rgb_color_player() });
                b.interpolation = Some(Interpolation::new(v, ttl as u64, false));
                commands.spawn(b);
                proof {
                    assert(explosion_bundle_ok(m0, b)) by {
                        assert(player_slot(m0, i as int));
                        assert(b.interpolation->Some_0.begin_end@[0] == (speed, 0i64));
                        assert(b.interpolation->Some_0.begin_end@[1] == (length, 0i64));
                        assert(b.interpolation->Some_0.begin_end@[2] == (3_000_000i64, 0i64));
                    }
                    assert(q0.is_prefix_of(commands.queue@)) by {
                        assert(commands.queue@.subrange(0, q0.len() as int) =~= qpre.subrange(
                            0,
                            q0.len() as int,
                        ));
                    }
                }
                c = c + 1;
            }
        }
        i = i + 1;
    }
}

// ---------------------------------------------------------------------------
// Pickup spawning

/// What an ammunition pickup bundle may hold: a random position inside
/// the screen margins, a random heading and speed, the fixed half-turn
/// steering rate, and the untouched capture timer.
pub open spec fn ammo_bundle_ok(b: Bundle) -> bool {
    &&& b.ammo_pickup is Some
    &&& 10_000_000 <= b.ammo_pickup->Some_0.movement_speed < 20_000_000
    &&& b.ammo_pickup->Some_0.rotation_speed == 500_000
    &&& -1_000_000 <= b.ammo_pickup->Some_0.center_rotation_speed < 1_000_000
    &&& b.ammo_pickup->Some_0.timer == (Timer {
        elapsed: 0,
        duration: 150_000,
        count: 0,
        finished: false,
        repeating: false,
    })
    &&& b.transform is Some
    &&& 8_000_000 <= b.transform->Some_0.x < SCREEN_WIDTH - 8_000_000
    &&& 8_000_000 <= b.transform->Some_0.y < SCREEN_HEIGHT - 8_000_000
    &&& 0 <= b.transform->Some_0.rotation < TURN
    &&& b.transform->Some_0.z == Z_INDEX_AMMO_PICKUP
    &&& b.transform->Some_0.center_rotation == 0
    &&& b.player is None
    &&& b.projectile is None
    &&& b.dead_projectile is None
    &&& b.explosion_effect is None
    &&& b.tick_effect is None
    &&& b.trail_effect is None
    &&& b.interpolation is None
    &&& b.boost is None
    &&& b.boost_pickup is None
}

/// While the ammunition timer fires, spawns one pickup somewhere inside
/// the screen with a random heading, drifting at a random speed and
/// spinning at a random rate.
pub fn ammo_pickup_spawn_system(
    commands: &mut Commands,
    timers: &EntitySpawnTimer,
    rng: &mut rand::rngs::SmallRng,
)
    requires
        old(commands).wf(),
        old(commands).queue@.len() < 1_000_000_000,
    ensures
        final(commands).wf(),
        !timers.ammo_pickup.finished ==> final(commands).queue@ == old(commands).queue@,
        timers.ammo_pickup.finished ==> final(commands).queue@.len() == old(
            commands,
        ).queue@.len() + 1 && final(commands).queue@.take(old(commands).queue@.len() as int) == old(
            commands,
        ).queue@ && (final(commands).queue@.last() matches Command::Spawn(b) && ammo_bundle_ok(b)),
{
    if !timers.ammo_pickup.finished {
        return ;
    }
    let x: i64 = rand_range(rng, 8_000_000, SCREEN_WIDTH - 8_000_000);
    let y: i64 = rand_range(rng, 8_000_000, SCREEN_HEIGHT - 8_000_000);
    let rotation: i64 = rand_range(rng, 0, TURN);
    let movement_speed: i64 = rand_range(rng, 10_000_000, 20_000_000);
    let center: i64 = rand_range(rng, -1_000_000, 1_000_000);
    let mut b = Bundle::empty();
    b.ammo_pickup = Some(
        AmmoPickup {
            movement_speed,
            rotation_speed: 500_000,
            center_rotation_speed: center,
            timer: Timer::from_micros(150_000, false),
        },
    );
    b.transform = Some(
        Transform { rotation, x, y, z: Z_INDEX_AMMO_PICKUP, center_rotation: 0 },
    );
    commands.spawn(b);
    proof {
        assert(commands.queue@.take(old(commands).queue@.len() as int) =~= old(commands).queue@);
    }
}

/// What a boost pickup bundle may hold: it enters from a vertical edge
/// (12 px outside, on the side its drift direction brings it in from), at
/// a random height and speed, with its blink timer fresh.
pub open spec fn boost_bundle_ok(b: Bundle) -> bool {
    &&& b.boost_pickup is Some
    &&& 20_000_000 <= b.boost_pickup->Some_0.movement_speed < 40_000_000
    &&& (b.boost_pickup->Some_0.movement_direction == 1 || b.boost_pickup->Some_0.movement_direction
        == -1)
    &&& -1_000_000 <= b.boost_pickup->Some_0.center_rotation_speed < 1_000_000
    &&& b.boost_pickup->Some_0.visible == true
    &&& b.boost_pickup->Some_0.timer == (Timer {
        elapsed: 0,
        duration: 50_000,
        count: 0,
        finished: false,
        repeating: true,
    })
    &&& b.transform is Some
    &&& b.transform->Some_0.x == (if b.boost_pickup->Some_0.movement_direction == 1 {
        -12_000_000int
    } else {
        SCREEN_WIDTH + 12_000_000
    })
    &&& 12_000_000 <= b.transform->Some_0.y < SCREEN_HEIGHT - 12_000_000
    &&& b.transform->Some_0.rotation == 0
    &&& b.transform->Some_0.z == Z_INDEX_BOOST_PICKUP
    &&& b.transform->Some_0.center_rotation == 0
    &&& b.player is None
    &&& b.projectile is None
    &&& b.dead_projectile is None
    &&& b.explosion_effect is None
    &&& b.tick_effect is None
    &&& b.trail_effect is None
    &&& b.interpolation is None
    &&& b.boost is None
    &&& b.ammo_pickup is None
}

/// While the boost timer fires, spawns one pickup just outside a random
/// vertical edge, drifting across the screen at a random height, speed
/// and spin.
pub fn boost_pickup_spawn_system(
    commands: &mut Commands,
    timers: &EntitySpawnTimer,
    rng: &mut rand::rngs::SmallRng,
)
    requires
        old(commands).wf(),
        old(commands).queue@.len() < 1_000_000_000,
    ensures
        final(commands).wf(),
        !timers.boost_pickup.finished ==> final(commands).queue@ == old(commands).queue@,
        timers.boost_pickup.finished ==> final(commands).queue@.len() == old(
            commands,
        ).queue@.len() + 1 && final(commands).queue@.take(old(commands).queue@.len() as int) == old(
            commands,
        ).queue@ && (final(commands).queue@.last() matches Command::Spawn(b) && boost_bundle_ok(b)),
{
    if !timers.boost_pickup.finished {
        return ;
    }
    let coin: i64 = rand_range(rng, 0, 2);
    let movement_direction: i64 = if coin == 0 {
        -1
    } else {
        1
    };
    let x: i64 = if movement_direction == 1 {
        -12_000_000
    } else {
        SCREEN_WIDTH + 12_000_000
    };
    let y: i64 = rand_range(rng, 12_000_000, SCREEN_HEIGHT - 12_000_000);
    let movement_speed: i64 = rand_range(rng, 20_000_000, 40_000_000);
    let center: i64 = rand_range(rng, -1_000_000, 1_000_000);
    let mut b = Bundle::empty();
    b.boost_pickup = Some(
        BoostPickup {
            movement_speed,
            movement_direction,
            center_rotation_speed: center,
            timer: Timer::from_micros(50_000, true),
            visible: true,
        },
    );
    b.transform = Some(
        Transform { rotation: 0, x, y, z: Z_INDEX_BOOST_PICKUP, center_rotation: 0 },
    );
    commands.spawn(b);
    proof {
        assert(commands.queue@.take(old(commands).queue@.len() as int) =~= old(commands).queue@);
    }
}


// ---------------------------------------------------------------------------
// Ammunition pickup homing and capture

/// Whether slot `i` carries an ammunition pickup.
pub open spec fn ammo_slot(m: WorldModel, i: int) -> bool {
    &&& 0 <= i < m.len()
    &&& m.alive[i]
    &&& m.ammo_pickups[i] is Some
    &&& m.transforms[i] is Some
}

/// The pickup stands more than 8 px outside the screen.
pub open spec fn ammo_gone(m: WorldModel, j: int) -> bool {
    screen_out_of_bounds_spec(
        m.transforms[j]->Some_0.x as int,
        m.transforms[j]->Some_0.y as int,
        8_000_000,
    )
}

/// The capture animation has run out: the pickup despawns this step.
pub open spec fn ammo_done(m: WorldModel, j: int) -> bool {
    m.ammo_pickups[j]->Some_0.timer.finished
}

/// The capture animation is running (the timer has started).
pub open spec fn ammo_capturing(m: WorldModel, j: int) -> bool {
    m.ammo_pickups[j]->Some_0.timer.elapsed > 0
}

/// The distance from a pickup at `t` to the player at `p`, micro-pixels
/// rounded down.
pub open spec fn ammo_norm(t: Transform, p: (i64, i64)) -> int {
    crate::trig::sqrt_floor(
        (p.0 - t.x) * (p.0 - t.x) + (p.1 - t.y) * (p.1 - t.y),
    )
}

/// The cosine between the pickup's forward axis and the to-player
/// vector, on the `UNIT` scale, clamped as the steering clamps it.
pub open spec fn ammo_cos(t: Transform, p: (i64, i64)) -> int {
    clamp_spec(
        crate::fixed::div_trunc(
            -sin_uturn_spec(t.rotation as int) * (p.0 - t.x) + cos_uturn_spec(t.rotation as int)
                * (p.1 - t.y),
            ammo_norm(t, p),
        ),
        -UNIT as int,
        UNIT as int,
    )
}

/// The steering side: turn clockwise when the player lies on the
/// pickup's rightward side (a zero dot counts as rightward, as the
/// sign-copy convention has it), else counter-clockwise.
pub open spec fn ammo_rsign(t: Transform, p: (i64, i64)) -> int {
    if cos_uturn_spec(t.rotation as int) * (p.0 - t.x) + sin_uturn_spec(t.rotation as int) * (p.1
        - t.y) >= 0 {
        -1
    } else {
        1
    }
}

/// The steering has nothing to do: the pickup stands on the player, or
/// its heading already points at it (clamped cosine exactly one).
pub open spec fn ammo_aligned(t: Transform, p: (i64, i64)) -> bool {
    ammo_norm(t, p) == 0 || ammo_cos(t, p) == UNIT
}

/// The steering phase of one seeking pickup: an aligned pickup rests
/// for this step; any other turns by exactly the signed angular step,
/// clamped by the inverse cosine of its alignment so it never overshoots
/// the angle actually needed, starts its capture clock once within the
/// trigger distance, spins, and drifts along its new heading.
pub open spec fn ammo_steer_case(
    a: AmmoPickup,
    t: Transform,
    p: (i64, i64),
    dt: u64,
    a2: AmmoPickup,
    t2: Transform,
) -> bool {
    let spun = norm_angle_spec(
        t.center_rotation + per_step(a.center_rotation_speed as int, dt as int),
    );
    let dx = p.0 - t.x;
    let dy = p.1 - t.y;
    let captured = dx * dx + dy * dy < 400_000_000_000_000;
    let ma = crate::trig::acos_uturn_spec(ammo_cos(t, p));
    if ammo_aligned(t, p) {
        a2 == a && t2 == t
    } else {
        &&& a2 == (AmmoPickup {
            timer: if captured {
                a.timer.tick_spec(dt)
            } else {
                a.timer
            },
            ..a
        })
        &&& t2 == fly_spec(
            Transform {
                rotation: norm_angle_spec(
                    t.rotation + ammo_rsign(t, p) * (if per_step(a.rotation_speed as int, dt as int)
                        < ma {
                        per_step(a.rotation_speed as int, dt as int)
                    } else {
                        ma
                    }),
                ) as i64,
                center_rotation: spun as i64,
                ..t
            },
            a.movement_speed,
            dt,
        )
    }
}

/// How an active (seeking) pickup evolves in one step, given the player
/// position `pp` if a player exists. With no player it spins and drifts
/// straight on. With a player it either stands exactly aligned (and then
/// rests, as the steering has nothing to do), or turns toward the player
/// by a bounded angle, starts its capture timer once within the trigger
/// distance, spins, and drifts along its new heading.
pub open spec fn ammo_active_rel(
    a: AmmoPickup,
    t: Transform,
    pp: Option<(i64, i64)>,
    dt: u64,
    a2: AmmoPickup,
    t2: Transform,
) -> bool {
    let spun = norm_angle_spec(t.center_rotation + per_step(a.center_rotation_speed as int, dt as int));
    match pp {
        None => {
            &&& a2 == a
            &&& t2 == fly_spec(
                Transform { center_rotation: spun as i64, ..t },
                a.movement_speed,
                dt,
            )
        },
        Some(p) => ammo_steer_case(a, t, p, dt, a2, t2),
    }
}

/// One seeking pickup's update: steering, capture start, spin and
/// drift, exactly as `ammo_active_rel` relates them.
pub fn ammo_update(a: AmmoPickup, t: Transform, pp: Option<(i64, i64)>, dt: u64) -> (out: (
    AmmoPickup,
    Transform,
    bool,
))
    requires
        a.wf(),
        t.wf(),
        dt <= MAX_STEP_MICROS,
        pp matches Some(p) ==> -POS_LIMIT <= p.0 <= POS_LIMIT && -POS_LIMIT <= p.1 <= POS_LIMIT,
    ensures
        ammo_active_rel(a, t, pp, dt, out.0, out.1),
        out.0.wf(),
        out.1.wf(),
        out.2 == (match pp {
            Some(p) => (p.0 - t.x) * (p.0 - t.x) + (p.1 - t.y) * (p.1 - t.y)
                < 400_000_000_000_000 && out.0.timer != a.timer,
            None => false,
        }),
{
    proof {
        crate::fixed::lemma_mul_div_trunc_bound(a.center_rotation_speed as int, dt as int,
            MICROS_PER_SEC as int);
        crate::fixed::lemma_mul_div_trunc_bound(a.rotation_speed as int, dt as int,
            MICROS_PER_SEC as int);
    }
    let spun: i64 = norm_angle(
        t.center_rotation + mul_div(a.center_rotation_speed, dt as i64, MICROS_PER_SEC as i64),
    );
    match pp {
        None => {
            let t2 = fly(Transform { center_rotation: spun, ..t }, a.movement_speed, dt);
            (a, t2, false)
        },
        Some(p) => {
            let dx: i64 = p.0 - t.x;
            let dy: i64 = p.1 - t.y;
            proof {
                assert(0 <= (dx as int) * (dx as int) <= 16_000_000_000_000_000_000int && 0 <= (
                dy as int) * (dy as int) <= 16_000_000_000_000_000_000int && 0 <= (dx as int) * (
                dx as int) + (dy as int) * (dy as int) <= 32_000_000_000_000_000_000int)
                    by (nonlinear_arith)
                    requires
                        -4_000_000_000 <= dx <= 4_000_000_000,
                        -4_000_000_000 <= dy <= 4_000_000_000,
                {}
            }
            let dist2: u128 = ((dx as i128) * (dx as i128) + (dy as i128) * (dy as i128)) as u128;
            let norm: u64 = crate::trig::isqrt(dist2);
            if norm == 0 {
                // Standing exactly on the player: nothing to steer by.
                proof {
                    assert(ammo_aligned(t, p));
                    assert(ammo_steer_case(a, t, p, dt, a, t));
                }
                return (a, t, false);
            }
            let d = forward(t.rotation);
            proof {
                assert(-4_000_000_000_000_000 <= (d.0 as int) * (dx as int)
                    <= 4_000_000_000_000_000int && -4_000_000_000_000_000 <= (d.1 as int) * (
                dy as int) <= 4_000_000_000_000_000int) by (nonlinear_arith)
                    requires
                        -1_000_000 <= d.0 <= 1_000_000,
                        -1_000_000 <= d.1 <= 1_000_000,
                        -4_000_000_000 <= dx <= 4_000_000_000,
                        -4_000_000_000 <= dy <= 4_000_000_000,
                {}
            }
            let dot: i128 = (d.0 as i128) * (dx as i128) + (d.1 as i128) * (dy as i128);
            proof {
                crate::fixed::lemma_div_trunc_le(dot as int, norm as int);
            }
            let c_raw: i64 = crate::fixed::div_trunc_wide(dot, norm);
            let c: i64 = crate::fixed::clamp(c_raw, -UNIT, UNIT);
            if c == UNIT {
                // Already pointing at the player: the steering has
                // nothing to do and skips the pickup for this step.
                proof {
                    assert(c == ammo_cos(t, p));
                    assert(ammo_aligned(t, p));
                    assert(ammo_steer_case(a, t, p, dt, a, t));
                }
                return (a, t, false);
            }
            let r = crate::trig::rightward(t.rotation);
            proof {
                assert(-4_000_000_000_000_000 <= (r.0 as int) * (dx as int)
                    <= 4_000_000_000_000_000int && -4_000_000_000_000_000 <= (r.1 as int) * (
                dy as int) <= 4_000_000_000_000_000int) by (nonlinear_arith)
                    requires
                        -1_000_000 <= r.0 <= 1_000_000,
                        -1_000_000 <= r.1 <= 1_000_000,
                        -4_000_000_000 <= dx <= 4_000_000_000,
                        -4_000_000_000 <= dy <= 4_000_000_000,
                {}
            }
            let rtp: i128 = (r.0 as i128) * (dx as i128) + (r.1 as i128) * (dy as i128);
            let rsign: i64 = if rtp >= 0 {
                -1
            } else {
                1
            };
            let max_angle: i64 = crate::trig::acos_uturn(c);
            let rot_step: i64 = mul_div(a.rotation_speed, dt as i64, MICROS_PER_SEC as i64);
            let turn_mag: i64 = if rot_step < max_angle {
                rot_step
            } else {
                max_angle
            };
            let turn: i64 = rsign * turn_mag;
            let heading: i64 = norm_angle(t.rotation + turn);
            let captured: bool = dist2 < 400_000_000_000_000;
            let mut timer = a.timer;
            if captured {
                timer.tick(dt);
            }
            let a2 = AmmoPickup { timer, ..a };
            let t2 = fly(
                Transform { rotation: heading, center_rotation: spun, ..t },
                a.movement_speed,
                dt,
            );
            proof {
                assert(c == ammo_cos(t, p));
                assert(!ammo_aligned(t, p));
                assert(rsign == ammo_rsign(t, p));
                assert(max_angle as int == crate::trig::acos_uturn_spec(ammo_cos(t, p)));
                assert(ammo_steer_case(a, t, p, dt, a2, t2));
            }
            let changed: bool = captured && timer != a.timer;
            (a2, t2, changed)
        },
    }
}


/// Where one ammunition slot may stand after the system ran, given the
/// player position `pp`: a gone or spent pickup is left for the barrier,
/// a capturing one only runs its animation clock, and a seeking one
/// steers, spins and drifts.
pub open spec fn ammo_post_ok(
    m0: WorldModel,
    pp: Option<(i64, i64)>,
    dt: u64,
    j: int,
    a1: Option<AmmoPickup>,
    t1: Option<Transform>,
) -> bool {
    let a = m0.ammo_pickups[j]->Some_0;
    if ammo_gone(m0, j) || ammo_done(m0, j) {
        a1 == m0.ammo_pickups[j] && t1 == m0.transforms[j]
    } else if ammo_capturing(m0, j) {
        a1 == Some(AmmoPickup { timer: a.timer.tick_spec(dt), ..a }) && t1 == m0.transforms[j]
    } else {
        a1 is Some && t1 is Some && ammo_active_rel(
            a,
            m0.transforms[j]->Some_0,
            pp,
            dt,
            a1->Some_0,
            t1->Some_0,
        )
    }
}

/// What one burst line of a pickup's capture explosion may hold: a line
/// at the pickup's position with a random heading, a random speed and
/// lifetime, the fixed 5 px length and 3 px width, in the pickup color.
pub open spec fn ammo_burst_ok(m: WorldModel, b: Bundle) -> bool {
    exists|j: int|
        #[trigger] ammo_slot(m, j) && {
            let t = m.transforms[j]->Some_0;
            &&& b.transform is Some
            &&& b.transform->Some_0.x == t.x
            &&& b.transform->Some_0.y == t.y
            &&& b.transform->Some_0.z == t.z
            &&& 0 <= b.transform->Some_0.rotation < TURN
            &&& b.explosion_effect == Some(ExplosionEffect { color: Rgb { r: 123, g: 200, b: 164 } })
            &&& b.interpolation is Some
            &&& b.interpolation->Some_0.time == 0
            &&& 200_000 <= b.interpolation->Some_0.duration < 400_000
            &&& b.interpolation->Some_0.repeating == false
            &&& b.interpolation->Some_0.begin_end@.len() == 3
            &&& 75_000_000 <= b.interpolation->Some_0.begin_end@[0].0 < 150_000_000
            &&& b.interpolation->Some_0.begin_end@[0].1 == 0
            &&& b.interpolation->Some_0.begin_end@[1] == (5_000_000i64, 0i64)
            &&& b.interpolation->Some_0.begin_end@[2] == (3_000_000i64, 0i64)
            &&& b.player is None
            &&& b.projectile is None
            &&& b.dead_projectile is None
            &&& b.tick_effect is None
            &&& b.trail_effect is None
            &&& b.boost is None
            &&& b.ammo_pickup is None
            &&& b.boost_pickup is None
        }
}

/// What the ammunition system may queue: despawns of gone or spent
/// pickups, and the burst lines that accompany a spent pickup's final
/// despawn.
pub open spec fn ammo_cmd_ok(m: WorldModel, c: Command) -> bool {
    match c {
        Command::Despawn(e) => exists|j: int|
            #[trigger] ammo_slot(m, j) && e == slot_entity(m, j) && (ammo_gone(m, j) || (
            !ammo_gone(m, j) && ammo_done(m, j))),
        Command::Spawn(b) => ammo_burst_ok(m, b),
        Command::Insert(_, _) => false,
    }
}

/// The queue holds, at or after `lo`, the despawn of slot `j`.
pub open spec fn despawn_present(m0: WorldModel, qs: Seq<Command>, lo: int, j: int) -> bool {
    exists|k: int| lo <= k < qs.len() && qs[k] == Command::Despawn(slot_entity(m0, j))
}

/// A despawn once queued stays queued as the buffer grows.
pub proof fn lemma_despawn_present_mono(
    m0: WorldModel,
    qs: Seq<Command>,
    qs2: Seq<Command>,
    lo: int,
    j: int,
)
    requires
        lo >= 0,
        qs.is_prefix_of(qs2),
        despawn_present(m0, qs, lo, j),
    ensures
        despawn_present(m0, qs2, lo, j),
{
    let k0 = choose|k: int| lo <= k < qs.len() && qs[k] == Command::Despawn(slot_entity(m0, j));
    assert(qs2.subrange(0, qs.len() as int) =~= qs);
    assert(qs2[k0] == qs2.subrange(0, qs.len() as int)[k0]);
    assert(lo <= k0 < qs2.len() && qs2[k0] == Command::Despawn(slot_entity(m0, j)));
}

/// The queue holds, at or after `lo`, at least one burst line at slot
/// `j`'s position.
pub open spec fn ammo_burst_present(m0: WorldModel, qs: Seq<Command>, lo: int, j: int) -> bool {
    exists|k: int|
        lo <= k < qs.len() && ((#[trigger] qs[k]) matches Command::Spawn(b) && b.transform
            is Some && b.transform->Some_0.x == m0.transforms[j]->Some_0.x
            && b.transform->Some_0.y == m0.transforms[j]->Some_0.y && b.explosion_effect == Some(
            ExplosionEffect { color: Rgb { r: 123, g: 200, b: 164 } },
        ))
}

/// A queued burst line stays queued as the buffer grows.
pub proof fn lemma_burst_present_mono(
    m0: WorldModel,
    qs: Seq<Command>,
    qs2: Seq<Command>,
    lo: int,
    j: int,
)
    requires
        lo >= 0,
        qs.is_prefix_of(qs2),
        ammo_burst_present(m0, qs, lo, j),
    ensures
        ammo_burst_present(m0, qs2, lo, j),
{
    let k0 = choose|k: int|
        lo <= k < qs.len() && ((#[trigger] qs[k]) matches Command::Spawn(b) && b.transform
            is Some && b.transform->Some_0.x == m0.transforms[j]->Some_0.x
            && b.transform->Some_0.y == m0.transforms[j]->Some_0.y && b.explosion_effect == Some(
            ExplosionEffect { color: Rgb { r: 123, g: 200, b: 164 } },
        ));
    assert(qs2.subrange(0, qs.len() as int) =~= qs);
    assert(qs2[k0] == qs2.subrange(0, qs.len() as int)[k0]);
}

/// Every spent pickup despawning below `i` has its burst queued.
pub open spec fn ammo_bursts_upto(m0: WorldModel, qs: Seq<Command>, lo: int, i: int) -> bool {
    forall|j: int|
        #[trigger] ammo_slot(m0, j) && j < i && !ammo_gone(m0, j) && ammo_done(m0, j)
            ==> ammo_burst_present(m0, qs, lo, j)
}

/// All ammunition slots below `i` stand in an admissible post state.
pub open spec fn ammo_posts_upto(
    m0: WorldModel,
    pp: Option<(i64, i64)>,
    dt: u64,
    av: Seq<Option<AmmoPickup>>,
    tv: Seq<Option<Transform>>,
    i: int,
) -> bool {
    forall|j: int|
        #[trigger] ammo_slot(m0, j) && j < i ==> ammo_post_ok(m0, pp, dt, j, av[j], tv[j])
}

/// Every slot that is not an ammunition slot below `i` is untouched.
pub open spec fn ammo_unchanged_outside(
    m0: WorldModel,
    av: Seq<Option<AmmoPickup>>,
    tv: Seq<Option<Transform>>,
    i: int,
) -> bool {
    forall|j: int|
        0 <= j < m0.len() && !(ammo_slot(m0, j) && j < i) ==> av[j] == m0.ammo_pickups[j] && tv[j]
            == m0.transforms[j]
}

/// Every gone or spent ammunition slot below `i` has its despawn queued.
pub open spec fn ammo_despawns_upto(m0: WorldModel, qs: Seq<Command>, lo: int, i: int) -> bool {
    forall|j: int|
        #[trigger] ammo_slot(m0, j) && j < i && (ammo_gone(m0, j) || (!ammo_gone(m0, j)
            && ammo_done(m0, j))) ==> despawn_present(m0, qs, lo, j)
}

/// Where a seeking pickup stands after its steering, spin and drift —
/// the functional form of `ammo_active_rel`'s placement.
pub open spec fn ammo_new_transform(
    a: AmmoPickup,
    t: Transform,
    pp: Option<(i64, i64)>,
    dt: u64,
) -> Transform {
    let spun = norm_angle_spec(
        t.center_rotation + per_step(a.center_rotation_speed as int, dt as int),
    );
    let ma = match pp {
        Some(p) => crate::trig::acos_uturn_spec(ammo_cos(t, p)),
        None => 0int,
    };
    match pp {
        None => fly_spec(Transform { center_rotation: spun as i64, ..t }, a.movement_speed, dt),
        Some(p) => if ammo_aligned(t, p) {
            t
        } else {
            fly_spec(
                Transform {
                    rotation: norm_angle_spec(
                        t.rotation + ammo_rsign(t, p) * (if per_step(
                            a.rotation_speed as int,
                            dt as int,
                        ) < ma {
                            per_step(a.rotation_speed as int, dt as int)
                        } else {
                            ma
                        }),
                    ) as i64,
                    center_rotation: spun as i64,
                    ..t
                },
                a.movement_speed,
                dt,
            )
        },
    }
}

/// The quads the ammunition system records for the slots below `i`: a
/// capturing pickup pulses as a 9.5 px filled square in place; a seeking
/// one is an 8 px stroked square at its steered placement, both in the
/// pickup green.
pub open spec fn ammo_quads_upto(
    m: WorldModel,
    pp: Option<(i64, i64)>,
    dt: u64,
    i: int,
) -> Seq<crate::resources::ShapeDraw>
    decreases i,
{
    if i <= 0 {
        Seq::empty()
    } else {
        ammo_quads_upto(m, pp, dt, i - 1) + (if ammo_slot(m, i - 1) && !ammo_gone(m, i - 1)
            && !ammo_done(m, i - 1) && ammo_capturing(m, i - 1) {
            seq![
                crate::resources::ShapeDraw {
                    transform: m.transforms[i - 1]->Some_0,
                    off_x: -4_750_000i64,
                    off_y: -4_750_000i64,
                    off_z: 1_000_000,
                    size_a: 9_500_000,
                    size_b: 9_500_000,
                    line_width: 0,
                    filled: true,
                    color: Rgb { r: 123, g: 200, b: 164 },
                },
            ]
        } else if ammo_slot(m, i - 1) && !ammo_gone(m, i - 1) && !ammo_done(m, i - 1)
            && !ammo_capturing(m, i - 1) {
            seq![
                crate::resources::ShapeDraw {
                    transform: ammo_new_transform(
                        m.ammo_pickups[i - 1]->Some_0,
                        m.transforms[i - 1]->Some_0,
                        pp,
                        dt,
                    ),
                    off_x: -4_000_000i64,
                    off_y: -4_000_000i64,
                    off_z: 1_000_000,
                    size_a: 8_000_000,
                    size_b: 8_000_000,
                    line_width: 1_000_000,
                    filled: false,
                    color: Rgb { r: 123, g: 200, b: 164 },
                },
            ]
        } else {
            Seq::empty()
        })
    }
}

/// Drives every ammunition pickup. One outside the screen margin or at
/// the end of its capture animation despawns; a capturing one runs its
/// clock and pulses; a seeking one steers toward the player at a bounded
/// angular rate, starts its capture (with a radial burst of 4 to 7
/// lines) once within the trigger distance, spins, drifts along its
/// heading and is recorded for the renderer.
#[verifier::rlimit(100)]
#[verifier::spinoff_prover]
pub fn ammo_pickup_system(
    world: &mut World,
    commands: &mut Commands,
    quads: &mut crate::resources::QuadGeometry,
    time: &Time,
    rng: &mut rand::rngs::SmallRng,
)
    requires
        old(world).wf(),
        old(commands).wf(),
        time.duration <= MAX_STEP_MICROS,
        old(commands).queue@.len() + 9 * old(world).model().len() < 1_000_000_000,
    ensures
        final(world).wf(),
        final(commands).wf(),
        ({
            let m0 = old(world).model();
            let m1 = final(world).model();
            let dt = time.duration;
            let fp = first_player_from(m0, 0);
            let pp: Option<(i64, i64)> = if fp < m0.len() {
                Some((m0.transforms[fp]->Some_0.x, m0.transforms[fp]->Some_0.y))
            } else {
                None
            };
            &&& m1.generations == m0.generations
            &&& m1.alive == m0.alive
            &&& m1.players == m0.players
            &&& m1.projectiles == m0.projectiles
            &&& m1.dead_projectiles == m0.dead_projectiles
            &&& m1.explosion_effects == m0.explosion_effects
            &&& m1.tick_effects == m0.tick_effects
            &&& m1.trail_effects == m0.trail_effects
            &&& m1.interpolations == m0.interpolations
            &&& m1.boosts == m0.boosts
            &&& m1.boost_pickups == m0.boost_pickups
            &&& m1.ammo_pickups.len() == m0.ammo_pickups.len()
            &&& m1.transforms.len() == m0.transforms.len()
            &&& ammo_posts_upto(m0, pp, dt, m1.ammo_pickups, m1.transforms, m0.len())
            &&& ammo_unchanged_outside(m0, m1.ammo_pickups, m1.transforms, m0.len())
            &&& old(commands).queue@.is_prefix_of(final(commands).queue@)
            &&& forall|k: int|
                old(commands).queue@.len() <= k < final(commands).queue@.len() ==> ammo_cmd_ok(
                    m0,
                    #[trigger] final(commands).queue@[k],
                )
            &&& ammo_despawns_upto(
                m0,
                final(commands).queue@,
                old(commands).queue@.len() as int,
                m0.len(),
            )
            &&& ammo_bursts_upto(
                m0,
                final(commands).queue@,
                old(commands).queue@.len() as int,
                m0.len(),
            )
            &&& final(quads).shapes@ == old(quads).shapes@ + ammo_quads_upto(m0, pp, dt, m0.len())
        }),
        final(commands).queue@.len() <= old(commands).queue@.len() + 9 * old(world).model().len(),
        old(quads).shapes@.is_prefix_of(final(quads).shapes@),
{
    let ghost m0 = old(world).model();
    let ghost q0 = old(commands).queue@;
    let ghost s0 = old(quads).shapes@;
    let dt: u64 = time.duration;
    let n = world.num_slots();
    let fp = find_first_player(world);
    let pp: Option<(i64, i64)> = if fp < n {
        let pt: Transform = world.transforms[fp].unwrap();
        proof {
            assert(crate::world::opt_transform_wf(m0.transforms[fp as int]));
        }
        Some((pt.x, pt.y))
    } else {
        None
    };
    let mut i: usize = 0;
    while i < n
        invariant
            i <= n,
            n == m0.len(),
            dt == time.duration,
            dt <= MAX_STEP_MICROS,
            world.wf(),
            commands.wf(),
            world.generations@ == m0.generations,
            world.alive@ == m0.alive,
            world.players@ == m0.players,
            world.projectiles@ == m0.projectiles,
            world.dead_projectiles@ == m0.dead_projectiles,
            world.explosion_effects@ == m0.explosion_effects,
            world.tick_effects@ == m0.tick_effects,
            world.trail_effects@ == m0.trail_effects,
            world.interpolations@ == m0.interpolations,
            world.boosts@ == m0.boosts,
            world.boost_pickups@ == m0.boost_pickups,
            world.ammo_pickups@.len() == n,
            world.transforms@.len() == n,
            (match pp {
                Some(p) => -POS_LIMIT <= p.0 <= POS_LIMIT && -POS_LIMIT <= p.1 <= POS_LIMIT,
                None => true,
            }),
            pp == (if first_player_from(m0, 0) < m0.len() {
                Some(
                    (
                        m0.transforms[first_player_from(m0, 0)]->Some_0.x,
                        m0.transforms[first_player_from(m0, 0)]->Some_0.y,
                    ),
                )
            } else {
                Option::<(i64, i64)>::None
            }),
            ammo_posts_upto(m0, pp, dt, world.ammo_pickups@, world.transforms@, i as int),
            ammo_unchanged_outside(m0, world.ammo_pickups@, world.transforms@, i as int),
            q0.is_prefix_of(commands.queue@),
            commands.queue@.len() <= q0.len() + 9 * i,
            forall|k: int|
                q0.len() <= k < commands.queue@.len() ==> ammo_cmd_ok(
                    m0,
                    #[trigger] commands.queue@[k],
                ),
            ammo_despawns_upto(m0, commands.queue@, q0.len() as int, i as int),
            ammo_bursts_upto(m0, commands.queue@, q0.len() as int, i as int),
            quads.shapes@ == s0 + ammo_quads_upto(m0, pp, dt, i as int),
            q0.len() + 9 * m0.len() < 1_000_000_000,
            s0.is_prefix_of(quads.shapes@),
        decreases n - i,
    {
        let ghost wpre = world.model();
        let ghost qpre_i = commands.queue@;
        let has = world.alive[i] && world.ammo_pickups[i].is_some()
            && world.transforms[i].is_some();
        proof {
            assert(has == ammo_slot(m0, i as int));
        }
        if has {
            let a: AmmoPickup = world.ammo_pickups[i].unwrap();
            let t: Transform = world.transforms[i].unwrap();
            proof {
                assert(crate::world::opt_ammo_pickup_wf(m0.ammo_pickups[i as int]));
                assert(crate::world::opt_transform_wf(m0.transforms[i as int]));
            }
            if screen_out_of_bounds_test(t.x, t.y, Some(8_000_000)) {
                let g = world.generations[i];
                commands.despawn(Entity { index: i, generation: g });
                proof {
                    assert(ammo_cmd_ok(m0, Command::Despawn(slot_entity(m0, i as int)))) by {
                        assert(ammo_slot(m0, i as int));
                    }
                }
            } else if a.timer.finished {
                // The capture animation ran out: the pickup despawns and
                // leaves its radial burst of 4 to 7 lines.
                let g = world.generations[i];
                commands.despawn(Entity { index: i, generation: g });
                proof {
                    assert(ammo_cmd_ok(m0, Command::Despawn(slot_entity(m0, i as int)))) by {
                        assert(ammo_slot(m0, i as int));
                    }
                }
                let ghost qdesp = commands.queue@;
                proof {
                    assert(qpre_i.is_prefix_of(commands.queue@)) by {
                        assert(commands.queue@.subrange(0, qpre_i.len() as int) =~= qpre_i);
                    }
                    assert(ammo_despawns_upto(m0, commands.queue@, q0.len() as int, i as int)) by {
                        assert forall|j: int|
                            #[trigger] ammo_slot(m0, j) && j < i && (ammo_gone(m0, j) || (
                            !ammo_gone(m0, j) && ammo_done(m0, j))) implies despawn_present(
                                m0,
                                commands.queue@,
                                q0.len() as int,
                                j,
                            ) by {
                            assert(despawn_present(m0, qpre_i, q0.len() as int, j));
                            lemma_despawn_present_mono(m0, qpre_i, commands.queue@,
                                q0.len() as int, j);
                        }
                    }
                    assert(ammo_bursts_upto(m0, commands.queue@, q0.len() as int, i as int)) by {
                        assert forall|j: int|
                            #[trigger] ammo_slot(m0, j) && j < i && !ammo_gone(m0, j)
                                && ammo_done(m0, j) implies ammo_burst_present(
                                m0,
                                commands.queue@,
                                q0.len() as int,
                                j,
                            ) by {
                            assert(ammo_burst_present(m0, qpre_i, q0.len() as int, j));
                            lemma_burst_present_mono(m0, qpre_i, commands.queue@, q0.len() as int,
                                j);
                        }
                    }
                }
                let burst: i64 = rand_range(rng, 4, 8);
                let mut cidx: i64 = 0;
                while cidx < burst
                    invariant
                        0 <= cidx <= burst <= 7,
                        commands.wf(),
                        ammo_slot(m0, i as int),
                        !ammo_gone(m0, i as int),
                        ammo_done(m0, i as int),
                        i < n,
                        n == m0.len(),
                        t == m0.transforms[i as int]->Some_0,
                        t.wf(),
                        q0.is_prefix_of(commands.queue@),
                        qpre_i.is_prefix_of(commands.queue@),
                        qdesp.is_prefix_of(commands.queue@),
                        qpre_i.len() >= q0.len(),
                        qdesp.len() == qpre_i.len() + 1,
                        commands.queue@.len() <= qdesp.len() + cidx,
                        qpre_i.len() <= q0.len() + 9 * i,
                        commands.queue@[qpre_i.len() as int] == Command::Despawn(
                            slot_entity(m0, i as int),
                        ),
                        forall|k: int|
                            q0.len() <= k < commands.queue@.len() ==> ammo_cmd_ok(
                                m0,
                                #[trigger] commands.queue@[k],
                            ),
                        ammo_despawns_upto(m0, commands.queue@, q0.len() as int, i as int),
                        ammo_bursts_upto(m0, commands.queue@, q0.len() as int, i as int),
                        cidx > 0 ==> ammo_burst_present(m0, commands.queue@, q0.len() as int,
                            i as int),
                        q0.len() + 9 * m0.len() < 1_000_000_000,
                    decreases burst - cidx,
                {
                    let ghost qpre = commands.queue@;
                    let ttl: i64 = rand_range(rng, 200_000, 400_000);
                    let speed: i64 = rand_range(rng, 75_000_000, 150_000_000);
                    let z_angle: i64 = rand_range(rng, 0, TURN);
                    let mut v: Vec<(i64, i64)> = Vec::new();
                    v.push((speed, 0));
                    v.push((5_000_000, 0));
                    v.push((3_000_000, 0));
                    let mut b = Bundle::empty();
                    b.transform = Some(Transform { rotation: z_angle, ..t });
                    b.explosion_effect = Some(ExplosionEffect { color: rgb_color_ammo_pickup() });
                    b.interpolation = Some(Interpolation::new(v, ttl as u64, false));
                    commands.spawn(b);
                    proof {
                        assert(ammo_burst_ok(m0, b)) by {
                            assert(ammo_slot(m0, i as int) && !ammo_gone(m0, i as int)
                                && ammo_done(m0, i as int));
                            assert(b.interpolation->Some_0.begin_end@[0] == (speed, 0i64));
                            assert(b.interpolation->Some_0.begin_end@[1] == (5_000_000i64, 0i64));
                            assert(b.interpolation->Some_0.begin_end@[2] == (3_000_000i64, 0i64));
                        }
                        assert(q0.is_prefix_of(commands.queue@)) by {
                            assert(commands.queue@.subrange(0, q0.len() as int) =~= qpre.subrange(
                                0,
                                q0.len() as int,
                            ));
                        }
                        assert(qpre_i.is_prefix_of(commands.queue@)) by {
                            assert(commands.queue@.subrange(0, qpre_i.len() as int)
                                =~= qpre.subrange(0, qpre_i.len() as int));
                        }
                        assert(qdesp.is_prefix_of(commands.queue@)) by {
                            assert(commands.queue@.subrange(0, qdesp.len() as int)
                                =~= qpre.subrange(0, qdesp.len() as int));
                        }
                        assert(ammo_burst_present(m0, commands.queue@, q0.len() as int, i as int))
                            by {
                            assert(commands.queue@[qpre.len() as int] == Command::Spawn(b));
                        }
                        assert(ammo_despawns_upto(m0, commands.queue@, q0.len() as int, i as int))
                            by {
                            assert forall|j: int|
                                #[trigger] ammo_slot(m0, j) && j < i && (ammo_gone(m0, j) || (
                                !ammo_gone(m0, j) && ammo_done(m0, j))) implies
                                despawn_present(m0, commands.queue@, q0.len() as int, j) by {
                                assert(despawn_present(m0, qpre, q0.len() as int, j));
                                assert(qpre.is_prefix_of(commands.queue@)) by {
                                    assert(commands.queue@.subrange(0, qpre.len() as int)
                                        =~= qpre);
                                }
                                lemma_despawn_present_mono(m0, qpre, commands.queue@,
                                    q0.len() as int, j);
                            }
                        }
                        assert(ammo_bursts_upto(m0, commands.queue@, q0.len() as int, i as int))
                            by {
                            assert forall|j: int|
                                #[trigger] ammo_slot(m0, j) && j < i && !ammo_gone(m0, j)
                                    && ammo_done(m0, j) implies ammo_burst_present(
                                    m0,
                                    commands.queue@,
                                    q0.len() as int,
                                    j,
                                ) by {
                                assert(ammo_burst_present(m0, qpre, q0.len() as int, j));
                                assert(qpre.is_prefix_of(commands.queue@)) by {
                                    assert(commands.queue@.subrange(0, qpre.len() as int)
                                        =~= qpre);
                                }
                                lemma_burst_present_mono(m0, qpre, commands.queue@,
                                    q0.len() as int, j);
                            }
                        }
                    }
                    cidx = cidx + 1;
                }
            } else if a.timer.elapsed > 0 {
                // Capture animation: run the clock, pulse the sprite.
                let mut timer = a.timer;
                timer.tick(dt);
                world.ammo_pickups[i] = Some(AmmoPickup { timer, ..a });
                quads.push(
                    ShapeDraw {
                        transform: t,
                        off_x: -4_750_000,
                        off_y: -4_750_000,
                        off_z: 1_000_000,
                        size_a: 9_500_000,
                        size_b: 9_500_000,
                        line_width: 0,
                        filled: true,
                        color: rgb_color_ammo_pickup(),
                    },
                );
            } else {
                let upd = ammo_update(a, t, pp, dt);
                proof {
                    assert(upd.1 == ammo_new_transform(a, t, pp, dt));
                }
                world.ammo_pickups[i] = Some(upd.0);
                world.transforms[i] = Some(upd.1);
                // The drifting pickup's stroked square, 8 px.
                quads.push(
                    ShapeDraw {
                        transform: upd.1,
                        off_x: -4_000_000,
                        off_y: -4_000_000,
                        off_z: 1_000_000,
                        size_a: 8_000_000,
                        size_b: 8_000_000,
                        line_width: 1_000_000,
                        filled: false,
                        color: rgb_color_ammo_pickup(),
                    },
                );
            }
        }
        proof {
            assert(quads.shapes@ =~= s0 + ammo_quads_upto(m0, pp, dt, i + 1));
            assert forall|j: int| 0 <= j < m0.len() implies crate::world::opt_ammo_pickup_wf(
                #[trigger] world.ammo_pickups@[j],
            ) && crate::world::opt_transform_wf(world.transforms@[j]) by {
                assert(crate::world::opt_transform_wf(wpre.transforms[j]));
                assert(crate::world::opt_ammo_pickup_wf(wpre.ammo_pickups[j]));
                if has && j == i {
                } else {
                    assert(world.ammo_pickups@[j] == wpre.ammo_pickups[j]);
                    assert(world.transforms@[j] == wpre.transforms[j]);
                }
            }
            assert(world.wf());
            assert(ammo_posts_upto(m0, pp, dt, world.ammo_pickups@, world.transforms@, i + 1))
                by {
                assert forall|j: int| #[trigger] ammo_slot(m0, j) && j < i + 1 implies
                    ammo_post_ok(m0, pp, dt, j, world.ammo_pickups@[j], world.transforms@[j]) by {
                    if j < i {
                        assert(ammo_post_ok(m0, pp, dt, j, wpre.ammo_pickups[j], wpre.transforms[j]));
                        assert(wpre.ammo_pickups[j] == world.ammo_pickups@[j]);
                        assert(wpre.transforms[j] == world.transforms@[j]);
                    }
                }
            }
            assert(ammo_unchanged_outside(m0, world.ammo_pickups@, world.transforms@, i + 1)) by {
                assert forall|j: int|
                    0 <= j < m0.len() && !(ammo_slot(m0, j) && j < i + 1) implies world
                    .ammo_pickups@[j] == m0.ammo_pickups[j] && world.transforms@[j]
                    == m0.transforms[j] by {
                    assert(!(ammo_slot(m0, j) && j < i));
                    assert(wpre.ammo_pickups[j] == m0.ammo_pickups[j]);
                    assert(wpre.transforms[j] == m0.transforms[j]);
                }
            }
            assert(ammo_despawns_upto(m0, commands.queue@, q0.len() as int, i + 1)) by {
                assert forall|j: int|
                    #[trigger] ammo_slot(m0, j) && j < i + 1 && (ammo_gone(m0, j) || (!ammo_gone(
                        m0,
                        j,
                    ) && ammo_done(m0, j))) implies despawn_present(
                        m0,
                        commands.queue@,
                        q0.len() as int,
                        j,
                    ) by {
                    if j < i {
                        assert(ammo_despawns_upto(m0, qpre_i, q0.len() as int, i as int));
                        assert(despawn_present(m0, qpre_i, q0.len() as int, j));
                        assert(qpre_i.is_prefix_of(commands.queue@)) by {
                            assert(commands.queue@.subrange(0, qpre_i.len() as int) =~= qpre_i);
                        }
                        lemma_despawn_present_mono(m0, qpre_i, commands.queue@, q0.len() as int, j);
                    } else {
                        assert(commands.queue@[qpre_i.len() as int] == Command::Despawn(
                            slot_entity(m0, j),
                        ));
                    }
                }
            }
            assert(ammo_bursts_upto(m0, commands.queue@, q0.len() as int, i + 1)) by {
                assert forall|j: int|
                    #[trigger] ammo_slot(m0, j) && j < i + 1 && !ammo_gone(m0, j) && ammo_done(
                        m0,
                        j,
                    ) implies ammo_burst_present(m0, commands.queue@, q0.len() as int, j) by {
                    if j < i {
                        assert(ammo_bursts_upto(m0, qpre_i, q0.len() as int, i as int));
                        assert(ammo_burst_present(m0, qpre_i, q0.len() as int, j));
                        assert(qpre_i.is_prefix_of(commands.queue@)) by {
                            assert(commands.queue@.subrange(0, qpre_i.len() as int) =~= qpre_i);
                        }
                        lemma_burst_present_mono(m0, qpre_i, commands.queue@, q0.len() as int, j);
                    }
                }
            }
        }
        i = i + 1;
    }
}


// ---------------------------------------------------------------------------
// Boost pickup drift, capture and blink

/// Whether slot `i` carries a captured boost pickup (one playing its
/// blink-and-grow animation).
pub open spec fn bp_anim_slot(m: WorldModel, i: int) -> bool {
    &&& 0 <= i < m.len()
    &&& m.alive[i]
    &&& m.boost_pickups[i] is Some
    &&& m.interpolations[i] is Some
    &&& m.transforms[i] is Some
}

/// Whether slot `i` carries a drifting (not yet captured) boost pickup.
pub open spec fn bp_drift_slot(m: WorldModel, i: int) -> bool {
    &&& 0 <= i < m.len()
    &&& m.alive[i]
    &&& m.boost_pickups[i] is Some
    &&& m.interpolations[i] is None
    &&& m.transforms[i] is Some
}

/// The blink phase of a captured pickup: the blink timer ticks, the
/// sprite toggles its visibility on each late blink, and the tenth blink
/// ends the animation (leaving the sprite as it was).
pub open spec fn bp_anim_spec(bp: BoostPickup, dt: u64) -> BoostPickup {
    let timer = bp.timer.tick_spec(dt);
    BoostPickup {
        timer,
        visible: if timer.count != 10 && timer.finished && timer.count > 3 {
            !bp.visible
        } else {
            bp.visible
        },
        ..bp
    }
}

/// The despawns the blink pass queues below `i`: each captured pickup
/// whose blink count reaches ten.
pub open spec fn bp_anim_cmds_upto(m: WorldModel, dt: u64, i: int) -> Seq<Command>
    decreases i,
{
    if i <= 0 {
        Seq::empty()
    } else {
        bp_anim_cmds_upto(m, dt, i - 1) + (if bp_anim_slot(m, i - 1) && m.boost_pickups[i
            - 1]->Some_0.timer.tick_spec(dt).count == 10 {
            seq![Command::Despawn(slot_entity(m, i - 1))]
        } else {
            Seq::empty()
        })
    }
}

/// The drift phase of a free pickup: it spins and slides along its
/// horizontal direction.
pub open spec fn bp_drift_transform_spec(bp: BoostPickup, t: Transform, dt: u64) -> Transform {
    let spun = norm_angle_spec(
        t.center_rotation + per_step(bp.center_rotation_speed as int, dt as int),
    );
    let dist = per_step(bp.movement_speed as int, dt as int);
    Transform {
        center_rotation: spun as i64,
        x: clamp_spec(t.x + bp.movement_direction * dist, -POS_LIMIT as int, POS_LIMIT as int) as i64,
        ..t
    }
}

/// A free pickup stands more than 18 px outside the screen.
pub open spec fn bp_gone(m: WorldModel, j: int) -> bool {
    screen_out_of_bounds_spec(
        m.transforms[j]->Some_0.x as int,
        m.transforms[j]->Some_0.y as int,
        18_000_000,
    )
}

/// A free pickup stands within the capture distance of the player at
/// `p`.
pub open spec fn bp_near(m: WorldModel, j: int, p: (i64, i64)) -> bool {
    let t = m.transforms[j]->Some_0;
    (p.0 - t.x) * (p.0 - t.x) + (p.1 - t.y) * (p.1 - t.y) < 324_000_000_000_000
}

/// The one-shot grow tween a capture attaches: scale 1 to 2 over 0.3 s.
pub open spec fn capture_bundle_spec(b: Bundle) -> bool {
    &&& b.interpolation is Some
    &&& b.interpolation->Some_0.time == 0
    &&& b.interpolation->Some_0.duration == 300_000
    &&& b.interpolation->Some_0.repeating == false
    &&& b.interpolation->Some_0.begin_end@ == seq![(1_000_000i64, 2_000_000i64)]
    &&& b.transform is None
    &&& b.player is None
    &&& b.projectile is None
    &&& b.dead_projectile is None
    &&& b.explosion_effect is None
    &&& b.tick_effect is None
    &&& b.trail_effect is None
    &&& b.boost is None
    &&& b.ammo_pickup is None
    &&& b.boost_pickup is None
}

/// The queue holds, at or after `lo`, the capture insert (the grow
/// tween) for slot `j`.
pub open spec fn capture_present(m0: WorldModel, qs: Seq<Command>, lo: int, j: int) -> bool {
    exists|k: int|
        lo <= k < qs.len() && ((#[trigger] qs[k]) matches Command::Insert(e, b) && e
            == slot_entity(m0, j) && capture_bundle_spec(b))
}

/// A queued capture insert stays queued as the buffer grows.
pub proof fn lemma_capture_present_mono(
    m0: WorldModel,
    qs: Seq<Command>,
    qs2: Seq<Command>,
    lo: int,
    j: int,
)
    requires
        lo >= 0,
        qs.is_prefix_of(qs2),
        capture_present(m0, qs, lo, j),
    ensures
        capture_present(m0, qs2, lo, j),
{
    let k0 = choose|k: int|
        lo <= k < qs.len() && ((#[trigger] qs[k]) matches Command::Insert(e, b) && e
            == slot_entity(m0, j) && capture_bundle_spec(b));
    assert(qs2.subrange(0, qs.len() as int) =~= qs);
    assert(qs2[k0] == qs2.subrange(0, qs.len() as int)[k0]);
}

/// Every free pickup past the margin below `i` has its despawn queued.
pub open spec fn bp_despawns_upto(m0: WorldModel, qs: Seq<Command>, lo: int, i: int) -> bool {
    forall|j: int|
        #[trigger] bp_drift_slot(m0, j) && j < i && bp_gone(m0, j) ==> despawn_present(
            m0,
            qs,
            lo,
            j,
        )
}

/// Every free pickup near the player below `i` has its capture insert
/// queued.
pub open spec fn bp_captures_upto(
    m0: WorldModel,
    pp: Option<(i64, i64)>,
    qs: Seq<Command>,
    lo: int,
    i: int,
) -> bool {
    forall|j: int|
        #[trigger] bp_drift_slot(m0, j) && j < i && !bp_gone(m0, j) && (match pp {
            Some(p) => bp_near(m0, j, p),
            None => false,
        }) ==> capture_present(m0, qs, lo, j)
}

/// What the drift pass may queue: despawns of pickups past the margin
/// and capture inserts for pickups near the player.
pub open spec fn bp_drift_cmd_ok(m: WorldModel, pp: Option<(i64, i64)>, c: Command) -> bool {
    match c {
        Command::Despawn(e) => exists|j: int|
            #[trigger] bp_drift_slot(m, j) && e == slot_entity(m, j) && bp_gone(m, j),
        Command::Insert(e, b) => capture_bundle_spec(b) && exists|j: int|
            #[trigger] bp_drift_slot(m, j) && e == slot_entity(m, j) && !bp_gone(m, j) && (match pp {
                Some(p) => bp_near(m, j, p),
                None => false,
            }),
        Command::Spawn(_) => false,
    }
}

/// Where a free pickup stands after the drift pass.
pub open spec fn bp_drift_post_ok(
    m0: WorldModel,
    pp: Option<(i64, i64)>,
    dt: u64,
    j: int,
    t1: Option<Transform>,
) -> bool {
    if bp_gone(m0, j) {
        t1 == m0.transforms[j]
    } else if (match pp {
        Some(p) => bp_near(m0, j, p),
        None => false,
    }) {
        t1 == m0.transforms[j]
    } else {
        t1 == Some(
            bp_drift_transform_spec(m0.boost_pickups[j]->Some_0, m0.transforms[j]->Some_0, dt),
        )
    }
}

/// The quads the blink pass records for the slots below `i`: each
/// captured pickup that stays (not its tenth blink) and is visible draws
/// its 12 px core and its growing outline, white for the early blinks
/// and boost-colored after the third.
pub open spec fn bp_anim_quads_upto(m: WorldModel, dt: u64, i: int) -> Seq<
    crate::resources::ShapeDraw,
>
    decreases i,
{
    if i <= 0 {
        Seq::empty()
    } else {
        bp_anim_quads_upto(m, dt, i - 1) + (if bp_anim_slot(m, i - 1) && m.boost_pickups[i
            - 1]->Some_0.timer.tick_spec(dt).count != 10 && bp_anim_spec(
            m.boost_pickups[i - 1]->Some_0,
            dt,
        ).visible {
            seq![
                crate::resources::ShapeDraw {
                    transform: m.transforms[i - 1]->Some_0,
                    off_x: -6_000_000i64,
                    off_y: -6_000_000i64,
                    off_z: 1_000_000,
                    size_a: 12_000_000,
                    size_b: 12_000_000,
                    line_width: 0,
                    filled: true,
                    color: if m.boost_pickups[i - 1]->Some_0.timer.tick_spec(dt).count > 3 {
                        Rgb { r: 76, g: 195, b: 217 }
                    } else {
                        Rgb { r: 255, g: 255, b: 255 }
                    },
                },
                crate::resources::ShapeDraw {
                    transform: m.transforms[i - 1]->Some_0,
                    off_x: 0,
                    off_y: 0,
                    off_z: 1_000_000,
                    size_a: bp_outline_size_spec(m.interpolations[i - 1]->Some_0, dt),
                    size_b: bp_outline_size_spec(m.interpolations[i - 1]->Some_0, dt),
                    line_width: 1_000_000,
                    filled: false,
                    color: if m.boost_pickups[i - 1]->Some_0.timer.tick_spec(dt).count > 3 {
                        Rgb { r: 76, g: 195, b: 217 }
                    } else {
                        Rgb { r: 255, g: 255, b: 255 }
                    },
                },
            ]
        } else {
            Seq::empty()
        })
    }
}

/// The growing outline's edge length, from the grow tween's state.
pub open spec fn bp_outline_size_spec(it: Interpolation, dt: u64) -> i64 {
    if it.finished_after(dt) {
        36_000_000
    } else if it.begin_end.len() >= 1 {
        mul_div_trunc(18_000_000, it.value_spec(dt, Easing::EaseInOutCubic, 0), UNIT as int) as i64
    } else {
        0
    }
}

/// The quads the drift pass records for the slots below `i`: each free
/// pickup that neither left the margin nor was captured draws its 6 px
/// core and 18 px outline at its slid placement, in the boost color.
pub open spec fn bp_drift_quads_upto(
    m: WorldModel,
    pp: Option<(i64, i64)>,
    dt: u64,
    i: int,
) -> Seq<crate::resources::ShapeDraw>
    decreases i,
{
    if i <= 0 {
        Seq::empty()
    } else {
        bp_drift_quads_upto(m, pp, dt, i - 1) + (if bp_drift_slot(m, i - 1) && !bp_gone(m, i - 1)
            && !(match pp {
            Some(p) => bp_near(m, i - 1, p),
            None => false,
        }) {
            seq![
                crate::resources::ShapeDraw {
                    transform: bp_drift_transform_spec(
                        m.boost_pickups[i - 1]->Some_0,
                        m.transforms[i - 1]->Some_0,
                        dt,
                    ),
                    off_x: -3_000_000i64,
                    off_y: -3_000_000i64,
                    off_z: 1_000_000,
                    size_a: 6_000_000,
                    size_b: 6_000_000,
                    line_width: 0,
                    filled: true,
                    color: Rgb { r: 76, g: 195, b: 217 },
                },
                crate::resources::ShapeDraw {
                    transform: bp_drift_transform_spec(
                        m.boost_pickups[i - 1]->Some_0,
                        m.transforms[i - 1]->Some_0,
                        dt,
                    ),
                    off_x: -9_000_000i64,
                    off_y: -9_000_000i64,
                    off_z: 1_000_000,
                    size_a: 18_000_000,
                    size_b: 18_000_000,
                    line_width: 1_000_000,
                    filled: false,
                    color: Rgb { r: 76, g: 195, b: 217 },
                },
            ]
        } else {
            Seq::empty()
        })
    }
}

/// All captured pickups below `i` carry their blink update.
pub open spec fn bp_anim_upto(
    m0: WorldModel,
    bv: Seq<Option<BoostPickup>>,
    dt: u64,
    i: int,
) -> bool {
    forall|j: int|
        #[trigger] bp_anim_slot(m0, j) && j < i ==> bv[j] == Some(
            bp_anim_spec(m0.boost_pickups[j]->Some_0, dt),
        )
}

/// Every slot that is not a captured pickup below `i` keeps its record.
pub open spec fn bp_anim_unchanged_outside(
    m0: WorldModel,
    bv: Seq<Option<BoostPickup>>,
    i: int,
) -> bool {
    forall|j: int| 0 <= j < m0.len() && !(bp_anim_slot(m0, j) && j < i) ==> bv[j] == m0.boost_pickups[j]
}

/// All free pickups below `i` stand in their drift post state.
pub open spec fn bp_drift_upto(
    m0: WorldModel,
    pp: Option<(i64, i64)>,
    tv: Seq<Option<Transform>>,
    dt: u64,
    i: int,
) -> bool {
    forall|j: int|
        #[trigger] bp_drift_slot(m0, j) && j < i ==> bp_drift_post_ok(m0, pp, dt, j, tv[j])
}

/// Every slot that is not a free pickup below `i` keeps its placement.
pub open spec fn bp_drift_unchanged_outside(
    m0: WorldModel,
    tv: Seq<Option<Transform>>,
    i: int,
) -> bool {
    forall|j: int|
        0 <= j < m0.len() && !(bp_drift_slot(m0, j) && j < i) ==> tv[j] == m0.transforms[j]
}

/// One captured pickup's blink update and whether this is its last
/// (tenth) blink.
fn bp_anim_update(bp: BoostPickup, dt: u64) -> (out: (BoostPickup, bool))
    requires
        bp.wf(),
        dt <= MAX_STEP_MICROS,
    ensures
        out.0 == bp_anim_spec(bp, dt),
        out.1 == (bp.timer.tick_spec(dt).count == 10),
        out.0.wf(),
{
    let mut timer = bp.timer;
    timer.tick(dt);
    let last = timer.count == 10;
    let visible = if timer.count != 10 && timer.finished && timer.count > 3 {
        !bp.visible
    } else {
        bp.visible
    };
    (BoostPickup { timer, visible, ..bp }, last)
}

/// The growing outline's edge length: 18 px scaled by the grow tween,
/// or the full doubled size once the tween is done.
fn bp_outline_size(values: &Vec<i64>, done: bool) -> (r: i64)
    requires
        forall|k: int| 0 <= k < values@.len() ==> 0 <= #[trigger] values@[k] <= VALUE_LIMIT,
    ensures
        r == (if done {
            36_000_000int
        } else if values@.len() >= 1 {
            mul_div_trunc(18_000_000, values@[0] as int, UNIT as int)
        } else {
            0int
        }),
{
    if done {
        36_000_000
    } else if values.len() >= 1 {
        proof {
            assert(18_000_000 * values@[0] <= 18_000_000_000 * (UNIT as int))
                by (nonlinear_arith)
                requires
                    0 <= values@[0] <= VALUE_LIMIT,
                    VALUE_LIMIT == 1_000_000_000,
                    UNIT == 1_000_000,
            {}
            crate::fixed::lemma_mul_div_trunc_upper(18_000_000, values@[0] as int, UNIT as int,
                18_000_000_000);
        }
        mul_div(18_000_000, values[0], UNIT)
    } else {
        0
    }
}

/// Drives every boost pickup. A captured one runs its blink clock and
/// grow tween, toggling visibility on the late blinks and despawning on
/// the tenth; a free one despawns past the screen margin, is captured
/// (its grow tween attached) once near the player, and otherwise spins
/// and slides across the screen. Both kinds are recorded for the
/// renderer while visible.
#[verifier::rlimit(100)]
#[verifier::spinoff_prover]
pub fn boost_pickup_system(
    world: &mut World,
    commands: &mut Commands,
    quads: &mut crate::resources::QuadGeometry,
    time: &Time,
)
    requires
        old(world).wf(),
        old(commands).wf(),
        time.duration <= MAX_STEP_MICROS,
        old(commands).queue@.len() + 2 * old(world).model().len() < 1_000_000_000,
    ensures
        final(world).wf(),
        final(commands).wf(),
        ({
            let m0 = old(world).model();
            let m1 = final(world).model();
            let dt = time.duration;
            let fp = first_player_from(m0, 0);
            let pp: Option<(i64, i64)> = if fp < m0.len() {
                Some((m0.transforms[fp]->Some_0.x, m0.transforms[fp]->Some_0.y))
            } else {
                None
            };
            &&& m1.generations == m0.generations
            &&& m1.alive == m0.alive
            &&& m1.players == m0.players
            &&& m1.projectiles == m0.projectiles
            &&& m1.dead_projectiles == m0.dead_projectiles
            &&& m1.explosion_effects == m0.explosion_effects
            &&& m1.tick_effects == m0.tick_effects
            &&& m1.trail_effects == m0.trail_effects
            &&& m1.boosts == m0.boosts
            &&& m1.ammo_pickups == m0.ammo_pickups
            &&& m1.boost_pickups.len() == m0.boost_pickups.len()
            &&& m1.transforms.len() == m0.transforms.len()
            &&& m1.interpolations.len() == m0.interpolations.len()
            &&& bp_anim_upto(m0, m1.boost_pickups, dt, m0.len())
            &&& bp_anim_unchanged_outside(m0, m1.boost_pickups, m0.len())
            &&& interps_evolved_upto(m0, m1.interpolations, |m: WorldModel, j: int| bp_anim_slot(m, j), dt, m0.len())
            &&& interps_unchanged_outside(m0, m1.interpolations, |m: WorldModel, j: int| bp_anim_slot(m, j), m0.len())
            &&& bp_drift_upto(m0, pp, m1.transforms, dt, m0.len())
            &&& bp_drift_unchanged_outside(m0, m1.transforms, m0.len())
            &&& final(commands).queue@.len() >= old(commands).queue@.len() + bp_anim_cmds_upto(
                m0,
                dt,
                m0.len(),
            ).len()
            &&& final(commands).queue@.take(
                (old(commands).queue@.len() + bp_anim_cmds_upto(m0, dt, m0.len()).len()) as int,
            ) == old(commands).queue@ + bp_anim_cmds_upto(m0, dt, m0.len())
            &&& forall|k: int|
                old(commands).queue@.len() + bp_anim_cmds_upto(m0, dt, m0.len()).len() <= k
                    < final(commands).queue@.len() ==> bp_drift_cmd_ok(
                    m0,
                    pp,
                    #[trigger] final(commands).queue@[k],
                )
            &&& bp_despawns_upto(m0, final(commands).queue@, old(commands).queue@.len() as int, m0.len())
            &&& bp_captures_upto(
                m0,
                pp,
                final(commands).queue@,
                old(commands).queue@.len() as int,
                m0.len(),
            )
            &&& final(quads).shapes@ == old(quads).shapes@ + bp_anim_quads_upto(m0, dt, m0.len())
                + bp_drift_quads_upto(m0, pp, dt, m0.len())
        }),
        final(commands).queue@.len() <= old(commands).queue@.len() + 2 * old(world).model().len(),
        old(quads).shapes@.is_prefix_of(final(quads).shapes@),
{
    let ghost m0 = old(world).model();
    let ghost q0 = old(commands).queue@;
    let ghost s0 = old(quads).shapes@;
    let ghost sl = |m: WorldModel, j: int| bp_anim_slot(m, j);
    let dt: u64 = time.duration;
    let n = world.num_slots();
    // Blink pass: the captured pickups.
    let mut i: usize = 0;
    while i < n
        invariant
            i <= n,
            n == m0.len(),
            dt == time.duration,
            dt <= MAX_STEP_MICROS,
            world.wf(),
            commands.wf(),
            world.generations@ == m0.generations,
            world.alive@ == m0.alive,
            world.players@ == m0.players,
            world.projectiles@ == m0.projectiles,
            world.dead_projectiles@ == m0.dead_projectiles,
            world.explosion_effects@ == m0.explosion_effects,
            world.tick_effects@ == m0.tick_effects,
            world.trail_effects@ == m0.trail_effects,
            world.transforms@ == m0.transforms,
            world.boosts@ == m0.boosts,
            world.ammo_pickups@ == m0.ammo_pickups,
            world.boost_pickups@.len() == n,
            world.interpolations@.len() == n,
            sl == (|m: WorldModel, j: int| bp_anim_slot(m, j)),
            bp_anim_upto(m0, world.boost_pickups@, dt, i as int),
            bp_anim_unchanged_outside(m0, world.boost_pickups@, i as int),
            interps_evolved_upto(m0, world.interpolations@, sl, dt, i as int),
            interps_unchanged_outside(m0, world.interpolations@, sl, i as int),
            commands.queue@ == q0 + bp_anim_cmds_upto(m0, dt, i as int),
            quads.shapes@ == s0 + bp_anim_quads_upto(m0, dt, i as int),
            commands.queue@.len() <= q0.len() + i,
            q0.len() + 2 * m0.len() < 1_000_000_000,
            s0.is_prefix_of(quads.shapes@),
        decreases n - i,
    {
        let ghost wpre = world.model();
        let has = world.alive[i] && world.boost_pickups[i].is_some()
            && world.interpolations[i].is_some() && world.transforms[i].is_some();
        proof {
            assert(has == bp_anim_slot(m0, i as int));
            assert(crate::world::opt_interpolation_wf(wpre.interpolations[i as int]));
            assert(crate::world::opt_boost_pickup_wf(wpre.boost_pickups[i as int]));
        }
        if has {
            let bp: BoostPickup = world.boost_pickups[i].unwrap();
            let t: Transform = world.transforms[i].unwrap();
            let upd = bp_anim_update(bp, dt);
            let evaled: Option<(Vec<i64>, bool)> = match &mut world.interpolations[i] {
                Some(it) => Some(it.eval(dt, Easing::EaseInOutCubic)),
                None => None,
            };
            world.boost_pickups[i] = Some(upd.0);
            if upd.1 {
                let g = world.generations[i];
                commands.despawn(Entity { index: i, generation: g });
            } else if upd.0.visible {
                // The solid core, 12 px, and the growing outline.
                let color = if upd.0.timer.count > 3 {
                    rgb_color_boost()
                } else {
                    rgb_color_player()
                };
                quads.push(
                    ShapeDraw {
                        transform: t,
                        off_x: -6_000_000,
                        off_y: -6_000_000,
                        off_z: 1_000_000,
                        size_a: 12_000_000,
                        size_b: 12_000_000,
                        line_width: 0,
                        filled: true,
                        color,
                    },
                );
                let size: i64 = match evaled {
                    Some((values, done)) => bp_outline_size(&values, done),
                    None => 0,
                };
                quads.push(
                    ShapeDraw {
                        transform: t,
                        off_x: 0,
                        off_y: 0,
                        off_z: 1_000_000,
                        size_a: size,
                        size_b: size,
                        line_width: 1_000_000,
                        filled: false,
                        color,
                    },
                );
            }
        }
        proof {
            assert(commands.queue@ =~= q0 + bp_anim_cmds_upto(m0, dt, i + 1));
            assert(quads.shapes@ =~= s0 + bp_anim_quads_upto(m0, dt, i + 1));
            assert forall|j: int| 0 <= j < m0.len() implies crate::world::opt_boost_pickup_wf(
                #[trigger] world.boost_pickups@[j],
            ) && crate::world::opt_interpolation_wf(world.interpolations@[j])
                && crate::world::opt_transform_wf(world.transforms@[j]) by {
                assert(crate::world::opt_transform_wf(wpre.transforms[j]));
                assert(crate::world::opt_interpolation_wf(wpre.interpolations[j]));
                assert(crate::world::opt_boost_pickup_wf(wpre.boost_pickups[j]));
                if has && j == i {
                } else {
                    assert(world.boost_pickups@[j] == wpre.boost_pickups[j]);
                    assert(world.interpolations@[j] == wpre.interpolations[j]);
                }
            }
            assert forall|j: int| 0 <= j < m0.len() && !(#[trigger] world.alive@[j]) implies world
                .boost_pickups@[j] is None && world.interpolations@[j] is None by {
                assert(!wpre.alive[j]);
                if has && j == i {
                    assert(wpre.alive[i as int]);
                } else {
                    assert(world.boost_pickups@[j] == wpre.boost_pickups[j]);
                    assert(world.interpolations@[j] == wpre.interpolations[j]);
                }
            }
            assert(world.wf());
            assert(bp_anim_upto(m0, world.boost_pickups@, dt, i + 1)) by {
                assert forall|j: int| #[trigger] bp_anim_slot(m0, j) && j < i + 1 implies world
                    .boost_pickups@[j] == Some(bp_anim_spec(m0.boost_pickups[j]->Some_0, dt)) by {
                    if j < i {
                        assert(wpre.boost_pickups[j] == world.boost_pickups@[j]);
                    }
                }
            }
            assert(bp_anim_unchanged_outside(m0, world.boost_pickups@, i + 1)) by {
                assert forall|j: int|
                    0 <= j < m0.len() && !(bp_anim_slot(m0, j) && j < i + 1) implies world
                    .boost_pickups@[j] == m0.boost_pickups[j] by {
                    assert(!(bp_anim_slot(m0, j) && j < i));
                    assert(wpre.boost_pickups[j] == m0.boost_pickups[j]);
                }
            }
            assert(interps_evolved_upto(m0, world.interpolations@, sl, dt, i + 1)) by {
                assert forall|j: int| #[trigger] sl(m0, j) && j < i + 1 implies world
                    .interpolations@[j] is Some && interp_evolved(
                    m0.interpolations[j]->Some_0,
                    world.interpolations@[j]->Some_0,
                    dt,
                ) by {
                    if j < i {
                        assert(wpre.interpolations[j] == world.interpolations@[j]);
                    } else {
                        assert(sl(m0, j) == bp_anim_slot(m0, j));
                    }
                }
            }
            assert(interps_unchanged_outside(m0, world.interpolations@, sl, i + 1)) by {
                assert forall|j: int|
                    0 <= j < m0.len() && !(sl(m0, j) && j < i + 1) implies world
                    .interpolations@[j] == m0.interpolations[j] by {
                    assert(!(sl(m0, j) && j < i));
                    assert(wpre.interpolations[j] == m0.interpolations[j]);
                }
            }
        }
        i = i + 1;
    }
    // Drift pass: the free pickups.
    let ghost q1 = commands.queue@;
    let fp = find_first_player(world);
    let pp: Option<(i64, i64)> = if fp < n {
        let pt: Transform = world.transforms[fp].unwrap();
        proof {
            assert(crate::world::opt_transform_wf(m0.transforms[fp as int]));
        }
        Some((pt.x, pt.y))
    } else {
        None
    };
    proof {
        assert(first_player_from(world.model(), 0) == first_player_from(m0, 0)) by {
            assert(world.model().alive =~= m0.alive);
            assert(world.model().players =~= m0.players);
            assert(world.model().transforms =~= m0.transforms);
            lemma_first_player_same(world.model(), m0, 0);
        }
    }
    let mut i: usize = 0;
    while i < n
        invariant
            i <= n,
            n == m0.len(),
            dt == time.duration,
            dt <= MAX_STEP_MICROS,
            world.wf(),
            commands.wf(),
            world.generations@ == m0.generations,
            world.alive@ == m0.alive,
            world.players@ == m0.players,
            world.projectiles@ == m0.projectiles,
            world.dead_projectiles@ == m0.dead_projectiles,
            world.explosion_effects@ == m0.explosion_effects,
            world.tick_effects@ == m0.tick_effects,
            world.trail_effects@ == m0.trail_effects,
            world.boosts@ == m0.boosts,
            world.ammo_pickups@ == m0.ammo_pickups,
            world.boost_pickups@.len() == n,
            world.interpolations@.len() == n,
            world.transforms@.len() == n,
            sl == (|m: WorldModel, j: int| bp_anim_slot(m, j)),
            bp_anim_upto(m0, world.boost_pickups@, dt, n as int),
            bp_anim_unchanged_outside(m0, world.boost_pickups@, n as int),
            interps_evolved_upto(m0, world.interpolations@, sl, dt, n as int),
            interps_unchanged_outside(m0, world.interpolations@, sl, n as int),
            bp_drift_upto(m0, pp, world.transforms@, dt, i as int),
            bp_drift_unchanged_outside(m0, world.transforms@, i as int),
            (match pp {
                Some(p) => -POS_LIMIT <= p.0 <= POS_LIMIT && -POS_LIMIT <= p.1 <= POS_LIMIT,
                None => true,
            }),
            pp == (if first_player_from(m0, 0) < m0.len() {
                Some(
                    (
                        m0.transforms[first_player_from(m0, 0)]->Some_0.x,
                        m0.transforms[first_player_from(m0, 0)]->Some_0.y,
                    ),
                )
            } else {
                Option::<(i64, i64)>::None
            }),
            q1 == q0 + bp_anim_cmds_upto(m0, dt, n as int),
            q1.is_prefix_of(commands.queue@),
            commands.queue@.len() <= q1.len() + i,
            forall|k: int|
                q1.len() <= k < commands.queue@.len() ==> bp_drift_cmd_ok(
                    m0,
                    pp,
                    #[trigger] commands.queue@[k],
                ),
            bp_despawns_upto(m0, commands.queue@, q0.len() as int, i as int),
            bp_captures_upto(m0, pp, commands.queue@, q0.len() as int, i as int),
            quads.shapes@ == s0 + bp_anim_quads_upto(m0, dt, n as int) + bp_drift_quads_upto(
                m0,
                pp,
                dt,
                i as int,
            ),
            q0.len() + 2 * m0.len() < 1_000_000_000,
            q1.len() <= q0.len() + m0.len(),
            s0.is_prefix_of(quads.shapes@),
        decreases n - i,
    {
        let ghost wpre = world.model();
        let ghost qpre = commands.queue@;
        let has = world.alive[i] && world.boost_pickups[i].is_some()
            && world.interpolations[i].is_none() && world.transforms[i].is_some();
        proof {
            assert(has == bp_drift_slot(m0, i as int));
        }
        if has {
            let bp: BoostPickup = world.boost_pickups[i].unwrap();
            let t: Transform = world.transforms[i].unwrap();
            proof {
                assert(crate::world::opt_boost_pickup_wf(m0.boost_pickups[i as int]));
                assert(crate::world::opt_transform_wf(m0.transforms[i as int]));
                crate::fixed::lemma_mul_div_trunc_bound(bp.center_rotation_speed as int,
                    dt as int, MICROS_PER_SEC as int);
                crate::fixed::lemma_mul_div_trunc_bound(bp.movement_speed as int, dt as int,
                    MICROS_PER_SEC as int);
            }
            if screen_out_of_bounds_test(t.x, t.y, Some(18_000_000)) {
                let g = world.generations[i];
                commands.despawn(Entity { index: i, generation: g });
                proof {
                    assert(bp_drift_cmd_ok(m0, pp, Command::Despawn(slot_entity(m0, i as int))))
                        by {
                        assert(bp_drift_slot(m0, i as int));
                    }
                    assert(despawn_present(m0, commands.queue@, q0.len() as int, i as int)) by {
                        assert(commands.queue@[qpre.len() as int] == Command::Despawn(
                            slot_entity(m0, i as int),
                        ));
                    }
                }
            } else {
                let near: bool = match pp {
                    Some(p) => {
                        let dx: i64 = p.0 - t.x;
                        let dy: i64 = p.1 - t.y;
                        proof {
                            assert(0 <= (dx as int) * (dx as int)
                                <= 16_000_000_000_000_000_000int && 0 <= (dy as int) * (
                            dy as int) <= 16_000_000_000_000_000_000int) by (nonlinear_arith)
                                requires
                                    -4_000_000_000 <= dx <= 4_000_000_000,
                                    -4_000_000_000 <= dy <= 4_000_000_000,
                            {}
                        }
                        let d2: u128 = ((dx as i128) * (dx as i128) + (dy as i128) * (
                        dy as i128)) as u128;
                        d2 < 324_000_000_000_000
                    },
                    None => false,
                };
                if near {
                    let g = world.generations[i];
                    let mut v: Vec<(i64, i64)> = Vec::new();
                    v.push((1_000_000, 2_000_000));
                    proof {
                        assert(v@ =~= seq![(1_000_000i64, 2_000_000i64)]);
                    }
                    let mut b = Bundle::empty();
                    b.interpolation = Some(Interpolation::new(v, 300_000, false));
                    commands.insert(Entity { index: i, generation: g }, b);
                    proof {
                        assert(bp_drift_cmd_ok(
                            m0,
                            pp,
                            Command::Insert(slot_entity(m0, i as int), b),
                        )) by {
                            assert(bp_drift_slot(m0, i as int));
                        }
                        assert(capture_present(m0, commands.queue@, q0.len() as int, i as int))
                            by {
                            assert(commands.queue@[qpre.len() as int] == Command::Insert(
                                slot_entity(m0, i as int),
                                b,
                            ));
                        }
                    }
                } else {
                    let spun: i64 = norm_angle(
                        t.center_rotation + mul_div(bp.center_rotation_speed, dt as i64,
                            MICROS_PER_SEC as i64),
                    );
                    let dist: i64 = mul_div(bp.movement_speed, dt as i64, MICROS_PER_SEC as i64);
                    proof {
                        assert(bp.movement_direction * dist == dist
                            || bp.movement_direction * dist == -dist) by (nonlinear_arith)
                            requires
                                bp.movement_direction == 1 || bp.movement_direction == -1,
                        {}
                    }
                    let t2 = Transform {
                        center_rotation: spun,
                        x: clamp_pos(t.x + bp.movement_direction * dist),
                        ..t
                    };
                    world.transforms[i] = Some(t2);
                    // The small core, 6 px, and the wide outline, 18 px.
                    quads.push(
                        ShapeDraw {
                            transform: t2,
                            off_x: -3_000_000,
                            off_y: -3_000_000,
                            off_z: 1_000_000,
                            size_a: 6_000_000,
                            size_b: 6_000_000,
                            line_width: 0,
                            filled: true,
                            color: rgb_color_boost(),
                        },
                    );
                    quads.push(
                        ShapeDraw {
                            transform: t2,
                            off_x: -9_000_000,
                            off_y: -9_000_000,
                            off_z: 1_000_000,
                            size_a: 18_000_000,
                            size_b: 18_000_000,
                            line_width: 1_000_000,
                            filled: false,
                            color: rgb_color_boost(),
                        },
                    );
                }
            }
        }
        proof {
            assert(q1.is_prefix_of(commands.queue@)) by {
                assert(commands.queue@.subrange(0, q1.len() as int) =~= qpre.subrange(
                    0,
                    q1.len() as int,
                ));
            }
            assert(qpre.is_prefix_of(commands.queue@)) by {
                assert(commands.queue@.subrange(0, qpre.len() as int) =~= qpre.subrange(
                    0,
                    qpre.len() as int,
                ));
            }
            assert(quads.shapes@ =~= s0 + bp_anim_quads_upto(m0, dt, n as int)
                + bp_drift_quads_upto(m0, pp, dt, i + 1));
            assert(bp_despawns_upto(m0, commands.queue@, q0.len() as int, i + 1)) by {
                assert forall|j: int|
                    #[trigger] bp_drift_slot(m0, j) && j < i + 1 && bp_gone(m0, j) implies
                    despawn_present(m0, commands.queue@, q0.len() as int, j) by {
                    if j < i {
                        assert(despawn_present(m0, qpre, q0.len() as int, j));
                        lemma_despawn_present_mono(m0, qpre, commands.queue@, q0.len() as int, j);
                    }
                }
            }
            assert(bp_captures_upto(m0, pp, commands.queue@, q0.len() as int, i + 1)) by {
                assert forall|j: int|
                    #[trigger] bp_drift_slot(m0, j) && j < i + 1 && !bp_gone(m0, j) && (match pp {
                        Some(p) => bp_near(m0, j, p),
                        None => false,
                    }) implies capture_present(m0, commands.queue@, q0.len() as int, j) by {
                    if j < i {
                        assert(capture_present(m0, qpre, q0.len() as int, j));
                        lemma_capture_present_mono(m0, qpre, commands.queue@, q0.len() as int, j);
                    }
                }
            }
            assert forall|j: int| 0 <= j < m0.len() implies crate::world::opt_transform_wf(
                #[trigger] world.transforms@[j],
            ) && crate::world::opt_boost_pickup_wf(world.boost_pickups@[j])
                && crate::world::opt_interpolation_wf(world.interpolations@[j]) by {
                assert(crate::world::opt_transform_wf(wpre.transforms[j]));
                assert(crate::world::opt_boost_pickup_wf(wpre.boost_pickups[j]));
                assert(crate::world::opt_interpolation_wf(wpre.interpolations[j]));
                assert(world.boost_pickups@[j] == wpre.boost_pickups[j]);
                assert(world.interpolations@[j] == wpre.interpolations[j]);
                if has && j == i {
                } else {
                    assert(world.transforms@[j] == wpre.transforms[j]);
                }
            }
            assert forall|j: int| 0 <= j < m0.len() && !(#[trigger] world.alive@[j]) implies world
                .transforms@[j] is None by {
                assert(!wpre.alive[j]);
                if has && j == i {
                    assert(wpre.alive[i as int]);
                } else {
                    assert(world.transforms@[j] == wpre.transforms[j]);
                }
            }
            assert(world.wf());
            assert(bp_drift_upto(m0, pp, world.transforms@, dt, i + 1)) by {
                assert forall|j: int| #[trigger] bp_drift_slot(m0, j) && j < i + 1 implies
                    bp_drift_post_ok(m0, pp, dt, j, world.transforms@[j]) by {
                    if j < i {
                        assert(bp_drift_post_ok(m0, pp, dt, j, wpre.transforms[j]));
                        assert(wpre.transforms[j] == world.transforms@[j]);
                    }
                }
            }
            assert(bp_drift_unchanged_outside(m0, world.transforms@, i + 1)) by {
                assert forall|j: int|
                    0 <= j < m0.len() && !(bp_drift_slot(m0, j) && j < i + 1) implies world
                    .transforms@[j] == m0.transforms[j] by {
                    assert(!(bp_drift_slot(m0, j) && j < i));
                    assert(wpre.transforms[j] == m0.transforms[j]);
                }
            }
        }
        i = i + 1;
    }
}


// ---------------------------------------------------------------------------
// Laws of the boundary transition and of the boost reservoir

/// Boundary transition: for every flying projectile standing past a
/// screen edge, the projectile system's command list holds its despawn
/// immediately followed by the spawn of its corpse, and the corpse's
/// position is clamped inside the screen. The barrier then applies both,
/// so the next step's flying queries no longer see the projectile while
/// a corpse entity exists in bounds.
pub proof fn lemma_projectile_boundary(m: WorldModel, j: int, i: int)
    requires
        projectile_slot(m, j),
        screen_out_of_bounds_spec(
            m.transforms[j]->Some_0.x as int,
            m.transforms[j]->Some_0.y as int,
            0,
        ),
        j < i <= m.len(),
    ensures
        ({
            let cmds = projectile_cmds_upto(m, crate::world::empty_bundle(), i);
            exists|k: int|
                #![trigger cmds[k]]
                0 <= k < cmds.len() - 1 && cmds[k] == Command::Despawn(slot_entity(m, j)) && cmds[
                    k + 1
                ] == Command::Spawn(
                    dead_projectile_bundle(m.transforms[j]->Some_0, crate::world::empty_bundle()),
                )
        }),
        ({
            let b = dead_projectile_bundle(m.transforms[j]->Some_0, crate::world::empty_bundle());
            &&& 0 <= b.transform->Some_0.x <= SCREEN_WIDTH - DEAD_PROJECTILE_HEIGHT
            &&& 0 <= b.transform->Some_0.y <= SCREEN_HEIGHT - DEAD_PROJECTILE_HEIGHT
        }),
    decreases i,
{
    let empty = crate::world::empty_bundle();
    let cmds = projectile_cmds_upto(m, empty, i);
    let prev = projectile_cmds_upto(m, empty, i - 1);
    if j == i - 1 {
        let k = prev.len() as int;
        assert(cmds[k] == Command::Despawn(slot_entity(m, j)));
        assert(cmds[k + 1] == Command::Spawn(
            dead_projectile_bundle(m.transforms[j]->Some_0, empty),
        ));
    } else {
        lemma_projectile_boundary(m, j, i - 1);
        let k0 = choose|k: int|
            #![trigger prev[k]]
            0 <= k < prev.len() - 1 && prev[k] == Command::Despawn(slot_entity(m, j)) && prev[k
                + 1] == Command::Spawn(
                dead_projectile_bundle(m.transforms[j]->Some_0, empty),
            );
        assert(cmds[k0] == prev[k0] && cmds[k0 + 1] == prev[k0 + 1]);
    }
}

/// A boost reservoir driven through a sequence of steps under one key
/// snapshot.
pub open spec fn boost_seq(bo: Boost, keys: KeyCodes, deltas: Seq<u64>) -> Boost
    decreases deltas.len(),
{
    if deltas.len() == 0 {
        bo
    } else {
        boost_seq(player_boost_spec(bo, keys, deltas[0]), keys, deltas.drop_first())
    }
}

/// Boost drain: holding the boost key while boosting stays allowed
/// drains the reservoir by exactly the drain rate times the held time
/// (for a whole-unit-per-second rate), with no cooldown starting.
pub proof fn lemma_boost_drain(bo: Boost, keys: KeyCodes, deltas: Seq<u64>)
    requires
        bo.wf(),
        bo.cooldown is None,
        keys.up,
        !keys.down,
        bo.dec_amount % 1_000_000 == 0,
        forall|k: int|
            0 <= k < deltas.len() ==> 1 <= #[trigger] deltas[k] <= MAX_STEP_MICROS,
        (bo.dec_amount / 1_000_000) * crate::resources::sum_deltas(deltas) < bo.boost,
    ensures
        ({
            let r = boost_seq(bo, keys, deltas);
            &&& r.boost == bo.boost - (bo.dec_amount / 1_000_000) * crate::resources::sum_deltas(
                deltas,
            )
            &&& r.cooldown is None
            &&& r.max_boost == bo.max_boost
            &&& r.inc_amount == bo.inc_amount
            &&& r.dec_amount == bo.dec_amount
        }),
    decreases deltas.len(),
{
    let rate = bo.dec_amount / 1_000_000;
    let total = crate::resources::sum_deltas(deltas);
    if deltas.len() == 0 {
        assert(rate * 0 == 0) by (nonlinear_arith) {}
    } else {
        let d = deltas[0];
        crate::resources::lemma_sum_deltas_bounds(deltas.drop_first());
        assert(rate >= 0) by {
            vstd::arithmetic::div_mod::lemma_div_pos_is_pos(bo.dec_amount as int, 1_000_000);
        }
        assert(per_step(bo.dec_amount as int, d as int) == rate * d) by {
            vstd::arithmetic::div_mod::lemma_fundamental_div_mod(bo.dec_amount as int, 1_000_000);
            assert(bo.dec_amount == 1_000_000 * rate);
            assert((1_000_000 * rate) * d == (rate * d) * 1_000_000) by (nonlinear_arith) {}
            vstd::arithmetic::div_mod::lemma_div_by_multiple(rate * d, 1_000_000);
            assert(rate * d >= 0) by (nonlinear_arith)
                requires
                    rate >= 0,
                    d >= 0,
            {}
        }
        assert(rate * total == rate * d + rate * crate::resources::sum_deltas(
            deltas.drop_first(),
        )) by (nonlinear_arith)
            requires
                total == d + crate::resources::sum_deltas(deltas.drop_first()),
        {}
        assert(rate * crate::resources::sum_deltas(deltas.drop_first()) >= 0)
            by (nonlinear_arith)
            requires
                rate >= 0,
                crate::resources::sum_deltas(deltas.drop_first()) >= 0,
        {}
        let bo1 = player_boost_spec(bo, keys, d);
        assert(bo1.boost == bo.boost - rate * d && bo1.cooldown is None);
        lemma_boost_drain(bo1, keys, deltas.drop_first());
    }
}

/// Boost regeneration: with no boost key held and no cooldown running,
/// the reservoir grows by exactly the regeneration rate times the
/// elapsed time (for a whole-unit-per-second rate), clamped to the
/// maximum.
pub proof fn lemma_boost_regen(bo: Boost, keys: KeyCodes, deltas: Seq<u64>)
    requires
        bo.wf(),
        bo.cooldown is None,
        bo.boost >= 0,
        !keys.up,
        !keys.down,
        bo.inc_amount % 1_000_000 == 0,
        forall|k: int|
            0 <= k < deltas.len() ==> 1 <= #[trigger] deltas[k] <= MAX_STEP_MICROS,
    ensures
        ({
            let r = boost_seq(bo, keys, deltas);
            let grown = bo.boost + (bo.inc_amount / 1_000_000) * crate::resources::sum_deltas(
                deltas,
            );
            &&& r.boost == (if grown > bo.max_boost {
                bo.max_boost as int
            } else {
                grown
            })
            &&& r.cooldown is None
        }),
    decreases deltas.len(),
{
    let rate = bo.inc_amount / 1_000_000;
    let total = crate::resources::sum_deltas(deltas);
    if deltas.len() == 0 {
        assert(rate * 0 == 0) by (nonlinear_arith) {}
    } else {
        let d = deltas[0];
        crate::resources::lemma_sum_deltas_bounds(deltas.drop_first());
        assert(rate >= 0) by {
            vstd::arithmetic::div_mod::lemma_div_pos_is_pos(bo.inc_amount as int, 1_000_000);
        }
        assert(per_step(bo.inc_amount as int, d as int) == rate * d) by {
            vstd::arithmetic::div_mod::lemma_fundamental_div_mod(bo.inc_amount as int, 1_000_000);
            assert(bo.inc_amount == 1_000_000 * rate);
            assert((1_000_000 * rate) * d == (rate * d) * 1_000_000) by (nonlinear_arith) {}
            vstd::arithmetic::div_mod::lemma_div_by_multiple(rate * d, 1_000_000);
            assert(rate * d >= 0) by (nonlinear_arith)
                requires
                    rate >= 0,
                    d >= 0,
            {}
        }
        assert(rate * total == rate * d + rate * crate::resources::sum_deltas(
            deltas.drop_first(),
        )) by (nonlinear_arith)
            requires
                total == d + crate::resources::sum_deltas(deltas.drop_first()),
        {}
        assert(rate * crate::resources::sum_deltas(deltas.drop_first()) >= 0)
            by (nonlinear_arith)
            requires
                rate >= 0,
                crate::resources::sum_deltas(deltas.drop_first()) >= 0,
        {}
        let bo1 = player_boost_spec(bo, keys, d);
        lemma_boost_regen(bo1, keys, deltas.drop_first());
    }
}


/// The commands the projectile system queues for slots below `i` leave a
/// still-live slot `j` (at or past `i`) untouched: despawns target other
/// slots, and spawns only reuse dead ones.
proof fn lemma_projectile_cmds_keep_live(m: WorldModel, m0: WorldModel, j: int, i: int)
    requires
        0 <= i <= j,
        0 <= j < m.len(),
        m.alive.len() == m.len(),
        m.alive[j],
        m.len() >= m0.len(),
        m0.len() <= usize::MAX,
        j <= usize::MAX,
    ensures
        ({
            let r = crate::world::apply_model(
                m,
                projectile_cmds_upto(m0, crate::world::empty_bundle(), i),
            );
            &&& r.len() >= m.len()
            &&& r.alive.len() == r.len()
            &&& r.alive[j]
            &&& r.generations[j] == m.generations[j]
        }),
    decreases i,
{
    let empty = crate::world::empty_bundle();
    if i <= 0 {
    } else {
        lemma_projectile_cmds_keep_live(m, m0, j, i - 1);
        let mid = crate::world::apply_model(m, projectile_cmds_upto(m0, empty, i - 1));
        let tail = if projectile_slot(m0, i - 1) && screen_out_of_bounds_spec(
            m0.transforms[i - 1]->Some_0.x as int,
            m0.transforms[i - 1]->Some_0.y as int,
            0,
        ) {
            seq![
                Command::Despawn(slot_entity(m0, i - 1)),
                Command::Spawn(dead_projectile_bundle(m0.transforms[i - 1]->Some_0, empty)),
            ]
        } else {
            Seq::<Command>::empty()
        };
        assert(projectile_cmds_upto(m0, empty, i) == projectile_cmds_upto(m0, empty, i - 1)
            + tail);
        crate::world::lemma_apply_model_app(m, projectile_cmds_upto(m0, empty, i - 1), tail);
        if tail.len() != 0 {
            let e = slot_entity(m0, i - 1);
            let b = dead_projectile_bundle(m0.transforms[i - 1]->Some_0, empty);
            crate::world::lemma_apply_model_pair(mid, Command::Despawn(e), Command::Spawn(b));
            let after_despawn = crate::world::despawn_model(mid, e);
            assert(e.index as int == i - 1);
            assert(after_despawn.alive[j] && after_despawn.generations[j]
                == mid.generations[j] && after_despawn.len() == mid.len());
            crate::world::lemma_lowest_dead_is_dead(after_despawn.alive, 0);
            assert(crate::world::apply_model(mid, tail) == crate::world::spawn_model(
                after_despawn,
                b,
            ));
        }
    }
}

/// Boundary transition, at the store: running the barrier on the
/// projectile system's commands leaves the crossing projectile's
/// identifier naming nothing — the next step's queries cannot see it.
/// (`lemma_projectile_boundary` pins down the corpse those commands
/// spawn in its place.)
pub proof fn lemma_projectile_boundary_despawns(m0: WorldModel, m1: WorldModel, j: int)
    requires
        projectile_slot(m0, j),
        screen_out_of_bounds_spec(
            m0.transforms[j]->Some_0.x as int,
            m0.transforms[j]->Some_0.y as int,
            0,
        ),
        m1.alive == m0.alive,
        m1.generations == m0.generations,
        m0.generations[j] < u64::MAX,
        m0.wf(),
        m1.len() == m0.len(),
        m0.len() <= usize::MAX,
    ensures
        !crate::world::apply_model(
            m1,
            projectile_cmds_upto(m0, crate::world::empty_bundle(), m0.len()),
        ).valid(slot_entity(m0, j)),
{
    let empty = crate::world::empty_bundle();
    let e = slot_entity(m0, j);
    let g = m0.generations[j];
    // Up to slot j the commands leave the live projectile alone.
    lemma_projectile_cmds_keep_live(m1, m0, j, j);
    let mid = crate::world::apply_model(m1, projectile_cmds_upto(m0, empty, j));
    // Slot j's own pair then fires: the despawn is valid and moves the
    // slot to the next generation.
    let tail = seq![
        Command::Despawn(e),
        Command::Spawn(dead_projectile_bundle(m0.transforms[j]->Some_0, empty)),
    ];
    assert(projectile_cmds_upto(m0, empty, j + 1) == projectile_cmds_upto(m0, empty, j) + tail);
    crate::world::lemma_apply_model_app(m1, projectile_cmds_upto(m0, empty, j), tail);
    crate::world::lemma_apply_model_pair(mid, Command::Despawn(e),
        Command::Spawn(dead_projectile_bundle(m0.transforms[j]->Some_0, empty)));
    assert(e.index as int == j);
    assert(mid.valid(e));
    let after_despawn = crate::world::despawn_model(mid, e);
    assert(after_despawn.generations[j] == g + 1);
    let after_pair = crate::world::apply_model(m1, projectile_cmds_upto(m0, empty, j + 1));
    assert(after_pair == crate::world::spawn_model(
        after_despawn,
        dead_projectile_bundle(m0.transforms[j]->Some_0, empty),
    ));
    assert(after_pair.generations[j] == g + 1 && j < after_pair.len()) by {
        crate::world::lemma_lowest_dead_is_dead(after_despawn.alive, 0);
    }
    // Whatever the later slots' commands do, the generation gap stays.
    lemma_cmds_split_after(m0, j + 1, m0.len());
    let rest = projectile_cmds_upto_from(m0, empty, j + 1, m0.len());
    crate::world::lemma_apply_model_app(m1, projectile_cmds_upto(m0, empty, j + 1), rest);
    crate::world::lemma_generation_gap_survives(after_pair, rest, j, g);
}

/// The suffix of the projectile system's commands for slots in `[lo, i)`.
pub open spec fn projectile_cmds_upto_from(
    m: WorldModel,
    empty: Bundle,
    lo: int,
    i: int,
) -> Seq<Command>
    decreases i - lo,
{
    if i <= lo {
        Seq::empty()
    } else {
        projectile_cmds_upto_from(m, empty, lo, i - 1) + (if projectile_slot(m, i - 1)
            && screen_out_of_bounds_spec(
            m.transforms[i - 1]->Some_0.x as int,
            m.transforms[i - 1]->Some_0.y as int,
            0,
        ) {
            seq![
                Command::Despawn(slot_entity(m, i - 1)),
                Command::Spawn(dead_projectile_bundle(m.transforms[i - 1]->Some_0, empty)),
            ]
        } else {
            Seq::empty()
        })
    }
}

/// The whole command list splits at any slot boundary.
proof fn lemma_cmds_split_after(m: WorldModel, lo: int, i: int)
    requires
        0 <= lo <= i,
    ensures
        projectile_cmds_upto(m, crate::world::empty_bundle(), i) == projectile_cmds_upto(
            m,
            crate::world::empty_bundle(),
            lo,
        ) + projectile_cmds_upto_from(m, crate::world::empty_bundle(), lo, i),
    decreases i - lo,
{
    let empty = crate::world::empty_bundle();
    if i <= lo {
        assert(projectile_cmds_upto(m, empty, lo) + Seq::<Command>::empty()
            =~= projectile_cmds_upto(m, empty, lo));
    } else {
        lemma_cmds_split_after(m, lo, i - 1);
        assert((projectile_cmds_upto(m, empty, lo) + projectile_cmds_upto_from(m, empty, lo, i
            - 1)) + (projectile_cmds_upto(m, empty, i).skip(
            projectile_cmds_upto(m, empty, i - 1).len() as int,
        )) =~= projectile_cmds_upto(m, empty, lo) + (projectile_cmds_upto_from(m, empty, lo, i
            - 1) + projectile_cmds_upto(m, empty, i).skip(
            projectile_cmds_upto(m, empty, i - 1).len() as int,
        )));
        let tail = if projectile_slot(m, i - 1) && screen_out_of_bounds_spec(
            m.transforms[i - 1]->Some_0.x as int,
            m.transforms[i - 1]->Some_0.y as int,
            0,
        ) {
            seq![
                Command::Despawn(slot_entity(m, i - 1)),
                Command::Spawn(dead_projectile_bundle(m.transforms[i - 1]->Some_0, empty)),
            ]
        } else {
            Seq::<Command>::empty()
        };
        assert((projectile_cmds_upto(m, empty, lo) + projectile_cmds_upto_from(m, empty, lo, i
            - 1)) + tail =~= projectile_cmds_upto(m, empty, lo) + (projectile_cmds_upto_from(
            m,
            empty,
            lo,
            i - 1,
        ) + tail));
    }
}

} // verus!
