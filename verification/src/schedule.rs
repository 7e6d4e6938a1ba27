//! The frame loop: the whole game state, the dependency-ordered stages of
//! one fixed step, and the slicing of a wall-clock frame into bounded
//! simulation steps.

use vstd::prelude::*;
use crate::environment::{MAX_FRAME_SLICE_MICROS, MAX_STEP_MICROS};
use crate::events::Events;
use crate::resources::{
    Camera, CircleGeometry, DrawBuffers, DurationWrapper, EntitySpawnTimer, Flash, KeyCodes,
    LineGeometry, QuadGeometry, Shake, Time,
};
use crate::systems;
use crate::world::{Commands, World};

verus! {

/// Steps are refused once the arena outgrows this many slots; in play the
/// arena stays tiny, and the guard keeps every per-step buffer well
/// inside its integer range.
pub const ARENA_CAPACITY: usize = 1_000_000;

/// The whole simulation: the entity store, the shared resources, the
/// command buffer and the event queue with its registered readers.
pub struct Game {
    pub world: World,
    pub commands: Commands,
    pub events: Events,
    /// The reader cursors, registered before the first frame, one per
    /// consuming system.
    pub timing_reader: usize,
    pub shake_reader: usize,
    pub flash_reader: usize,
    pub explosion_reader: usize,
    pub time: Time,
    pub raw_time: DurationWrapper,
    pub timers: EntitySpawnTimer,
    pub keys: KeyCodes,
    pub camera: Camera,
    pub shake: Shake,
    pub flash: Flash,
    pub circles: CircleGeometry,
    pub quads: QuadGeometry,
    pub lines: LineGeometry,
    pub randoms: crate::random::Randoms,
}

impl Game {
    /// Everything the stages rely on between steps: well-formed store,
    /// resources and buffers, an emptied command buffer, four registered
    /// reader cursors that are pairwise distinct (shared cursors would
    /// let systems steal each other's events), and an event buffer whose
    /// aged and current halves both stay within what one step can send.
    pub open spec fn wf(self) -> bool {
        &&& self.world.wf()
        &&& self.commands.wf()
        &&& self.commands.queue@.len() == 0
        &&& self.events.wf()
        &&& self.events.cursors@.len() == 4
        &&& self.timing_reader < 4
        &&& self.shake_reader < 4
        &&& self.flash_reader < 4
        &&& self.explosion_reader < 4
        &&& self.timing_reader != self.shake_reader
        &&& self.timing_reader != self.flash_reader
        &&& self.timing_reader != self.explosion_reader
        &&& self.shake_reader != self.flash_reader
        &&& self.shake_reader != self.explosion_reader
        &&& self.flash_reader != self.explosion_reader
        &&& self.events.fresh <= 2_000_000
        &&& self.events.events@.len() <= self.events.fresh + 2_000_000
        &&& self.time.wf()
        &&& self.timers.wf()
        &&& self.shake.wf()
        &&& self.flash.wf()
    }

    /// A fresh game: an empty store, stock resources, and every reader
    /// cursor registered before the first frame runs (a missing cursor
    /// would be a setup error, so registration is not optional).
    pub fn new(seed: u64, vao: u32, vbo: u32, ebo: u32) -> (g: Game)
        ensures
            g.wf(),
            g.world.model().len() == 0,
            g.timing_reader == 0 && g.shake_reader == 1 && g.flash_reader == 2
                && g.explosion_reader == 3,
            g.events.events@ == Seq::<crate::events::GameEvents>::empty(),
    {
        let mut rng = crate::random::rng_from_seed(seed);
        let shake = Shake::new(&mut rng);
        let mut events = Events::new();
        let timing_reader = events.register_reader();
        let shake_reader = events.register_reader();
        let flash_reader = events.register_reader();
        let explosion_reader = events.register_reader();
        Game {
            world: World::new(),
            commands: Commands::new(),
            events,
            timing_reader,
            shake_reader,
            flash_reader,
            explosion_reader,
            time: Time { duration: 0, slow_down_timer: None },
            raw_time: DurationWrapper(0),
            timers: EntitySpawnTimer::default(),
            keys: KeyCodes::default(),
            camera: Camera::default(),
            shake,
            flash: Flash::default(),
            circles: DrawBuffers::new(vao, vbo, ebo),
            quads: DrawBuffers::new(vao, vbo, ebo),
            lines: DrawBuffers::new(vao, vbo, ebo),
            randoms: crate::random::Randoms(rng),
        }
    }

    /// The startup stage, run once: spawns the player and applies the
    /// structural change, so the first frame already finds a live player.
    pub fn run_startup(&mut self)
        requires
            old(self).wf(),
            old(self).world.model().len() < ARENA_CAPACITY,
        ensures
            final(self).wf(),
            // The slot holds the whole startup bundle: the stock player,
            // the screen-centre placement, a full boost reservoir and
            // the repeating shooting tween.
            exists|j: int|
                {
                    &&& 0 <= j < final(self).world.model().len()
                    &&& #[trigger] final(self).world.model().alive[j]
                    &&& final(self).world.model().players[j] == Some(
                        crate::components::Player {
                            movement_speed: 100_000_000,
                            rotation_speed: 1_000_000,
                        },
                    )
                    &&& final(self).world.model().transforms[j] == Some(
                        crate::components::Transform {
                            rotation: 0,
                            x: 240_000_000,
                            y: 135_000_000,
                            z: crate::environment::Z_INDEX_PLAYER,
                            center_rotation: 0,
                        },
                    )
                    &&& final(self).world.model().boosts[j] is Some
                    &&& final(self).world.model().boosts[j]->Some_0.boost == 100_000_000
                    &&& final(self).world.model().interpolations[j] is Some
                    &&& final(self).world.model().interpolations[j]->Some_0.time == 0
                    &&& final(self).world.model().interpolations[j]->Some_0.duration == 240_000
                    &&& final(self).world.model().interpolations[j]->Some_0.repeating == true
                },
    {
        let ghost m0 = self.world.model();
        systems::player_spawn_system(&mut self.commands);
        let ghost q = self.commands.queue@;
        self.world.apply_commands(&mut self.commands);
        proof {
            let cmd = q.last();
            assert(q =~= seq![cmd]);
            assert(q[0] == cmd);
            assert(q.drop_first() =~= Seq::<crate::world::Command>::empty());
            assert(crate::world::apply_model(m0, q) == crate::world::apply_model(
                crate::world::apply_one_model(m0, cmd),
                q.drop_first(),
            ));
            assert(crate::world::apply_model(crate::world::apply_one_model(m0, cmd),
                q.drop_first()) == crate::world::apply_one_model(m0, cmd));
            assert(self.world.model() == crate::world::apply_one_model(m0, cmd));
            let b = cmd->Spawn_0;
            let i = crate::world::lowest_dead_from(m0.alive, 0);
            crate::world::lemma_lowest_dead_is_dead(m0.alive, 0);
            assert(crate::systems::player_bundle_spec(b));
            if i < m0.len() {
                assert(self.world.model().alive[i] && self.world.model().players[i] == b.player
                    && self.world.model().transforms[i] == b.transform
                    && self.world.model().boosts[i] == b.boost
                    && self.world.model().interpolations[i] == b.interpolation);
            } else {
                assert(self.world.model().alive[m0.len()]
                    && self.world.model().players[m0.len()] == b.player
                    && self.world.model().transforms[m0.len()] == b.transform
                    && self.world.model().boosts[m0.len()] == b.boost
                    && self.world.model().interpolations[m0.len()] == b.interpolation);
            }
        }
    }

    /// What the event phase of one step hands the timing engine: among
    /// the events that survive the aging, the slice the timing reader
    /// has not consumed yet holds a player death or not.
    pub open spec fn step_death_spec(self) -> bool {
        let aged = self.events.events@.skip(self.events.fresh as int);
        let c = self.events.cursors@[self.timing_reader as int] as int;
        let cursor = if c >= self.events.fresh {
            c - self.events.fresh
        } else {
            0int
        };
        aged.subrange(cursor, aged.len() as int).contains(crate::events::GameEvents::PlayerDeath)
    }

    /// One fixed simulation step: the event phase (aging, then the timing
    /// engine on the raw duration), the game stage in dependency order,
    /// and the structural barrier at the end. The event phase and the
    /// timing engine always run; the game stage is refused on an arena
    /// past its capacity.
    #[verifier::rlimit(100)]
    pub fn run_step(&mut self, raw: u64, keys: KeyCodes)
        requires
            old(self).wf(),
            raw <= MAX_STEP_MICROS,
        ensures
            final(self).wf(),
            final(self).raw_time.0 == raw,
            final(self).keys == keys,
            final(self).commands.queue@.len() == 0,
            // The timing engine's composed effect: the raw step is scaled
            // by the slow-motion window opened by a death the aged queue
            // still held for the timing reader, and all four spawn timers
            // tick on the scaled duration.
            ({
                let scaled = old(self).time.advance_spec(raw, old(self).step_death_spec());
                &&& final(self).time == scaled
                &&& final(self).timers.projectile == old(self).timers.projectile.tick_spec(
                    scaled.duration,
                )
                &&& final(self).timers.tick_effect == old(self).timers.tick_effect.tick_spec(
                    scaled.duration,
                )
                &&& final(self).timers.ammo_pickup == old(self).timers.ammo_pickup.tick_spec(
                    scaled.duration,
                )
                &&& final(self).timers.boost_pickup == old(self).timers.boost_pickup.tick_spec(
                    scaled.duration,
                )
            }),
            final(self).time.duration <= raw,
    {
        self.raw_time = DurationWrapper(raw);
        self.keys = keys;
        // Event phase: events that already survived one phase age out,
        // and the timing engine reads what last step sent — so a death
        // reaches it one step late, as the producer runs after it — then
        // ticks the spawn timers on the scaled duration.
        self.events.update();
        systems::timing_system(&mut self.events, self.timing_reader, &mut self.timers,
            &self.raw_time, &mut self.time);
        if self.world.num_slots() >= ARENA_CAPACITY {
            return ;
        }
        let ghost n0 = self.world.model().len();
        proof {
            assert(n0 < 1_000_000);
        }
        // Game stage, ordered as the dependency graph demands: the player
        // first, everything that reads the player's new placement after.
        systems::player_system(&mut self.world, &mut self.commands, &mut self.events,
            &mut self.circles, &self.keys, &self.time);
        systems::shooting_system(&mut self.world, &mut self.quads, &self.time);
        systems::tick_effect_spawn_system(&self.world, &mut self.commands, &self.timers);
        systems::tick_effect_system(&mut self.world, &mut self.commands, &mut self.quads,
            &self.time);
        proof {
            assert(self.world.model().len() == n0);
            assert(self.commands.queue@.len() <= 3 * n0);
        }
        systems::projectile_spawn_system(&self.world, &mut self.commands, &self.timers,
            &self.keys);
        proof {
            assert(self.world.model().len() == n0);
            assert(self.commands.queue@.len() <= 6 * n0);
        }
        systems::projectile_system(&mut self.world, &mut self.commands, &mut self.events,
            &mut self.circles, &self.time);
        proof {
            assert(self.world.model().len() == n0);
            assert(self.commands.queue@.len() <= 8 * n0);
        }
        systems::projectile_death_system(&mut self.world, &mut self.commands, &mut self.quads,
            &self.time);
        proof {
            assert(self.world.model().len() == n0);
            assert(self.commands.queue@.len() <= 9 * n0);
        }
        systems::player_explosion_spawn_system(&self.world, &mut self.events,
            self.explosion_reader, &mut self.commands, &mut self.randoms.0);
        proof {
            assert(self.world.model().len() == n0);
            assert(self.commands.queue@.len() <= 25 * n0 + 16);
        }
        systems::trail_effect_spawn_system(&self.world, &mut self.commands, &mut self.randoms.0);
        proof {
            assert(self.world.model().len() == n0);
            assert(self.commands.queue@.len() <= 26 * n0 + 16);
        }
        systems::ammo_pickup_system(&mut self.world, &mut self.commands, &mut self.quads,
            &self.time, &mut self.randoms.0);
        proof {
            assert(self.world.model().len() == n0);
            assert(self.commands.queue@.len() <= 35 * n0 + 16);
        }
        systems::boost_pickup_system(&mut self.world, &mut self.commands, &mut self.quads,
            &self.time);
        proof {
            assert(self.world.model().len() == n0);
            assert(self.commands.queue@.len() <= 37 * n0 + 16);
        }
        systems::trail_effect_system(&mut self.world, &mut self.commands, &mut self.circles,
            &self.keys, &self.time);
        systems::camera_shake_system(&mut self.events, self.shake_reader, &mut self.camera,
            &mut self.shake, &self.raw_time);
        systems::screen_flash_system(&mut self.events, self.flash_reader, &mut self.flash,
            &mut self.quads);
        systems::ammo_pickup_spawn_system(&mut self.commands, &self.timers, &mut self.randoms.0);
        systems::explosion_system(&mut self.world, &mut self.commands, &mut self.lines,
            &self.time);
        systems::boost_pickup_spawn_system(&mut self.commands, &self.timers, &mut self.randoms.0);
        // Structural barrier: every queued spawn, despawn and insert
        // lands now, never mid-iteration.
        self.world.apply_commands(&mut self.commands);
    }

    /// How a wall-clock frame is subdivided: full slices of the fixed
    /// maximum, then the remainder.
    pub open spec fn frame_slices(frame: u64) -> Seq<u64>
        decreases frame,
    {
        if frame == 0 {
            Seq::empty()
        } else if frame < MAX_FRAME_SLICE_MICROS {
            seq![frame]
        } else {
            seq![MAX_FRAME_SLICE_MICROS] + Self::frame_slices(
                (frame - MAX_FRAME_SLICE_MICROS) as u64,
            )
        }
    }

    /// The slicing law: every slice is positive and at most the fixed
    /// maximum, and the slices sum exactly to the frame — one slow frame
    /// never produces one enormous step, and no time is lost.
    pub proof fn lemma_frame_slices(frame: u64)
        ensures
            forall|k: int|
                0 <= k < Self::frame_slices(frame).len() ==> 1 <= #[trigger] Self::frame_slices(
                    frame,
                )[k] <= MAX_FRAME_SLICE_MICROS,
            crate::resources::sum_deltas(Self::frame_slices(frame)) == frame,
            frame > 0 ==> Self::frame_slices(frame).len() >= 1,
        decreases frame,
    {
        if frame == 0 {
        } else if frame < MAX_FRAME_SLICE_MICROS {
            assert(Self::frame_slices(frame)[0] == frame);
            assert(Self::frame_slices(frame).drop_first() =~= Seq::<u64>::empty());
            assert(crate::resources::sum_deltas(Self::frame_slices(frame)) == frame
                + crate::resources::sum_deltas(Self::frame_slices(frame).drop_first()));
        } else {
            let rest = (frame - MAX_FRAME_SLICE_MICROS) as u64;
            Self::lemma_frame_slices(rest);
            assert(Self::frame_slices(frame)[0] == MAX_FRAME_SLICE_MICROS);
            assert(Self::frame_slices(frame).drop_first() =~= Self::frame_slices(rest));
            assert(crate::resources::sum_deltas(Self::frame_slices(frame))
                == MAX_FRAME_SLICE_MICROS + crate::resources::sum_deltas(
                Self::frame_slices(rest),
            ));
            assert forall|k: int|
                0 <= k < Self::frame_slices(frame).len() implies 1 <= #[trigger] Self::frame_slices(
                frame,
            )[k] <= MAX_FRAME_SLICE_MICROS by {
                if k > 0 {
                    assert(Self::frame_slices(frame)[k] == Self::frame_slices(rest)[k - 1]);
                }
            }
        }
    }

    /// One wall-clock frame: empties the draw batches, then subdivides
    /// the elapsed time into the `frame_slices` steps and runs each per
    /// `run_step`'s contract, so one slow frame never produces one
    /// enormous step. The resources record the frame's input: after a
    /// non-empty frame the raw step holds the last slice and the key
    /// snapshot holds this frame's keys.
    pub fn run_frame(&mut self, frame_micros: u64, keys: KeyCodes)
        requires
            old(self).wf(),
        ensures
            final(self).wf(),
            frame_micros > 0 ==> final(self).raw_time.0 == Self::frame_slices(frame_micros).last()
                && final(self).keys == keys
                && final(self).time.duration <= final(self).raw_time.0,
            frame_micros == 0 ==> final(self).circles.shapes@
                == Seq::<crate::resources::ShapeDraw>::empty() && final(self).quads.shapes@
                == Seq::<crate::resources::ShapeDraw>::empty() && final(self).lines.shapes@
                == Seq::<crate::resources::ShapeDraw>::empty() && final(self).world
                == old(self).world && final(self).time == old(self).time,
    {
        let ghost w0 = old(self).world;
        let ghost t0 = old(self).time;
        self.circles.clear();
        self.quads.clear();
        self.lines.clear();
        let mut remaining: u64 = frame_micros;
        proof {
            Self::lemma_frame_slices(frame_micros);
        }
        while remaining > 0
            invariant
                self.wf(),
                remaining <= frame_micros,
                remaining > 0 ==> Self::frame_slices(remaining).len() >= 1
                    && Self::frame_slices(remaining).last() == Self::frame_slices(
                    frame_micros,
                ).last(),
                remaining == 0 && frame_micros > 0 ==> self.raw_time.0 == Self::frame_slices(
                    frame_micros,
                ).last() && self.keys == keys && self.time.duration <= self.raw_time.0,
                frame_micros == 0 ==> self.circles.shapes@
                    == Seq::<crate::resources::ShapeDraw>::empty() && self.quads.shapes@
                    == Seq::<crate::resources::ShapeDraw>::empty() && self.lines.shapes@
                    == Seq::<crate::resources::ShapeDraw>::empty() && self.world == w0
                    && self.time == t0,
            decreases remaining,
        {
            let dt: u64 = if remaining < MAX_FRAME_SLICE_MICROS {
                remaining
            } else {
                MAX_FRAME_SLICE_MICROS
            };
            proof {
                if remaining < MAX_FRAME_SLICE_MICROS {
                    assert(Self::frame_slices(remaining) =~= seq![remaining]);
                } else {
                    assert(Self::frame_slices(remaining)[0] == MAX_FRAME_SLICE_MICROS);
                    assert(Self::frame_slices(remaining).drop_first() =~= Self::frame_slices(
                        (remaining - MAX_FRAME_SLICE_MICROS) as u64,
                    ));
                }
            }
            self.run_step(dt, keys);
            remaining = remaining - dt;
        }
    }
}

} // verus!
