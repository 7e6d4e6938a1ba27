//! Process-wide simulation state: the timing engine with its slow-motion
//! window, the countdown `Timer` primitive, the noise-based screen shake,
//! the screen flash counter, the periodic spawn timers, the per-frame key
//! snapshot, the camera, and the per-geometry draw batches the systems
//! fill for the rendering collaborator.

use vstd::prelude::*;
use crate::components::Transform;
use crate::color::Rgb;
use crate::easings::{ease_in_out_cubic, ease_in_out_cubic_spec, lemma_ease_bounds, Easing};
use crate::environment::{
    DURATION_LIMIT, MAX_DELTA_MICROS, SLOW_DOWN_DURATION_ON_DEATH, UNIT, VALUE_LIMIT,
};
use crate::fixed::{lemma_mul_div_trunc_bound, mul_div, mul_div_trunc};
use crate::random::rand_range;

verus! {

// ---------------------------------------------------------------------------
// Timer

/// A countdown/repeat primitive: `finished` is the one-tick fire flag,
/// `count` the number of completed periods.
#[derive(Clone, Copy, Debug, PartialEq, Eq, Structural)]
pub struct Timer {
    /// Time accumulated toward the current period, microseconds.
    pub elapsed: u64,
    /// Length of one period, microseconds.
    pub duration: u64,
    /// How many times the timer has finished so far (saturating).
    pub count: u64,
    /// True exactly on the ticks where `elapsed` reached `duration`.
    pub finished: bool,
    /// Whether the timer restarts after finishing.
    pub repeating: bool,
}

/// `c + 1`, staying put at the top of `u64`.
pub open spec fn sat_inc(c: u64) -> u64 {
    if c == u64::MAX {
        c
    } else {
        (c + 1) as u64
    }
}

impl Timer {
    /// Structural bounds every timer keeps: `elapsed` never passes
    /// `duration`, and `duration` is at most `DURATION_LIMIT`.
    pub open spec fn wf(self) -> bool {
        self.elapsed <= self.duration <= DURATION_LIMIT
    }

    /// What one `tick` call does. A repeating timer that crosses its
    /// duration fires, counts, and keeps the remainder of the step; a
    /// one-shot timer clamps at its duration, fires once and then stays
    /// finished.
    pub open spec fn tick_spec(self, delta: u64) -> Timer {
        let acc = self.elapsed + delta;
        if self.repeating {
            if acc >= self.duration {
                Timer {
                    elapsed: if acc - self.duration > self.duration {
                        self.duration
                    } else {
                        (acc - self.duration) as u64
                    },
                    count: sat_inc(self.count),
                    finished: true,
                    ..self
                }
            } else {
                Timer { elapsed: acc as u64, finished: false, ..self }
            }
        } else {
            if self.finished {
                self
            } else if acc >= self.duration {
                Timer { elapsed: self.duration, count: sat_inc(self.count), finished: true, ..self }
            } else {
                Timer { elapsed: acc as u64, ..self }
            }
        }
    }

    /// A fresh timer with the given period in microseconds.
    pub fn from_micros(duration: u64, repeating: bool) -> (t: Timer)
        requires
            duration <= DURATION_LIMIT,
        ensures
            t == (Timer { elapsed: 0, duration, count: 0, finished: false, repeating }),
            t.wf(),
    {
        Timer { elapsed: 0, duration, count: 0, finished: false, repeating }
    }

    /// Advances the timer by `delta` microseconds.
    pub fn tick(&mut self, delta: u64)
        requires
            old(self).wf(),
            delta <= MAX_DELTA_MICROS,
        ensures
            *final(self) == old(self).tick_spec(delta),
            final(self).wf(),
    {
        let acc: u64 = self.elapsed + delta;
        if self.repeating {
            if acc >= self.duration {
                let rem: u64 = acc - self.duration;
                self.elapsed = if rem > self.duration {
                    self.duration
                } else {
                    rem
                };
                if self.count < u64::MAX {
                    self.count = self.count + 1;
                }
                self.finished = true;
            } else {
                self.elapsed = acc;
                self.finished = false;
            }
        } else {
            if self.finished {
            } else if acc >= self.duration {
                self.elapsed = self.duration;
                if self.count < u64::MAX {
                    self.count = self.count + 1;
                }
                self.finished = true;
            } else {
                self.elapsed = acc;
            }
        }
    }

    /// Clears the fire flag and the accumulated time.
    pub fn reset(&mut self)
        ensures
            *final(self) == (Timer { elapsed: 0, finished: false, ..*old(self) }),
    {
        self.finished = false;
        self.elapsed = 0;
    }
}

// ---------------------------------------------------------------------------
// Time and the slow-motion window

/// The step duration handed to the simulation systems, together with the
/// running total of the slow-motion window while one is active. Systems
/// that must not slow down (shake, flash) read `DurationWrapper` instead.
#[derive(Clone, Copy, Debug, PartialEq, Eq, Structural)]
pub struct Time {
    /// The scaled step duration, microseconds.
    pub duration: u64,
    /// Time accumulated since the death that opened the window, if one is
    /// active.
    pub slow_down_timer: Option<u64>,
}

/// The slow-motion factor on the `UNIT` scale at `total` microseconds into
/// the window: eases from 15% back up to 100% along the cubic curve.
pub open spec fn slow_amount_spec(total: int) -> int {
    let e = ease_in_out_cubic_spec(total * UNIT / (SLOW_DOWN_DURATION_ON_DEATH as int));
    (UNIT - e) * 15 / 100 + e
}

impl Time {
    /// A live window never holds more than the whole slow-down duration.
    pub open spec fn wf(self) -> bool {
        match self.slow_down_timer {
            Some(t) => t <= SLOW_DOWN_DURATION_ON_DEATH,
            None => true,
        }
    }

    /// What one `advance` call does: a death opens the window at zero; an
    /// open window accumulates the raw step and scales it by the eased
    /// slow-motion factor; a window past its end closes and the raw step
    /// passes through unchanged.
    pub open spec fn advance_spec(self, raw: u64, death: bool) -> Time {
        let st = if death {
            Some(0u64)
        } else {
            self.slow_down_timer
        };
        match st {
            None => Time { duration: raw, slow_down_timer: None },
            Some(t) => {
                let total = t + raw;
                if total <= SLOW_DOWN_DURATION_ON_DEATH {
                    Time {
                        duration: (raw * slow_amount_spec(total as int) / (UNIT as int)) as u64,
                        slow_down_timer: Some(total as u64),
                    }
                } else {
                    Time { duration: raw, slow_down_timer: None }
                }
            }
        }
    }

    /// Derives the scaled step duration from the raw one, opening the
    /// slow-motion window if a player death happened this step.
    pub fn advance(&mut self, raw: u64, death: bool) -> (scaled: u64)
        requires
            old(self).wf(),
            raw <= MAX_DELTA_MICROS,
        ensures
            *final(self) == old(self).advance_spec(raw, death),
            scaled == final(self).duration,
            final(self).wf(),
            scaled <= raw,
    {
        let st: Option<u64> = if death {
            Some(0u64)
        } else {
            self.slow_down_timer
        };
        match st {
            None => {
                self.duration = raw;
                self.slow_down_timer = None;
            }
            Some(t) => {
                let total: u64 = t + raw;
                if total <= SLOW_DOWN_DURATION_ON_DEATH {
                    proof {
                        assert(0 <= total * (UNIT as int) <= 2_500_000_000_000
                            && total * (UNIT as int) / (SLOW_DOWN_DURATION_ON_DEATH as int)
                                <= UNIT) by (nonlinear_arith)
                            requires
                                0 <= total <= SLOW_DOWN_DURATION_ON_DEATH,
                                UNIT == 1_000_000,
                                SLOW_DOWN_DURATION_ON_DEATH == 2_500_000,
                        {}
                        vstd::arithmetic::div_mod::lemma_div_pos_is_pos((total * UNIT) as int,
                            SLOW_DOWN_DURATION_ON_DEATH as int);
                    }
                    let t_norm: i64 = ((total * (UNIT as u64))
                        / SLOW_DOWN_DURATION_ON_DEATH) as i64;
                    let e: i64 = ease_in_out_cubic(t_norm);
                    let slow: i64 = (UNIT - e) * 15 / 100 + e;
                    proof {
                        assert((UNIT - e) * 15 / 100 <= UNIT - e) by (nonlinear_arith)
                            requires
                                0 <= e <= UNIT,
                                UNIT == 1_000_000,
                        {}
                        assert(raw * slow <= raw * (UNIT as int)
                            && raw * (UNIT as int) <= MAX_DELTA_MICROS * (UNIT as int)
                            && raw * slow >= 0
                            && raw * slow / (UNIT as int) <= raw) by (nonlinear_arith)
                            requires
                                0 <= slow <= UNIT,
                                0 <= raw <= MAX_DELTA_MICROS,
                                UNIT == 1_000_000,
                                MAX_DELTA_MICROS == 1_000_000_000_000,
                        {}
                    }
                    let scaled: u64 = raw * (slow as u64) / (UNIT as u64);
                    self.duration = scaled;
                    self.slow_down_timer = Some(total);
                } else {
                    self.duration = raw;
                    self.slow_down_timer = None;
                }
            }
        }
        self.duration
    }
}

/// The raw (wall-clock) step duration for this simulation step, in
/// microseconds; never dilated.
#[derive(Clone, Copy, Debug, PartialEq, Eq, Structural)]
pub struct DurationWrapper(pub u64);

// ---------------------------------------------------------------------------
// Screen flash

/// The full-screen flash shown for a few frames after a player death.
#[derive(Clone, Copy, Debug, PartialEq, Eq, Structural)]
pub struct Flash {
    /// Frames left to draw once flashing.
    pub frame_cnt: u8,
    /// Whether a flash is running.
    pub is_flashing: bool,
}

impl Flash {
    /// There is always at least one frame loaded: the flash system
    /// decrements the counter only while it stays positive and reloads it
    /// when it reaches zero.
    pub open spec fn wf(self) -> bool {
        self.frame_cnt >= 1
    }
}

impl Default for Flash {
    /// The idle flash: four frames loaded, not flashing.
    fn default() -> (f: Flash)
        ensures
            f == (Flash { frame_cnt: 4, is_flashing: false }),
    {
        Flash { frame_cnt: 4, is_flashing: false }
    }
}

// ---------------------------------------------------------------------------
// Periodic spawn timers

/// One repeating timer per periodic spawner.
#[derive(Clone, Copy, Debug, PartialEq, Eq, Structural)]
pub struct EntitySpawnTimer {
    pub projectile: Timer,
    pub tick_effect: Timer,
    pub ammo_pickup: Timer,
    pub boost_pickup: Timer,
}

impl EntitySpawnTimer {
    pub open spec fn wf(self) -> bool {
        self.projectile.wf() && self.tick_effect.wf() && self.ammo_pickup.wf()
            && self.boost_pickup.wf()
    }

    /// Ticks all four spawn timers with the same (scaled) step duration.
    pub fn tick_all(&mut self, delta: u64)
        requires
            old(self).wf(),
            delta <= MAX_DELTA_MICROS,
        ensures
            final(self).projectile == old(self).projectile.tick_spec(delta),
            final(self).tick_effect == old(self).tick_effect.tick_spec(delta),
            final(self).ammo_pickup == old(self).ammo_pickup.tick_spec(delta),
            final(self).boost_pickup == old(self).boost_pickup.tick_spec(delta),
            final(self).wf(),
    {
        self.projectile.tick(delta);
        self.tick_effect.tick(delta);
        self.ammo_pickup.tick(delta);
        self.boost_pickup.tick(delta);
    }
}

impl Default for EntitySpawnTimer {
    /// The periods of the four spawners: projectiles every 0.25 s, tick
    /// effects every 5 s, ammunition pickups every 1 s, boost pickups
    /// every 2 s.
    fn default() -> (t: EntitySpawnTimer)
        ensures
            t.projectile == (Timer {
                elapsed: 0,
                duration: 250_000,
                count: 0,
                finished: false,
                repeating: true,
            }),
            t.tick_effect == (Timer {
                elapsed: 0,
                duration: 5_000_000,
                count: 0,
                finished: false,
                repeating: true,
            }),
            t.ammo_pickup == (Timer {
                elapsed: 0,
                duration: 1_000_000,
                count: 0,
                finished: false,
                repeating: true,
            }),
            t.boost_pickup == (Timer {
                elapsed: 0,
                duration: 2_000_000,
                count: 0,
                finished: false,
                repeating: true,
            }),
            t.wf(),
    {
        EntitySpawnTimer {
            projectile: Timer::from_micros(250_000, true),
            tick_effect: Timer::from_micros(5_000_000, true),
            ammo_pickup: Timer::from_micros(1_000_000, true),
            boost_pickup: Timer::from_micros(2_000_000, true),
        }
    }
}

// ---------------------------------------------------------------------------
// Input snapshot

/// The keys of interest that are down this frame; filled once per step by
/// the input collaborator.
#[derive(Clone, Copy, Debug, PartialEq, Eq, Structural)]
pub struct KeyCodes {
    /// Boost forward.
    pub up: bool,
    /// Brake.
    pub down: bool,
    /// Rotate counter-clockwise.
    pub left: bool,
    /// Rotate clockwise.
    pub right: bool,
    /// The explicit self-destruct key.
    pub s: bool,
    /// Alternate fire: the three-projectile fan.
    pub space: bool,
}

impl Default for KeyCodes {
    /// No key pressed.
    fn default() -> (k: KeyCodes)
        ensures
            k == (KeyCodes {
                up: false,
                down: false,
                left: false,
                right: false,
                s: false,
                space: false,
            }),
    {
        KeyCodes { up: false, down: false, left: false, right: false, s: false, space: false }
    }
}

// ---------------------------------------------------------------------------
// Camera

/// The camera position the shake system drives, in micro-pixels. The rest
/// of the view (front, up, zoom) belongs to the rendering collaborator.
#[derive(Clone, Copy, Debug, PartialEq, Eq, Structural)]
pub struct Camera {
    pub x: i64,
    pub y: i64,
    pub z: i64,
}

impl Default for Camera {
    /// The camera at rest, three units back.
    fn default() -> (c: Camera)
        ensures
            c == (Camera { x: 0, y: 0, z: 3_000_000 }),
    {
        Camera { x: 0, y: 0, z: 3_000_000 }
    }
}

// ---------------------------------------------------------------------------
// Screen shake

/// The noise-based screen-shake generator: two precomputed sample tracks
/// replayed by linear interpolation with a linear decay.
pub struct Shake {
    /// Whether a shake is running.
    pub is_shaking: bool,
    /// How long one shake lasts, microseconds.
    pub duration: u64,
    /// Samples per second along each track.
    pub frequency: u64,
    /// Peak offset, micro-pixels.
    pub amplitude: i64,
    /// Time into the current shake, microseconds.
    pub time: u64,
    /// Uniform random samples on `[-UNIT, UNIT)`, horizontal track.
    pub samples_x: Vec<i64>,
    /// Uniform random samples on `[-UNIT, UNIT)`, vertical track.
    pub samples_y: Vec<i64>,
}

/// The sample a track yields at index `n`; out-of-range indices read as 0.
pub open spec fn noise_spec(samples: Seq<i64>, n: int) -> int {
    if 0 <= n < samples.len() {
        samples[n] as int
    } else {
        0
    }
}

/// The offset one track yields at `time` microseconds into a shake of the
/// given duration, frequency and amplitude: linear interpolation between
/// the two neighbouring samples, scaled by the linear decay factor and by
/// the amplitude.
pub open spec fn track_offset_spec(
    duration: int,
    frequency: int,
    amplitude: int,
    samples: Seq<i64>,
    time: int,
) -> int {
    let s = time * frequency;
    let n0 = s / (UNIT as int);
    let frac = s % (UNIT as int);
    let a0 = noise_spec(samples, n0);
    let a1 = noise_spec(samples, n0 + 1);
    let interp = a0 + mul_div_trunc(a1 - a0, frac, UNIT as int);
    let decay = (duration - time) * UNIT / duration;
    mul_div_trunc(mul_div_trunc(interp, decay, UNIT as int), amplitude, UNIT as int)
}

/// Replays one sample track at `time` microseconds into the shake.
fn track_offset(duration: u64, frequency: u64, amplitude: i64, samples: &Vec<i64>, time: u64) -> (r:
    i64)
    requires
        1 <= duration <= DURATION_LIMIT,
        1 <= frequency <= 1000,
        0 <= amplitude <= VALUE_LIMIT,
        time <= duration,
        forall|i: int| 0 <= i < samples.len() ==> -UNIT <= #[trigger] samples[i] <= UNIT,
    ensures
        r == track_offset_spec(
            duration as int,
            frequency as int,
            amplitude as int,
            samples@,
            time as int,
        ),
{
    proof {
        assert(0 <= time * frequency <= 3_600_000_000_000) by (nonlinear_arith)
            requires
                0 <= time <= DURATION_LIMIT,
                0 <= frequency <= 1000,
                DURATION_LIMIT == 3_600_000_000,
        {}
    }
    let s: u64 = time * frequency;
    let n0: u64 = s / (UNIT as u64);
    let frac: u64 = s % (UNIT as u64);
    let a0: i64 = if n0 < samples.len() as u64 {
        samples[n0 as usize]
    } else {
        0
    };
    let a1: i64 = if n0 + 1 < samples.len() as u64 {
        samples[(n0 + 1) as usize]
    } else {
        0
    };
    proof {
        lemma_mul_div_trunc_bound((a1 - a0) as int, frac as int, UNIT as int);
    }
    let interp: i64 = a0 + mul_div(a1 - a0, frac as i64, UNIT);
    proof {
        assert(0 <= (duration - time) * UNIT <= DURATION_LIMIT * UNIT) by (nonlinear_arith)
            requires
                0 <= duration - time <= DURATION_LIMIT,
                UNIT == 1_000_000,
        {}
        assert((duration - time) * (UNIT as int) / (duration as int) <= UNIT) by (nonlinear_arith)
            requires
                0 <= duration - time <= duration,
                duration >= 1,
                UNIT == 1_000_000,
        {}
        vstd::arithmetic::div_mod::lemma_div_pos_is_pos(((duration - time) * UNIT) as int,
            duration as int);
    }
    let decay: i64 = (((duration - time) * (UNIT as u64)) / duration) as i64;
    proof {
        lemma_mul_div_trunc_bound(interp as int, decay as int, UNIT as int);
    }
    let v1: i64 = mul_div(interp, decay, UNIT);
    proof {
        assert(-4_000_000_000_000_000 <= v1 * amplitude <= 4_000_000_000_000_000)
            by (nonlinear_arith)
            requires
                -4_000_000 <= v1 <= 4_000_000,
                0 <= amplitude <= VALUE_LIMIT,
                VALUE_LIMIT == 1_000_000_000,
        {}
        crate::fixed::lemma_mul_div_trunc_le_product(v1 as int, amplitude as int, UNIT as int);
    }
    mul_div(v1, amplitude, UNIT)
}

impl Shake {
    pub open spec fn wf(self) -> bool {
        &&& 1 <= self.duration <= DURATION_LIMIT
        &&& 1 <= self.frequency <= 1000
        &&& 0 <= self.amplitude <= VALUE_LIMIT
        &&& self.time <= self.duration
        &&& forall|i: int|
            0 <= i < self.samples_x.len() ==> -UNIT <= #[trigger] self.samples_x[i] <= UNIT
        &&& forall|i: int|
            0 <= i < self.samples_y.len() ==> -UNIT <= #[trigger] self.samples_y[i] <= UNIT
    }

    /// A fresh, idle shake with the stock parameters (0.6 s, 60 samples
    /// per second, 10 px peak) and `0.6 * 60 = 36` random samples per
    /// track drawn from `[-UNIT, UNIT)`.
    pub fn new(rng: &mut rand::rngs::SmallRng) -> (s: Shake)
        ensures
            s.wf(),
            !s.is_shaking,
            s.duration == 600_000,
            s.frequency == 60,
            s.amplitude == 10_000_000,
            s.time == 0,
            s.samples_x@.len() == 36,
            s.samples_y@.len() == 36,
    {
        let mut samples_x: Vec<i64> = Vec::new();
        let mut samples_y: Vec<i64> = Vec::new();
        let mut i: usize = 0;
        while i < 36
            invariant
                i <= 36,
                samples_x@.len() == i,
                samples_y@.len() == i,
                forall|k: int| 0 <= k < i ==> -UNIT <= #[trigger] samples_x@[k] <= UNIT,
                forall|k: int| 0 <= k < i ==> -UNIT <= #[trigger] samples_y@[k] <= UNIT,
            decreases 36 - i,
        {
            samples_x.push(rand_range(rng, -UNIT, UNIT));
            samples_y.push(rand_range(rng, -UNIT, UNIT));
            i = i + 1;
        }
        Shake {
            is_shaking: false,
            duration: 600_000,
            frequency: 60,
            amplitude: 10_000_000,
            time: 0,
            samples_x,
            samples_y,
        }
    }

    /// Starts a shake; an already-running shake simply keeps running.
    pub fn on_trigger(&mut self)
        ensures
            *final(self) == (Shake { is_shaking: true, ..*old(self) }),
    {
        self.is_shaking = true;
    }

    /// Advances a running shake by the raw (never dilated) step duration
    /// and yields the camera offset. The step that passes the end of the
    /// shake recentres the camera and deactivates the generator; it stays
    /// inactive, yielding `(0, 0)`, until the next trigger.
    pub fn advance(&mut self, raw: u64) -> (offset: (i64, i64))
        requires
            old(self).wf(),
            raw <= MAX_DELTA_MICROS,
        ensures
            final(self).wf(),
            !old(self).is_shaking ==> *final(self) == *old(self) && offset == (0i64, 0i64),
            old(self).is_shaking && old(self).time + raw > old(self).duration ==> *final(self) == (
            Shake { is_shaking: false, time: 0, ..*old(self) }) && offset == (0i64, 0i64),
            old(self).is_shaking && old(self).time + raw <= old(self).duration ==> {
                &&& *final(self) == (Shake {
                    time: (old(self).time + raw) as u64,
                    ..*old(self)
                })
                &&& offset.0 == track_offset_spec(
                    old(self).duration as int,
                    old(self).frequency as int,
                    old(self).amplitude as int,
                    old(self).samples_x@,
                    old(self).time + raw,
                )
                &&& offset.1 == track_offset_spec(
                    old(self).duration as int,
                    old(self).frequency as int,
                    old(self).amplitude as int,
                    old(self).samples_y@,
                    old(self).time + raw,
                )
            },
    {
        if !self.is_shaking {
            return (0, 0);
        }
        let t: u64 = self.time + raw;
        if t > self.duration {
            self.is_shaking = false;
            self.time = 0;
            return (0, 0);
        }
        self.time = t;
        let ox: i64 = track_offset(self.duration, self.frequency, self.amplitude, &self.samples_x,
            t);
        let oy: i64 = track_offset(self.duration, self.frequency, self.amplitude, &self.samples_y,
            t);
        (ox, oy)
    }
}

// ---------------------------------------------------------------------------
// Draw batches

/// Tag for the circle batch.
#[derive(Clone, Copy, Debug, PartialEq, Eq, Structural)]
pub struct Circle;

/// Tag for a rectangle batch.
#[derive(Clone, Copy, Debug, PartialEq, Eq, Structural)]
pub struct Rectangle;

/// Tag for the quad batch.
#[derive(Clone, Copy, Debug, PartialEq, Eq, Structural)]
pub struct Quad;

/// Tag for the line batch.
#[derive(Clone, Copy, Debug, PartialEq, Eq, Structural)]
pub struct Line;

/// One shape a system asks the rendering collaborator to draw: a
/// placement (the owning entity's transform plus a local offset), the
/// shape parameters, and a color. For circles `size_a` is the radius; for
/// quads `size_a` and `size_b` are width and height; for lines `size_a`
/// is the length and `line_width` the stroke width.
#[derive(Clone, Copy, Debug, PartialEq, Eq, Structural)]
pub struct ShapeDraw {
    pub transform: Transform,
    pub off_x: i64,
    pub off_y: i64,
    pub off_z: i64,
    pub size_a: i64,
    pub size_b: i64,
    pub line_width: i64,
    pub filled: bool,
    pub color: Rgb,
}

/// A per-geometry batch of shapes for one frame, together with the GPU
/// buffer names the rendering collaborator allocated for it.
pub struct DrawBuffers<Geometry> {
    pub vao: u32,
    pub vbo: u32,
    pub ebo: u32,
    /// The shapes recorded since the batch was last cleared.
    pub shapes: Vec<ShapeDraw>,
    pub marker: core::marker::PhantomData<Geometry>,
}

pub type CircleGeometry = DrawBuffers<Circle>;

pub type QuadGeometry = DrawBuffers<Quad>;

pub type LineGeometry = DrawBuffers<Line>;

impl<Geometry> DrawBuffers<Geometry> {
    /// An empty batch over the given GPU buffer names.
    pub fn new(vao: u32, vbo: u32, ebo: u32) -> (b: DrawBuffers<Geometry>)
        ensures
            b.vao == vao,
            b.vbo == vbo,
            b.ebo == ebo,
            b.shapes@ == Seq::<ShapeDraw>::empty(),
    {
        DrawBuffers { vao, vbo, ebo, shapes: Vec::new(), marker: core::marker::PhantomData }
    }

    /// Records one shape.
    pub fn push(&mut self, s: ShapeDraw)
        ensures
            final(self).shapes@ == old(self).shapes@.push(s),
            final(self).vao == old(self).vao,
            final(self).vbo == old(self).vbo,
            final(self).ebo == old(self).ebo,
    {
        self.shapes.push(s);
    }

    /// Forgets the recorded shapes, keeping the GPU buffer names.
    pub fn clear(&mut self)
        ensures
            final(self).shapes@ == Seq::<ShapeDraw>::empty(),
            final(self).vao == old(self).vao,
            final(self).vbo == old(self).vbo,
            final(self).ebo == old(self).ebo,
    {
        self.shapes.clear();
    }
}


// ---------------------------------------------------------------------------
// Laws of the timer and of the slow-motion window

/// The sum of a sequence of deltas.
pub open spec fn sum_deltas(deltas: Seq<u64>) -> int
    decreases deltas.len(),
{
    if deltas.len() == 0 {
        0
    } else {
        deltas[0] + sum_deltas(deltas.drop_first())
    }
}

/// A timer ticked through a whole sequence of deltas, first delta first.
pub open spec fn tick_seq(t: Timer, deltas: Seq<u64>) -> Timer
    decreases deltas.len(),
{
    if deltas.len() == 0 {
        t
    } else {
        tick_seq(t.tick_spec(deltas[0]), deltas.drop_first())
    }
}

/// Accounting of a repeating timer: ticked in steps no larger than its
/// period, it banks every microsecond — the completed periods times the
/// period plus the leftover equal the total time fed in. In particular a
/// fresh repeating timer ticked with deltas summing over its period
/// finishes exactly `total / duration` times.
pub proof fn lemma_timer_repeating_count(t: Timer, deltas: Seq<u64>)
    requires
        t.repeating,
        t.duration >= 1,
        t.wf(),
        t.elapsed < t.duration,
        t.count + deltas.len() < u64::MAX,
        forall|k: int| 0 <= k < deltas.len() ==> #[trigger] deltas[k] <= t.duration,
    ensures
        ({
            let r = tick_seq(t, deltas);
            &&& r.elapsed < r.duration
            &&& r.duration == t.duration
            &&& r.count == t.count + (t.elapsed + sum_deltas(deltas)) / (t.duration as int) - ((
            t.elapsed as int) / (t.duration as int))
            &&& r.elapsed == (t.elapsed + sum_deltas(deltas)) % (t.duration as int)
        }),
    decreases deltas.len(),
{
    vstd::arithmetic::div_mod::lemma_small_mod(t.elapsed as nat, t.duration as nat);
    vstd::arithmetic::div_mod::lemma_basic_div(t.elapsed as int, t.duration as int);
    if deltas.len() == 0 {
    } else {
        let d = deltas[0];
        let t1 = t.tick_spec(d);
        assert(deltas[0] <= t.duration);
        let acc = t.elapsed + d;
        if acc >= t.duration {
            assert(t1.elapsed == acc - t.duration && t1.count == t.count + 1) by {
                assert(acc - t.duration < t.duration);
            }
            vstd::arithmetic::div_mod::lemma_basic_div(t1.elapsed as int, t.duration as int);
            assert((t.elapsed + d) / (t.duration as int) == 1 && (t.elapsed + d) % (
            t.duration as int) == acc - t.duration) by {
                vstd::arithmetic::div_mod::lemma_fundamental_div_mod_converse(acc as int,
                    t.duration as int, 1, acc - t.duration);
            }
        } else {
            assert(t1.elapsed == acc && t1.count == t.count);
            vstd::arithmetic::div_mod::lemma_small_mod(acc as nat, t.duration as nat);
            vstd::arithmetic::div_mod::lemma_basic_div(acc as int, t.duration as int);
        }
        lemma_timer_repeating_count(t1, deltas.drop_first());
        let r = tick_seq(t, deltas);
        assert(r == tick_seq(t1, deltas.drop_first()));
        vstd::arithmetic::div_mod::lemma_add_mod_noop(t1.elapsed as int,
            sum_deltas(deltas.drop_first()), t.duration as int);
        assert(t.elapsed + sum_deltas(deltas) == t1.elapsed + sum_deltas(deltas.drop_first()) + (
        if acc >= t.duration {
            (t.duration) as int
        } else {
            0
        }));
        if acc >= t.duration {
            vstd::arithmetic::div_mod::lemma_div_plus_one(
                (t1.elapsed + sum_deltas(deltas.drop_first())) as int, t.duration as int);
            vstd::arithmetic::div_mod::lemma_mod_multiples_vanish(1,
                (t1.elapsed + sum_deltas(deltas.drop_first())) as int, t.duration as int);
        }
    }
}

/// The scaled state after a sequence of raw steps, the first one carrying
/// the death that opens the window.
pub open spec fn advance_seq(t: Time, deltas: Seq<u64>, death_first: bool) -> Time
    decreases deltas.len(),
{
    if deltas.len() == 0 {
        t
    } else {
        advance_seq(t.advance_spec(deltas[0], death_first), deltas.drop_first(), false)
    }
}

/// The sum of the scaled durations over a sequence of raw steps.
pub open spec fn scaled_sum(t: Time, deltas: Seq<u64>, death_first: bool) -> int
    decreases deltas.len(),
{
    if deltas.len() == 0 {
        0
    } else {
        t.advance_spec(deltas[0], death_first).duration + scaled_sum(
            t.advance_spec(deltas[0], death_first),
            deltas.drop_first(),
            false,
        )
    }
}

/// Inside the window every scaled step is at most its raw step, and the
/// running total is tracked exactly.
proof fn lemma_window_scaled_le(t: Time, deltas: Seq<u64>, s0: u64)
    requires
        t.slow_down_timer == Some(s0),
        s0 + sum_deltas(deltas) <= SLOW_DOWN_DURATION_ON_DEATH,
        forall|k: int| 0 <= k < deltas.len() ==> 1 <= #[trigger] deltas[k],
        t.wf(),
    ensures
        scaled_sum(t, deltas, false) <= sum_deltas(deltas),
        advance_seq(t, deltas, false).slow_down_timer == Some((s0 + sum_deltas(deltas)) as u64),
    decreases deltas.len(),
{
    if deltas.len() == 0 {
    } else {
        let d = deltas[0];
        assert(deltas[0] >= 1);
        assert(sum_deltas(deltas.drop_first()) >= 0) by {
            lemma_sum_deltas_bounds(deltas.drop_first());
        }
        let total = s0 + d;
        let t1 = t.advance_spec(d, false);
        assert(total <= SLOW_DOWN_DURATION_ON_DEATH);
        let e = ease_in_out_cubic_spec(total * UNIT / (SLOW_DOWN_DURATION_ON_DEATH as int));
        assert(0 <= total * (UNIT as int) / (SLOW_DOWN_DURATION_ON_DEATH as int) <= UNIT) by {
            assert(total * (UNIT as int) <= (SLOW_DOWN_DURATION_ON_DEATH as int) * (UNIT as int))
                by (nonlinear_arith)
                requires
                    0 <= total <= SLOW_DOWN_DURATION_ON_DEATH,
                    UNIT == 1_000_000,
            {}
            vstd::arithmetic::div_mod::lemma_div_pos_is_pos(total * (UNIT as int),
                SLOW_DOWN_DURATION_ON_DEATH as int);
            vstd::arithmetic::div_mod::lemma_div_is_ordered(total * (UNIT as int),
                (SLOW_DOWN_DURATION_ON_DEATH as int) * (UNIT as int),
                SLOW_DOWN_DURATION_ON_DEATH as int);
            assert(((SLOW_DOWN_DURATION_ON_DEATH as int) * (UNIT as int)) / (
            SLOW_DOWN_DURATION_ON_DEATH as int) == UNIT) by {
                vstd::arithmetic::div_mod::lemma_div_multiples_vanish(UNIT as int,
                    SLOW_DOWN_DURATION_ON_DEATH as int);
            }
        }
        lemma_ease_bounds(Easing::EaseInOutCubic, total * UNIT / (
        SLOW_DOWN_DURATION_ON_DEATH as int));
        let slow = slow_amount_spec(total as int);
        assert(0 <= slow <= UNIT) by {
            assert((UNIT - e) * 15 / 100 <= UNIT - e && (UNIT - e) * 15 / 100 >= 0)
                by (nonlinear_arith)
                requires
                    0 <= e <= UNIT,
                    UNIT == 1_000_000,
            {}
        }
        assert(t1.duration <= d && t1.slow_down_timer == Some(total as u64)) by {
            assert(d * slow <= d * (UNIT as int)) by (nonlinear_arith)
                requires
                    0 <= slow <= UNIT,
                    d >= 0,
            {}
            vstd::arithmetic::div_mod::lemma_div_is_ordered(d * slow, d * (UNIT as int),
                UNIT as int);
            vstd::arithmetic::div_mod::lemma_div_by_multiple(d as int, UNIT as int);
            vstd::arithmetic::div_mod::lemma_div_pos_is_pos(d * slow, UNIT as int);
        }
        lemma_window_scaled_le(t1, deltas.drop_first(), total as u64);
    }
}

/// The sum of deltas is never negative.
pub proof fn lemma_sum_deltas_bounds(deltas: Seq<u64>)
    ensures
        sum_deltas(deltas) >= 0,
    decreases deltas.len(),
{
    if deltas.len() > 0 {
        lemma_sum_deltas_bounds(deltas.drop_first());
    }
}

/// Time dilation: after a death, over any sequence of positive raw steps
/// summing exactly to the slow-motion duration (the first one at most
/// half the window, as a single step spanning the whole window would
/// leave nothing to slow down), the scaled time is strictly less than
/// the raw time — the simulation always lags during slow motion — and
/// the very next step after the window closes it and passes through
/// unscaled.
pub proof fn lemma_time_dilation(t: Time, deltas: Seq<u64>)
    requires
        t.slow_down_timer is None,
        deltas.len() >= 1,
        forall|k: int| 0 <= k < deltas.len() ==> 1 <= #[trigger] deltas[k],
        sum_deltas(deltas) == SLOW_DOWN_DURATION_ON_DEATH,
        deltas[0] <= SLOW_DOWN_DURATION_ON_DEATH / 2,
    ensures
        scaled_sum(t, deltas, true) < sum_deltas(deltas),
        advance_seq(t, deltas, true).slow_down_timer == Some(SLOW_DOWN_DURATION_ON_DEATH),
        forall|d: u64|
            1 <= d ==> #[trigger] advance_seq(t, deltas, true).advance_spec(d, false).duration == d
                && advance_seq(t, deltas, true).advance_spec(d, false).slow_down_timer is None,
{
    let d = deltas[0];
    lemma_sum_deltas_bounds(deltas.drop_first());
    let total = d as int;
    let t1 = t.advance_spec(d, true);
    let tn = total * UNIT / (SLOW_DOWN_DURATION_ON_DEATH as int);
    assert(SLOW_DOWN_DURATION_ON_DEATH / 2 == 1_250_000) by {
        vstd::arithmetic::div_mod::lemma_fundamental_div_mod_converse(2_500_000int, 2int,
            1_250_000int, 0);
    }
    assert(0 <= tn <= UNIT / 2) by {
        assert(total * (UNIT as int) <= 1_250_000_000_000int) by (nonlinear_arith)
            requires
                0 <= total <= 1_250_000,
                UNIT == 1_000_000,
        {}
        vstd::arithmetic::div_mod::lemma_div_pos_is_pos(total * (UNIT as int),
            SLOW_DOWN_DURATION_ON_DEATH as int);
        vstd::arithmetic::div_mod::lemma_div_is_ordered(total * (UNIT as int),
            1_250_000_000_000int, SLOW_DOWN_DURATION_ON_DEATH as int);
        assert(1_250_000_000_000int / (SLOW_DOWN_DURATION_ON_DEATH as int) == 500_000) by {
            vstd::arithmetic::div_mod::lemma_fundamental_div_mod_converse(1_250_000_000_000int,
                2_500_000int, 500_000int, 0);
        }
    }
    let e = ease_in_out_cubic_spec(tn);
    lemma_ease_bounds(Easing::EaseInOutCubic, tn);
    assert(e <= UNIT / 2);
    let slow = slow_amount_spec(total);
    assert(slow < UNIT) by {
        assert((UNIT - e) * 15 / 100 < UNIT - e) by (nonlinear_arith)
            requires
                0 <= e <= UNIT / 2,
                UNIT == 1_000_000,
        {}
    }
    assert(t1.duration < d && t1.slow_down_timer == Some(d)) by {
        assert(d * slow < d * (UNIT as int)) by (nonlinear_arith)
            requires
                0 <= slow < UNIT,
                d >= 1,
        {}
        vstd::arithmetic::div_mod::lemma_div_by_multiple_is_strongly_ordered(d * slow, d * (
        UNIT as int), d as int, UNIT as int);
        vstd::arithmetic::div_mod::lemma_div_by_multiple(d as int, UNIT as int);
        vstd::arithmetic::div_mod::lemma_div_pos_is_pos(d * slow, UNIT as int);
    }
    lemma_window_scaled_le(t1, deltas.drop_first(), d);
    let r = advance_seq(t, deltas, true);
    assert(r.slow_down_timer == Some(SLOW_DOWN_DURATION_ON_DEATH));
    assert forall|dd: u64| 1 <= dd implies #[trigger] r.advance_spec(dd, false).duration == dd
        && r.advance_spec(dd, false).slow_down_timer is None by {
        assert(SLOW_DOWN_DURATION_ON_DEATH + dd > SLOW_DOWN_DURATION_ON_DEATH);
    }
}

} // verus!
