//! The plain data records attached to entities: placement, role tags, the
//! interpolation (tween) primitive and the boost resource.

use vstd::prelude::*;
use crate::color::Rgb;
use crate::easings::{ease, ease_spec, Easing};
use crate::environment::{
    DURATION_LIMIT, POS_LIMIT, SPEED_LIMIT, TURN, TURN_RATE_LIMIT, UNIT, VALUE_LIMIT,
};
use crate::resources::Timer;

verus! {

// ---------------------------------------------------------------------------
// Transform

/// Placement of an entity: a 2D position plus a z layer in micro-pixels, a
/// heading, and a secondary centre rotation (used by pickups that spin
/// independently of their heading), both in micro-turns.
#[derive(Clone, Copy, Debug, PartialEq, Eq, Structural)]
pub struct Transform {
    /// Heading, micro-turns in `[0, TURN)`.
    pub rotation: i64,
    /// Horizontal position, micro-pixels.
    pub x: i64,
    /// Vertical position, micro-pixels.
    pub y: i64,
    /// Layer, micro-units.
    pub z: i64,
    /// Centre spin, micro-turns in `[0, TURN)`.
    pub center_rotation: i64,
}

impl Transform {
    pub open spec fn wf(self) -> bool {
        &&& 0 <= self.rotation < TURN
        &&& 0 <= self.center_rotation < TURN
        &&& -POS_LIMIT <= self.x <= POS_LIMIT
        &&& -POS_LIMIT <= self.y <= POS_LIMIT
        &&& -POS_LIMIT <= self.z <= POS_LIMIT
    }
}

impl Default for Transform {
    /// The origin, unrotated.
    fn default() -> (t: Transform)
        ensures
            t == (Transform { rotation: 0, x: 0, y: 0, z: 0, center_rotation: 0 }),
            t.wf(),
    {
        Transform { rotation: 0, x: 0, y: 0, z: 0, center_rotation: 0 }
    }
}

// ---------------------------------------------------------------------------
// Role components

/// The player ship.
#[derive(Clone, Copy, Debug, PartialEq, Eq, Structural)]
pub struct Player {
    /// Forward speed, micro-pixels per second.
    pub movement_speed: i64,
    /// Turn rate, micro-turns per second.
    pub rotation_speed: i64,
}

impl Player {
    pub open spec fn wf(self) -> bool {
        &&& 0 <= self.movement_speed <= SPEED_LIMIT
        &&& 0 <= self.rotation_speed <= TURN_RATE_LIMIT
    }
}

/// A projectile in flight.
#[derive(Clone, Copy, Debug, PartialEq, Eq, Structural)]
pub struct Projectile {
    /// Forward speed, micro-pixels per second.
    pub movement_speed: i64,
}

impl Projectile {
    pub open spec fn wf(self) -> bool {
        0 <= self.movement_speed <= SPEED_LIMIT
    }
}

/// The short two-frame animation a projectile leaves when it crosses a
/// screen edge.
#[derive(Clone, Copy, Debug, PartialEq, Eq, Structural)]
pub struct DeadProjectile {
    /// One-shot lifetime; the entity despawns when it finishes.
    pub timer: Timer,
}

/// One radial burst line of an explosion.
#[derive(Clone, Copy, Debug, PartialEq, Eq, Structural)]
pub struct ExplosionEffect {
    pub color: Rgb,
}

/// Tag: the periodic full-width pulse effect around the player.
#[derive(Clone, Copy, Debug, PartialEq, Eq, Structural)]
pub struct TickEffect;

/// Tag: one circle of the engine trail.
#[derive(Clone, Copy, Debug, PartialEq, Eq, Structural)]
pub struct TrailEffect;

// ---------------------------------------------------------------------------
// Interpolation

/// A stateful tween: advances `time` toward `duration` and blends each
/// `(begin, end)` pair along an easing curve.
#[derive(Clone, Debug, PartialEq, Eq)]
pub struct Interpolation {
    /// Time into the tween, microseconds.
    pub time: u64,
    /// Length of the tween, microseconds; zero means instantly finished.
    pub duration: u64,
    /// The value pairs blended from `begin` to `end`.
    pub begin_end: Vec<(i64, i64)>,
    /// Whether `time` restarts at zero on the step that finishes.
    pub repeating: bool,
}

impl Interpolation {
    pub open spec fn wf(self) -> bool {
        &&& self.duration <= DURATION_LIMIT
        &&& forall|i: int|
            0 <= i < self.begin_end.len() ==> {
                &&& 0 <= (#[trigger] self.begin_end[i]).0 <= VALUE_LIMIT
                &&& 0 <= self.begin_end[i].1 <= VALUE_LIMIT
            }
    }

    /// `time` after adding `delta`, saturating at the top of `u64`.
    pub open spec fn time_after(self, delta: u64) -> u64 {
        if self.time + delta > u64::MAX {
            u64::MAX
        } else {
            (self.time + delta) as u64
        }
    }

    /// Whether the call that adds `delta` reports the tween finished: true
    /// exactly when the advanced time reaches the duration.
    pub open spec fn finished_after(self, delta: u64) -> bool {
        self.time_after(delta) >= self.duration
    }

    /// `time` as stored after the call: a repeating tween restarts at zero
    /// on the step it finishes.
    pub open spec fn time_next(self, delta: u64) -> u64 {
        if self.finished_after(delta) && self.repeating {
            0
        } else {
            self.time_after(delta)
        }
    }

    /// The normalised tween position on the `UNIT` scale for a stored
    /// `time`: clamped into `[0, UNIT]`, and a zero-length tween sits at
    /// the end.
    pub open spec fn t_norm_spec(time: u64, duration: u64) -> int {
        if duration == 0 {
            UNIT as int
        } else {
            let tcl = if time > duration {
                duration
            } else {
                time
            };
            tcl * UNIT / (duration as int)
        }
    }

    /// The blended value of one `(begin, end)` pair at eased position `e`.
    pub open spec fn blend_spec(e: int, begin: int, end: int) -> int {
        ((UNIT - e) * begin + e * end) / (UNIT as int)
    }

    /// The value the call returns for pair `i`: blended at the easing of
    /// the advanced (clamped) time — before any repeat reset, so the
    /// finishing step returns the `end` endpoints for every tween.
    pub open spec fn value_spec(self, delta: u64, easing: Easing, i: int) -> int {
        let e = ease_spec(easing, Self::t_norm_spec(self.time_after(delta), self.duration));
        Self::blend_spec(e, self.begin_end[i].0 as int, self.begin_end[i].1 as int)
    }

    /// A fresh tween at time zero.
    pub fn new(begin_end: Vec<(i64, i64)>, duration: u64, repeating: bool) -> (r: Interpolation)
        requires
            duration <= DURATION_LIMIT,
            forall|i: int|
                0 <= i < begin_end.len() ==> {
                    &&& 0 <= (#[trigger] begin_end[i]).0 <= VALUE_LIMIT
                    &&& 0 <= begin_end[i].1 <= VALUE_LIMIT
                },
        ensures
            r.time == 0,
            r.duration == duration,
            r.begin_end == begin_end,
            r.repeating == repeating,
            r.wf(),
    {
        Interpolation { time: 0, duration, begin_end, repeating }
    }

    /// Advances the tween by `delta` and returns the blended value of
    /// every pair together with the finished flag. The values are taken
    /// at the advanced time, so the finishing step returns the `end`
    /// endpoints; a repeating tween then restarts at zero for the next
    /// call, while a one-shot tween stays past its end and keeps
    /// returning the `end` values.
    pub fn eval(&mut self, delta: u64, easing: Easing) -> (out: (Vec<i64>, bool))
        requires
            old(self).wf(),
        ensures
            final(self).time == old(self).time_next(delta),
            final(self).duration == old(self).duration,
            final(self).begin_end == old(self).begin_end,
            final(self).repeating == old(self).repeating,
            final(self).wf(),
            out.1 == old(self).finished_after(delta),
            out.0@.len() == old(self).begin_end@.len(),
            forall|i: int|
                0 <= i < out.0@.len() ==> #[trigger] out.0@[i] == old(self).value_spec(
                    delta,
                    easing,
                    i,
                ),
            forall|i: int| 0 <= i < out.0@.len() ==> 0 <= #[trigger] out.0@[i] <= VALUE_LIMIT,
    {
        let t_after: u64 = if delta > u64::MAX - self.time {
            u64::MAX
        } else {
            self.time + delta
        };
        let finished = t_after >= self.duration;
        // The values are blended at the advanced time; the repeat reset
        // below only affects the next call.
        let tn: i64 = if self.duration == 0 {
            UNIT
        } else {
            let tcl: u64 = if t_after > self.duration {
                self.duration
            } else {
                t_after
            };
            proof {
                assert(tcl * (UNIT as int) / (self.duration as int) <= UNIT) by (nonlinear_arith)
                    requires
                        0 <= tcl <= self.duration,
                        self.duration >= 1,
                        UNIT == 1_000_000,
                {}
                vstd::arithmetic::div_mod::lemma_div_pos_is_pos((tcl * UNIT) as int,
                    self.duration as int);
            }
            ((tcl * (UNIT as u64)) / self.duration) as i64
        };
        let e: i64 = ease(easing, tn);
        self.time = if finished && self.repeating {
            0
        } else {
            t_after
        };
        let ghost interp_after = *self;
        let ghost t_eval = t_after;
        let mut values: Vec<i64> = Vec::new();
        let mut idx: usize = 0;
        while idx < self.begin_end.len()
            invariant
                *self == interp_after,
                self.wf(),
                0 <= e <= UNIT,
                e == ease_spec(easing, Self::t_norm_spec(t_eval, self.duration)),
                t_eval == old(self).time_after(delta),
                idx <= self.begin_end.len(),
                values@.len() == idx,
                forall|i: int|
                    0 <= i < idx ==> #[trigger] values@[i] == Self::blend_spec(
                        e as int,
                        self.begin_end[i].0 as int,
                        self.begin_end[i].1 as int,
                    ),
                forall|i: int| 0 <= i < idx ==> 0 <= #[trigger] values@[i] <= VALUE_LIMIT,
            decreases self.begin_end.len() - idx,
        {
            let (begin, end) = self.begin_end[idx];
            proof {
                assert(0 <= begin <= VALUE_LIMIT && 0 <= end <= VALUE_LIMIT);
                assert((UNIT - e) * begin + e * end <= 1_000_000_000_000_000
                    && (UNIT - e) * begin >= 0 && e * end >= 0) by (nonlinear_arith)
                    requires
                        0 <= e <= UNIT,
                        0 <= begin <= VALUE_LIMIT,
                        0 <= end <= VALUE_LIMIT,
                        UNIT == 1_000_000,
                        VALUE_LIMIT == 1_000_000_000,
                {}
            }
            let num: u64 = ((UNIT - e) as u64) * (begin as u64) + (e as u64) * (end as u64);
            proof {
                vstd::arithmetic::div_mod::lemma_div_is_ordered(num as int,
                    1_000_000_000_000_000int, UNIT as int);
            }
            let v: i64 = (num / (UNIT as u64)) as i64;
            values.push(v);
            idx = idx + 1;
        }
        (values, finished)
    }
}

// ---------------------------------------------------------------------------
// Boost

/// The player's boost reservoir, micro-units. Draining below zero with no
/// cooldown running starts one; boosting is allowed only with no cooldown
/// and a positive reserve.
#[derive(Clone, Copy, Debug, PartialEq, Eq, Structural)]
pub struct Boost {
    /// Capacity, micro-units.
    pub max_boost: i64,
    /// Current reserve, micro-units; may cross below zero.
    pub boost: i64,
    /// Time left of a running cooldown, microseconds.
    pub cooldown: Option<u64>,
    /// Regeneration rate, micro-units per second.
    pub inc_amount: i64,
    /// Drain rate while boosting, micro-units per second.
    pub dec_amount: i64,
    /// The cooldown an empty reserve starts, microseconds.
    pub cooldown_sec: Option<u64>,
}

impl Boost {
    pub open spec fn wf(self) -> bool {
        &&& 0 <= self.max_boost <= VALUE_LIMIT
        &&& -VALUE_LIMIT <= self.boost <= self.max_boost
        &&& 0 <= self.inc_amount <= SPEED_LIMIT
        &&& 0 <= self.dec_amount <= SPEED_LIMIT
        &&& match self.cooldown {
            Some(c) => c <= DURATION_LIMIT,
            None => true,
        }
        &&& match self.cooldown_sec {
            Some(c) => c <= DURATION_LIMIT,
            None => true,
        }
    }

    /// Whether the reserve has crossed below zero.
    pub fn is_empty(&self) -> (r: bool)
        ensures
            r == (self.boost < 0),
    {
        self.boost < 0
    }

    /// Whether no cooldown is running.
    pub fn no_cooldown(&self) -> (r: bool)
        ensures
            r == (self.cooldown matches None),
    {
        self.cooldown.is_none()
    }

    /// Boosting is allowed: no cooldown and a positive reserve.
    pub fn can_boost(&self) -> (r: bool)
        ensures
            r == ((self.cooldown matches None) && self.boost > 0),
    {
        self.cooldown.is_none() && self.boost > 0
    }
}

impl Default for Boost {
    /// The stock reservoir: 100 units, regenerating 10 and draining 50 per
    /// second, with a 2 s cooldown once emptied.
    fn default() -> (b: Boost)
        ensures
            b == (Boost {
                max_boost: 100_000_000,
                boost: 100_000_000,
                cooldown: None,
                inc_amount: 10_000_000,
                dec_amount: 50_000_000,
                cooldown_sec: Some(2_000_000),
            }),
            b.wf(),
    {
        Boost {
            max_boost: 100_000_000,
            boost: 100_000_000,
            cooldown: None,
            inc_amount: 10_000_000,
            dec_amount: 50_000_000,
            cooldown_sec: Some(2_000_000),
        }
    }
}

// ---------------------------------------------------------------------------
// Pickups

/// An ammunition pickup homing toward the player.
#[derive(Clone, Copy, Debug, PartialEq, Eq, Structural)]
pub struct AmmoPickup {
    /// Forward speed, micro-pixels per second.
    pub movement_speed: i64,
    /// Bound on the turn toward the player, micro-turns per second.
    pub rotation_speed: i64,
    /// Spin of the sprite around its centre, micro-turns per second.
    pub center_rotation_speed: i64,
    /// The capture animation clock; ticking once marks the pickup caught.
    pub timer: Timer,
}

impl AmmoPickup {
    pub open spec fn wf(self) -> bool {
        &&& 0 <= self.movement_speed <= SPEED_LIMIT
        &&& 0 <= self.rotation_speed <= TURN_RATE_LIMIT
        &&& -TURN_RATE_LIMIT <= self.center_rotation_speed <= TURN_RATE_LIMIT
        &&& self.timer.wf()
    }
}

/// A boost pickup drifting horizontally across the screen.
#[derive(Clone, Copy, Debug, PartialEq, Eq, Structural)]
pub struct BoostPickup {
    /// Drift speed, micro-pixels per second.
    pub movement_speed: i64,
    /// Horizontal direction, `1` (rightward) or `-1` (leftward).
    pub movement_direction: i64,
    /// Spin of the sprite around its centre, micro-turns per second.
    pub center_rotation_speed: i64,
    /// The blink clock of the capture animation.
    pub timer: Timer,
    /// Whether the sprite is shown this frame (blinking hides it).
    pub visible: bool,
}

impl BoostPickup {
    pub open spec fn wf(self) -> bool {
        &&& 0 <= self.movement_speed <= SPEED_LIMIT
        &&& (self.movement_direction == 1 || self.movement_direction == -1)
        &&& -TURN_RATE_LIMIT <= self.center_rotation_speed <= TURN_RATE_LIMIT
        &&& self.timer.wf()
    }
}


// ---------------------------------------------------------------------------
// Law of the tween

/// A tween evaluated through a whole sequence of deltas, first first.
pub open spec fn eval_state(i: Interpolation, deltas: Seq<u64>) -> Interpolation
    decreases deltas.len(),
{
    if deltas.len() == 0 {
        i
    } else {
        eval_state(
            Interpolation { time: i.time_next(deltas[0]), ..i },
            deltas.drop_first(),
        )
    }
}

/// Summing a sequence one element longer adds that element.
proof fn lemma_sum_push(deltas: Seq<u64>, x: u64)
    ensures
        crate::resources::sum_deltas(deltas.push(x)) == crate::resources::sum_deltas(deltas) + x,
    decreases deltas.len(),
{
    assert(crate::resources::sum_deltas(deltas.push(x)) == deltas.push(x)[0]
        + crate::resources::sum_deltas(deltas.push(x).drop_first()));
    if deltas.len() == 0 {
        assert(deltas.push(x)[0] == x);
        assert(deltas.push(x).drop_first() =~= Seq::<u64>::empty());
        assert(crate::resources::sum_deltas(Seq::<u64>::empty()) == 0);
    } else {
        assert(deltas.push(x)[0] == deltas[0]);
        assert(deltas.push(x).drop_first() =~= deltas.drop_first().push(x));
        lemma_sum_push(deltas.drop_first(), x);
        assert(crate::resources::sum_deltas(deltas) == deltas[0] + crate::resources::sum_deltas(
            deltas.drop_first(),
        ));
    }
}

/// While the fed time stays short of the duration (or the tween is
/// one-shot), the tween's clock is exactly the time fed in.
proof fn lemma_eval_state_time(i: Interpolation, deltas: Seq<u64>)
    requires
        i.time + crate::resources::sum_deltas(deltas) <= u64::MAX,
        !i.repeating || i.time + crate::resources::sum_deltas(deltas) < i.duration,
        forall|k: int| 0 <= k < deltas.len() ==> 1 <= #[trigger] deltas[k],
    ensures
        ({
            let r = eval_state(i, deltas);
            &&& r.time == i.time + crate::resources::sum_deltas(deltas)
            &&& r.duration == i.duration
            &&& r.begin_end == i.begin_end
            &&& r.repeating == i.repeating
        }),
    decreases deltas.len(),
{
    if deltas.len() == 0 {
    } else {
        let ghost rest = deltas.drop_first();
        assert(crate::resources::sum_deltas(rest) >= 0) by {
            crate::resources::lemma_sum_deltas_bounds(rest);
        }
        assert(i.time_next(deltas[0]) == i.time_after(deltas[0]));
        lemma_eval_state_time(
            Interpolation { time: i.time_next(deltas[0]), ..i },
            rest,
        );
    }
}

/// With every delta at least one, a proper prefix leaves room for the
/// elements after it.
proof fn lemma_sum_take(deltas: Seq<u64>, m: int)
    requires
        0 <= m <= deltas.len(),
        forall|k: int| 0 <= k < deltas.len() ==> 1 <= #[trigger] deltas[k],
    ensures
        crate::resources::sum_deltas(deltas.take(m)) + (deltas.len() - m)
            <= crate::resources::sum_deltas(deltas),
        crate::resources::sum_deltas(deltas.take(m)) >= 0,
    decreases deltas.len() - m,
{
    crate::resources::lemma_sum_deltas_bounds(deltas.take(m));
    if m == deltas.len() {
        assert(deltas.take(m) =~= deltas);
    } else {
        assert(deltas.take(m + 1) =~= deltas.take(m).push(deltas[m]));
        lemma_sum_push(deltas.take(m), deltas[m]);
        lemma_sum_take(deltas, m + 1);
    }
}

/// Completion of a tween, repeating or not: fed deltas that sum exactly
/// to its duration, every evaluation before the last reports it
/// unfinished, the last reports it finished, and on that step every
/// pair's returned value is exactly its `end` endpoint.
pub proof fn lemma_interpolation_completes(i0: Interpolation, deltas: Seq<u64>, easing: Easing)
    requires
        i0.wf(),
        i0.time == 0,
        i0.duration >= 1,
        deltas.len() >= 1,
        forall|k: int| 0 <= k < deltas.len() ==> 1 <= #[trigger] deltas[k],
        crate::resources::sum_deltas(deltas) == i0.duration,
    ensures
        forall|k: int|
            0 <= k < deltas.len() - 1 ==> !(#[trigger] eval_state(
                i0,
                deltas.take(k),
            ).finished_after(deltas[k])),
        eval_state(i0, deltas.take(deltas.len() - 1)).finished_after(deltas.last()),
        forall|p: int|
            0 <= p < i0.begin_end.len() ==> #[trigger] eval_state(
                i0,
                deltas.take(deltas.len() - 1),
            ).value_spec(deltas.last(), easing, p) == i0.begin_end[p].1,
{
    assert forall|k: int| 0 <= k < deltas.len() - 1 implies !(#[trigger] eval_state(
        i0,
        deltas.take(k),
    ).finished_after(deltas[k])) by {
        lemma_sum_take(deltas, k);
        assert(forall|j: int|
            0 <= j < deltas.take(k).len() ==> 1 <= #[trigger] deltas.take(k)[j]);
        lemma_eval_state_time(i0, deltas.take(k));
        let st = eval_state(i0, deltas.take(k));
        assert(st.time + deltas[k] == crate::resources::sum_deltas(deltas.take(k)) + deltas[k]);
        lemma_sum_take(deltas, k + 1);
        assert(deltas.take(k + 1) =~= deltas.take(k).push(deltas[k]));
        lemma_sum_push(deltas.take(k), deltas[k]);
        assert(st.time + deltas[k] < i0.duration);
    }
    let m = deltas.len() - 1;
    lemma_sum_take(deltas, m);
    assert(forall|j: int| 0 <= j < deltas.take(m).len() ==> 1 <= #[trigger] deltas.take(m)[j]);
    lemma_eval_state_time(i0, deltas.take(m));
    let st = eval_state(i0, deltas.take(m));
    assert(deltas.take(m + 1) =~= deltas.take(m).push(deltas[m]));
    assert(deltas.take(m + 1) =~= deltas);
    lemma_sum_push(deltas.take(m), deltas[m]);
    assert(st.time + deltas.last() == i0.duration);
    assert(st.finished_after(deltas.last()));
    let teval = st.time_after(deltas.last());
    assert(teval == i0.duration);
    assert(Interpolation::t_norm_spec(teval, st.duration) == UNIT) by {
        vstd::arithmetic::div_mod::lemma_div_by_multiple(UNIT as int, i0.duration as int);
        assert((i0.duration as int) * (UNIT as int) == (UNIT as int) * (i0.duration as int))
            by (nonlinear_arith) {}
    }
    assert(ease_spec(easing, UNIT as int) == UNIT) by {
        crate::easings::lemma_ease_endpoints(easing);
    }
    assert forall|p: int| 0 <= p < i0.begin_end.len() implies #[trigger] eval_state(
        i0,
        deltas.take(deltas.len() - 1),
    ).value_spec(deltas.last(), easing, p) == i0.begin_end[p].1 by {
        let b = st.begin_end[p].0 as int;
        let en = st.begin_end[p].1 as int;
        assert(st.begin_end == i0.begin_end);
        assert(0 <= i0.begin_end[p].1 <= VALUE_LIMIT);
        assert(Interpolation::blend_spec(UNIT as int, b, en) == en) by {
            assert((UNIT - (UNIT as int)) * b == 0) by (nonlinear_arith) {}
            assert((UNIT as int) * en == en * (UNIT as int)) by (nonlinear_arith) {}
            vstd::arithmetic::div_mod::lemma_div_by_multiple(en, UNIT as int);
        }
    }
}

} // verus!
