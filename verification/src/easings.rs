//! Easing curves: normalised `[0, UNIT] -> [0, UNIT]` shaping functions that
//! control the pacing of an interpolation.

use vstd::prelude::*;
use crate::environment::UNIT;

verus! {

/// The closed set of easing curves the simulation uses.
#[derive(Clone, Copy, Debug, PartialEq, Eq, Structural)]
pub enum Easing {
    /// The identity curve.
    Linear,
    /// Cubic ease-in-out: `4t^3` below the midpoint, its point reflection
    /// above it.
    EaseInOutCubic,
}

/// Mathematical value of the cubic ease-in-out curve at `t` on the `UNIT`
/// scale: `4 t^3` for `t` below one half, `1 - (2 (1 - t))^3 / 2` above.
pub open spec fn ease_in_out_cubic_spec(t: int) -> int {
    if t < (UNIT / 2) {
        4 * t * t * t / ((UNIT * UNIT) as int)
    } else {
        let c = 2 * (UNIT - t);
        UNIT - c * c * c / ((2 * UNIT * UNIT) as int)
    }
}

/// Value of `e` at `t` on the `UNIT` scale.
pub open spec fn ease_spec(e: Easing, t: int) -> int {
    match e {
        Easing::Linear => t,
        Easing::EaseInOutCubic => ease_in_out_cubic_spec(t),
    }
}

/// An easing curve stays on the normalised scale: for `t` in `[0, UNIT]`
/// its value is in `[0, UNIT]`, and below the midpoint it stays below the
/// midpoint.
pub proof fn lemma_ease_bounds(e: Easing, t: int)
    requires
        0 <= t <= UNIT,
    ensures
        0 <= ease_spec(e, t) <= UNIT,
        t <= UNIT / 2 ==> ease_spec(e, t) <= UNIT / 2,
{
    match e {
        Easing::Linear => {}
        Easing::EaseInOutCubic => {
            if t < UNIT / 2 {
                assert(0 <= 4 * t * t * t <= 4 * (UNIT / 2) * (UNIT / 2) * (UNIT / 2))
                    by (nonlinear_arith)
                    requires
                        0 <= t <= UNIT / 2,
                        UNIT == 1_000_000,
                {}
                assert(4 * t * t * t / ((UNIT * UNIT) as int) <= UNIT / 2) by (nonlinear_arith)
                    requires
                        0 <= 4 * t * t * t <= 4 * (UNIT / 2) * (UNIT / 2) * (UNIT / 2),
                        UNIT == 1_000_000,
                {}
                assert(4 * t * t * t / ((UNIT * UNIT) as int) >= 0) by (nonlinear_arith)
                    requires
                        0 <= 4 * t * t * t,
                        UNIT == 1_000_000,
                {}
            } else {
                let c = 2 * (UNIT - t);
                assert(0 <= c * c * c <= UNIT * UNIT * UNIT) by (nonlinear_arith)
                    requires
                        0 <= c <= UNIT,
                        UNIT == 1_000_000,
                {}
                assert(0 <= c * c * c / ((2 * UNIT * UNIT) as int) <= UNIT / 2)
                    by (nonlinear_arith)
                    requires
                        0 <= c * c * c <= UNIT * UNIT * UNIT,
                        UNIT == 1_000_000,
                {}
                if t == UNIT / 2 {
                    assert(c * c * c / ((2 * UNIT * UNIT) as int) == UNIT / 2)
                        by (nonlinear_arith)
                        requires
                            c == UNIT,
                            UNIT == 1_000_000,
                    {}
                }
            }
        }
    }
}

/// Every easing curve is exact at the endpoints: zero at zero, one at
/// one.
pub proof fn lemma_ease_endpoints(e: Easing)
    ensures
        ease_spec(e, 0) == 0,
        ease_spec(e, UNIT as int) == UNIT,
{
    match e {
        Easing::Linear => {}
        Easing::EaseInOutCubic => {
            assert(4 * 0int * 0 * 0 == 0) by (nonlinear_arith) {}
            vstd::arithmetic::div_mod::lemma_basic_div(0, (UNIT * UNIT) as int);
            assert(ease_in_out_cubic_spec(0) == 0);
            let c = 2 * (UNIT - (UNIT as int));
            assert(c == 0);
            assert(c * c * c == 0) by (nonlinear_arith)
                requires
                    c == 0,
            {}
            vstd::arithmetic::div_mod::lemma_basic_div(0, (2 * UNIT * UNIT) as int);
            assert(ease_in_out_cubic_spec(UNIT as int) == UNIT);
        }
    }
}

/// Cubic ease-in-out on the `UNIT` scale.
pub fn ease_in_out_cubic(t: i64) -> (r: i64)
    requires
        0 <= t <= UNIT,
    ensures
        r == ease_in_out_cubic_spec(t as int),
        0 <= r <= UNIT,
{
    proof {
        lemma_ease_bounds(Easing::EaseInOutCubic, t as int);
    }
    if t < UNIT / 2 {
        proof {
            assert((t as u64) * (t as u64) <= 250_000_000_000u64
                && (t as u64) * (t as u64) * (t as u64) <= 125_000_000_000_000_000u64)
                by (nonlinear_arith)
                requires
                    0 <= t < UNIT / 2,
                    UNIT == 1_000_000,
            {}
        }
        let tt: u64 = (t as u64) * (t as u64);
        let ttt: u64 = tt * (t as u64);
        proof {
            assert(4 * (ttt as int) == 4 * (t as int) * (t as int) * (t as int))
                by (nonlinear_arith)
                requires
                    tt == (t as int) * (t as int),
                    ttt == (tt as int) * (t as int),
            {}
        }
        let r: u64 = 4 * ttt / ((UNIT as u64) * (UNIT as u64));
        r as i64
    } else {
        proof {
            let cs = 2 * ((UNIT - t) as u64);
            assert(cs * cs <= (UNIT * UNIT) as u64 && cs * cs * cs <= (UNIT * UNIT * UNIT) as u64)
                by (nonlinear_arith)
                requires
                    0 <= cs <= UNIT,
                    UNIT == 1_000_000,
            {}
        }
        let c: u64 = 2 * ((UNIT - t) as u64);
        let ccc: u64 = c * c * c;
        proof {
            assert(ccc as int == (c as int) * (c as int) * (c as int)) by (nonlinear_arith)
                requires
                    ccc == (c as int) * (c as int) * (c as int),
            {}
        }
        let r: i64 = UNIT - (ccc / (2 * (UNIT as u64) * (UNIT as u64))) as i64;
        r
    }
}

/// The identity easing curve.
pub fn linear(t: i64) -> (r: i64)
    requires
        0 <= t <= UNIT,
    ensures
        r == ease_spec(Easing::Linear, t as int),
{
    t
}

/// Evaluates the easing curve `e` at `t` on the `UNIT` scale.
pub fn ease(e: Easing, t: i64) -> (r: i64)
    requires
        0 <= t <= UNIT,
    ensures
        r == ease_spec(e, t as int),
        0 <= r <= UNIT,
{
    proof {
        lemma_ease_bounds(e, t as int);
    }
    match e {
        Easing::Linear => linear(t),
        Easing::EaseInOutCubic => ease_in_out_cubic(t),
    }
}

} // verus!
