//! Fixed-point arithmetic helpers shared by every system: truncating
//! multiply-then-divide, clamping, and angle normalisation.

use vstd::prelude::*;
use crate::environment::{POS_LIMIT, TURN};

verus! {

/// Truncating (round-toward-zero) value of `a * b / d`, the way the
/// simulation scales a quantity by a fixed-point factor.
pub open spec fn mul_div_trunc(a: int, b: int, d: int) -> int
    recommends
        d > 0,
{
    if a * b >= 0 {
        (a * b) / d
    } else {
        -((-(a * b)) / d)
    }
}

/// Scales `a` by the fixed-point ratio `b / d`, truncating toward zero.
pub fn mul_div(a: i64, b: i64, d: i64) -> (r: i64)
    requires
        d > 0,
        i64::MIN <= mul_div_trunc(a as int, b as int, d as int) <= i64::MAX,
    ensures
        r == mul_div_trunc(a as int, b as int, d as int),
{
    proof {
        assert((a as int) * (b as int) <= 0x4000_0000_0000_0000_0000_0000_0000_0000int
            && (a as int) * (b as int) >= -0x4000_0000_0000_0000_0000_0000_0000_0000int)
            by (nonlinear_arith)
            requires
                i64::MIN <= a <= i64::MAX,
                i64::MIN <= b <= i64::MAX,
        {}
    }
    let p: i128 = (a as i128) * (b as i128);
    if p >= 0 {
        let q: u128 = (p as u128) / (d as u128);
        proof {
            vstd::arithmetic::div_mod::lemma_div_nonincreasing(p as int, d as int);
            vstd::arithmetic::div_mod::lemma_div_is_ordered_by_denominator(p as int, 1, d as int);
        }
        q as i64
    } else {
        let m: u128 = (-p) as u128;
        let q: u128 = m / (d as u128);
        proof {
            vstd::arithmetic::div_mod::lemma_div_nonincreasing(m as int, d as int);
            vstd::arithmetic::div_mod::lemma_div_is_ordered_by_denominator(m as int, 1, d as int);
        }
        let neg: i128 = -(q as i128);
        neg as i64
    }
}

/// Scaling by a fixed-point factor of at most one never grows the
/// magnitude: for `0 <= b <= d`, `|a * b / d| <= |a|`.
pub proof fn lemma_mul_div_trunc_bound(a: int, b: int, d: int)
    requires
        d > 0,
        0 <= b <= d,
    ensures
        a >= 0 ==> 0 <= mul_div_trunc(a, b, d) <= a,
        a < 0 ==> a <= mul_div_trunc(a, b, d) <= 0,
{
    if a >= 0 {
        assert(0 <= a * b <= a * d) by (nonlinear_arith)
            requires
                a >= 0,
                0 <= b <= d,
        {}
        vstd::arithmetic::div_mod::lemma_div_is_ordered(a * b, a * d, d);
        vstd::arithmetic::div_mod::lemma_div_by_multiple(a, d);
        vstd::arithmetic::div_mod::lemma_div_pos_is_pos(a * b, d);
    } else {
        assert(0 <= (-a) * b <= (-a) * d) by (nonlinear_arith)
            requires
                a < 0,
                0 <= b <= d,
        {}
        assert(-(a * b) == (-a) * b && -a * d == (-a) * d) by (nonlinear_arith) {}
        vstd::arithmetic::div_mod::lemma_div_is_ordered((-a) * b, (-a) * d, d);
        vstd::arithmetic::div_mod::lemma_div_by_multiple(-a, d);
        vstd::arithmetic::div_mod::lemma_div_pos_is_pos((-a) * b, d);
    }
}

/// A truncating scale is never larger in magnitude than the product it
/// divides.
pub proof fn lemma_mul_div_trunc_le_product(a: int, b: int, d: int)
    requires
        d > 0,
    ensures
        a * b >= 0 ==> 0 <= mul_div_trunc(a, b, d) <= a * b,
        a * b < 0 ==> a * b <= mul_div_trunc(a, b, d) <= 0,
{
    let p = a * b;
    if p >= 0 {
        vstd::arithmetic::div_mod::lemma_div_nonincreasing(p, d);
        vstd::arithmetic::div_mod::lemma_div_pos_is_pos(p, d);
    } else {
        vstd::arithmetic::div_mod::lemma_div_nonincreasing(-p, d);
        vstd::arithmetic::div_mod::lemma_div_pos_is_pos(-p, d);
    }
}

/// A cap on a truncating scale from a cap on the product: if
/// `|a| * b <= cap * d`, the scaled value stays within `[-cap, cap]`.
pub proof fn lemma_mul_div_trunc_upper(a: int, b: int, d: int, cap: int)
    requires
        d > 0,
        b >= 0,
        cap >= 0,
        a >= 0 ==> a * b <= cap * d,
        a < 0 ==> (-a) * b <= cap * d,
    ensures
        a >= 0 ==> 0 <= mul_div_trunc(a, b, d) <= cap,
        a < 0 ==> -cap <= mul_div_trunc(a, b, d) <= 0,
{
    if a >= 0 {
        assert(a * b >= 0) by (nonlinear_arith)
            requires
                a >= 0,
                b >= 0,
        {}
        vstd::arithmetic::div_mod::lemma_div_pos_is_pos(a * b, d);
        vstd::arithmetic::div_mod::lemma_div_is_ordered(a * b, cap * d, d);
        vstd::arithmetic::div_mod::lemma_div_by_multiple(cap, d);
    } else {
        assert((-a) * b >= 0 && -(a * b) == (-a) * b) by (nonlinear_arith)
            requires
                a < 0,
                b >= 0,
        {}
        vstd::arithmetic::div_mod::lemma_div_pos_is_pos((-a) * b, d);
        vstd::arithmetic::div_mod::lemma_div_is_ordered((-a) * b, cap * d, d);
        vstd::arithmetic::div_mod::lemma_div_by_multiple(cap, d);
    }
}

/// Round-toward-zero quotient.
pub open spec fn div_trunc(p: int, d: int) -> int
    recommends
        d > 0,
{
    if p >= 0 {
        p / d
    } else {
        -((-p) / d)
    }
}

/// A truncating quotient is never larger in magnitude than what it
/// divides.
pub proof fn lemma_div_trunc_le(p: int, d: int)
    requires
        d >= 1,
    ensures
        p >= 0 ==> 0 <= div_trunc(p, d) <= p,
        p < 0 ==> p <= div_trunc(p, d) <= 0,
{
    if p >= 0 {
        vstd::arithmetic::div_mod::lemma_div_nonincreasing(p, d);
        vstd::arithmetic::div_mod::lemma_div_pos_is_pos(p, d);
    } else {
        vstd::arithmetic::div_mod::lemma_div_nonincreasing(-p, d);
        vstd::arithmetic::div_mod::lemma_div_pos_is_pos(-p, d);
    }
}

/// Divides a wide signed product by a positive divisor, truncating
/// toward zero.
pub fn div_trunc_wide(p: i128, d: u64) -> (r: i64)
    requires
        d >= 1,
        -170_141_183_460_469_231_731_687_303_715_884_105_727i128 < p,
        i64::MIN <= div_trunc(p as int, d as int) <= i64::MAX,
    ensures
        r == div_trunc(p as int, d as int),
{
    if p >= 0 {
        let q: u128 = (p as u128) / (d as u128);
        proof {
            vstd::arithmetic::div_mod::lemma_div_nonincreasing(p as int, d as int);
            vstd::arithmetic::div_mod::lemma_div_is_ordered_by_denominator(p as int, 1, d as int);
        }
        q as i64
    } else {
        let m: u128 = (-p) as u128;
        let q: u128 = m / (d as u128);
        proof {
            vstd::arithmetic::div_mod::lemma_div_nonincreasing(m as int, d as int);
            vstd::arithmetic::div_mod::lemma_div_is_ordered_by_denominator(m as int, 1, d as int);
        }
        let neg: i128 = -(q as i128);
        neg as i64
    }
}

/// The value of `x` pulled into `[lo, hi]`.
pub open spec fn clamp_spec(x: int, lo: int, hi: int) -> int {
    if x < lo {
        lo
    } else if x > hi {
        hi
    } else {
        x
    }
}

/// Clamps `x` into `[lo, hi]`.
pub fn clamp(x: i64, lo: i64, hi: i64) -> (r: i64)
    requires
        lo <= hi,
    ensures
        r == clamp_spec(x as int, lo as int, hi as int),
{
    if x < lo {
        lo
    } else if x > hi {
        hi
    } else {
        x
    }
}

/// Clamps a coordinate into the range the simulation keeps every position
/// in, `[-POS_LIMIT, POS_LIMIT]`.
pub fn clamp_pos(x: i64) -> (r: i64)
    ensures
        r == clamp_spec(x as int, -POS_LIMIT as int, POS_LIMIT as int),
{
    clamp(x, -POS_LIMIT, POS_LIMIT)
}

/// A heading brought back into `[0, TURN)`; Euclidean remainder, so a
/// negative angle wraps upward.
pub open spec fn norm_angle_spec(a: int) -> int {
    a % (TURN as int)
}

/// Normalises an angle in micro-turns into `[0, TURN)`.
pub fn norm_angle(a: i64) -> (r: i64)
    ensures
        r == norm_angle_spec(a as int),
        0 <= r < TURN,
{
    if a >= 0 {
        let r: i64 = ((a as u64) % (TURN as u64)) as i64;
        r
    } else {
        let m: u64 = ((-(a as i128)) as u128) as u64;
        let rem: u64 = m % (TURN as u64);
        let r: i64 = if rem == 0 {
            0
        } else {
            TURN - (rem as i64)
        };
        assert(r as int == (a as int) % (TURN as int)) by (nonlinear_arith)
            requires
                a < 0,
                m == -(a as int),
                rem == m % (TURN as u64),
                TURN == 1_000_000,
                r == if rem == 0 { 0int } else { TURN - rem },
        {}
        r
    }
}

} // verus!
