//! Fixed-point direction math on micro-turn angles: a smooth rational
//! approximation of the sine with exact zeros and extrema, its inverse by
//! binary search, and an integer square root for distances.

use vstd::prelude::*;
use crate::environment::{HALF_TURN, QUARTER_TURN, TURN, UNIT};
use crate::fixed::norm_angle;

verus! {

/// The crate's sine on the first half-turn, `x` in `[0, HALF_TURN]`, on
/// the `UNIT` scale: the rational curve `16 p / (5 H^2 - 4 p)` with
/// `p = x (H - x)`, which is exactly 0 at the ends and exactly 1 at the
/// quarter turn.
pub open spec fn sin_half_spec(x: int) -> int {
    let p = x * (HALF_TURN - x);
    16 * p * UNIT / (5 * (HALF_TURN as int) * (HALF_TURN as int) - 4 * p)
}

/// The crate's sine over a whole turn, `a` in `[0, TURN)`: the second
/// half-turn mirrors the first downward.
pub open spec fn sin_uturn_spec(a: int) -> int {
    if a < HALF_TURN {
        sin_half_spec(a)
    } else {
        -sin_half_spec(a - HALF_TURN)
    }
}

/// The crate's cosine: the sine a quarter turn ahead.
pub open spec fn cos_uturn_spec(a: int) -> int {
    sin_uturn_spec((a + QUARTER_TURN) % (TURN as int))
}

/// On the first half-turn the sine stays within `[0, UNIT]`.
pub proof fn lemma_sin_half_bounds(x: int)
    requires
        0 <= x <= HALF_TURN,
    ensures
        0 <= sin_half_spec(x) <= UNIT,
{
    let p = x * (HALF_TURN - x);
    let den = 5 * (HALF_TURN as int) * (HALF_TURN as int) - 4 * p;
    assert(0 <= x * (HALF_TURN - x) && 20 * (x * (HALF_TURN - x)) <= 5 * (HALF_TURN as int) * (
    HALF_TURN as int)) by (nonlinear_arith)
        requires
            0 <= x <= HALF_TURN,
    {}
    assert(den >= 1_000_000_000_000);
    assert(16 * p * UNIT <= UNIT * den) by (nonlinear_arith)
        requires
            20 * p <= 5 * (HALF_TURN as int) * (HALF_TURN as int),
            den == 5 * (HALF_TURN as int) * (HALF_TURN as int) - 4 * p,
            UNIT == 1_000_000,
            HALF_TURN == 500_000,
            p >= 0,
    {}
    vstd::arithmetic::div_mod::lemma_div_pos_is_pos(16 * p * UNIT, den);
    vstd::arithmetic::div_mod::lemma_div_is_ordered(16 * p * UNIT, UNIT * den, den);
    assert((UNIT * den) / den == UNIT) by {
        vstd::arithmetic::div_mod::lemma_div_multiples_vanish(UNIT as int, den);
    }
}

/// The full-turn sine stays within `[-UNIT, UNIT]`.
pub proof fn lemma_sin_uturn_bounds(a: int)
    requires
        0 <= a < TURN,
    ensures
        -UNIT <= sin_uturn_spec(a) <= UNIT,
{
    if a < HALF_TURN {
        lemma_sin_half_bounds(a);
    } else {
        lemma_sin_half_bounds(a - HALF_TURN);
    }
}

/// The exact cardinal values of the crate's cosine: one at angle zero,
/// minus one at the half turn.
pub proof fn lemma_cos_quarter_points()
    ensures
        cos_uturn_spec(0) == UNIT,
        cos_uturn_spec(HALF_TURN as int) == -UNIT,
{
    vstd::arithmetic::div_mod::lemma_small_mod(250_000nat, 1_000_000nat);
    vstd::arithmetic::div_mod::lemma_small_mod(750_000nat, 1_000_000nat);
    assert((0 + QUARTER_TURN as int) % (TURN as int) == 250_000);
    assert((HALF_TURN as int + QUARTER_TURN as int) % (TURN as int) == 750_000);
    assert(16 * (250_000int * (500_000int - 250_000int)) * 1_000_000int == 1_000_000int
        * (5 * 500_000int * 500_000int - 4 * (250_000int * (500_000int - 250_000int))));
    vstd::arithmetic::div_mod::lemma_div_by_multiple(1_000_000int, 1_000_000_000_000int);
    assert(sin_half_spec(250_000) == UNIT);
    assert(cos_uturn_spec(0) == sin_uturn_spec(250_000));
    assert(cos_uturn_spec(HALF_TURN as int) == sin_uturn_spec(750_000));
}

/// Sine on the first half-turn.
fn sin_half(x: i64) -> (r: i64)
    requires
        0 <= x <= HALF_TURN,
    ensures
        r == sin_half_spec(x as int),
        0 <= r <= UNIT,
{
    proof {
        lemma_sin_half_bounds(x as int);
        assert(0 <= x * (HALF_TURN - x) && 4 * (x * (HALF_TURN - x)) <= 250_000_000_000int)
            by (nonlinear_arith)
            requires
                0 <= x <= HALF_TURN,
                HALF_TURN == 500_000,
        {}
    }
    let p: u64 = (x as u64) * ((HALF_TURN - x) as u64);
    let num: u64 = 16 * p * (UNIT as u64);
    let den: u64 = 5 * (HALF_TURN as u64) * (HALF_TURN as u64) - 4 * p;
    (num / den) as i64
}

/// Sine of a heading in micro-turns, on the `UNIT` scale.
pub fn sin_uturn(a: i64) -> (r: i64)
    requires
        0 <= a < TURN,
    ensures
        r == sin_uturn_spec(a as int),
        -UNIT <= r <= UNIT,
{
    if a < HALF_TURN {
        sin_half(a)
    } else {
        -sin_half(a - HALF_TURN)
    }
}

/// Cosine of a heading in micro-turns, on the `UNIT` scale.
pub fn cos_uturn(a: i64) -> (r: i64)
    requires
        0 <= a < TURN,
    ensures
        r == cos_uturn_spec(a as int),
        -UNIT <= r <= UNIT,
{
    let shifted: i64 = norm_angle(a + QUARTER_TURN);
    sin_uturn(shifted)
}

/// The direction a heading points in: the unit vector `(-sin, cos)` on
/// the `UNIT` scale (headings turn counter-clockwise from the upward
/// axis).
pub fn forward(a: i64) -> (d: (i64, i64))
    requires
        0 <= a < TURN,
    ensures
        d.0 == -sin_uturn_spec(a as int),
        d.1 == cos_uturn_spec(a as int),
        -UNIT <= d.0 <= UNIT,
        -UNIT <= d.1 <= UNIT,
{
    (-sin_uturn(a), cos_uturn(a))
}

/// The rightward axis of a heading: the unit vector `(cos, sin)` on the
/// `UNIT` scale.
pub fn rightward(a: i64) -> (d: (i64, i64))
    requires
        0 <= a < TURN,
    ensures
        d.0 == cos_uturn_spec(a as int),
        d.1 == sin_uturn_spec(a as int),
        -UNIT <= d.0 <= UNIT,
        -UNIT <= d.1 <= UNIT,
{
    (cos_uturn(a), sin_uturn(a))
}

/// The floor square root as a value: the unique non-negative `r` with
/// `r * r <= n < (r + 1) * (r + 1)`.
pub open spec fn sqrt_floor(n: int) -> int {
    choose|r: int| #![trigger r * r] 0 <= r && r * r <= n && n < (r + 1) * (r + 1)
}

/// The floor square root is what its bracketing says it is.
pub proof fn lemma_sqrt_floor_unique(n: int, r: int)
    requires
        0 <= r,
        r * r <= n,
        n < (r + 1) * (r + 1),
    ensures
        sqrt_floor(n) == r,
{
    assert(0 <= r && r * r <= n && n < (r + 1) * (r + 1));
    let s = sqrt_floor(n);
    assert(0 <= s && s * s <= n && n < (s + 1) * (s + 1)) by {
        assert(exists|x: int| #![trigger x * x] 0 <= x && x * x <= n && n < (x + 1) * (x + 1));
    }
    if s < r {
        assert((s + 1) * (s + 1) <= r * r) by (nonlinear_arith)
            requires
                0 <= s,
                s < r,
        {}
        assert(false);
    } else if s > r {
        assert((r + 1) * (r + 1) <= s * s) by (nonlinear_arith)
            requires
                0 <= r,
                r < s,
        {}
        assert(false);
    }
}

/// Integer square root: the largest `r` with `r * r <= n`, for `n` up
/// to twice the square of the coordinate range.
pub fn isqrt(n: u128) -> (r: u64)
    requires
        n <= 32_000_000_000_000_000_000u128,
    ensures
        r * r <= n,
        (r + 1) * (r + 1) > n,
        r == sqrt_floor(n as int),
{
    let mut lo: u64 = 0;
    let mut hi: u64 = 6_000_000_000;
    proof {
        assert((6_000_000_000u64 + 1) * (6_000_000_000u64 + 1) > 32_000_000_000_000_000_000u128);
    }
    while lo < hi
        invariant
            lo <= hi <= 6_000_000_000,
            lo * lo <= n,
            (hi + 1) * (hi + 1) > n,
        decreases hi - lo,
    {
        let mid: u64 = lo + (hi - lo + 1) / 2;
        proof {
            assert(mid * mid <= 6_000_000_000u64 * 6_000_000_000u64) by (nonlinear_arith)
                requires
                    0 <= mid <= 6_000_000_000u64,
            {}
        }
        let sq: u128 = (mid as u128) * (mid as u128);
        if sq <= n {
            lo = mid;
        } else {
            hi = mid - 1;
        }
    }
    proof {
        lemma_sqrt_floor_unique(n as int, lo as int);
    }
    lo
}

/// The sine mirrors around the quarter turn.
proof fn lemma_sin_half_symmetry(x: int)
    requires
        0 <= x <= HALF_TURN,
    ensures
        sin_half_spec(x) == sin_half_spec(HALF_TURN - x),
{
    assert(x * (HALF_TURN - x) == (HALF_TURN - x) * (HALF_TURN - (HALF_TURN - x)))
        by (nonlinear_arith) {}
}

/// On the first quarter turn the sine does not decrease.
proof fn lemma_sin_half_monotone(x1: int, x2: int)
    requires
        0 <= x1 <= x2 <= QUARTER_TURN,
    ensures
        sin_half_spec(x1) <= sin_half_spec(x2),
{
    let p1 = x1 * (HALF_TURN - x1);
    let p2 = x2 * (HALF_TURN - x2);
    assert(0 <= x1 * (HALF_TURN - x1) && x1 * (HALF_TURN - x1) <= x2 * (HALF_TURN - x2) && 20 * (
    x2 * (HALF_TURN - x2)) <= 5 * (HALF_TURN as int) * (HALF_TURN as int)) by (nonlinear_arith)
        requires
            0 <= x1 <= x2 <= QUARTER_TURN,
            QUARTER_TURN == 250_000,
            HALF_TURN == 500_000,
    {}
    let d1 = 5 * (HALF_TURN as int) * (HALF_TURN as int) - 4 * p1;
    let d2 = 5 * (HALF_TURN as int) * (HALF_TURN as int) - 4 * p2;
    assert(1 <= d2 <= d1);
    assert(0 <= 16 * p1 * UNIT <= 16 * p2 * UNIT) by (nonlinear_arith)
        requires
            0 <= p1 <= p2,
            UNIT == 1_000_000,
    {}
    vstd::arithmetic::div_mod::lemma_div_is_ordered_by_denominator(16 * p1 * UNIT, d2, d1);
    vstd::arithmetic::div_mod::lemma_div_is_ordered(16 * p1 * UNIT, 16 * p2 * UNIT, d2);
}

/// The sine is exactly zero at both ends of the half turn.
proof fn lemma_sin_half_zero()
    ensures
        sin_half_spec(0) == 0,
        sin_half_spec(HALF_TURN as int) == 0,
{
    assert(0int * (HALF_TURN - 0int) == 0) by (nonlinear_arith) {}
    assert((HALF_TURN as int) * (HALF_TURN - (HALF_TURN as int)) == 0) by (nonlinear_arith) {}
    vstd::arithmetic::div_mod::lemma_basic_div(0, 1_250_000_000_000);
}

/// On `[0, QUARTER_TURN]` the cosine is the mirrored sine.
proof fn lemma_cos_as_mirrored_sine(a: int)
    requires
        0 <= a <= QUARTER_TURN,
    ensures
        cos_uturn_spec(a) == sin_half_spec(QUARTER_TURN - a),
{
    vstd::arithmetic::div_mod::lemma_small_mod((a + QUARTER_TURN) as nat, TURN as nat);
    if a < QUARTER_TURN {
        lemma_sin_half_symmetry(a + QUARTER_TURN);
    } else {
        lemma_sin_half_zero();
    }
}

/// On the first half-turn the cosine does not increase.
pub proof fn lemma_cos_monotone(a1: int, a2: int)
    requires
        0 <= a1 <= a2 <= HALF_TURN,
    ensures
        cos_uturn_spec(a1) >= cos_uturn_spec(a2),
{
    vstd::arithmetic::div_mod::lemma_small_mod((a1 + QUARTER_TURN) as nat, TURN as nat);
    vstd::arithmetic::div_mod::lemma_small_mod((a2 + QUARTER_TURN) as nat, TURN as nat);
    if a2 <= QUARTER_TURN {
        // Both in the first quadrant: the sine mirrors to [0, Q] and
        // falls as the angle grows.
        lemma_cos_as_mirrored_sine(a1);
        lemma_cos_as_mirrored_sine(a2);
        lemma_sin_half_monotone(QUARTER_TURN - a2, QUARTER_TURN - a1);
    } else if a1 > QUARTER_TURN {
        // Both in the second: the negated sine grows in magnitude.
        lemma_sin_half_monotone(a1 - QUARTER_TURN, a2 - QUARTER_TURN);
    } else {
        // Across the quarter turn: non-negative before, non-positive
        // after.
        lemma_cos_as_mirrored_sine(a1);
        lemma_sin_half_bounds(QUARTER_TURN - a1);
        if a2 == QUARTER_TURN {
            lemma_sin_half_zero();
        } else {
            lemma_sin_half_bounds(a2 - QUARTER_TURN);
        }
    }
}

/// The unique inverse of the cosine on the first half-turn: the largest
/// angle whose cosine still reaches `c`.
pub open spec fn acos_uturn_spec(c: int) -> int {
    choose|a: int|
        #![trigger cos_uturn_spec(a)]
        0 <= a <= HALF_TURN && cos_uturn_spec(a) >= c && (a == HALF_TURN || cos_uturn_spec(a + 1)
            < c)
}

/// The inverse is what its bracketing says it is: by monotonicity there
/// is only one boundary angle.
pub proof fn lemma_acos_unique(c: int, a: int)
    requires
        0 <= a <= HALF_TURN,
        cos_uturn_spec(a) >= c,
        a == HALF_TURN || cos_uturn_spec(a + 1) < c,
    ensures
        acos_uturn_spec(c) == a,
{
    assert(0 <= a <= HALF_TURN && cos_uturn_spec(a) >= c && (a == HALF_TURN || cos_uturn_spec(a
        + 1) < c));
    let s = acos_uturn_spec(c);
    assert(0 <= s <= HALF_TURN && cos_uturn_spec(s) >= c && (s == HALF_TURN || cos_uturn_spec(s
        + 1) < c)) by {
        assert(exists|x: int|
            #![trigger cos_uturn_spec(x)]
            0 <= x <= HALF_TURN && cos_uturn_spec(x) >= c && (x == HALF_TURN || cos_uturn_spec(x
                + 1) < c));
    }
    if s < a {
        lemma_cos_monotone(s + 1, a);
        assert(false);
    } else if s > a {
        lemma_cos_monotone(a + 1, s);
        assert(false);
    }
}

/// The arc-cosine on micro-turns: the largest angle `a` in
/// `[0, HALF_TURN]` whose cosine still reaches `c`. Because the crate's
/// cosine is a step function of the angle, the contract pins `a` down by
/// its two neighbouring cosine values.
pub fn acos_uturn(c: i64) -> (a: i64)
    requires
        -UNIT <= c <= UNIT,
    ensures
        0 <= a <= HALF_TURN,
        cos_uturn_spec(a as int) >= c,
        a < HALF_TURN ==> cos_uturn_spec(a + 1) < c,
        a == acos_uturn_spec(c as int),
{
    proof {
        lemma_cos_quarter_points();
    }
    if c == -UNIT {
        proof {
            lemma_acos_unique(c as int, HALF_TURN as int);
        }
        return HALF_TURN;
    }
    let mut lo: i64 = 0;
    let mut hi: i64 = HALF_TURN;
    while lo < hi
        invariant
            0 <= lo <= hi <= HALF_TURN,
            -UNIT <= c <= UNIT,
            cos_uturn_spec(lo as int) >= c,
            hi < HALF_TURN ==> cos_uturn_spec(hi + 1) < c,
        decreases hi - lo,
    {
        let mid: i64 = lo + (hi - lo + 1) / 2;
        let cm: i64 = cos_uturn(mid);
        if cm >= c {
            lo = mid;
        } else {
            hi = mid - 1;
        }
    }
    proof {
        lemma_acos_unique(c as int, lo as int);
    }
    lo
}

} // verus!
