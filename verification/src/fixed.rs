//! Fixed-point scalar arithmetic for the editor core.
//!
//! World lengths are carried as `i64` values holding `SCALE` sub-units per
//! world unit. Angles are carried as `i64` values holding `QUARTER_TURN`
//! sub-units per quarter turn, so quadrant boundaries are exact.

use vstd::prelude::*;
use vstd::arithmetic::div_mod::*;

verus! {

/// Fixed-point sub-units per world unit.
pub const SCALE: i64 = 1000;

/// Angle sub-units in a quarter turn (90 degrees).
pub const QUARTER_TURN: i64 = 1_000_000;

/// Angle sub-units in a half turn (180 degrees).
pub const HALF_TURN: i64 = 2_000_000;

/// Angle sub-units in a full turn (360 degrees).
pub const FULL_TURN: i64 = 4_000_000;

/// Largest magnitude accepted by the angle helpers.
pub const ANGLE_DOMAIN: i64 = 1_000_000_000_000;

/// Clamps `v` into the inclusive range `[lo, hi]`.
pub fn clamp_i64(v: i64, lo: i64, hi: i64) -> (r: i64)
    requires
        lo <= hi,
    ensures
        r == spec_clamp(v as int, lo as int, hi as int),
        lo <= r <= hi,
{
    if v < lo {
        lo
    } else if v > hi {
        hi
    } else {
        v
    }
}

/// Clamp on mathematical integers.
pub open spec fn spec_clamp(v: int, lo: int, hi: int) -> int {
    if v < lo {
        lo
    } else if v > hi {
        hi
    } else {
        v
    }
}

/// Division truncating toward zero, for a positive divisor.
///
/// Fixed-point products are divided this way so that scaling a value down
/// never flips its sign.
pub open spec fn spec_tdiv(a: int, b: int) -> int {
    if a >= 0 {
        a / b
    } else {
        -((-a) / b)
    }
}

/// Truncating division by a positive divisor.
pub fn tdiv(a: i64, b: i64) -> (r: i64)
    requires
        b > 0,
        a > i64::MIN,
    ensures
        r == spec_tdiv(a as int, b as int),
        a >= 0 ==> 0 <= r <= a,
        a < 0 ==> a <= r <= 0,
{
    if a >= 0 {
        proof {
            lemma_div_pos_is_pos(a as int, b as int);
            lemma_div_nonincreasing(a as int, b as int);
        }
        a / b
    } else {
        let m = -a;
        proof {
            lemma_div_pos_is_pos(m as int, b as int);
            lemma_div_nonincreasing(m as int, b as int);
        }
        -(m / b)
    }
}

/// Truncating division by a positive divisor keeps a bounded numerator's
/// quotient bounded: `|a| <= c * b` gives `|a / b| <= c`.
pub proof fn lemma_tdiv_bound(a: int, b: int, c: int)
    requires
        b > 0,
        0 <= c,
        -(c * b) <= a <= c * b,
    ensures
        -c <= spec_tdiv(a, b) <= c,
{
    assert(c * b == b * c) by (nonlinear_arith) {}
    if a >= 0 {
        lemma_div_pos_is_pos(a, b);
        lemma_div_is_ordered(a, b * c, b);
        lemma_div_multiples_vanish(c, b);
    } else {
        let m = -a;
        lemma_div_pos_is_pos(m, b);
        lemma_div_is_ordered(m, b * c, b);
        lemma_div_multiples_vanish(c, b);
    }
}

/// Growing the numerator by one divisor moves a truncating quotient up by
/// at most one.
pub proof fn lemma_tdiv_step(n: int, d: int)
    requires
        d > 0,
    ensures
        spec_tdiv(n, d) <= spec_tdiv(n + d, d) <= spec_tdiv(n, d) + 1,
{
    lemma_tdiv_monotone(n, n + d, d);
    if n >= 0 {
        lemma_div_auto_plus_one(n, d);
    } else if n + d >= 0 {
        // n in [-d, -1]: both quotients are 0 or -1 and 0.
        lemma_div_pos_is_pos(n + d, d);
        lemma_div_is_ordered(n + d, d - 1, d);
        lemma_small_div_converse_local(d - 1, d);
        lemma_div_pos_is_pos(-n, d);
        lemma_div_is_ordered(-n, d, d);
        lemma_div_by_self(d);
    } else {
        // both negative: (-n) / d == (-(n + d)) / d + 1.
        lemma_div_auto_plus_one(-(n + d), d);
    }
}

proof fn lemma_div_auto_plus_one(x: int, d: int)
    requires
        0 <= x,
        0 < d,
    ensures
        (x + d) / d == x / d + 1,
{
    lemma_fundamental_div_mod(x, d);
    lemma_mod_bound(x, d);
    let q = x / d;
    let r = x % d;
    lemma_div_multiples_vanish_fancy(q, r, d);
    lemma_div_multiples_vanish_fancy(q + 1, r, d);
    assert(d * (q + 1) + r == d * q + r + d) by (nonlinear_arith) {}
}

proof fn lemma_small_div_converse_local(x: int, d: int)
    requires
        0 <= x < d,
    ensures
        x / d == 0,
{
    lemma_basic_div(x, d);
}

/// Truncating division cancels an exact multiple of the divisor.
pub proof fn lemma_tdiv_mul_cancel(h: int, d: int)
    requires
        d > 0,
    ensures
        spec_tdiv(h * d, d) == h,
{
    if h >= 0 {
        assert(h * d >= 0) by (nonlinear_arith)
            requires
                h >= 0,
                d > 0,
        {}
        lemma_div_by_multiple(h, d);
    } else {
        assert(h * d < 0 && -(h * d) == (-h) * d) by (nonlinear_arith)
            requires
                h < 0,
                d > 0,
        {}
        lemma_div_by_multiple(-h, d);
    }
}

/// Truncating division is monotone in the numerator.
pub proof fn lemma_tdiv_monotone(a0: int, a1: int, b: int)
    requires
        b > 0,
        a0 <= a1,
    ensures
        spec_tdiv(a0, b) <= spec_tdiv(a1, b),
{
    if a0 >= 0 {
        lemma_div_is_ordered(a0, a1, b);
    } else if a1 < 0 {
        lemma_div_is_ordered(-a1, -a0, b);
    } else {
        lemma_div_pos_is_pos(-a0, b);
        lemma_div_pos_is_pos(a1, b);
    }
}

/// Angle reduced into `[0, FULL_TURN)`, as Euclidean remainder.
pub open spec fn spec_wrap_angle(a: int) -> int {
    a % (FULL_TURN as int)
}

/// Reduces an angle into `[0, FULL_TURN)`.
pub fn wrap_angle(a: i64) -> (r: i64)
    requires
        -ANGLE_DOMAIN <= a <= ANGLE_DOMAIN,
    ensures
        r == spec_wrap_angle(a as int),
        0 <= r < FULL_TURN,
{
    let mut v = a;
    while v < 0
        invariant
            (v as int) % (FULL_TURN as int) == (a as int) % (FULL_TURN as int),
            -ANGLE_DOMAIN <= v <= ANGLE_DOMAIN + FULL_TURN,
        decreases ANGLE_DOMAIN + FULL_TURN - v,
    {
        proof {
            lemma_mod_add_multiples_vanish(v as int, FULL_TURN as int);
        }
        v = v + FULL_TURN;
    }
    while v >= FULL_TURN
        invariant
            (v as int) % (FULL_TURN as int) == (a as int) % (FULL_TURN as int),
            0 <= v,
        decreases v,
    {
        proof {
            lemma_mod_sub_multiples_vanish(v as int, FULL_TURN as int);
        }
        v = v - FULL_TURN;
    }
    proof {
        lemma_small_mod(v as nat, FULL_TURN as nat);
    }
    v
}

/// Rational sine approximation on `[0, HALF_TURN]`, scaled by `SCALE`.
///
/// This is the classical quadratic ratio `16 x (H - x) / (5 H^2 - 4 x (H - x))`
/// with `H` a half turn; it is exact at `0`, a quarter turn and a half turn.
pub open spec fn spec_half_sin(x: int) -> int {
    (16 * x * (HALF_TURN - x) * SCALE) / (5 * HALF_TURN * HALF_TURN - 4 * x * (HALF_TURN - x))
}

/// Sine of an angle, scaled by `SCALE`.
pub open spec fn spec_sin(a: int) -> int {
    let w = spec_wrap_angle(a);
    if w < HALF_TURN {
        spec_half_sin(w)
    } else {
        -spec_half_sin(w - HALF_TURN)
    }
}

/// Cosine of an angle, scaled by `SCALE`.
pub open spec fn spec_cos(a: int) -> int {
    spec_sin(a + QUARTER_TURN)
}

proof fn lemma_half_sin_facts(x: int)
    requires
        0 <= x <= HALF_TURN,
    ensures
        0 <= x * (HALF_TURN - x),
        4 * (x * (HALF_TURN - x)) <= HALF_TURN * HALF_TURN,
        spec_half_sin(x) == (16 * (x * (HALF_TURN - x)) * SCALE) / (5 * HALF_TURN * HALF_TURN
            - 4 * (x * (HALF_TURN - x))),
        0 <= spec_half_sin(x) <= SCALE,
{
    let h = HALF_TURN as int;
    let p = x * (h - x);
    assert(0 <= p && 4 * p <= h * h) by (nonlinear_arith)
        requires
            0 <= x <= h,
            p == x * (h - x),
    {}
    let num = 16 * p * SCALE;
    let den = 5 * h * h - 4 * p;
    assert(num == 16 * x * (h - x) * SCALE) by (nonlinear_arith)
        requires
            p == x * (h - x),
            num == 16 * p * SCALE,
    {}
    assert(den == 5 * h * h - 4 * x * (h - x)) by (nonlinear_arith)
        requires
            p == x * (h - x),
            den == 5 * h * h - 4 * p,
    {}
    assert(spec_half_sin(x) == num / den);
    assert(den >= 4 * h * h);
    assert(num >= 0);
    assert(num <= SCALE * den) by (nonlinear_arith)
        requires
            num == 16 * p * SCALE,
            den == 5 * h * h - 4 * p,
            4 * p <= h * h,
            0 <= p,
            h == HALF_TURN as int,
    {}
    lemma_div_pos_is_pos(num, den);
    assert(num / den <= SCALE) by {
        lemma_div_multiples_vanish(SCALE as int, den);
        lemma_div_is_ordered(num, den * SCALE, den);
    }
}

/// The sine approximation stays within `[-SCALE, SCALE]`.
pub proof fn lemma_sin_bounds(a: int)
    ensures
        -SCALE <= spec_sin(a) <= SCALE,
{
    lemma_mod_bound(a, FULL_TURN as int);
    let w = spec_wrap_angle(a);
    if w < HALF_TURN {
        lemma_half_sin_facts(w);
    } else {
        lemma_half_sin_facts(w - HALF_TURN);
    }
}

/// The cosine approximation stays within `[-SCALE, SCALE]`.
pub proof fn lemma_cos_bounds(a: int)
    ensures
        -SCALE <= spec_cos(a) <= SCALE,
{
    lemma_sin_bounds(a + QUARTER_TURN);
}

fn half_sin(x: i64) -> (r: i64)
    requires
        0 <= x <= HALF_TURN,
    ensures
        r == spec_half_sin(x as int),
        0 <= r <= SCALE,
{
    proof {
        lemma_half_sin_facts(x as int);
    }
    let p = x * (HALF_TURN - x);
    let num = 16 * p * SCALE;
    let den = 5 * HALF_TURN * HALF_TURN - 4 * p;
    num / den
}

/// Sine of a fixed-point angle, scaled by `SCALE`.
pub fn sin_fp(a: i64) -> (r: i64)
    requires
        -ANGLE_DOMAIN <= a <= ANGLE_DOMAIN,
    ensures
        r == spec_sin(a as int),
        -SCALE <= r <= SCALE,
{
    let w = wrap_angle(a);
    if w < HALF_TURN {
        half_sin(w)
    } else {
        -half_sin(w - HALF_TURN)
    }
}

/// Cosine of a fixed-point angle, scaled by `SCALE`.
pub fn cos_fp(a: i64) -> (r: i64)
    requires
        -ANGLE_DOMAIN <= a + QUARTER_TURN <= ANGLE_DOMAIN,
    ensures
        r == spec_cos(a as int),
        -SCALE <= r <= SCALE,
{
    sin_fp(a + QUARTER_TURN)
}

/// Floor of the square root of a nonnegative integer.
pub open spec fn spec_isqrt(n: int) -> int {
    choose|r: int| 0 <= r && #[trigger] (r * r) <= n && n < (r + 1) * (r + 1)
}

/// The defining property picks out exactly one root.
pub proof fn lemma_isqrt_unique(n: int, r: int)
    requires
        0 <= r,
        r * r <= n,
        n < (r + 1) * (r + 1),
    ensures
        r == spec_isqrt(n),
{
    assert(exists|q: int| 0 <= q && #[trigger] (q * q) <= n && n < (q + 1) * (q + 1)) by {
        assert(0 <= r && #[trigger] (r * r) <= n && n < (r + 1) * (r + 1));
    }
    let q = spec_isqrt(n);
    assert(0 <= q && q * q <= n && n < (q + 1) * (q + 1));
    if r < q {
        assert((r + 1) * (r + 1) <= q * q) by (nonlinear_arith)
            requires
                0 <= r,
                r + 1 <= q,
        {}
    }
    if q < r {
        assert((q + 1) * (q + 1) <= r * r) by (nonlinear_arith)
            requires
                0 <= q,
                q + 1 <= r,
        {}
    }
}

/// Floor of the square root of `n`.
pub fn isqrt(n: u64) -> (r: u64)
    ensures
        r * r <= n,
        n < (r + 1) * (r + 1),
        r <= 0xFFFF_FFFFu64,
        r == spec_isqrt(n as int),
{
    let mut lo: u64 = 0;
    let mut hi: u64 = 0xFFFF_FFFF;
    while lo < hi
        invariant
            lo <= hi <= 0xFFFF_FFFF,
            lo * lo <= n,
            n < (hi + 1) * (hi + 1),
        decreases hi - lo,
    {
        let mid = lo + (hi - lo + 1) / 2;
        proof {
            assert(mid * mid <= 0xFFFF_FFFFu64 * 0xFFFF_FFFFu64) by (nonlinear_arith)
                requires
                    mid <= 0xFFFF_FFFFu64,
            {}
        }
        if mid * mid <= n {
            lo = mid;
        } else {
            hi = mid - 1;
        }
    }
    proof {
        lemma_isqrt_unique(n as int, lo as int);
    }
    lo
}

} // verus!
