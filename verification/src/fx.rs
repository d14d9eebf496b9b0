//! Q16.16 signed fixed-point arithmetic.
//!
//! A quantity of one pixel (or one second, one radian) is represented by
//! [`SCALE`] units. All simulation arithmetic is exact integer arithmetic
//! on these units, which keeps every tick deterministic.

use vstd::prelude::*;

verus! {

/// Number of fixed-point units in one whole unit (pixel, second, radian).
pub const SCALE: i64 = 65536;

/// Half of [`SCALE`]; the rounding threshold.
pub const HALF_SCALE: i64 = 32768;

/// Largest magnitude a fixed-point product may take before scaling down.
pub const PRODUCT_LIM: i64 = 0x4000_0000_0000_0000;

/// Division truncating toward zero (the machine behaviour of `/` on `i64`),
/// stated over mathematical integers for a positive divisor.
pub open spec fn trunc_div(a: int, b: int) -> int {
    if a >= 0 {
        a / b
    } else {
        -((-a) / b)
    }
}

/// The value of the fixed-point product of `a` and `b`.
pub open spec fn fx_mul_spec(a: int, b: int) -> int {
    trunc_div(a * b, SCALE as int)
}

/// The value of the fixed-point quotient of `a` by `b`.
pub open spec fn fx_div_spec(a: int, b: int) -> int {
    trunc_div(a * (SCALE as int), b)
}

/// Rounding a fixed-point value to the nearest whole unit, halves away
/// from zero.
pub open spec fn fx_round_spec(a: int) -> int {
    if a >= 0 {
        (a + HALF_SCALE) / (SCALE as int)
    } else {
        -((-a + HALF_SCALE) / (SCALE as int))
    }
}

/// Sign of an integer: -1, 0 or 1.
pub open spec fn sgn_spec(a: int) -> int {
    if a > 0 {
        1
    } else if a < 0 {
        -1
    } else {
        0
    }
}

/// Magnitude of an integer.
pub open spec fn abs_spec(a: int) -> int {
    if a >= 0 {
        a
    } else {
        -a
    }
}

/// Clamping `v` into `[lo, hi]`.
pub open spec fn clamp_spec(v: int, lo: int, hi: int) -> int {
    if v < lo {
        lo
    } else if v > hi {
        hi
    } else {
        v
    }
}

/// For a nonnegative dividend and positive divisor, the quotient is at most
/// the dividend.
pub proof fn lemma_div_shrinks(a: int, b: int)
    requires
        a >= 0,
        b >= 1,
    ensures
        0 <= a / b <= a,
{
    assert(0 <= a / b <= a) by (nonlinear_arith)
        requires
            a >= 0,
            b >= 1,
    ;
}

/// A product is bounded by the product of the factors' bounds.
pub proof fn lemma_mul_bound(a: int, b: int, la: int, lb: int)
    requires
        -la <= a <= la,
        -lb <= b <= lb,
        0 <= la,
        0 <= lb,
    ensures
        -(la * lb) <= a * b <= la * lb,
{
    assert(-(la * lb) <= a * b <= la * lb) by (nonlinear_arith)
        requires
            -la <= a <= la,
            -lb <= b <= lb,
            0 <= la,
            0 <= lb,
    ;
}

/// Truncating division shrinks magnitudes.
pub proof fn lemma_trunc_div_bound(a: int, b: int)
    requires
        b >= 1,
    ensures
        abs_spec(trunc_div(a, b)) <= abs_spec(a),
        a >= 0 ==> trunc_div(a, b) >= 0,
        a <= 0 ==> trunc_div(a, b) <= 0,
{
    if a >= 0 {
        lemma_div_shrinks(a, b);
    } else {
        lemma_div_shrinks(-a, b);
    }
}

/// Fixed-point product. Relies on the operands being small enough that the
/// raw product fits an `i64`.
pub fn fx_mul(a: i64, b: i64) -> (r: i64)
    requires
        -PRODUCT_LIM <= a * b <= PRODUCT_LIM,
    ensures
        r == fx_mul_spec(a as int, b as int),
        abs_spec(r as int) * (SCALE as int) <= abs_spec((a as int) * (b as int)),
{
    let p: i64 = a * b;
    proof {
        lemma_trunc_div_bound(p as int, SCALE as int);
        lemma_mul_div_scale(p as int);
    }
    p / SCALE
}

/// Scaling the truncated quotient back up does not overshoot the dividend.
proof fn lemma_mul_div_scale(p: int)
    ensures
        abs_spec(trunc_div(p, SCALE as int)) * (SCALE as int) <= abs_spec(p),
{
    let s: int = SCALE as int;
    if p >= 0 {
        assert((p / s) * s <= p) by (nonlinear_arith)
            requires
                p >= 0,
                s == 65536,
        ;
    } else {
        assert(((-p) / s) * s <= -p) by (nonlinear_arith)
            requires
                p < 0,
                s == 65536,
        ;
    }
}

/// Fixed-point quotient; the divisor must be positive.
pub fn fx_div(a: i64, b: i64) -> (r: i64)
    requires
        b >= 1,
        -PRODUCT_LIM <= a * (SCALE as int) <= PRODUCT_LIM,
    ensures
        r == fx_div_spec(a as int, b as int),
        abs_spec(r as int) <= abs_spec((a as int) * (SCALE as int)),
{
    let p: i64 = a * SCALE;
    proof {
        lemma_trunc_div_bound(p as int, b as int);
    }
    p / b
}

/// Round a fixed-point value to the nearest whole unit (halves away from
/// zero), returning a plain integer count of units.
pub fn fx_round(a: i64) -> (r: i64)
    requires
        -PRODUCT_LIM <= a <= PRODUCT_LIM,
    ensures
        r == fx_round_spec(a as int),
        abs_spec(r as int) * (SCALE as int) <= abs_spec(a as int) + HALF_SCALE,
{
    proof {
        lemma_round_scaled(a as int);
    }
    if a >= 0 {
        (a + HALF_SCALE) / SCALE
    } else {
        -((-a + HALF_SCALE) / SCALE)
    }
}

proof fn lemma_round_scaled(a: int)
    ensures
        abs_spec(fx_round_spec(a)) * (SCALE as int) <= abs_spec(a) + HALF_SCALE,
        a >= 0 ==> fx_round_spec(a) >= 0,
        a < 0 ==> fx_round_spec(a) <= 0,
{
    let s: int = SCALE as int;
    if a >= 0 {
        lemma_div_shrinks(a + HALF_SCALE, s);
        assert(((a + HALF_SCALE) / s) * s <= a + HALF_SCALE) by (nonlinear_arith)
            requires
                a >= 0,
                s == 65536,
        ;
    } else {
        lemma_div_shrinks(-a + HALF_SCALE, s);
        assert(((-a + HALF_SCALE) / s) * s <= -a + HALF_SCALE) by (nonlinear_arith)
            requires
                a < 0,
                s == 65536,
        ;
    }
}

/// The rounded value is within half a unit of the exact value.
pub proof fn lemma_round_close(a: int)
    ensures
        -HALF_SCALE <= a - fx_round_spec(a) * (SCALE as int) <= HALF_SCALE,
{
    let s: int = SCALE as int;
    if a >= 0 {
        let q: int = (a + HALF_SCALE) / s;
        assert(s * q + (a + HALF_SCALE) % s == a + HALF_SCALE) by {
            vstd::arithmetic::div_mod::lemma_fundamental_div_mod(a + HALF_SCALE, s);
        }
        assert(0 <= (a + HALF_SCALE) % s < s) by {
            vstd::arithmetic::div_mod::lemma_mod_bound(a + HALF_SCALE, s);
        }
    } else {
        let q: int = (-a + HALF_SCALE) / s;
        assert(s * q + (-a + HALF_SCALE) % s == -a + HALF_SCALE) by {
            vstd::arithmetic::div_mod::lemma_fundamental_div_mod(-a + HALF_SCALE, s);
        }
        assert(0 <= (-a + HALF_SCALE) % s < s) by {
            vstd::arithmetic::div_mod::lemma_mod_bound(-a + HALF_SCALE, s);
        }
    }
}

/// Sign of a fixed-point value: -1, 0 or 1 (zero maps to zero).
pub fn sgn(a: i64) -> (r: i64)
    ensures
        r == sgn_spec(a as int),
{
    if a > 0 {
        1
    } else if a < 0 {
        -1
    } else {
        0
    }
}

/// Magnitude of a fixed-point value.
pub fn fx_abs(a: i64) -> (r: i64)
    requires
        a != i64::MIN,
    ensures
        r == abs_spec(a as int),
{
    if a >= 0 {
        a
    } else {
        -a
    }
}

/// Smaller of two values.
pub fn fx_min(a: i64, b: i64) -> (r: i64)
    ensures
        r == if a <= b { a as int } else { b as int },
{
    if a <= b {
        a
    } else {
        b
    }
}

/// Larger of two values.
pub fn fx_max(a: i64, b: i64) -> (r: i64)
    ensures
        r == if a >= b { a as int } else { b as int },
{
    if a >= b {
        a
    } else {
        b
    }
}

/// Clamp `v` into `[lo, hi]`.
pub fn fx_clamp(v: i64, lo: i64, hi: i64) -> (r: i64)
    requires
        lo <= hi,
    ensures
        r == clamp_spec(v as int, lo as int, hi as int),
        lo <= r <= hi,
{
    if v < lo {
        lo
    } else if v > hi {
        hi
    } else {
        v
    }
}

/// A whole number of pixels as a fixed-point value.
pub fn fx_of_px(px: i32) -> (r: i64)
    ensures
        r == (px as int) * (SCALE as int),
{
    (px as i64) * SCALE
}


/// A fixed-point product with a zero factor is zero.
pub proof fn lemma_fx_mul_zero(b: int)
    ensures
        fx_mul_spec(0, b) == 0,
        fx_mul_spec(b, 0) == 0,
{
    assert(0 * b == 0) by (nonlinear_arith);
    assert(b * 0 == 0) by (nonlinear_arith);
    lemma_div_shrinks(0, SCALE as int);
}

} // verus!
