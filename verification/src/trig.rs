//! Fixed-point angle arithmetic: wrapping, sine, cosine, and the
//! two-argument arctangent, over Q16.16 radians.
//!
//! Sine uses the classical rational approximation
//! `16 x (pi - x) / (5 pi^2 - 4 x (pi - x))` on `[0, pi]`, extended as an
//! odd periodic function; it is exact at `-pi`, `0`, `pi` and at the
//! quarter turns, and stays within one unit of scale everywhere, which is
//! what the pendulum integration relies on.

use vstd::prelude::*;
use crate::fx;
use crate::fx::SCALE;

verus! {

/// Half a turn, in fixed-point radians.
pub const PI_FX: i64 = 205887;

/// A full turn: exactly twice [`PI_FX`], so wrapped angles are symmetric.
pub const TAU_FX: i64 = 411774;

/// A quarter turn.
pub const HALF_PI_FX: i64 = 102943;

/// `pi / 4` in fixed point, for the arctangent approximation.
pub const QUARTER_PI_FX: i64 = 51472;

/// The linear correction coefficient of the arctangent approximation.
pub const ATAN_K_FX: i64 = 17892;

/// Largest angle magnitude the angle functions accept.
pub const ANGLE_LIM: i64 = 0x0100_0000_0000;

/// An angle folded into `[-pi, pi)` by whole turns.
pub open spec fn wrap_spec(a: int) -> int {
    (a + PI_FX) % (TAU_FX as int) - PI_FX
}

/// Fold an angle into `[-pi, pi)`.
pub fn wrap_angle(a: i64) -> (r: i64)
    requires
        -ANGLE_LIM <= a <= ANGLE_LIM,
    ensures
        r == wrap_spec(a as int),
        -PI_FX <= r < PI_FX,
{
    let x: i64 = a + PI_FX;
    let m0: i64 = x % TAU_FX;
    let m: i64 = if m0 < 0 {
        m0 + TAU_FX
    } else {
        m0
    };
    proof {
        let t: int = TAU_FX as int;
        if x >= 0 {
            vstd::arithmetic::div_mod::lemma_mod_bound(x as int, t);
        } else {
            let q: int = (-x) as int / t;
            let rr: int = (-x) as int % t;
            vstd::arithmetic::div_mod::lemma_fundamental_div_mod((-x) as int, t);
            vstd::arithmetic::div_mod::lemma_mod_bound((-x) as int, t);
            if rr == 0 {
                vstd::arithmetic::div_mod::lemma_fundamental_div_mod_converse(x as int, t, -q, 0);
            } else {
                vstd::arithmetic::div_mod::lemma_fundamental_div_mod_converse(
                    x as int,
                    t,
                    -q - 1,
                    t - rr,
                );
            }
        }
    }
    m - PI_FX
}

/// The rational sine approximation on `[0, pi]`, in fixed point.
pub open spec fn bhaskara_spec(x: int) -> int {
    let t: int = x * (PI_FX - x);
    (16 * t * (SCALE as int)) / (5 * (PI_FX as int) * (PI_FX as int) - 4 * t)
}

/// The sine of a fixed-point angle: the angle is folded into `[-pi, pi)`
/// and the approximation applied as an odd function.
pub open spec fn sin_fx_spec(a: int) -> int {
    let x: int = wrap_spec(a);
    if x >= 0 {
        bhaskara_spec(x)
    } else {
        -bhaskara_spec(-x)
    }
}

/// The cosine of a fixed-point angle, as the sine of the complementary
/// angle of its magnitude.
pub open spec fn cos_fx_spec(a: int) -> int {
    let x: int = wrap_spec(a);
    if x >= 0 {
        sin_fx_spec(HALF_PI_FX - x)
    } else {
        sin_fx_spec(HALF_PI_FX + x)
    }
}

/// On `[0, pi]` the approximation stays within `[0, SCALE]`.
pub proof fn lemma_bhaskara_bounds(x: int)
    requires
        0 <= x <= PI_FX,
    ensures
        0 <= bhaskara_spec(x) <= SCALE,
        x == 0 ==> bhaskara_spec(x) == 0,
        x == PI_FX ==> bhaskara_spec(x) == 0,
{
    let t: int = x * (PI_FX - x);
    let p: int = PI_FX as int;
    let s: int = SCALE as int;
    let den: int = 5 * p * p - 4 * t;
    assert(0 <= t && 4 * t <= p * p) by (nonlinear_arith)
        requires
            0 <= x <= p,
            t == x * (p - x),
    ;
    assert(den >= 4 * p * p);
    assert(16 * t * s >= 0) by (nonlinear_arith)
        requires
            t >= 0,
            s >= 1,
    ;
    fx::lemma_div_shrinks(16 * t * s, den);
    assert((16 * t * s) / den <= s) by {
        assert(16 * t * s <= s * den) by (nonlinear_arith)
            requires
                4 * t <= p * p,
                den == 5 * p * p - 4 * t,
                s >= 1,
                t >= 0,
        ;
        lemma_div_at_most(16 * t * s, den, s);
    }
    if x == 0 {
        assert(t == 0) by (nonlinear_arith)
            requires
                t == x * (p - x),
                x == 0,
        ;
    }
    if x == p {
        assert(t == 0) by (nonlinear_arith)
            requires
                t == x * (p - x),
                x == p,
        ;
    }
}

/// For a nonnegative dividend, the quotient is at most any `m` with
/// `dividend <= m * divisor`.
proof fn lemma_div_at_most(a: int, b: int, m: int)
    requires
        a >= 0,
        b >= 1,
        m >= 0,
        a <= m * b,
    ensures
        a / b <= m,
{
    assert(a / b <= m) by (nonlinear_arith)
        requires
            a >= 0,
            b >= 1,
            m >= 0,
            a <= m * b,
    ;
}

/// The sine of an angle of zero is exactly zero: the pendulum's stable
/// equilibrium produces no restoring torque.
pub proof fn lemma_sin_zero()
    ensures
        sin_fx_spec(0) == 0,
{
    assert(wrap_spec(0) == 0) by {
        assert((0 + PI_FX) % (TAU_FX as int) == PI_FX) by {
            vstd::arithmetic::div_mod::lemma_small_mod(PI_FX as nat, TAU_FX as nat);
        }
    }
    lemma_bhaskara_bounds(0);
}

/// The sine is bounded by one unit of scale.
pub proof fn lemma_sin_bounds(a: int)
    ensures
        -SCALE <= sin_fx_spec(a) <= SCALE,
{
    let x: int = wrap_spec(a);
    vstd::arithmetic::div_mod::lemma_mod_bound(a + PI_FX, TAU_FX as int);
    if x >= 0 {
        lemma_bhaskara_bounds(x);
    } else {
        lemma_bhaskara_bounds(-x);
    }
}

/// The cosine is bounded by one unit of scale.
pub proof fn lemma_cos_bounds(a: int)
    ensures
        -SCALE <= cos_fx_spec(a) <= SCALE,
{
    let x: int = wrap_spec(a);
    vstd::arithmetic::div_mod::lemma_mod_bound(a + PI_FX, TAU_FX as int);
    if x >= 0 {
        lemma_sin_bounds_at(HALF_PI_FX - x);
    } else {
        lemma_sin_bounds_at(HALF_PI_FX + x);
    }
}

/// Helper restating [`lemma_sin_bounds`] for a direct argument.
proof fn lemma_sin_bounds_at(a: int)
    ensures
        -SCALE <= sin_fx_spec(a) <= SCALE,
{
    lemma_sin_bounds(a);
}

/// The sine of a fixed-point angle.
pub fn sin_fx(a: i64) -> (r: i64)
    requires
        -ANGLE_LIM <= a <= ANGLE_LIM,
    ensures
        r == sin_fx_spec(a as int),
        -SCALE <= r <= SCALE,
{
    let x: i64 = wrap_angle(a);
    let r: i64 = if x >= 0 {
        bhaskara(x)
    } else {
        -bhaskara(-x)
    };
    proof {
        lemma_sin_bounds(a as int);
    }
    r
}

/// The cosine of a fixed-point angle.
pub fn cos_fx(a: i64) -> (r: i64)
    requires
        -ANGLE_LIM <= a <= ANGLE_LIM,
    ensures
        r == cos_fx_spec(a as int),
        -SCALE <= r <= SCALE,
{
    let x: i64 = wrap_angle(a);
    let r: i64 = if x >= 0 {
        sin_fx(HALF_PI_FX - x)
    } else {
        sin_fx(HALF_PI_FX + x)
    };
    proof {
        if x >= 0 {
            lemma_wrap_small(HALF_PI_FX - x);
            assert(wrap_spec(HALF_PI_FX - x) == HALF_PI_FX - x);
        } else {
            lemma_wrap_small(HALF_PI_FX + x);
            assert(wrap_spec(HALF_PI_FX + x) == HALF_PI_FX + x);
        }
        lemma_cos_bounds(a as int);
    }
    r
}

/// Angles already in `[-pi, pi)` wrap to themselves.
pub proof fn lemma_wrap_small(a: int)
    requires
        -PI_FX <= a < PI_FX,
    ensures
        wrap_spec(a) == a,
{
    vstd::arithmetic::div_mod::lemma_small_mod((a + PI_FX) as nat, TAU_FX as nat);
}

/// The rational sine approximation, on `[0, pi]`.
fn bhaskara(x: i64) -> (r: i64)
    requires
        0 <= x <= PI_FX,
    ensures
        r == bhaskara_spec(x as int),
        0 <= r <= SCALE,
{
    proof {
        lemma_bhaskara_bounds(x as int);
        assert(0 <= (x as int) * (PI_FX - x as int) <= (PI_FX as int) * (PI_FX as int))
            by (nonlinear_arith)
            requires
                0 <= x as int <= PI_FX as int,
        ;
    }
    let t: i64 = x * (PI_FX - x);
    let num: i64 = 16 * t * SCALE;
    let den: i64 = 5 * PI_FX * PI_FX - 4 * t;
    num / den
}

/// The arctangent of `z / SCALE` for `z` in `[0, SCALE]`, in fixed-point
/// radians: the approximation `z * (pi/4 + k * (1 - z))`.
pub open spec fn atan_unit_spec(z: int) -> int {
    (z * (QUARTER_PI_FX + (ATAN_K_FX * ((SCALE as int) - z)) / (SCALE as int))) / (SCALE as int)
}

/// The signed angle of the vector `(x, y)` from the positive x axis,
/// in `[-pi, pi]`; the vertical axis points down the screen, so positive
/// `y` gives positive angles. The zero vector maps to zero.
pub open spec fn atan2_spec(y: int, x: int) -> int {
    let ay: int = fx::abs_spec(y);
    let ax: int = fx::abs_spec(x);
    if ay == 0 && ax == 0 {
        0
    } else {
        let base: int = if ax >= ay {
            atan_unit_spec((ay * (SCALE as int)) / ax)
        } else {
            HALF_PI_FX - atan_unit_spec((ax * (SCALE as int)) / ay)
        };
        if x >= 0 {
            if y >= 0 {
                base
            } else {
                -base
            }
        } else {
            if y >= 0 {
                PI_FX - base
            } else {
                -(PI_FX - base)
            }
        }
    }
}

/// The arctangent approximation stays within a quarter turn.
pub proof fn lemma_atan_unit_bounds(z: int)
    requires
        0 <= z <= SCALE,
    ensures
        0 <= atan_unit_spec(z) <= HALF_PI_FX,
{
    let s: int = SCALE as int;
    let inner: int = QUARTER_PI_FX + (ATAN_K_FX * (s - z)) / s;
    assert(0 <= ATAN_K_FX * (s - z) <= ATAN_K_FX * s) by (nonlinear_arith)
        requires
            0 <= s - z <= s,
    ;
    fx::lemma_div_shrinks(ATAN_K_FX * (s - z), s);
    lemma_div_at_most(ATAN_K_FX * (s - z), s, ATAN_K_FX as int);
    assert(QUARTER_PI_FX <= inner <= QUARTER_PI_FX + ATAN_K_FX);
    assert(0 <= z * inner <= s * (QUARTER_PI_FX + ATAN_K_FX)) by (nonlinear_arith)
        requires
            0 <= z <= s,
            QUARTER_PI_FX <= inner <= QUARTER_PI_FX + ATAN_K_FX,
    ;
    fx::lemma_div_shrinks(z * inner, s);
    lemma_div_at_most(z * inner, s, QUARTER_PI_FX + ATAN_K_FX);
}

/// The arctangent of a ratio in `[0, 1]`.
fn atan_unit(z: i64) -> (r: i64)
    requires
        0 <= z <= SCALE,
    ensures
        r == atan_unit_spec(z as int),
        0 <= r <= HALF_PI_FX,
{
    proof {
        lemma_atan_unit_bounds(z as int);
        assert(0 <= ATAN_K_FX * (SCALE - z as int) <= ATAN_K_FX * (SCALE as int))
            by (nonlinear_arith)
            requires
                0 <= SCALE - z as int <= SCALE as int,
        ;
        fx::lemma_div_shrinks(ATAN_K_FX * (SCALE - z as int), SCALE as int);
        fx::lemma_mul_bound(
            z as int,
            QUARTER_PI_FX + (ATAN_K_FX * ((SCALE as int) - z as int)) / (SCALE as int),
            SCALE as int,
            QUARTER_PI_FX + ATAN_K_FX,
        );
    }
    let inner: i64 = QUARTER_PI_FX + (ATAN_K_FX * (SCALE - z)) / SCALE;
    (z * inner) / SCALE
}

/// The signed angle of a vector from the positive x axis.
pub fn atan2_fx(y: i64, x: i64) -> (r: i64)
    requires
        -0x8000_0000 <= y <= 0x8000_0000,
        -0x8000_0000 <= x <= 0x8000_0000,
    ensures
        r == atan2_spec(y as int, x as int),
        -PI_FX <= r <= PI_FX,
{
    let ay: i64 = fx::fx_abs(y);
    let ax: i64 = fx::fx_abs(x);
    if ay == 0 && ax == 0 {
        return 0;
    }
    let base: i64 = if ax >= ay {
        proof {
            fx::lemma_mul_bound(ay as int, SCALE as int, 0x8000_0000, SCALE as int);
            fx::lemma_div_shrinks(ay as int * (SCALE as int), ax as int);
            assert(ay * (SCALE as int) <= (SCALE as int) * ax) by (nonlinear_arith)
                requires
                    0 <= ay <= ax,
            ;
            lemma_div_at_most(ay as int * (SCALE as int), ax as int, SCALE as int);
        }
        atan_unit((ay * SCALE) / ax)
    } else {
        proof {
            fx::lemma_mul_bound(ax as int, SCALE as int, 0x8000_0000, SCALE as int);
            fx::lemma_div_shrinks(ax as int * (SCALE as int), ay as int);
            assert(ax * (SCALE as int) <= (SCALE as int) * ay) by (nonlinear_arith)
                requires
                    0 <= ax < ay,
            ;
            lemma_div_at_most(ax as int * (SCALE as int), ay as int, SCALE as int);
        }
        HALF_PI_FX - atan_unit((ax * SCALE) / ay)
    };
    if x >= 0 {
        if y >= 0 {
            base
        } else {
            -base
        }
    } else {
        if y >= 0 {
            PI_FX - base
        } else {
            -(PI_FX - base)
        }
    }
}

/// Aiming straight along the positive x axis gives an angle of zero.
pub proof fn lemma_atan2_axis(x: int)
    requires
        x > 0,
    ensures
        atan2_spec(0, x) == 0,
{
    let s: int = SCALE as int;
    assert((0 * s) / x == 0) by {
        assert(0 * s == 0) by (nonlinear_arith);
        fx::lemma_div_shrinks(0, x);
    }
    assert(atan_unit_spec(0) == 0) by {
        let inner: int = QUARTER_PI_FX + (ATAN_K_FX * (s - 0)) / s;
        assert(0 * inner == 0) by (nonlinear_arith);
        fx::lemma_div_shrinks(0, s);
    }
}

} // verus!
