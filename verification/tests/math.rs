//! Fixed-point arithmetic, vectors and trigonometry.

use gymnast::fx;
use gymnast::fx::SCALE;
use gymnast::trig;
use gymnast::vec2::FxVec2;

#[test]
fn fx_mul_exact() {
    // 1.5 * 2.0 == 3.0 in Q16.16.
    assert_eq!(fx::fx_mul(98304, 131072), 196608);
    // Signs follow the factors; rounding truncates toward zero.
    assert_eq!(fx::fx_mul(-98304, 131072), -196608);
    assert_eq!(fx::fx_mul(1, 1), 0);
}

#[test]
fn fx_div_exact() {
    // 3.0 / 2.0 == 1.5.
    assert_eq!(fx::fx_div(196608, 131072), 98304);
    assert_eq!(fx::fx_div(-196608, 131072), -98304);
}

#[test]
fn fx_round_halves_away_from_zero() {
    assert_eq!(fx::fx_round(SCALE / 2), 1);
    assert_eq!(fx::fx_round(-SCALE / 2), -1);
    assert_eq!(fx::fx_round(SCALE / 2 - 1), 0);
    assert_eq!(fx::fx_round(3 * SCALE + 1), 3);
}

#[test]
fn sgn_zero_is_zero() {
    assert_eq!(fx::sgn(0), 0);
    assert_eq!(fx::sgn(7), 1);
    assert_eq!(fx::sgn(-7), -1);
}

#[test]
fn isqrt_exact() {
    assert_eq!(gymnast::vec2::isqrt64(0), 0);
    assert_eq!(gymnast::vec2::isqrt64(1), 1);
    assert_eq!(gymnast::vec2::isqrt64(15), 3);
    assert_eq!(gymnast::vec2::isqrt64(16), 4);
    assert_eq!(gymnast::vec2::isqrt64(u64::MAX), 0xFFFF_FFFF);
}

#[test]
fn normalize_unit_axes() {
    let v = FxVec2 { x: 5 * SCALE, y: 0 };
    let n = v.normalize_or_zero();
    assert_eq!(n.x, SCALE);
    assert_eq!(n.y, 0);
    let z = FxVec2 { x: 0, y: 0 }.normalize_or_zero();
    assert_eq!((z.x, z.y), (0, 0));
}

#[test]
fn perp_dot_of_unit_pair() {
    let v = FxVec2 { x: 3 * SCALE, y: 0 };
    let up = FxVec2 { x: 0, y: -SCALE };
    // x cross (-y) for a rightward velocity against an upward anchor.
    assert_eq!(v.perp_dot(up), -3 * SCALE);
    assert_eq!(v.dot(up), 0);
}

#[test]
fn sine_fixed_points() {
    assert_eq!(trig::sin_fx(0), 0);
    assert_eq!(trig::sin_fx(trig::PI_FX), 0);
    let quarter = trig::sin_fx(trig::HALF_PI_FX);
    assert!(quarter > SCALE - 8 && quarter <= SCALE, "sin(pi/2) ~ 1: {}", quarter);
    // Odd symmetry.
    assert_eq!(trig::sin_fx(-trig::HALF_PI_FX), -quarter);
}

#[test]
fn cosine_fixed_points() {
    let one = trig::cos_fx(0);
    assert!(one > SCALE - 8 && one <= SCALE, "cos(0) ~ 1: {}", one);
    assert_eq!(trig::cos_fx(trig::HALF_PI_FX), 0);
    // Even symmetry.
    assert_eq!(trig::cos_fx(trig::QUARTER_PI_FX), trig::cos_fx(-trig::QUARTER_PI_FX));
}

#[test]
fn atan2_axes() {
    assert_eq!(trig::atan2_fx(0, 1000), 0);
    assert_eq!(trig::atan2_fx(1000, 0), trig::HALF_PI_FX);
    assert_eq!(trig::atan2_fx(0, -1000), trig::PI_FX);
    assert_eq!(trig::atan2_fx(-1000, 0), -trig::HALF_PI_FX);
}

#[test]
fn wrap_angle_range() {
    assert_eq!(trig::wrap_angle(0), 0);
    assert_eq!(trig::wrap_angle(trig::TAU_FX), 0);
    assert_eq!(trig::wrap_angle(trig::PI_FX), -trig::PI_FX);
    assert_eq!(trig::wrap_angle(-trig::TAU_FX - 5), -5);
}
