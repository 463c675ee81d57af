//! Exact-value tests for the fixed-point scalar and vector operations.

use nbody::fixed::{fx_add, fx_div, fx_half, fx_mul, fx_sub, isqrt, FX_MAX, FX_MIN, SCALE};
use nbody::vector::{v2_add, v2_dot, v2_norm, v2_raw2, v2_scale, v2_sub, Vec2};

#[test]
fn scale_is_a_thousandth() {
    assert_eq!(SCALE, 1000);
    assert_eq!(FX_MIN, -FX_MAX);
}

#[test]
fn addition_is_exact_in_range() {
    assert_eq!(fx_add(1, 2), 3);
    assert_eq!(fx_add(-1500, 500), -1000);
    assert_eq!(fx_sub(500, 1500), -1000);
}

#[test]
fn addition_saturates_symmetrically() {
    assert_eq!(fx_add(FX_MAX, FX_MAX), FX_MAX);
    assert_eq!(fx_add(FX_MIN, FX_MIN), FX_MIN);
    assert_eq!(fx_sub(FX_MIN, FX_MAX), FX_MIN);
    assert_eq!(fx_sub(FX_MAX, FX_MIN), FX_MAX);
}

#[test]
fn multiplication_divides_by_scale() {
    // 2.5 * 4.0 == 10.0
    assert_eq!(fx_mul(2500, 4000), 10000);
    // -1.5 * 2.0 == -3.0
    assert_eq!(fx_mul(-1500, 2000), -3000);
    // 1.5 * -1.5 == -2.25
    assert_eq!(fx_mul(1500, -1500), -2250);
}

#[test]
fn multiplication_truncates_toward_zero() {
    assert_eq!(fx_mul(1, 999), 0);
    assert_eq!(fx_mul(-1, 999), 0);
    assert_eq!(fx_mul(1, -999), 0);
}

#[test]
fn multiplication_saturates() {
    assert_eq!(fx_mul(FX_MAX, 2000), FX_MAX);
    assert_eq!(fx_mul(FX_MAX, -2000), FX_MIN);
}

#[test]
fn division_is_exact_in_thousandths() {
    // 1.0 / 3 (a scalar divisor of 3 sub-units would be 0.003)
    assert_eq!(fx_div(1000, 3), 333333);
    assert_eq!(fx_div(-1000, 3), -333333);
}

#[test]
fn halving_truncates_toward_zero() {
    assert_eq!(fx_half(5), 2);
    assert_eq!(fx_half(-5), -2);
    assert_eq!(fx_half(0), 0);
}

#[test]
fn integer_square_roots() {
    assert_eq!(isqrt(0), 0);
    assert_eq!(isqrt(1), 1);
    assert_eq!(isqrt(2), 1);
    assert_eq!(isqrt(999999), 999);
    assert_eq!(isqrt(1000000), 1000);
    assert_eq!(isqrt(u128::MAX), (1u128 << 64) - 1);
}

#[test]
fn vector_arithmetic() {
    let a = Vec2::new(2000, 3000);
    let b = Vec2::new(4000, 500);
    assert_eq!(v2_add(a, b), Vec2::new(6000, 3500));
    assert_eq!(v2_sub(a, b), Vec2::new(-2000, 2500));
    assert_eq!(v2_scale(a, 500), Vec2::new(1000, 1500));
    // 2.0*4.0 + 3.0*0.5 == 9.5
    assert_eq!(v2_dot(a, b), 9500);
}

#[test]
fn vector_norm_of_a_pythagorean_triple() {
    let v = Vec2::new(3000, 4000);
    assert_eq!(v2_raw2(v), 25_000_000);
    assert_eq!(v2_norm(v), 5000);
    assert_eq!(v2_norm(Vec2::new(0, 0)), 0);
}
