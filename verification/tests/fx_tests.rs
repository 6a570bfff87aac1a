use raytracer::fx::{
    fx_clamp, fx_div, fx_half, fx_max0, fx_mul, fx_powi, fx_sqrt, isqrt, sat_abs, sat_add,
    sat_dbl, sat_neg, sat_sub, FX_ONE,
};

#[test]
fn test_fx_mul_truncates_toward_zero() {
    assert_eq!(fx_mul(FX_ONE, FX_ONE), FX_ONE);
    assert_eq!(fx_mul(3 * FX_ONE, 2 * FX_ONE), 6 * FX_ONE);
    assert_eq!(fx_mul(FX_ONE / 2, FX_ONE / 2), FX_ONE / 4);
    assert_eq!(fx_mul(-FX_ONE / 2, FX_ONE / 2), -(FX_ONE / 4));
    assert_eq!(fx_mul(1, 1), 0);
    assert_eq!(fx_mul(-1, 1), 0);
}

#[test]
fn test_fx_mul_saturates() {
    assert_eq!(fx_mul(i64::MAX, 2 * FX_ONE), i64::MAX);
    assert_eq!(fx_mul(i64::MAX, -2 * FX_ONE), i64::MIN);
}

#[test]
fn test_fx_div_truncates_toward_zero() {
    assert_eq!(fx_div(FX_ONE, 2 * FX_ONE), FX_ONE / 2);
    assert_eq!(fx_div(-FX_ONE, 2 * FX_ONE), -(FX_ONE / 2));
    assert_eq!(fx_div(FX_ONE, -2 * FX_ONE), -(FX_ONE / 2));
    assert_eq!(fx_div(1, 3), 21845);
}

#[test]
fn test_fx_sqrt_values() {
    assert_eq!(fx_sqrt(FX_ONE), FX_ONE);
    assert_eq!(fx_sqrt(4 * FX_ONE), 2 * FX_ONE);
    // The square root of two, rounded down to the grid.
    assert_eq!(fx_sqrt(2 * FX_ONE), 92681);
    assert_eq!(fx_sqrt(0), 0);
    assert_eq!(isqrt(10), 3);
    assert_eq!(isqrt(16), 4);
}

#[test]
fn test_fx_powi() {
    assert_eq!(fx_powi(FX_ONE / 2, 0), FX_ONE);
    assert_eq!(fx_powi(FX_ONE / 2, 1), FX_ONE / 2);
    assert_eq!(fx_powi(FX_ONE / 2, 2), FX_ONE / 4);
    assert_eq!(fx_powi(FX_ONE, 30), FX_ONE);
}

#[test]
fn test_saturating_helpers() {
    assert_eq!(sat_add(i64::MAX, 1), i64::MAX);
    assert_eq!(sat_sub(i64::MIN, 1), i64::MIN);
    assert_eq!(sat_neg(i64::MIN), i64::MAX);
    assert_eq!(sat_dbl(i64::MAX), i64::MAX);
    assert_eq!(sat_abs(i64::MIN), i64::MAX);
    assert_eq!(sat_abs(-5), 5);
    assert_eq!(fx_half(7), 3);
    assert_eq!(fx_max0(-3), 0);
    assert_eq!(fx_max0(3), 3);
    assert_eq!(fx_clamp(5, -2, 2), 2);
    assert_eq!(fx_clamp(-5, -2, 2), -2);
}
