use ursuppe::fixed::{FX_LIM, FX_ONE, fx_abs, fx_add, fx_clip, fx_div, fx_half, fx_mul, fx_sub};
use ursuppe::brain::act;
use ursuppe::trig::{
    HALF_PI_FX, PI_FX, QUARTER_PI_FX, TAU_FX, angle_mod, angle_to, cos_fx, sin_fx,
};

#[test]
fn fx_basic_ops_test() {
    assert_eq!(fx_add(2 * FX_ONE, 3 * FX_ONE), 5 * FX_ONE);
    assert_eq!(fx_sub(2 * FX_ONE, 3 * FX_ONE), -FX_ONE);
    assert_eq!(fx_mul(2 * FX_ONE, 3 * FX_ONE), 6 * FX_ONE);
    assert_eq!(fx_mul(-FX_ONE / 2, FX_ONE / 2), -FX_ONE / 4);
    assert_eq!(fx_div(FX_ONE, 2 * FX_ONE), FX_ONE / 2);
    assert_eq!(fx_div(-3 * FX_ONE, 2 * FX_ONE), -(3 * FX_ONE) / 2);
    assert_eq!(fx_div(FX_ONE, 0), 0);
    assert_eq!(fx_abs(-7 * FX_ONE), 7 * FX_ONE);
    assert_eq!(fx_half(5 * FX_ONE), 5 * FX_ONE / 2);
    assert_eq!(fx_half(-5), -2);
    assert_eq!(fx_half(5), 2);
}

#[test]
fn fx_clip_saturates_test() {
    assert_eq!(fx_clip(i64::MAX), FX_LIM);
    assert_eq!(fx_clip(i64::MIN), -FX_LIM);
    assert_eq!(fx_clip(42), 42);
    // Operations clip their operands and results.
    assert_eq!(fx_add(i64::MAX, i64::MAX), FX_LIM);
    assert_eq!(fx_mul(FX_LIM, FX_LIM), FX_LIM);
    assert_eq!(fx_sub(-FX_LIM, FX_LIM), -FX_LIM);
}

#[test]
fn act_values_test() {
    // act(x) = x / (1 + |x|): odd, zero at zero, half at one.
    assert_eq!(act(0), 0);
    assert_eq!(act(FX_ONE), FX_ONE / 2);
    assert_eq!(act(-FX_ONE), -FX_ONE / 2);
    // Strictly inside (-1, 1) even for huge inputs.
    assert!(act(i64::MAX) < FX_ONE);
    assert!(act(i64::MIN) > -FX_ONE);
}

#[test]
fn trig_values_test() {
    assert_eq!(cos_fx(0), FX_ONE);
    assert_eq!(cos_fx(PI_FX), -FX_ONE);
    assert_eq!(cos_fx(TAU_FX), FX_ONE);
    assert_eq!(cos_fx(-TAU_FX), FX_ONE);
    assert_eq!(sin_fx(0), 0);
    assert_eq!(sin_fx(HALF_PI_FX), FX_ONE);
    assert_eq!(sin_fx(-HALF_PI_FX), -FX_ONE);
    assert_eq!(angle_mod(-HALF_PI_FX), TAU_FX - HALF_PI_FX);
}

#[test]
fn angle_to_quadrants_test() {
    // Bearings of the four axis directions and the origin.
    assert_eq!(angle_to(0, FX_ONE), 0);
    assert_eq!(angle_to(FX_ONE, 0), HALF_PI_FX);
    assert_eq!(angle_to(0, -FX_ONE), PI_FX);
    assert_eq!(angle_to(-FX_ONE, 0), -HALF_PI_FX);
    assert_eq!(angle_to(0, 0), 0);
    // The diagonal in the first quadrant.
    assert_eq!(angle_to(FX_ONE, FX_ONE), QUARTER_PI_FX);
}

#[test]
fn rand_helpers_in_range_test() {
    for _ in 0..1000 {
        let f = ursuppe::rng::rand_fraction();
        assert!(0 <= f && f < FX_ONE);
        let i = ursuppe::rng::rand_index(7);
        assert!(i < 7);
        let w = ursuppe::rng::rand_weight();
        assert!(-FX_ONE <= w && w < FX_ONE);
    }
}
