//! The saturating fixed-point scalar and the sampling helpers.

use weekendraytracer::fixed::{
    fx_add,
    fx_div,
    fx_from_int,
    fx_from_usize,
    fx_mul,
    fx_neg,
    fx_sqrt,
    fx_sub,
    ONE,
    SCALE,
};
use weekendraytracer::sampling::{random_in_unit_disk, random_in_unit_sphere, random_unit_scalar};

#[test]
fn exact_arithmetic_on_the_grid() {
    assert_eq!(fx_add(2 * ONE, 3 * ONE), 5 * ONE);
    assert_eq!(fx_sub(2 * ONE, 3 * ONE), -ONE);
    assert_eq!(fx_neg(2 * ONE), -2 * ONE);
    assert_eq!(fx_mul(2 * ONE, -3 * ONE), -6 * ONE);
    assert_eq!(fx_div(ONE, 2 * ONE), 500_000);
    assert_eq!(fx_from_int(7), 7 * ONE);
    assert_eq!(fx_from_usize(7), 7 * ONE);
}

#[test]
fn products_truncate_toward_zero() {
    // One grid step squared vanishes below the grid.
    assert_eq!(fx_mul(1, 1), 0);
    assert_eq!(fx_mul(-1, 1), 0);
    // A third truncates rather than rounds.
    assert_eq!(fx_div(ONE, 3 * ONE), 333_333);
    assert_eq!(fx_div(-ONE, 3 * ONE), -333_333);
}

#[test]
fn saturation_mirrors_runaway_floats() {
    assert_eq!(fx_add(i64::MAX, ONE), i64::MAX);
    assert_eq!(fx_sub(i64::MIN, ONE), i64::MIN);
    assert_eq!(fx_neg(i64::MIN), i64::MAX);
    assert_eq!(fx_mul(i64::MAX, i64::MAX), i64::MAX);
    assert_eq!(fx_mul(i64::MAX, i64::MIN), i64::MIN);
    // Division by zero saturates by the dividend's sign.
    assert_eq!(fx_div(ONE, 0), i64::MAX);
    assert_eq!(fx_div(-ONE, 0), i64::MIN);
    assert_eq!(fx_div(0, 0), 0);
}

#[test]
fn square_roots_are_exact_on_perfect_squares() {
    assert_eq!(fx_sqrt(0), 0);
    assert_eq!(fx_sqrt(ONE), ONE);
    assert_eq!(fx_sqrt(4 * ONE), 2 * ONE);
    assert_eq!(fx_sqrt(2_250_000), 1_500_000);
    // Between squares the root is taken from below.
    assert_eq!(fx_sqrt(2 * ONE), 1_414_213);
}

#[test]
fn unit_scalars_stay_in_range() {
    for _ in 0..256 {
        let r = random_unit_scalar();
        assert!(0 <= r && r < SCALE);
    }
}

#[test]
fn rejection_sampling_stays_inside_its_region() {
    for _ in 0..64 {
        let p = random_in_unit_sphere();
        assert!(p.length_squared() < SCALE);
        assert_eq!(p.w, 0);

        let d = random_in_unit_disk();
        assert!(d.dot3(d) < SCALE);
        assert_eq!(d.z, 0);
        assert_eq!(d.w, 0);
    }
}
