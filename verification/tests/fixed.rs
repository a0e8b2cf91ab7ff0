use raytracer::fixed::Fixed;
use raytracer::fixed::RAW_MAX;
use std::f64::consts::PI;

fn fx(v: f64) -> Fixed {
    Fixed::from_raw((v * 1e9).round() as i64)
}

fn close(a: Fixed, b: f64, eps: f64) -> bool {
    ((a.raw as f64) / 1e9 - b).abs() <= eps
}

#[test]
fn one_is_a_billion_raw_units() {
    assert_eq!(Fixed::one().raw, 1_000_000_000);
    assert_eq!(Fixed::zero().raw, 0);
    assert_eq!(Fixed::from_int(3).raw, 3_000_000_000);
    assert_eq!(Fixed::from_usize(7).raw, 7_000_000_000);
}

#[test]
fn product_rounds_toward_zero() {
    assert_eq!((fx(1.5) * fx(2.5)).raw, 3_750_000_000);
    assert_eq!((Fixed::from_raw(3) * Fixed::from_raw(500_000_000)).raw, 1);
    assert_eq!((Fixed::from_raw(-3) * Fixed::from_raw(500_000_000)).raw, -1);
    assert_eq!((Fixed::from_raw(1) * Fixed::from_raw(1)).raw, 0);
}

#[test]
fn quotient_rounds_toward_zero() {
    assert_eq!((fx(1.0) / fx(3.0)).raw, 333_333_333);
    assert_eq!((fx(-1.0) / fx(3.0)).raw, -333_333_333);
    assert_eq!((fx(7.0) / fx(2.0)).raw, 3_500_000_000);
}

#[test]
fn division_by_zero_saturates() {
    assert_eq!((fx(1.0) / fx(0.0)).raw, RAW_MAX);
    assert_eq!((fx(-1.0) / fx(0.0)).raw, -RAW_MAX);
    assert_eq!((fx(0.0) / fx(0.0)).raw, 0);
}

#[test]
fn sums_and_products_saturate() {
    let big = Fixed::from_raw(RAW_MAX);
    assert_eq!((big + big).raw, RAW_MAX);
    assert_eq!((big.negate() - big).raw, -RAW_MAX);
    assert_eq!((big * big).raw, RAW_MAX);
    assert_eq!((big * big.negate()).raw, -RAW_MAX);
    assert_eq!(Fixed::from_int(i64::MAX).raw, RAW_MAX);
    assert_eq!(Fixed::from_raw(i64::MIN).negate().raw, RAW_MAX);
    assert_eq!(Fixed::from_raw(i64::MIN).abs().raw, RAW_MAX);
}

#[test]
fn negation_through_the_operator() {
    assert_eq!((-fx(2.5)).raw, -2_500_000_000);
}

#[test]
fn square_root_rounds_down() {
    assert_eq!(fx(4.0).sqrt().raw, 2_000_000_000);
    assert_eq!(fx(2.0).sqrt().raw, 1_414_213_562);
    assert_eq!(fx(0.0).sqrt().raw, 0);
    assert_eq!(fx(-1.0).sqrt().raw, 0);
    assert_eq!(Fixed::from_raw(RAW_MAX).sqrt().raw, 96_038_388_349_944);
}

#[test]
fn power_multiplies_step_by_step() {
    assert_eq!(fx(2.0).powi(0).raw, 1_000_000_000);
    assert_eq!(fx(2.0).powi(10).raw, 1_024_000_000_000);
    assert_eq!(fx(0.5).powi(3).raw, 125_000_000);
    assert!(close(fx(0.99).powi(200), 0.99f64.powi(200), 1e-7));
}

#[test]
fn floor_and_trunc_differ_below_zero() {
    assert_eq!(fx(1.5).floor(), 1);
    assert_eq!(fx(-1.5).floor(), -2);
    assert_eq!(fx(-1.0).floor(), -1);
    assert_eq!(fx(-0.000000001).floor(), -1);
    assert_eq!(fx(1.5).trunc(), 1);
    assert_eq!(fx(-1.5).trunc(), -1);
}

#[test]
fn comparisons_are_exact() {
    assert!(fx(0.0).is_zero());
    assert!(fx(1.0).is_near(fx(1.0001), fx(0.0001)));
    assert!(!fx(1.0).is_within(fx(1.0001), fx(0.0001)));
    assert!(fx(1.0).is_within(fx(1.00009), fx(0.0001)));
}

#[test]
fn sine_and_cosine_follow_the_circle() {
    let mut k = -40;
    while k <= 40 {
        let a = (k as f64) * 0.37;
        assert!(close(fx(a).sin(), a.sin(), 2e-8), "sin {}", a);
        assert!(close(fx(a).cos(), a.cos(), 2e-8), "cos {}", a);
        k += 1;
    }
    assert_eq!(fx(0.0).sin().raw, 0);
    assert_eq!(fx(0.0).cos().raw, 1_000_000_000);
    assert!(close(fx(PI / 2.0).sin(), 1.0, 1e-8));
    assert!(close(fx(PI / 6.0).sin(), 0.5, 1e-8));
    assert!(close(fx(-PI / 6.0).sin(), -0.5, 1e-8));
    assert!(close(fx(PI).cos(), -1.0, 1e-8));
}

#[test]
fn tangent_is_sine_over_cosine() {
    assert!(close(fx(PI / 4.0).tan(), 1.0, 1e-8));
    assert!(close(fx(0.3).tan(), 0.3f64.tan(), 1e-8));
    assert_eq!(fx(0.3).tan(), fx(0.3).sin() / fx(0.3).cos());
}

#[test]
fn float_eq_is_within_a_millionth() {
    assert!(raytracer::float_eq(fx(1.0), fx(1.000000999)));
    assert!(!raytracer::float_eq(fx(1.0), fx(1.000001)));
    assert!(raytracer::float_eq(fx(-2.0), fx(-2.0)));
    assert_eq!(raytracer::REFLECTION_RECURSION_DEPTH, 7);
}
