use raytracer::decimal::parse_decimal;
use raytracer::fixed::Fixed;
use raytracer::fixed::RAW_MAX;

fn raw(text: &str) -> Option<i64> {
    parse_decimal(text).map(|v| v.raw)
}

#[test]
fn whole_numbers_and_fractions() {
    assert_eq!(raw("0"), Some(0));
    assert_eq!(raw("12"), Some(12_000_000_000));
    assert_eq!(raw("0.345"), Some(345_000_000));
    assert_eq!(raw("7.5"), Some(7_500_000_000));
    assert_eq!(raw("1.57079632679"), Some(1_570_796_326));
    assert_eq!(raw("0.000000001"), Some(1));
    assert_eq!(raw("0.0000000009"), Some(0));
    assert_eq!(raw("007.250"), Some(7_250_000_000));
}

#[test]
fn signs_and_bare_points() {
    assert_eq!(raw("-0.5"), Some(-500_000_000));
    assert_eq!(raw("+0.5"), Some(500_000_000));
    assert_eq!(raw("-3"), Some(-3_000_000_000));
    assert_eq!(raw(".25"), Some(250_000_000));
    assert_eq!(raw("3."), Some(3_000_000_000));
    assert_eq!(raw("-.5"), Some(-500_000_000));
    assert_eq!(raw("-0"), Some(0));
}

#[test]
fn what_is_no_numeral() {
    assert_eq!(raw(""), None);
    assert_eq!(raw("-"), None);
    assert_eq!(raw("+"), None);
    assert_eq!(raw("."), None);
    assert_eq!(raw("-."), None);
    assert_eq!(raw("1.2.3"), None);
    assert_eq!(raw("1e3"), None);
    assert_eq!(raw("--1"), None);
    assert_eq!(raw("1-"), None);
    assert_eq!(raw(" 1"), None);
    assert_eq!(raw("1,5"), None);
    assert_eq!(raw("0x10"), None);
    assert_eq!(raw("inf"), None);
    assert_eq!(raw("1.5x"), None);
    assert_eq!(raw("٣"), None);
}

#[test]
fn numerals_out_of_range_saturate() {
    assert_eq!(raw("9223372036.854775807"), Some(RAW_MAX));
    assert_eq!(raw("9223372036.854775806"), Some(RAW_MAX - 1));
    assert_eq!(raw("9223372037"), Some(RAW_MAX));
    assert_eq!(raw("-9223372037"), Some(-RAW_MAX));
    assert_eq!(raw("100000000000000000000000000000000000000000000"), Some(RAW_MAX));
    assert_eq!(raw("-100000000000000000000000000000000000000000000.5"), Some(-RAW_MAX));
    assert_eq!(parse_decimal("2.5"), Some(Fixed::from_raw(2_500_000_000)));
}
