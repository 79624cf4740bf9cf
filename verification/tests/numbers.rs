use weather_reports::numbers::floor_div_i128;
use weather_reports::numbers::parse_i64;
use weather_reports::numbers::parse_milli;
use weather_reports::strings::u64_to_string;

#[test]
fn parses_integer_texts() {
    assert_eq!(parse_i64(b"0"), Some(0));
    assert_eq!(parse_i64(b"1613978904"), Some(1613978904));
    assert_eq!(parse_i64(b"-42"), Some(-42));
    assert_eq!(parse_i64(b"9223372036854775807"), Some(i64::MAX));
}

#[test]
fn rejects_non_integer_texts() {
    assert_eq!(parse_i64(b""), None);
    assert_eq!(parse_i64(b"-"), None);
    assert_eq!(parse_i64(b"12.5"), None);
    assert_eq!(parse_i64(b"1e3"), None);
    assert_eq!(parse_i64(b"12a"), None);
    assert_eq!(parse_i64(b"9223372036854775808"), None);
}

#[test]
fn parses_decimal_texts_into_thousandths() {
    assert_eq!(parse_milli(b"2.0"), Some(2000));
    assert_eq!(parse_milli(b"-12.94"), Some(-12940));
    assert_eq!(parse_milli(b"-23"), Some(-23000));
    assert_eq!(parse_milli(b"0.125"), Some(125));
    assert_eq!(parse_milli(b"-0.0"), Some(0));
}

#[test]
fn truncates_fraction_digits_beyond_thousandths() {
    assert_eq!(parse_milli(b"1.2345"), Some(1234));
    assert_eq!(parse_milli(b"-1.2345"), Some(-1234));
    assert_eq!(parse_milli(b"0.0009"), Some(0));
}

#[test]
fn rejects_malformed_decimal_texts() {
    assert_eq!(parse_milli(b""), None);
    assert_eq!(parse_milli(b"."), None);
    assert_eq!(parse_milli(b".5"), None);
    assert_eq!(parse_milli(b"5."), None);
    assert_eq!(parse_milli(b"1e30"), None);
    assert_eq!(parse_milli(b"1.2.3"), None);
    assert_eq!(parse_milli(b"--1"), None);
    assert_eq!(parse_milli(b"98999999999999999999"), None);
}

#[test]
fn renders_decimal_texts() {
    assert_eq!(u64_to_string(0), "0");
    assert_eq!(u64_to_string(7), "7");
    assert_eq!(u64_to_string(1234567890), "1234567890");
}

#[test]
fn floor_division_rounds_toward_negative_infinity() {
    assert_eq!(floor_div_i128(7, 2), 3);
    assert_eq!(floor_div_i128(-7, 2), -4);
    assert_eq!(floor_div_i128(-8, 2), -4);
    assert_eq!(floor_div_i128(0, 5), 0);
}
