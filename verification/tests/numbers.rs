use dtrex::numfmt::{i64_to_string, parse_cents, u64_to_string};

#[test]
fn decimal_rendering_matches_the_usual_form() {
    assert_eq!(u64_to_string(0), "0".to_string());
    assert_eq!(u64_to_string(7), "7".to_string());
    assert_eq!(u64_to_string(120), "120".to_string());
    assert_eq!(u64_to_string(18446744073709551615), "18446744073709551615".to_string());
    assert_eq!(i64_to_string(-45), "-45".to_string());
    assert_eq!(i64_to_string(9007), "9007".to_string());
    assert_eq!(i64_to_string(i64::MIN), "-9223372036854775808".to_string());
}

#[test]
fn dollar_strings_parse_to_cents() {
    assert_eq!(parse_cents("1"), Some(100));
    assert_eq!(parse_cents("1.0"), Some(100));
    assert_eq!(parse_cents("1.00"), Some(100));
    assert_eq!(parse_cents("2.50"), Some(250));
    assert_eq!(parse_cents("0.75"), Some(75));
    assert_eq!(parse_cents("0.7"), Some(70));
    assert_eq!(parse_cents("12"), Some(1200));
    assert_eq!(parse_cents("007"), Some(700));
}

#[test]
fn non_amounts_parse_to_nothing() {
    assert_eq!(parse_cents(""), None);
    assert_eq!(parse_cents("abc"), None);
    assert_eq!(parse_cents("1.234"), None);
    assert_eq!(parse_cents(".5"), None);
    assert_eq!(parse_cents("1."), None);
    assert_eq!(parse_cents("1.2.3"), None);
    assert_eq!(parse_cents("-1"), None);
    assert_eq!(parse_cents("1,50"), None);
    // Too large for the integer range.
    assert_eq!(parse_cents("999999999999999999999999999999"), None);
}
