use cvars::number::{int_to_string, parse_int, IntError};
use cvars::text::{split_words, str_eq_ignore_case};

#[test]
fn test_split_words() {
    assert_eq!(split_words("  a bb\tccc\n"), vec!["a", "bb", "ccc"]);
    assert!(split_words(" \u{3000} ").is_empty());
    assert_eq!(split_words("x\u{a0}y"), vec!["x", "y"]);
}

#[test]
fn test_parse_int() {
    assert_eq!(parse_int("123", 0, 1000), Ok(123));
    assert_eq!(parse_int("-12", -100, 100), Ok(-12));
    assert_eq!(parse_int("-12", 0, 100), Err(IntError::InvalidDigit));
    assert_eq!(parse_int("1001", 0, 1000), Err(IntError::PosOverflow));
    assert_eq!(parse_int("-101", -100, 100), Err(IntError::NegOverflow));
    assert_eq!(parse_int("", -100, 100), Err(IntError::Empty));
    assert_eq!(parse_int("-", -100, 100), Err(IntError::InvalidDigit));
    assert_eq!(parse_int("1 ", -100, 100), Err(IntError::InvalidDigit));
}

#[test]
fn test_int_to_string() {
    assert_eq!(int_to_string(0), "0");
    assert_eq!(int_to_string(-507), "-507");
    assert_eq!(int_to_string(18446744073709551615), "18446744073709551615");
}

#[test]
fn test_ignore_case() {
    assert!(str_eq_ignore_case("Vertical", "vERTICAL"));
    assert!(!str_eq_ignore_case("Vertical", "Vertica"));
    assert!(!str_eq_ignore_case("é", "É"));
}
