use spinning_rust_chiller::text::{contains_x, nth_token_x, parse_i32_x};

fn chars(s: &str) -> Vec<char> {
    s.chars().collect()
}

#[test]
fn parse_i32_accepts_plain_and_signed_decimals() {
    assert_eq!(parse_i32_x(&chars("42")), Some(42));
    assert_eq!(parse_i32_x(&chars("0")), Some(0));
    assert_eq!(parse_i32_x(&chars("-5")), Some(-5));
    assert_eq!(parse_i32_x(&chars("+7")), Some(7));
}

#[test]
fn parse_i32_handles_type_bounds() {
    assert_eq!(parse_i32_x(&chars("2147483647")), Some(i32::MAX));
    assert_eq!(parse_i32_x(&chars("2147483648")), None);
    assert_eq!(parse_i32_x(&chars("-2147483648")), Some(i32::MIN));
    assert_eq!(parse_i32_x(&chars("-2147483649")), None);
    assert_eq!(parse_i32_x(&chars("99999999999")), None);
}

#[test]
fn parse_i32_rejects_malformed_input() {
    assert_eq!(parse_i32_x(&chars("")), None);
    assert_eq!(parse_i32_x(&chars("-")), None);
    assert_eq!(parse_i32_x(&chars("+")), None);
    assert_eq!(parse_i32_x(&chars("12a")), None);
    assert_eq!(parse_i32_x(&chars(" 12")), None);
    assert_eq!(parse_i32_x(&chars("1 2")), None);
    assert_eq!(parse_i32_x(&chars("--3")), None);
}

#[test]
fn nth_token_splits_on_ascii_whitespace() {
    let line = chars("  alpha\tbeta   gamma ");
    assert_eq!(nth_token_x(&line, 0), Some(chars("alpha")));
    assert_eq!(nth_token_x(&line, 1), Some(chars("beta")));
    assert_eq!(nth_token_x(&line, 2), Some(chars("gamma")));
    assert_eq!(nth_token_x(&line, 3), None);
}

#[test]
fn contains_finds_substrings() {
    let line = chars("194 Temperature_Celsius 0x0022");
    assert!(contains_x(&line, &chars("Temperature_Celsius")));
    assert!(contains_x(&line, &chars("")));
    assert!(!contains_x(&line, &chars("Airflow")));
}
