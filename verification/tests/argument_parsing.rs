use ring_search::args::{
    parse_args, parse_i32, parse_i64, seed_from, ArgError, ParseError, ParsedArgs, SearchArg,
};

fn argv(parts: &[&str]) -> Vec<Vec<u8>> {
    parts.iter().map(|s| s.as_bytes().to_vec()).collect()
}

#[test]
fn parse_i64_plain_values() {
    assert_eq!(parse_i64(b"0"), Ok(0));
    assert_eq!(parse_i64(b"123"), Ok(123));
    assert_eq!(parse_i64(b"-5"), Ok(-5));
    assert_eq!(parse_i64(b"+7"), Ok(7));
    assert_eq!(parse_i64(b"0012"), Ok(12));
    assert_eq!(parse_i64(b"9223372036854775807"), Ok(i64::MAX));
    assert_eq!(parse_i64(b"-9223372036854775808"), Ok(i64::MIN));
}

#[test]
fn parse_i64_matches_std_on_common_inputs() {
    for s in &["0", "42", "-42", "+1", "12345", "-9223372036854775808", "9223372036854775807"] {
        assert_eq!(parse_i64(s.as_bytes()), Ok(s.parse::<i64>().unwrap()));
    }
    for s in &["", "+", "-", "1x", " 1", "12.5", "99999999999999999999"] {
        assert!(parse_i64(s.as_bytes()).is_err());
        assert!(s.parse::<i64>().is_err());
    }
}

#[test]
fn parse_i64_error_kinds() {
    assert_eq!(parse_i64(b""), Err(ParseError::Empty));
    assert_eq!(parse_i64(b"+"), Err(ParseError::Empty));
    assert_eq!(parse_i64(b"-"), Err(ParseError::Empty));
    assert_eq!(parse_i64(b"12a"), Err(ParseError::InvalidDigit));
    assert_eq!(parse_i64(b"--1"), Err(ParseError::InvalidDigit));
    assert_eq!(parse_i64(b" 1"), Err(ParseError::InvalidDigit));
    assert_eq!(parse_i64(b"9223372036854775808"), Err(ParseError::TooLarge));
    assert_eq!(parse_i64(b"-9223372036854775809"), Err(ParseError::TooSmall));
    // Far beyond the 64-bit magnitude range, in both directions.
    assert_eq!(parse_i64(b"99999999999999999999999999999999999999999"), Err(ParseError::TooLarge));
    assert_eq!(parse_i64(b"-99999999999999999999999999999999999999999"), Err(ParseError::TooSmall));
}

#[test]
fn parse_i32_range() {
    assert_eq!(parse_i32(b"2147483647"), Ok(i32::MAX));
    assert_eq!(parse_i32(b"-2147483648"), Ok(i32::MIN));
    assert_eq!(parse_i32(b"2147483648"), Err(ParseError::TooLarge));
    assert_eq!(parse_i32(b"-2147483649"), Err(ParseError::TooSmall));
    assert_eq!(parse_i32(b"80"), Ok(80));
    assert_eq!(parse_i32(b"x"), Err(ParseError::InvalidDigit));
    assert_eq!(parse_i32(b""), Err(ParseError::Empty));
}

#[test]
fn seed_keeps_bit_pattern() {
    assert_eq!(seed_from(12345), 12345u64);
    assert_eq!(seed_from(0), 0u64);
    assert_eq!(seed_from(-1), u64::MAX);
    assert_eq!(seed_from(-1), (-1i64) as u64);
    assert_eq!(seed_from(i64::MIN), (i64::MIN) as u64);
    assert_eq!(seed_from(i64::MAX), i64::MAX as u64);
}

#[test]
fn parse_args_happy_path() {
    let r = parse_args(&argv(&["12345", "0", "0"]));
    assert_eq!(r, Ok(ParsedArgs { seed: 12345, x: 0, z: 0 }));
    let r = parse_args(&argv(&["-2", "-100", "250"]));
    assert_eq!(r, Ok(ParsedArgs { seed: (-2i64) as u64, x: -100, z: 250 }));
}

#[test]
fn parse_args_missing_arguments() {
    assert_eq!(parse_args(&argv(&[])), Err(ArgError::Missing(SearchArg::Seed)));
    assert_eq!(parse_args(&argv(&["12345"])), Err(ArgError::Missing(SearchArg::CoordX)));
    // The argument-validation scenario: only two arguments supplied.
    assert_eq!(parse_args(&argv(&["12345", "0"])), Err(ArgError::Missing(SearchArg::CoordZ)));
}

#[test]
fn parse_args_parse_failures() {
    assert_eq!(
        parse_args(&argv(&["seed", "0", "0"])),
        Err(ArgError::Parse(SearchArg::Seed, ParseError::InvalidDigit))
    );
    assert_eq!(
        parse_args(&argv(&["1", "", "0"])),
        Err(ArgError::Parse(SearchArg::CoordX, ParseError::Empty))
    );
    assert_eq!(
        parse_args(&argv(&["1", "0", "99999999999"])),
        Err(ArgError::Parse(SearchArg::CoordZ, ParseError::TooLarge))
    );
}
