//! The reading of number input lines: trimming, signs, digit grammar and
//! the signed 64-bit range.

use interp::input::parse_input_number;
use interp::value::RuntimeError;
use interp::value::Value;

#[test]
fn parses_plain_number() {
    assert_eq!(parse_input_number("42"), Ok(Value::Integer(42)));
}

#[test]
fn parses_trimmed_negative_number() {
    assert_eq!(parse_input_number(" \t-17\r\n"), Ok(Value::Integer(-17)));
}

#[test]
fn parses_explicit_plus() {
    assert_eq!(parse_input_number("+5"), Ok(Value::Integer(5)));
}

#[test]
fn parses_leading_zeros() {
    assert_eq!(parse_input_number("007"), Ok(Value::Integer(7)));
}

#[test]
fn parses_zero() {
    assert_eq!(parse_input_number("0\n"), Ok(Value::Integer(0)));
}

#[test]
fn empty_line_is_invalid() {
    assert_eq!(parse_input_number(""), Err(RuntimeError::InvalidInputFormat));
    assert_eq!(
        parse_input_number("  \n"),
        Err(RuntimeError::InvalidInputFormat)
    );
}

#[test]
fn junk_is_invalid() {
    assert_eq!(
        parse_input_number("abc"),
        Err(RuntimeError::InvalidInputFormat)
    );
    assert_eq!(
        parse_input_number("12a"),
        Err(RuntimeError::InvalidInputFormat)
    );
    assert_eq!(
        parse_input_number("1 2"),
        Err(RuntimeError::InvalidInputFormat)
    );
    assert_eq!(
        parse_input_number("--5"),
        Err(RuntimeError::InvalidInputFormat)
    );
    assert_eq!(
        parse_input_number("+"),
        Err(RuntimeError::InvalidInputFormat)
    );
    assert_eq!(
        parse_input_number("-"),
        Err(RuntimeError::InvalidInputFormat)
    );
}

#[test]
fn parses_the_whole_signed_range() {
    assert_eq!(
        parse_input_number("9223372036854775807"),
        Ok(Value::Integer(i64::MAX))
    );
    assert_eq!(
        parse_input_number("-9223372036854775808"),
        Ok(Value::Integer(i64::MIN))
    );
}

#[test]
fn out_of_range_is_invalid() {
    assert_eq!(
        parse_input_number("9223372036854775808"),
        Err(RuntimeError::InvalidInputFormat)
    );
    assert_eq!(
        parse_input_number("-9223372036854775809"),
        Err(RuntimeError::InvalidInputFormat)
    );
    assert_eq!(
        parse_input_number("99999999999999999999999999"),
        Err(RuntimeError::InvalidInputFormat)
    );
}
