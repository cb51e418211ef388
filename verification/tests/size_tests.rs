use netlab::size::{Size, SizeError};
use std::str::FromStr;

#[test]
fn to_bytes_of_each_unit() {
    assert_eq!(Size::Byte(500).to_bytes(), 500);
    assert_eq!(Size::KB(1).to_bytes(), 1024);
    assert_eq!(Size::KB(60).to_bytes(), 61440);
    assert_eq!(Size::MB(500).to_bytes(), 524288000);
    assert_eq!(Size::GB(1).to_bytes(), 1073741824);
}

#[test]
fn parse_default_arguments() {
    assert_eq!(Size::parse("500MB"), Ok(Size::MB(500)));
    assert_eq!(Size::parse("60KB"), Ok(Size::KB(60)));
}

#[test]
fn parse_every_unit_spelling() {
    assert_eq!(Size::parse("7"), Ok(Size::Byte(7)));
    assert_eq!(Size::parse("7B"), Ok(Size::Byte(7)));
    assert_eq!(Size::parse("7byte"), Ok(Size::Byte(7)));
    assert_eq!(Size::parse("7BYTE"), Ok(Size::Byte(7)));
    assert_eq!(Size::parse("7k"), Ok(Size::KB(7)));
    assert_eq!(Size::parse("7Kb"), Ok(Size::KB(7)));
    assert_eq!(Size::parse("7m"), Ok(Size::MB(7)));
    assert_eq!(Size::parse("7mB"), Ok(Size::MB(7)));
    assert_eq!(Size::parse("7G"), Ok(Size::GB(7)));
    assert_eq!(Size::parse("7gb"), Ok(Size::GB(7)));
}

#[test]
fn parse_trims_white_space_around_the_unit() {
    assert_eq!(Size::parse("12 MB"), Ok(Size::MB(12)));
    assert_eq!(Size::parse("12\tkb  "), Ok(Size::KB(12)));
    assert_eq!(Size::parse("12 "), Ok(Size::Byte(12)));
    assert_eq!(Size::parse("12\u{3000}GB\u{a0}"), Ok(Size::GB(12)));
}

#[test]
fn parse_leading_zeros() {
    assert_eq!(Size::parse("007KB"), Ok(Size::KB(7)));
    assert_eq!(Size::parse("0"), Ok(Size::Byte(0)));
}

#[test]
fn parse_invalid_number() {
    assert_eq!(Size::parse(""), Err(SizeError::InvalidNumber));
    assert_eq!(Size::parse("MB"), Err(SizeError::InvalidNumber));
    assert_eq!(Size::parse(" 5MB"), Err(SizeError::InvalidNumber));
    assert_eq!(Size::parse("-5"), Err(SizeError::InvalidNumber));
    assert_eq!(Size::parse("+5"), Err(SizeError::InvalidNumber));
    assert_eq!(
        Size::parse("99999999999999999999999999KB"),
        Err(SizeError::InvalidNumber)
    );
}

#[test]
fn parse_number_at_the_limit() {
    let max = usize::MAX.to_string();
    assert_eq!(Size::parse(&max), Ok(Size::Byte(usize::MAX)));
    let over = format!("{}0", usize::MAX);
    assert_eq!(Size::parse(&over), Err(SizeError::InvalidNumber));
}

#[test]
fn parse_invalid_unit() {
    assert_eq!(Size::parse("5TB"), Err(SizeError::InvalidUnit));
    assert_eq!(Size::parse("5 M B"), Err(SizeError::InvalidUnit));
    assert_eq!(Size::parse("5KBB"), Err(SizeError::InvalidUnit));
    assert_eq!(Size::parse("5.5MB"), Err(SizeError::InvalidUnit));
    assert_eq!(Size::parse("5é"), Err(SizeError::InvalidUnit));
}

#[test]
fn from_str_error_messages() {
    assert_eq!(Size::from_str("abc"), Err("Invalid number format".to_string()));
    assert_eq!(
        Size::from_str("3XB"),
        Err("Invalid unit (use B, KB, MB, GB)".to_string())
    );
    assert_eq!(Size::from_str("3 kb"), Ok(Size::KB(3)));
}

#[test]
fn checked_bytes_detects_overflow() {
    assert_eq!(Size::KB(2).checked_bytes(), Some(2048));
    assert_eq!(Size::GB(usize::MAX).checked_bytes(), None);
    assert_eq!(Size::Byte(usize::MAX).checked_bytes(), Some(usize::MAX));
    assert_eq!(Size::KB(usize::MAX / 1024).checked_bytes(), Some(usize::MAX / 1024 * 1024));
    assert_eq!(Size::KB(usize::MAX / 1024 + 1).checked_bytes(), None);
}
