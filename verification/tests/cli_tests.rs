use memtool::cli::{addr_validator, size_validator, str2u64, str2usize, unit_validator};
use memtool::errors::MemError;

#[test]
fn str2u64_decimal() {
    assert_eq!(str2u64("123"), Ok(123));
    assert_eq!(str2u64("0"), Ok(0));
    assert_eq!(str2u64("18446744073709551615"), Ok(u64::MAX));
}

#[test]
fn str2u64_hex_prefix() {
    assert_eq!(str2u64("0x1F"), Ok(31));
    assert_eq!(str2u64("0X1f"), Ok(31));
    assert_eq!(str2u64("0xffffffffffffffff"), Ok(u64::MAX));
}

#[test]
fn str2u64_binary_prefix() {
    assert_eq!(str2u64("0b101"), Ok(5));
    assert_eq!(str2u64("0B11"), Ok(3));
}

#[test]
fn str2u64_rejects_malformed() {
    assert_eq!(str2u64(""), Err(MemError::Parse));
    assert_eq!(str2u64("0x"), Err(MemError::Parse));
    assert_eq!(str2u64("0b"), Err(MemError::Parse));
    assert_eq!(str2u64("12a"), Err(MemError::Parse));
    assert_eq!(str2u64("0xg1"), Err(MemError::Parse));
    assert_eq!(str2u64("0b12"), Err(MemError::Parse));
    assert_eq!(str2u64("-5"), Err(MemError::Parse));
    assert_eq!(str2u64(" 5"), Err(MemError::Parse));
}

#[test]
fn str2u64_rejects_overflow() {
    assert_eq!(str2u64("18446744073709551616"), Err(MemError::Parse));
    assert_eq!(str2u64("0x10000000000000000"), Err(MemError::Parse));
}

#[test]
fn str2usize_parses_and_bounds() {
    assert_eq!(str2usize("42"), Ok(42));
    assert_eq!(str2usize("0x100"), Ok(256));
    assert_eq!(str2usize("nope"), Err(MemError::Parse));
}

#[test]
fn addr_validator_accepts_any_literal() {
    assert_eq!(addr_validator("0x80000000"), Ok(0x80000000));
    assert_eq!(addr_validator("4096"), Ok(4096));
    assert_eq!(addr_validator("zzz"), Err(MemError::Parse));
}

#[test]
fn size_validator_applies_suffixes() {
    assert_eq!(size_validator("10"), Ok(10));
    assert_eq!(size_validator("1K"), Ok(1024));
    assert_eq!(size_validator("1k"), Ok(1024));
    assert_eq!(size_validator("2M"), Ok(2 * 1024 * 1024));
    assert_eq!(size_validator("1G"), Ok(1024 * 1024 * 1024));
    assert_eq!(size_validator("1T"), Ok(1024usize * 1024 * 1024 * 1024));
    assert_eq!(size_validator("0x10K"), Ok(16 * 1024));
}

#[test]
fn size_validator_rejects_bare_suffix() {
    assert_eq!(size_validator("K"), Err(MemError::Parse));
    assert_eq!(size_validator("t"), Err(MemError::Parse));
    assert_eq!(size_validator(""), Err(MemError::Parse));
}

#[test]
fn size_validator_rejects_malformed_or_overflow() {
    assert_eq!(size_validator("1Q"), Err(MemError::Parse));
    assert_eq!(size_validator("xK"), Err(MemError::Parse));
    // 2^34 * 1 GiB overflows a 64-bit usize
    assert_eq!(size_validator("17179869184G"), Err(MemError::Parse));
}

#[test]
fn unit_validator_accepts_exactly_the_four_units() {
    assert_eq!(unit_validator("1"), Ok(1));
    assert_eq!(unit_validator("2"), Ok(2));
    assert_eq!(unit_validator("4"), Ok(4));
    assert_eq!(unit_validator("8"), Ok(8));
    assert_eq!(unit_validator("3"), Err(MemError::Parse));
    assert_eq!(unit_validator("16"), Err(MemError::Parse));
    assert_eq!(unit_validator(""), Err(MemError::Parse));
}

#[test]
fn error_descriptions() {
    assert_eq!(
        MemError::InvalidSize.describe(),
        "invalid size, please input --help to get usage"
    );
    assert_eq!(MemError::EmptyRange.describe(), "size must be positive");
    assert_eq!(MemError::Parse.describe(), "malformed numeric literal");
}
