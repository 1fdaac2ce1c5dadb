use memtool::errors::MemError;
use memtool::poke::mem_set;
use memtool::writer::clear;

#[test]
fn clear_defaults_to_zero() {
    let mut region = vec![0xFFu8; 10];
    clear(&mut region, None);
    assert_eq!(region, vec![0u8; 10]);
}

#[test]
fn clear_uses_given_value() {
    let mut region = vec![0u8; 10];
    clear(&mut region, Some(0xAB));
    assert_eq!(region, vec![0xABu8; 10]);
}

#[test]
fn write_fills_with_fixed_value() {
    let mut region = vec![0u8; 7];
    memtool::writer::write(&mut region, Some(0x5A));
    assert_eq!(region, vec![0x5Au8; 7]);
}

#[test]
fn write_random_keeps_length() {
    let mut region = vec![0u8; 32];
    memtool::writer::write(&mut region, None);
    assert_eq!(region.len(), 32);
}

#[test]
fn poke_two_bytes_little_endian() {
    let mut region = vec![0xFFu8; 2];
    assert_eq!(mem_set(&mut region, 2, 0x1234), Ok(()));
    assert_eq!(region, vec![0x34u8, 0x12]);
}

#[test]
fn poke_rejects_invalid_size() {
    let mut region = vec![0xFFu8; 8];
    assert_eq!(mem_set(&mut region, 3, 0x1234), Err(MemError::InvalidSize));
    assert_eq!(region, vec![0xFFu8; 8]);
    assert_eq!(mem_set(&mut region, 0, 7), Err(MemError::InvalidSize));
    assert_eq!(mem_set(&mut region, 16, 7), Err(MemError::InvalidSize));
}

#[test]
fn poke_one_byte_truncates() {
    let mut region = vec![0u8; 1];
    assert_eq!(mem_set(&mut region, 1, 0x1FF), Ok(()));
    assert_eq!(region, vec![0xFFu8]);
}

#[test]
fn poke_four_bytes_keeps_tail() {
    let mut region = vec![0u8, 0, 0, 0, 9, 9];
    assert_eq!(mem_set(&mut region, 4, 0x11223344), Ok(()));
    assert_eq!(region, vec![0x44u8, 0x33, 0x22, 0x11, 9, 9]);
}

#[test]
fn poke_eight_bytes_little_endian() {
    let mut region = vec![0u8; 8];
    assert_eq!(mem_set(&mut region, 8, 0x0102030405060708), Ok(()));
    assert_eq!(region, vec![8u8, 7, 6, 5, 4, 3, 2, 1]);
}
