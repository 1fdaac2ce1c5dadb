use memtool::dump::{dump, mem_dump, read};
use memtool::errors::MemError;

#[test]
fn empty_region_has_zero_lines() {
    let bytes: Vec<u8> = Vec::new();
    let lines = dump(0x1000, &bytes, 4, 0);
    assert_eq!(lines.len(), 0);
}

#[test]
fn unit1_seventeen_bytes_two_lines() {
    let bytes: Vec<u8> = (0u8..17).collect();
    let lines = dump(0x10, &bytes, 1, 17);
    assert_eq!(lines.len(), 2);
    assert_eq!(
        lines[0],
        "10: 00 01 02 03 04 05 06 07  08 09 0a 0b 0c 0d 0e 0f "
    );
    assert_eq!(lines[1], "20: 10 ");
    // line 1: 16 two-digit tokens, one extra gap space after the 8th
    let body = &lines[0][4..];
    let tokens: Vec<&str> = body.split_whitespace().collect();
    assert_eq!(tokens.len(), 16);
    // line 2: a single token
    let body2 = &lines[1][4..];
    let tokens2: Vec<&str> = body2.split_whitespace().collect();
    assert_eq!(tokens2.len(), 1);
}

#[test]
fn unit4_renders_little_endian_token() {
    let bytes = vec![0x11u8, 0x22, 0x33, 0x44];
    let lines = dump(0, &bytes, 4, 1);
    assert_eq!(lines.len(), 1);
    assert_eq!(lines[0], "00: 44332211 ");
}

#[test]
fn unit2_renders_little_endian_token() {
    let bytes = vec![0x34u8, 0x12];
    let lines = dump(0, &bytes, 2, 1);
    assert_eq!(lines.len(), 1);
    assert_eq!(lines[0], "00: 1234 ");
}

#[test]
fn unit8_two_tokens_with_mid_gap() {
    let bytes = vec![1u8, 2, 3, 4, 5, 6, 7, 8, 9, 10, 11, 12, 13, 14, 15, 16];
    let lines = dump(0, &bytes, 8, 2);
    assert_eq!(lines.len(), 1);
    assert_eq!(lines[0], "00: 0807060504030201  100f0e0d0c0b0a09 ");
}

#[test]
fn invalid_unit_falls_back_to_per_byte() {
    let bytes = vec![0x01u8, 0x02, 0x03];
    let lines = dump(0, &bytes, 3, 1);
    assert_eq!(lines.len(), 1);
    assert_eq!(lines[0], "00: 01 02 03 ");
}

#[test]
fn address_width_rounds_up_to_even() {
    // end address 0x10000 needs 5 hex digits, so the column is 6 wide
    let bytes = vec![0u8; 0x10000];
    let lines = dump(0, &bytes, 1, 0x10000);
    assert_eq!(lines.len(), 0x1000);
    assert!(lines[0].starts_with("000000: "));
    assert!(lines[1].starts_with("000010: "));
}

#[test]
fn read_rejects_empty_region() {
    let bytes: Vec<u8> = Vec::new();
    let r = read(0, &bytes);
    assert_eq!(r, Err(MemError::EmptyRange));
}

#[test]
fn read_dumps_per_byte() {
    let bytes = vec![0xABu8, 0xCD];
    let lines = read(0x100, &bytes).unwrap();
    assert_eq!(lines.len(), 1);
    assert_eq!(lines[0], "0100: ab cd ");
}

#[test]
fn mem_dump_rejects_empty_region() {
    let bytes: Vec<u8> = Vec::new();
    let r = mem_dump(0, &bytes, 4, 0);
    assert_eq!(r, Err(MemError::EmptyRange));
}

#[test]
fn mem_dump_groups_by_unit() {
    let bytes = vec![0x78u8, 0x56, 0x34, 0x12, 0xEF, 0xBE, 0xAD, 0xDE];
    let lines = mem_dump(0x2000, &bytes, 4, 2).unwrap();
    assert_eq!(lines.len(), 1);
    assert_eq!(lines[0], "2000: 12345678 deadbeef ");
}
