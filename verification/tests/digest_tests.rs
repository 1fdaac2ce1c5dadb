use crypto::digest::Digest;
use crypto::md5::Md5;
use memtool::digest::get_md5;

fn one_pass_md5(bytes: &[u8]) -> String {
    let mut md5 = Md5::new();
    md5.input(bytes);
    md5.result_str()
}

#[test]
fn md5_known_answer() {
    let bytes = b"abc".to_vec();
    assert_eq!(get_md5(&bytes), "900150983cd24fb0d6963f7d28e17f72");
}

#[test]
fn md5_small_region_matches_one_pass() {
    let bytes: Vec<u8> = (0u8..=255).cycle().take(10).collect();
    assert_eq!(get_md5(&bytes), one_pass_md5(&bytes));
}

#[test]
fn md5_exact_segment_multiple_matches_one_pass() {
    // exactly one segment: must feed [0, length) once, not double-feed
    let bytes: Vec<u8> = (0u8..=255).cycle().take(1048576).collect();
    assert_eq!(get_md5(&bytes), one_pass_md5(&bytes));
}

#[test]
fn md5_two_segments_exact_matches_one_pass() {
    let bytes: Vec<u8> = (0u8..=255).cycle().take(2 * 1048576).collect();
    assert_eq!(get_md5(&bytes), one_pass_md5(&bytes));
}

#[test]
fn md5_partial_last_segment_matches_one_pass() {
    let bytes: Vec<u8> = (0u8..=255).cycle().take(1048576 + 3).collect();
    assert_eq!(get_md5(&bytes), one_pass_md5(&bytes));
}

#[test]
fn md5_is_lowercase_hex_of_32_digits() {
    let bytes = vec![0u8; 5];
    let hex = get_md5(&bytes);
    assert_eq!(hex.len(), 32);
    assert!(hex.chars().all(|c| c.is_ascii_hexdigit() && !c.is_ascii_uppercase()));
}
