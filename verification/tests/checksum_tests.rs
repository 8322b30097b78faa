use patch_engine::checksum::checksum;
use patch_engine::container::{expected_checksum, verify_source, PatchContainer, PatchError};

/// A 12-byte container whose checksum field (the first 4 of the trailing
/// 12 bytes) encodes `crc` little-endian.
fn footer_only_container(crc: u32) -> Vec<u8> {
    let mut c = Vec::new();
    c.extend_from_slice(&crc.to_le_bytes());
    c.extend_from_slice(&[0u8; 8]);
    c
}

#[test]
fn crc_matches_standard_vector() {
    let data = b"123456789".to_vec();
    assert_eq!(checksum(&data), 0xCBF43926);
}

#[test]
fn crc_deterministic_across_calls() {
    let data = b"some file content".to_vec();
    let first = checksum(&data);
    let second = checksum(&data);
    assert_eq!(first, second);
}

#[test]
fn crc_changes_when_a_byte_flips() {
    let data = b"123456789".to_vec();
    let mut flipped = data.clone();
    flipped[0] = b'0';
    assert_ne!(checksum(&data), checksum(&flipped));
}

#[test]
fn expected_checksum_short_is_malformed() {
    for len in 0..12usize {
        let c = vec![0xFFu8; len];
        assert_eq!(expected_checksum(&c), Err(PatchError::MalformedContainer));
    }
}

#[test]
fn expected_checksum_twelve_bytes_reads_offset_zero() {
    let c = vec![0xDDu8, 0xCC, 0xBB, 0xAA, 0, 0, 0, 0, 0, 0, 0, 0];
    assert_eq!(expected_checksum(&c), Ok(0xAABBCCDD));
}

#[test]
fn expected_checksum_reads_just_before_footer() {
    let mut c = vec![0x11u8; 8];
    c.extend_from_slice(&[0x78, 0x56, 0x34, 0x12]);
    c.extend_from_slice(&[0u8; 8]);
    assert_eq!(c.len(), 20);
    assert_eq!(expected_checksum(&c), Ok(0x12345678));
}

#[test]
fn verify_accepts_matching_source() {
    let source = b"123456789".to_vec();
    let container = footer_only_container(0xCBF43926);
    assert_eq!(verify_source(&source, &container), Ok(true));
}

#[test]
fn verify_rejects_flipped_byte() {
    let mut source = b"123456789".to_vec();
    source[4] = b'X';
    let container = footer_only_container(0xCBF43926);
    assert_eq!(verify_source(&source, &container), Ok(false));
}

#[test]
fn verify_twice_same_inputs_same_verdict() {
    let source = b"abcdef".to_vec();
    let container = footer_only_container(checksum(&source));
    let first = verify_source(&source, &container);
    let second = verify_source(&source, &container);
    assert_eq!(first, second);
    assert_eq!(first, Ok(true));
}

#[test]
fn verify_malformed_container_is_an_error() {
    let source = b"abc".to_vec();
    let container = vec![1u8, 2, 3];
    assert_eq!(verify_source(&source, &container), Err(PatchError::MalformedContainer));
}

#[test]
fn container_type_exposes_footer_checksum() {
    let raw = footer_only_container(0x01020304);
    let c = PatchContainer::new(raw);
    assert!(c.well_formed());
    assert_eq!(c.expected_checksum(), Ok(0x01020304));
}

#[test]
fn container_type_verifies_source() {
    let source = b"content".to_vec();
    let c = PatchContainer::new(footer_only_container(checksum(&source)));
    assert_eq!(c.verify_source(&source), Ok(true));
    let other = b"other content".to_vec();
    assert_eq!(c.verify_source(&other), Ok(false));
}

#[test]
fn container_type_too_short_is_malformed() {
    let c = PatchContainer::new(vec![1u8, 2, 3, 4]);
    assert!(!c.well_formed());
    assert_eq!(c.expected_checksum(), Err(PatchError::MalformedContainer));
}
