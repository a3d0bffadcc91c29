use dex_checksum_tools::dex::{Dex, DexError};

// A buffer with the given stored checksum field and payload, under a zeroed
// 8-byte prefix.
fn buffer(stored: [u8; 4], payload: &[u8]) -> Vec<u8> {
    let mut bytes = vec![0u8; 8];
    bytes.extend_from_slice(&stored);
    bytes.extend_from_slice(payload);
    bytes
}

#[test]
fn rejects_buffer_shorter_than_header() {
    let r = Dex::from_bytes(vec![0u8; 11]);
    assert_eq!(r.unwrap_err(), DexError::TooShort);
    assert!(Dex::from_bytes(Vec::new()).is_err());
}

#[test]
fn accepts_minimal_buffer() {
    let d = Dex::from_bytes(vec![0u8; 12]).unwrap();
    assert_eq!(d.len(), 12);
}

#[test]
fn current_checksum_is_bytes_8_to_12_verbatim() {
    let d = Dex::from_bytes(buffer([0xDE, 0xAD, 0xBE, 0xEF], &[1, 2, 3])).unwrap();
    assert_eq!(d.current_checksum(), [0xDE, 0xAD, 0xBE, 0xEF]);
}

#[test]
fn empty_payload_checksum_is_one() {
    // A buffer of exactly 12 bytes has an empty payload: a stays 1, b stays 0.
    let d = Dex::from_bytes(vec![0u8; 12]).unwrap();
    assert_eq!(d.expect_checksum(), [0x00, 0x00, 0x00, 0x01]);
}

#[test]
fn known_payload_vector() {
    // Payload [1, 2, 3]: a runs 1, 2, 4, 7; b runs 0, 2, 6, 13;
    // checksum (13 << 16) | 7 = 0x000D0007, big-endian [0, 0x0D, 0, 0x07].
    let d = Dex::from_bytes(buffer([0, 0, 0, 0], &[0x01, 0x02, 0x03])).unwrap();
    assert_eq!(d.expect_checksum(), [0x00, 0x0D, 0x00, 0x07]);
}

#[test]
fn checksum_is_reproducible() {
    let d = Dex::from_bytes(buffer([0, 0, 0, 0], &[9, 8, 7, 6, 5])).unwrap();
    let first = d.expect_checksum();
    let second = d.expect_checksum();
    assert_eq!(first, second);
}

#[test]
fn valid_buffer_checks_and_needs_no_correction() {
    let d = Dex::from_bytes(buffer([0x00, 0x0D, 0x00, 0x07], &[1, 2, 3])).unwrap();
    assert!(d.check_checksum());
    let before = d.bytes().clone();
    let mut d = d;
    assert!(!d.correct_checksum());
    assert_eq!(d.bytes(), &before);
    assert!(d.check_checksum());
}

#[test]
fn invalid_buffer_is_corrected_once() {
    let mut d = Dex::from_bytes(buffer([0xFF, 0xFF, 0xFF, 0xFF], &[1, 2, 3])).unwrap();
    assert!(!d.check_checksum());
    assert!(d.correct_checksum());
    assert!(d.check_checksum());
    assert_eq!(d.current_checksum(), [0x00, 0x0D, 0x00, 0x07]);
    // Correcting again is a no-op.
    assert!(!d.correct_checksum());
    assert!(d.check_checksum());
}

#[test]
fn correction_touches_only_the_checksum_field() {
    let original = buffer([0xAA, 0xBB, 0xCC, 0xDD], &[4, 5, 6, 7]);
    let mut d = Dex::from_bytes(original.clone()).unwrap();
    assert!(d.correct_checksum());
    let after = d.bytes();
    assert_eq!(&after[..8], &original[..8]);
    assert_eq!(&after[12..], &original[12..]);
    assert_eq!(after.len(), original.len());
}

#[test]
fn matches_reference_adler32_implementation() {
    let payloads: Vec<Vec<u8>> = vec![
        Vec::new(),
        vec![0x01, 0x02, 0x03],
        vec![0xFF; 300],
        (0u32..1000).map(|i| (i % 251) as u8).collect(),
        b"Wikipedia".to_vec(),
    ];
    for payload in payloads {
        let d = Dex::from_bytes(buffer([0, 0, 0, 0], &payload)).unwrap();
        let reference = adler32::adler32(&payload[..]).unwrap();
        assert_eq!(d.expect_checksum(), reference.to_be_bytes());
    }
}
