//! The plain transfer format.

use fortress_wallet::decoder::{
    decode, encode_transfer, DecodeError, DecodedTransaction, HEADER_LEN, MAX_INPUT_LEN,
};

#[test]
fn decodes_a_well_formed_transfer() {
    let to = [0xAB; 20];
    let raw = encode_transfer(1, to, 42);

    let decoded = decode(&raw).unwrap();
    assert_eq!(decoded, DecodedTransaction { chain_id: 1, to, value: 42 });
}

#[test]
fn lib_empty_input_rejected() {
    assert_eq!(decode(&[]).unwrap_err(), DecodeError::Empty);
}

#[test]
fn truncated_header_rejected() {
    let raw = encode_transfer(1, [0xAB; 20], 42);
    assert_eq!(decode(&raw[..HEADER_LEN - 1]).unwrap_err(), DecodeError::Truncated);
}

#[test]
fn lib_truncated_calldata_rejected() {
    // Claims 10 bytes of calldata but doesn't hold them.
    let mut raw = encode_transfer(1, [0xAB; 20], 42);
    let len = raw.len();
    raw[len - 2..].copy_from_slice(&10u16.to_be_bytes());

    assert_eq!(decode(&raw).unwrap_err(), DecodeError::Truncated);
}

#[test]
fn unrecognized_calldata_rejected() {
    let mut raw = encode_transfer(1, [0xAB; 20], 42);
    let len = raw.len();
    raw[len - 2..].copy_from_slice(&4u16.to_be_bytes());
    raw.extend_from_slice(&[0xde, 0xad, 0xbe, 0xef]);

    assert_eq!(decode(&raw).unwrap_err(), DecodeError::UnrecognizedCalldata);
}

#[test]
fn lib_oversized_input_rejected() {
    let huge = vec![0u8; MAX_INPUT_LEN + 1];
    assert_eq!(decode(&huge).unwrap_err(), DecodeError::Oversized);
}

#[test]
fn unsupported_version_rejected() {
    let mut raw = encode_transfer(1, [0xAB; 20], 42);
    raw[0] = 0xFF;
    assert_eq!(decode(&raw).unwrap_err(), DecodeError::UnsupportedVersion(0xFF));
}

#[test]
fn a_failed_decode_never_returns_a_transaction() {
    for raw in [&b""[..], &[0xFF; 1][..], &vec![0u8; MAX_INPUT_LEN + 1][..]] {
        assert!(decode(raw).is_err());
    }
}

#[test]
fn reject_malformed_empty_input_rejected() {
    assert!(decode(b"").is_err());
}

#[test]
fn reject_malformed_truncated_calldata_rejected() {
    // Fewer bytes than the fixed header requires.
    assert!(decode(&[0xa9, 0x05, 0x9c, 0xbb]).is_err());
}

#[test]
fn unknown_function_selector_rejected() {
    let mut raw = encode_transfer(1, [0xAB; 20], 42);
    let len = raw.len();
    raw[len - 2..].copy_from_slice(&4u16.to_be_bytes());
    raw.extend_from_slice(&[0xde, 0xad, 0xbe, 0xef]);

    assert!(decode(&raw).is_err());
}

#[test]
fn reject_malformed_oversized_input_rejected() {
    let huge = vec![0u8; 100_000];
    assert!(decode(&huge).is_err());
}

#[test]
fn transfer_wire_form_is_exact() {
    let mut to = [0u8; 20];
    to[0] = 0x11;
    to[19] = 0x22;
    let raw = encode_transfer(0x0102_0304_0506_0708, to, 0x0A0B);
    let mut expected = vec![1u8, 1, 2, 3, 4, 5, 6, 7, 8];
    expected.extend_from_slice(&to);
    expected.extend_from_slice(&[0u8; 14]);
    expected.extend_from_slice(&[0x0A, 0x0B, 0, 0]);
    assert_eq!(raw, expected);

    let decoded = decode(&raw).unwrap();
    assert_eq!(decoded.canonical_bytes(), expected[1..45].to_vec());
}

#[test]
fn extreme_fields_round_trip() {
    let raw = encode_transfer(u64::MAX, [0xFF; 20], u128::MAX);
    let decoded = decode(&raw).unwrap();
    assert_eq!(decoded, DecodedTransaction { chain_id: u64::MAX, to: [0xFF; 20], value: u128::MAX });
    assert_eq!(encode_transfer(decoded.chain_id, decoded.to, decoded.value), raw);
}
