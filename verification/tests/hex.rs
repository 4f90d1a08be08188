//! Hexadecimal and decimal text.

use fortress_wallet::hex::{
    hex_encode, parse_address, parse_address_hex, parse_hex, parse_hex_bytes, parse_hex_bytes32,
    parse_hex_u128, parse_hex_u64, parse_tx_hash, to_hex, to_hex_address, to_hex_u128,
};
use fortress_wallet::text::{decimal_text, read_number, NumberError};

#[test]
fn parses_a_well_formed_address() {
    let hex = format!("0x{}", "ab".repeat(20));
    assert_eq!(parse_address(&hex).unwrap(), [0xab; 20]);
}

#[test]
fn rejects_missing_prefix() {
    assert!(parse_address(&"ab".repeat(20)).is_err());
}

#[test]
fn rejects_wrong_length() {
    assert!(parse_address("0xabcd").is_err());
}

#[test]
fn hash_roundtrips_through_to_hex() {
    let hex = format!("0x{}", "cd".repeat(32));
    let hash = parse_tx_hash(&hex).unwrap();
    assert_eq!(to_hex(&hash), hex);
}

#[test]
fn hex_u64_roundtrip() {
    assert_eq!(parse_hex_u64("0x1a").unwrap(), 26);
    assert_eq!(parse_hex_u64("0x0").unwrap(), 0);
}

#[test]
fn hex_u64_without_prefix_rejected() {
    assert!(parse_hex_u64("1a").is_err());
}

#[test]
fn hex_u128_roundtrip() {
    assert_eq!(parse_hex_u128("0xde0b6b3a7640000").unwrap(), 1_000_000_000_000_000_000);
}

#[test]
fn hex_bytes32_roundtrip() {
    let hex = format!("0x{}", "ab".repeat(32));
    assert_eq!(parse_hex_bytes32(&hex).unwrap(), [0xab; 32]);
}

#[test]
fn hex_bytes32_wrong_length_rejected() {
    assert!(parse_hex_bytes32("0xabcd").is_err());
}

#[test]
fn to_hex_address_round_trips_through_parse() {
    let address = [0x12; 20];
    let hex = to_hex_address(&address);
    assert_eq!(hex, format!("0x{}", "12".repeat(20)));
}

#[test]
fn hex_messages_are_exact() {
    assert_eq!(parse_hex("12").unwrap_err().message(), "must be 0x-prefixed hex, got 12");
    assert_eq!(
        parse_hex("0x123").unwrap_err().message(),
        "hex string must have an even number of characters"
    );
    assert_eq!(
        parse_hex("0x1g").unwrap_err().message(),
        "invalid hex byte: invalid digit found in string"
    );
    assert_eq!(
        parse_address("0xabcd").unwrap_err().message(),
        "address must be 20 bytes (40 hex chars), got 4 chars"
    );
    assert_eq!(
        parse_tx_hash("0x").unwrap_err().message(),
        "transaction hash must be 32 bytes (64 hex chars), got 0 chars"
    );
    assert_eq!(parse_hex_u64("7").unwrap_err(), "expected 0x-prefixed hex, got 7");
    assert_eq!(
        parse_hex_u64("0x").unwrap_err(),
        "invalid hex u64 0x: cannot parse integer from empty string"
    );
    assert_eq!(
        parse_hex_u64("0x10000000000000000").unwrap_err(),
        "invalid hex u64 0x10000000000000000: number too large to fit in target type"
    );
    assert_eq!(
        parse_hex_u128("0x-1").unwrap_err(),
        "invalid hex u128 0x-1: invalid digit found in string"
    );
    assert_eq!(
        parse_hex_bytes32("0xabcd").unwrap_err(),
        "expected 32 bytes (64 hex chars), got 4 chars"
    );
    assert_eq!(
        parse_hex_bytes("0xabc").unwrap_err(),
        "expected even number of hex chars, got 3 chars"
    );
    assert_eq!(
        parse_hex_bytes("0xzz").unwrap_err(),
        "invalid hex byte: invalid digit found in string"
    );
}

#[test]
fn hex_digits_of_either_case_and_plus_sign() {
    assert_eq!(parse_hex("0xAbCdEf09").unwrap(), vec![0xab, 0xcd, 0xef, 0x09]);
    // The bytes are read as numbers, which may carry a plus sign.
    assert_eq!(parse_hex("0x+f").unwrap(), vec![0x0f]);
    assert!(parse_hex("0xf+").is_err());
    assert_eq!(parse_hex_u64("0x+ff").unwrap(), 255);
    assert!(parse_hex_u64("0x+").is_err());
    assert_eq!(parse_hex_bytes("0x").unwrap(), Vec::<u8>::new());
}

#[test]
fn limits_of_quantities() {
    assert_eq!(parse_hex_u64("0xffffffffffffffff").unwrap(), u64::MAX);
    assert_eq!(parse_hex_u128("0xffffffffffffffffffffffffffffffff").unwrap(), u128::MAX);
    assert!(parse_hex_u128("0x100000000000000000000000000000000").is_err());
    assert_eq!(parse_hex_u64("0x000000000000000000000001").unwrap(), 1);
}

#[test]
fn non_ascii_text_is_an_error() {
    assert!(parse_hex("0x\u{e9}").is_err());
    assert!(parse_hex("0xa\u{e9}1").is_err());
    assert!(parse_address_hex("0x\u{e9}\u{e9}\u{e9}\u{e9}\u{e9}\u{e9}\u{e9}\u{e9}\u{e9}\u{e9}\u{e9}\u{e9}\u{e9}\u{e9}\u{e9}\u{e9}\u{e9}\u{e9}\u{e9}\u{e9}").is_none());
}

#[test]
fn addresses_of_the_interface() {
    let hex = format!("0x{}", "Ab".repeat(20));
    assert_eq!(parse_address_hex(&hex), Some([0xab; 20]));
    assert_eq!(parse_address_hex("0xab"), None);
    assert_eq!(parse_address_hex(&"ab".repeat(21)), None);
    assert_eq!(hex_encode(&[0x00, 0x0f, 0xf0, 0xff]), "000ff0ff");
}

#[test]
fn numbers_as_text() {
    for v in [0u128, 1, 9, 10, 15, 16, 255, 1_000_000_007, u128::MAX] {
        assert_eq!(to_hex_u128(v), format!("{:#x}", v));
        assert_eq!(decimal_text(v), v.to_string());
        assert_eq!(parse_hex_u128(&to_hex_u128(v)).unwrap(), v);
        assert_eq!(read_number(decimal_text(v).as_bytes(), 10, u128::MAX).unwrap(), v);
    }
    assert_eq!(read_number(b"", 10, 9).unwrap_err(), NumberError::Empty);
    assert_eq!(read_number(b"1x", 10, 99).unwrap_err(), NumberError::InvalidDigit);
    assert_eq!(read_number(b"100", 10, 99).unwrap_err(), NumberError::TooLarge);
    assert_eq!(read_number(b"+99", 10, 99).unwrap(), 99);
}
