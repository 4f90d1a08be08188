//! The EIP-1559 wire format.

use fortress_wallet::evm_codec::{
    decode_signed, encode_signed, encode_unsigned, EvmDecodeError, SignedEip1559Tx,
    UnsignedEip1559Tx,
};

fn sample_tx() -> UnsignedEip1559Tx {
    UnsignedEip1559Tx {
        chain_id: 1,
        nonce: 9,
        max_priority_fee_per_gas: 2_000_000_000,
        max_fee_per_gas: 30_000_000_000,
        gas_limit: 21_000,
        to: [0xAB; 20],
        value: 1_000_000_000_000_000_000,
        data: vec![],
    }
}

#[test]
fn decodes_a_mainnet_shaped_eip1559_transfer() {
    let tx = UnsignedEip1559Tx {
        chain_id: 1,
        nonce: 0,
        max_priority_fee_per_gas: 1_500_000_000,
        max_fee_per_gas: 50_000_000_000,
        gas_limit: 21_000,
        to: [0x11; 20],
        value: 1,
        data: vec![],
    };
    let signed = SignedEip1559Tx { tx: tx.clone(), y_parity: 1, r: [0x42; 32], s: [0x24; 32] };

    let encoded = encode_signed(&signed);
    assert_eq!(encoded[0], 0x02);

    let decoded = decode_signed(&encoded).unwrap();
    assert_eq!(decoded, signed);
}

#[test]
fn unsigned_encode_starts_with_type_byte() {
    let encoded = encode_unsigned(&sample_tx());
    assert_eq!(encoded[0], 0x02);
}

#[test]
fn signed_roundtrip_preserves_every_field() {
    let tx = sample_tx();
    let signed = SignedEip1559Tx { tx: tx.clone(), y_parity: 0, r: [0x11; 32], s: [0x22; 32] };

    let encoded = encode_signed(&signed);
    let decoded = decode_signed(&encoded).unwrap();
    assert_eq!(decoded, signed);
}

#[test]
fn zero_value_r_and_s_round_trip() {
    let tx = sample_tx();
    let signed = SignedEip1559Tx { tx, y_parity: 0, r: [0u8; 32], s: [0u8; 32] };

    let encoded = encode_signed(&signed);
    let decoded = decode_signed(&encoded).unwrap();
    assert_eq!(decoded.r, [0u8; 32]);
    assert_eq!(decoded.s, [0u8; 32]);
}

#[test]
fn evm_empty_input_rejected() {
    assert_eq!(decode_signed(&[]).unwrap_err(), EvmDecodeError::Empty);
}

#[test]
fn wrong_type_byte_rejected() {
    let mut encoded =
        encode_signed(&SignedEip1559Tx { tx: sample_tx(), y_parity: 0, r: [1; 32], s: [1; 32] });
    encoded[0] = 0x01;
    assert_eq!(decode_signed(&encoded).unwrap_err(), EvmDecodeError::UnsupportedType(0x01));
}

#[test]
fn truncated_input_rejected() {
    let encoded =
        encode_signed(&SignedEip1559Tx { tx: sample_tx(), y_parity: 0, r: [1; 32], s: [1; 32] });
    assert_eq!(
        decode_signed(&encoded[..encoded.len() - 5]).unwrap_err(),
        EvmDecodeError::Malformed
    );
}

#[test]
fn trailing_garbage_rejected() {
    let mut encoded =
        encode_signed(&SignedEip1559Tx { tx: sample_tx(), y_parity: 0, r: [1; 32], s: [1; 32] });
    encoded.push(0xFF);
    assert_eq!(decode_signed(&encoded).unwrap_err(), EvmDecodeError::TrailingBytes);
}

#[test]
fn invalid_y_parity_rejected() {
    let mut signed = SignedEip1559Tx { tx: sample_tx(), y_parity: 1, r: [1; 32], s: [1; 32] };
    signed.y_parity = 2;
    let encoded = encode_signed(&signed);
    assert_eq!(decode_signed(&encoded).unwrap_err(), EvmDecodeError::InvalidYParity(2));
}

#[test]
fn unsigned_encoding_is_exact() {
    let tx = UnsignedEip1559Tx {
        chain_id: 1,
        nonce: 0,
        max_priority_fee_per_gas: 0x80,
        max_fee_per_gas: 0x0100,
        gas_limit: 21_000,
        to: [0x11; 20],
        value: 0x7f,
        data: vec![0x05],
    };
    let mut body = vec![0x01, 0x80, 0x81, 0x80, 0x82, 0x01, 0x00, 0x82, 0x52, 0x08, 0x94];
    body.extend_from_slice(&[0x11; 20]);
    body.extend_from_slice(&[0x7f, 0x05, 0xc0]);
    let mut expected = vec![0x02, 0xc0 + body.len() as u8];
    expected.extend_from_slice(&body);
    assert_eq!(encode_unsigned(&tx), expected);
}

#[test]
fn call_data_is_encoded_but_refused_on_decoding() {
    for len in [1usize, 2, 55, 56, 255, 256, 70_000] {
        for y_parity in [0, 1, 2] {
            let mut tx = sample_tx();
            tx.data = vec![0x00; len];
            tx.data[0] = 0x90;
            let signed = SignedEip1559Tx { tx, y_parity, r: [0x80; 32], s: [0x01; 32] };
            let raw = encode_signed(&signed);
            assert_eq!(decode_signed(&raw).unwrap_err(), EvmDecodeError::UnrecognizedCalldata);
        }
    }
    assert_eq!(
        EvmDecodeError::UnrecognizedCalldata.text(),
        "calldata present but not recognized by any decoder"
    );
}

#[test]
fn extreme_numbers_round_trip() {
    let tx = UnsignedEip1559Tx {
        chain_id: u64::MAX,
        nonce: u64::MAX,
        max_priority_fee_per_gas: u128::MAX,
        max_fee_per_gas: u128::MAX,
        gas_limit: u64::MAX,
        to: [0xFF; 20],
        value: u128::MAX,
        data: vec![],
    };
    let mut r = [0u8; 32];
    r[31] = 1;
    let signed = SignedEip1559Tx { tx, y_parity: 1, r, s: [0xFF; 32] };
    assert_eq!(decode_signed(&encode_signed(&signed)).unwrap(), signed);
}

/// A signed transaction put together by hand: type byte, list header and body.
fn envelope(body: &[u8]) -> Vec<u8> {
    let mut out = vec![0x02];
    if body.len() < 56 {
        out.push(0xc0 + body.len() as u8);
    } else {
        out.push(0xf8);
        out.push(body.len() as u8);
    }
    out.extend_from_slice(body);
    out
}

fn body(data: &[u8], access_list: &[u8], signature: &[u8]) -> Vec<u8> {
    let mut b = vec![0x01, 0x80, 0x80, 0x80, 0x80, 0x94];
    b.extend_from_slice(&[0x11; 20]);
    b.push(0x80);
    b.extend_from_slice(data);
    b.extend_from_slice(access_list);
    b.extend_from_slice(signature);
    b
}

#[test]
fn access_list_is_refused() {
    let raw = envelope(&body(&[0x80], &[0xc1, 0x80], &[0x80, 0x01, 0x01]));
    assert_eq!(decode_signed(&raw).unwrap_err(), EvmDecodeError::UnrecognizedAccessList);
    let good = envelope(&body(&[0x80], &[0xc0], &[0x80, 0x01, 0x01]));
    assert_eq!(decode_signed(&good).unwrap().y_parity, 0);
}

#[test]
fn bytes_behind_the_signature_are_refused() {
    let raw = envelope(&body(&[0x80], &[0xc0], &[0x80, 0x01, 0x01, 0x01]));
    assert_eq!(decode_signed(&raw).unwrap_err(), EvmDecodeError::TrailingBytes);
}

#[test]
fn non_canonical_framing_is_malformed() {
    // A single byte below 0x80 with a header in front.
    let raw = envelope(&body(&[0x81, 0x05], &[0xc0], &[0x80, 0x01, 0x01]));
    assert_eq!(decode_signed(&raw).unwrap_err(), EvmDecodeError::Malformed);
    // A signature component of 33 bytes.
    let mut long = vec![0x80, 0xa1];
    long.extend_from_slice(&[0x01; 33]);
    long.push(0x01);
    let raw = envelope(&body(&[0x80], &[0xc0], &long));
    assert_eq!(decode_signed(&raw).unwrap_err(), EvmDecodeError::Malformed);
    // A number with a leading zero.
    let mut b = body(&[0x80], &[0xc0], &[0x80, 0x01, 0x01]);
    b[0] = 0x00;
    assert_eq!(decode_signed(&envelope(&b)).unwrap_err(), EvmDecodeError::Malformed);
}

#[test]
fn leading_zeros_in_the_signature_are_malformed() {
    let decode = |signature: &[u8]| decode_signed(&envelope(&body(&[0x80], &[0xc0], signature)));
    // A zero byte for zero, and a zero in front of a number.
    assert_eq!(decode(&[0x80, 0x00, 0x01]).unwrap_err(), EvmDecodeError::Malformed);
    assert_eq!(decode(&[0x80, 0x01, 0x00]).unwrap_err(), EvmDecodeError::Malformed);
    assert_eq!(decode(&[0x80, 0x82, 0x00, 0x05, 0x01]).unwrap_err(), EvmDecodeError::Malformed);
    assert_eq!(decode(&[0x80, 0x01, 0x82, 0x00, 0x90]).unwrap_err(), EvmDecodeError::Malformed);
    let zero = decode(&[0x80, 0x80, 0x05]).unwrap();
    assert_eq!(zero.r, [0; 32]);
    assert_eq!(zero.s[31], 5);
}

#[test]
fn what_decodes_is_the_encoding() {
    for signature in [&[0x80u8, 0x80, 0x80][..], &[0x01, 0x05, 0x81, 0x90], &[0x80, 0x82, 0x01, 0x00, 0x7f]] {
        let raw = envelope(&body(&[0x80], &[0xc0], signature));
        assert_eq!(encode_signed(&decode_signed(&raw).unwrap()), raw);
    }
}
