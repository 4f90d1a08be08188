//! Addresses, and building and signing of EVM transactions.

use fortress_wallet::ceremony::generate_and_split_key;
use fortress_wallet::decoder::DecodedTransaction;
use fortress_wallet::erc20::{
    construct_balance_of_data, construct_transfer_data, decode_uint256_result,
};
use fortress_wallet::evm::{
    address_from_public_key, build_unsigned_contract_call, build_unsigned_transfer,
    hash_for_signing, sign_evm_transfer, sign_evm_transfer_with_policy, to_checksummed_hex,
    EvmBuildError, EvmCeremonyError, EvmSigningError, MAX_FEE_PER_GAS,
};
use fortress_wallet::evm_codec::{decode_signed, encode_unsigned, EvmDecodeError, SignedEip1559Tx};
use fortress_wallet::hash::keccak256;
use fortress_wallet::keys::{PrivateKey, PublicKey, RecoveryId, Signature};
use fortress_wallet::policy::{DenialReason, PolicyConfig, PolicyEngine};
use fortress_wallet::time::{Duration, Timestamp};

fn permissive_policy() -> PolicyEngine {
    PolicyEngine::new(PolicyConfig {
        max_single_tx_value: u128::MAX,
        max_value_per_window: u128::MAX,
        window: Duration::from_secs(3600),
        timelock_threshold: u128::MAX,
        timelock_delay: Duration::from_secs(1),
    })
}

fn some_time() -> Timestamp {
    Timestamp::from_nanos(1_700_000_000_000_000_000)
}

fn signature_from_parts(decoded: &SignedEip1559Tx) -> Signature {
    let mut bytes = [0u8; 64];
    bytes[..32].copy_from_slice(&decoded.r);
    bytes[32..].copy_from_slice(&decoded.s);
    Signature::from_slice(&bytes).unwrap()
}

#[test]
fn address_derivation_is_deterministic_and_matches_public_key() {
    let (public_key, _) = generate_and_split_key(2, 3).unwrap();
    let a1 = address_from_public_key(&public_key);
    let a2 = address_from_public_key(&public_key);
    assert_eq!(a1, a2);
}

#[test]
fn checksummed_hex_matches_known_eip55_vector() {
    let address: [u8; 20] = {
        let mut a = [0u8; 20];
        let hex = "5aAeb6053F3E94C9b9A09f33669435E7Ef1BeAed";
        for i in 0..20 {
            a[i] = u8::from_str_radix(&hex[i * 2..i * 2 + 2], 16).unwrap();
        }
        a
    };
    assert_eq!(to_checksummed_hex(&address), "0x5aAeb6053F3E94C9b9A09f33669435E7Ef1BeAed");
}

#[test]
fn address_of_a_known_key() {
    let mut one = [0u8; 32];
    one[31] = 1;
    let public_key = PrivateKey::from_bytes_dangerous(&one).unwrap().public_key();
    assert_eq!(
        to_checksummed_hex(&address_from_public_key(&public_key)),
        "0x7E5F4552091A69125d5DfCb7b8C2659029395Bdf"
    );
}

#[test]
fn end_to_end_build_sign_and_verify() {
    let (public_key, shares) = generate_and_split_key(2, 3).unwrap();
    let tx = build_unsigned_transfer(
        1,
        [0x22; 20],
        1_000_000_000_000_000_000,
        0,
        30_000_000_000,
        1_000_000_000,
        21_000,
    )
    .unwrap();

    let mut policy = permissive_policy();
    let now = some_time();
    policy.record_approved(
        &DecodedTransaction { chain_id: tx.chain_id, to: tx.to, value: 0 },
        now,
    );

    let signed_bytes =
        sign_evm_transfer_with_policy(tx.clone(), &shares[0..2], &public_key, &mut policy, now)
            .unwrap();

    let decoded = decode_signed(&signed_bytes).unwrap();
    assert_eq!(decoded.tx, tx);

    let digest = hash_for_signing(&tx);
    let recovery_id = RecoveryId::from_byte(decoded.y_parity).unwrap();
    let recovered =
        PublicKey::recover_from_prehash(&digest, &signature_from_parts(&decoded), recovery_id)
            .unwrap();
    assert_eq!(recovered, public_key);
    assert_eq!(policy.history_len(), 2);
}

#[test]
fn sign_evm_transfer_has_no_policy_gate() {
    let (public_key, shares) = generate_and_split_key(2, 3).unwrap();
    let tx = build_unsigned_transfer(1, [0x33; 20], 1, 0, 1, 1, 21_000).unwrap();

    let signed_bytes = sign_evm_transfer(tx.clone(), &shares[0..2], &public_key).unwrap();
    let decoded = decode_signed(&signed_bytes).unwrap();
    assert_eq!(decoded.tx, tx);
}

#[test]
fn denied_transaction_never_reaches_signing() {
    let (public_key, shares) = generate_and_split_key(2, 3).unwrap();
    let mut policy = PolicyEngine::new(PolicyConfig {
        max_single_tx_value: 100,
        max_value_per_window: 100,
        window: Duration::from_secs(3600),
        timelock_threshold: u128::MAX,
        timelock_delay: Duration::from_secs(1),
    });
    let tx = build_unsigned_transfer(1, [0x22; 20], 1_000, 0, 1, 1, 21_000).unwrap();

    let result = sign_evm_transfer_with_policy(
        tx,
        &shares[0..2],
        &public_key,
        &mut policy,
        some_time(),
    );
    assert!(matches!(result, Err(EvmSigningError::Denied(DenialReason::ExceedsSingleTxCap))));
}

#[test]
fn fee_cap_exceeded_rejects_astronomical_fee() {
    let result = build_unsigned_transfer(1, [0x22; 20], 1, 0, MAX_FEE_PER_GAS + 1, 1, 21_000);
    assert!(matches!(result, Err(EvmBuildError::FeeCapExceeded { .. })));
}

#[test]
fn fee_at_ceiling_is_accepted() {
    let result = build_unsigned_transfer(1, [0x22; 20], 1, 0, MAX_FEE_PER_GAS, 1, 21_000);
    assert!(result.is_ok());
}

#[test]
fn fee_cap_message_is_exact() {
    let e = build_unsigned_contract_call(1, [1; 20], 0, vec![1], 0, MAX_FEE_PER_GAS + 1, 1, 1)
        .unwrap_err();
    assert_eq!(
        e.text(),
        "max_fee_per_gas 10000000000001 wei exceeds the hard ceiling of 10000000000000 wei"
    );
}

#[test]
fn digest_is_of_the_unsigned_encoding() {
    let tx = build_unsigned_contract_call(5, [9; 20], 7, vec![1, 2, 3], 4, 3, 2, 1).unwrap();
    assert_eq!(hash_for_signing(&tx), keccak256(&encode_unsigned(&tx)));
    assert_eq!(tx.data, vec![1, 2, 3]);
}

#[test]
fn new_destination_is_held_back_and_not_recorded() {
    let (public_key, shares) = generate_and_split_key(2, 3).unwrap();
    let mut policy = permissive_policy();
    let now = some_time();
    let tx = build_unsigned_transfer(1, [0x44; 20], 1, 0, 1, 1, 21_000).unwrap();
    let result =
        sign_evm_transfer_with_policy(tx, &shares[0..2], &public_key, &mut policy, now);
    assert_eq!(
        result.unwrap_err(),
        EvmSigningError::Queued { release_at: now.after(Duration::from_secs(1)) }
    );
    assert_eq!(policy.history_len(), 0);
}

#[test]
fn failed_ceremony_is_not_recorded() {
    let (public_key, shares) = generate_and_split_key(3, 3).unwrap();
    let mut policy = permissive_policy();
    let now = some_time();
    policy.record_approved(&DecodedTransaction { chain_id: 1, to: [0x44; 20], value: 0 }, now);
    let tx = build_unsigned_transfer(1, [0x44; 20], 1, 0, 1, 1, 21_000).unwrap();
    let result = sign_evm_transfer_with_policy(
        tx.clone(),
        &shares[0..2],
        &public_key,
        &mut policy,
        now,
    );
    assert!(matches!(result, Err(EvmSigningError::Ceremony(EvmCeremonyError::Ceremony(_)))));
    assert_eq!(policy.history_len(), 1);
    assert!(sign_evm_transfer(tx, &shares[0..2], &public_key).is_err());
}

#[test]
fn erc20_call_data_is_exact() {
    let mut address = [0u8; 20];
    address[0] = 0xAA;
    address[19] = 0xBB;
    let data = construct_balance_of_data(&address);
    let mut expected = vec![0x70, 0xa0, 0x82, 0x31];
    expected.extend_from_slice(&[0u8; 12]);
    expected.extend_from_slice(&address);
    assert_eq!(data, expected);

    let data = construct_transfer_data(&address, 0x0102);
    let mut expected = vec![0xa9, 0x05, 0x9c, 0xbb];
    expected.extend_from_slice(&[0u8; 12]);
    expected.extend_from_slice(&address);
    expected.extend_from_slice(&[0u8; 30]);
    expected.extend_from_slice(&[1, 2]);
    assert_eq!(data, expected);
    assert_eq!(decode_uint256_result(&data[36..]), Some(0x0102));
}

#[test]
fn erc20_amounts_at_their_limits() {
    assert_eq!(decode_uint256_result(&[]), Some(0));
    assert_eq!(decode_uint256_result(&[0xFF; 31]), Some(0));
    let mut word = [0u8; 32];
    word[16..].copy_from_slice(&[0xFF; 16]);
    assert_eq!(decode_uint256_result(&word), Some(u128::MAX));
    word[15] = 1;
    assert_eq!(decode_uint256_result(&word), None);
    let mut longer = vec![0u8; 40];
    longer[31] = 7;
    longer[39] = 9;
    assert_eq!(decode_uint256_result(&longer), Some(7));
}

#[test]
fn decode_errors_in_words() {
    assert_eq!(EvmDecodeError::Empty.text(), "empty input");
    assert_eq!(
        EvmDecodeError::UnsupportedType(1).text(),
        "unsupported transaction type byte: 0x01"
    );
    assert_eq!(EvmDecodeError::Malformed.text(), "malformed RLP");
    assert_eq!(EvmDecodeError::InvalidYParity(27).text(), "invalid y_parity: 27");
}
