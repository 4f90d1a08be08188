//! The signing ceremony and share rotation.

use fortress_wallet::ceremony::{
    generate_and_split_key, sign_transaction, sign_with_shares, sign_with_shares_recoverable,
    CeremonyError, TransactionSigningError,
};
use fortress_wallet::decoder::{decode, encode_transfer};
use fortress_wallet::hash::sha256;
use fortress_wallet::keys::{PrivateKey, PublicKey, Signature};
use fortress_wallet::recovery::rotate_shares;
use fortress_wallet::shamir::{reconstruct_and_verify, split, ShamirError, Share};

fn digest(message: &[u8]) -> [u8; 32] {
    sha256(message)
}

#[test]
fn sign_with_shares_produces_valid_signature() {
    let key = PrivateKey::generate();
    let public_key = key.public_key();
    let shares = split(&key, 2, 3).unwrap();
    let d = digest(b"send 1 BTC to alice");

    let sig = sign_with_shares(&shares[0..2], &public_key, &d).unwrap();
    assert!(public_key.verify_prehash(&d, &sig));
}

#[test]
fn ceremony_signature_matches_direct_single_party_signature() {
    let key = PrivateKey::generate();
    let public_key = key.public_key();
    let d = digest(b"same digest, two signing paths");
    let direct = key.sign_prehash(&d);

    let shares = split(&key, 2, 3).unwrap();
    let ceremony = sign_with_shares(&shares[0..2], &public_key, &d).unwrap();
    assert_eq!(direct, ceremony);
}

#[test]
fn different_share_subsets_produce_identical_signatures() {
    let key = PrivateKey::generate();
    let public_key = key.public_key();
    let d = digest(b"any qualifying subset should agree");
    let shares = split(&key, 2, 3).unwrap();

    let sig_a = sign_with_shares(&shares[0..2], &public_key, &d).unwrap();
    let sig_b = sign_with_shares(&shares[1..3], &public_key, &d).unwrap();
    assert_eq!(sig_a, sig_b);
}

#[test]
fn below_threshold_shares_refuse_to_sign() {
    let key = PrivateKey::generate();
    let public_key = key.public_key();
    let shares = split(&key, 3, 5).unwrap();
    let d = digest(b"attacker with too few shares");

    let result = sign_with_shares(&shares[0..2], &public_key, &d);
    assert!(matches!(result, Err(CeremonyError::Reconstruction(ShamirError::WrongShareCount))));
}

#[test]
fn corrupted_share_refuses_to_sign() {
    let key = PrivateKey::generate();
    let public_key = key.public_key();
    let mut shares = split(&key, 2, 3).unwrap();
    let d = digest(b"attacker with a tampered share");

    let other_key = PrivateKey::generate();
    let mut other_shares = split(&other_key, 2, 3).unwrap();
    shares[0] = other_shares.remove(0);

    let result = sign_with_shares(&shares[0..2], &public_key, &d);
    assert!(matches!(
        result,
        Err(CeremonyError::Reconstruction(ShamirError::ReconstructionMismatch))
    ));
}

#[test]
fn generated_and_split_key_can_sign_through_the_ceremony() {
    let (public_key, shares) = generate_and_split_key(2, 3).unwrap();
    let d = digest(b"dkg-generated key signs fine");

    let sig = sign_with_shares(&shares[0..2], &public_key, &d).unwrap();
    assert!(public_key.verify_prehash(&d, &sig));
}

#[test]
fn generate_and_split_key_propagates_threshold_validation() {
    assert_eq!(generate_and_split_key(1, 3).unwrap_err(), ShamirError::ThresholdTooSmall);
    assert_eq!(generate_and_split_key(4, 3).unwrap_err(), ShamirError::ThresholdExceedsParties);
}

#[test]
fn two_dkg_ceremonies_produce_independent_keys() {
    let (public_key_a, _) = generate_and_split_key(2, 3).unwrap();
    let (public_key_b, _) = generate_and_split_key(2, 3).unwrap();
    assert_ne!(public_key_a, public_key_b);
}

#[test]
fn sign_transaction_signs_a_well_formed_transfer() {
    let (public_key, shares) = generate_and_split_key(2, 3).unwrap();
    let raw_tx = encode_transfer(1, [0xAB; 20], 42);

    let sig = sign_transaction(&raw_tx, &shares[0..2], &public_key).unwrap();

    let decoded = decode(&raw_tx).unwrap();
    let digest = sha256(&decoded.canonical_bytes());
    assert!(public_key.verify_prehash(&digest, &sig));
}

#[test]
fn sign_transaction_refuses_garbage_bytes() {
    let (public_key, shares) = generate_and_split_key(2, 3).unwrap();
    let garbage = b"\xff\xff\xff not a real transaction";

    let result = sign_transaction(garbage, &shares[0..2], &public_key);
    assert!(matches!(result, Err(TransactionSigningError::Decode(_))));
}

#[test]
fn sign_transaction_refuses_transactions_with_calldata() {
    let (public_key, shares) = generate_and_split_key(2, 3).unwrap();
    let mut raw_tx = encode_transfer(1, [0xAB; 20], 42);
    let len = raw_tx.len();
    raw_tx[len - 2..].copy_from_slice(&4u16.to_be_bytes());
    raw_tx.extend_from_slice(&[0xde, 0xad, 0xbe, 0xef]);

    let result = sign_transaction(&raw_tx, &shares[0..2], &public_key);
    assert!(matches!(result, Err(TransactionSigningError::Decode(_))));
}

#[test]
fn wrong_expected_public_key_refuses_to_sign() {
    let key = PrivateKey::generate();
    let wrong_public_key = PrivateKey::generate().public_key();
    let shares = split(&key, 2, 3).unwrap();
    let d = digest(b"caller passed the wrong group public key");

    let result = sign_with_shares(&shares[0..2], &wrong_public_key, &d);
    assert!(matches!(
        result,
        Err(CeremonyError::Reconstruction(ShamirError::ReconstructionMismatch))
    ));
}

#[test]
fn signing_requires_decoded_transaction() {
    let (public_key, shares) = generate_and_split_key(2, 3).unwrap();
    let garbage = b"\xff\xff\xff";

    let result = sign_transaction(garbage, &shares[0..2], &public_key);
    assert!(
        matches!(result, Err(TransactionSigningError::Decode(_))),
        "a failed decode must block signing, not fall back to signing the raw bytes"
    );
}

#[test]
fn ceremony_never_returns_private_key() {
    let key = PrivateKey::generate();
    let public_key = key.public_key();
    let shares = split(&key, 2, 3).unwrap();
    let digest = [0xABu8; 32];

    let result = sign_with_shares(&shares[0..2], &public_key, &digest);
    let _sig: Signature = result.unwrap();
}

#[test]
fn dkg_ceremony_never_returns_private_key() {
    let result = generate_and_split_key(2, 3);
    let (_public_key, _shares): (PublicKey, Vec<Share>) = result.unwrap();
}

#[test]
fn ceremony_failure_of_a_transaction_is_told_apart() {
    let (public_key, shares) = generate_and_split_key(3, 3).unwrap();
    let raw_tx = encode_transfer(1, [0xAB; 20], 42);
    let result = sign_transaction(&raw_tx, &shares[0..2], &public_key);
    assert!(matches!(
        result,
        Err(TransactionSigningError::Ceremony(CeremonyError::Reconstruction(
            ShamirError::WrongShareCount
        )))
    ));
}

#[test]
fn recoverable_ceremony_signature_recovers_the_group_key() {
    let (public_key, shares) = generate_and_split_key(2, 3).unwrap();
    let d = digest(b"recoverable");
    let (sig, id) = sign_with_shares_recoverable(&shares[1..3], &public_key, &d).unwrap();
    assert_eq!(PublicKey::recover_from_prehash(&d, &sig, id).unwrap(), public_key);
    assert_eq!(sign_with_shares(&shares[0..2], &public_key, &d).unwrap(), sig);
}

#[test]
fn rotated_shares_preserve_the_same_public_key() {
    let (public_key, shares) = generate_and_split_key(2, 3).unwrap();

    let new_shares = rotate_shares(&shares[0..2], &public_key, 2, 3).unwrap();

    let restored = reconstruct_and_verify(&new_shares[0..2], &public_key).unwrap();
    assert_eq!(restored.public_key(), public_key);
}

#[test]
fn rotated_shares_can_sign_through_the_normal_ceremony() {
    let (public_key, shares) = generate_and_split_key(2, 3).unwrap();
    let new_shares = rotate_shares(&shares[0..2], &public_key, 2, 3).unwrap();

    let sig = sign_with_shares(&new_shares[0..2], &public_key, &[0x42; 32]).unwrap();
    assert!(public_key.verify_prehash(&[0x42; 32], &sig));
}

#[test]
fn recovery_can_change_threshold_and_party_count() {
    let (public_key, shares) = generate_and_split_key(2, 3).unwrap();
    let new_shares = rotate_shares(&shares[0..2], &public_key, 3, 5).unwrap();

    assert_eq!(new_shares.len(), 5);
    let restored = reconstruct_and_verify(&new_shares[0..3], &public_key).unwrap();
    assert_eq!(restored.public_key(), public_key);

    let result = reconstruct_and_verify(&new_shares[0..2], &public_key);
    assert_eq!(result.unwrap_err(), ShamirError::WrongShareCount);
}

#[test]
fn rotation_refuses_below_threshold_input_shares() {
    let (public_key, shares) = generate_and_split_key(3, 5).unwrap();

    let result = rotate_shares(&shares[0..2], &public_key, 2, 3);
    assert_eq!(result.unwrap_err(), ShamirError::WrongShareCount);
}

#[test]
fn rotation_refuses_corrupted_input_shares() {
    let (public_key, mut shares) = generate_and_split_key(2, 3).unwrap();
    let (_, mut other_shares) = generate_and_split_key(2, 3).unwrap();
    shares[0] = other_shares.remove(0);

    let result = rotate_shares(&shares[0..2], &public_key, 2, 3);
    assert_eq!(result.unwrap_err(), ShamirError::ReconstructionMismatch);
}

#[test]
fn old_shares_still_work_after_rotation_by_design() {
    let (public_key, shares) = generate_and_split_key(2, 3).unwrap();
    let _new_shares = rotate_shares(&shares[0..2], &public_key, 2, 3).unwrap();

    let still_valid = reconstruct_and_verify(&shares[0..2], &public_key).unwrap();
    assert_eq!(still_valid.public_key(), public_key);
}
