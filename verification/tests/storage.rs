//! Sealing of keys and shares under a passphrase.

use fortress_wallet::keys::PrivateKey;
use fortress_wallet::shamir::{reconstruct_and_verify, split};
use fortress_wallet::storage::{
    check_passphrase_strength, open, open_share, seal, seal_bytes_with, seal_share, StorageError,
    SEALED_SHARE_LEN,
};

const PASS: &str = "correct horse battery staple";

#[test]
fn seal_then_open_roundtrip() {
    let key = PrivateKey::generate();
    let blob = seal(PASS, &key).unwrap();
    let restored = open(PASS, &blob).unwrap();
    assert_eq!(key.public_key(), restored.public_key());
}

#[test]
fn wrong_passphrase_fails_closed() {
    let key = PrivateKey::generate();
    let blob = seal(PASS, &key).unwrap();
    let result = open("wrong but long enough passphrase", &blob);
    assert!(matches!(result, Err(StorageError::DecryptionFailed)));
}

#[test]
fn tampered_ciphertext_fails_closed() {
    let key = PrivateKey::generate();
    let mut blob = seal(PASS, &key).unwrap();
    let last = blob.len() - 1;
    blob[last] ^= 0x01;

    let result = open(PASS, &blob);
    assert!(matches!(result, Err(StorageError::DecryptionFailed)));
}

#[test]
fn tampered_salt_fails_closed() {
    let key = PrivateKey::generate();
    let mut blob = seal(PASS, &key).unwrap();
    blob[1] ^= 0x01;

    let result = open(PASS, &blob);
    assert!(matches!(result, Err(StorageError::DecryptionFailed)));
}

#[test]
fn truncated_blob_fails_closed() {
    let key = PrivateKey::generate();
    let blob = seal(PASS, &key).unwrap();
    let result = open(PASS, &blob[..10]);
    assert!(matches!(result, Err(StorageError::Truncated)));
}

#[test]
fn unknown_format_version_rejected() {
    let key = PrivateKey::generate();
    let mut blob = seal(PASS, &key).unwrap();
    blob[0] = 0xFF;

    let result = open(PASS, &blob);
    assert!(matches!(result, Err(StorageError::UnsupportedVersion(0xFF))));
}

#[test]
fn two_seals_of_same_key_produce_different_ciphertext() {
    let key = PrivateKey::generate();
    let blob1 = seal(PASS, &key).unwrap();
    let blob2 = seal(PASS, &key).unwrap();
    assert_ne!(blob1, blob2);
}

#[test]
fn empty_passphrase_rejected() {
    let key = PrivateKey::generate();
    let result = seal("", &key);
    assert!(matches!(result, Err(StorageError::WeakPassphrase)));
}

#[test]
fn short_passphrase_rejected() {
    let key = PrivateKey::generate();
    let result = seal("short1", &key);
    assert!(matches!(result, Err(StorageError::WeakPassphrase)));
}

#[test]
fn seal_share_then_open_share_preserves_metadata() {
    let key = PrivateKey::generate();
    let shares = split(&key, 2, 3).unwrap();

    let blob = seal_share(PASS, &shares[0]).unwrap();
    let restored = open_share(PASS, &blob).unwrap();

    assert_eq!(restored.index(), shares[0].index());
    assert_eq!(restored.threshold(), shares[0].threshold());
    assert_eq!(blob.len(), SEALED_SHARE_LEN);
}

#[test]
fn opened_share_reconstructs_correctly_with_its_siblings() {
    let key = PrivateKey::generate();
    let public_key = key.public_key();
    let mut shares = split(&key, 2, 3).unwrap();

    let blob = seal_share(PASS, &shares[0]).unwrap();
    let restored = open_share(PASS, &blob).unwrap();
    shares[0] = restored;

    let result = reconstruct_and_verify(&shares[0..2], &public_key).unwrap();
    assert_eq!(result.public_key(), public_key);
}

#[test]
fn share_wrong_passphrase_fails_closed() {
    let key = PrivateKey::generate();
    let shares = split(&key, 2, 3).unwrap();
    let blob = seal_share(PASS, &shares[0]).unwrap();

    let result = open_share("wrong but long enough passphrase", &blob);
    assert!(matches!(result, Err(StorageError::DecryptionFailed)));
}

#[test]
fn share_tampered_index_fails_closed() {
    let key = PrivateKey::generate();
    let shares = split(&key, 2, 3).unwrap();
    let mut blob = seal_share(PASS, &shares[0]).unwrap();
    let last = blob.len() - 1;
    blob[last] ^= 0x01;

    let result = open_share(PASS, &blob);
    assert!(matches!(result, Err(StorageError::DecryptionFailed)));
}

#[test]
fn passphrase_length_is_counted_in_characters() {
    assert!(check_passphrase_strength("12345678901").is_err());
    assert!(check_passphrase_strength("123456789012").is_ok());
    // Six characters of two bytes each are still six characters.
    assert!(check_passphrase_strength("\u{e9}\u{e9}\u{e9}\u{e9}\u{e9}\u{e9}").is_err());
}

#[test]
fn sealing_is_determined_by_salt_and_nonce() {
    let a = seal_bytes_with(PASS, &[1; 16], &[2; 24], b"plaintext").unwrap();
    assert_eq!(a.len(), 9 + 57);
    assert_eq!(a[0], 1);
    assert_eq!(a[1..17], [1; 16]);
    assert_eq!(a[17..41], [2; 24]);
    let ciphertext = [
        105, 150, 89, 35, 172, 35, 183, 62, 216, 123, 235, 118, 8, 246, 134, 209, 144, 253, 131, 94,
        73, 76, 175, 89, 249,
    ];
    assert_eq!(a[41..], ciphertext);
}

#[test]
fn another_salt_gives_another_ciphertext() {
    let a = seal_bytes_with(PASS, &[3; 16], &[2; 24], b"plaintext").unwrap();
    assert_eq!(a.len(), 9 + 57);
    assert_ne!(a[41..50], [105, 150, 89, 35, 172, 35, 183, 62, 216]);
}

#[test]
fn sealed_key_is_no_share() {
    let blob = seal(PASS, &PrivateKey::generate()).unwrap();
    assert!(matches!(open_share(PASS, &blob), Err(StorageError::Truncated)));
}

#[test]
fn sealed_share_is_no_key() {
    let shares = split(&PrivateKey::generate(), 2, 3).unwrap();
    let blob = seal_share(PASS, &shares[0]).unwrap();
    assert!(matches!(open(PASS, &blob), Err(StorageError::Truncated)));
}

#[test]
fn contents_that_are_no_key() {
    assert!(matches!(open(PASS, &[]), Err(StorageError::Truncated)));
    // A plaintext of 32 zero bytes is no key.
    let zero = seal_bytes_with(PASS, &[1; 16], &[2; 24], &[0; 32]).unwrap();
    assert!(matches!(open(PASS, &zero), Err(StorageError::InvalidKeyBytes)));
}

#[test]
fn blobs_without_room_for_a_tag_are_truncated() {
    let mut blob = vec![0u8; 57];
    blob[0] = 1;
    for len in [1, 40, 41, 56] {
        assert!(matches!(open(PASS, &blob[..len]), Err(StorageError::Truncated)));
        assert!(matches!(open_share(PASS, &blob[..len]), Err(StorageError::Truncated)));
    }
    assert!(matches!(open(PASS, &blob), Err(StorageError::DecryptionFailed)));
    assert!(matches!(open(PASS, &[]), Err(StorageError::Truncated)));
    // The version is looked at first.
    blob[0] = 2;
    assert!(matches!(open(PASS, &blob[..41]), Err(StorageError::UnsupportedVersion(2))));
}
