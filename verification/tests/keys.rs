//! Keys, signatures and digests.

use fortress_wallet::hash::{keccak256, sha256};
use fortress_wallet::keys::{
    InvalidKeyBytes, InvalidSignatureBytes, PrivateKey, PublicKey, RecoveryId, Signature,
};

fn digest(message: &[u8]) -> [u8; 32] {
    sha256(message)
}

fn from_hex(hex: &str) -> Vec<u8> {
    (0..hex.len() / 2).map(|i| u8::from_str_radix(&hex[2 * i..2 * i + 2], 16).unwrap()).collect()
}

#[test]
fn sign_then_verify_roundtrip() {
    let sk = PrivateKey::generate();
    let pk = sk.public_key();
    let d = digest(b"transfer 1 BTC to alice");

    let sig = sk.sign_prehash(&d);
    assert!(pk.verify_prehash(&d, &sig));
}

#[test]
fn wrong_key_fails_verification() {
    let sk = PrivateKey::generate();
    let other_pk = PrivateKey::generate().public_key();
    let d = digest(b"transfer 1 BTC to alice");

    let sig = sk.sign_prehash(&d);
    assert!(!other_pk.verify_prehash(&d, &sig));
}

#[test]
fn tampered_digest_fails_verification() {
    let sk = PrivateKey::generate();
    let pk = sk.public_key();
    let sig = sk.sign_prehash(&digest(b"send 1 BTC to alice"));

    assert!(!pk.verify_prehash(&digest(b"send 9 BTC to alice"), &sig));
}

#[test]
fn signing_is_deterministic() {
    let sk = PrivateKey::generate();
    let d = digest(b"same message, signed twice");

    let sig1 = sk.sign_prehash(&d);
    let sig2 = sk.sign_prehash(&d);
    assert_eq!(sig1, sig2);
}

#[test]
fn different_messages_get_different_signatures() {
    let sk = PrivateKey::generate();
    let sig1 = sk.sign_prehash(&digest(b"message A"));
    let sig2 = sk.sign_prehash(&digest(b"message B"));
    assert_ne!(sig1, sig2);
}

#[test]
fn key_bytes_roundtrip() {
    let sk = PrivateKey::generate();
    let bytes = sk.to_bytes_dangerous();
    let restored = PrivateKey::from_bytes_dangerous(&bytes).unwrap();
    assert_eq!(sk.public_key(), restored.public_key());
}

#[test]
fn public_key_of_a_known_private_key() {
    let mut one = [0u8; 32];
    one[31] = 1;
    let pk = PrivateKey::from_bytes_dangerous(&one).unwrap().public_key();
    let compressed = "0279be667ef9dcbbac55a06295ce870b07029bfcdb2dce28d959f2815b16f81798";
    let y = "483ada7726a3c4655da4fbfc0e1108a8fd17b448a68554199c47d08ffb10d4b8";
    assert_eq!(pk.to_sec1_bytes(), from_hex(compressed));
    let uncompressed = pk.to_uncompressed_sec1_bytes();
    assert_eq!(uncompressed.to_vec(), from_hex(&format!("04{}{}", &compressed[2..], y)));
    assert_eq!(PublicKey::from_sec1_bytes(&uncompressed).unwrap(), pk);
    assert_eq!(PublicKey::from_sec1_bytes(&from_hex(compressed)).unwrap(), pk);
}

#[test]
fn key_bytes_out_of_range_are_refused() {
    assert_eq!(PrivateKey::from_bytes_dangerous(&[0u8; 32]).unwrap_err(), InvalidKeyBytes);
    assert_eq!(PrivateKey::from_bytes_dangerous(&[0xFF; 32]).unwrap_err(), InvalidKeyBytes);
    let order = from_hex("fffffffffffffffffffffffffffffffebaaedce6af48a03bbfd25e8cd0364141");
    let mut bytes = [0u8; 32];
    bytes.copy_from_slice(&order);
    assert!(PrivateKey::from_bytes_dangerous(&bytes).is_err());
    bytes[31] -= 1;
    assert!(PrivateKey::from_bytes_dangerous(&bytes).is_ok());
    assert_eq!(PublicKey::from_sec1_bytes(&[]).unwrap_err(), InvalidKeyBytes);
    assert_eq!(PublicKey::from_sec1_bytes(&[0u8]).unwrap_err(), InvalidKeyBytes);
    assert_eq!(PublicKey::from_sec1_bytes(&[0x05; 33]).unwrap_err(), InvalidKeyBytes);
}

#[test]
fn recoverable_signature_recovers_the_key() {
    let sk = PrivateKey::generate();
    let d = digest(b"recover me");
    let (sig, id) = sk.try_sign_prehash_recoverable(&d).unwrap();
    assert!(id.to_byte() < 2);
    assert!(sk.public_key().verify_prehash(&d, &sig));
    assert_eq!(PublicKey::recover_from_prehash(&d, &sig, id).unwrap(), sk.public_key());
    let other = RecoveryId::from_byte(1 - id.to_byte()).unwrap();
    assert_ne!(PublicKey::recover_from_prehash(&d, &sig, other), Some(sk.public_key()));
}

#[test]
fn signatures_have_64_bytes_and_two_nonzero_halves() {
    let sk = PrivateKey::generate();
    let d = digest(b"bytes");
    assert!(sk.can_sign_prehash(&d));
    let sig = sk.try_sign_prehash(&d).unwrap();
    assert_eq!(Signature::from_slice(&sig.to_bytes()).unwrap(), sig);
    assert_eq!(Signature::from_slice(&[1u8; 63]).unwrap_err(), InvalidSignatureBytes);
    assert_eq!(Signature::from_slice(&[0u8; 64]).unwrap_err(), InvalidSignatureBytes);
    assert_eq!(Signature::from_slice(&[0xFF; 64]).unwrap_err(), InvalidSignatureBytes);
    assert!(RecoveryId::from_byte(3).is_some());
    assert!(RecoveryId::from_byte(4).is_none());
}

#[test]
fn private_key_debug_is_redacted() {
    let sk = PrivateKey::generate();
    assert_eq!(format!("{sk:?}"), "PrivateKey(REDACTED)");
}

#[test]
fn digests_of_known_messages() {
    assert_eq!(
        sha256(b"abc").to_vec(),
        from_hex("ba7816bf8f01cfea414140de5dae2223b00361a396177a9cb410ff61f20015ad")
    );
    assert_eq!(
        keccak256(b"").to_vec(),
        from_hex("c5d2460186f7233c927e7db2dcc703c0e500b653ca82273b7bfad8045d85a470")
    );
}
