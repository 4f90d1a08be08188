//! Splitting a key into shares and putting it together again.

use fortress_wallet::keys::PrivateKey;
use fortress_wallet::scalar::SecretScalar;
use fortress_wallet::shamir::{
    reconstruct_and_verify, split, split_with_coefficients, ShamirError, Share,
};

fn copy(s: &Share) -> Share {
    Share::from_parts_dangerous(s.index(), s.threshold(), s.to_bytes_dangerous())
}

fn pick(shares: &[Share], subset: &[usize]) -> Vec<Share> {
    subset.iter().map(|&i| copy(&shares[i])).collect()
}

fn small(n: u8) -> [u8; 32] {
    let mut bytes = [0u8; 32];
    bytes[31] = n;
    bytes
}

#[test]
fn split_rejects_threshold_below_two() {
    let key = PrivateKey::generate();
    assert_eq!(split(&key, 1, 3).unwrap_err(), ShamirError::ThresholdTooSmall);
}

#[test]
fn split_rejects_threshold_above_party_count() {
    let key = PrivateKey::generate();
    assert_eq!(split(&key, 4, 3).unwrap_err(), ShamirError::ThresholdExceedsParties);
}

#[test]
fn reconstruct_with_exact_threshold_recovers_original_key() {
    let key = PrivateKey::generate();
    let expected = key.public_key();
    let shares = split(&key, 2, 3).unwrap();

    let restored = reconstruct_and_verify(&shares[0..2], &expected).unwrap();
    assert_eq!(restored.public_key(), expected);
}

#[test]
fn any_qualifying_subset_recovers_the_same_key() {
    let key = PrivateKey::generate();
    let expected = key.public_key();
    let shares = split(&key, 2, 3).unwrap();

    for pair in [[0, 1], [0, 2], [1, 2]] {
        let subset = pick(&shares, &pair);
        let restored = reconstruct_and_verify(&subset, &expected).unwrap();
        assert_eq!(restored.public_key(), expected);
    }
}

#[test]
fn below_threshold_share_count_is_rejected_not_silently_wrong() {
    let key = PrivateKey::generate();
    let expected = key.public_key();
    let shares = split(&key, 3, 5).unwrap();

    let result = reconstruct_and_verify(&shares[0..2], &expected);
    assert_eq!(result.unwrap_err(), ShamirError::WrongShareCount);
}

#[test]
fn too_many_shares_is_rejected() {
    let key = PrivateKey::generate();
    let expected = key.public_key();
    let shares = split(&key, 2, 4).unwrap();

    let result = reconstruct_and_verify(&shares[0..3], &expected);
    assert_eq!(result.unwrap_err(), ShamirError::WrongShareCount);
}

#[test]
fn duplicate_share_index_is_rejected() {
    let key = PrivateKey::generate();
    let expected = key.public_key();
    let shares = split(&key, 2, 3).unwrap();

    let duplicated = [copy(&shares[0]), copy(&shares[0])];
    let result = reconstruct_and_verify(&duplicated, &expected);
    assert_eq!(result.unwrap_err(), ShamirError::DuplicateShareIndex);
}

#[test]
fn shares_from_different_splits_are_rejected() {
    let key_a = PrivateKey::generate();
    let key_b = PrivateKey::generate();
    let shares_a = split(&key_a, 2, 3).unwrap();
    let shares_b = split(&key_b, 2, 3).unwrap();

    let mixed = [copy(&shares_a[0]), copy(&shares_b[1])];
    let result = reconstruct_and_verify(&mixed, &key_a.public_key());
    assert_eq!(result.unwrap_err(), ShamirError::ReconstructionMismatch);
}

#[test]
fn corrupted_share_value_is_caught_by_public_key_check() {
    let key = PrivateKey::generate();
    let expected = key.public_key();
    let mut shares = split(&key, 2, 3).unwrap();

    let mut corrupted_bytes = shares[0].to_bytes_dangerous();
    corrupted_bytes[0] ^= 0x01;
    shares[0] = Share::from_parts_dangerous(
        shares[0].index(),
        shares[0].threshold(),
        corrupted_bytes,
    );

    let result = reconstruct_and_verify(&shares[0..2], &expected);
    assert_eq!(result.unwrap_err(), ShamirError::ReconstructionMismatch);
}

#[test]
fn shares_are_not_the_secret_itself() {
    let key = PrivateKey::generate();
    let shares = split(&key, 2, 3).unwrap();
    for s in &shares {
        assert_ne!(s.to_bytes_dangerous(), key.to_bytes_dangerous());
    }
}

#[test]
fn threshold_mismatched_shares_are_rejected() {
    let key = PrivateKey::generate();
    let shares_2of3 = split(&key, 2, 3).unwrap();
    let shares_3of5 = split(&key, 3, 5).unwrap();

    let mixed = [copy(&shares_2of3[0]), copy(&shares_3of5[0])];
    let result = reconstruct_and_verify(&mixed, &key.public_key());
    assert_eq!(result.unwrap_err(), ShamirError::ThresholdMismatch);
}

#[test]
fn share_debug_never_leaks_value_bytes() {
    let key = PrivateKey::generate();
    let shares = split(&key, 2, 3).unwrap();

    for share in &shares {
        let debug_output = format!("{share:?}");
        assert!(
            debug_output.contains("REDACTED"),
            "Share Debug output must redact the secret value, got: {debug_output}"
        );
        assert!(
            !debug_output.contains(", 0x"),
            "Share Debug output appears to leak raw bytes: {debug_output}"
        );
    }
}

#[test]
fn reconstruction_always_requires_public_key_verification() {
    let key = PrivateKey::generate();
    let public_key = key.public_key();
    let shares = split(&key, 2, 3).unwrap();

    let result = reconstruct_and_verify(&shares[0..2], &public_key);
    assert!(result.is_ok());
}

#[test]
fn share_is_not_clone() {
    let key = PrivateKey::generate();
    let mut shares = split(&key, 2, 3).unwrap();
    let moved_share = shares.remove(0);
    let _ = moved_share.index();
}

#[test]
fn private_key_is_not_clone() {
    let key = PrivateKey::generate();
    let _ = key.public_key();
}

#[test]
fn split_handles_max_share_count() {
    let key = PrivateKey::generate();
    let result = split(&key, 2, 255);
    assert!(result.is_ok());
    assert_eq!(result.unwrap().len(), 255);
}

#[test]
fn split_where_threshold_equals_n_works() {
    let key = PrivateKey::generate();
    let public_key = key.public_key();
    let shares = split(&key, 5, 5).unwrap();

    let result = reconstruct_and_verify(&shares[0..4], &public_key);
    assert_eq!(result.unwrap_err(), ShamirError::WrongShareCount);

    let restored = reconstruct_and_verify(&shares, &public_key).unwrap();
    assert_eq!(restored.public_key(), public_key);
}

#[test]
fn two_splits_of_same_key_are_on_different_polynomials() {
    let key = PrivateKey::generate();
    let public_key = key.public_key();
    let shares_a = split(&key, 2, 3).unwrap();
    let shares_b = split(&key, 2, 3).unwrap();

    let mixed = [
        shares_a.into_iter().next().unwrap(),
        shares_b.into_iter().nth(1).unwrap(),
    ];
    let result = reconstruct_and_verify(&mixed, &public_key);
    assert_eq!(result.unwrap_err(), ShamirError::ReconstructionMismatch);
}

/// All subsets of `0..n` with `count` members, in order.
fn subsets(n: usize, count: usize) -> Vec<Vec<usize>> {
    if count == 0 {
        return vec![vec![]];
    }
    let mut out = vec![];
    for last in count - 1..n {
        for mut head in subsets(last, count - 1) {
            head.push(last);
            out.push(head);
        }
    }
    out
}

#[test]
fn any_threshold_sized_subset_reconstructs_correctly() {
    for threshold in 2u8..8 {
        let n = threshold + 3;
        let key = PrivateKey::generate();
        let expected = key.public_key();
        let shares = split(&key, threshold, n).unwrap();
        for subset in subsets(usize::from(n), usize::from(threshold)).iter().step_by(7) {
            let restored = reconstruct_and_verify(&pick(&shares, subset), &expected).unwrap();
            assert_eq!(restored.public_key(), expected);
        }
    }
}

#[test]
fn below_threshold_subset_always_rejected() {
    for threshold in 2u8..8 {
        let n = threshold + 2;
        let key = PrivateKey::generate();
        let expected = key.public_key();
        let shares = split(&key, threshold, n).unwrap();
        for subset in subsets(usize::from(n), usize::from(threshold) - 1) {
            let result = reconstruct_and_verify(&pick(&shares, &subset), &expected);
            assert_eq!(result.unwrap_err(), ShamirError::WrongShareCount);
        }
    }
}

#[test]
fn above_threshold_subset_always_rejected() {
    for threshold in 2u8..8 {
        let n = threshold + 2;
        let key = PrivateKey::generate();
        let expected = key.public_key();
        let shares = split(&key, threshold, n).unwrap();
        for subset in subsets(usize::from(n), usize::from(threshold) + 1) {
            let result = reconstruct_and_verify(&pick(&shares, &subset), &expected);
            assert_eq!(result.unwrap_err(), ShamirError::WrongShareCount);
        }
    }
}

#[test]
fn different_subsets_of_same_split_agree() {
    let key = PrivateKey::generate();
    let expected = key.public_key();
    let shares = split(&key, 3, 6).unwrap();
    let a = reconstruct_and_verify(&pick(&shares, &[0, 2, 5]), &expected).unwrap();
    let b = reconstruct_and_verify(&pick(&shares, &[5, 1, 3]), &expected).unwrap();
    assert_eq!(a.public_key(), b.public_key());
    assert_eq!(a.to_bytes_dangerous(), key.to_bytes_dangerous());
}

#[test]
fn shares_lie_on_the_given_polynomial() {
    // 5 + 7 x + 2 x^2
    let key = PrivateKey::from_bytes_dangerous(&small(5)).unwrap();
    let coeffs = vec![SecretScalar::from_small(7), SecretScalar::from_small(2)];
    let shares = split_with_coefficients(&key, 3, 4, &coeffs);
    let values: Vec<[u8; 32]> = shares.iter().map(|s| s.to_bytes_dangerous()).collect();
    assert_eq!(values, vec![small(14), small(27), small(44), small(65)]);
    assert_eq!(shares[2].index(), 3);
    assert_eq!(shares[2].threshold(), 3);
    let restored = reconstruct_and_verify(&shares[1..4], &key.public_key()).unwrap();
    assert_eq!(restored.to_bytes_dangerous(), small(5));
}

#[test]
fn defective_share_sets_are_named() {
    let key = PrivateKey::generate();
    let expected = key.public_key();
    assert_eq!(reconstruct_and_verify(&[], &expected).unwrap_err(), ShamirError::WrongShareCount);
    let shares = split(&key, 2, 3).unwrap();
    let zero = Share::from_parts_dangerous(0, 2, [1u8; 32]);
    let result = reconstruct_and_verify(&[zero, copy(&shares[1])], &expected);
    assert_eq!(result.unwrap_err(), ShamirError::ZeroIndexReserved);
}

#[test]
fn scalar_arithmetic_is_modulo_the_group_order() {
    let one = SecretScalar::from_small(1);
    let minus_one = SecretScalar::from_small(0).minus(&one);
    let order_minus_one: [u8; 32] = [
        0xFF, 0xFF, 0xFF, 0xFF, 0xFF, 0xFF, 0xFF, 0xFF, 0xFF, 0xFF, 0xFF, 0xFF, 0xFF, 0xFF, 0xFF,
        0xFE, 0xBA, 0xAE, 0xDC, 0xE6, 0xAF, 0x48, 0xA0, 0x3B, 0xBF, 0xD2, 0x5E, 0x8C, 0xD0, 0x36,
        0x41, 0x40,
    ];
    assert_eq!(minus_one.to_bytes(), order_minus_one);
    assert_eq!(minus_one.plus(&one).to_bytes(), [0u8; 32]);
    assert_eq!(minus_one.times(&minus_one).to_bytes(), small(1));
    let three = SecretScalar::from_small(3);
    assert_eq!(three.times(&three.invert()).to_bytes(), small(1));
    let mut order = order_minus_one;
    order[31] = 0x43;
    assert_eq!(SecretScalar::from_bytes(&order).to_bytes(), small(2));
    assert_ne!(SecretScalar::random().to_bytes(), SecretScalar::random().to_bytes());
}
