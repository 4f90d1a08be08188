//! Creating, loading and importing a wallet.

use fortress_wallet::ceremony::{generate_and_split_key, sign_with_shares};
use fortress_wallet::shamir::{reconstruct_and_verify, ShamirError};
use fortress_wallet::storage::{seal_share, StorageError};
use fortress_wallet::wallet::{
    create_wallet, gather_stored_shares, import_wallet, load_external_share, load_public_key,
    load_shares, pubkey_file_name, share_file_name, WalletError,
};

const PASS: &str = "correct horse battery staple";

#[test]
fn created_wallet_can_be_reloaded_and_reconstructed() {
    let w = create_wallet(PASS, 2, 3).ok().unwrap();

    let reloaded_pubkey = load_public_key(Ok(w.public_key.to_sec1_bytes())).unwrap();
    assert_eq!(reloaded_pubkey, w.public_key);

    let mut shares = load_shares(PASS, &vec![Ok(w.local_share)]).unwrap();
    let external_share = load_external_share(PASS, &w.external_shares[0]).unwrap();
    shares.push(external_share);

    let reconstructed = reconstruct_and_verify(&shares, &w.public_key).unwrap();
    assert_eq!(reconstructed.public_key(), w.public_key);
}

#[test]
fn wrong_passphrase_fails_closed_on_load() {
    let w = create_wallet(PASS, 2, 3).ok().unwrap();

    let result = load_shares("wrong but long enough passphrase", &vec![Ok(w.local_share)]);
    assert!(matches!(result, Err(WalletError::Storage(StorageError::DecryptionFailed))));
}

#[test]
fn imported_wallet_derives_the_same_address_from_external_shares() {
    let w = create_wallet(PASS, 2, 3).ok().unwrap();

    let imported_public_key = import_wallet(PASS, &w.external_shares).unwrap();
    assert_eq!(imported_public_key, w.public_key);

    let reloaded = load_public_key(Ok(imported_public_key.to_sec1_bytes())).unwrap();
    assert_eq!(reloaded, w.public_key);
}

#[test]
fn import_wallet_wrong_passphrase_fails_closed() {
    let w = create_wallet(PASS, 2, 3).ok().unwrap();

    let result = import_wallet("wrong but long enough passphrase", &w.external_shares);
    assert!(matches!(result, Err(WalletError::Storage(StorageError::DecryptionFailed))));
}

#[test]
fn loaded_shares_can_sign_through_the_normal_ceremony() {
    let w = create_wallet(PASS, 2, 3).ok().unwrap();
    let mut shares = load_shares(PASS, &vec![Ok(w.local_share)]).unwrap();
    shares.push(load_external_share(PASS, &w.external_shares[0]).unwrap());

    let sig = sign_with_shares(&shares, &w.public_key, &[0x11; 32]).unwrap();
    assert!(w.public_key.verify_prehash(&[0x11; 32], &sig));
}

#[test]
fn file_names_are_fixed() {
    assert_eq!(pubkey_file_name(), "pubkey");
    assert_eq!(share_file_name(1), "share_1.dat");
    assert_eq!(share_file_name(255), "share_255.dat");
}

#[test]
fn creation_errors() {
    assert!(matches!(
        create_wallet(PASS, 1, 3),
        Err(WalletError::Ceremony(ShamirError::ThresholdTooSmall))
    ));
    assert!(matches!(
        create_wallet(PASS, 4, 3),
        Err(WalletError::Ceremony(ShamirError::ThresholdExceedsParties))
    ));
    assert!(matches!(
        create_wallet("too short", 2, 3),
        Err(WalletError::Storage(StorageError::WeakPassphrase))
    ));
    // The configuration is looked at before the passphrase.
    assert!(matches!(create_wallet("too short", 1, 3), Err(WalletError::Ceremony(_))));
}

#[test]
fn unreadable_and_damaged_files() {
    let gone = || Err("No such file".to_string());
    assert!(matches!(load_public_key(gone()), Err(WalletError::Io(e)) if e == "No such file"));
    assert!(matches!(load_public_key(Ok(vec![1, 2, 3])), Err(WalletError::InvalidPublicKey)));
    assert!(matches!(
        load_shares(PASS, &vec![gone()]),
        Err(WalletError::Storage(StorageError::Io(e))) if e == "No such file"
    ));
    assert!(load_shares(PASS, &vec![]).unwrap().is_empty());
}

#[test]
fn missing_local_share_is_an_error_only_on_its_own() {
    let gone: Result<Vec<u8>, String> = Err("No such file".to_string());
    assert!(gather_stored_shares(PASS, &gone, &vec![]).is_err());
    let (_, shares) = generate_and_split_key(2, 3).unwrap();
    let sealed = vec![seal_share(PASS, &shares[1]).unwrap()];
    let gathered = gather_stored_shares(PASS, &gone, &sealed).unwrap();
    assert_eq!(gathered.len(), 1);
    assert_eq!(gathered[0].index(), 2);
}

#[test]
fn local_share_comes_first() {
    let (_, shares) = generate_and_split_key(2, 3).unwrap();
    let sealed = vec![seal_share(PASS, &shares[1]).unwrap()];
    let local = Ok(seal_share(PASS, &shares[0]).unwrap());
    let gathered = gather_stored_shares(PASS, &local, &sealed).unwrap();
    let indices: Vec<u8> = gathered.iter().map(|s| s.index()).collect();
    assert_eq!(indices, vec![1, 2]);
}
