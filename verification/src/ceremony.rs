//! The threshold signing ceremony.
//!
//! `threshold` shares of a key are put together just long enough to make one signature, and
//! the key is dropped at once. The whole key exists in one place during the call; never
//! before it and never after it.

use vstd::prelude::*;

use crate::bytes::be_nat;
use crate::decoder::{
    canonical_encoding, decode, law_canonical_bytes_are_the_fields, law_transfers_by_bytes,
    transfer_decoding, DecodeError, TransferView,
};
use crate::hash::{sha256, sha256_digest};
use crate::keys::{
    ecdsa_recoverable_signature, ecdsa_recovered, ecdsa_signature, ecdsa_verifies, is_private_key,
    public_key_of, PrivateKey, PublicKey, RecoveryId, Signature,
};
use crate::shamir::{
    is_quorum, law_any_quorum_reconstructs, reconstruct_and_verify, shares_key, split, split_error,
    verified_reconstruction, views, ShamirError, Share, ShareView,
};

verus! {

/// Errors of the ceremony.
#[derive(Debug, PartialEq, Eq, Structural)]
pub enum CeremonyError {
    /// The shares do not combine to the expected key.
    Reconstruction(ShamirError),
    /// The key made no signature that verifies against the expected public key. Not
    /// expected to happen; kept so that nothing unverified is ever handed out.
    SignatureSelfCheckFailed,
}

/// Errors of `sign_transaction`.
#[derive(Debug, PartialEq, Eq, Structural)]
pub enum TransactionSigningError {
    /// The transaction does not decode. It never reaches signing.
    Decode(DecodeError),
    /// It decodes, but the ceremony failed.
    Ceremony(CeremonyError),
}

/// The signature that the shares make of a digest, or why they make none.
pub open spec fn ceremony_signature(
    shares: Seq<ShareView>,
    expected: Seq<u8>,
    digest: Seq<u8>,
) -> Result<Seq<u8>, CeremonyError> {
    match verified_reconstruction(shares, expected) {
        Err(e) => Err(CeremonyError::Reconstruction(e)),
        Ok(key) => match ecdsa_signature(key, digest) {
            Some(sig) => Ok(sig),
            None => Err(CeremonyError::SignatureSelfCheckFailed),
        },
    }
}

/// The signature and recovery id that the shares make of a digest, or why they make none.
pub open spec fn ceremony_recoverable_signature(
    shares: Seq<ShareView>,
    expected: Seq<u8>,
    digest: Seq<u8>,
) -> Result<(Seq<u8>, u8), CeremonyError> {
    match verified_reconstruction(shares, expected) {
        Err(e) => Err(CeremonyError::Reconstruction(e)),
        Ok(key) => match ecdsa_recoverable_signature(key, digest) {
            Some(x) => Ok(x),
            None => Err(CeremonyError::SignatureSelfCheckFailed),
        },
    }
}

/// The signature that the shares make of a raw transaction, or why they make none.
pub open spec fn transaction_signature(
    raw_tx: Seq<u8>,
    shares: Seq<ShareView>,
    expected: Seq<u8>,
) -> Result<Seq<u8>, TransactionSigningError> {
    match transfer_decoding(raw_tx) {
        Err(e) => Err(TransactionSigningError::Decode(e)),
        Ok(t) => match ceremony_signature(shares, expected, sha256_digest(canonical_encoding(t))) {
            Err(e) => Err(TransactionSigningError::Ceremony(e)),
            Ok(sig) => Ok(sig),
        },
    }
}

/// The shares split some private key with the given public key.
pub open spec fn shares_of(
    shares: Seq<ShareView>,
    public_key: Seq<u8>,
    threshold: u8,
    n: u8,
) -> bool {
    exists|key: Seq<u8>|
        #![trigger shares_key(shares, key, threshold, n)]
        is_private_key(key) && public_key_of(key) == public_key && shares_key(
            shares,
            key,
            threshold,
            n,
        )
}

/// Generates a private key and splits it at once: only the public key and the shares are
/// handed out. Nobody ever holds the whole key.
pub fn generate_and_split_key(threshold: u8, n: u8) -> (r: Result<
    (PublicKey, Vec<Share>),
    ShamirError,
>)
    ensures
        match r {
            Err(e) => split_error(threshold, n) == Some(e),
            Ok((public_key, shares)) => split_error(threshold, n) is None && shares_of(
                views(shares@),
                public_key@,
                threshold,
                n,
            ),
        },
{
    let key = PrivateKey::generate();
    let public_key = key.public_key();
    match split(&key, threshold, n) {
        Ok(shares) => Ok((public_key, shares)),
        Err(e) => Err(e),
    }
}

/// Signs a digest with exactly `threshold` shares. This signs whatever it is given: to spend
/// funds, use `sign_transaction`, which decodes first.
pub fn sign_with_shares(shares: &[Share], expected_public_key: &PublicKey, digest: &[u8; 32]) -> (r:
    Result<Signature, CeremonyError>)
    ensures
        match r {
            Ok(sig) => {
                &&& ceremony_signature(views(shares@), expected_public_key@, digest@) == Ok::<
                    _,
                    CeremonyError,
                >(sig@)
                &&& ecdsa_verifies(expected_public_key@, digest@, sig@)
            },
            Err(e) => ceremony_signature(views(shares@), expected_public_key@, digest@) == Err::<
                Seq<u8>,
                _,
            >(e),
        },
        match verified_reconstruction(views(shares@), expected_public_key@) {
            Err(e) => r == Err::<Signature, _>(CeremonyError::Reconstruction(e)),
            Ok(key) => ecdsa_signature(key, digest@) matches Some(sig) ==> (r matches Ok(made)
                && made@ == sig),
        },
{
    // The key lives in this block and nowhere else.
    let signature = {
        let key = match reconstruct_and_verify(shares, expected_public_key) {
            Ok(key) => key,
            Err(e) => return Err(CeremonyError::Reconstruction(e)),
        };
        key.try_sign_prehash(digest)
    };
    match signature {
        Some(sig) => {
            if expected_public_key.verify_prehash(digest, &sig) {
                Ok(sig)
            } else {
                Err(CeremonyError::SignatureSelfCheckFailed)
            }
        },
        None => Err(CeremonyError::SignatureSelfCheckFailed),
    }
}

/// Signs a digest with exactly `threshold` shares, and says which public key the signature
/// recovers to.
pub fn sign_with_shares_recoverable(
    shares: &[Share],
    expected_public_key: &PublicKey,
    digest: &[u8; 32],
) -> (r: Result<(Signature, RecoveryId), CeremonyError>)
    ensures
        match r {
            Ok((sig, id)) => {
                &&& ceremony_recoverable_signature(views(shares@), expected_public_key@, digest@)
                    == Ok::<_, CeremonyError>((sig@, id@))
                &&& ecdsa_verifies(expected_public_key@, digest@, sig@)
                &&& ecdsa_recovered(digest@, sig@, id@) == Some(expected_public_key@)
            },
            Err(e) => ceremony_recoverable_signature(
                views(shares@),
                expected_public_key@,
                digest@,
            ) == Err::<(Seq<u8>, u8), _>(e),
        },
{
    let signature = {
        let key = match reconstruct_and_verify(shares, expected_public_key) {
            Ok(key) => key,
            Err(e) => return Err(CeremonyError::Reconstruction(e)),
        };
        key.try_sign_prehash_recoverable(digest)
    };
    match signature {
        Some((sig, id)) => {
            if expected_public_key.verify_prehash(digest, &sig) {
                Ok((sig, id))
            } else {
                Err(CeremonyError::SignatureSelfCheckFailed)
            }
        },
        None => Err(CeremonyError::SignatureSelfCheckFailed),
    }
}

/// The way to spend funds: decodes the transaction first, and signs the digest of what was
/// decoded, never the bytes that came in.
pub fn sign_transaction(raw_tx: &[u8], shares: &[Share], expected_public_key: &PublicKey) -> (r:
    Result<Signature, TransactionSigningError>)
    ensures
        match r {
            Ok(sig) => {
                &&& transaction_signature(raw_tx@, views(shares@), expected_public_key@) == Ok::<
                    _,
                    TransactionSigningError,
                >(sig@)
                &&& transfer_decoding(raw_tx@) matches Ok(t) && ecdsa_verifies(
                    expected_public_key@,
                    sha256_digest(canonical_encoding(t)),
                    sig@,
                )
            },
            Err(e) => transaction_signature(raw_tx@, views(shares@), expected_public_key@)
                == Err::<Seq<u8>, _>(e),
        },
{
    let decoded = match decode(raw_tx) {
        Ok(t) => t,
        Err(e) => return Err(TransactionSigningError::Decode(e)),
    };
    let digest = sha256(decoded.canonical_bytes().as_slice());
    match sign_with_shares(shares, expected_public_key, &digest) {
        Ok(sig) => Ok(sig),
        Err(e) => Err(TransactionSigningError::Ceremony(e)),
    }
}

/// Shares that combine to a key sign exactly as that key does, wherever it has a signature;
/// shares that do not combine sign nothing, and the error says why.
pub proof fn law_ceremony_signs_as_reconstructed(
    shares: Seq<ShareView>,
    expected: Seq<u8>,
    digest: Seq<u8>,
)
    ensures
        match verified_reconstruction(shares, expected) {
            Err(e) => ceremony_signature(shares, expected, digest) == Err::<Seq<u8>, _>(
                CeremonyError::Reconstruction(e),
            ),
            Ok(key) => {
                &&& public_key_of(key) == expected
                &&& ecdsa_signature(key, digest) matches Some(sig) ==> ceremony_signature(
                    shares,
                    expected,
                    digest,
                ) == Ok::<_, CeremonyError>(sig)
            },
        },
{
}

/// Any quorum of the shares of a key signs exactly as the key itself would: the signature
/// does not depend on which shares took part.
pub proof fn law_ceremony_signs_as_the_key(
    key: Seq<u8>,
    shares: Seq<ShareView>,
    chosen: Seq<ShareView>,
    threshold: u8,
    n: u8,
    digest: Seq<u8>,
)
    requires
        is_private_key(key),
        split_error(threshold, n) is None,
        shares_key(shares, key, threshold, n),
        is_quorum(chosen, shares, threshold),
    ensures
        ceremony_signature(chosen, public_key_of(key), digest) == match ecdsa_signature(
            key,
            digest,
        ) {
            Some(sig) => Ok(sig),
            None => Err(CeremonyError::SignatureSelfCheckFailed),
        },
{
    law_any_quorum_reconstructs(key, shares, chosen, threshold, n);
}

/// Shares in any number but their threshold sign nothing, whatever the digest.
pub proof fn law_other_share_counts_sign_nothing(
    shares: Seq<ShareView>,
    expected: Seq<u8>,
    digest: Seq<u8>,
)
    requires
        shares.len() > 0,
        shares.len() != shares[0].threshold,
    ensures
        ceremony_signature(shares, expected, digest) == Err::<Seq<u8>, _>(
            CeremonyError::Reconstruction(ShamirError::WrongShareCount),
        ),
{
}

/// What does not decode is never signed, with whatever shares.
pub proof fn law_no_signature_without_decoding(
    raw_tx: Seq<u8>,
    shares: Seq<ShareView>,
    expected: Seq<u8>,
)
    requires
        transfer_decoding(raw_tx) is Err,
    ensures
        transaction_signature(raw_tx, shares, expected) == Err::<Seq<u8>, _>(
            TransactionSigningError::Decode(transfer_decoding(raw_tx)->Err_0),
        ),
{
}

/// What is signed of a raw transfer is the digest of the 44 bytes of its fields, with the key
/// that the shares combine to; everything that fails says why.
pub proof fn law_transfers_are_signed_by_their_fields(
    raw_tx: Seq<u8>,
    shares: Seq<ShareView>,
    expected: Seq<u8>,
)
    requires
        raw_tx.len() == 47,
        raw_tx[0] == 1,
        raw_tx[45] == 0,
        raw_tx[46] == 0,
    ensures
        match verified_reconstruction(shares, expected) {
            Err(e) => transaction_signature(raw_tx, shares, expected) == Err::<Seq<u8>, _>(
                TransactionSigningError::Ceremony(CeremonyError::Reconstruction(e)),
            ),
            Ok(key) => transaction_signature(raw_tx, shares, expected) == match ecdsa_signature(
                key,
                sha256_digest(raw_tx.subrange(1, 45)),
            ) {
                Some(sig) => Ok::<Seq<u8>, TransactionSigningError>(sig),
                None => Err(
                    TransactionSigningError::Ceremony(CeremonyError::SignatureSelfCheckFailed),
                ),
            },
        },
{
    let t = TransferView {
        chain_id: be_nat(raw_tx.subrange(1, 9)),
        to: raw_tx.subrange(9, 29),
        value: be_nat(raw_tx.subrange(29, 45)),
    };
    law_transfers_by_bytes(raw_tx, t);
    law_canonical_bytes_are_the_fields(raw_tx, t);
}

/// A recoverable signature is the one that the combined key makes, with the id that belongs to
/// it; shares that do not combine make none.
pub proof fn law_recoverable_ceremony_signs_as_reconstructed(
    shares: Seq<ShareView>,
    expected: Seq<u8>,
    digest: Seq<u8>,
)
    ensures
        match verified_reconstruction(shares, expected) {
            Err(e) => ceremony_recoverable_signature(shares, expected, digest) == Err::<
                (Seq<u8>, u8),
                _,
            >(CeremonyError::Reconstruction(e)),
            Ok(key) => ceremony_recoverable_signature(shares, expected, digest)
                == match ecdsa_recoverable_signature(key, digest) {
                Some(made) => Ok::<(Seq<u8>, u8), CeremonyError>(made),
                None => Err(CeremonyError::SignatureSelfCheckFailed),
            },
        },
{
}

/// The shares of a new key are those of one private key with the public key that is handed out:
/// any quorum of them puts that key together.
pub proof fn law_generated_shares_combine(
    shares: Seq<ShareView>,
    public_key: Seq<u8>,
    threshold: u8,
    n: u8,
    chosen: Seq<ShareView>,
)
    requires
        split_error(threshold, n) is None,
        shares_of(shares, public_key, threshold, n),
        is_quorum(chosen, shares, threshold),
    ensures
        verified_reconstruction(chosen, public_key) matches Ok(key) && is_private_key(key)
            && public_key_of(key) == public_key,
{
    let key = choose|key: Seq<u8>|
        #![trigger shares_key(shares, key, threshold, n)]
        is_private_key(key) && public_key_of(key) == public_key && shares_key(
            shares,
            key,
            threshold,
            n,
        );
    law_any_quorum_reconstructs(key, shares, chosen, threshold, n);
}

} // verus!
