//! Creating, importing and loading a wallet.
//!
//! A wallet on disk is a directory with the public key, in the clear, and one sealed share.
//! The other shares are handed out sealed, for their holders. This module says what is to be
//! written and what was read amounts to; reading and writing files is the caller's part.

use vstd::prelude::*;

use crate::ceremony::{generate_and_split_key, shares_of};
use crate::keys::{is_point, is_private_key, public_key_of, sec1_point, PublicKey};
use crate::shamir::{
    is_quorum, law_any_quorum_reconstructs, reconstruct_unverified, reconstruction, shares_key,
    split_error, verified_reconstruction, views, ShamirError, Share, ShareView,
};
use crate::storage::{
    hashable, open_share, seal_share, share_opening, strong_enough, StorageError, SEALED_SHARE_LEN,
};
use crate::text::{decimal, push_decimal};

verus! {

/// The file that holds the public key.
pub fn pubkey_file_name() -> (r: &'static str)
    ensures
        r@ == "pubkey"@,
{
    "pubkey"
}

/// The file that holds a share.
pub fn share_file_name(index: u8) -> (r: String)
    ensures
        r@ == "share_"@ + decimal(index as nat) + ".dat"@,
{
    let mut out = "share_".to_owned();
    push_decimal(&mut out, index as u128);
    out.append(".dat");
    out
}

/// Errors of creating, importing and loading a wallet.
#[derive(Debug)]
pub enum WalletError {
    /// The key could not be split or put together.
    Ceremony(ShamirError),
    /// A share could not be sealed or opened.
    Storage(StorageError),
    /// The directory or a file could not be read or written, with the system's words.
    Io(String),
    /// The public key file holds no public key.
    InvalidPublicKey,
}

/// What creating a wallet comes to.
pub struct NewWallet {
    /// The public key, for the wallet's directory.
    pub public_key: PublicKey,
    /// The sealed share 1, for the wallet's directory.
    pub local_share: Vec<u8>,
    /// The other sealed shares, in the order of their indices, for their holders.
    pub external_shares: Vec<Vec<u8>>,
}

/// The new wallet holds the given shares, sealed under the passphrase: the first one for the
/// directory, the others to be handed out.
pub open spec fn holds_shares(w: NewWallet, passphrase: Seq<char>, shares: Seq<ShareView>) -> bool {
    &&& shares.len() >= 1
    &&& w.local_share@.len() == SEALED_SHARE_LEN
    &&& share_opening(passphrase, w.local_share@) == Ok::<_, StorageError>(shares[0])
    &&& w.external_shares@.len() == shares.len() - 1
    &&& forall|i: int|
        #![trigger w.external_shares@[i]]
        0 <= i < w.external_shares@.len() ==> w.external_shares@[i]@.len() == SEALED_SHARE_LEN
            && share_opening(passphrase, w.external_shares@[i]@) == Ok::<_, StorageError>(
            shares[i + 1],
        )
}

/// The new wallet holds, sealed under the passphrase, the shares of the private key that
/// belongs to its public key.
pub open spec fn is_wallet(w: NewWallet, passphrase: Seq<char>, threshold: u8, n: u8) -> bool {
    &&& is_point(w.public_key@)
    &&& exists|shares: Seq<ShareView>|
        #![trigger holds_shares(w, passphrase, shares)]
        shares_of(shares, w.public_key@, threshold, n) && holds_shares(w, passphrase, shares)
}

/// Why a wallet cannot be created in this way, if it cannot.
pub open spec fn creation_error(passphrase: Seq<char>, threshold: u8, n: u8) -> Option<
    WalletError,
> {
    match split_error(threshold, n) {
        Some(e) => Some(WalletError::Ceremony(e)),
        None => if !strong_enough(passphrase) {
            Some(WalletError::Storage(StorageError::WeakPassphrase))
        } else {
            None
        },
    }
}

/// Generates a key, splits it and seals the shares.
pub fn create_wallet(passphrase: &str, threshold: u8, n: u8) -> (r: Result<NewWallet, WalletError>)
    requires
        hashable(passphrase@),
    ensures
        match r {
            Err(e) => creation_error(passphrase@, threshold, n) == Some(e),
            Ok(w) => creation_error(passphrase@, threshold, n) is None && is_wallet(
                w,
                passphrase@,
                threshold,
                n,
            ),
        },
{
    let (public_key, shares) = match generate_and_split_key(threshold, n) {
        Ok(x) => x,
        Err(e) => return Err(WalletError::Ceremony(e)),
    };
    let ghost vs = views(shares@);
    proof {
        lemma_split_size(vs, public_key@, threshold, n);
    }
    let local_share = match seal_share(passphrase, &shares[0]) {
        Ok(blob) => blob,
        Err(e) => return Err(WalletError::Storage(e)),
    };
    let mut external_shares: Vec<Vec<u8>> = Vec::new();
    let mut i: usize = 1;
    while i < shares.len()
        invariant
            1 <= i <= shares@.len(),
            hashable(passphrase@),
            strong_enough(passphrase@),
            vs == views(shares@),
            external_shares@.len() == i - 1,
            forall|j: int|
                #![trigger external_shares@[j]]
                0 <= j < external_shares@.len() ==> external_shares@[j]@.len() == SEALED_SHARE_LEN
                    && share_opening(passphrase@, external_shares@[j]@) == Ok::<_, StorageError>(
                    vs[j + 1],
                ),
        decreases shares.len() - i,
    {
        match seal_share(passphrase, &shares[i]) {
            Ok(blob) => {
                external_shares.push(blob);
            },
            Err(e) => return Err(WalletError::Storage(e)),
        }
        i = i + 1;
    }
    proof {
        use_type_invariant(&public_key);
    }
    let w = NewWallet { public_key, local_share, external_shares };
    assert(holds_shares(w, passphrase@, vs));
    Ok(w)
}

proof fn lemma_split_size(shares: Seq<ShareView>, public_key: Seq<u8>, threshold: u8, n: u8)
    requires
        shares_of(shares, public_key, threshold, n),
    ensures
        shares.len() == n,
{
    let key = choose|key: Seq<u8>|
        #![trigger shares_key(shares, key, threshold, n)]
        is_private_key(key) && public_key_of(key) == public_key && shares_key(
            shares,
            key,
            threshold,
            n,
        );
    let coefs = choose|coefs: Seq<int>|
        #![trigger crate::shamir::is_split(shares, coefs, threshold, n)]
        crate::shamir::is_split(shares, coefs, threshold, n) && coefs[0] == crate::bytes::be_nat(
            key,
        );
    assert(crate::shamir::is_split(shares, coefs, threshold, n));
}

/// What a sealed share amounts to, with the error of a wallet.
pub open spec fn share_loading(passphrase: Seq<char>, blob: Seq<u8>) -> Result<
    ShareView,
    WalletError,
> {
    match share_opening(passphrase, blob) {
        Ok(share) => Ok(share),
        Err(e) => Err(WalletError::Storage(e)),
    }
}

/// Opens a share that its holder brought.
pub fn load_external_share(passphrase: &str, ciphertext: &[u8]) -> (r: Result<Share, WalletError>)
    requires
        hashable(passphrase@),
    ensures
        match r {
            Ok(share) => share_loading(passphrase@, ciphertext@) == Ok::<_, WalletError>(share@),
            Err(e) => share_loading(passphrase@, ciphertext@) == Err::<ShareView, _>(e),
        },
{
    match open_share(passphrase, ciphertext) {
        Ok(share) => Ok(share),
        Err(e) => Err(WalletError::Storage(e)),
    }
}

/// What the contents of the public key file amount to.
pub open spec fn public_key_loading(file: Result<Seq<u8>, String>) -> Result<
    Seq<u8>,
    WalletError,
> {
    match file {
        Err(e) => Err(WalletError::Io(e)),
        Ok(bytes) => match sec1_point(bytes) {
            Some(point) => Ok(point),
            None => Err(WalletError::InvalidPublicKey),
        },
    }
}

/// The contents of a file that was read, or the system's words.
pub open spec fn file_view(file: Result<Vec<u8>, String>) -> Result<Seq<u8>, String> {
    match file {
        Ok(bytes) => Ok(bytes@),
        Err(e) => Err(e),
    }
}

/// The public key in the public key file, given what reading the file came to.
pub fn load_public_key(file: Result<Vec<u8>, String>) -> (r: Result<PublicKey, WalletError>)
    ensures
        match r {
            Ok(key) => public_key_loading(file_view(file)) == Ok::<_, WalletError>(key@),
            Err(e) => public_key_loading(file_view(file)) == Err::<Seq<u8>, _>(e),
        },
{
    let bytes = match file {
        Ok(bytes) => bytes,
        Err(e) => return Err(WalletError::Io(e)),
    };
    match PublicKey::from_sec1_bytes(bytes.as_slice()) {
        Ok(key) => Ok(key),
        Err(_) => Err(WalletError::InvalidPublicKey),
    }
}

/// What a share file amounts to. That it could not be read is an error of storage.
pub open spec fn share_file_loading(
    passphrase: Seq<char>,
    file: Result<Seq<u8>, String>,
) -> Result<ShareView, WalletError> {
    match file {
        Err(e) => Err(WalletError::Storage(StorageError::Io(e))),
        Ok(blob) => share_loading(passphrase, blob),
    }
}

/// What the first `k` share files amount to: the shares, or the first error.
pub open spec fn shares_loading(
    passphrase: Seq<char>,
    files: Seq<Result<Vec<u8>, String>>,
    k: nat,
) -> Result<Seq<ShareView>, WalletError>
    decreases k,
{
    if k == 0 {
        Ok(Seq::empty())
    } else {
        match shares_loading(passphrase, files, (k - 1) as nat) {
            Err(e) => Err(e),
            Ok(shares) => match share_file_loading(passphrase, file_view(files[k - 1])) {
                Err(e) => Err(e),
                Ok(share) => Ok(shares.push(share)),
            },
        }
    }
}

proof fn lemma_loading_error_stays(
    passphrase: Seq<char>,
    files: Seq<Result<Vec<u8>, String>>,
    m: nat,
    k: nat,
)
    requires
        m <= k,
    ensures
        shares_loading(passphrase, files, m) is Err ==> shares_loading(passphrase, files, k)
            == shares_loading(passphrase, files, m),
    decreases k,
{
    if m < k {
        lemma_loading_error_stays(passphrase, files, m, (k - 1) as nat);
    }
}

/// The share in a share file, given what reading the file came to.
pub fn load_share(passphrase: &str, file: &Result<Vec<u8>, String>) -> (r: Result<
    Share,
    WalletError,
>)
    requires
        hashable(passphrase@),
    ensures
        match r {
            Ok(share) => share_file_loading(passphrase@, file_view(*file)) == Ok::<_, WalletError>(
                share@,
            ),
            Err(e) => share_file_loading(passphrase@, file_view(*file)) == Err::<ShareView, _>(e),
        },
{
    match file {
        Ok(blob) => load_external_share(passphrase, blob.as_slice()),
        Err(e) => Err(WalletError::Storage(StorageError::Io(e.clone()))),
    }
}

/// The shares in share files, in their order, given what reading each file came to.
pub fn load_shares(passphrase: &str, files: &Vec<Result<Vec<u8>, String>>) -> (r: Result<
    Vec<Share>,
    WalletError,
>)
    requires
        hashable(passphrase@),
    ensures
        match r {
            Ok(shares) => shares_loading(passphrase@, files@, files@.len()) == Ok::<
                _,
                WalletError,
            >(views(shares@)),
            Err(e) => shares_loading(passphrase@, files@, files@.len()) == Err::<
                Seq<ShareView>,
                _,
            >(e),
        },
{
    let mut shares: Vec<Share> = Vec::new();
    assert(views(shares@) =~= Seq::<ShareView>::empty());
    let mut i: usize = 0;
    while i < files.len()
        invariant
            i <= files@.len(),
            hashable(passphrase@),
            shares_loading(passphrase@, files@, i as nat) == Ok::<_, WalletError>(views(shares@)),
        decreases files.len() - i,
    {
        let ghost before = views(shares@);
        proof {
            lemma_loading_error_stays(passphrase@, files@, (i + 1) as nat, files@.len());
        }
        match load_share(passphrase, &files[i]) {
            Ok(share) => {
                shares.push(share);
                assert(views(shares@) =~= before.push(share@));
            },
            Err(e) => return Err(e),
        }
        i = i + 1;
    }
    Ok(shares)
}

/// What the first `k` sealed shares amount to: the shares, or the first error.
pub open spec fn external_shares_loading(
    passphrase: Seq<char>,
    sealed: Seq<Seq<u8>>,
    k: nat,
) -> Result<Seq<ShareView>, WalletError>
    decreases k,
{
    if k == 0 {
        Ok(Seq::empty())
    } else {
        match external_shares_loading(passphrase, sealed, (k - 1) as nat) {
            Err(e) => Err(e),
            Ok(shares) => match share_loading(passphrase, sealed[k - 1]) {
                Err(e) => Err(e),
                Ok(share) => Ok(shares.push(share)),
            },
        }
    }
}

pub proof fn lemma_external_loading_error_stays(
    passphrase: Seq<char>,
    sealed: Seq<Seq<u8>>,
    m: nat,
    k: nat,
)
    requires
        m <= k,
    ensures
        external_shares_loading(passphrase, sealed, m) is Err ==> external_shares_loading(
            passphrase,
            sealed,
            k,
        ) == external_shares_loading(passphrase, sealed, m),
    decreases k,
{
    if m < k {
        lemma_external_loading_error_stays(passphrase, sealed, m, (k - 1) as nat);
    }
}

/// The contents of blobs.
pub open spec fn blobs(sealed: Seq<Vec<u8>>) -> Seq<Seq<u8>> {
    Seq::new(sealed.len(), |i: int| sealed[i]@)
}

/// Opens the shares that their holders brought, behind the shares that are there.
pub fn load_external_shares(passphrase: &str, sealed: &Vec<Vec<u8>>, shares: &mut Vec<Share>) -> (r:
    Result<(), WalletError>)
    requires
        hashable(passphrase@),
    ensures
        match r {
            Ok(_) => external_shares_loading(passphrase@, blobs(sealed@), sealed@.len()) matches Ok(
                loaded,
            ) && views(final(shares)@) == views(old(shares)@) + loaded,
            Err(e) => external_shares_loading(passphrase@, blobs(sealed@), sealed@.len()) == Err::<
                Seq<ShareView>,
                _,
            >(e),
        },
{
    let ghost start = views(shares@);
    let ghost mut loaded: Seq<ShareView> = Seq::empty();
    assert(start + loaded =~= start);
    let mut i: usize = 0;
    while i < sealed.len()
        invariant
            i <= sealed@.len(),
            hashable(passphrase@),
            external_shares_loading(passphrase@, blobs(sealed@), i as nat) == Ok::<_, WalletError>(loaded),
            views(shares@) == start + loaded,
        decreases sealed.len() - i,
    {
        let ghost before = views(shares@);
        proof {
            lemma_external_loading_error_stays(
                passphrase@,
                blobs(sealed@),
                (i + 1) as nat,
                sealed@.len(),
            );
        }
        match load_external_share(passphrase, sealed[i].as_slice()) {
            Ok(share) => {
                shares.push(share);
                proof {
                    assert(views(shares@) =~= before.push(share@));
                    assert(start + loaded.push(share@) =~= (start + loaded).push(share@));
                    loaded = loaded.push(share@);
                }
            },
            Err(e) => return Err(e),
        }
        i = i + 1;
    }
    Ok(())
}

/// The shares to sign with: the stored one, and those of the request. That there is no stored
/// one to be had is an error only if it is the only one.
pub open spec fn stored_shares(
    passphrase: Seq<char>,
    file: Result<Seq<u8>, String>,
    sealed: Seq<Seq<u8>>,
) -> Result<Seq<ShareView>, WalletError> {
    match (
        share_file_loading(passphrase, file),
        external_shares_loading(passphrase, sealed, sealed.len()),
    ) {
        (Err(e), _) if sealed.len() == 0 => Err(e),
        (_, Err(e)) => Err(e),
        (Ok(share), Ok(loaded)) => Ok(seq![share] + loaded),
        (Err(_), Ok(loaded)) => Ok(loaded),
    }
}

/// Gathers the shares to sign with: the stored one, given what reading its file came to, and
/// sealed ones.
pub fn gather_stored_shares(
    passphrase: &str,
    file: &Result<Vec<u8>, String>,
    sealed: &Vec<Vec<u8>>,
) -> (r: Result<Vec<Share>, WalletError>)
    requires
        hashable(passphrase@),
    ensures
        match r {
            Ok(shares) => stored_shares(passphrase@, file_view(*file), blobs(sealed@)) == Ok::<
                _,
                WalletError,
            >(views(shares@)),
            Err(e) => stored_shares(passphrase@, file_view(*file), blobs(sealed@)) == Err::<
                Seq<ShareView>,
                _,
            >(e),
        },
{
    let mut shares: Vec<Share> = Vec::new();
    match load_share(passphrase, file) {
        Ok(share) => {
            shares.push(share);
            assert(views(shares@) =~= seq![share@]);
        },
        Err(e) => {
            if sealed.len() == 0 {
                return Err(e);
            }
            assert(views(shares@) =~= Seq::<ShareView>::empty());
        },
    }
    let ghost local = views(shares@);
    match load_external_shares(passphrase, sealed, &mut shares) {
        Err(e) => Err(e),
        Ok(_) => {
            proof {
                let loaded = external_shares_loading(
                    passphrase@,
                    blobs(sealed@),
                    sealed@.len(),
                )->Ok_0;
                assert(Seq::<ShareView>::empty() + loaded =~= loaded);
            }
            Ok(shares)
        },
    }
}

/// The public key that a wallet imported from sealed shares has, or why it cannot be
/// imported. There is no public key yet to check it against.
pub open spec fn imported_key(passphrase: Seq<char>, sealed: Seq<Seq<u8>>) -> Result<
    Seq<u8>,
    WalletError,
> {
    match external_shares_loading(passphrase, sealed, sealed.len()) {
        Err(e) => Err(e),
        Ok(shares) => match reconstruction(shares) {
            Err(e) => Err(WalletError::Ceremony(e)),
            Ok(key) => Ok(public_key_of(key)),
        },
    }
}

/// Finds out the public key of a wallet from exactly `threshold` sealed shares, for a device
/// that does not have it. The private key is dropped at once, and no share is kept. A wrong
/// passphrase is caught; shares of some other wallet are not.
pub fn import_wallet(passphrase: &str, sealed_shares: &Vec<Vec<u8>>) -> (r: Result<
    PublicKey,
    WalletError,
>)
    requires
        hashable(passphrase@),
    ensures
        match r {
            Ok(key) => imported_key(passphrase@, blobs(sealed_shares@)) == Ok::<_, WalletError>(key@),
            Err(e) => imported_key(passphrase@, blobs(sealed_shares@)) == Err::<Seq<u8>, _>(e),
        },
{
    let mut shares: Vec<Share> = Vec::new();
    if let Err(e) = load_external_shares(passphrase, sealed_shares, &mut shares) {
        return Err(e);
    }
    proof {
        let loaded = external_shares_loading(
            passphrase@,
            blobs(sealed_shares@),
            sealed_shares@.len(),
        )->Ok_0;
        assert(views(shares@) =~= loaded);
    }
    match reconstruct_unverified(shares.as_slice()) {
        Ok(key) => Ok(key.public_key()),
        Err(e) => Err(WalletError::Ceremony(e)),
    }
}

/// A wallet that was created can be used again: any quorum of its shares, opened under its
/// passphrase, reconstructs the key of its public key.
pub proof fn law_created_wallet_reconstructs(
    w: NewWallet,
    passphrase: Seq<char>,
    shares: Seq<ShareView>,
    threshold: u8,
    n: u8,
    chosen: Seq<ShareView>,
)
    requires
        creation_error(passphrase, threshold, n) is None,
        shares_of(shares, w.public_key@, threshold, n),
        holds_shares(w, passphrase, shares),
        is_quorum(chosen, shares, threshold),
    ensures
        verified_reconstruction(chosen, w.public_key@) matches Ok(key) && public_key_of(key)
            == w.public_key@,
        reconstruction(chosen) matches Ok(key) && public_key_of(key) == w.public_key@,
{
    let key = choose|key: Seq<u8>|
        #![trigger shares_key(shares, key, threshold, n)]
        is_private_key(key) && public_key_of(key) == w.public_key@ && shares_key(
            shares,
            key,
            threshold,
            n,
        );
    law_any_quorum_reconstructs(key, shares, chosen, threshold, n);
}

/// The files of a wallet that was created can be read again: the public key file holds the
/// public key, and the share file holds a share that the passphrase opens.
pub proof fn law_created_files_load(w: NewWallet, passphrase: Seq<char>, threshold: u8, n: u8)
    requires
        is_wallet(w, passphrase, threshold, n),
    ensures
        public_key_loading(Ok(w.public_key@)) == Ok::<_, WalletError>(w.public_key@),
        share_file_loading(passphrase, Ok(w.local_share@)) is Ok,
{
}

/// Importing restores a wallet: exactly `threshold` of the sealed shares that were handed out,
/// in any order, give the public key of the wallet that was created.
pub proof fn law_import_restores_the_wallet(
    w: NewWallet,
    passphrase: Seq<char>,
    threshold: u8,
    n: u8,
    chosen: Seq<int>,
)
    requires
        creation_error(passphrase, threshold, n) is None,
        is_wallet(w, passphrase, threshold, n),
        chosen.len() == threshold,
        chosen.no_duplicates(),
        forall|i: int|
            #![trigger chosen[i]]
            0 <= i < chosen.len() ==> 0 <= chosen[i] < w.external_shares@.len(),
    ensures
        imported_key(
            passphrase,
            Seq::new(chosen.len(), |i: int| w.external_shares@[chosen[i]]@),
        ) == Ok::<_, WalletError>(w.public_key@),
{
    let shares = choose|shares: Seq<ShareView>|
        #![trigger holds_shares(w, passphrase, shares)]
        shares_of(shares, w.public_key@, threshold, n) && holds_shares(w, passphrase, shares);
    let sealed = Seq::new(chosen.len(), |i: int| w.external_shares@[chosen[i]]@);
    let picked = Seq::new(chosen.len(), |i: int| shares[chosen[i] + 1]);
    assert forall|i: int| 0 <= i < sealed.len() implies #[trigger] share_opening(
        passphrase,
        sealed[i],
    ) == Ok::<_, StorageError>(picked[i]) by {
        assert(0 <= chosen[i] < w.external_shares@.len());
        assert(w.external_shares@[chosen[i]]@ == sealed[i]);
    }
    lemma_loading_opens_each(passphrase, sealed, picked, sealed.len());
    assert(picked.take(sealed.len() as int) =~= picked);
    assert(is_quorum(picked, shares, threshold));
    law_created_wallet_reconstructs(w, passphrase, shares, threshold, n, picked);
}

proof fn lemma_loading_opens_each(
    passphrase: Seq<char>,
    sealed: Seq<Seq<u8>>,
    shares: Seq<ShareView>,
    k: nat,
)
    requires
        sealed.len() == shares.len(),
        k <= sealed.len(),
        forall|i: int|
            0 <= i < sealed.len() ==> #[trigger] share_opening(passphrase, sealed[i]) == Ok::<
                _,
                StorageError,
            >(shares[i]),
    ensures
        external_shares_loading(passphrase, sealed, k) == Ok::<_, WalletError>(
            shares.take(k as int),
        ),
    decreases k,
{
    if k == 0 {
        assert(shares.take(0) =~= Seq::<ShareView>::empty());
    } else {
        lemma_loading_opens_each(passphrase, sealed, shares, (k - 1) as nat);
        assert(share_opening(passphrase, sealed[k - 1]) == Ok::<_, StorageError>(shares[k - 1]));
        assert(shares.take(k as int) =~= shares.take(k - 1).push(shares[k - 1]));
    }
}

/// A wallet can be created exactly with a threshold from 2 up to the number of shares and a
/// passphrase of at least 12 characters; the numbers are looked at first.
pub proof fn law_wallets_that_cannot_be_created(passphrase: Seq<char>, threshold: u8, n: u8)
    ensures
        creation_error(passphrase, threshold, n) is None <==> 2 <= threshold <= n
            && passphrase.len() >= 12,
        threshold < 2 ==> creation_error(passphrase, threshold, n) == Some(
            WalletError::Ceremony(ShamirError::ThresholdTooSmall),
        ),
        2 <= threshold && threshold > n ==> creation_error(passphrase, threshold, n) == Some(
            WalletError::Ceremony(ShamirError::ThresholdExceedsParties),
        ),
        2 <= threshold <= n && passphrase.len() < 12 ==> creation_error(passphrase, threshold, n)
            == Some(WalletError::Storage(StorageError::WeakPassphrase)),
{
}

/// A new wallet keeps share 1 and hands out the shares 2 to `n`, in this order, all of 91 bytes
/// and all openable under its passphrase.
pub proof fn law_new_wallet_share_by_share(
    w: NewWallet,
    passphrase: Seq<char>,
    threshold: u8,
    n: u8,
    i: int,
)
    requires
        is_wallet(w, passphrase, threshold, n),
        n > 0,
        0 <= i < n - 1,
    ensures
        w.local_share@.len() == 91,
        share_opening(passphrase, w.local_share@) matches Ok(share) && share.index == 1
            && share.threshold == threshold,
        w.external_shares@.len() == n - 1,
        w.external_shares@[i]@.len() == 91,
        share_opening(passphrase, w.external_shares@[i]@) matches Ok(share) && share.index == i + 2
            && share.threshold == threshold,
{
    let shares = choose|shares: Seq<ShareView>|
        #![trigger holds_shares(w, passphrase, shares)]
        shares_of(shares, w.public_key@, threshold, n) && holds_shares(w, passphrase, shares);
    let key = choose|key: Seq<u8>|
        #![trigger shares_key(shares, key, threshold, n)]
        is_private_key(key) && public_key_of(key) == w.public_key@ && shares_key(
            shares,
            key,
            threshold,
            n,
        );
    crate::shamir::law_shares_are_numbered(shares, key, threshold, n, 0);
    crate::shamir::law_shares_are_numbered(shares, key, threshold, n, i + 1);
}

/// Sealed shares load exactly if each of them opens, and then to what each of them holds, in
/// their order.
pub proof fn law_sealed_shares_load_one_by_one(
    passphrase: Seq<char>,
    sealed: Seq<Seq<u8>>,
    k: nat,
    shares: Seq<ShareView>,
)
    requires
        k <= sealed.len(),
    ensures
        external_shares_loading(passphrase, sealed, k) == Ok::<_, WalletError>(shares) <==> {
            &&& shares.len() == k
            &&& forall|i: int|
                #![trigger sealed[i]]
                0 <= i < k ==> share_opening(passphrase, sealed[i]) == Ok::<_, StorageError>(
                    shares[i],
                )
        },
    decreases k,
{
    if k == 0 {
        assert(shares.len() == 0 ==> shares =~= Seq::empty());
    } else {
        let n = (k - 1) as nat;
        if external_shares_loading(passphrase, sealed, k) == Ok::<_, WalletError>(shares) {
            let before = external_shares_loading(passphrase, sealed, n)->Ok_0;
            law_sealed_shares_load_one_by_one(passphrase, sealed, n, before);
            assert(shares =~= before.push(share_loading(passphrase, sealed[k - 1])->Ok_0));
        }
        if shares.len() == k && forall|i: int|
            #![trigger sealed[i]]
            0 <= i < k ==> share_opening(passphrase, sealed[i]) == Ok::<_, StorageError>(
                shares[i],
            ) {
            let before = shares.drop_last();
            assert forall|i: int| #![trigger sealed[i]] 0 <= i < n implies share_opening(
                passphrase,
                sealed[i],
            ) == Ok::<_, StorageError>(before[i]) by {
                assert(shares[i] == before[i]);
            }
            law_sealed_shares_load_one_by_one(passphrase, sealed, n, before);
            assert(share_opening(passphrase, sealed[k - 1]) == Ok::<_, StorageError>(
                shares[k - 1],
            ));
            assert(shares =~= before.push(shares.last()));
        }
    }
}

/// The first sealed share that does not open is what loading fails for.
pub proof fn law_first_share_that_does_not_open(
    passphrase: Seq<char>,
    sealed: Seq<Seq<u8>>,
    k: int,
    shares: Seq<ShareView>,
    e: StorageError,
)
    requires
        0 <= k < sealed.len(),
        shares.len() == k,
        forall|i: int|
            #![trigger sealed[i]]
            0 <= i < k ==> share_opening(passphrase, sealed[i]) == Ok::<_, StorageError>(shares[i]),
        share_opening(passphrase, sealed[k]) == Err::<ShareView, _>(e),
    ensures
        external_shares_loading(passphrase, sealed, sealed.len()) == Err::<Seq<ShareView>, _>(
            WalletError::Storage(e),
        ),
        imported_key(passphrase, sealed) == Err::<Seq<u8>, _>(WalletError::Storage(e)),
{
    law_sealed_shares_load_one_by_one(passphrase, sealed, k as nat, shares);
    assert(external_shares_loading(passphrase, sealed, (k + 1) as nat) == Err::<Seq<ShareView>, _>(
        WalletError::Storage(e),
    ));
    lemma_external_loading_error_stays(passphrase, sealed, (k + 1) as nat, sealed.len());
}

/// To sign, the stored share comes first and then those of the request, in their order. A
/// stored share that cannot be had is left out where the request brings shares, and is an error
/// where it brings none.
pub proof fn law_shares_to_sign_with(
    passphrase: Seq<char>,
    file: Result<Seq<u8>, String>,
    sealed: Seq<Seq<u8>>,
    loaded: Seq<ShareView>,
)
    requires
        loaded.len() == sealed.len(),
        forall|i: int|
            #![trigger sealed[i]]
            0 <= i < sealed.len() ==> share_opening(passphrase, sealed[i]) == Ok::<
                _,
                StorageError,
            >(loaded[i]),
    ensures
        share_file_loading(passphrase, file) matches Ok(share) ==> stored_shares(
            passphrase,
            file,
            sealed,
        ) == Ok::<_, WalletError>(seq![share] + loaded),
        share_file_loading(passphrase, file) matches Err(e) ==> stored_shares(
            passphrase,
            file,
            sealed,
        ) == if sealed.len() == 0 {
            Err::<Seq<ShareView>, WalletError>(e)
        } else {
            Ok(loaded)
        },
{
    law_sealed_shares_load_one_by_one(passphrase, sealed, sealed.len(), loaded);
}

/// A sealed share of the request that does not open is an error, whatever the stored one is.
pub proof fn law_bad_shares_sign_nothing(
    passphrase: Seq<char>,
    file: Result<Seq<u8>, String>,
    sealed: Seq<Seq<u8>>,
    k: int,
    shares: Seq<ShareView>,
    e: StorageError,
)
    requires
        0 <= k < sealed.len(),
        shares.len() == k,
        forall|i: int|
            #![trigger sealed[i]]
            0 <= i < k ==> share_opening(passphrase, sealed[i]) == Ok::<_, StorageError>(shares[i]),
        share_opening(passphrase, sealed[k]) == Err::<ShareView, _>(e),
    ensures
        stored_shares(passphrase, file, sealed) == Err::<Seq<ShareView>, _>(
            WalletError::Storage(e),
        ),
{
    law_first_share_that_does_not_open(passphrase, sealed, k, shares, e);
}

/// A file that could not be read says so; a share file holds what opens under the passphrase,
/// and the public key file a point of the curve.
pub proof fn law_files_by_contents(passphrase: Seq<char>, words: String, bytes: Seq<u8>)
    ensures
        share_file_loading(passphrase, Err(words)) == Err::<ShareView, _>(
            WalletError::Storage(StorageError::Io(words)),
        ),
        share_opening(passphrase, bytes) matches Ok(share) ==> share_file_loading(
            passphrase,
            Ok(bytes),
        ) == Ok::<_, WalletError>(share),
        share_opening(passphrase, bytes) matches Err(e) ==> share_file_loading(
            passphrase,
            Ok(bytes),
        ) == Err::<ShareView, _>(WalletError::Storage(e)),
        public_key_loading(Err(words)) == Err::<Seq<u8>, _>(WalletError::Io(words)),
        sec1_point(bytes) matches Some(point) ==> public_key_loading(Ok(bytes)) == Ok::<
            _,
            WalletError,
        >(point),
        sec1_point(bytes) is None ==> public_key_loading(Ok(bytes)) == Err::<Seq<u8>, _>(
            WalletError::InvalidPublicKey,
        ),
{
}

/// Share files load exactly if each of them does, in their order.
pub proof fn law_share_files_load_one_by_one(
    passphrase: Seq<char>,
    files: Seq<Result<Vec<u8>, String>>,
    k: nat,
    shares: Seq<ShareView>,
)
    requires
        k <= files.len(),
    ensures
        shares_loading(passphrase, files, k) == Ok::<_, WalletError>(shares) <==> {
            &&& shares.len() == k
            &&& forall|i: int|
                #![trigger files[i]]
                0 <= i < k ==> share_file_loading(passphrase, file_view(files[i])) == Ok::<
                    _,
                    WalletError,
                >(shares[i])
        },
    decreases k,
{
    if k == 0 {
        assert(shares.len() == 0 ==> shares =~= Seq::empty());
    } else {
        let n = (k - 1) as nat;
        if shares_loading(passphrase, files, k) == Ok::<_, WalletError>(shares) {
            let before = shares_loading(passphrase, files, n)->Ok_0;
            law_share_files_load_one_by_one(passphrase, files, n, before);
            assert(shares =~= before.push(
                share_file_loading(passphrase, file_view(files[k - 1]))->Ok_0,
            ));
        }
        if shares.len() == k && forall|i: int|
            #![trigger files[i]]
            0 <= i < k ==> share_file_loading(passphrase, file_view(files[i])) == Ok::<
                _,
                WalletError,
            >(shares[i]) {
            let before = shares.drop_last();
            assert forall|i: int| #![trigger files[i]] 0 <= i < n implies share_file_loading(
                passphrase,
                file_view(files[i]),
            ) == Ok::<_, WalletError>(before[i]) by {
                assert(shares[i] == before[i]);
            }
            law_share_files_load_one_by_one(passphrase, files, n, before);
            assert(share_file_loading(passphrase, file_view(files[k - 1])) == Ok::<
                _,
                WalletError,
            >(shares[k - 1]));
            assert(shares =~= before.push(shares.last()));
        }
    }
}

/// The first share file that does not load is what loading fails for.
pub proof fn law_first_file_that_does_not_load(
    passphrase: Seq<char>,
    files: Seq<Result<Vec<u8>, String>>,
    k: int,
    shares: Seq<ShareView>,
    e: WalletError,
)
    requires
        0 <= k < files.len(),
        shares.len() == k,
        forall|i: int|
            #![trigger files[i]]
            0 <= i < k ==> share_file_loading(passphrase, file_view(files[i])) == Ok::<
                _,
                WalletError,
            >(shares[i]),
        share_file_loading(passphrase, file_view(files[k])) == Err::<ShareView, _>(e),
    ensures
        shares_loading(passphrase, files, files.len()) == Err::<Seq<ShareView>, _>(e),
{
    law_share_files_load_one_by_one(passphrase, files, k as nat, shares);
    assert(shares_loading(passphrase, files, (k + 1) as nat) == Err::<Seq<ShareView>, _>(e));
    lemma_loading_error_stays(passphrase, files, (k + 1) as nat, files.len());
}

/// Importing gives the public key of the key that the opened shares combine to, or says why
/// they do not.
pub proof fn law_import_combines_what_opens(
    passphrase: Seq<char>,
    sealed: Seq<Seq<u8>>,
    shares: Seq<ShareView>,
)
    requires
        shares.len() == sealed.len(),
        forall|i: int|
            #![trigger sealed[i]]
            0 <= i < sealed.len() ==> share_opening(passphrase, sealed[i]) == Ok::<
                _,
                StorageError,
            >(shares[i]),
    ensures
        reconstruction(shares) matches Ok(key) ==> imported_key(passphrase, sealed) == Ok::<
            _,
            WalletError,
        >(public_key_of(key)),
        reconstruction(shares) matches Err(e) ==> imported_key(passphrase, sealed) == Err::<
            Seq<u8>,
            _,
        >(WalletError::Ceremony(e)),
{
    law_sealed_shares_load_one_by_one(passphrase, sealed, sealed.len(), shares);
}

} // verus!
