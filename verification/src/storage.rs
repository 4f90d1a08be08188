//! Encryption of private keys and shares at rest.
//!
//! A blob is `version(1) || salt(16) || nonce(24) || ciphertext and tag`. The version byte
//! lets a later format be refused instead of misread. The plaintext of a share is
//! `index(1) || threshold(1) || value(32)`: its metadata is under the same seal as its
//! value.
//!
//! The encryption key is derived from the passphrase with Argon2id at 64 MiB, 3 passes and
//! 4 lanes, so guessing at a stolen file is expensive. The cipher is XChaCha20-Poly1305: a
//! blob that was changed does not open. Every buffer that holds plaintext or the key is
//! wiped.

use chacha20poly1305::aead::{Aead, KeyInit};
use k256::elliptic_curve::rand_core::{OsRng, RngCore};
use vstd::prelude::*;
use vstd::utf8::encode_utf8;

use crate::bytes::array_at;
use crate::keys::{is_private_key, PrivateKey};
use crate::secret::{SecretBytes, SecretVec};
use crate::shamir::{Share, ShareView};

verus! {

pub const SALT_LEN: usize = 16;

pub const NONCE_LEN: usize = 24;

/// The length of the tag, which is what the shortest ciphertext consists of.
pub const TAG_LEN: usize = 16;

/// The length of the shortest blob: version, salt, nonce and tag.
pub const MIN_BLOB_LEN: usize = 57;

/// Index, threshold and value.
pub const SHARE_PLAINTEXT_LEN: usize = 34;

/// The length of a sealed share: version, salt, nonce, plaintext and tag.
pub const SEALED_SHARE_LEN: usize = 91;

/// The version of the format.
pub const FORMAT_VERSION: u8 = 1;

/// The shortest passphrase that is accepted, in characters. This keeps out the most obvious
/// ones and estimates nothing.
pub const MIN_PASSPHRASE_LEN: usize = 12;

/// Errors of sealing and opening.
#[derive(Debug)]
pub enum StorageError {
    /// The passphrase is wrong or the blob was changed. Which one is not told apart.
    DecryptionFailed,
    /// The blob is shorter than the header and the shortest ciphertext, or what it holds does
    /// not have the right length.
    Truncated,
    /// What the blob holds is no private key.
    InvalidKeyBytes,
    /// The passphrase is shorter than `MIN_PASSPHRASE_LEN`.
    WeakPassphrase,
    /// The blob has another version than `FORMAT_VERSION`.
    UnsupportedVersion(u8),
    /// The file could not be read or written, with the system's words.
    Io(String),
}

/// The memory that deriving a key takes, in KiB.
pub const KDF_MEMORY_KIB: u32 = 65536;

/// The passes that deriving a key makes.
pub const KDF_PASSES: u32 = 3;

/// The lanes that deriving a key uses.
pub const KDF_LANES: u32 = 4;

/// The 32 bytes that Argon2id (version 0x13) derives from a passphrase and a salt with the
/// given memory in KiB, passes and lanes.
pub uninterp spec fn argon2id_output(
    passphrase: Seq<u8>,
    salt: Seq<u8>,
    memory_kib: u32,
    passes: u32,
    lanes: u32,
) -> Seq<u8>;

/// The encryption key of a passphrase and a salt.
pub open spec fn encryption_key(passphrase: Seq<char>, salt: Seq<u8>) -> Seq<u8> {
    argon2id_output(encode_utf8(passphrase), salt, KDF_MEMORY_KIB, KDF_PASSES, KDF_LANES)
}

/// The XChaCha20-Poly1305 ciphertext of a plaintext, with its tag.
pub uninterp spec fn xchacha_ciphertext(
    key: Seq<u8>,
    nonce: Seq<u8>,
    plaintext: Seq<u8>,
) -> Seq<u8>;

/// The plaintext of an XChaCha20-Poly1305 ciphertext, if its tag is right.
pub uninterp spec fn xchacha_plaintext(
    key: Seq<u8>,
    nonce: Seq<u8>,
    ciphertext: Seq<u8>,
) -> Option<Seq<u8>>;

/// `argon2::Argon2::hash_password_into` with Argon2id in version 0x13 and 32 bytes of output.
/// It refuses a passphrase of 4 GiB or more and costs outside the stated ranges. The lanes are
/// filled on several threads where there are several; the output does not depend on that.
/// (It needs `memory_kib` of memory, and cannot go on where the machine has none to give.)
#[verifier::external_body]
fn argon2id(passphrase: &[u8], salt: &[u8; 16], memory_kib: u32, passes: u32, lanes: u32) -> (r:
    [u8; 32])
    requires
        passphrase@.len() <= 0xFFFF_FFFF,
        1 <= lanes <= 0xFF_FFFF,
        8 * lanes <= memory_kib <= 0x10_0000,
        1 <= passes,
    ensures
        r@ == argon2id_output(passphrase@, salt@, memory_kib, passes, lanes),
{
    let params = argon2::Params::new(memory_kib, passes, lanes, Some(32)).unwrap();
    let hasher = argon2::Argon2::new(argon2::Algorithm::Argon2id, argon2::Version::V0x13, params);
    let mut out = [0u8; 32];
    hasher.hash_password_into(passphrase, salt, &mut out).unwrap();
    out
}

/// `Aead::encrypt` of `chacha20poly1305::XChaCha20Poly1305`: the ciphertext is 16 bytes longer
/// than the plaintext and decrypts to it. (The cipher has a limit of 256 GiB, far above
/// what is let in here.)
#[verifier::external_body]
fn xchacha_encrypt(key: &[u8; 32], nonce: &[u8; 24], plaintext: &[u8]) -> (r: Vec<u8>)
    requires
        plaintext@.len() <= 0xFFFF_FFFF,
    ensures
        r@ == xchacha_ciphertext(key@, nonce@, plaintext@),
        r@.len() == plaintext@.len() + TAG_LEN,
        xchacha_plaintext(key@, nonce@, r@) == Some(plaintext@),
{
    let cipher = chacha20poly1305::XChaCha20Poly1305::new(&(*key).into());
    cipher.encrypt(&(*nonce).into(), plaintext).unwrap()
}

/// `Aead::decrypt` of `chacha20poly1305::XChaCha20Poly1305`: the plaintext, 16 bytes shorter
/// than the ciphertext, or nothing if the tag is wrong or missing.
#[verifier::external_body]
fn xchacha_decrypt(key: &[u8; 32], nonce: &[u8; 24], ciphertext: &[u8]) -> (r: Option<Vec<u8>>)
    ensures
        match r {
            Some(p) => {
                &&& xchacha_plaintext(key@, nonce@, ciphertext@) == Some(p@)
                &&& p@.len() + TAG_LEN == ciphertext@.len()
            },
            None => xchacha_plaintext(key@, nonce@, ciphertext@) is None,
        },
{
    let cipher = chacha20poly1305::XChaCha20Poly1305::new(&(*key).into());
    cipher.decrypt(&(*nonce).into(), ciphertext).ok()
}

/// `RngCore::fill_bytes` of the operating system's random source. What it fills in is left
/// to chance.
#[verifier::external_body]
fn random_bytes<const N: usize>() -> (r: [u8; N]) {
    let mut out = [0u8; N];
    OsRng.fill_bytes(&mut out);
    out
}

/// The passphrase is long enough.
pub open spec fn strong_enough(passphrase: Seq<char>) -> bool {
    passphrase.len() >= MIN_PASSPHRASE_LEN
}

/// The passphrase has a length that can be hashed.
pub open spec fn hashable(passphrase: Seq<char>) -> bool {
    encode_utf8(passphrase).len() <= 0xFFFF_FFFF
}

/// The blob of a plaintext under a passphrase, with a given salt and nonce.
pub open spec fn sealed_blob(
    passphrase: Seq<char>,
    salt: Seq<u8>,
    nonce: Seq<u8>,
    plaintext: Seq<u8>,
) -> Seq<u8> {
    seq![FORMAT_VERSION] + salt + nonce + xchacha_ciphertext(
        encryption_key(passphrase, salt),
        nonce,
        plaintext,
    )
}

/// What a blob holds under a passphrase, or why it does not open.
pub open spec fn opening(passphrase: Seq<char>, blob: Seq<u8>) -> Result<Seq<u8>, StorageError> {
    if blob.len() == 0 {
        Err(StorageError::Truncated)
    } else if blob[0] != FORMAT_VERSION {
        Err(StorageError::UnsupportedVersion(blob[0]))
    } else if blob.len() < MIN_BLOB_LEN {
        Err(StorageError::Truncated)
    } else {
        match xchacha_plaintext(
            encryption_key(passphrase, blob.subrange(1, 17)),
            blob.subrange(17, 41),
            blob.skip(41),
        ) {
            Some(p) => Ok(p),
            None => Err(StorageError::DecryptionFailed),
        }
    }
}

/// The blob seals the plaintext under the passphrase with some salt and nonce, opens to it
/// again, and is longer than it by version, salt, nonce and tag.
pub open spec fn seals(passphrase: Seq<char>, blob: Seq<u8>, plaintext: Seq<u8>) -> bool {
    &&& exists|salt: Seq<u8>, nonce: Seq<u8>|
        #![trigger sealed_blob(passphrase, salt, nonce, plaintext)]
        salt.len() == SALT_LEN && nonce.len() == NONCE_LEN && blob == sealed_blob(
            passphrase,
            salt,
            nonce,
            plaintext,
        )
    &&& opening(passphrase, blob) == Ok::<_, StorageError>(plaintext)
    &&& blob.len() == plaintext.len() + MIN_BLOB_LEN
}

/// The private key in a blob, or why there is none.
pub open spec fn key_opening(passphrase: Seq<char>, blob: Seq<u8>) -> Result<
    Seq<u8>,
    StorageError,
> {
    match opening(passphrase, blob) {
        Err(e) => Err(e),
        Ok(p) => if p.len() != 32 {
            Err(StorageError::Truncated)
        } else if !is_private_key(p) {
            Err(StorageError::InvalidKeyBytes)
        } else {
            Ok(p)
        },
    }
}

/// How a share is laid out before it is sealed.
pub open spec fn share_plaintext(share: ShareView) -> Seq<u8> {
    seq![share.index, share.threshold] + share.value
}

/// The share in a blob, or why there is none.
pub open spec fn share_opening(passphrase: Seq<char>, blob: Seq<u8>) -> Result<
    ShareView,
    StorageError,
> {
    match opening(passphrase, blob) {
        Err(e) => Err(e),
        Ok(p) => if p.len() != SHARE_PLAINTEXT_LEN {
            Err(StorageError::Truncated)
        } else {
            Ok(ShareView { index: p[0], threshold: p[1], value: p.subrange(2, 34) })
        },
    }
}

/// Refuses a passphrase that is too short.
pub fn check_passphrase_strength(passphrase: &str) -> (r: Result<(), StorageError>)
    ensures
        match r {
            Ok(_) => strong_enough(passphrase@),
            Err(e) => !strong_enough(passphrase@) && e == StorageError::WeakPassphrase,
        },
{
    if passphrase.unicode_len() < MIN_PASSPHRASE_LEN {
        return Err(StorageError::WeakPassphrase);
    }
    Ok(())
}

fn derive_key(passphrase: &str, salt: &[u8; 16]) -> (r: SecretBytes<32>)
    requires
        hashable(passphrase@),
    ensures
        r@ == encryption_key(passphrase@, salt@),
{
    SecretBytes::from_array(
        argon2id(passphrase.as_bytes(), salt, KDF_MEMORY_KIB, KDF_PASSES, KDF_LANES),
    )
}

/// Seals a plaintext with a given salt and nonce.
pub fn seal_bytes_with(
    passphrase: &str,
    salt: &[u8; 16],
    nonce: &[u8; 24],
    plaintext: &[u8],
) -> (r: Result<Vec<u8>, StorageError>)
    requires
        hashable(passphrase@),
        plaintext@.len() <= 0xFFFF_FFFF,
    ensures
        match r {
            Ok(blob) => {
                &&& strong_enough(passphrase@)
                &&& blob@ == sealed_blob(passphrase@, salt@, nonce@, plaintext@)
                &&& opening(passphrase@, blob@) == Ok::<_, StorageError>(plaintext@)
                &&& blob@.len() == plaintext@.len() + MIN_BLOB_LEN
            },
            Err(e) => !strong_enough(passphrase@) && e == StorageError::WeakPassphrase,
        },
{
    if let Err(e) = check_passphrase_strength(passphrase) {
        return Err(e);
    }
    let derived = derive_key(passphrase, salt);
    let ciphertext = xchacha_encrypt(derived.expose(), nonce, plaintext);
    let mut out: Vec<u8> = Vec::new();
    out.push(FORMAT_VERSION);
    out.extend_from_slice(salt);
    out.extend_from_slice(nonce);
    out.extend_from_slice(ciphertext.as_slice());
    proof {
        assert(out@ =~= sealed_blob(passphrase@, salt@, nonce@, plaintext@));
        assert(out@.subrange(1, 17) =~= salt@);
        assert(out@.subrange(17, 41) =~= nonce@);
        assert(out@.skip(41) =~= ciphertext@);
    }
    Ok(out)
}

/// Seals a plaintext with a fresh salt and nonce.
fn seal_bytes(passphrase: &str, plaintext: &[u8]) -> (r: Result<Vec<u8>, StorageError>)
    requires
        hashable(passphrase@),
        plaintext@.len() <= 0xFFFF_FFFF,
    ensures
        match r {
            Ok(blob) => strong_enough(passphrase@) && seals(passphrase@, blob@, plaintext@),
            Err(e) => !strong_enough(passphrase@) && e == StorageError::WeakPassphrase,
        },
{
    let salt: [u8; 16] = random_bytes::<16>();
    let nonce: [u8; 24] = random_bytes::<24>();
    seal_bytes_with(passphrase, &salt, &nonce, plaintext)
}

/// Opens a blob.
fn open_bytes(passphrase: &str, blob: &[u8]) -> (r: Result<SecretVec, StorageError>)
    requires
        hashable(passphrase@),
    ensures
        match r {
            Ok(p) => opening(passphrase@, blob@) == Ok::<_, StorageError>(p@),
            Err(e) => opening(passphrase@, blob@) == Err::<Seq<u8>, _>(e),
        },
{
    if blob.len() == 0 {
        return Err(StorageError::Truncated);
    }
    if blob[0] != FORMAT_VERSION {
        return Err(StorageError::UnsupportedVersion(blob[0]));
    }
    if blob.len() < MIN_BLOB_LEN {
        return Err(StorageError::Truncated);
    }
    let salt: [u8; 16] = array_at::<16>(blob, 1);
    let nonce: [u8; 24] = array_at::<24>(blob, 17);
    let ciphertext = vstd::slice::slice_subrange(blob, 41, blob.len());
    assert(ciphertext@ =~= blob@.skip(41));
    let derived = derive_key(passphrase, &salt);
    match xchacha_decrypt(derived.expose(), &nonce, ciphertext) {
        Some(p) => Ok(SecretVec::from_vec(p)),
        None => Err(StorageError::DecryptionFailed),
    }
}

/// Seals a private key.
pub fn seal(passphrase: &str, key: &PrivateKey) -> (r: Result<Vec<u8>, StorageError>)
    requires
        hashable(passphrase@),
    ensures
        match r {
            Ok(blob) => strong_enough(passphrase@) && seals(passphrase@, blob@, key@),
            Err(e) => !strong_enough(passphrase@) && e == StorageError::WeakPassphrase,
        },
{
    let key_bytes = SecretBytes::from_array(key.to_bytes_dangerous());
    seal_bytes(passphrase, key_bytes.expose())
}

/// Opens a blob that holds a private key.
pub fn open(passphrase: &str, blob: &[u8]) -> (r: Result<PrivateKey, StorageError>)
    requires
        hashable(passphrase@),
    ensures
        match r {
            Ok(key) => key_opening(passphrase@, blob@) == Ok::<_, StorageError>(key@),
            Err(e) => key_opening(passphrase@, blob@) == Err::<Seq<u8>, _>(e),
        },
{
    let plaintext = match open_bytes(passphrase, blob) {
        Ok(p) => p,
        Err(e) => return Err(e),
    };
    let p = plaintext.expose();
    if p.len() != 32 {
        return Err(StorageError::Truncated);
    }
    let bytes: SecretBytes<32> = SecretBytes::from_array(array_at::<32>(p, 0));
    assert(bytes@ =~= p@);
    match PrivateKey::from_bytes_dangerous(bytes.expose()) {
        Ok(key) => Ok(key),
        Err(_) => Err(StorageError::InvalidKeyBytes),
    }
}

/// Seals a share. Its metadata goes under the same seal as its value.
pub fn seal_share(passphrase: &str, share: &Share) -> (r: Result<Vec<u8>, StorageError>)
    requires
        hashable(passphrase@),
    ensures
        match r {
            Ok(blob) => strong_enough(passphrase@) && seals(
                passphrase@,
                blob@,
                share_plaintext(share@),
            ) && blob@.len() == SEALED_SHARE_LEN && share_opening(passphrase@, blob@) == Ok::<
                _,
                StorageError,
            >(share@),
            Err(e) => !strong_enough(passphrase@) && e == StorageError::WeakPassphrase,
        },
{
    let mut plaintext: Vec<u8> = Vec::with_capacity(SHARE_PLAINTEXT_LEN);
    plaintext.push(share.index());
    plaintext.push(share.threshold());
    let value = SecretBytes::from_array(share.to_bytes_dangerous());
    plaintext.extend_from_slice(value.expose());
    let plaintext = SecretVec::from_vec(plaintext);
    proof {
        assert(plaintext@ =~= share_plaintext(share@));
        assert(plaintext@.subrange(2, 34) =~= share@.value);
    }
    seal_bytes(passphrase, plaintext.expose())
}

/// Opens a blob that holds a share.
pub fn open_share(passphrase: &str, blob: &[u8]) -> (r: Result<Share, StorageError>)
    requires
        hashable(passphrase@),
    ensures
        match r {
            Ok(share) => share_opening(passphrase@, blob@) == Ok::<_, StorageError>(share@),
            Err(e) => share_opening(passphrase@, blob@) == Err::<ShareView, _>(e),
        },
{
    let plaintext = match open_bytes(passphrase, blob) {
        Ok(p) => p,
        Err(e) => return Err(e),
    };
    let p = plaintext.expose();
    if p.len() != SHARE_PLAINTEXT_LEN {
        return Err(StorageError::Truncated);
    }
    let value: [u8; 32] = array_at::<32>(p, 2);
    Ok(Share::from_parts_dangerous(p[0], p[1], value))
}

/// A sealed private key opens, under its passphrase, to exactly that key.
pub proof fn law_sealed_key_opens(passphrase: Seq<char>, blob: Seq<u8>, key: Seq<u8>)
    requires
        is_private_key(key),
        seals(passphrase, blob, key),
    ensures
        key_opening(passphrase, blob) == Ok::<_, StorageError>(key),
{
}

/// A sealed share opens, under its passphrase, to exactly that share: index, threshold and
/// value.
pub proof fn law_sealed_share_opens(passphrase: Seq<char>, blob: Seq<u8>, share: ShareView)
    requires
        share.value.len() == 32,
        seals(passphrase, blob, share_plaintext(share)),
    ensures
        share_opening(passphrase, blob) == Ok::<_, StorageError>(share),
{
    assert(share_plaintext(share).subrange(2, 34) =~= share.value);
}

/// A blob whose ciphertext the cipher refuses, under the key that the passphrase and the
/// salt give, opens to nothing: neither a key nor a share comes out, and it is not told why.
pub proof fn law_refused_ciphertext_opens_to_nothing(passphrase: Seq<char>, blob: Seq<u8>)
    requires
        blob.len() >= MIN_BLOB_LEN,
        blob[0] == FORMAT_VERSION,
        xchacha_plaintext(
            encryption_key(passphrase, blob.subrange(1, 17)),
            blob.subrange(17, 41),
            blob.skip(41),
        ) is None,
    ensures
        opening(passphrase, blob) == Err::<Seq<u8>, _>(StorageError::DecryptionFailed),
        key_opening(passphrase, blob) == Err::<Seq<u8>, _>(StorageError::DecryptionFailed),
        share_opening(passphrase, blob) == Err::<ShareView, _>(StorageError::DecryptionFailed),
{
}

/// A sealed key is not taken for a share, nor a sealed share for a key.
pub proof fn law_blobs_do_not_change_kind(
    passphrase: Seq<char>,
    key_blob: Seq<u8>,
    key: Seq<u8>,
    share_blob: Seq<u8>,
    share: ShareView,
)
    requires
        is_private_key(key),
        share.value.len() == 32,
        seals(passphrase, key_blob, key),
        seals(passphrase, share_blob, share_plaintext(share)),
    ensures
        share_opening(passphrase, key_blob) == Err::<ShareView, _>(StorageError::Truncated),
        key_opening(passphrase, share_blob) == Err::<Seq<u8>, _>(StorageError::Truncated),
{
}

/// A blob, part by part: the version 1, the salt, the nonce, and the plaintext encrypted under
/// what Argon2id makes of the passphrase and the salt with 64 MiB, 3 passes and 4 lanes.
pub proof fn law_blob_by_parts(
    passphrase: Seq<char>,
    salt: Seq<u8>,
    nonce: Seq<u8>,
    plaintext: Seq<u8>,
)
    requires
        salt.len() == 16,
        nonce.len() == 24,
    ensures
        ({
            let blob = sealed_blob(passphrase, salt, nonce, plaintext);
            &&& blob[0] == 1
            &&& blob.subrange(1, 17) == salt
            &&& blob.subrange(17, 41) == nonce
            &&& blob.skip(41) == xchacha_ciphertext(
                argon2id_output(encode_utf8(passphrase), salt, 65536, 3, 4),
                nonce,
                plaintext,
            )
        }),
{
    let blob = sealed_blob(passphrase, salt, nonce, plaintext);
    let ciphertext = xchacha_ciphertext(encryption_key(passphrase, salt), nonce, plaintext);
    assert(blob.subrange(1, 17) =~= salt);
    assert(blob.subrange(17, 41) =~= nonce);
    assert(blob.skip(41) =~= ciphertext);
}

/// What a blob opens to, by its parts: nothing without a version, nothing in another version
/// than 1, nothing in less than 57 bytes; else what the cipher gives back of the bytes from 41
/// on, under the nonce in bytes 17 to 40 and the key of the salt in bytes 1 to 16.
pub proof fn law_opening_by_parts(passphrase: Seq<char>, blob: Seq<u8>)
    ensures
        blob.len() == 0 ==> opening(passphrase, blob) == Err::<Seq<u8>, _>(StorageError::Truncated),
        blob.len() > 0 && blob[0] != 1 ==> opening(passphrase, blob) == Err::<Seq<u8>, _>(
            StorageError::UnsupportedVersion(blob[0]),
        ),
        0 < blob.len() < 57 && blob[0] == 1 ==> opening(passphrase, blob) == Err::<Seq<u8>, _>(
            StorageError::Truncated,
        ),
        blob.len() >= 57 && blob[0] == 1 ==> opening(passphrase, blob) == match xchacha_plaintext(
            argon2id_output(encode_utf8(passphrase), blob.subrange(1, 17), 65536, 3, 4),
            blob.subrange(17, 41),
            blob.skip(41),
        ) {
            Some(p) => Ok::<Seq<u8>, StorageError>(p),
            None => Err(StorageError::DecryptionFailed),
        },
{
}

/// A passphrase is long enough from 12 characters on.
pub proof fn law_passphrases_have_twelve_characters(passphrase: Seq<char>)
    ensures
        strong_enough(passphrase) <==> passphrase.len() >= 12,
{
}

/// A key comes out of a blob exactly if what it holds is 32 bytes that are a private key, and
/// then it is those bytes; other lengths and other numbers are told apart.
pub proof fn law_keys_in_blobs(passphrase: Seq<char>, blob: Seq<u8>, p: Seq<u8>)
    requires
        opening(passphrase, blob) == Ok::<_, StorageError>(p),
    ensures
        p.len() == 32 && is_private_key(p) ==> key_opening(passphrase, blob) == Ok::<
            _,
            StorageError,
        >(p),
        p.len() == 32 && !is_private_key(p) ==> key_opening(passphrase, blob) == Err::<Seq<u8>, _>(
            StorageError::InvalidKeyBytes,
        ),
        p.len() != 32 ==> key_opening(passphrase, blob) == Err::<Seq<u8>, _>(
            StorageError::Truncated,
        ),
{
}

/// A share comes out of a blob exactly if what it holds has 34 bytes: the index, the threshold
/// and the value.
pub proof fn law_shares_in_blobs(passphrase: Seq<char>, blob: Seq<u8>, p: Seq<u8>)
    requires
        opening(passphrase, blob) == Ok::<_, StorageError>(p),
    ensures
        p.len() == 34 ==> ({
            let share = share_opening(passphrase, blob);
            &&& share is Ok
            &&& (share->Ok_0).index == p[0]
            &&& (share->Ok_0).threshold == p[1]
            &&& (share->Ok_0).value == p.skip(2)
        }),
        p.len() != 34 ==> share_opening(passphrase, blob) == Err::<ShareView, _>(
            StorageError::Truncated,
        ),
{
    if p.len() == 34 {
        assert(p.subrange(2, 34) =~= p.skip(2));
    }
}

/// What does not open holds neither a key nor a share, for the same reason.
pub proof fn law_closed_blobs_hold_nothing(passphrase: Seq<char>, blob: Seq<u8>, e: StorageError)
    requires
        opening(passphrase, blob) == Err::<Seq<u8>, _>(e),
    ensures
        key_opening(passphrase, blob) == Err::<Seq<u8>, _>(e),
        share_opening(passphrase, blob) == Err::<ShareView, _>(e),
{
}

/// The plaintext of a share: the index, the threshold, the value.
pub proof fn law_share_plaintext_by_bytes(share: ShareView)
    ensures
        share_plaintext(share).len() == 2 + share.value.len(),
        share_plaintext(share)[0] == share.index,
        share_plaintext(share)[1] == share.threshold,
        share_plaintext(share).skip(2) == share.value,
{
    assert(share_plaintext(share).skip(2) =~= share.value);
}

} // verus!
