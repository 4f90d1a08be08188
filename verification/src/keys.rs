//! secp256k1 key pairs and RFC 6979 deterministic ECDSA signing.
//!
//! Nonces are derived from the key and the digest, so the same digest always yields the
//! same signature: reusing a nonce across two messages, which gives the key away, cannot
//! happen. Signing takes a digest of 32 bytes; callers hash with the hash function of
//! their chain. Signatures carry the lower of the two possible values of `s`.

use k256::ecdsa::signature::hazmat::{PrehashSigner, PrehashVerifier};
use k256::elliptic_curve::rand_core::OsRng;
use vstd::prelude::*;

use crate::bytes::{array_at, be_nat, bytes_equal};
use crate::field::order;
use crate::secret::SecretBytes;

verus! {

/// The bytes spell a private key: a scalar other than zero.
pub open spec fn is_private_key(bytes: Seq<u8>) -> bool {
    bytes.len() == 32 && 0 < be_nat(bytes) < order()
}

/// The bytes hold a pair of nonzero scalars, as every signature does.
pub open spec fn is_signature(bytes: Seq<u8>) -> bool {
    &&& bytes.len() == 64
    &&& 0 < be_nat(bytes.subrange(0, 32)) < order()
    &&& 0 < be_nat(bytes.subrange(32, 64)) < order()
}

/// The compressed SEC1 encoding of the public key of a private key.
pub uninterp spec fn public_key_of(secret: Seq<u8>) -> Seq<u8>;

/// The compressed encoding of the point that a SEC1 encoding stands for, if it stands for
/// one.
pub uninterp spec fn sec1_point(encoding: Seq<u8>) -> Option<Seq<u8>>;

/// The uncompressed SEC1 encoding of a point given by its compressed one.
pub uninterp spec fn sec1_uncompressed(point: Seq<u8>) -> Seq<u8>;

/// The deterministic signature of a digest, if the signer finds one.
pub uninterp spec fn ecdsa_signature(secret: Seq<u8>, digest: Seq<u8>) -> Option<Seq<u8>>;

/// The deterministic signature of a digest with its recovery id, if the signer finds one.
pub uninterp spec fn ecdsa_recoverable_signature(secret: Seq<u8>, digest: Seq<u8>) -> Option<
    (Seq<u8>, u8),
>;

/// Whether a signature of a digest verifies under a public key.
pub uninterp spec fn ecdsa_verifies(point: Seq<u8>, digest: Seq<u8>, signature: Seq<u8>) -> bool;

/// The public key that a signature of a digest recovers to under a recovery id, if any.
pub uninterp spec fn ecdsa_recovered(
    digest: Seq<u8>,
    signature: Seq<u8>,
    recovery_id: u8,
) -> Option<Seq<u8>>;

/// The bytes are the compressed encoding of a point of the curve other than the identity.
pub open spec fn is_point(bytes: Seq<u8>) -> bool {
    bytes.len() == 33 && sec1_point(bytes) == Some(bytes)
}

/// `k256::ecdsa::SigningKey::random` from the operating system's random source: some scalar
/// other than zero. Which one is left to chance.
#[verifier::external_body]
fn random_private_key() -> (r: [u8; 32])
    ensures
        is_private_key(r@),
{
    k256::ecdsa::SigningKey::random(&mut OsRng).to_bytes().into()
}

/// `k256::ecdsa::SigningKey::from_bytes`: accepts the nonzero scalars and nothing else.
#[verifier::external_body]
fn accepts_private_key(bytes: &[u8; 32]) -> (r: bool)
    ensures
        r == is_private_key(bytes@),
{
    k256::ecdsa::SigningKey::from_bytes(&(*bytes).into()).is_ok()
}

/// `k256::ecdsa::SigningKey::verifying_key` and its compressed encoding, which is the
/// encoding of a point.
#[verifier::external_body]
fn derive_public_key(secret: &[u8; 32]) -> (r: [u8; 33])
    requires
        is_private_key(secret@),
    ensures
        r@ == public_key_of(secret@),
        is_point(r@),
{
    let key = k256::ecdsa::SigningKey::from_bytes(&(*secret).into()).unwrap();
    key.verifying_key().to_encoded_point(true).as_bytes().try_into().unwrap()
}

/// `k256::ecdsa::VerifyingKey::from_sec1_bytes`, and the point written back in compressed
/// form, which is its own compressed form.
#[verifier::external_body]
fn parse_sec1(encoding: &[u8]) -> (r: Option<[u8; 33]>)
    ensures
        match r {
            Some(point) => sec1_point(encoding@) == Some(point@) && is_point(point@),
            None => sec1_point(encoding@) is None,
        },
{
    let key = k256::ecdsa::VerifyingKey::from_sec1_bytes(encoding).ok()?;
    Some(key.to_encoded_point(true).as_bytes().try_into().unwrap())
}

/// `k256::ecdsa::VerifyingKey::to_encoded_point` without compression: the tag byte 4 and two
/// coordinates of 32 bytes, an encoding of the same point.
#[verifier::external_body]
fn uncompress_point(point: &[u8; 33]) -> (r: [u8; 65])
    requires
        is_point(point@),
    ensures
        r@ == sec1_uncompressed(point@),
        r@[0] == 4,
        sec1_point(r@) == Some(point@),
{
    let key = k256::ecdsa::VerifyingKey::from_sec1_bytes(point).unwrap();
    key.to_encoded_point(false).as_bytes().try_into().unwrap()
}

/// `PrehashSigner::sign_prehash` of `k256::ecdsa::SigningKey`. The nonce comes from the key
/// and the digest alone, so the result does too. It is an error only where a component of
/// the signature would be zero. A signature that it returns verifies under the public key.
#[verifier::external_body]
fn ecdsa_sign(secret: &[u8; 32], digest: &[u8; 32]) -> (r: Option<[u8; 64]>)
    requires
        is_private_key(secret@),
    ensures
        match r {
            Some(sig) => {
                &&& ecdsa_signature(secret@, digest@) == Some(sig@)
                &&& is_signature(sig@)
                &&& ecdsa_verifies(public_key_of(secret@), digest@, sig@)
            },
            None => ecdsa_signature(secret@, digest@) is None,
        },
{
    let key = k256::ecdsa::SigningKey::from_bytes(&(*secret).into()).unwrap();
    let signature: Option<k256::ecdsa::Signature> = key.sign_prehash(digest).ok();
    signature.map(|s| s.to_bytes().into())
}

/// `k256::ecdsa::SigningKey::sign_prehash_recoverable`: the same signature as
/// `sign_prehash`, or an error where that gives one, with a recovery id from 0 to 3 under
/// which it recovers to the public key.
#[verifier::external_body]
fn ecdsa_sign_recoverable(secret: &[u8; 32], digest: &[u8; 32]) -> (r: Option<([u8; 64], u8)>)
    requires
        is_private_key(secret@),
    ensures
        match r {
            Some((sig, id)) => {
                &&& ecdsa_recoverable_signature(secret@, digest@) == Some((sig@, id))
                &&& ecdsa_signature(secret@, digest@) == Some(sig@)
                &&& is_signature(sig@)
                &&& id <= 3
                &&& ecdsa_verifies(public_key_of(secret@), digest@, sig@)
                &&& ecdsa_recovered(digest@, sig@, id) == Some(public_key_of(secret@))
            },
            None => {
                &&& ecdsa_recoverable_signature(secret@, digest@) is None
                &&& ecdsa_signature(secret@, digest@) is None
            },
        },
{
    let key = k256::ecdsa::SigningKey::from_bytes(&(*secret).into()).unwrap();
    let (signature, id) = key.sign_prehash_recoverable(digest).ok()?;
    Some((signature.to_bytes().into(), id.to_byte()))
}

/// `PrehashVerifier::verify_prehash` of `k256::ecdsa::VerifyingKey`.
#[verifier::external_body]
fn ecdsa_verify(point: &[u8; 33], digest: &[u8; 32], signature: &[u8; 64]) -> (r: bool)
    requires
        is_point(point@),
        is_signature(signature@),
    ensures
        r == ecdsa_verifies(point@, digest@, signature@),
{
    let key = k256::ecdsa::VerifyingKey::from_sec1_bytes(point).unwrap();
    let signature = k256::ecdsa::Signature::from_slice(signature).unwrap();
    key.verify_prehash(digest, &signature).is_ok()
}

/// `k256::ecdsa::VerifyingKey::recover_from_prehash` and the compressed encoding of the key.
/// A key that it returns is one under which the signature verifies.
#[verifier::external_body]
fn ecdsa_recover(digest: &[u8; 32], signature: &[u8; 64], id: u8) -> (r: Option<[u8; 33]>)
    requires
        is_signature(signature@),
        id <= 3,
    ensures
        match r {
            Some(point) => {
                &&& ecdsa_recovered(digest@, signature@, id) == Some(point@)
                &&& is_point(point@)
                &&& ecdsa_verifies(point@, digest@, signature@)
            },
            None => ecdsa_recovered(digest@, signature@, id) is None,
        },
{
    let signature = k256::ecdsa::Signature::from_slice(signature).unwrap();
    let id = k256::ecdsa::RecoveryId::from_byte(id).unwrap();
    let key = k256::ecdsa::VerifyingKey::recover_from_prehash(digest, &signature, id).ok()?;
    Some(key.to_encoded_point(true).as_bytes().try_into().unwrap())
}

/// `k256::ecdsa::Signature::from_slice`: accepts 64 bytes that hold two nonzero scalars, and
/// nothing else.
#[verifier::external_body]
fn accepts_signature(bytes: &[u8]) -> (r: bool)
    ensures
        r == is_signature(bytes@),
{
    k256::ecdsa::Signature::from_slice(bytes).is_ok()
}

/// The given bytes are not a valid secp256k1 key.
#[derive(Debug, PartialEq, Eq, Structural)]
pub struct InvalidKeyBytes;

/// The given bytes are not a pair of nonzero scalars.
#[derive(Debug, PartialEq, Eq, Structural)]
pub struct InvalidSignatureBytes;

/// A secp256k1 private key. It is heap-allocated, so that its address is stable enough for
/// page locking to mean something, its pages are pinned against swapping where the system
/// allows, and it is wiped when dropped. `Debug` never prints it.
pub struct PrivateKey {
    key: Box<SecretBytes<32>>,
    lock: Option<region::LockGuard>,
}

/// The public key of a `PrivateKey`. Not secret.
#[derive(Clone, Copy, Debug)]
pub struct PublicKey {
    point: [u8; 33],
}

/// An ECDSA signature: two nonzero scalars of 32 bytes each.
#[derive(Clone, Copy, Debug)]
pub struct Signature {
    bytes: [u8; 64],
}

/// Which of the public keys that a signature could belong to is meant.
#[derive(Clone, Copy, Debug, PartialEq, Eq, Structural)]
pub struct RecoveryId {
    id: u8,
}

impl PrivateKey {
    #[verifier::type_invariant]
    pub open spec fn wf(&self) -> bool {
        is_private_key(self@)
    }

    /// The scalar as 32 big-endian bytes.
    pub closed spec fn view(&self) -> Seq<u8> {
        self.key@
    }

    fn from_secret(bytes: [u8; 32]) -> (r: Self)
        requires
            is_private_key(bytes@),
        ensures
            r@ == bytes@,
    {
        let key = Box::new(SecretBytes::from_array(bytes));
        let lock = key.lock_secret_memory();
        PrivateKey { key, lock }
    }

    /// Draws the scalar from the operating system's random source. There is no seeded
    /// way to generate a key.
    pub fn generate() -> (r: Self)
        ensures
            is_private_key(r@),
    {
        Self::from_secret(random_private_key())
    }

    pub fn public_key(&self) -> (r: PublicKey)
        ensures
            r@ == public_key_of(self@),
    {
        proof {
            use_type_invariant(self);
        }
        PublicKey { point: derive_public_key(self.key.expose()) }
    }

    /// Whether there is a signature of the digest to be had. There practically always is.
    pub fn can_sign_prehash(&self, digest: &[u8; 32]) -> (r: bool)
        ensures
            r == ecdsa_signature(self@, digest@) is Some,
    {
        proof {
            use_type_invariant(self);
        }
        ecdsa_sign(self.key.expose(), digest).is_some()
    }

    /// Signs a digest with a deterministic nonce: same digest in, same signature out.
    pub fn sign_prehash(&self, digest: &[u8; 32]) -> (r: Signature)
        requires
            ecdsa_signature(self@, digest@) is Some,
        ensures
            ecdsa_signature(self@, digest@) == Some(r@),
            ecdsa_verifies(public_key_of(self@), digest@, r@),
    {
        proof {
            use_type_invariant(self);
        }
        Signature { bytes: ecdsa_sign(self.key.expose(), digest).unwrap() }
    }

    /// Signs a digest with a deterministic nonce, where there is a signature to be had.
    pub fn try_sign_prehash(&self, digest: &[u8; 32]) -> (r: Option<Signature>)
        ensures
            match r {
                Some(sig) => {
                    &&& ecdsa_signature(self@, digest@) == Some(sig@)
                    &&& ecdsa_verifies(public_key_of(self@), digest@, sig@)
                },
                None => ecdsa_signature(self@, digest@) is None,
            },
    {
        if self.can_sign_prehash(digest) {
            Some(self.sign_prehash(digest))
        } else {
            None
        }
    }

    /// Signs a digest and says which public key the signature recovers to.
    pub fn try_sign_prehash_recoverable(&self, digest: &[u8; 32]) -> (r: Option<
        (Signature, RecoveryId),
    >)
        ensures
            match r {
                Some((sig, id)) => {
                    &&& ecdsa_recoverable_signature(self@, digest@) == Some((sig@, id@))
                    &&& ecdsa_signature(self@, digest@) == Some(sig@)
                    &&& ecdsa_verifies(public_key_of(self@), digest@, sig@)
                    &&& ecdsa_recovered(digest@, sig@, id@) == Some(public_key_of(self@))
                },
                None => {
                    &&& ecdsa_recoverable_signature(self@, digest@) is None
                    &&& ecdsa_signature(self@, digest@) is None
                },
            },
    {
        proof {
            use_type_invariant(self);
        }
        match ecdsa_sign_recoverable(self.key.expose(), digest) {
            Some((bytes, id)) => Some((Signature { bytes }, RecoveryId { id })),
            None => None,
        }
    }

    /// The raw scalar, for encrypted storage. Hand it straight to an encrypting sink, never
    /// to a log or a plain file.
    pub fn to_bytes_dangerous(&self) -> (r: [u8; 32])
        ensures
            r@ == self@,
            is_private_key(r@),
    {
        proof {
            use_type_invariant(self);
        }
        *self.key.expose()
    }

    /// The key with the given scalar, unless that is zero or not below the group order.
    pub fn from_bytes_dangerous(bytes: &[u8; 32]) -> (r: Result<Self, InvalidKeyBytes>)
        ensures
            r is Ok <==> is_private_key(bytes@),
            r matches Ok(key) ==> key@ == bytes@,
    {
        if accepts_private_key(bytes) {
            Ok(Self::from_secret(*bytes))
        } else {
            Err(InvalidKeyBytes)
        }
    }
}

impl core::fmt::Debug for PrivateKey {
    /// `write!` of a fixed text: the key is not among its arguments.
    #[verifier::external_body]
    fn fmt(&self, f: &mut core::fmt::Formatter<'_>) -> core::fmt::Result {
        write!(f, "PrivateKey(REDACTED)")
    }
}

impl PublicKey {
    #[verifier::type_invariant]
    pub open spec fn wf(&self) -> bool {
        is_point(self@)
    }

    /// The compressed SEC1 encoding.
    pub closed spec fn view(&self) -> Seq<u8> {
        self.point@
    }

    /// Whether the signature of the digest verifies under this key.
    pub fn verify_prehash(&self, digest: &[u8; 32], sig: &Signature) -> (r: bool)
        ensures
            r == ecdsa_verifies(self@, digest@, sig@),
    {
        proof {
            use_type_invariant(self);
            use_type_invariant(sig);
        }
        ecdsa_verify(&self.point, digest, &sig.bytes)
    }

    /// The compressed SEC1 encoding.
    pub fn to_sec1_bytes(&self) -> (r: Vec<u8>)
        ensures
            r@ == self@,
            is_point(r@),
    {
        proof {
            use_type_invariant(self);
        }
        crate::bytes::vec_at(&self.point, 0, 33)
    }

    /// The uncompressed SEC1 encoding: the tag byte 4 and both coordinates.
    pub fn to_uncompressed_sec1_bytes(&self) -> (r: [u8; 65])
        ensures
            r@ == sec1_uncompressed(self@),
            r@[0] == 4,
            sec1_point(r@) == Some(self@),
    {
        proof {
            use_type_invariant(self);
        }
        uncompress_point(&self.point)
    }

    /// The key with the given SEC1 encoding, compressed or not.
    pub fn from_sec1_bytes(bytes: &[u8]) -> (r: Result<Self, InvalidKeyBytes>)
        ensures
            match r {
                Ok(key) => sec1_point(bytes@) == Some(key@),
                Err(_) => sec1_point(bytes@) is None,
            },
    {
        match parse_sec1(bytes) {
            Some(point) => Ok(PublicKey { point }),
            None => Err(InvalidKeyBytes),
        }
    }

    /// The key that the signature of the digest recovers to, if any.
    pub fn recover_from_prehash(digest: &[u8; 32], sig: &Signature, id: RecoveryId) -> (r: Option<
        PublicKey,
    >)
        ensures
            match r {
                Some(key) => {
                    &&& ecdsa_recovered(digest@, sig@, id@) == Some(key@)
                    &&& ecdsa_verifies(key@, digest@, sig@)
                },
                None => ecdsa_recovered(digest@, sig@, id@) is None,
            },
    {
        proof {
            use_type_invariant(sig);
            use_type_invariant(&id);
        }
        match ecdsa_recover(digest, &sig.bytes, id.id) {
            Some(point) => Some(PublicKey { point }),
            None => None,
        }
    }
}

impl PartialEq for PublicKey {
    fn eq(&self, other: &Self) -> (r: bool) {
        bytes_equal(&self.point, &other.point)
    }
}

impl vstd::std_specs::cmp::PartialEqSpecImpl for PublicKey {
    open spec fn obeys_eq_spec() -> bool {
        true
    }

    open spec fn eq_spec(&self, other: &Self) -> bool {
        self@ == other@
    }
}

impl Eq for PublicKey {

}

impl Signature {
    #[verifier::type_invariant]
    pub open spec fn wf(&self) -> bool {
        is_signature(self@)
    }

    /// Both scalars, one after the other, in big-endian order.
    pub closed spec fn view(&self) -> Seq<u8> {
        self.bytes@
    }

    pub fn from_slice(bytes: &[u8]) -> (r: Result<Self, InvalidSignatureBytes>)
        ensures
            r is Ok <==> is_signature(bytes@),
            r matches Ok(sig) ==> sig@ == bytes@,
    {
        if accepts_signature(bytes) {
            let copy: [u8; 64] = array_at::<64>(bytes, 0);
            assert(copy@ =~= bytes@);
            Ok(Signature { bytes: copy })
        } else {
            Err(InvalidSignatureBytes)
        }
    }

    pub fn to_bytes(&self) -> (r: [u8; 64])
        ensures
            r@ == self@,
            is_signature(r@),
    {
        proof {
            use_type_invariant(self);
        }
        self.bytes
    }
}

impl PartialEq for Signature {
    fn eq(&self, other: &Self) -> (r: bool) {
        bytes_equal(&self.bytes, &other.bytes)
    }
}

impl vstd::std_specs::cmp::PartialEqSpecImpl for Signature {
    open spec fn obeys_eq_spec() -> bool {
        true
    }

    open spec fn eq_spec(&self, other: &Self) -> bool {
        self@ == other@
    }
}

impl Eq for Signature {

}

impl RecoveryId {
    #[verifier::type_invariant]
    pub open spec fn wf(&self) -> bool {
        self@ <= 3
    }

    pub closed spec fn view(&self) -> u8 {
        self.id
    }

    pub fn from_byte(id: u8) -> (r: Option<Self>)
        ensures
            r is Some <==> id <= 3,
            r matches Some(x) ==> x@ == id,
    {
        if id <= 3 {
            Some(RecoveryId { id })
        } else {
            None
        }
    }

    pub fn to_byte(&self) -> (r: u8)
        ensures
            r == self@,
            r <= 3,
    {
        proof {
            use_type_invariant(self);
        }
        self.id
    }
}

} // verus!
