//! The two hash functions the wallet signs over.

use k256::sha2::Digest;
use vstd::prelude::*;

verus! {

/// The SHA-256 digest.
pub uninterp spec fn sha256_digest(data: Seq<u8>) -> Seq<u8>;

/// The Keccak-256 digest.
pub uninterp spec fn keccak256_digest(data: Seq<u8>) -> Seq<u8>;

/// `sha2::Sha256::digest`.
#[verifier::external_body]
fn sha256_of(data: &[u8]) -> (r: [u8; 32])
    ensures
        r@ == sha256_digest(data@),
{
    k256::sha2::Sha256::digest(data).into()
}

/// `sha3::Keccak256::digest`.
#[verifier::external_body]
fn keccak256_of(data: &[u8]) -> (r: [u8; 32])
    ensures
        r@ == keccak256_digest(data@),
{
    sha3::Keccak256::digest(data).into()
}

/// The digest that the plain transfer format is signed over.
pub fn sha256(data: &[u8]) -> (r: [u8; 32])
    ensures
        r@ == sha256_digest(data@),
{
    sha256_of(data)
}

/// The digest that addresses and EVM transactions are made of.
pub fn keccak256(data: &[u8]) -> (r: [u8; 32])
    ensures
        r@ == keccak256_digest(data@),
{
    keccak256_of(data)
}

} // verus!
