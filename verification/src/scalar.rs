//! Secret scalars of the secp256k1 group, held as 32 big-endian bytes.

use k256::elliptic_curve::ops::Reduce;
use k256::elliptic_curve::rand_core::OsRng;
use k256::elliptic_curve::PrimeField;
use vstd::prelude::*;

use crate::bytes::be_nat;
use crate::field::{lemma_cong_mod, order};
use crate::secret::SecretBytes;

verus! {

/// The bytes spell a reduced field element.
pub open spec fn is_scalar(bytes: Seq<u8>) -> bool {
    bytes.len() == 32 && be_nat(bytes) < order()
}

/// `k256::Scalar` addition: the sum modulo the group order.
#[verifier::external_body]
fn field_add(a: &[u8; 32], b: &[u8; 32]) -> (r: [u8; 32])
    requires
        is_scalar(a@),
        is_scalar(b@),
    ensures
        be_nat(r@) == (be_nat(a@) + be_nat(b@)) as int % order(),
{
    let x = k256::Scalar::from_repr((*a).into()).unwrap();
    let y = k256::Scalar::from_repr((*b).into()).unwrap();
    (x + y).to_bytes().into()
}

/// `k256::Scalar` subtraction: the difference modulo the group order.
#[verifier::external_body]
fn field_sub(a: &[u8; 32], b: &[u8; 32]) -> (r: [u8; 32])
    requires
        is_scalar(a@),
        is_scalar(b@),
    ensures
        be_nat(r@) == (be_nat(a@) - be_nat(b@)) % order(),
{
    let x = k256::Scalar::from_repr((*a).into()).unwrap();
    let y = k256::Scalar::from_repr((*b).into()).unwrap();
    (x - y).to_bytes().into()
}

/// `k256::Scalar` multiplication: the product modulo the group order.
#[verifier::external_body]
fn field_mul(a: &[u8; 32], b: &[u8; 32]) -> (r: [u8; 32])
    requires
        is_scalar(a@),
        is_scalar(b@),
    ensures
        be_nat(r@) == (be_nat(a@) * be_nat(b@)) as int % order(),
{
    let x = k256::Scalar::from_repr((*a).into()).unwrap();
    let y = k256::Scalar::from_repr((*b).into()).unwrap();
    (x * y).to_bytes().into()
}

/// `k256::Scalar::invert`: there is an inverse for every scalar but zero, and its product
/// with the scalar is one modulo the group order.
#[verifier::external_body]
fn field_invert(a: &[u8; 32]) -> (r: [u8; 32])
    requires
        is_scalar(a@),
        be_nat(a@) != 0,
    ensures
        is_scalar(r@),
        (be_nat(a@) * be_nat(r@)) as int % order() == 1,
{
    let x = k256::Scalar::from_repr((*a).into()).unwrap();
    x.invert().unwrap().to_bytes().into()
}

/// `Reduce::<U256>::reduce_bytes` of `k256::Scalar`: the big-endian number modulo the group
/// order.
#[verifier::external_body]
fn field_reduce(bytes: &[u8; 32]) -> (r: [u8; 32])
    ensures
        be_nat(r@) == be_nat(bytes@) as int % order(),
{
    let x = <k256::Scalar as Reduce<k256::U256>>::reduce_bytes(&(*bytes).into());
    x.to_bytes().into()
}

/// `k256::Scalar::from` of an integer: that integer, which is below the group order.
#[verifier::external_body]
fn field_small(n: u64) -> (r: [u8; 32])
    ensures
        be_nat(r@) == n,
{
    k256::Scalar::from(n).to_bytes().into()
}

/// `k256::Scalar::generate_vartime` from the operating system's random source: some
/// reduced scalar. Which one is left to chance.
#[verifier::external_body]
fn field_random() -> (r: [u8; 32])
    ensures
        is_scalar(r@),
{
    k256::Scalar::generate_vartime(&mut OsRng).to_bytes().into()
}

/// A scalar that is wiped when it is dropped.
pub struct SecretScalar {
    bytes: SecretBytes<32>,
}

impl SecretScalar {
    #[verifier::type_invariant]
    pub open spec fn is_reduced(&self) -> bool {
        0 <= self.value() < order()
    }

    /// The field element, between zero and the group order.
    pub closed spec fn value(&self) -> int {
        be_nat(self.bytes@) as int
    }

    fn wrap(bytes: [u8; 32]) -> (r: SecretScalar)
        requires
            is_scalar(bytes@),
        ensures
            r.value() == be_nat(bytes@),
    {
        SecretScalar { bytes: SecretBytes::from_array(bytes) }
    }

    /// The big-endian number modulo the group order.
    pub fn from_bytes(bytes: &[u8; 32]) -> (r: SecretScalar)
        ensures
            r.value() == be_nat(bytes@) as int % order(),
    {
        proof {
            lemma_cong_mod(be_nat(bytes@) as int);
        }
        Self::wrap(field_reduce(bytes))
    }

    pub fn from_small(n: u8) -> (r: SecretScalar)
        ensures
            r.value() == n,
    {
        proof {
            crate::field::lemma_order_bounds();
        }
        Self::wrap(field_small(n as u64))
    }

    /// A scalar drawn from the operating system's random source.
    pub fn random() -> (r: SecretScalar)
        ensures
            0 <= r.value() < order(),
    {
        Self::wrap(field_random())
    }

    pub fn plus(&self, other: &SecretScalar) -> (r: SecretScalar)
        ensures
            r.value() == (self.value() + other.value()) % order(),
    {
        proof {
            use_type_invariant(self);
            use_type_invariant(other);
            lemma_cong_mod(self.value() + other.value());
        }
        Self::wrap(field_add(self.bytes.expose(), other.bytes.expose()))
    }

    pub fn minus(&self, other: &SecretScalar) -> (r: SecretScalar)
        ensures
            r.value() == (self.value() - other.value()) % order(),
    {
        proof {
            use_type_invariant(self);
            use_type_invariant(other);
            lemma_cong_mod(self.value() - other.value());
        }
        Self::wrap(field_sub(self.bytes.expose(), other.bytes.expose()))
    }

    pub fn times(&self, other: &SecretScalar) -> (r: SecretScalar)
        ensures
            r.value() == (self.value() * other.value()) % order(),
    {
        proof {
            use_type_invariant(self);
            use_type_invariant(other);
            lemma_cong_mod(self.value() * other.value());
        }
        Self::wrap(field_mul(self.bytes.expose(), other.bytes.expose()))
    }

    pub fn invert(&self) -> (r: SecretScalar)
        requires
            self.value() != 0,
        ensures
            (self.value() * r.value()) % order() == 1,
    {
        proof {
            use_type_invariant(self);
        }
        Self::wrap(field_invert(self.bytes.expose()))
    }

    pub fn to_bytes(&self) -> (r: [u8; 32])
        ensures
            is_scalar(r@),
            be_nat(r@) == self.value(),
    {
        proof {
            use_type_invariant(self);
        }
        *self.bytes.expose()
    }
}

} // verus!
