//! Calls of the two ERC-20 functions that the wallet uses, and what `balanceOf` gives back.

use vstd::prelude::*;

use crate::bytes::{
    be_bytes, be_nat, lemma_be_bytes_of_nat, lemma_be_nat_bound, lemma_be_nat_concat,
    lemma_be_nat_of_bytes, lemma_pow256, push_be, read_be, repeated,
};

verus! {

/// The selector of `balanceOf(address)`.
pub open spec fn balance_of_selector() -> Seq<u8> {
    seq![0x70, 0xa0, 0x82, 0x31]
}

/// The selector of `transfer(address,uint256)`.
pub open spec fn transfer_selector() -> Seq<u8> {
    seq![0xa9, 0x05, 0x9c, 0xbb]
}

/// An address as an argument: left-padded to 32 bytes.
pub open spec fn address_argument(address: Seq<u8>) -> Seq<u8> {
    repeated(0, 12) + address
}

/// The call data of `balanceOf`.
pub open spec fn balance_of_data(address: Seq<u8>) -> Seq<u8> {
    balance_of_selector() + address_argument(address)
}

/// The call data of `transfer`.
pub open spec fn transfer_data(to: Seq<u8>, value: nat) -> Seq<u8> {
    transfer_selector() + address_argument(to) + be_bytes(value, 32)
}

/// The amount that a `uint256` result says. A result that is too short says nothing, which
/// counts as zero; an amount above 128 bits is not handled.
pub open spec fn uint256_amount(result: Seq<u8>) -> Option<nat> {
    if result.len() < 32 {
        Some(0)
    } else if be_nat(result.take(32)) > u128::MAX {
        None
    } else {
        Some(be_nat(result.take(32)))
    }
}

fn push_address_argument(out: &mut Vec<u8>, address: &[u8; 20])
    ensures
        final(out)@ == old(out)@ + address_argument(address@),
{
    let zeros: [u8; 12] = [0u8; 12];
    out.extend_from_slice(&zeros);
    out.extend_from_slice(address);
    assert(zeros@ =~= repeated(0, 12));
    assert(out@ =~= old(out)@ + address_argument(address@));
}

/// The call data that asks for the balance of an address.
pub fn construct_balance_of_data(address: &[u8; 20]) -> (r: Vec<u8>)
    ensures
        r@ == balance_of_data(address@),
{
    let mut data: Vec<u8> = Vec::with_capacity(36);
    data.push(0x70);
    data.push(0xa0);
    data.push(0x82);
    data.push(0x31);
    assert(data@ =~= balance_of_selector());
    push_address_argument(&mut data, address);
    data
}

/// The call data that transfers an amount to an address.
pub fn construct_transfer_data(to: &[u8; 20], value: u128) -> (r: Vec<u8>)
    ensures
        r@ == transfer_data(to@, value as nat),
        r@.len() == 68,
{
    let mut data: Vec<u8> = Vec::with_capacity(68);
    data.push(0xa9);
    data.push(0x05);
    data.push(0x9c);
    data.push(0xbb);
    assert(data@ =~= transfer_selector());
    push_address_argument(&mut data, to);
    push_be(&mut data, 0, 16);
    push_be(&mut data, value, 16);
    proof {
        let high = be_bytes(0, 16);
        let low = be_bytes(value as nat, 16);
        lemma_pow256();
        lemma_be_nat_of_bytes(0, 16);
        lemma_be_nat_of_bytes(value as nat, 16);
        lemma_be_nat_concat(high, low);
        lemma_be_bytes_of_nat(high + low);
        assert(data@ =~= transfer_data(to@, value as nat));
    }
    data
}

/// The amount in the result of `balanceOf`, if it is small enough.
pub fn decode_uint256_result(result: &[u8]) -> (r: Option<u128>)
    ensures
        match r {
            Some(v) => uint256_amount(result@) == Some(v as nat),
            None => uint256_amount(result@) is None,
        },
{
    if result.len() < 32 {
        return Some(0);
    }
    let high = vstd::slice::slice_subrange(result, 0, 16);
    let low = vstd::slice::slice_subrange(result, 16, 32);
    let high_value: u128 = read_be(high);
    let low_value: u128 = read_be(low);
    proof {
        assert(result@.take(32) =~= high@ + low@);
        lemma_be_nat_concat(high@, low@);
        lemma_be_nat_bound(low@);
        lemma_pow256();
    }
    if high_value != 0 {
        return None;
    }
    Some(low_value)
}

/// The amount in a transfer's call data is the amount that was put there, and the recipient
/// is the recipient.
pub proof fn law_transfer_data_says_what_is_sent(to: Seq<u8>, value: nat)
    requires
        to.len() == 20,
        value <= u128::MAX,
    ensures
        transfer_data(to, value).len() == 68,
        transfer_data(to, value).subrange(16, 36) == to,
        uint256_amount(transfer_data(to, value).skip(36)) == Some(value),
{
    lemma_pow256();
    lemma_be_nat_of_bytes(value, 32);
    let data = transfer_data(to, value);
    assert(data.subrange(16, 36) =~= to);
    assert(data.skip(36) =~= be_bytes(value, 32));
    assert(data.skip(36).take(32) =~= be_bytes(value, 32));
}

/// The call data of `balanceOf`, byte by byte: the function, twelve zeros, and the owner.
pub proof fn law_balance_of_data_names_the_owner(address: Seq<u8>)
    ensures
        balance_of_data(address) == seq![
            0x70u8,
            0xa0,
            0x82,
            0x31,
            0,
            0,
            0,
            0,
            0,
            0,
            0,
            0,
            0,
            0,
            0,
            0,
        ] + address,
{
    assert(balance_of_data(address) =~= seq![
        0x70u8,
        0xa0,
        0x82,
        0x31,
        0,
        0,
        0,
        0,
        0,
        0,
        0,
        0,
        0,
        0,
        0,
        0,
    ] + address);
}

/// The call data of `transfer`, byte by byte: the function, twelve zeros, the recipient, and
/// the amount in 32 bytes.
pub proof fn law_transfer_data_by_bytes(to: Seq<u8>, value: nat)
    ensures
        transfer_data(to, value) == seq![
            0xa9u8,
            0x05,
            0x9c,
            0xbb,
            0,
            0,
            0,
            0,
            0,
            0,
            0,
            0,
            0,
            0,
            0,
            0,
        ] + to + be_bytes(value, 32),
{
    assert(transfer_data(to, value) =~= seq![
        0xa9u8,
        0x05,
        0x9c,
        0xbb,
        0,
        0,
        0,
        0,
        0,
        0,
        0,
        0,
        0,
        0,
        0,
        0,
    ] + to + be_bytes(value, 32));
}

/// What an amount in 32 bytes reads as, whatever follows it; shorter results say zero, and
/// more than 128 bits say nothing.
pub proof fn law_results_say_their_amount(result: Seq<u8>, value: nat)
    ensures
        result.len() < 32 ==> uint256_amount(result) == Some(0nat),
        result.len() >= 32 && be_nat(result.take(32)) == value ==> (value
            < 0x1_0000_0000_0000_0000_0000_0000_0000_0000 ==> uint256_amount(result) == Some(value))
            && (value >= 0x1_0000_0000_0000_0000_0000_0000_0000_0000 ==> uint256_amount(
            result,
        ) is None),
{
}

} // verus!
