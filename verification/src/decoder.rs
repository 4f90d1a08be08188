//! Decoding of the plain transfer format, before anything is signed.
//!
//! Anything that is not recognised is refused: there is no way from a failed decoding to
//! signing. The format is `version(1) || chain_id(8) || to(20) || value(16) || data_len(2)
//! || data(data_len)`, with big-endian numbers. No call data is recognised, so any call
//! data at all is refused.

use vstd::prelude::*;

use crate::bytes::{
    array_at, be_bytes, be_nat, law_big_endian, lemma_be_bytes_of_nat, lemma_be_nat_of_bytes,
    lemma_pow256, push_be, read_be,
};
use crate::text::{decimal, push_decimal};

verus! {

/// The only version of the format.
pub const CURRENT_VERSION: u8 = 1;

/// The length of everything in front of the call data.
pub const HEADER_LEN: usize = 47;

/// A cap on the size of the input, whatever its length field says.
pub const MAX_INPUT_LEN: usize = 65536;

/// A transaction in a form that can be shown to a user and signed.
#[derive(Debug, Clone, PartialEq, Eq)]
pub struct DecodedTransaction {
    /// The chain that the transaction is meant for.
    pub chain_id: u64,
    /// The recipient's address.
    pub to: [u8; 20],
    /// The amount of native currency to transfer.
    pub value: u128,
}

/// Why decoding failed. Every variant means that the input is not to be signed.
#[derive(Debug, PartialEq, Eq, Structural)]
pub enum DecodeError {
    /// The input is empty.
    Empty,
    /// The input is longer than `MAX_INPUT_LEN`.
    Oversized,
    /// The input is shorter than the header, or its length is not the one it declares.
    Truncated,
    /// The version is not `CURRENT_VERSION`.
    UnsupportedVersion(u8),
    /// There is call data, which this decoder does not understand.
    UnrecognizedCalldata,
}

/// A decoding error in words.
pub open spec fn decode_error_text(e: DecodeError) -> Seq<char> {
    match e {
        DecodeError::Empty => "empty input"@,
        DecodeError::Oversized => "input exceeds maximum size"@,
        DecodeError::Truncated => "input truncated"@,
        DecodeError::UnsupportedVersion(v) => "unsupported version byte: "@ + decimal(v as nat),
        DecodeError::UnrecognizedCalldata => "calldata present but not recognized by any decoder"@,
    }
}

impl DecodeError {
    /// The error in words.
    pub fn text(&self) -> (r: String)
        ensures
            r@ == decode_error_text(*self),
    {
        match self {
            DecodeError::Empty => "empty input".to_owned(),
            DecodeError::Oversized => "input exceeds maximum size".to_owned(),
            DecodeError::Truncated => "input truncated".to_owned(),
            DecodeError::UnsupportedVersion(v) => {
                let mut out = "unsupported version byte: ".to_owned();
                push_decimal(&mut out, *v as u128);
                out
            },
            DecodeError::UnrecognizedCalldata =>
                "calldata present but not recognized by any decoder".to_owned(),
        }
    }
}

/// What a transfer says.
#[verifier::ext_equal]
pub ghost struct TransferView {
    pub chain_id: nat,
    pub to: Seq<u8>,
    pub value: nat,
}

/// The fields of a transfer in a row, each in its full width.
pub open spec fn canonical_encoding(t: TransferView) -> Seq<u8> {
    be_bytes(t.chain_id, 8) + t.to + be_bytes(t.value, 16)
}

/// The wire form of a transfer.
pub open spec fn transfer_encoding(t: TransferView) -> Seq<u8> {
    seq![CURRENT_VERSION] + canonical_encoding(t) + be_bytes(0, 2)
}

/// What the call data length field says.
pub open spec fn declared_data_len(raw: Seq<u8>) -> nat {
    be_nat(raw.subrange(45, 47))
}

/// What a byte string amounts to as a transfer, or what keeps it from being one.
pub open spec fn transfer_decoding(raw: Seq<u8>) -> Result<TransferView, DecodeError> {
    if raw.len() == 0 {
        Err(DecodeError::Empty)
    } else if raw.len() > MAX_INPUT_LEN {
        Err(DecodeError::Oversized)
    } else if raw.len() < HEADER_LEN {
        Err(DecodeError::Truncated)
    } else if raw[0] != CURRENT_VERSION {
        Err(DecodeError::UnsupportedVersion(raw[0]))
    } else if raw.len() != HEADER_LEN + declared_data_len(raw) {
        Err(DecodeError::Truncated)
    } else if declared_data_len(raw) > 0 {
        Err(DecodeError::UnrecognizedCalldata)
    } else {
        Ok(
            TransferView {
                chain_id: be_nat(raw.subrange(1, 9)),
                to: raw.subrange(9, 29),
                value: be_nat(raw.subrange(29, 45)),
            },
        )
    }
}

impl DecodedTransaction {
    pub open spec fn view(&self) -> TransferView {
        TransferView { chain_id: self.chain_id as nat, to: self.to@, value: self.value as nat }
    }

    /// The validated fields in a fixed form, for the caller to hash before signing.
    pub fn canonical_bytes(&self) -> (r: Vec<u8>)
        ensures
            r@ == canonical_encoding(self@),
    {
        let mut out: Vec<u8> = Vec::new();
        push_be(&mut out, self.chain_id as u128, 8);
        out.extend_from_slice(&self.to);
        push_be(&mut out, self.value, 16);
        assert(out@ =~= canonical_encoding(self@));
        out
    }
}

/// Decodes a transfer, or refuses.
pub fn decode(raw: &[u8]) -> (r: Result<DecodedTransaction, DecodeError>)
    ensures
        match r {
            Ok(t) => transfer_decoding(raw@) == Ok::<_, DecodeError>(t@),
            Err(e) => transfer_decoding(raw@) == Err::<TransferView, _>(e),
        },
{
    if raw.len() == 0 {
        return Err(DecodeError::Empty);
    }
    if raw.len() > MAX_INPUT_LEN {
        return Err(DecodeError::Oversized);
    }
    if raw.len() < HEADER_LEN {
        return Err(DecodeError::Truncated);
    }
    let version: u8 = raw[0];
    if version != CURRENT_VERSION {
        return Err(DecodeError::UnsupportedVersion(version));
    }
    let chain_bytes: [u8; 8] = array_at::<8>(raw, 1);
    let to: [u8; 20] = array_at::<20>(raw, 9);
    let value_bytes: [u8; 16] = array_at::<16>(raw, 29);
    let len_bytes: [u8; 2] = array_at::<2>(raw, 45);
    proof {
        lemma_pow256();
        crate::bytes::lemma_be_nat_bound(chain_bytes@);
        crate::bytes::lemma_be_nat_bound(len_bytes@);
    }
    let chain_id: u64 = read_be(&chain_bytes) as u64;
    let value: u128 = read_be(&value_bytes);
    let data_len: usize = read_be(&len_bytes) as usize;
    let expected_len: usize = HEADER_LEN + data_len;
    if raw.len() != expected_len {
        return Err(DecodeError::Truncated);
    }
    if data_len > 0 {
        return Err(DecodeError::UnrecognizedCalldata);
    }
    Ok(DecodedTransaction { chain_id, to, value })
}

/// The wire form of a plain transfer.
pub fn encode_transfer(chain_id: u64, to: [u8; 20], value: u128) -> (r: Vec<u8>)
    ensures
        r@ == transfer_encoding(
            (TransferView { chain_id: chain_id as nat, to: to@, value: value as nat }),
        ),
{
    let mut out: Vec<u8> = Vec::new();
    out.push(CURRENT_VERSION);
    push_be(&mut out, chain_id as u128, 8);
    out.extend_from_slice(&to);
    push_be(&mut out, value, 16);
    push_be(&mut out, 0, 2);
    assert(out@ =~= transfer_encoding(
        (TransferView { chain_id: chain_id as nat, to: to@, value: value as nat }),
    ));
    out
}

/// The fields of a transfer fit in the widths that the format gives them.
pub open spec fn transfer_fits(t: TransferView) -> bool {
    &&& t.chain_id < 0x1_0000_0000_0000_0000
    &&& t.to.len() == 20
    &&& t.value < 0x1_0000_0000_0000_0000_0000_0000_0000_0000
}

/// Decoding gives back exactly the transfer that was encoded.
pub proof fn law_decode_inverts_encode_transfer(t: TransferView)
    requires
        transfer_fits(t),
    ensures
        transfer_decoding(transfer_encoding(t)) == Ok::<_, DecodeError>(t),
{
    lemma_pow256();
    lemma_be_nat_of_bytes(t.chain_id, 8);
    lemma_be_nat_of_bytes(t.value, 16);
    lemma_be_nat_of_bytes(0, 2);
    let raw = transfer_encoding(t);
    assert(raw.subrange(1, 9) =~= be_bytes(t.chain_id, 8));
    assert(raw.subrange(9, 29) =~= t.to);
    assert(raw.subrange(29, 45) =~= be_bytes(t.value, 16));
    assert(raw.subrange(45, 47) =~= be_bytes(0, 2));
}

/// There is one wire form of each transfer: what decodes is what the transfer encodes to.
pub proof fn law_encode_inverts_decode(raw: Seq<u8>)
    requires
        transfer_decoding(raw) is Ok,
    ensures
        transfer_encoding(transfer_decoding(raw)->Ok_0) == raw,
        transfer_fits(transfer_decoding(raw)->Ok_0),
{
    let t = transfer_decoding(raw)->Ok_0;
    lemma_pow256();
    crate::bytes::lemma_be_nat_bound(raw.subrange(1, 9));
    crate::bytes::lemma_be_nat_bound(raw.subrange(29, 45));
    lemma_be_bytes_of_nat(raw.subrange(1, 9));
    lemma_be_bytes_of_nat(raw.subrange(29, 45));
    lemma_be_bytes_of_nat(raw.subrange(45, 47));
    assert(transfer_encoding(t) =~= raw);
}

/// Distinct transfers have distinct canonical bytes, so a digest stands for one transfer.
pub proof fn law_canonical_bytes_are_injective(a: TransferView, b: TransferView)
    requires
        transfer_fits(a),
        transfer_fits(b),
        canonical_encoding(a) == canonical_encoding(b),
    ensures
        a == b,
{
    assert(transfer_encoding(a) == transfer_encoding(b));
    law_decode_inverts_encode_transfer(a);
    law_decode_inverts_encode_transfer(b);
}

proof fn lemma_length_field(raw: Seq<u8>)
    requires
        raw.len() >= 47,
    ensures
        declared_data_len(raw) == 256 * raw[45] + raw[46],
{
    let field = raw.subrange(45, 47);
    let e = Seq::<u8>::empty();
    assert(field =~= e.push(raw[45]).push(raw[46]));
    law_big_endian(e, raw[45]);
    law_big_endian(e.push(raw[45]), raw[46]);
}

/// A transfer is exactly 47 bytes long, begins with the version 1, and ends with two zeros;
/// its fields stand between.
pub proof fn law_transfers_by_bytes(raw: Seq<u8>, t: TransferView)
    ensures
        transfer_decoding(raw) == Ok::<_, DecodeError>(t) <==> {
            &&& raw.len() == 47
            &&& raw[0] == 1
            &&& raw[45] == 0 && raw[46] == 0
            &&& t.chain_id == be_nat(raw.subrange(1, 9))
            &&& t.to == raw.subrange(9, 29)
            &&& t.value == be_nat(raw.subrange(29, 45))
        },
{
    if raw.len() >= 47 {
        lemma_length_field(raw);
    }
}

/// What is refused, and for what: nothing at all, more than 65536 bytes, less than 47 bytes,
/// another version than 1, another length than the declared one, and any call data.
pub proof fn law_refused_transfers(raw: Seq<u8>)
    ensures
        ({
            let r = transfer_decoding(raw);
            &&& raw.len() == 0 ==> r == Err::<TransferView, _>(DecodeError::Empty)
            &&& raw.len() > 65536 ==> r == Err::<TransferView, _>(DecodeError::Oversized)
            &&& 0 < raw.len() < 47 ==> r == Err::<TransferView, _>(DecodeError::Truncated)
            &&& 47 <= raw.len() <= 65536 && raw[0] != 1 ==> r == Err::<TransferView, _>(
                DecodeError::UnsupportedVersion(raw[0]),
            )
            &&& 47 <= raw.len() <= 65536 && raw[0] == 1 && raw.len() != 47 + 256 * raw[45] + raw[46]
                ==> r == Err::<TransferView, _>(DecodeError::Truncated)
            &&& 47 < raw.len() <= 65536 && raw[0] == 1 && raw.len() == 47 + 256 * raw[45] + raw[46]
                ==> r == Err::<TransferView, _>(DecodeError::UnrecognizedCalldata)
        }),
{
    if raw.len() >= 47 {
        lemma_length_field(raw);
    }
}

/// The canonical bytes of what was decoded are the bytes between the version and the length
/// field.
pub proof fn law_canonical_bytes_are_the_fields(raw: Seq<u8>, t: TransferView)
    requires
        transfer_decoding(raw) == Ok::<_, DecodeError>(t),
    ensures
        canonical_encoding(t) == raw.subrange(1, 45),
{
    law_transfers_by_bytes(raw, t);
    lemma_be_bytes_of_nat(raw.subrange(1, 9));
    lemma_be_bytes_of_nat(raw.subrange(29, 45));
    assert(canonical_encoding(t) =~= raw.subrange(1, 45));
}

/// What was wrong with a transfer, in words.
pub proof fn law_transfer_errors_in_words(version: u8)
    ensures
        decode_error_text(DecodeError::Empty) == "empty input"@,
        decode_error_text(DecodeError::Oversized) == "input exceeds maximum size"@,
        decode_error_text(DecodeError::Truncated) == "input truncated"@,
        decode_error_text(DecodeError::UnsupportedVersion(version)) == "unsupported version byte: "@
            + crate::text::number_text(version as nat, 10),
        decode_error_text(DecodeError::UnrecognizedCalldata)
            == "calldata present but not recognized by any decoder"@,
{
}

} // verus!
