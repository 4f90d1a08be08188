//! The EIP-1559 (type 2) transaction wire format.
//!
//! The unsigned form is `0x02 || rlp([chain_id, nonce, max_priority_fee_per_gas,
//! max_fee_per_gas, gas_limit, to, value, data, access_list])`; the signed form has
//! `y_parity, r, s` at the end of the list. The access list is always empty.
//!
//! What is decoded is a plain transfer: a signed transaction with call data or with an access
//! list is refused, and so is every spelling but the canonical one. Contract calls are
//! encoded and signed here, but nothing here guesses at what the call data of others means.

use vstd::prelude::*;

use crate::bytes::{
    lemma_pow256, lemma_trim, lemma_trim_padded, repeated, trim_leading_zeros, vec_at,
};
use crate::hex::{hex_text, to_hex};
use crate::rlp::{
    decode_address, decode_item, decode_u128, decode_u64, decode_u8, encode_list_header,
    encode_string, encode_u128, encode_u64, encode_u8, lemma_item_written_back,
    lemma_uint_written_back, length_string, length_u128, length_u64, length_u8, rlp_list,
    rlp_string, rlp_uint, take_item, take_uint,
};
use crate::text::{decimal, push_decimal, text2};

verus! {

/// An EIP-1559 transaction with no access list, before signing.
#[derive(Debug, Clone, PartialEq, Eq)]
pub struct UnsignedEip1559Tx {
    /// The chain that the transaction is meant for. It is part of what is signed, so the
    /// transaction cannot be replayed on another chain.
    pub chain_id: u64,
    /// The sender's transaction count at the time of signing.
    pub nonce: u64,
    /// The tip to the block proposer, in wei per gas.
    pub max_priority_fee_per_gas: u128,
    /// The cap on base fee and tip together, in wei per gas.
    pub max_fee_per_gas: u128,
    /// The gas limit.
    pub gas_limit: u64,
    /// The recipient's address.
    pub to: [u8; 20],
    /// The amount of native currency to transfer, in wei.
    pub value: u128,
    /// Empty for a native transfer; the ABI payload of a contract call.
    pub data: Vec<u8>,
}

/// A transaction with its signature.
#[derive(Debug, Clone, PartialEq, Eq)]
pub struct SignedEip1559Tx {
    /// The transaction that was signed.
    pub tx: UnsignedEip1559Tx,
    /// The parity part of the recovery id: 0 or 1.
    pub y_parity: u8,
    /// The signature's `r`, big-endian.
    pub r: [u8; 32],
    /// The signature's `s`, big-endian.
    pub s: [u8; 32],
}

/// Why a signed transaction could not be decoded. Every variant means that it is not to be
/// treated as a transaction.
#[derive(Debug, PartialEq, Eq, Structural)]
pub enum EvmDecodeError {
    /// The input is empty.
    Empty,
    /// The leading type byte is not 0x02.
    UnsupportedType(u8),
    /// The RLP is invalid, truncated or not canonical.
    Malformed,
    /// Bytes remain behind the last expected field.
    TrailingBytes,
    /// There is call data, which this decoder does not understand.
    UnrecognizedCalldata,
    /// The access list is not empty: the same limitation.
    UnrecognizedAccessList,
    /// The parity is neither 0 nor 1.
    InvalidYParity(u8),
}

/// A decoding error in words.
pub open spec fn evm_decode_error_text(e: EvmDecodeError) -> Seq<char> {
    match e {
        EvmDecodeError::Empty => "empty input"@,
        EvmDecodeError::UnsupportedType(t) => "unsupported transaction type byte: "@ + hex_text(
            seq![t],
        ),
        EvmDecodeError::Malformed => "malformed RLP"@,
        EvmDecodeError::TrailingBytes => "trailing bytes after decoding all expected fields"@,
        EvmDecodeError::UnrecognizedCalldata => "calldata present but not recognized by any decoder"@,
        EvmDecodeError::UnrecognizedAccessList => "access list present but not recognized by any decoder"@,
        EvmDecodeError::InvalidYParity(v) => "invalid y_parity: "@ + decimal(v as nat),
    }
}

impl EvmDecodeError {
    /// The error in words.
    pub fn text(&self) -> (r: String)
        ensures
            r@ == evm_decode_error_text(*self),
    {
        match self {
            EvmDecodeError::Empty => "empty input".to_owned(),
            EvmDecodeError::UnsupportedType(t) => {
                let byte: [u8; 1] = [*t];
                assert(byte@ =~= seq![*t]);
                text2("unsupported transaction type byte: ", to_hex(&byte).as_str())
            },
            EvmDecodeError::Malformed => "malformed RLP".to_owned(),
            EvmDecodeError::TrailingBytes =>
                "trailing bytes after decoding all expected fields".to_owned(),
            EvmDecodeError::UnrecognizedCalldata =>
                "calldata present but not recognized by any decoder".to_owned(),
            EvmDecodeError::UnrecognizedAccessList =>
                "access list present but not recognized by any decoder".to_owned(),
            EvmDecodeError::InvalidYParity(v) => {
                let mut out = "invalid y_parity: ".to_owned();
                push_decimal(&mut out, *v as u128);
                out
            },
        }
    }
}

/// The type byte of the format.
pub const TYPE_BYTE: u8 = 0x02;

/// What an unsigned transaction says.
#[verifier::ext_equal]
pub ghost struct TxView {
    pub chain_id: nat,
    pub nonce: nat,
    pub max_priority_fee_per_gas: nat,
    pub max_fee_per_gas: nat,
    pub gas_limit: nat,
    pub to: Seq<u8>,
    pub value: nat,
    pub data: Seq<u8>,
}

/// What a signed transaction says.
#[verifier::ext_equal]
pub ghost struct SignedTxView {
    pub tx: TxView,
    pub y_parity: u8,
    pub r: Seq<u8>,
    pub s: Seq<u8>,
}

impl UnsignedEip1559Tx {
    pub open spec fn view(&self) -> TxView {
        TxView {
            chain_id: self.chain_id as nat,
            nonce: self.nonce as nat,
            max_priority_fee_per_gas: self.max_priority_fee_per_gas as nat,
            max_fee_per_gas: self.max_fee_per_gas as nat,
            gas_limit: self.gas_limit as nat,
            to: self.to@,
            value: self.value as nat,
            data: self.data@,
        }
    }
}

impl SignedEip1559Tx {
    pub open spec fn view(&self) -> SignedTxView {
        SignedTxView { tx: self.tx@, y_parity: self.y_parity, r: self.r@, s: self.s@ }
    }
}

/// The items that both forms have in common.
#[verifier::opaque]
pub open spec fn transfer_items(tx: TxView) -> Seq<u8> {
    rlp_uint(tx.chain_id) + (rlp_uint(tx.nonce) + (rlp_uint(tx.max_priority_fee_per_gas) + (
    rlp_uint(tx.max_fee_per_gas) + (rlp_uint(tx.gas_limit) + (rlp_string(tx.to) + (rlp_uint(
        tx.value,
    ) + (rlp_string(tx.data) + rlp_list(Seq::empty()))))))))
}

/// The items of the signature. Its components are numbers, so their leading zeros go.
#[verifier::opaque]
pub open spec fn signature_items(signed: SignedTxView) -> Seq<u8> {
    rlp_uint(signed.y_parity as nat) + (rlp_string(trim_leading_zeros(signed.r)) + rlp_string(
        trim_leading_zeros(signed.s),
    ))
}

/// The unsigned wire form.
pub open spec fn unsigned_encoding(tx: TxView) -> Seq<u8> {
    seq![TYPE_BYTE] + rlp_list(transfer_items(tx))
}

/// The signed wire form.
pub open spec fn signed_encoding(signed: SignedTxView) -> Seq<u8> {
    seq![TYPE_BYTE] + rlp_list(transfer_items(signed.tx) + signature_items(signed))
}

/// A number of at most 32 bytes, written in 32.
pub open spec fn left_padded(s: Seq<u8>) -> Seq<u8> {
    repeated(0, (32 - s.len()) as nat) + s
}

/// The fields up to the call data that a buffer starts with, and what follows them.
#[verifier::opaque]
pub open spec fn take_transfer(body: Seq<u8>) -> Option<(TxView, Seq<u8>)> {
    match take_uint(body, 8) {
        None => None,
        Some((chain_id, b1)) => match take_uint(b1, 8) {
            None => None,
            Some((nonce, b2)) => match take_uint(b2, 16) {
                None => None,
                Some((max_priority_fee_per_gas, b3)) => match take_uint(b3, 16) {
                    None => None,
                    Some((max_fee_per_gas, b4)) => take_transfer_tail(
                        chain_id,
                        nonce,
                        max_priority_fee_per_gas,
                        max_fee_per_gas,
                        b4,
                    ),
                },
            },
        },
    }
}

/// The fields from the gas limit up to the call data.
pub open spec fn take_transfer_tail(
    chain_id: nat,
    nonce: nat,
    max_priority_fee_per_gas: nat,
    max_fee_per_gas: nat,
    body: Seq<u8>,
) -> Option<(TxView, Seq<u8>)> {
    match take_uint(body, 8) {
        None => None,
        Some((gas_limit, b1)) => match take_item(b1, false) {
            None => None,
            Some((to, b2)) => if to.len() != 20 {
                None
            } else {
                match take_uint(b2, 16) {
                    None => None,
                    Some((value, b3)) => match take_item(b3, false) {
                        None => None,
                        Some((data, b4)) => Some(
                            (
                                TxView {
                                    chain_id,
                                    nonce,
                                    max_priority_fee_per_gas,
                                    max_fee_per_gas,
                                    gas_limit,
                                    to,
                                    value,
                                    data,
                                },
                                b4,
                            ),
                        ),
                    },
                }
            },
        },
    }
}

/// The number of at most 32 bytes that a buffer starts with, written in 32, and what
/// follows it. It has no leading zero: zero is the empty string.
pub open spec fn take_quantity_32(buf: Seq<u8>) -> Option<(Seq<u8>, Seq<u8>)> {
    match take_item(buf, false) {
        Some((payload, rest)) => if payload.len() <= 32 && (payload.len() == 0 || payload[0]
            != 0) {
            Some((left_padded(payload), rest))
        } else {
            None
        },
        None => None,
    }
}

/// What the access list and the signature behind the transfer fields amount to.
#[verifier::opaque]
pub open spec fn signature_decoding(tx: TxView, body: Seq<u8>) -> Result<
    SignedTxView,
    EvmDecodeError,
> {
    match take_item(body, true) {
        None => Err(EvmDecodeError::Malformed),
        Some((access_list, b1)) => if access_list.len() > 0 {
            Err(EvmDecodeError::UnrecognizedAccessList)
        } else {
            match take_uint(b1, 1) {
                None => Err(EvmDecodeError::Malformed),
                Some((y_parity, b2)) => if y_parity > 1 {
                    Err(EvmDecodeError::InvalidYParity(y_parity as u8))
                } else {
                    match take_quantity_32(b2) {
                        None => Err(EvmDecodeError::Malformed),
                        Some((r, b3)) => match take_quantity_32(b3) {
                            None => Err(EvmDecodeError::Malformed),
                            Some((s, b4)) => if b4.len() > 0 {
                                Err(EvmDecodeError::TrailingBytes)
                            } else {
                                Ok(SignedTxView { tx, y_parity: y_parity as u8, r, s })
                            },
                        },
                    }
                },
            }
        },
    }
}

/// What the concatenated items of a signed transaction amount to.
pub open spec fn body_decoding(body: Seq<u8>) -> Result<SignedTxView, EvmDecodeError> {
    match take_transfer(body) {
        None => Err(EvmDecodeError::Malformed),
        Some((tx, behind)) => if tx.data.len() > 0 {
            Err(EvmDecodeError::UnrecognizedCalldata)
        } else {
            signature_decoding(tx, behind)
        },
    }
}

/// What a byte string amounts to as a signed transaction, or what keeps it from being one.
pub open spec fn signed_decoding(raw: Seq<u8>) -> Result<SignedTxView, EvmDecodeError> {
    if raw.len() == 0 {
        Err(EvmDecodeError::Empty)
    } else if raw[0] != TYPE_BYTE {
        Err(EvmDecodeError::UnsupportedType(raw[0]))
    } else {
        match take_item(raw.skip(1), true) {
            None => Err(EvmDecodeError::Malformed),
            Some((body, rest)) => if rest.len() > 0 {
                Err(EvmDecodeError::TrailingBytes)
            } else {
                body_decoding(body)
            },
        }
    }
}

/// A 32-byte quantity without its leading zero bytes: the spelling of zero is empty.
fn trimmed_quantity(bytes: &[u8; 32]) -> (r: Vec<u8>)
    ensures
        r@ == trim_leading_zeros(bytes@),
        r@.len() <= 32,
{
    let mut i: usize = 0;
    proof {
        assert(bytes@.skip(0) =~= bytes@);
    }
    while i < 32
        invariant_except_break
            i <= 32,
            trim_leading_zeros(bytes@) == trim_leading_zeros(bytes@.skip(i as int)),
        ensures
            i <= 32,
            trim_leading_zeros(bytes@) == bytes@.skip(i as int),
        decreases 32 - i,
    {
        if bytes[i] != 0 {
            break;
        }
        assert(bytes@.skip(i as int).drop_first() =~= bytes@.skip(i + 1));
        i = i + 1;
    }
    let r = vec_at(bytes, i, 32);
    assert(r@ =~= bytes@.skip(i as int));
    r
}

fn encode_fields(tx: &UnsignedEip1559Tx, out: &mut Vec<u8>)
    ensures
        final(out)@ == old(out)@ + transfer_items(tx@),
{
    let ghost o0 = out@;
    encode_u64(tx.chain_id, out);
    let ghost o1 = out@;
    encode_u64(tx.nonce, out);
    let ghost o2 = out@;
    encode_u128(tx.max_priority_fee_per_gas, out);
    let ghost o3 = out@;
    encode_u128(tx.max_fee_per_gas, out);
    let ghost o4 = out@;
    encode_u64(tx.gas_limit, out);
    let ghost o5 = out@;
    encode_string(&tx.to, out);
    let ghost o6 = out@;
    encode_u128(tx.value, out);
    let ghost o7 = out@;
    encode_string(tx.data.as_slice(), out);
    encode_list_header(0, out);
    proof {
        reveal(transfer_items);
        assert(rlp_list(Seq::<u8>::empty()) =~= crate::rlp::rlp_header(true, 0));
        let t8 = rlp_list(Seq::<u8>::empty());
        let t7 = rlp_string(tx@.data) + t8;
        lemma_concat_assoc(o7, rlp_string(tx@.data), t8);
        let t6 = rlp_uint(tx@.value) + t7;
        lemma_concat_assoc(o6, rlp_uint(tx@.value), t7);
        let t5 = rlp_string(tx@.to) + t6;
        lemma_concat_assoc(o5, rlp_string(tx@.to), t6);
        let t4 = rlp_uint(tx@.gas_limit) + t5;
        lemma_concat_assoc(o4, rlp_uint(tx@.gas_limit), t5);
        let t3 = rlp_uint(tx@.max_fee_per_gas) + t4;
        lemma_concat_assoc(o3, rlp_uint(tx@.max_fee_per_gas), t4);
        let t2 = rlp_uint(tx@.max_priority_fee_per_gas) + t3;
        lemma_concat_assoc(o2, rlp_uint(tx@.max_priority_fee_per_gas), t3);
        let t1 = rlp_uint(tx@.nonce) + t2;
        lemma_concat_assoc(o1, rlp_uint(tx@.nonce), t2);
        let t0 = rlp_uint(tx@.chain_id) + t1;
        lemma_concat_assoc(o0, rlp_uint(tx@.chain_id), t1);
    }
}

proof fn lemma_concat_assoc(a: Seq<u8>, b: Seq<u8>, c: Seq<u8>)
    ensures
        (a + b) + c == a + (b + c),
{
    assert((a + b) + c =~= a + (b + c));
}

fn fields_length(tx: &UnsignedEip1559Tx) -> (r: usize)
    requires
        tx.data@.len() <= isize::MAX,
    ensures
        r == transfer_items(tx@).len(),
        r <= tx.data@.len() + 200,
{
    proof {
        reveal(transfer_items);
        lemma_item_lengths(tx@);
        lemma_numbers_fit(tx);
    }
    let n1: usize = length_u64(tx.chain_id);
    let n2: usize = length_u64(tx.nonce);
    let n3: usize = length_u128(tx.max_priority_fee_per_gas);
    let n4: usize = length_u128(tx.max_fee_per_gas);
    let n5: usize = length_u64(tx.gas_limit);
    let n6: usize = length_string(&tx.to);
    let n7: usize = length_u128(tx.value);
    let n8: usize = length_string(tx.data.as_slice());
    n1 + n2 + n3 + n4 + n5 + n6 + n7 + n8 + 1
}

/// The numbers of a transaction fit in the widths that the format gives them.
pub open spec fn numbers_fit(tx: TxView) -> bool {
    &&& tx.chain_id < 0x1_0000_0000_0000_0000
    &&& tx.nonce < 0x1_0000_0000_0000_0000
    &&& tx.max_priority_fee_per_gas < 0x1_0000_0000_0000_0000_0000_0000_0000_0000
    &&& tx.max_fee_per_gas < 0x1_0000_0000_0000_0000_0000_0000_0000_0000
    &&& tx.gas_limit < 0x1_0000_0000_0000_0000
    &&& tx.to.len() == 20
    &&& tx.value < 0x1_0000_0000_0000_0000_0000_0000_0000_0000
    &&& tx.data.len() < 0x1_0000_0000_0000_0000
}

proof fn lemma_numbers_fit(tx: &UnsignedEip1559Tx)
    ensures
        numbers_fit(tx@),
{
    assert(tx.data.len() == tx.data@.len());
}

proof fn lemma_item_lengths(tx: TxView)
    requires
        numbers_fit(tx),
    ensures
        rlp_uint(tx.chain_id).len() <= 17,
        rlp_uint(tx.nonce).len() <= 17,
        rlp_uint(tx.max_priority_fee_per_gas).len() <= 25,
        rlp_uint(tx.max_fee_per_gas).len() <= 25,
        rlp_uint(tx.gas_limit).len() <= 17,
        rlp_string(tx.to).len() <= 29,
        rlp_uint(tx.value).len() <= 25,
        rlp_string(tx.data).len() <= tx.data.len() + 9,
        rlp_list(Seq::<u8>::empty()).len() == 1,
        transfer_items(tx).len() <= tx.data.len() + 200,
{
    reveal(transfer_items);
    lemma_pow256();
    let e = Seq::<u8>::empty();
    crate::rlp::lemma_uint_read_back(tx.chain_id, 8, e);
    crate::rlp::lemma_uint_read_back(tx.nonce, 8, e);
    crate::rlp::lemma_uint_read_back(tx.max_priority_fee_per_gas, 16, e);
    crate::rlp::lemma_uint_read_back(tx.max_fee_per_gas, 16, e);
    crate::rlp::lemma_uint_read_back(tx.gas_limit, 8, e);
    crate::rlp::lemma_string_read_back(tx.to, e);
    crate::rlp::lemma_uint_read_back(tx.value, 16, e);
    crate::rlp::lemma_string_read_back(tx.data, e);
}

/// The unsigned wire form: what is hashed for signing.
pub fn encode_unsigned(tx: &UnsignedEip1559Tx) -> (r: Vec<u8>)
    requires
        tx.data@.len() <= isize::MAX,
    ensures
        r@ == unsigned_encoding(tx@),
        r@ == seq![0x02u8] + rlp_list(transfer_items(tx@)),
{
    let payload_length: usize = fields_length(tx);
    let mut out: Vec<u8> = Vec::new();
    out.push(TYPE_BYTE);
    encode_list_header(payload_length, &mut out);
    encode_fields(tx, &mut out);
    proof {
        let kind = seq![TYPE_BYTE];
        let header = crate::rlp::rlp_header(true, payload_length as nat);
        assert(Seq::<u8>::empty().push(TYPE_BYTE) =~= kind);
        lemma_concat_assoc(kind, header, transfer_items(tx@));
    }
    out
}

/// The signed wire form: what is broadcast.
pub fn encode_signed(signed: &SignedEip1559Tx) -> (r: Vec<u8>)
    requires
        signed.tx.data@.len() <= isize::MAX,
    ensures
        r@ == signed_encoding(signed@),
        r@ == seq![0x02u8] + rlp_list(transfer_items(signed.tx@) + signature_items(signed@)),
{
    let r_trimmed = trimmed_quantity(&signed.r);
    let s_trimmed = trimmed_quantity(&signed.s);
    proof {
        reveal(signature_items);
        let e = Seq::<u8>::empty();
        lemma_pow256();
        crate::rlp::lemma_uint_read_back(signed.y_parity as nat, 1, e);
        crate::rlp::lemma_string_read_back(r_trimmed@, e);
        crate::rlp::lemma_string_read_back(s_trimmed@, e);
    }
    let fields: usize = fields_length(&signed.tx);
    let n_parity: usize = length_u8(signed.y_parity);
    let n_r: usize = length_string(r_trimmed.as_slice());
    let n_s: usize = length_string(s_trimmed.as_slice());
    let payload_length: usize = fields + n_parity + n_r + n_s;
    let mut out: Vec<u8> = Vec::new();
    out.push(TYPE_BYTE);
    encode_list_header(payload_length, &mut out);
    encode_fields(&signed.tx, &mut out);
    encode_u8(signed.y_parity, &mut out);
    encode_string(r_trimmed.as_slice(), &mut out);
    encode_string(s_trimmed.as_slice(), &mut out);
    proof {
        let kind = seq![TYPE_BYTE];
        let header = crate::rlp::rlp_header(true, payload_length as nat);
        let items = transfer_items(signed.tx@);
        let parity = rlp_uint(signed.y_parity as nat);
        let ri = rlp_string(r_trimmed@);
        let si = rlp_string(s_trimmed@);
        assert(Seq::<u8>::empty().push(TYPE_BYTE) =~= kind);
        lemma_concat_assoc(((kind + header) + items) + parity, ri, si);
        lemma_concat_assoc((kind + header) + items, parity, ri + si);
        lemma_concat_assoc(kind + header, items, parity + (ri + si));
        lemma_concat_assoc(kind, header, items + (parity + (ri + si)));
    }
    out
}

/// Reads a number of at most 32 bytes into 32. A leading zero is not canonical.
fn decode_quantity_32<'a>(buf: &'a [u8]) -> (r: Result<([u8; 32], &'a [u8]), EvmDecodeError>)
    ensures
        match r {
            Ok((quantity, rest)) => take_quantity_32(buf@) == Some((quantity@, rest@)),
            Err(e) => take_quantity_32(buf@) is None && e == EvmDecodeError::Malformed,
        },
{
    let (payload, rest) = match decode_item(buf, false) {
        Ok(x) => x,
        Err(_) => return Err(EvmDecodeError::Malformed),
    };
    let n: usize = payload.len();
    if n > 32 || (n > 0 && payload[0] == 0) {
        return Err(EvmDecodeError::Malformed);
    }
    let mut out: [u8; 32] = [0u8; 32];
    let mut i: usize = 0;
    while i < n
        invariant
            i <= n <= 32,
            n == payload@.len(),
            forall|j: int| 0 <= j < 32 - n ==> out@[j] == 0,
            forall|j: int| 0 <= j < i ==> out@[32 - n + j] == payload@[j],
        decreases n - i,
    {
        out[32 - n + i] = payload[i];
        i = i + 1;
    }
    assert(out@ =~= left_padded(payload@)) by {
        assert forall|j: int| 0 <= j < 32 implies out@[j] == left_padded(payload@)[j] by {
            if j >= 32 - n {
                let k = j - (32 - n);
                assert(out@[32 - n + k] == payload@[k]);
            }
        }
    }
    Ok((out, rest))
}

/// Reads the fields up to the call data.
fn decode_transfer<'a>(body: &'a [u8]) -> (r: Option<(UnsignedEip1559Tx, &'a [u8])>)
    ensures
        match r {
            Some((tx, rest)) => take_transfer(body@) == Some((tx@, rest@)),
            None => take_transfer(body@) is None,
        },
{
    reveal(take_transfer);
    let (chain_id, b1) = match decode_u64(body) {
        Ok(x) => x,
        Err(_) => return None,
    };
    let (nonce, b2) = match decode_u64(b1) {
        Ok(x) => x,
        Err(_) => return None,
    };
    let (max_priority_fee_per_gas, b3) = match decode_u128(b2) {
        Ok(x) => x,
        Err(_) => return None,
    };
    let (max_fee_per_gas, b4) = match decode_u128(b3) {
        Ok(x) => x,
        Err(_) => return None,
    };
    let (gas_limit, b5) = match decode_u64(b4) {
        Ok(x) => x,
        Err(_) => return None,
    };
    let (to, b6) = match decode_address(b5) {
        Ok(x) => x,
        Err(_) => return None,
    };
    let (value, b7) = match decode_u128(b6) {
        Ok(x) => x,
        Err(_) => return None,
    };
    let (payload, b8) = match decode_item(b7, false) {
        Ok(x) => x,
        Err(_) => return None,
    };
    let data = vec_at(payload, 0, payload.len());
    assert(data@ =~= payload@);
    let tx = UnsignedEip1559Tx {
        chain_id,
        nonce,
        max_priority_fee_per_gas,
        max_fee_per_gas,
        gas_limit,
        to,
        value,
        data,
    };
    Some((tx, b8))
}

/// Decodes a signed transfer, and refuses everything that does not have exactly this shape.
/// A transaction with call data is not a transfer.
pub fn decode_signed(raw: &[u8]) -> (r: Result<SignedEip1559Tx, EvmDecodeError>)
    ensures
        match r {
            Ok(signed) => signed_decoding(raw@) == Ok::<_, EvmDecodeError>(signed@),
            Err(e) => signed_decoding(raw@) == Err::<SignedTxView, _>(e),
        },
{
    reveal(signature_decoding);
    if raw.len() == 0 {
        return Err(EvmDecodeError::Empty);
    }
    if raw[0] != TYPE_BYTE {
        return Err(EvmDecodeError::UnsupportedType(raw[0]));
    }
    let tail = vstd::slice::slice_subrange(raw, 1, raw.len());
    assert(tail@ =~= raw@.skip(1));
    let (body, rest) = match decode_item(tail, true) {
        Ok(x) => x,
        Err(_) => return Err(EvmDecodeError::Malformed),
    };
    if rest.len() > 0 {
        return Err(EvmDecodeError::TrailingBytes);
    }
    let (tx, b0) = match decode_transfer(body) {
        Some(x) => x,
        None => return Err(EvmDecodeError::Malformed),
    };
    if tx.data.len() > 0 {
        return Err(EvmDecodeError::UnrecognizedCalldata);
    }
    let (access_list, b1) = match decode_item(b0, true) {
        Ok(x) => x,
        Err(_) => return Err(EvmDecodeError::Malformed),
    };
    if access_list.len() > 0 {
        return Err(EvmDecodeError::UnrecognizedAccessList);
    }
    let (y_parity, b2) = match decode_u8(b1) {
        Ok(x) => x,
        Err(_) => return Err(EvmDecodeError::Malformed),
    };
    if y_parity > 1 {
        return Err(EvmDecodeError::InvalidYParity(y_parity));
    }
    let (r, b3) = match decode_quantity_32(b2) {
        Ok(x) => x,
        Err(e) => return Err(e),
    };
    let (s, b4) = match decode_quantity_32(b3) {
        Ok(x) => x,
        Err(e) => return Err(e),
    };
    if b4.len() > 0 {
        return Err(EvmDecodeError::TrailingBytes);
    }
    Ok(SignedEip1559Tx { tx, y_parity, r, s })
}

/// The transfer fields are read back from their items.
proof fn lemma_transfer_read_back(tx: TxView, behind: Seq<u8>)
    requires
        numbers_fit(tx),
    ensures
        take_transfer(transfer_items(tx) + behind) == Some(
            (tx, rlp_list(Seq::<u8>::empty()) + behind),
        ),
{
    reveal(transfer_items);
    reveal(take_transfer);
    lemma_pow256();
    let i1 = rlp_uint(tx.chain_id);
    let i2 = rlp_uint(tx.nonce);
    let i3 = rlp_uint(tx.max_priority_fee_per_gas);
    let i4 = rlp_uint(tx.max_fee_per_gas);
    let i5 = rlp_uint(tx.gas_limit);
    let i6 = rlp_string(tx.to);
    let i7 = rlp_uint(tx.value);
    let i8 = rlp_string(tx.data);
    let i9 = rlp_list(Seq::<u8>::empty());
    let t8 = i8 + i9;
    let t7 = i7 + t8;
    let t6 = i6 + t7;
    let t5 = i5 + t6;
    let t4 = i4 + t5;
    let t3 = i3 + t4;
    let t2 = i2 + t3;
    lemma_concat_assoc(i1, t2, behind);
    lemma_concat_assoc(i2, t3, behind);
    lemma_concat_assoc(i3, t4, behind);
    lemma_concat_assoc(i4, t5, behind);
    lemma_concat_assoc(i5, t6, behind);
    lemma_concat_assoc(i6, t7, behind);
    lemma_concat_assoc(i7, t8, behind);
    lemma_concat_assoc(i8, i9, behind);
    crate::rlp::lemma_uint_read_back(tx.chain_id, 8, t2 + behind);
    crate::rlp::lemma_uint_read_back(tx.nonce, 8, t3 + behind);
    crate::rlp::lemma_uint_read_back(tx.max_priority_fee_per_gas, 16, t4 + behind);
    crate::rlp::lemma_uint_read_back(tx.max_fee_per_gas, 16, t5 + behind);
    crate::rlp::lemma_uint_read_back(tx.gas_limit, 8, t6 + behind);
    crate::rlp::lemma_string_read_back(tx.to, t7 + behind);
    crate::rlp::lemma_uint_read_back(tx.value, 16, t8 + behind);
    crate::rlp::lemma_string_read_back(tx.data, i9 + behind);
}

/// A quantity is read back from its trimmed item.
proof fn lemma_quantity_read_back(q: Seq<u8>, behind: Seq<u8>)
    requires
        q.len() == 32,
    ensures
        take_quantity_32(rlp_string(trim_leading_zeros(q)) + behind) == Some((q, behind)),
        rlp_string(trim_leading_zeros(q)).len() <= 41,
{
    lemma_trim(q);
    crate::rlp::lemma_string_read_back(trim_leading_zeros(q), behind);
}

/// The envelope of a signed transaction is read back.
proof fn lemma_envelope_read_back(body: Seq<u8>)
    requires
        body.len() < 0x1_0000_0000_0000_0000,
    ensures
        signed_decoding(seq![TYPE_BYTE] + rlp_list(body)) == body_decoding(body),
{
    let e = Seq::<u8>::empty();
    let raw = seq![TYPE_BYTE] + rlp_list(body);
    crate::rlp::lemma_list_read_back(body, e);
    assert(raw.skip(1) =~= rlp_list(body));
    assert(rlp_list(body) + e =~= rlp_list(body));
}

/// What the access list and the signature items amount to depends on the parity alone.
proof fn lemma_signature_read_back(signed: SignedTxView)
    requires
        signed.r.len() == 32,
        signed.s.len() == 32,
    ensures
        signature_decoding(signed.tx, rlp_list(Seq::<u8>::empty()) + signature_items(signed))
            == if signed.y_parity <= 1 {
            Ok::<_, EvmDecodeError>(signed)
        } else {
            Err(EvmDecodeError::InvalidYParity(signed.y_parity))
        },
        signature_items(signed).len() <= 100,
{
    reveal(signature_items);
    reveal(signature_decoding);
    let ri = rlp_string(trim_leading_zeros(signed.r));
    let si = rlp_string(trim_leading_zeros(signed.s));
    let e = Seq::<u8>::empty();
    lemma_pow256();
    crate::rlp::lemma_list_read_back(e, signature_items(signed));
    crate::rlp::lemma_uint_read_back(signed.y_parity as nat, 1, ri + si);
    lemma_quantity_read_back(signed.r, si);
    lemma_quantity_read_back(signed.s, e);
    assert(si + e =~= si);
}

/// Decoding gives back exactly what was encoded, for every signed transfer with a parity of
/// 0 or 1. A transaction with call data or with another parity can be encoded, but is refused
/// again. (The call data leaves room for the other fields in a length of eight bytes.)
pub proof fn law_decode_inverts_encode(signed: SignedTxView)
    requires
        numbers_fit(signed.tx),
        signed.tx.data.len() < 0x1_0000_0000_0000_0000 - 300,
        signed.r.len() == 32,
        signed.s.len() == 32,
    ensures
        signed_decoding(signed_encoding(signed)) == if signed.tx.data.len() > 0 {
            Err(EvmDecodeError::UnrecognizedCalldata)
        } else if signed.y_parity <= 1 {
            Ok::<_, EvmDecodeError>(signed)
        } else {
            Err(EvmDecodeError::InvalidYParity(signed.y_parity))
        },
{
    let items = transfer_items(signed.tx);
    let tail = signature_items(signed);
    lemma_item_lengths(signed.tx);
    lemma_signature_read_back(signed);
    lemma_envelope_read_back(items + tail);
    lemma_transfer_read_back(signed.tx, tail);
}

/// The transfer fields that are read are spelled in their one canonical way.
proof fn lemma_transfer_written_back(body: Seq<u8>)
    requires
        take_transfer(body) is Some,
    ensures
        take_transfer(body) matches Some((tx, behind)) && forall|rest: Seq<u8>|
            #![trigger rlp_list(Seq::<u8>::empty()) + rest]
            behind == rlp_list(Seq::<u8>::empty()) + rest ==> body == transfer_items(tx) + rest,
{
    reveal(transfer_items);
    reveal(take_transfer);
    let (tx, behind) = take_transfer(body)->0;
    let b1 = (take_uint(body, 8)->0).1;
    let b2 = (take_uint(b1, 8)->0).1;
    let b3 = (take_uint(b2, 16)->0).1;
    let b4 = (take_uint(b3, 16)->0).1;
    let b5 = (take_uint(b4, 8)->0).1;
    let b6 = (take_item(b5, false)->0).1;
    let b7 = (take_uint(b6, 16)->0).1;
    lemma_uint_written_back(body, 8);
    lemma_uint_written_back(b1, 8);
    lemma_uint_written_back(b2, 16);
    lemma_uint_written_back(b3, 16);
    lemma_uint_written_back(b4, 8);
    lemma_item_written_back(b5, false);
    lemma_uint_written_back(b6, 16);
    lemma_item_written_back(b7, false);
    assert forall|rest: Seq<u8>|
        #![trigger rlp_list(Seq::<u8>::empty()) + rest]
        behind == rlp_list(Seq::<u8>::empty()) + rest implies body == transfer_items(tx) + rest by {
        let i9 = rlp_list(Seq::<u8>::empty());
        let t8 = rlp_string(tx.data) + i9;
        lemma_concat_assoc(rlp_string(tx.data), i9, rest);
        let t7 = rlp_uint(tx.value) + t8;
        lemma_concat_assoc(rlp_uint(tx.value), t8, rest);
        let t6 = rlp_string(tx.to) + t7;
        lemma_concat_assoc(rlp_string(tx.to), t7, rest);
        let t5 = rlp_uint(tx.gas_limit) + t6;
        lemma_concat_assoc(rlp_uint(tx.gas_limit), t6, rest);
        let t4 = rlp_uint(tx.max_fee_per_gas) + t5;
        lemma_concat_assoc(rlp_uint(tx.max_fee_per_gas), t5, rest);
        let t3 = rlp_uint(tx.max_priority_fee_per_gas) + t4;
        lemma_concat_assoc(rlp_uint(tx.max_priority_fee_per_gas), t4, rest);
        let t2 = rlp_uint(tx.nonce) + t3;
        lemma_concat_assoc(rlp_uint(tx.nonce), t3, rest);
        lemma_concat_assoc(rlp_uint(tx.chain_id), t2, rest);
    }
}

/// A quantity that is read is spelled in its one canonical way.
proof fn lemma_quantity_written_back(buf: Seq<u8>)
    requires
        take_quantity_32(buf) is Some,
    ensures
        take_quantity_32(buf) matches Some((q, rest)) && q.len() == 32 && buf == rlp_string(
            trim_leading_zeros(q),
        ) + rest,
{
    lemma_item_written_back(buf, false);
    let payload = (take_item(buf, false)->0).0;
    lemma_trim_padded(payload, (32 - payload.len()) as nat);
}

/// The access list and the signature that are read are spelled in their one canonical way.
proof fn lemma_signature_written_back(tx: TxView, body: Seq<u8>)
    requires
        signature_decoding(tx, body) is Ok,
    ensures
        signature_decoding(tx, body) matches Ok(signed) && signed.tx == tx && signed.y_parity <= 1
            && signed.r.len() == 32 && signed.s.len() == 32 && body == rlp_list(Seq::<u8>::empty())
            + signature_items(signed),
{
    reveal(signature_items);
    reveal(signature_decoding);
    let signed = signature_decoding(tx, body)->Ok_0;
    let (list, b1) = take_item(body, true)->0;
    let b2 = (take_uint(b1, 1)->0).1;
    let b3 = (take_quantity_32(b2)->0).1;
    let b4 = (take_quantity_32(b3)->0).1;
    lemma_item_written_back(body, true);
    lemma_uint_written_back(b1, 1);
    lemma_quantity_written_back(b2);
    lemma_quantity_written_back(b3);
    assert(list =~= Seq::<u8>::empty());
    let si = rlp_string(trim_leading_zeros(signed.s));
    assert(b4 =~= Seq::<u8>::empty());
    assert(si + b4 =~= si);
}

/// Only the canonical encoding decodes: whatever decodes is the encoding of what it decodes
/// to, so no two byte strings decode to the same transaction.
pub proof fn law_encode_inverts_decode(raw: Seq<u8>)
    requires
        signed_decoding(raw) is Ok,
    ensures
        signed_decoding(raw) matches Ok(signed) && signed_encoding(signed) == raw
            && signed.tx.data.len() == 0 && signed.y_parity <= 1 && signed.r.len() == 32
            && signed.s.len() == 32,
{
    let buf = raw.skip(1);
    let (body, rest) = take_item(buf, true)->0;
    let (tx, behind) = take_transfer(body)->0;
    let signed = signature_decoding(tx, behind)->Ok_0;
    lemma_item_written_back(buf, true);
    lemma_transfer_written_back(body);
    lemma_signature_written_back(tx, behind);
    assert(body == transfer_items(tx) + signature_items(signed));
    assert(rlp_list(body) + rest =~= rlp_list(body));
    assert(raw =~= seq![TYPE_BYTE] + buf);
}

/// Whatever follows a whole signed transaction makes it refused.
pub proof fn law_trailing_bytes_are_refused(raw: Seq<u8>, behind: Seq<u8>)
    requires
        signed_decoding(raw) is Ok,
        behind.len() > 0,
    ensures
        signed_decoding(raw + behind) == Err::<SignedTxView, _>(EvmDecodeError::TrailingBytes),
{
    let buf = raw.skip(1);
    let long = (raw + behind).skip(1);
    assert(long =~= buf + behind);
    let item = crate::rlp::rlp_item_header(buf).unwrap();
    let end = (item.start + item.len) as int;
    lemma_header_ignores_behind(buf, behind);
    assert(long.skip(end).len() == buf.len() + behind.len() - end);
}

/// The header of a whole item does not depend on what follows the item.
proof fn lemma_header_ignores_behind(buf: Seq<u8>, behind: Seq<u8>)
    requires
        crate::rlp::rlp_item_header(buf) matches Some(item) && item.start + item.len <= buf.len(),
    ensures
        crate::rlp::rlp_item_header(buf + behind) == crate::rlp::rlp_item_header(buf),
{
    let all = buf + behind;
    assert(all[0] == buf[0]);
    if buf.len() > 1 {
        assert(all[1] == buf[1]);
    }
    if 0xb8 <= buf[0] < 0xc0 {
        let k = buf[0] - 0xb7;
        assert(all.subrange(1, 1 + k) =~= buf.subrange(1, 1 + k));
    }
    if 0xf8 <= buf[0] {
        let k = buf[0] - 0xf7;
        assert(all.subrange(1, 1 + k) =~= buf.subrange(1, 1 + k));
    }
}

/// What is signed says everything about the transaction: two transactions with the same
/// unsigned form are the same. In particular a signature for one chain is none for another.
pub proof fn law_unsigned_encoding_is_injective(a: TxView, b: TxView)
    requires
        numbers_fit(a),
        numbers_fit(b),
        a.data.len() < 0x1_0000_0000_0000_0000 - 300,
        b.data.len() < 0x1_0000_0000_0000_0000 - 300,
        unsigned_encoding(a) == unsigned_encoding(b),
    ensures
        a == b,
{
    let e = Seq::<u8>::empty();
    let ia = transfer_items(a);
    let ib = transfer_items(b);
    lemma_item_lengths(a);
    lemma_item_lengths(b);
    assert(unsigned_encoding(a).skip(1) =~= rlp_list(ia) + e);
    assert(unsigned_encoding(b).skip(1) =~= rlp_list(ib) + e);
    crate::rlp::lemma_list_read_back(ia, e);
    crate::rlp::lemma_list_read_back(ib, e);
    assert(ia + e =~= ia);
    assert(ib + e =~= ib);
    lemma_transfer_read_back(a, e);
    lemma_transfer_read_back(b, e);
}

/// The wire forms field by field. The unsigned form is the type byte 2 and a list of chain,
/// nonce, tip, fee cap, gas limit, recipient, amount, call data and an empty access list, in
/// this order; the signed form has the same nine items, with parity, `r` and `s` behind them.
pub proof fn law_wire_forms(signed: SignedTxView)
    ensures
        ({
            let tx = signed.tx;
            let items = rlp_uint(tx.chain_id) + (rlp_uint(tx.nonce) + (rlp_uint(
                tx.max_priority_fee_per_gas,
            ) + (rlp_uint(tx.max_fee_per_gas) + (rlp_uint(tx.gas_limit) + (rlp_string(tx.to) + (
            rlp_uint(tx.value) + (rlp_string(tx.data) + rlp_list(Seq::empty()))))))));
            &&& unsigned_encoding(tx) == seq![0x02u8] + rlp_list(items)
            &&& signed_encoding(signed) == seq![0x02u8] + rlp_list(
                items + (rlp_uint(signed.y_parity as nat) + (rlp_string(
                    trim_leading_zeros(signed.r),
                ) + rlp_string(trim_leading_zeros(signed.s)))),
            )
        }),
{
    reveal(transfer_items);
    reveal(signature_items);
}

/// What does not begin with the type byte 2 is told apart from everything else by its first
/// byte, and nothing at all is told apart as empty.
pub proof fn law_other_types_are_refused(raw: Seq<u8>, b: u8)
    ensures
        signed_decoding(raw) == Err::<SignedTxView, _>(EvmDecodeError::Empty) <==> raw.len() == 0,
        signed_decoding(raw) == Err::<SignedTxView, _>(EvmDecodeError::UnsupportedType(b)) <==> (
        raw.len() > 0 && raw[0] == b && b != 0x02),
{
    reveal(signature_decoding);
}

/// An access list with anything in it is refused as such, whatever follows it.
pub proof fn law_access_lists_are_refused(tx: TxView, access_list: Seq<u8>, behind: Seq<u8>)
    requires
        0 < access_list.len() < 0x1_0000_0000_0000_0000,
    ensures
        signature_decoding(tx, rlp_list(access_list) + behind) == Err::<SignedTxView, _>(
            EvmDecodeError::UnrecognizedAccessList,
        ),
{
    reveal(signature_decoding);
    crate::rlp::lemma_list_read_back(access_list, behind);
}

/// Another item behind the signature, inside the list, is refused.
pub proof fn law_items_behind_the_signature_are_refused(signed: SignedTxView, behind: Seq<u8>)
    requires
        numbers_fit(signed.tx),
        signed.tx.data.len() == 0,
        signed.y_parity <= 1,
        signed.r.len() == 32,
        signed.s.len() == 32,
        0 < behind.len() < 0x1_0000_0000,
    ensures
        signed_decoding(
            seq![0x02u8] + rlp_list(
                transfer_items(signed.tx) + (signature_items(signed) + behind),
            ),
        ) == Err::<SignedTxView, _>(EvmDecodeError::TrailingBytes),
{
    let tail = signature_items(signed) + behind;
    lemma_item_lengths(signed.tx);
    lemma_signature_read_back(signed);
    lemma_envelope_read_back(transfer_items(signed.tx) + tail);
    lemma_transfer_read_back(signed.tx, tail);
    let e = Seq::<u8>::empty();
    let ri = rlp_string(trim_leading_zeros(signed.r));
    let si = rlp_string(trim_leading_zeros(signed.s));
    let yi = rlp_uint(signed.y_parity as nat);
    assert(tail == yi + (ri + (si + behind))) by {
        reveal(signature_items);
        lemma_concat_assoc(yi, ri + si, behind);
        lemma_concat_assoc(ri, si, behind);
    }
    lemma_pow256();
    crate::rlp::lemma_list_read_back(e, tail);
    crate::rlp::lemma_uint_read_back(signed.y_parity as nat, 1, ri + (si + behind));
    lemma_quantity_read_back(signed.r, si + behind);
    lemma_quantity_read_back(signed.s, behind);
    reveal(signature_decoding);
}

/// What is no whole list behind the type byte, or no transfer inside the list, is malformed.
pub proof fn law_unreadable_transactions_are_malformed(raw: Seq<u8>)
    requires
        raw.len() > 0,
        raw[0] == 0x02,
    ensures
        take_item(raw.skip(1), true) is None ==> signed_decoding(raw) == Err::<SignedTxView, _>(
            EvmDecodeError::Malformed,
        ),
        take_item(raw.skip(1), true) matches Some((body, rest)) ==> {
            &&& rest.len() > 0 ==> signed_decoding(raw) == Err::<SignedTxView, _>(
                EvmDecodeError::TrailingBytes,
            )
            &&& rest.len() == 0 && take_transfer(body) is None ==> signed_decoding(raw) == Err::<
                SignedTxView,
                _,
            >(EvmDecodeError::Malformed)
        },
{
}

/// The errors that say a byte, in words.
pub proof fn law_decode_errors_in_words(b: u8)
    ensures
        evm_decode_error_text(EvmDecodeError::UnsupportedType(b))
            == "unsupported transaction type byte: "@ + hex_text(seq![b]),
        evm_decode_error_text(EvmDecodeError::InvalidYParity(b)) == "invalid y_parity: "@
            + crate::text::number_text(b as nat, 10),
{
}

/// A transaction says what stands in its fields.
pub proof fn law_transactions_say_their_fields(signed: SignedEip1559Tx)
    ensures
        ({
            let tx = signed.tx;
            &&& signed@.tx.chain_id == tx.chain_id
            &&& signed@.tx.nonce == tx.nonce
            &&& signed@.tx.max_priority_fee_per_gas == tx.max_priority_fee_per_gas
            &&& signed@.tx.max_fee_per_gas == tx.max_fee_per_gas
            &&& signed@.tx.gas_limit == tx.gas_limit
            &&& signed@.tx.to == tx.to@
            &&& signed@.tx.value == tx.value
            &&& signed@.tx.data == tx.data@
            &&& signed@.y_parity == signed.y_parity
            &&& signed@.r == signed.r@
            &&& signed@.s == signed.s@
        }),
{
}

} // verus!
