//! The RLP framing of byte strings, numbers and lists.
//!
//! The framing itself is done by `alloy_rlp`; this module says what it amounts to, and
//! proves that what was framed can be read back.

use alloy_rlp::{Decodable, Encodable, Header};
use vstd::arithmetic::power::pow;
use vstd::prelude::*;

use crate::bytes::be_nat;

verus! {

/// Why an item could not be read. Opaque: callers of this module only learn that it could
/// not.
#[verifier::external_type_specification]
#[verifier::external_body]
pub struct ExRlpError(alloy_rlp::Error);

/// The shortest big-endian spelling of a number. Zero is the empty string.
pub open spec fn min_be(v: nat) -> Seq<u8>
    decreases v,
{
    if v == 0 {
        Seq::empty()
    } else {
        min_be(v / 256).push((v % 256) as u8)
    }
}

/// The header of an item whose payload has `len` bytes.
pub open spec fn rlp_header(list: bool, len: nat) -> Seq<u8> {
    if len < 56 {
        seq![((if list { 0xc0int } else { 0x80int }) + len) as u8]
    } else {
        seq![((if list { 0xf7int } else { 0xb7int }) + min_be(len).len()) as u8] + min_be(len)
    }
}

/// A byte string as an item. A single byte below 0x80 is its own item.
pub open spec fn rlp_string(s: Seq<u8>) -> Seq<u8> {
    if s.len() == 1 && s[0] < 0x80 {
        s
    } else {
        rlp_header(false, s.len()) + s
    }
}

/// A number as an item: the string of its shortest spelling.
pub open spec fn rlp_uint(v: nat) -> Seq<u8> {
    rlp_string(min_be(v))
}

/// A list with the given concatenated items as an item.
pub open spec fn rlp_list(items: Seq<u8>) -> Seq<u8> {
    rlp_header(true, items.len()) + items
}

/// Where the payload of an item lies.
pub ghost struct RlpItem {
    pub list: bool,
    pub start: nat,
    pub len: nat,
}

/// The item that a buffer starts with, if its header is well formed. A header that spells
/// the length out does so in as few bytes as possible, and only for lengths that need it.
pub open spec fn rlp_item_header(buf: Seq<u8>) -> Option<RlpItem> {
    if buf.len() == 0 {
        None
    } else if buf[0] < 0x80 {
        Some(RlpItem { list: false, start: 0, len: 1 })
    } else if buf[0] < 0xb8 {
        if buf[0] == 0x81 && buf.len() > 1 && buf[1] < 0x80 {
            None
        } else {
            Some(RlpItem { list: false, start: 1, len: (buf[0] - 0x80) as nat })
        }
    } else if buf[0] < 0xc0 {
        long_header(buf, false, (buf[0] - 0xb7) as nat)
    } else if buf[0] < 0xf8 {
        Some(RlpItem { list: true, start: 1, len: (buf[0] - 0xc0) as nat })
    } else {
        long_header(buf, true, (buf[0] - 0xf7) as nat)
    }
}

/// An item whose length is spelled out in the `k` bytes behind the first one.
pub open spec fn long_header(buf: Seq<u8>, list: bool, k: nat) -> Option<RlpItem> {
    if buf.len() < 1 + k || buf[1] == 0 || be_nat(buf.subrange(1, 1 + k as int)) < 56 {
        None
    } else {
        Some(RlpItem { list, start: 1 + k, len: be_nat(buf.subrange(1, 1 + k as int)) })
    }
}

/// The payload of the item that a buffer starts with and what follows that item, if there
/// is a whole item of the wanted kind.
pub open spec fn take_item(buf: Seq<u8>, list: bool) -> Option<(Seq<u8>, Seq<u8>)> {
    match rlp_item_header(buf) {
        Some(item) => if item.list == list && item.start + item.len <= buf.len() {
            Some(
                (
                    buf.subrange(item.start as int, (item.start + item.len) as int),
                    buf.skip((item.start + item.len) as int),
                ),
            )
        } else {
            None
        },
        None => None,
    }
}

/// The number that a buffer starts with and what follows it: a string of at most `width`
/// bytes without a leading zero.
pub open spec fn take_uint(buf: Seq<u8>, width: nat) -> Option<(nat, Seq<u8>)> {
    match take_item(buf, false) {
        Some((payload, rest)) => if payload.len() <= width && (payload.len() == 0 || payload[0]
            != 0) {
            Some((be_nat(payload), rest))
        } else {
            None
        },
        None => None,
    }
}

/// `alloy_rlp::Header::decode_bytes`: the payload of the first item, and the buffer advanced
/// past it. It fails where there is no whole, canonically framed item of the wanted kind.
#[verifier::external_body]
pub(crate) fn decode_item<'a>(buf: &'a [u8], list: bool) -> (r: Result<
    (&'a [u8], &'a [u8]),
    alloy_rlp::Error,
>)
    ensures
        match r {
            Ok((payload, rest)) => take_item(buf@, list) == Some((payload@, rest@)),
            Err(_) => take_item(buf@, list) is None,
        },
{
    let mut rest = buf;
    let payload = Header::decode_bytes(&mut rest, list)?;
    Ok((payload, rest))
}

/// `<u8 as alloy_rlp::Decodable>::decode`: a number of at most one byte.
#[verifier::external_body]
pub(crate) fn decode_u8<'a>(buf: &'a [u8]) -> (r: Result<(u8, &'a [u8]), alloy_rlp::Error>)
    ensures
        match r {
            Ok((v, rest)) => take_uint(buf@, 1) == Some((v as nat, rest@)),
            Err(_) => take_uint(buf@, 1) is None,
        },
{
    let mut rest = buf;
    let v = <u8 as Decodable>::decode(&mut rest)?;
    Ok((v, rest))
}

/// `<u64 as alloy_rlp::Decodable>::decode`: a number of at most eight bytes.
#[verifier::external_body]
pub(crate) fn decode_u64<'a>(buf: &'a [u8]) -> (r: Result<(u64, &'a [u8]), alloy_rlp::Error>)
    ensures
        match r {
            Ok((v, rest)) => take_uint(buf@, 8) == Some((v as nat, rest@)),
            Err(_) => take_uint(buf@, 8) is None,
        },
{
    let mut rest = buf;
    let v = <u64 as Decodable>::decode(&mut rest)?;
    Ok((v, rest))
}

/// `<u128 as alloy_rlp::Decodable>::decode`: a number of at most sixteen bytes.
#[verifier::external_body]
pub(crate) fn decode_u128<'a>(buf: &'a [u8]) -> (r: Result<(u128, &'a [u8]), alloy_rlp::Error>)
    ensures
        match r {
            Ok((v, rest)) => take_uint(buf@, 16) == Some((v as nat, rest@)),
            Err(_) => take_uint(buf@, 16) is None,
        },
{
    let mut rest = buf;
    let v = <u128 as Decodable>::decode(&mut rest)?;
    Ok((v, rest))
}

/// `<[u8; 20] as alloy_rlp::Decodable>::decode`: a string of exactly twenty bytes.
#[verifier::external_body]
pub(crate) fn decode_address<'a>(buf: &'a [u8]) -> (r: Result<
    ([u8; 20], &'a [u8]),
    alloy_rlp::Error,
>)
    ensures
        match r {
            Ok((address, rest)) => take_item(buf@, false) == Some((address@, rest@)),
            Err(_) => take_item(buf@, false) matches Some((payload, _)) ==> payload.len() != 20,
        },
{
    let mut rest = buf;
    let address = <[u8; 20] as Decodable>::decode(&mut rest)?;
    Ok((address, rest))
}

/// `<u8 as alloy_rlp::Encodable>::encode`: appends the number as an item.
#[verifier::external_body]
pub(crate) fn encode_u8(v: u8, out: &mut Vec<u8>)
    ensures
        final(out)@ == old(out)@ + rlp_uint(v as nat),
{
    v.encode(out)
}

/// `<u64 as alloy_rlp::Encodable>::encode`: appends the number as an item.
#[verifier::external_body]
pub(crate) fn encode_u64(v: u64, out: &mut Vec<u8>)
    ensures
        final(out)@ == old(out)@ + rlp_uint(v as nat),
{
    v.encode(out)
}

/// `<u128 as alloy_rlp::Encodable>::encode`: appends the number as an item.
#[verifier::external_body]
pub(crate) fn encode_u128(v: u128, out: &mut Vec<u8>)
    ensures
        final(out)@ == old(out)@ + rlp_uint(v as nat),
{
    v.encode(out)
}

/// `<[u8] as alloy_rlp::Encodable>::encode`: appends the string as an item.
#[verifier::external_body]
pub(crate) fn encode_string(s: &[u8], out: &mut Vec<u8>)
    ensures
        final(out)@ == old(out)@ + rlp_string(s@),
{
    s.encode(out)
}

/// `alloy_rlp::Header::encode` for a list: appends the header.
#[verifier::external_body]
pub(crate) fn encode_list_header(payload_length: usize, out: &mut Vec<u8>)
    ensures
        final(out)@ == old(out)@ + rlp_header(true, payload_length as nat),
{
    Header { list: true, payload_length }.encode(out)
}

/// `<u8 as alloy_rlp::Encodable>::length`: the length of the item.
#[verifier::external_body]
pub(crate) fn length_u8(v: u8) -> (r: usize)
    ensures
        r == rlp_uint(v as nat).len(),
{
    v.length()
}

/// `<u64 as alloy_rlp::Encodable>::length`: the length of the item.
#[verifier::external_body]
pub(crate) fn length_u64(v: u64) -> (r: usize)
    ensures
        r == rlp_uint(v as nat).len(),
{
    v.length()
}

/// `<u128 as alloy_rlp::Encodable>::length`: the length of the item.
#[verifier::external_body]
pub(crate) fn length_u128(v: u128) -> (r: usize)
    ensures
        r == rlp_uint(v as nat).len(),
{
    v.length()
}

/// `<[u8] as alloy_rlp::Encodable>::length`: the length of the item. The string leaves room
/// for its header.
#[verifier::external_body]
pub(crate) fn length_string(s: &[u8]) -> (r: usize)
    requires
        s@.len() + 9 <= usize::MAX,
    ensures
        r == rlp_string(s@).len(),
{
    s.length()
}

/// The shortest spelling is a spelling of the number, without a leading zero.
pub proof fn lemma_min_be(v: nat)
    ensures
        be_nat(min_be(v)) == v,
        min_be(v).len() > 0 ==> min_be(v)[0] != 0,
        v > 0 ==> min_be(v).len() > 0,
    decreases v,
{
    if v > 0 {
        let high = v / 256;
        lemma_min_be(high);
        let s = min_be(v);
        assert(s.drop_last() =~= min_be(high));
        if high > 0 {
            assert(s[0] == min_be(high)[0]);
        }
    }
}

/// A number below `256^k` is spelled in at most `k` bytes.
pub proof fn lemma_min_be_len(v: nat, k: nat)
    requires
        v < pow(256, k),
    ensures
        min_be(v).len() <= k,
    decreases k,
{
    reveal(pow);
    if v > 0 {
        let p = pow(256, (k - 1) as nat);
        assert(pow(256, k) == 256 * p);
        assert(v / 256 < p) by (nonlinear_arith)
            requires
                v < 256 * p,
        ;
        lemma_min_be_len(v / 256, (k - 1) as nat);
    }
}

/// A header is read back as what it was written for, provided that the length fits in the
/// eight bytes that a header has for it.
pub proof fn lemma_header_read_back(list: bool, len: nat, behind: Seq<u8>)
    requires
        len < 0x1_0000_0000_0000_0000,
        !list && len == 1 ==> behind.len() > 0 && behind[0] >= 0x80,
    ensures
        rlp_item_header(rlp_header(list, len) + behind) == Some(
            RlpItem { list, start: rlp_header(list, len).len(), len },
        ),
        1 <= rlp_header(list, len).len() <= 9,
{
    let buf = rlp_header(list, len) + behind;
    if len >= 56 {
        let digits = min_be(len);
        lemma_min_be(len);
        crate::bytes::lemma_pow256();
        lemma_min_be_len(len, 8);
        assert(buf.subrange(1, 1 + digits.len() as int) =~= digits);
        assert(buf[1] == digits[0]);
    }
}

/// A string is read back from its item, and what follows it is left.
pub proof fn lemma_string_read_back(s: Seq<u8>, behind: Seq<u8>)
    requires
        s.len() < 0x1_0000_0000_0000_0000,
    ensures
        take_item(rlp_string(s) + behind, false) == Some((s, behind)),
        s.len() <= rlp_string(s).len() <= s.len() + 9,
{
    let buf = rlp_string(s) + behind;
    if s.len() == 1 && s[0] < 0x80 {
        assert(buf.subrange(0, 1) =~= s);
        assert(buf.skip(1) =~= behind);
    } else {
        let h = rlp_header(false, s.len());
        assert(buf =~= h + (s + behind));
        lemma_header_read_back(false, s.len(), s + behind);
        assert(buf.subrange(h.len() as int, (h.len() + s.len()) as int) =~= s);
        assert(buf.skip((h.len() + s.len()) as int) =~= behind);
    }
}

/// A number is read back from its item, and what follows it is left.
pub proof fn lemma_uint_read_back(v: nat, width: nat, behind: Seq<u8>)
    requires
        v < pow(256, width),
        width < 0x1_0000_0000_0000_0000,
    ensures
        take_uint(rlp_uint(v) + behind, width) == Some((v, behind)),
        rlp_uint(v).len() <= width + 9,
{
    lemma_min_be(v);
    lemma_min_be_len(v, width);
    lemma_string_read_back(min_be(v), behind);
}

/// A list is read back from its item, and what follows it is left.
pub proof fn lemma_list_read_back(items: Seq<u8>, behind: Seq<u8>)
    requires
        items.len() < 0x1_0000_0000_0000_0000,
    ensures
        take_item(rlp_list(items) + behind, true) == Some((items, behind)),
{
    let h = rlp_header(true, items.len());
    let buf = rlp_list(items) + behind;
    assert(buf =~= h + (items + behind));
    lemma_header_read_back(true, items.len(), items + behind);
    assert(buf.subrange(h.len() as int, (h.len() + items.len()) as int) =~= items);
    assert(buf.skip((h.len() + items.len()) as int) =~= behind);
}

/// A spelling without a leading zero is the shortest.
pub proof fn lemma_min_be_of_nat(s: Seq<u8>)
    requires
        s.len() > 0 ==> s[0] != 0,
    ensures
        min_be(be_nat(s)) == s,
        s.len() > 0 ==> be_nat(s) > 0,
    decreases s.len(),
{
    if s.len() > 0 {
        let front = s.drop_last();
        if front.len() > 0 {
            assert(front[0] == s[0]);
        }
        lemma_min_be_of_nat(front);
        let v = be_nat(s);
        assert(v / 256 == be_nat(front) && v % 256 == s.last() as nat);
        assert(v > 0) by {
            if front.len() == 0 {
                assert(s.last() == s[0]);
            }
        }
        assert(min_be(v) =~= s);
    }
}

/// An item that is read is the one canonical spelling of its payload.
pub proof fn lemma_item_written_back(buf: Seq<u8>, list: bool)
    requires
        take_item(buf, list) is Some,
    ensures
        take_item(buf, list) matches Some((payload, rest)) && buf == (if list {
            rlp_list(payload)
        } else {
            rlp_string(payload)
        }) + rest,
{
    let item = rlp_item_header(buf)->0;
    let (payload, rest) = take_item(buf, list)->0;
    let start = item.start as int;
    let h = rlp_header(list, item.len);
    if buf[0] < 0x80 {
        assert(payload[0] == buf[0]);
        assert(buf =~= rlp_string(payload) + rest);
    } else {
        if 0xb8 <= buf[0] < 0xc0 || 0xf8 <= buf[0] {
            let digits = buf.subrange(1, start);
            assert(digits[0] == buf[1]);
            lemma_min_be_of_nat(digits);
            assert(buf.subrange(0, start) =~= h);
        } else {
            assert(buf.subrange(0, 1) =~= h);
        }
        if !list && payload.len() == 1 {
            assert(payload[0] == buf[1]);
        }
        assert(buf =~= buf.subrange(0, start) + payload + rest);
    }
}

/// A number that is read is spelled in its one canonical way.
pub proof fn lemma_uint_written_back(buf: Seq<u8>, width: nat)
    requires
        take_uint(buf, width) is Some,
    ensures
        take_uint(buf, width) matches Some((v, rest)) && buf == rlp_uint(v) + rest,
{
    lemma_item_written_back(buf, false);
    lemma_min_be_of_nat((take_item(buf, false)->0).0);
}

} // verus!
