//! Hexadecimal text: addresses, hashes, quantities and byte strings.
//!
//! Input is taken in either case. Output is in lower case and has a `0x` in front, except
//! where noted. Each byte is read as a number in radix 16, so a plus sign may stand in
//! place of its first digit.

use vstd::prelude::*;
use vstd::utf8::encode_utf8;

use crate::bytes::array_at;
use crate::text::{
    ascii_bytes, decimal, digit_char, digit_value, number_error_text, number_text, push_decimal,
    push_number, read_number, text2, text3, text_number, to_digit_char, to_digit_value,
    NumberError,
};

verus! {

/// Text from the command line is not the expected hexadecimal.
#[derive(Debug)]
pub struct HexParseError {
    message: String,
}

impl HexParseError {
    pub closed spec fn view(&self) -> Seq<char> {
        self.message@
    }

    /// What is wrong with the text.
    pub fn message(&self) -> (r: &String)
        ensures
            r@ == self@,
    {
        &self.message
    }
}

/// What follows `0x`.
pub open spec fn strip_0x(s: Seq<u8>) -> Option<Seq<u8>> {
    if s.len() >= 2 && s[0] == 48 && s[1] == 120 {
        Some(s.skip(2))
    } else {
        None
    }
}

/// The byte that two characters spell.
pub open spec fn hex_pair(a: u8, b: u8) -> Option<u8> {
    match digit_value(b, 16) {
        None => None,
        Some(low) => if a == 43 {
            Some(low as u8)
        } else {
            match digit_value(a, 16) {
                None => None,
                Some(high) => Some((high * 16 + low) as u8),
            }
        },
    }
}

/// Every two characters spell a byte.
pub open spec fn all_pairs(body: Seq<u8>) -> bool {
    forall|i: int|
        #![trigger hex_pair(body[2 * i], body[2 * i + 1])]
        0 <= i < body.len() / 2 ==> hex_pair(body[2 * i], body[2 * i + 1]) is Some
}

/// The bytes that the characters spell, two by two.
pub open spec fn pair_bytes(body: Seq<u8>) -> Seq<u8> {
    Seq::new(body.len() / 2, |i: int| hex_pair(body[2 * i], body[2 * i + 1]).unwrap())
}

/// Two digits for each byte.
pub open spec fn hex_digits(bytes: Seq<u8>) -> Seq<char> {
    Seq::new(
        bytes.len() * 2,
        |i: int|
            if i % 2 == 0 {
                digit_char(bytes[i / 2] as int / 16)
            } else {
                digit_char(bytes[i / 2] as int % 16)
            },
    )
}

/// `0x` and two digits for each byte.
pub open spec fn hex_text(bytes: Seq<u8>) -> Seq<char> {
    seq!['0', 'x'] + hex_digits(bytes)
}

/// What is said of a byte that two characters do not spell.
pub open spec fn invalid_byte_text() -> Seq<char> {
    "invalid hex byte: "@ + number_error_text(NumberError::InvalidDigit)
}

/// What `parse_hex` makes of a text.
pub open spec fn hex_reading(s: Seq<char>) -> Result<Seq<u8>, Seq<char>> {
    match strip_0x(encode_utf8(s)) {
        None => Err("must be 0x-prefixed hex, got "@ + s),
        Some(body) => if body.len() % 2 != 0 {
            Err("hex string must have an even number of characters"@)
        } else if !all_pairs(body) {
            Err(invalid_byte_text())
        } else {
            Ok(pair_bytes(body))
        },
    }
}

/// What is said of a byte string of the wrong length.
pub open spec fn wrong_length_text(what: Seq<char>, expected: nat, got: nat) -> Seq<char> {
    what + " must be "@ + decimal(expected) + " bytes ("@ + decimal(expected * 2)
        + " hex chars), got "@ + decimal(got * 2) + " chars"@
}

/// What `parse_address` and `parse_tx_hash` make of a text.
pub open spec fn fixed_reading(s: Seq<char>, what: Seq<char>, n: nat) -> Result<
    Seq<u8>,
    Seq<char>,
> {
    match hex_reading(s) {
        Err(e) => Err(e),
        Ok(bytes) => if bytes.len() != n {
            Err(wrong_length_text(what, n, bytes.len()))
        } else {
            Ok(bytes)
        },
    }
}

/// What a node's text says where `0x` is missing.
pub open spec fn missing_prefix_text(s: Seq<char>) -> Seq<char> {
    "expected 0x-prefixed hex, got "@ + s
}

/// What a node's quantity of up to `max` amounts to.
pub open spec fn quantity_reading(s: Seq<char>, max: nat, kind: Seq<char>) -> Result<
    nat,
    Seq<char>,
> {
    match strip_0x(encode_utf8(s)) {
        None => Err(missing_prefix_text(s)),
        Some(body) => match text_number(body, 16, max) {
            Ok(v) => Ok(v),
            Err(e) => Err(kind + s + ": "@ + number_error_text(e)),
        },
    }
}

/// What a node's 32-byte value amounts to.
pub open spec fn bytes32_reading(s: Seq<char>) -> Result<Seq<u8>, Seq<char>> {
    match strip_0x(encode_utf8(s)) {
        None => Err(missing_prefix_text(s)),
        Some(body) => if body.len() != 64 {
            Err("expected 32 bytes (64 hex chars), got "@ + decimal(body.len()) + " chars"@)
        } else if !all_pairs(body) {
            Err(invalid_byte_text())
        } else {
            Ok(pair_bytes(body))
        },
    }
}

/// What a node's byte string amounts to.
pub open spec fn data_reading(s: Seq<char>) -> Result<Seq<u8>, Seq<char>> {
    match strip_0x(encode_utf8(s)) {
        None => Err(missing_prefix_text(s)),
        Some(body) => if body.len() % 2 != 0 {
            Err("expected even number of hex chars, got "@ + decimal(body.len()) + " chars"@)
        } else if !all_pairs(body) {
            Err(invalid_byte_text())
        } else {
            Ok(pair_bytes(body))
        },
    }
}

/// What an address that was typed or pasted amounts to.
pub open spec fn address_reading(s: Seq<char>) -> Option<Seq<u8>> {
    match strip_0x(encode_utf8(s)) {
        None => None,
        Some(body) => if body.len() == 40 && all_pairs(body) {
            Some(pair_bytes(body))
        } else {
            None
        },
    }
}

/// What follows `0x` in the bytes of a text.
fn stripped<'a>(s: &'a str) -> (r: Option<&'a [u8]>)
    ensures
        match r {
            Some(body) => strip_0x(encode_utf8(s@)) == Some(body@),
            None => strip_0x(encode_utf8(s@)) is None,
        },
{
    let b = s.as_bytes();
    if b.len() >= 2 && b[0] == 48 && b[1] == 120 {
        let body = vstd::slice::slice_subrange(b, 2, b.len());
        assert(body@ =~= b@.skip(2));
        Some(body)
    } else {
        None
    }
}

/// Reads the bytes that the characters spell, two by two.
fn read_pairs(body: &[u8]) -> (r: Option<Vec<u8>>)
    requires
        body@.len() % 2 == 0,
    ensures
        match r {
            Some(bytes) => all_pairs(body@) && bytes@ == pair_bytes(body@),
            None => !all_pairs(body@),
        },
{
    let n: usize = body.len() / 2;
    let mut out: Vec<u8> = Vec::new();
    let mut i: usize = 0;
    while i < n
        invariant
            i <= n,
            n == body@.len() / 2,
            body@.len() % 2 == 0,
            body.len() == body@.len(),
            out@.len() == i,
            forall|j: int|
                #![trigger hex_pair(body@[2 * j], body@[2 * j + 1])]
                0 <= j < i ==> hex_pair(body@[2 * j], body@[2 * j + 1]) == Some(out@[j]),
        decreases n - i,
    {
        let a: u8 = body[2 * i];
        let b: u8 = body[2 * i + 1];
        assert(hex_pair(body@[2 * i], body@[2 * i + 1]) == hex_pair(a, b));
        let low: u8 = match to_digit_value(b, 16) {
            Some(d) => d,
            None => return None,
        };
        let byte: u8 = if a == 43 {
            low
        } else {
            match to_digit_value(a, 16) {
                Some(high) => high * 16 + low,
                None => return None,
            }
        };
        out.push(byte);
        i = i + 1;
    }
    proof {
        assert forall|j: int|
            #![trigger hex_pair(body@[2 * j], body@[2 * j + 1])]
            0 <= j < body@.len() / 2 implies hex_pair(body@[2 * j], body@[2 * j + 1]) is Some by {
        }
        assert(out@ =~= pair_bytes(body@));
    }
    Some(out)
}

/// Reads `0x`-prefixed hexadecimal of any length.
pub fn parse_hex(s: &str) -> (r: Result<Vec<u8>, HexParseError>)
    ensures
        match r {
            Ok(bytes) => hex_reading(s@) == Ok::<_, Seq<char>>(bytes@),
            Err(e) => hex_reading(s@) == Err::<Seq<u8>, _>(e@),
        },
{
    let body = match stripped(s) {
        Some(body) => body,
        None => return Err(HexParseError { message: text2("must be 0x-prefixed hex, got ", s) }),
    };
    if body.len() % 2 != 0 {
        return Err(
            HexParseError {
                message: "hex string must have an even number of characters".to_owned(),
            },
        );
    }
    match read_pairs(body) {
        Some(bytes) => Ok(bytes),
        None => Err(
            HexParseError {
                message: text2("invalid hex byte: ", NumberError::InvalidDigit.text()),
            },
        ),
    }
}

fn parse_fixed<const N: usize>(s: &str, what: &str) -> (r: Result<[u8; N], HexParseError>)
    requires
        N <= 64,
    ensures
        match r {
            Ok(bytes) => fixed_reading(s@, what@, N as nat) == Ok::<_, Seq<char>>(bytes@),
            Err(e) => fixed_reading(s@, what@, N as nat) == Err::<Seq<u8>, _>(e@),
        },
{
    let parsed = match parse_hex(s) {
        Ok(bytes) => bytes,
        Err(e) => return Err(e),
    };
    if parsed.len() != N {
        let mut message = text2(what, " must be ");
        push_decimal(&mut message, N as u128);
        message.append(" bytes (");
        push_decimal(&mut message, (N * 2) as u128);
        message.append(" hex chars), got ");
        push_decimal(&mut message, parsed.len() as u128 * 2);
        message.append(" chars");
        return Err(HexParseError { message });
    }
    let out: [u8; N] = array_at::<N>(parsed.as_slice(), 0);
    assert(out@ =~= parsed@);
    Ok(out)
}

/// Reads a `0x`-prefixed address of 20 bytes. A checksum in the case of its letters is not
/// looked at.
pub fn parse_address(s: &str) -> (r: Result<[u8; 20], HexParseError>)
    ensures
        match r {
            Ok(bytes) => fixed_reading(s@, "address"@, 20) == Ok::<_, Seq<char>>(bytes@),
            Err(e) => fixed_reading(s@, "address"@, 20) == Err::<Seq<u8>, _>(e@),
        },
{
    parse_fixed::<20>(s, "address")
}

/// Reads a `0x`-prefixed transaction hash of 32 bytes.
pub fn parse_tx_hash(s: &str) -> (r: Result<[u8; 32], HexParseError>)
    ensures
        match r {
            Ok(bytes) => fixed_reading(s@, "transaction hash"@, 32) == Ok::<_, Seq<char>>(bytes@),
            Err(e) => fixed_reading(s@, "transaction hash"@, 32) == Err::<Seq<u8>, _>(e@),
        },
{
    parse_fixed::<32>(s, "transaction hash")
}

/// Appends two digits for each byte.
fn push_hex_digits(out: &mut String, bytes: &[u8])
    ensures
        final(out)@ == old(out)@ + hex_digits(bytes@),
{
    let ghost start = out@;
    let mut i: usize = 0;
    assert(hex_digits(bytes@).take(0) =~= Seq::<char>::empty());
    assert(start + Seq::<char>::empty() =~= start);
    while i < bytes.len()
        invariant
            i <= bytes@.len(),
            out@ == start + hex_digits(bytes@).take(2 * i),
        decreases bytes.len() - i,
    {
        let b: u8 = bytes[i];
        let ghost before = out@;
        out.push(to_digit_char(b / 16));
        out.push(to_digit_char(b % 16));
        proof {
            let all = hex_digits(bytes@);
            assert(all[2 * i] == digit_char(b as int / 16));
            assert(all[2 * i + 1] == digit_char(b as int % 16));
            assert(all.take(2 * (i + 1)) =~= all.take(2 * i).push(all[2 * i]).push(all[2 * i + 1]));
            assert(out@ =~= start + all.take(2 * (i + 1)));
        }
        i = i + 1;
    }
    assert(hex_digits(bytes@).take(2 * i) =~= hex_digits(bytes@));
}

/// Two lower-case digits for each byte, with nothing in front.
pub fn hex_encode(bytes: &[u8]) -> (r: String)
    ensures
        r@ == hex_digits(bytes@),
{
    let mut out = String::new();
    push_hex_digits(&mut out, bytes);
    assert(out@ =~= hex_digits(bytes@));
    out
}

/// `0x` and two lower-case digits for each byte.
pub fn to_hex(bytes: &[u8]) -> (r: String)
    ensures
        r@ == hex_text(bytes@),
{
    let mut out = String::new();
    out.push('0');
    out.push('x');
    push_hex_digits(&mut out, bytes);
    assert(out@ =~= hex_text(bytes@));
    out
}

pub fn to_hex_address(address: &[u8; 20]) -> (r: String)
    ensures
        r@ == hex_text(address@),
{
    to_hex(address)
}

/// `0x` and the digits of the number, without leading zeros.
pub fn to_hex_u128(value: u128) -> (r: String)
    ensures
        r@ == seq!['0', 'x'] + number_text(value as nat, 16),
{
    let mut out = String::new();
    out.push('0');
    out.push('x');
    push_number(&mut out, value, 16);
    assert(out@ =~= seq!['0', 'x'] + number_text(value as nat, 16));
    out
}

fn missing_prefix(s: &str) -> (r: String)
    ensures
        r@ == missing_prefix_text(s@),
{
    text2("expected 0x-prefixed hex, got ", s)
}

/// Reads a node's quantity of up to `max`.
fn parse_quantity(s: &str, max: u128, kind: &str) -> (r: Result<u128, String>)
    ensures
        match r {
            Ok(v) => quantity_reading(s@, max as nat, kind@) == Ok::<_, Seq<char>>(v as nat),
            Err(e) => quantity_reading(s@, max as nat, kind@) == Err::<nat, _>(e@),
        },
{
    let body = match stripped(s) {
        Some(body) => body,
        None => return Err(missing_prefix(s)),
    };
    match read_number(body, 16, max) {
        Ok(v) => Ok(v),
        Err(e) => {
            let mut message = text3(kind, s, ": ");
            message.append(e.text());
            Err(message)
        },
    }
}

/// Reads a node's quantity of up to 64 bits.
pub fn parse_hex_u64(hex: &str) -> (r: Result<u64, String>)
    ensures
        match r {
            Ok(v) => quantity_reading(hex@, u64::MAX as nat, "invalid hex u64 "@) == Ok::<
                _,
                Seq<char>,
            >(v as nat),
            Err(e) => quantity_reading(hex@, u64::MAX as nat, "invalid hex u64 "@) == Err::<
                nat,
                _,
            >(e@),
        },
{
    match parse_quantity(hex, u64::MAX as u128, "invalid hex u64 ") {
        Ok(v) => {
            proof {
                if let Some(body) = strip_0x(encode_utf8(hex@)) {
                    lemma_number_within(body, 16, u64::MAX as nat);
                }
            }
            Ok(v as u64)
        },
        Err(e) => Err(e),
    }
}

/// A number that was read is within its limit.
proof fn lemma_number_within(s: Seq<u8>, radix: nat, max: nat)
    ensures
        text_number(s, radix, max) matches Ok(v) ==> v <= max,
{
    reveal_with_fuel(crate::text::digits_number, 2);
}

/// Reads a node's quantity of up to 128 bits.
pub fn parse_hex_u128(hex: &str) -> (r: Result<u128, String>)
    ensures
        match r {
            Ok(v) => quantity_reading(hex@, u128::MAX as nat, "invalid hex u128 "@) == Ok::<
                _,
                Seq<char>,
            >(v as nat),
            Err(e) => quantity_reading(hex@, u128::MAX as nat, "invalid hex u128 "@) == Err::<
                nat,
                _,
            >(e@),
        },
{
    parse_quantity(hex, u128::MAX, "invalid hex u128 ")
}

/// Reads a node's 32-byte value.
pub fn parse_hex_bytes32(hex: &str) -> (r: Result<[u8; 32], String>)
    ensures
        match r {
            Ok(bytes) => bytes32_reading(hex@) == Ok::<_, Seq<char>>(bytes@),
            Err(e) => bytes32_reading(hex@) == Err::<Seq<u8>, _>(e@),
        },
{
    let body = match stripped(hex) {
        Some(body) => body,
        None => return Err(missing_prefix(hex)),
    };
    if body.len() != 64 {
        let mut message = "expected 32 bytes (64 hex chars), got ".to_owned();
        push_decimal(&mut message, body.len() as u128);
        message.append(" chars");
        return Err(message);
    }
    match read_pairs(body) {
        Some(bytes) => {
            let out: [u8; 32] = array_at::<32>(bytes.as_slice(), 0);
            assert(out@ =~= bytes@);
            Ok(out)
        },
        None => Err(text2("invalid hex byte: ", NumberError::InvalidDigit.text())),
    }
}

/// Reads a node's byte string.
pub fn parse_hex_bytes(hex: &str) -> (r: Result<Vec<u8>, String>)
    ensures
        match r {
            Ok(bytes) => data_reading(hex@) == Ok::<_, Seq<char>>(bytes@),
            Err(e) => data_reading(hex@) == Err::<Seq<u8>, _>(e@),
        },
{
    let body = match stripped(hex) {
        Some(body) => body,
        None => return Err(missing_prefix(hex)),
    };
    if body.len() % 2 != 0 {
        let mut message = "expected even number of hex chars, got ".to_owned();
        push_decimal(&mut message, body.len() as u128);
        message.append(" chars");
        return Err(message);
    }
    match read_pairs(body) {
        Some(bytes) => Ok(bytes),
        None => Err(text2("invalid hex byte: ", NumberError::InvalidDigit.text())),
    }
}

/// Reads an address that was typed or pasted. A checksum in the case of its letters is not
/// looked at.
pub fn parse_address_hex(s: &str) -> (r: Option<[u8; 20]>)
    ensures
        match r {
            Some(bytes) => address_reading(s@) == Some(bytes@),
            None => address_reading(s@) is None,
        },
{
    let body = match stripped(s) {
        Some(body) => body,
        None => return None,
    };
    if body.len() != 40 {
        return None;
    }
    match read_pairs(body) {
        Some(bytes) => {
            let out: [u8; 20] = array_at::<20>(bytes.as_slice(), 0);
            assert(out@ =~= bytes@);
            Some(out)
        },
        None => None,
    }
}

/// The bytes of ASCII text are its characters.
pub proof fn lemma_ascii_encoding(s: Seq<char>)
    requires
        vstd::utf8::is_ascii_chars(s),
    ensures
        encode_utf8(s) == ascii_bytes(s),
{
    vstd::utf8::is_ascii_chars_encode_utf8(s);
    assert(encode_utf8(s) =~= ascii_bytes(s));
}

/// Text that spells bytes with digits of either case behind `0x` reads back as those bytes.
pub proof fn lemma_pairs_read_back(bytes: Seq<u8>, s: Seq<char>)
    requires
        s.len() == 2 + 2 * bytes.len(),
        s[0] == '0',
        s[1] == 'x',
        vstd::utf8::is_ascii_chars(s),
        forall|i: int|
            #![trigger bytes[i]]
            0 <= i < bytes.len() ==> {
                &&& digit_value(s[2 + 2 * i] as u8, 16) == Some(bytes[i] as nat / 16)
                &&& digit_value(s[3 + 2 * i] as u8, 16) == Some(bytes[i] as nat % 16)
            },
    ensures
        strip_0x(encode_utf8(s)) matches Some(body) && body.len() == 2 * bytes.len() && all_pairs(
            body,
        ) && pair_bytes(body) == bytes,
{
    lemma_ascii_encoding(s);
    let body = ascii_bytes(s).skip(2);
    assert forall|i: int|
        #![trigger hex_pair(body[2 * i], body[2 * i + 1])]
        0 <= i < body.len() / 2 implies hex_pair(body[2 * i], body[2 * i + 1]) == Some(bytes[i]) by {
        assert(body[2 * i] == s[2 + 2 * i] as u8);
        assert(body[2 * i + 1] == s[3 + 2 * i] as u8);
        assert(bytes[i] as nat / 16 < 16);
    }
    assert(pair_bytes(body) =~= bytes);
}

/// The hexadecimal text of a byte string reads back as that byte string, by every way of
/// reading one.
pub proof fn law_hex_text_reads_back(bytes: Seq<u8>)
    ensures
        hex_reading(hex_text(bytes)) == Ok::<_, Seq<char>>(bytes),
        data_reading(hex_text(bytes)) == Ok::<_, Seq<char>>(bytes),
        bytes.len() == 32 ==> bytes32_reading(hex_text(bytes)) == Ok::<_, Seq<char>>(bytes),
        bytes.len() == 32 ==> fixed_reading(hex_text(bytes), "transaction hash"@, 32) == Ok::<
            _,
            Seq<char>,
        >(bytes),
        bytes.len() == 20 ==> fixed_reading(hex_text(bytes), "address"@, 20) == Ok::<
            _,
            Seq<char>,
        >(bytes),
        bytes.len() == 20 ==> address_reading(hex_text(bytes)) == Some(bytes),
{
    let s = hex_text(bytes);
    assert forall|i: int| 0 <= i < s.len() implies '\0' <= #[trigger] s[i] <= '\u{7f}' by {
        if i >= 2 {
            let k = i - 2;
            assert(s[i] == hex_digits(bytes)[k]);
            assert(0 <= bytes[k / 2] as int / 16 < 16);
        }
    }
    assert forall|i: int| #![trigger bytes[i]] 0 <= i < bytes.len() implies {
        &&& digit_value(s[2 + 2 * i] as u8, 16) == Some(bytes[i] as nat / 16)
        &&& digit_value(s[3 + 2 * i] as u8, 16) == Some(bytes[i] as nat % 16)
    } by {
        assert(s[2 + 2 * i] == hex_digits(bytes)[2 * i]);
        assert(s[3 + 2 * i] == hex_digits(bytes)[2 * i + 1]);
        assert(0 <= bytes[i] as int / 16 < 16);
    }
    lemma_pairs_read_back(bytes, s);
}

/// The hexadecimal text of a number reads back as that number.
pub proof fn law_hex_number_reads_back(value: nat)
    requires
        value <= u128::MAX,
    ensures
        quantity_reading(
            seq!['0', 'x'] + number_text(value, 16),
            u128::MAX as nat,
            "invalid hex u128 "@,
        ) == Ok::<_, Seq<char>>(value),
{
    let t = number_text(value, 16);
    let s = seq!['0', 'x'] + t;
    crate::text::law_number_text_reads_back(value, 16, u128::MAX as nat);
    assert forall|i: int| 0 <= i < s.len() implies '\0' <= #[trigger] s[i] <= '\u{7f}' by {
        if i >= 2 {
            assert(s[i] == t[i - 2]);
        }
    }
    lemma_ascii_encoding(s);
    assert(ascii_bytes(s).skip(2) =~= ascii_bytes(t));
}

/// The hexadecimal text of bytes is `0x` and two lower-case digits for each byte, the high one
/// first.
pub proof fn law_hex_text_by_digits(bytes: Seq<u8>, i: int)
    requires
        0 <= i < bytes.len(),
    ensures
        hex_text(bytes).len() == 2 + 2 * bytes.len(),
        hex_text(bytes)[0] == '0',
        hex_text(bytes)[1] == 'x',
        hex_text(bytes)[2 + 2 * i] == "0123456789abcdef"@[bytes[i] as int / 16],
        hex_text(bytes)[3 + 2 * i] == "0123456789abcdef"@[bytes[i] as int % 16],
{
    reveal_strlit("0123456789abcdef");
    assert(hex_text(bytes)[2 + 2 * i] == hex_digits(bytes)[2 * i]);
    assert(hex_text(bytes)[3 + 2 * i] == hex_digits(bytes)[2 * i + 1]);
}

/// A quantity of a node is what its digits behind `0x` spell in radix 16, and nothing else is
/// one.
pub proof fn law_quantities(s: Seq<char>, max: nat, kind: Seq<char>, v: nat)
    ensures
        quantity_reading(s, max, kind) == Ok::<_, Seq<char>>(v) <==> {
            let b = encode_utf8(s);
            b.len() >= 2 && b[0] == 48 && b[1] == 120 && text_number(b.skip(2), 16, max) == Ok::<
                _,
                NumberError,
            >(v)
        },
{
}

/// A text that is read as bytes begins with `0x`, has two characters for each byte, and is read
/// alike by every way of reading; addresses have 20 bytes and hashes 32.
pub proof fn law_byte_texts_are_read_alike(s: Seq<char>, bytes: Seq<u8>)
    ensures
        hex_reading(s) == Ok::<_, Seq<char>>(bytes) <==> data_reading(s) == Ok::<_, Seq<char>>(
            bytes,
        ),
        bytes32_reading(s) == Ok::<_, Seq<char>>(bytes) <==> hex_reading(s) == Ok::<_, Seq<char>>(
            bytes,
        ) && bytes.len() == 32,
        address_reading(s) == Some(bytes) <==> hex_reading(s) == Ok::<_, Seq<char>>(bytes)
            && bytes.len() == 20,
        hex_reading(s) == Ok::<_, Seq<char>>(bytes) ==> {
            let b = encode_utf8(s);
            &&& b.len() == 2 + 2 * bytes.len()
            &&& b[0] == 48 && b[1] == 120
        },
{
}

/// Two characters spell 16 times the first digit and the second one; a plus sign in the first
/// place counts as nothing.
pub proof fn law_pairs_of_digits(a: u8, b: u8, high: nat, low: nat)
    requires
        digit_value(b, 16) == Some(low),
    ensures
        digit_value(a, 16) == Some(high) ==> hex_pair(a, b) == Some((16 * high + low) as u8) && 16
            * high + low < 256,
        a == 43 ==> hex_pair(a, b) == Some(low as u8),
        a != 43 && digit_value(a, 16) is None ==> hex_pair(a, b) is None,
{
}

/// A text is read as bytes exactly if it begins with `0x`, and then every two characters spell
/// the byte in their place.
pub proof fn law_texts_read_as_bytes(s: Seq<char>, bytes: Seq<u8>)
    ensures
        hex_reading(s) == Ok::<_, Seq<char>>(bytes) <==> {
            let b = encode_utf8(s);
            &&& b.len() == 2 + 2 * bytes.len()
            &&& b[0] == 48 && b[1] == 120
            &&& forall|i: int|
                #![trigger bytes[i]]
                0 <= i < bytes.len() ==> hex_pair(b[2 + 2 * i], b[3 + 2 * i]) == Some(bytes[i])
        },
{
    let b = encode_utf8(s);
    if b.len() >= 2 && b[0] == 48 && b[1] == 120 {
        let body = b.skip(2);
        if hex_reading(s) == Ok::<_, Seq<char>>(bytes) {
            assert forall|i: int| #![trigger bytes[i]] 0 <= i < bytes.len() implies hex_pair(
                b[2 + 2 * i],
                b[3 + 2 * i],
            ) == Some(bytes[i]) by {
                assert(body[2 * i] == b[2 + 2 * i] && body[2 * i + 1] == b[3 + 2 * i]);
                assert(hex_pair(body[2 * i], body[2 * i + 1]) is Some);
            }
        }
        if b.len() == 2 + 2 * bytes.len() && forall|i: int|
            #![trigger bytes[i]]
            0 <= i < bytes.len() ==> hex_pair(b[2 + 2 * i], b[3 + 2 * i]) == Some(bytes[i]) {
            assert forall|i: int|
                #![trigger hex_pair(body[2 * i], body[2 * i + 1])]
                0 <= i < body.len() / 2 implies hex_pair(body[2 * i], body[2 * i + 1]) == Some(
                bytes[i],
            ) by {
                assert(body[2 * i] == b[2 + 2 * i] && body[2 * i + 1] == b[3 + 2 * i]);
                assert(hex_pair(b[2 + 2 * i], b[3 + 2 * i]) == Some(bytes[i]));
            }
            assert(all_pairs(body));
            assert(pair_bytes(body) =~= bytes);
        }
    }
}

/// Addresses and hashes that were typed in are taken exactly at their length, and the message
/// on another length says both.
pub proof fn law_lengths_are_checked(s: Seq<char>, what: Seq<char>, n: nat, bytes: Seq<u8>)
    requires
        hex_reading(s) == Ok::<_, Seq<char>>(bytes),
    ensures
        bytes.len() == n ==> fixed_reading(s, what, n) == Ok::<_, Seq<char>>(bytes),
        bytes.len() != n ==> fixed_reading(s, what, n) == Err::<Seq<u8>, _>(
            what + " must be "@ + number_text(n, 10) + " bytes ("@ + number_text(n * 2, 10)
                + " hex chars), got "@ + number_text(bytes.len() * 2, 10) + " chars"@,
        ),
{
}

/// What does not begin with `0x` is refused in the words of its reader.
pub proof fn law_missing_prefixes(s: Seq<char>, max: nat, kind: Seq<char>, what: Seq<char>, n: nat)
    requires
        ({
            let b = encode_utf8(s);
            !(b.len() >= 2 && b[0] == 48 && b[1] == 120)
        }),
    ensures
        hex_reading(s) == Err::<Seq<u8>, _>("must be 0x-prefixed hex, got "@ + s),
        fixed_reading(s, what, n) == Err::<Seq<u8>, _>("must be 0x-prefixed hex, got "@ + s),
        quantity_reading(s, max, kind) == Err::<nat, _>("expected 0x-prefixed hex, got "@ + s),
        bytes32_reading(s) == Err::<Seq<u8>, _>("expected 0x-prefixed hex, got "@ + s),
        data_reading(s) == Err::<Seq<u8>, _>("expected 0x-prefixed hex, got "@ + s),
        address_reading(s) is None,
{
}

/// Behind `0x`, a wrong number of characters is refused before a character that is no digit,
/// each in its words.
pub proof fn law_bad_digits(s: Seq<char>)
    requires
        ({
            let b = encode_utf8(s);
            b.len() >= 2 && b[0] == 48 && b[1] == 120
        }),
    ensures
        ({
            let n = (encode_utf8(s).len() - 2) as nat;
            let bad = "invalid hex byte: "@ + "invalid digit found in string"@;
            &&& n % 2 == 1 ==> hex_reading(s) == Err::<Seq<u8>, _>(
                "hex string must have an even number of characters"@,
            )
            &&& n % 2 == 0 && hex_reading(s) is Err ==> hex_reading(s) == Err::<Seq<u8>, _>(bad)
            &&& n % 2 == 1 ==> data_reading(s) == Err::<Seq<u8>, _>(
                "expected even number of hex chars, got "@ + number_text(n, 10) + " chars"@,
            )
            &&& n % 2 == 0 && data_reading(s) is Err ==> data_reading(s) == Err::<Seq<u8>, _>(bad)
            &&& n != 64 ==> bytes32_reading(s) == Err::<Seq<u8>, _>(
                "expected 32 bytes (64 hex chars), got "@ + number_text(n, 10) + " chars"@,
            )
            &&& n == 64 && bytes32_reading(s) is Err ==> bytes32_reading(s) == Err::<Seq<u8>, _>(
                bad,
            )
        }),
{
}

/// A quantity that is no number is refused with the text and the reason.
pub proof fn law_bad_quantities(s: Seq<char>, max: nat, kind: Seq<char>, e: NumberError)
    requires
        ({
            let b = encode_utf8(s);
            &&& b.len() >= 2 && b[0] == 48 && b[1] == 120
            &&& text_number(b.skip(2), 16, max) == Err::<nat, _>(e)
        }),
    ensures
        quantity_reading(s, max, kind) == Err::<nat, _>(kind + s + ": "@ + number_error_text(e)),
{
}

} // verus!
