//! Building and reading of text: decimal and hexadecimal numbers, and messages.

use vstd::prelude::*;

verus! {

/// `String::push`: appends the character.
pub assume_specification[ String::push ](s: &mut String, c: char)
    ensures
        final(s)@ == old(s)@.push(c),
;

/// The character of a digit below 16, in lower case.
pub open spec fn digit_char(d: int) -> char {
    if d < 10 {
        (48 + d) as char
    } else {
        (87 + d) as char
    }
}

/// The digit that a byte of ASCII text stands for in a radix of up to 16. Upper and lower
/// case mean the same.
pub open spec fn digit_value(b: u8, radix: nat) -> Option<nat> {
    let d = if 48 <= b <= 57 {
        (b - 48) as nat
    } else if 97 <= b <= 102 {
        (b - 87) as nat
    } else if 65 <= b <= 70 {
        (b - 55) as nat
    } else {
        16
    };
    if d < radix {
        Some(d)
    } else {
        None
    }
}

/// The digits of a number in a radix, without leading zeros.
pub open spec fn number_text(n: nat, radix: nat) -> Seq<char>
    decreases n,
{
    if n < radix || radix < 2 {
        seq![digit_char(n as int)]
    } else {
        proof {
            assert(n / radix < n) by (nonlinear_arith)
                requires
                    2 <= radix <= n,
            ;
        }
        number_text(n / radix, radix).push(digit_char((n % radix) as int))
    }
}

/// The decimal text of a number.
pub open spec fn decimal(n: nat) -> Seq<char> {
    number_text(n, 10)
}

/// Why text is not a number.
#[derive(Debug, Clone, Copy, PartialEq, Eq, Structural)]
pub enum NumberError {
    /// There is no text.
    Empty,
    /// There is something other than a digit.
    InvalidDigit,
    /// The number is above the limit.
    TooLarge,
}

/// The number that a string of digits spells, read from the left: the first digit that is
/// none, or that takes the number above `max`, ends the reading.
pub open spec fn digits_number(s: Seq<u8>, radix: nat, max: nat) -> Result<nat, NumberError>
    decreases s.len(),
{
    if s.len() == 0 {
        Ok(0)
    } else {
        match digits_number(s.drop_last(), radix, max) {
            Err(e) => Err(e),
            Ok(v) => match digit_value(s.last(), radix) {
                None => Err(NumberError::InvalidDigit),
                Some(d) => if v * radix + d > max {
                    Err(NumberError::TooLarge)
                } else {
                    Ok(v * radix + d)
                },
            },
        }
    }
}

/// The number that a text spells: digits, with an optional plus sign in front.
pub open spec fn text_number(s: Seq<u8>, radix: nat, max: nat) -> Result<nat, NumberError> {
    if s.len() == 0 {
        Err(NumberError::Empty)
    } else if s.len() > 1 && s[0] == 43 {
        digits_number(s.drop_first(), radix, max)
    } else {
        digits_number(s, radix, max)
    }
}

/// What a number error says.
pub open spec fn number_error_text(e: NumberError) -> Seq<char> {
    match e {
        NumberError::Empty => "cannot parse integer from empty string"@,
        NumberError::InvalidDigit => "invalid digit found in string"@,
        NumberError::TooLarge => "number too large to fit in target type"@,
    }
}

impl NumberError {
    pub fn text(&self) -> (r: &'static str)
        ensures
            r@ == number_error_text(*self),
    {
        match self {
            NumberError::Empty => "cannot parse integer from empty string",
            NumberError::InvalidDigit => "invalid digit found in string",
            NumberError::TooLarge => "number too large to fit in target type",
        }
    }
}

/// The character of a digit.
pub fn to_digit_char(d: u8) -> (r: char)
    requires
        d < 16,
    ensures
        r == digit_char(d as int),
{
    if d < 10 {
        (48 + d) as char
    } else {
        (87 + d) as char
    }
}

/// The digit that a byte stands for.
pub fn to_digit_value(b: u8, radix: u8) -> (r: Option<u8>)
    requires
        radix <= 16,
    ensures
        match r {
            Some(d) => digit_value(b, radix as nat) == Some(d as nat) && d < radix,
            None => digit_value(b, radix as nat) is None,
        },
{
    let d: u8 = if 48 <= b && b <= 57 {
        b - 48
    } else if 97 <= b && b <= 102 {
        b - 87
    } else if 65 <= b && b <= 70 {
        b - 55
    } else {
        16
    };
    if d < radix {
        Some(d)
    } else {
        None
    }
}

/// Appends the digits of a number.
pub fn push_number(out: &mut String, n: u128, radix: u128)
    requires
        2 <= radix <= 16,
    ensures
        final(out)@ == old(out)@ + number_text(n as nat, radix as nat),
    decreases n,
{
    if n < radix {
        out.push(to_digit_char(n as u8));
        assert(out@ =~= old(out)@ + number_text(n as nat, radix as nat));
    } else {
        proof {
            assert(n / radix < n) by (nonlinear_arith)
                requires
                    2 <= radix <= n,
            ;
            assert(0 <= n % radix < radix) by (nonlinear_arith)
                requires
                    2 <= radix,
            ;
        }
        push_number(out, n / radix, radix);
        let low: u8 = (n % radix) as u8;
        out.push(to_digit_char(low));
        assert(out@ =~= old(out)@ + number_text(n as nat, radix as nat));
    }
}

/// Appends the decimal text of a number.
pub fn push_decimal(out: &mut String, n: u128)
    ensures
        final(out)@ == old(out)@ + decimal(n as nat),
{
    push_number(out, n, 10);
}

/// The decimal text of a number.
pub fn decimal_text(n: u128) -> (r: String)
    ensures
        r@ == decimal(n as nat),
{
    let mut out = String::new();
    push_number(&mut out, n, 10);
    assert(out@ =~= decimal(n as nat));
    out
}

/// Reads a string of digits.
fn read_digits(s: &[u8], from: usize, radix: u8, max: u128) -> (r: Result<u128, NumberError>)
    requires
        2 <= radix <= 16,
        from <= s@.len(),
    ensures
        match r {
            Ok(v) => digits_number(s@.skip(from as int), radix as nat, max as nat) == Ok::<
                _,
                NumberError,
            >(v as nat),
            Err(e) => digits_number(s@.skip(from as int), radix as nat, max as nat) == Err::<
                nat,
                _,
            >(e),
        },
{
    let ghost t = s@.skip(from as int);
    let mut v: u128 = 0;
    let mut i: usize = from;
    while i < s.len()
        invariant
            from <= i <= s@.len(),
            t == s@.skip(from as int),
            2 <= radix <= 16,
            v <= max,
            digits_number(t.take(i - from), radix as nat, max as nat) == Ok::<_, NumberError>(
                v as nat,
            ),
        decreases s.len() - i,
    {
        proof {
            let head = t.take(i - from + 1);
            assert(head.drop_last() =~= t.take(i - from));
            assert(head.last() == s@[i as int]);
            lemma_number_error_stays(t, i - from + 1, radix as nat, max as nat);
            assert(v * radix == v as nat * radix as nat);
        }
        let d: u8 = match to_digit_value(s[i], radix) {
            Some(d) => d,
            None => return Err(NumberError::InvalidDigit),
        };
        let wide: Option<u128> = v.checked_mul(radix as u128);
        let sum: Option<u128> = match wide {
            Some(w) => w.checked_add(d as u128),
            None => None,
        };
        match sum {
            Some(x) => {
                if x > max {
                    return Err(NumberError::TooLarge);
                }
                v = x;
            },
            None => return Err(NumberError::TooLarge),
        }
        i = i + 1;
    }
    assert(t.take(i - from) =~= t);
    Ok(v)
}

/// An error in the front of a string of digits is the error of the whole.
proof fn lemma_number_error_stays(s: Seq<u8>, n: int, radix: nat, max: nat)
    requires
        0 <= n <= s.len(),
    ensures
        digits_number(s.take(n), radix, max) is Err ==> digits_number(s, radix, max)
            == digits_number(s.take(n), radix, max),
    decreases s.len() - n,
{
    if n < s.len() {
        lemma_number_error_stays(s, n + 1, radix, max);
        assert(s.take(n + 1).drop_last() =~= s.take(n));
    } else {
        assert(s.take(n) =~= s);
    }
}

/// Reads a number: digits, with an optional plus sign in front.
pub fn read_number(s: &[u8], radix: u8, max: u128) -> (r: Result<u128, NumberError>)
    requires
        2 <= radix <= 16,
    ensures
        match r {
            Ok(v) => text_number(s@, radix as nat, max as nat) == Ok::<_, NumberError>(v as nat),
            Err(e) => text_number(s@, radix as nat, max as nat) == Err::<nat, _>(e),
        },
{
    if s.len() == 0 {
        return Err(NumberError::Empty);
    }
    if s.len() > 1 && s[0] == 43 {
        assert(s@.skip(1) =~= s@.drop_first());
        read_digits(s, 1, radix, max)
    } else {
        assert(s@.skip(0) =~= s@);
        read_digits(s, 0, radix, max)
    }
}

/// Three pieces of text in a row.
pub fn text3(a: &str, b: &str, c: &str) -> (r: String)
    ensures
        r@ == a@ + b@ + c@,
{
    let mut out = a.to_owned();
    out.append(b);
    out.append(c);
    out
}

/// Two pieces of text in a row.
pub fn text2(a: &str, b: &str) -> (r: String)
    ensures
        r@ == a@ + b@,
{
    let mut out = a.to_owned();
    out.append(b);
    out
}

/// Whether two texts are the same.
pub fn text_equal(a: &str, b: &str) -> (r: bool)
    ensures
        r == (a@ == b@),
{
    proof {
        vstd::utf8::encode_utf8_decode_utf8(a@);
        vstd::utf8::encode_utf8_decode_utf8(b@);
    }
    crate::bytes::bytes_equal(a.as_bytes(), b.as_bytes())
}

/// The decimal text of an integer, with a minus sign in front of a negative one.
pub open spec fn signed_decimal(n: int) -> Seq<char> {
    if n < 0 {
        seq!['-'] + decimal((-n) as nat)
    } else {
        decimal(n as nat)
    }
}

/// Appends the decimal text of an integer.
pub fn push_signed_decimal(out: &mut String, n: i64)
    ensures
        final(out)@ == old(out)@ + signed_decimal(n as int),
{
    if n < 0 {
        out.push('-');
        push_decimal(out, (-(n as i128)) as u128);
        assert(out@ =~= old(out)@ + signed_decimal(n as int));
    } else {
        push_decimal(out, n as u128);
    }
}

/// Numbers that fit in ASCII: the bytes of such text are its characters.
pub open spec fn ascii_bytes(s: Seq<char>) -> Seq<u8> {
    Seq::new(s.len(), |i: int| s[i] as u8)
}

/// The text of a number consists of digits, at least one, and none of them is a plus sign.
proof fn lemma_number_text_digits(n: nat, radix: nat)
    requires
        2 <= radix <= 16,
    ensures
        number_text(n, radix).len() > 0,
        forall|i: int|
            #![trigger number_text(n, radix)[i]]
            0 <= i < number_text(n, radix).len() ==> '\0' <= number_text(n, radix)[i]
                <= '\u{7f}' && number_text(n, radix)[i] as u8 != 43,
    decreases n,
{
    if n >= radix {
        assert(n / radix < n) by (nonlinear_arith)
            requires
                2 <= radix <= n,
        ;
        assert(0 <= n % radix < radix) by (nonlinear_arith)
            requires
                2 <= radix,
        ;
        lemma_number_text_digits(n / radix, radix);
    }
}

/// The text of a number reads back as that number.
proof fn lemma_digits_read_back(n: nat, radix: nat, max: nat)
    requires
        2 <= radix <= 16,
        n <= max,
    ensures
        digits_number(ascii_bytes(number_text(n, radix)), radix, max) == Ok::<_, NumberError>(n),
    decreases n,
{
    let t = ascii_bytes(number_text(n, radix));
    if n < radix {
        assert(t.drop_last() =~= Seq::<u8>::empty());
        assert(digits_number(t.drop_last(), radix, max) == Ok::<_, NumberError>(0nat));
        assert(0 * radix == 0);
    } else {
        let q = n / radix;
        let r = n % radix;
        assert(q < n && q * radix + r == n && 0 <= r < radix) by (nonlinear_arith)
            requires
                2 <= radix <= n,
                q == n / radix,
                r == n % radix,
        ;
        lemma_digits_read_back(q, radix, max);
        assert(t.drop_last() =~= ascii_bytes(number_text(q, radix)));
        assert(t.last() == digit_char(r as int) as u8);
    }
}

/// The text of a number is ASCII and reads back as that number.
pub proof fn law_number_text_reads_back(n: nat, radix: nat, max: nat)
    requires
        2 <= radix <= 16,
        n <= max,
    ensures
        vstd::utf8::is_ascii_chars(number_text(n, radix)),
        text_number(ascii_bytes(number_text(n, radix)), radix, max) == Ok::<_, NumberError>(n),
{
    lemma_number_text_digits(n, radix);
    lemma_digits_read_back(n, radix, max);
    let t = number_text(n, radix);
    assert(ascii_bytes(t)[0] == t[0] as u8);
}

/// The text of a number is the text of its quotient by the radix, with the character of the
/// remainder behind it; the characters are `0` to `9` and `a` to `f`.
pub proof fn law_number_text_by_digits(n: nat, radix: nat)
    requires
        2 <= radix <= 16,
    ensures
        n < radix ==> number_text(n, radix) == seq!["0123456789abcdef"@[n as int]],
        n >= radix ==> number_text(n, radix) == number_text(n / radix, radix).push(
            "0123456789abcdef"@[(n % radix) as int],
        ),
{
    reveal_strlit("0123456789abcdef");
    assert(0 <= n % radix < radix) by (nonlinear_arith)
        requires
            2 <= radix,
    ;
}

/// Reading digits from the left: one more digit multiplies by the radix and adds the digit,
/// unless that goes above the limit. Letters count the same in either case.
pub proof fn law_digits_add_up(s: Seq<u8>, b: u8, radix: nat, max: nat, v: nat, d: int)
    requires
        2 <= radix <= 16,
        digits_number(s, radix, max) == Ok::<_, NumberError>(v),
        0 <= d < radix,
        b as int == "0123456789abcdef"@[d] as int || b as int == "0123456789ABCDEF"@[d] as int,
    ensures
        digits_number(Seq::empty(), radix, max) == Ok::<_, NumberError>(0nat),
        v * radix + d <= max ==> digits_number(s.push(b), radix, max) == Ok::<_, NumberError>(
            (v * radix + d) as nat,
        ),
        v * radix + d > max ==> digits_number(s.push(b), radix, max) == Err::<nat, _>(
            NumberError::TooLarge,
        ),
{
    reveal_strlit("0123456789abcdef");
    reveal_strlit("0123456789ABCDEF");
    assert(s.push(b).drop_last() =~= s);
}

/// A text that is read as a number is nothing but digits of the radix, with at most one plus
/// sign in front.
pub proof fn law_numbers_are_digits(s: Seq<u8>, radix: nat, max: nat, i: int)
    requires
        text_number(s, radix, max) is Ok,
        0 <= i < s.len(),
    ensures
        digit_value(s[i], radix) is Some || (i == 0 && s.len() > 1 && s[0] == 43),
        text_number(s, radix, max)->Ok_0 <= max || s.len() == 0,
{
    if s.len() > 1 && s[0] == 43 {
        lemma_digits_only(s.drop_first(), radix, max);
        if i > 0 {
            assert(s.drop_first()[i - 1] == s[i]);
        }
    } else {
        lemma_digits_only(s, radix, max);
    }
}

proof fn lemma_digits_only(s: Seq<u8>, radix: nat, max: nat)
    requires
        digits_number(s, radix, max) is Ok,
    ensures
        forall|i: int| #![trigger s[i]] 0 <= i < s.len() ==> digit_value(s[i], radix) is Some,
        s.len() > 0 ==> digits_number(s, radix, max)->Ok_0 <= max,
    decreases s.len(),
{
    if s.len() > 0 {
        lemma_digits_only(s.drop_last(), radix, max);
        assert forall|i: int| #![trigger s[i]] 0 <= i < s.len() implies digit_value(
            s[i],
            radix,
        ) is Some by {
            if i < s.len() - 1 {
                assert(s.drop_last()[i] == s[i]);
            }
        }
    }
}

/// The digits are the characters `0` to `9`, then `a` to `f` in either case, as far as the
/// radix goes; nothing else is one.
pub proof fn law_digit_values(b: u8, radix: nat, d: nat)
    requires
        2 <= radix <= 16,
    ensures
        digit_value(b, radix) == Some(d) <==> d < radix && (b as int
            == "0123456789abcdef"@[d as int] as int || b as int
            == "0123456789ABCDEF"@[d as int] as int),
{
    reveal_strlit("0123456789abcdef");
    reveal_strlit("0123456789ABCDEF");
}

/// What is no number, and why: nothing at all, a character that is no digit, or too much; the
/// first mistake from the left counts. One plus sign in front of something is passed over.
pub proof fn law_texts_that_are_no_number(s: Seq<u8>, b: u8, radix: nat, max: nat)
    ensures
        text_number(Seq::empty(), radix, max) == Err::<nat, _>(NumberError::Empty),
        s.len() > 0 ==> text_number(seq![43u8] + s, radix, max) == digits_number(s, radix, max),
        s.len() > 0 && s[0] != 43 ==> text_number(s, radix, max) == digits_number(s, radix, max),
        digits_number(s, radix, max) is Ok && digit_value(b, radix) is None ==> digits_number(
            s.push(b),
            radix,
            max,
        ) == Err::<nat, _>(NumberError::InvalidDigit),
        digits_number(s, radix, max) is Err ==> digits_number(s.push(b), radix, max)
            == digits_number(s, radix, max),
{
    assert(s.push(b).drop_last() =~= s);
    assert((seq![43u8] + s).drop_first() =~= s);
}

/// A negative number is a minus sign and its opposite in decimal; any other is its decimal.
pub proof fn law_signed_decimals(n: nat)
    ensures
        signed_decimal(n as int) == number_text(n, 10),
        n > 0 ==> signed_decimal(-n) == seq!['-'] + number_text(n, 10),
{
}

/// What is said of a text that is no number.
pub proof fn law_number_errors_in_words()
    ensures
        number_error_text(NumberError::Empty) == "cannot parse integer from empty string"@,
        number_error_text(NumberError::InvalidDigit) == "invalid digit found in string"@,
        number_error_text(NumberError::TooLarge) == "number too large to fit in target type"@,
{
}

} // verus!
