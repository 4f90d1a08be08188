//! Byte strings as big-endian numbers, and the small copying helpers the rest of the crate
//! shares.

use vstd::arithmetic::power::pow;
use vstd::prelude::*;

verus! {

/// The number that a byte string spells in big-endian order.
pub open spec fn be_nat(s: Seq<u8>) -> nat
    decreases s.len(),
{
    if s.len() == 0 {
        0
    } else {
        be_nat(s.drop_last()) * 256 + s.last() as nat
    }
}

/// The lowest `len` bytes of `v` in big-endian order.
pub open spec fn be_bytes(v: nat, len: nat) -> Seq<u8>
    decreases len,
{
    if len == 0 {
        Seq::empty()
    } else {
        be_bytes(v / 256, (len - 1) as nat).push((v % 256) as u8)
    }
}

/// A byte string without its leading zero bytes.
pub open spec fn trim_leading_zeros(s: Seq<u8>) -> Seq<u8>
    decreases s.len(),
{
    if s.len() > 0 && s[0] == 0 {
        trim_leading_zeros(s.drop_first())
    } else {
        s
    }
}

/// `n` copies of the byte `b`.
pub open spec fn repeated(b: u8, n: nat) -> Seq<u8> {
    Seq::new(n, |i: int| b)
}

pub proof fn lemma_be_nat_bound(s: Seq<u8>)
    ensures
        be_nat(s) < pow(256, s.len()),
        pow(256, s.len()) > 0,
    decreases s.len(),
{
    reveal(pow);
    if s.len() > 0 {
        lemma_be_nat_bound(s.drop_last());
        assert(pow(256, s.len()) == 256 * pow(256, (s.len() - 1) as nat));
    }
}

pub proof fn lemma_be_bytes_len(v: nat, len: nat)
    ensures
        be_bytes(v, len).len() == len,
    decreases len,
{
    if len > 0 {
        lemma_be_bytes_len(v / 256, (len - 1) as nat);
    }
}

/// Writing a number in enough bytes and reading it back.
pub proof fn lemma_be_nat_of_bytes(v: nat, len: nat)
    requires
        v < pow(256, len),
    ensures
        be_nat(be_bytes(v, len)) == v,
        be_bytes(v, len).len() == len,
    decreases len,
{
    reveal(pow);
    lemma_be_bytes_len(v, len);
    if len > 0 {
        let p = pow(256, (len - 1) as nat);
        assert(pow(256, len) == 256 * p);
        assert(v / 256 < p) by (nonlinear_arith)
            requires
                v < 256 * p,
        ;
        lemma_be_nat_of_bytes(v / 256, (len - 1) as nat);
        assert(be_bytes(v, len).drop_last() =~= be_bytes(v / 256, (len - 1) as nat));
    }
}

/// Reading a byte string as a number and writing it back in the same length.
pub proof fn lemma_be_bytes_of_nat(s: Seq<u8>)
    ensures
        be_bytes(be_nat(s), s.len()) == s,
    decreases s.len(),
{
    if s.len() > 0 {
        lemma_be_bytes_of_nat(s.drop_last());
        let v = be_nat(s.drop_last());
        assert((v * 256 + s.last() as nat) / 256 == v);
        assert((v * 256 + s.last() as nat) % 256 == s.last() as nat);
        assert(be_bytes(be_nat(s), s.len()) =~= s);
    } else {
        assert(be_bytes(be_nat(s), s.len()) =~= s);
    }
}

/// A leading zero byte does not change the number.
pub proof fn lemma_be_nat_leading_zero(s: Seq<u8>)
    requires
        s.len() > 0,
        s[0] == 0,
    ensures
        be_nat(s.drop_first()) == be_nat(s),
    decreases s.len(),
{
    if s.len() == 1 {
        assert(be_nat(s.drop_last()) == 0);
        assert(s.last() == s[0]);
        assert(be_nat(s.drop_first()) == 0);
    } else {
        let t = s.drop_last();
        lemma_be_nat_leading_zero(t);
        assert(s.drop_first().drop_last() =~= t.drop_first());
        assert(s.drop_first().last() == s.last());
    }
}

/// The number that two byte strings in a row spell.
pub proof fn lemma_be_nat_concat(a: Seq<u8>, b: Seq<u8>)
    ensures
        be_nat(a + b) == be_nat(a) * pow(256, b.len()) + be_nat(b),
    decreases b.len(),
{
    if b.len() == 0 {
        assert(a + b =~= a);
        vstd::arithmetic::power::lemma_pow0(256);
        assert(be_nat(a) * 1 == be_nat(a));
    } else {
        let t = b.drop_last();
        lemma_be_nat_concat(a, t);
        assert((a + b).drop_last() =~= a + t);
        vstd::arithmetic::power::lemma_pow_adds(256, t.len(), 1);
        vstd::arithmetic::power::lemma_pow1(256);
        let p = pow(256, t.len());
        assert(be_nat(a) * (p * 256) == (be_nat(a) * p) * 256) by (nonlinear_arith);
    }
}

/// Zeros in front of a string without a leading zero are trimmed again, and nothing else.
pub proof fn lemma_trim_padded(s: Seq<u8>, n: nat)
    requires
        s.len() > 0 ==> s[0] != 0,
    ensures
        trim_leading_zeros(repeated(0, n) + s) == s,
    decreases n,
{
    let all = repeated(0, n) + s;
    if n > 0 {
        assert(all.drop_first() =~= repeated(0, (n - 1) as nat) + s);
        lemma_trim_padded(s, (n - 1) as nat);
    } else {
        assert(all =~= s);
    }
}

/// Trimming keeps the number and leaves no leading zero byte.
pub proof fn lemma_trim(s: Seq<u8>)
    ensures
        be_nat(trim_leading_zeros(s)) == be_nat(s),
        trim_leading_zeros(s).len() <= s.len(),
        trim_leading_zeros(s).len() > 0 ==> trim_leading_zeros(s)[0] != 0,
        s == repeated(0, (s.len() - trim_leading_zeros(s).len()) as nat) + trim_leading_zeros(s),
    decreases s.len(),
{
    if s.len() > 0 && s[0] == 0 {
        let rest = s.drop_first();
        lemma_trim(rest);
        lemma_be_nat_leading_zero(s);
        let t = trim_leading_zeros(rest);
        let short = repeated(0, (rest.len() - t.len()) as nat) + t;
        let long = repeated(0, (s.len() - t.len()) as nat) + t;
        assert forall|i: int| 0 <= i < s.len() implies s[i] == long[i] by {
            if i > 0 {
                assert(s[i] == rest[i - 1] && rest[i - 1] == short[i - 1]);
            }
        }
        assert(s =~= long);
    } else {
        assert(s =~= repeated(0, 0) + s);
    }
}

/// Whether two byte strings are equal.
pub fn bytes_equal(a: &[u8], b: &[u8]) -> (r: bool)
    ensures
        r == (a@ == b@),
{
    if a.len() != b.len() {
        return false;
    }
    let mut i: usize = 0;
    while i < a.len()
        invariant
            a@.len() == b@.len(),
            i <= a@.len(),
            forall|j: int| 0 <= j < i ==> a@[j] == b@[j],
        decreases a.len() - i,
    {
        if a[i] != b[i] {
            return false;
        }
        i = i + 1;
    }
    assert(a@ =~= b@);
    true
}

/// Copies `N` bytes of `s` from `at` on into an array.
pub fn array_at<const N: usize>(s: &[u8], at: usize) -> (r: [u8; N])
    requires
        at + N <= s@.len(),
    ensures
        r@ == s@.subrange(at as int, at + N),
{
    let n: usize = s.len();
    let mut r: [u8; N] = [0u8; N];
    let mut i: usize = 0;
    while i < N
        invariant
            i <= N,
            at + N <= n,
            n == s@.len(),
            forall|j: int| 0 <= j < i ==> r@[j] == s@[at + j],
        decreases N - i,
    {
        r[i] = s[at + i];
        i = i + 1;
    }
    assert(r@ =~= s@.subrange(at as int, at + N));
    r
}

/// Copies a part of `s` into a vector.
pub fn vec_at(s: &[u8], from: usize, to: usize) -> (r: Vec<u8>)
    requires
        from <= to <= s@.len(),
    ensures
        r@ == s@.subrange(from as int, to as int),
{
    let mut r: Vec<u8> = Vec::new();
    let mut i: usize = from;
    while i < to
        invariant
            from <= i <= to <= s@.len(),
            r@ == s@.subrange(from as int, i as int),
        decreases to - i,
    {
        r.push(s[i]);
        i = i + 1;
        assert(r@ =~= s@.subrange(from as int, i as int));
    }
    r
}

/// Reads a big-endian number of up to sixteen bytes.
pub fn read_be(s: &[u8]) -> (r: u128)
    requires
        s@.len() <= 16,
    ensures
        r == be_nat(s@),
{
    let mut v: u128 = 0;
    let mut i: usize = 0;
    while i < s.len()
        invariant
            i <= s@.len() <= 16,
            v == be_nat(s@.take(i as int)),
        decreases s.len() - i,
    {
        proof {
            let t = s@.take(i as int);
            let u = s@.take(i + 1);
            assert(u.drop_last() =~= t);
            lemma_be_nat_bound(u);
            lemma_pow256_16(u.len());
            assert(be_nat(u) == be_nat(t) * 256 + s@[i as int] as nat);
        }
        v = v * 256 + s[i] as u128;
        i = i + 1;
    }
    assert(s@.take(i as int) =~= s@);
    v
}

pub proof fn lemma_pow256_16(n: nat)
    requires
        n <= 16,
    ensures
        0 < pow(256, n) <= 0x1_0000_0000_0000_0000_0000_0000_0000_0000int,
    decreases n,
{
    lemma_pow256();
    vstd::arithmetic::power::lemma_pow_increases(256, n, 16);
    vstd::arithmetic::power::lemma_pow_positive(256, n);
}

pub proof fn lemma_pow256()
    ensures
        pow(256, 1) == 0x100,
        pow(256, 2) == 0x1_0000,
        pow(256, 8) == 0x1_0000_0000_0000_0000int,
        pow(256, 16) == 0x1_0000_0000_0000_0000_0000_0000_0000_0000int,
        pow(256, 32)
            == 0x1_0000000000000000_0000000000000000_0000000000000000_0000000000000000int,
{
    vstd::arithmetic::power::lemma_pow1(256);
    vstd::arithmetic::power::lemma_pow_adds(256, 1, 1);
    assert(pow(256, 2) == 0x1_0000) by (nonlinear_arith)
        requires
            pow(256, 1) == 0x100,
            pow(256, 1) * pow(256, 1) == pow(256, 2),
    ;
    vstd::arithmetic::power::lemma_pow_adds(256, 2, 2);
    assert(pow(256, 4) == 0x1_0000_0000) by (nonlinear_arith)
        requires
            pow(256, 2) == 0x1_0000,
            pow(256, 2) * pow(256, 2) == pow(256, 4),
    ;
    vstd::arithmetic::power::lemma_pow_adds(256, 4, 4);
    assert(pow(256, 8) == 0x1_0000_0000_0000_0000int) by (nonlinear_arith)
        requires
            pow(256, 4) == 0x1_0000_0000,
            pow(256, 4) * pow(256, 4) == pow(256, 8),
    ;
    vstd::arithmetic::power::lemma_pow_adds(256, 8, 8);
    assert(pow(256, 16) == 0x1_0000_0000_0000_0000_0000_0000_0000_0000int) by (nonlinear_arith)
        requires
            pow(256, 8) == 0x1_0000_0000_0000_0000int,
            pow(256, 8) * pow(256, 8) == pow(256, 16),
    ;
    vstd::arithmetic::power::lemma_pow_adds(256, 16, 16);
    assert(pow(256, 32) == 0x1_0000000000000000_0000000000000000_0000000000000000_0000000000000000int) by (nonlinear_arith)
        requires
            pow(256, 16) == 0x1_0000_0000_0000_0000_0000_0000_0000_0000int,
            pow(256, 16) * pow(256, 16) == pow(256, 32),
    ;
}

/// Appends the lowest `len` bytes of `v` in big-endian order.
pub fn push_be(out: &mut Vec<u8>, v: u128, len: usize)
    requires
        len <= 16,
    ensures
        final(out)@ == old(out)@ + be_bytes(v as nat, len as nat),
    decreases len,
{
    if len > 0 {
        push_be(out, v / 256, len - 1);
        let low: u8 = (v % 256) as u8;
        out.push(low);
        assert(out@ =~= old(out)@ + be_bytes(v as nat, len as nat));
    } else {
        assert(out@ =~= old(out)@ + be_bytes(v as nat, len as nat));
    }
}

/// Big-endian: one more byte behind shifts what is in front by a factor of 256.
pub proof fn law_big_endian(s: Seq<u8>, b: u8)
    ensures
        be_nat(Seq::empty()) == 0,
        be_nat(s.push(b)) == 256 * be_nat(s) + b,
{
    assert(s.push(b).drop_last() =~= s);
}

} // verus!
