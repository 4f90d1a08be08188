//! t-of-n Shamir secret sharing over the secp256k1 scalar field.
//!
//! A single stolen share no longer yields the private key: only `threshold` shares do, and
//! fewer say nothing about it. The full key is put together, briefly, when it is needed.
//!
//! Plain Shamir has no integrity check of its own: shares of two different splits combine
//! to some wrong secret. `reconstruct_and_verify` turns that into an error, by comparing
//! the public key of the result with the one that is expected.

use vstd::arithmetic::power::pow;
use vstd::prelude::*;

use crate::bytes::{be_bytes, be_nat, lemma_be_bytes_of_nat};
use crate::field::{
    cong, inv, inverse_of, invertible, lemma_cong_add, lemma_cong_mod, lemma_cong_mul,
    lemma_cong_unique, lemma_difference_invertible, lemma_invertible_cong, lemma_invertible_mul,
    lemma_invertible_nonzero, lemma_order_bounds, lemma_small_invertible, order,
};
use crate::keys::{is_private_key, public_key_of, PrivateKey, PublicKey};
use crate::poly::{
    basis, distinct_points, eval, is_reduced, lemma_eval_push, lemma_interpolant_unique,
    lemma_interpolation, lemma_reduced_interpolant, values_at, weighted_sum,
};
use crate::scalar::SecretScalar;
use crate::secret::SecretBytes;

verus! {

/// Errors from splitting or reconstructing a shared key.
#[derive(Debug, PartialEq, Eq, Structural)]
pub enum ShamirError {
    /// A threshold below 2 is no sharing.
    ThresholdTooSmall,
    /// The threshold is above the number of shares to be created.
    ThresholdExceedsParties,
    /// Two of the shares have the same index.
    DuplicateShareIndex,
    /// The number of shares is not their declared threshold.
    WrongShareCount,
    /// The shares do not all declare the same threshold: they are not from one split.
    ThresholdMismatch,
    /// Index 0 is where the secret itself lies on the polynomial; no share carries it.
    ZeroIndexReserved,
    /// The shares combine to a key other than the expected one. It is discarded.
    ReconstructionMismatch,
}

/// One party's share of a split private key. Only the value is secret; it is wiped when
/// the share is dropped, and `Debug` does not print it.
#[derive(Debug)]
pub struct Share {
    index: u8,
    threshold: u8,
    value: SecretBytes<32>,
}

/// What a share holds.
#[verifier::ext_equal]
pub ghost struct ShareView {
    pub index: u8,
    pub threshold: u8,
    pub value: Seq<u8>,
}

impl Share {
    pub closed spec fn view(&self) -> ShareView {
        ShareView { index: self.index, threshold: self.threshold, value: self.value@ }
    }

    /// The position of this share on the polynomial.
    pub fn index(&self) -> (r: u8)
        ensures
            r == self@.index,
    {
        self.index
    }

    /// The threshold that this share was created under.
    pub fn threshold(&self) -> (r: u8)
        ensures
            r == self@.threshold,
    {
        self.threshold
    }

    /// The raw share value, for encrypted storage. Hand it straight to an encrypting sink,
    /// never to a log or a plain file.
    pub fn to_bytes_dangerous(&self) -> (r: [u8; 32])
        ensures
            r@ == self@.value,
    {
        *self.value.expose()
    }

    /// A share from its metadata and its raw value. Nothing can be checked here: a wrong
    /// share is caught by the public-key check of `reconstruct_and_verify`.
    pub fn from_parts_dangerous(index: u8, threshold: u8, bytes: [u8; 32]) -> (r: Self)
        ensures
            r@ == (ShareView { index, threshold, value: bytes@ }),
    {
        Share { index, threshold, value: SecretBytes::from_array(bytes) }
    }
}

/// What a sequence of shares holds.
pub open spec fn views(shares: Seq<Share>) -> Seq<ShareView> {
    Seq::new(shares.len(), |i: int| shares[i]@)
}

/// Where the shares lie on the polynomial.
pub open spec fn share_points(shares: Seq<ShareView>) -> Seq<int> {
    Seq::new(shares.len(), |i: int| shares[i].index as int)
}

/// The numbers that the share values spell.
pub open spec fn share_values(shares: Seq<ShareView>) -> Seq<int> {
    Seq::new(shares.len(), |i: int| be_nat(shares[i].value) as int)
}

/// The shares lie on the polynomial with these coefficients: one share for each of the
/// places 1 to n.
pub open spec fn is_split(shares: Seq<ShareView>, coefs: Seq<int>, threshold: u8, n: u8) -> bool {
    &&& coefs.len() == threshold
    &&& is_reduced(coefs)
    &&& shares.len() == n
    &&& forall|i: int|
        #![trigger shares[i]]
        0 <= i < n ==> {
            &&& shares[i].index == i + 1
            &&& lies_on(shares[i], coefs)
        }
}

/// The share declares as its threshold the number of coefficients, and its value is that of
/// the polynomial at its index.
pub open spec fn lies_on(share: ShareView, coefs: Seq<int>) -> bool {
    &&& share.threshold == coefs.len()
    &&& share.value.len() == 32
    &&& be_nat(share.value) == eval(coefs, share.index as int) % order()
}

/// The shares come from splitting the key along some polynomial.
pub open spec fn shares_key(shares: Seq<ShareView>, key: Seq<u8>, threshold: u8, n: u8) -> bool {
    exists|coefs: Seq<int>|
        #![trigger is_split(shares, coefs, threshold, n)]
        is_split(shares, coefs, threshold, n) && coefs[0] == be_nat(key)
}

/// What keeps a key from being split in this way, if anything does.
pub open spec fn split_error(threshold: u8, n: u8) -> Option<ShamirError> {
    if threshold < 2 {
        Some(ShamirError::ThresholdTooSmall)
    } else if threshold > n {
        Some(ShamirError::ThresholdExceedsParties)
    } else {
        None
    }
}

/// What is wrong with share `k`, looking no further than the shares before it.
pub open spec fn share_defect(shares: Seq<ShareView>, k: int) -> Option<ShamirError> {
    if shares[k].threshold != shares[0].threshold {
        Some(ShamirError::ThresholdMismatch)
    } else if shares[k].index == 0 {
        Some(ShamirError::ZeroIndexReserved)
    } else if exists|j: int| #![trigger shares[j]] 0 <= j < k && shares[j].index == shares[k].index {
        Some(ShamirError::DuplicateShareIndex)
    } else {
        None
    }
}

/// The first thing wrong among the first `n` shares.
pub open spec fn first_defect(shares: Seq<ShareView>, n: nat) -> Option<ShamirError>
    decreases n,
{
    if n == 0 {
        None
    } else {
        match first_defect(shares, (n - 1) as nat) {
            Some(e) => Some(e),
            None => share_defect(shares, n - 1),
        }
    }
}

/// What keeps the shares from being combined, if anything does.
pub open spec fn combination_error(shares: Seq<ShareView>) -> Option<ShamirError> {
    if shares.len() == 0 || shares.len() != shares[0].threshold {
        Some(ShamirError::WrongShareCount)
    } else {
        first_defect(shares, shares.len())
    }
}

/// The value at zero of the polynomial through the shares, by Lagrange interpolation.
pub open spec fn interpolated_secret(shares: Seq<ShareView>) -> int {
    weighted_sum(share_points(shares), share_values(shares), share_points(shares)) % order()
}

/// The key that the shares combine to, as 32 bytes, or why they do not combine. A zero
/// result is no key.
pub open spec fn reconstruction(shares: Seq<ShareView>) -> Result<Seq<u8>, ShamirError> {
    match combination_error(shares) {
        Some(e) => Err(e),
        None => if interpolated_secret(shares) == 0 {
            Err(ShamirError::ReconstructionMismatch)
        } else {
            Ok(be_bytes(interpolated_secret(shares) as nat, 32))
        },
    }
}

/// The key that the shares combine to, provided that its public key is the expected one.
pub open spec fn verified_reconstruction(shares: Seq<ShareView>, expected: Seq<u8>) -> Result<
    Seq<u8>,
    ShamirError,
> {
    match reconstruction(shares) {
        Err(e) => Err(e),
        Ok(key) => if public_key_of(key) == expected {
            Ok(key)
        } else {
            Err(ShamirError::ReconstructionMismatch)
        },
    }
}

/// The values of a vector of scalars.
pub open spec fn scalar_values(scalars: Seq<SecretScalar>) -> Seq<int> {
    Seq::new(scalars.len(), |i: int| scalars[i].value())
}

/// The coefficients of the sharing polynomial: the key, then the random ones.
pub open spec fn sharing_polynomial(key: Seq<u8>, coeffs: Seq<int>) -> Seq<int> {
    seq![be_nat(key) as int] + coeffs
}

/// The value of the sharing polynomial at `index`, for given random coefficients.
fn share_value(secret: &SecretScalar, coeffs: &Vec<SecretScalar>, index: u8) -> (y: SecretScalar)
    ensures
        y.value() == eval(seq![secret.value()] + scalar_values(coeffs@), index as int) % order(),
        is_reduced(scalar_values(coeffs@)),
{
    let ghost all = seq![secret.value()] + scalar_values(coeffs@);
    let x = SecretScalar::from_small(index);
    let zero = SecretScalar::from_small(0);
    let mut y = secret.plus(&zero);
    let mut x_pow = SecretScalar::from_small(index);
    proof {
        lemma_cong_mod(secret.value() + 0);
        lemma_eval_push(Seq::empty(), secret.value(), index as int);
        assert(all.take(1) =~= Seq::<int>::empty().push(secret.value()));
        vstd::arithmetic::power::lemma_pow0(index as int);
        vstd::arithmetic::power::lemma_pow1(index as int);
    }
    let mut k: usize = 0;
    while k < coeffs.len()
        invariant
            k <= coeffs@.len(),
            all == seq![secret.value()] + scalar_values(coeffs@),
            x.value() == index,
            cong(y.value(), eval(all.take(k + 1), index as int)),
            cong(x_pow.value(), pow(index as int, (k + 1) as nat)),
            forall|j: int|
                #![trigger scalar_values(coeffs@)[j]]
                0 <= j < k ==> 0 <= scalar_values(coeffs@)[j] < order(),
        decreases coeffs.len() - k,
    {
        let ghost xi = index as int;
        let ghost c = coeffs@[k as int].value();
        let ghost p = pow(xi, (k + 1) as nat);
        let coeff = &coeffs[k];
        let term = coeff.times(&x_pow);
        proof {
            use_type_invariant(coeff);
            lemma_cong_mod(c * x_pow.value());
            lemma_cong_mul(c, c, x_pow.value(), p);
            lemma_cong_add(y.value(), eval(all.take(k + 1), xi), term.value(), c * p);
            lemma_cong_mod(y.value() + term.value());
            assert(all.take(k + 2) =~= all.take(k + 1).push(c));
            lemma_eval_push(all.take(k + 1), c, xi);
            lemma_cong_mod(x_pow.value() * xi);
            lemma_cong_mul(x_pow.value(), p, xi, xi);
            vstd::arithmetic::power::lemma_pow_adds(xi, (k + 1) as nat, 1);
            vstd::arithmetic::power::lemma_pow1(xi);
        }
        y = y.plus(&term);
        x_pow = x_pow.times(&x);
        k = k + 1;
    }
    proof {
        assert(all.take(k + 1) =~= all);
        use_type_invariant(&y);
        lemma_cong_mod(eval(all, index as int));
        lemma_cong_unique(y.value(), eval(all, index as int) % order());
    }
    y
}

/// Splits `key` along the polynomial with the given coefficients behind the key.
pub fn split_with_coefficients(
    key: &PrivateKey,
    threshold: u8,
    n: u8,
    coeffs: &Vec<SecretScalar>,
) -> (shares: Vec<Share>)
    requires
        2 <= threshold <= n,
        coeffs@.len() == threshold - 1,
    ensures
        is_split(
            views(shares@),
            sharing_polynomial(key@, scalar_values(coeffs@)),
            threshold,
            n,
        ),
{
    let ghost coefs = sharing_polynomial(key@, scalar_values(coeffs@));
    let bytes = key.to_bytes_dangerous();
    let secret = SecretScalar::from_bytes(&bytes);
    proof {
        lemma_cong_mod(be_nat(key@) as int);
        lemma_cong_unique(secret.value(), be_nat(key@) as int);
        assert(coefs =~= seq![secret.value()] + scalar_values(coeffs@));
    }
    let mut shares: Vec<Share> = Vec::new();
    let mut i: u8 = 0;
    while i < n
        invariant
            i <= n,
            shares@.len() == i,
            coefs == seq![secret.value()] + scalar_values(coeffs@),
            coefs.len() == threshold,
            i > 0 ==> is_reduced(scalar_values(coeffs@)),
            forall|j: int|
                #![trigger views(shares@)[j]]
                0 <= j < i ==> {
                    &&& views(shares@)[j].index == j + 1
                    &&& lies_on(views(shares@)[j], coefs)
                },
        decreases n - i,
    {
        i = i + 1;
        let y = share_value(&secret, coeffs, i);
        let share = Share { index: i, threshold, value: SecretBytes::from_array(y.to_bytes()) };
        let ghost before = views(shares@);
        shares.push(share);
        proof {
            assert(views(shares@) =~= before.push(share@));
        }
    }
    proof {
        lemma_order_bounds();
        assert forall|k: int| #![trigger coefs[k]] 0 <= k < coefs.len() implies 0 <= coefs[k]
            < order() by {
            if k > 0 {
                assert(coefs[k] == scalar_values(coeffs@)[k - 1]);
            }
        }
    }
    shares
}

/// Splits `key` into `n` shares, any `threshold` of which reconstruct it, while fewer say
/// nothing about it.
pub fn split(key: &PrivateKey, threshold: u8, n: u8) -> (r: Result<Vec<Share>, ShamirError>)
    ensures
        match r {
            Err(e) => split_error(threshold, n) == Some(e),
            Ok(shares) => split_error(threshold, n) is None && shares_key(
                views(shares@),
                key@,
                threshold,
                n,
            ),
        },
{
    if threshold < 2 {
        return Err(ShamirError::ThresholdTooSmall);
    }
    if threshold > n {
        return Err(ShamirError::ThresholdExceedsParties);
    }
    // The coefficients are as sensitive as the key itself: they wipe themselves too.
    let mut coeffs: Vec<SecretScalar> = Vec::new();
    let mut k: u8 = 1;
    while k < threshold
        invariant
            1 <= k <= threshold,
            coeffs@.len() == k - 1,
        decreases threshold - k,
    {
        coeffs.push(SecretScalar::random());
        k = k + 1;
    }
    let shares = split_with_coefficients(key, threshold, n, &coeffs);
    proof {
        let coefs = sharing_polynomial(key@, scalar_values(coeffs@));
        assert(is_split(views(shares@), coefs, threshold, n));
        assert(coefs[0] == be_nat(key@));
    }
    Ok(shares)
}

/// The Lagrange coefficient at zero of the point `index` among `all_indices`. It depends on
/// the indices alone, which are not secret.
fn lagrange_coefficient(index: u8, all_indices: &Vec<u8>) -> (r: SecretScalar)
    ensures
        cong(
            r.value(),
            basis(index as int, Seq::new(all_indices@.len(), |i: int| all_indices@[i] as int)),
        ),
{
    let ghost xs = Seq::new(all_indices@.len(), |i: int| all_indices@[i] as int);
    let ghost x = index as int;
    let xi = SecretScalar::from_small(index);
    let mut num = SecretScalar::from_small(1);
    let mut den = SecretScalar::from_small(1);
    proof {
        lemma_small_invertible(1);
    }
    let mut k: usize = 0;
    while k < all_indices.len()
        invariant
            k <= all_indices@.len(),
            xs == Seq::new(all_indices@.len(), |i: int| all_indices@[i] as int),
            x == index,
            xi.value() == x,
            invertible(den.value()),
            cong(basis(x, xs.take(k as int)) * den.value(), num.value()),
        decreases all_indices.len() - k,
    {
        let j: u8 = all_indices[k];
        let ghost o = j as int;
        proof {
            assert(xs.take(k + 1).drop_last() =~= xs.take(k as int));
            assert(xs.take(k + 1).last() == o);
        }
        let ghost b = basis(x, xs.take(k as int));
        if j != index {
            let xj = SecretScalar::from_small(j);
            let diff = xj.minus(&xi);
            let new_num = num.times(&xj);
            let new_den = den.times(&diff);
            proof {
                let d = den.value();
                let e = inv(o - x);
                lemma_difference_invertible(o, x);
                assert(inverse_of(o - x, e));
                lemma_cong_mod(o - x);
                lemma_invertible_cong(o - x, diff.value());
                lemma_invertible_mul(d, diff.value());
                lemma_cong_mod(d * diff.value());
                lemma_invertible_cong(d * diff.value(), new_den.value());
                lemma_cong_mod(num.value() * o);
                // (b * (o * e)) * (d * (o - x)) == ((b * d) * o) * ((o - x) * e)
                lemma_cong_mul(d, d, diff.value(), o - x);
                lemma_cong_mul(b * (o * e), b * (o * e), new_den.value(), d * (o - x));
                lemma_cong_mul(b * d, num.value(), o, o);
                lemma_cong_mul((b * d) * o, num.value() * o, (o - x) * e, 1);
                assert((b * (o * e)) * (d * (o - x)) == ((b * d) * o) * ((o - x) * e))
                    by (nonlinear_arith);
                assert((num.value() * o) * 1 == num.value() * o);
            }
            num = new_num;
            den = new_den;
        } else {
            assert(b * 1 == b);
        }
        k = k + 1;
    }
    proof {
        assert(xs.take(k as int) =~= xs);
        lemma_invertible_nonzero(den.value());
        use_type_invariant(&den);
        lemma_order_bounds();
        vstd::arithmetic::div_mod::lemma_small_mod(den.value() as nat, order() as nat);
    }
    let inverse = den.invert();
    let r = num.times(&inverse);
    proof {
        let b = basis(x, xs);
        let d = den.value();
        let e = inverse.value();
        vstd::arithmetic::div_mod::lemma_small_mod(1, order() as nat);
        lemma_cong_mod(num.value() * e);
        lemma_cong_mul(b * d, num.value(), e, e);
        lemma_cong_mul(b, b, d * e, 1);
        assert((b * d) * e == b * (d * e)) by (nonlinear_arith);
    }
    r
}

/// Checks the shares in order and reports the first thing wrong with them.
fn check_combination(shares: &[Share]) -> (r: Option<ShamirError>)
    ensures
        r == combination_error(views(shares@)),
{
    let ghost vs = views(shares@);
    if shares.len() == 0 {
        return Some(ShamirError::WrongShareCount);
    }
    let threshold = shares[0].threshold;
    if shares.len() != threshold as usize {
        assert(vs[0] == shares@[0]@);
        return Some(ShamirError::WrongShareCount);
    }
    let mut k: usize = 0;
    while k < shares.len()
        invariant
            k <= shares@.len(),
            shares@.len() > 0,
            vs == views(shares@),
            threshold == vs[0].threshold,
            vs.len() == threshold,
            first_defect(vs, k as nat) is None,
        decreases shares.len() - k,
    {
        let share = &shares[k];
        assert(vs[k as int] == share@);
        proof {
            lemma_first_defect_stays(vs, (k + 1) as nat, vs.len());
        }
        if share.threshold != threshold {
            return Some(ShamirError::ThresholdMismatch);
        }
        if share.index == 0 {
            return Some(ShamirError::ZeroIndexReserved);
        }
        let mut j: usize = 0;
        while j < k
            invariant
                j <= k < shares@.len(),
                vs == views(shares@),
                share@ == vs[k as int],
                vs.len() == threshold,
                vs[k as int].threshold == vs[0].threshold,
                threshold == vs[0].threshold,
                vs[k as int].index != 0,
                first_defect(vs, k as nat) is None,
                first_defect(vs, (k + 1) as nat) is Some ==> first_defect(vs, vs.len())
                    == first_defect(vs, (k + 1) as nat),
                forall|i: int| #![trigger vs[i]] 0 <= i < j ==> vs[i].index != vs[k as int].index,
            decreases k - j,
        {
            assert(vs[j as int] == shares@[j as int]@);
            if shares[j].index == share.index {
                return Some(ShamirError::DuplicateShareIndex);
            }
            j = j + 1;
        }
        k = k + 1;
    }
    None
}

/// Once a defect is found among the first shares it is the one reported.
proof fn lemma_first_defect_stays(shares: Seq<ShareView>, m: nat, n: nat)
    requires
        m <= n,
    ensures
        first_defect(shares, m) is Some ==> first_defect(shares, n) == first_defect(shares, m),
    decreases n,
{
    if m < n {
        lemma_first_defect_stays(shares, m, (n - 1) as nat);
    }
}

/// Shares without a defect lie at distinct places other than zero.
proof fn lemma_no_defect_distinct(shares: Seq<ShareView>, n: nat)
    requires
        first_defect(shares, n) is None,
        n <= shares.len(),
    ensures
        distinct_points(share_points(shares).take(n as int), 1),
    decreases n,
{
    let xs = share_points(shares);
    if n > 0 {
        lemma_no_defect_distinct(shares, (n - 1) as nat);
        let init = xs.take(n - 1);
        let all = xs.take(n as int);
        assert(share_defect(shares, n - 1) is None);
        assert forall|i: int| #![trigger all[i]] 0 <= i < all.len() implies 1 <= all[i] <= 255 by {
            if i < n - 1 {
                assert(all[i] == init[i]);
            }
        }
        assert forall|i: int, j: int|
            #![trigger all[i], all[j]]
            0 <= i < j < all.len() implies all[i] != all[j] by {
            if j < n - 1 {
                assert(all[i] == init[i] && all[j] == init[j]);
            } else {
                assert(shares[i].index != shares[n - 1].index);
            }
        }
    }
}

/// Combines the shares without a public key to compare the result with. Inside the crate
/// only: a caller that cannot check the key has no use for it.
pub(crate) fn reconstruct_unverified(shares: &[Share]) -> (r: Result<PrivateKey, ShamirError>)
    ensures
        match r {
            Ok(key) => reconstruction(views(shares@)) == Ok::<_, ShamirError>(key@),
            Err(e) => reconstruction(views(shares@)) == Err::<Seq<u8>, _>(e),
        },
{
    let ghost vs = views(shares@);
    let ghost xs = share_points(vs);
    let ghost ys = share_values(vs);
    if let Some(e) = check_combination(shares) {
        return Err(e);
    }
    proof {
        lemma_no_defect_distinct(vs, vs.len());
        assert(xs.take(vs.len() as int) =~= xs);
    }
    let mut indices: Vec<u8> = Vec::new();
    let mut k: usize = 0;
    while k < shares.len()
        invariant
            k <= shares@.len(),
            vs == views(shares@),
            indices@.len() == k,
            forall|i: int| #![trigger indices@[i]] 0 <= i < k ==> indices@[i] == vs[i].index,
        decreases shares.len() - k,
    {
        indices.push(shares[k].index);
        k = k + 1;
    }
    assert(Seq::new(indices@.len(), |i: int| indices@[i] as int) =~= xs);
    let mut acc = SecretScalar::from_small(0);
    let mut k: usize = 0;
    while k < shares.len()
        invariant
            k <= shares@.len(),
            vs == views(shares@),
            xs == share_points(vs),
            ys == share_values(vs),
            Seq::new(indices@.len(), |i: int| indices@[i] as int) == xs,
            cong(acc.value(), weighted_sum(xs.take(k as int), ys.take(k as int), xs)),
        decreases shares.len() - k,
    {
        let share = &shares[k];
        let yi = SecretScalar::from_bytes(share.value.expose());
        let li = lagrange_coefficient(share.index, &indices);
        let term = yi.times(&li);
        let sum = acc.plus(&term);
        proof {
            let x = xs[k as int];
            let y = ys[k as int];
            assert(vs[k as int] == share@);
            assert(x == share.index && y == be_nat(share.value@));
            lemma_cong_mod(y);
            lemma_cong_mul(yi.value(), y, li.value(), basis(x, xs));
            lemma_cong_mod(yi.value() * li.value());
            let before = weighted_sum(xs.take(k as int), ys.take(k as int), xs);
            lemma_cong_add(acc.value(), before, term.value(), y * basis(x, xs));
            lemma_cong_mod(acc.value() + term.value());
            assert(xs.take(k + 1).drop_last() =~= xs.take(k as int));
            assert(ys.take(k + 1).drop_last() =~= ys.take(k as int));
        }
        acc = sum;
        k = k + 1;
    }
    proof {
        assert(xs.take(k as int) =~= xs);
        assert(ys.take(k as int) =~= ys);
        use_type_invariant(&acc);
        lemma_cong_mod(weighted_sum(xs, ys, xs));
        lemma_cong_unique(acc.value(), interpolated_secret(vs));
    }
    let bytes = acc.to_bytes();
    proof {
        lemma_be_bytes_of_nat(bytes@);
    }
    // A zero scalar is no key: such shares are garbage.
    match PrivateKey::from_bytes_dangerous(&bytes) {
        Ok(key) => Ok(key),
        Err(_) => Err(ShamirError::ReconstructionMismatch),
    }
}

/// Combines exactly `threshold` shares and checks the result against the known public key
/// before trusting it.
pub fn reconstruct_and_verify(shares: &[Share], expected_public_key: &PublicKey) -> (r: Result<
    PrivateKey,
    ShamirError,
>)
    ensures
        match r {
            Ok(key) => verified_reconstruction(views(shares@), expected_public_key@) == Ok::<
                _,
                ShamirError,
            >(key@),
            Err(e) => verified_reconstruction(views(shares@), expected_public_key@) == Err::<
                Seq<u8>,
                _,
            >(e),
        },
{
    let key = match reconstruct_unverified(shares) {
        Ok(key) => key,
        Err(e) => return Err(e),
    };
    if key.public_key() != *expected_public_key {
        return Err(ShamirError::ReconstructionMismatch);
    }
    Ok(key)
}

/// A choice of as many shares of a split as its threshold asks for: each share of the
/// choice is one of the split, and none is taken twice.
pub open spec fn is_quorum(chosen: Seq<ShareView>, shares: Seq<ShareView>, threshold: u8) -> bool {
    &&& chosen.len() == threshold
    &&& forall|i: int| #![trigger chosen[i]] 0 <= i < chosen.len() ==> shares.contains(chosen[i])
    &&& forall|i: int, j: int|
        #![trigger chosen[i], chosen[j]]
        0 <= i < j < chosen.len() ==> chosen[i].index != chosen[j].index
}

/// Any quorum of the shares of a key, in any order, reconstructs exactly that key, and the
/// check against its public key passes.
pub proof fn law_any_quorum_reconstructs(
    key: Seq<u8>,
    shares: Seq<ShareView>,
    chosen: Seq<ShareView>,
    threshold: u8,
    n: u8,
)
    requires
        is_private_key(key),
        split_error(threshold, n) is None,
        shares_key(shares, key, threshold, n),
        is_quorum(chosen, shares, threshold),
    ensures
        reconstruction(chosen) == Ok::<_, ShamirError>(key),
        verified_reconstruction(chosen, public_key_of(key)) == Ok::<_, ShamirError>(key),
{
    let coefs = choose|coefs: Seq<int>|
        #![trigger is_split(shares, coefs, threshold, n)]
        is_split(shares, coefs, threshold, n) && coefs[0] == be_nat(key);
    let xs = share_points(chosen);
    let ys = share_values(chosen);
    assert forall|i: int| #![trigger chosen[i]] 0 <= i < chosen.len() implies {
        &&& lies_on(chosen[i], coefs)
        &&& chosen[i].index >= 1
    } by {
        assert(shares.contains(chosen[i]));
        let k = choose|k: int| 0 <= k < shares.len() && shares[k] == chosen[i];
        assert(shares[k].index == k + 1);
    }
    lemma_quorum_has_no_defect(chosen, coefs, chosen.len());
    lemma_no_defect_distinct(chosen, chosen.len());
    assert(xs.take(chosen.len() as int) =~= xs);
    lemma_interpolation(coefs, xs);
    let fs = values_at(coefs, xs);
    assert forall|i: int| #![trigger ys[i]] 0 <= i < ys.len() implies cong(ys[i], fs[i]) by {
        assert(lies_on(chosen[i], coefs));
        lemma_cong_mod(eval(coefs, xs[i]));
    }
    lemma_weighted_cong(xs, ys, fs, xs);
    assert(eval(coefs, 0) == coefs[0]);
    lemma_cong_mod(weighted_sum(xs, ys, xs));
    lemma_cong_unique(interpolated_secret(chosen), be_nat(key) as int);
    lemma_be_bytes_of_nat(key);
}

proof fn lemma_quorum_has_no_defect(chosen: Seq<ShareView>, coefs: Seq<int>, n: nat)
    requires
        n <= chosen.len(),
        forall|i: int|
            #![trigger chosen[i]]
            0 <= i < chosen.len() ==> {
                &&& lies_on(chosen[i], coefs)
                &&& chosen[i].index >= 1
            },
        forall|i: int, j: int|
            #![trigger chosen[i], chosen[j]]
            0 <= i < j < chosen.len() ==> chosen[i].index != chosen[j].index,
    ensures
        first_defect(chosen, n) is None,
    decreases n,
{
    if n > 0 {
        lemma_quorum_has_no_defect(chosen, coefs, (n - 1) as nat);
        assert(lies_on(chosen[n - 1], coefs) && lies_on(chosen[0], coefs));
        assert(share_defect(chosen, n - 1) is None);
    }
}

/// Congruent values give congruent weighted sums.
proof fn lemma_weighted_cong(points: Seq<int>, ys: Seq<int>, zs: Seq<int>, xs: Seq<int>)
    requires
        ys.len() == points.len(),
        zs.len() == points.len(),
        forall|i: int| #![trigger ys[i]] 0 <= i < ys.len() ==> cong(ys[i], zs[i]),
    ensures
        cong(weighted_sum(points, ys, xs), weighted_sum(points, zs, xs)),
    decreases points.len(),
{
    if points.len() > 0 {
        let y1 = ys.drop_last();
        let z1 = zs.drop_last();
        assert forall|i: int| #![trigger y1[i]] 0 <= i < y1.len() implies cong(y1[i], z1[i]) by {
            assert(y1[i] == ys[i]);
        }
        lemma_weighted_cong(points.drop_last(), y1, z1, xs);
        let b = basis(points.last(), xs);
        assert(cong(ys.last(), zs.last())) by {
            assert(ys[ys.len() - 1] == ys.last());
        }
        lemma_cong_mul(ys.last(), zs.last(), b, b);
        lemma_cong_add(
            weighted_sum(points.drop_last(), y1, xs),
            weighted_sum(points.drop_last(), z1, xs),
            ys.last() * b,
            zs.last() * b,
        );
    }
}

/// Fewer shares than the threshold, or more, are refused, whatever they hold.
pub proof fn law_other_share_counts_are_refused(shares: Seq<ShareView>, expected: Seq<u8>)
    requires
        shares.len() > 0,
        shares.len() != shares[0].threshold,
    ensures
        verified_reconstruction(shares, expected) == Err::<Seq<u8>, _>(
            ShamirError::WrongShareCount,
        ),
{
}

/// Whatever shares are combined, the key that comes out is one with the expected public
/// key: a wrong key is never handed out.
pub proof fn law_no_wrong_key(shares: Seq<ShareView>, expected: Seq<u8>)
    ensures
        verified_reconstruction(shares, expected) matches Ok(key) ==> public_key_of(key)
            == expected,
{
}

/// Fewer shares than the threshold say nothing about the key. Given any `threshold - 1`
/// share values at distinct places and any candidate for the key, there is exactly one
/// polynomial that splits the candidate and passes through all of them.
pub proof fn law_fewer_shares_reveal_nothing(
    threshold: nat,
    indices: Seq<int>,
    values: Seq<int>,
    candidate: int,
) -> (coefs: Seq<int>)
    requires
        threshold >= 1,
        indices.len() == threshold - 1,
        values.len() == threshold - 1,
        distinct_points(indices, 1),
        forall|i: int| #![trigger values[i]] 0 <= i < values.len() ==> 0 <= values[i] < order(),
        0 <= candidate < order(),
    ensures
        splits_candidate(coefs, threshold, indices, values, candidate),
        forall|other: Seq<int>| #[trigger]
            splits_candidate(other, threshold, indices, values, candidate) ==> other == coefs,
{
    let xs = seq![0int] + indices;
    let ys = seq![candidate] + values;
    assert forall|i: int| #![trigger xs[i]] 0 <= i < xs.len() implies 0 <= xs[i] <= 255 by {
        if i > 0 {
            assert(xs[i] == indices[i - 1]);
        }
    }
    assert forall|i: int, j: int|
        #![trigger xs[i], xs[j]]
        0 <= i < j < xs.len() implies xs[i] != xs[j] by {
        assert(xs[j] == indices[j - 1]);
        if i > 0 {
            assert(xs[i] == indices[i - 1]);
        }
    }
    let coefs = lemma_reduced_interpolant(xs, ys);
    assert(eval(coefs, 0) == coefs[0]);
    assert(xs[0] == 0);
    lemma_cong_unique(coefs[0], candidate);
    assert forall|i: int| #![trigger values[i]] 0 <= i < values.len() implies values[i] == eval(
        coefs,
        indices[i],
    ) % order() by {
        assert(xs[i + 1] == indices[i] && ys[i + 1] == values[i]);
        lemma_cong_mod(eval(coefs, indices[i]));
        lemma_cong_unique(eval(coefs, indices[i]) % order(), values[i]);
    }
    assert forall|other: Seq<int>| #[trigger]
        splits_candidate(other, threshold, indices, values, candidate) implies other == coefs by {
        assert forall|i: int| #![trigger xs[i]] 0 <= i < xs.len() implies cong(
            eval(other, xs[i]),
            eval(coefs, xs[i]),
        ) by {
            if i == 0 {
                assert(eval(other, 0) == other[0]);
            } else {
                assert(xs[i] == indices[i - 1]);
                assert(values[i - 1] == eval(other, indices[i - 1]) % order());
                lemma_cong_mod(eval(other, xs[i]));
                lemma_cong_mod(eval(coefs, xs[i]));
            }
        }
        lemma_interpolant_unique(other, coefs, xs);
    }
    coefs
}

/// The polynomial splits the candidate under the threshold, and its values at the indices
/// are the given ones.
pub open spec fn splits_candidate(
    coefs: Seq<int>,
    threshold: nat,
    indices: Seq<int>,
    values: Seq<int>,
    candidate: int,
) -> bool {
    &&& coefs.len() == threshold
    &&& is_reduced(coefs)
    &&& coefs[0] == candidate
    &&& forall|i: int|
        #![trigger values[i]]
        0 <= i < values.len() ==> values[i] == eval(coefs, indices[i]) % order()
}

/// A key can be split exactly for thresholds from 2 up to the number of shares.
pub proof fn law_splits_that_are_refused(threshold: u8, n: u8)
    ensures
        split_error(threshold, n) is None <==> 2 <= threshold <= n,
        split_error(threshold, n) == Some(ShamirError::ThresholdTooSmall) <==> threshold <= 1,
        split_error(threshold, n) == Some(ShamirError::ThresholdExceedsParties) <==> threshold >= 2
            && threshold > n,
{
}

/// Shares combine exactly if there are as many as every one of them declares, none has the
/// index 0, and no two have the same index.
pub proof fn law_shares_that_combine(shares: Seq<ShareView>)
    ensures
        combination_error(shares) is None <==> {
            &&& shares.len() > 0
            &&& forall|i: int|
                #![trigger shares[i]]
                0 <= i < shares.len() ==> shares[i].threshold == shares.len() && shares[i].index > 0
            &&& forall|i: int, j: int|
                #![trigger shares[i], shares[j]]
                0 <= i < j < shares.len() ==> shares[i].index != shares[j].index
        },
{
    if shares.len() > 0 && shares.len() == shares[0].threshold {
        lemma_defects(shares, shares.len());
    }
}

/// Whether there is anything wrong among the first `n` shares.
proof fn lemma_defects(shares: Seq<ShareView>, n: nat)
    requires
        0 < n <= shares.len(),
    ensures
        first_defect(shares, n) is None <==> {
            &&& forall|i: int|
                #![trigger shares[i]]
                0 <= i < n ==> shares[i].threshold == shares[0].threshold && shares[i].index > 0
            &&& forall|i: int, j: int|
                #![trigger shares[i], shares[j]]
                0 <= i < j < n ==> shares[i].index != shares[j].index
        },
    decreases n,
{
    reveal_with_fuel(first_defect, 2);
    if n > 1 {
        lemma_defects(shares, (n - 1) as nat);
    }
    let last = shares[n - 1];
    if first_defect(shares, n) is None {
        assert forall|i: int, j: int|
            #![trigger shares[i], shares[j]]
            0 <= i < j < n implies shares[i].index != shares[j].index by {
            if j == n - 1 {
                assert(!(0 <= i < n - 1 && shares[i].index == last.index));
            }
        }
    }
}

/// The first share with something wrong says what is wrong with all of them: another
/// threshold, the index 0, or an index that was there before, looked for in this order.
pub proof fn law_first_bad_share_is_what_counts(shares: Seq<ShareView>, k: int, j: int)
    requires
        0 <= k < shares.len(),
        shares.len() == shares[0].threshold,
        forall|a: int|
            #![trigger shares[a]]
            0 <= a < k ==> shares[a].threshold == shares[0].threshold && shares[a].index > 0,
        forall|a: int, b: int|
            #![trigger shares[a], shares[b]]
            0 <= a < b < k ==> shares[a].index != shares[b].index,
    ensures
        shares[k].threshold != shares[0].threshold ==> combination_error(shares) == Some(
            ShamirError::ThresholdMismatch,
        ),
        shares[k].threshold == shares[0].threshold && shares[k].index == 0 ==> combination_error(
            shares,
        ) == Some(ShamirError::ZeroIndexReserved),
        shares[k].threshold == shares[0].threshold && shares[k].index > 0 && 0 <= j < k
            && shares[j].index == shares[k].index ==> combination_error(shares) == Some(
            ShamirError::DuplicateShareIndex,
        ),
{
    if k > 0 {
        lemma_defects(shares, k as nat);
    }
    assert(first_defect(shares, k as nat) is None);
    assert(first_defect(shares, (k + 1) as nat) == share_defect(shares, k));
    lemma_first_defect_stays(shares, (k + 1) as nat, shares.len());
}

/// No shares at all, or shares in another number than the first one declares, are refused for
/// their number.
pub proof fn law_share_counts(shares: Seq<ShareView>)
    ensures
        shares.len() == 0 || shares.len() != shares[0].threshold ==> combination_error(shares)
            == Some(ShamirError::WrongShareCount),
{
}

/// What shares combine to is handed out exactly if its public key is the expected one; another
/// key, like the number zero, counts as a mismatch.
pub proof fn law_combined_keys_are_checked(
    shares: Seq<ShareView>,
    key: Seq<u8>,
    expected: Seq<u8>,
)
    ensures
        reconstruction(shares) == Ok::<_, ShamirError>(key) && public_key_of(key) == expected
            ==> verified_reconstruction(shares, expected) == Ok::<_, ShamirError>(key),
        reconstruction(shares) == Ok::<_, ShamirError>(key) && public_key_of(key) != expected
            ==> verified_reconstruction(shares, expected) == Err::<Seq<u8>, _>(
            ShamirError::ReconstructionMismatch,
        ),
        combination_error(shares) matches Some(e) ==> verified_reconstruction(shares, expected)
            == Err::<Seq<u8>, _>(e) && reconstruction(shares) == Err::<Seq<u8>, _>(e),
        combination_error(shares) is None && interpolated_secret(shares) == 0 ==> reconstruction(
            shares,
        ) == Err::<Seq<u8>, _>(ShamirError::ReconstructionMismatch),
        combination_error(shares) is None && interpolated_secret(shares) > 0 ==> reconstruction(
            shares,
        ) is Ok,
{
}

/// The shares of a key are numbered from 1, declare the threshold, and hold 32 bytes each.
pub proof fn law_shares_are_numbered(
    shares: Seq<ShareView>,
    key: Seq<u8>,
    threshold: u8,
    n: u8,
    i: int,
)
    requires
        shares_key(shares, key, threshold, n),
        0 <= i < n,
    ensures
        shares.len() == n,
        shares[i].index == i + 1,
        shares[i].threshold == threshold,
        shares[i].value.len() == 32,
{
    let coefs = choose|coefs: Seq<int>|
        #![trigger is_split(shares, coefs, threshold, n)]
        is_split(shares, coefs, threshold, n) && coefs[0] == be_nat(key);
    assert(lies_on(shares[i], coefs));
}

} // verus!
