//! Polynomials over the scalar field and their interpolation at zero.
//!
//! A polynomial is the sequence of its coefficients, lowest degree first, over the
//! integers. Two polynomials are the same over the field when their coefficients are
//! congruent modulo the group order.

use vstd::arithmetic::power::pow;
use vstd::prelude::*;

use crate::field::{
    cong, inv, inverse_of, lemma_cancel, lemma_cong_add, lemma_cong_mod, lemma_cong_mul,
    lemma_cong_sub, lemma_cong_unique, lemma_difference_invertible, order,
};

verus! {

/// The value of a polynomial at `x`.
pub open spec fn eval(coefs: Seq<int>, x: int) -> int
    decreases coefs.len(),
{
    if coefs.len() == 0 {
        0
    } else {
        coefs[0] + x * eval(coefs.drop_first(), x)
    }
}

/// The quotient of a polynomial by `X - a`.
pub open spec fn quotient(coefs: Seq<int>, a: int) -> Seq<int>
    decreases coefs.len(),
{
    if coefs.len() <= 1 {
        Seq::empty()
    } else {
        seq![eval(coefs.drop_first(), a)] + quotient(coefs.drop_first(), a)
    }
}

/// All of `xs` lie between `lo` and 255, and no two of them are equal.
pub open spec fn distinct_points(xs: Seq<int>, lo: int) -> bool {
    &&& forall|i: int| #![trigger xs[i]] 0 <= i < xs.len() ==> lo <= xs[i] <= 255
    &&& forall|i: int, j: int|
        #![trigger xs[i], xs[j]]
        0 <= i < j < xs.len() ==> xs[i] != xs[j]
}

/// What the point `o` contributes to the Lagrange coefficient of the point `x` at zero.
pub open spec fn basis_factor(x: int, o: int) -> int {
    if o == x {
        1
    } else {
        o * inv(o - x)
    }
}

/// The Lagrange coefficient of the point `x` for interpolation at zero through `xs`: the
/// product of `o / (o - x)` over every other point `o`.
pub open spec fn basis(x: int, xs: Seq<int>) -> int
    decreases xs.len(),
{
    if xs.len() == 0 {
        1
    } else {
        basis(x, xs.drop_last()) * basis_factor(x, xs.last())
    }
}

/// The sum of `ys[i]` weighted with the Lagrange coefficient of `points[i]` among `xs`.
pub open spec fn weighted_sum(points: Seq<int>, ys: Seq<int>, xs: Seq<int>) -> int
    decreases points.len(),
{
    if points.len() == 0 {
        0
    } else {
        weighted_sum(points.drop_last(), ys.drop_last(), xs) + ys.last() * basis(points.last(), xs)
    }
}

/// The values of a polynomial at each of `xs`.
pub open spec fn values_at(coefs: Seq<int>, xs: Seq<int>) -> Seq<int> {
    Seq::new(xs.len(), |i: int| eval(coefs, xs[i]))
}

/// A polynomial extended by one coefficient of the next higher degree.
pub proof fn lemma_eval_push(coefs: Seq<int>, c: int, x: int)
    ensures
        eval(coefs.push(c), x) == eval(coefs, x) + c * pow(x, coefs.len()),
    decreases coefs.len(),
{
    reveal(pow);
    let all = coefs.push(c);
    if coefs.len() == 0 {
        assert(all.drop_first() =~= Seq::<int>::empty());
        assert(eval(all.drop_first(), x) == 0);
        assert(c * 1 == c);
        assert(x * 0 == 0);
    } else {
        let rest = coefs.drop_first();
        assert(all.drop_first() =~= rest.push(c));
        lemma_eval_push(rest, c, x);
        let n = rest.len();
        assert(pow(x, n + 1) == x * pow(x, n));
        assert(x * (eval(rest, x) + c * pow(x, n)) == x * eval(rest, x) + c * (x * pow(x, n)))
            by (nonlinear_arith);
    }
}

/// Dividing by `X - a` leaves the value at `a` as the remainder.
pub proof fn lemma_quotient(coefs: Seq<int>, a: int, x: int)
    ensures
        eval(coefs, x) == (x - a) * eval(quotient(coefs, a), x) + eval(coefs, a),
        quotient(coefs, a).len() == if coefs.len() <= 1 {
            0
        } else {
            (coefs.len() - 1) as nat
        },
    decreases coefs.len(),
{
    if coefs.len() == 0 {
        assert((x - a) * 0 == 0);
    } else if coefs.len() == 1 {
        let rest = coefs.drop_first();
        assert(eval(rest, x) == 0 && eval(rest, a) == 0);
        assert(x * 0 == 0 && a * 0 == 0);
        assert(eval(quotient(coefs, a), x) == 0);
        assert((x - a) * 0 == 0);
    } else {
        let rest = coefs.drop_first();
        lemma_quotient(rest, a, x);
        let q = quotient(rest, a);
        let whole = quotient(coefs, a);
        assert(whole.drop_first() =~= q);
        let qx = eval(q, x);
        let ra = eval(rest, a);
        assert(eval(whole, x) == ra + x * qx);
        assert(x * ((x - a) * qx + ra) == (x - a) * (ra + x * qx) + a * ra) by (nonlinear_arith);
    }
}

/// A polynomial of at most `xs.len()` coefficients that vanishes at every point of `xs`
/// is zero over the field.
pub proof fn lemma_many_roots(coefs: Seq<int>, xs: Seq<int>)
    requires
        distinct_points(xs, 0),
        coefs.len() <= xs.len(),
        forall|i: int| #![trigger xs[i]] 0 <= i < xs.len() ==> cong(eval(coefs, xs[i]), 0),
    ensures
        forall|k: int| #![trigger coefs[k]] 0 <= k < coefs.len() ==> cong(coefs[k], 0),
    decreases coefs.len(),
{
    if coefs.len() > 0 {
        let a = xs.last();
        let q = quotient(coefs, a);
        let others = xs.drop_last();
        assert(cong(eval(coefs, a), 0));
        assert forall|i: int| #![trigger others[i]] 0 <= i < others.len() implies cong(
            eval(q, others[i]),
            0,
        ) by {
            let x = others[i];
            assert(x == xs[i]);
            lemma_quotient(coefs, a, x);
            lemma_difference_invertible(x, a);
            lemma_cong_sub(eval(coefs, x), 0, eval(coefs, a), 0);
            assert((x - a) * eval(q, x) == eval(coefs, x) - eval(coefs, a));
            assert((x - a) * 0 == 0);
            lemma_cancel(x - a, eval(q, x), 0);
        }
        lemma_quotient(coefs, a, 0);
        lemma_many_roots(q, others);
        lemma_zero_from_quotient(coefs, a);
    }
}

/// A polynomial whose quotient by `X - a` and value at `a` are zero over the field is
/// itself zero over the field.
proof fn lemma_zero_from_quotient(coefs: Seq<int>, a: int)
    requires
        forall|k: int|
            #![trigger quotient(coefs, a)[k]]
            0 <= k < quotient(coefs, a).len() ==> cong(quotient(coefs, a)[k], 0),
        cong(eval(coefs, a), 0),
    ensures
        forall|k: int| #![trigger coefs[k]] 0 <= k < coefs.len() ==> cong(coefs[k], 0),
    decreases coefs.len(),
{
    if coefs.len() == 1 {
        assert(eval(coefs.drop_first(), a) == 0);
        assert(a * 0 == 0);
    } else if coefs.len() > 1 {
        let rest = coefs.drop_first();
        let whole = quotient(coefs, a);
        let q = quotient(rest, a);
        assert(whole.drop_first() =~= q);
        assert(whole[0] == eval(rest, a));
        assert(cong(eval(rest, a), 0));
        assert forall|k: int| #![trigger q[k]] 0 <= k < q.len() implies cong(q[k], 0) by {
            assert(q[k] == whole[k + 1]);
        }
        lemma_zero_from_quotient(rest, a);
        lemma_cong_mul(a, a, eval(rest, a), 0);
        assert(a * 0 == 0);
        lemma_cong_sub(eval(coefs, a), 0, a * eval(rest, a), 0);
        assert forall|k: int| #![trigger coefs[k]] 0 <= k < coefs.len() implies cong(
            coefs[k],
            0,
        ) by {
            if k > 0 {
                assert(coefs[k] == rest[k - 1]);
            }
        }
    }
}

/// The factors of a Lagrange coefficient can be taken from the front as well.
proof fn lemma_basis_front(x: int, xs: Seq<int>)
    requires
        xs.len() > 0,
    ensures
        basis(x, xs) == basis_factor(x, xs[0]) * basis(x, xs.drop_first()),
    decreases xs.len(),
{
    if xs.len() == 1 {
        assert(xs.drop_first() =~= Seq::<int>::empty());
        assert(xs.drop_last() =~= Seq::<int>::empty());
        assert(basis(x, xs.drop_first()) == 1);
        assert(basis(x, xs.drop_last()) == 1);
    } else {
        let front = xs.drop_last();
        lemma_basis_front(x, front);
        assert(front.drop_first() =~= xs.drop_first().drop_last());
        assert(xs.drop_first().last() == xs.last());
        assert(front[0] == xs[0]);
        let f = basis_factor(x, xs[0]);
        let l = basis_factor(x, xs.last());
        let m = basis(x, front.drop_first());
        assert((f * m) * l == f * (m * l)) by (nonlinear_arith);
    }
}

/// Weighting a point with its distance from another point `o` takes `o` out of its
/// Lagrange coefficient.
proof fn lemma_basis_without(x: int, o: int, rest: int)
    requires
        0 <= x <= 255,
        0 <= o <= 255,
        x != o,
    ensures
        cong((x - o) * (rest * basis_factor(x, o)), -(o * rest)),
{
    lemma_difference_invertible(o, x);
    let e = inv(o - x);
    assert(inverse_of(o - x, e));
    let t = -(o * rest);
    lemma_cong_mul(t, t, (o - x) * e, 1);
    assert((x - o) * (rest * (o * e)) == (-(o * rest)) * ((o - x) * e)) by (nonlinear_arith);
    assert(t * 1 == t);
}

/// Sums of weighted values, with each value multiplied by the distance of its point from
/// the point `o`: that point drops out of every Lagrange coefficient.
proof fn lemma_shifted_sum(
    points: Seq<int>,
    gs: Seq<int>,
    xs: Seq<int>,
    others: Seq<int>,
    o: int,
)
    requires
        0 <= o <= 255,
        points.len() == gs.len(),
        forall|i: int|
            #![trigger points[i]]
            0 <= i < points.len() ==> {
                &&& 0 <= points[i] <= 255
                &&& points[i] != o
                &&& basis(points[i], xs) == basis(points[i], others) * basis_factor(points[i], o)
            },
    ensures
        cong(
            weighted_sum(points, Seq::new(points.len(), |i: int| (points[i] - o) * gs[i]), xs),
            -(o * weighted_sum(points, gs, others)),
        ),
    decreases points.len(),
{
    let hs = Seq::new(points.len(), |i: int| (points[i] - o) * gs[i]);
    if points.len() == 0 {
        assert(o * 0 == 0);
    } else {
        let p1 = points.drop_last();
        let g1 = gs.drop_last();
        assert forall|i: int| #![trigger p1[i]] 0 <= i < p1.len() implies {
            &&& 0 <= p1[i] <= 255
            &&& p1[i] != o
            &&& basis(p1[i], xs) == basis(p1[i], others) * basis_factor(p1[i], o)
        } by {
            assert(p1[i] == points[i]);
        }
        lemma_shifted_sum(p1, g1, xs, others, o);
        assert(hs.drop_last() =~= Seq::new(p1.len(), |i: int| (p1[i] - o) * g1[i]));
        let x = points.last();
        let g = gs.last();
        assert(x == points[points.len() - 1]);
        let rest = basis(x, others);
        lemma_basis_without(x, o, rest);
        let b = rest * basis_factor(x, o);
        lemma_cong_mul(g, g, (x - o) * b, -(o * rest));
        assert(g * ((x - o) * b) == ((x - o) * g) * b) by (nonlinear_arith);
        let w = weighted_sum(p1, g1, others);
        lemma_cong_add(
            weighted_sum(p1, hs.drop_last(), xs),
            -(o * w),
            ((x - o) * g) * b,
            g * (-(o * rest)),
        );
        assert(-(o * w) + g * (-(o * rest)) == -(o * (w + g * rest))) by (nonlinear_arith);
    }
}

/// Weighted sums are linear in the values.
proof fn lemma_weighted_linear(
    points: Seq<int>,
    ys: Seq<int>,
    zs: Seq<int>,
    c: int,
    xs: Seq<int>,
)
    requires
        ys.len() == points.len(),
        zs.len() == points.len(),
    ensures
        weighted_sum(points, Seq::new(points.len(), |i: int| ys[i] + c * zs[i]), xs)
            == weighted_sum(points, ys, xs) + c * weighted_sum(points, zs, xs),
    decreases points.len(),
{
    if points.len() == 0 {
        assert(c * 0 == 0);
    } else {
        let all = Seq::new(points.len(), |i: int| ys[i] + c * zs[i]);
        let p1 = points.drop_last();
        let y1 = ys.drop_last();
        let z1 = zs.drop_last();
        lemma_weighted_linear(p1, y1, z1, c, xs);
        assert(all.drop_last() =~= Seq::new(p1.len(), |i: int| y1[i] + c * z1[i]));
        let b = basis(points.last(), xs);
        let w = weighted_sum(p1, z1, xs);
        assert((ys.last() + c * zs.last()) * b + c * w == ys.last() * b + c * (w + zs.last() * b))
            by (nonlinear_arith);
    }
}

/// The terms of a weighted sum can be taken from the front as well.
proof fn lemma_weighted_front(points: Seq<int>, ys: Seq<int>, xs: Seq<int>)
    requires
        points.len() > 0,
        ys.len() == points.len(),
    ensures
        weighted_sum(points, ys, xs) == ys[0] * basis(points[0], xs) + weighted_sum(
            points.drop_first(),
            ys.drop_first(),
            xs,
        ),
    decreases points.len(),
{
    if points.len() == 1 {
        assert(weighted_sum(points.drop_first(), ys.drop_first(), xs) == 0);
        assert(weighted_sum(points.drop_last(), ys.drop_last(), xs) == 0);
    } else {
        let p1 = points.drop_last();
        let y1 = ys.drop_last();
        lemma_weighted_front(p1, y1, xs);
        assert(p1.drop_first() =~= points.drop_first().drop_last());
        assert(y1.drop_first() =~= ys.drop_first().drop_last());
    }
}

/// A weight of zero takes its point out of the sum.
proof fn lemma_zero_weight(b: int)
    ensures
        0 * b == 0,
{
}

pub open spec fn ones(n: nat) -> Seq<int> {
    Seq::new(n, |i: int| 1)
}

/// The Lagrange coefficients at zero add up to one.
proof fn lemma_basis_sum(xs: Seq<int>)
    requires
        distinct_points(xs, 1),
        xs.len() > 0,
    ensures
        cong(weighted_sum(xs, ones(xs.len()), xs), 1),
    decreases xs.len(),
{
    let n = xs.len();
    if n == 1 {
        assert(xs.drop_last() =~= Seq::<int>::empty());
        assert(basis(xs.last(), xs.drop_last()) == 1);
        assert(weighted_sum(xs.drop_last(), ones(1).drop_last(), xs) == 0);
        assert(basis(xs.last(), xs) == 1);
    } else {
        let first = xs[0];
        let last = xs.last();
        let init = xs.drop_last();
        let tail = xs.drop_first();
        let s = weighted_sum(xs, ones(n), xs);
        let t = weighted_sum(xs, xs, xs);
        lemma_basis_sum(init);
        lemma_basis_sum(tail);

        // Without the last point: t - last * s is congruent to -last.
        assert forall|i: int| #![trigger init[i]] 0 <= i < init.len() implies {
            &&& 0 <= init[i] <= 255
            &&& init[i] != last
            &&& basis(init[i], xs) == basis(init[i], init) * basis_factor(init[i], last)
        } by {
            assert(init[i] == xs[i]);
        }
        lemma_shifted_sum(init, ones(init.len()), xs, init, last);
        let from_last = Seq::new(n, |i: int| xs[i] + (-last) * ones(n)[i]);
        lemma_weighted_linear(xs, xs, ones(n), -last, xs);
        let short_last = Seq::new(init.len(), |i: int| (init[i] - last) * ones(init.len())[i]);
        assert forall|i: int| 0 <= i < init.len() implies from_last[i] == short_last[i] by {
            assert(ones(n)[i] == 1 && ones(init.len())[i] == 1);
            assert((-last) * 1 == -last && (init[i] - last) * 1 == init[i] - last);
        }
        assert(from_last.drop_last() =~= short_last);
        lemma_zero_weight(basis(last, xs));
        assert(weighted_sum(xs, from_last, xs) == weighted_sum(init, from_last.drop_last(), xs));
        lemma_cong_mul(
            -last,
            -last,
            weighted_sum(init, ones(init.len()), init),
            1,
        );
        assert((-last) * weighted_sum(init, ones(init.len()), init) == -(last * weighted_sum(
            init,
            ones(init.len()),
            init,
        ))) by (nonlinear_arith);
        assert(cong(t + (-last) * s, -last));

        // Without the first point: t - first * s is congruent to -first.
        assert forall|i: int| #![trigger tail[i]] 0 <= i < tail.len() implies {
            &&& 0 <= tail[i] <= 255
            &&& tail[i] != first
            &&& basis(tail[i], xs) == basis(tail[i], tail) * basis_factor(tail[i], first)
        } by {
            assert(tail[i] == xs[i + 1]);
            lemma_basis_front(tail[i], xs);
            vstd::arithmetic::mul::lemma_mul_is_commutative(
                basis_factor(tail[i], first),
                basis(tail[i], tail),
            );
        }
        lemma_shifted_sum(tail, ones(tail.len()), xs, tail, first);
        let from_first = Seq::new(n, |i: int| xs[i] + (-first) * ones(n)[i]);
        lemma_weighted_linear(xs, xs, ones(n), -first, xs);
        let short_first = Seq::new(tail.len(), |i: int| (tail[i] - first) * ones(tail.len())[i]);
        assert forall|i: int| 0 <= i < tail.len() implies from_first[i + 1] == short_first[i] by {
            assert(ones(n)[i + 1] == 1 && ones(tail.len())[i] == 1);
            assert((-first) * 1 == -first && (tail[i] - first) * 1 == tail[i] - first);
        }
        assert(from_first.drop_first() =~= short_first);
        lemma_zero_weight(basis(first, xs));
        lemma_weighted_front(xs, from_first, xs);
        lemma_cong_mul(
            -first,
            -first,
            weighted_sum(tail, ones(tail.len()), tail),
            1,
        );
        assert((-first) * weighted_sum(tail, ones(tail.len()), tail) == -(first * weighted_sum(
            tail,
            ones(tail.len()),
            tail,
        ))) by (nonlinear_arith);
        assert(cong(t + (-first) * s, -first));

        // The difference of the two determines s.
        lemma_cong_sub(t + (-first) * s, -first, t + (-last) * s, -last);
        assert((t + (-first) * s) - (t + (-last) * s) == (last - first) * s) by (nonlinear_arith);
        assert((last - first) * 1 == last - first);
        assert(first != last) by {
            assert(xs[0] != xs[n - 1]);
        }
        lemma_difference_invertible(last, first);
        lemma_cancel(last - first, s, 1);
    }
}

/// Interpolation at zero: the values of a polynomial of at most `xs.len()` coefficients at
/// the points `xs`, weighted with the Lagrange coefficients, add up to its constant term.
pub proof fn lemma_interpolation(coefs: Seq<int>, xs: Seq<int>)
    requires
        distinct_points(xs, 1),
        0 < xs.len(),
        coefs.len() <= xs.len(),
    ensures
        cong(weighted_sum(xs, values_at(coefs, xs), xs), eval(coefs, 0)),
    decreases xs.len(),
{
    let n = xs.len();
    let ys = values_at(coefs, xs);
    let o = xs.last();
    let fo = eval(coefs, o);
    let q = quotient(coefs, o);
    let init = xs.drop_last();
    let qs = values_at(q, init);
    let s = weighted_sum(xs, ones(n), xs);
    lemma_basis_sum(xs);
    lemma_quotient(coefs, o, 0);

    // f(x) = (x - o) * q(x) + f(o) splits the sum in two.
    let shifted = Seq::new(n, |i: int| (xs[i] - o) * eval(q, xs[i]));
    assert forall|i: int| 0 <= i < n implies ys[i] == shifted[i] + fo * ones(n)[i] by {
        lemma_quotient(coefs, o, xs[i]);
    }
    assert(ys =~= Seq::new(n, |i: int| shifted[i] + fo * ones(n)[i]));
    lemma_weighted_linear(xs, shifted, ones(n), fo, xs);

    // The last point drops out of the first part.
    assert forall|i: int| #![trigger init[i]] 0 <= i < init.len() implies {
        &&& 0 <= init[i] <= 255
        &&& init[i] != o
        &&& basis(init[i], xs) == basis(init[i], init) * basis_factor(init[i], o)
    } by {
        assert(init[i] == xs[i]);
    }
    lemma_shifted_sum(init, qs, xs, init, o);
    assert(shifted.drop_last() =~= Seq::new(init.len(), |i: int| (init[i] - o) * qs[i]));
    lemma_zero_weight(basis(o, xs));
    assert(shifted.last() == 0) by {
        lemma_zero_weight(eval(q, o));
    }
    let w = weighted_sum(init, qs, init);
    assert(cong(weighted_sum(xs, shifted, xs), -(o * w)));
    if n == 1 {
        assert(w == 0);
        assert(q.len() == 0);
        assert(eval(q, 0) == 0);
    } else {
        lemma_interpolation(q, init);
    }
    lemma_cong_mul(o, o, w, eval(q, 0));
    lemma_cong_sub(0, 0, o * w, o * eval(q, 0));
    lemma_cong_mul(fo, fo, s, 1);
    lemma_cong_add(weighted_sum(xs, shifted, xs), -(o * eval(q, 0)), fo * s, fo * 1);
    assert((0 - o) * eval(q, 0) == -(o * eval(q, 0))) by (nonlinear_arith);
}

/// The polynomial `c + (X - a) * g`.
spec fn affine_product(g: Seq<int>, a: int, c: int) -> Seq<int>
    decreases g.len(),
{
    if g.len() == 0 {
        seq![c]
    } else {
        seq![c - a * g[0]] + affine_product(g.drop_first(), a, g[0])
    }
}

proof fn lemma_affine_product(g: Seq<int>, a: int, c: int, x: int)
    ensures
        affine_product(g, a, c).len() == g.len() + 1,
        eval(affine_product(g, a, c), x) == c + (x - a) * eval(g, x),
    decreases g.len(),
{
    let all = affine_product(g, a, c);
    if g.len() == 0 {
        assert(eval(all.drop_first(), x) == 0);
        assert(x * 0 == 0);
        assert((x - a) * 0 == 0);
    } else {
        let rest = g.drop_first();
        lemma_affine_product(rest, a, g[0], x);
        assert(all.drop_first() =~= affine_product(rest, a, g[0]));
        let r = eval(rest, x);
        assert((c - a * g[0]) + x * (g[0] + (x - a) * r) == c + (x - a) * (g[0] + x * r))
            by (nonlinear_arith);
    }
}

/// Through any points at distinct places there is a polynomial with as many coefficients
/// as there are points.
proof fn lemma_interpolant(xs: Seq<int>, ys: Seq<int>) -> (coefs: Seq<int>)
    requires
        distinct_points(xs, 0),
        ys.len() == xs.len(),
    ensures
        coefs.len() == xs.len(),
        forall|i: int| #![trigger xs[i]] 0 <= i < xs.len() ==> cong(eval(coefs, xs[i]), ys[i]),
    decreases xs.len(),
{
    if xs.len() == 0 {
        Seq::empty()
    } else {
        let x0 = xs[0];
        let y0 = ys[0];
        let rest = xs.drop_first();
        let slopes = Seq::new(rest.len(), |i: int| (ys[i + 1] - y0) * inv(rest[i] - x0));
        let g = lemma_interpolant(rest, slopes);
        let coefs = affine_product(g, x0, y0);
        lemma_affine_product(g, x0, y0, x0);
        assert forall|i: int| #![trigger xs[i]] 0 <= i < xs.len() implies cong(
            eval(coefs, xs[i]),
            ys[i],
        ) by {
            lemma_affine_product(g, x0, y0, xs[i]);
            if i == 0 {
                lemma_zero_weight(eval(g, x0));
            } else {
                let x = xs[i];
                assert(rest[i - 1] == x);
                assert(xs[0] != xs[i]);
                lemma_difference_invertible(x, x0);
                let e = inv(x - x0);
                assert(inverse_of(x - x0, e));
                let dy = ys[i] - y0;
                assert(slopes[i - 1] == dy * e);
                lemma_cong_mul(x - x0, x - x0, eval(g, x), dy * e);
                lemma_cong_mul(dy, dy, (x - x0) * e, 1);
                assert((x - x0) * (dy * e) == dy * ((x - x0) * e)) by (nonlinear_arith);
                lemma_cong_add(y0, y0, (x - x0) * eval(g, x), dy);
            }
        }
        coefs
    }
}

/// The same polynomial over the field, with every coefficient reduced.
pub open spec fn reduced(coefs: Seq<int>) -> Seq<int> {
    Seq::new(coefs.len(), |k: int| coefs[k] % order())
}

/// Congruent coefficients give congruent values.
pub proof fn lemma_eval_cong(a: Seq<int>, b: Seq<int>, x: int)
    requires
        a.len() == b.len(),
        forall|k: int| #![trigger a[k]] 0 <= k < a.len() ==> cong(a[k], b[k]),
    ensures
        cong(eval(a, x), eval(b, x)),
    decreases a.len(),
{
    if a.len() > 0 {
        let a1 = a.drop_first();
        let b1 = b.drop_first();
        assert forall|k: int| #![trigger a1[k]] 0 <= k < a1.len() implies cong(a1[k], b1[k]) by {
            assert(a1[k] == a[k + 1]);
        }
        lemma_eval_cong(a1, b1, x);
        lemma_cong_mul(x, x, eval(a1, x), eval(b1, x));
        lemma_cong_add(a[0], b[0], x * eval(a1, x), x * eval(b1, x));
    }
}

/// All coefficients are reduced field elements.
pub open spec fn is_reduced(coefs: Seq<int>) -> bool {
    forall|k: int| #![trigger coefs[k]] 0 <= k < coefs.len() ==> 0 <= coefs[k] < order()
}

/// Through any points at distinct places there is a polynomial with as many reduced
/// coefficients as there are points.
pub proof fn lemma_reduced_interpolant(xs: Seq<int>, ys: Seq<int>) -> (coefs: Seq<int>)
    requires
        distinct_points(xs, 0),
        ys.len() == xs.len(),
    ensures
        coefs.len() == xs.len(),
        is_reduced(coefs),
        forall|i: int| #![trigger xs[i]] 0 <= i < xs.len() ==> cong(eval(coefs, xs[i]), ys[i]),
{
    let raw = lemma_interpolant(xs, ys);
    let coefs = reduced(raw);
    assert forall|k: int| #![trigger coefs[k]] 0 <= k < coefs.len() implies 0 <= coefs[k] < order()
        && cong(coefs[k], raw[k]) by {
        lemma_cong_mod(raw[k]);
    }
    assert forall|i: int| #![trigger xs[i]] 0 <= i < xs.len() implies cong(
        eval(coefs, xs[i]),
        ys[i],
    ) by {
        lemma_eval_cong(coefs, raw, xs[i]);
    }
    coefs
}

/// Two polynomials with as many reduced coefficients as there are points, and the same
/// values at all of them, are the same.
pub proof fn lemma_interpolant_unique(a: Seq<int>, b: Seq<int>, xs: Seq<int>)
    requires
        distinct_points(xs, 0),
        a.len() == xs.len(),
        b.len() == xs.len(),
        is_reduced(a),
        is_reduced(b),
        forall|i: int| #![trigger xs[i]] 0 <= i < xs.len() ==> cong(eval(a, xs[i]), eval(b, xs[i])),
    ensures
        a == b,
{
    let d = Seq::new(a.len(), |k: int| a[k] - b[k]);
    assert forall|i: int| #![trigger xs[i]] 0 <= i < xs.len() implies cong(eval(d, xs[i]), 0) by {
        lemma_eval_difference(a, b, xs[i]);
        lemma_cong_sub(eval(a, xs[i]), eval(b, xs[i]), eval(b, xs[i]), eval(b, xs[i]));
    }
    lemma_many_roots(d, xs);
    assert forall|k: int| 0 <= k < a.len() implies a[k] == b[k] by {
        assert(cong(d[k], 0));
        lemma_cong_add(d[k], 0, b[k], b[k]);
        lemma_cong_unique(a[k], b[k]);
    }
    assert(a =~= b);
}

proof fn lemma_eval_difference(a: Seq<int>, b: Seq<int>, x: int)
    requires
        a.len() == b.len(),
    ensures
        eval(Seq::new(a.len(), |k: int| a[k] - b[k]), x) == eval(a, x) - eval(b, x),
    decreases a.len(),
{
    if a.len() > 0 {
        let d = Seq::new(a.len(), |k: int| a[k] - b[k]);
        let a1 = a.drop_first();
        let b1 = b.drop_first();
        lemma_eval_difference(a1, b1, x);
        assert(d.drop_first() =~= Seq::new(a1.len(), |k: int| a1[k] - b1[k]));
        assert(x * (eval(a1, x) - eval(b1, x)) == x * eval(a1, x) - x * eval(b1, x))
            by (nonlinear_arith);
    }
}

} // verus!
