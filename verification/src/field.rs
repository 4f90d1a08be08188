//! Arithmetic modulo the order of the secp256k1 group, stated over the integers.
//!
//! Everything here is ghost: the executable scalars live in `scalar`. Two integers are
//! treated as the same field element when they are congruent modulo `order()`.

use vstd::prelude::*;

verus! {

/// The order of the secp256k1 group: the modulus of the scalar field.
#[verifier::opaque]
pub open spec fn order() -> int {
    0xFFFFFFFF_FFFFFFFF_FFFFFFFF_FFFFFFFE_BAAEDCE6_AF48A03B_BFD25E8C_D0364141int
}

/// Congruence modulo the group order.
pub open spec fn cong(a: int, b: int) -> bool {
    a % order() == b % order()
}

/// `b` is a multiplicative inverse of `a` in the scalar field.
pub open spec fn inverse_of(a: int, b: int) -> bool {
    cong(a * b, 1)
}

/// `a` has a multiplicative inverse in the scalar field.
pub open spec fn invertible(a: int) -> bool {
    exists|b: int| inverse_of(a, b)
}

/// Some inverse of `a`, where there is one.
pub open spec fn inv(a: int) -> int {
    choose|b: int| inverse_of(a, b)
}

pub proof fn lemma_order_bounds()
    ensures
        1 < order(),
        order() < 0x1_0000000000000000_0000000000000000_0000000000000000_0000000000000000int,
        255 < order(),
{
    reveal(order);
}

pub proof fn lemma_cong_add(a: int, b: int, c: int, d: int)
    requires
        cong(a, b),
        cong(c, d),
    ensures
        cong(a + c, b + d),
{
    lemma_order_bounds();
    vstd::arithmetic::div_mod::lemma_add_mod_noop(a, c, order());
    vstd::arithmetic::div_mod::lemma_add_mod_noop(b, d, order());
}

pub proof fn lemma_cong_sub(a: int, b: int, c: int, d: int)
    requires
        cong(a, b),
        cong(c, d),
    ensures
        cong(a - c, b - d),
{
    lemma_order_bounds();
    vstd::arithmetic::div_mod::lemma_sub_mod_noop(a, c, order());
    vstd::arithmetic::div_mod::lemma_sub_mod_noop(b, d, order());
}

pub proof fn lemma_cong_mul(a: int, b: int, c: int, d: int)
    requires
        cong(a, b),
        cong(c, d),
    ensures
        cong(a * c, b * d),
{
    lemma_order_bounds();
    vstd::arithmetic::div_mod::lemma_mul_mod_noop(a, c, order());
    vstd::arithmetic::div_mod::lemma_mul_mod_noop(b, d, order());
}

/// An integer is congruent to its remainder.
pub proof fn lemma_cong_mod(a: int)
    ensures
        cong(a % order(), a),
        0 <= a % order() < order(),
{
    lemma_order_bounds();
    vstd::arithmetic::div_mod::lemma_mod_twice(a, order());
    vstd::arithmetic::div_mod::lemma_mod_bound(a, order());
}

/// Reduced representatives are unique.
pub proof fn lemma_cong_unique(a: int, b: int)
    requires
        cong(a, b),
        0 <= a < order(),
        0 <= b < order(),
    ensures
        a == b,
{
    vstd::arithmetic::div_mod::lemma_small_mod(a as nat, order() as nat);
    vstd::arithmetic::div_mod::lemma_small_mod(b as nat, order() as nat);
}

/// Invertible factors can be cancelled.
pub proof fn lemma_cancel(d: int, a: int, b: int)
    requires
        invertible(d),
        cong(d * a, d * b),
    ensures
        cong(a, b),
{
    let e = inv(d);
    assert(inverse_of(d, e));
    lemma_cong_mul(e, e, d * a, d * b);
    lemma_cong_mul(d * e, 1, a, a);
    lemma_cong_mul(d * e, 1, b, b);
    assert(e * (d * a) == (d * e) * a) by (nonlinear_arith);
    assert(e * (d * b) == (d * e) * b) by (nonlinear_arith);
}

/// A product of invertible elements is invertible.
pub proof fn lemma_invertible_mul(a: int, b: int)
    requires
        invertible(a),
        invertible(b),
    ensures
        invertible(a * b),
{
    let c = inv(a);
    let d = inv(b);
    assert(inverse_of(a, c) && inverse_of(b, d));
    lemma_cong_mul(a * c, 1, b * d, 1);
    assert((a * c) * (b * d) == (a * b) * (c * d)) by (nonlinear_arith);
    assert(inverse_of(a * b, c * d));
}

/// Invertibility depends on the residue class alone.
pub proof fn lemma_invertible_cong(a: int, b: int)
    requires
        invertible(a),
        cong(a, b),
    ensures
        invertible(b),
{
    let c = inv(a);
    assert(inverse_of(a, c));
    lemma_cong_mul(a, b, c, c);
    assert(inverse_of(b, c));
}

/// The opposite of an invertible element is invertible.
pub proof fn lemma_invertible_neg(a: int)
    requires
        invertible(a),
    ensures
        invertible(-a),
{
    let c = inv(a);
    assert(inverse_of(a, c));
    assert((-a) * (-c) == a * c) by (nonlinear_arith);
    assert(inverse_of(-a, -c));
}

/// An invertible element is not zero in the field.
pub proof fn lemma_invertible_nonzero(a: int)
    requires
        invertible(a),
    ensures
        a % order() != 0,
{
    lemma_order_bounds();
    let c = inv(a);
    assert(inverse_of(a, c));
    if a % order() == 0 {
        vstd::arithmetic::div_mod::lemma_small_mod(0, order() as nat);
        lemma_cong_mul(a, 0, c, c);
        assert(0 * c == 0);
        vstd::arithmetic::div_mod::lemma_small_mod(1, order() as nat);
        assert(false);
    }
}

/// Both factors of an invertible product are invertible.
proof fn lemma_invertible_factors(a: int, b: int)
    requires
        invertible(a * b),
    ensures
        invertible(a),
        invertible(b),
{
    let e = inv(a * b);
    assert(inverse_of(a * b, e));
    assert((a * b) * e == a * (b * e)) by (nonlinear_arith);
    assert((a * b) * e == b * (a * e)) by (nonlinear_arith);
    assert(inverse_of(a, b * e));
    assert(inverse_of(b, a * e));
}

/// The product of the sixteen integers that follow `lo`.
spec fn product_of_sixteen(lo: int) -> int {
    (lo + 1) * (lo + 2) * (lo + 3) * (lo + 4) * (lo + 5) * (lo + 6) * (lo + 7) * (lo + 8) * (lo
        + 9) * (lo + 10) * (lo + 11) * (lo + 12) * (lo + 13) * (lo + 14) * (lo + 15) * (lo + 16)
}

/// Where the product of sixteen successive integers is invertible, so is each of them.
proof fn lemma_member_invertible(lo: int, d: int)
    requires
        invertible(product_of_sixteen(lo)),
        lo < d <= lo + 16,
    ensures
        invertible(d),
{
    let p2 = (lo + 1) * (lo + 2);
    let p3 = p2 * (lo + 3);
    let p4 = p3 * (lo + 4);
    let p5 = p4 * (lo + 5);
    let p6 = p5 * (lo + 6);
    let p7 = p6 * (lo + 7);
    let p8 = p7 * (lo + 8);
    let p9 = p8 * (lo + 9);
    let p10 = p9 * (lo + 10);
    let p11 = p10 * (lo + 11);
    let p12 = p11 * (lo + 12);
    let p13 = p12 * (lo + 13);
    let p14 = p13 * (lo + 14);
    let p15 = p14 * (lo + 15);
    lemma_invertible_factors(p15, lo + 16);
    lemma_invertible_factors(p14, lo + 15);
    lemma_invertible_factors(p13, lo + 14);
    lemma_invertible_factors(p12, lo + 13);
    lemma_invertible_factors(p11, lo + 12);
    lemma_invertible_factors(p10, lo + 11);
    lemma_invertible_factors(p9, lo + 10);
    lemma_invertible_factors(p8, lo + 9);
    lemma_invertible_factors(p7, lo + 8);
    lemma_invertible_factors(p6, lo + 7);
    lemma_invertible_factors(p5, lo + 6);
    lemma_invertible_factors(p4, lo + 5);
    lemma_invertible_factors(p3, lo + 4);
    lemma_invertible_factors(p2, lo + 3);
    lemma_invertible_factors(lo + 1, lo + 2);
}

/// A Bezout identity between `p` and the group order makes `p` invertible.
proof fn lemma_bezout_invertible(p: int, x: int, y: int)
    requires
        p * x == 1 + y * order(),
    ensures
        invertible(p),
{
    lemma_order_bounds();
    vstd::arithmetic::div_mod::lemma_mod_multiples_vanish(y, 1, order());
    assert(order() * y + 1 == 1 + y * order()) by (nonlinear_arith);
    assert(inverse_of(p, x));
}

/// Every integer from 1 to 255 has an inverse in the scalar field. The integers are taken
/// in sixteens: one Bezout identity for the product of each sixteen covers all of them.
pub proof fn lemma_small_invertible(d: int)
    requires
        1 <= d <= 255,
    ensures
        invertible(d),
{
    reveal(order);
    if d <= 16 {
        lemma_bezout_invertible(
            0x130777758000int,
            0x36621cdc17fd272badddd1baa2f2dda4d59e01e026e1cff89c445763b2cd5d02int,
            0x40ade33b13fint,
        );
        assert(product_of_sixteen(0) == 0x130777758000int);
        lemma_member_invertible(0, d);
    } else if d <= 32 {
        lemma_bezout_invertible(
            0x2a9c2ed62ea35210000int,
            0x75aa8c12844c45fec50637d6035714c60abf0c5045fec1a7b7c954716a4431bint,
            0x1395c46f7c2943b13fint,
        );
        assert(product_of_sixteen(16) == 0x2a9c2ed62ea35210000int);
        lemma_member_invertible(16, d);
    } else if d <= 48 {
        lemma_bezout_invertible(
            0x270645dee156152eb28000int,
            0xa4c294bdc4ca47ffbbdca5a77031d2c326d066e5a14d963349a5be3c69a23cf3int,
            0x191dae304947fc0b98313fint,
        );
        assert(product_of_sixteen(32) == 0x270645dee156152eb28000int);
        lemma_member_invertible(32, d);
    } else if d <= 64 {
        lemma_bezout_invertible(
            0x2106e64dd628d678fb5a0000int,
            0x78a006daf94bc78235fc9b4c51a2208892d10f8eeb780647276efb527bc11ce3int,
            0xf8fe126d6786c206cd6b13fint,
        );
        assert(product_of_sixteen(48) == 0x2106e64dd628d678fb5a0000int);
        lemma_member_invertible(48, d);
    } else if d <= 80 {
        lemma_bezout_invertible(
            0x71e83f14116e88f99b3c78000int,
            0xa402a50bae961453aa274e8a1ecd9a4a29ef6881b79b2b0871fc3d65b289c358int,
            0x48f9f5a93ca439b5eff9cb13fint,
        );
        assert(product_of_sixteen(64) == 0x71e83f14116e88f99b3c78000int);
        lemma_member_invertible(64, d);
    } else if d <= 96 {
        lemma_bezout_invertible(
            0xaee3abebcc4e4a6191522b0000int,
            0x632e6e85f4fbb1d0b06516e78229c21203297de230097e4016e86c2bd43ef7bbint,
            0x43c1c3e66be592b02ba4b1b13fint,
        );
        assert(product_of_sixteen(80) == 0xaee3abebcc4e4a6191522b0000int);
        lemma_member_invertible(80, d);
    } else if d <= 112 {
        lemma_bezout_invertible(
            0x9d11796b3fa23d6aadc92348000int,
            0x3a5ee4875f01d0e4e745d95221ffd7dd012b95ff366d6c56e9552b71b88a9a1bint,
            0x23d02e2380714502aff2232313fint,
        );
        assert(product_of_sixteen(96) == 0x9d11796b3fa23d6aadc92348000int);
        lemma_member_invertible(96, d);
    } else if d <= 128 {
        lemma_bezout_invertible(
            0x604a47c718b02b82204a51140000int,
            0x4202d27c28a0156eb483e830066d12496a6e5ffaea19d6b25c2f86ebc9009e3int,
            0x18d43641860f84fc105c344b13fint,
        );
        assert(product_of_sixteen(112) == 0x604a47c718b02b82204a51140000int);
        lemma_member_invertible(112, d);
    } else if d <= 144 {
        lemma_bezout_invertible(
            0x2c5a31b27c159ce1bffe56d798000int,
            0xaa2e54c3efd35a61aa03160486bf0b5d1760046cc8d971b516e7bfa8238b8298int,
            0x1d7bebe4ff07e420ef0e6dbacb13fint,
        );
        assert(product_of_sixteen(128) == 0x2c5a31b27c159ce1bffe56d798000int);
        lemma_member_invertible(128, d);
    } else if d <= 160 {
        lemma_bezout_invertible(
            0x105c22ab39406ac5ac813127950000int,
            0x3d7d63fba30261d64e17c6a65fa20d7107e6f1d1819c9de2d9c3167bded70897int,
            0x3edf7a3706853f62e030f2aabb13fint,
        );
        assert(product_of_sixteen(144) == 0x105c22ab39406ac5ac813127950000int);
        lemma_member_invertible(144, d);
    } else if d <= 176 {
        lemma_bezout_invertible(
            0x50d78b106a8bc4627c7a9001168000int,
            0x6fc042adec581780b7c9ecdeb8d1c33773b9f631e7f0a9d6d47962937fc8c39bint,
            0x234a2c02e8a83e40fa16ee5248313fint,
        );
        assert(product_of_sixteen(160) == 0x50d78b106a8bc4627c7a9001168000int);
        lemma_member_invertible(160, d);
    } else if d <= 192 {
        lemma_bezout_invertible(
            0x15978b7dd46c2f16971492d1d2e0000int,
            0xb305405e2e988b3e5f8a293162280893123b824e91600e02aec2975981d13989int,
            0xf1967ec896f9122bcf4d590ba6b13fint,
        );
        assert(product_of_sixteen(176) == 0x15978b7dd46c2f16971492d1d2e0000int);
        lemma_member_invertible(176, d);
    } else if d <= 208 {
        lemma_bezout_invertible(
            0x51c138ae997be9f2fa71e40208b8000int,
            0xb3354ed3355bcc4002fbad0fe1184f35ecc3fd1093fcb8a74af1d1a92810a2bdint,
            0x393b20cf2408a78e4d19be2dea6313fint,
        );
        assert(product_of_sixteen(192) == 0x51c138ae997be9f2fa71e40208b8000int);
        lemma_member_invertible(192, d);
    } else if d <= 224 {
        lemma_bezout_invertible(
            0x1176dc4c6ba9f2022343ea03915f0000int,
            0x993321611c9c616d6e6d05a914ccecb62ea967d3fd136520448bf51fb722e196int,
            0xa73869e81f502804c0d0cc34db2b13fint,
        );
        assert(product_of_sixteen(208) == 0x1176dc4c6ba9f2022343ea03915f0000int);
        lemma_member_invertible(208, d);
    } else if d <= 240 {
        lemma_bezout_invertible(
            0x36ad3619b7ff606b6ee23235b7588000int,
            0x9c43ec3dbec77dea8822b51643b844f10e2b02d6054f0e9492bce6d129ff2aaaint,
            0x21600ec1b2bf8a08c7cbe177750db13fint,
        );
        assert(product_of_sixteen(224) == 0x36ad3619b7ff606b6ee23235b7588000int);
        lemma_member_invertible(224, d);
    } else {
        lemma_bezout_invertible(
            0x9ea529e5d12e4eaa2b31377bfba80000int,
            0x837af5d92290ecbaca5b38cd9c5d657707d6037345df3948a93affe6e7738fafint,
            0x517ab7813215967e4dd147b5e760b13fint,
        );
        assert(product_of_sixteen(240) == 0x9ea529e5d12e4eaa2b31377bfba80000int);
        lemma_member_invertible(240, d);
    }
}

/// Two distinct integers between 0 and 255 differ by an invertible amount.
pub proof fn lemma_difference_invertible(a: int, b: int)
    requires
        0 <= a <= 255,
        0 <= b <= 255,
        a != b,
    ensures
        invertible(a - b),
{
    if a > b {
        lemma_small_invertible(a - b);
    } else {
        lemma_small_invertible(b - a);
        lemma_invertible_neg(b - a);
    }
}

} // verus!
