//! Exact coordinates for the icosahedron: numbers of the form `a + b·φ`,
//! where φ is the golden ratio, and three-dimensional vectors of them.
use vstd::arithmetic::mul::{
    lemma_mul_is_associative, lemma_mul_is_commutative, lemma_mul_is_distributive_add,
    lemma_mul_is_distributive_add_other_way,
};
use vstd::prelude::*;

verus! {

/// The number `int_part + phi_part · φ`, with φ = (1 + √5) / 2.
///
/// Every coordinate of an icosahedron vertex, and every integer-weighted
/// sum of such coordinates, has this form, so the geometry of the sphere
/// can be computed without rounding.
#[derive(Clone, Copy, Debug, PartialEq, Eq, Structural)]
pub struct Golden {
    pub int_part: i64,
    pub phi_part: i64,
}

/// A vector whose components are golden numbers.
#[derive(Clone, Copy, Debug, PartialEq, Eq, Structural)]
pub struct GoldenVec3 {
    pub x: Golden,
    pub y: Golden,
    pub z: Golden,
}

pub open spec fn golden(int_part: int, phi_part: int) -> Golden {
    Golden { int_part: int_part as i64, phi_part: phi_part as i64 }
}

pub open spec fn vec3(x: Golden, y: Golden, z: Golden) -> GoldenVec3 {
    GoldenVec3 { x, y, z }
}

/// The product of two golden numbers, as the pair (integer part, φ part).
/// Since φ² = φ + 1, (a + bφ)(c + dφ) = (ac + bd) + (ad + bc + bd)φ.
pub open spec fn golden_mul(g: Golden, h: Golden) -> (int, int) {
    let a = g.int_part as int;
    let b = g.phi_part as int;
    let c = h.int_part as int;
    let d = h.phi_part as int;
    (a * c + b * d, a * d + b * c + b * d)
}

/// The dot product of two vectors, as the pair (integer part, φ part).
pub open spec fn dot(v: GoldenVec3, w: GoldenVec3) -> (int, int) {
    let (xa, xb) = golden_mul(v.x, w.x);
    let (ya, yb) = golden_mul(v.y, w.y);
    let (za, zb) = golden_mul(v.z, w.z);
    (xa + ya + za, xb + yb + zb)
}

/// The squared Euclidean length of a vector, as the pair
/// (integer part, φ part).
pub open spec fn length_sq(v: GoldenVec3) -> (int, int) {
    dot(v, v)
}

/// The sum of three vectors with coordinates in {0, ±1, ±φ}.
pub open spec fn sum_vec3(a: GoldenVec3, b: GoldenVec3, c: GoldenVec3) -> GoldenVec3 {
    weighted_vec3(1, a, 1, b, 1, c)
}

/// Whether each coordinate of `v` is one of 0, ±1 and ±φ.
pub open spec fn unit_coords(v: GoldenVec3) -> bool {
    &&& -1 <= v.x.int_part <= 1 && -1 <= v.x.phi_part <= 1
    &&& -1 <= v.y.int_part <= 1 && -1 <= v.y.phi_part <= 1
    &&& -1 <= v.z.int_part <= 1 && -1 <= v.z.phi_part <= 1
}

/// The sum `wa·a + wb·b + wc·c` of three integers.
pub open spec fn weighted(wa: u32, a: i64, wb: u32, b: i64, wc: u32, c: i64) -> int {
    wa as int * a as int + wb as int * b as int + wc as int * c as int
}

pub open spec fn weighted_golden(wa: u32, a: Golden, wb: u32, b: Golden, wc: u32, c: Golden) -> Golden {
    golden(
        weighted(wa, a.int_part, wb, b.int_part, wc, c.int_part),
        weighted(wa, a.phi_part, wb, b.phi_part, wc, c.phi_part),
    )
}

/// The vector `wa·a + wb·b + wc·c`.
pub open spec fn weighted_vec3(
    wa: u32,
    a: GoldenVec3,
    wb: u32,
    b: GoldenVec3,
    wc: u32,
    c: GoldenVec3,
) -> GoldenVec3 {
    vec3(
        weighted_golden(wa, a.x, wb, b.x, wc, c.x),
        weighted_golden(wa, a.y, wb, b.y, wc, c.y),
        weighted_golden(wa, a.z, wb, b.z, wc, c.z),
    )
}

proof fn lemma_small_product(w: u32, a: i64)
    requires
        -1 <= a <= 1,
    ensures
        -(w as int) <= w as int * a as int <= w as int,
{
    assert(-(w as int) <= w as int * a as int <= w as int) by (nonlinear_arith)
        requires -1 <= a <= 1, w >= 0;
}

proof fn lemma_weighted_mul(wa: u32, a: Golden, wb: u32, b: Golden, wc: u32, c: Golden, h: Golden)
    requires
        -1 <= a.int_part <= 1 && -1 <= a.phi_part <= 1,
        -1 <= b.int_part <= 1 && -1 <= b.phi_part <= 1,
        -1 <= c.int_part <= 1 && -1 <= c.phi_part <= 1,
    ensures
        golden_mul(weighted_golden(wa, a, wb, b, wc, c), h).0 == wa * golden_mul(a, h).0 + wb
            * golden_mul(b, h).0 + wc * golden_mul(c, h).0,
        golden_mul(weighted_golden(wa, a, wb, b, wc, c), h).1 == wa * golden_mul(a, h).1 + wb
            * golden_mul(b, h).1 + wc * golden_mul(c, h).1,
{
    lemma_small_product(wa, a.int_part);
    lemma_small_product(wb, b.int_part);
    lemma_small_product(wc, c.int_part);
    lemma_small_product(wa, a.phi_part);
    lemma_small_product(wb, b.phi_part);
    lemma_small_product(wc, c.phi_part);
    let m = weighted_golden(wa, a, wb, b, wc, c);
    let (x, y) = (m.int_part as int, m.phi_part as int);
    let (ai, ap, bi, bp, ci, cp) = (
        a.int_part as int,
        a.phi_part as int,
        b.int_part as int,
        b.phi_part as int,
        c.int_part as int,
        c.phi_part as int,
    );
    let (hc, hd) = (h.int_part as int, h.phi_part as int);
    let (wa, wb, wc) = (wa as int, wb as int, wc as int);
    assert(x == wa * ai + wb * bi + wc * ci);
    assert(y == wa * ap + wb * bp + wc * cp);
    lemma_distrib3(wa, wb, wc, ai, bi, ci, hc);
    lemma_distrib3(wa, wb, wc, ap, bp, cp, hd);
    lemma_distrib3(wa, wb, wc, ai, bi, ci, hd);
    lemma_distrib3(wa, wb, wc, ap, bp, cp, hc);
    lemma_mul_is_distributive_add(wa, ai * hc, ap * hd);
    lemma_mul_is_distributive_add(wb, bi * hc, bp * hd);
    lemma_mul_is_distributive_add(wc, ci * hc, cp * hd);
    lemma_mul_is_distributive_add(wa, ai * hd + ap * hc, ap * hd);
    lemma_mul_is_distributive_add(wb, bi * hd + bp * hc, bp * hd);
    lemma_mul_is_distributive_add(wc, ci * hd + cp * hc, cp * hd);
    lemma_mul_is_distributive_add(wa, ai * hd, ap * hc);
    lemma_mul_is_distributive_add(wb, bi * hd, bp * hc);
    lemma_mul_is_distributive_add(wc, ci * hd, cp * hc);
}

proof fn lemma_distrib3(w1: int, w2: int, w3: int, a1: int, a2: int, a3: int, h: int)
    ensures
        (w1 * a1 + w2 * a2 + w3 * a3) * h == w1 * (a1 * h) + w2 * (a2 * h) + w3 * (a3 * h),
{
    lemma_mul_is_distributive_add_other_way(h, w1 * a1 + w2 * a2, w3 * a3);
    lemma_mul_is_distributive_add_other_way(h, w1 * a1, w2 * a2);
    lemma_mul_is_associative(w1, a1, h);
    lemma_mul_is_associative(w2, a2, h);
    lemma_mul_is_associative(w3, a3, h);
}

/// The dot product is symmetric.
pub proof fn lemma_dot_commutes(v: GoldenVec3, w: GoldenVec3)
    ensures
        dot(v, w) == dot(w, v),
{
    lemma_golden_mul_commutes(v.x, w.x);
    lemma_golden_mul_commutes(v.y, w.y);
    lemma_golden_mul_commutes(v.z, w.z);
}

proof fn lemma_golden_mul_commutes(g: Golden, h: Golden)
    ensures
        golden_mul(g, h) == golden_mul(h, g),
{
    let (a, b) = (g.int_part as int, g.phi_part as int);
    let (c, d) = (h.int_part as int, h.phi_part as int);
    lemma_mul_is_commutative(a, c);
    lemma_mul_is_commutative(b, d);
    lemma_mul_is_commutative(a, d);
    lemma_mul_is_commutative(b, c);
}

/// The dot product is linear in its first argument:
/// `(wa·a + wb·b + wc·c) · h == wa (a · h) + wb (b · h) + wc (c · h)`.
pub proof fn lemma_dot_weighted(
    wa: u32,
    a: GoldenVec3,
    wb: u32,
    b: GoldenVec3,
    wc: u32,
    c: GoldenVec3,
    h: GoldenVec3,
)
    requires
        unit_coords(a),
        unit_coords(b),
        unit_coords(c),
    ensures
        dot(weighted_vec3(wa, a, wb, b, wc, c), h).0 == wa * dot(a, h).0 + wb * dot(b, h).0 + wc
            * dot(c, h).0,
        dot(weighted_vec3(wa, a, wb, b, wc, c), h).1 == wa * dot(a, h).1 + wb * dot(b, h).1 + wc
            * dot(c, h).1,
{
    lemma_weighted_mul(wa, a.x, wb, b.x, wc, c.x, h.x);
    lemma_weighted_mul(wa, a.y, wb, b.y, wc, c.y, h.y);
    lemma_weighted_mul(wa, a.z, wb, b.z, wc, c.z, h.z);
    let (wa, wb, wc) = (wa as int, wb as int, wc as int);
    let (ax, ay, az) = (golden_mul(a.x, h.x), golden_mul(a.y, h.y), golden_mul(a.z, h.z));
    let (bx, by, bz) = (golden_mul(b.x, h.x), golden_mul(b.y, h.y), golden_mul(b.z, h.z));
    let (cx, cy, cz) = (golden_mul(c.x, h.x), golden_mul(c.y, h.y), golden_mul(c.z, h.z));
    assert(wa * (ax.0 + ay.0 + az.0) + wb * (bx.0 + by.0 + bz.0) + wc * (cx.0 + cy.0 + cz.0) == (wa
        * ax.0 + wb * bx.0 + wc * cx.0) + (wa * ay.0 + wb * by.0 + wc * cy.0) + (wa * az.0 + wb
        * bz.0 + wc * cz.0)) by (nonlinear_arith);
    assert(wa * (ax.1 + ay.1 + az.1) + wb * (bx.1 + by.1 + bz.1) + wc * (cx.1 + cy.1 + cz.1) == (wa
        * ax.1 + wb * bx.1 + wc * cx.1) + (wa * ay.1 + wb * by.1 + wc * cy.1) + (wa * az.1 + wb
        * bz.1 + wc * cz.1)) by (nonlinear_arith);
}

/// `a · b` for `a` in {-1, 0, 1}, without a product.
pub open spec fn unit_times(a: int, b: int) -> int {
    if a == 0 {
        0
    } else if a == 1 {
        b
    } else {
        -b
    }
}

proof fn lemma_unit_times(a: int, b: int)
    requires
        -1 <= a <= 1,
    ensures
        a * b == unit_times(a, b),
{
    assert(a == -1 || a == 0 || a == 1);
}

/// `golden_mul(g, h)` for `g` with both parts in {-1, 0, 1}, without a
/// product.
pub open spec fn unit_golden_mul(g: Golden, h: Golden) -> (int, int) {
    let (a, b) = (g.int_part as int, g.phi_part as int);
    let (c, d) = (h.int_part as int, h.phi_part as int);
    (unit_times(a, c) + unit_times(b, d), unit_times(a, d) + unit_times(b, c) + unit_times(b, d))
}

/// `dot(v, w)` for `v` with coordinates in {0, ±1, ±φ}, without a product.
pub open spec fn unit_dot(v: GoldenVec3, w: GoldenVec3) -> (int, int) {
    let (xa, xb) = unit_golden_mul(v.x, w.x);
    let (ya, yb) = unit_golden_mul(v.y, w.y);
    let (za, zb) = unit_golden_mul(v.z, w.z);
    (xa + ya + za, xb + yb + zb)
}

proof fn lemma_unit_golden_mul(g: Golden, h: Golden)
    requires
        -1 <= g.int_part <= 1 && -1 <= g.phi_part <= 1,
    ensures
        golden_mul(g, h) == unit_golden_mul(g, h),
{
    lemma_unit_times(g.int_part as int, h.int_part as int);
    lemma_unit_times(g.int_part as int, h.phi_part as int);
    lemma_unit_times(g.phi_part as int, h.int_part as int);
    lemma_unit_times(g.phi_part as int, h.phi_part as int);
}

pub proof fn lemma_unit_dot(v: GoldenVec3, w: GoldenVec3)
    requires
        unit_coords(v),
    ensures
        dot(v, w) == unit_dot(v, w),
{
    lemma_unit_golden_mul(v.x, w.x);
    lemma_unit_golden_mul(v.y, w.y);
    lemma_unit_golden_mul(v.z, w.z);
}

/// `wa·a + wb·b + wc·c` for integers in [-1, 1]; the result lies
/// within `wa + wb + wc` of zero, so it never overflows.
fn mix(wa: u32, a: i64, wb: u32, b: i64, wc: u32, c: i64) -> (r: i64)
    requires
        -1 <= a <= 1,
        -1 <= b <= 1,
        -1 <= c <= 1,
    ensures
        r == weighted(wa, a, wb, b, wc, c),
{
    proof {
        lemma_small_product(wa, a);
        lemma_small_product(wb, b);
        lemma_small_product(wc, c);
    }
    let pa = wa as i64 * a;
    let pb = wb as i64 * b;
    let pc = wc as i64 * c;
    pa + pb + pc
}

fn mix_golden(wa: u32, a: Golden, wb: u32, b: Golden, wc: u32, c: Golden) -> (r: Golden)
    requires
        -1 <= a.int_part <= 1 && -1 <= a.phi_part <= 1,
        -1 <= b.int_part <= 1 && -1 <= b.phi_part <= 1,
        -1 <= c.int_part <= 1 && -1 <= c.phi_part <= 1,
    ensures
        r == weighted_golden(wa, a, wb, b, wc, c),
{
    Golden {
        int_part: mix(wa, a.int_part, wb, b.int_part, wc, c.int_part),
        phi_part: mix(wa, a.phi_part, wb, b.phi_part, wc, c.phi_part),
    }
}

/// The vector `wa·a + wb·b + wc·c` of three vectors with coordinates in
/// {0, ±1, ±φ}.
pub fn mix_vec3(wa: u32, a: GoldenVec3, wb: u32, b: GoldenVec3, wc: u32, c: GoldenVec3) -> (r:
    GoldenVec3)
    requires
        unit_coords(a),
        unit_coords(b),
        unit_coords(c),
    ensures
        r == weighted_vec3(wa, a, wb, b, wc, c),
{
    GoldenVec3 {
        x: mix_golden(wa, a.x, wb, b.x, wc, c.x),
        y: mix_golden(wa, a.y, wb, b.y, wc, c.y),
        z: mix_golden(wa, a.z, wb, b.z, wc, c.z),
    }
}

} // verus!
