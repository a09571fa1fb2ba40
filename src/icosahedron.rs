//! The base mesh: the twelve vertices of a regular icosahedron and its
//! twenty faces, laid out as two strips of ten triangles that each carry
//! their own copy of the vertices with a seam-free texture layout.
use vstd::prelude::*;

use crate::golden::{dot, golden, golden_mul, lemma_dot_commutes, lemma_dot_weighted, lemma_unit_dot, unit_dot, length_sq, sum_vec3, unit_coords, vec3, Golden, GoldenVec3};
use crate::vertex::{TextureUv, Vertex};

verus! {

/// Vertex `n` of the icosahedron, for `n` in `0..12`.
///
/// The vertices are the corners of three golden rectangles centred on the
/// origin, one in each coordinate plane; `n / 4` picks the rectangle and
/// `n % 2` and `(n / 2) % 2` pick the corner. The positions are left at
/// length √(2 + φ) rather than normalized, so that interpolation followed
/// by one projection gives the usual geodesic subdivision.
pub open spec fn icos_position(n: u8) -> GoldenVec3 {
    let vx = if n % 2 == 0 { golden(-1, 0) } else { golden(1, 0) };
    let vy = if (n / 2) % 2 == 0 { golden(0, 1) } else { golden(0, -1) };
    let zero = golden(0, 0);
    if n / 4 == 0 {
        vec3(vx, vy, zero)
    } else if n / 4 == 1 {
        vec3(zero, vx, vy)
    } else {
        vec3(vy, zero, vx)
    }
}

/// The index of the icosahedron vertex at position `v`.
pub open spec fn icos_index(v: GoldenVec3) -> int {
    let is_zero = |g: Golden| g.int_part == 0 && g.phi_part == 0;
    if is_zero(v.x) {
        4 + (if v.y.int_part > 0 { 1int } else { 0 }) + (if v.z.phi_part < 0 { 2int } else { 0 })
    } else if is_zero(v.z) {
        (if v.x.int_part > 0 { 1int } else { 0 }) + (if v.y.phi_part < 0 { 2int } else { 0 })
    } else {
        8 + (if v.z.int_part > 0 { 1int } else { 0 }) + (if v.x.phi_part < 0 { 2int } else { 0 })
    }
}

/// Texture-atlas cell `t`, as (column, row) of a six-column grid: its
/// coordinate is `u = column · 0.2`, `v = row · 0.5`.
pub open spec fn atlas_cell(t: u8) -> TextureUv {
    TextureUv { u: (t % 6) as u64, v: (t / 6) as u64 }
}

/// Entry `i` of the vertex table of strip `s`: the icosahedron vertex it
/// places, and the atlas cell that gives its texture coordinate.
pub open spec fn strip_entry(s: int, i: int) -> (u8, u8) {
    if s == 0 {
        if i == 0 { (0, 0) }
        else if i == 1 { (1, 6) }
        else if i == 2 { (5, 1) }
        else if i == 3 { (9, 7) }
        else if i == 4 { (4, 8) }
        else if i == 5 { (11, 2) }
        else if i == 6 { (2, 9) }
        else if i == 7 { (10, 3) }
        else if i == 8 { (6, 10) }
        else if i == 9 { (7, 4) }
        else if i == 10 { (8, 5) }
        else { (3, 11) }
    } else {
        if i == 0 { (5, 6) }
        else if i == 1 { (11, 12) }
        else if i == 2 { (0, 7) }
        else if i == 3 { (10, 13) }
        else if i == 4 { (7, 14) }
        else if i == 5 { (1, 8) }
        else if i == 6 { (8, 15) }
        else if i == 7 { (9, 9) }
        else if i == 8 { (3, 16) }
        else if i == 9 { (4, 10) }
        else if i == 10 { (2, 11) }
        else { (6, 17) }
    }
}

/// Triangle `j` of a strip, as indices into the strip's vertex table.
pub open spec fn strip_triangle(j: int) -> (u8, u8, u8) {
    if j == 0 { (0, 2, 1) }
    else if j == 1 { (1, 2, 3) }
    else if j == 2 { (3, 2, 4) }
    else if j == 3 { (4, 2, 5) }
    else if j == 4 { (4, 5, 6) }
    else if j == 5 { (5, 7, 6) }
    else if j == 6 { (8, 6, 7) }
    else if j == 7 { (7, 9, 8) }
    else if j == 8 { (10, 8, 9) }
    else { (11, 8, 10) }
}

/// The vertex that entry `i` of strip `s`'s table stands for.
pub open spec fn strip_vertex(s: int, i: int) -> Vertex {
    let (ico, texture) = strip_entry(s, i);
    Vertex { position_xyz: icos_position(ico), texture_uv: atlas_cell(texture), denominator: 1 }
}

/// Base vertex `k` of the sphere, for `k` in `0..24`: the twelve vertices
/// of strip 0, then the twelve of strip 1.
pub open spec fn base_vertex(k: int) -> Vertex {
    strip_vertex(k / 12, k % 12)
}

/// Base face `k` of the sphere, for `k` in `0..20`: the ten triangles of
/// strip 0, then the same pattern over the vertices of strip 1.
pub open spec fn base_face(k: int) -> (u8, u8, u8) {
    if k < 10 {
        strip_triangle(k)
    } else {
        let (a, b, c) = strip_triangle(k - 10);
        ((a + 12) as u8, (b + 12) as u8, (c + 12) as u8)
    }
}

/// One of the twelve icosahedron vertices.
pub struct IcosVertex {
    pub xyz: GoldenVec3,
}

impl IcosVertex {
    /// Vertex `n` of the icosahedron.
    pub fn new(n: u8) -> (r: IcosVertex)
        requires
            n < 12,
        ensures
            r.xyz == icos_position(n),
    {
        let vx = if n % 2 == 0 {
            Golden { int_part: -1, phi_part: 0 }
        } else {
            Golden { int_part: 1, phi_part: 0 }
        };
        let vy = if (n / 2) % 2 == 0 {
            Golden { int_part: 0, phi_part: 1 }
        } else {
            Golden { int_part: 0, phi_part: -1 }
        };
        let zero = Golden { int_part: 0, phi_part: 0 };
        let xyz = if n / 4 == 0 {
            GoldenVec3 { x: vx, y: vy, z: zero }
        } else if n / 4 == 1 {
            GoldenVec3 { x: zero, y: vx, z: vy }
        } else {
            GoldenVec3 { x: vy, y: zero, z: vx }
        };
        IcosVertex { xyz }
    }
}

/// The atlas cell of texture index `uv`.
pub fn texture_uv_of_u8(uv: u8) -> (r: TextureUv)
    ensures
        r == atlas_cell(uv),
{
    TextureUv { u: (uv % 6) as u64, v: (uv / 6) as u64 }
}

/// An entry of a strip's vertex table: an icosahedron vertex and the atlas
/// cell of its texture coordinate in that strip.
#[derive(Clone, Copy, Debug)]
pub struct IcoStripVertex {
    pub ico: u8,
    pub texture: u8,
}

impl IcoStripVertex {
    /// Entry `i` of the vertex table of strip `s`.
    pub fn of_strip(s: u8, i: u8) -> (r: IcoStripVertex)
        requires
            s < 2,
            i < 12,
        ensures
            (r.ico, r.texture) == strip_entry(s as int, i as int),
    {
        let (ico, texture) = if s == 0 {
            match i {
                0 => (0, 0),
                1 => (1, 6),
                2 => (5, 1),
                3 => (9, 7),
                4 => (4, 8),
                5 => (11, 2),
                6 => (2, 9),
                7 => (10, 3),
                8 => (6, 10),
                9 => (7, 4),
                10 => (8, 5),
                _ => (3, 11),
            }
        } else {
            match i {
                0 => (5, 6),
                1 => (11, 12),
                2 => (0, 7),
                3 => (10, 13),
                4 => (7, 14),
                5 => (1, 8),
                6 => (8, 15),
                7 => (9, 9),
                8 => (3, 16),
                9 => (4, 10),
                10 => (2, 11),
                _ => (6, 17),
            }
        };
        IcoStripVertex { ico, texture }
    }

    /// The vertex this entry places: the icosahedron vertex's position
    /// with the texture coordinate of the entry's atlas cell.
    pub fn to_vertex(&self) -> (r: Vertex)
        requires
            self.ico < 12,
        ensures
            r == (Vertex {
                position_xyz: icos_position(self.ico),
                texture_uv: atlas_cell(self.texture),
                denominator: 1,
            }),
    {
        let icos_vertex = IcosVertex::new(self.ico);
        let texture_uv = texture_uv_of_u8(self.texture);
        Vertex::new(icos_vertex.xyz).with_uv(texture_uv)
    }
}

/// Triangle `j` of a strip's pattern, offset by `offset`.
pub fn strip_triangle_at(j: u8, offset: u8) -> (r: (u8, u8, u8))
    requires
        j < 10,
        offset <= 12,
    ensures
        r == ({
            let (a, b, c) = strip_triangle(j as int);
            ((a + offset) as u8, (b + offset) as u8, (c + offset) as u8)
        }),
{
    let (a, b, c): (u8, u8, u8) = match j {
        0 => (0, 2, 1),
        1 => (1, 2, 3),
        2 => (3, 2, 4),
        3 => (4, 2, 5),
        4 => (4, 5, 6),
        5 => (5, 7, 6),
        6 => (8, 6, 7),
        7 => (7, 9, 8),
        8 => (10, 8, 9),
        _ => (11, 8, 10),
    };
    (a + offset, b + offset, c + offset)
}

proof fn lemma_icos_position(n: u8)
    requires
        n < 12,
    ensures
        icos_index(icos_position(n)) == n,
        length_sq(icos_position(n)) == (2int, 1int),
        unit_coords(icos_position(n)),
{
    assert(golden_mul(golden(-1, 0), golden(-1, 0)) == (1int, 0int)) by (nonlinear_arith);
    assert(golden_mul(golden(1, 0), golden(1, 0)) == (1int, 0int)) by (nonlinear_arith);
    assert(golden_mul(golden(0, -1), golden(0, -1)) == (1int, 1int)) by (nonlinear_arith);
    assert(golden_mul(golden(0, 1), golden(0, 1)) == (1int, 1int)) by (nonlinear_arith);
    assert(golden_mul(golden(0, 0), golden(0, 0)) == (0int, 0int)) by (nonlinear_arith);
    assert(n == 0 || n == 1 || n == 2 || n == 3 || n == 4 || n == 5 || n == 6 || n == 7 || n
        == 8 || n == 9 || n == 10 || n == 11);
}

/// Every base vertex sits on an icosahedron vertex, with coordinates in
/// {0, ±1, ±φ} and denominator 1.
pub proof fn lemma_base_vertex(k: int)
    requires
        0 <= k < 24,
    ensures
        strip_entry(k / 12, k % 12).0 < 12,
        unit_coords(base_vertex(k).position_xyz),
        base_vertex(k).denominator == 1,
        base_vertex(k).texture_uv.u <= 5,
        base_vertex(k).texture_uv.v <= 2,
{
    let (ico, t) = strip_entry(k / 12, k % 12);
    assert(ico < 12 && t < 18);
    lemma_icos_position(ico);
}

/// The corners of base face `k`, as positions.
pub open spec fn face_corners(k: int) -> (GoldenVec3, GoldenVec3, GoldenVec3) {
    let (a, b, c) = base_face(k);
    (
        base_vertex(a as int).position_xyz,
        base_vertex(b as int).position_xyz,
        base_vertex(c as int).position_xyz,
    )
}

/// The icosahedron vertices that base face `k` joins.
pub open spec fn face_icos(k: int) -> (u8, u8, u8) {
    let (a, b, c) = base_face(k);
    (
        strip_entry(a as int / 12, a as int % 12).0,
        strip_entry(b as int / 12, b as int % 12).0,
        strip_entry(c as int / 12, c as int % 12).0,
    )
}

/// Whether icosahedron vertices `i` and `j` are joined by an edge: their
/// dot product is φ.
pub open spec fn adjacent(i: u8, j: u8) -> bool {
    dot(icos_position(i), icos_position(j)) == (0int, 1int) && dot(icos_position(j), icos_position(i)) == (0int, 1int)
}

proof fn lemma_adjacent(i: u8, j: u8)
    requires
        i < 12,
        j < 12,
        unit_dot(icos_position(i), icos_position(j)) == (0int, 1int),
        unit_dot(icos_position(j), icos_position(i)) == (0int, 1int),
    ensures
        adjacent(i, j),
{
    lemma_icos_position(i);
    lemma_icos_position(j);
    lemma_unit_dot(icos_position(i), icos_position(j));
    lemma_unit_dot(icos_position(j), icos_position(i));
}

/// Three vectors of squared length 2 + φ whose pairwise dot products are φ
/// each have dot product 2 + 3φ with their sum.
proof fn lemma_triangle_dots(pa: GoldenVec3, pb: GoldenVec3, pc: GoldenVec3)
    requires
        unit_coords(pa) && unit_coords(pb) && unit_coords(pc),
        dot(pa, pa) == (2int, 1int) && dot(pb, pb) == (2int, 1int) && dot(pc, pc) == (2int, 1int),
        dot(pa, pb) == (0int, 1int) && dot(pb, pa) == (0int, 1int),
        dot(pb, pc) == (0int, 1int) && dot(pc, pb) == (0int, 1int),
        dot(pa, pc) == (0int, 1int) && dot(pc, pa) == (0int, 1int),
    ensures
        ({
            let s = sum_vec3(pa, pb, pc);
            &&& dot(pa, s) == (2int, 3int)
            &&& dot(pb, s) == (2int, 3int)
            &&& dot(pc, s) == (2int, 3int)
        }),
{
    let s = sum_vec3(pa, pb, pc);
    lemma_dot_weighted(1, pa, 1, pb, 1, pc, pa);
    lemma_dot_weighted(1, pa, 1, pb, 1, pc, pb);
    lemma_dot_weighted(1, pa, 1, pb, 1, pc, pc);
    lemma_dot_commutes(pa, s);
    lemma_dot_commutes(pb, s);
    lemma_dot_commutes(pc, s);
}

/// The edges of base faces 0 to 4.
#[verifier::spinoff_prover]
proof fn lemma_face_edges_0()
    ensures
        adjacent(0, 5) && adjacent(5, 1) && adjacent(0, 1),
        adjacent(1, 5) && adjacent(5, 9) && adjacent(1, 9),
        adjacent(9, 5) && adjacent(5, 4) && adjacent(9, 4),
        adjacent(4, 5) && adjacent(5, 11) && adjacent(4, 11),
        adjacent(4, 11) && adjacent(11, 2) && adjacent(4, 2),
{
    lemma_adjacent(0, 5);
    lemma_adjacent(5, 1);
    lemma_adjacent(0, 1);
    lemma_adjacent(1, 5);
    lemma_adjacent(5, 9);
    lemma_adjacent(1, 9);
    lemma_adjacent(9, 5);
    lemma_adjacent(5, 4);
    lemma_adjacent(9, 4);
    lemma_adjacent(4, 5);
    lemma_adjacent(5, 11);
    lemma_adjacent(4, 11);
    lemma_adjacent(4, 11);
    lemma_adjacent(11, 2);
    lemma_adjacent(4, 2);
}

/// The edges of base faces 5 to 9.
#[verifier::spinoff_prover]
proof fn lemma_face_edges_1()
    ensures
        adjacent(11, 10) && adjacent(10, 2) && adjacent(11, 2),
        adjacent(6, 2) && adjacent(2, 10) && adjacent(6, 10),
        adjacent(10, 7) && adjacent(7, 6) && adjacent(10, 6),
        adjacent(8, 6) && adjacent(6, 7) && adjacent(8, 7),
        adjacent(3, 6) && adjacent(6, 8) && adjacent(3, 8),
{
    lemma_adjacent(11, 10);
    lemma_adjacent(10, 2);
    lemma_adjacent(11, 2);
    lemma_adjacent(6, 2);
    lemma_adjacent(2, 10);
    lemma_adjacent(6, 10);
    lemma_adjacent(10, 7);
    lemma_adjacent(7, 6);
    lemma_adjacent(10, 6);
    lemma_adjacent(8, 6);
    lemma_adjacent(6, 7);
    lemma_adjacent(8, 7);
    lemma_adjacent(3, 6);
    lemma_adjacent(6, 8);
    lemma_adjacent(3, 8);
}

/// The edges of base faces 10 to 14.
#[verifier::spinoff_prover]
proof fn lemma_face_edges_2()
    ensures
        adjacent(5, 0) && adjacent(0, 11) && adjacent(5, 11),
        adjacent(11, 0) && adjacent(0, 10) && adjacent(11, 10),
        adjacent(10, 0) && adjacent(0, 7) && adjacent(10, 7),
        adjacent(7, 0) && adjacent(0, 1) && adjacent(7, 1),
        adjacent(7, 1) && adjacent(1, 8) && adjacent(7, 8),
{
    lemma_adjacent(5, 0);
    lemma_adjacent(0, 11);
    lemma_adjacent(5, 11);
    lemma_adjacent(11, 0);
    lemma_adjacent(0, 10);
    lemma_adjacent(11, 10);
    lemma_adjacent(10, 0);
    lemma_adjacent(0, 7);
    lemma_adjacent(10, 7);
    lemma_adjacent(7, 0);
    lemma_adjacent(0, 1);
    lemma_adjacent(7, 1);
    lemma_adjacent(7, 1);
    lemma_adjacent(1, 8);
    lemma_adjacent(7, 8);
}

/// The edges of base faces 15 to 19.
#[verifier::spinoff_prover]
proof fn lemma_face_edges_3()
    ensures
        adjacent(1, 9) && adjacent(9, 8) && adjacent(1, 8),
        adjacent(3, 8) && adjacent(8, 9) && adjacent(3, 9),
        adjacent(9, 4) && adjacent(4, 3) && adjacent(9, 3),
        adjacent(2, 3) && adjacent(3, 4) && adjacent(2, 4),
        adjacent(6, 3) && adjacent(3, 2) && adjacent(6, 2),
{
    lemma_adjacent(1, 9);
    lemma_adjacent(9, 8);
    lemma_adjacent(1, 8);
    lemma_adjacent(3, 8);
    lemma_adjacent(8, 9);
    lemma_adjacent(3, 9);
    lemma_adjacent(9, 4);
    lemma_adjacent(4, 3);
    lemma_adjacent(9, 3);
    lemma_adjacent(2, 3);
    lemma_adjacent(3, 4);
    lemma_adjacent(2, 4);
    lemma_adjacent(6, 3);
    lemma_adjacent(3, 2);
    lemma_adjacent(6, 2);
}

/// The corners of a base face are pairwise adjacent: each has dot product
/// 2 + φ with itself and φ with each of the other two, hence 2 + 3φ with
/// the sum of all three.
#[verifier::spinoff_prover]
pub proof fn lemma_face_corner_dots(k: int)
    requires
        0 <= k < 20,
    ensures
        ({
            let (pa, pb, pc) = face_corners(k);
            let s = sum_vec3(pa, pb, pc);
            &&& dot(pa, s) == (2int, 3int)
            &&& dot(pb, s) == (2int, 3int)
            &&& dot(pc, s) == (2int, 3int)
        }),
{
    lemma_face_edges_0();
    lemma_face_edges_1();
    lemma_face_edges_2();
    lemma_face_edges_3();
    if k == 0 {
        assert(face_icos(k) == (0u8, 5u8, 1u8));
    } else if k == 1 {
        assert(face_icos(k) == (1u8, 5u8, 9u8));
    } else if k == 2 {
        assert(face_icos(k) == (9u8, 5u8, 4u8));
    } else if k == 3 {
        assert(face_icos(k) == (4u8, 5u8, 11u8));
    } else if k == 4 {
        assert(face_icos(k) == (4u8, 11u8, 2u8));
    } else if k == 5 {
        assert(face_icos(k) == (11u8, 10u8, 2u8));
    } else if k == 6 {
        assert(face_icos(k) == (6u8, 2u8, 10u8));
    } else if k == 7 {
        assert(face_icos(k) == (10u8, 7u8, 6u8));
    } else if k == 8 {
        assert(face_icos(k) == (8u8, 6u8, 7u8));
    } else if k == 9 {
        assert(face_icos(k) == (3u8, 6u8, 8u8));
    } else if k == 10 {
        assert(face_icos(k) == (5u8, 0u8, 11u8));
    } else if k == 11 {
        assert(face_icos(k) == (11u8, 0u8, 10u8));
    } else if k == 12 {
        assert(face_icos(k) == (10u8, 0u8, 7u8));
    } else if k == 13 {
        assert(face_icos(k) == (7u8, 0u8, 1u8));
    } else if k == 14 {
        assert(face_icos(k) == (7u8, 1u8, 8u8));
    } else if k == 15 {
        assert(face_icos(k) == (1u8, 9u8, 8u8));
    } else if k == 16 {
        assert(face_icos(k) == (3u8, 8u8, 9u8));
    } else if k == 17 {
        assert(face_icos(k) == (9u8, 4u8, 3u8));
    } else if k == 18 {
        assert(face_icos(k) == (2u8, 3u8, 4u8));
    } else {
        assert(face_icos(k) == (6u8, 3u8, 2u8));
    }
    let (i, j, l) = face_icos(k);
    let (a, b, c) = base_face(k);
    assert(face_corners(k) == (icos_position(i), icos_position(j), icos_position(l)));
    lemma_icos_position(i);
    lemma_icos_position(j);
    lemma_icos_position(l);
    lemma_triangle_dots(icos_position(i), icos_position(j), icos_position(l));
}

/// The base mesh is a regular icosahedron: its twelve vertex positions are
/// pairwise distinct and all of the same length (√(2 + φ)); each strip's
/// table places every one of them exactly once; and each of the twenty
/// faces joins three distinct base vertices out of the twenty-four.
pub proof fn lemma_base_mesh()
    ensures
        forall|n: u8| n < 12 ==> #[trigger] length_sq(icos_position(n)) == (2int, 1int),
        forall|m: u8, n: u8|
            m < 12 && n < 12 && m != n ==> #[trigger] icos_position(m) != #[trigger] icos_position(
                n,
            ),
        forall|s: int, i: int| 0 <= s < 2 && 0 <= i < 12 ==> #[trigger] strip_entry(s, i).0 < 12,
        forall|s: int, i: int, j: int|
            0 <= s < 2 && 0 <= i < 12 && 0 <= j < 12 && i != j ==> #[trigger] strip_entry(s, i).0
                != #[trigger] strip_entry(s, j).0,
        forall|k: int|
            0 <= k < 20 ==> {
                let (a, b, c) = #[trigger] base_face(k);
                a < 24 && b < 24 && c < 24 && a != b && b != c && a != c
            },
{
    assert forall|n: u8| n < 12 implies #[trigger] length_sq(icos_position(n)) == (2int, 1int) by {
        lemma_icos_position(n);
    }
    assert forall|m: u8, n: u8|
        m < 12 && n < 12 && m != n implies #[trigger] icos_position(m) != #[trigger] icos_position(
            n,
        ) by {
        lemma_icos_position(m);
        lemma_icos_position(n);
    }
}

} // verus!
