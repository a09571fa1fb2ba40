//! The icosphere: the base mesh together with the vertices and triangles
//! of the subdivided faces, which accumulate over subdivision calls.
use vstd::prelude::*;

use crate::golden::{
    dot, golden, lemma_dot_weighted, lemma_unit_dot, mix_vec3, sum_vec3, unit_coords, vec3,
    weighted, weighted_vec3,
};
use crate::icosahedron::{
    base_face, base_vertex, face_corners, lemma_base_vertex, lemma_face_corner_dots, strip_triangle_at,
    IcoStripVertex,
};
use crate::vertex::{same_point, TextureUv, Vertex};

verus! {

/// A point of the triangular grid over one base face: the face's three
/// base-vertex indices and integer barycentric weights for them, which sum
/// to `division` in every vertex an [`Icosphere`] produces.
#[derive(Clone, Copy, Debug, PartialEq, Eq)]
pub struct SubdivVertex {
    pub division: u32,
    pub ico_face: (u8, u8, u8),
    pub weights: (u32, u32, u32),
}

/// Whether `v` may be a corner of a base face: coordinates in
/// {0, ±1, ±φ}, a texture coordinate inside the atlas, denominator 1.
pub open spec fn is_atlas_vertex(v: Vertex) -> bool {
    &&& unit_coords(v.position_xyz)
    &&& v.texture_uv.u <= 5
    &&& v.texture_uv.v <= 2
    &&& v.denominator == 1
}

/// The vertex that `sv` stands for over the corners `base`: the weighted
/// sum of its face's corners, in position and in texture, over the
/// denominator `division`.
pub open spec fn resolve(sv: SubdivVertex, base: Seq<Vertex>) -> Vertex {
    let (a, b, c) = sv.ico_face;
    let (wa, wb, wc) = sv.weights;
    let va = base[a as int];
    let vb = base[b as int];
    let vc = base[c as int];
    Vertex {
        position_xyz: weighted_vec3(wa, va.position_xyz, wb, vb.position_xyz, wc, vc.position_xyz),
        texture_uv: TextureUv {
            u: weighted(wa, va.texture_uv.u as i64, wb, vb.texture_uv.u as i64, wc, vc.texture_uv.u as i64) as u64,
            v: weighted(wa, va.texture_uv.v as i64, wb, vb.texture_uv.v as i64, wc, vc.texture_uv.v as i64) as u64,
        },
        denominator: sv.division,
    }
}

/// The twenty-four base vertices of every icosphere.
pub open spec fn base_vertices() -> Seq<Vertex> {
    Seq::new(24, |k: int| base_vertex(k))
}

/// `1 + 2 + ... + n`.
pub open spec fn triangular(n: nat) -> nat
    decreases n,
{
    if n == 0 {
        0
    } else {
        triangular((n - 1) as nat) + n
    }
}

/// Row `y` of the grid of side `d` over `face`: the points with weights
/// `(x, y, d - x - y)` for `x` in `0..=d - y`.
pub open spec fn grid_row(d: u32, face: (u8, u8, u8), y: int) -> Seq<SubdivVertex> {
    Seq::new(
        (d + 1 - y) as nat,
        |x: int| SubdivVertex { division: d, ico_face: face, weights: (x as u32, y as u32, (d - x - y) as u32) },
    )
}

/// Rows `0..y` of the grid of side `d` over `face`.
pub open spec fn grid_rows(d: u32, face: (u8, u8, u8), y: nat) -> Seq<SubdivVertex>
    decreases y,
{
    if y == 0 {
        Seq::empty()
    } else {
        grid_rows(d, face, (y - 1) as nat) + grid_row(d, face, y - 1)
    }
}

/// Every point of the grid of side `d` over `face`, row by row.
pub open spec fn face_grid(d: u32, face: (u8, u8, u8)) -> Seq<SubdivVertex> {
    grid_rows(d, face, (d + 1) as nat)
}

/// The index of the first point of row `y`, in a grid of side `d` whose
/// first point has index `first`.
pub open spec fn row_start(first: int, d: int, y: int) -> int {
    first + triangular((d + 1) as nat) - triangular((d + 1 - y) as nat)
}

/// The triangles at position `x` of a row with `n` upward triangles,
/// starting at index `rs`, below the row starting at `ns`: the upward one,
/// and the downward one after it unless `x` is the last.
pub open spec fn triangles_at(rs: int, ns: int, n: int, x: int) -> Seq<(u32, u32, u32)> {
    let up = ((rs + x) as u32, (rs + x + 1) as u32, (ns + x) as u32);
    let down = ((rs + x + 1) as u32, (ns + x + 1) as u32, (ns + x) as u32);
    if x + 1 < n {
        seq![up, down]
    } else {
        seq![up]
    }
}

/// The triangles at positions `0..m` of such a row.
pub open spec fn row_triangles(rs: int, ns: int, n: int, m: nat) -> Seq<(u32, u32, u32)>
    decreases m,
{
    if m == 0 {
        Seq::empty()
    } else {
        row_triangles(rs, ns, n, (m - 1) as nat) + triangles_at(rs, ns, n, m - 1)
    }
}

/// The triangles of rows `0..y` of the grid of side `d` whose first point
/// has index `first`.
pub open spec fn grid_triangles(first: int, d: int, y: nat) -> Seq<(u32, u32, u32)>
    decreases y,
{
    if y == 0 {
        Seq::empty()
    } else {
        let r = y - 1;
        grid_triangles(first, d, (y - 1) as nat) + row_triangles(
            row_start(first, d, r),
            row_start(first, d, r + 1),
            d - r,
            (d - r) as nat,
        )
    }
}

/// The triangulation of the grid of side `d` whose first point has index
/// `first`.
pub open spec fn face_triangles(first: int, d: u32) -> Seq<(u32, u32, u32)> {
    grid_triangles(first, d as int, d as nat)
}

/// The grids of base faces `0..n`, each of side `d`, one after another.
pub open spec fn sphere_grid(d: u32, n: nat) -> Seq<SubdivVertex>
    decreases n,
{
    if n == 0 {
        Seq::empty()
    } else {
        sphere_grid(d, (n - 1) as nat) + face_grid(d, base_face(n - 1))
    }
}

/// The triangulations of those grids, where the first grid's first point
/// has index `first`.
pub open spec fn sphere_triangles(first: int, d: u32, n: nat) -> Seq<(u32, u32, u32)>
    decreases n,
{
    if n == 0 {
        Seq::empty()
    } else {
        sphere_triangles(first, d, (n - 1) as nat) + face_triangles(
            first + (n - 1) * ((d + 1) * (d + 2) / 2),
            d,
        )
    }
}

/// Whether `sv` is a grid point of a face of the base mesh.
pub open spec fn is_grid_vertex(sv: SubdivVertex) -> bool {
    &&& sv.weights.0 + sv.weights.1 + sv.weights.2 == sv.division
    &&& sv.ico_face.0 < 24 && sv.ico_face.1 < 24 && sv.ico_face.2 < 24
    &&& exists|k: int| 0 <= k < 20 && sv.ico_face == #[trigger] base_face(k)
}

/// `triangular(n) == n (n + 1) / 2`.
proof fn lemma_triangular(n: nat)
    ensures
        2 * triangular(n) == n * (n + 1),
        triangular(n) >= n,
    decreases n,
{
    if n == 0 {
        assert(triangular(n) == 0);
    } else {
        lemma_triangular((n - 1) as nat);
        assert(2 * triangular(n) == n * (n + 1)) by (nonlinear_arith)
            requires
                2 * triangular((n - 1) as nat) == (n - 1) * n,
                triangular(n) == triangular((n - 1) as nat) + n,
        ;
    }
}

proof fn lemma_grid_rows_len(d: u32, face: (u8, u8, u8), y: nat)
    requires
        y <= d + 1,
    ensures
        grid_rows(d, face, y).len() == triangular((d + 1) as nat) - triangular((d + 1 - y) as nat),
    decreases y,
{
    if y > 0 {
        lemma_grid_rows_len(d, face, (y - 1) as nat);
        assert(triangular((d + 1 - (y - 1)) as nat) == triangular((d + 1 - y) as nat) + (d + 1 - (y
            - 1)));
    }
}

proof fn lemma_row_triangles_len(rs: int, ns: int, n: int, m: nat)
    requires
        m <= n,
    ensures
        row_triangles(rs, ns, n, m).len() == if m == 0 {
            0int
        } else if m == n {
            2 * m - 1
        } else {
            2 * m as int
        },
    decreases m,
{
    if m > 0 {
        lemma_row_triangles_len(rs, ns, n, (m - 1) as nat);
    }
}

proof fn lemma_grid_triangles_len(first: int, d: int, y: nat)
    requires
        y <= d,
    ensures
        grid_triangles(first, d, y).len() == d * d - (d - y) * (d - y),
    decreases y,
{
    if y > 0 {
        let r = y - 1;
        lemma_grid_triangles_len(first, d, (y - 1) as nat);
        lemma_row_triangles_len(row_start(first, d, r), row_start(first, d, r + 1), d - r, (d - r) as nat);
        assert(d * d - (d - y) * (d - y) == d * d - (d - r) * (d - r) + 2 * (d - r) - 1) by (nonlinear_arith)
            requires r == y - 1;
    }
}

proof fn lemma_grid_rows_member(d: u32, face: (u8, u8, u8), y: nat, i: int, k: int)
    requires
        0 <= k < 20,
        face == base_face(k),
        y <= d + 1,
        0 <= i < grid_rows(d, face, y).len(),
        face.0 < 24 && face.1 < 24 && face.2 < 24,
    ensures
        is_grid_vertex(grid_rows(d, face, y)[i]),
        grid_rows(d, face, y)[i].division == d,
    decreases y,
{
    if y > 0 {
        let prev = grid_rows(d, face, (y - 1) as nat);
        if i >= prev.len() {
            let x = i - prev.len();
            assert(grid_rows(d, face, y)[i] == grid_row(d, face, y - 1)[x]);
            assert(grid_rows(d, face, y)[i].ico_face == base_face(k));
        } else {
            lemma_grid_rows_member(d, face, (y - 1) as nat, i, k);
            assert(grid_rows(d, face, y)[i] == prev[i]);
        }
    }
}

/// A grid of side `d` whose points get `u32` indices has side below 2^17.
proof fn lemma_division_bound(d: u32, first: int)
    requires
        first >= 0,
        first + (d + 1) * (d + 2) / 2 <= u32::MAX as int + 1,
    ensures
        d < 0x20000,
{
    if d >= 0x20000 {
        assert((d + 1) * (d + 2) >= 0x20001 * 0x20002) by (nonlinear_arith)
            requires d >= 0x20000;
    }
}

impl SubdivVertex {
    pub fn new(division: u32, ico_face: (u8, u8, u8), weights: (u32, u32, u32)) -> (r: SubdivVertex)
        ensures
            r == (SubdivVertex { division, ico_face, weights }),
    {
        SubdivVertex { division, ico_face, weights }
    }

    /// The vertex this grid point stands for, interpolated between the
    /// corners of its face in `ico_vertices`.
    pub fn to_vertex(&self, ico_vertices: &[Vertex]) -> (r: Vertex)
        requires
            self.ico_face.0 < ico_vertices@.len(),
            self.ico_face.1 < ico_vertices@.len(),
            self.ico_face.2 < ico_vertices@.len(),
            is_atlas_vertex(ico_vertices@[self.ico_face.0 as int]),
            is_atlas_vertex(ico_vertices@[self.ico_face.1 as int]),
            is_atlas_vertex(ico_vertices@[self.ico_face.2 as int]),
        ensures
            r == resolve(*self, ico_vertices@),
    {
        let (a, b, c) = self.ico_face;
        let (wa, wb, wc) = self.weights;
        let iv_a = ico_vertices[a as usize];
        let iv_b = ico_vertices[b as usize];
        let iv_c = ico_vertices[c as usize];
        let xyz = mix_vec3(wa, iv_a.position_xyz, wb, iv_b.position_xyz, wc, iv_c.position_xyz);
        let u = mix_cells(wa, iv_a.texture_uv.u, wb, iv_b.texture_uv.u, wc, iv_c.texture_uv.u);
        let v = mix_cells(wa, iv_a.texture_uv.v, wb, iv_b.texture_uv.v, wc, iv_c.texture_uv.v);
        Vertex { position_xyz: xyz, texture_uv: TextureUv { u, v }, denominator: self.division }
    }
}

proof fn lemma_cell_product(w: u32, a: u64)
    requires
        a <= 5,
    ensures
        0 <= w as int * a as int <= 5 * w as int,
{
    assert(0 <= w as int * a as int <= 5 * w as int) by (nonlinear_arith)
        requires a <= 5;
}

/// `wa·a + wb·b + wc·c` for atlas-cell counts of at most 5.
fn mix_cells(wa: u32, a: u64, wb: u32, b: u64, wc: u32, c: u64) -> (r: u64)
    requires
        a <= 5,
        b <= 5,
        c <= 5,
    ensures
        r == weighted(wa, a as i64, wb, b as i64, wc, c as i64),
{
    proof {
        lemma_cell_product(wa, a);
        lemma_cell_product(wb, b);
        lemma_cell_product(wc, c);
    }
    wa as u64 * a + wb as u64 * b + wc as u64 * c
}

/// An icosphere under construction: the base mesh, and the grid points and
/// triangles of the faces subdivided so far.
pub struct Icosphere {
    /// The twelve icosahedron vertices once for each strip, as the two
    /// strips map them to different texture cells.
    ico_vertices: Vec<Vertex>,
    /// The twenty faces of the two strips, as indices into `ico_vertices`.
    ico_faces: Vec<(u8, u8, u8)>,
    /// The grid points of the subdivided faces.
    subdiv_vertices: Vec<SubdivVertex>,
    /// Triangles of indices into `subdiv_vertices`.
    subdiv_faces: Vec<(u32, u32, u32)>,
}

impl Icosphere {
    /// The grid points produced so far.
    pub closed spec fn vertices(&self) -> Seq<SubdivVertex> {
        self.subdiv_vertices@
    }

    /// The triangles produced so far.
    pub closed spec fn faces(&self) -> Seq<(u32, u32, u32)> {
        self.subdiv_faces@
    }

    /// The base mesh is in place, every grid point lies on a base face
    /// with weights summing to its division, and every triangle joins
    /// grid points that exist.
    pub closed spec fn wf(&self) -> bool {
        &&& self.ico_vertices@ == base_vertices()
        &&& self.ico_faces@.len() == 20
        &&& forall|k: int| 0 <= k < 20 ==> #[trigger] self.ico_faces@[k] == base_face(k)
        &&& forall|i: int| 0 <= i < self.subdiv_vertices@.len() ==> is_grid_vertex(
            #[trigger] self.subdiv_vertices@[i],
        )
        &&& forall|j: int|
            0 <= j < self.subdiv_faces@.len() ==> {
                let (a, b, c) = #[trigger] self.subdiv_faces@[j];
                a < self.subdiv_vertices@.len() && b < self.subdiv_vertices@.len() && c
                    < self.subdiv_vertices@.len()
            }
    }

    /// A sphere with the base mesh and nothing subdivided yet.
    pub fn new() -> (r: Icosphere)
        ensures
            r.wf(),
            r.vertices().len() == 0,
            r.faces().len() == 0,
    {
        let mut ico_vertices: Vec<Vertex> = Vec::new();
        let mut s: u8 = 0;
        while s < 2
            invariant
                s <= 2,
                ico_vertices@.len() == 12 * s,
                forall|k: int| 0 <= k < ico_vertices@.len() ==> #[trigger] ico_vertices@[k] == base_vertex(k),
            decreases 2 - s,
        {
            let mut i: u8 = 0;
            while i < 12
                invariant
                    s < 2,
                    i <= 12,
                    ico_vertices@.len() == 12 * s + i,
                    forall|k: int| 0 <= k < ico_vertices@.len() ==> #[trigger] ico_vertices@[k] == base_vertex(k),
                decreases 12 - i,
            {
                let entry = IcoStripVertex::of_strip(s, i);
                proof {
                    lemma_base_vertex(12 * s + i);
                    assert((12 * s + i) / 12 == s && (12 * s + i) % 12 == i);
                }
                ico_vertices.push(entry.to_vertex());
                i = i + 1;
            }
            s = s + 1;
        }
        assert(ico_vertices@ =~= base_vertices());
        let mut ico_faces: Vec<(u8, u8, u8)> = Vec::new();
        let mut k: u8 = 0;
        while k < 20
            invariant
                k <= 20,
                ico_faces@.len() == k,
                forall|j: int| 0 <= j < k ==> #[trigger] ico_faces@[j] == base_face(j),
            decreases 20 - k,
        {
            let tri = if k < 10 {
                strip_triangle_at(k, 0)
            } else {
                strip_triangle_at(k - 10, 12)
            };
            ico_faces.push(tri);
            k = k + 1;
        }
        Icosphere {
            ico_vertices,
            ico_faces,
            subdiv_vertices: Vec::new(),
            subdiv_faces: Vec::new(),
        }
    }

    /// Subdivides base face `face` into a triangular grid of side
    /// `division`, appending its `(division + 1)(division + 2) / 2` points,
    /// row by row, and its `division²` triangles. Nothing is shared with
    /// earlier grids, even over the same face.
    pub fn add_subdivided_face(&mut self, face: usize, division: u32)
        requires
            old(self).wf(),
            face < 20,
            old(self).vertices().len() + (division + 1) * (division + 2) / 2 <= u32::MAX as int + 1,
        ensures
            final(self).wf(),
            final(self).vertices() == old(self).vertices() + face_grid(division, base_face(face as int)),
            final(self).faces() == old(self).faces() + face_triangles(
                old(self).vertices().len() as int,
                division,
            ),
            final(self).vertices().len() == old(self).vertices().len() + (division + 1) * (division
                + 2) / 2,
            final(self).faces().len() == old(self).faces().len() + division * division,
            forall|i: int|
                old(self).vertices().len() <= i < final(self).vertices().len() ==> {
                    let w = (#[trigger] final(self).vertices()[i]).weights;
                    w.0 + w.1 + w.2 == division
                },
    {
        let face_tri = self.ico_faces[face];
        let ghost first = self.subdiv_vertices@.len() as int;
        let ghost count = triangular((division + 1) as nat) as int;
        proof {
            lemma_triangular((division + 1) as nat);
            assert(count == (division + 1) * (division + 2) / 2);
            lemma_division_bound(division, first);
            assert(face_tri.0 < 24 && face_tri.1 < 24 && face_tri.2 < 24) by {
                let k = face as int;
                assert(0 <= k < 20);
                assert(k < 10 || k >= 10);
            }
        }
        let first_vertex = self.subdiv_vertices.len() as u32;
        let mut y: u32 = 0;
        while y <= division
            invariant
                division < 0x20000,
                y <= division + 1,
                old(self).wf(),
                face_tri == base_face(face as int),
                face_tri.0 < 24 && face_tri.1 < 24 && face_tri.2 < 24,
                self.ico_vertices == old(self).ico_vertices,
                self.ico_faces == old(self).ico_faces,
                self.subdiv_faces == old(self).subdiv_faces,
                self.subdiv_vertices@ == old(self).subdiv_vertices@ + grid_rows(division, face_tri, y as nat),
            decreases division + 1 - y,
        {
            let ghost prefix = self.subdiv_vertices@;
            let mut x: u32 = 0;
            while x + y <= division
                invariant
                    division < 0x20000,
                    y <= division,
                    x <= division + 1 - y,
                    self.ico_vertices == old(self).ico_vertices,
                    self.ico_faces == old(self).ico_faces,
                    self.subdiv_faces == old(self).subdiv_faces,
                    self.subdiv_vertices@ == prefix + grid_row(division, face_tri, y as int).take(x as int),
                decreases division + 1 - y - x,
            {
                let z = division - x - y;
                self.subdiv_vertices.push(SubdivVertex::new(division, face_tri, (x, y, z)));
                assert(grid_row(division, face_tri, y as int).take(x + 1) =~= grid_row(division, face_tri, y as int).take(x as int).push(
                    SubdivVertex { division, ico_face: face_tri, weights: (x, y, z) },
                ));
                x = x + 1;
            }
            assert(grid_row(division, face_tri, y as int).take(x as int) =~= grid_row(division, face_tri, y as int));
            assert(self.subdiv_vertices@ =~= old(self).subdiv_vertices@ + grid_rows(division, face_tri, (y + 1) as nat));
            y = y + 1;
        }
        proof {
            lemma_grid_rows_len(division, face_tri, (division + 1) as nat);
            assert(triangular(0) == 0);
            assert forall|i: int| 0 <= i < self.subdiv_vertices@.len() implies is_grid_vertex(
                #[trigger] self.subdiv_vertices@[i],
            ) && (i >= first ==> self.subdiv_vertices@[i].division == division) by {
                if i >= first {
                    let g = grid_rows(division, face_tri, (division + 1) as nat);
                    assert(self.subdiv_vertices@[i] == g[i - first]);
                    lemma_grid_rows_member(division, face_tri, (division + 1) as nat, i - first, face as int);
                }
            }
        }
        let ghost vertices_after = self.subdiv_vertices@;
        let ghost vertices_len = self.subdiv_vertices@.len() as int;
        let mut y_i: u32 = first_vertex;
        let mut y: u32 = 0;
        while y < division
            invariant
                division < 0x20000,
                y <= division,
                vertices_len == first + count,
                vertices_len <= u32::MAX as int + 1,
                count == triangular((division + 1) as nat),
                first_vertex == first,
                y_i == row_start(first, division as int, y as int),
                self.ico_vertices == old(self).ico_vertices,
                self.ico_faces == old(self).ico_faces,
                self.subdiv_vertices@ == vertices_after,
                vertices_after.len() == vertices_len,
                self.subdiv_faces@ == old(self).subdiv_faces@ + grid_triangles(first, division as int, y as nat),
                forall|j: int|
                    0 <= j < self.subdiv_faces@.len() ==> {
                        let (a, b, c) = #[trigger] self.subdiv_faces@[j];
                        a < vertices_len && b < vertices_len && c < vertices_len
                    },
            decreases division - y,
        {
            proof {
                let n = (division - y) as nat;
                assert(triangular(n + 1) == triangular(n) + n + 1);
                lemma_triangular(n);
                assert(triangular(n) >= 1) by { assert(triangular(n) == triangular((n - 1) as nat) + n); lemma_triangular((n - 1) as nat); }
                lemma_triangular((division + 1 - y) as nat);
                assert((division + 1 - y) as nat == n + 1);
                assert(y_i as int + n + 1 == first + count - triangular(n));
            }
            let ny_i = y_i + (division - y) + 1;
            assert(ny_i == row_start(first, division as int, y + 1));
            let ghost prefix = self.subdiv_faces@;
            let mut x: u32 = 0;
            while x + y < division
                invariant
                    division < 0x20000,
                    y < division,
                    x <= division - y,
                    vertices_len <= u32::MAX as int + 1,
                    ny_i as int == y_i + division + 1 - y,
                    ny_i as int + (division - y) <= vertices_len,
                    self.ico_vertices == old(self).ico_vertices,
                    self.ico_faces == old(self).ico_faces,
                    self.subdiv_vertices@ == vertices_after,
                    vertices_after.len() == vertices_len,
                    self.subdiv_faces@ == prefix + row_triangles(y_i as int, ny_i as int, (division - y) as int, x as nat),
                    forall|j: int|
                        0 <= j < self.subdiv_faces@.len() ==> {
                            let (a, b, c) = #[trigger] self.subdiv_faces@[j];
                            a < vertices_len && b < vertices_len && c < vertices_len
                        },
                decreases division - y - x,
            {
                let ghost before = self.subdiv_faces@;
                self.subdiv_faces.push((y_i + x, y_i + x + 1, ny_i + x));
                if x + y + 1 < division {
                    self.subdiv_faces.push((y_i + x + 1, ny_i + x + 1, ny_i + x));
                }
                assert(self.subdiv_faces@ =~= before + triangles_at(y_i as int, ny_i as int, (division - y) as int, x as int));
                x = x + 1;
            }
            y_i = ny_i;
            y = y + 1;
        }
        proof {
            lemma_grid_triangles_len(first, division as int, division as nat);
            assert(division * division - (division - division) * (division - division) == division * division);
            assert(self.subdiv_vertices@ == vertices_after);
        }
    }

    /// Subdivides each of the twenty base faces, in order, into a grid of
    /// side `division`.
    pub fn subdivide(&mut self, division: u32)
        requires
            old(self).wf(),
            old(self).vertices().len() + 20 * ((division + 1) * (division + 2) / 2) <= u32::MAX as int + 1,
        ensures
            final(self).wf(),
            final(self).vertices() == old(self).vertices() + sphere_grid(division, 20),
            final(self).faces() == old(self).faces() + sphere_triangles(
                old(self).vertices().len() as int,
                division,
                20,
            ),
            final(self).vertices().len() == old(self).vertices().len() + 20 * ((division + 1) * (
            division + 2) / 2),
            final(self).faces().len() == old(self).faces().len() + 20 * (division * division),
    {
        let ghost first = self.vertices().len() as int;
        let ghost count = (division as int + 1) * (division as int + 2) / 2;
        let mut f: usize = 0;
        while f < 20
            invariant
                f <= 20,
                self.wf(),
                count == (division + 1) * (division + 2) / 2,
                count >= 0,
                first + 20 * count <= u32::MAX as int + 1,
                self.vertices() == old(self).vertices() + sphere_grid(division, f as nat),
                self.faces() == old(self).faces() + sphere_triangles(first, division, f as nat),
                self.vertices().len() == first + f * count,
                self.faces().len() == old(self).faces().len() + f * (division * division),
            decreases 20 - f,
        {
            assert(first + f * count + count <= first + 20 * count) by (nonlinear_arith)
                requires f < 20, count >= 0;
            assert(sphere_triangles(first, division, (f + 1) as nat) == sphere_triangles(
                first,
                division,
                f as nat,
            ) + face_triangles(first + f * count, division));
            assert(sphere_grid(division, (f + 1) as nat) == sphere_grid(division, f as nat)
                + face_grid(division, base_face(f as int)));
            self.add_subdivided_face(f, division);
            assert(first + f * count + count == first + (f + 1) * count) by (nonlinear_arith);
            assert(f * (division * division) + division * division == (f + 1) * (division
                * division)) by (nonlinear_arith);
            f = f + 1;
        }
    }

    /// The number of grid points produced so far.
    pub fn num_vertices(&self) -> (r: usize)
        ensures
            r == self.vertices().len(),
    {
        self.subdiv_vertices.len()
    }

    /// The number of triangles produced so far.
    pub fn num_faces(&self) -> (r: usize)
        ensures
            r == self.faces().len(),
    {
        self.subdiv_faces.len()
    }

    /// Grid point `n`, unresolved.
    pub fn grid_vertex(&self, n: usize) -> (r: SubdivVertex)
        requires
            n < self.vertices().len(),
        ensures
            r == self.vertices()[n as int],
    {
        self.subdiv_vertices[n]
    }

    /// Triangle `n`, as three indices of grid points.
    pub fn subdiv_face(&self, n: usize) -> (r: (u32, u32, u32))
        requires
            n < self.faces().len(),
        ensures
            r == self.faces()[n as int],
    {
        self.subdiv_faces[n]
    }

    /// Grid point `n`, resolved to a vertex over the base mesh.
    pub fn subdiv_vertex(&self, n: usize) -> (r: Vertex)
        requires
            self.wf(),
            n < self.vertices().len(),
        ensures
            r == resolve(self.vertices()[n as int], base_vertices()),
    {
        let sv = &self.subdiv_vertices[n];
        proof {
            assert(is_grid_vertex(self.subdiv_vertices@[n as int]));
            lemma_base_vertex(sv.ico_face.0 as int);
            lemma_base_vertex(sv.ico_face.1 as int);
            lemma_base_vertex(sv.ico_face.2 as int);
        }
        sv.to_vertex(self.ico_vertices.as_slice())
    }
}

impl Default for Icosphere {
    fn default() -> (r: Icosphere)
        ensures
            r.wf(),
            r.vertices().len() == 0,
            r.faces().len() == 0,
    {
        Icosphere::new()
    }
}

/// Every grid point an icosphere holds has weights that sum to its
/// division.
pub proof fn lemma_weights_sum_to_division(sphere: &Icosphere, i: int)
    requires
        sphere.wf(),
        0 <= i < sphere.vertices().len(),
    ensures
        ({
            let sv = sphere.vertices()[i];
            sv.weights.0 + sv.weights.1 + sv.weights.2 == sv.division
        }),
{
    assert(is_grid_vertex(sphere.subdiv_vertices@[i]));
}

/// The corners of a face's grid stand for the face's base vertices: the
/// grid point with all its weight on one corner resolves to the same point,
/// with the same texture coordinate, as that corner.
pub proof fn lemma_corners_resolve_to_base(sv: SubdivVertex)
    requires
        sv.ico_face.0 < 24 && sv.ico_face.1 < 24 && sv.ico_face.2 < 24,
        sv.division >= 1,
    ensures
        sv.weights == (sv.division, 0u32, 0u32) ==> same_point(
            resolve(sv, base_vertices()),
            base_vertex(sv.ico_face.0 as int),
        ),
        sv.weights == (0u32, sv.division, 0u32) ==> same_point(
            resolve(sv, base_vertices()),
            base_vertex(sv.ico_face.1 as int),
        ),
        sv.weights == (0u32, 0u32, sv.division) ==> same_point(
            resolve(sv, base_vertices()),
            base_vertex(sv.ico_face.2 as int),
        ),
{
    let (a, b, c) = sv.ico_face;
    let w = sv.division;
    assert(base_vertices()[a as int] == base_vertex(a as int));
    assert(base_vertices()[b as int] == base_vertex(b as int));
    assert(base_vertices()[c as int] == base_vertex(c as int));
    if sv.weights == (w, 0u32, 0u32) {
        lemma_corner_resolves(w, 0, sv, a, b, c);
    } else if sv.weights == (0u32, w, 0u32) {
        lemma_corner_resolves(w, 1, sv, a, b, c);
    } else if sv.weights == (0u32, 0u32, w) {
        lemma_corner_resolves(w, 2, sv, a, b, c);
    }
}

/// One corner of `lemma_corners_resolve_to_base`: `corner` is 0, 1 or 2.
#[verifier::rlimit(30)]
proof fn lemma_corner_resolves(w: u32, corner: int, sv: SubdivVertex, a: u8, b: u8, c: u8)
    requires
        sv.ico_face == (a, b, c),
        a < 24 && b < 24 && c < 24,
        w == sv.division,
        w >= 1,
        corner == 0 ==> sv.weights == (w, 0u32, 0u32),
        corner == 1 ==> sv.weights == (0u32, w, 0u32),
        corner == 2 ==> sv.weights == (0u32, 0u32, w),
        0 <= corner < 3,
    ensures
        same_point(
            resolve(sv, base_vertices()),
            base_vertex(if corner == 0 { a as int } else if corner == 1 { b as int } else { c as int }),
        ),
{
    lemma_base_vertex(a as int);
    lemma_base_vertex(b as int);
    lemma_base_vertex(c as int);
    assert(base_vertices()[a as int] == base_vertex(a as int));
    assert(base_vertices()[b as int] == base_vertex(b as int));
    assert(base_vertices()[c as int] == base_vertex(c as int));
    let (pa, pb, pc) = (
        base_vertex(a as int).position_xyz,
        base_vertex(b as int).position_xyz,
        base_vertex(c as int).position_xyz,
    );
    let (ta, tb, tc) = (
        base_vertex(a as int).texture_uv,
        base_vertex(b as int).texture_uv,
        base_vertex(c as int).texture_uv,
    );
    lemma_corner_weights(w, pa.x.int_part, pb.x.int_part, pc.x.int_part);
    lemma_corner_weights(w, pa.x.phi_part, pb.x.phi_part, pc.x.phi_part);
    lemma_corner_weights(w, pa.y.int_part, pb.y.int_part, pc.y.int_part);
    lemma_corner_weights(w, pa.y.phi_part, pb.y.phi_part, pc.y.phi_part);
    lemma_corner_weights(w, pa.z.int_part, pb.z.int_part, pc.z.int_part);
    lemma_corner_weights(w, pa.z.phi_part, pb.z.phi_part, pc.z.phi_part);
    lemma_corner_weights(w, ta.u as i64, tb.u as i64, tc.u as i64);
    lemma_corner_weights(w, ta.v as i64, tb.v as i64, tc.v as i64);
}

/// Subdividing a face at division 1 adds no resolution: the grid is the
/// face's three corners, which stand for its base vertices, and its one
/// triangle joins them in the face's own winding order.
pub proof fn lemma_division_one(face: (u8, u8, u8), first: int)
    requires
        face.0 < 24 && face.1 < 24 && face.2 < 24,
        0 <= first,
        first + 3 <= u32::MAX as int + 1,
    ensures
        face_grid(1, face).len() == 3,
        same_point(resolve(face_grid(1, face)[0], base_vertices()), base_vertex(face.2 as int)),
        same_point(resolve(face_grid(1, face)[1], base_vertices()), base_vertex(face.0 as int)),
        same_point(resolve(face_grid(1, face)[2], base_vertices()), base_vertex(face.1 as int)),
        face_triangles(first, 1) == seq![(first as u32, (first + 1) as u32, (first + 2) as u32)],
{
    let g = face_grid(1, face);
    assert(triangular(0) == 0);
    assert(triangular(1) == 1);
    assert(triangular(2) == 3);
    lemma_grid_rows_len(1, face, 2);
    lemma_grid_rows_len(1, face, 1);
    assert(g[0] == grid_row(1, face, 0)[0]);
    assert(g[1] == grid_row(1, face, 0)[1]);
    assert(g[2] == grid_row(1, face, 1)[0]);
    lemma_corners_resolve_to_base(g[0]);
    lemma_corners_resolve_to_base(g[1]);
    lemma_corners_resolve_to_base(g[2]);
    assert(row_start(first, 1, 0) == first);
    assert(row_start(first, 1, 1) == first + 2);
    assert(row_triangles(first, first + 2, 1, 1) == row_triangles(first, first + 2, 1, 0)
        + triangles_at(first, first + 2, 1, 0));
    assert(grid_triangles(first, 1, 1) == grid_triangles(first, 1, 0) + row_triangles(
        first,
        first + 2,
        1,
        1,
    ));
    assert(face_triangles(first, 1) =~= seq![(first as u32, (first + 1) as u32, (first + 2) as u32)]);
}

/// Every grid point of a sphere with a positive division resolves to a
/// nonzero position, so its projection onto the sphere is defined: its dot
/// product with the sum of its face's corners is `division · (2 + 3φ)`.
pub proof fn lemma_resolved_position_nonzero(sphere: &Icosphere, i: int)
    requires
        sphere.wf(),
        0 <= i < sphere.vertices().len(),
    ensures
        ({
            let sv = sphere.vertices()[i];
            let p = resolve(sv, base_vertices()).position_xyz;
            &&& exists|k: int|
                0 <= k < 20 && sv.ico_face == base_face(k) && {
                    let (pa, pb, pc) = #[trigger] face_corners(k);
                    dot(p, sum_vec3(pa, pb, pc)) == (2 * sv.division, 3 * sv.division)
                }
            &&& sv.division >= 1 ==> p != vec3(golden(0, 0), golden(0, 0), golden(0, 0))
        }),
{
    let sv = sphere.vertices()[i];
    assert(is_grid_vertex(sphere.subdiv_vertices@[i]));
    let k = choose|k: int| 0 <= k < 20 && sv.ico_face == #[trigger] base_face(k);
    lemma_resolved_dot(sv, k);
}

#[verifier::spinoff_prover]
#[verifier::rlimit(50)]
proof fn lemma_resolved_dot(sv: SubdivVertex, k: int)
    requires
        0 <= k < 20,
        sv.ico_face == base_face(k),
        sv.ico_face.0 < 24 && sv.ico_face.1 < 24 && sv.ico_face.2 < 24,
        sv.weights.0 + sv.weights.1 + sv.weights.2 == sv.division,
    ensures
        ({
            let p = resolve(sv, base_vertices()).position_xyz;
            let (pa, pb, pc) = face_corners(k);
            &&& dot(p, sum_vec3(pa, pb, pc)) == (2 * sv.division, 3 * sv.division)
            &&& sv.division >= 1 ==> p != vec3(golden(0, 0), golden(0, 0), golden(0, 0))
        }),
{
    let (a, b, c) = sv.ico_face;
    let (wa, wb, wc) = sv.weights;
    let (pa, pb, pc) = face_corners(k);
    let s = sum_vec3(pa, pb, pc);
    let p = resolve(sv, base_vertices()).position_xyz;
    lemma_base_vertex(a as int);
    lemma_base_vertex(b as int);
    lemma_base_vertex(c as int);
    assert(base_vertices()[a as int] == base_vertex(a as int));
    assert(base_vertices()[b as int] == base_vertex(b as int));
    assert(base_vertices()[c as int] == base_vertex(c as int));
    assert(pa == base_vertex(a as int).position_xyz);
    assert(pb == base_vertex(b as int).position_xyz);
    assert(pc == base_vertex(c as int).position_xyz);
    assert(p == weighted_vec3(wa, pa, wb, pb, wc, pc));
    lemma_face_corner_dots(k);
    lemma_dot_weighted(wa, pa, wb, pb, wc, pc, s);
    lemma_unit_dot(vec3(golden(0, 0), golden(0, 0), golden(0, 0)), s);
}

proof fn lemma_corner_weights(w: u32, a: i64, b: i64, c: i64)
    requires
        -5 <= a <= 5,
        -5 <= b <= 5,
        -5 <= c <= 5,
    ensures
        weighted(w, a, 0, b, 0, c) == a * w,
        weighted(0, a, w, b, 0, c) == b * w,
        weighted(0, a, 0, b, w, c) == c * w,
        -5 * w <= a * w <= 5 * w,
        -5 * w <= b * w <= 5 * w,
        -5 * w <= c * w <= 5 * w,
{
    assert(w as int * a as int + 0 * b as int + 0 * c as int == a * w) by (nonlinear_arith);
    assert(0 * a as int + w as int * b as int + 0 * c as int == b * w) by (nonlinear_arith);
    assert(0 * a as int + 0 * b as int + w as int * c as int == c * w) by (nonlinear_arith);
    assert(-5 * w <= a * w <= 5 * w) by (nonlinear_arith)
        requires -5 <= a <= 5, w >= 0;
    assert(-5 * w <= b * w <= 5 * w) by (nonlinear_arith)
        requires -5 <= b <= 5, w >= 0;
    assert(-5 * w <= c * w <= 5 * w) by (nonlinear_arith)
        requires -5 <= c <= 5, w >= 0;
}

} // verus!
