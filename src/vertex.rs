//! A vertex of the mesh: a position and a texture-atlas coordinate, both
//! exact and both over one common denominator.
use vstd::prelude::*;

use crate::golden::{Golden, GoldenVec3};

verus! {

/// A texture coordinate in atlas cells: `u` counts fifths of the atlas
/// width and `v` halves of its height.
#[derive(Clone, Copy, Debug, PartialEq, Eq, Structural)]
pub struct TextureUv {
    pub u: u64,
    pub v: u64,
}

/// A mesh vertex in homogeneous form.
///
/// The point it stands for is `position_xyz / denominator`; the vertex
/// drawn on a sphere of radius `s` lies at `s · position_xyz / |position_xyz|`.
/// Its texture coordinate is `u = texture_uv.u / (5 · denominator)` and
/// `v = texture_uv.v / (2 · denominator)`: `texture_uv` counts atlas cells,
/// which are a fifth of the atlas wide and half of it high.
#[derive(Clone, Copy, Debug, PartialEq, Eq, Structural)]
pub struct Vertex {
    pub position_xyz: GoldenVec3,
    pub texture_uv: TextureUv,
    pub denominator: u32,
}

/// Whether the golden numbers `g / dg` and `h / dh` are equal, for
/// positive denominators `dg` and `dh`.
pub open spec fn same_golden(g: Golden, dg: int, h: Golden, dh: int) -> bool {
    &&& g.int_part as int * dh == h.int_part as int * dg
    &&& g.phi_part as int * dh == h.phi_part as int * dg
}

/// Whether two vertices with positive denominators stand for the same
/// point with the same texture coordinate.
pub open spec fn same_point(v: Vertex, w: Vertex) -> bool {
    let dv = v.denominator as int;
    let dw = w.denominator as int;
    &&& dv > 0 && dw > 0
    &&& same_golden(v.position_xyz.x, dv, w.position_xyz.x, dw)
    &&& same_golden(v.position_xyz.y, dv, w.position_xyz.y, dw)
    &&& same_golden(v.position_xyz.z, dv, w.position_xyz.z, dw)
    &&& v.texture_uv.u as int * dw == w.texture_uv.u as int * dv
    &&& v.texture_uv.v as int * dw == w.texture_uv.v as int * dv
}

impl Vertex {
    /// A vertex at `xyz` with texture coordinate (0, 0).
    pub fn new(xyz: GoldenVec3) -> (r: Vertex)
        ensures
            r == (Vertex { position_xyz: xyz, texture_uv: TextureUv { u: 0, v: 0 }, denominator: 1 }),
    {
        Vertex { position_xyz: xyz, texture_uv: TextureUv { u: 0, v: 0 }, denominator: 1 }
    }

    /// The same vertex with texture coordinate `uv`.
    pub fn with_uv(self, uv: TextureUv) -> (r: Vertex)
        ensures
            r == (Vertex { texture_uv: uv, ..self }),
    {
        let mut v = self;
        v.texture_uv = uv;
        v
    }
}

} // verus!
