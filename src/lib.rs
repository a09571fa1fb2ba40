//! Geometry of an icosphere: a regular icosahedron with a seam-free
//! texture-atlas layout, whose faces are subdivided into triangular grids.
//!
//! All values here are exact. Positions are vectors over the golden
//! integers `a + b·φ` and are not yet projected onto the sphere; texture
//! coordinates are integers in units of an atlas cell, over a common
//! denominator. Turning a vertex into floating-point coordinates is left
//! to the caller.
pub mod golden;
pub mod icosahedron;
pub mod sphere;
pub mod vertex;

pub use golden::{Golden, GoldenVec3};
pub use icosahedron::{texture_uv_of_u8, IcoStripVertex, IcosVertex};
pub use sphere::{Icosphere, SubdivVertex};
pub use vertex::{TextureUv, Vertex};
