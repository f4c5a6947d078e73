//! Procedural terrain mesh synthesis.
//!
//! The crate builds a GPU-ready mesh for a square heightfield terrain:
//! a row-major grid of vertices (position, normal, texture coordinate),
//! a serpentine triangle-strip index sequence, and per-vertex normals
//! averaged over the triangles incident to each grid vertex.
//!
//! All geometry is carried in integer units so that every stage is exact:
//! elevations are fixed-point integers, grid spacing is an integer scale,
//! and normals are stored scaled by [`NORMAL_SCALE`].  A renderer divides
//! positions by the spacing and normals by [`NORMAL_SCALE`] when it turns
//! the buffers into floating-point attribute data.

use vstd::prelude::*;

pub mod camera;
pub mod cube;
pub mod drawable;
pub mod geometry;
pub mod heightfield;
pub mod isqrt;
pub mod mesh;
pub mod normals;
pub mod shader;
pub mod terrain;
pub mod texture;
pub mod topology;

verus! {

/// Largest grid resolution accepted, so that every vertex index fits in `u32`
/// and attribute buffers fit in `usize`.
pub const MAX_RESOLUTION: usize = 16384;

/// Largest magnitude accepted for a fixed-point elevation sample.
pub const MAX_ELEVATION: i64 = 131072;

/// Largest grid spacing accepted.
pub const MAX_SPACING: i64 = 1024;

/// Fixed-point scale of the normal vectors written into the mesh:
/// a unit component is stored as `NORMAL_SCALE`.
pub const NORMAL_SCALE: i64 = 16777216;

} // verus!
