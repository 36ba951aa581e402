//! Procedural triangle-mesh toolkit: fixed-point vector algebra, indexed
//! meshes with deduplication and merging, and primitive shape generators
//! (triangle, square, cube, line, ring, sphere family).

pub mod color;
pub mod dedup;
pub mod grid;
pub mod mesh;
pub mod normal;
pub mod position;
pub mod primitives;
pub mod scalar;
pub mod trig;
pub mod vertex;

use vstd::prelude::*;

verus! {

/// Errors reported by mesh construction and transformation.
#[derive(Clone, Copy, Debug, PartialEq, Eq, Structural)]
pub enum GeometryError {
    /// An index references a vertex position at or beyond the vertex count.
    IndexOutOfRange,
    /// A zero-length direction vector or coincident points were supplied.
    DegenerateGeometry,
    /// A non-positive size, radius or thickness, or a zero subdivision count.
    InvalidParameter,
    /// The requested refinement is not implemented for this shape.
    Unsupported,
}

} // verus!
