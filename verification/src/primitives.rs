//! Primitive shape generators: each builds an indexed triangle mesh from an
//! origin and a few shape parameters, and supports whatever refinement the
//! shape defines.

pub mod cube;
pub mod geometry;
pub mod line;
pub mod quad;
pub mod ring;
pub mod sphere;
pub mod triangle;
