//! Surface directions: three fixed-point components, not automatically
//! normalized.

use vstd::prelude::*;

use crate::position::{lemma_coord_prod, Position};
use crate::scalar::{fits_i64, fmul, fx_mul, in_coord_range};

verus! {

#[derive(Clone, Copy, Debug, PartialEq, Eq, Structural)]
pub struct Normal {
    pub x: i64,
    pub y: i64,
    pub z: i64,
}

/// All components lie within the working coordinate range.
pub open spec fn nrm_in_range(n: Normal) -> bool {
    &&& in_coord_range(n.x as int)
    &&& in_coord_range(n.y as int)
    &&& in_coord_range(n.z as int)
}

impl Normal {
    pub fn new(x: i64, y: i64, z: i64) -> (r: Self)
        ensures
            r.x == x,
            r.y == y,
            r.z == z,
    {
        Self { x, y, z }
    }

    /// As `new`; kept as a separate constructor for fixed, named directions.
    pub fn new_const(x: i64, y: i64, z: i64) -> (r: Self)
        ensures
            r.x == x,
            r.y == y,
            r.z == z,
    {
        Self { x, y, z }
    }

    /// The same direction as a homogeneous position with `w` zero.
    pub fn to_vec4(self) -> (r: Position)
        ensures
            r.x == self.x,
            r.y == self.y,
            r.z == self.z,
            r.w == 0,
    {
        Position { x: self.x, y: self.y, z: self.z, w: 0 }
    }

    /// The direction carried by a position, dropping `w`.
    pub fn from_position(p: Position) -> (r: Self)
        ensures
            r.x == p.x,
            r.y == p.y,
            r.z == p.z,
    {
        Self { x: p.x, y: p.y, z: p.z }
    }

    /// Component-wise sum of two directions.
    pub fn add(self, rhs: Self) -> (r: Self)
        requires
            fits_i64(self.x + rhs.x),
            fits_i64(self.y + rhs.y),
            fits_i64(self.z + rhs.z),
        ensures
            r.x == self.x + rhs.x,
            r.y == self.y + rhs.y,
            r.z == self.z + rhs.z,
    {
        Self { x: self.x + rhs.x, y: self.y + rhs.y, z: self.z + rhs.z }
    }

    /// Component-wise difference of two directions.
    pub fn sub(self, rhs: Self) -> (r: Self)
        requires
            fits_i64(self.x - rhs.x),
            fits_i64(self.y - rhs.y),
            fits_i64(self.z - rhs.z),
        ensures
            r.x == self.x - rhs.x,
            r.y == self.y - rhs.y,
            r.z == self.z - rhs.z,
    {
        Self { x: self.x - rhs.x, y: self.y - rhs.y, z: self.z - rhs.z }
    }

    /// Cross product of two directions.
    pub fn cross(self, target: Self) -> (r: Self)
        requires
            nrm_in_range(self),
            nrm_in_range(target),
        ensures
            r.x == fmul(self.y as int, target.z as int) - fmul(self.z as int, target.y as int),
            r.y == fmul(self.z as int, target.x as int) - fmul(self.x as int, target.z as int),
            r.z == fmul(self.x as int, target.y as int) - fmul(self.y as int, target.x as int),
    {
        proof {
            lemma_coord_prod(self.y as int, target.z as int);
            lemma_coord_prod(self.z as int, target.y as int);
            lemma_coord_prod(self.z as int, target.x as int);
            lemma_coord_prod(self.x as int, target.z as int);
            lemma_coord_prod(self.x as int, target.y as int);
            lemma_coord_prod(self.y as int, target.x as int);
        }
        Self {
            x: fx_mul(self.y, target.z) - fx_mul(self.z, target.y),
            y: fx_mul(self.z, target.x) - fx_mul(self.x, target.z),
            z: fx_mul(self.x, target.y) - fx_mul(self.y, target.x),
        }
    }
}

} // verus!
