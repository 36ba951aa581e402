//! Homogeneous positions: four fixed-point components where `w` marks a
//! point (one unit) or a direction (zero).

use vstd::prelude::*;

use crate::scalar::{
    abs_i, fdiv, fits_i64, fmul, fx_div, fx_lerp, fx_mul, fx_sqrt, in_coord_range, lerp,
    lemma_fmul_bound_by, lemma_fmul_mag, lemma_fmul_nonneg, lemma_fmul_one, sqrt_floor,
    COORD_LIMIT, SCALE,
};
use crate::GeometryError;

verus! {

#[derive(Clone, Copy, Debug, PartialEq, Eq, Structural)]
pub struct Position {
    pub x: i64,
    pub y: i64,
    pub z: i64,
    pub w: i64,
}

/// All three spatial components lie within the working coordinate range.
pub open spec fn pos_in_range(p: Position) -> bool {
    &&& in_coord_range(p.x as int)
    &&& in_coord_range(p.y as int)
    &&& in_coord_range(p.z as int)
    &&& in_coord_range(p.w as int)
}

/// Squared spatial length in fixed point; only x, y and z contribute.
pub open spec fn len_sq(p: Position) -> int {
    fmul(p.x as int, p.x as int) + fmul(p.y as int, p.y as int) + fmul(p.z as int, p.z as int)
}

/// Spatial length in fixed point, rounded down.
pub open spec fn length_of(p: Position) -> int {
    sqrt_floor(len_sq(p) * (SCALE as int))
}

/// The component-wise difference of two positions (all four components).
pub open spec fn diff_of(a: Position, b: Position) -> Position {
    Position {
        x: (a.x - b.x) as i64,
        y: (a.y - b.y) as i64,
        z: (a.z - b.z) as i64,
        w: (a.w - b.w) as i64,
    }
}

/// The fixed-point distance between two positions over x, y and z.
pub open spec fn distance_of(a: Position, b: Position) -> int {
    sqrt_floor(
        (fmul(a.x - b.x, a.x - b.x) + fmul(a.y - b.y, a.y - b.y) + fmul(a.z - b.z, a.z - b.z)) * (
        SCALE as int),
    )
}

pub proof fn lemma_len_sq_nonneg(p: Position)
    ensures
        len_sq(p) >= 0,
{
    assert((p.x as int) * (p.x as int) >= 0) by (nonlinear_arith);
    assert((p.y as int) * (p.y as int) >= 0) by (nonlinear_arith);
    assert((p.z as int) * (p.z as int) >= 0) by (nonlinear_arith);
    lemma_fmul_nonneg(p.x as int, p.x as int);
    lemma_fmul_nonneg(p.y as int, p.y as int);
    lemma_fmul_nonneg(p.z as int, p.z as int);
}

impl Position {
    pub fn new(x: i64, y: i64, z: i64, w: i64) -> (r: Self)
        ensures
            r.x == x,
            r.y == y,
            r.z == z,
            r.w == w,
    {
        Self { x, y, z, w }
    }

    /// Component-wise sum of two positions.
    pub fn add(self, rhs: Self) -> (r: Self)
        requires
            fits_i64(self.x + rhs.x),
            fits_i64(self.y + rhs.y),
            fits_i64(self.z + rhs.z),
            fits_i64(self.w + rhs.w),
        ensures
            r.x == self.x + rhs.x,
            r.y == self.y + rhs.y,
            r.z == self.z + rhs.z,
            r.w == self.w + rhs.w,
    {
        Self { x: self.x + rhs.x, y: self.y + rhs.y, z: self.z + rhs.z, w: self.w + rhs.w }
    }

    /// Component-wise difference of two positions.
    pub fn sub(self, rhs: Self) -> (r: Self)
        requires
            fits_i64(self.x - rhs.x),
            fits_i64(self.y - rhs.y),
            fits_i64(self.z - rhs.z),
            fits_i64(self.w - rhs.w),
        ensures
            r == diff_of(self, rhs),
    {
        Self { x: self.x - rhs.x, y: self.y - rhs.y, z: self.z - rhs.z, w: self.w - rhs.w }
    }

    /// Scale every component, `w` included, by a fixed-point factor.
    pub fn scale(self, s: i64) -> (r: Self)
        requires
            fits_i64(fmul(self.x as int, s as int)),
            fits_i64(fmul(self.y as int, s as int)),
            fits_i64(fmul(self.z as int, s as int)),
            fits_i64(fmul(self.w as int, s as int)),
        ensures
            r.x == fmul(self.x as int, s as int),
            r.y == fmul(self.y as int, s as int),
            r.z == fmul(self.z as int, s as int),
            r.w == fmul(self.w as int, s as int),
    {
        Self {
            x: fx_mul(self.x, s),
            y: fx_mul(self.y, s),
            z: fx_mul(self.z, s),
            w: fx_mul(self.w, s),
        }
    }

    /// Divide every component, `w` included, by a non-zero fixed-point factor.
    pub fn div(self, s: i64) -> (r: Self)
        requires
            s != 0,
            fits_i64(fdiv(self.x as int, s as int)),
            fits_i64(fdiv(self.y as int, s as int)),
            fits_i64(fdiv(self.z as int, s as int)),
            fits_i64(fdiv(self.w as int, s as int)),
        ensures
            r.x == fdiv(self.x as int, s as int),
            r.y == fdiv(self.y as int, s as int),
            r.z == fdiv(self.z as int, s as int),
            r.w == fdiv(self.w as int, s as int),
    {
        Self {
            x: fx_div(self.x, s),
            y: fx_div(self.y, s),
            z: fx_div(self.z, s),
            w: fx_div(self.w, s),
        }
    }

    /// Distance to `target` over the spatial components.
    pub fn distance(self, target: Position) -> (r: i64)
        requires
            pos_in_range(self),
            pos_in_range(target),
        ensures
            r == distance_of(self, target),
            r >= 0,
    {
        let dx = self.x - target.x;
        let dy = self.y - target.y;
        let dz = self.z - target.z;
        proof {
            lemma_fmul_mag(dx as int, dx as int, 2 * COORD_LIMIT as int, 2 * COORD_LIMIT as int);
            lemma_fmul_mag(dy as int, dy as int, 2 * COORD_LIMIT as int, 2 * COORD_LIMIT as int);
            lemma_fmul_mag(dz as int, dz as int, 2 * COORD_LIMIT as int, 2 * COORD_LIMIT as int);
            assert((dx as int) * (dx as int) >= 0) by (nonlinear_arith);
            assert((dy as int) * (dy as int) >= 0) by (nonlinear_arith);
            assert((dz as int) * (dz as int) >= 0) by (nonlinear_arith);
            lemma_fmul_nonneg(dx as int, dx as int);
            lemma_fmul_nonneg(dy as int, dy as int);
            lemma_fmul_nonneg(dz as int, dz as int);
        }
        let sq = fx_mul(dx, dx) + fx_mul(dy, dy) + fx_mul(dz, dz);
        fx_sqrt(sq)
    }

    /// Direction from `target` toward `self`: the difference divided by the
    /// distance; reports the distance rounding to zero as degenerate.
    pub fn direction(self, target: Position) -> (r: Result<Position, GeometryError>)
        requires
            pos_in_range(self),
            pos_in_range(target),
        ensures
            distance_of(self, target) == 0 <==> r == Err::<Position, GeometryError>(
                GeometryError::DegenerateGeometry,
            ),
            match r {
                Ok(p) => {
                    let d = distance_of(self, target);
                    &&& p.x == fdiv(self.x - target.x, d)
                    &&& p.y == fdiv(self.y - target.y, d)
                    &&& p.z == fdiv(self.z - target.z, d)
                    &&& p.w == fdiv(self.w - target.w, d)
                },
                Err(e) => e == GeometryError::DegenerateGeometry,
            },
    {
        let d = self.distance(target);
        if d == 0 {
            Err(GeometryError::DegenerateGeometry)
        } else {
            let delta = self.sub(target);
            proof {
                lemma_fdiv_fits(delta.x as int, d as int);
                lemma_fdiv_fits(delta.y as int, d as int);
                lemma_fdiv_fits(delta.z as int, d as int);
                lemma_fdiv_fits(delta.w as int, d as int);
            }
            Ok(delta.div(d))
        }
    }

    /// Spatial length of this position seen as a vector from the origin.
    pub fn magnitude(self) -> (r: i64)
        requires
            pos_in_range(self),
        ensures
            r == length_of(self),
            r >= 0,
    {
        self.sqrt()
    }

    /// Spatial length: the square root of the sum of the squared spatial
    /// components.
    pub fn sqrt(self) -> (r: i64)
        requires
            pos_in_range(self),
        ensures
            r == length_of(self),
            r >= 0,
    {
        proof {
            lemma_fmul_mag(self.x as int, self.x as int, COORD_LIMIT as int, COORD_LIMIT as int);
            lemma_fmul_mag(self.y as int, self.y as int, COORD_LIMIT as int, COORD_LIMIT as int);
            lemma_fmul_mag(self.z as int, self.z as int, COORD_LIMIT as int, COORD_LIMIT as int);
            lemma_len_sq_nonneg(self);
        }
        let sq = fx_mul(self.x, self.x) + fx_mul(self.y, self.y) + fx_mul(self.z, self.z);
        fx_sqrt(sq)
    }

    /// Divide by the spatial length, leaving a zero-length position unchanged.
    pub fn normalize(self) -> (r: Position)
        requires
            pos_in_range(self),
        ensures
            length_of(self) == 0 ==> r == self,
            length_of(self) != 0 ==> {
                let m = length_of(self);
                &&& r.x == fdiv(self.x as int, m)
                &&& r.y == fdiv(self.y as int, m)
                &&& r.z == fdiv(self.z as int, m)
                &&& r.w == fdiv(self.w as int, m)
            },
    {
        let m = self.sqrt();
        if m == 0 {
            self
        } else {
            proof {
                lemma_fdiv_fits(self.x as int, m as int);
                lemma_fdiv_fits(self.y as int, m as int);
                lemma_fdiv_fits(self.z as int, m as int);
                lemma_fdiv_fits(self.w as int, m as int);
            }
            self.div(m)
        }
    }

    /// Cross product over the spatial components; the `w` of the result is
    /// always zero.
    pub fn cross(self, target: Position) -> (r: Position)
        requires
            pos_in_range(self),
            pos_in_range(target),
        ensures
            r.x == fmul(self.y as int, target.z as int) - fmul(self.z as int, target.y as int),
            r.y == fmul(self.z as int, target.x as int) - fmul(self.x as int, target.z as int),
            r.z == fmul(self.x as int, target.y as int) - fmul(self.y as int, target.x as int),
            r.w == 0,
    {
        proof {
            lemma_cross_term_fits(self, target);
        }
        Position {
            x: fx_mul(self.y, target.z) - fx_mul(self.z, target.y),
            y: fx_mul(self.z, target.x) - fx_mul(self.x, target.z),
            z: fx_mul(self.x, target.y) - fx_mul(self.y, target.x),
            w: 0,
        }
    }

    /// Dot product over the spatial components.
    pub fn dot(self, target: Position) -> (r: i64)
        requires
            pos_in_range(self),
            pos_in_range(target),
        ensures
            r == fmul(self.x as int, target.x as int) + fmul(self.y as int, target.y as int)
                + fmul(self.z as int, target.z as int),
    {
        proof {
            lemma_cross_term_fits(self, target);
        }
        fx_mul(self.x, target.x) + fx_mul(self.y, target.y) + fx_mul(self.z, target.z)
    }

    /// The position reached by walking `distance` along `direction`.
    pub fn find_next(self, direction: Position, distance: i64) -> (r: Position)
        requires
            fits_i64(fmul(direction.x as int, distance as int)),
            fits_i64(fmul(direction.y as int, distance as int)),
            fits_i64(fmul(direction.z as int, distance as int)),
            fits_i64(fmul(direction.w as int, distance as int)),
            fits_i64(self.x + fmul(direction.x as int, distance as int)),
            fits_i64(self.y + fmul(direction.y as int, distance as int)),
            fits_i64(self.z + fmul(direction.z as int, distance as int)),
            fits_i64(self.w + fmul(direction.w as int, distance as int)),
        ensures
            r.x == self.x + fmul(direction.x as int, distance as int),
            r.y == self.y + fmul(direction.y as int, distance as int),
            r.z == self.z + fmul(direction.z as int, distance as int),
            r.w == self.w + fmul(direction.w as int, distance as int),
    {
        self.add(direction.scale(distance))
    }

    /// Linear interpolation toward `target`; `amount` is not clamped, zero
    /// returns `self` exactly and one unit returns `target` exactly.
    pub fn interpolate(self, target: Position, amount: i64) -> (r: Position)
        requires
            fits_i64((SCALE as int) - amount),
            fits_i64(fmul(self.x as int, (SCALE as int) - amount)),
            fits_i64(fmul(self.y as int, (SCALE as int) - amount)),
            fits_i64(fmul(self.z as int, (SCALE as int) - amount)),
            fits_i64(fmul(self.w as int, (SCALE as int) - amount)),
            fits_i64(fmul(target.x as int, amount as int)),
            fits_i64(fmul(target.y as int, amount as int)),
            fits_i64(fmul(target.z as int, amount as int)),
            fits_i64(fmul(target.w as int, amount as int)),
            fits_i64(lerp(self.x as int, target.x as int, amount as int)),
            fits_i64(lerp(self.y as int, target.y as int, amount as int)),
            fits_i64(lerp(self.z as int, target.z as int, amount as int)),
            fits_i64(lerp(self.w as int, target.w as int, amount as int)),
        ensures
            r.x == lerp(self.x as int, target.x as int, amount as int),
            r.y == lerp(self.y as int, target.y as int, amount as int),
            r.z == lerp(self.z as int, target.z as int, amount as int),
            r.w == lerp(self.w as int, target.w as int, amount as int),
            amount == 0 ==> r == self,
            amount == SCALE ==> r == target,
    {
        let r = Position {
            x: fx_lerp(self.x, target.x, amount),
            y: fx_lerp(self.y, target.y, amount),
            z: fx_lerp(self.z, target.z, amount),
            w: fx_lerp(self.w, target.w, amount),
        };
        proof {
            if amount == 0 || amount == SCALE {
                lemma_fmul_one(self.x as int);
                lemma_fmul_one(self.y as int);
                lemma_fmul_one(self.z as int);
                lemma_fmul_one(self.w as int);
                lemma_fmul_one(target.x as int);
                lemma_fmul_one(target.y as int);
                lemma_fmul_one(target.z as int);
                lemma_fmul_one(target.w as int);
            }
        }
        r
    }

    /// Rotate about an axis anchored at `origin`, given the sine and cosine
    /// of the angle in fixed point.  The axis is normalized internally; an
    /// axis whose length rounds to zero is reported as degenerate.
    pub fn rotate(
        &self,
        sin_a: i64,
        cos_a: i64,
        origin: Position,
        axis: Position,
    ) -> (r: Result<Position, GeometryError>)
        requires
            rotatable(*self),
            rotatable(origin),
            pos_in_range(axis),
            abs_i(sin_a as int) <= SCALE as int,
            abs_i(cos_a as int) <= SCALE as int,
        ensures
            length_of(axis) == 0 <==> r == Err::<Position, GeometryError>(
                GeometryError::DegenerateGeometry,
            ),
            match r {
                Ok(q) => {
                    &&& q.x == rotated_x(*self, sin_a as int, cos_a as int, origin, axis)
                    &&& q.y == rotated_y(*self, sin_a as int, cos_a as int, origin, axis)
                    &&& q.z == rotated_z(*self, sin_a as int, cos_a as int, origin, axis)
                    &&& q.w == self.w
                    &&& pos_in_range(q)
                },
                Err(e) => e == GeometryError::DegenerateGeometry,
            },
    {
        let m = axis.sqrt();
        if m == 0 {
            return Err(GeometryError::DegenerateGeometry);
        }
        proof {
            lemma_unit_component_bound(axis);
            lemma_fdiv_fits(axis.x as int, m as int);
            lemma_fdiv_fits(axis.y as int, m as int);
            lemma_fdiv_fits(axis.z as int, m as int);
        }
        let kx = fx_div(axis.x, m);
        let ky = fx_div(axis.y, m);
        let kz = fx_div(axis.z, m);
        let ic = SCALE - cos_a;
        let s2: i64 = 2 * SCALE;
        proof {
            lemma_fmul_bound_by(kx as int, kx as int, s2 as int, s2 as int, 4 * SCALE as int);
            lemma_fmul_bound_by(kx as int, ky as int, s2 as int, s2 as int, 4 * SCALE as int);
            lemma_fmul_bound_by(kx as int, kz as int, s2 as int, s2 as int, 4 * SCALE as int);
            lemma_fmul_bound_by(ky as int, ky as int, s2 as int, s2 as int, 4 * SCALE as int);
            lemma_fmul_bound_by(ky as int, kz as int, s2 as int, s2 as int, 4 * SCALE as int);
            lemma_fmul_bound_by(kz as int, kz as int, s2 as int, s2 as int, 4 * SCALE as int);
        }
        let kxx = fx_mul(kx, kx);
        let kxy = fx_mul(kx, ky);
        let kxz = fx_mul(kx, kz);
        let kyy = fx_mul(ky, ky);
        let kyz = fx_mul(ky, kz);
        let kzz = fx_mul(kz, kz);
        proof {
            lemma_fmul_bound_by(kxx as int, ic as int, 4 * SCALE as int, s2 as int, 8 * SCALE as int);
            lemma_fmul_bound_by(kxy as int, ic as int, 4 * SCALE as int, s2 as int, 8 * SCALE as int);
            lemma_fmul_bound_by(kxz as int, ic as int, 4 * SCALE as int, s2 as int, 8 * SCALE as int);
            lemma_fmul_bound_by(kyy as int, ic as int, 4 * SCALE as int, s2 as int, 8 * SCALE as int);
            lemma_fmul_bound_by(kyz as int, ic as int, 4 * SCALE as int, s2 as int, 8 * SCALE as int);
            lemma_fmul_bound_by(kzz as int, ic as int, 4 * SCALE as int, s2 as int, 8 * SCALE as int);
            lemma_fmul_bound_by(kx as int, sin_a as int, s2 as int, SCALE as int, s2 as int);
            lemma_fmul_bound_by(ky as int, sin_a as int, s2 as int, SCALE as int, s2 as int);
            lemma_fmul_bound_by(kz as int, sin_a as int, s2 as int, SCALE as int, s2 as int);
        }
        let e00 = fx_mul(kxx, ic) + cos_a;
        let e01 = fx_mul(kxy, ic) - fx_mul(kz, sin_a);
        let e02 = fx_mul(kxz, ic) + fx_mul(ky, sin_a);
        let e10 = fx_mul(kxy, ic) + fx_mul(kz, sin_a);
        let e11 = fx_mul(kyy, ic) + cos_a;
        let e12 = fx_mul(kyz, ic) - fx_mul(kx, sin_a);
        let e20 = fx_mul(kxz, ic) - fx_mul(ky, sin_a);
        let e21 = fx_mul(kyz, ic) + fx_mul(kx, sin_a);
        let e22 = fx_mul(kzz, ic) + cos_a;
        let px = self.x - origin.x;
        let py = self.y - origin.y;
        let pz = self.z - origin.z;
        proof {
            let me: int = 11 * SCALE as int;
            let mp: int = 2 * ROT_LIMIT as int;
            lemma_row_fits(px as int, py as int, pz as int, e00 as int, e01 as int, e02 as int);
            lemma_row_fits(px as int, py as int, pz as int, e10 as int, e11 as int, e12 as int);
            lemma_row_fits(px as int, py as int, pz as int, e20 as int, e21 as int, e22 as int);
        }
        let rx = fx_mul(px, e00) + fx_mul(py, e01) + fx_mul(pz, e02) + origin.x;
        let ry = fx_mul(px, e10) + fx_mul(py, e11) + fx_mul(pz, e12) + origin.y;
        let rz = fx_mul(px, e20) + fx_mul(py, e21) + fx_mul(pz, e22) + origin.z;
        Ok(Position { x: rx, y: ry, z: rz, w: self.w })
    }
}

/// Coordinate magnitude accepted by rotation; small enough that the rotated
/// result provably stays inside the working coordinate range.
pub const ROT_LIMIT: i64 = 2147483648;

/// The spatial components are small enough to rotate, and `w` is in range.
pub open spec fn rotatable(p: Position) -> bool {
    &&& abs_i(p.x as int) <= ROT_LIMIT as int
    &&& abs_i(p.y as int) <= ROT_LIMIT as int
    &&& abs_i(p.z as int) <= ROT_LIMIT as int
    &&& in_coord_range(p.w as int)
}

/// The x component after rotating `p` about `axis` anchored at `o`, by the
/// angle whose sine and cosine are `s` and `c`: the first row of the
/// axis-angle rotation matrix applied to the origin-relative position.
pub open spec fn rotated_x(p: Position, s: int, c: int, o: Position, axis: Position) -> int {
    let m = length_of(axis);
    let kx = fdiv(axis.x as int, m);
    let ky = fdiv(axis.y as int, m);
    let kz = fdiv(axis.z as int, m);
    let ic = (SCALE as int) - c;
    let e00 = fmul(fmul(kx, kx), ic) + c;
    let e01 = fmul(fmul(kx, ky), ic) - fmul(kz, s);
    let e02 = fmul(fmul(kx, kz), ic) + fmul(ky, s);
    fmul(p.x - o.x, e00) + fmul(p.y - o.y, e01) + fmul(p.z - o.z, e02) + o.x
}

/// As `rotated_x`, for the y component (second matrix row).
pub open spec fn rotated_y(p: Position, s: int, c: int, o: Position, axis: Position) -> int {
    let m = length_of(axis);
    let kx = fdiv(axis.x as int, m);
    let ky = fdiv(axis.y as int, m);
    let kz = fdiv(axis.z as int, m);
    let ic = (SCALE as int) - c;
    let e10 = fmul(fmul(kx, ky), ic) + fmul(kz, s);
    let e11 = fmul(fmul(ky, ky), ic) + c;
    let e12 = fmul(fmul(ky, kz), ic) - fmul(kx, s);
    fmul(p.x - o.x, e10) + fmul(p.y - o.y, e11) + fmul(p.z - o.z, e12) + o.y
}

/// As `rotated_x`, for the z component (third matrix row).
pub open spec fn rotated_z(p: Position, s: int, c: int, o: Position, axis: Position) -> int {
    let m = length_of(axis);
    let kx = fdiv(axis.x as int, m);
    let ky = fdiv(axis.y as int, m);
    let kz = fdiv(axis.z as int, m);
    let ic = (SCALE as int) - c;
    let e20 = fmul(fmul(kx, kz), ic) - fmul(ky, s);
    let e21 = fmul(fmul(ky, kz), ic) + fmul(kx, s);
    let e22 = fmul(fmul(kz, kz), ic) + c;
    fmul(p.x - o.x, e20) + fmul(p.y - o.y, e21) + fmul(p.z - o.z, e22) + o.z
}

/// Each component of the normalized axis is at most two fixed-point units in
/// magnitude, even though truncation can push it slightly past one.
pub proof fn lemma_unit_component_bound(axis: Position)
    requires
        pos_in_range(axis),
        length_of(axis) > 0,
    ensures
        abs_i(fdiv(axis.x as int, length_of(axis))) <= 2 * SCALE as int,
        abs_i(fdiv(axis.y as int, length_of(axis))) <= 2 * SCALE as int,
        abs_i(fdiv(axis.z as int, length_of(axis))) <= 2 * SCALE as int,
{
    let s = len_sq(axis);
    let m = length_of(axis);
    lemma_len_sq_nonneg(axis);
    assert((axis.x as int) * (axis.x as int) >= 0) by (nonlinear_arith);
    assert((axis.y as int) * (axis.y as int) >= 0) by (nonlinear_arith);
    assert((axis.z as int) * (axis.z as int) >= 0) by (nonlinear_arith);
    lemma_fmul_nonneg(axis.x as int, axis.x as int);
    lemma_fmul_nonneg(axis.y as int, axis.y as int);
    lemma_fmul_nonneg(axis.z as int, axis.z as int);
    assert(s * (SCALE as int) >= 0) by (nonlinear_arith)
        requires
            s >= 0,
    ;
    crate::scalar::lemma_sqrt_floor_exists(s * (SCALE as int));
    assert(m * m <= s * (SCALE as int));
    assert(s * (SCALE as int) < (m + 1) * (m + 1));
    if s == 0 {
        assert(m * m <= 0);
        assert(m == 0) by (nonlinear_arith)
            requires
                m >= 0,
                m * m <= 0,
        ;
        assert(false);
    }
    assert(s >= 1);
    assert(s * (SCALE as int) >= SCALE as int) by (nonlinear_arith)
        requires
            s >= 1,
    ;
    assert(m >= 1024) by (nonlinear_arith)
        requires
            (m + 1) * (m + 1) > 1048576,
            m >= 0,
    ;
    lemma_unit_axis_part(axis.x as int, s, m);
    lemma_unit_axis_part(axis.y as int, s, m);
    lemma_unit_axis_part(axis.z as int, s, m);
}

/// One component of `lemma_unit_component_bound`: a coordinate whose squared
/// contribution is counted in `s` divides by `m ~ sqrt(s)` to at most two
/// units.
proof fn lemma_unit_axis_part(c: int, s: int, m: int)
    requires
        fmul(c, c) <= s,
        fmul(c, c) >= 0,
        c * c >= 0,
        m >= 1024,
        m * m <= s * (SCALE as int),
        s * (SCALE as int) < (m + 1) * (m + 1),
    ensures
        abs_i(fdiv(c, m)) <= 2 * SCALE as int,
{
    crate::scalar::lemma_div_trunc_upper(c * c, SCALE as int);
    assert(c * c < (fmul(c, c) + 1) * (SCALE as int));
    assert(c * c < (s + 1) * (SCALE as int)) by (nonlinear_arith)
        requires
            c * c < (fmul(c, c) + 1) * (SCALE as int),
            fmul(c, c) <= s,
            SCALE as int > 0,
    ;
    assert(c * c <= 4 * (m * m)) by (nonlinear_arith)
        requires
            c * c < (s + 1) * (SCALE as int),
            s * (SCALE as int) < (m + 1) * (m + 1),
            m >= 1024,
            SCALE as int == 1048576,
    ;
    assert(abs_i(c) <= 2 * m) by (nonlinear_arith)
        requires
            c * c <= 4 * (m * m),
            m >= 0,
    ;
    crate::scalar::lemma_div_trunc_mag(c * (SCALE as int), m);
    assert(abs_i(c * (SCALE as int)) == abs_i(c) * (SCALE as int)) by (nonlinear_arith)
        requires
            SCALE as int > 0,
    ;
    assert(abs_i(fdiv(c, m)) <= 2 * SCALE as int) by (nonlinear_arith)
        requires
            abs_i(fdiv(c, m)) * m <= abs_i(c) * (SCALE as int),
            abs_i(c) <= 2 * m,
            m > 0,
            SCALE as int > 0,
            abs_i(fdiv(c, m)) >= 0,
    ;
}

/// The three weighted terms of one rotated coordinate, and their sum with
/// the origin shift, all fit a machine word; the sum stays in range.
proof fn lemma_row_fits(px: int, py: int, pz: int, ea: int, eb: int, ec: int)
    requires
        abs_i(px) <= 2 * ROT_LIMIT as int,
        abs_i(py) <= 2 * ROT_LIMIT as int,
        abs_i(pz) <= 2 * ROT_LIMIT as int,
        abs_i(ea) <= 11 * SCALE as int,
        abs_i(eb) <= 11 * SCALE as int,
        abs_i(ec) <= 11 * SCALE as int,
    ensures
        abs_i(fmul(px, ea)) <= 22 * ROT_LIMIT as int,
        abs_i(fmul(py, eb)) <= 22 * ROT_LIMIT as int,
        abs_i(fmul(pz, ec)) <= 22 * ROT_LIMIT as int,
{
    lemma_fmul_bound_by(px, ea, 2 * ROT_LIMIT as int, 11 * SCALE as int, 22 * ROT_LIMIT as int);
    lemma_fmul_bound_by(py, eb, 2 * ROT_LIMIT as int, 11 * SCALE as int, 22 * ROT_LIMIT as int);
    lemma_fmul_bound_by(pz, ec, 2 * ROT_LIMIT as int, 11 * SCALE as int, 22 * ROT_LIMIT as int);
}

/// A fixed-point quotient of an in-range numerator always fits a machine
/// word.
pub proof fn lemma_fdiv_fits(a: int, d: int)
    requires
        d != 0,
        abs_i(a) <= 2 * (COORD_LIMIT as int),
    ensures
        fits_i64(fdiv(a, d)),
        abs_i(fdiv(a, d)) <= abs_i(a) * (SCALE as int),
{
    crate::scalar::lemma_div_trunc_mag_any(a * (SCALE as int), d);
    assert(abs_i(a * (SCALE as int)) == abs_i(a) * (SCALE as int)) by (nonlinear_arith)
        requires
            SCALE as int > 0,
    ;
    assert(abs_i(a) * (SCALE as int) <= 2 * (COORD_LIMIT as int) * (SCALE as int))
        by (nonlinear_arith)
        requires
            abs_i(a) <= 2 * (COORD_LIMIT as int),
            SCALE as int > 0,
    ;
}

/// Products of in-range coordinates fit a machine word.
proof fn lemma_cross_term_fits(a: Position, b: Position)
    requires
        pos_in_range(a),
        pos_in_range(b),
    ensures
        fits_i64(fmul(a.x as int, b.x as int)),
        fits_i64(fmul(a.x as int, b.y as int)),
        fits_i64(fmul(a.x as int, b.z as int)),
        fits_i64(fmul(a.y as int, b.x as int)),
        fits_i64(fmul(a.y as int, b.y as int)),
        fits_i64(fmul(a.y as int, b.z as int)),
        fits_i64(fmul(a.z as int, b.x as int)),
        fits_i64(fmul(a.z as int, b.y as int)),
        fits_i64(fmul(a.z as int, b.z as int)),
        abs_i(fmul(a.x as int, b.x as int)) <= 72057594037927936,
        abs_i(fmul(a.x as int, b.y as int)) <= 72057594037927936,
        abs_i(fmul(a.x as int, b.z as int)) <= 72057594037927936,
        abs_i(fmul(a.y as int, b.x as int)) <= 72057594037927936,
        abs_i(fmul(a.y as int, b.y as int)) <= 72057594037927936,
        abs_i(fmul(a.y as int, b.z as int)) <= 72057594037927936,
        abs_i(fmul(a.z as int, b.x as int)) <= 72057594037927936,
        abs_i(fmul(a.z as int, b.y as int)) <= 72057594037927936,
        abs_i(fmul(a.z as int, b.z as int)) <= 72057594037927936,
{
    let l = COORD_LIMIT as int;
    lemma_coord_prod(a.x as int, b.x as int);
    lemma_coord_prod(a.x as int, b.y as int);
    lemma_coord_prod(a.x as int, b.z as int);
    lemma_coord_prod(a.y as int, b.x as int);
    lemma_coord_prod(a.y as int, b.y as int);
    lemma_coord_prod(a.y as int, b.z as int);
    lemma_coord_prod(a.z as int, b.x as int);
    lemma_coord_prod(a.z as int, b.y as int);
    lemma_coord_prod(a.z as int, b.z as int);
}

/// A single in-range coordinate product, rescaled, stays below `2^56`.
pub proof fn lemma_coord_prod(a: int, b: int)
    requires
        in_coord_range(a),
        in_coord_range(b),
    ensures
        abs_i(fmul(a, b)) <= 72057594037927936,
        fits_i64(fmul(a, b)),
{
    lemma_fmul_mag(a, b, COORD_LIMIT as int, COORD_LIMIT as int);
    assert(abs_i(fmul(a, b)) * (SCALE as int) <= (COORD_LIMIT as int) * (COORD_LIMIT as int));
    assert(abs_i(fmul(a, b)) <= 72057594037927936) by (nonlinear_arith)
        requires
            abs_i(fmul(a, b)) * (SCALE as int) <= (COORD_LIMIT as int) * (COORD_LIMIT as int),
            SCALE as int == 1048576,
            COORD_LIMIT as int == 274877906944,
            abs_i(fmul(a, b)) >= 0,
    ;
}

} // verus!
