//! Mesh vertices: a position, a color and a normal, compared field by field
//! with exact equality.

use vstd::prelude::*;

use crate::color::{col_in_range, Color};
use crate::normal::{nrm_in_range, Normal};
use crate::position::{distance_of, lemma_coord_prod, pos_in_range, Position};
use crate::scalar::{abs_i, bilin, fdiv, fits_i64, fmul, fx_bilin, fx_div, COORD_LIMIT, SCALE};

verus! {

#[derive(Clone, Copy, Debug, PartialEq, Eq, Structural)]
pub struct Vertex {
    pub position: Position,
    pub color: Color,
    pub normal: Normal,
}

/// Every scalar of the vertex lies within the working coordinate range.
pub open spec fn vert_in_range(v: Vertex) -> bool {
    &&& pos_in_range(v.position)
    &&& col_in_range(v.color)
    &&& nrm_in_range(v.normal)
}

/// One spatial component of the triangle normal `(b - a) x (c - a)` of the
/// corners `a`, `b`, `c`.
pub open spec fn tri_normal_x(a: Position, b: Position, c: Position) -> int {
    fmul(b.y - a.y, c.z - a.z) - fmul(b.z - a.z, c.y - a.y)
}

pub open spec fn tri_normal_y(a: Position, b: Position, c: Position) -> int {
    fmul(b.z - a.z, c.x - a.x) - fmul(b.x - a.x, c.z - a.z)
}

pub open spec fn tri_normal_z(a: Position, b: Position, c: Position) -> int {
    fmul(b.x - a.x, c.y - a.y) - fmul(b.y - a.y, c.x - a.x)
}

/// The surface direction of the triangle `a b c`, by the cross product of
/// its two edges leaving `a`.
pub fn triangle_normal(a: Position, b: Position, c: Position) -> (r: Normal)
    requires
        pos_in_range(a),
        pos_in_range(b),
        pos_in_range(c),
    ensures
        r.x == tri_normal_x(a, b, c),
        r.y == tri_normal_y(a, b, c),
        r.z == tri_normal_z(a, b, c),
{
    let e1 = Normal::new(b.x - a.x, b.y - a.y, b.z - a.z);
    let e2 = Normal::new(c.x - a.x, c.y - a.y, c.z - a.z);
    proof {
        lemma_prod_fits_wide(e1.y as int, e2.z as int);
        lemma_prod_fits_wide(e1.z as int, e2.y as int);
        lemma_prod_fits_wide(e1.z as int, e2.x as int);
        lemma_prod_fits_wide(e1.x as int, e2.z as int);
        lemma_prod_fits_wide(e1.x as int, e2.y as int);
        lemma_prod_fits_wide(e1.y as int, e2.x as int);
    }
    Normal::new(
        crate::scalar::fx_mul(e1.y, e2.z) - crate::scalar::fx_mul(e1.z, e2.y),
        crate::scalar::fx_mul(e1.z, e2.x) - crate::scalar::fx_mul(e1.x, e2.z),
        crate::scalar::fx_mul(e1.x, e2.y) - crate::scalar::fx_mul(e1.y, e2.x),
    )
}

/// Products of coordinate differences (up to twice the coordinate range)
/// fit a machine word with room for one subtraction.
proof fn lemma_prod_fits_wide(a: int, b: int)
    requires
        abs_i(a) <= 2 * COORD_LIMIT as int,
        abs_i(b) <= 2 * COORD_LIMIT as int,
    ensures
        abs_i(fmul(a, b)) <= 288230376151711744,
{
    assert((2 * COORD_LIMIT as int) * (2 * COORD_LIMIT as int) <= 288230376151711744int * (
    SCALE as int)) by (nonlinear_arith)
        requires
            COORD_LIMIT as int == 274877906944,
            SCALE as int == 1048576,
    ;
    crate::scalar::lemma_fmul_bound_by(
        a,
        b,
        2 * COORD_LIMIT as int,
        2 * COORD_LIMIT as int,
        288230376151711744,
    );
}

/// The bilinear blend of four corner vertices, every scalar interpolated
/// with the same weights.
pub open spec fn bilerp_spec(v1: Vertex, v2: Vertex, v3: Vertex, v4: Vertex, t1: int, t2: int) -> Vertex {
    Vertex {
        position: Position {
            x: bilin(
                v1.position.x as int,
                v2.position.x as int,
                v3.position.x as int,
                v4.position.x as int,
                t1,
                t2,
            ) as i64,
            y: bilin(
                v1.position.y as int,
                v2.position.y as int,
                v3.position.y as int,
                v4.position.y as int,
                t1,
                t2,
            ) as i64,
            z: bilin(
                v1.position.z as int,
                v2.position.z as int,
                v3.position.z as int,
                v4.position.z as int,
                t1,
                t2,
            ) as i64,
            w: bilin(
                v1.position.w as int,
                v2.position.w as int,
                v3.position.w as int,
                v4.position.w as int,
                t1,
                t2,
            ) as i64,
        },
        color: Color {
            r: bilin(
                v1.color.r as int,
                v2.color.r as int,
                v3.color.r as int,
                v4.color.r as int,
                t1,
                t2,
            ) as i64,
            g: bilin(
                v1.color.g as int,
                v2.color.g as int,
                v3.color.g as int,
                v4.color.g as int,
                t1,
                t2,
            ) as i64,
            b: bilin(
                v1.color.b as int,
                v2.color.b as int,
                v3.color.b as int,
                v4.color.b as int,
                t1,
                t2,
            ) as i64,
            a: bilin(
                v1.color.a as int,
                v2.color.a as int,
                v3.color.a as int,
                v4.color.a as int,
                t1,
                t2,
            ) as i64,
        },
        normal: Normal {
            x: bilin(
                v1.normal.x as int,
                v2.normal.x as int,
                v3.normal.x as int,
                v4.normal.x as int,
                t1,
                t2,
            ) as i64,
            y: bilin(
                v1.normal.y as int,
                v2.normal.y as int,
                v3.normal.y as int,
                v4.normal.y as int,
                t1,
                t2,
            ) as i64,
            z: bilin(
                v1.normal.z as int,
                v2.normal.z as int,
                v3.normal.z as int,
                v4.normal.z as int,
                t1,
                t2,
            ) as i64,
        },
    }
}

/// At the four weight corners the blend returns the matching corner vertex
/// exactly.
pub proof fn lemma_bilerp_corners(v1: Vertex, v2: Vertex, v3: Vertex, v4: Vertex)
    requires
        vert_in_range(v1),
        vert_in_range(v2),
        vert_in_range(v3),
        vert_in_range(v4),
    ensures
        bilerp_spec(v1, v2, v3, v4, 0, 0) == v1,
        bilerp_spec(v1, v2, v3, v4, 0, SCALE as int) == v2,
        bilerp_spec(v1, v2, v3, v4, SCALE as int, 0) == v3,
        bilerp_spec(v1, v2, v3, v4, SCALE as int, SCALE as int) == v4,
{
    lemma_bilerp_corner_fields(v1.position.x as int, v2.position.x as int, v3.position.x as int, v4.position.x as int);
    lemma_bilerp_corner_fields(v1.position.y as int, v2.position.y as int, v3.position.y as int, v4.position.y as int);
    lemma_bilerp_corner_fields(v1.position.z as int, v2.position.z as int, v3.position.z as int, v4.position.z as int);
    lemma_bilerp_corner_fields(v1.position.w as int, v2.position.w as int, v3.position.w as int, v4.position.w as int);
    lemma_bilerp_corner_fields(v1.color.r as int, v2.color.r as int, v3.color.r as int, v4.color.r as int);
    lemma_bilerp_corner_fields(v1.color.g as int, v2.color.g as int, v3.color.g as int, v4.color.g as int);
    lemma_bilerp_corner_fields(v1.color.b as int, v2.color.b as int, v3.color.b as int, v4.color.b as int);
    lemma_bilerp_corner_fields(v1.color.a as int, v2.color.a as int, v3.color.a as int, v4.color.a as int);
    lemma_bilerp_corner_fields(v1.normal.x as int, v2.normal.x as int, v3.normal.x as int, v4.normal.x as int);
    lemma_bilerp_corner_fields(v1.normal.y as int, v2.normal.y as int, v3.normal.y as int, v4.normal.y as int);
    lemma_bilerp_corner_fields(v1.normal.z as int, v2.normal.z as int, v3.normal.z as int, v4.normal.z as int);
}

proof fn lemma_bilerp_corner_fields(a: int, b: int, c: int, d: int)
    ensures
        bilin(a, b, c, d, 0, 0) == a,
        bilin(a, b, c, d, 0, SCALE as int) == b,
        bilin(a, b, c, d, SCALE as int, 0) == c,
        bilin(a, b, c, d, SCALE as int, SCALE as int) == d,
{
    crate::scalar::lemma_bilin_corners(a, b, c, d);
}

/// Bilinear blend of four corner vertices at the given weights.
pub fn bilerp(v1: Vertex, v2: Vertex, v3: Vertex, v4: Vertex, t1: i64, t2: i64) -> (r: Vertex)
    requires
        0 <= t1 <= SCALE,
        0 <= t2 <= SCALE,
        vert_in_range(v1),
        vert_in_range(v2),
        vert_in_range(v3),
        vert_in_range(v4),
    ensures
        r == bilerp_spec(v1, v2, v3, v4, t1 as int, t2 as int),
        vert_in_range(r),
{
    Vertex {
        position: Position {
            x: fx_bilin(v1.position.x, v2.position.x, v3.position.x, v4.position.x, t1, t2),
            y: fx_bilin(v1.position.y, v2.position.y, v3.position.y, v4.position.y, t1, t2),
            z: fx_bilin(v1.position.z, v2.position.z, v3.position.z, v4.position.z, t1, t2),
            w: fx_bilin(v1.position.w, v2.position.w, v3.position.w, v4.position.w, t1, t2),
        },
        color: Color {
            r: fx_bilin(v1.color.r, v2.color.r, v3.color.r, v4.color.r, t1, t2),
            g: fx_bilin(v1.color.g, v2.color.g, v3.color.g, v4.color.g, t1, t2),
            b: fx_bilin(v1.color.b, v2.color.b, v3.color.b, v4.color.b, t1, t2),
            a: fx_bilin(v1.color.a, v2.color.a, v3.color.a, v4.color.a, t1, t2),
        },
        normal: Normal {
            x: fx_bilin(v1.normal.x, v2.normal.x, v3.normal.x, v4.normal.x, t1, t2),
            y: fx_bilin(v1.normal.y, v2.normal.y, v3.normal.y, v4.normal.y, t1, t2),
            z: fx_bilin(v1.normal.z, v2.normal.z, v3.normal.z, v4.normal.z, t1, t2),
        },
    }
}

impl Vertex {
    pub fn new(position: Position, color: Color, normal: Normal) -> (r: Self)
        ensures
            r.position == position,
            r.color == color,
            r.normal == normal,
    {
        Self { position, color, normal }
    }

    /// As `new`; kept as a separate constructor for fixed, named vertices.
    pub fn new_const(position: Position, color: Color, normal: Normal) -> (r: Self)
        ensures
            r.position == position,
            r.color == color,
            r.normal == normal,
    {
        Self { position, color, normal }
    }

    /// The spatial distance between this vertex and the target vertex.
    pub fn length(self, target: Vertex) -> (r: i64)
        requires
            pos_in_range(self.position),
            pos_in_range(target.position),
        ensures
            r == distance_of(self.position, target.position),
            r >= 0,
    {
        self.position.distance(target.position)
    }

    /// Cross the positions and normals of two vertices; the colors are
    /// multiplied channel-wise and halved.
    pub fn cross(self, target: Vertex) -> (r: Vertex)
        requires
            vert_in_range(self),
            vert_in_range(target),
        ensures
            r.position.x == fmul(self.position.y as int, target.position.z as int) - fmul(
                self.position.z as int,
                target.position.y as int,
            ),
            r.position.y == fmul(self.position.z as int, target.position.x as int) - fmul(
                self.position.x as int,
                target.position.z as int,
            ),
            r.position.z == fmul(self.position.x as int, target.position.y as int) - fmul(
                self.position.y as int,
                target.position.x as int,
            ),
            r.position.w == 0,
            r.color.r == fdiv(fmul(self.color.r as int, target.color.r as int), 2 * SCALE as int),
            r.color.g == fdiv(fmul(self.color.g as int, target.color.g as int), 2 * SCALE as int),
            r.color.b == fdiv(fmul(self.color.b as int, target.color.b as int), 2 * SCALE as int),
            r.color.a == fdiv(fmul(self.color.a as int, target.color.a as int), 2 * SCALE as int),
            r.normal.x == fmul(self.normal.y as int, target.normal.z as int) - fmul(
                self.normal.z as int,
                target.normal.y as int,
            ),
            r.normal.y == fmul(self.normal.z as int, target.normal.x as int) - fmul(
                self.normal.x as int,
                target.normal.z as int,
            ),
            r.normal.z == fmul(self.normal.x as int, target.normal.y as int) - fmul(
                self.normal.y as int,
                target.normal.x as int,
            ),
    {
        proof {
            lemma_coord_prod(self.color.r as int, target.color.r as int);
            lemma_coord_prod(self.color.g as int, target.color.g as int);
            lemma_coord_prod(self.color.b as int, target.color.b as int);
            lemma_coord_prod(self.color.a as int, target.color.a as int);
        }
        let color = self.color.mul(target.color);
        proof {
            lemma_halving_fits(color.r as int);
            lemma_halving_fits(color.g as int);
            lemma_halving_fits(color.b as int);
            lemma_halving_fits(color.a as int);
        }
        Vertex {
            position: self.position.cross(target.position),
            color: color.div_scale(2 * SCALE),
            normal: self.normal.cross(target.normal),
        }
    }

    /// Subtract another vertex: the spatial position components, the color
    /// channels and the normal are differenced; the `w` component is kept.
    pub fn sub(self, other: Vertex) -> (r: Vertex)
        requires
            fits_i64(self.position.x - other.position.x),
            fits_i64(self.position.y - other.position.y),
            fits_i64(self.position.z - other.position.z),
            fits_i64(self.color.r - other.color.r),
            fits_i64(self.color.g - other.color.g),
            fits_i64(self.color.b - other.color.b),
            fits_i64(self.color.a - other.color.a),
            fits_i64(self.normal.x - other.normal.x),
            fits_i64(self.normal.y - other.normal.y),
            fits_i64(self.normal.z - other.normal.z),
        ensures
            r.position.x == self.position.x - other.position.x,
            r.position.y == self.position.y - other.position.y,
            r.position.z == self.position.z - other.position.z,
            r.position.w == self.position.w,
            r.color.r == self.color.r - other.color.r,
            r.color.g == self.color.g - other.color.g,
            r.color.b == self.color.b - other.color.b,
            r.color.a == self.color.a - other.color.a,
            r.normal.x == self.normal.x - other.normal.x,
            r.normal.y == self.normal.y - other.normal.y,
            r.normal.z == self.normal.z - other.normal.z,
    {
        Vertex {
            position: Position {
                x: self.position.x - other.position.x,
                y: self.position.y - other.position.y,
                z: self.position.z - other.position.z,
                w: self.position.w,
            },
            color: self.color.sub(other.color),
            normal: self.normal.sub(other.normal),
        }
    }

    /// Divide the spatial position components by a non-zero fixed-point
    /// factor; the `w` component, the color and the normal are kept.
    pub fn div(self, other: i64) -> (r: Vertex)
        requires
            other != 0,
            fits_i64(fdiv(self.position.x as int, other as int)),
            fits_i64(fdiv(self.position.y as int, other as int)),
            fits_i64(fdiv(self.position.z as int, other as int)),
        ensures
            r.position.x == fdiv(self.position.x as int, other as int),
            r.position.y == fdiv(self.position.y as int, other as int),
            r.position.z == fdiv(self.position.z as int, other as int),
            r.position.w == self.position.w,
            r.color == self.color,
            r.normal == self.normal,
    {
        Vertex {
            position: Position {
                x: fx_div(self.position.x, other),
                y: fx_div(self.position.y, other),
                z: fx_div(self.position.z, other),
                w: self.position.w,
            },
            color: self.color,
            normal: self.normal,
        }
    }

    /// The triangle normal of the corners `self`, `a`, `b`.
    pub fn normal(self, a: Vertex, b: Vertex) -> (r: Normal)
        requires
            pos_in_range(self.position),
            pos_in_range(a.position),
            pos_in_range(b.position),
        ensures
            r.x == tri_normal_x(self.position, a.position, b.position),
            r.y == tri_normal_y(self.position, a.position, b.position),
            r.z == tri_normal_z(self.position, a.position, b.position),
    {
        triangle_normal(self.position, a.position, b.position)
    }
}

/// Halving a machine word cannot overflow.
proof fn lemma_halving_fits(a: int)
    requires
        crate::scalar::fits_i64(a),
    ensures
        crate::scalar::fits_i64(fdiv(a, 2 * SCALE as int)),
{
    crate::scalar::lemma_div_trunc_mag(a * (SCALE as int), 2 * SCALE as int);
    assert(abs_i(a * (SCALE as int)) == abs_i(a) * (SCALE as int)) by (nonlinear_arith)
        requires
            SCALE as int > 0,
    ;
    assert(abs_i(fdiv(a, 2 * SCALE as int)) * (2 * SCALE as int) <= abs_i(a) * (SCALE as int));
    assert(abs_i(fdiv(a, 2 * SCALE as int)) <= abs_i(a)) by (nonlinear_arith)
        requires
            abs_i(fdiv(a, 2 * SCALE as int)) * (2 * SCALE as int) <= abs_i(a) * (SCALE as int),
            SCALE as int > 0,
            abs_i(fdiv(a, 2 * SCALE as int)) >= 0,
            abs_i(a) >= 0,
    ;
}

} // verus!
