//! A single triangle: three colored vertices around an origin, with an
//! altitude derived from the edge length.

use vstd::prelude::*;

use crate::color::{Color, HALF, THREE_QUARTERS};
use crate::mesh::{mesh_in_range, mesh_valid, Mesh};
use crate::normal::Normal;
use crate::position::{pos_in_range, Position};
use crate::scalar::{
    abs_i, fdiv, fmul, fx_div, fx_mul, fx_sqrt, in_coord_range, lemma_fmul_bound_by, sqrt_floor,
    COORD_LIMIT, SCALE,
};
use crate::vertex::{vert_in_range, Vertex};
use crate::GeometryError;

verus! {

#[derive(Debug, Clone)]
pub struct Triangle {
    pub fill: bool,
    pub origin: Position,
    pub size: i64,
    pub mesh: Mesh,
}

/// The origin is placed loosely enough that the triangle's vertices stay in
/// the working coordinate range.
pub open spec fn triangle_fits(origin: Position, size: int) -> bool {
    &&& abs_i(origin.x as int) <= (COORD_LIMIT as int) / 2
    &&& abs_i(origin.y as int) <= (COORD_LIMIT as int) / 2
    &&& in_coord_range(origin.z as int)
    &&& size <= COORD_LIMIT as int
}

/// The altitude used by the triangle generator: the square root of half the
/// edge length.
pub open spec fn triangle_altitude(size: int) -> int {
    sqrt_floor(fmul(size, HALF as int) * (SCALE as int))
}

/// The three vertices of the triangle: apex above the origin, the other two
/// corners half an edge to either side and half an altitude down, colored
/// red, green and blue.
pub open spec fn triangle_verts(origin: Position, size: int) -> Seq<Vertex> {
    let alt = triangle_altitude(size);
    let half_edge = fmul(size, HALF as int);
    let up = fmul(alt, THREE_QUARTERS as int);
    let down = fdiv(alt, 2 * SCALE as int);
    seq![
        Vertex {
            position: Position {
                x: origin.x,
                y: (origin.y + up) as i64,
                z: origin.z,
                w: SCALE,
            },
            color: Color { r: SCALE, g: 0, b: 0, a: SCALE },
            normal: Normal { x: 0, y: 0, z: SCALE },
        },
        Vertex {
            position: Position {
                x: (origin.x - half_edge) as i64,
                y: (origin.y - down) as i64,
                z: origin.z,
                w: SCALE,
            },
            color: Color { r: 0, g: SCALE, b: 0, a: SCALE },
            normal: Normal { x: 0, y: 0, z: SCALE },
        },
        Vertex {
            position: Position {
                x: (origin.x + half_edge) as i64,
                y: (origin.y - down) as i64,
                z: origin.z,
                w: SCALE,
            },
            color: Color { r: 0, g: 0, b: SCALE, a: SCALE },
            normal: Normal { x: 0, y: 0, z: SCALE },
        },
    ]
}

impl Triangle {
    /// A triangle wrapped in the shape union.
    pub fn new(position: Position, size: i64) -> (r: Result<
        crate::primitives::geometry::Geometry,
        GeometryError,
    >)
        requires
            triangle_fits(position, size as int),
        ensures
            size <= 0 <==> r == Err::<crate::primitives::geometry::Geometry, GeometryError>(
                GeometryError::InvalidParameter,
            ),
            match r {
                Ok(g) => g matches crate::primitives::geometry::Geometry::Triangle(t)
                    && t.mesh.vertices@ == triangle_verts(position, size as int)
                    && t.mesh.indices@ == seq![0u16, 1u16, 2u16] && t.origin == position && t.size
                    == size,
                Err(e) => e == GeometryError::InvalidParameter,
            },
    {
        match Self::triangle(position, size) {
            Ok(t) => Ok(crate::primitives::geometry::Geometry::Triangle(t)),
            Err(e) => Err(e),
        }
    }

    /// A triangle primitive holding its generated mesh.
    pub fn triangle(origin: Position, size: i64) -> (r: Result<Self, GeometryError>)
        requires
            triangle_fits(origin, size as int),
        ensures
            size <= 0 <==> r == Err::<Triangle, GeometryError>(GeometryError::InvalidParameter),
            match r {
                Ok(t) => {
                    &&& t.mesh.vertices@ == triangle_verts(origin, size as int)
                    &&& t.mesh.indices@ == seq![0u16, 1u16, 2u16]
                    &&& t.origin == origin
                    &&& t.size == size
                    &&& t.fill
                    &&& mesh_valid(t.mesh)
                    &&& mesh_in_range(t.mesh)
                },
                Err(e) => e == GeometryError::InvalidParameter,
            },
    {
        match Self::mesh(origin, size) {
            Ok(mesh) => Ok(Self { fill: true, origin, size, mesh }),
            Err(e) => Err(e),
        }
    }

    /// The triangle's mesh: three vertices and one triangle.  A size that is
    /// not positive is rejected.
    pub fn mesh(origin: Position, size: i64) -> (r: Result<Mesh, GeometryError>)
        requires
            triangle_fits(origin, size as int),
        ensures
            size <= 0 <==> r == Err::<Mesh, GeometryError>(GeometryError::InvalidParameter),
            match r {
                Ok(m) => {
                    &&& m.vertices@ == triangle_verts(origin, size as int)
                    &&& m.indices@ == seq![0u16, 1u16, 2u16]
                    &&& m.indices@.len() % 3 == 0
                    &&& mesh_valid(m)
                    &&& mesh_in_range(m)
                },
                Err(e) => e == GeometryError::InvalidParameter,
            },
    {
        if size <= 0 {
            return Err(GeometryError::InvalidParameter);
        }
        proof {
            lemma_fmul_bound_by(
                size as int,
                HALF as int,
                COORD_LIMIT as int,
                HALF as int,
                (COORD_LIMIT as int) / 2,
            );
            crate::scalar::lemma_fmul_nonneg(size as int, HALF as int);
        }
        let half_edge = fx_mul(size, HALF);
        let altitude = fx_sqrt(half_edge);
        proof {
            assert(altitude as int <= 536870912) by (nonlinear_arith)
                requires
                    (altitude as int) * (altitude as int) <= (half_edge as int) * (SCALE as int),
                    0 <= half_edge as int <= (COORD_LIMIT as int) / 2,
                    altitude >= 0,
                    SCALE as int == 1048576,
                    COORD_LIMIT as int == 274877906944,
            ;
            lemma_fmul_bound_by(
                altitude as int,
                THREE_QUARTERS as int,
                536870912,
                THREE_QUARTERS as int,
                536870912,
            );
            crate::position::lemma_fdiv_fits(altitude as int, 2 * SCALE as int);
            assert(abs_i(fdiv(altitude as int, 2 * SCALE as int)) <= COORD_LIMIT as int / 2) by {
                crate::scalar::lemma_div_trunc_mag(
                    (altitude as int) * (SCALE as int),
                    2 * SCALE as int,
                );
                assert(abs_i((altitude as int) * (SCALE as int)) == abs_i(altitude as int) * (
                SCALE as int)) by (nonlinear_arith)
                    requires
                        SCALE as int > 0,
                ;
                assert(abs_i(fdiv(altitude as int, 2 * SCALE as int)) <= COORD_LIMIT as int / 2)
                    by (nonlinear_arith)
                    requires
                        abs_i(fdiv(altitude as int, 2 * SCALE as int)) * (2 * SCALE as int) <= abs_i(
                            altitude as int,
                        ) * (SCALE as int),
                        abs_i(altitude as int) <= 536870912,
                        abs_i(fdiv(altitude as int, 2 * SCALE as int)) >= 0,
                        SCALE as int == 1048576,
                        COORD_LIMIT as int == 274877906944,
                ;
            }
        }
        let up = fx_mul(altitude, THREE_QUARTERS);
        let down = fx_div(altitude, 2 * SCALE);
        let red = Color::new(SCALE, 0, 0, SCALE);
        let green = Color::new(0, SCALE, 0, SCALE);
        let blue = Color::new(0, 0, SCALE, SCALE);
        let flat = Normal::new(0, 0, SCALE);
        let mut vertices: Vec<Vertex> = Vec::new();
        vertices.push(
            Vertex::new(Position::new(origin.x, origin.y + up, origin.z, SCALE), red, flat),
        );
        vertices.push(
            Vertex::new(
                Position::new(origin.x - half_edge, origin.y - down, origin.z, SCALE),
                green,
                flat,
            ),
        );
        vertices.push(
            Vertex::new(
                Position::new(origin.x + half_edge, origin.y - down, origin.z, SCALE),
                blue,
                flat,
            ),
        );
        let mut indices: Vec<u16> = Vec::new();
        indices.push(0);
        indices.push(1);
        indices.push(2);
        proof {
            assert(vertices@ =~= triangle_verts(origin, size as int));
            assert(indices@ =~= seq![0u16, 1u16, 2u16]);
        }
        Ok(Mesh::new(vertices, indices))
    }

    /// Refinement is a no-op by design: the triangle has no finer
    /// tessellation.
    pub fn subdivide(&mut self, _iterations: u32)
        ensures
            *final (self) == *old(self),
    {
    }

    /// Collapse exactly-equal referenced vertices of the mesh.
    pub fn dedup(&mut self) -> (r: Result<(), GeometryError>)
        requires
            old(self).mesh.vertices@.len() <= 65536,
        ensures
            crate::dedup::indices_valid(old(self).mesh.vertices@, old(self).mesh.indices@) <==> r
                == Ok::<(), GeometryError>(()),
            match r {
                Ok(()) => final (self).mesh.vertices@ == crate::dedup::dedup_verts(
                    old(self).mesh.vertices@,
                    old(self).mesh.indices@,
                    old(self).mesh.indices@.len() as int,
                ) && final (self).mesh.indices@ == crate::dedup::dedup_indices(
                    old(self).mesh.vertices@,
                    old(self).mesh.indices@,
                    old(self).mesh.indices@.len() as int,
                ) && final (self).origin == old(self).origin && final (self).size == old(
                    self,
                ).size && final (self).fill == old(self).fill,
                Err(e) => e == GeometryError::IndexOutOfRange && *final (self) == *old(self),
            },
    {
        self.mesh.dedup()
    }
}

} // verus!
