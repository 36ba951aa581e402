//! A square: four colored corner vertices forming two triangles, refinable
//! into a bilinear grid of any power-of-two density.

use vstd::prelude::*;

use vstd::arithmetic::power2::{lemma2_to64, pow2};

use crate::color::{Color, HALF};
use crate::dedup::{dedup_indices, dedup_verts, indices_valid};
use crate::grid::{grid_indices, grid_mesh, grid_verts};
use crate::mesh::{mesh_in_range, mesh_valid, Mesh};
use crate::normal::Normal;
use crate::position::Position;
use crate::scalar::{abs_i, fmul, fx_mul, in_coord_range, lemma_fmul_bound_by, COORD_LIMIT, SCALE};
use crate::vertex::{vert_in_range, Vertex};
use crate::GeometryError;

verus! {

pub struct Square {
    /// Whether the square is drawn filled rather than as outlines.
    pub fill: bool,
    pub mesh: Mesh,
}

/// The origin is placed loosely enough that the square's corners stay in
/// the working coordinate range.
pub open spec fn square_fits(origin: Position, size: int) -> bool {
    &&& abs_i(origin.x as int) <= (COORD_LIMIT as int) / 2
    &&& abs_i(origin.y as int) <= (COORD_LIMIT as int) / 2
    &&& in_coord_range(origin.z as int)
    &&& size <= COORD_LIMIT as int
}

/// The four corner vertices: black, cyan, yellow and magenta, half an edge
/// from the origin, all at the origin's depth.
pub open spec fn square_verts(origin: Position, size: int) -> Seq<Vertex> {
    let off = fmul(size, HALF as int);
    seq![
        Vertex {
            position: Position {
                x: (origin.x - off) as i64,
                y: (origin.y + off) as i64,
                z: origin.z,
                w: SCALE,
            },
            color: Color { r: 0, g: 0, b: 0, a: SCALE },
            normal: Normal { x: 0, y: 0, z: SCALE },
        },
        Vertex {
            position: Position {
                x: (origin.x - off) as i64,
                y: (origin.y - off) as i64,
                z: origin.z,
                w: SCALE,
            },
            color: Color { r: 0, g: SCALE, b: SCALE, a: SCALE },
            normal: Normal { x: 0, y: 0, z: SCALE },
        },
        Vertex {
            position: Position {
                x: (origin.x + off) as i64,
                y: (origin.y + off) as i64,
                z: origin.z,
                w: SCALE,
            },
            color: Color { r: SCALE, g: SCALE, b: 0, a: SCALE },
            normal: Normal { x: 0, y: 0, z: SCALE },
        },
        Vertex {
            position: Position {
                x: (origin.x + off) as i64,
                y: (origin.y - off) as i64,
                z: origin.z,
                w: SCALE,
            },
            color: Color { r: SCALE, g: 0, b: SCALE, a: SCALE },
            normal: Normal { x: 0, y: 0, z: SCALE },
        },
    ]
}

/// The two triangles of the flat square.
pub open spec fn square_indices() -> Seq<u16> {
    seq![0u16, 1u16, 2u16, 1u16, 3u16, 2u16]
}

impl Square {
    /// A filled square primitive holding its generated mesh.
    pub fn new(origin: Position, size: i64) -> (r: Result<Self, GeometryError>)
        requires
            square_fits(origin, size as int),
        ensures
            size <= 0 <==> r == Err::<Square, GeometryError>(GeometryError::InvalidParameter),
            match r {
                Ok(s) => {
                    &&& s.mesh.vertices@ == square_verts(origin, size as int)
                    &&& s.mesh.indices@ == square_indices()
                    &&& s.fill
                    &&& mesh_valid(s.mesh)
                    &&& mesh_in_range(s.mesh)
                },
                Err(e) => e == GeometryError::InvalidParameter,
            },
    {
        match Self::square(origin, size) {
            Ok(mesh) => Ok(Self { fill: true, mesh }),
            Err(e) => Err(e),
        }
    }

    /// The square's mesh: four corners and two triangles.  A size that is
    /// not positive is rejected.
    pub fn square(origin: Position, size: i64) -> (r: Result<Mesh, GeometryError>)
        requires
            square_fits(origin, size as int),
        ensures
            size <= 0 <==> r == Err::<Mesh, GeometryError>(GeometryError::InvalidParameter),
            match r {
                Ok(m) => {
                    &&& m.vertices@ == square_verts(origin, size as int)
                    &&& m.indices@ == square_indices()
                    &&& m.indices@.len() % 3 == 0
                    &&& mesh_valid(m)
                    &&& mesh_in_range(m)
                },
                Err(e) => e == GeometryError::InvalidParameter,
            },
    {
        if size <= 0 {
            return Err(GeometryError::InvalidParameter);
        }
        proof {
            lemma_fmul_bound_by(
                size as int,
                HALF as int,
                COORD_LIMIT as int,
                HALF as int,
                (COORD_LIMIT as int) / 2,
            );
        }
        let off = fx_mul(size, HALF);
        let flat = Normal::new(0, 0, SCALE);
        let mut vertices: Vec<Vertex> = Vec::new();
        vertices.push(
            Vertex::new(
                Position::new(origin.x - off, origin.y + off, origin.z, SCALE),
                Color::black(),
                flat,
            ),
        );
        vertices.push(
            Vertex::new(
                Position::new(origin.x - off, origin.y - off, origin.z, SCALE),
                Color::cyan(),
                flat,
            ),
        );
        vertices.push(
            Vertex::new(
                Position::new(origin.x + off, origin.y + off, origin.z, SCALE),
                Color::yellow(),
                flat,
            ),
        );
        vertices.push(
            Vertex::new(
                Position::new(origin.x + off, origin.y - off, origin.z, SCALE),
                Color::magenta(),
                flat,
            ),
        );
        let mut indices: Vec<u16> = Vec::new();
        indices.push(0);
        indices.push(1);
        indices.push(2);
        indices.push(1);
        indices.push(3);
        indices.push(2);
        proof {
            assert(vertices@ =~= square_verts(origin, size as int));
            assert(indices@ =~= square_indices());
        }
        Ok(Mesh::new(vertices, indices))
    }

    /// Collapse exactly-equal referenced vertices of the mesh.
    pub fn dedup(&mut self) -> (r: Result<(), GeometryError>)
        requires
            old(self).mesh.vertices@.len() <= 65536,
        ensures
            indices_valid(old(self).mesh.vertices@, old(self).mesh.indices@) <==> r == Ok::<
                (),
                GeometryError,
            >(()),
            match r {
                Ok(()) => final (self).mesh.vertices@ == dedup_verts(
                    old(self).mesh.vertices@,
                    old(self).mesh.indices@,
                    old(self).mesh.indices@.len() as int,
                ) && final (self).mesh.indices@ == dedup_indices(
                    old(self).mesh.vertices@,
                    old(self).mesh.indices@,
                    old(self).mesh.indices@.len() as int,
                ) && final (self).fill == old(self).fill,
                Err(e) => e == GeometryError::IndexOutOfRange && *final (self) == *old(self),
            },
    {
        self.mesh.dedup()
    }

    /// Replace the mesh by a bilinear grid over its first four vertices:
    /// `2^n` cells to a side, so `(2^n + 1)` squared vertices before the
    /// closing deduplication pass, and two triangles per cell.
    pub fn subdivide(&mut self, n_subdivisions: u32)
        requires
            n_subdivisions <= 7,
            old(self).mesh.vertices@.len() >= 4,
            vert_in_range(old(self).mesh.vertices@[0]),
            vert_in_range(old(self).mesh.vertices@[1]),
            vert_in_range(old(self).mesh.vertices@[2]),
            vert_in_range(old(self).mesh.vertices@[3]),
        ensures
            ({
                let n = pow2(n_subdivisions as nat) as int;
                let gv = grid_verts(
                    old(self).mesh.vertices@[0],
                    old(self).mesh.vertices@[1],
                    old(self).mesh.vertices@[2],
                    old(self).mesh.vertices@[3],
                    n,
                );
                let gi = grid_indices(n);
                &&& gv.len() == (n + 1) * (n + 1)
                &&& gi.len() == 6 * n * n
                &&& final (self).mesh.vertices@ == dedup_verts(gv, gi, gi.len() as int)
                &&& final (self).mesh.indices@ == dedup_indices(gv, gi, gi.len() as int)
                &&& final (self).mesh.indices@.len() == 6 * n * n
                &&& final (self).mesh.indices@.len() % 3 == 0
                &&& mesh_valid(final (self).mesh)
                &&& final (self).fill == old(self).fill
            }),
    {
        let v1 = self.mesh.vertices[0];
        let v2 = self.mesh.vertices[1];
        let v3 = self.mesh.vertices[2];
        let v4 = self.mesh.vertices[3];
        let n = pow2_u16(n_subdivisions);
        let grid = grid_mesh(v1, v2, v3, v4, n);
        self.mesh = grid;
        proof {
            assert((n as int + 1) * (n as int + 1) <= 65536) by (nonlinear_arith)
                requires
                    1 <= n as int <= 128,
            ;
        }
        let dd = self.mesh.dedup();
        proof {
            if dd is Err {
                assert(false);
            }
            assert(6 * (n as int) * (n as int) == (2 * (n as int) * (n as int)) * 3 + 0)
                by (nonlinear_arith);
            vstd::arithmetic::div_mod::lemma_fundamental_div_mod_converse_mod(
                6 * (n as int) * (n as int),
                3,
                2 * (n as int) * (n as int),
                0,
            );
        }
    }
}

/// Two to the given power, for exponents small enough to keep a sixteen-bit
/// grid side.
pub fn pow2_u16(e: u32) -> (r: u16)
    requires
        e <= 7,
    ensures
        r as int == pow2(e as nat),
        1 <= r <= 128,
{
    proof {
        lemma2_to64();
    }
    let mut r: u16 = 1;
    let mut i: u32 = 0;
    while i < e
        invariant
            0 <= i <= e <= 7,
            r as int == pow2(i as nat),
            1 <= r as int <= 128,
        decreases e - i,
    {
        proof {
            lemma2_to64();
            vstd::arithmetic::power2::lemma_pow2_unfold((i + 1) as nat);
            assert(pow2((i + 1) as nat) == 2 * pow2(i as nat));
            vstd::arithmetic::power2::lemma_pow2_strictly_increases(i as nat + 1, 8);
            assert(pow2(8) == 256);
        }
        r = r * 2;
        i = i + 1;
    }
    r
}

} // verus!
