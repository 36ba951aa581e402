//! A cube: eight colored corner vertices and twelve triangles, refinable
//! into six bilinear face grids.

use vstd::prelude::*;

use vstd::arithmetic::div_mod::{
    lemma_fundamental_div_mod, lemma_fundamental_div_mod_converse_mod,
    lemma_mod_division_less_than_divisor,
};
use vstd::arithmetic::power2::pow2;

use crate::color::{Color, HALF};
use crate::grid::{grid_index_at, grid_indices, grid_mesh, grid_verts, lemma_grid_indices_valid};
use crate::mesh::{mesh_in_range, mesh_rotatable, mesh_valid, Mesh};
use crate::normal::Normal;
use crate::position::{
    length_of, pos_in_range, rotatable, rotated_x, rotated_y, rotated_z, Position,
};
use crate::primitives::quad::pow2_u16;
use crate::scalar::{abs_i, fits_i64, fmul, fx_mul, lemma_fmul_bound_by, COORD_LIMIT, SCALE};
use crate::vertex::{vert_in_range, Vertex};
use crate::GeometryError;

verus! {

#[derive(Debug)]
pub struct Cube {
    pub fill: bool,
    pub origin: Position,
    pub size: i64,
    pub mesh: Mesh,
}

/// The origin is placed loosely enough that the cube's corners stay in the
/// working coordinate range.
pub open spec fn cube_fits(origin: Position, size: int) -> bool {
    &&& abs_i(origin.x as int) <= (COORD_LIMIT as int) / 2
    &&& abs_i(origin.y as int) <= (COORD_LIMIT as int) / 2
    &&& abs_i(origin.z as int) <= (COORD_LIMIT as int) / 2
    &&& size <= COORD_LIMIT as int
}

/// The eight corner vertices in their fixed order and coloring, half an
/// edge from the origin along each axis.
pub open spec fn cube_verts(origin: Position, size: int) -> Seq<Vertex> {
    let off = fmul(size, HALF as int);
    let xp = (origin.x + off) as i64;
    let xm = (origin.x - off) as i64;
    let yp = (origin.y + off) as i64;
    let ym = (origin.y - off) as i64;
    let zp = (origin.z + off) as i64;
    let zm = (origin.z - off) as i64;
    let flat = Normal { x: 0, y: 0, z: SCALE };
    seq![
        Vertex {
            position: Position { x: xm, y: yp, z: zp, w: SCALE },
            color: Color { r: 0, g: 0, b: 0, a: SCALE },
            normal: flat,
        },
        Vertex {
            position: Position { x: xm, y: ym, z: zp, w: SCALE },
            color: Color { r: 0, g: SCALE, b: SCALE, a: SCALE },
            normal: flat,
        },
        Vertex {
            position: Position { x: xp, y: yp, z: zp, w: SCALE },
            color: Color { r: SCALE, g: SCALE, b: 0, a: SCALE },
            normal: flat,
        },
        Vertex {
            position: Position { x: xp, y: ym, z: zp, w: SCALE },
            color: Color { r: SCALE, g: 0, b: SCALE, a: SCALE },
            normal: flat,
        },
        Vertex {
            position: Position { x: xp, y: yp, z: zm, w: SCALE },
            color: Color { r: 0, g: SCALE, b: 0, a: SCALE },
            normal: flat,
        },
        Vertex {
            position: Position { x: xp, y: ym, z: zm, w: SCALE },
            color: Color { r: 0, g: 0, b: SCALE, a: SCALE },
            normal: flat,
        },
        Vertex {
            position: Position { x: xm, y: yp, z: zm, w: SCALE },
            color: Color { r: SCALE, g: 0, b: 0, a: SCALE },
            normal: flat,
        },
        Vertex {
            position: Position { x: xm, y: ym, z: zm, w: SCALE },
            color: Color { r: SCALE, g: SCALE, b: SCALE, a: SCALE },
            normal: flat,
        },
    ]
}

/// The twelve triangles of the cube in their fixed winding.
pub open spec fn cube_indices() -> Seq<u16> {
    seq![
        0u16, 1u16, 2u16, 1u16, 3u16, 2u16, 4u16, 5u16, 6u16, 5u16, 7u16, 6u16, 6u16, 7u16, 0u16,
        7u16, 1u16, 0u16, 2u16, 3u16, 4u16, 3u16, 5u16, 4u16, 1u16, 7u16, 3u16, 7u16, 5u16, 3u16,
        6u16, 0u16, 4u16, 0u16, 2u16, 4u16,
    ]
}

/// The vertices of the refined cube: the six face grids, one bilinear patch
/// per face, concatenated front, back, left, right, top, bottom.
pub open spec fn cube_subdiv_verts(vs: Seq<Vertex>, n: int) -> Seq<Vertex> {
    grid_verts(vs[0], vs[1], vs[2], vs[3], n) + grid_verts(vs[4], vs[5], vs[6], vs[7], n)
        + grid_verts(vs[1], vs[4], vs[7], vs[2], n) + grid_verts(vs[5], vs[0], vs[3], vs[6], n)
        + grid_verts(vs[1], vs[4], vs[5], vs[0], n) + grid_verts(vs[2], vs[7], vs[6], vs[3], n)
}

/// The indices of the refined cube: each face repeats the grid winding,
/// shifted past the vertices of the faces before it.
pub open spec fn cube_subdiv_indices(n: int) -> Seq<u16> {
    Seq::new(
        ((36 * n * n) as nat),
        |q: int|
            (grid_index_at(n, q % (6 * n * n)) + (q / (6 * n * n)) * ((n + 1) * (n + 1))) as u16,
    )
}

impl Cube {
    /// A filled cube primitive holding its generated mesh.
    pub fn new(origin: Position, size: i64) -> (r: Result<Self, GeometryError>)
        requires
            cube_fits(origin, size as int),
        ensures
            size <= 0 <==> r == Err::<Cube, GeometryError>(GeometryError::InvalidParameter),
            match r {
                Ok(c) => {
                    &&& c.mesh.vertices@ == cube_verts(origin, size as int)
                    &&& c.mesh.indices@ == cube_indices()
                    &&& c.origin == origin
                    &&& c.size == size
                    &&& c.fill
                    &&& mesh_valid(c.mesh)
                    &&& mesh_in_range(c.mesh)
                },
                Err(e) => e == GeometryError::InvalidParameter,
            },
    {
        match Self::cube(origin, size) {
            Ok(mesh) => Ok(Self { fill: true, origin, size, mesh }),
            Err(e) => Err(e),
        }
    }

    /// The cube's mesh: eight corners and twelve triangles.  A size that is
    /// not positive is rejected.
    pub fn cube(origin: Position, size: i64) -> (r: Result<Mesh, GeometryError>)
        requires
            cube_fits(origin, size as int),
        ensures
            size <= 0 <==> r == Err::<Mesh, GeometryError>(GeometryError::InvalidParameter),
            match r {
                Ok(m) => {
                    &&& m.vertices@ == cube_verts(origin, size as int)
                    &&& m.indices@ == cube_indices()
                    &&& m.indices@.len() == 36
                    &&& m.indices@.len() % 3 == 0
                    &&& mesh_valid(m)
                    &&& mesh_in_range(m)
                },
                Err(e) => e == GeometryError::InvalidParameter,
            },
    {
        if size <= 0 {
            return Err(GeometryError::InvalidParameter);
        }
        proof {
            lemma_fmul_bound_by(
                size as int,
                HALF as int,
                COORD_LIMIT as int,
                HALF as int,
                (COORD_LIMIT as int) / 2,
            );
        }
        let off = fx_mul(size, HALF);
        let xp = origin.x + off;
        let xm = origin.x - off;
        let yp = origin.y + off;
        let ym = origin.y - off;
        let zp = origin.z + off;
        let zm = origin.z - off;
        let flat = Normal::new(0, 0, SCALE);
        let mut vertices: Vec<Vertex> = Vec::new();
        vertices.push(Vertex::new(Position::new(xm, yp, zp, SCALE), Color::black(), flat));
        vertices.push(Vertex::new(Position::new(xm, ym, zp, SCALE), Color::cyan(), flat));
        vertices.push(Vertex::new(Position::new(xp, yp, zp, SCALE), Color::yellow(), flat));
        vertices.push(Vertex::new(Position::new(xp, ym, zp, SCALE), Color::magenta(), flat));
        vertices.push(Vertex::new(Position::new(xp, yp, zm, SCALE), Color::green(), flat));
        vertices.push(Vertex::new(Position::new(xp, ym, zm, SCALE), Color::blue(), flat));
        vertices.push(Vertex::new(Position::new(xm, yp, zm, SCALE), Color::red(), flat));
        vertices.push(Vertex::new(Position::new(xm, ym, zm, SCALE), Color::white(), flat));
        let mut indices: Vec<u16> = Vec::new();
        indices.push(0);
        indices.push(1);
        indices.push(2);
        indices.push(1);
        indices.push(3);
        indices.push(2);
        indices.push(4);
        indices.push(5);
        indices.push(6);
        indices.push(5);
        indices.push(7);
        indices.push(6);
        indices.push(6);
        indices.push(7);
        indices.push(0);
        indices.push(7);
        indices.push(1);
        indices.push(0);
        indices.push(2);
        indices.push(3);
        indices.push(4);
        indices.push(3);
        indices.push(5);
        indices.push(4);
        indices.push(1);
        indices.push(7);
        indices.push(3);
        indices.push(7);
        indices.push(5);
        indices.push(3);
        indices.push(6);
        indices.push(0);
        indices.push(4);
        indices.push(0);
        indices.push(2);
        indices.push(4);
        proof {
            assert(vertices@ =~= cube_verts(origin, size as int));
            assert(indices@ =~= cube_indices());
        }
        Ok(Mesh::new(vertices, indices))
    }

    /// Rotate the mesh about the cube's own origin.
    pub fn rotate(&mut self, sin_a: i64, cos_a: i64, axis: Position) -> (r: Result<
        (),
        GeometryError,
    >)
        requires
            mesh_rotatable(old(self).mesh),
            rotatable(old(self).origin),
            pos_in_range(axis),
            abs_i(sin_a as int) <= SCALE as int,
            abs_i(cos_a as int) <= SCALE as int,
        ensures
            length_of(axis) == 0 <==> r == Err::<(), GeometryError>(
                GeometryError::DegenerateGeometry,
            ),
            final (self).origin == old(self).origin,
            final (self).size == old(self).size,
            final (self).fill == old(self).fill,
            match r {
                Ok(()) => {
                    &&& final (self).mesh.indices@ == old(self).mesh.indices@
                    &&& final (self).mesh.vertices@.len() == old(self).mesh.vertices@.len()
                    &&& forall|i: int|
                        0 <= i < old(self).mesh.vertices@.len() ==> {
                            let ov = #[trigger] old(self).mesh.vertices@[i];
                            let nv = final (self).mesh.vertices@[i];
                            &&& nv.position.x == rotated_x(
                                ov.position,
                                sin_a as int,
                                cos_a as int,
                                old(self).origin,
                                axis,
                            )
                            &&& nv.position.y == rotated_y(
                                ov.position,
                                sin_a as int,
                                cos_a as int,
                                old(self).origin,
                                axis,
                            )
                            &&& nv.position.z == rotated_z(
                                ov.position,
                                sin_a as int,
                                cos_a as int,
                                old(self).origin,
                                axis,
                            )
                            &&& nv.position.w == ov.position.w
                            &&& nv.color == ov.color
                            &&& nv.normal == ov.normal
                        }
                },
                Err(e) => e == GeometryError::DegenerateGeometry && final (self).mesh == old(
                    self,
                ).mesh,
            },
    {
        self.mesh.rotate(axis, self.origin, sin_a, cos_a)
    }

    /// Shift the cube: the origin and every mesh vertex move together.
    pub fn translate(&mut self, displacement: Position)
        requires
            mesh_in_range(old(self).mesh),
            pos_in_range(displacement),
            fits_i64(old(self).origin.x + displacement.x),
            fits_i64(old(self).origin.y + displacement.y),
            fits_i64(old(self).origin.z + displacement.z),
            fits_i64(old(self).origin.w + displacement.w),
        ensures
            final (self).origin.x == old(self).origin.x + displacement.x,
            final (self).origin.y == old(self).origin.y + displacement.y,
            final (self).origin.z == old(self).origin.z + displacement.z,
            final (self).origin.w == old(self).origin.w + displacement.w,
            final (self).size == old(self).size,
            final (self).fill == old(self).fill,
            final (self).mesh.indices@ == old(self).mesh.indices@,
            final (self).mesh.vertices@.len() == old(self).mesh.vertices@.len(),
            forall|i: int|
                0 <= i < old(self).mesh.vertices@.len() ==> {
                    let ov = #[trigger] old(self).mesh.vertices@[i];
                    let nv = final (self).mesh.vertices@[i];
                    &&& nv.position.x == ov.position.x + displacement.x
                    &&& nv.position.y == ov.position.y + displacement.y
                    &&& nv.position.z == ov.position.z + displacement.z
                    &&& nv.position.w == ov.position.w + displacement.w
                    &&& nv.color == ov.color
                    &&& nv.normal == ov.normal
                },
    {
        self.origin = self.origin.add(displacement);
        self.mesh.translate(displacement);
    }

    /// Collapse exactly-equal referenced vertices of the mesh.
    pub fn dedup(&mut self) -> (r: Result<(), GeometryError>)
        requires
            old(self).mesh.vertices@.len() <= 65536,
        ensures
            crate::dedup::indices_valid(old(self).mesh.vertices@, old(self).mesh.indices@) <==> r
                == Ok::<(), GeometryError>(()),
            match r {
                Ok(()) => final (self).mesh.vertices@ == crate::dedup::dedup_verts(
                    old(self).mesh.vertices@,
                    old(self).mesh.indices@,
                    old(self).mesh.indices@.len() as int,
                ) && final (self).mesh.indices@ == crate::dedup::dedup_indices(
                    old(self).mesh.vertices@,
                    old(self).mesh.indices@,
                    old(self).mesh.indices@.len() as int,
                ) && final (self).origin == old(self).origin && final (self).size == old(
                    self,
                ).size && final (self).fill == old(self).fill,
                Err(e) => e == GeometryError::IndexOutOfRange && *final (self) == *old(self),
            },
    {
        self.mesh.dedup()
    }

    /// Replace the mesh by six bilinear face grids, `2^n` cells to a side,
    /// treating each face's four corners as its patch controls.  Faces are
    /// not deduplicated against each other: a following deduplication pass
    /// collapses the seams.
    pub fn subdivide(&mut self, subdivisions: u32)
        requires
            subdivisions <= 6,
            old(self).mesh.vertices@.len() >= 8,
            forall|i: int| 0 <= i < 8 ==> vert_in_range(#[trigger] old(self).mesh.vertices@[i]),
        ensures
            ({
                let n = pow2(subdivisions as nat) as int;
                &&& final (self).mesh.vertices@ == cube_subdiv_verts(old(self).mesh.vertices@, n)
                &&& final (self).mesh.indices@ == cube_subdiv_indices(n)
                &&& final (self).mesh.vertices@.len() == 6 * ((n + 1) * (n + 1))
                &&& final (self).mesh.indices@.len() == 36 * n * n
                &&& final (self).mesh.indices@.len() % 3 == 0
                &&& mesh_valid(final (self).mesh)
                &&& final (self).origin == old(self).origin
                &&& final (self).size == old(self).size
                &&& final (self).fill == old(self).fill
            }),
    {
        let frt = self.mesh.vertices[0];
        let flt = self.mesh.vertices[1];
        let flb = self.mesh.vertices[2];
        let frb = self.mesh.vertices[3];
        let blt = self.mesh.vertices[4];
        let brt = self.mesh.vertices[5];
        let brb = self.mesh.vertices[6];
        let blb = self.mesh.vertices[7];
        let n = pow2_u16(subdivisions);
        proof {
            assert(1 <= n as int <= 64) by {
                vstd::arithmetic::power2::lemma2_to64();
                if subdivisions < 6 {
                    vstd::arithmetic::power2::lemma_pow2_strictly_increases(
                        subdivisions as nat,
                        6,
                    );
                }
            }
        }
        let g0 = grid_mesh(frt, flt, flb, frb, n);
        let g1 = grid_mesh(blt, brt, brb, blb, n);
        let g2 = grid_mesh(flt, blt, blb, flb, n);
        let g3 = grid_mesh(brt, frt, frb, brb, n);
        let g4 = grid_mesh(flt, blt, brt, frt, n);
        let g5 = grid_mesh(flb, blb, brb, frb, n);
        let ghost nn = n as int;
        let ghost pp = (nn + 1) * (nn + 1);
        let ghost ll = 6 * nn * nn;
        let ghost gi = grid_indices(nn);
        proof {
            assert(1 * pp <= 4225 && 6 * nn * nn <= 24576) by (nonlinear_arith)
                requires
                    pp == (nn + 1) * (nn + 1),
                    1 <= nn <= 64,
            ;
            lemma_grid_indices_valid(nn);
        }
        let m01 = g0.merge(g1);
        proof {
            lemma_merge_face_bound(nn, 1);
        }
        let m02 = m01.merge(g2);
        proof {
            lemma_merge_face_bound(nn, 2);
        }
        let m03 = m02.merge(g3);
        proof {
            lemma_merge_face_bound(nn, 3);
        }
        let m04 = m03.merge(g4);
        proof {
            lemma_merge_face_bound(nn, 4);
        }
        let m = m04.merge(g5);
        proof {
            assert(m.vertices@ =~= cube_subdiv_verts(old(self).mesh.vertices@, nn));
            assert(m.indices@.len() == 6 * ll);
            assert(6 * ll == 36 * nn * nn) by (nonlinear_arith)
                requires
                    ll == 6 * nn * nn,
            ;
            assert(m01.indices@.len() == 2 * ll && m02.indices@.len() == 3 * ll
                && m03.indices@.len() == 4 * ll && m04.indices@.len() == 5 * ll);
            assert(m01.vertices@.len() == 2 * pp && m02.vertices@.len() == 3 * pp
                && m03.vertices@.len() == 4 * pp && m04.vertices@.len() == 5 * pp);
            assert forall|q: int| 0 <= q < 6 * ll implies m.indices@[q] == cube_subdiv_indices(
                nn,
            )[q] by {
                lemma_face_slot(nn, q);
                let f = q / ll;
                let qq = q % ll;
                assert(q == f * ll + qq);
                assert(gi[qq] == grid_index_at(nn, qq) as u16);
                assert(0 <= grid_index_at(nn, qq) < pp);
                assert(cube_subdiv_indices(nn)[q] == (grid_index_at(nn, qq) + f * pp) as u16);
                if f == 0 {
                    assert(q == qq && f * pp == 0) by (nonlinear_arith)
                        requires
                            q == f * ll + qq,
                            f == 0,
                    ;
                    assert(m.indices@[q] == m04.indices@[q]);
                    assert(m04.indices@[q] == m03.indices@[q]);
                    assert(m03.indices@[q] == m02.indices@[q]);
                    assert(m02.indices@[q] == m01.indices@[q]);
                    assert(m01.indices@[q] == g0.indices@[q]);
                    assert(m.indices@[q] as int == grid_index_at(nn, qq) + 0 * pp);
                } else if f == 1 {
                    assert(q == 1 * ll + qq && f * pp == 1 * pp) by (nonlinear_arith)
                        requires
                            q == f * ll + qq,
                            f == 1,
                    ;
                    assert(m.indices@[q] == m04.indices@[q]);
                    assert(m04.indices@[q] == m03.indices@[q]);
                    assert(m03.indices@[q] == m02.indices@[q]);
                    assert(m02.indices@[q] == m01.indices@[q]);
                    assert(m01.indices@[g0.indices@.len() + qq] as int == g1.indices@[qq] as int
                        + g0.vertices@.len());
                    assert(m.indices@[q] as int == grid_index_at(nn, qq) + 1 * pp);
                } else if f == 2 {
                    assert(q == 2 * ll + qq && f * pp == 2 * pp) by (nonlinear_arith)
                        requires
                            q == f * ll + qq,
                            f == 2,
                    ;
                    assert(m.indices@[q] == m04.indices@[q]);
                    assert(m04.indices@[q] == m03.indices@[q]);
                    assert(m03.indices@[q] == m02.indices@[q]);
                    assert(m02.indices@[m01.indices@.len() + qq] as int == g2.indices@[qq] as int
                        + m01.vertices@.len());
                    assert(m.indices@[q] as int == grid_index_at(nn, qq) + 2 * pp);
                } else if f == 3 {
                    assert(q == 3 * ll + qq && f * pp == 3 * pp) by (nonlinear_arith)
                        requires
                            q == f * ll + qq,
                            f == 3,
                    ;
                    assert(m.indices@[q] == m04.indices@[q]);
                    assert(m04.indices@[q] == m03.indices@[q]);
                    assert(m03.indices@[m02.indices@.len() + qq] as int == g3.indices@[qq] as int
                        + m02.vertices@.len());
                    assert(m.indices@[q] as int == grid_index_at(nn, qq) + 3 * pp);
                } else if f == 4 {
                    assert(q == 4 * ll + qq && f * pp == 4 * pp) by (nonlinear_arith)
                        requires
                            q == f * ll + qq,
                            f == 4,
                    ;
                    assert(m.indices@[q] == m04.indices@[q]);
                    assert(m04.indices@[m03.indices@.len() + qq] as int == g4.indices@[qq] as int
                        + m03.vertices@.len());
                    assert(m.indices@[q] as int == grid_index_at(nn, qq) + 4 * pp);
                } else {
                    assert(q == 5 * ll + qq && f * pp == 5 * pp) by (nonlinear_arith)
                        requires
                            q == f * ll + qq,
                            f == 5,
                    ;
                    assert(m.indices@[m04.indices@.len() + qq] as int == g5.indices@[qq] as int
                        + m04.vertices@.len());
                    assert(m.indices@[q] as int == grid_index_at(nn, qq) + 5 * pp);
                }
                assert(0 <= grid_index_at(nn, qq) + f * pp <= 65535) by (nonlinear_arith)
                    requires
                        0 <= grid_index_at(nn, qq) < pp,
                        0 <= f <= 5,
                        1 <= pp <= 4225,
                ;
            }
            assert(m.indices@ =~= cube_subdiv_indices(nn));
            assert(6 * ll == 3 * (2 * ll) + 0);
            lemma_fundamental_div_mod_converse_mod(6 * ll, 3, 2 * ll, 0);
        }
        self.mesh = m;
    }
}

/// Face seams of the refined cube collapse: the six face grids generate
/// coinciding corner vertices, so deduplicating the refined mesh keeps
/// strictly fewer vertices than it was given, at every refinement density.
pub proof fn lemma_cube_seam_collapse(vs: Seq<Vertex>, n: int)
    requires
        vs.len() >= 8,
        forall|i: int| 0 <= i < 8 ==> vert_in_range(#[trigger] vs[i]),
        1 <= n <= 64,
    ensures
        crate::dedup::dedup_verts(
            cube_subdiv_verts(vs, n),
            cube_subdiv_indices(n),
            cube_subdiv_indices(n).len() as int,
        ).len() < cube_subdiv_verts(vs, n).len(),
{
    let pp = (n + 1) * (n + 1);
    let ll = 6 * n * n;
    let cvs = cube_subdiv_verts(vs, n);
    let cis = cube_subdiv_indices(n);
    let ga = grid_verts(vs[0], vs[1], vs[2], vs[3], n);
    let ge = grid_verts(vs[1], vs[4], vs[5], vs[0], n);
    assert(1 <= pp <= 4225) by (nonlinear_arith)
        requires
            pp == (n + 1) * (n + 1),
            1 <= n <= 64,
    ;
    assert(ga.len() == pp && ge.len() == pp);
    assert(cvs.len() == 6 * pp);
    // the shared corner: entry 0 of the front face is the first control
    // vertex, entry pp - 1 of the top face is its fourth control vertex,
    // and both controls are the same cube corner
    vstd::arithmetic::div_mod::lemma_fundamental_div_mod_converse_div(0, n + 1, 0, 0);
    vstd::arithmetic::div_mod::lemma_fundamental_div_mod_converse_mod(0, n + 1, 0, 0);
    assert(pp - 1 == n * (n + 1) + n) by (nonlinear_arith)
        requires
            pp == (n + 1) * (n + 1),
    ;
    vstd::arithmetic::div_mod::lemma_fundamental_div_mod_converse_div(pp - 1, n + 1, n, n);
    vstd::arithmetic::div_mod::lemma_fundamental_div_mod_converse_mod(pp - 1, n + 1, n, n);
    crate::grid::lemma_grid_weight(0, n);
    crate::grid::lemma_grid_weight(n, n);
    crate::vertex::lemma_bilerp_corners(vs[0], vs[1], vs[2], vs[3]);
    crate::vertex::lemma_bilerp_corners(vs[1], vs[4], vs[5], vs[0]);
    assert(ga[0] == vs[0]);
    assert(ge[pp - 1] == vs[0]);
    assert(cvs[0] == ga[0]);
    assert(cvs[4 * pp + (pp - 1)] == ge[pp - 1]);
    let dup = 4 * pp + (pp - 1);
    assert(0 < dup < cvs.len());
    assert(cvs[0] == cvs[dup]);
    // validity of the refined index list, then the strict pigeonhole bound
    lemma_grid_indices_valid(n);
    assert(cis.len() == 36 * n * n);
    assert(36 * n * n == 6 * ll) by (nonlinear_arith)
        requires
            ll == 6 * n * n,
    ;
    assert forall|k: int| 0 <= k < cis.len() implies (#[trigger] cis[k] as int) < cvs.len() by {
        lemma_face_slot(n, k);
        let f = k / ll;
        let qq = k % ll;
        assert(0 <= grid_index_at(n, qq) < pp);
        assert(cis[k] == (grid_index_at(n, qq) + f * pp) as u16);
        assert(0 <= grid_index_at(n, qq) + f * pp < 6 * pp) by (nonlinear_arith)
            requires
                0 <= grid_index_at(n, qq) < pp,
                0 <= f <= 5,
                1 <= pp,
        ;
    }
    crate::dedup::lemma_dedup_props(cvs, cis, cis.len() as int);
    let kept = crate::dedup::dedup_verts(cvs, cis, cis.len() as int);
    assert forall|j: int| 0 <= j < kept.len() implies crate::dedup::appears_in(
        #[trigger] kept[j],
        cvs,
    ) by {
        assert(crate::dedup::referenced(kept[j], cvs, cis, cis.len() as int));
        let k0 = choose|k: int|
            0 <= k < cis.len() && cvs[#[trigger] cis[k] as int] == kept[j];
        assert(cvs[cis[k0] as int] == kept[j]);
    }
    crate::dedup::lemma_distinct_bound_strict(kept, cvs, 0, dup);
}

/// Merging face `f` keeps every merged index below the sixteen-bit limit.
proof fn lemma_merge_face_bound(n: int, f: int)
    requires
        1 <= n <= 64,
        1 <= f <= 5,
    ensures
        f * ((n + 1) * (n + 1)) <= 65535,
        f * ((n + 1) * (n + 1)) + (n + 1) * (n + 1) <= 65535,
{
    assert(f * ((n + 1) * (n + 1)) + (n + 1) * (n + 1) <= 65535) by (nonlinear_arith)
        requires
            1 <= n <= 64,
            1 <= f <= 5,
    ;
    assert(f * ((n + 1) * (n + 1)) >= 0 && f * ((n + 1) * (n + 1)) <= f * ((n + 1) * (n + 1)) + (n
        + 1) * (n + 1)) by (nonlinear_arith)
        requires
            1 <= n <= 64,
            1 <= f <= 5,
    ;
}

/// Every entry position of the refined cube's index list splits into a face
/// number and a position within that face's block.
proof fn lemma_face_slot(n: int, q: int)
    requires
        1 <= n <= 64,
        0 <= q < 6 * (6 * n * n),
    ensures
        0 <= q / (6 * n * n) < 6,
        0 <= q % (6 * n * n) < 6 * n * n,
        q == (q / (6 * n * n)) * (6 * n * n) + q % (6 * n * n),
{
    let ll = 6 * n * n;
    assert(ll >= 6) by (nonlinear_arith)
        requires
            ll == 6 * n * n,
            n >= 1,
    ;
    lemma_fundamental_div_mod(q, ll);
    lemma_mod_division_less_than_divisor(q, ll);
    assert(0 <= q / ll < 6) by (nonlinear_arith)
        requires
            q == ll * (q / ll) + q % ll,
            0 <= q % ll < ll,
            0 <= q < 6 * ll,
            ll >= 6,
    ;
    assert(q == (q / ll) * ll + q % ll) by (nonlinear_arith)
        requires
            q == ll * (q / ll) + q % ll,
    ;
}

} // verus!
