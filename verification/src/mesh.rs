//! Indexed triangle meshes: an ordered vertex list and an ordered index
//! list (three indices to a triangle), with deduplication, rigid motions
//! and concatenation.

use vstd::prelude::*;

use vstd::pervasive::VecAdditionalExecFns;

use crate::dedup::{
    dedup_indices, dedup_verts, find_vertex, indices_valid, lemma_dedup_props, lemma_find_at,
    lemma_find_props,
};
use crate::normal::Normal;
use crate::position::{
    distance_of, length_of, pos_in_range, rotatable, rotated_x, rotated_y, rotated_z, Position,
};
use crate::scalar::{abs_i, fdiv, fmul, SCALE};
use crate::vertex::{
    tri_normal_x, tri_normal_y, tri_normal_z, triangle_normal, vert_in_range, Vertex,
};
use crate::GeometryError;

verus! {

#[derive(Debug, Clone)]
pub struct Mesh {
    pub vertices: Vec<Vertex>,
    pub indices: Vec<u16>,
}

/// Every index points below the vertex count.
pub open spec fn mesh_valid(m: Mesh) -> bool {
    indices_valid(m.vertices@, m.indices@)
}

/// Every vertex scalar lies within the working coordinate range.
pub open spec fn mesh_in_range(m: Mesh) -> bool {
    forall|i: int| 0 <= i < m.vertices@.len() ==> vert_in_range(#[trigger] m.vertices@[i])
}

/// Every vertex is small enough to rotate, and otherwise in range.
pub open spec fn mesh_rotatable(m: Mesh) -> bool {
    forall|i: int|
        0 <= i < m.vertices@.len() ==> rotatable(#[trigger] m.vertices@[i].position)
            && vert_in_range(m.vertices@[i])
}

impl Mesh {
    /// A mesh from its parts; no validation is performed here, the indices
    /// are trusted until an operation checks them.
    pub fn new(vertices: Vec<Vertex>, indices: Vec<u16>) -> (r: Self)
        ensures
            r.vertices@ == vertices@,
            r.indices@ == indices@,
    {
        Self { vertices, indices }
    }

    /// The distance between two points.
    pub fn vertex_length(start: Position, end: Position) -> (r: i64)
        requires
            pos_in_range(start),
            pos_in_range(end),
        ensures
            r == distance_of(end, start),
            r >= 0,
    {
        end.distance(start)
    }

    /// The direction of the line from `start` to `end`: their difference
    /// divided by their distance.
    pub fn vertex_direction(start: Position, end: Position) -> (r: Result<
        Position,
        GeometryError,
    >)
        requires
            pos_in_range(start),
            pos_in_range(end),
        ensures
            distance_of(end, start) == 0 <==> r == Err::<Position, GeometryError>(
                GeometryError::DegenerateGeometry,
            ),
            match r {
                Ok(p) => {
                    let d = distance_of(end, start);
                    &&& p.x == fdiv(end.x - start.x, d)
                    &&& p.y == fdiv(end.y - start.y, d)
                    &&& p.z == fdiv(end.z - start.z, d)
                    &&& p.w == fdiv(end.w - start.w, d)
                },
                Err(e) => e == GeometryError::DegenerateGeometry,
            },
    {
        end.direction(start)
    }

    /// The dot product of two vectors over their spatial components.
    pub fn dot_product(a: Position, b: Position) -> (r: i64)
        requires
            pos_in_range(a),
            pos_in_range(b),
        ensures
            r == fmul(a.x as int, b.x as int) + fmul(a.y as int, b.y as int) + fmul(
                a.z as int,
                b.z as int,
            ),
    {
        a.dot(b)
    }

    /// The cross product of two vectors.
    pub fn cross_product(a: Position, b: Position) -> (r: Position)
        requires
            pos_in_range(a),
            pos_in_range(b),
        ensures
            r.x == fmul(a.y as int, b.z as int) - fmul(a.z as int, b.y as int),
            r.y == fmul(a.z as int, b.x as int) - fmul(a.x as int, b.z as int),
            r.z == fmul(a.x as int, b.y as int) - fmul(a.y as int, b.x as int),
            r.w == 0,
    {
        a.cross(b)
    }

    /// The normal of the triangle surface spanned by three points: the cross
    /// product of the two edges leaving `a`.  Collinear or coincident
    /// corners give the zero direction; no error is raised here, the caller
    /// decides what a degenerate surface means.
    pub fn normalize(a: Position, b: Position, c: Position) -> (r: Normal)
        requires
            pos_in_range(a),
            pos_in_range(b),
            pos_in_range(c),
        ensures
            r.x == tri_normal_x(a, b, c),
            r.y == tri_normal_y(a, b, c),
            r.z == tri_normal_z(a, b, c),
    {
        triangle_normal(a, b, c)
    }

    /// Collapse exactly-equal referenced vertices: scan the indices in
    /// order, keep the first occurrence of each vertex value, renumber every
    /// index to the kept copy.  An index at or past the vertex count is
    /// reported instead of followed.
    pub fn dedup(&mut self) -> (r: Result<(), GeometryError>)
        requires
            old(self).vertices@.len() <= 65536,
        ensures
            indices_valid(old(self).vertices@, old(self).indices@) <==> r == Ok::<
                (),
                GeometryError,
            >(()),
            match r {
                Ok(()) => final (self).vertices@ == dedup_verts(
                    old(self).vertices@,
                    old(self).indices@,
                    old(self).indices@.len() as int,
                ) && final (self).indices@ == dedup_indices(
                    old(self).vertices@,
                    old(self).indices@,
                    old(self).indices@.len() as int,
                ) && final (self).indices@.len() == old(self).indices@.len() && mesh_valid(
                    *final (self),
                ),
                Err(e) => e == GeometryError::IndexOutOfRange && *final (self) == *old(self),
            },
    {
        let n = self.indices.len();
        let mut k: usize = 0;
        while k < n
            invariant
                n == self.indices@.len(),
                0 <= k <= n,
                self.indices@ == old(self).indices@,
                self.vertices@ == old(self).vertices@,
                forall|j: int|
                    0 <= j < k ==> (#[trigger] self.indices@[j] as int) < self.vertices@.len(),
            decreases n - k,
        {
            if self.indices[k] as usize >= self.vertices.len() {
                return Err(GeometryError::IndexOutOfRange);
            }
            k += 1;
        }
        let ghost vs0 = self.vertices@;
        let ghost idx0 = self.indices@;
        let mut vertices: Vec<Vertex> = Vec::new();
        let mut indices: Vec<u16> = Vec::new();
        let mut p: usize = 0;
        while p < n
            invariant
                n == idx0.len(),
                self.indices@ == idx0,
                self.vertices@ == vs0,
                vs0 == old(self).vertices@,
                idx0 == old(self).indices@,
                vs0.len() <= 65536,
                indices_valid(vs0, idx0),
                0 <= p <= n,
                vertices@ == dedup_verts(vs0, idx0, p as int),
                indices@ == dedup_indices(vs0, idx0, p as int),
            decreases n - p,
        {
            proof {
                lemma_dedup_props(vs0, idx0, p as int);
            }
            let v = self.vertices[self.indices[p] as usize];
            let mut i: usize = 0;
            while i < vertices.len() && !(vertices[i] == v)
                invariant
                    0 <= i <= vertices@.len(),
                    forall|j: int| 0 <= j < i ==> vertices@[j] != v,
                decreases vertices@.len() - i,
            {
                i += 1;
            }
            if i < vertices.len() {
                proof {
                    lemma_find_at(vertices@, v, i as int);
                }
                indices.push(i as u16);
            } else {
                proof {
                    lemma_find_props(vertices@, v);
                    if find_vertex(vertices@, v) != -1 {
                        assert(vertices@[find_vertex(vertices@, v)] == v);
                        assert(false);
                    }
                    lemma_dedup_props(vs0, idx0, p as int + 1);
                    assert(dedup_verts(vs0, idx0, p as int + 1) == vertices@.push(v));
                    assert(vertices@.len() + 1 <= 65536);
                }
                indices.push(vertices.len() as u16);
                vertices.push(v);
            }
            p += 1;
        }
        self.vertices = vertices;
        self.indices = indices;
        proof {
            lemma_dedup_props(vs0, idx0, idx0.len() as int);
        }
        Ok(())
    }

    /// Rotate every vertex position about the axis anchored at `origin`,
    /// given the sine and cosine of the angle; colors, normals and indices
    /// are untouched.  A zero-length axis is reported and leaves the mesh
    /// unchanged.
    pub fn rotate(&mut self, axis: Position, origin: Position, sin_a: i64, cos_a: i64) -> (r:
        Result<(), GeometryError>)
        requires
            mesh_rotatable(*old(self)),
            rotatable(origin),
            pos_in_range(axis),
            abs_i(sin_a as int) <= SCALE as int,
            abs_i(cos_a as int) <= SCALE as int,
        ensures
            length_of(axis) == 0 <==> r == Err::<(), GeometryError>(
                GeometryError::DegenerateGeometry,
            ),
            match r {
                Ok(()) => {
                    &&& final (self).indices@ == old(self).indices@
                    &&& final (self).vertices@.len() == old(self).vertices@.len()
                    &&& forall|i: int|
                        0 <= i < old(self).vertices@.len() ==> {
                            let ov = #[trigger] old(self).vertices@[i];
                            let nv = final (self).vertices@[i];
                            &&& nv.position.x == rotated_x(
                                ov.position,
                                sin_a as int,
                                cos_a as int,
                                origin,
                                axis,
                            )
                            &&& nv.position.y == rotated_y(
                                ov.position,
                                sin_a as int,
                                cos_a as int,
                                origin,
                                axis,
                            )
                            &&& nv.position.z == rotated_z(
                                ov.position,
                                sin_a as int,
                                cos_a as int,
                                origin,
                                axis,
                            )
                            &&& nv.position.w == ov.position.w
                            &&& nv.color == ov.color
                            &&& nv.normal == ov.normal
                        }
                },
                Err(e) => e == GeometryError::DegenerateGeometry && *final (self) == *old(self),
            },
    {
        let probe = axis.sqrt();
        if probe == 0 {
            return Err(GeometryError::DegenerateGeometry);
        }
        let n = self.vertices.len();
        let mut i: usize = 0;
        while i < n
            invariant
                n == self.vertices@.len(),
                self.vertices@.len() == old(self).vertices@.len(),
                self.indices@ == old(self).indices@,
                mesh_rotatable(*old(self)),
                rotatable(origin),
                pos_in_range(axis),
                length_of(axis) != 0,
                abs_i(sin_a as int) <= SCALE as int,
                abs_i(cos_a as int) <= SCALE as int,
                0 <= i <= n,
                forall|j: int| i <= j < n ==> self.vertices@[j] == old(self).vertices@[j],
                forall|j: int|
                    0 <= j < i ==> {
                        let ov = #[trigger] old(self).vertices@[j];
                        let nv = self.vertices@[j];
                        &&& nv.position.x == rotated_x(
                            ov.position,
                            sin_a as int,
                            cos_a as int,
                            origin,
                            axis,
                        )
                        &&& nv.position.y == rotated_y(
                            ov.position,
                            sin_a as int,
                            cos_a as int,
                            origin,
                            axis,
                        )
                        &&& nv.position.z == rotated_z(
                            ov.position,
                            sin_a as int,
                            cos_a as int,
                            origin,
                            axis,
                        )
                        &&& nv.position.w == ov.position.w
                        &&& nv.color == ov.color
                        &&& nv.normal == ov.normal
                    },
            decreases n - i,
        {
            let mut v = self.vertices[i];
            let rotated = match v.position.rotate(sin_a, cos_a, origin, axis) {
                Ok(q) => q,
                Err(_) => {
                    proof {
                        assert(false);
                    }
                    v.position
                },
            };
            v.position = rotated;
            self.vertices.set(i, v);
            i += 1;
        }
        Ok(())
    }

    /// Add `position` to every vertex position; colors, normals and indices
    /// are untouched.
    pub fn translate(&mut self, position: Position)
        requires
            mesh_in_range(*old(self)),
            pos_in_range(position),
        ensures
            final (self).indices@ == old(self).indices@,
            final (self).vertices@.len() == old(self).vertices@.len(),
            forall|i: int|
                0 <= i < old(self).vertices@.len() ==> {
                    let ov = #[trigger] old(self).vertices@[i];
                    let nv = final (self).vertices@[i];
                    &&& nv.position.x == ov.position.x + position.x
                    &&& nv.position.y == ov.position.y + position.y
                    &&& nv.position.z == ov.position.z + position.z
                    &&& nv.position.w == ov.position.w + position.w
                    &&& nv.color == ov.color
                    &&& nv.normal == ov.normal
                },
    {
        let n = self.vertices.len();
        let mut i: usize = 0;
        while i < n
            invariant
                n == self.vertices@.len(),
                self.vertices@.len() == old(self).vertices@.len(),
                self.indices@ == old(self).indices@,
                mesh_in_range(*old(self)),
                pos_in_range(position),
                0 <= i <= n,
                forall|j: int| i <= j < n ==> self.vertices@[j] == old(self).vertices@[j],
                forall|j: int|
                    0 <= j < i ==> {
                        let ov = #[trigger] old(self).vertices@[j];
                        let nv = self.vertices@[j];
                        &&& nv.position.x == ov.position.x + position.x
                        &&& nv.position.y == ov.position.y + position.y
                        &&& nv.position.z == ov.position.z + position.z
                        &&& nv.position.w == ov.position.w + position.w
                        &&& nv.color == ov.color
                        &&& nv.normal == ov.normal
                    },
            decreases n - i,
        {
            let mut v = self.vertices[i];
            v.position = v.position.add(position);
            self.vertices.set(i, v);
            i += 1;
        }
    }

    /// Concatenate two meshes: the second mesh's vertices follow the
    /// first's, and its indices are shifted by the first mesh's vertex count
    /// so they keep pointing at the same vertices.
    pub fn merge(self, other: Mesh) -> (r: Mesh)
        requires
            self.vertices@.len() <= 65535,
            forall|k: int|
                0 <= k < other.indices@.len() ==> (#[trigger] other.indices@[k] as int)
                    + self.vertices@.len() <= 65535,
        ensures
            r.vertices@ == self.vertices@ + other.vertices@,
            r.indices@.len() == self.indices@.len() + other.indices@.len(),
            forall|k: int|
                0 <= k < self.indices@.len() ==> r.indices@[k] == #[trigger] self.indices@[k],
            forall|k: int|
                0 <= k < other.indices@.len() ==> (r.indices@[self.indices@.len() + k] as int) == (
                #[trigger] other.indices@[k] as int) + self.vertices@.len(),
            mesh_valid(self) && mesh_valid(other) ==> mesh_valid(r),
    {
        let ghost va = self.vertices@;
        let ghost ia = self.indices@;
        let offset = self.vertices.len() as u16;
        let mut vertices = self.vertices;
        let mut indices = self.indices;
        let mut i: usize = 0;
        while i < other.vertices.len()
            invariant
                0 <= i <= other.vertices@.len(),
                vertices@ == va + other.vertices@.take(i as int),
                indices@ == ia,
            decreases other.vertices@.len() - i,
        {
            vertices.push(other.vertices[i]);
            proof {
                assert(other.vertices@.take(i as int).push(other.vertices@[i as int])
                    =~= other.vertices@.take(i as int + 1));
            }
            i += 1;
        }
        proof {
            assert(other.vertices@.take(other.vertices@.len() as int) =~= other.vertices@);
        }
        let mut k: usize = 0;
        while k < other.indices.len()
            invariant
                0 <= k <= other.indices@.len(),
                va.len() <= 65535,
                offset as int == va.len(),
                vertices@ == va + other.vertices@,
                forall|j: int|
                    0 <= j < other.indices@.len() ==> (#[trigger] other.indices@[j] as int)
                        + va.len() <= 65535,
                indices@.len() == ia.len() + k,
                forall|j: int| 0 <= j < ia.len() ==> indices@[j] == #[trigger] ia[j],
                forall|j: int|
                    0 <= j < k ==> (indices@[ia.len() + j] as int) == (#[trigger] other.indices@[j] as int)
                        + va.len(),
            decreases other.indices@.len() - k,
        {
            indices.push(other.indices[k] + offset);
            k += 1;
        }
        proof {
            if indices_valid(va, ia) && indices_valid(other.vertices@, other.indices@) {
                assert forall|j: int|
                    0 <= j < indices@.len() implies (#[trigger] indices@[j] as int)
                    < vertices@.len() by {
                    if j < ia.len() {
                        assert(indices@[j] == ia[j]);
                        assert((ia[j] as int) < va.len());
                    } else {
                        let kk = j - ia.len();
                        assert((indices@[ia.len() + kk] as int) == (other.indices@[kk] as int)
                            + va.len());
                        assert((other.indices@[kk] as int) < other.vertices@.len());
                    }
                }
            }
        }
        Mesh { vertices, indices }
    }
}

} // verus!
