//! A closed union over the primitive shapes, giving callers one uniform
//! surface for mesh access, refinement and motion.

use vstd::prelude::*;

use vstd::arithmetic::power2::pow2;

use crate::dedup::{dedup_indices, dedup_verts, indices_valid};
use crate::grid::{grid_indices, grid_verts};
use crate::mesh::{mesh_rotatable, mesh_valid, Mesh};
use crate::position::{
    length_of, pos_in_range, rotatable, rotated_x, rotated_y, rotated_z, Position,
};
use crate::primitives::cube::{
    cube_fits, cube_indices, cube_subdiv_indices, cube_subdiv_verts, cube_verts, Cube,
};
use crate::primitives::quad::{square_fits, square_indices, square_verts, Square};
use crate::primitives::sphere::{sphere_fits, uv_indices, uv_verts, Sphere, Spherical};
use crate::primitives::triangle::{triangle_fits, triangle_verts, Triangle};
use crate::scalar::{abs_i, in_coord_range, COORD_LIMIT, SCALE};
use crate::vertex::{vert_in_range, Vertex};
use crate::GeometryError;

verus! {

/// Which primitive a uniform constructor should build.
pub enum Shape {
    Triangle,
    Square,
    Cube,
    Sphere,
}

/// A shape together with its generated mesh, dispatched exhaustively.
pub enum Geometry {
    Triangle(Triangle),
    Cube(Cube),
    Square(Square),
    Sphere(Spherical),
}

/// The mesh owned by the active variant.
pub open spec fn geometry_mesh(g: Geometry) -> Mesh {
    match g {
        Geometry::Triangle(t) => t.mesh,
        Geometry::Cube(c) => c.mesh,
        Geometry::Square(s) => s.mesh,
        Geometry::Sphere(s) => s.mesh,
    }
}

/// The anchor the variant rotates about: its own origin where it has one,
/// the world origin for the square.
pub open spec fn geometry_origin(g: Geometry) -> Position {
    match g {
        Geometry::Triangle(t) => t.origin,
        Geometry::Cube(c) => c.origin,
        Geometry::Square(_) => Position { x: 0, y: 0, z: 0, w: SCALE },
        Geometry::Sphere(s) => s.origin,
    }
}

/// An origin and size acceptable to every shape constructor.
pub open spec fn geometry_fits(origin: Position, size: int) -> bool {
    &&& abs_i(origin.x as int) <= (COORD_LIMIT as int) / 4
    &&& abs_i(origin.y as int) <= (COORD_LIMIT as int) / 4
    &&& abs_i(origin.z as int) <= (COORD_LIMIT as int) / 4
    &&& in_coord_range(origin.w as int)
    &&& size <= (COORD_LIMIT as int) / 4
}

/// The two values hold the same variant, and every field beside the mesh is
/// unchanged between them.
pub open spec fn same_framing(a: Geometry, b: Geometry) -> bool {
    match (a, b) {
        (Geometry::Triangle(x), Geometry::Triangle(y)) => x.fill == y.fill && x.origin == y.origin
            && x.size == y.size,
        (Geometry::Cube(x), Geometry::Cube(y)) => x.fill == y.fill && x.origin == y.origin
            && x.size == y.size,
        (Geometry::Square(x), Geometry::Square(y)) => x.fill == y.fill,
        (Geometry::Sphere(x), Geometry::Sphere(y)) => x.sphere_type == y.sphere_type && x.radius
            == y.radius && x.origin == y.origin,
        _ => false,
    }
}

impl Geometry {
    /// Build the requested shape: the size doubles as the sphere's radius.
    pub fn new(origin: Position, size: i64, shape: Shape) -> (r: Result<Self, GeometryError>)
        requires
            geometry_fits(origin, size as int),
        ensures
            size <= 0 <==> r == Err::<Geometry, GeometryError>(GeometryError::InvalidParameter),
            match r {
                Ok(g) => match shape {
                    Shape::Triangle => g matches Geometry::Triangle(t) && t.origin == origin
                        && t.size == size && t.fill && t.mesh.vertices@ == triangle_verts(
                        origin,
                        size as int,
                    ) && t.mesh.indices@ == seq![0u16, 1u16, 2u16],
                    Shape::Square => g matches Geometry::Square(s) && s.fill && s.mesh.vertices@
                        == square_verts(origin, size as int) && s.mesh.indices@
                        == square_indices(),
                    Shape::Cube => g matches Geometry::Cube(c) && c.origin == origin && c.size
                        == size && c.fill && c.mesh.vertices@ == cube_verts(origin, size as int)
                        && c.mesh.indices@ == cube_indices(),
                    Shape::Sphere => g matches Geometry::Sphere(s) && s.sphere_type
                        == Sphere::UVSphere && s.radius == size && s.origin == origin
                        && s.mesh.vertices@ == uv_verts(origin, size as int) && s.mesh.indices@
                        == uv_indices(),
                },
                Err(e) => e == GeometryError::InvalidParameter,
            },
    {
        match shape {
            Shape::Triangle => match Triangle::triangle(origin, size) {
                Ok(t) => Ok(Geometry::Triangle(t)),
                Err(e) => Err(e),
            },
            Shape::Cube => match Cube::new(origin, size) {
                Ok(c) => Ok(Geometry::Cube(c)),
                Err(e) => Err(e),
            },
            Shape::Square => match Square::new(origin, size) {
                Ok(s) => Ok(Geometry::Square(s)),
                Err(e) => Err(e),
            },
            Shape::Sphere => match Spherical::sphere(size, origin, Sphere::UVSphere) {
                Ok(s) => Ok(Geometry::Sphere(s)),
                Err(e) => Err(e),
            },
        }
    }

    /// The active variant's mesh.
    pub fn mesh(&self) -> (r: &Mesh)
        ensures
            *r == geometry_mesh(*self),
    {
        match self {
            Geometry::Triangle(t) => &t.mesh,
            Geometry::Cube(c) => &c.mesh,
            Geometry::Square(s) => &s.mesh,
            Geometry::Sphere(s) => &s.mesh,
        }
    }

    /// The active variant's vertex list.
    pub fn vertices(&self) -> (r: &Vec<Vertex>)
        ensures
            r@ == geometry_mesh(*self).vertices@,
    {
        match self {
            Geometry::Triangle(t) => &t.mesh.vertices,
            Geometry::Cube(c) => &c.mesh.vertices,
            Geometry::Square(s) => &s.mesh.vertices,
            Geometry::Sphere(s) => &s.mesh.vertices,
        }
    }

    /// The active variant's index list.
    pub fn indices(&self) -> (r: &Vec<u16>)
        ensures
            r@ == geometry_mesh(*self).indices@,
    {
        match self {
            Geometry::Triangle(t) => &t.mesh.indices,
            Geometry::Cube(c) => &c.mesh.indices,
            Geometry::Square(s) => &s.mesh.indices,
            Geometry::Sphere(s) => &s.mesh.indices,
        }
    }

    /// How many vertices the active variant's mesh holds.
    pub fn vertex_len(&self) -> (r: usize)
        ensures
            r == geometry_mesh(*self).vertices@.len(),
    {
        match self {
            Geometry::Triangle(t) => t.mesh.vertices.len(),
            Geometry::Cube(c) => c.mesh.vertices.len(),
            Geometry::Square(s) => s.mesh.vertices.len(),
            Geometry::Sphere(s) => s.mesh.vertices.len(),
        }
    }

    /// How many indices the active variant's mesh holds.
    pub fn index_len(&self) -> (r: usize)
        ensures
            r == geometry_mesh(*self).indices@.len(),
    {
        match self {
            Geometry::Triangle(t) => t.mesh.indices.len(),
            Geometry::Cube(c) => c.mesh.indices.len(),
            Geometry::Square(s) => s.mesh.indices.len(),
            Geometry::Sphere(s) => s.mesh.indices.len(),
        }
    }

    /// Rotate the active variant's mesh about its anchor, given the sine
    /// and cosine of the angle.
    pub fn rotate(&mut self, sin_a: i64, cos_a: i64, axis: Position) -> (r: Result<
        (),
        GeometryError,
    >)
        requires
            mesh_rotatable(geometry_mesh(*old(self))),
            rotatable(geometry_origin(*old(self))),
            pos_in_range(axis),
            abs_i(sin_a as int) <= SCALE as int,
            abs_i(cos_a as int) <= SCALE as int,
        ensures
            length_of(axis) == 0 <==> r == Err::<(), GeometryError>(
                GeometryError::DegenerateGeometry,
            ),
            same_framing(*old(self), *final (self)),
            match r {
                Ok(()) => {
                    let om = geometry_mesh(*old(self));
                    let nm = geometry_mesh(*final (self));
                    &&& nm.indices@ == om.indices@
                    &&& nm.vertices@.len() == om.vertices@.len()
                    &&& forall|i: int|
                        0 <= i < om.vertices@.len() ==> {
                            let ov = #[trigger] om.vertices@[i];
                            let nv = nm.vertices@[i];
                            &&& nv.position.x == rotated_x(
                                ov.position,
                                sin_a as int,
                                cos_a as int,
                                geometry_origin(*old(self)),
                                axis,
                            )
                            &&& nv.position.y == rotated_y(
                                ov.position,
                                sin_a as int,
                                cos_a as int,
                                geometry_origin(*old(self)),
                                axis,
                            )
                            &&& nv.position.z == rotated_z(
                                ov.position,
                                sin_a as int,
                                cos_a as int,
                                geometry_origin(*old(self)),
                                axis,
                            )
                            &&& nv.position.w == ov.position.w
                            &&& nv.color == ov.color
                            &&& nv.normal == ov.normal
                        }
                },
                Err(e) => e == GeometryError::DegenerateGeometry && geometry_mesh(*final (self))
                    == geometry_mesh(*old(self)),
            },
    {
        match self {
            Geometry::Triangle(t) => {
                let origin = t.origin;
                t.mesh.rotate(axis, origin, sin_a, cos_a)
            },
            Geometry::Cube(c) => {
                let origin = c.origin;
                c.mesh.rotate(axis, origin, sin_a, cos_a)
            },
            Geometry::Square(s) => s.mesh.rotate(
                axis,
                Position::new(0, 0, 0, SCALE),
                sin_a,
                cos_a,
            ),
            Geometry::Sphere(s) => {
                let origin = s.origin;
                s.mesh.rotate(axis, origin, sin_a, cos_a)
            },
        }
    }

    /// Whether the active variant's mesh is shaped so that refinement can
    /// read its control vertices.
    pub open spec fn subdividable(self, level: u32) -> bool {
        match self {
            Geometry::Triangle(_) => true,
            Geometry::Cube(c) => level <= 6 && c.mesh.vertices@.len() >= 8 && (forall|i: int|
                0 <= i < 8 ==> vert_in_range(#[trigger] c.mesh.vertices@[i])),
            Geometry::Square(s) => level <= 7 && s.mesh.vertices@.len() >= 4 && vert_in_range(
                s.mesh.vertices@[0],
            ) && vert_in_range(s.mesh.vertices@[1]) && vert_in_range(s.mesh.vertices@[2])
                && vert_in_range(s.mesh.vertices@[3]),
            Geometry::Sphere(_) => true,
        }
    }

    /// Refine the active variant: the triangle is unchanged by design, the
    /// square and cube re-tessellate, and the sphere family reports the
    /// request as not implemented.
    pub fn subdivide(&mut self, level: u32) -> (r: Result<(), GeometryError>)
        requires
            old(self).subdividable(level),
        ensures
            same_framing(*old(self), *final (self)),
            match *old(self) {
                Geometry::Triangle(_) => r == Ok::<(), GeometryError>(()) && *final (self) == *old(
                    self,
                ),
                Geometry::Cube(c1) => (*final (self)) matches Geometry::Cube(c2) && r == Ok::<
                    (),
                    GeometryError,
                >(()) && ({
                    let n = pow2(level as nat) as int;
                    &&& c2.mesh.vertices@ == cube_subdiv_verts(c1.mesh.vertices@, n)
                    &&& c2.mesh.indices@ == cube_subdiv_indices(n)
                    &&& c2.mesh.indices@.len() % 3 == 0
                    &&& mesh_valid(c2.mesh)
                }),
                Geometry::Square(s1) => (*final (self)) matches Geometry::Square(s2) && r == Ok::<
                    (),
                    GeometryError,
                >(()) && ({
                    let n = pow2(level as nat) as int;
                    let gv = grid_verts(
                        s1.mesh.vertices@[0],
                        s1.mesh.vertices@[1],
                        s1.mesh.vertices@[2],
                        s1.mesh.vertices@[3],
                        n,
                    );
                    let gi = grid_indices(n);
                    &&& s2.mesh.vertices@ == dedup_verts(gv, gi, gi.len() as int)
                    &&& s2.mesh.indices@ == dedup_indices(gv, gi, gi.len() as int)
                    &&& s2.mesh.indices@.len() % 3 == 0
                    &&& mesh_valid(s2.mesh)
                }),
                Geometry::Sphere(_) => r == Err::<(), GeometryError>(GeometryError::Unsupported)
                    && *final (self) == *old(self),
            },
    {
        match self {
            Geometry::Triangle(t) => {
                t.subdivide(level);
                Ok(())
            },
            Geometry::Cube(c) => {
                c.subdivide(level);
                Ok(())
            },
            Geometry::Square(s) => {
                s.subdivide(level);
                Ok(())
            },
            Geometry::Sphere(s) => s.subdivide(level),
        }
    }

    /// Collapse exactly-equal referenced vertices of the active variant's
    /// mesh.
    pub fn dedup(&mut self) -> (r: Result<(), GeometryError>)
        requires
            geometry_mesh(*old(self)).vertices@.len() <= 65536,
        ensures
            same_framing(*old(self), *final (self)),
            indices_valid(
                geometry_mesh(*old(self)).vertices@,
                geometry_mesh(*old(self)).indices@,
            ) <==> r == Ok::<(), GeometryError>(()),
            match r {
                Ok(()) => geometry_mesh(*final (self)).vertices@ == dedup_verts(
                    geometry_mesh(*old(self)).vertices@,
                    geometry_mesh(*old(self)).indices@,
                    geometry_mesh(*old(self)).indices@.len() as int,
                ) && geometry_mesh(*final (self)).indices@ == dedup_indices(
                    geometry_mesh(*old(self)).vertices@,
                    geometry_mesh(*old(self)).indices@,
                    geometry_mesh(*old(self)).indices@.len() as int,
                ),
                Err(e) => e == GeometryError::IndexOutOfRange && *final (self) == *old(self),
            },
    {
        match self {
            Geometry::Triangle(t) => t.dedup(),
            Geometry::Cube(c) => c.dedup(),
            Geometry::Square(s) => s.dedup(),
            Geometry::Sphere(s) => s.dedup(),
        }
    }
}

/// The operation set every concrete shape offers, with one contract for
/// all of them: mesh access, rotation about the shape's anchor, and
/// deduplication.
pub trait Geometric: Sized {
    /// The mesh the shape owns.
    spec fn geo_mesh(&self) -> Mesh;

    /// The anchor the shape rotates about.
    spec fn geo_origin(&self) -> Position;

    /// The placement this construction accepts.
    spec fn fits(origin: Position, size: int) -> bool;

    /// The vertices this construction generates from an origin and size.
    spec fn generated_verts(origin: Position, size: int) -> Seq<Vertex>;

    /// The indices this construction generates.
    spec fn generated_indices(origin: Position, size: int) -> Seq<u16>;

    /// Build the shape; a size that is not positive is rejected.
    fn new(origin: Position, size: i64) -> (r: Result<Self, GeometryError>)
        requires
            Self::fits(origin, size as int),
        ensures
            size <= 0 <==> r is Err,
            match r {
                Ok(g) => g.geo_mesh().vertices@ == Self::generated_verts(origin, size as int)
                    && g.geo_mesh().indices@ == Self::generated_indices(origin, size as int)
                    && crate::mesh::mesh_valid(g.geo_mesh()) && g.geo_mesh().indices@.len() % 3
                    == 0,
                Err(e) => e == GeometryError::InvalidParameter,
            },
    ;

    fn mesh(&self) -> (r: &Mesh)
        ensures
            *r == self.geo_mesh(),
    ;

    fn vertices(&self) -> (r: &Vec<Vertex>)
        ensures
            r@ == self.geo_mesh().vertices@,
    ;

    fn indices(&self) -> (r: &Vec<u16>)
        ensures
            r@ == self.geo_mesh().indices@,
    ;

    fn vertex_len(&self) -> (r: usize)
        ensures
            r == self.geo_mesh().vertices@.len(),
    ;

    fn index_len(&self) -> (r: usize)
        ensures
            r == self.geo_mesh().indices@.len(),
    ;

    /// Rotate the mesh about the shape's anchor, given the sine and cosine
    /// of the angle.
    fn rotate(&mut self, sin_a: i64, cos_a: i64, axis: Position) -> (r: Result<(), GeometryError>)
        requires
            mesh_rotatable(old(self).geo_mesh()),
            rotatable(old(self).geo_origin()),
            pos_in_range(axis),
            abs_i(sin_a as int) <= SCALE as int,
            abs_i(cos_a as int) <= SCALE as int,
        ensures
            length_of(axis) == 0 <==> r == Err::<(), GeometryError>(
                GeometryError::DegenerateGeometry,
            ),
            final (self).geo_origin() == old(self).geo_origin(),
            match r {
                Ok(()) => {
                    let om = old(self).geo_mesh();
                    let nm = final (self).geo_mesh();
                    &&& nm.indices@ == om.indices@
                    &&& nm.vertices@.len() == om.vertices@.len()
                    &&& forall|i: int|
                        0 <= i < om.vertices@.len() ==> {
                            let ov = #[trigger] om.vertices@[i];
                            let nv = nm.vertices@[i];
                            &&& nv.position.x == rotated_x(
                                ov.position,
                                sin_a as int,
                                cos_a as int,
                                old(self).geo_origin(),
                                axis,
                            )
                            &&& nv.position.y == rotated_y(
                                ov.position,
                                sin_a as int,
                                cos_a as int,
                                old(self).geo_origin(),
                                axis,
                            )
                            &&& nv.position.z == rotated_z(
                                ov.position,
                                sin_a as int,
                                cos_a as int,
                                old(self).geo_origin(),
                                axis,
                            )
                            &&& nv.position.w == ov.position.w
                            &&& nv.color == ov.color
                            &&& nv.normal == ov.normal
                        }
                },
                Err(e) => e == GeometryError::DegenerateGeometry && final (self).geo_mesh() == old(
                    self,
                ).geo_mesh(),
            },
    ;

    /// Collapse exactly-equal referenced vertices of the mesh.
    fn dedup(&mut self) -> (r: Result<(), GeometryError>)
        requires
            old(self).geo_mesh().vertices@.len() <= 65536,
        ensures
            indices_valid(old(self).geo_mesh().vertices@, old(self).geo_mesh().indices@) <==> r
                == Ok::<(), GeometryError>(()),
            match r {
                Ok(()) => final (self).geo_mesh().vertices@ == dedup_verts(
                    old(self).geo_mesh().vertices@,
                    old(self).geo_mesh().indices@,
                    old(self).geo_mesh().indices@.len() as int,
                ) && final (self).geo_mesh().indices@ == dedup_indices(
                    old(self).geo_mesh().vertices@,
                    old(self).geo_mesh().indices@,
                    old(self).geo_mesh().indices@.len() as int,
                ) && crate::mesh::mesh_valid(final (self).geo_mesh()),
                Err(e) => e == GeometryError::IndexOutOfRange && final (self).geo_mesh() == old(
                    self,
                ).geo_mesh(),
            },
    ;
}

impl Geometric for Triangle {
    open spec fn geo_mesh(&self) -> Mesh {
        self.mesh
    }

    open spec fn geo_origin(&self) -> Position {
        self.origin
    }

    open spec fn fits(origin: Position, size: int) -> bool {
        triangle_fits(origin, size)
    }

    open spec fn generated_verts(origin: Position, size: int) -> Seq<Vertex> {
        triangle_verts(origin, size)
    }

    open spec fn generated_indices(origin: Position, size: int) -> Seq<u16> {
        seq![0u16, 1u16, 2u16]
    }

    fn new(origin: Position, size: i64) -> (r: Result<Self, GeometryError>) {
        Triangle::triangle(origin, size)
    }

    fn mesh(&self) -> (r: &Mesh) {
        &self.mesh
    }

    fn vertices(&self) -> (r: &Vec<Vertex>) {
        &self.mesh.vertices
    }

    fn indices(&self) -> (r: &Vec<u16>) {
        &self.mesh.indices
    }

    fn vertex_len(&self) -> (r: usize) {
        self.mesh.vertices.len()
    }

    fn index_len(&self) -> (r: usize) {
        self.mesh.indices.len()
    }

    fn rotate(&mut self, sin_a: i64, cos_a: i64, axis: Position) -> (r: Result<
        (),
        GeometryError,
    >) {
        let origin = self.origin;
        self.mesh.rotate(axis, origin, sin_a, cos_a)
    }

    fn dedup(&mut self) -> (r: Result<(), GeometryError>) {
        self.mesh.dedup()
    }
}

impl Geometric for Cube {
    open spec fn geo_mesh(&self) -> Mesh {
        self.mesh
    }

    open spec fn geo_origin(&self) -> Position {
        self.origin
    }

    open spec fn fits(origin: Position, size: int) -> bool {
        cube_fits(origin, size)
    }

    open spec fn generated_verts(origin: Position, size: int) -> Seq<Vertex> {
        cube_verts(origin, size)
    }

    open spec fn generated_indices(origin: Position, size: int) -> Seq<u16> {
        cube_indices()
    }

    fn new(origin: Position, size: i64) -> (r: Result<Self, GeometryError>) {
        Cube::new(origin, size)
    }

    fn mesh(&self) -> (r: &Mesh) {
        &self.mesh
    }

    fn vertices(&self) -> (r: &Vec<Vertex>) {
        &self.mesh.vertices
    }

    fn indices(&self) -> (r: &Vec<u16>) {
        &self.mesh.indices
    }

    fn vertex_len(&self) -> (r: usize) {
        self.mesh.vertices.len()
    }

    fn index_len(&self) -> (r: usize) {
        self.mesh.indices.len()
    }

    fn rotate(&mut self, sin_a: i64, cos_a: i64, axis: Position) -> (r: Result<
        (),
        GeometryError,
    >) {
        let origin = self.origin;
        self.mesh.rotate(axis, origin, sin_a, cos_a)
    }

    fn dedup(&mut self) -> (r: Result<(), GeometryError>) {
        self.mesh.dedup()
    }
}

impl Geometric for Square {
    open spec fn geo_mesh(&self) -> Mesh {
        self.mesh
    }

    open spec fn geo_origin(&self) -> Position {
        Position { x: 0, y: 0, z: 0, w: SCALE }
    }

    open spec fn fits(origin: Position, size: int) -> bool {
        square_fits(origin, size)
    }

    open spec fn generated_verts(origin: Position, size: int) -> Seq<Vertex> {
        square_verts(origin, size)
    }

    open spec fn generated_indices(origin: Position, size: int) -> Seq<u16> {
        square_indices()
    }

    fn new(origin: Position, size: i64) -> (r: Result<Self, GeometryError>) {
        Square::new(origin, size)
    }

    fn mesh(&self) -> (r: &Mesh) {
        &self.mesh
    }

    fn vertices(&self) -> (r: &Vec<Vertex>) {
        &self.mesh.vertices
    }

    fn indices(&self) -> (r: &Vec<u16>) {
        &self.mesh.indices
    }

    fn vertex_len(&self) -> (r: usize) {
        self.mesh.vertices.len()
    }

    fn index_len(&self) -> (r: usize) {
        self.mesh.indices.len()
    }

    fn rotate(&mut self, sin_a: i64, cos_a: i64, axis: Position) -> (r: Result<
        (),
        GeometryError,
    >) {
        self.mesh.rotate(axis, Position::new(0, 0, 0, SCALE), sin_a, cos_a)
    }

    fn dedup(&mut self) -> (r: Result<(), GeometryError>) {
        self.mesh.dedup()
    }
}

impl Geometric for Spherical {
    open spec fn geo_mesh(&self) -> Mesh {
        self.mesh
    }

    open spec fn geo_origin(&self) -> Position {
        self.origin
    }

    open spec fn fits(origin: Position, size: int) -> bool {
        sphere_fits(origin, size)
    }

    open spec fn generated_verts(origin: Position, size: int) -> Seq<Vertex> {
        uv_verts(origin, size)
    }

    open spec fn generated_indices(origin: Position, size: int) -> Seq<u16> {
        uv_indices()
    }

    fn new(origin: Position, size: i64) -> (r: Result<Self, GeometryError>) {
        Spherical::sphere(size, origin, Sphere::UVSphere)
    }

    fn mesh(&self) -> (r: &Mesh) {
        &self.mesh
    }

    fn vertices(&self) -> (r: &Vec<Vertex>) {
        &self.mesh.vertices
    }

    fn indices(&self) -> (r: &Vec<u16>) {
        &self.mesh.indices
    }

    fn vertex_len(&self) -> (r: usize) {
        self.mesh.vertices.len()
    }

    fn index_len(&self) -> (r: usize) {
        self.mesh.indices.len()
    }

    fn rotate(&mut self, sin_a: i64, cos_a: i64, axis: Position) -> (r: Result<
        (),
        GeometryError,
    >) {
        let origin = self.origin;
        self.mesh.rotate(axis, origin, sin_a, cos_a)
    }

    fn dedup(&mut self) -> (r: Result<(), GeometryError>) {
        self.mesh.dedup()
    }
}

} // verus!
