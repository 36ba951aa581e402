//! The primitive generators: counts, index validity, refinement and the
//! error conditions of each shape.

use endless::color::Color;
use endless::mesh::Mesh;
use endless::normal::Normal;
use endless::position::Position;
use endless::primitives::cube::Cube;
use endless::primitives::geometry::{Geometry, Shape};
use endless::primitives::line::Line;
use endless::primitives::quad::Square;
use endless::primitives::ring::Ring;
use endless::primitives::sphere::{Sphere, Spherical};
use endless::primitives::triangle::Triangle;
use endless::primitives::geometry::Geometric;
use endless::scalar::SCALE;
use endless::vertex::Vertex;
use endless::GeometryError;

fn origin() -> Position {
    Position::new(0, 0, 0, SCALE)
}

fn assert_mesh_sound(mesh: &Mesh) {
    // every index points below the vertex count
    for &ix in mesh.indices.iter() {
        assert!((ix as usize) < mesh.vertices.len());
    }
}

#[test]
fn triangle_mesh_layout() {
    let t = Triangle::triangle(origin(), SCALE).unwrap();
    assert_eq!(t.mesh.vertices.len(), 3);
    assert_eq!(t.mesh.indices, vec![0, 1, 2]);
    assert_eq!(t.mesh.indices.len() % 3, 0);
    assert_mesh_sound(&t.mesh);
    // red, green and blue corners
    assert_eq!(t.mesh.vertices[0].color, Color::new(SCALE, 0, 0, SCALE));
    assert_eq!(t.mesh.vertices[1].color, Color::new(0, SCALE, 0, SCALE));
    assert_eq!(t.mesh.vertices[2].color, Color::new(0, 0, SCALE, SCALE));
    // the base corners sit half an edge to either side
    assert_eq!(t.mesh.vertices[1].position.x, -SCALE / 2);
    assert_eq!(t.mesh.vertices[2].position.x, SCALE / 2);
}

#[test]
fn triangle_rejects_non_positive_size() {
    assert_eq!(
        Triangle::mesh(origin(), 0).err(),
        Some(GeometryError::InvalidParameter)
    );
    assert_eq!(
        Triangle::mesh(origin(), -SCALE).err(),
        Some(GeometryError::InvalidParameter)
    );
}

#[test]
fn triangle_subdivide_is_a_no_op() {
    let mut t = Triangle::triangle(origin(), SCALE).unwrap();
    let before_verts = t.mesh.vertices.clone();
    let before_idx = t.mesh.indices.clone();
    t.subdivide(5);
    assert_eq!(t.mesh.vertices, before_verts);
    assert_eq!(t.mesh.indices, before_idx);
}

#[test]
fn square_mesh_layout() {
    let s = Square::new(origin(), 2 * SCALE).unwrap();
    assert_eq!(s.mesh.vertices.len(), 4);
    assert_eq!(s.mesh.indices, vec![0, 1, 2, 1, 3, 2]);
    assert_mesh_sound(&s.mesh);
    assert_eq!(s.mesh.vertices[0].color, Color::black());
    assert_eq!(s.mesh.vertices[1].color, Color::cyan());
    assert_eq!(s.mesh.vertices[2].color, Color::yellow());
    assert_eq!(s.mesh.vertices[3].color, Color::magenta());
    assert_eq!(s.mesh.vertices[0].position.x, -SCALE);
    assert_eq!(s.mesh.vertices[0].position.y, SCALE);
}

/// Refining the square once gives a two-by-two cell grid: nine distinct
/// vertices and eight triangles after the closing deduplication.
#[test]
fn square_subdivide_counts() {
    let mut s = Square::new(origin(), 2 * SCALE).unwrap();
    s.subdivide(1);
    assert_eq!(s.mesh.vertices.len(), 9);
    assert_eq!(s.mesh.indices.len(), 24);
    assert_eq!(s.mesh.indices.len() % 3, 0);
    assert_mesh_sound(&s.mesh);
}

#[test]
fn square_subdivide_zero_level() {
    let mut s = Square::new(origin(), 2 * SCALE).unwrap();
    s.subdivide(0);
    assert_eq!(s.mesh.vertices.len(), 4);
    assert_eq!(s.mesh.indices.len(), 6);
    assert_mesh_sound(&s.mesh);
}

#[test]
fn square_rejects_non_positive_size() {
    assert_eq!(Square::new(origin(), 0).err(), Some(GeometryError::InvalidParameter));
}

#[test]
fn cube_mesh_layout() {
    let c = Cube::new(origin(), 2 * SCALE).unwrap();
    assert_eq!(c.mesh.vertices.len(), 8);
    assert_eq!(c.mesh.indices.len(), 36);
    assert_eq!(c.mesh.indices.len() % 3, 0);
    assert_mesh_sound(&c.mesh);
    // the first corner carries black at (-1, 1, 1)
    assert_eq!(c.mesh.vertices[0].color, Color::black());
    assert_eq!(c.mesh.vertices[0].position.x, -SCALE);
    assert_eq!(c.mesh.vertices[0].position.y, SCALE);
    assert_eq!(c.mesh.vertices[0].position.z, SCALE);
    assert_eq!(c.mesh.vertices[7].color, Color::white());
}

#[test]
fn cube_subdivide_counts() {
    let mut c = Cube::new(origin(), 2 * SCALE).unwrap();
    c.subdivide(1);
    // six faces of a three-by-three vertex grid, not yet deduplicated
    assert_eq!(c.mesh.vertices.len(), 6 * 9);
    assert_eq!(c.mesh.indices.len(), 36 * 4);
    assert_eq!(c.mesh.indices.len() % 3, 0);
    assert_mesh_sound(&c.mesh);
}

/// After refinement, deduplication strictly reduces the vertex count: the
/// face seams coincide.
#[test]
fn cube_seams_collapse_under_dedup() {
    let mut c = Cube::new(origin(), 2 * SCALE).unwrap();
    c.subdivide(1);
    let before = c.mesh.vertices.len();
    assert_eq!(c.dedup(), Ok(()));
    assert!(c.mesh.vertices.len() < before);
    assert_eq!(c.mesh.indices.len(), 36 * 4);
    assert_mesh_sound(&c.mesh);
}

#[test]
fn cube_translate_moves_origin_and_mesh() {
    let mut c = Cube::new(origin(), 2 * SCALE).unwrap();
    c.translate(Position::new(SCALE, 0, 0, 0));
    assert_eq!(c.origin.x, SCALE);
    assert_eq!(c.mesh.vertices[0].position.x, 0);
}

#[test]
fn cube_rotate_quarter_turn() {
    let mut c = Cube::new(origin(), 2 * SCALE).unwrap();
    let axis = Position::new(0, 0, SCALE, 0);
    assert_eq!(c.rotate(SCALE, 0, axis), Ok(()));
    // the black corner at (-1, 1, 1) moves to (-1, -1, 1)
    assert_eq!(c.mesh.vertices[0].position.x, -SCALE);
    assert_eq!(c.mesh.vertices[0].position.y, -SCALE);
    assert_eq!(c.mesh.vertices[0].position.z, SCALE);
}

#[test]
fn line_ribbon_counts() {
    let start = Vertex::new(Position::new(0, 0, 0, SCALE), Color::blue(), Normal::new(0, 0, SCALE));
    let end = Vertex::new(
        Position::new(10 * SCALE, 0, 0, SCALE),
        Color::red(),
        Normal::new(0, 0, SCALE),
    );
    let l = Line::new(start, end, SCALE / 4, 4).unwrap();
    assert_eq!(l.mesh.vertices.len(), 10);
    assert_eq!(l.mesh.indices.len(), 24);
    assert_eq!(l.mesh.indices.len() % 3, 0);
    assert_mesh_sound(&l.mesh);
    // colors run from the start color to the end color
    assert_eq!(l.mesh.vertices[0].color, Color::blue());
    assert_eq!(l.mesh.vertices[9].color, Color::red());
}

#[test]
fn line_rejects_bad_parameters() {
    let start = Vertex::new(Position::new(0, 0, 0, SCALE), Color::blue(), Normal::new(0, 0, SCALE));
    let end = Vertex::new(
        Position::new(SCALE, 0, 0, SCALE),
        Color::blue(),
        Normal::new(0, 0, SCALE),
    );
    assert_eq!(
        Line::new(start, end, 0, 4).err(),
        Some(GeometryError::InvalidParameter)
    );
    assert_eq!(
        Line::new(start, end, SCALE, 0).err(),
        Some(GeometryError::InvalidParameter)
    );
    assert_eq!(
        Line::new(start, start, SCALE, 4).err(),
        Some(GeometryError::DegenerateGeometry)
    );
}

#[test]
fn ring_counts_and_errors() {
    let r = Ring::new(origin(), 2 * SCALE, SCALE / 2, 8, Color::teal()).unwrap();
    assert_eq!(r.mesh.vertices.len(), 16);
    assert_eq!(r.mesh.indices.len(), 48);
    assert_eq!(r.mesh.indices.len() % 3, 0);
    assert_mesh_sound(&r.mesh);
    // the first quad spans the first two vertex pairs
    assert_eq!(&r.mesh.indices[..6], &[0, 2, 1, 1, 2, 3]);
    // the last quad closes the loop against the first pair
    assert_eq!(&r.mesh.indices[42..], &[14, 0, 15, 15, 0, 1]);
    for v in r.mesh.vertices.iter() {
        assert_eq!(v.color, Color::teal());
    }
    // the first outer vertex sits at the radius plus half the thickness
    assert_eq!(r.mesh.vertices[0].position.x, 2 * SCALE + SCALE / 4);

    assert_eq!(
        Ring::new(origin(), 2 * SCALE, SCALE, 0, Color::teal()).err(),
        Some(GeometryError::InvalidParameter)
    );
    assert_eq!(
        Ring::new(origin(), 0, SCALE, 8, Color::teal()).err(),
        Some(GeometryError::InvalidParameter)
    );
}

#[test]
fn uv_sphere_counts() {
    let s = Spherical::sphere(2 * SCALE, origin(), Sphere::UVSphere).unwrap();
    assert_eq!(s.mesh.vertices.len(), 33 * 33);
    assert_eq!(s.mesh.indices.len(), 32 * 32 * 6);
    assert_eq!(s.mesh.indices.len() % 3, 0);
    assert_mesh_sound(&s.mesh);
    // the pole sits straight above the origin at the radius
    assert_eq!(s.mesh.vertices[0].position.z, 2 * SCALE);
    assert_eq!(s.mesh.vertices[0].position.x, 0);
}

#[test]
fn icosahedron_counts() {
    let s = Spherical::sphere(SCALE, origin(), Sphere::Icosahedron).unwrap();
    assert_eq!(s.mesh.vertices.len(), 12);
    assert_eq!(s.mesh.indices.len(), 60);
    assert_eq!(s.mesh.indices.len() % 3, 0);
    assert_mesh_sound(&s.mesh);
    // the golden ratio appears as the long side of each rectangle
    let golden = s.mesh.vertices[0].position.y;
    assert!((golden as f64 / SCALE as f64 - 1.618).abs() < 0.001);
    assert_eq!(s.mesh.vertices[0].position.x, -SCALE);
}

#[test]
fn spherified_cube_counts() {
    let s = Spherical::sphere(SCALE, origin(), Sphere::SpherifiedCube).unwrap();
    assert_eq!(s.mesh.vertices.len(), 384);
    assert_eq!(s.mesh.indices.len(), 1764);
    assert_eq!(s.mesh.indices.len() % 3, 0);
    assert_mesh_sound(&s.mesh);
}

#[test]
fn sphere_subdivide_is_unsupported() {
    let mut s = Spherical::sphere(SCALE, origin(), Sphere::UVSphere).unwrap();
    let before = s.mesh.vertices.len();
    assert_eq!(s.subdivide(2), Err(GeometryError::Unsupported));
    assert_eq!(s.mesh.vertices.len(), before);
}

#[test]
fn sphere_rejects_non_positive_radius() {
    assert_eq!(
        Spherical::sphere(0, origin(), Sphere::UVSphere).err(),
        Some(GeometryError::InvalidParameter)
    );
}

#[test]
fn geometry_dispatch() {
    let mut g = Geometry::new(origin(), 2 * SCALE, Shape::Cube).unwrap();
    assert_eq!(g.vertex_len(), 8);
    assert_eq!(g.index_len(), 36);
    assert_eq!(g.vertices().len(), 8);
    assert_eq!(g.indices().len(), 36);
    assert_eq!(g.mesh().vertices.len(), 8);
    assert_eq!(g.subdivide(1), Ok(()));
    assert_eq!(g.vertex_len(), 54);
    assert_eq!(g.dedup(), Ok(()));
    assert!(g.vertex_len() < 54);
    assert_mesh_sound(g.mesh());
}

#[test]
fn geometry_shapes_and_errors() {
    assert_eq!(g_len(Shape::Triangle), 3);
    assert_eq!(g_len(Shape::Square), 4);
    assert_eq!(g_len(Shape::Cube), 8);
    assert_eq!(g_len(Shape::Sphere), 1089);
    assert_eq!(
        Geometry::new(origin(), 0, Shape::Cube).err(),
        Some(GeometryError::InvalidParameter)
    );
    let mut sphere = Geometry::new(origin(), SCALE, Shape::Sphere).unwrap();
    assert_eq!(sphere.subdivide(1), Err(GeometryError::Unsupported));
}

fn g_len(shape: Shape) -> usize {
    Geometry::new(origin(), SCALE, shape).unwrap().vertex_len()
}

#[test]
fn geometry_rotate_dispatches() {
    let mut g = Geometry::new(origin(), 2 * SCALE, Shape::Square).unwrap();
    let axis = Position::new(0, 0, SCALE, 0);
    assert_eq!(g.rotate(SCALE, 0, axis), Ok(()));
    // the black corner at (-1, 1, z) turns to (-1, -1, z)
    assert_eq!(g.vertices()[0].position.x, -SCALE);
    assert_eq!(g.vertices()[0].position.y, -SCALE);
    let zero_axis = Position::new(0, 0, 0, 0);
    assert_eq!(g.rotate(SCALE, 0, zero_axis), Err(GeometryError::DegenerateGeometry));
}

/// The shared trait serves every shape through one generic function.
#[test]
fn geometric_trait_uniform_access() {
    fn checked_len<G: Geometric>(origin: Position, size: i64) -> (usize, usize) {
        let mut g = G::new(origin, size).unwrap();
        assert_eq!(g.vertex_len(), g.vertices().len());
        assert_eq!(g.index_len(), g.indices().len());
        assert_eq!(g.mesh().vertices.len(), g.vertex_len());
        assert_eq!(g.dedup(), Ok(()));
        (g.vertex_len(), g.index_len())
    }

    assert_eq!(checked_len::<Triangle>(origin(), SCALE), (3, 3));
    assert_eq!(checked_len::<Cube>(origin(), SCALE), (8, 36));
    assert_eq!(checked_len::<Spherical>(origin(), SCALE).1, 6144);

    let mut sq = <Square as Geometric>::new(origin(), 2 * SCALE).unwrap();
    let axis = Position::new(0, 0, SCALE, 0);
    assert_eq!(Geometric::rotate(&mut sq, SCALE, 0, axis), Ok(()));
    assert_eq!(sq.mesh.vertices[0].position.y, -SCALE);
}
