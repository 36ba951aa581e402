//! Mesh operations: the vector helpers, interpolation boundaries,
//! deduplication and concatenation.

use endless::color::Color;
use endless::mesh::Mesh;
use endless::normal::Normal;
use endless::position::Position;
use endless::scalar::{fx_mul, fx_sqrt, SCALE};
use endless::vertex::Vertex;
use endless::GeometryError;

fn vert(x: i64, y: i64, z: i64) -> Vertex {
    Vertex::new(Position::new(x, y, z, SCALE), Color::white(), Normal::new(0, 0, SCALE))
}

#[test]
fn fixed_point_products_and_roots() {
    assert_eq!(fx_mul(3 * SCALE, 2 * SCALE), 6 * SCALE);
    assert_eq!(fx_mul(SCALE / 2, SCALE / 2), SCALE / 4);
    assert_eq!(fx_mul(-3 * SCALE, 2 * SCALE), -6 * SCALE);
    assert_eq!(fx_sqrt(4 * SCALE), 2 * SCALE);
    assert_eq!(fx_sqrt(25 * SCALE), 5 * SCALE);
    assert_eq!(fx_sqrt(0), 0);
}

#[test]
fn distance_of_three_four_five_triangle() {
    let a = Position::new(3 * SCALE, 4 * SCALE, 0, SCALE);
    let b = Position::new(0, 0, 0, SCALE);
    assert_eq!(a.distance(b), 5 * SCALE);
    assert_eq!(Mesh::vertex_length(b, a), 5 * SCALE);
}

#[test]
fn direction_of_axis_aligned_segment() {
    let start = Position::new(0, 0, 0, SCALE);
    let end = Position::new(2 * SCALE, 0, 0, SCALE);
    let dir = Mesh::vertex_direction(start, end).unwrap();
    assert_eq!(dir.x, SCALE);
    assert_eq!(dir.y, 0);
    assert_eq!(dir.z, 0);
    assert_eq!(dir.w, 0);
}

#[test]
fn direction_of_coincident_points_is_degenerate() {
    let p = Position::new(SCALE, SCALE, 0, SCALE);
    assert_eq!(Mesh::vertex_direction(p, p), Err(GeometryError::DegenerateGeometry));
}

#[test]
fn dot_and_cross_products() {
    let a = Position::new(SCALE, 2 * SCALE, 3 * SCALE, SCALE);
    let b = Position::new(4 * SCALE, 5 * SCALE, 6 * SCALE, SCALE);
    assert_eq!(Mesh::dot_product(a, b), 32 * SCALE);

    let x = Position::new(SCALE, 0, 0, SCALE);
    let y = Position::new(0, SCALE, 0, SCALE);
    let c = Mesh::cross_product(x, y);
    assert_eq!(c.x, 0);
    assert_eq!(c.y, 0);
    assert_eq!(c.z, SCALE);
    assert_eq!(c.w, 0);
}

#[test]
fn triangle_surface_normal() {
    let a = Position::new(0, 0, 0, SCALE);
    let b = Position::new(SCALE, 0, 0, SCALE);
    let c = Position::new(0, SCALE, 0, SCALE);
    let n = Mesh::normalize(a, b, c);
    assert_eq!(n.x, 0);
    assert_eq!(n.y, 0);
    assert_eq!(n.z, SCALE);
}

#[test]
fn normalize_scales_to_unit_length() {
    let p = Position::new(3 * SCALE, 4 * SCALE, 0, SCALE);
    let n = p.normalize();
    // 3/5 and 4/5, truncated toward zero
    assert_eq!(n.x, 629145);
    assert_eq!(n.y, 838860);
    assert_eq!(n.z, 0);
}

#[test]
fn normalize_of_zero_is_identity() {
    let p = Position::new(0, 0, 0, SCALE);
    assert_eq!(p.normalize(), p);
}

/// Interpolation at the parameter boundaries returns the endpoints exactly,
/// on every component.
#[test]
fn interpolate_boundaries_exact() {
    let a = Position::new(123456, -789012, 345678, SCALE);
    let b = Position::new(-901234, 567890, -123456, 0);
    assert_eq!(a.interpolate(b, 0), a);
    assert_eq!(a.interpolate(b, SCALE), b);
}

#[test]
fn interpolate_midpoint() {
    let a = Position::new(0, 0, 0, SCALE);
    let b = Position::new(2 * SCALE, 4 * SCALE, -2 * SCALE, SCALE);
    let m = a.interpolate(b, SCALE / 2);
    assert_eq!(m.x, SCALE);
    assert_eq!(m.y, 2 * SCALE);
    assert_eq!(m.z, -SCALE);
    assert_eq!(m.w, SCALE);
}

#[test]
fn find_next_walks_along_direction() {
    let p = Position::new(SCALE, 0, 0, SCALE);
    let dir = Position::new(SCALE, 0, 0, 0);
    let q = p.find_next(dir, 3 * SCALE);
    assert_eq!(q.x, 4 * SCALE);
    assert_eq!(q.y, 0);
    assert_eq!(q.w, SCALE);
}

#[test]
fn dedup_collapses_repeated_vertices() {
    let v0 = vert(0, 0, 0);
    let v1 = vert(SCALE, 0, 0);
    // the same value appears twice in the vertex list
    let mut mesh = Mesh::new(vec![v0, v1, v0], vec![0, 1, 2, 2, 1, 0]);
    assert_eq!(mesh.dedup(), Ok(()));
    assert_eq!(mesh.vertices.len(), 2);
    assert_eq!(mesh.indices, vec![0, 1, 0, 0, 1, 0]);
}

/// Deduplicating twice yields the same vertex and index lists as once.
#[test]
fn dedup_is_idempotent() {
    let v0 = vert(0, 0, 0);
    let v1 = vert(SCALE, 0, 0);
    let v2 = vert(0, SCALE, 0);
    let mut mesh = Mesh::new(
        vec![v0, v1, v0, v2, v1],
        vec![4, 2, 3, 0, 1, 2, 3, 4, 0],
    );
    assert_eq!(mesh.dedup(), Ok(()));
    let vertices_once = mesh.vertices.clone();
    let indices_once = mesh.indices.clone();
    assert_eq!(mesh.dedup(), Ok(()));
    assert_eq!(mesh.vertices, vertices_once);
    assert_eq!(mesh.indices, indices_once);
}

#[test]
fn dedup_keeps_first_occurrence_order() {
    let v0 = vert(0, 0, 0);
    let v1 = vert(SCALE, 0, 0);
    let mut mesh = Mesh::new(vec![v0, v1], vec![1, 0, 1]);
    assert_eq!(mesh.dedup(), Ok(()));
    // the vertex referenced first is kept first
    assert_eq!(mesh.vertices, vec![v1, v0]);
    assert_eq!(mesh.indices, vec![0, 1, 0]);
}

#[test]
fn dedup_reports_out_of_range_index() {
    let v0 = vert(0, 0, 0);
    let mut mesh = Mesh::new(vec![v0], vec![0, 3]);
    assert_eq!(mesh.dedup(), Err(GeometryError::IndexOutOfRange));
    // the mesh is left unchanged
    assert_eq!(mesh.vertices.len(), 1);
    assert_eq!(mesh.indices, vec![0, 3]);
}

/// Concatenation shifts the second mesh's indices by the first mesh's
/// vertex count.
#[test]
fn merge_offsets_second_index_block() {
    let a = Mesh::new(
        vec![vert(0, 0, 0), vert(SCALE, 0, 0), vert(0, SCALE, 0), vert(SCALE, SCALE, 0)],
        vec![0, 1, 2],
    );
    let b = Mesh::new(
        vec![vert(0, 0, SCALE), vert(SCALE, 0, SCALE), vert(0, SCALE, SCALE)],
        vec![0, 1, 2],
    );
    let merged = a.merge(b);
    assert_eq!(merged.vertices.len(), 7);
    assert_eq!(merged.indices.len(), 6);
    // the last three indices point past the first mesh's vertices
    assert_eq!(&merged.indices[3..], &[4, 5, 6]);
}

#[test]
fn translate_moves_positions_only() {
    let mut mesh = Mesh::new(vec![vert(0, 0, 0), vert(SCALE, 0, 0)], vec![0, 1, 0]);
    mesh.translate(Position::new(SCALE, 2 * SCALE, 0, 0));
    assert_eq!(mesh.vertices[0].position.x, SCALE);
    assert_eq!(mesh.vertices[0].position.y, 2 * SCALE);
    assert_eq!(mesh.vertices[1].position.x, 2 * SCALE);
    assert_eq!(mesh.vertices[0].color, Color::white());
    assert_eq!(mesh.indices, vec![0, 1, 0]);
}

#[test]
fn mesh_rotate_turns_every_vertex() {
    let mut mesh = Mesh::new(vec![vert(SCALE, 0, 0), vert(2 * SCALE, 0, 0)], vec![0, 1, 0]);
    let axis = Position::new(0, 0, SCALE, 0);
    let origin = Position::new(0, 0, 0, SCALE);
    assert_eq!(mesh.rotate(axis, origin, SCALE, 0), Ok(()));
    assert_eq!(mesh.vertices[0].position.y, SCALE);
    assert_eq!(mesh.vertices[1].position.y, 2 * SCALE);
    assert_eq!(mesh.vertices[0].position.x, 0);
}

#[test]
fn vertex_length_and_cross() {
    let a = vert(0, 0, 0);
    let b = vert(3 * SCALE, 4 * SCALE, 0);
    assert_eq!(a.length(b), 5 * SCALE);

    let x = vert(SCALE, 0, 0);
    let y = vert(0, SCALE, 0);
    let c = x.cross(y);
    assert_eq!(c.position.z, SCALE);
    // white times white, halved
    assert_eq!(c.color.r, SCALE / 2);
}

#[test]
fn color_constants_and_alpha_levels() {
    assert_eq!(Color::black(), Color::new(0, 0, 0, SCALE));
    assert_eq!(Color::gold().g, 880804);
    assert_eq!(Color::silver().r, 786432);
    let mut c = Color::red();
    assert_eq!(c.transparent().a, 0);
    assert_eq!(c.semi_transparent().a, SCALE / 4);
    assert_eq!(c.translucent().a, SCALE / 2);
    assert_eq!(c.semi_opaque().a, 3 * SCALE / 4);
    assert_eq!(c.opaque().a, SCALE);
}

/// Every channel of a random color is inside the unit range, with full
/// alpha; the draw is not a fixed constant across many attempts.
#[test]
fn random_color_in_unit_range() {
    let mut varied = false;
    let first = Color::random();
    for _ in 0..32 {
        let c = Color::random();
        assert!(0 <= c.r && c.r < SCALE);
        assert!(0 <= c.g && c.g < SCALE);
        assert!(0 <= c.b && c.b < SCALE);
        assert_eq!(c.a, SCALE);
        if c.r != first.r || c.g != first.g || c.b != first.b {
            varied = true;
        }
    }
    assert!(varied);
}

#[test]
fn color_arithmetic() {
    let a = Color::new(SCALE, SCALE / 2, 0, SCALE);
    let b = Color::new(SCALE / 2, SCALE / 2, SCALE, SCALE);
    let sum = a.add(b);
    assert_eq!(sum.r, 3 * SCALE / 2);
    let prod = a.mul(b);
    assert_eq!(prod.r, SCALE / 2);
    assert_eq!(prod.g, SCALE / 4);
    let scaled = a.scale(2 * SCALE);
    assert_eq!(scaled.r, 2 * SCALE);
}
