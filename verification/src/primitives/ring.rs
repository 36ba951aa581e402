//! An annulus: two concentric point rings at the radius plus and minus half
//! the thickness, swept around the z axis in equal angular steps, with two
//! triangles between consecutive vertex pairs, closed around the loop.

use vstd::prelude::*;

use vstd::pervasive::VecAdditionalExecFns;

use crate::color::{col_in_range, Color};
use crate::mesh::{mesh_valid, Mesh};
use crate::normal::Normal;
use crate::position::{
    length_of, pos_in_range, rotatable, rotated_x, rotated_y, rotated_z, Position, ROT_LIMIT,
};
use crate::scalar::{abs_i, fdiv, in_coord_range, SCALE};
use crate::trig::{cos_fx, sin_approx, sin_fx, HALF_PI_FX, TWO_PI_FX};
use crate::vertex::{tri_normal_x, tri_normal_y, tri_normal_z, triangle_normal, Vertex};
use crate::GeometryError;

verus! {

pub struct Ring {
    pub center: Position,
    pub radius: i64,
    pub thickness: i64,
    pub subdivision: u32,
    pub color: Color,
    pub mesh: Mesh,
}

/// The center, radius and thickness are small enough for the sweep
/// arithmetic.
pub open spec fn ring_fits(center: Position, radius: int, thickness: int) -> bool {
    &&& abs_i(center.x as int) <= (ROT_LIMIT as int) / 2
    &&& abs_i(center.y as int) <= (ROT_LIMIT as int) / 2
    &&& abs_i(center.z as int) <= (ROT_LIMIT as int) / 2
    &&& in_coord_range(center.w as int)
    &&& radius <= (ROT_LIMIT as int) / 4
    &&& thickness <= (ROT_LIMIT as int) / 4
}

/// The sweep axis: world z as a direction.
pub open spec fn ring_axis() -> Position {
    Position { x: 0, y: 0, z: SCALE, w: 0 }
}

/// The two seed points: on the positive x side of the center, at the radius
/// plus and minus half the thickness.
pub open spec fn ring_base(center: Position, radius: int, thickness: int, outer: bool) -> Position {
    let half = fdiv(thickness, 2 * SCALE as int);
    if outer {
        Position {
            x: (center.x + radius + half) as i64,
            y: center.y,
            z: center.z,
            w: SCALE,
        }
    } else {
        Position {
            x: (center.x + radius - half) as i64,
            y: center.y,
            z: center.z,
            w: SCALE,
        }
    }
}

/// The sine of `i` angular steps out of `n`.
pub open spec fn ring_sin(i: int, n: int) -> int {
    sin_approx(i * ((TWO_PI_FX as int) / n))
}

/// The cosine of `i` angular steps out of `n`.
pub open spec fn ring_cos(i: int, n: int) -> int {
    sin_approx(i * ((TWO_PI_FX as int) / n) + HALF_PI_FX as int)
}

/// Ring point `i` of `n` on the outer or inner circle: the seed point
/// rotated about the center by `i` angular steps.
#[verifier::opaque]
pub open spec fn ring_point(
    center: Position,
    radius: int,
    thickness: int,
    outer: bool,
    i: int,
    n: int,
) -> Position {
    let base = ring_base(center, radius, thickness, outer);
    if i == 0 {
        base
    } else {
        Position {
            x: rotated_x(base, ring_sin(i, n), ring_cos(i, n), center, ring_axis()) as i64,
            y: rotated_y(base, ring_sin(i, n), ring_cos(i, n), center, ring_axis()) as i64,
            z: rotated_z(base, ring_sin(i, n), ring_cos(i, n), center, ring_axis()) as i64,
            w: base.w,
        }
    }
}

/// The normal stored with ring vertex `q`: each pair keeps the surface
/// normal of the segment arriving at it, and the first pair is patched to
/// close the loop against the last pair.
#[verifier::opaque]
pub open spec fn ring_normal(
    center: Position,
    radius: int,
    thickness: int,
    q: int,
    n: int,
) -> Normal {
    let i = q / 2;
    let p1 = ring_point(center, radius, thickness, true, i, n);
    let p2 = ring_point(center, radius, thickness, false, i, n);
    let q1 = ring_point(center, radius, thickness, true, (if i == 0 { n - 1 } else { i - 1 }), n);
    let q2 = ring_point(center, radius, thickness, false, (if i == 0 { n - 1 } else { i - 1 }), n);
    if q % 2 == 0 {
        Normal {
            x: tri_normal_x(q1, p1, p2) as i64,
            y: tri_normal_y(q1, p1, p2) as i64,
            z: tri_normal_z(q1, p1, p2) as i64,
        }
    } else {
        Normal {
            x: tri_normal_x(q2, p2, p1) as i64,
            y: tri_normal_y(q2, p2, p1) as i64,
            z: tri_normal_z(q2, p2, p1) as i64,
        }
    }
}

/// The ring vertices: one outer and one inner vertex per step, all in the
/// given color.
#[verifier::opaque]
pub open spec fn ring_verts(
    center: Position,
    radius: int,
    thickness: int,
    n: int,
    color: Color,
) -> Seq<Vertex> {
    Seq::new(
        ((2 * n) as nat),
        |q: int|
            Vertex {
                position: ring_point(center, radius, thickness, q % 2 == 0, q / 2, n),
                color,
                normal: ring_normal(center, radius, thickness, q, n),
            },
    )
}

/// Entry `q` of the ring index list: one quad of two triangles between each
/// vertex pair and the next, the last pair closing against the first.
pub open spec fn ring_index_at(q: int, n: int) -> int {
    let step = q / 6;
    let r = q % 6;
    let b = 2 * step;
    let nx = if step == n - 1 {
        0
    } else {
        b + 2
    };
    if r == 0 {
        b
    } else if r == 1 {
        nx
    } else if r == 2 {
        b + 1
    } else if r == 3 {
        b + 1
    } else if r == 4 {
        nx
    } else {
        nx + 1
    }
}

pub open spec fn ring_indices(n: int) -> Seq<u16> {
    Seq::new(((6 * n) as nat), |q: int| ring_index_at(q, n) as u16)
}

impl Ring {
    /// A ring primitive holding its generated mesh and its parameters.
    pub fn new(center: Position, radius: i64, thickness: i64, subdivision: u32, color: Color) -> (r:
        Result<Self, GeometryError>)
        requires
            ring_fits(center, radius as int, thickness as int),
            col_in_range(color),
        ensures
            radius <= 0 || thickness <= 0 || subdivision == 0 || subdivision > 32766 <==> r
                == Err::<Ring, GeometryError>(GeometryError::InvalidParameter),
            match r {
                Ok(g) => {
                    &&& g.mesh.vertices@ == ring_verts(
                        center,
                        radius as int,
                        thickness as int,
                        subdivision as int,
                        color,
                    )
                    &&& g.mesh.indices@ == ring_indices(subdivision as int)
                    &&& g.mesh.indices@.len() == 6 * subdivision as int
                    &&& g.mesh.indices@.len() % 3 == 0
                    &&& mesh_valid(g.mesh)
                    &&& g.center == center
                    &&& g.radius == radius
                    &&& g.thickness == thickness
                    &&& g.subdivision == subdivision
                    &&& g.color == color
                },
                Err(e) => e == GeometryError::InvalidParameter,
            },
    {
        match Self::ring(center, radius, thickness, subdivision, color) {
            Ok(mesh) => Ok(Self { center, radius, thickness, subdivision, color, mesh }),
            Err(e) => Err(e),
        }
    }

    /// The ring mesh: `subdivision` outer/inner vertex pairs swept around
    /// the center, with two triangles between consecutive pairs and the loop
    /// closed back to the first pair.  A non-positive radius or thickness,
    /// or an unusable step count, is rejected.
    #[verifier::rlimit(100)]
    pub fn ring(center: Position, radius: i64, thickness: i64, subdivision: u32, color: Color) -> (
        r: Result<Mesh, GeometryError>)
        requires
            ring_fits(center, radius as int, thickness as int),
            col_in_range(color),
        ensures
            radius <= 0 || thickness <= 0 || subdivision == 0 || subdivision > 32766 <==> r
                == Err::<Mesh, GeometryError>(GeometryError::InvalidParameter),
            match r {
                Ok(m) => {
                    &&& m.vertices@ == ring_verts(
                        center,
                        radius as int,
                        thickness as int,
                        subdivision as int,
                        color,
                    )
                    &&& m.vertices@.len() == 2 * subdivision as int
                    &&& m.indices@ == ring_indices(subdivision as int)
                    &&& m.indices@.len() == 6 * subdivision as int
                    &&& m.indices@.len() % 3 == 0
                    &&& mesh_valid(m)
                },
                Err(e) => e == GeometryError::InvalidParameter,
            },
    {
        if radius <= 0 || thickness <= 0 || subdivision == 0 || subdivision > 32766 {
            return Err(GeometryError::InvalidParameter);
        }
        let n = subdivision as usize;
        let step: i64 = (6588398u64 / (n as u64)) as i64;
        proof {
            assert(step == (TWO_PI_FX as int) / (subdivision as int));
            assert(0 <= step <= 6588398);
            crate::position::lemma_fdiv_fits(thickness as int, 2 * SCALE as int);
            lemma_ring_half_bound(thickness as int);
        }
        let half = crate::scalar::fx_div(thickness, 2 * SCALE);
        let p1 = Position::new(center.x + radius + half, center.y, center.z, SCALE);
        let p2 = Position::new(center.x + radius - half, center.y, center.z, SCALE);
        proof {
            assert(p1 == ring_base(center, radius as int, thickness as int, true));
            assert(p2 == ring_base(center, radius as int, thickness as int, false));
            assert(p1 == ring_point(center, radius as int, thickness as int, true, 0, subdivision as int)
                && p2 == ring_point(center, radius as int, thickness as int, false, 0, subdivision as int)) by {
                reveal(ring_point);
            }
            assert(rotatable(p1));
            assert(rotatable(p2));
            assert(rotatable(center));
            assert(pos_in_range(ring_axis()));
            assert(length_of(ring_axis()) > 0) by {
                lemma_ring_axis_length();
            }
        }
        let axis = Position::new(0, 0, SCALE, 0);
        let mut vertices: Vec<Vertex> = Vec::new();
        let n0 = triangle_normal(center, p1, p2);
        let n1 = triangle_normal(center, p2, p1);
        vertices.push(Vertex::new(p1, color, n0));
        vertices.push(Vertex::new(p2, color, n1));
        let mut prev_p1 = p1;
        let mut prev_p2 = p2;
        let mut i: usize = 1;
        while i < n
            invariant
                1 <= n <= 32766,
                1 <= i <= n,
                subdivision as int == n as int,
                step == (TWO_PI_FX as int) / (n as int),
                0 <= step <= 6588398,
                ring_fits(center, radius as int, thickness as int),
                col_in_range(color),
                radius > 0,
                thickness > 0,
                p1 == ring_base(center, radius as int, thickness as int, true),
                p2 == ring_base(center, radius as int, thickness as int, false),
                axis == ring_axis(),
                rotatable(p1),
                rotatable(p2),
                rotatable(center),
                length_of(ring_axis()) > 0,
                prev_p1 == ring_point(center, radius as int, thickness as int, true, i - 1, n as int),
                prev_p2 == ring_point(
                    center,
                    radius as int,
                    thickness as int,
                    false,
                    i - 1,
                    n as int,
                ),
                pos_in_range(prev_p1),
                pos_in_range(prev_p2),
                vertices@.len() == 2 * i,
                forall|q: int|
                    2 <= q < vertices@.len() ==> (#[trigger] vertices@[q]).position == ring_point(
                        center,
                        radius as int,
                        thickness as int,
                        q % 2 == 0,
                        q / 2,
                        n as int,
                    ) && vertices@[q].color == color && vertices@[q].normal == ring_normal(
                        center,
                        radius as int,
                        thickness as int,
                        q,
                        n as int,
                    ),
                vertices@[0].position == ring_point(
                    center,
                    radius as int,
                    thickness as int,
                    true,
                    0,
                    n as int,
                ),
                vertices@[0].color == color,
                vertices@[1].position == ring_point(
                    center,
                    radius as int,
                    thickness as int,
                    false,
                    0,
                    n as int,
                ),
                vertices@[1].color == color,
            decreases n - i,
        {
            proof {
                assert(0 <= (i as int) * step <= 6588398 * 32766) by (nonlinear_arith)
                    requires
                        0 <= step <= 6588398,
                        0 <= i as int <= 32766,
                ;
            }
            let angle: i64 = (i as i64) * step;
            let sin_a = sin_fx(angle);
            let cos_a = cos_fx(angle);
            let next_p1 = match p1.rotate(sin_a, cos_a, center, axis) {
                Ok(q) => q,
                Err(_) => {
                    proof {
                        assert(false);
                    }
                    p1
                },
            };
            let next_p2 = match p2.rotate(sin_a, cos_a, center, axis) {
                Ok(q) => q,
                Err(_) => {
                    proof {
                        assert(false);
                    }
                    p2
                },
            };
            proof {
                assert(next_p1 == ring_point(
                    center,
                    radius as int,
                    thickness as int,
                    true,
                    i as int,
                    n as int,
                ) && next_p2 == ring_point(
                    center,
                    radius as int,
                    thickness as int,
                    false,
                    i as int,
                    n as int,
                )) by {
                    reveal(ring_point);
                }
                vstd::arithmetic::div_mod::lemma_fundamental_div_mod_converse_div(
                    2 * i as int,
                    2,
                    i as int,
                    0,
                );
                vstd::arithmetic::div_mod::lemma_fundamental_div_mod_converse_mod(
                    2 * i as int,
                    2,
                    i as int,
                    0,
                );
                vstd::arithmetic::div_mod::lemma_fundamental_div_mod_converse_div(
                    2 * i as int + 1,
                    2,
                    i as int,
                    1,
                );
                vstd::arithmetic::div_mod::lemma_fundamental_div_mod_converse_mod(
                    2 * i as int + 1,
                    2,
                    i as int,
                    1,
                );
            }
            let normal1 = triangle_normal(prev_p1, next_p1, next_p2);
            let normal2 = triangle_normal(prev_p2, next_p2, next_p1);
            vertices.push(Vertex::new(next_p1, color, normal1));
            vertices.push(Vertex::new(next_p2, color, normal2));
            proof {
                assert(vertices@[2 * i as int].position == ring_point(
                    center,
                    radius as int,
                    thickness as int,
                    true,
                    i as int,
                    n as int,
                ));
                assert(vertices@[2 * i as int].normal == ring_normal(
                    center,
                    radius as int,
                    thickness as int,
                    2 * i as int,
                    n as int,
                )) by {
                    reveal(ring_normal);
                }
                assert(vertices@[2 * i as int + 1].position == ring_point(
                    center,
                    radius as int,
                    thickness as int,
                    false,
                    i as int,
                    n as int,
                ));
                assert(vertices@[2 * i as int + 1].normal == ring_normal(
                    center,
                    radius as int,
                    thickness as int,
                    2 * i as int + 1,
                    n as int,
                )) by {
                    reveal(ring_normal);
                }
            }
            prev_p1 = next_p1;
            prev_p2 = next_p2;
            i += 1;
        }
        // close the loop: the first pair's normals face the last pair
        let last_p1 = vertices[2 * n - 2].position;
        let last_p2 = vertices[2 * n - 1].position;
        proof {
            if n > 1 {
                vstd::arithmetic::div_mod::lemma_fundamental_div_mod_converse_div(
                    2 * (n as int) - 2,
                    2,
                    n as int - 1,
                    0,
                );
                vstd::arithmetic::div_mod::lemma_fundamental_div_mod_converse_mod(
                    2 * (n as int) - 2,
                    2,
                    n as int - 1,
                    0,
                );
                vstd::arithmetic::div_mod::lemma_fundamental_div_mod_converse_div(
                    2 * (n as int) - 1,
                    2,
                    n as int - 1,
                    1,
                );
                vstd::arithmetic::div_mod::lemma_fundamental_div_mod_converse_mod(
                    2 * (n as int) - 1,
                    2,
                    n as int - 1,
                    1,
                );
            }
            assert(last_p1 == ring_point(
                center,
                radius as int,
                thickness as int,
                true,
                n as int - 1,
                n as int,
            ));
            assert(last_p2 == ring_point(
                center,
                radius as int,
                thickness as int,
                false,
                n as int - 1,
                n as int,
            ));
            assert(pos_in_range(last_p1));
            assert(pos_in_range(last_p2));
        }
        let first_p1 = vertices[0].position;
        let first_p2 = vertices[1].position;
        let closed_n0 = triangle_normal(last_p1, first_p1, first_p2);
        let closed_n1 = triangle_normal(last_p2, first_p2, first_p1);
        let mut v0 = vertices[0];
        v0.normal = closed_n0;
        vertices.set(0, v0);
        let mut v1 = vertices[1];
        v1.normal = closed_n1;
        vertices.set(1, v1);
        proof {
            vstd::arithmetic::div_mod::lemma_fundamental_div_mod_converse_div(0, 2, 0, 0);
            vstd::arithmetic::div_mod::lemma_fundamental_div_mod_converse_mod(0, 2, 0, 0);
            vstd::arithmetic::div_mod::lemma_fundamental_div_mod_converse_div(1, 2, 0, 1);
            vstd::arithmetic::div_mod::lemma_fundamental_div_mod_converse_mod(1, 2, 0, 1);
            reveal(ring_verts);
            reveal(ring_normal);
            let rverts = ring_verts(
                center,
                radius as int,
                thickness as int,
                subdivision as int,
                color,
            );
            assert(vertices@[0] == rverts[0]);
            assert(vertices@[1] == rverts[1]);
            assert forall|q: int| 2 <= q < 2 * (n as int) implies vertices@[q] == rverts[q] by {
                assert(rverts[q] == (Vertex {
                    position: ring_point(
                        center,
                        radius as int,
                        thickness as int,
                        q % 2 == 0,
                        q / 2,
                        n as int,
                    ),
                    color,
                    normal: ring_normal(center, radius as int, thickness as int, q, n as int),
                }));
            }
            assert(vertices@ =~= rverts);
        }
        let mut indices: Vec<u16> = Vec::new();
        let mut k: usize = 0;
        while k < n
            invariant
                1 <= n <= 32766,
                0 <= k <= n,
                indices@.len() == 6 * k,
                forall|q: int|
                    0 <= q < indices@.len() ==> (#[trigger] indices@[q]) as int == ring_index_at(
                        q,
                        n as int,
                    ),
            decreases n - k,
        {
            let b: u16 = (2 * k) as u16;
            let nx: u16 = if k == n - 1 {
                0
            } else {
                b + 2
            };
            proof {
                lemma_ring_cell_entries(k as int, n as int);
            }
            indices.push(b);
            indices.push(nx);
            indices.push(b + 1);
            indices.push(b + 1);
            indices.push(nx);
            indices.push(nx + 1);
            k += 1;
        }
        proof {
            assert(indices@ =~= ring_indices(subdivision as int));
            assert(6 * n as int == 3 * (2 * n as int) + 0);
            vstd::arithmetic::div_mod::lemma_fundamental_div_mod_converse_mod(
                6 * n as int,
                3,
                2 * n as int,
                0,
            );
            assert forall|q: int| 0 <= q < indices@.len() implies (#[trigger] indices@[q] as int)
                < 2 * (n as int) by {
                lemma_ring_entry_bounds(n as int, q);
            }
        }
        Ok(Mesh::new(vertices, indices))
    }
}

/// The six index entries of ring step `k`: the quad between pair `k` and
/// the following pair, wrapping at the last step.
proof fn lemma_ring_cell_entries(k: int, n: int)
    requires
        1 <= n,
        0 <= k < n,
    ensures
        ({
            let b = 2 * k;
            let nx = if k == n - 1 {
                0int
            } else {
                b + 2
            };
            &&& ring_index_at(6 * k, n) == b
            &&& ring_index_at(6 * k + 1, n) == nx
            &&& ring_index_at(6 * k + 2, n) == b + 1
            &&& ring_index_at(6 * k + 3, n) == b + 1
            &&& ring_index_at(6 * k + 4, n) == nx
            &&& ring_index_at(6 * k + 5, n) == nx + 1
        }),
{
    vstd::arithmetic::div_mod::lemma_fundamental_div_mod_converse_div(6 * k + 0, 6, k, 0);
    vstd::arithmetic::div_mod::lemma_fundamental_div_mod_converse_mod(6 * k + 0, 6, k, 0);
    vstd::arithmetic::div_mod::lemma_fundamental_div_mod_converse_div(6 * k + 1, 6, k, 1);
    vstd::arithmetic::div_mod::lemma_fundamental_div_mod_converse_mod(6 * k + 1, 6, k, 1);
    vstd::arithmetic::div_mod::lemma_fundamental_div_mod_converse_div(6 * k + 2, 6, k, 2);
    vstd::arithmetic::div_mod::lemma_fundamental_div_mod_converse_mod(6 * k + 2, 6, k, 2);
    vstd::arithmetic::div_mod::lemma_fundamental_div_mod_converse_div(6 * k + 3, 6, k, 3);
    vstd::arithmetic::div_mod::lemma_fundamental_div_mod_converse_mod(6 * k + 3, 6, k, 3);
    vstd::arithmetic::div_mod::lemma_fundamental_div_mod_converse_div(6 * k + 4, 6, k, 4);
    vstd::arithmetic::div_mod::lemma_fundamental_div_mod_converse_mod(6 * k + 4, 6, k, 4);
    vstd::arithmetic::div_mod::lemma_fundamental_div_mod_converse_div(6 * k + 5, 6, k, 5);
    vstd::arithmetic::div_mod::lemma_fundamental_div_mod_converse_mod(6 * k + 5, 6, k, 5);
}

/// Every ring index points inside the ring vertex list.
proof fn lemma_ring_entry_bounds(n: int, q: int)
    requires
        1 <= n,
        0 <= q < 6 * n,
    ensures
        0 <= ring_index_at(q, n) < 2 * n,
{
    vstd::arithmetic::div_mod::lemma_fundamental_div_mod(q, 6);
    vstd::arithmetic::div_mod::lemma_mod_division_less_than_divisor(q, 6);
    let step = q / 6;
    assert(0 <= step < n) by (nonlinear_arith)
        requires
            q == 6 * step + q % 6,
            0 <= q % 6 < 6,
            0 <= q < 6 * n,
    ;
}

/// Half of a bounded thickness stays within a quarter of the rotation
/// range.
proof fn lemma_ring_half_bound(thickness: int)
    requires
        0 < thickness <= (ROT_LIMIT as int) / 4,
    ensures
        0 <= fdiv(thickness, 2 * SCALE as int) <= (ROT_LIMIT as int) / 4,
{
    crate::scalar::lemma_div_trunc_mag(thickness * (SCALE as int), 2 * SCALE as int);
    assert(abs_i(thickness * (SCALE as int)) == abs_i(thickness) * (SCALE as int))
        by (nonlinear_arith)
        requires
            SCALE as int > 0,
    ;
    assert(thickness * (SCALE as int) >= 0) by (nonlinear_arith)
        requires
            thickness > 0,
            SCALE as int > 0,
    ;
    crate::scalar::lemma_fmul_nonneg(thickness, SCALE as int);
    assert(fdiv(thickness, 2 * SCALE as int) >= 0) by {
        if thickness * (SCALE as int) > 0 {
            assert(fdiv(thickness, 2 * SCALE as int) == (thickness * (SCALE as int)) / (2
                * SCALE as int));
            assert((thickness * (SCALE as int)) / (2 * SCALE as int) >= 0) by (nonlinear_arith)
                requires
                    thickness * (SCALE as int) > 0,
                    SCALE as int > 0,
            ;
        }
    }
    assert(fdiv(thickness, 2 * SCALE as int) <= (ROT_LIMIT as int) / 4) by (nonlinear_arith)
        requires
            abs_i(fdiv(thickness, 2 * SCALE as int)) * (2 * SCALE as int) <= abs_i(thickness) * (
            SCALE as int),
            0 < thickness <= (ROT_LIMIT as int) / 4,
            abs_i(thickness) == thickness,
            abs_i(fdiv(thickness, 2 * SCALE as int)) == fdiv(thickness, 2 * SCALE as int),
            SCALE as int == 1048576,
            ROT_LIMIT as int == 2147483648,
    ;
}

/// The sweep axis has a positive fixed-point length.
proof fn lemma_ring_axis_length()
    ensures
        length_of(ring_axis()) > 0,
        pos_in_range(ring_axis()),
{
    let a = ring_axis();
    crate::position::lemma_len_sq_nonneg(a);
    crate::scalar::lemma_fmul_one(SCALE as int);
    assert(crate::scalar::fmul(0, 0) == 0);
    assert(crate::position::len_sq(a) == SCALE as int);
    assert((SCALE as int) * (SCALE as int) >= 0) by (nonlinear_arith);
    crate::scalar::lemma_sqrt_floor_exists((SCALE as int) * (SCALE as int));
    let m = length_of(a);
    assert(m * m <= (SCALE as int) * (SCALE as int));
    assert((SCALE as int) * (SCALE as int) < (m + 1) * (m + 1));
    if m == 0 {
        assert((SCALE as int) * (SCALE as int) < 1) by (nonlinear_arith)
            requires
                (SCALE as int) * (SCALE as int) < (0 + 1) * (0 + 1),
        ;
        assert(false) by (nonlinear_arith)
            requires
                (SCALE as int) * (SCALE as int) < 1,
                SCALE as int == 1048576,
        ;
    }
}

} // verus!
