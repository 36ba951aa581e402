//! A thick line segment rendered as a ribbon of quads: two rails offset
//! from the segment by half the thickness along a derived normal, stepped
//! with interpolated colors.

use vstd::prelude::*;

use vstd::arithmetic::div_mod::{
    lemma_fundamental_div_mod, lemma_fundamental_div_mod_converse_div,
    lemma_fundamental_div_mod_converse_mod, lemma_mod_division_less_than_divisor,
};

use crate::color::Color;
use crate::grid::{grid_weight, lemma_grid_weight};
use crate::mesh::{mesh_valid, Mesh};
use crate::normal::Normal;
use crate::position::{
    distance_of, lemma_fdiv_fits, lemma_unit_component_bound, len_sq, length_of, pos_in_range,
    Position,
};
use crate::scalar::{
    abs_i, fdiv, fits_i64, fmul, fx_lerp, lemma_fmul_bound_by, lemma_lerp_bound, lerp,
    COORD_LIMIT, SCALE,
};
use crate::vertex::{vert_in_range, Vertex};
use crate::GeometryError;

verus! {

pub struct Line {
    pub start_position: Position,
    pub end_position: Position,
    pub start_color: Color,
    pub end_color: Color,
    pub thickness: i64,
    pub subdivision: u32,
    pub mesh: Mesh,
}

/// Above this spatial-z magnitude of the unit direction, the world y axis
/// replaces the world z axis as the up reference, to keep the cross product
/// away from degeneracy.
pub const UP_SWITCH: i64 = 943718;

/// The endpoints and thickness are small enough for the rail arithmetic.
pub open spec fn line_fits(sp: Position, ep: Position, thickness: int) -> bool {
    &&& abs_i(sp.x as int) <= (COORD_LIMIT as int) / 2
    &&& abs_i(sp.y as int) <= (COORD_LIMIT as int) / 2
    &&& abs_i(sp.z as int) <= (COORD_LIMIT as int) / 2
    &&& abs_i(sp.w as int) <= (COORD_LIMIT as int) / 2
    &&& abs_i(ep.x as int) <= (COORD_LIMIT as int) / 2
    &&& abs_i(ep.y as int) <= (COORD_LIMIT as int) / 2
    &&& abs_i(ep.z as int) <= (COORD_LIMIT as int) / 2
    &&& abs_i(ep.w as int) <= (COORD_LIMIT as int) / 2
    &&& thickness <= (COORD_LIMIT as int) / 8
}

/// The unit direction from start to end, component `c` of it.
pub open spec fn line_dir(sp: Position, ep: Position) -> Position {
    let d = distance_of(ep, sp);
    Position {
        x: fdiv(ep.x - sp.x, d) as i64,
        y: fdiv(ep.y - sp.y, d) as i64,
        z: fdiv(ep.z - sp.z, d) as i64,
        w: fdiv(ep.w - sp.w, d) as i64,
    }
}

/// The up reference for the ribbon: world z, or world y when the direction
/// runs too close to world z.
pub open spec fn line_up(sp: Position, ep: Position) -> Position {
    if abs_i(line_dir(sp, ep).z as int) >= UP_SWITCH as int {
        Position { x: 0, y: SCALE, z: 0, w: 0 }
    } else {
        Position { x: 0, y: 0, z: SCALE, w: 0 }
    }
}

/// The normalized ribbon normal: direction crossed with the up reference,
/// divided by its own length (left as is when the length rounds to zero).
pub open spec fn line_normal(sp: Position, ep: Position) -> Position {
    let dir = line_dir(sp, ep);
    let up = line_up(sp, ep);
    let c = Position {
        x: (fmul(dir.y as int, up.z as int) - fmul(dir.z as int, up.y as int)) as i64,
        y: (fmul(dir.z as int, up.x as int) - fmul(dir.x as int, up.z as int)) as i64,
        z: (fmul(dir.x as int, up.y as int) - fmul(dir.y as int, up.x as int)) as i64,
        w: 0,
    };
    let m = length_of(c);
    if m == 0 {
        c
    } else {
        Position {
            x: fdiv(c.x as int, m) as i64,
            y: fdiv(c.y as int, m) as i64,
            z: fdiv(c.z as int, m) as i64,
            w: fdiv(c.w as int, m) as i64,
        }
    }
}

/// The rail offset: the ribbon normal scaled by half the thickness.
pub open spec fn line_offset(sp: Position, ep: Position, thickness: int) -> Position {
    let nn = line_normal(sp, ep);
    let half = fdiv(thickness, 2 * SCALE as int);
    Position {
        x: fmul(nn.x as int, half) as i64,
        y: fmul(nn.y as int, half) as i64,
        z: fmul(nn.z as int, half) as i64,
        w: fmul(nn.w as int, half) as i64,
    }
}

/// Component-wise linear interpolation of two positions.
pub open spec fn pos_lerp(a: Position, b: Position, t: int) -> Position {
    Position {
        x: lerp(a.x as int, b.x as int, t) as i64,
        y: lerp(a.y as int, b.y as int, t) as i64,
        z: lerp(a.z as int, b.z as int, t) as i64,
        w: lerp(a.w as int, b.w as int, t) as i64,
    }
}

/// Component-wise linear interpolation of two colors.
pub open spec fn col_lerp(a: Color, b: Color, t: int) -> Color {
    Color {
        r: lerp(a.r as int, b.r as int, t) as i64,
        g: lerp(a.g as int, b.g as int, t) as i64,
        b: lerp(a.b as int, b.b as int, t) as i64,
        a: lerp(a.a as int, b.a as int, t) as i64,
    }
}

/// The ribbon vertices: one rail pair per step, the positive rail first,
/// positions and colors interpolated along the segment, every vertex
/// carrying the ribbon normal.
pub open spec fn line_verts(sv: Vertex, ev: Vertex, thickness: int, n: int) -> Seq<Vertex> {
    let off = line_offset(sv.position, ev.position, thickness);
    let nn = line_normal(sv.position, ev.position);
    Seq::new(
        ((2 * (n + 1)) as nat),
        |q: int|
            {
                let s = q / 2;
                let t = grid_weight(s, n);
                let a = if q % 2 == 0 {
                    Position {
                        x: (sv.position.x + off.x) as i64,
                        y: (sv.position.y + off.y) as i64,
                        z: (sv.position.z + off.z) as i64,
                        w: (sv.position.w + off.w) as i64,
                    }
                } else {
                    Position {
                        x: (sv.position.x - off.x) as i64,
                        y: (sv.position.y - off.y) as i64,
                        z: (sv.position.z - off.z) as i64,
                        w: (sv.position.w - off.w) as i64,
                    }
                };
                let b = if q % 2 == 0 {
                    Position {
                        x: (ev.position.x + off.x) as i64,
                        y: (ev.position.y + off.y) as i64,
                        z: (ev.position.z + off.z) as i64,
                        w: (ev.position.w + off.w) as i64,
                    }
                } else {
                    Position {
                        x: (ev.position.x - off.x) as i64,
                        y: (ev.position.y - off.y) as i64,
                        z: (ev.position.z - off.z) as i64,
                        w: (ev.position.w - off.w) as i64,
                    }
                };
                Vertex {
                    position: pos_lerp(a, b, t),
                    color: col_lerp(sv.color, ev.color, t),
                    normal: Normal { x: nn.x, y: nn.y, z: nn.z },
                }
            },
    )
}

/// The ribbon indices: one quad of two triangles per step between
/// consecutive rail pairs.
pub open spec fn line_index_at(q: int) -> int {
    let step = q / 6;
    let r = q % 6;
    let base = 2 * step;
    if r == 0 {
        base
    } else if r == 1 {
        base + 2
    } else if r == 2 {
        base + 1
    } else if r == 3 {
        base + 1
    } else if r == 4 {
        base + 2
    } else {
        base + 3
    }
}

pub open spec fn line_indices(n: int) -> Seq<u16> {
    Seq::new(((6 * n) as nat), |q: int| line_index_at(q) as u16)
}

impl Line {
    /// A ribbon primitive holding its generated mesh and its parameters.
    pub fn new(start: Vertex, end: Vertex, thickness: i64, subdivision: u32) -> (r: Result<
        Self,
        GeometryError,
    >)
        requires
            line_fits(start.position, end.position, thickness as int),
            vert_in_range(start),
            vert_in_range(end),
        ensures
            thickness <= 0 || subdivision == 0 || subdivision > 32766 <==> r == Err::<
                Line,
                GeometryError,
            >(GeometryError::InvalidParameter),
            !(thickness <= 0 || subdivision == 0 || subdivision > 32766) && distance_of(
                end.position,
                start.position,
            ) == 0 <==> r == Err::<Line, GeometryError>(GeometryError::DegenerateGeometry),
            match r {
                Ok(l) => {
                    &&& l.mesh.vertices@ == line_verts(
                        start,
                        end,
                        thickness as int,
                        subdivision as int,
                    )
                    &&& l.mesh.indices@ == line_indices(subdivision as int)
                    &&& l.start_position == start.position
                    &&& l.end_position == end.position
                    &&& l.start_color == start.color
                    &&& l.end_color == end.color
                    &&& l.thickness == thickness
                    &&& l.subdivision == subdivision
                },
                Err(e) => e == GeometryError::InvalidParameter || e
                    == GeometryError::DegenerateGeometry,
            },
    {
        match Self::line(start, end, thickness, subdivision) {
            Ok(mesh) => Ok(
                Self {
                    start_position: start.position,
                    end_position: end.position,
                    start_color: start.color,
                    end_color: end.color,
                    thickness,
                    subdivision,
                    mesh,
                },
            ),
            Err(e) => Err(e),
        }
    }

    /// The ribbon mesh: a pair of rails offset by half the thickness along
    /// the derived normal, one quad per step.  A non-positive thickness or
    /// an unusable step count is rejected; coincident endpoints are
    /// degenerate.
    #[verifier::rlimit(100)]
    pub fn line(start_vertex: Vertex, end_vertex: Vertex, thickness: i64, subdivision: u32) -> (r:
        Result<Mesh, GeometryError>)
        requires
            line_fits(start_vertex.position, end_vertex.position, thickness as int),
            vert_in_range(start_vertex),
            vert_in_range(end_vertex),
        ensures
            thickness <= 0 || subdivision == 0 || subdivision > 32766 <==> r == Err::<
                Mesh,
                GeometryError,
            >(GeometryError::InvalidParameter),
            !(thickness <= 0 || subdivision == 0 || subdivision > 32766) && distance_of(
                end_vertex.position,
                start_vertex.position,
            ) == 0 <==> r == Err::<Mesh, GeometryError>(GeometryError::DegenerateGeometry),
            match r {
                Ok(m) => {
                    &&& m.vertices@ == line_verts(
                        start_vertex,
                        end_vertex,
                        thickness as int,
                        subdivision as int,
                    )
                    &&& m.vertices@.len() == 2 * (subdivision as int + 1)
                    &&& m.indices@ == line_indices(subdivision as int)
                    &&& m.indices@.len() == 6 * subdivision as int
                    &&& m.indices@.len() % 3 == 0
                    &&& mesh_valid(m)
                },
                Err(e) => e == GeometryError::InvalidParameter || e
                    == GeometryError::DegenerateGeometry,
            },
    {
        if thickness <= 0 || subdivision == 0 || subdivision > 32766 {
            return Err(GeometryError::InvalidParameter);
        }
        let sp = start_vertex.position;
        let ep = end_vertex.position;
        let dist = ep.distance(sp);
        if dist == 0 {
            return Err(GeometryError::DegenerateGeometry);
        }
        let ghost delta = crate::position::diff_of(ep, sp);
        proof {
            assert(pos_in_range(delta));
            assert(len_sq(delta) == fmul(ep.x - sp.x, ep.x - sp.x) + fmul(ep.y - sp.y, ep.y - sp.y)
                + fmul(ep.z - sp.z, ep.z - sp.z));
            assert(length_of(delta) == distance_of(ep, sp));
            lemma_unit_component_bound(delta);
            lemma_fdiv_fits(ep.x - sp.x, dist as int);
            lemma_fdiv_fits(ep.y - sp.y, dist as int);
            lemma_fdiv_fits(ep.z - sp.z, dist as int);
            lemma_fdiv_fits(ep.w - sp.w, dist as int);
        }
        let dir = ep.sub(sp).div(dist);
        proof {
            assert(dir == line_dir(sp, ep));
            assert(abs_i(dir.x as int) <= 2 * SCALE as int);
            assert(abs_i(dir.y as int) <= 2 * SCALE as int);
            assert(abs_i(dir.z as int) <= 2 * SCALE as int);
        }
        let dz_mag = if dir.z >= 0 {
            dir.z
        } else {
            -dir.z
        };
        let up = if dz_mag >= UP_SWITCH {
            Position::new(0, SCALE, 0, 0)
        } else {
            Position::new(0, 0, SCALE, 0)
        };
        proof {
            assert(up == line_up(sp, ep));
            lemma_fmul_bound_by(
                dir.y as int,
                up.z as int,
                2 * SCALE as int,
                SCALE as int,
                2 * SCALE as int,
            );
            lemma_fmul_bound_by(
                dir.z as int,
                up.y as int,
                2 * SCALE as int,
                SCALE as int,
                2 * SCALE as int,
            );
            lemma_fmul_bound_by(
                dir.z as int,
                up.x as int,
                2 * SCALE as int,
                SCALE as int,
                2 * SCALE as int,
            );
            lemma_fmul_bound_by(
                dir.x as int,
                up.z as int,
                2 * SCALE as int,
                SCALE as int,
                2 * SCALE as int,
            );
            lemma_fmul_bound_by(
                dir.x as int,
                up.y as int,
                2 * SCALE as int,
                SCALE as int,
                2 * SCALE as int,
            );
            lemma_fmul_bound_by(
                dir.y as int,
                up.x as int,
                2 * SCALE as int,
                SCALE as int,
                2 * SCALE as int,
            );
        }
        let c = Position::new(
            crate::scalar::fx_mul(dir.y, up.z) - crate::scalar::fx_mul(dir.z, up.y),
            crate::scalar::fx_mul(dir.z, up.x) - crate::scalar::fx_mul(dir.x, up.z),
            crate::scalar::fx_mul(dir.x, up.y) - crate::scalar::fx_mul(dir.y, up.x),
            0,
        );
        proof {
            assert(pos_in_range(c));
        }
        let nn = c.normalize();
        proof {
            assert(nn == line_normal(sp, ep));
            crate::position::lemma_len_sq_nonneg(c);
            assert(len_sq(c) * (SCALE as int) >= 0) by (nonlinear_arith)
                requires
                    len_sq(c) >= 0,
            ;
            crate::scalar::lemma_sqrt_floor_exists(len_sq(c) * (SCALE as int));
            if length_of(c) != 0 {
                lemma_unit_component_bound(c);
                assert(nn.w as int == fdiv(0, length_of(c)));
                assert(abs_i(nn.x as int) <= 4 * SCALE as int);
                assert(abs_i(nn.y as int) <= 4 * SCALE as int);
                assert(abs_i(nn.z as int) <= 4 * SCALE as int);
                assert(abs_i(nn.w as int) <= 4 * SCALE as int);
            } else {
                assert(abs_i(nn.x as int) <= 4 * SCALE as int);
                assert(abs_i(nn.y as int) <= 4 * SCALE as int);
                assert(abs_i(nn.z as int) <= 4 * SCALE as int);
                assert(abs_i(nn.w as int) <= 4 * SCALE as int);
            }
            crate::position::lemma_fdiv_fits(thickness as int, 2 * SCALE as int);
            lemma_half_thickness_bound(thickness as int);
        }
        let half = crate::scalar::fx_div(thickness, 2 * SCALE);
        proof {
            lemma_fmul_bound_by(
                nn.x as int,
                half as int,
                4 * SCALE as int,
                (COORD_LIMIT as int) / 16,
                (COORD_LIMIT as int) / 4,
            );
            lemma_fmul_bound_by(
                nn.y as int,
                half as int,
                4 * SCALE as int,
                (COORD_LIMIT as int) / 16,
                (COORD_LIMIT as int) / 4,
            );
            lemma_fmul_bound_by(
                nn.z as int,
                half as int,
                4 * SCALE as int,
                (COORD_LIMIT as int) / 16,
                (COORD_LIMIT as int) / 4,
            );
            lemma_fmul_bound_by(
                nn.w as int,
                half as int,
                4 * SCALE as int,
                (COORD_LIMIT as int) / 16,
                (COORD_LIMIT as int) / 4,
            );
        }
        let off = nn.scale(half);
        proof {
            assert(off == line_offset(sp, ep, thickness as int));
        }
        let a1 = sp.add(off);
        let a2 = sp.sub(off);
        let b1 = ep.add(off);
        let b2 = ep.sub(off);
        let n = subdivision as usize;
        let ghost gverts = line_verts(start_vertex, end_vertex, thickness as int, n as int);
        let mut vertices: Vec<Vertex> = Vec::new();
        let mut s: usize = 0;
        while s <= n
            invariant
                1 <= n <= 32766,
                0 <= s <= n + 1,
                gverts == line_verts(start_vertex, end_vertex, thickness as int, n as int),
                sp == start_vertex.position,
                ep == end_vertex.position,
                off == line_offset(sp, ep, thickness as int),
                nn == line_normal(sp, ep),
                a1.x == sp.x + off.x && a1.y == sp.y + off.y && a1.z == sp.z + off.z && a1.w == sp.w
                    + off.w,
                a2.x == sp.x - off.x && a2.y == sp.y - off.y && a2.z == sp.z - off.z && a2.w == sp.w
                    - off.w,
                b1.x == ep.x + off.x && b1.y == ep.y + off.y && b1.z == ep.z + off.z && b1.w == ep.w
                    + off.w,
                b2.x == ep.x - off.x && b2.y == ep.y - off.y && b2.z == ep.z - off.z && b2.w == ep.w
                    - off.w,
                abs_i(a1.x as int) <= (COORD_LIMIT as int),
                abs_i(a1.y as int) <= (COORD_LIMIT as int),
                abs_i(a1.z as int) <= (COORD_LIMIT as int),
                abs_i(a1.w as int) <= (COORD_LIMIT as int),
                abs_i(a2.x as int) <= (COORD_LIMIT as int),
                abs_i(a2.y as int) <= (COORD_LIMIT as int),
                abs_i(a2.z as int) <= (COORD_LIMIT as int),
                abs_i(a2.w as int) <= (COORD_LIMIT as int),
                abs_i(b1.x as int) <= (COORD_LIMIT as int),
                abs_i(b1.y as int) <= (COORD_LIMIT as int),
                abs_i(b1.z as int) <= (COORD_LIMIT as int),
                abs_i(b1.w as int) <= (COORD_LIMIT as int),
                abs_i(b2.x as int) <= (COORD_LIMIT as int),
                abs_i(b2.y as int) <= (COORD_LIMIT as int),
                abs_i(b2.z as int) <= (COORD_LIMIT as int),
                abs_i(b2.w as int) <= (COORD_LIMIT as int),
                vert_in_range(start_vertex),
                vert_in_range(end_vertex),
                vertices@.len() == 2 * s,
                forall|q: int| 0 <= q < vertices@.len() ==> vertices@[q] == gverts[q],
            decreases n + 1 - s,
        {
            let t: i64 = ((s as u64 * 1048576) / (n as u64)) as i64;
            proof {
                lemma_grid_weight(s as int, n as int);
                assert(t == grid_weight(s as int, n as int));
                lemma_fundamental_div_mod_converse_div(2 * s as int, 2, s as int, 0);
                lemma_fundamental_div_mod_converse_mod(2 * s as int, 2, s as int, 0);
                lemma_fundamental_div_mod_converse_div(2 * s as int + 1, 2, s as int, 1);
                lemma_fundamental_div_mod_converse_mod(2 * s as int + 1, 2, s as int, 1);
                lemma_rail_lerp_fits(a1, b1, t as int);
                lemma_rail_lerp_fits(a2, b2, t as int);
                lemma_color_lerp_fits(start_vertex.color, end_vertex.color, t as int);
            }
            let p1 = Position::new(
                fx_lerp(a1.x, b1.x, t),
                fx_lerp(a1.y, b1.y, t),
                fx_lerp(a1.z, b1.z, t),
                fx_lerp(a1.w, b1.w, t),
            );
            let p2 = Position::new(
                fx_lerp(a2.x, b2.x, t),
                fx_lerp(a2.y, b2.y, t),
                fx_lerp(a2.z, b2.z, t),
                fx_lerp(a2.w, b2.w, t),
            );
            let col = Color::new(
                fx_lerp(start_vertex.color.r, end_vertex.color.r, t),
                fx_lerp(start_vertex.color.g, end_vertex.color.g, t),
                fx_lerp(start_vertex.color.b, end_vertex.color.b, t),
                fx_lerp(start_vertex.color.a, end_vertex.color.a, t),
            );
            let nrm = Normal::new(nn.x, nn.y, nn.z);
            vertices.push(Vertex::new(p1, col, nrm));
            vertices.push(Vertex::new(p2, col, nrm));
            proof {
                assert(vertices@[2 * s as int] == gverts[2 * s as int]);
                assert(vertices@[2 * s as int + 1] == gverts[2 * s as int + 1]);
            }
            s += 1;
        }
        proof {
            assert(vertices@ =~= gverts);
        }
        let ghost gidx = line_indices(n as int);
        let mut indices: Vec<u16> = Vec::new();
        let mut k: usize = 0;
        while k < n
            invariant
                1 <= n <= 32766,
                0 <= k <= n,
                gidx == line_indices(n as int),
                indices@.len() == 6 * k,
                forall|q: int| 0 <= q < indices@.len() ==> indices@[q] == gidx[q],
            decreases n - k,
        {
            let base: usize = 2 * k;
            proof {
                lemma_line_cell_entries(k as int);
            }
            indices.push(base as u16);
            indices.push((base + 2) as u16);
            indices.push((base + 1) as u16);
            indices.push((base + 1) as u16);
            indices.push((base + 2) as u16);
            indices.push((base + 3) as u16);
            k += 1;
        }
        proof {
            assert(indices@ =~= gidx);
            assert(6 * n as int == 3 * (2 * n as int) + 0);
            lemma_fundamental_div_mod_converse_mod(6 * n as int, 3, 2 * n as int, 0);
            assert forall|q: int| 0 <= q < gidx.len() implies (#[trigger] gidx[q] as int) < 2 * (
            n as int + 1) by {
                lemma_line_entry_bounds(n as int, q);
            }
        }
        Ok(Mesh::new(vertices, indices))
    }
}

/// Half of a bounded thickness stays well inside the coordinate range.
proof fn lemma_half_thickness_bound(thickness: int)
    requires
        0 < thickness <= (COORD_LIMIT as int) / 8,
    ensures
        abs_i(fdiv(thickness, 2 * SCALE as int)) <= (COORD_LIMIT as int) / 16,
{
    crate::scalar::lemma_div_trunc_mag(thickness * (SCALE as int), 2 * SCALE as int);
    assert(abs_i(thickness * (SCALE as int)) == abs_i(thickness) * (SCALE as int))
        by (nonlinear_arith)
        requires
            SCALE as int > 0,
    ;
    assert(abs_i(fdiv(thickness, 2 * SCALE as int)) <= (COORD_LIMIT as int) / 16)
        by (nonlinear_arith)
        requires
            abs_i(fdiv(thickness, 2 * SCALE as int)) * (2 * SCALE as int) <= abs_i(thickness) * (
            SCALE as int),
            0 < thickness <= (COORD_LIMIT as int) / 8,
            abs_i(thickness) == thickness,
            abs_i(fdiv(thickness, 2 * SCALE as int)) >= 0,
            SCALE as int == 1048576,
            COORD_LIMIT as int == 274877906944,
    ;
}

/// Interpolating between two rail endpoints fits the machine word.
proof fn lemma_rail_lerp_fits(a: Position, b: Position, t: int)
    requires
        0 <= t <= SCALE as int,
        abs_i(a.x as int) <= COORD_LIMIT as int,
        abs_i(a.y as int) <= COORD_LIMIT as int,
        abs_i(a.z as int) <= COORD_LIMIT as int,
        abs_i(a.w as int) <= COORD_LIMIT as int,
        abs_i(b.x as int) <= COORD_LIMIT as int,
        abs_i(b.y as int) <= COORD_LIMIT as int,
        abs_i(b.z as int) <= COORD_LIMIT as int,
        abs_i(b.w as int) <= COORD_LIMIT as int,
    ensures
        fits_i64((SCALE as int) - t),
        fits_i64(fmul(a.x as int, (SCALE as int) - t)),
        fits_i64(fmul(a.y as int, (SCALE as int) - t)),
        fits_i64(fmul(a.z as int, (SCALE as int) - t)),
        fits_i64(fmul(a.w as int, (SCALE as int) - t)),
        fits_i64(fmul(b.x as int, t)),
        fits_i64(fmul(b.y as int, t)),
        fits_i64(fmul(b.z as int, t)),
        fits_i64(fmul(b.w as int, t)),
        fits_i64(lerp(a.x as int, b.x as int, t)),
        fits_i64(lerp(a.y as int, b.y as int, t)),
        fits_i64(lerp(a.z as int, b.z as int, t)),
        fits_i64(lerp(a.w as int, b.w as int, t)),
{
    lemma_lerp_bound(a.x as int, b.x as int, t, COORD_LIMIT as int);
    lemma_lerp_bound(a.y as int, b.y as int, t, COORD_LIMIT as int);
    lemma_lerp_bound(a.z as int, b.z as int, t, COORD_LIMIT as int);
    lemma_lerp_bound(a.w as int, b.w as int, t, COORD_LIMIT as int);
    crate::scalar::lemma_fmul_weight_bound(a.x as int, (SCALE as int) - t, COORD_LIMIT as int);
    crate::scalar::lemma_fmul_weight_bound(a.y as int, (SCALE as int) - t, COORD_LIMIT as int);
    crate::scalar::lemma_fmul_weight_bound(a.z as int, (SCALE as int) - t, COORD_LIMIT as int);
    crate::scalar::lemma_fmul_weight_bound(a.w as int, (SCALE as int) - t, COORD_LIMIT as int);
    crate::scalar::lemma_fmul_weight_bound(b.x as int, t, COORD_LIMIT as int);
    crate::scalar::lemma_fmul_weight_bound(b.y as int, t, COORD_LIMIT as int);
    crate::scalar::lemma_fmul_weight_bound(b.z as int, t, COORD_LIMIT as int);
    crate::scalar::lemma_fmul_weight_bound(b.w as int, t, COORD_LIMIT as int);
}

/// Interpolating two in-range colors fits the machine word.
proof fn lemma_color_lerp_fits(a: Color, b: Color, t: int)
    requires
        0 <= t <= SCALE as int,
        crate::color::col_in_range(a),
        crate::color::col_in_range(b),
    ensures
        fits_i64((SCALE as int) - t),
        fits_i64(fmul(a.r as int, (SCALE as int) - t)),
        fits_i64(fmul(a.g as int, (SCALE as int) - t)),
        fits_i64(fmul(a.b as int, (SCALE as int) - t)),
        fits_i64(fmul(a.a as int, (SCALE as int) - t)),
        fits_i64(fmul(b.r as int, t)),
        fits_i64(fmul(b.g as int, t)),
        fits_i64(fmul(b.b as int, t)),
        fits_i64(fmul(b.a as int, t)),
        fits_i64(lerp(a.r as int, b.r as int, t)),
        fits_i64(lerp(a.g as int, b.g as int, t)),
        fits_i64(lerp(a.b as int, b.b as int, t)),
        fits_i64(lerp(a.a as int, b.a as int, t)),
{
    lemma_lerp_bound(a.r as int, b.r as int, t, COORD_LIMIT as int);
    lemma_lerp_bound(a.g as int, b.g as int, t, COORD_LIMIT as int);
    lemma_lerp_bound(a.b as int, b.b as int, t, COORD_LIMIT as int);
    lemma_lerp_bound(a.a as int, b.a as int, t, COORD_LIMIT as int);
    crate::scalar::lemma_fmul_weight_bound(a.r as int, (SCALE as int) - t, COORD_LIMIT as int);
    crate::scalar::lemma_fmul_weight_bound(a.g as int, (SCALE as int) - t, COORD_LIMIT as int);
    crate::scalar::lemma_fmul_weight_bound(a.b as int, (SCALE as int) - t, COORD_LIMIT as int);
    crate::scalar::lemma_fmul_weight_bound(a.a as int, (SCALE as int) - t, COORD_LIMIT as int);
    crate::scalar::lemma_fmul_weight_bound(b.r as int, t, COORD_LIMIT as int);
    crate::scalar::lemma_fmul_weight_bound(b.g as int, t, COORD_LIMIT as int);
    crate::scalar::lemma_fmul_weight_bound(b.b as int, t, COORD_LIMIT as int);
    crate::scalar::lemma_fmul_weight_bound(b.a as int, t, COORD_LIMIT as int);
}

/// The six index entries of ribbon step `k` carry the step's quad winding.
proof fn lemma_line_cell_entries(k: int)
    requires
        0 <= k,
    ensures
        line_index_at(6 * k) == 2 * k,
        line_index_at(6 * k + 1) == 2 * k + 2,
        line_index_at(6 * k + 2) == 2 * k + 1,
        line_index_at(6 * k + 3) == 2 * k + 1,
        line_index_at(6 * k + 4) == 2 * k + 2,
        line_index_at(6 * k + 5) == 2 * k + 3,
{
    lemma_fundamental_div_mod_converse_div(6 * k + 0, 6, k, 0);
    lemma_fundamental_div_mod_converse_mod(6 * k + 0, 6, k, 0);
    lemma_fundamental_div_mod_converse_div(6 * k + 1, 6, k, 1);
    lemma_fundamental_div_mod_converse_mod(6 * k + 1, 6, k, 1);
    lemma_fundamental_div_mod_converse_div(6 * k + 2, 6, k, 2);
    lemma_fundamental_div_mod_converse_mod(6 * k + 2, 6, k, 2);
    lemma_fundamental_div_mod_converse_div(6 * k + 3, 6, k, 3);
    lemma_fundamental_div_mod_converse_mod(6 * k + 3, 6, k, 3);
    lemma_fundamental_div_mod_converse_div(6 * k + 4, 6, k, 4);
    lemma_fundamental_div_mod_converse_mod(6 * k + 4, 6, k, 4);
    lemma_fundamental_div_mod_converse_div(6 * k + 5, 6, k, 5);
    lemma_fundamental_div_mod_converse_mod(6 * k + 5, 6, k, 5);
}

/// Every ribbon index points inside the ribbon vertex list.
proof fn lemma_line_entry_bounds(n: int, q: int)
    requires
        1 <= n,
        0 <= q < 6 * n,
    ensures
        0 <= line_index_at(q) < 2 * (n + 1),
{
    lemma_fundamental_div_mod(q, 6);
    lemma_mod_division_less_than_divisor(q, 6);
    let step = q / 6;
    assert(0 <= step < n) by (nonlinear_arith)
        requires
            q == 6 * step + q % 6,
            0 <= q % 6 < 6,
            0 <= q < 6 * n,
    ;
}

} // verus!
