//! The sphere family: a latitude/longitude grid, a fixed icosahedron, and
//! six spherified cube faces, selected by a tag.

use vstd::prelude::*;

use vstd::arithmetic::div_mod::{
    lemma_fundamental_div_mod, lemma_fundamental_div_mod_converse_div,
    lemma_fundamental_div_mod_converse_mod, lemma_mod_division_less_than_divisor,
};

use crate::color::{Color, HALF};
use crate::mesh::{mesh_valid, Mesh};
use crate::normal::Normal;
use crate::position::Position;
use crate::scalar::{
    abs_i, fdiv, fmul, fx_div, fx_mul, fx_sqrt, in_coord_range, lemma_fmul_bound_by,
    lemma_fmul_nonneg, sqrt_floor, COORD_LIMIT, SCALE,
};
use crate::trig::{cos_tab, cos_tab_spec, sin_approx, sin_fx, sin_tab, sin_tab_spec, HALF_PI_FX,
    PI_FX, TWO_PI_FX};
use crate::vertex::Vertex;
use crate::GeometryError;

verus! {

/// Which construction the sphere uses.
#[derive(Debug, Copy, Clone, PartialEq, Eq, Structural)]
pub enum Sphere {
    UVSphere,
    Icosahedron,
    SpherifiedCube,
}

#[derive(Debug)]
pub struct Spherical {
    pub sphere_type: Sphere,
    pub radius: i64,
    pub origin: Position,
    pub mesh: Mesh,
}

/// The origin and radius are small enough for the warp arithmetic.
pub open spec fn sphere_fits(origin: Position, radius: int) -> bool {
    &&& abs_i(origin.x as int) <= (COORD_LIMIT as int) / 2
    &&& abs_i(origin.y as int) <= (COORD_LIMIT as int) / 2
    &&& abs_i(origin.z as int) <= (COORD_LIMIT as int) / 2
    &&& in_coord_range(origin.w as int)
    &&& radius <= (COORD_LIMIT as int) / 4
}

/// The latitude/longitude grid position at stack `i`, sector `j`: spherical
/// coordinates through the sine tables, scaled by the radius and shifted to
/// the origin.
pub open spec fn uv_pos(origin: Position, radius: int, i: int, j: int) -> Position {
    let xy = fmul(radius, sin_tab_spec(i));
    Position {
        x: (origin.x + fmul(xy, cos_tab_spec(2 * j))) as i64,
        y: (origin.y + fmul(xy, sin_tab_spec(2 * j))) as i64,
        z: (origin.z + fmul(radius, cos_tab_spec(i))) as i64,
        w: SCALE,
    }
}

/// The decorative spiral color of the grid vertex at stack `i`, sector `j`.
pub open spec fn spiral_color(i: int, j: int) -> Color {
    let lat = (i * (PI_FX as int)) / 32;
    let lon = (j * (TWO_PI_FX as int)) / 32;
    let angle = 2 * abs_i(lon - lat);
    let t = ((i * (SCALE as int)) / 32 + 6 * angle) % (TWO_PI_FX as int);
    let shifted = sin_approx(t + HALF_PI_FX as int);
    Color {
        r: (fmul(sin_approx(t), HALF as int) + (HALF as int) - i * j * (SCALE as int)) as i64,
        g: (fmul(shifted, HALF as int) + HALF as int) as i64,
        b: (fmul(shifted, HALF as int) + (HALF as int) + ((i + j + 1) * (SCALE as int)) / 512) as i64,
        a: SCALE,
    }
}

/// The latitude/longitude vertices: thirty-three stacks of thirty-three
/// sectors, in row-major order, all normals pointing along world z.
#[verifier::opaque]
pub open spec fn uv_verts(origin: Position, radius: int) -> Seq<Vertex> {
    Seq::new(
        1089,
        |q: int|
            Vertex {
                position: uv_pos(origin, radius, q / 33, q % 33),
                color: spiral_color(q / 33, q % 33),
                normal: Normal { x: 0, y: 0, z: SCALE },
            },
    )
}

/// Entry `q` of the grid index list: six entries per cell, two triangles
/// between consecutive stacks.
pub open spec fn uv_index_at(q: int) -> int {
    let cell = q / 6;
    let r = q % 6;
    let i = cell / 32;
    let j = cell % 32;
    let k1 = i * 33 + j;
    let k2 = k1 + 33;
    if r == 0 {
        k1
    } else if r == 1 {
        k2
    } else if r == 2 {
        k2 + 1
    } else if r == 3 {
        k1
    } else if r == 4 {
        k2 + 1
    } else {
        k1 + 1
    }
}

#[verifier::opaque]
pub open spec fn uv_indices() -> Seq<u16> {
    Seq::new(6144, |q: int| uv_index_at(q) as u16)
}

impl Sphere {
    /// A sphere of this construction wrapped in the shape union.
    pub fn new(self, radius: i64, origin: Position) -> (r: Result<
        crate::primitives::geometry::Geometry,
        GeometryError,
    >)
        requires
            sphere_fits(origin, radius as int),
        ensures
            radius <= 0 <==> r == Err::<crate::primitives::geometry::Geometry, GeometryError>(
                GeometryError::InvalidParameter,
            ),
            match r {
                Ok(g) => g matches crate::primitives::geometry::Geometry::Sphere(s)
                    && s.sphere_type == self && s.radius == radius && s.origin == origin
                    && mesh_valid(s.mesh) && s.mesh.indices@.len() % 3 == 0 && (self
                    == Sphere::UVSphere ==> s.mesh.vertices@ == uv_verts(origin, radius as int)
                    && s.mesh.indices@ == uv_indices()) && (self == Sphere::Icosahedron
                    ==> s.mesh.vertices@ == ico_verts(origin, radius as int) && s.mesh.indices@
                    == ico_indices()) && (self == Sphere::SpherifiedCube ==> s.mesh.vertices@
                    == sc_verts(origin, radius as int) && s.mesh.indices@ == sc_indices()),
                Err(e) => e == GeometryError::InvalidParameter,
            },
    {
        match Spherical::sphere(radius, origin, self) {
            Ok(s) => Ok(crate::primitives::geometry::Geometry::Sphere(s)),
            Err(e) => Err(e),
        }
    }
}

impl Spherical {
    /// A sphere primitive of the given construction, radius and origin.
    pub fn sphere(radius: i64, origin: Position, sphere_type: Sphere) -> (r: Result<
        Self,
        GeometryError,
    >)
        requires
            sphere_fits(origin, radius as int),
        ensures
            radius <= 0 <==> r == Err::<Spherical, GeometryError>(GeometryError::InvalidParameter),
            match r {
                Ok(s) => {
                    &&& s.sphere_type == sphere_type
                    &&& s.radius == radius
                    &&& s.origin == origin
                    &&& mesh_valid(s.mesh)
                    &&& s.mesh.indices@.len() % 3 == 0
                    &&& sphere_type == Sphere::UVSphere ==> s.mesh.vertices@ == uv_verts(
                        origin,
                        radius as int,
                    ) && s.mesh.indices@ == uv_indices()
                    &&& sphere_type == Sphere::Icosahedron ==> s.mesh.vertices@ == ico_verts(
                        origin,
                        radius as int,
                    ) && s.mesh.indices@ == ico_indices()
                    &&& sphere_type == Sphere::SpherifiedCube ==> s.mesh.vertices@ == sc_verts(
                        origin,
                        radius as int,
                    ) && s.mesh.indices@ == sc_indices()
                },
                Err(e) => e == GeometryError::InvalidParameter,
            },
    {
        if radius <= 0 {
            return Err(GeometryError::InvalidParameter);
        }
        let mesh = match sphere_type {
            Sphere::UVSphere => Self::uv_sphere(radius, origin),
            Sphere::Icosahedron => Self::icosahedron(radius, origin),
            Sphere::SpherifiedCube => Self::spherified_cube(radius, origin),
        };
        Ok(Spherical { sphere_type, radius, origin, mesh })
    }

    /// The latitude/longitude grid mesh.
    fn uv_sphere(radius: i64, origin: Position) -> (r: Mesh)
        requires
            sphere_fits(origin, radius as int),
            radius > 0,
        ensures
            r.vertices@ == uv_verts(origin, radius as int),
            r.indices@ == uv_indices(),
            r.vertices@.len() == 1089,
            r.indices@.len() == 6144,
            r.indices@.len() % 3 == 0,
            mesh_valid(r),
    {
        let mut vertices: Vec<Vertex> = Vec::new();
        let mut i: u16 = 0;
        while i <= 32
            invariant
                0 <= i <= 33,
                sphere_fits(origin, radius as int),
                radius > 0,
                vertices@.len() == 33 * i,
                forall|q: int|
                    0 <= q < vertices@.len() ==> #[trigger] vertices@[q] == (Vertex {
                        position: uv_pos(origin, radius as int, q / 33, q % 33),
                        color: spiral_color(q / 33, q % 33),
                        normal: Normal { x: 0, y: 0, z: SCALE },
                    }),
            decreases 33 - i,
        {
            proof {
                lemma_uv_terms(radius as int, i as int);
            }
            let xy = fx_mul(radius, sin_tab(i));
            let z = fx_mul(radius, cos_tab(i));
            let mut j: u16 = 0;
            while j <= 32
                invariant
                    0 <= i <= 32,
                    0 <= j <= 33,
                    sphere_fits(origin, radius as int),
                    radius > 0,
                    xy == fmul(radius as int, sin_tab_spec(i as int)),
                    z == fmul(radius as int, cos_tab_spec(i as int)),
                    abs_i(xy as int) <= (COORD_LIMIT as int) / 4,
                    abs_i(z as int) <= (COORD_LIMIT as int) / 4,
                    vertices@.len() == 33 * i + j,
                    forall|q: int|
                        0 <= q < vertices@.len() ==> #[trigger] vertices@[q] == (Vertex {
                            position: uv_pos(origin, radius as int, q / 33, q % 33),
                            color: spiral_color(q / 33, q % 33),
                            normal: Normal { x: 0, y: 0, z: SCALE },
                        }),
                decreases 33 - j,
            {
                proof {
                    crate::trig::lemma_tab_bounds(2 * j as int);
                    lemma_fmul_bound_by(
                        xy as int,
                        cos_tab_spec(2 * j as int),
                        (COORD_LIMIT as int) / 4,
                        SCALE as int,
                        (COORD_LIMIT as int) / 4,
                    );
                    lemma_fmul_bound_by(
                        xy as int,
                        sin_tab_spec(2 * j as int),
                        (COORD_LIMIT as int) / 4,
                        SCALE as int,
                        (COORD_LIMIT as int) / 4,
                    );
                    lemma_fundamental_div_mod_converse_div(
                        33 * i as int + j as int,
                        33,
                        i as int,
                        j as int,
                    );
                    lemma_fundamental_div_mod_converse_mod(
                        33 * i as int + j as int,
                        33,
                        i as int,
                        j as int,
                    );
                }
                let x = fx_mul(xy, cos_tab(2 * j));
                let y = fx_mul(xy, sin_tab(2 * j));
                let position = Position::new(origin.x + x, origin.y + y, origin.z + z, SCALE);
                let color = Self::calculate_spiral_color(i, j, 32, 32);
                vertices.push(Vertex::new(position, color, Normal::new(0, 0, SCALE)));
                j += 1;
            }
            i += 1;
        }
        proof {
            reveal(uv_verts);
            assert(vertices@ =~= uv_verts(origin, radius as int));
        }
        let mut indices: Vec<u16> = Vec::new();
        let mut ci: u16 = 0;
        while ci < 32
            invariant
                0 <= ci <= 32,
                indices@.len() == 192 * ci,
                forall|q: int|
                    0 <= q < indices@.len() ==> (#[trigger] indices@[q]) as int == uv_index_at(q),
            decreases 32 - ci,
        {
            let mut cj: u16 = 0;
            while cj < 32
                invariant
                    0 <= ci < 32,
                    0 <= cj <= 32,
                    indices@.len() == 192 * ci + 6 * cj,
                    forall|q: int|
                        0 <= q < indices@.len() ==> (#[trigger] indices@[q]) as int == uv_index_at(
                            q,
                        ),
                decreases 32 - cj,
            {
                let k1 = ci * 33 + cj;
                let k2 = k1 + 33;
                proof {
                    lemma_uv_cell(ci as int, cj as int);
                }
                indices.push(k1);
                indices.push(k2);
                indices.push(k2 + 1);
                indices.push(k1);
                indices.push(k2 + 1);
                indices.push(k1 + 1);
                cj += 1;
            }
            ci += 1;
        }
        proof {
            reveal(uv_indices);
            assert(indices@ =~= uv_indices());
            assert forall|k: int| 0 <= k < indices@.len() implies (#[trigger] indices@[k] as int)
                < 1089 by {
                lemma_uv_entry_bounds(k);
            }
        }
        Mesh::new(vertices, indices)
    }

    /// The decorative spiral color of a grid vertex, from its stack and
    /// sector indices.
    pub fn calculate_spiral_color(i: u16, j: u16, stacks: u16, sectors: u16) -> (c: Color)
        requires
            i <= 32,
            j <= 32,
            stacks == 32,
            sectors == 32,
        ensures
            c == spiral_color(i as int, j as int),
    {
        let lat: i64 = ((i as u64 * 3294199) / 32) as i64;
        let lon: i64 = ((j as u64 * 6588398) / 32) as i64;
        let diff = lon - lat;
        let mag = if diff >= 0 {
            diff
        } else {
            -diff
        };
        let angle: i64 = 2 * mag;
        let tpre: i64 = ((i as u64 * 1048576) / 32) as i64 + 6 * angle;
        let t: i64 = ((tpre as u64) % 6588398) as i64;
        let sr = sin_fx(t);
        let shifted = sin_fx(t + HALF_PI_FX);
        proof {
            assert(t == ((i as int * (SCALE as int)) / 32 + 6 * (2 * abs_i(
                lon as int - lat as int,
            ))) % (TWO_PI_FX as int));
        }
        proof {
            lemma_fmul_bound_by(sr as int, HALF as int, SCALE as int, HALF as int, HALF as int);
            lemma_fmul_bound_by(
                shifted as int,
                HALF as int,
                SCALE as int,
                HALF as int,
                HALF as int,
            );
            assert(0 <= (i as int) * (j as int) <= 1024) by (nonlinear_arith)
                requires
                    0 <= i as int <= 32,
                    0 <= j as int <= 32,
            ;
            assert((i as int) * (j as int) * 1048576 == (i as int) * (j as int) * (SCALE as int))
                by (nonlinear_arith);
        }
        let extra: i64 = (((i + j + 1) as u64 * 1048576) / 512) as i64;
        let ij: i64 = (i as i64) * (j as i64) * 1048576;
        Color::new(
            fx_mul(sr, HALF) + HALF - ij,
            fx_mul(shifted, HALF) + HALF,
            fx_mul(shifted, HALF) + HALF + extra,
            SCALE,
        )
    }

    /// The fixed twelve-vertex icosahedron mesh.
    #[verifier::rlimit(100)]
    fn icosahedron(radius: i64, origin: Position) -> (r: Mesh)
        requires
            sphere_fits(origin, radius as int),
            radius > 0,
        ensures
            r.vertices@ == ico_verts(origin, radius as int),
            r.indices@ == ico_indices(),
            r.vertices@.len() == 12,
            r.indices@.len() == 60,
            r.indices@.len() % 3 == 0,
            mesh_valid(r),
    {
        proof {
            lemma_golden_bound();
        }
        let t = golden_exec();
        proof {
            lemma_ico_scale_bounds(radius as int, t as int);
        }
        let s = SCALE;
        let blue = Color::blue();
        let flat = Normal::new(0, 0, SCALE);
        let mut vertices: Vec<Vertex> = Vec::new();
        vertices.push(ico_vertex_exec(origin, radius, -s, t, 0));
        vertices.push(ico_vertex_exec(origin, radius, s, t, 0));
        vertices.push(ico_vertex_exec(origin, radius, -s, -t, 0));
        vertices.push(ico_vertex_exec(origin, radius, s, -t, 0));
        vertices.push(ico_vertex_exec(origin, radius, 0, -s, t));
        vertices.push(ico_vertex_exec(origin, radius, 0, s, t));
        vertices.push(ico_vertex_exec(origin, radius, 0, -s, -t));
        vertices.push(ico_vertex_exec(origin, radius, 0, s, -t));
        vertices.push(ico_vertex_exec(origin, radius, t, 0, -s));
        vertices.push(ico_vertex_exec(origin, radius, t, 0, s));
        vertices.push(ico_vertex_exec(origin, radius, -t, 0, -s));
        vertices.push(ico_vertex_exec(origin, radius, -t, 0, s));
        let mut indices: Vec<u16> = Vec::new();
        indices.push(0);
        indices.push(11);
        indices.push(5);
        indices.push(0);
        indices.push(5);
        indices.push(1);
        indices.push(0);
        indices.push(1);
        indices.push(7);
        indices.push(0);
        indices.push(7);
        indices.push(10);
        indices.push(0);
        indices.push(10);
        indices.push(11);
        indices.push(1);
        indices.push(5);
        indices.push(9);
        indices.push(5);
        indices.push(11);
        indices.push(4);
        indices.push(11);
        indices.push(10);
        indices.push(2);
        indices.push(10);
        indices.push(7);
        indices.push(6);
        indices.push(7);
        indices.push(1);
        indices.push(8);
        indices.push(3);
        indices.push(9);
        indices.push(4);
        indices.push(3);
        indices.push(4);
        indices.push(2);
        indices.push(3);
        indices.push(2);
        indices.push(6);
        indices.push(3);
        indices.push(6);
        indices.push(8);
        indices.push(3);
        indices.push(8);
        indices.push(9);
        indices.push(4);
        indices.push(9);
        indices.push(5);
        indices.push(2);
        indices.push(4);
        indices.push(11);
        indices.push(6);
        indices.push(2);
        indices.push(10);
        indices.push(8);
        indices.push(6);
        indices.push(7);
        indices.push(9);
        indices.push(8);
        indices.push(1);
        proof {
            assert(vertices@ =~= ico_verts(origin, radius as int));
            assert(indices@ =~= ico_indices());
        }
        Mesh::new(vertices, indices)
    }

    /// The six spherified cube faces: an eight-by-eight parameter grid per
    /// face pushed through the cube-to-sphere warp.
    fn spherified_cube(radius: i64, origin: Position) -> (r: Mesh)
        requires
            sphere_fits(origin, radius as int),
            radius > 0,
        ensures
            r.vertices@ == sc_verts(origin, radius as int),
            r.indices@ == sc_indices(),
            r.vertices@.len() == 384,
            r.indices@.len() == 1764,
            r.indices@.len() % 3 == 0,
            mesh_valid(r),
    {
        let mut vertices: Vec<Vertex> = Vec::new();
        let mut s: u16 = 0;
        while s < 6
            invariant
                0 <= s <= 6,
                sphere_fits(origin, radius as int),
                radius > 0,
                vertices@.len() == 64 * s,
                forall|q: int|
                    0 <= q < vertices@.len() ==> #[trigger] vertices@[q] == sc_vertex(
                        origin,
                        radius as int,
                        q / 64,
                        (q % 64) / 8,
                        q % 8,
                    ),
            decreases 6 - s,
        {
            let mut i: u16 = 0;
            while i < 8
                invariant
                    0 <= s < 6,
                    0 <= i <= 8,
                    sphere_fits(origin, radius as int),
                    radius > 0,
                    vertices@.len() == 64 * s + 8 * i,
                    forall|q: int|
                        0 <= q < vertices@.len() ==> #[trigger] vertices@[q] == sc_vertex(
                            origin,
                            radius as int,
                            q / 64,
                            (q % 64) / 8,
                            q % 8,
                        ),
                decreases 8 - i,
            {
                let mut j: u16 = 0;
                while j < 8
                    invariant
                        0 <= s < 6,
                        0 <= i < 8,
                        0 <= j <= 8,
                        sphere_fits(origin, radius as int),
                        radius > 0,
                        vertices@.len() == 64 * s + 8 * i + j,
                        forall|q: int|
                            0 <= q < vertices@.len() ==> #[trigger] vertices@[q] == sc_vertex(
                                origin,
                                radius as int,
                                q / 64,
                                (q % 64) / 8,
                                q % 8,
                            ),
                    decreases 8 - j,
                {
                    let sx: i64 = (i as i64) * 262144 - 1048576;
                    let sy: i64 = (j as i64) * 262144 - 1048576;
                    let pos = if s == 0 {
                        Position::new(SCALE, sx, sy, SCALE)
                    } else if s == 1 {
                        Position::new(-SCALE, sx, sy, SCALE)
                    } else if s == 2 {
                        Position::new(sx, SCALE, sy, SCALE)
                    } else if s == 3 {
                        Position::new(sx, -SCALE, sy, SCALE)
                    } else if s == 4 {
                        Position::new(sx, sy, SCALE, SCALE)
                    } else {
                        Position::new(sx, sy, -SCALE, SCALE)
                    };
                    let warped = spherify(pos, radius);
                    let v = Vertex::new(
                        Position::new(
                            warped.x + origin.x,
                            warped.y + origin.y,
                            warped.z + origin.z,
                            SCALE,
                        ),
                        Color::blue(),
                        Normal::new(0, 0, SCALE),
                    );
                    proof {
                        let q = 64 * s as int + 8 * i as int + j as int;
                        lemma_fundamental_div_mod_converse_div(
                            q,
                            64,
                            s as int,
                            8 * i as int + j as int,
                        );
                        lemma_fundamental_div_mod_converse_mod(
                            q,
                            64,
                            s as int,
                            8 * i as int + j as int,
                        );
                        lemma_fundamental_div_mod_converse_div(
                            8 * i as int + j as int,
                            8,
                            i as int,
                            j as int,
                        );
                        lemma_fundamental_div_mod_converse_mod(
                            8 * i as int + j as int,
                            8,
                            i as int,
                            j as int,
                        );
                        lemma_fundamental_div_mod_converse_mod(q, 8, 8 * s as int + i as int, j as int);
                        assert(v == sc_vertex(origin, radius as int, s as int, i as int, j as int));
                    }
                    vertices.push(v);
                    j += 1;
                }
                i += 1;
            }
            s += 1;
        }
        proof {
            reveal(sc_verts);
            assert(vertices@ =~= sc_verts(origin, radius as int));
        }
        let mut indices: Vec<u16> = Vec::new();
        let mut fs: u16 = 0;
        while fs < 6
            invariant
                0 <= fs <= 6,
                indices@.len() == 294 * fs,
                forall|q: int|
                    0 <= q < indices@.len() ==> (#[trigger] indices@[q]) as int == sc_index_at(q),
            decreases 6 - fs,
        {
            let mut ii: u16 = 0;
            while ii < 7
                invariant
                    0 <= fs < 6,
                    0 <= ii <= 7,
                    indices@.len() == 294 * fs + 42 * ii,
                    forall|q: int|
                        0 <= q < indices@.len() ==> (#[trigger] indices@[q]) as int == sc_index_at(
                            q,
                        ),
                decreases 7 - ii,
            {
                let mut jj: u16 = 0;
                while jj < 7
                    invariant
                        0 <= fs < 6,
                        0 <= ii < 7,
                        0 <= jj <= 7,
                        indices@.len() == 294 * fs + 42 * ii + 6 * jj,
                        forall|q: int|
                            0 <= q < indices@.len() ==> (#[trigger] indices@[q]) as int
                                == sc_index_at(q),
                    decreases 7 - jj,
                {
                    let base: u16 = fs * 64 + ii * 8 + jj;
                    proof {
                        lemma_sc_cell(fs as int, ii as int, jj as int);
                    }
                    indices.push(base);
                    indices.push(base + 9);
                    indices.push(base + 1);
                    indices.push(base + 1);
                    indices.push(base + 9);
                    indices.push(base + 8);
                    jj += 1;
                }
                ii += 1;
            }
            fs += 1;
        }
        proof {
            reveal(sc_indices);
            assert(indices@ =~= sc_indices());
            assert forall|k: int| 0 <= k < indices@.len() implies (#[trigger] indices@[k] as int)
                < 384 by {
                lemma_sc_entry_bounds(k);
            }
        }
        Mesh::new(vertices, indices)
    }

    /// Collapse exactly-equal referenced vertices of the mesh.
    pub fn dedup(&mut self) -> (r: Result<(), GeometryError>)
        requires
            old(self).mesh.vertices@.len() <= 65536,
        ensures
            crate::dedup::indices_valid(old(self).mesh.vertices@, old(self).mesh.indices@) <==> r
                == Ok::<(), GeometryError>(()),
            match r {
                Ok(()) => final (self).mesh.vertices@ == crate::dedup::dedup_verts(
                    old(self).mesh.vertices@,
                    old(self).mesh.indices@,
                    old(self).mesh.indices@.len() as int,
                ) && final (self).mesh.indices@ == crate::dedup::dedup_indices(
                    old(self).mesh.vertices@,
                    old(self).mesh.indices@,
                    old(self).mesh.indices@.len() as int,
                ) && final (self).sphere_type == old(self).sphere_type && final (self).radius
                    == old(self).radius && final (self).origin == old(self).origin,
                Err(e) => e == GeometryError::IndexOutOfRange && *final (self) == *old(self),
            },
    {
        self.mesh.dedup()
    }

    /// Finer tessellation is not implemented for any sphere construction:
    /// the request is reported rather than silently ignored, and the mesh is
    /// left unchanged.
    pub fn subdivide(&mut self, _n_subdivisions: u32) -> (r: Result<(), GeometryError>)
        ensures
            r == Err::<(), GeometryError>(GeometryError::Unsupported),
            *final (self) == *old(self),
    {
        match self.sphere_type {
            Sphere::UVSphere => self.uv_subdivide(_n_subdivisions),
            Sphere::Icosahedron => self.icosahedron_subdivide(_n_subdivisions),
            Sphere::SpherifiedCube => self.spherified_cube_subdivide(_n_subdivisions),
        }
    }

    fn uv_subdivide(&mut self, _subdivisions: u32) -> (r: Result<(), GeometryError>)
        ensures
            r == Err::<(), GeometryError>(GeometryError::Unsupported),
            *final (self) == *old(self),
    {
        Err(GeometryError::Unsupported)
    }

    fn icosahedron_subdivide(&mut self, _subdivisions: u32) -> (r: Result<(), GeometryError>)
        ensures
            r == Err::<(), GeometryError>(GeometryError::Unsupported),
            *final (self) == *old(self),
    {
        Err(GeometryError::Unsupported)
    }

    fn spherified_cube_subdivide(&mut self, _subdivisions: u32) -> (r: Result<(), GeometryError>)
        ensures
            r == Err::<(), GeometryError>(GeometryError::Unsupported),
            *final (self) == *old(self),
    {
        Err(GeometryError::Unsupported)
    }
}

/// The golden ratio in fixed point: half of one plus the square root of
/// five.
pub open spec fn golden() -> int {
    fdiv((SCALE as int) + sqrt_floor(5 * (SCALE as int) * (SCALE as int)), 2 * SCALE as int)
}

/// The golden ratio, computed through the scalar core.
fn golden_exec() -> (r: i64)
    ensures
        r == golden(),
        0 <= r <= 2 * SCALE,
{
    proof {
        lemma_golden_bound();
    }
    let sqrt5 = fx_sqrt(5 * SCALE);
    fx_div(SCALE + sqrt5, 2 * SCALE)
}

/// The square root of five and the golden ratio stay within two fixed-point
/// units.
proof fn lemma_golden_bound()
    ensures
        0 <= sqrt_floor(5 * (SCALE as int) * (SCALE as int)) <= 3 * SCALE as int,
        0 <= golden() <= 2 * SCALE as int,
        crate::scalar::fits_i64(golden()),
        crate::scalar::fits_i64(fdiv(
            (SCALE as int) + sqrt_floor(5 * (SCALE as int) * (SCALE as int)),
            2 * SCALE as int,
        )),
{
    assert(5 * (SCALE as int) * (SCALE as int) >= 0) by (nonlinear_arith);
    crate::scalar::lemma_sqrt_floor_exists(5 * (SCALE as int) * (SCALE as int));
    let q = sqrt_floor(5 * (SCALE as int) * (SCALE as int));
    assert(q <= 3 * SCALE as int) by (nonlinear_arith)
        requires
            q * q <= 5 * (SCALE as int) * (SCALE as int),
            q >= 0,
            SCALE as int == 1048576,
    ;
    crate::scalar::lemma_div_trunc_mag(((SCALE as int) + q) * (SCALE as int), 2 * SCALE as int);
    assert(((SCALE as int) + q) * (SCALE as int) >= 0) by (nonlinear_arith)
        requires
            q >= 0,
            SCALE as int > 0,
    ;
    assert(golden() >= 0) by {
        if ((SCALE as int) + q) * (SCALE as int) > 0 {
            assert(golden() == (((SCALE as int) + q) * (SCALE as int)) / (2 * SCALE as int));
            assert((((SCALE as int) + q) * (SCALE as int)) / (2 * SCALE as int) >= 0)
                by (nonlinear_arith)
                requires
                    ((SCALE as int) + q) * (SCALE as int) > 0,
                    SCALE as int > 0,
            ;
        }
    }
    assert(abs_i(((SCALE as int) + q) * (SCALE as int)) == ((SCALE as int) + q) * (SCALE as int))
        by (nonlinear_arith)
        requires
            q >= 0,
            SCALE as int > 0,
    ;
    assert(golden() <= 2 * SCALE as int) by (nonlinear_arith)
        requires
            abs_i(golden()) * (2 * SCALE as int) <= ((SCALE as int) + q) * (SCALE as int),
            q <= 3 * SCALE as int,
            abs_i(golden()) == golden(),
            SCALE as int == 1048576,
    ;
}

/// One icosahedron vertex: a base coordinate triple scaled by the radius
/// and shifted to the origin, in blue with a flat normal.
pub open spec fn ico_vertex(origin: Position, radius: int, bx: int, by: int, bz: int) -> Vertex {
    Vertex {
        position: Position {
            x: (fmul(bx, radius) + origin.x) as i64,
            y: (fmul(by, radius) + origin.y) as i64,
            z: (fmul(bz, radius) + origin.z) as i64,
            w: SCALE,
        },
        color: Color { r: 0, g: 0, b: SCALE, a: SCALE },
        normal: Normal { x: 0, y: 0, z: SCALE },
    }
}

/// The twelve icosahedron vertices, from the golden-ratio rectangles.
pub open spec fn ico_verts(origin: Position, radius: int) -> Seq<Vertex> {
    let s = SCALE as int;
    let t = golden();
    seq![
        ico_vertex(origin, radius, -s, t, 0),
        ico_vertex(origin, radius, s, t, 0),
        ico_vertex(origin, radius, -s, -t, 0),
        ico_vertex(origin, radius, s, -t, 0),
        ico_vertex(origin, radius, 0, -s, t),
        ico_vertex(origin, radius, 0, s, t),
        ico_vertex(origin, radius, 0, -s, -t),
        ico_vertex(origin, radius, 0, s, -t),
        ico_vertex(origin, radius, t, 0, -s),
        ico_vertex(origin, radius, t, 0, s),
        ico_vertex(origin, radius, -t, 0, -s),
        ico_vertex(origin, radius, -t, 0, s),
    ]
}

/// The twenty triangles of the icosahedron.
pub open spec fn ico_indices() -> Seq<u16> {
    seq![
        0u16, 11u16, 5u16, 0u16, 5u16, 1u16, 0u16, 1u16, 7u16, 0u16, 7u16, 10u16, 0u16, 10u16,
        11u16, 1u16, 5u16, 9u16, 5u16, 11u16, 4u16, 11u16, 10u16, 2u16, 10u16, 7u16, 6u16, 7u16,
        1u16, 8u16, 3u16, 9u16, 4u16, 3u16, 4u16, 2u16, 3u16, 2u16, 6u16, 3u16, 6u16, 8u16, 3u16,
        8u16, 9u16, 4u16, 9u16, 5u16, 2u16, 4u16, 11u16, 6u16, 2u16, 10u16, 8u16, 6u16, 7u16,
        9u16, 8u16, 1u16,
    ]
}

/// Scaled base coordinates of the icosahedron fit the coordinate range.
proof fn lemma_ico_scale_bounds(radius: int, t: int)
    requires
        0 < radius <= (COORD_LIMIT as int) / 4,
        0 <= t <= 2 * SCALE as int,
    ensures
        abs_i(fmul(-(SCALE as int), radius)) <= (COORD_LIMIT as int) / 2,
        abs_i(fmul(SCALE as int, radius)) <= (COORD_LIMIT as int) / 2,
        abs_i(fmul(t, radius)) <= (COORD_LIMIT as int) / 2,
        abs_i(fmul(-t, radius)) <= (COORD_LIMIT as int) / 2,
        abs_i(fmul(0, radius)) <= (COORD_LIMIT as int) / 2,
{
    assert((SCALE as int) * ((COORD_LIMIT as int) / 4) <= ((COORD_LIMIT as int) / 2) * (
    SCALE as int)) by (nonlinear_arith)
        requires
            SCALE as int == 1048576,
            COORD_LIMIT as int == 274877906944,
    ;
    assert((2 * SCALE as int) * ((COORD_LIMIT as int) / 4) <= ((COORD_LIMIT as int) / 2) * (
    SCALE as int)) by (nonlinear_arith)
        requires
            SCALE as int == 1048576,
            COORD_LIMIT as int == 274877906944,
    ;
    lemma_fmul_bound_by(
        -(SCALE as int),
        radius,
        SCALE as int,
        (COORD_LIMIT as int) / 4,
        (COORD_LIMIT as int) / 2,
    );
    lemma_fmul_bound_by(
        SCALE as int,
        radius,
        SCALE as int,
        (COORD_LIMIT as int) / 4,
        (COORD_LIMIT as int) / 2,
    );
    lemma_fmul_bound_by(
        t,
        radius,
        2 * SCALE as int,
        (COORD_LIMIT as int) / 4,
        (COORD_LIMIT as int) / 2,
    );
    lemma_fmul_bound_by(
        -t,
        radius,
        2 * SCALE as int,
        (COORD_LIMIT as int) / 4,
        (COORD_LIMIT as int) / 2,
    );
    lemma_fmul_bound_by(
        0,
        radius,
        2 * SCALE as int,
        (COORD_LIMIT as int) / 4,
        (COORD_LIMIT as int) / 2,
    );
}

/// One icosahedron vertex, executably.
fn ico_vertex_exec(origin: Position, radius: i64, bx: i64, by: i64, bz: i64) -> (r: Vertex)
    requires
        sphere_fits(origin, radius as int),
        radius > 0,
        abs_i(fmul(bx as int, radius as int)) <= (COORD_LIMIT as int) / 2,
        abs_i(fmul(by as int, radius as int)) <= (COORD_LIMIT as int) / 2,
        abs_i(fmul(bz as int, radius as int)) <= (COORD_LIMIT as int) / 2,
    ensures
        r == ico_vertex(origin, radius as int, bx as int, by as int, bz as int),
{
    Vertex::new(
        Position::new(
            fx_mul(bx, radius) + origin.x,
            fx_mul(by, radius) + origin.y,
            fx_mul(bz, radius) + origin.z,
            SCALE,
        ),
        Color::blue(),
        Normal::new(0, 0, SCALE),
    )
}

/// The cube-to-sphere warp of a face point: each component corrected by the
/// closed-form square-root factor of the other two, then scaled by the
/// radius.
pub open spec fn spherify_spec(pos: Position, radius: int) -> Position {
    let x2 = fmul(pos.x as int, pos.x as int);
    let y2 = fmul(pos.y as int, pos.y as int);
    let z2 = fmul(pos.z as int, pos.z as int);
    let s = SCALE as int;
    let fx = sqrt_floor(
        (s - fmul(y2, HALF as int) - fmul(z2, HALF as int) + fdiv(fmul(y2, z2), 3 * s)) * s,
    );
    let fy = sqrt_floor(
        (s - fmul(z2, HALF as int) - fmul(x2, HALF as int) + fdiv(fmul(z2, x2), 3 * s)) * s,
    );
    let fz = sqrt_floor(
        (s - fmul(x2, HALF as int) - fmul(y2, HALF as int) + fdiv(fmul(x2, y2), 3 * s)) * s,
    );
    Position {
        x: fmul(fmul(pos.x as int, fx), radius) as i64,
        y: fmul(fmul(pos.y as int, fy), radius) as i64,
        z: fmul(fmul(pos.z as int, fz), radius) as i64,
        w: SCALE,
    }
}

/// The warp, executably.
fn spherify(pos: Position, radius: i64) -> (r: Position)
    requires
        abs_i(pos.x as int) <= SCALE as int,
        abs_i(pos.y as int) <= SCALE as int,
        abs_i(pos.z as int) <= SCALE as int,
        0 < radius <= (COORD_LIMIT as int) / 4,
    ensures
        r == spherify_spec(pos, radius as int),
        abs_i(r.x as int) <= (COORD_LIMIT as int) / 2,
        abs_i(r.y as int) <= (COORD_LIMIT as int) / 2,
        abs_i(r.z as int) <= (COORD_LIMIT as int) / 2,
{
    proof {
        lemma_sq_unit(pos.x as int);
        lemma_sq_unit(pos.y as int);
        lemma_sq_unit(pos.z as int);
    }
    let x2 = fx_mul(pos.x, pos.x);
    let y2 = fx_mul(pos.y, pos.y);
    let z2 = fx_mul(pos.z, pos.z);
    let fx = warp_factor(y2, z2);
    let fy = warp_factor(z2, x2);
    let fz = warp_factor(x2, y2);
    proof {
        lemma_warp_apply(pos.x as int, fx as int, radius as int);
        lemma_warp_apply(pos.y as int, fy as int, radius as int);
        lemma_warp_apply(pos.z as int, fz as int, radius as int);
    }
    Position::new(
        fx_mul(fx_mul(pos.x, fx), radius),
        fx_mul(fx_mul(pos.y, fy), radius),
        fx_mul(fx_mul(pos.z, fz), radius),
        SCALE,
    )
}

/// The square of a unit-bounded scalar is a unit-bounded non-negative
/// scalar.
proof fn lemma_sq_unit(a: int)
    requires
        abs_i(a) <= SCALE as int,
    ensures
        0 <= fmul(a, a) <= SCALE as int,
{
    assert(a * a >= 0) by (nonlinear_arith);
    lemma_fmul_nonneg(a, a);
    lemma_fmul_bound_by(a, a, SCALE as int, SCALE as int, SCALE as int);
}

/// The square-root correction factor for one axis, from the squares of the
/// other two.
fn warp_factor(a2: i64, b2: i64) -> (r: i64)
    requires
        0 <= a2 <= SCALE,
        0 <= b2 <= SCALE,
    ensures
        r as int == sqrt_floor(
            ((SCALE as int) - fmul(a2 as int, HALF as int) - fmul(b2 as int, HALF as int) + fdiv(
                fmul(a2 as int, b2 as int),
                3 * SCALE as int,
            )) * (SCALE as int),
        ),
        0 <= r <= 2 * SCALE,
{
    proof {
        lemma_fmul_bound_by(a2 as int, HALF as int, SCALE as int, HALF as int, HALF as int);
        lemma_fmul_bound_by(b2 as int, HALF as int, SCALE as int, HALF as int, HALF as int);
        assert(a2 as int * (HALF as int) >= 0) by (nonlinear_arith)
            requires
                a2 >= 0,
        ;
        assert(b2 as int * (HALF as int) >= 0) by (nonlinear_arith)
            requires
                b2 >= 0,
        ;
        lemma_fmul_nonneg(a2 as int, HALF as int);
        lemma_fmul_nonneg(b2 as int, HALF as int);
        assert(a2 as int * (b2 as int) >= 0) by (nonlinear_arith)
            requires
                a2 >= 0,
                b2 >= 0,
        ;
        lemma_fmul_nonneg(a2 as int, b2 as int);
        lemma_fmul_bound_by(a2 as int, b2 as int, SCALE as int, SCALE as int, SCALE as int);
        lemma_third_bounds(fmul(a2 as int, b2 as int));
    }
    let ha = fx_mul(a2, HALF);
    let hb = fx_mul(b2, HALF);
    let cross = fx_mul(a2, b2);
    let third = fx_div(cross, 3 * SCALE);
    let inner = SCALE - ha - hb + third;
    proof {
        assert(0 <= inner as int <= 2 * SCALE as int);
    }
    let r = fx_sqrt(inner);
    proof {
        assert(r as int <= 2 * SCALE as int) by (nonlinear_arith)
            requires
                (r as int) * (r as int) <= (inner as int) * (SCALE as int),
                0 <= inner as int <= 2 * SCALE as int,
                r >= 0,
                SCALE as int == 1048576,
        ;
    }
    r
}

/// A third of a unit-bounded non-negative scalar stays a unit-bounded
/// non-negative scalar.
proof fn lemma_third_bounds(v: int)
    requires
        0 <= v <= SCALE as int,
    ensures
        0 <= fdiv(v, 3 * SCALE as int) <= SCALE as int,
{
    crate::scalar::lemma_div_trunc_mag(v * (SCALE as int), 3 * SCALE as int);
    assert(v * (SCALE as int) >= 0) by (nonlinear_arith)
        requires
            v >= 0,
    ;
    crate::scalar::lemma_fmul_nonneg(v, SCALE as int);
    assert(fdiv(v, 3 * SCALE as int) >= 0) by {
        if v * (SCALE as int) > 0 {
            assert(fdiv(v, 3 * SCALE as int) == (v * (SCALE as int)) / (3 * SCALE as int));
            assert((v * (SCALE as int)) / (3 * SCALE as int) >= 0) by (nonlinear_arith)
                requires
                    v * (SCALE as int) > 0,
                    SCALE as int > 0,
            ;
        }
    }
    assert(abs_i(v * (SCALE as int)) == v * (SCALE as int)) by (nonlinear_arith)
        requires
            v >= 0,
            SCALE as int > 0,
    ;
    assert(fdiv(v, 3 * SCALE as int) <= SCALE as int) by (nonlinear_arith)
        requires
            abs_i(fdiv(v, 3 * SCALE as int)) * (3 * SCALE as int) <= v * (SCALE as int),
            0 <= v <= SCALE as int,
            abs_i(fdiv(v, 3 * SCALE as int)) == fdiv(v, 3 * SCALE as int),
            SCALE as int == 1048576,
    ;
}

/// Applying a warp factor and the radius to a unit coordinate stays inside
/// half the coordinate range.
proof fn lemma_warp_apply(c: int, f: int, radius: int)
    requires
        abs_i(c) <= SCALE as int,
        0 <= f <= 2 * SCALE as int,
        0 < radius <= (COORD_LIMIT as int) / 4,
    ensures
        abs_i(fmul(c, f)) <= 2 * SCALE as int,
        abs_i(fmul(fmul(c, f), radius)) <= (COORD_LIMIT as int) / 2,
        crate::scalar::fits_i64(fmul(c, f)),
        crate::scalar::fits_i64(fmul(fmul(c, f), radius)),
{
    assert((SCALE as int) * (2 * SCALE as int) <= (2 * SCALE as int) * (SCALE as int)
        && (2 * SCALE as int) * ((COORD_LIMIT as int) / 4) <= ((COORD_LIMIT as int) / 2) * (
    SCALE as int)) by (nonlinear_arith)
        requires
            SCALE as int == 1048576,
            COORD_LIMIT as int == 274877906944,
    ;
    lemma_fmul_bound_by(c, f, SCALE as int, 2 * SCALE as int, 2 * SCALE as int);
    lemma_fmul_bound_by(
        fmul(c, f),
        radius,
        2 * SCALE as int,
        (COORD_LIMIT as int) / 4,
        (COORD_LIMIT as int) / 2,
    );
}

/// One spherified cube vertex: the face point of face `s` at grid cell
/// `(i, j)`, warped, scaled and shifted.
pub open spec fn sc_vertex(origin: Position, radius: int, s: int, i: int, j: int) -> Vertex {
    let sx = (i * 262144 - 1048576) as i64;
    let sy = (j * 262144 - 1048576) as i64;
    let pos = if s == 0 {
        Position { x: SCALE, y: sx, z: sy, w: SCALE }
    } else if s == 1 {
        Position { x: (-SCALE) as i64, y: sx, z: sy, w: SCALE }
    } else if s == 2 {
        Position { x: sx, y: SCALE, z: sy, w: SCALE }
    } else if s == 3 {
        Position { x: sx, y: (-SCALE) as i64, z: sy, w: SCALE }
    } else if s == 4 {
        Position { x: sx, y: sy, z: SCALE, w: SCALE }
    } else {
        Position { x: sx, y: sy, z: (-SCALE) as i64, w: SCALE }
    };
    let warped = spherify_spec(pos, radius);
    Vertex {
        position: Position {
            x: (warped.x + origin.x) as i64,
            y: (warped.y + origin.y) as i64,
            z: (warped.z + origin.z) as i64,
            w: SCALE,
        },
        color: Color { r: 0, g: 0, b: SCALE, a: SCALE },
        normal: Normal { x: 0, y: 0, z: SCALE },
    }
}

/// The spherified cube vertices: six faces of sixty-four grid points.
#[verifier::opaque]
pub open spec fn sc_verts(origin: Position, radius: int) -> Seq<Vertex> {
    Seq::new(384, |q: int| sc_vertex(origin, radius, q / 64, (q % 64) / 8, q % 8))
}

/// Entry `q` of the spherified cube index list: six entries per interior
/// grid cell, seven cells to a side, face by face.
pub open spec fn sc_index_at(q: int) -> int {
    let cell = q / 6;
    let r = q % 6;
    let s = cell / 49;
    let rr = cell % 49;
    let i = rr / 7;
    let j = rr % 7;
    let base = s * 64 + i * 8 + j;
    if r == 0 {
        base
    } else if r == 1 {
        base + 9
    } else if r == 2 {
        base + 1
    } else if r == 3 {
        base + 1
    } else if r == 4 {
        base + 9
    } else {
        base + 8
    }
}

#[verifier::opaque]
pub open spec fn sc_indices() -> Seq<u16> {
    Seq::new(1764, |q: int| sc_index_at(q) as u16)
}

/// The per-stack products of the latitude/longitude grid stay within a
/// quarter of the coordinate range.
proof fn lemma_uv_terms(radius: int, i: int)
    requires
        0 < radius <= (COORD_LIMIT as int) / 4,
    ensures
        abs_i(fmul(radius, sin_tab_spec(i))) <= (COORD_LIMIT as int) / 4,
        abs_i(fmul(radius, cos_tab_spec(i))) <= (COORD_LIMIT as int) / 4,
        crate::scalar::fits_i64(fmul(radius, sin_tab_spec(i))),
        crate::scalar::fits_i64(fmul(radius, cos_tab_spec(i))),
{
    crate::trig::lemma_tab_bounds(i);
    lemma_fmul_bound_by(
        radius,
        sin_tab_spec(i),
        (COORD_LIMIT as int) / 4,
        SCALE as int,
        (COORD_LIMIT as int) / 4,
    );
    lemma_fmul_bound_by(
        radius,
        cos_tab_spec(i),
        (COORD_LIMIT as int) / 4,
        SCALE as int,
        (COORD_LIMIT as int) / 4,
    );
}

/// The six index entries of latitude/longitude cell `(i, j)`.
proof fn lemma_uv_cell(i: int, j: int)
    requires
        0 <= i < 32,
        0 <= j < 32,
    ensures
        ({
            let c = 6 * (32 * i + j);
            let k1 = i * 33 + j;
            let k2 = k1 + 33;
            &&& 192 * i + 6 * j == c
            &&& uv_index_at(c) == k1
            &&& uv_index_at(c + 1) == k2
            &&& uv_index_at(c + 2) == k2 + 1
            &&& uv_index_at(c + 3) == k1
            &&& uv_index_at(c + 4) == k2 + 1
            &&& uv_index_at(c + 5) == k1 + 1
            &&& k2 + 1 <= 65535
        }),
{
    let cell = 32 * i + j;
    let c = 6 * cell;
    assert(192 * i + 6 * j == c) by (nonlinear_arith)
        requires
            c == 6 * (32 * i + j),
    ;
    lemma_fundamental_div_mod_converse_div(cell, 32, i, j);
    lemma_fundamental_div_mod_converse_mod(cell, 32, i, j);
    lemma_fundamental_div_mod_converse_div(c + 0, 6, cell, 0);
    lemma_fundamental_div_mod_converse_mod(c + 0, 6, cell, 0);
    lemma_fundamental_div_mod_converse_div(c + 1, 6, cell, 1);
    lemma_fundamental_div_mod_converse_mod(c + 1, 6, cell, 1);
    lemma_fundamental_div_mod_converse_div(c + 2, 6, cell, 2);
    lemma_fundamental_div_mod_converse_mod(c + 2, 6, cell, 2);
    lemma_fundamental_div_mod_converse_div(c + 3, 6, cell, 3);
    lemma_fundamental_div_mod_converse_mod(c + 3, 6, cell, 3);
    lemma_fundamental_div_mod_converse_div(c + 4, 6, cell, 4);
    lemma_fundamental_div_mod_converse_mod(c + 4, 6, cell, 4);
    lemma_fundamental_div_mod_converse_div(c + 5, 6, cell, 5);
    lemma_fundamental_div_mod_converse_mod(c + 5, 6, cell, 5);
}

/// Every latitude/longitude index points inside the vertex grid.
proof fn lemma_uv_entry_bounds(q: int)
    requires
        0 <= q < 6144,
    ensures
        0 <= uv_index_at(q) < 1089,
        (uv_indices()[q] as int) == uv_index_at(q),
{
    lemma_fundamental_div_mod(q, 6);
    lemma_mod_division_less_than_divisor(q, 6);
    let cell = q / 6;
    assert(0 <= cell < 1024) by (nonlinear_arith)
        requires
            q == 6 * cell + q % 6,
            0 <= q % 6 < 6,
            0 <= q < 6144,
    ;
    lemma_fundamental_div_mod(cell, 32);
    lemma_mod_division_less_than_divisor(cell, 32);
    let i = cell / 32;
    assert(0 <= i < 32) by (nonlinear_arith)
        requires
            cell == 32 * i + cell % 32,
            0 <= cell % 32 < 32,
            0 <= cell < 1024,
    ;
    assert(0 <= i * 33 + cell % 32 && i * 33 + cell % 32 + 34 < 1089) by (nonlinear_arith)
        requires
            0 <= i < 32,
            0 <= cell % 32 < 32,
    ;
    reveal(uv_indices);
}

/// The six index entries of spherified cube cell `(s, i, j)`.
proof fn lemma_sc_cell(s: int, i: int, j: int)
    requires
        0 <= s < 6,
        0 <= i < 7,
        0 <= j < 7,
    ensures
        ({
            let c = 6 * (49 * s + 7 * i + j);
            let base = s * 64 + i * 8 + j;
            &&& 294 * s + 42 * i + 6 * j == c
            &&& sc_index_at(c) == base
            &&& sc_index_at(c + 1) == base + 9
            &&& sc_index_at(c + 2) == base + 1
            &&& sc_index_at(c + 3) == base + 1
            &&& sc_index_at(c + 4) == base + 9
            &&& sc_index_at(c + 5) == base + 8
            &&& base + 9 <= 65535
        }),
{
    let cell = 49 * s + 7 * i + j;
    let c = 6 * cell;
    assert(294 * s + 42 * i + 6 * j == c) by (nonlinear_arith)
        requires
            c == 6 * (49 * s + 7 * i + j),
    ;
    lemma_fundamental_div_mod_converse_div(cell, 49, s, 7 * i + j);
    lemma_fundamental_div_mod_converse_mod(cell, 49, s, 7 * i + j);
    lemma_fundamental_div_mod_converse_div(7 * i + j, 7, i, j);
    lemma_fundamental_div_mod_converse_mod(7 * i + j, 7, i, j);
    lemma_fundamental_div_mod_converse_div(c + 0, 6, cell, 0);
    lemma_fundamental_div_mod_converse_mod(c + 0, 6, cell, 0);
    lemma_fundamental_div_mod_converse_div(c + 1, 6, cell, 1);
    lemma_fundamental_div_mod_converse_mod(c + 1, 6, cell, 1);
    lemma_fundamental_div_mod_converse_div(c + 2, 6, cell, 2);
    lemma_fundamental_div_mod_converse_mod(c + 2, 6, cell, 2);
    lemma_fundamental_div_mod_converse_div(c + 3, 6, cell, 3);
    lemma_fundamental_div_mod_converse_mod(c + 3, 6, cell, 3);
    lemma_fundamental_div_mod_converse_div(c + 4, 6, cell, 4);
    lemma_fundamental_div_mod_converse_mod(c + 4, 6, cell, 4);
    lemma_fundamental_div_mod_converse_div(c + 5, 6, cell, 5);
    lemma_fundamental_div_mod_converse_mod(c + 5, 6, cell, 5);
}

/// Every spherified cube index points inside the vertex list.
proof fn lemma_sc_entry_bounds(q: int)
    requires
        0 <= q < 1764,
    ensures
        0 <= sc_index_at(q) < 384,
        (sc_indices()[q] as int) == sc_index_at(q),
{
    lemma_fundamental_div_mod(q, 6);
    lemma_mod_division_less_than_divisor(q, 6);
    let cell = q / 6;
    assert(0 <= cell < 294) by (nonlinear_arith)
        requires
            q == 6 * cell + q % 6,
            0 <= q % 6 < 6,
            0 <= q < 1764,
    ;
    lemma_fundamental_div_mod(cell, 49);
    lemma_mod_division_less_than_divisor(cell, 49);
    let s = cell / 49;
    let rr = cell % 49;
    assert(0 <= s < 6) by (nonlinear_arith)
        requires
            cell == 49 * s + rr,
            0 <= rr < 49,
            0 <= cell < 294,
    ;
    lemma_fundamental_div_mod(rr, 7);
    lemma_mod_division_less_than_divisor(rr, 7);
    let i = rr / 7;
    assert(0 <= i < 7) by (nonlinear_arith)
        requires
            rr == 7 * i + rr % 7,
            0 <= rr % 7 < 7,
            0 <= rr < 49,
    ;
    assert(0 <= s * 64 + i * 8 + rr % 7 && s * 64 + i * 8 + rr % 7 + 9 < 384) by (nonlinear_arith)
        requires
            0 <= s < 6,
            0 <= i < 7,
            0 <= rr % 7 < 7,
    ;
    reveal(sc_indices);
}

} // verus!
