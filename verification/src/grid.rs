//! The tessellated bilinear patch: a square grid of interpolated vertices
//! over four corner control vertices, with two triangles per grid cell.

use vstd::prelude::*;

use vstd::arithmetic::div_mod::{
    lemma_fundamental_div_mod, lemma_fundamental_div_mod_converse_div,
    lemma_fundamental_div_mod_converse_mod, lemma_mod_division_less_than_divisor,
};

use crate::mesh::{mesh_in_range, mesh_valid, Mesh};
use crate::scalar::SCALE;
use crate::vertex::{bilerp, bilerp_spec, vert_in_range, Vertex};

verus! {

/// The interpolation weight of grid line `i` out of `n`: `i/n` in fixed
/// point, rounded down.
pub open spec fn grid_weight(i: int, n: int) -> int
    recommends
        n >= 1,
{
    (i * (SCALE as int)) / n
}

/// The grid vertices in row-major order: position `i·(n+1) + j` holds the
/// blend at weights `(i/n, j/n)`.
pub open spec fn grid_verts(v1: Vertex, v2: Vertex, v3: Vertex, v4: Vertex, n: int) -> Seq<Vertex> {
    Seq::new(
        (((n + 1) * (n + 1)) as nat),
        |q: int|
            bilerp_spec(
                v1,
                v2,
                v3,
                v4,
                grid_weight(q / (n + 1), n),
                grid_weight(q % (n + 1), n),
            ),
    )
}

/// The value of entry `q` of the grid index list: six indices per cell,
/// cells in row-major order, each cell wound as two triangles.
pub open spec fn grid_index_at(n: int, q: int) -> int
    recommends
        n >= 1,
{
    let cell = q / 6;
    let r = q % 6;
    let i = cell / n;
    let j = cell % n;
    let base = i * (n + 1) + j;
    if r == 0 {
        base + n + 1
    } else if r == 1 {
        base
    } else if r == 2 {
        base + n + 2
    } else if r == 3 {
        base
    } else if r == 4 {
        base + 1
    } else {
        base + n + 2
    }
}

/// The grid index list.
pub open spec fn grid_indices(n: int) -> Seq<u16> {
    Seq::new(((6 * n * n) as nat), |q: int| grid_index_at(n, q) as u16)
}

/// Weights run from zero to one unit across the grid, hitting both ends
/// exactly.
pub proof fn lemma_grid_weight(i: int, n: int)
    requires
        1 <= n,
        0 <= i <= n,
    ensures
        0 <= grid_weight(i, n) <= SCALE as int,
        i == 0 ==> grid_weight(i, n) == 0,
        i == n ==> grid_weight(i, n) == SCALE as int,
{
    let s = SCALE as int;
    assert(0 <= (i * s) / n && (i * s) / n <= s) by (nonlinear_arith)
        requires
            1 <= n,
            0 <= i <= n,
            s == 1048576,
    ;
    if i == 0 {
        assert((0 * s) / n == 0) by (nonlinear_arith)
            requires
                n >= 1,
    ;
    }
    if i == n {
        assert((n * s) / n == s) by (nonlinear_arith)
            requires
                n >= 1,
                s == 1048576,
    ;
    }
}

/// Tessellate the bilinear patch spanned by four corner vertices into an
/// `(n+1) x (n+1)` grid with two triangles per cell.
pub fn grid_mesh(v1: Vertex, v2: Vertex, v3: Vertex, v4: Vertex, n: u16) -> (r: Mesh)
    requires
        1 <= n <= 254,
        vert_in_range(v1),
        vert_in_range(v2),
        vert_in_range(v3),
        vert_in_range(v4),
    ensures
        r.vertices@ == grid_verts(v1, v2, v3, v4, n as int),
        r.indices@ == grid_indices(n as int),
        r.vertices@.len() == (n + 1) * (n + 1),
        r.indices@.len() == 6 * (n as int) * (n as int),
        r.indices@.len() % 3 == 0,
        mesh_valid(r),
        mesh_in_range(r),
{
    let side: usize = n as usize + 1;
    let ghost gv = grid_verts(v1, v2, v3, v4, n as int);
    let ghost gi = grid_indices(n as int);
    proof {
        assert(gv.len() == (n + 1) * (n + 1));
        assert((n as int + 1) * (n as int + 1) <= 65025) by (nonlinear_arith)
            requires
                1 <= n as int <= 254,
        ;
        assert(6 * (n as int) * (n as int) <= 387096) by (nonlinear_arith)
            requires
                1 <= n as int <= 254,
        ;
    }
    let mut vertices: Vec<Vertex> = Vec::new();
    let mut i: usize = 0;
    while i < side
        invariant
            side == n as int + 1,
            1 <= n <= 254,
            vert_in_range(v1),
            vert_in_range(v2),
            vert_in_range(v3),
            vert_in_range(v4),
            gv == grid_verts(v1, v2, v3, v4, n as int),
            0 <= i <= side,
            vertices@.len() == i * side,
            forall|q: int| 0 <= q < vertices@.len() ==> vertices@[q] == gv[q],
            forall|q: int| 0 <= q < vertices@.len() ==> vert_in_range(#[trigger] vertices@[q]),
        decreases side - i,
    {
        let t1: i64 = ((i as u64 * 1048576) / (n as u64)) as i64;
        proof {
            lemma_grid_weight(i as int, n as int);
            assert(t1 == grid_weight(i as int, n as int));
        }
        let mut j: usize = 0;
        while j < side
            invariant
                side == n as int + 1,
                1 <= n <= 254,
                vert_in_range(v1),
                vert_in_range(v2),
                vert_in_range(v3),
                vert_in_range(v4),
                gv == grid_verts(v1, v2, v3, v4, n as int),
                0 <= i < side,
                0 <= j <= side,
                t1 == grid_weight(i as int, n as int),
                0 <= t1 <= SCALE,
                vertices@.len() == i * side + j,
                forall|q: int| 0 <= q < vertices@.len() ==> vertices@[q] == gv[q],
                forall|q: int| 0 <= q < vertices@.len() ==> vert_in_range(#[trigger] vertices@[q]),
            decreases side - j,
        {
            let t2: i64 = ((j as u64 * 1048576) / (n as u64)) as i64;
            proof {
                lemma_grid_weight(j as int, n as int);
                assert(t2 == grid_weight(j as int, n as int));
                assert(i * side + j < side * side) by (nonlinear_arith)
                    requires
                        0 <= i < side,
                        0 <= j < side,
                ;
                lemma_fundamental_div_mod_converse_div(
                    (i * side + j) as int,
                    side as int,
                    i as int,
                    j as int,
                );
                lemma_fundamental_div_mod_converse_mod(
                    (i * side + j) as int,
                    side as int,
                    i as int,
                    j as int,
                );
            }
            let v = bilerp(v1, v2, v3, v4, t1, t2);
            proof {
                assert(gv[(i * side + j) as int] == bilerp_spec(
                    v1,
                    v2,
                    v3,
                    v4,
                    grid_weight(i as int, n as int),
                    grid_weight(j as int, n as int),
                ));
            }
            vertices.push(v);
            j += 1;
        }
        i += 1;
        proof {
            assert((i - 1) * side + side == i * side) by (nonlinear_arith);
        }
    }
    proof {
        assert(i * side == side * side) by (nonlinear_arith)
            requires
                i == side,
        ;
        assert(vertices@ =~= gv);
    }
    let mut indices: Vec<u16> = Vec::new();
    let mut ci: usize = 0;
    while ci < n as usize
        invariant
            1 <= n <= 254,
            gi == grid_indices(n as int),
            0 <= ci <= n as int,
            indices@.len() == 6 * ci * (n as int),
            forall|q: int| 0 <= q < indices@.len() ==> indices@[q] == gi[q],
        decreases n as int - ci,
    {
        let mut cj: usize = 0;
        while cj < n as usize
            invariant
                1 <= n <= 254,
                gi == grid_indices(n as int),
                0 <= ci < n as int,
                0 <= cj <= n as int,
                indices@.len() == 6 * ci * (n as int) + 6 * cj,
                forall|q: int| 0 <= q < indices@.len() ==> indices@[q] == gi[q],
            decreases n as int - cj,
        {
            proof {
                lemma_grid_cell_entries(n as int, ci as int, cj as int);
                assert((ci as int) * (n as int + 1) + cj as int + n as int + 2 <= 65535)
                    by (nonlinear_arith)
                    requires
                        0 <= ci < n as int,
                        0 <= cj < n as int,
                        n as int <= 254,
                ;
                assert(6 * (ci as int) * (n as int) + 6 * (cj as int) == 6 * ((ci as int) * (
                n as int) + (cj as int))) by (nonlinear_arith);
            }
            let base: usize = ci * (n as usize + 1) + cj;
            indices.push((base + n as usize + 1) as u16);
            indices.push(base as u16);
            indices.push((base + n as usize + 2) as u16);
            indices.push(base as u16);
            indices.push((base + 1) as u16);
            indices.push((base + n as usize + 2) as u16);
            cj += 1;
        }
        ci += 1;
        proof {
            assert(6 * (ci - 1) * (n as int) + 6 * (n as int) == 6 * ci * (n as int))
                by (nonlinear_arith);
        }
    }
    proof {
        assert(6 * (n as int) * (n as int) == gi.len());
        assert(indices@ =~= gi);
        assert(6 * (n as int) * (n as int) == (2 * (n as int) * (n as int)) * 3 + 0)
            by (nonlinear_arith);
        lemma_fundamental_div_mod_converse_mod(
            6 * (n as int) * (n as int),
            3,
            2 * (n as int) * (n as int),
            0,
        );
        lemma_grid_indices_valid(n as int);
        assert(forall|k: int|
            0 <= k < gi.len() ==> (#[trigger] gi[k] as int) < gv.len());
    }
    Mesh { vertices, indices }
}

/// The six index entries of cell `(i, j)` occupy positions `6·(i·n + j)`
/// through five past it and carry the cell's two-triangle winding.
pub proof fn lemma_grid_cell_entries(n: int, i: int, j: int)
    requires
        1 <= n,
        0 <= i < n,
        0 <= j < n,
    ensures
        ({
            let c = 6 * (i * n + j);
            let base = i * (n + 1) + j;
            &&& 0 <= c && c + 6 <= 6 * n * n
            &&& grid_index_at(n, c) == base + n + 1
            &&& grid_index_at(n, c + 1) == base
            &&& grid_index_at(n, c + 2) == base + n + 2
            &&& grid_index_at(n, c + 3) == base
            &&& grid_index_at(n, c + 4) == base + 1
            &&& grid_index_at(n, c + 5) == base + n + 2
        }),
{
    let c = 6 * (i * n + j);
    let cell = i * n + j;
    assert(0 <= cell && cell < n * n) by (nonlinear_arith)
        requires
            cell == i * n + j,
            0 <= i < n,
            0 <= j < n,
    ;
    assert(c == 6 * cell);
    assert(c + 6 <= 6 * n * n) by (nonlinear_arith)
        requires
            c == 6 * (i * n + j),
            0 <= i < n,
            0 <= j < n,
    ;
    lemma_fundamental_div_mod_converse_div(cell, n, i, j);
    lemma_fundamental_div_mod_converse_mod(cell, n, i, j);
    lemma_fundamental_div_mod_converse_div(c + 0, 6, cell, 0);
    lemma_fundamental_div_mod_converse_mod(c + 0, 6, cell, 0);
    lemma_fundamental_div_mod_converse_div(c + 1, 6, cell, 1);
    lemma_fundamental_div_mod_converse_mod(c + 1, 6, cell, 1);
    lemma_fundamental_div_mod_converse_div(c + 2, 6, cell, 2);
    lemma_fundamental_div_mod_converse_mod(c + 2, 6, cell, 2);
    lemma_fundamental_div_mod_converse_div(c + 3, 6, cell, 3);
    lemma_fundamental_div_mod_converse_mod(c + 3, 6, cell, 3);
    lemma_fundamental_div_mod_converse_div(c + 4, 6, cell, 4);
    lemma_fundamental_div_mod_converse_mod(c + 4, 6, cell, 4);
    lemma_fundamental_div_mod_converse_div(c + 5, 6, cell, 5);
    lemma_fundamental_div_mod_converse_mod(c + 5, 6, cell, 5);
}

/// Every grid index points inside the grid vertex list.
pub proof fn lemma_grid_indices_valid(n: int)
    requires
        1 <= n <= 254,
    ensures
        forall|q: int|
            0 <= q < 6 * n * n ==> 0 <= #[trigger] grid_index_at(n, q) && grid_index_at(n, q) < (n
                + 1) * (n + 1) && grid_index_at(n, q) <= 65535,
        forall|k: int|
            0 <= k < grid_indices(n).len() ==> (#[trigger] grid_indices(n)[k] as int) < (n + 1) * (n
                + 1),
{
    assert forall|q: int|
        0 <= q < 6 * n * n implies 0 <= #[trigger] grid_index_at(n, q) && grid_index_at(n, q) < (n
        + 1) * (n + 1) && grid_index_at(n, q) <= 65535 by {
        lemma_grid_entry_bounds(n, q);
    }
    assert forall|k: int|
        0 <= k < grid_indices(n).len() implies (#[trigger] grid_indices(n)[k] as int) < (n + 1) * (n
        + 1) by {
        lemma_grid_entry_bounds(n, k);
        assert(grid_indices(n)[k] == grid_index_at(n, k) as u16);
    }
}

proof fn lemma_grid_entry_bounds(n: int, q: int)
    requires
        1 <= n <= 254,
        0 <= q < 6 * n * n,
    ensures
        0 <= grid_index_at(n, q),
        grid_index_at(n, q) < (n + 1) * (n + 1),
        grid_index_at(n, q) <= 65535,
{
    let cell = q / 6;
    let r = q % 6;
    lemma_fundamental_div_mod(q, 6);
    lemma_mod_division_less_than_divisor(q, 6);
    assert(cell >= 0) by (nonlinear_arith)
        requires
            q == 6 * cell + r,
            r < 6,
            q >= 0,
    ;
    assert(6 * cell <= q) by (nonlinear_arith)
        requires
            q == 6 * cell + r,
            r >= 0,
    ;
    assert(6 * n * n == 6 * (n * n)) by (nonlinear_arith);
    assert(cell < n * n) by (nonlinear_arith)
        requires
            6 * cell <= q,
            q < 6 * (n * n),
    ;
    let i = cell / n;
    let j = cell % n;
    lemma_fundamental_div_mod(cell, n);
    lemma_mod_division_less_than_divisor(cell, n);
    assert(0 <= i < n) by (nonlinear_arith)
        requires
            cell == n * i + j,
            0 <= j < n,
            0 <= cell < n * n,
            n >= 1,
    ;
    let base = i * (n + 1) + j;
    assert(0 <= base && base + n + 2 < (n + 1) * (n + 1)) by (nonlinear_arith)
        requires
            base == i * (n + 1) + j,
            0 <= i < n,
            0 <= j < n,
            n >= 1,
    ;
    assert((n + 1) * (n + 1) <= 65025) by (nonlinear_arith)
        requires
            1 <= n <= 254,
    ;
}

} // verus!
