//! The wave solver's grid geometry: which cells of the square height and
//! velocity fields count as interior, the row-major stencil each interior
//! cell's velocity update touches, and the laws that keep those updates
//! inside the grid, off the border, and in disjoint slots.

use vstd::prelude::*;
use vstd::arithmetic::div_mod::lemma_fundamental_div_mod_converse;
use vstd::arithmetic::mul::lemma_mul_inequality;
use crate::coords::{lemma_coords_in_frame, lemma_index_injective};

verus! {

/// Interior cells of a square `size x size` grid: at least one cell away
/// from every border. Only these receive a Laplacian/velocity update.
pub open spec fn is_interior(x: int, y: int, size: int) -> bool {
    1 <= x <= size - 2 && 1 <= y <= size - 2
}

/// Border cells: inside the grid but not interior. The velocity pass never
/// writes them.
pub open spec fn on_border(x: int, y: int, size: int) -> bool {
    0 <= x < size && 0 <= y < size && !is_interior(x, y, size)
}

/// Row-major index of cell `(x, y)` in a `size x size` grid.
pub open spec fn spec_cell_index(x: int, y: int, size: int) -> int {
    y * size + x
}

/// How many interior cells a `size x size` grid has.
pub open spec fn interior_count(size: int) -> int {
    if size >= 2 {
        (size - 2) * (size - 2)
    } else {
        0
    }
}

/// The column of the interior cell that the `k`-th stencil of the
/// row-major interior enumeration belongs to.
pub open spec fn interior_cell_x(k: int, size: int) -> int {
    1 + k % (size - 2)
}

/// The row of the interior cell that the `k`-th stencil of the row-major
/// interior enumeration belongs to.
pub open spec fn interior_cell_y(k: int, size: int) -> int {
    1 + k / (size - 2)
}

/// The number of cells a `size x size` grid holds, or `None` where that
/// extent does not fit in `usize`: the test a host makes before handing the
/// height and velocity fields to the solver.
pub fn checked_grid_len(size: usize) -> (r: Option<usize>)
    ensures
        size * size <= usize::MAX ==> r == Some((size * size) as usize),
        size * size > usize::MAX ==> r is None,
{
    size.checked_mul(size)
}

/// Row-major index of a cell, bounded by the grid's extent.
pub fn cell_index(x: usize, y: usize, size: usize) -> (i: usize)
    requires
        x < size,
        y < size,
        size * size <= usize::MAX,
    ensures
        i == spec_cell_index(x as int, y as int, size as int),
        i < size * size,
{
    proof {
        lemma_mul_inequality(y as int, size as int - 1, size as int);
        assert((size as int - 1) * (size as int) + size as int == (size as int) * (size as int))
            by (nonlinear_arith);
    }
    y * size + x
}

/// Tells whether cell `(x, y)` is interior to a `size x size` grid.
pub fn interior(x: usize, y: usize, size: usize) -> (b: bool)
    ensures
        b == is_interior(x as int, y as int, size as int),
{
    if size < 3 {
        false
    } else {
        1 <= x && x <= size - 2 && 1 <= y && y <= size - 2
    }
}

/// The five row-major cell indices that one interior cell's velocity update
/// touches: the center slot is written, the four axis neighbors are read.
#[derive(Clone, Copy, Debug, PartialEq, Eq, Structural)]
pub struct Stencil {
    pub center: usize,
    pub left: usize,
    pub right: usize,
    pub up: usize,
    pub down: usize,
}

/// `s` is the stencil of cell `(x, y)`: its own index and the indices of
/// its four axis neighbors.
pub open spec fn stencil_ok(s: Stencil, x: int, y: int, size: int) -> bool {
    &&& s.center == spec_cell_index(x, y, size)
    &&& s.left == spec_cell_index(x - 1, y, size)
    &&& s.right == spec_cell_index(x + 1, y, size)
    &&& s.up == spec_cell_index(x, y - 1, size)
    &&& s.down == spec_cell_index(x, y + 1, size)
}

/// Enumerates, in row-major order, the stencil of every interior cell of a
/// `size x size` grid: exactly the cells that the wave solver's velocity
/// pass updates, one center slot each; no border cell is a center.
pub fn interior_stencils(size: usize) -> (v: Vec<Stencil>)
    requires
        size * size <= usize::MAX,
    ensures
        v.len() == interior_count(size as int),
        forall|k: int|
            0 <= k < v.len() ==> #[trigger] stencil_ok(
                v[k],
                interior_cell_x(k, size as int),
                interior_cell_y(k, size as int),
                size as int,
            ),
        forall|k: int|
            0 <= k < v.len() ==> is_interior(
                interior_cell_x(k, size as int),
                #[trigger] interior_cell_y(k, size as int),
                size as int,
            ),
{
    let mut v: Vec<Stencil> = Vec::new();
    if size < 3 {
        proof {
            if size == 2 {
                assert((size as int - 2) * (size as int - 2) == 0) by (nonlinear_arith)
                    requires size == 2;
            }
        }
        return v;
    }
    let w: usize = size - 2;
    let mut y: usize = 1;
    while y + 1 < size
        invariant
            3 <= size,
            size * size <= usize::MAX,
            w == size - 2,
            1 <= y <= size - 1,
            v.len() == (y - 1) * (w as int),
            forall|k: int|
                0 <= k < v.len() ==> #[trigger] stencil_ok(
                    v[k],
                    interior_cell_x(k, size as int),
                    interior_cell_y(k, size as int),
                    size as int,
                ),
        decreases size - y,
    {
        let mut x: usize = 1;
        while x + 1 < size
            invariant
                3 <= size,
                size * size <= usize::MAX,
                w == size - 2,
                1 <= y <= size - 2,
                1 <= x <= size - 1,
                v.len() == (y - 1) * (w as int) + (x - 1),
                forall|k: int|
                    0 <= k < v.len() ==> #[trigger] stencil_ok(
                        v[k],
                        interior_cell_x(k, size as int),
                        interior_cell_y(k, size as int),
                        size as int,
                    ),
            decreases size - x,
        {
            proof {
                lemma_mul_inequality(y as int, size as int - 2, size as int);
                lemma_mul_inequality(1, y as int, size as int);
                assert((size as int - 2) * (size as int) + 2 * (size as int) == (size as int)
                    * (size as int)) by (nonlinear_arith);
            }
            let center: usize = y * size + x;
            let s = Stencil {
                center,
                left: center - 1,
                right: center + 1,
                up: center - size,
                down: center + size,
            };
            let ghost oldv = v@;
            let ghost k: int = v.len() as int;
            proof {
                lemma_fundamental_div_mod_converse(k, w as int, y as int - 1, x as int - 1);
                assert((y as int - 1) * (size as int) == (y as int) * (size as int) - size as int)
                    by (nonlinear_arith);
                assert((y as int + 1) * (size as int) == (y as int) * (size as int) + size as int)
                    by (nonlinear_arith);
                assert(stencil_ok(
                    s,
                    interior_cell_x(k, size as int),
                    interior_cell_y(k, size as int),
                    size as int,
                ));
            }
            v.push(s);
            proof {
                assert forall|j: int|
                    0 <= j < v.len() implies #[trigger] stencil_ok(
                    v[j],
                    interior_cell_x(j, size as int),
                    interior_cell_y(j, size as int),
                    size as int,
                ) by {
                    if j < k {
                        assert(stencil_ok(
                            oldv[j],
                            interior_cell_x(j, size as int),
                            interior_cell_y(j, size as int),
                            size as int,
                        ));
                        assert(v[j] == oldv[j]);
                    } else {
                        assert(v[j] == s);
                    }
                }
            }
            x = x + 1;
        }
        proof {
            assert((y as int - 1) * (w as int) + w as int == (y as int) * (w as int))
                by (nonlinear_arith);
        }
        y = y + 1;
    }
    proof {
        assert(v.len() == interior_count(size as int));
        assert forall|k: int|
            0 <= k < v.len() implies is_interior(
            interior_cell_x(k, size as int),
            #[trigger] interior_cell_y(k, size as int),
            size as int,
        ) by {
            lemma_coords_in_frame(k, w as int, w as int);
        }
    }
    v
}

/// Law: an interior cell's index stays inside the grid, as does every index
/// its stencil reads.
pub proof fn lemma_cell_index_in_grid(x: int, y: int, size: int)
    requires
        0 <= x < size,
        0 <= y < size,
    ensures
        0 <= spec_cell_index(x, y, size) < size * size,
{
    lemma_mul_inequality(0, y, size);
    lemma_mul_inequality(y, size - 1, size);
    assert((size - 1) * size + size == size * size) by (nonlinear_arith);
}

/// Law: every index a stencil of an interior cell touches stays inside the
/// grid, so the velocity pass reads and writes only declared memory.
pub proof fn lemma_stencil_in_bounds(s: Stencil, x: int, y: int, size: int)
    requires
        stencil_ok(s, x, y, size),
        is_interior(x, y, size),
    ensures
        0 <= s.center < size * size,
        0 <= s.left < size * size,
        0 <= s.right < size * size,
        0 <= s.up < size * size,
        0 <= s.down < size * size,
{
    lemma_cell_index_in_grid(x, y, size);
    lemma_cell_index_in_grid(x - 1, y, size);
    lemma_cell_index_in_grid(x + 1, y, size);
    lemma_cell_index_in_grid(x, y - 1, size);
    lemma_cell_index_in_grid(x, y + 1, size);
}

/// Law: every cell of the grid is exactly one of interior or border, so
/// the height pass over all cells reaches precisely the border cells that
/// the velocity pass skipped, and the cells it updated, once each.
pub proof fn lemma_interior_border_partition(x: int, y: int, size: int)
    requires
        0 <= x < size,
        0 <= y < size,
    ensures
        is_interior(x, y, size) <==> !on_border(x, y, size),
{
}

/// Law: the velocity pass never writes a border cell: an interior cell's
/// center index differs from every border cell's index, so whatever a
/// border cell's velocity was seeded with survives the pass.
pub proof fn lemma_border_center_excluded(x: int, y: int, bx: int, by: int, size: int)
    requires
        is_interior(x, y, size),
        on_border(bx, by, size),
    ensures
        spec_cell_index(x, y, size) != spec_cell_index(bx, by, size),
{
    if spec_cell_index(x, y, size) == spec_cell_index(bx, by, size) {
        lemma_index_injective(x, y, bx, by, size);
    }
}

/// Law: two distinct interior cells have distinct center indices, so the
/// velocity pass's writes land in pairwise disjoint slots.
pub proof fn lemma_disjoint_centers(x1: int, y1: int, x2: int, y2: int, size: int)
    requires
        is_interior(x1, y1, size),
        is_interior(x2, y2, size),
        !(x1 == x2 && y1 == y2),
    ensures
        spec_cell_index(x1, y1, size) != spec_cell_index(x2, y2, size),
{
    if spec_cell_index(x1, y1, size) == spec_cell_index(x2, y2, size) {
        lemma_index_injective(x1, y1, x2, y2, size);
    }
}

} // verus!
