//! Toroidal grid geometry: row-major indexing and the Moore
//! neighbourhood with wrap-around on both axes.

use vstd::prelude::*;
use vstd::arithmetic::div_mod::{lemma_mod_multiples_vanish, lemma_small_mod};

verus! {

/// Side length of the reference grid.
pub const GRID_SIZE: usize = 21;

/// Number of cells of the reference grid.
pub const TOTAL_CHARS: usize = GRID_SIZE * GRID_SIZE;

/// Row offset of the `k`-th Moore neighbour, `k` in `0..8`, in the
/// fixed enumeration order (row offsets `-1, 0, 1` outermost, column
/// offsets innermost, the cell itself skipped).
pub open spec fn row_offset(k: int) -> int {
    if k < 3 {
        -1
    } else if k < 5 {
        0
    } else {
        1
    }
}

/// Column offset of the `k`-th Moore neighbour, `k` in `0..8`.
pub open spec fn col_offset(k: int) -> int {
    if k == 0 || k == 3 || k == 5 {
        -1
    } else if k == 1 || k == 6 {
        0
    } else {
        1
    }
}

/// A coordinate moved by an offset in `{-1, 0, 1}` and wrapped onto the
/// torus.
pub open spec fn wrap(side: int, x: int, d: int) -> int {
    (x + d + side) % side
}

/// Row-major flat index of the `k`-th Moore neighbour of `(row, col)`.
pub open spec fn neighbor_position(side: int, row: int, col: int, k: int) -> int {
    wrap(side, row, row_offset(k)) * side + wrap(side, col, col_offset(k))
}

/// Wrapping by a zero offset moves nothing.
pub proof fn lemma_wrap_zero(side: int, x: int)
    requires
        0 < side,
        0 <= x < side,
    ensures
        wrap(side, x, 0) == x,
{
    lemma_mod_multiples_vanish(1, x, side);
    lemma_small_mod(x as nat, side as nat);
}

/// The coordinate one below `x` on the torus.
fn wrap_dec(side: usize, x: usize) -> (r: usize)
    requires
        1 <= side,
        x < side,
    ensures
        r == wrap(side as int, x as int, -1),
        r < side,
        x == 0 ==> r == side - 1,
        x != 0 ==> r == x - 1,
{
    if x == 0 {
        proof {
            lemma_small_mod((side - 1) as nat, side as nat);
        }
        side - 1
    } else {
        proof {
            lemma_mod_multiples_vanish(1, x - 1, side as int);
            lemma_small_mod((x - 1) as nat, side as nat);
        }
        x - 1
    }
}

/// The coordinate one above `x` on the torus.
fn wrap_inc(side: usize, x: usize) -> (r: usize)
    requires
        1 <= side,
        x < side,
    ensures
        r == wrap(side as int, x as int, 1),
        r < side,
        x == side - 1 ==> r == 0,
        x < side - 1 ==> r == x + 1,
{
    if x + 1 == side {
        proof {
            lemma_mod_multiples_vanish(2, 0, side as int);
            lemma_small_mod(0, side as nat);
        }
        0
    } else {
        proof {
            lemma_mod_multiples_vanish(1, x + 1, side as int);
            lemma_small_mod((x + 1) as nat, side as nat);
        }
        x + 1
    }
}

/// Distinct coordinate pairs have distinct row-major flat indices.
pub proof fn lemma_flat_injective(side: int, r1: int, c1: int, r2: int, c2: int)
    requires
        0 < side,
        0 <= r1 < side,
        0 <= c1 < side,
        0 <= r2 < side,
        0 <= c2 < side,
        r1 * side + c1 == r2 * side + c2,
    ensures
        r1 == r2,
        c1 == c2,
{
    assert(r1 == r2 && c1 == c2) by (nonlinear_arith)
        requires
            0 < side,
            0 <= r1 < side,
            0 <= c1 < side,
            0 <= r2 < side,
            0 <= c2 < side,
            r1 * side + c1 == r2 * side + c2,
    ;
}

/// Row-major flat index of a coordinate pair.
fn flat_index(side: usize, r: usize, c: usize) -> (idx: usize)
    requires
        r < side,
        c < side,
        (side as int) * (side as int) <= usize::MAX as int,
    ensures
        idx == r * side + c,
        idx < side * side,
{
    proof {
        assert((r as int) * (side as int) + (c as int) < (side as int) * (side as int))
            by (nonlinear_arith)
            requires
                (r as int) < (side as int),
                (c as int) < (side as int),
        ;
    }
    r * side + c
}

/// The 8 toroidal Moore neighbours of `(row, col)`, as row-major flat
/// indices: exactly 8 positions, each in the grid, pairwise distinct,
/// and none of them the cell itself — at every position, edges and
/// corners included, thanks to the wrap-around.
pub fn get_neighbors(side: usize, row: usize, col: usize) -> (r: Vec<usize>)
    requires
        3 <= side,
        row < side,
        col < side,
        (side as int) * (side as int) <= usize::MAX as int,
    ensures
        r@.len() == 8,
        forall|k: int|
            0 <= k < 8 ==> #[trigger] r@[k] == neighbor_position(
                side as int,
                row as int,
                col as int,
                k,
            ),
        forall|k: int| 0 <= k < 8 ==> #[trigger] r@[k] < side * side,
        forall|k: int| 0 <= k < 8 ==> #[trigger] r@[k] != row * side + col,
        forall|k1: int, k2: int|
            0 <= k1 < 8 && 0 <= k2 < 8 && k1 != k2 ==> r@[k1] != r@[k2],
{
    let rm = wrap_dec(side, row);
    let rp = wrap_inc(side, row);
    let cm = wrap_dec(side, col);
    let cp = wrap_inc(side, col);
    proof {
        lemma_wrap_zero(side as int, row as int);
        lemma_wrap_zero(side as int, col as int);
        assert(rm != row && rp != row && rm != rp);
        assert(cm != col && cp != col && cm != cp);
    }
    let mut r: Vec<usize> = Vec::new();
    r.push(flat_index(side, rm, cm));
    r.push(flat_index(side, rm, col));
    r.push(flat_index(side, rm, cp));
    r.push(flat_index(side, row, cm));
    r.push(flat_index(side, row, cp));
    r.push(flat_index(side, rp, cm));
    r.push(flat_index(side, rp, col));
    r.push(flat_index(side, rp, cp));
    proof {
        let s = side as int;
        let ri = row as int;
        let ci = col as int;
        assert forall|k: int| 0 <= k < 8 implies #[trigger] r@[k] == neighbor_position(
            s,
            ri,
            ci,
            k,
        ) by {
            assert(wrap(s, ri, 0) == ri && wrap(s, ci, 0) == ci);
        }
        assert forall|k: int| 0 <= k < 8 implies #[trigger] r@[k] != ri * s + ci by {
            if r@[k] == ri * s + ci {
                lemma_flat_injective(
                    s,
                    wrap(s, ri, row_offset(k)),
                    wrap(s, ci, col_offset(k)),
                    ri,
                    ci,
                );
            }
        }
        assert forall|k1: int, k2: int|
            0 <= k1 < 8 && 0 <= k2 < 8 && k1 != k2 implies r@[k1] != r@[k2] by {
            if r@[k1] == r@[k2] {
                lemma_flat_injective(
                    s,
                    wrap(s, ri, row_offset(k1)),
                    wrap(s, ci, col_offset(k1)),
                    wrap(s, ri, row_offset(k2)),
                    wrap(s, ci, col_offset(k2)),
                );
            }
        }
    }
    r
}

} // verus!
