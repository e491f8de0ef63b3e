use vstd::prelude::*;
use crate::grid::{alive_in, cell_index, lemma_cell_index, map_alive, step_cells, steps};
use crate::rules::{block_count, neighbour_count};

verus! {

/// The alive predicate of a `width` by `height` grid with alive flags `cells`.
pub open spec fn alive_fn(width: int, height: int, cells: Seq<bool>) -> spec_fn(int, int) -> bool {
    |x: int, y: int| alive_in(width, height, cells, x, y)
}

/// After one step, the cell `(x, y)` is alive exactly when it had two or three
/// alive neighbours before: with at most one it dies, with four or more it dies,
/// and in neither case does its own state matter.
pub proof fn lemma_step_cell(width: int, height: int, cells: Seq<bool>, x: int, y: int)
    requires
        0 < height,
        cells.len() == width * height,
        0 <= x < width,
        0 <= y < height,
    ensures
        ({
            let count = neighbour_count(alive_fn(width, height, cells), x, y);
            let next = step_cells(width, height, cells)[cell_index(height, x, y)];
            &&& count <= 1 ==> !next
            &&& 2 <= count <= 3 ==> next
            &&& count >= 4 ==> !next
        }),
{
    lemma_cell_index(width, height, x, y);
}

/// A neighbourhood in which nothing is alive counts zero.
proof fn lemma_block_count_dead(alive: spec_fn(int, int) -> bool, cx: int, cy: int, k: int)
    requires
        forall|x: int, y: int| !#[trigger] alive(x, y),
    ensures
        block_count(alive, cx, cy, k) == 0,
    decreases k,
{
    if k > 0 {
        lemma_block_count_dead(alive, cx, cy, k - 1);
    }
}

/// A grid with no live cell stays without one for any number of steps.
pub proof fn lemma_dead_grid_stays_dead(width: int, height: int, cells: Seq<bool>, n: nat)
    requires
        0 < height,
        cells.len() == width * height,
        forall|i: int| 0 <= i < cells.len() ==> !#[trigger] cells[i],
    ensures
        steps(width, height, cells, n) == cells,
    decreases n,
{
    if n > 0 {
        lemma_dead_grid_stays_dead(width, height, cells, (n - 1) as nat);
        let alive = alive_fn(width, height, cells);
        assert forall|x: int, y: int| !#[trigger] alive(x, y) by {
            if 0 <= x < width && 0 <= y < height {
                lemma_cell_index(width, height, x, y);
            }
        }
        let next = step_cells(width, height, cells);
        assert forall|i: int| 0 <= i < cells.len() implies next[i] == cells[i] by {
            lemma_block_count_dead(alive, i / height, i % height, 9);
        }
        assert(next =~= cells);
    }
}

/// The corner cell `(0, 0)` counts only its three neighbours inside the grid:
/// a snapshot entry at a negative coordinate is never counted, even when it
/// says alive.
pub proof fn lemma_corner_count(m: Map<(i32, i32), bool>, width: int, height: int)
    ensures
        ({
            let alive = |x: int, y: int| map_alive(m, width, height, x, y);
            neighbour_count(alive, 0, 0) == (if alive(1, 0) { 1int } else { 0 }) + (if alive(
                0,
                1,
            ) {
                1int
            } else {
                0
            }) + (if alive(1, 1) { 1int } else { 0 })
        }),
{
    reveal_with_fuel(block_count, 10);
}

} // verus!
