use vstd::prelude::*;

verus! {

/// The number of alive cells among the first `k` cells of the 3x3 block
/// centred on `(cx, cy)`, visited row by row (`x` outer, `y` inner). The centre
/// itself never counts.
pub open spec fn block_count(alive: spec_fn(int, int) -> bool, cx: int, cy: int, k: int) -> int
    decreases k,
{
    if k <= 0 {
        0
    } else {
        let x = cx - 1 + (k - 1) / 3;
        let y = cy - 1 + (k - 1) % 3;
        block_count(alive, cx, cy, k - 1) + if (x == cx && y == cy) || !alive(x, y) {
            0int
        } else {
            1int
        }
    }
}

/// The number of alive cells in the Moore neighbourhood of `(cx, cy)`: the
/// eight cells whose coordinates differ from it by at most one on each axis.
pub open spec fn neighbour_count(alive: spec_fn(int, int) -> bool, cx: int, cy: int) -> int {
    block_count(alive, cx, cy, 9)
}

/// The update rule: a cell is alive at the next tick exactly when it has two or
/// three alive neighbours, whatever its current state.
pub open spec fn rule(alive_neighbours: int) -> bool {
    alive_neighbours == 2 || alive_neighbours == 3
}

/// Applies the update rule to a neighbour count.
pub fn next_alive(alive_neighbours: i32) -> (r: bool)
    ensures
        r == rule(alive_neighbours as int),
{
    alive_neighbours == 2 || alive_neighbours == 3
}

/// Two predicates that agree on the block give the same count.
pub proof fn lemma_block_count_agree(
    a: spec_fn(int, int) -> bool,
    b: spec_fn(int, int) -> bool,
    cx: int,
    cy: int,
    k: int,
)
    requires
        k <= 9,
        forall|x: int, y: int|
            cx - 1 <= x <= cx + 1 && cy - 1 <= y <= cy + 1 ==> #[trigger] a(x, y) == b(x, y),
    ensures
        block_count(a, cx, cy, k) == block_count(b, cx, cy, k),
    decreases k,
{
    if k > 0 {
        lemma_block_count_agree(a, b, cx, cy, k - 1);
        let x = cx - 1 + (k - 1) / 3;
        let y = cy - 1 + (k - 1) % 3;
        assert(a(x, y) == b(x, y));
    }
}

} // verus!
