use vstd::prelude::*;
use vstd::arithmetic::div_mod::lemma_fundamental_div_mod_converse;
use crate::cell_map::{cell_map_contents, CellMap};
use crate::rules::{block_count, lemma_block_count_agree, neighbour_count, next_alive, rule};
use crate::run_state::{tick_cells, AppState, RunState};

verus! {

/// A grid coordinate.
#[derive(Clone, Copy, Debug, PartialEq, Eq, Structural)]
pub struct Position {
    pub x: i32,
    pub y: i32,
}

/// The state of one cell: whether it is alive now, and whether it will be
/// alive once the tick being computed is committed.
#[derive(Clone, Copy, Debug, PartialEq, Eq, Structural)]
pub struct CellState {
    pub is_currently_alive: bool,
    pub will_be_alive: bool,
}

impl CellState {
    /// A freshly spawned cell, whose pending state equals its current one.
    pub fn new(alive: bool) -> (r: CellState)
        ensures
            r.is_currently_alive == alive,
            r.will_be_alive == alive,
    {
        CellState { is_currently_alive: alive, will_be_alive: alive }
    }
}

/// Where the cell `(x, y)` of a grid of the given height is stored.
pub open spec fn cell_index(height: int, x: int, y: int) -> int {
    x * height + y
}

/// Whether `(x, y)` is a live cell of the `width` by `height` grid whose alive
/// flags, column after column, are `cells`. A coordinate outside the grid is
/// never alive: neighbourhoods do not wrap around the edges.
pub open spec fn alive_in(width: int, height: int, cells: Seq<bool>, x: int, y: int) -> bool {
    0 <= x < width && 0 <= y < height && cells[cell_index(height, x, y)]
}

/// The alive flags after one simultaneous application of the rule to every
/// cell, each counted from `cells` alone.
pub open spec fn step_cells(width: int, height: int, cells: Seq<bool>) -> Seq<bool> {
    Seq::new(
        cells.len(),
        |i: int|
            rule(
                neighbour_count(
                    |x: int, y: int| alive_in(width, height, cells, x, y),
                    i / height,
                    i % height,
                ),
            ),
    )
}

/// The alive flags after `n` steps.
pub open spec fn steps(width: int, height: int, cells: Seq<bool>, n: nat) -> Seq<bool>
    decreases n,
{
    if n == 0 {
        cells
    } else {
        step_cells(width, height, steps(width, height, cells, (n - 1) as nat))
    }
}

/// The cell stored at index `i` sits at column `i / height`, row `i % height`,
/// and every in-bounds coordinate has an index inside the grid.
pub proof fn lemma_cell_index(width: int, height: int, x: int, y: int)
    requires
        0 < height,
        0 <= x < width,
        0 <= y < height,
    ensures
        0 <= cell_index(height, x, y) < width * height,
        cell_index(height, x, y) / height == x,
        cell_index(height, x, y) % height == y,
{
    lemma_fundamental_div_mod_converse(cell_index(height, x, y), height, x, y);
    assert(0 <= x * height + y < width * height) by (nonlinear_arith)
        requires
            0 < height,
            0 <= x < width,
            0 <= y < height,
    ;
}

/// The column and row of every index inside the grid are in bounds.
pub proof fn lemma_index_cell(width: int, height: int, i: int)
    requires
        0 < height,
        0 <= i < width * height,
    ensures
        0 <= i / height < width,
        0 <= i % height < height,
        cell_index(height, i / height, i % height) == i,
{
    assert(0 <= i / height < width && 0 <= i % height < height && (i / height) * height + i % height
        == i) by (nonlinear_arith)
        requires
            0 < height,
            0 <= i < width * height,
    ;
}

/// A bounded grid of cells, stored column after column.
#[derive(Debug)]
pub struct Grid {
    pub width: i32,
    pub height: i32,
    pub cells: Vec<CellState>,
}

impl Grid {
    /// The grid has at least one cell and one state per coordinate.
    pub open spec fn wf(&self) -> bool {
        &&& 0 < self.width
        &&& 0 < self.height
        &&& self.cells@.len() == self.width * self.height
        &&& self.width * self.height <= usize::MAX
    }

    /// The current alive flags, column after column.
    pub open spec fn alive_view(&self) -> Seq<bool> {
        self.cells@.map_values(|c: CellState| c.is_currently_alive)
    }

    /// Whether `(x, y)` is a live cell now.
    pub open spec fn alive_at(&self, x: int, y: int) -> bool {
        alive_in(self.width as int, self.height as int, self.alive_view(), x, y)
    }

    /// A `width` by `height` grid in which every cell is dead.
    pub fn new(width: i32, height: i32) -> (r: Grid)
        requires
            0 < width,
            0 < height,
            width * height <= usize::MAX,
        ensures
            r.wf(),
            r.width == width,
            r.height == height,
            forall|i: int| 0 <= i < r.cells@.len() ==> !(#[trigger] r.cells@[i]).is_currently_alive
                && !r.cells@[i].will_be_alive,
    {
        let n: usize = width as usize * height as usize;
        let mut cells: Vec<CellState> = Vec::new();
        for i in 0..n
            invariant
                cells@.len() == i,
                forall|j: int| 0 <= j < i ==> !(#[trigger] cells@[j]).is_currently_alive
                    && !cells@[j].will_be_alive,
        {
            cells.push(CellState::new(false));
        }
        Grid { width, height, cells }
    }

    /// Makes the cell `(x, y)` alive or dead, now and for the pending tick.
    pub fn set_alive(&mut self, x: i32, y: i32, alive: bool)
        requires
            old(self).wf(),
            0 <= x < old(self).width,
            0 <= y < old(self).height,
        ensures
            final(self).wf(),
            final(self).width == old(self).width,
            final(self).height == old(self).height,
            final(self).cells@ == old(self).cells@.update(
                cell_index(old(self).height as int, x as int, y as int),
                CellState { is_currently_alive: alive, will_be_alive: alive },
            ),
    {
        proof {
            lemma_cell_index(self.width as int, self.height as int, x as int, y as int);
        }
        let i: usize = x as usize * self.height as usize + y as usize;
        self.cells.set(i, CellState::new(alive));
    }

    /// Whether `(x, y)` is a live cell now; `false` outside the grid.
    pub fn is_alive(&self, x: i32, y: i32) -> (r: bool)
        requires
            self.wf(),
        ensures
            r == self.alive_at(x as int, y as int),
    {
        if 0 <= x && x < self.width && 0 <= y && y < self.height {
            proof {
                lemma_cell_index(self.width as int, self.height as int, x as int, y as int);
            }
            let i: usize = x as usize * self.height as usize + y as usize;
            self.cells[i].is_currently_alive
        } else {
            false
        }
    }
}

/// The snapshot of a `width` by `height` grid with alive flags `cells`: every
/// coordinate of the grid, and no other, mapped to its alive flag.
pub open spec fn snapshot_map(width: int, height: int, cells: Seq<bool>) -> Map<(i32, i32), bool> {
    Map::new(
        |k: (i32, i32)| 0 <= k.0 < width && 0 <= k.1 < height,
        |k: (i32, i32)| alive_in(width, height, cells, k.0 as int, k.1 as int),
    )
}

/// Whether `(x, y)` lies in the `width` by `height` grid and is alive in the
/// snapshot `m`. A coordinate outside the grid is never looked up.
pub open spec fn map_alive(m: Map<(i32, i32), bool>, width: int, height: int, x: int, y: int) -> bool {
    0 <= x < width && 0 <= y < height && m.contains_key((x as i32, y as i32)) && m[(
    x as i32,
    y as i32,
    )]
}

/// Counts the alive cells in the Moore neighbourhood of `position`, looking
/// them up in `cell_map`. Coordinates outside the `width` by `height` grid are
/// skipped, and so are coordinates that the map does not hold.
pub fn number_of_alive_neighbours(
    cell_map: &CellMap,
    width: i32,
    height: i32,
    position: Position,
) -> (r: i32)
    ensures
        r == neighbour_count(
            |x: int, y: int|
                map_alive(cell_map_contents(*cell_map), width as int, height as int, x, y),
            position.x as int,
            position.y as int,
        ),
{
    let ghost alive = |x: int, y: int|
        map_alive(cell_map_contents(*cell_map), width as int, height as int, x, y);
    let ghost cx = position.x as int;
    let ghost cy = position.y as int;
    let mut count: i32 = 0;
    let mut x: i64 = position.x as i64 - 1;
    while x < position.x as i64 + 2
        invariant
            cx - 1 <= x <= cx + 2,
            count == block_count(alive, cx, cy, 3 * (x - cx + 1)),
            0 <= count <= 3 * (x - cx + 1),
            cx == position.x as int,
            cy == position.y as int,
            alive == (|x: int, y: int|
                map_alive(cell_map_contents(*cell_map), width as int, height as int, x, y)),
        decreases cx + 2 - x,
    {
        let mut y: i64 = position.y as i64 - 1;
        while y < position.y as i64 + 2
            invariant
                cx - 1 <= x < cx + 2,
                cy - 1 <= y <= cy + 2,
                count == block_count(alive, cx, cy, 3 * (x - cx + 1) + (y - cy + 1)),
                0 <= count <= 3 * (x - cx + 1) + (y - cy + 1),
                cx == position.x as int,
                cy == position.y as int,
                alive == (|x: int, y: int|
                    map_alive(cell_map_contents(*cell_map), width as int, height as int, x, y)),
            decreases cy + 2 - y,
        {
            let ghost k = 3 * (x - cx + 1) + (y - cy + 1);
            proof {
                lemma_fundamental_div_mod_converse(k, 3, x - cx + 1, y - cy + 1);
            }
            let is_centre = x == position.x as i64 && y == position.y as i64;
            if !is_centre && 0 <= x && x < width as i64 && 0 <= y && y < height as i64 {
                match cell_map.get((x as i32, y as i32)) {
                    Some(cell_alive) => {
                        if cell_alive {
                            count = count + 1;
                        }
                    },
                    None => {},
                }
            }
            y = y + 1;
        }
        x = x + 1;
    }
    count
}

/// Records the alive flag of every cell in a fresh map: the read-only picture
/// of the grid from which a whole tick is computed.
pub fn snapshot(grid: &Grid) -> (r: CellMap)
    requires
        grid.wf(),
    ensures
        cell_map_contents(r) == snapshot_map(
            grid.width as int,
            grid.height as int,
            grid.alive_view(),
        ),
{
    let ghost w = grid.width as int;
    let ghost h = grid.height as int;
    let ghost cells = grid.alive_view();
    let mut cell_map = CellMap::new();
    assert(cell_map_contents(cell_map) =~= Map::new(
        |k: (i32, i32)| 0 <= k.0 < 0 && 0 <= k.1 < h,
        |k: (i32, i32)| alive_in(w, h, cells, k.0 as int, k.1 as int),
    ));
    for x in 0..grid.width
        invariant
            grid.wf(),
            w == grid.width,
            h == grid.height,
            cells == grid.alive_view(),
            cell_map_contents(cell_map) == Map::new(
                |k: (i32, i32)| 0 <= k.0 < x && 0 <= k.1 < h,
                |k: (i32, i32)| alive_in(w, h, cells, k.0 as int, k.1 as int),
            ),
    {
        for y in 0..grid.height
            invariant
                grid.wf(),
                0 <= x < w,
                w == grid.width,
                h == grid.height,
                cells == grid.alive_view(),
                cell_map_contents(cell_map) == Map::new(
                    |k: (i32, i32)| (0 <= k.0 < x && 0 <= k.1 < h) || (k.0 == x && 0 <= k.1 < y),
                    |k: (i32, i32)| alive_in(w, h, cells, k.0 as int, k.1 as int),
                ),
        {
            proof {
                lemma_cell_index(w, h, x as int, y as int);
            }
            let i: usize = x as usize * grid.height as usize + y as usize;
            let ghost before = cell_map_contents(cell_map);
            cell_map.insert((x, y), grid.cells[i].is_currently_alive);
            assert(cell_map_contents(cell_map) =~= Map::new(
                |k: (i32, i32)| (0 <= k.0 < x && 0 <= k.1 < h) || (k.0 == x && 0 <= k.1 < y + 1),
                |k: (i32, i32)| alive_in(w, h, cells, k.0 as int, k.1 as int),
            ));
        }
        assert(cell_map_contents(cell_map) =~= Map::new(
            |k: (i32, i32)| 0 <= k.0 < x + 1 && 0 <= k.1 < h,
            |k: (i32, i32)| alive_in(w, h, cells, k.0 as int, k.1 as int),
        ));
    }
    assert(cell_map_contents(cell_map) =~= snapshot_map(w, h, cells));
    cell_map
}

/// Looking coordinates up in the snapshot of a grid finds exactly its live
/// cells.
pub proof fn lemma_snapshot_alive(width: int, height: int, cells: Seq<bool>, cx: int, cy: int)
    requires
        width <= i32::MAX,
        height <= i32::MAX,
    ensures
        neighbour_count(
            |x: int, y: int| map_alive(snapshot_map(width, height, cells), width, height, x, y),
            cx,
            cy,
        ) == neighbour_count(|x: int, y: int| alive_in(width, height, cells, x, y), cx, cy),
{
    let a = |x: int, y: int| map_alive(snapshot_map(width, height, cells), width, height, x, y);
    let b = |x: int, y: int| alive_in(width, height, cells, x, y);
    assert forall|x: int, y: int| cx - 1 <= x <= cx + 1 && cy - 1 <= y <= cy + 1 implies #[trigger] a(
        x,
        y,
    ) == b(x, y) by {
        if 0 <= x < width && 0 <= y < height {
            assert(snapshot_map(width, height, cells).contains_key((x as i32, y as i32)));
        }
    }
    lemma_block_count_agree(a, b, cx, cy, 9);
}

/// Advances the grid by one tick. While paused nothing changes. While running,
/// every cell's next state is computed from a snapshot taken before any cell is
/// touched, and only then are all next states committed.
pub fn update_cells(grid: &mut Grid, app_state: &AppState)
    requires
        old(grid).wf(),
    ensures
        final(grid).wf(),
        final(grid).width == old(grid).width,
        final(grid).height == old(grid).height,
        final(grid).alive_view() == tick_cells(
            app_state.0,
            old(grid).width as int,
            old(grid).height as int,
            old(grid).alive_view(),
        ),
        app_state.0 == RunState::Paused ==> *final(grid) == *old(grid),
        app_state.0 == RunState::Running ==> forall|i: int|
            0 <= i < final(grid).cells@.len() ==> (#[trigger] final(grid).cells@[i]).will_be_alive
                == final(grid).cells@[i].is_currently_alive,
{
    if app_state.0 == RunState::Paused {
        return;
    }
    let cell_map = snapshot(grid);
    let ghost before = grid.alive_view();
    let ghost next = step_cells(grid.width as int, grid.height as int, before);
    let n: usize = grid.cells.len();
    let width = grid.width;
    let height = grid.height;
    for i in 0..n
        invariant
            n == grid.cells@.len(),
            grid.wf(),
            grid.width == width,
            grid.height == height,
            cell_map_contents(cell_map) == snapshot_map(width as int, height as int, before),
            before.len() == n,
            next == step_cells(width as int, height as int, before),
            grid.alive_view() == before,
            forall|j: int| 0 <= j < i ==> (#[trigger] grid.cells@[j]).will_be_alive == next[j],
    {
        proof {
            lemma_index_cell(width as int, height as int, i as int);
        }
        let position = Position { x: (i / height as usize) as i32, y: (i % height as usize) as i32 };
        let alive_neighbours = number_of_alive_neighbours(&cell_map, width, height, position);
        proof {
            lemma_snapshot_alive(width as int, height as int, before, position.x as int, position.y as int);
        }
        let mut cell = grid.cells[i];
        cell.will_be_alive = next_alive(alive_neighbours);
        grid.cells.set(i, cell);
        assert(grid.alive_view() =~= before);
    }
    for i in 0..n
        invariant
            n == grid.cells@.len(),
            grid.wf(),
            grid.width == width,
            grid.height == height,
            before.len() == n,
            forall|j: int| 0 <= j < n ==> (#[trigger] grid.cells@[j]).will_be_alive == next[j],
            forall|j: int| 0 <= j < i ==> (#[trigger] grid.cells@[j]).is_currently_alive == next[j],
    {
        let mut cell = grid.cells[i];
        cell.is_currently_alive = cell.will_be_alive;
        grid.cells.set(i, cell);
    }
    assert(grid.alive_view() =~= next);
}

/// A `width` by `height` grid whose only live cells form the column `x == 2`.
pub fn startup_spawn(width: i32, height: i32) -> (r: Grid)
    requires
        0 < width,
        0 < height,
        width * height <= usize::MAX,
    ensures
        r.wf(),
        r.width == width,
        r.height == height,
        forall|x: int, y: int|
            0 <= x < width && 0 <= y < height ==> #[trigger] r.alive_at(x, y) == (x == 2),
        forall|i: int|
            0 <= i < r.cells@.len() ==> (#[trigger] r.cells@[i]).will_be_alive
                == r.cells@[i].is_currently_alive,
{
    let mut cells: Vec<CellState> = Vec::new();
    for x in 0..width
        invariant
            0 < height,
            width * height <= usize::MAX,
            cells@.len() == x * height,
            forall|i: int|
                0 <= i < cells@.len() ==> (#[trigger] cells@[i]).is_currently_alive == (i / height as int
                    == 2) && cells@[i].will_be_alive == cells@[i].is_currently_alive,
    {
        for y in 0..height
            invariant
                0 < height,
                0 <= x < width,
                width * height <= usize::MAX,
                cells@.len() == x * height + y,
                forall|i: int|
                    0 <= i < cells@.len() ==> (#[trigger] cells@[i]).is_currently_alive == (i
                        / height as int == 2) && cells@[i].will_be_alive == cells@[i].is_currently_alive,
        {
            proof {
                lemma_cell_index(width as int, height as int, x as int, y as int);
            }
            cells.push(CellState::new(x == 2));
        }
        assert((x + 1) * height == x * height + height) by (nonlinear_arith);
    }
    let r = Grid { width, height, cells };
    assert forall|x: int, y: int| 0 <= x < width && 0 <= y < height implies #[trigger] r.alive_at(
        x,
        y,
    ) == (x == 2) by {
        lemma_cell_index(width as int, height as int, x, y);
    }
    r
}

} // verus!
