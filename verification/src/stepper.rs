use vstd::prelude::*;
use crate::grid::Grid;
use crate::grid::create_empty_grid;

verus! {

/// 1 when (r, c) lies on the board and is alive, 0 otherwise. Positions off
/// the board count as dead: the topology is edge-bounded, with no wraparound.
pub open spec fn live(g: Grid, r: int, c: int) -> int {
    if g.in_bounds(r, c) && g.cell(r, c) { 1int } else { 0int }
}

/// Live cells among the 8 Moore neighbors of (r, c). The cell itself is not
/// one of the terms, and off-board positions contribute 0.
pub open spec fn spec_live_neighbors(g: Grid, r: int, c: int) -> int {
    live(g, r - 1, c - 1) + live(g, r - 1, c) + live(g, r - 1, c + 1)
        + live(g, r, c - 1) + live(g, r, c + 1)
        + live(g, r + 1, c - 1) + live(g, r + 1, c) + live(g, r + 1, c + 1)
}

/// The rule set: a live cell survives with 2 or 3 live neighbors; a dead cell
/// becomes alive with exactly 3; every other cell is dead next generation.
pub open spec fn next_state(alive: bool, live_neighbors: int) -> bool {
    if alive {
        live_neighbors == 2 || live_neighbors == 3
    } else {
        live_neighbors == 3
    }
}

/// The next state of the cell at (r, c), read wholly from the current board.
pub open spec fn next_cell(g: Grid, r: int, c: int) -> bool {
    next_state(g.cell(r, c), spec_live_neighbors(g, r, c))
}

/// Counts the live cells among the 8 Moore neighbors of (row, col).
/// Neighbors off the board are treated as dead: no read ever leaves
/// `[0, height) x [0, width)`.
pub fn count_live_neighbors(grid: &Grid, row: usize, col: usize) -> (n: usize)
    requires
        grid.wf(),
        grid.in_bounds(row as int, col as int),
    ensures
        n == spec_live_neighbors(*grid, row as int, col as int),
        n <= 8,
{
    let mut n: usize = 0;
    if row >= 1 && col >= 1 && grid.get(row - 1, col - 1) {
        n = n + 1;
    }
    if row >= 1 && grid.get(row - 1, col) {
        n = n + 1;
    }
    if row >= 1 && col + 1 < grid.width && grid.get(row - 1, col + 1) {
        n = n + 1;
    }
    if col >= 1 && grid.get(row, col - 1) {
        n = n + 1;
    }
    if col + 1 < grid.width && grid.get(row, col + 1) {
        n = n + 1;
    }
    if row + 1 < grid.height && col >= 1 && grid.get(row + 1, col - 1) {
        n = n + 1;
    }
    if row + 1 < grid.height && grid.get(row + 1, col) {
        n = n + 1;
    }
    if row + 1 < grid.height && col + 1 < grid.width && grid.get(row + 1, col + 1) {
        n = n + 1;
    }
    n
}

/// Applies the rule set to one cell of the current board.
pub fn next_cell_state(grid: &Grid, row: usize, col: usize) -> (b: bool)
    requires
        grid.wf(),
        grid.in_bounds(row as int, col as int),
    ensures
        b == next_cell(*grid, row as int, col as int),
{
    let alive = grid.get(row, col);
    let n = count_live_neighbors(grid, row, col);
    if alive {
        n == 2 || n == 3
    } else {
        n == 3
    }
}

/// Computes the next generation as a fresh board, reading only the input:
/// no cell of the output depends on any other cell of the output.
pub fn step(grid: &Grid) -> (out: Grid)
    requires
        grid.wf(),
    ensures
        out.wf(),
        out.width == grid.width,
        out.height == grid.height,
        forall|r: int, c: int|
            grid.in_bounds(r, c) ==> #[trigger] out.cell(r, c) == next_cell(*grid, r, c),
{
    let mut out = create_empty_grid(grid.width, grid.height);
    let mut row: usize = 0;
    while row < grid.height
        invariant
            grid.wf(),
            out.wf(),
            out.width == grid.width,
            out.height == grid.height,
            row <= grid.height,
            forall|r: int, c: int|
                0 <= r < row && 0 <= c < grid.width
                    ==> #[trigger] out.cell(r, c) == next_cell(*grid, r, c),
        decreases grid.height - row,
    {
        let mut col: usize = 0;
        while col < grid.width
            invariant
                grid.wf(),
                out.wf(),
                out.width == grid.width,
                out.height == grid.height,
                row < grid.height,
                col <= grid.width,
                forall|r: int, c: int|
                    0 <= r < row && 0 <= c < grid.width
                        ==> #[trigger] out.cell(r, c) == next_cell(*grid, r, c),
                forall|c: int|
                    0 <= c < col
                        ==> #[trigger] out.cell(row as int, c) == next_cell(*grid, row as int, c),
            decreases grid.width - col,
        {
            let v = next_cell_state(grid, row, col);
            out.set(row, col, v);
            col = col + 1;
        }
        row = row + 1;
    }
    out
}

/// Advances the board one generation in place. The new state is computed
/// wholly from the old one (read-old, write-new double buffering), so the
/// replacement is equivalent to `*grid = step(grid)`.
pub fn update_grid(grid: &mut Grid)
    requires
        old(grid).wf(),
    ensures
        final(grid).wf(),
        final(grid).width == old(grid).width,
        final(grid).height == old(grid).height,
        forall|r: int, c: int|
            old(grid).in_bounds(r, c)
                ==> #[trigger] final(grid).cell(r, c) == next_cell(*old(grid), r, c),
{
    let next = step(grid);
    *grid = next;
}

/// No spontaneous generation: stepping an all-dead board yields an all-dead
/// board. `s` here is any board related to `g` as `step`'s contract relates
/// its output to its input.
pub proof fn lemma_step_all_dead(g: Grid, s: Grid)
    requires
        g.wf(),
        g.all_dead(),
        s.width == g.width,
        s.height == g.height,
        forall|r: int, c: int|
            g.in_bounds(r, c) ==> #[trigger] s.cell(r, c) == next_cell(g, r, c),
    ensures
        s.all_dead(),
{
    assert forall|r: int, c: int| s.in_bounds(r, c) implies !(#[trigger] s.cell(r, c)) by {
        assert(spec_live_neighbors(g, r, c) == 0);
    }
}

/// The neighbor count always lies in [0, 8].
pub proof fn lemma_neighbor_count_range(g: Grid, r: int, c: int)
    ensures
        0 <= spec_live_neighbors(g, r, c) <= 8,
{
}

/// The neighbor count never reads the cell itself: two boards of the same
/// dimensions that agree everywhere except possibly at (r, c) give (r, c)
/// the same neighbor count.
pub proof fn lemma_neighbor_count_excludes_self(g1: Grid, g2: Grid, r: int, c: int)
    requires
        g1.width == g2.width,
        g1.height == g2.height,
        forall|rr: int, cc: int|
            g1.in_bounds(rr, cc) && !(rr == r && cc == c)
                ==> #[trigger] g1.cell(rr, cc) == g2.cell(rr, cc),
    ensures
        spec_live_neighbors(g1, r, c) == spec_live_neighbors(g2, r, c),
{
}

/// No wraparound: a boundary cell has strictly fewer than 8 on-board
/// neighbors, so its count is at most 5 on an edge and at most 3 in a
/// corner — the opposite side of the board never contributes.
pub proof fn lemma_edge_neighbor_bound(g: Grid, r: int, c: int)
    requires
        g.wf(),
        g.in_bounds(r, c),
    ensures
        (r == 0 || r == g.height - 1 || c == 0 || c == g.width - 1)
            ==> spec_live_neighbors(g, r, c) <= 5,
        ((r == 0 || r == g.height - 1) && (c == 0 || c == g.width - 1))
            ==> spec_live_neighbors(g, r, c) <= 3,
{
}

} // verus!
