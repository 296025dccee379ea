use vstd::prelude::*;

verus! {

/// A finite two-dimensional board of boolean cells, row-major and zero-indexed.
/// Dimensions are fixed at construction, and every coordinate in
/// `[0, height) x [0, width)` has a defined state. The topology is edge-bounded:
/// there is no wraparound, and positions off the board are treated as dead.
pub struct Grid {
    pub width: usize,
    pub height: usize,
    pub cells: Vec<Vec<bool>>,
}

impl Grid {
    /// The board is well formed: positive dimensions, one row per unit of
    /// `height`, each row holding exactly `width` cells.
    pub open spec fn wf(self) -> bool {
        &&& 1 <= self.width
        &&& 1 <= self.height
        &&& self.cells@.len() == self.height
        &&& forall|r: int| 0 <= r < self.height ==> (#[trigger] self.cells@[r])@.len() == self.width
    }

    /// Whether coordinate (r, c) lies on the board.
    pub open spec fn in_bounds(self, r: int, c: int) -> bool {
        0 <= r < self.height && 0 <= c < self.width
    }

    /// The state of the cell at (r, c): true is alive, false is dead.
    pub open spec fn cell(self, r: int, c: int) -> bool {
        self.cells@[r]@[c]
    }

    /// Every cell of the board is dead.
    pub open spec fn all_dead(self) -> bool {
        forall|r: int, c: int| self.in_bounds(r, c) ==> !(#[trigger] self.cell(r, c))
    }

    /// Every cell of the board is alive.
    pub open spec fn all_alive(self) -> bool {
        forall|r: int, c: int| self.in_bounds(r, c) ==> #[trigger] self.cell(r, c)
    }

    /// Two boards agree in dimensions and in every cell.
    pub open spec fn same_state(self, other: Grid) -> bool {
        &&& self.width == other.width
        &&& self.height == other.height
        &&& forall|r: int, c: int| self.in_bounds(r, c)
            ==> #[trigger] self.cell(r, c) == other.cell(r, c)
    }

    /// Creates a board with the given dimensions, every cell dead.
    /// Returns `None` exactly when a dimension is zero.
    pub fn new(width: usize, height: usize) -> (r: Option<Grid>)
        ensures
            r is Some <==> (1 <= width && 1 <= height),
            r is Some ==> r.unwrap().wf() && r.unwrap().width == width
                && r.unwrap().height == height && r.unwrap().all_dead(),
    {
        if width == 0 || height == 0 {
            None
        } else {
            Some(create_empty_grid(width, height))
        }
    }

    /// Reads one cell. Coordinates outside the board are a caller error,
    /// excluded by precondition rather than clamped.
    pub fn get(&self, row: usize, col: usize) -> (b: bool)
        requires
            self.wf(),
            self.in_bounds(row as int, col as int),
        ensures
            b == self.cell(row as int, col as int),
    {
        self.cells[row][col]
    }

    /// Writes one cell, leaving dimensions and every other cell unchanged.
    /// Coordinates outside the board are a caller error, excluded by
    /// precondition rather than clamped.
    pub fn set(&mut self, row: usize, col: usize, value: bool)
        requires
            old(self).wf(),
            old(self).in_bounds(row as int, col as int),
        ensures
            final(self).wf(),
            final(self).width == old(self).width,
            final(self).height == old(self).height,
            final(self).cell(row as int, col as int) == value,
            forall|r: int, c: int|
                old(self).in_bounds(r, c) && !(r == row as int && c == col as int)
                    ==> #[trigger] final(self).cell(r, c) == old(self).cell(r, c),
    {
        self.cells[row][col] = value;
    }
}

/// Builds the all-dead board of the given dimensions.
pub fn create_empty_grid(width: usize, height: usize) -> (g: Grid)
    requires
        1 <= width,
        1 <= height,
    ensures
        g.wf(),
        g.width == width,
        g.height == height,
        g.all_dead(),
{
    let mut cells: Vec<Vec<bool>> = Vec::new();
    let mut r: usize = 0;
    while r < height
        invariant
            r <= height,
            cells@.len() == r,
            forall|i: int| 0 <= i < r ==> (#[trigger] cells@[i])@.len() == width,
            forall|i: int, j: int| 0 <= i < r && 0 <= j < width ==> !(#[trigger] cells@[i]@[j]),
        decreases height - r,
    {
        let mut row: Vec<bool> = Vec::new();
        let mut c: usize = 0;
        while c < width
            invariant
                c <= width,
                row@.len() == c,
                forall|j: int| 0 <= j < c ==> !(#[trigger] row@[j]),
            decreases width - c,
        {
            row.push(false);
            c = c + 1;
        }
        cells.push(row);
        r = r + 1;
    }
    Grid { width, height, cells }
}

/// Compares two boards: true exactly when dimensions and all cells agree.
pub fn grids_equal(a: &Grid, b: &Grid) -> (r: bool)
    requires
        a.wf(),
        b.wf(),
    ensures
        r == a.same_state(*b),
{
    if a.width != b.width || a.height != b.height {
        return false;
    }
    let mut row: usize = 0;
    while row < a.height
        invariant
            a.wf(),
            b.wf(),
            a.width == b.width,
            a.height == b.height,
            row <= a.height,
            forall|r: int, c: int|
                0 <= r < row && 0 <= c < a.width
                    ==> #[trigger] a.cell(r, c) == b.cell(r, c),
        decreases a.height - row,
    {
        let mut col: usize = 0;
        while col < a.width
            invariant
                a.wf(),
                b.wf(),
                a.width == b.width,
                a.height == b.height,
                row < a.height,
                col <= a.width,
                forall|c: int| 0 <= c < col
                    ==> #[trigger] a.cell(row as int, c) == b.cell(row as int, c),
            decreases a.width - col,
        {
            if a.get(row, col) != b.get(row, col) {
                return false;
            }
            col = col + 1;
        }
        row = row + 1;
    }
    true
}

} // verus!
