use vstd::prelude::*;
use crate::grid::Grid;
use rand::Rng;

verus! {

/// Random levels are drawn uniformly from `[0, LEVEL_SCALE)`; a threshold
/// for `randomize_grid` is expressed in the same units, so `LEVEL_SCALE`
/// itself stands for a certain miss and 0 for a certain hit.
pub const LEVEL_SCALE: u64 = 1000000;

#[verifier::external_type_specification]
#[verifier::external_body]
pub struct ExThreadRng(rand::rngs::ThreadRng);

/// Relies on rand::thread_rng: hands out the thread-local random generator.
#[verifier::external_body]
fn new_rng() -> rand::rngs::ThreadRng {
    rand::thread_rng()
}

/// Relies on rand's Rng::gen_range, which returns a value within the given
/// range; `0..LEVEL_SCALE` is non-empty, so the call does not panic. The
/// draw is random: nothing more is promised of it than its range.
#[verifier::external_body]
fn draw_level(rng: &mut rand::rngs::ThreadRng) -> (level: u64)
    ensures
        level < LEVEL_SCALE,
{
    rng.gen_range(0..LEVEL_SCALE)
}

/// The seeding comparison: a drawn level makes a cell alive exactly when it
/// reaches the threshold.
pub fn level_alive(level: u64, threshold: u64) -> (b: bool)
    ensures
        b == (level >= threshold),
{
    level >= threshold
}

/// Seeds every cell independently from the thread-local random generator:
/// each cell draws a level uniform over `[0, LEVEL_SCALE)` and becomes alive
/// exactly when the level reaches `threshold`. The outcome is random; only
/// the boundary behavior is fixed: threshold 0 yields an all-alive board,
/// and a threshold of `LEVEL_SCALE` or more yields an all-dead board.
pub fn randomize_grid(grid: &mut Grid, threshold: u64)
    requires
        old(grid).wf(),
    ensures
        final(grid).wf(),
        final(grid).width == old(grid).width,
        final(grid).height == old(grid).height,
        threshold == 0 ==> final(grid).all_alive(),
        threshold >= LEVEL_SCALE ==> final(grid).all_dead(),
{
    let mut rng = new_rng();
    let mut row: usize = 0;
    while row < grid.height
        invariant
            grid.wf(),
            grid.width == old(grid).width,
            grid.height == old(grid).height,
            row <= grid.height,
            forall|r: int, c: int|
                0 <= r < row && 0 <= c < grid.width && threshold == 0
                    ==> #[trigger] grid.cell(r, c),
            forall|r: int, c: int|
                0 <= r < row && 0 <= c < grid.width && threshold >= LEVEL_SCALE
                    ==> !(#[trigger] grid.cell(r, c)),
        decreases grid.height - row,
    {
        let mut col: usize = 0;
        while col < grid.width
            invariant
                grid.wf(),
                grid.width == old(grid).width,
                grid.height == old(grid).height,
                row < grid.height,
                col <= grid.width,
                forall|r: int, c: int|
                    0 <= r < row && 0 <= c < grid.width && threshold == 0
                        ==> #[trigger] grid.cell(r, c),
                forall|r: int, c: int|
                    0 <= r < row && 0 <= c < grid.width && threshold >= LEVEL_SCALE
                        ==> !(#[trigger] grid.cell(r, c)),
                forall|c: int|
                    0 <= c < col && threshold == 0 ==> #[trigger] grid.cell(row as int, c),
                forall|c: int|
                    0 <= c < col && threshold >= LEVEL_SCALE
                        ==> !(#[trigger] grid.cell(row as int, c)),
            decreases grid.width - col,
        {
            let level = draw_level(&mut rng);
            let alive = level_alive(level, threshold);
            grid.set(row, col, alive);
            col = col + 1;
        }
        row = row + 1;
    }
}

/// Whether the coordinate list holds the pair (r, c).
pub open spec fn pattern_contains(coords: Seq<(usize, usize)>, r: int, c: int) -> bool {
    exists|i: int|
        0 <= i < coords.len() && (#[trigger] coords[i]).0 == r && coords[i].1 == c
}

/// Sets every listed coordinate alive, leaving all other cells unchanged.
/// Coordinates are absolute (row, col) pairs and must lie on the board: an
/// out-of-bounds coordinate is a configuration error, excluded by
/// precondition rather than handled at run time.
pub fn apply_pattern(grid: &mut Grid, coords: &Vec<(usize, usize)>)
    requires
        old(grid).wf(),
        forall|i: int|
            0 <= i < coords@.len()
                ==> old(grid).in_bounds((#[trigger] coords@[i]).0 as int, coords@[i].1 as int),
    ensures
        final(grid).wf(),
        final(grid).width == old(grid).width,
        final(grid).height == old(grid).height,
        forall|r: int, c: int|
            old(grid).in_bounds(r, c)
                ==> #[trigger] final(grid).cell(r, c)
                    == (old(grid).cell(r, c) || pattern_contains(coords@, r, c)),
{
    let mut k: usize = 0;
    while k < coords.len()
        invariant
            grid.wf(),
            grid.width == old(grid).width,
            grid.height == old(grid).height,
            k <= coords@.len(),
            forall|i: int|
                0 <= i < coords@.len()
                    ==> old(grid).in_bounds((#[trigger] coords@[i]).0 as int, coords@[i].1 as int),
            forall|r: int, c: int|
                old(grid).in_bounds(r, c)
                    ==> #[trigger] grid.cell(r, c)
                        == (old(grid).cell(r, c) || pattern_contains(coords@.take(k as int), r, c)),
        decreases coords@.len() - k,
    {
        let (row, col) = coords[k];
        grid.set(row, col, true);
        k = k + 1;
        proof {
            assert forall|r: int, c: int| old(grid).in_bounds(r, c) implies #[trigger] grid.cell(r, c)
                == (old(grid).cell(r, c) || pattern_contains(coords@.take(k as int), r, c)) by {
                let prev = coords@.take(k as int - 1);
                let cur = coords@.take(k as int);
                assert(cur[k as int - 1] == coords@[k as int - 1]);
                assert(forall|i: int| 0 <= i < k as int - 1 ==> prev[i] == #[trigger] cur[i]);
                if r == row as int && c == col as int {
                    assert(cur[k as int - 1].0 == r && cur[k as int - 1].1 == c);
                    assert(pattern_contains(cur, r, c));
                } else {
                    if pattern_contains(prev, r, c) {
                        let i = choose|i: int|
                            0 <= i < prev.len() && (#[trigger] prev[i]).0 == r && prev[i].1 == c;
                        assert(cur[i].0 == r && cur[i].1 == c);
                    }
                    if pattern_contains(cur, r, c) {
                        let i = choose|i: int|
                            0 <= i < cur.len() && (#[trigger] cur[i]).0 == r && cur[i].1 == c;
                        assert(i != k as int - 1);
                        assert(prev[i].0 == r && prev[i].1 == c);
                    }
                }
            }
        }
    }
    proof {
        assert(coords@.take(coords@.len() as int) =~= coords@);
    }
}

/// The glider gun seed, as absolute (row, col) pairs. Rows run through 9
/// and columns through 36, so a board of at least 10 x 37 holds it.
pub open spec fn glider_gun_coords() -> Seq<(usize, usize)> {
    seq![
        (5usize, 1usize), (6, 1), (5, 2), (6, 2),
        (5, 11), (6, 11), (7, 11),
        (4, 12), (8, 12),
        (3, 13), (9, 13),
        (3, 14), (9, 14),
        (6, 15),
        (4, 16), (8, 16),
        (5, 17), (6, 17), (7, 17),
        (6, 18),
        (3, 21), (4, 21), (5, 21),
        (3, 22), (4, 22), (5, 22),
        (2, 23), (6, 23),
        (1, 25), (2, 25), (6, 25), (7, 25),
        (3, 35), (4, 35),
        (3, 36), (4, 36),
    ]
}

/// Builds the glider gun coordinate list.
pub fn glider_gun_pattern() -> (coords: Vec<(usize, usize)>)
    ensures
        coords@ == glider_gun_coords(),
{
    let mut v: Vec<(usize, usize)> = Vec::new();
    v.push((5, 1));
    v.push((6, 1));
    v.push((5, 2));
    v.push((6, 2));
    v.push((5, 11));
    v.push((6, 11));
    v.push((7, 11));
    v.push((4, 12));
    v.push((8, 12));
    v.push((3, 13));
    v.push((9, 13));
    v.push((3, 14));
    v.push((9, 14));
    v.push((6, 15));
    v.push((4, 16));
    v.push((8, 16));
    v.push((5, 17));
    v.push((6, 17));
    v.push((7, 17));
    v.push((6, 18));
    v.push((3, 21));
    v.push((4, 21));
    v.push((5, 21));
    v.push((3, 22));
    v.push((4, 22));
    v.push((5, 22));
    v.push((2, 23));
    v.push((6, 23));
    v.push((1, 25));
    v.push((2, 25));
    v.push((6, 25));
    v.push((7, 25));
    v.push((3, 35));
    v.push((4, 35));
    v.push((3, 36));
    v.push((4, 36));
    proof {
        assert(v@ =~= glider_gun_coords());
    }
    v
}

/// Seeds the glider gun: every gun coordinate becomes alive and every other
/// cell keeps its state. The board must be large enough to hold the gun.
pub fn initialize_glider_gun(grid: &mut Grid)
    requires
        old(grid).wf(),
        old(grid).height >= 10,
        old(grid).width >= 37,
    ensures
        final(grid).wf(),
        final(grid).width == old(grid).width,
        final(grid).height == old(grid).height,
        forall|r: int, c: int|
            old(grid).in_bounds(r, c)
                ==> #[trigger] final(grid).cell(r, c)
                    == (old(grid).cell(r, c) || pattern_contains(glider_gun_coords(), r, c)),
{
    let coords = glider_gun_pattern();
    apply_pattern(grid, &coords);
}

/// The not-gate seed, as absolute (row, col) pairs: a hollow 4 x 5 box of
/// live cells. Rows run through 14 and columns through 7, so a board of at
/// least 15 x 8 holds it.
pub open spec fn not_gate_coords() -> Seq<(usize, usize)> {
    seq![
        (11usize, 3usize), (11, 4), (11, 5), (11, 6), (11, 7),
        (12, 3), (12, 7),
        (13, 3), (13, 7),
        (14, 3), (14, 4), (14, 5), (14, 6), (14, 7),
    ]
}

/// Builds the not-gate coordinate list.
pub fn not_gate_pattern() -> (coords: Vec<(usize, usize)>)
    ensures
        coords@ == not_gate_coords(),
{
    let mut v: Vec<(usize, usize)> = Vec::new();
    v.push((11, 3));
    v.push((11, 4));
    v.push((11, 5));
    v.push((11, 6));
    v.push((11, 7));
    v.push((12, 3));
    v.push((12, 7));
    v.push((13, 3));
    v.push((13, 7));
    v.push((14, 3));
    v.push((14, 4));
    v.push((14, 5));
    v.push((14, 6));
    v.push((14, 7));
    proof {
        assert(v@ =~= not_gate_coords());
    }
    v
}

/// Seeds the not-gate pattern: every listed coordinate becomes alive and
/// every other cell keeps its state. The board must be large enough to
/// hold the pattern.
pub fn add_not_gate(grid: &mut Grid)
    requires
        old(grid).wf(),
        old(grid).height >= 15,
        old(grid).width >= 8,
    ensures
        final(grid).wf(),
        final(grid).width == old(grid).width,
        final(grid).height == old(grid).height,
        forall|r: int, c: int|
            old(grid).in_bounds(r, c)
                ==> #[trigger] final(grid).cell(r, c)
                    == (old(grid).cell(r, c) || pattern_contains(not_gate_coords(), r, c)),
{
    let coords = not_gate_pattern();
    apply_pattern(grid, &coords);
}

} // verus!
