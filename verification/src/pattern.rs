//! Named patterns and the seeding of a grid from them.
use crate::grid::{lemma_with_cell, Board, Grid};
use vstd::prelude::*;

verus! {

/// The blinker: three cells in a row, which turn by a quarter each
/// generation.
pub const BLINKER: [[u8; 3]; 1] = [[1, 1, 1]];

/// The glider: five cells that travel diagonally, one cell every four
/// generations.
pub const GLIDER: [[u8; 3]; 3] = [
    [1, 1, 1],
    [1, 0, 0],
    [0, 1, 0],
];

/// The glider gun: a periodic emitter of gliders, 38 columns by 11 rows.
pub const GLIDER_GUN: [[u8; 38]; 11] = [
    [0, 0, 0, 0, 0, 0, 0, 0, 0, 0, 0, 0, 0, 0, 0, 0, 0, 0, 0, 0, 0, 0, 0, 0, 0, 0, 0, 0, 0, 0, 0, 0, 0, 0, 0, 0, 0, 0],
    [0, 0, 0, 0, 0, 0, 0, 0, 0, 0, 0, 0, 0, 0, 0, 0, 0, 0, 0, 0, 0, 0, 0, 0, 0, 1, 0, 0, 0, 0, 0, 0, 0, 0, 0, 0, 0, 0],
    [0, 0, 0, 0, 0, 0, 0, 0, 0, 0, 0, 0, 0, 0, 0, 0, 0, 0, 0, 0, 0, 0, 0, 1, 0, 1, 0, 0, 0, 0, 0, 0, 0, 0, 0, 0, 0, 0],
    [0, 0, 0, 0, 0, 0, 0, 0, 0, 0, 0, 0, 0, 1, 1, 0, 0, 0, 0, 0, 0, 1, 1, 0, 0, 0, 0, 0, 0, 0, 0, 0, 0, 0, 0, 1, 1, 0],
    [0, 0, 0, 0, 0, 0, 0, 0, 0, 0, 0, 0, 1, 0, 0, 0, 1, 0, 0, 0, 0, 1, 1, 0, 0, 0, 0, 0, 0, 0, 0, 0, 0, 0, 0, 1, 1, 0],
    [0, 1, 1, 0, 0, 0, 0, 0, 0, 0, 0, 1, 0, 0, 0, 0, 0, 1, 0, 0, 0, 1, 1, 0, 0, 0, 0, 0, 0, 0, 0, 0, 0, 0, 0, 0, 0, 0],
    [0, 1, 1, 0, 0, 0, 0, 0, 0, 0, 0, 1, 0, 0, 0, 1, 0, 1, 1, 0, 0, 0, 0, 1, 0, 1, 0, 0, 0, 0, 0, 0, 0, 0, 0, 0, 0, 0],
    [0, 0, 0, 0, 0, 0, 0, 0, 0, 0, 0, 1, 0, 0, 0, 0, 0, 1, 0, 0, 0, 0, 0, 0, 0, 1, 0, 0, 0, 0, 0, 0, 0, 0, 0, 0, 0, 0],
    [0, 0, 0, 0, 0, 0, 0, 0, 0, 0, 0, 0, 1, 0, 0, 0, 1, 0, 0, 0, 0, 0, 0, 0, 0, 0, 0, 0, 0, 0, 0, 0, 0, 0, 0, 0, 0, 0],
    [0, 0, 0, 0, 0, 0, 0, 0, 0, 0, 0, 0, 0, 1, 1, 0, 0, 0, 0, 0, 0, 0, 0, 0, 0, 0, 0, 0, 0, 0, 0, 0, 0, 0, 0, 0, 0, 0],
    [0, 0, 0, 0, 0, 0, 0, 0, 0, 0, 0, 0, 0, 0, 0, 0, 0, 0, 0, 0, 0, 0, 0, 0, 0, 0, 0, 0, 0, 0, 0, 0, 0, 0, 0, 0, 0, 0],
];

/// The galaxy: a dense seed of four bars around an empty centre, in a
/// 15 by 15 frame.
pub const GALAXY: [[u8; 15]; 15] = [
    [0, 0, 0, 0, 0, 0, 0, 0, 0, 0, 0, 0, 0, 0, 0],
    [0, 0, 0, 0, 0, 0, 0, 0, 0, 0, 0, 0, 0, 0, 0],
    [0, 0, 0, 1, 1, 0, 1, 1, 1, 1, 1, 1, 0, 0, 0],
    [0, 0, 0, 1, 1, 0, 1, 1, 1, 1, 1, 1, 0, 0, 0],
    [0, 0, 0, 1, 1, 0, 0, 0, 0, 0, 0, 0, 0, 0, 0],
    [0, 0, 0, 1, 1, 0, 0, 0, 0, 0, 1, 1, 0, 0, 0],
    [0, 0, 0, 1, 1, 0, 0, 0, 0, 0, 1, 1, 0, 0, 0],
    [0, 0, 0, 1, 1, 0, 0, 0, 0, 0, 1, 1, 0, 0, 0],
    [0, 0, 0, 0, 0, 0, 0, 0, 0, 0, 1, 1, 0, 0, 0],
    [0, 0, 0, 1, 1, 1, 1, 1, 1, 0, 1, 1, 0, 0, 0],
    [0, 0, 0, 1, 1, 1, 1, 1, 1, 0, 1, 1, 0, 0, 0],
    [0, 0, 0, 0, 0, 0, 0, 0, 0, 0, 0, 0, 0, 0, 0],
    [0, 0, 0, 0, 0, 0, 0, 0, 0, 0, 0, 0, 0, 0, 0],
    [0, 0, 0, 0, 0, 0, 0, 0, 0, 0, 0, 0, 0, 0, 0],
    [0, 0, 0, 0, 0, 0, 0, 0, 0, 0, 0, 0, 0, 0, 0],
];

/// The 52513M methuselah: a dense 16 by 16 seed that takes long to settle.
/// The table lists its bottom row first.
pub const METHUSELAH_52513M: [[u8; 16]; 16] = [
    [1, 1, 1, 0, 0, 1, 1, 0, 1, 0, 1, 1, 0, 1, 1, 1],
    [1, 1, 0, 1, 0, 1, 1, 1, 0, 0, 0, 0, 1, 0, 1, 0],
    [0, 1, 0, 0, 1, 0, 0, 1, 0, 1, 0, 1, 1, 1, 0, 1],
    [0, 0, 1, 0, 0, 1, 1, 0, 0, 0, 1, 0, 0, 1, 0, 0],
    [0, 0, 1, 0, 0, 0, 0, 0, 1, 0, 1, 0, 0, 0, 1, 1],
    [1, 0, 0, 0, 0, 1, 1, 0, 0, 0, 1, 1, 1, 0, 1, 0],
    [0, 0, 0, 1, 1, 0, 0, 1, 0, 0, 1, 0, 1, 0, 0, 1],
    [0, 0, 1, 1, 1, 1, 0, 1, 0, 0, 1, 0, 1, 1, 0, 0],
    [1, 1, 0, 1, 1, 0, 0, 1, 1, 0, 0, 0, 0, 0, 1, 1],
    [1, 0, 1, 1, 1, 1, 0, 1, 0, 0, 0, 0, 1, 1, 1, 0],
    [1, 0, 0, 0, 1, 1, 1, 1, 0, 0, 1, 1, 1, 0, 0, 0],
    [0, 1, 1, 1, 1, 1, 1, 1, 1, 1, 1, 0, 0, 1, 1, 1],
    [1, 1, 0, 0, 0, 1, 0, 1, 1, 1, 0, 1, 0, 1, 1, 1],
    [0, 1, 1, 0, 1, 1, 1, 1, 1, 1, 0, 0, 0, 1, 0, 1],
    [1, 0, 1, 0, 0, 0, 0, 0, 1, 1, 1, 1, 0, 1, 0, 0],
    [1, 1, 1, 0, 1, 0, 1, 0, 1, 1, 0, 0, 0, 0, 0, 1],
];

/// The patterns of the catalogue.
#[derive(Clone, Copy, Debug, PartialEq, Eq, Structural)]
pub enum Pattern {
    Blinker,
    Glider,
    GliderGun,
    Galaxy,
    Methuselah52513M,
}

/// Whether `table` holds a one at column `col` of row `row`. False for a
/// position outside the table.
pub open spec fn table_bit<const C: usize, const R: usize>(
    table: [[u8; C]; R],
    col: int,
    row: int,
) -> bool {
    0 <= row < R && 0 <= col < C && table[row][col] == 1
}

/// The row of a table of `rows` rows that is placed `row` rows below the
/// anchor: the same row, or counted from the bottom where the table is listed
/// bottom row first.
pub open spec fn table_row(rows: int, bottom_first: bool, row: int) -> int {
    if bottom_first {
        rows - 1 - row
    } else {
        row
    }
}

impl Pattern {
    /// Whether the pattern has a live cell `col` columns to the right of its
    /// anchor and `row` rows below it.
    pub open spec fn bit(self, col: int, row: int) -> bool {
        match self {
            Pattern::Blinker => table_bit(BLINKER, col, row),
            Pattern::Glider => table_bit(GLIDER, col, row),
            Pattern::GliderGun => table_bit(GLIDER_GUN, col, row),
            Pattern::Galaxy => table_bit(GALAXY, col, row),
            Pattern::Methuselah52513M => table_bit(
                METHUSELAH_52513M,
                col,
                table_row(16, true, row),
            ),
        }
    }

    /// Where along a side of length `dim` the pattern is anchored: the side
    /// divided by the pattern's divisor, rounded down. The divisor is 2 for
    /// the blinker and the glider, 3 for the glider gun and 2.5 for the two
    /// dense seeds.
    pub open spec fn offset(self, dim: int) -> int {
        match self {
            Pattern::Blinker | Pattern::Glider => dim / 2,
            Pattern::GliderGun => dim / 3,
            Pattern::Galaxy | Pattern::Methuselah52513M => (2 * dim) / 5,
        }
    }

    /// The anchor along a side of length `dim`.
    pub fn anchor(self, dim: usize) -> (offset: usize)
        ensures
            offset == self.offset(dim as int),
            offset <= dim,
    {
        match self {
            Pattern::Blinker | Pattern::Glider => dim / 2,
            Pattern::GliderGun => dim / 3,
            Pattern::Galaxy | Pattern::Methuselah52513M => ((2 * (dim as u128)) / 5) as usize,
        }
    }
}

/// The board of the extent of `board` that holds `pattern` with its top-left
/// cell at `(anchor_x, anchor_y)` and nothing else. What falls off the board
/// is left out.
pub open spec fn placed_at(board: Board, pattern: Pattern, anchor_x: int, anchor_y: int) -> Board {
    Board {
        width: board.width,
        height: board.height,
        alive: Set::new(
            |p: (int, int)|
                board.in_bounds(p.0, p.1) && pattern.bit(p.0 - anchor_x, p.1 - anchor_y),
        ),
    }
}

/// The board of the extent of `board` that holds `pattern` at its anchor and
/// nothing else.
pub open spec fn seeded(board: Board, pattern: Pattern) -> Board {
    placed_at(board, pattern, pattern.offset(board.width), pattern.offset(board.height))
}

/// Whether the cell `col` columns right of the anchor and `row` rows below it
/// has been written once the first `done_rows` rows of `table` are placed in
/// full and the first `done_cols` cells of the next row.
pub open spec fn written<const C: usize, const R: usize>(
    table: [[u8; C]; R],
    bottom_first: bool,
    col: int,
    row: int,
    done_rows: int,
    done_cols: int,
) -> bool {
    let r = table_row(R as int, bottom_first, row);
    table_bit(table, col, r) && (r < done_rows || (r == done_rows && col < done_cols))
}

/// Clears `grid` and makes alive the cells under the ones of `table`, whose
/// top-left cell goes to `(anchor_x, anchor_y)`. A one that falls off the
/// grid is dropped.
fn stamp<const C: usize, const R: usize>(
    grid: &mut Grid,
    table: &[[u8; C]; R],
    bottom_first: bool,
    anchor_x: usize,
    anchor_y: usize,
)
    ensures
        final(grid)@.width == old(grid)@.width,
        final(grid)@.height == old(grid)@.height,
        final(grid)@.wf(),
        forall|x: int, y: int| #[trigger]
            final(grid)@.is_alive(x, y) == (old(grid)@.in_bounds(x, y) && table_bit(
                *table,
                x - anchor_x,
                table_row(R as int, bottom_first, y - anchor_y),
            )),
{
    let width = grid.width();
    let height = grid.height();
    grid.clear();
    let mut r: usize = 0;
    while r < R
        invariant
            r <= R,
            width == grid@.width == old(grid)@.width,
            height == grid@.height == old(grid)@.height,
            width <= isize::MAX,
            height <= isize::MAX,
            grid@.wf(),
            forall|x: int, y: int| #[trigger]
                grid@.is_alive(x, y) == (grid@.in_bounds(x, y) && written(
                    *table,
                    bottom_first,
                    x - anchor_x,
                    y - anchor_y,
                    r as int,
                    0,
                )),
        decreases R - r,
    {
        let row: usize = if bottom_first {
            R - 1 - r
        } else {
            r
        };
        let mut c: usize = 0;
        while c < C
            invariant
                r < R,
                c <= C,
                row == table_row(R as int, bottom_first, r as int),
                width == grid@.width == old(grid)@.width,
                height == grid@.height == old(grid)@.height,
                width <= isize::MAX,
                height <= isize::MAX,
                grid@.wf(),
                forall|x: int, y: int| #[trigger]
                    grid@.is_alive(x, y) == (grid@.in_bounds(x, y) && written(
                        *table,
                        bottom_first,
                        x - anchor_x,
                        y - anchor_y,
                        r as int,
                        c as int,
                    )),
            decreases C - c,
        {
            if table[r][c] == 1 {
                let x: u128 = anchor_x as u128 + c as u128;
                let y: u128 = anchor_y as u128 + row as u128;
                if x < width as u128 && y < height as u128 {
                    proof {
                        lemma_with_cell(grid@, x as int, y as int, true);
                    }
                    grid.set(x as isize, y as isize, true);
                }
            }
            c += 1;
        }
        r += 1;
    }
}

/// A board that is alive exactly under the ones of a pattern placed at its
/// anchor is the board seeded with that pattern.
proof fn lemma_seeded(after: Board, before: Board, pattern: Pattern)
    requires
        after.wf(),
        after.width == before.width,
        after.height == before.height,
        forall|x: int, y: int| #[trigger]
            after.is_alive(x, y) == (before.in_bounds(x, y) && pattern.bit(
                x - pattern.offset(before.width),
                y - pattern.offset(before.height),
            )),
    ensures
        after == seeded(before, pattern),
{
    let target = seeded(before, pattern);
    assert forall|p: (int, int)| after.alive.contains(p) == target.alive.contains(p) by {
        let (x, y) = p;
        assert(p == (x, y));
        if after.alive.contains((x, y)) {
            assert(after.in_bounds(x, y));
        }
        assert(after.is_alive(x, y) == target.alive.contains((x, y)));
    }
    assert(after.alive =~= target.alive);
}

/// Replaces the content of `grid` by the blinker, anchored at the centre of
/// the grid.
pub fn set_pattern_blinker(grid: &mut Grid)
    ensures
        final(grid)@ == seeded(old(grid)@, Pattern::Blinker),
{
    let anchor_x = Pattern::Blinker.anchor(grid.width());
    let anchor_y = Pattern::Blinker.anchor(grid.height());
    stamp(grid, &BLINKER, false, anchor_x, anchor_y);
    proof {
        lemma_seeded(grid@, old(grid)@, Pattern::Blinker);
    }
}

/// Replaces the content of `grid` by the glider, anchored at the centre of the
/// grid.
pub fn set_pattern_glider(grid: &mut Grid)
    ensures
        final(grid)@ == seeded(old(grid)@, Pattern::Glider),
{
    let anchor_x = Pattern::Glider.anchor(grid.width());
    let anchor_y = Pattern::Glider.anchor(grid.height());
    stamp(grid, &GLIDER, false, anchor_x, anchor_y);
    proof {
        lemma_seeded(grid@, old(grid)@, Pattern::Glider);
    }
}

/// Replaces the content of `grid` by the glider gun, anchored a third of the
/// way along each side.
pub fn set_pattern_glider_gun(grid: &mut Grid)
    ensures
        final(grid)@ == seeded(old(grid)@, Pattern::GliderGun),
{
    let anchor_x = Pattern::GliderGun.anchor(grid.width());
    let anchor_y = Pattern::GliderGun.anchor(grid.height());
    stamp(grid, &GLIDER_GUN, false, anchor_x, anchor_y);
    proof {
        lemma_seeded(grid@, old(grid)@, Pattern::GliderGun);
    }
}

/// Replaces the content of `grid` by the galaxy, anchored two fifths of the
/// way along each side.
pub fn set_pattern_galaxy(grid: &mut Grid)
    ensures
        final(grid)@ == seeded(old(grid)@, Pattern::Galaxy),
{
    let anchor_x = Pattern::Galaxy.anchor(grid.width());
    let anchor_y = Pattern::Galaxy.anchor(grid.height());
    stamp(grid, &GALAXY, false, anchor_x, anchor_y);
    proof {
        lemma_seeded(grid@, old(grid)@, Pattern::Galaxy);
    }
}

/// Replaces the content of `grid` by the 52513M methuselah, anchored two
/// fifths of the way along each side.
pub fn set_pattern_52513m(grid: &mut Grid)
    ensures
        final(grid)@ == seeded(old(grid)@, Pattern::Methuselah52513M),
{
    let anchor_x = Pattern::Methuselah52513M.anchor(grid.width());
    let anchor_y = Pattern::Methuselah52513M.anchor(grid.height());
    stamp(grid, &METHUSELAH_52513M, true, anchor_x, anchor_y);
    proof {
        lemma_seeded(grid@, old(grid)@, Pattern::Methuselah52513M);
    }
}

/// Replaces the content of `grid` by `pattern`: every cell is cleared, then
/// the pattern is placed at its anchor. Seeding never fails; a pattern that
/// reaches past an edge is cut off there.
pub fn seed(pattern: Pattern, grid: &mut Grid)
    ensures
        final(grid)@ == seeded(old(grid)@, pattern),
{
    match pattern {
        Pattern::Blinker => set_pattern_blinker(grid),
        Pattern::Glider => set_pattern_glider(grid),
        Pattern::GliderGun => set_pattern_glider_gun(grid),
        Pattern::Galaxy => set_pattern_galaxy(grid),
        Pattern::Methuselah52513M => set_pattern_52513m(grid),
    }
}

} // verus!
