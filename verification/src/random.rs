//! Randomised seeding.
use crate::grid::{lemma_with_cell, Board, Grid};
use rand::rngs::StdRng;
use rand::Rng;
use vstd::prelude::*;

verus! {

/// `rand::rngs::StdRng`, the generator that the caller supplies. Its state is
/// opaque here.
#[verifier::external_type_specification]
#[verifier::external_body]
pub struct ExStdRng(rand::rngs::StdRng);

/// One draw of `rand::Rng::gen::<bool>` from `rng`. The draw advances the
/// generator and hands out `true` or `false` with equal probability; nothing
/// is claimed of which.
#[verifier::external_body]
fn next_bool(rng: &mut StdRng) -> (bit: bool) {
    rng.gen::<bool>()
}

/// The board of the extent of `board` on which each cell is what its own
/// draw says. The draws go column by column, and within a column from the
/// top: cell `(x, y)` takes draw number `x * height + y`. Nothing of what
/// `board` holds is kept.
pub open spec fn drawn(board: Board, draws: Seq<bool>) -> Board {
    Board {
        width: board.width,
        height: board.height,
        alive: Set::new(
            |p: (int, int)| board.in_bounds(p.0, p.1) && draws[p.0 * board.height + p.1],
        ),
    }
}

/// The number of the draw for an on-board cell lies below the number of
/// cells, and the first draw of the next column follows the last of this
/// one.
pub proof fn lemma_draw_index(x: int, y: int, width: int, height: int)
    requires
        0 <= x < width,
        0 <= y < height,
    ensures
        0 <= x * height + y < width * height,
        (x + 1) * height == x * height + height,
{
    assert(0 <= x * height) by (nonlinear_arith)
        requires
            0 <= x,
            0 < height,
    ;
    assert((x + 1) * height == x * height + height) by (nonlinear_arith);
    assert((x + 1) * height <= width * height) by (nonlinear_arith)
        requires
            x + 1 <= width,
            0 < height,
    ;
}

/// Replaces the content of `grid` by `draws`, one draw for each cell, and
/// answers `true`. Where `draws` does not hold exactly one draw for each
/// cell, the grid is left as it is and the answer is `false`.
pub fn fill_from_draws(grid: &mut Grid, draws: &Vec<bool>) -> (filled: bool)
    ensures
        filled == (draws@.len() == old(grid)@.width * old(grid)@.height),
        final(grid)@ == if filled {
            drawn(old(grid)@, draws@)
        } else {
            old(grid)@
        },
{
    let width = grid.width();
    let height = grid.height();
    if draws.len() != width * height {
        return false;
    }
    let mut next: usize = 0;
    let mut x: usize = 0;
    while x < width
        invariant
            x <= width,
            next == x * height,
            draws@.len() == width * height <= isize::MAX,
            0 < height <= isize::MAX,
            width <= isize::MAX,
            grid@.wf(),
            width == grid@.width == old(grid)@.width,
            height == grid@.height == old(grid)@.height,
            forall|cx: int, cy: int|
                0 <= cx < x && 0 <= cy < height ==> #[trigger] grid@.is_alive(cx, cy) == draws@[cx
                    * height + cy],
        decreases width - x,
    {
        let mut y: usize = 0;
        while y < height
            invariant
                x < width,
                y <= height,
                next == x * height + y,
                draws@.len() == width * height <= isize::MAX,
                0 < height <= isize::MAX,
                width <= isize::MAX,
                grid@.wf(),
                width == grid@.width == old(grid)@.width,
                height == grid@.height == old(grid)@.height,
                forall|cx: int, cy: int|
                    0 <= cx < x && 0 <= cy < height ==> #[trigger] grid@.is_alive(cx, cy)
                        == draws@[cx * height + cy],
                forall|cy: int|
                    0 <= cy < y ==> #[trigger] grid@.is_alive(x as int, cy) == draws@[x * height
                        + cy],
            decreases height - y,
        {
            proof {
                lemma_draw_index(x as int, y as int, width as int, height as int);
                lemma_with_cell(grid@, x as int, y as int, draws@[next as int]);
            }
            grid.set(x as isize, y as isize, draws[next]);
            next += 1;
            y += 1;
        }
        proof {
            lemma_draw_index(x as int, 0, width as int, height as int);
        }
        x += 1;
    }
    proof {
        let target = drawn(old(grid)@, draws@);
        assert forall|p: (int, int)| grid@.alive.contains(p) == target.alive.contains(p) by {
            let (cx, cy) = p;
            assert(p == (cx, cy));
            if grid@.alive.contains((cx, cy)) {
                assert(grid@.in_bounds(cx, cy));
            }
            if grid@.in_bounds(cx, cy) {
                assert(grid@.is_alive(cx, cy) == draws@[cx * height + cy]);
            }
        }
        assert(grid@.alive =~= target.alive);
    }
    true
}

/// Replaces the content of `grid` by a random one: one draw from `rng` for
/// each cell, in the order of `drawn`, and then every cell set to its draw.
///
/// What the draws are is the generator's affair. Whatever they are, the grid
/// is afterwards the one that `fill_from_draws` makes of them, so nothing of
/// its earlier content is left.
pub fn set_pattern_random(grid: &mut Grid, rng: &mut StdRng)
    ensures
        final(grid)@.wf(),
        final(grid)@.width == old(grid)@.width,
        final(grid)@.height == old(grid)@.height,
        exists|draws: Seq<bool>|
            draws.len() == old(grid)@.width * old(grid)@.height && final(grid)@ == #[trigger] drawn(
                old(grid)@,
                draws,
            ),
{
    let width = grid.width();
    let height = grid.height();
    let count = width * height;
    let mut draws: Vec<bool> = Vec::new();
    while draws.len() < count
        invariant
            draws@.len() <= count,
        decreases count - draws@.len(),
    {
        let bit = next_bool(rng);
        draws.push(bit);
    }
    fill_from_draws(grid, &draws);
    assert(grid@ == drawn(old(grid)@, draws@));
}

} // verus!
