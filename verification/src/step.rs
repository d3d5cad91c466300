//! The transition from one generation to the next.
use crate::grid::{lemma_with_cell, Board, Grid};
use crate::rule::RuleSet;
use vstd::prelude::*;

verus! {

/// The state of `(x, y)` one generation after `board`: the rule set applied
/// to its present state and to the number of its live neighbours on `board`.
pub open spec fn next_cell(board: Board, rules: RuleSet, x: int, y: int) -> bool {
    rules.next_state_spec(board.is_alive(x, y), board.live_neighbors(x, y))
}

/// The generation that follows `board`. Every cell is decided from `board`
/// alone, so no cell sees the new state of another.
pub open spec fn next_generation(board: Board, rules: RuleSet) -> Board {
    Board {
        width: board.width,
        height: board.height,
        alive: Set::new(|p: (int, int)| board.in_bounds(p.0, p.1) && next_cell(board, rules, p.0, p.1)),
    }
}

/// The generation `n` steps after `board`.
pub open spec fn generation_after(board: Board, rules: RuleSet, n: nat) -> Board
    decreases n,
{
    if n == 0 {
        board
    } else {
        next_generation(generation_after(board, rules, (n - 1) as nat), rules)
    }
}

/// Advances `grid` by one generation.
///
/// The present generation is kept aside as a snapshot. Every neighbour count
/// and every present state is read from the snapshot, and only the results
/// are written to `grid`, so the order in which cells are visited has no
/// effect on the outcome.
pub fn step(grid: &mut Grid, rules: &RuleSet)
    ensures
        final(grid)@ == next_generation(old(grid)@, *rules),
{
    let snapshot = grid.clone();
    let width = grid.width();
    let height = grid.height();
    let mut x: usize = 0;
    while x < width
        invariant
            x <= width,
            width == snapshot@.width,
            height == snapshot@.height,
            width <= isize::MAX,
            height <= isize::MAX,
            snapshot@ == old(grid)@,
            grid@.width == width,
            grid@.height == height,
            grid@.wf(),
            forall|cx: int, cy: int|
                0 <= cx < x && 0 <= cy < height ==> #[trigger] grid@.is_alive(cx, cy) == next_cell(
                    snapshot@,
                    *rules,
                    cx,
                    cy,
                ),
        decreases width - x,
    {
        let mut y: usize = 0;
        while y < height
            invariant
                x < width,
                y <= height,
                width == snapshot@.width,
                height == snapshot@.height,
                width <= isize::MAX,
                height <= isize::MAX,
                grid@.width == width,
                grid@.height == height,
                grid@.wf(),
                forall|cx: int, cy: int|
                    0 <= cx < x && 0 <= cy < height ==> #[trigger] grid@.is_alive(cx, cy)
                        == next_cell(snapshot@, *rules, cx, cy),
                forall|cy: int|
                    0 <= cy < y ==> #[trigger] grid@.is_alive(x as int, cy) == next_cell(
                        snapshot@,
                        *rules,
                        x as int,
                        cy,
                    ),
            decreases height - y,
        {
            let current = match snapshot.get(x as isize, y as isize) {
                Some(alive) => alive,
                None => false,
            };
            let count = snapshot.live_neighbors(x as isize, y as isize);
            let next = rules.next_state(current, count);
            proof {
                lemma_with_cell(grid@, x as int, y as int, next);
            }
            grid.set(x as isize, y as isize, next);
            y += 1;
        }
        x += 1;
    }
    proof {
        let target = next_generation(old(grid)@, *rules);
        assert forall|p: (int, int)| grid@.alive.contains(p) == target.alive.contains(p) by {
            let (cx, cy) = p;
            assert(p == (cx, cy));
            if grid@.alive.contains((cx, cy)) {
                assert(grid@.in_bounds(cx, cy));
            }
            if grid@.in_bounds(cx, cy) {
                assert(grid@.is_alive(cx, cy) == next_cell(snapshot@, *rules, cx, cy));
            }
        }
        assert(grid@.alive =~= target.alive);
    }
}

} // verus!
