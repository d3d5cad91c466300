//! Properties that hold of the automaton as a whole.
use crate::grid::{indicator, Board};
use crate::pattern::{placed_at, seeded, table_bit, Pattern, BLINKER, GLIDER};
use crate::random::{drawn, lemma_draw_index};
use crate::rule::RuleSet;
use crate::scheduler::Scheduler;
use crate::step::{generation_after, next_cell, next_generation};
use vstd::prelude::*;

verus! {

/// Two well-formed boards of one extent with the same live cells are the
/// same board.
pub proof fn lemma_board_equal(a: Board, b: Board)
    requires
        a.wf(),
        b.wf(),
        a.width == b.width,
        a.height == b.height,
        forall|x: int, y: int| a.is_alive(x, y) == b.is_alive(x, y),
    ensures
        a == b,
{
    assert forall|p: (int, int)| a.alive.contains(p) == b.alive.contains(p) by {
        let (x, y) = p;
        assert(p == (x, y));
        assert(a.is_alive(x, y) == b.is_alive(x, y));
        if a.alive.contains((x, y)) {
            assert(a.in_bounds(x, y));
        }
        if b.alive.contains((x, y)) {
            assert(b.in_bounds(x, y));
        }
    }
    assert(a.alive =~= b.alive);
}

/// On a board of three columns and three rows or more, a corner cell has
/// three neighbours, a cell elsewhere on an edge has five, and a cell in the
/// interior has eight.
pub proof fn lemma_neighbor_count(board: Board, x: int, y: int)
    requires
        board.width >= 3,
        board.height >= 3,
        board.in_bounds(x, y),
    ensures
        board.neighbors(x, y).len() == if (x == 0 || x == board.width - 1) && (y == 0 || y
            == board.height - 1) {
            3int
        } else if x == 0 || x == board.width - 1 || y == 0 || y == board.height - 1 {
            5int
        } else {
            8int
        },
{
}

/// The number of live cells of `board` among `cells`, each counted as often
/// as it is listed.
pub open spec fn live_among(board: Board, cells: Seq<(int, int)>) -> int
    decreases cells.len(),
{
    if cells.len() == 0 {
        0
    } else {
        live_among(board, cells.drop_last()) + indicator(
            board.is_alive(cells.last().0, cells.last().1),
        )
    }
}

/// Counting over two lists in a row is counting over each and adding up.
proof fn lemma_live_among_concat(board: Board, a: Seq<(int, int)>, b: Seq<(int, int)>)
    ensures
        live_among(board, a + b) == live_among(board, a) + live_among(board, b),
    decreases b.len(),
{
    if b.len() == 0 {
        assert(a + b =~= a);
    } else {
        assert((a + b).drop_last() =~= a + b.drop_last());
        lemma_live_among_concat(board, a, b.drop_last());
    }
}

/// A cell off the board adds nothing to a count, a cell on it adds one if it
/// is alive.
proof fn lemma_live_among_candidate(board: Board, x: int, y: int)
    ensures
        live_among(board, board.candidate(x, y)) == indicator(board.is_alive(x, y)),
{
    if board.in_bounds(x, y) {
        let one = seq![(x, y)];
        assert(one.drop_last() =~= Seq::empty());
        assert(live_among(board, one.drop_last()) == 0);
    }
}

/// The live-neighbour count of a cell is the number of live cells among its
/// neighbours on the board.
pub proof fn lemma_live_neighbors_counts_neighbors(board: Board, x: int, y: int)
    ensures
        board.live_neighbors(x, y) == live_among(board, board.neighbors(x, y)),
{
    let c0 = board.candidate(x - 1, y - 1);
    let c1 = board.candidate(x - 1, y);
    let c2 = board.candidate(x - 1, y + 1);
    let c3 = board.candidate(x, y - 1);
    let c4 = board.candidate(x, y + 1);
    let c5 = board.candidate(x + 1, y - 1);
    let c6 = board.candidate(x + 1, y);
    let c7 = board.candidate(x + 1, y + 1);
    lemma_live_among_candidate(board, x - 1, y - 1);
    lemma_live_among_candidate(board, x - 1, y);
    lemma_live_among_candidate(board, x - 1, y + 1);
    lemma_live_among_candidate(board, x, y - 1);
    lemma_live_among_candidate(board, x, y + 1);
    lemma_live_among_candidate(board, x + 1, y - 1);
    lemma_live_among_candidate(board, x + 1, y);
    lemma_live_among_candidate(board, x + 1, y + 1);
    lemma_live_among_concat(board, c0, c1);
    lemma_live_among_concat(board, c0 + c1, c2);
    lemma_live_among_concat(board, c0 + c1 + c2, c3);
    lemma_live_among_concat(board, c0 + c1 + c2 + c3, c4);
    lemma_live_among_concat(board, c0 + c1 + c2 + c3 + c4, c5);
    lemma_live_among_concat(board, c0 + c1 + c2 + c3 + c4 + c5, c6);
    lemma_live_among_concat(board, c0 + c1 + c2 + c3 + c4 + c5 + c6, c7);
}

/// The next state of a cell is decided by the present states of the cell and
/// of the eight cells around it, and by nothing else: two boards that agree
/// there give the cell the same next state, whatever they hold elsewhere.
pub proof fn lemma_step_is_local(a: Board, b: Board, rules: RuleSet, x: int, y: int)
    requires
        a.in_bounds(x, y) == b.in_bounds(x, y),
        forall|dx: int, dy: int|
            -1 <= dx <= 1 && -1 <= dy <= 1 ==> #[trigger] a.is_alive(x + dx, y + dy) == b.is_alive(
                x + dx,
                y + dy,
            ),
    ensures
        next_generation(a, rules).is_alive(x, y) == next_generation(b, rules).is_alive(x, y),
{
    assert(a.is_alive(x + 0, y + 0) == b.is_alive(x + 0, y + 0));
    assert(a.is_alive(x + (-1), y + (-1)) == b.is_alive(x + (-1), y + (-1)));
    assert(a.is_alive(x + (-1), y + 0) == b.is_alive(x + (-1), y + 0));
    assert(a.is_alive(x + (-1), y + 1) == b.is_alive(x + (-1), y + 1));
    assert(a.is_alive(x + 0, y + (-1)) == b.is_alive(x + 0, y + (-1)));
    assert(a.is_alive(x + 0, y + 1) == b.is_alive(x + 0, y + 1));
    assert(a.is_alive(x + 1, y + (-1)) == b.is_alive(x + 1, y + (-1)));
    assert(a.is_alive(x + 1, y + 0) == b.is_alive(x + 1, y + 0));
    assert(a.is_alive(x + 1, y + 1) == b.is_alive(x + 1, y + 1));
    assert(a.live_neighbors(x, y) == b.live_neighbors(x, y));
    assert(next_generation(a, rules).alive.contains((x, y)) == (a.in_bounds(x, y) && next_cell(
        a,
        rules,
        x,
        y,
    )));
    assert(next_generation(b, rules).alive.contains((x, y)) == (b.in_bounds(x, y) && next_cell(
        b,
        rules,
        x,
        y,
    )));
}

/// Under Conway's rule a live cell without a live neighbour is dead in the
/// next generation.
pub proof fn lemma_lone_cell_dies(board: Board, x: int, y: int)
    requires
        board.is_alive(x, y),
        board.live_neighbors(x, y) == 0,
    ensures
        !next_generation(board, RuleSet::conway_spec()).is_alive(x, y),
{
}

/// Under Conway's rule a board without a live cell stays as it is, for any
/// number of generations.
pub proof fn lemma_empty_board_is_stable(board: Board, n: nat)
    requires
        board.wf(),
        forall|x: int, y: int| !board.is_alive(x, y),
    ensures
        generation_after(board, RuleSet::conway_spec(), n) == board,
    decreases n,
{
    if n > 0 {
        lemma_empty_board_is_stable(board, (n - 1) as nat);
        let next = next_generation(board, RuleSet::conway_spec());
        assert forall|x: int, y: int| next.is_alive(x, y) == board.is_alive(x, y) by {
            assert(board.live_neighbors(x, y) == 0);
        }
        lemma_board_equal(next, board);
    }
}

/// A rule whose lower bound lies above its upper bound holds for no count.
pub proof fn lemma_inverted_rule_never_holds(rules: RuleSet, count: int)
    ensures
        rules.alive_rule.min > rules.alive_rule.max ==> !rules.next_state_spec(true, count),
        rules.dead_rule.min > rules.dead_rule.max ==> !rules.next_state_spec(false, count),
{
}

/// Where the survival rule has its lower bound above its upper bound, every
/// live cell is dead in the next generation, whatever its neighbours.
pub proof fn lemma_inverted_survival_kills(board: Board, rules: RuleSet, x: int, y: int)
    requires
        rules.alive_rule.min > rules.alive_rule.max,
        board.is_alive(x, y),
    ensures
        !next_generation(board, rules).is_alive(x, y),
{
}

/// The blinker as a horizontal bar: three cells in row `y0`, from column `x0`
/// on.
pub open spec fn blinker_flat(x0: int, y0: int, x: int, y: int) -> bool {
    y == y0 && x0 <= x <= x0 + 2
}

/// The blinker as a vertical bar about the same centre as `blinker_flat`.
pub open spec fn blinker_upright(x0: int, y0: int, x: int, y: int) -> bool {
    x == x0 + 1 && y0 - 1 <= y <= y0 + 1
}

/// On a grid of five columns and three rows or more, where the whole blinker
/// and its turned form fit, the seeded blinker has period two: after one
/// generation it stands upright about the same centre, after two it is the
/// seeded grid again.
pub proof fn lemma_blinker_oscillates(board: Board)
    requires
        board.wf(),
        board.width >= 5,
        board.height >= 3,
    ensures
        forall|x: int, y: int| #[trigger]
            next_generation(seeded(board, Pattern::Blinker), RuleSet::conway_spec()).is_alive(x, y)
                == blinker_upright(board.width / 2, board.height / 2, x, y),
        generation_after(seeded(board, Pattern::Blinker), RuleSet::conway_spec(), 2) == seeded(
            board,
            Pattern::Blinker,
        ),
{
    let rules = RuleSet::conway_spec();
    let x0 = board.width / 2;
    let y0 = board.height / 2;
    let flat = seeded(board, Pattern::Blinker);
    let upright = next_generation(flat, rules);
    let again = next_generation(upright, rules);
    assert forall|x: int, y: int| #[trigger] flat.is_alive(x, y) == blinker_flat(x0, y0, x, y) by {
        let col = x - x0;
        assert(BLINKER[0][0] == 1 && BLINKER[0][1] == 1 && BLINKER[0][2] == 1);
        assert(table_bit(BLINKER, col, y - y0) == (y == y0 && 0 <= col <= 2));
        assert(flat.alive.contains((x, y)) == (board.in_bounds(x, y) && Pattern::Blinker.bit(
            col,
            y - y0,
        )));
    }
    assert forall|x: int, y: int| #[trigger]
        upright.is_alive(x, y) == blinker_upright(x0, y0, x, y) by {
        assert(upright.alive.contains((x, y)) == (flat.in_bounds(x, y) && next_cell(
            flat,
            rules,
            x,
            y,
        )));
    }
    assert forall|x: int, y: int| #[trigger] again.is_alive(x, y) == flat.is_alive(x, y) by {
        assert(again.alive.contains((x, y)) == (upright.in_bounds(x, y) && next_cell(
            upright,
            rules,
            x,
            y,
        )));
    }
    lemma_board_equal(again, flat);
    assert(generation_after(flat, rules, 2) == again) by {
        reveal_with_fuel(generation_after, 3);
    }
}

/// The glider as it is placed, with its top-left cell at `(x0, y0)`.
pub open spec fn glider_first(x0: int, y0: int, x: int, y: int) -> bool {
    ||| (x == x0 && y == y0)
    ||| (x == x0 + 1 && y == y0)
    ||| (x == x0 + 2 && y == y0)
    ||| (x == x0 && y == y0 + 1)
    ||| (x == x0 + 1 && y == y0 + 2)
}

/// The glider one generation after it was placed.
pub open spec fn glider_second(x0: int, y0: int, x: int, y: int) -> bool {
    ||| (x == x0 && y == y0)
    ||| (x == x0 && y == y0 + 1)
    ||| (x == x0 + 1 && y == y0 - 1)
    ||| (x == x0 + 1 && y == y0)
    ||| (x == x0 + 2 && y == y0 + 1)
}

/// The glider two generations after it was placed.
pub open spec fn glider_third(x0: int, y0: int, x: int, y: int) -> bool {
    ||| (x == x0 && y == y0 - 1)
    ||| (x == x0 && y == y0)
    ||| (x == x0 && y == y0 + 1)
    ||| (x == x0 + 1 && y == y0 - 1)
    ||| (x == x0 + 2 && y == y0)
}

/// The glider three generations after it was placed.
pub open spec fn glider_fourth(x0: int, y0: int, x: int, y: int) -> bool {
    ||| (x == x0 - 1 && y == y0)
    ||| (x == x0 && y == y0 - 1)
    ||| (x == x0 && y == y0)
    ||| (x == x0 + 1 && y == y0 - 1)
    ||| (x == x0 + 1 && y == y0 + 1)
}

/// Whether a glider placed at `(x0, y0)` has room on `board` for its next
/// four generations: one free column to its left and one free row above it.
pub open spec fn glider_has_room(board: Board, x0: int, y0: int) -> bool {
    1 <= x0 && x0 + 2 < board.width && 1 <= y0 && y0 + 2 < board.height
}

/// One generation under Conway's rule takes `glider_first` to `glider_second`.
proof fn lemma_glider_first_step(board: Board, x0: int, y0: int)
    requires
        board.wf(),
        glider_has_room(board, x0, y0),
        forall|x: int, y: int| #[trigger] board.is_alive(x, y) == glider_first(x0, y0, x, y),
    ensures
        forall|x: int, y: int| #[trigger]
            next_generation(board, RuleSet::conway_spec()).is_alive(x, y) == glider_second(x0, y0, x, y),
{
    let rules = RuleSet::conway_spec();
    let next = next_generation(board, rules);
    assert forall|x: int, y: int| #[trigger] next.is_alive(x, y) == glider_second(x0, y0, x, y) by {
        assert(next.alive.contains((x, y)) == (board.in_bounds(x, y) && next_cell(
            board,
            rules,
            x,
            y,
        )));
    }
}

/// One generation under Conway's rule takes `glider_second` to `glider_third`.
proof fn lemma_glider_second_step(board: Board, x0: int, y0: int)
    requires
        board.wf(),
        glider_has_room(board, x0, y0),
        forall|x: int, y: int| #[trigger] board.is_alive(x, y) == glider_second(x0, y0, x, y),
    ensures
        forall|x: int, y: int| #[trigger]
            next_generation(board, RuleSet::conway_spec()).is_alive(x, y) == glider_third(x0, y0, x, y),
{
    let rules = RuleSet::conway_spec();
    let next = next_generation(board, rules);
    assert forall|x: int, y: int| #[trigger] next.is_alive(x, y) == glider_third(x0, y0, x, y) by {
        assert(next.alive.contains((x, y)) == (board.in_bounds(x, y) && next_cell(
            board,
            rules,
            x,
            y,
        )));
    }
}

/// One generation under Conway's rule takes `glider_third` to `glider_fourth`.
proof fn lemma_glider_third_step(board: Board, x0: int, y0: int)
    requires
        board.wf(),
        glider_has_room(board, x0, y0),
        forall|x: int, y: int| #[trigger] board.is_alive(x, y) == glider_third(x0, y0, x, y),
    ensures
        forall|x: int, y: int| #[trigger]
            next_generation(board, RuleSet::conway_spec()).is_alive(x, y) == glider_fourth(x0, y0, x, y),
{
    let rules = RuleSet::conway_spec();
    let next = next_generation(board, rules);
    assert forall|x: int, y: int| #[trigger] next.is_alive(x, y) == glider_fourth(x0, y0, x, y) by {
        assert(next.alive.contains((x, y)) == (board.in_bounds(x, y) && next_cell(
            board,
            rules,
            x,
            y,
        )));
    }
}

/// One generation under Conway's rule takes `glider_fourth` to `glider_first`.
proof fn lemma_glider_fourth_step(board: Board, x0: int, y0: int)
    requires
        board.wf(),
        glider_has_room(board, x0, y0),
        forall|x: int, y: int| #[trigger] board.is_alive(x, y) == glider_fourth(x0, y0, x, y),
    ensures
        forall|x: int, y: int| #[trigger]
            next_generation(board, RuleSet::conway_spec()).is_alive(x, y) == glider_first(x0 - 1, y0 - 1, x, y),
{
    let rules = RuleSet::conway_spec();
    let next = next_generation(board, rules);
    assert forall|x: int, y: int| #[trigger] next.is_alive(x, y) == glider_first(x0 - 1, y0 - 1, x, y) by {
        assert(next.alive.contains((x, y)) == (board.in_bounds(x, y) && next_cell(
            board,
            rules,
            x,
            y,
        )));
    }
}

/// The live cells of the glider's table are those of `glider_first`.
proof fn lemma_glider_cells(x0: int, y0: int, x: int, y: int)
    ensures
        Pattern::Glider.bit(x - x0, y - y0) == glider_first(x0, y0, x, y),
{
    assert(GLIDER[0][0] == 1 && GLIDER[0][1] == 1 && GLIDER[0][2] == 1);
    assert(GLIDER[1][0] == 1 && GLIDER[1][1] == 0 && GLIDER[1][2] == 0);
    assert(GLIDER[2][0] == 0 && GLIDER[2][1] == 1 && GLIDER[2][2] == 0);
}

/// On a grid of five columns and five rows or more, where the glider has
/// room, four generations move the seeded glider by one cell to the left and
/// one cell up and change nothing else.
pub proof fn lemma_glider_travels(board: Board)
    requires
        board.wf(),
        board.width >= 5,
        board.height >= 5,
    ensures
        generation_after(seeded(board, Pattern::Glider), RuleSet::conway_spec(), 4) == placed_at(
            board,
            Pattern::Glider,
            board.width / 2 - 1,
            board.height / 2 - 1,
        ),
{
    let rules = RuleSet::conway_spec();
    let x0 = board.width / 2;
    let y0 = board.height / 2;
    let first = seeded(board, Pattern::Glider);
    let second = next_generation(first, rules);
    let third = next_generation(second, rules);
    let fourth = next_generation(third, rules);
    let fifth = next_generation(fourth, rules);
    let moved = placed_at(board, Pattern::Glider, x0 - 1, y0 - 1);
    assert forall|x: int, y: int| #[trigger] first.is_alive(x, y) == glider_first(x0, y0, x, y) by {
        lemma_glider_cells(x0, y0, x, y);
        assert(first.alive.contains((x, y)) == (board.in_bounds(x, y) && Pattern::Glider.bit(
            x - x0,
            y - y0,
        )));
    }
    lemma_glider_first_step(first, x0, y0);
    lemma_glider_second_step(second, x0, y0);
    lemma_glider_third_step(third, x0, y0);
    lemma_glider_fourth_step(fourth, x0, y0);
    assert forall|x: int, y: int| fifth.is_alive(x, y) == moved.is_alive(x, y) by {
        lemma_glider_cells(x0 - 1, y0 - 1, x, y);
        assert(moved.alive.contains((x, y)) == (board.in_bounds(x, y) && Pattern::Glider.bit(
            x - (x0 - 1),
            y - (y0 - 1),
        )));
    }
    lemma_board_equal(fifth, moved);
    assert(generation_after(first, rules, 4) == fifth) by {
        reveal_with_fuel(generation_after, 5);
    }
}

/// A grid filled from draws is a well-formed board of the same extent on
/// which every cell is its own draw: cell `(x, y)` is alive exactly if draw
/// number `x * height + y` is true.
pub proof fn lemma_drawn_cells(board: Board, draws: Seq<bool>)
    requires
        board.wf(),
    ensures
        drawn(board, draws).wf(),
        drawn(board, draws).width == board.width,
        drawn(board, draws).height == board.height,
        forall|x: int, y: int|
            board.in_bounds(x, y) ==> #[trigger] drawn(board, draws).is_alive(x, y) == draws[x
                * board.height + y],
        forall|x: int, y: int| !board.in_bounds(x, y) ==> !#[trigger] drawn(board, draws).is_alive(x, y),
{
}

/// What a grid held before it was filled from draws has no effect: the same
/// draws give the same grid from any two boards of one extent.
pub proof fn lemma_drawn_forgets(a: Board, b: Board, draws: Seq<bool>)
    requires
        a.width == b.width,
        a.height == b.height,
    ensures
        drawn(a, draws) == drawn(b, draws),
{
    assert(drawn(a, draws).alive =~= drawn(b, draws).alive);
}

/// Draws that all say the same make every cell of the grid that: all true
/// fills the grid, all false empties it.
pub proof fn lemma_drawn_uniform(board: Board, draws: Seq<bool>, value: bool)
    requires
        board.wf(),
        draws.len() == board.width * board.height,
        forall|k: int| 0 <= k < draws.len() ==> draws[k] == value,
    ensures
        forall|x: int, y: int|
            board.in_bounds(x, y) ==> #[trigger] drawn(board, draws).is_alive(x, y) == value,
        !value ==> drawn(board, draws) == board.cleared(),
{
    assert forall|x: int, y: int| board.in_bounds(x, y) implies #[trigger] drawn(
        board,
        draws,
    ).is_alive(x, y) == value by {
        lemma_draw_index(x, y, board.width, board.height);
    }
    if !value {
        assert forall|p: (int, int)| !drawn(board, draws).alive.contains(p) by {
            if board.in_bounds(p.0, p.1) {
                lemma_draw_index(p.0, p.1, board.width, board.height);
            }
        }
        assert(drawn(board, draws).alive =~= Set::empty());
    }
}

/// The sum of a sequence of tick lengths.
pub open spec fn total(deltas: Seq<u64>) -> int
    decreases deltas.len(),
{
    if deltas.len() == 0 {
        0
    } else {
        total(deltas.drop_last()) + deltas.last()
    }
}

/// Ticks that together stay below the interval fire nothing and lose
/// nothing: the timer holds their sum.
pub proof fn lemma_quiet_below_interval(timer: Scheduler, deltas: Seq<u64>)
    requires
        timer.elapsed + total(deltas) < timer.interval,
    ensures
        timer.fire_count(deltas) == 0,
        timer.after_ticks(deltas).interval == timer.interval,
        timer.after_ticks(deltas).elapsed == timer.elapsed + total(deltas),
    decreases deltas.len(),
{
    if deltas.len() > 0 {
        lemma_total_nonnegative(deltas.drop_last());
        lemma_quiet_below_interval(timer, deltas.drop_last());
    }
}

/// A sum of tick lengths is not negative.
pub proof fn lemma_total_nonnegative(deltas: Seq<u64>)
    ensures
        0 <= total(deltas),
    decreases deltas.len(),
{
    if deltas.len() > 0 {
        lemma_total_nonnegative(deltas.drop_last());
    }
}

/// After ticks that together stay below the interval, one more tick that
/// reaches or crosses it fires: once over the whole run, and the timer
/// starts again from zero, not from the overshoot.
pub proof fn lemma_fires_once_on_crossing(timer: Scheduler, deltas: Seq<u64>, last: u64)
    requires
        timer.elapsed + total(deltas) < timer.interval,
        timer.elapsed + total(deltas) + last >= timer.interval,
    ensures
        timer.after_ticks(deltas).fires(last),
        timer.fire_count(deltas.push(last)) == 1,
        timer.after_ticks(deltas.push(last)).elapsed == 0,
        timer.after_ticks(deltas.push(last)).interval == timer.interval,
{
    lemma_quiet_below_interval(timer, deltas);
    assert(deltas.push(last).drop_last() =~= deltas);
}

} // verus!
