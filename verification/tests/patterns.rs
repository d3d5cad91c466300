use lifegame::grid::Grid;
use lifegame::pattern::{
    seed, set_pattern_52513m, set_pattern_blinker, set_pattern_galaxy, set_pattern_glider,
    set_pattern_glider_gun, Pattern, BLINKER, GALAXY, GLIDER, GLIDER_GUN, METHUSELAH_52513M,
};
use lifegame::rule::RuleSet;
use lifegame::step::step;

fn grid(width: usize, height: usize) -> Grid {
    Grid::new(width, height).expect("a valid extent")
}

fn alive_cells(g: &Grid) -> Vec<(isize, isize)> {
    let mut cells = Vec::new();
    for x in 0..g.width() as isize {
        for y in 0..g.height() as isize {
            if g.get(x, y) == Some(true) {
                cells.push((x, y));
            }
        }
    }
    cells
}

fn advance(g: &mut Grid, generations: usize) {
    for _ in 0..generations {
        step(g, &RuleSet::conway());
    }
}

fn shifted(cells: &[(isize, isize)], dx: isize, dy: isize) -> Vec<(isize, isize)> {
    let mut moved: Vec<(isize, isize)> = cells.iter().map(|&(x, y)| (x + dx, y + dy)).collect();
    moved.sort();
    moved
}

#[test]
fn anchors_divide_the_side() {
    assert_eq!(Pattern::Blinker.anchor(100), 50);
    assert_eq!(Pattern::Glider.anchor(100), 50);
    assert_eq!(Pattern::GliderGun.anchor(100), 33);
    assert_eq!(Pattern::Galaxy.anchor(100), 40);
    assert_eq!(Pattern::Methuselah52513M.anchor(100), 40);
}

#[test]
fn anchors_round_down() {
    assert_eq!(Pattern::Blinker.anchor(5), 2);
    assert_eq!(Pattern::Glider.anchor(1), 0);
    assert_eq!(Pattern::GliderGun.anchor(8), 2);
    assert_eq!(Pattern::GliderGun.anchor(2), 0);
    assert_eq!(Pattern::Galaxy.anchor(7), 2);
    assert_eq!(Pattern::Galaxy.anchor(9), 3);
    assert_eq!(Pattern::Methuselah52513M.anchor(4), 1);
    assert_eq!(Pattern::Methuselah52513M.anchor(2), 0);
}

#[test]
fn anchor_of_the_longest_side() {
    assert_eq!(Pattern::Blinker.anchor(usize::MAX), usize::MAX / 2);
    assert_eq!(Pattern::GliderGun.anchor(usize::MAX), usize::MAX / 3);
    assert_eq!(
        Pattern::Galaxy.anchor(usize::MAX) as u128,
        (usize::MAX as u128) * 2 / 5
    );
}

#[test]
fn tables_have_the_catalogue_sizes() {
    let ones = |rows: &[&[u8]]| -> usize {
        rows.iter().map(|r| r.iter().filter(|&&b| b == 1).count()).sum()
    };
    assert_eq!(ones(&[&BLINKER[0]]), 3);
    assert_eq!(ones(&GLIDER.iter().map(|r| &r[..]).collect::<Vec<_>>()), 5);
    assert_eq!(ones(&GLIDER_GUN.iter().map(|r| &r[..]).collect::<Vec<_>>()), 36);
    assert_eq!(ones(&GALAXY.iter().map(|r| &r[..]).collect::<Vec<_>>()), 48);
    assert_eq!(
        ones(&METHUSELAH_52513M.iter().map(|r| &r[..]).collect::<Vec<_>>()),
        131
    );
}

#[test]
fn blinker_is_three_cells_in_a_row() {
    let mut g = grid(100, 100);
    set_pattern_blinker(&mut g);
    assert_eq!(alive_cells(&g), vec![(50, 50), (51, 50), (52, 50)]);
}

#[test]
fn blinker_turns_upright_after_one_generation() {
    let mut g = grid(100, 100);
    set_pattern_blinker(&mut g);
    advance(&mut g, 1);
    assert_eq!(alive_cells(&g), vec![(51, 49), (51, 50), (51, 51)]);
}

#[test]
fn blinker_has_period_two() {
    let mut g = grid(100, 100);
    set_pattern_blinker(&mut g);
    let start = g.clone();
    advance(&mut g, 1);
    assert_ne!(g, start);
    advance(&mut g, 1);
    assert_eq!(g, start);
    advance(&mut g, 10);
    assert_eq!(g, start);
}

#[test]
fn blinker_has_period_two_on_the_smallest_grid_that_holds_it() {
    let mut g = grid(5, 3);
    set_pattern_blinker(&mut g);
    assert_eq!(alive_cells(&g), vec![(2, 1), (3, 1), (4, 1)]);
    let start = g.clone();
    advance(&mut g, 2);
    assert_eq!(g, start);
}

#[test]
fn glider_is_placed_at_the_centre() {
    let mut g = grid(100, 100);
    set_pattern_glider(&mut g);
    assert_eq!(
        alive_cells(&g),
        vec![(50, 50), (50, 51), (51, 50), (51, 52), (52, 50)]
    );
}

#[test]
fn glider_moves_one_cell_diagonally_in_four_generations() {
    let mut g = grid(100, 100);
    set_pattern_glider(&mut g);
    let start = alive_cells(&g);
    advance(&mut g, 4);
    assert_eq!(alive_cells(&g), shifted(&start, -1, -1));
    advance(&mut g, 4);
    assert_eq!(alive_cells(&g), shifted(&start, -2, -2));
}

#[test]
fn glider_keeps_five_cells_on_its_way() {
    let mut g = grid(100, 100);
    set_pattern_glider(&mut g);
    for _ in 0..40 {
        advance(&mut g, 1);
        assert_eq!(alive_cells(&g).len(), 5);
    }
}

#[test]
fn glider_gun_is_placed_a_third_along() {
    let mut g = grid(100, 100);
    set_pattern_glider_gun(&mut g);
    let cells = alive_cells(&g);
    assert_eq!(cells.len(), 36);
    assert_eq!(&cells[..5], &[(34, 38), (34, 39), (35, 38), (35, 39), (44, 38)]);
    assert_eq!(g.get(58, 34), Some(true));
    assert_eq!(g.get(33, 33), Some(false));
    assert_eq!(g.get(69, 37), Some(true));
}

#[test]
fn glider_gun_emits_a_glider_every_thirty_generations() {
    let mut g = grid(100, 100);
    set_pattern_glider_gun(&mut g);
    advance(&mut g, 30);
    assert_eq!(alive_cells(&g).len(), 41);
}

#[test]
fn galaxy_is_placed_two_fifths_along() {
    let mut g = grid(100, 100);
    set_pattern_galaxy(&mut g);
    let cells = alive_cells(&g);
    assert_eq!(cells.len(), 48);
    assert_eq!(g.get(43, 42), Some(true));
    assert_eq!(g.get(40, 40), Some(false));
    assert_eq!(g.get(45, 42), Some(false));
    for &(x, y) in &cells {
        assert_eq!(GALAXY[(y - 40) as usize][(x - 40) as usize], 1);
    }
}

#[test]
fn galaxy_has_period_eight() {
    let mut g = grid(100, 100);
    set_pattern_galaxy(&mut g);
    let start = g.clone();
    advance(&mut g, 8);
    assert_eq!(g, start);
}

#[test]
fn methuselah_is_placed_bottom_row_first() {
    let mut g = grid(100, 100);
    set_pattern_52513m(&mut g);
    let cells = alive_cells(&g);
    assert_eq!(cells.len(), 131);
    assert_eq!(g.get(40, 40), Some(true));
    assert_eq!(g.get(41, 40), Some(true));
    assert_eq!(g.get(43, 40), Some(false));
    assert_eq!(g.get(40, 55), Some(true));
    assert_eq!(g.get(43, 55), Some(false));
    assert_eq!(g.get(55, 55), Some(true));
    assert_eq!(g.get(55, 40), Some(true));
    for x in 0..16 {
        for y in 0..16 {
            assert_eq!(
                g.get(40 + x as isize, 40 + y as isize),
                Some(METHUSELAH_52513M[15 - y][x] == 1)
            );
        }
    }
}

#[test]
fn seed_goes_by_the_pattern() {
    let cases: [(Pattern, fn(&mut Grid)); 5] = [
        (Pattern::Blinker, set_pattern_blinker),
        (Pattern::Glider, set_pattern_glider),
        (Pattern::GliderGun, set_pattern_glider_gun),
        (Pattern::Galaxy, set_pattern_galaxy),
        (Pattern::Methuselah52513M, set_pattern_52513m),
    ];
    for (pattern, direct) in cases {
        let mut a = grid(100, 100);
        let mut b = grid(100, 100);
        seed(pattern, &mut a);
        direct(&mut b);
        assert_eq!(a, b);
        assert!(!alive_cells(&a).is_empty());
    }
}

#[test]
fn seed_replaces_what_was_there() {
    let mut g = grid(100, 100);
    for x in 0..100 {
        for y in 0..100 {
            g.set(x, y, true);
        }
    }
    seed(Pattern::Blinker, &mut g);
    assert_eq!(alive_cells(&g), vec![(50, 50), (51, 50), (52, 50)]);
    seed(Pattern::Glider, &mut g);
    assert_eq!(alive_cells(&g).len(), 5);
}

#[test]
fn pattern_past_the_edge_is_cut_off() {
    let mut g = grid(20, 10);
    seed(Pattern::GliderGun, &mut g);
    assert_eq!(alive_cells(&g).len(), 8);
    assert_eq!(g.width(), 20);
    assert_eq!(g.height(), 10);

    let mut g = grid(4, 4);
    seed(Pattern::Methuselah52513M, &mut g);
    assert_eq!(
        alive_cells(&g),
        vec![(1, 1), (1, 2), (2, 1), (2, 3), (3, 1), (3, 2), (3, 3)]
    );

    let mut g = grid(4, 1);
    seed(Pattern::Blinker, &mut g);
    assert_eq!(alive_cells(&g), vec![(2, 0), (3, 0)]);
}

#[test]
fn every_pattern_fits_a_single_cell_grid() {
    for pattern in [
        Pattern::Blinker,
        Pattern::Glider,
        Pattern::GliderGun,
        Pattern::Galaxy,
        Pattern::Methuselah52513M,
    ] {
        let mut g = grid(1, 1);
        seed(pattern, &mut g);
        let expected = match pattern {
            Pattern::GliderGun | Pattern::Galaxy => Some(false),
            _ => Some(true),
        };
        assert_eq!(g.get(0, 0), expected);
    }
}
