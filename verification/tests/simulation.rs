use lifegame::config::Config;
use lifegame::grid::Grid;
use lifegame::pattern::{seed, Pattern};
use lifegame::random::set_pattern_random;
use lifegame::rule::{Rule, RuleSet};
use lifegame::simulation::Simulation;
use lifegame::step::step;
use rand::rngs::StdRng;
use rand::{Rng, SeedableRng};

fn simulation(width: usize, height: usize, config: &Config) -> Simulation {
    Simulation::new(width, height, config).expect("a valid extent")
}

fn population(g: &Grid) -> usize {
    let mut n = 0;
    for x in 0..g.width() as isize {
        for y in 0..g.height() as isize {
            if g.get(x, y) == Some(true) {
                n += 1;
            }
        }
    }
    n
}

#[test]
fn new_simulation_is_dead_and_idle() {
    let sim = simulation(100, 100, &Config::default());
    assert_eq!(sim.grid(), &Grid::new(100, 100).unwrap());
    assert_eq!(sim.elapsed(), 0);
    assert_eq!(sim.query(99, 99), Some(false));
    assert_eq!(sim.query(100, 99), None);
}

#[test]
fn new_simulation_rejects_an_empty_extent() {
    assert!(Simulation::new(0, 3, &Config::default()).is_none());
    assert!(Simulation::new(3, 0, &Config::default()).is_none());
    assert!(Simulation::new(usize::MAX, 3, &Config::default()).is_none());
}

#[test]
fn query_reads_the_grid() {
    let mut sim = simulation(10, 10, &Config::default());
    sim.seed(Pattern::Blinker);
    assert_eq!(sim.query(5, 5), Some(true));
    assert_eq!(sim.query(4, 5), Some(false));
    assert_eq!(sim.query(-1, 5), None);
    assert_eq!(sim.query(5, 10), None);
}

#[test]
fn tick_below_the_interval_leaves_the_grid() {
    let config = Config { interval_ms: 100, rules: RuleSet::conway() };
    let mut sim = simulation(10, 10, &config);
    sim.seed(Pattern::Blinker);
    let start = sim.grid().clone();
    assert!(!sim.advance_one_tick(&config, 40));
    assert!(!sim.advance_one_tick(&config, 59));
    assert_eq!(sim.elapsed(), 99);
    assert_eq!(sim.grid(), &start);
}

#[test]
fn crossing_tick_advances_one_generation() {
    let config = Config { interval_ms: 100, rules: RuleSet::conway() };
    let mut sim = simulation(10, 10, &config);
    sim.seed(Pattern::Blinker);
    let mut expected = sim.grid().clone();
    step(&mut expected, &config.rules);
    assert!(!sim.advance_one_tick(&config, 99));
    assert!(sim.advance_one_tick(&config, 5));
    assert_eq!(sim.elapsed(), 0);
    assert_eq!(sim.grid(), &expected);
}

#[test]
fn long_tick_advances_one_generation_only() {
    let config = Config::default();
    let mut sim = simulation(10, 10, &config);
    sim.seed(Pattern::Blinker);
    let mut expected = sim.grid().clone();
    step(&mut expected, &config.rules);
    assert!(sim.advance_one_tick(&config, 1_000_000));
    assert_eq!(sim.grid(), &expected);
    assert_eq!(sim.elapsed(), 0);
    assert!(!sim.advance_one_tick(&config, 9));
    assert_eq!(sim.grid(), &expected);
}

#[test]
fn changed_interval_is_read_at_the_next_tick() {
    let mut config = Config { interval_ms: 1_000, rules: RuleSet::conway() };
    let mut sim = simulation(10, 10, &config);
    assert!(!sim.advance_one_tick(&config, 300));
    config.interval_ms = 200;
    assert_eq!(sim.elapsed(), 300);
    assert!(sim.advance_one_tick(&config, 0));
    assert_eq!(sim.elapsed(), 0);
    config.interval_ms = 5_000;
    assert!(!sim.advance_one_tick(&config, 4_999));
    assert!(sim.advance_one_tick(&config, 1));
}

#[test]
fn changed_rules_are_read_at_the_next_step() {
    let mut config = Config::default();
    let mut sim = simulation(10, 10, &config);
    sim.seed(Pattern::Blinker);
    config.rules.alive_rule = Rule { min: 5, max: 2 };
    config.rules.dead_rule = Rule { min: 9, max: 9 };
    assert!(sim.advance_one_tick(&config, 10));
    assert_eq!(population(sim.grid()), 0);
}

#[test]
fn force_step_leaves_the_timer() {
    let config = Config { interval_ms: 100, rules: RuleSet::conway() };
    let mut sim = simulation(10, 10, &config);
    sim.seed(Pattern::Glider);
    let mut expected = sim.grid().clone();
    step(&mut expected, &config.rules);
    assert!(!sim.advance_one_tick(&config, 70));
    sim.force_step(&config);
    assert_eq!(sim.grid(), &expected);
    assert_eq!(sim.elapsed(), 70);
}

#[test]
fn seed_through_the_simulation() {
    let mut sim = simulation(100, 100, &Config::default());
    sim.seed(Pattern::Galaxy);
    let mut expected = Grid::new(100, 100).unwrap();
    seed(Pattern::Galaxy, &mut expected);
    assert_eq!(sim.grid(), &expected);
    sim.seed(Pattern::Blinker);
    assert_eq!(population(sim.grid()), 3);
}

#[test]
fn random_seed_follows_the_generator() {
    let mut g = Grid::new(100, 100).unwrap();
    let mut rng = StdRng::seed_from_u64(7);
    set_pattern_random(&mut g, &mut rng);
    let mut same = StdRng::seed_from_u64(7);
    for x in 0..100 {
        for y in 0..100 {
            assert_eq!(g.get(x, y), Some(same.gen::<bool>()));
        }
    }
    assert_eq!(rng, same);
}

#[test]
fn random_seed_is_repeatable_with_one_seed() {
    let mut a = Grid::new(40, 30).unwrap();
    let mut b = Grid::new(40, 30).unwrap();
    set_pattern_random(&mut a, &mut StdRng::seed_from_u64(2024));
    set_pattern_random(&mut b, &mut StdRng::seed_from_u64(2024));
    assert_eq!(a, b);
    let mut c = Grid::new(40, 30).unwrap();
    set_pattern_random(&mut c, &mut StdRng::seed_from_u64(2025));
    assert_ne!(a, c);
}

#[test]
fn random_seed_fills_about_half() {
    let mut g = Grid::new(100, 100).unwrap();
    set_pattern_random(&mut g, &mut StdRng::seed_from_u64(1));
    let alive = population(&g);
    assert!(4_500 < alive && alive < 5_500);
    assert_eq!(g.width(), 100);
    assert_eq!(g.height(), 100);
}

#[test]
fn random_seed_replaces_what_was_there() {
    let mut g = Grid::new(16, 16).unwrap();
    seed(Pattern::Methuselah52513M, &mut g);
    let mut fresh = Grid::new(16, 16).unwrap();
    set_pattern_random(&mut g, &mut StdRng::seed_from_u64(99));
    set_pattern_random(&mut fresh, &mut StdRng::seed_from_u64(99));
    assert_eq!(g, fresh);
}

#[test]
fn random_seed_through_the_simulation() {
    let mut sim = simulation(50, 20, &Config::default());
    let mut expected = Grid::new(50, 20).unwrap();
    sim.seed_random(&mut StdRng::seed_from_u64(5));
    set_pattern_random(&mut expected, &mut StdRng::seed_from_u64(5));
    assert_eq!(sim.grid(), &expected);
    assert_eq!(sim.elapsed(), 0);
}
