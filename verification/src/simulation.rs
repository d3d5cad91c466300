//! The surface that an embedding application drives.
use crate::config::Config;
use crate::grid::{Board, Grid};
use crate::pattern::{seed, seeded, Pattern};
use crate::random::{drawn, set_pattern_random};
use crate::scheduler::Scheduler;
use crate::step::{next_generation, step};
use rand::rngs::StdRng;
use vstd::prelude::*;

verus! {

/// A grid together with the timer that paces it.
///
/// The settings stay with the application, which hands them to each call
/// that reads them. Between two calls the application may change them and
/// may seed the grid; during a call the simulation has the grid to itself.
#[derive(Debug)]
pub struct Simulation {
    grid: Grid,
    scheduler: Scheduler,
}

impl Simulation {
    /// The present generation.
    pub closed spec fn board(&self) -> Board {
        self.grid@
    }

    /// The timer.
    pub closed spec fn timer(&self) -> Scheduler {
        self.scheduler
    }

    /// A simulation on a grid of the given extent with every cell dead and
    /// nothing elapsed, or `None` where the extent is not valid.
    pub fn new(width: usize, height: usize, config: &Config) -> (simulation: Option<Simulation>)
        ensures
            simulation is Some <==> Grid::valid_extent(width as int, height as int),
            simulation matches Some(s) ==> s.board() == Board::empty(width as int, height as int)
                && s.timer() == (Scheduler { interval: config.interval_ms, elapsed: 0 }),
    {
        match Grid::new(width, height) {
            Some(grid) => Some(Simulation { grid, scheduler: Scheduler::new(config.interval_ms) }),
            None => None,
        }
    }

    /// The grid, for reading.
    pub fn grid(&self) -> (grid: &Grid)
        ensures
            grid@ == self.board(),
    {
        &self.grid
    }

    /// The time elapsed since the last generation, in milliseconds.
    pub fn elapsed(&self) -> (elapsed: u64)
        ensures
            elapsed == self.timer().elapsed,
    {
        self.scheduler.elapsed
    }

    /// Feeds `delta_ms` milliseconds to the timer, which compares against
    /// the interval that `config` holds now. If the timer fires, the grid
    /// advances by exactly one generation under the rules of `config`,
    /// however far the interval was overshot; otherwise the grid is left
    /// alone. Answers whether a generation was made.
    pub fn advance_one_tick(&mut self, config: &Config, delta_ms: u64) -> (fired: bool)
        ensures
            fired == (old(self).timer().elapsed + delta_ms >= config.interval_ms),
            final(self).timer().interval == config.interval_ms,
            final(self).timer().elapsed == if fired {
                0
            } else {
                old(self).timer().elapsed + delta_ms
            },
            final(self).board() == if fired {
                next_generation(old(self).board(), config.rules)
            } else {
                old(self).board()
            },
    {
        self.scheduler.interval = config.interval_ms;
        let fired = self.scheduler.tick(delta_ms);
        if fired {
            step(&mut self.grid, &config.rules);
        }
        fired
    }

    /// Advances the grid by one generation at once. The timer is not
    /// touched.
    pub fn force_step(&mut self, config: &Config)
        ensures
            final(self).board() == next_generation(old(self).board(), config.rules),
            final(self).timer() == old(self).timer(),
    {
        step(&mut self.grid, &config.rules);
    }

    /// The state of the cell at `(x, y)`, or `None` off the grid.
    pub fn query(&self, x: isize, y: isize) -> (state: Option<bool>)
        ensures
            state == self.board().get(x as int, y as int),
    {
        self.grid.get(x, y)
    }

    /// Replaces the content of the grid by `pattern`.
    pub fn seed(&mut self, pattern: Pattern)
        ensures
            final(self).board() == seeded(old(self).board(), pattern),
            final(self).timer() == old(self).timer(),
    {
        seed(pattern, &mut self.grid);
    }

    /// Replaces the content of the grid by a random one: one draw from `rng`
    /// for each cell. The timer is not touched.
    pub fn seed_random(&mut self, rng: &mut StdRng)
        ensures
            final(self).board().wf(),
            final(self).board().width == old(self).board().width,
            final(self).board().height == old(self).board().height,
            exists|draws: Seq<bool>|
                draws.len() == old(self).board().width * old(self).board().height
                    && final(self).board() == #[trigger] drawn(old(self).board(), draws),
            final(self).timer() == old(self).timer(),
    {
        set_pattern_random(&mut self.grid, rng);
    }
}

} // verus!
