//! The settings that the embedding application owns.
use crate::rule::RuleSet;
use vstd::prelude::*;

verus! {

/// What an application may change between ticks: the time between two
/// generations and the rule set. The library keeps no copy; each call that
/// needs the settings takes them by reference.
#[derive(Clone, Copy, Debug, PartialEq, Eq, Structural)]
pub struct Config {
    /// Time between two generations, in milliseconds.
    pub interval_ms: u64,
    pub rules: RuleSet,
}

impl Config {
    /// Ten milliseconds between generations, under Conway's rule.
    pub open spec fn default_spec() -> Config {
        Config { interval_ms: 10, rules: RuleSet::conway_spec() }
    }
}

impl Default for Config {
    fn default() -> (config: Config)
        ensures
            config == Config::default_spec(),
    {
        Config { interval_ms: 10, rules: RuleSet::conway() }
    }
}

} // verus!
