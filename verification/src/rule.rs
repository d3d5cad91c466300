//! Birth and survival thresholds.
use vstd::prelude::*;

verus! {

/// An inclusive range of neighbour counts.
///
/// Nothing forces `min <= max`. A rule with `min > max` is accepted and holds
/// for no count at all, which switches its branch of the rule set off.
#[derive(Clone, Copy, Debug, PartialEq, Eq, Structural)]
pub struct Rule {
    pub min: u8,
    pub max: u8,
}

impl Rule {
    /// Whether `count` lies in the range, both ends included.
    pub open spec fn holds(self, count: int) -> bool {
        self.min <= count <= self.max
    }

    /// Whether a cell with `count` live neighbours is alive in the next
    /// generation under this rule.
    pub fn evaluate(&self, count: u8) -> (alive: bool)
        ensures
            alive == self.holds(count as int),
    {
        count >= self.min && count <= self.max
    }
}

/// The two thresholds of an automaton: one for cells that are alive now, one
/// for cells that are dead now.
#[derive(Clone, Copy, Debug, PartialEq, Eq, Structural)]
pub struct RuleSet {
    /// Survival: applied to a live cell.
    pub alive_rule: Rule,
    /// Birth: applied to a dead cell.
    pub dead_rule: Rule,
}

impl RuleSet {
    /// Conway's rule: survival on two or three neighbours, birth on three.
    pub open spec fn conway_spec() -> RuleSet {
        RuleSet { alive_rule: Rule { min: 2, max: 3 }, dead_rule: Rule { min: 3, max: 3 } }
    }

    /// The next state of a cell from its present state and the number of its
    /// live neighbours.
    pub open spec fn next_state_spec(self, current_alive: bool, neighbor_count: int) -> bool {
        if current_alive {
            self.alive_rule.holds(neighbor_count)
        } else {
            self.dead_rule.holds(neighbor_count)
        }
    }

    /// Conway's rule.
    pub fn conway() -> (rules: RuleSet)
        ensures
            rules == Self::conway_spec(),
    {
        RuleSet { alive_rule: Rule { min: 2, max: 3 }, dead_rule: Rule { min: 3, max: 3 } }
    }

    /// Applies the survival rule to a live cell and the birth rule to a dead
    /// one.
    pub fn next_state(&self, current_alive: bool, neighbor_count: u8) -> (alive: bool)
        ensures
            alive == self.next_state_spec(current_alive, neighbor_count as int),
    {
        if current_alive {
            self.alive_rule.evaluate(neighbor_count)
        } else {
            self.dead_rule.evaluate(neighbor_count)
        }
    }
}

impl Default for RuleSet {
    fn default() -> (rules: RuleSet)
        ensures
            rules == RuleSet::conway_spec(),
    {
        RuleSet::conway()
    }
}

} // verus!
