//! The interval timer that paces the generations.
use vstd::prelude::*;

verus! {

/// Accumulates elapsed time against an interval. Both are counted in
/// milliseconds.
///
/// The timer is idle while `elapsed` is below `interval`. A tick that brings
/// it to the interval or past it fires once and starts a fresh interval from
/// zero: what the tick overshot is dropped, and one tick never fires twice.
/// `interval` may be changed between ticks; the next tick compares against
/// the new value.
#[derive(Clone, Copy, Debug, PartialEq, Eq, Structural)]
pub struct Scheduler {
    pub interval: u64,
    pub elapsed: u64,
}

impl Scheduler {
    /// Whether a tick of `delta` fires.
    pub open spec fn fires(self, delta: u64) -> bool {
        self.elapsed + delta >= self.interval
    }

    /// The timer after a tick of `delta`.
    pub open spec fn after_tick(self, delta: u64) -> Scheduler {
        if self.fires(delta) {
            Scheduler { interval: self.interval, elapsed: 0 }
        } else {
            Scheduler { interval: self.interval, elapsed: (self.elapsed + delta) as u64 }
        }
    }

    /// The timer after the ticks `deltas`, first to last.
    pub open spec fn after_ticks(self, deltas: Seq<u64>) -> Scheduler
        decreases deltas.len(),
    {
        if deltas.len() == 0 {
            self
        } else {
            self.after_ticks(deltas.drop_last()).after_tick(deltas.last())
        }
    }

    /// How many of the ticks `deltas` fire.
    pub open spec fn fire_count(self, deltas: Seq<u64>) -> nat
        decreases deltas.len(),
    {
        if deltas.len() == 0 {
            0
        } else {
            let earlier = self.fire_count(deltas.drop_last());
            if self.after_ticks(deltas.drop_last()).fires(deltas.last()) {
                earlier + 1
            } else {
                earlier
            }
        }
    }

    /// An idle timer with nothing elapsed.
    pub fn new(interval: u64) -> (scheduler: Scheduler)
        ensures
            scheduler == (Scheduler { interval, elapsed: 0 }),
    {
        Scheduler { interval, elapsed: 0 }
    }

    /// Adds `delta` to the elapsed time and answers whether the timer fires.
    /// On firing the elapsed time goes back to zero.
    pub fn tick(&mut self, delta: u64) -> (fired: bool)
        ensures
            fired == old(self).fires(delta),
            *final(self) == old(self).after_tick(delta),
    {
        let total = self.elapsed.saturating_add(delta);
        if total >= self.interval {
            self.elapsed = 0;
            true
        } else {
            self.elapsed = total;
            false
        }
    }
}

} // verus!
