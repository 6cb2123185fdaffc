//! Interval timers and population counters. Times are monotonic clock
//! readings in milliseconds, supplied by the caller each frame.

use vstd::prelude::*;

verus! {

/// Remembers when a subsystem last ran, so it can be gated to a fixed
/// interval. One instance exists per gated subsystem.
#[derive(Clone, Copy, PartialEq, Eq, Structural, Debug)]
pub struct IntervalSetting {
    pub last_update: u64,
}

impl IntervalSetting {
    pub fn new(now: u64) -> (r: IntervalSetting)
        ensures
            r.last_update == now,
    {
        IntervalSetting { last_update: now }
    }

    /// Whether at least `diff` milliseconds passed since the last update.
    pub fn check(&self, time: u64, diff: u64) -> (r: bool)
        requires
            time >= self.last_update,
        ensures
            r == (time - self.last_update >= diff),
    {
        time - self.last_update >= diff
    }

    pub fn update(&mut self, time: u64)
        ensures
            final(self).last_update == time,
    {
        self.last_update = time;
    }

    pub fn reset(&mut self, time: u64)
        ensures
            final(self).last_update == time,
    {
        self.last_update = time;
    }
}

/// A saturating counter with one semantic purpose (live enemies, flash
/// frames).
#[derive(Clone, Copy, PartialEq, Eq, Structural, Debug)]
pub struct CounterSetting {
    pub count: usize,
}

impl Default for CounterSetting {
    fn default() -> (r: CounterSetting)
        ensures
            r.count == 0,
    {
        CounterSetting { count: 0 }
    }
}

impl CounterSetting {
    pub fn less_than(&self, max: usize) -> (r: bool)
        ensures
            r == (self.count < max),
    {
        self.count < max
    }

    /// Counts up by one, saturating at the machine maximum.
    pub fn increment(&mut self)
        ensures
            final(self).count == if old(self).count < usize::MAX {
                old(self).count + 1
            } else {
                old(self).count as int
            },
    {
        if self.count < usize::MAX {
            self.count = self.count + 1;
        }
    }

    /// Counts down by one, stopping at zero.
    pub fn decrement(&mut self)
        ensures
            final(self).count == if old(self).count > 0 {
                old(self).count - 1
            } else {
                0
            },
    {
        if self.count > 0 {
            self.count = self.count - 1;
        }
    }

    pub fn reset(&mut self)
        ensures
            final(self).count == 0,
    {
        self.count = 0;
    }

    pub fn is_even(&self) -> (r: bool)
        ensures
            r == (self.count % 2 == 0),
    {
        self.count % 2 == 0
    }
}

} // verus!
