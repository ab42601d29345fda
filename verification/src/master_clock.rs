//! The simulation clock: the surrounding application measures elapsed wall
//! time and hands it in as microseconds; the clock caps each step so that a
//! slow frame never produces an unstable physics step.

use vstd::prelude::*;

verus! {

/// Largest time step one tick may take, in microseconds.
pub const MAX_DELTA_MICROS: i64 = 100_000;

/// Keeps the capped duration of the last tick.
#[derive(Clone, Copy, PartialEq, Eq, Structural, Debug)]
pub struct MasterClock {
    delta_micros: i64,
    max_delta_micros: i64,
}

impl MasterClock {
    /// The last tick's capped duration, in microseconds.
    pub closed spec fn spec_delta(self) -> i64 {
        self.delta_micros
    }

    /// The cap on one tick's duration.
    pub closed spec fn spec_max_delta(self) -> i64 {
        self.max_delta_micros
    }

    /// The clock is inside its cap.
    pub open spec fn valid(self) -> bool {
        0 <= self.spec_delta() <= self.spec_max_delta() && 0 < self.spec_max_delta()
            <= MAX_DELTA_MICROS
    }

    /// A fresh clock with no elapsed time and the standard cap.
    pub fn new() -> (r: MasterClock)
        ensures
            r.spec_delta() == 0,
            r.spec_max_delta() == MAX_DELTA_MICROS,
            r.valid(),
    {
        MasterClock { delta_micros: 0, max_delta_micros: MAX_DELTA_MICROS }
    }

    /// Records the time elapsed since the last update, capped at the
    /// maximum step.
    pub fn update(&mut self, elapsed_micros: i64)
        requires
            old(self).valid(),
            elapsed_micros >= 0,
        ensures
            final(self).valid(),
            final(self).spec_max_delta() == old(self).spec_max_delta(),
            final(self).spec_delta() == if elapsed_micros < old(self).spec_max_delta() {
                elapsed_micros
            } else {
                old(self).spec_max_delta()
            },
    {
        self.delta_micros = if elapsed_micros < self.max_delta_micros {
            elapsed_micros
        } else {
            self.max_delta_micros
        };
    }

    /// The time elapsed in the last tick, in microseconds.
    pub fn get_delta_time(&self) -> (r: i64)
        ensures
            r == self.spec_delta(),
    {
        self.delta_micros
    }
}

} // verus!
