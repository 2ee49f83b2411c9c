//! A stopwatch.

use crate::clock::{elapsed_since, max_reading, span_between};
use crate::duration::Duration;
use std::time::Instant;
use vstd::prelude::*;

verus! {

/// A stopwatch: started when it is made, and never restarted.
pub struct Timer {
    start: Instant,
}

impl Timer {
    /// The clock reading from which the stopwatch runs.
    pub closed spec fn started(&self) -> Instant {
        self.start
    }

    /// A stopwatch that runs from `reading`.
    pub fn starting_at(reading: Instant) -> (timer: Timer)
        ensures
            timer.started() == reading,
    {
        Timer { start: reading }
    }

    /// Whether the stopwatch runs from `reading`.
    pub open spec fn runs_from(&self, reading: Instant) -> bool {
        self.started() == reading
    }

    /// Starts a stopwatch at the current clock reading: it runs from a
    /// reading, whichever the clock gave.
    pub fn new() -> (timer: Timer)
        ensures
            exists|reading: Instant| #[trigger] timer.runs_from(reading),
    {
        let reading = Instant::now();
        let timer = Timer::starting_at(reading);
        assert(timer.runs_from(reading));
        timer
    }

    /// The time since the stopwatch was made: the span from its start to a
    /// new reading of the clock. The stopwatch is unchanged.
    pub fn elapsed(&self) -> (d: Duration)
        ensures
            d@ <= max_reading(),
            exists|now: Instant| d@ == #[trigger] span_between(now, self.started()),
    {
        let d = elapsed_since(&self.start);
        proof {
            let now = choose|now: Instant| d@ == #[trigger] span_between(now, self.start);
            assert(d@ == span_between(now, self.started()));
        }
        d
    }
}

} // verus!
