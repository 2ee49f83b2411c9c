//! A countdown over a fixed span.

use crate::clock::{elapsed_since, max_reading, span_between};
use crate::duration::Duration;
use std::time::Instant;
use vstd::prelude::*;

verus! {

/// What is left of a countdown over `target` nanoseconds once `elapsed`
/// nanoseconds have passed: the difference, and nothing once the target is
/// reached.
pub open spec fn time_left(target: nat, elapsed: nat) -> nat {
    if target >= elapsed {
        (target - elapsed) as nat
    } else {
        0
    }
}

/// A countdown never shows more than its target; it shows nothing exactly
/// from the moment the target has passed, however much later it is asked;
/// and before any time has passed it shows the whole target, so that a
/// countdown over a span that is not empty is not finished at its start.
pub proof fn lemma_time_left(target: nat, elapsed: nat)
    ensures
        time_left(target, elapsed) <= target,
        time_left(target, elapsed) == 0 <==> elapsed >= target,
        time_left(target, 0) == target,
        elapsed <= target ==> time_left(target, elapsed) + elapsed == target,
{
}

/// What is left of a countdown never grows as time passes.
pub proof fn lemma_time_left_monotone(target: nat, earlier: nat, later: nat)
    requires
        earlier <= later,
    ensures
        time_left(target, later) <= time_left(target, earlier),
{
}

/// A countdown: a clock reading and the span to count down from it.
pub struct CountdownTimer {
    start: Instant,
    duration: Duration,
}

impl CountdownTimer {
    /// The span that the countdown runs over, in nanoseconds.
    pub closed spec fn target(&self) -> nat {
        self.duration@
    }

    /// The clock reading from which the countdown runs.
    pub closed spec fn started(&self) -> Instant {
        self.start
    }

    /// A countdown over `duration` that runs from `reading`.
    pub fn starting_at(duration: Duration, reading: Instant) -> (timer: CountdownTimer)
        ensures
            timer.target() == duration@,
            timer.started() == reading,
    {
        CountdownTimer { start: reading, duration }
    }

    /// Starts a countdown over `duration` at the current clock reading.
    pub fn new(duration: Duration) -> (timer: CountdownTimer)
        ensures
            timer.target() == duration@,
    {
        CountdownTimer::starting_at(duration, Instant::now())
    }

    /// The span that the countdown runs over.
    pub fn duration(&self) -> (d: Duration)
        ensures
            d@ == self.target(),
    {
        self.duration
    }

    /// What is left once `elapsed` has passed since the start.
    pub fn remaining_after(&self, elapsed: Duration) -> (left: Duration)
        ensures
            left@ == time_left(self.target(), elapsed@),
    {
        self.duration.saturating_sub(elapsed)
    }

    /// Whether nothing is left once `elapsed` has passed since the start.
    pub fn is_finished_after(&self, elapsed: Duration) -> (done: bool)
        ensures
            done == (time_left(self.target(), elapsed@) == 0),
            done == (elapsed@ >= self.target()),
    {
        self.remaining_after(elapsed).is_zero()
    }

    /// The time since the countdown was started or last reset: the span from
    /// its start to a new reading of the clock, whatever the target is.
    pub fn elapsed(&self) -> (d: Duration)
        ensures
            d@ <= max_reading(),
            exists|now: Instant| d@ == #[trigger] span_between(now, self.started()),
    {
        let d = elapsed_since(&self.start);
        proof {
            let now = choose|now: Instant| d@ == #[trigger] span_between(now, self.start);
            assert(d@ == span_between(now, self.started()));
        }
        d
    }

    /// What is left now: what `remaining_after` gives for the span from the
    /// start to a new reading of the clock.
    pub fn remaining(&self) -> (left: Duration)
        ensures
            left@ <= self.target(),
            exists|now: Instant|
                span_between(now, self.started()) <= max_reading() && left@ == time_left(
                    self.target(),
                    #[trigger] span_between(now, self.started()),
                ),
    {
        let elapsed = self.elapsed();
        let left = self.remaining_after(elapsed);
        proof {
            let now = choose|now: Instant| elapsed@ == #[trigger] span_between(now, self.started());
            assert(left@ == time_left(self.target(), span_between(now, self.started())));
        }
        left
    }

    /// Whether nothing is left now: what `is_finished_after` gives for the
    /// span from the start to a new reading of the clock. A countdown over
    /// the empty span is finished at once.
    pub fn is_finished(&self) -> (done: bool)
        ensures
            self.target() == 0 ==> done,
            exists|now: Instant|
                span_between(now, self.started()) <= max_reading() && done == (time_left(
                    self.target(),
                    #[trigger] span_between(now, self.started()),
                ) == 0),
    {
        let elapsed = self.elapsed();
        let done = self.is_finished_after(elapsed);
        proof {
            let now = choose|now: Instant| elapsed@ == #[trigger] span_between(now, self.started());
            assert(done == (time_left(self.target(), span_between(now, self.started())) == 0));
        }
        done
    }

    /// Starts the countdown again from `reading`, over the same span.
    pub fn reset_at(&mut self, reading: Instant)
        ensures
            final(self).target() == old(self).target(),
            final(self).started() == reading,
    {
        self.start = reading;
    }

    /// Starts the countdown again from the current clock reading, over the
    /// same span.
    pub fn reset(&mut self)
        ensures
            final(self).target() == old(self).target(),
    {
        self.reset_at(Instant::now());
    }
}

} // verus!
