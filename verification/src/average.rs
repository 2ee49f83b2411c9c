//! A running average of measured spans.

use crate::duration::Duration;
use vstd::prelude::*;

verus! {

/// How many spans were measured, and how long they were together, in
/// nanoseconds.
pub struct Tally {
    pub count: nat,
    pub total: nat,
}

impl Tally {
    /// The tally of no span at all.
    pub open spec fn empty() -> Tally {
        Tally { count: 0, total: 0 }
    }

    /// The tally after one more span of `sample` nanoseconds.
    pub open spec fn with_sample(self, sample: nat) -> Tally {
        Tally { count: self.count + 1, total: self.total + sample }
    }

    /// The mean span, rounded down to a nanosecond; zero where nothing was
    /// measured.
    pub open spec fn mean(self) -> nat {
        if self.count == 0 {
            0
        } else {
            self.total / self.count
        }
    }

    /// The tally of the spans of `samples`, taken one after the other.
    pub open spec fn of_samples(samples: Seq<nat>) -> Tally
        decreases samples.len(),
    {
        if samples.len() == 0 {
            Tally::empty()
        } else {
            Tally::of_samples(samples.drop_last()).with_sample(samples.last())
        }
    }
}

/// The sum of `samples`.
pub open spec fn sum_of(samples: Seq<nat>) -> nat
    decreases samples.len(),
{
    if samples.len() == 0 {
        0
    } else {
        sum_of(samples.drop_last()) + samples.last()
    }
}

/// After any spans were added to an empty tally, one after the other, the
/// count is their number, the total is their sum, and the mean is the sum
/// divided by the number, rounded down (zero for no span).
pub proof fn lemma_tally_of_samples(samples: Seq<nat>)
    ensures
        Tally::of_samples(samples).count == samples.len(),
        Tally::of_samples(samples).total == sum_of(samples),
        Tally::of_samples(samples).mean() == if samples.len() == 0 {
            0
        } else {
            sum_of(samples) / samples.len()
        },
    decreases samples.len(),
{
    if samples.len() > 0 {
        lemma_tally_of_samples(samples.drop_last());
    }
}

/// A tally only grows: one more span raises the count by one and does not
/// lower the total.
pub proof fn lemma_with_sample_grows(tally: Tally, sample: nat)
    ensures
        tally.with_sample(sample).count == tally.count + 1,
        tally.with_sample(sample).total >= tally.total,
{
}

/// The count and the total of the spans added so far. Its view is its
/// [`Tally`].
pub struct AverageTimer {
    count: u32,
    total: Duration,
}

impl View for AverageTimer {
    type V = Tally;

    closed spec fn view(&self) -> Tally {
        Tally { count: self.count as nat, total: self.total@ }
    }
}

impl AverageTimer {
    /// An accumulator to which nothing was added: its count, its total and
    /// its average are zero.
    pub fn new() -> (timer: AverageTimer)
        ensures
            timer@ == Tally::empty(),
            timer@.total == 0,
            timer@.mean() == 0,
    {
        AverageTimer { count: 0, total: Duration::zero() }
    }

    /// Adds one measured span. The count and the total must stay within what
    /// `u32` and a `Duration` hold.
    pub fn add(&mut self, duration: Duration)
        requires
            old(self)@.count < u32::MAX,
            old(self)@.total + duration@ <= u128::MAX,
        ensures
            final(self)@ == old(self)@.with_sample(duration@),
    {
        self.count = self.count + 1;
        self.total = self.total.plus(duration);
    }

    /// How many spans were added.
    pub fn count(&self) -> (n: u32)
        ensures
            n == self@.count,
    {
        self.count
    }

    /// The mean of the spans added, rounded down to a nanosecond; the empty
    /// span where none was added.
    pub fn average(&self) -> (d: Duration)
        ensures
            d@ == self@.mean(),
    {
        if self.count == 0 {
            Duration::zero()
        } else {
            self.total.div_count(self.count)
        }
    }

    /// The sum of the spans added.
    pub fn total(&self) -> (d: Duration)
        ensures
            d@ == self@.total,
    {
        self.total
    }

    /// The time that `remaining` more spans will take if each takes the
    /// average: exactly the average times `remaining`, and so the empty span
    /// where nothing was added yet.
    pub fn interpolate(&self, remaining: u32) -> (d: Duration)
        requires
            self@.mean() * remaining <= u128::MAX,
        ensures
            d@ == self@.mean() * remaining,
            self@.count == 0 ==> d@ == 0,
    {
        if self.count == 0 {
            Duration::zero()
        } else {
            self.total.div_count(self.count).times(remaining)
        }
    }
}

} // verus!
