//! A span of time as a whole number of nanoseconds.

use vstd::prelude::*;

verus! {

/// Nanoseconds in one millisecond.
pub const NANOS_PER_MILLI: u128 = 1_000_000;

/// Nanoseconds in one second.
pub const NANOS_PER_SEC: u128 = 1_000_000_000;

/// A non-negative span of time. Its view is its length in nanoseconds.
#[derive(Clone, Copy, Debug, PartialEq, Eq, Structural)]
pub struct Duration {
    nanos: u128,
}

impl View for Duration {
    type V = nat;

    closed spec fn view(&self) -> nat {
        self.nanos as nat
    }
}

impl Duration {
    /// The empty span.
    pub fn zero() -> (d: Duration)
        ensures
            d@ == 0,
    {
        Duration { nanos: 0 }
    }

    /// The span of `secs` seconds and `nanos` nanoseconds.
    pub fn new(secs: u64, nanos: u32) -> (d: Duration)
        ensures
            d@ == secs * NANOS_PER_SEC + nanos,
    {
        let whole: u128 = secs as u128;
        let part: u128 = nanos as u128;
        Duration { nanos: whole * NANOS_PER_SEC + part }
    }

    /// The span of `nanos` nanoseconds.
    pub fn from_nanos(nanos: u128) -> (d: Duration)
        ensures
            d@ == nanos,
    {
        Duration { nanos }
    }

    /// The span of `millis` milliseconds.
    pub fn from_millis(millis: u64) -> (d: Duration)
        ensures
            d@ == millis * NANOS_PER_MILLI,
    {
        let whole: u128 = millis as u128;
        Duration { nanos: whole * NANOS_PER_MILLI }
    }

    /// The length in nanoseconds.
    pub fn as_nanos(&self) -> (n: u128)
        ensures
            n == self@,
    {
        self.nanos
    }

    /// The length in whole milliseconds, rounded down.
    pub fn as_millis(&self) -> (n: u128)
        ensures
            n == self@ / (NANOS_PER_MILLI as nat),
    {
        self.nanos / NANOS_PER_MILLI
    }

    /// Whether the span is empty.
    pub fn is_zero(&self) -> (b: bool)
        ensures
            b == (self@ == 0),
    {
        self.nanos == 0
    }

    /// A span's length fits in 128 bits.
    pub proof fn lemma_view_bound(self)
        ensures
            self@ <= u128::MAX,
    {
    }

    /// Two spans have the same view exactly when they are equal.
    pub proof fn lemma_view_injective(a: Duration, b: Duration)
        ensures
            a@ == b@ <==> a == b,
    {
    }

    /// The sum of two spans, where it can be represented.
    pub fn checked_add(self, other: Duration) -> (sum: Option<Duration>)
        ensures
            self@ + other@ <= u128::MAX ==> sum.is_some() && sum.unwrap()@ == self@ + other@,
            self@ + other@ > u128::MAX ==> sum.is_none(),
    {
        if other.nanos <= u128::MAX - self.nanos {
            Some(Duration { nanos: self.nanos + other.nanos })
        } else {
            None
        }
    }

    /// The sum of two spans.
    pub fn plus(self, other: Duration) -> (sum: Duration)
        requires
            self@ + other@ <= u128::MAX,
        ensures
            sum@ == self@ + other@,
    {
        Duration { nanos: self.nanos + other.nanos }
    }

    /// `self - other`, or the empty span where `other` is the longer one.
    pub fn saturating_sub(self, other: Duration) -> (diff: Duration)
        ensures
            diff@ == if self@ >= other@ { self@ - other@ } else { 0 },
    {
        if self.nanos >= other.nanos {
            Duration { nanos: self.nanos - other.nanos }
        } else {
            Duration { nanos: 0 }
        }
    }

    /// The span divided into `parts` equal parts, rounded down to a nanosecond.
    pub fn div_count(self, parts: u32) -> (part: Duration)
        requires
            parts > 0,
        ensures
            part@ == self@ / (parts as nat),
    {
        let n: u128 = parts as u128;
        Duration { nanos: self.nanos / n }
    }

    /// The span taken `times` times, where it can be represented.
    pub fn checked_mul(self, times: u32) -> (product: Option<Duration>)
        ensures
            self@ * times <= u128::MAX ==> product.is_some() && product.unwrap()@ == self@ * times,
            self@ * times > u128::MAX ==> product.is_none(),
    {
        let n: u128 = times as u128;
        if n == 0 {
            assert(self@ * times == 0) by (nonlinear_arith)
                requires
                    times == 0,
            ;
            Some(Duration { nanos: 0 })
        } else if self.nanos <= u128::MAX / n {
            assert(self.nanos * n <= u128::MAX) by (nonlinear_arith)
                requires
                    n > 0,
                    self.nanos <= u128::MAX / n,
            ;
            Some(Duration { nanos: self.nanos * n })
        } else {
            assert(self.nanos * n > u128::MAX) by (nonlinear_arith)
                requires
                    n > 0,
                    self.nanos > u128::MAX / n,
            ;
            None
        }
    }

    /// The span taken `times` times.
    pub fn times(self, times: u32) -> (product: Duration)
        requires
            self@ * times <= u128::MAX,
        ensures
            product@ == self@ * times,
    {
        let n: u128 = times as u128;
        Duration { nanos: self.nanos * n }
    }
}

} // verus!
