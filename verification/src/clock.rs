//! The monotonic clock: the one place where time is read.

use crate::duration::Duration;
use std::time::Instant;
use vstd::prelude::*;

verus! {

/// A reading of the monotonic clock. Nothing is known of a reading but the
/// span that has passed since it was taken.
#[verifier::external_type_specification]
#[verifier::external_body]
pub struct ExInstant(Instant);

/// The longest span that the clock can report, in nanoseconds: the largest
/// count of whole seconds that fits in 64 bits, and a second less a nanosecond.
pub open spec fn max_reading() -> nat {
    0xFFFF_FFFF_FFFF_FFFF * 1_000_000_000 + 999_999_999
}

/// The length in nanoseconds of a span of the standard library: what
/// `std::time::Duration::as_nanos` returns for it.
pub uninterp spec fn span_nanos(span: std::time::Duration) -> nat;

/// The nanoseconds from the reading `earlier` to the reading `later`: what
/// `std::time::Instant::saturating_duration_since` measures between the two.
pub uninterp spec fn span_between(later: Instant, earlier: Instant) -> nat;

/// `std::time::Instant::now` reads the clock. Nothing is claimed of the
/// reading.
pub assume_specification[ Instant::now ]() -> (reading: Instant);

/// `std::time::Instant::saturating_duration_since` gives the span from one
/// reading to another, the empty span where the other is the later one. It
/// depends on the two readings alone, so the contract gives the length of its
/// result a name and claims nothing else.
pub assume_specification[ Instant::saturating_duration_since ](
    later: &Instant,
    earlier: Instant,
) -> (span: std::time::Duration)
    ensures
        span_nanos(span) == span_between(*later, earlier),
;

/// `std::time::Duration::as_nanos` gives a span's length in nanoseconds. The
/// contract names that length, and claims of it only the bound that the
/// representation of such a span imposes: whole seconds in 64 bits, and less
/// than a second's worth of nanoseconds beside them.
pub assume_specification[ std::time::Duration::as_nanos ](span: &std::time::Duration) -> (nanos:
    u128)
    ensures
        nanos == span_nanos(*span),
        nanos <= max_reading(),
;

/// The span from `start` to a new reading of the clock.
pub(crate) fn elapsed_since(start: &Instant) -> (d: Duration)
    ensures
        d@ <= max_reading(),
        exists|now: Instant| d@ == #[trigger] span_between(now, *start),
{
    let now = Instant::now();
    let span = now.saturating_duration_since(*start);
    let d = Duration::from_nanos(span.as_nanos());
    assert(d@ == span_between(now, *start));
    d
}

} // verus!
