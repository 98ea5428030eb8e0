//! Spans of time.

use vstd::prelude::*;

use core::time::Duration;

verus! {

/// The length of a span in nanoseconds.
pub uninterp spec fn nanoseconds(span: Duration) -> nat;

/// `Duration::from_millis` makes a span of that many milliseconds.
pub assume_specification[ Duration::from_millis ](millis: u64) -> (span: Duration)
    ensures
        nanoseconds(span) == millis * 1_000_000,
;

/// `Duration::as_millis` counts the whole milliseconds of a span.
pub assume_specification[ Duration::as_millis ](span: &Duration) -> (millis: u128)
    ensures
        millis == nanoseconds(*span) / 1_000_000,
;

/// `Duration::subsec_nanos` gives the nanoseconds beyond the whole seconds of a span.
pub assume_specification[ Duration::subsec_nanos ](span: &Duration) -> (nanos: u32)
    ensures
        nanos == nanoseconds(*span) % 1_000_000_000,
;

/// The milliseconds of a span, rounded up, and held at the largest value.
pub open spec fn millis_rounded_up(nanos: nat) -> int {
    let whole: int = nanos as int / 1_000_000;
    let up = if nanos % 1_000_000 == 0 {
        whole
    } else {
        whole + 1
    };
    if up > u64::MAX {
        u64::MAX as int
    } else {
        up
    }
}

/// The milliseconds of a span, rounded up.
pub fn duration_millis_ceil(duration: Duration) -> (millis: u64)
    ensures
        millis == millis_rounded_up(nanoseconds(duration)),
{
    let full: u128 = duration.as_millis();
    let whole: u64 = if full > 0xffff_ffff_ffff_ffff {
        u64::MAX
    } else {
        full as u64
    };
    let rest: u32 = duration.subsec_nanos();
    proof {
        let n = nanoseconds(duration);
        assert(n % 1_000_000_000 % 1_000_000 == n % 1_000_000) by (nonlinear_arith);
    }
    if rest % 1_000_000 == 0 {
        whole
    } else {
        whole.saturating_add(1)
    }
}

/// Milliseconds are rounded up: they are the fewest that last as long as the span, as far as they
/// can be told.
pub proof fn milliseconds_are_rounded_up(nanos: nat)
    ensures
        millis_rounded_up(nanos) <= u64::MAX,
        millis_rounded_up(nanos) < u64::MAX ==> nanos <= millis_rounded_up(nanos) * 1_000_000,
        (millis_rounded_up(nanos) - 1) * 1_000_000 < nanos,
{
}

} // verus!
