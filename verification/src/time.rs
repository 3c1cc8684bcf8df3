//! Clocks: the countdown abstraction and the monotonic clock of the standard library.
use vstd::prelude::*;
use core::time::Duration;
use std::time::Instant;

verus! {

#[verifier::external_type_specification]
#[verifier::external_body]
pub struct ExInstant(std::time::Instant);

/// `Duration` is `Copy`: its clone is the same duration.
pub assume_specification[ <core::time::Duration as Clone>::clone ](d: &Duration) -> (r: Duration)
    ensures
        r == *d,
;

/// `Instant` is `Copy`: its clone is the same instant.
pub assume_specification[ <std::time::Instant as Clone>::clone ](i: &Instant) -> (r: Instant)
    ensures
        r == *i,
;

/// Generic abstraction for a countdown which expires after some time.
pub trait Countdown: Sized {
    /// Whether the countdown, as it stands, has expired.
    spec fn spec_expired(&self) -> bool;

    /// The countdown after a reset.
    spec fn spec_after_reset(&self) -> Self;

    fn has_expired(&self) -> (r: bool)
        ensures
            r == self.spec_expired(),
    ;

    fn reset(&mut self)
        ensures
            *final(self) == old(self).spec_after_reset(),
    ;

    /// Remaining time of the countdown.
    fn rest(&self) -> Duration;
}

/// Calls `std::time::Instant::now`, the current time of the monotonic clock; nothing is claimed
/// of it.
#[verifier::external_body]
pub(crate) fn instant_now() -> Instant {
    Instant::now()
}

/// Calls `std::time::Instant::elapsed`, the time elapsed since the instant; nothing is claimed
/// of it.
#[verifier::external_body]
pub(crate) fn instant_elapsed(instant: &Instant) -> Duration {
    instant.elapsed()
}

/// Calls the subtraction of two instants, `<Instant as Sub>::sub`, the time from `earlier` to
/// `later`. Claimed of it, as its documentation states (it is `duration_since`, which gives
/// the time elapsed from one instant to another): from an instant to itself no time elapses.
/// Nothing else is claimed.
#[verifier::external_body]
pub(crate) fn instant_sub(later: Instant, earlier: Instant) -> (r: Duration)
    ensures
        later == earlier ==> duration_secs(r) == 0 && duration_nanos(r) == 0,
{
    later - earlier
}

/// The number of whole seconds of a duration, as `core::time::Duration::as_secs` gives it.
pub uninterp spec fn duration_secs(d: Duration) -> u64;

/// The fractional part of a duration in nanoseconds, as `core::time::Duration::subsec_nanos`
/// gives it.
pub uninterp spec fn duration_nanos(d: Duration) -> u32;

/// Calls `core::time::Duration::as_secs`, the number of whole seconds of the duration, named
/// [duration_secs].
#[verifier::external_body]
pub(crate) fn duration_as_secs(d: &Duration) -> (r: u64)
    ensures
        r == duration_secs(*d),
{
    d.as_secs()
}

/// Calls `core::time::Duration::subsec_nanos`, the fractional part of the duration in
/// nanoseconds, named [duration_nanos]; its documentation states it to be below one billion.
#[verifier::external_body]
pub(crate) fn duration_subsec_nanos(d: &Duration) -> (r: u32)
    ensures
        r == duration_nanos(*d),
        r < 1_000_000_000,
{
    d.subsec_nanos()
}

/// Whether a duration of `a_secs` seconds and `a_nanos` nanoseconds is at least as long as one of
/// `b_secs` seconds and `b_nanos` nanoseconds, where both nanosecond parts are below one
/// second.
pub open spec fn parts_at_least(a_secs: u64, a_nanos: u32, b_secs: u64, b_nanos: u32) -> bool {
    a_secs > b_secs || (a_secs == b_secs && a_nanos >= b_nanos)
}

/// Whether a duration given by its whole seconds and its nanoseconds below one second is at
/// least as long as another one given the same way.
pub fn duration_parts_ge(a_secs: u64, a_nanos: u32, b_secs: u64, b_nanos: u32) -> (r: bool)
    ensures
        r == parts_at_least(a_secs, a_nanos, b_secs, b_nanos),
{
    a_secs > b_secs || (a_secs == b_secs && a_nanos >= b_nanos)
}

} // verus!
