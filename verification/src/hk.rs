//! #  HK generation helpers
//!
//! Each helper contains the minimal state to support the periodic generation of housekeeping
//! packets. Call `needs_generation` periodically, for example once per task cycle. When it
//! returns `true`, generate the HK set and send it, the helper has already reset its clock for
//! the next period.
use vstd::prelude::*;
use core::time::Duration;
use std::time::Instant;
use crate::time::{
    duration_as_secs, duration_nanos, duration_parts_ge, duration_secs, duration_subsec_nanos,
    instant_now, instant_sub, parts_at_least, Countdown,
};

verus! {

/// Generic single-set HK helper for any clock, backed by a [Countdown] implementation.
pub struct SingleSetHkHelperCountdown<C: Countdown> {
    countdown: C,
    enabled: bool,
}

impl<C: Countdown> SingleSetHkHelperCountdown<C> {
    pub closed spec fn spec_countdown(self) -> C {
        self.countdown
    }

    pub closed spec fn spec_enabled(self) -> bool {
        self.enabled
    }

    /// Create a new, enabled helper wrapping the given countdown.
    pub fn new(countdown: C) -> (r: Self)
        ensures
            r.spec_countdown() == countdown,
            r.spec_enabled(),
    {
        Self { countdown, enabled: true }
    }

    /// Reference to the wrapped countdown.
    pub fn countdown(&self) -> (r: &C)
        ensures
            *r == self.spec_countdown(),
    {
        &self.countdown
    }

    /// Mutable reference to the wrapped countdown.
    pub fn countdown_mut(&mut self) -> (r: &mut C)
        ensures
            *r == old(self).spec_countdown(),
            final(self).spec_countdown() == *final(r),
            final(self).spec_enabled() == old(self).spec_enabled(),
    {
        &mut self.countdown
    }

    /// Whether the helper is enabled.
    pub fn enabled(&self) -> (r: bool)
        ensures
            r == self.spec_enabled(),
    {
        self.enabled
    }

    /// Enable or disable the helper.
    pub fn set_enabled(&mut self, enabled: bool)
        ensures
            final(self).spec_enabled() == enabled,
            final(self).spec_countdown() == old(self).spec_countdown(),
    {
        self.enabled = enabled;
    }

    /// Returns true if the HK set needs regeneration: the helper is enabled and its countdown
    /// has expired. The countdown is then reset; otherwise nothing changes.
    pub fn needs_generation(&mut self) -> (r: bool)
        ensures
            r == (old(self).spec_enabled() && old(self).spec_countdown().spec_expired()),
            r ==> final(self).spec_countdown() == old(self).spec_countdown().spec_after_reset(),
            !r ==> *final(self) == *old(self),
            final(self).spec_enabled() == old(self).spec_enabled(),
    {
        if !self.enabled {
            return false;
        }
        if self.countdown.has_expired() {
            self.countdown.reset();
            return true;
        }
        false
    }
}

/// Single-set HK helper backed by [std::time::Instant].
pub struct SingleSetHkHelperStd {
    interval: Duration,
    last_generated: Instant,
    enabled: bool,
}

impl SingleSetHkHelperStd {
    pub closed spec fn spec_interval(self) -> Duration {
        self.interval
    }

    pub closed spec fn spec_last_generated(self) -> Instant {
        self.last_generated
    }

    pub closed spec fn spec_enabled(self) -> bool {
        self.enabled
    }

    /// Create a new, enabled helper with the given interval, starting the clock now.
    pub fn new(initial_interval: Duration) -> (r: Self)
        ensures
            r.spec_interval() == initial_interval,
            r.spec_enabled(),
    {
        Self::new_at(initial_interval, instant_now())
    }

    /// Create a new, enabled helper with the given interval, whose clock starts at `now`.
    pub fn new_at(initial_interval: Duration, now: Instant) -> (r: Self)
        ensures
            r.spec_interval() == initial_interval,
            r.spec_last_generated() == now,
            r.spec_enabled(),
    {
        Self { interval: initial_interval, last_generated: now, enabled: true }
    }

    /// Update the generation interval.
    pub fn update_interval(&mut self, interval: Duration)
        ensures
            final(self).spec_interval() == interval,
            final(self).spec_enabled() == old(self).spec_enabled(),
            final(self).spec_last_generated() == old(self).spec_last_generated(),
    {
        self.interval = interval;
    }

    /// The instant of the last generation.
    pub fn last_generated(&self) -> (r: Instant)
        ensures
            r == self.spec_last_generated(),
    {
        self.last_generated
    }

    /// Current generation interval.
    pub fn interval(&self) -> (r: Duration)
        ensures
            r == self.spec_interval(),
    {
        self.interval
    }

    /// Whether the helper is enabled.
    pub fn enabled(&self) -> (r: bool)
        ensures
            r == self.spec_enabled(),
    {
        self.enabled
    }

    /// Enable or disable the helper.
    pub fn set_enabled(&mut self, enabled: bool)
        ensures
            final(self).spec_enabled() == enabled,
            final(self).spec_interval() == old(self).spec_interval(),
            final(self).spec_last_generated() == old(self).spec_last_generated(),
    {
        self.enabled = enabled;
    }

    /// Whether the HK set needs regeneration, with `since` gone by since the last generation and
    /// `now` the current instant: it does when the helper is enabled and `since` is longer than
    /// the interval, and the last generation is then `now`. Otherwise nothing changes.
    pub fn needs_generation_at(&mut self, since: Duration, now: Instant) -> (r: bool)
        ensures
            r == (old(self).spec_enabled() && !parts_at_least(
                duration_secs(old(self).spec_interval()),
                duration_nanos(old(self).spec_interval()),
                duration_secs(since),
                duration_nanos(since),
            )),
            r ==> final(self).spec_last_generated() == now,
            r ==> final(self).spec_enabled() == old(self).spec_enabled(),
            r ==> final(self).spec_interval() == old(self).spec_interval(),
            !r ==> *final(self) == *old(self),
    {
        if !self.enabled {
            return false;
        }
        let interval_not_longer = duration_parts_ge(
            duration_as_secs(&self.interval),
            duration_subsec_nanos(&self.interval),
            duration_as_secs(&since),
            duration_subsec_nanos(&since),
        );
        if !interval_not_longer {
            self.last_generated = now;
            return true;
        }
        false
    }

    /// Returns true if the HK set needs regeneration, in which case the last generation becomes
    /// the current instant.
    ///
    /// Always returns false while disabled, leaving the clock untouched. The current instant and
    /// the time since the last generation are read from the clock, and
    /// [Self::needs_generation_at] decides.
    pub fn needs_generation(&mut self) -> (r: bool)
        ensures
            !old(self).spec_enabled() ==> !r && *final(self) == *old(self),
            !r ==> *final(self) == *old(self),
            final(self).spec_enabled() == old(self).spec_enabled(),
            final(self).spec_interval() == old(self).spec_interval(),
            exists|since_secs: u64, since_nanos: u32| r == (old(self).spec_enabled() && !#[trigger] parts_at_least(
                duration_secs(old(self).spec_interval()),
                duration_nanos(old(self).spec_interval()),
                since_secs,
                since_nanos,
            )),
    {
        if !self.enabled {
            let r = false;
            let ghost p = parts_at_least(
                duration_secs(old(self).spec_interval()),
                duration_nanos(old(self).spec_interval()),
                0,
                0,
            );
            assert(r == (old(self).spec_enabled() && !p));
            return r;
        }
        let now = instant_now();
        let since = instant_sub(now, self.last_generated);
        let r = self.needs_generation_at(since, now);
        assert(r == (old(self).spec_enabled() && !parts_at_least(
            duration_secs(old(self).spec_interval()),
            duration_nanos(old(self).spec_interval()),
            duration_secs(since),
            duration_nanos(since),
        )));
        r
    }
}

} // verus!
