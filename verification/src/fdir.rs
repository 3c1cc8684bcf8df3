//! # FDIR (Fault Detection, Isolation and Recovery) helpers
//!
//! A fault counter tracks a monotonic fault count, decrements it over time when faults stop
//! occurring, and reports when a configured failure threshold has been exceeded. This is the
//! typical building block used to turn a stream of transient error reports into a single
//! "component is faulty" decision without reacting to the first isolated error.
use vstd::prelude::*;
use core::time::Duration;
use std::time::Instant;
use crate::time::{
    duration_as_secs, duration_nanos, duration_parts_ge, duration_secs, duration_subsec_nanos,
    instant_now, instant_sub, parts_at_least,
};

verus! {

/// Fault counter backed by [std::time::Instant].
#[derive(Debug, Clone)]
pub struct FaultCounterStd {
    fault_count: u32,
    failure_threshold: u32,
    decrement_after: Duration,
    last_decrement: Option<Instant>,
}

impl FaultCounterStd {
    pub closed spec fn spec_fault_count(self) -> u32 {
        self.fault_count
    }

    pub closed spec fn spec_failure_threshold(self) -> u32 {
        self.failure_threshold
    }

    pub closed spec fn spec_decrement_after(self) -> Duration {
        self.decrement_after
    }

    /// The instant at which the decrement clock was last started, where it runs.
    pub closed spec fn spec_last_decrement(self) -> Option<Instant> {
        self.last_decrement
    }

    /// Whether the decrement clock runs.
    pub open spec fn spec_clock_started(self) -> bool {
        self.spec_last_decrement() is Some
    }

    /// Whether, with `elapsed_secs` seconds and `elapsed_nanos` nanoseconds gone by since the decrement clock was started, a decrement is
    /// due: the count is above zero, the clock runs and at least the decrement interval passed.
    pub open spec fn decrement_due(self, elapsed_secs: u64, elapsed_nanos: u32) -> bool {
        &&& self.spec_fault_count() > 0
        &&& self.spec_clock_started()
        &&& parts_at_least(
            elapsed_secs,
            elapsed_nanos,
            duration_secs(self.spec_decrement_after()),
            duration_nanos(self.spec_decrement_after()),
        )
    }

    /// The counter after one increment at `now`: the count grows by one, and a count of `0`
    /// starts the decrement clock at `now`.
    pub closed spec fn after_increment_at(self, now: Instant) -> Self {
        FaultCounterStd {
            fault_count: (self.fault_count + 1) as u32,
            failure_threshold: self.failure_threshold,
            decrement_after: self.decrement_after,
            last_decrement: if self.fault_count == 0 { Some(now) } else { self.last_decrement },
        }
    }

    /// The counter after `n` increments at `now`.
    pub closed spec fn after_increments_at(self, n: nat, now: Instant) -> Self
        decreases n,
    {
        if n == 0 {
            self
        } else {
            self.after_increments_at((n - 1) as nat, now).after_increment_at(now)
        }
    }

    /// The counter after one increment at each of the instants, in order.
    pub closed spec fn after_increments_at_each(self, nows: Seq<Instant>) -> Self
        decreases nows.len(),
    {
        if nows.len() == 0 {
            self
        } else {
            self.after_increments_at_each(nows.drop_last()).after_increment_at(nows.last())
        }
    }

    /// Create a new [`FaultCounterStd`].
    ///
    /// - `failure_threshold`: threshold above which [`Self::above_threshold`] returns `true` and
    ///   resets the internal count.
    /// - `decrement_after`: minimum duration between automatic decrements performed by
    ///   [`Self::try_decrement`].
    pub fn new(failure_threshold: u32, decrement_after: Duration) -> (r: Self)
        ensures
            r.spec_fault_count() == 0,
            r.spec_failure_threshold() == failure_threshold,
            r.spec_decrement_after() == decrement_after,
            !r.spec_clock_started(),
    {
        Self { fault_count: 0, failure_threshold, decrement_after, last_decrement: None }
    }

    /// Current fault count.
    /// The instant of the last decrement, or of the increment that started the clock.
    pub fn last_decrement(&self) -> (r: Option<Instant>)
        ensures
            r == self.spec_last_decrement(),
    {
        self.last_decrement
    }

    pub fn fault_count(&self) -> (r: u32)
        ensures
            r == self.spec_fault_count(),
    {
        self.fault_count
    }

    /// Increase the fault count by `1`.
    ///
    /// If the counter was previously `0`, this starts a new decrement clock.
    pub fn increment(&mut self)
        requires
            old(self).spec_fault_count() < u32::MAX,
        ensures
            final(self).spec_fault_count() == old(self).spec_fault_count() + 1,
            final(self).spec_failure_threshold() == old(self).spec_failure_threshold(),
            final(self).spec_decrement_after() == old(self).spec_decrement_after(),
            final(self).spec_clock_started() == (old(self).spec_clock_started() || old(self).spec_fault_count() == 0),
            old(self).spec_fault_count() > 0 ==> final(self).spec_last_decrement() == old(self).spec_last_decrement(),
            exists|now: Instant| *final(self) == old(self).after_increment_at(now),
    {
        if self.fault_count == 0 {
            self.increment_at(instant_now());
        } else {
            let ghost before = *self;
            self.fault_count += 1;
            proof {
                let now: Instant = vstd::pervasive::arbitrary();
                assert(*self == before.after_increment_at(now));
            }
        }
    }

    /// Increase the fault count by `1`, with `now` the current instant: if the counter was `0`,
    /// a new decrement clock starts at `now`; otherwise the clock keeps its start.
    pub fn increment_at(&mut self, now: Instant)
        requires
            old(self).spec_fault_count() < u32::MAX,
        ensures
            final(self).spec_fault_count() == old(self).spec_fault_count() + 1,
            final(self).spec_failure_threshold() == old(self).spec_failure_threshold(),
            final(self).spec_decrement_after() == old(self).spec_decrement_after(),
            old(self).spec_fault_count() == 0 ==> final(self).spec_last_decrement() == Some(now),
            old(self).spec_fault_count() > 0 ==> final(self).spec_last_decrement() == old(self).spec_last_decrement(),
            *final(self) == old(self).after_increment_at(now),
    {
        if self.fault_count == 0 {
            self.last_decrement = Some(now);
        }
        self.fault_count += 1;
    }

    /// Increase the fault count by `n`, with `now` the current instant: if the counter was `0`
    /// and `n` is not, a new decrement clock starts at `now`; otherwise the clock keeps its start.
    pub fn increment_n_at(&mut self, n: u32, now: Instant)
        requires
            old(self).spec_fault_count() + n <= u32::MAX,
        ensures
            final(self).spec_fault_count() == old(self).spec_fault_count() + n,
            final(self).spec_failure_threshold() == old(self).spec_failure_threshold(),
            final(self).spec_decrement_after() == old(self).spec_decrement_after(),
            n > 0 && old(self).spec_fault_count() == 0 ==> final(self).spec_last_decrement() == Some(now),
            old(self).spec_fault_count() > 0 ==> final(self).spec_last_decrement() == old(self).spec_last_decrement(),
            n == 0 ==> *final(self) == *old(self),
            *final(self) == old(self).after_increments_at(n as nat, now),
    {
        let mut k: u32 = 0;
        while k < n
            invariant
                k <= n,
                old(self).spec_fault_count() + n <= u32::MAX,
                *self == old(self).after_increments_at(k as nat, now),
            decreases n - k,
        {
            proof {
                law_increments_at_closed_form(*old(self), k as nat, now);
            }
            self.increment_at(now);
            k += 1;
        }
        proof {
            law_increments_at_closed_form(*old(self), n as nat, now);
        }
    }

    /// Increase the fault count by `n`: the same as `n` increments, the clock being read once.
    pub fn increment_n(&mut self, n: u32)
        requires
            old(self).spec_fault_count() + n <= u32::MAX,
        ensures
            final(self).spec_fault_count() == old(self).spec_fault_count() + n,
            final(self).spec_failure_threshold() == old(self).spec_failure_threshold(),
            final(self).spec_decrement_after() == old(self).spec_decrement_after(),
            final(self).spec_clock_started() == (old(self).spec_clock_started() || (n > 0 && old(self).spec_fault_count() == 0)),
            n == 0 ==> *final(self) == *old(self),
            old(self).spec_fault_count() > 0 ==> final(self).spec_last_decrement() == old(self).spec_last_decrement(),
            exists|now: Instant| *final(self) == old(self).after_increments_at(n as nat, now),
    {
        if n > 0 {
            self.increment_n_at(n, instant_now());
        } else {
            proof {
                let now: Instant = vstd::pervasive::arbitrary();
                assert(*self == old(self).after_increments_at(0, now));
            }
        }
    }

    /// Decrease the fault count by `1` where a decrement is due, with `elapsed` gone by since the
    /// decrement clock was started; the clock then starts again at `now`.
    ///
    /// A decrement is due when the counter is non-zero, the clock runs and at least
    /// `decrement_after` has elapsed. Returns whether a decrement was performed.
    pub fn try_decrement_at(&mut self, elapsed: Duration, now: Instant) -> (r: bool)
        ensures
            r == old(self).decrement_due(duration_secs(elapsed), duration_nanos(elapsed)),
            r ==> final(self).spec_fault_count() == old(self).spec_fault_count() - 1,
            r ==> final(self).spec_last_decrement() == Some(now),
            r ==> final(self).spec_failure_threshold() == old(self).spec_failure_threshold(),
            r ==> final(self).spec_decrement_after() == old(self).spec_decrement_after(),
            !r ==> *final(self) == *old(self),
    {
        if self.fault_count == 0 || self.last_decrement.is_none() {
            return false;
        }
        let due = duration_parts_ge(
            duration_as_secs(&elapsed),
            duration_subsec_nanos(&elapsed),
            duration_as_secs(&self.decrement_after),
            duration_subsec_nanos(&self.decrement_after),
        );
        if !due {
            return false;
        }
        self.last_decrement = Some(now);
        self.fault_count -= 1;
        true
    }

    /// Decrease the fault count by `1` if the decrement timeout elapsed.
    ///
    /// Returns `true` if a decrement was performed, `false` otherwise. A decrement is only
    /// performed when the counter is non-zero and at least `decrement_after` has elapsed since
    /// the last decrement. The clock is read once: the elapsed time is measured to that
    /// reading, which is where the clock starts again after a decrement, and
    /// [Self::try_decrement_at] decides. So a decrement always moves the start of the clock on
    /// (unless the interval is zero), and two decrements are at least the interval apart.
    pub fn try_decrement(&mut self) -> (r: bool)
        ensures
            old(self).spec_fault_count() == 0 ==> !r,
            !old(self).spec_clock_started() ==> !r,
            r ==> final(self).spec_fault_count() == old(self).spec_fault_count() - 1 && final(self).spec_clock_started(),
            !r ==> *final(self) == *old(self),
            final(self).spec_failure_threshold() == old(self).spec_failure_threshold(),
            final(self).spec_decrement_after() == old(self).spec_decrement_after(),
            exists|elapsed_secs: u64, elapsed_nanos: u32| r == #[trigger] old(self).decrement_due(elapsed_secs, elapsed_nanos),
            r && (duration_secs(old(self).spec_decrement_after()) > 0 || duration_nanos(old(self).spec_decrement_after()) > 0)
                ==> final(self).spec_last_decrement() != old(self).spec_last_decrement(),
    {
        let last = match self.last_decrement {
            Some(last_decrement) => last_decrement,
            None => {
                let r = false;
                assert(r == old(self).decrement_due(0, 0));
                return r;
            },
        };
        let now = instant_now();
        let elapsed = instant_sub(now, last);
        let r = self.try_decrement_at(elapsed, now);
        assert(r == old(self).decrement_due(duration_secs(elapsed), duration_nanos(elapsed)));
        r
    }

    /// Check whether the counter exceeded the failure threshold.
    ///
    /// Returns `true` when `fault_count > failure_threshold`. In that case, the counter is reset
    /// to `0`.
    pub fn above_threshold(&mut self) -> (r: bool)
        ensures
            r == (old(self).spec_fault_count() > old(self).spec_failure_threshold()),
            r ==> final(self).spec_fault_count() == 0,
            !r ==> final(self).spec_fault_count() == old(self).spec_fault_count(),
            final(self).spec_failure_threshold() == old(self).spec_failure_threshold(),
            final(self).spec_decrement_after() == old(self).spec_decrement_after(),
            final(self).spec_clock_started() == old(self).spec_clock_started(),
    {
        if self.fault_count > self.failure_threshold {
            self.fault_count = 0;
            return true;
        }
        false
    }

    /// Convenience helper to increment once and immediately check the threshold.
    pub fn increment_and_check(&mut self) -> (r: bool)
        requires
            old(self).spec_fault_count() < u32::MAX,
        ensures
            r == (old(self).spec_fault_count() + 1 > old(self).spec_failure_threshold()),
            final(self).spec_fault_count() == if r { 0 } else { old(self).spec_fault_count() + 1 },
            final(self).spec_failure_threshold() == old(self).spec_failure_threshold(),
            final(self).spec_decrement_after() == old(self).spec_decrement_after(),
            final(self).spec_clock_started() == (old(self).spec_clock_started() || old(self).spec_fault_count() == 0),
    {
        self.increment();
        self.above_threshold()
    }

    /// Clear the counter and decrement timing state.
    pub fn clear(&mut self)
        ensures
            final(self).spec_fault_count() == 0,
            !final(self).spec_clock_started(),
            final(self).spec_failure_threshold() == old(self).spec_failure_threshold(),
            final(self).spec_decrement_after() == old(self).spec_decrement_after(),
    {
        self.fault_count = 0;
        self.last_decrement = None;
    }

    /// Update the failure threshold used by [`Self::above_threshold`].
    pub fn set_failure_threshold(&mut self, threshold: u32)
        ensures
            final(self).spec_failure_threshold() == threshold,
            final(self).spec_fault_count() == old(self).spec_fault_count(),
            final(self).spec_decrement_after() == old(self).spec_decrement_after(),
            final(self).spec_last_decrement() == old(self).spec_last_decrement(),
    {
        self.failure_threshold = threshold;
    }

    /// Update the minimum interval between automatic decrements.
    pub fn set_decrement_after(&mut self, duration: Duration)
        ensures
            final(self).spec_decrement_after() == duration,
            final(self).spec_fault_count() == old(self).spec_fault_count(),
            final(self).spec_failure_threshold() == old(self).spec_failure_threshold(),
            final(self).spec_last_decrement() == old(self).spec_last_decrement(),
    {
        self.decrement_after = duration;
    }
}

/// `n` increments at `now` raise the count by `n`, keep the threshold and the interval, and
/// start the decrement clock at `now` exactly when the count was `0` and `n` is not.
pub proof fn law_increments_at_closed_form(fc: FaultCounterStd, n: nat, now: Instant)
    requires
        fc.spec_fault_count() + n <= u32::MAX,
    ensures
        fc.after_increments_at(n, now).spec_fault_count() == fc.spec_fault_count() + n,
        fc.after_increments_at(n, now).spec_failure_threshold() == fc.spec_failure_threshold(),
        fc.after_increments_at(n, now).spec_decrement_after() == fc.spec_decrement_after(),
        fc.after_increments_at(n, now).spec_last_decrement() == (if n > 0 && fc.spec_fault_count() == 0 {
            Some(now)
        } else {
            fc.spec_last_decrement()
        }),
    decreases n,
{
    if n > 0 {
        law_increments_at_closed_form(fc, (n - 1) as nat, now);
    }
}

/// Single increments, each at its own instant, leave the counter as the same number of
/// increments at the first of those instants do: only the first increment can start the
/// decrement clock. So `n` calls of [FaultCounterStd::increment] and one call of
/// [FaultCounterStd::increment_n] with `n` leave the same counter, given the same first clock
/// reading.
pub proof fn law_increments_at_each(fc: FaultCounterStd, nows: Seq<Instant>)
    requires
        nows.len() > 0,
        fc.spec_fault_count() + nows.len() <= u32::MAX,
    ensures
        fc.after_increments_at_each(nows) == fc.after_increments_at(nows.len(), nows[0]),
    decreases nows.len(),
{
    let d = nows.drop_last();
    if nows.len() == 1 {
        assert(d.len() == 0);
        assert(fc.after_increments_at(0, nows[0]) == fc);
    } else {
        law_increments_at_each(fc, d);
        assert(d[0] == nows[0]);
        law_increments_at_closed_form(fc, d.len(), nows[0]);
        let x = fc.after_increments_at(d.len(), nows[0]);
        assert(x.spec_fault_count() > 0);
        assert(x.after_increment_at(nows.last()) == x.after_increment_at(nows[0]));
        assert((nows.len() - 1) as nat == d.len());
    }
}

} // verus!
