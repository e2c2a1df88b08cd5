//! One step of the daemon: from the monitor's state and a sample to the next
//! state and what to do (the reasons to show and whether to notify).
use vstd::prelude::*;
use crate::alert::{
    available_slope, last_notify_after, notify_due, record_notification, should_notify,
    slope_spec,
};
use crate::clock::{Elapsed, Timestamp};
use crate::memory::{calculate_psi_rate_ppm, psi_rate_spec, Psi, PsiRatePpm, Snapshot};
use crate::policy::{step, Config, Policy, PolicyView, State};
use crate::report::{reason_views, reasons_spec, trigger_reasons, TriggerReason};

verus! {

/// What the daemon remembers between samples.
pub struct Monitor {
    policy: Policy,
    previous: Option<(u64, Timestamp)>,
    previous_psi_some: Option<Psi>,
    previous_psi_full: Option<Psi>,
    last_notify: Option<Timestamp>,
}

pub ghost struct MonitorView {
    pub policy: PolicyView,
    /// MemAvailable and the time of the previous sample.
    pub previous: Option<(u64, Timestamp)>,
    pub previous_psi_some: Option<Psi>,
    pub previous_psi_full: Option<Psi>,
    /// When the last notification of the current alert episode went out.
    pub last_notify: Option<Timestamp>,
}

impl View for Monitor {
    type V = MonitorView;

    closed spec fn view(&self) -> MonitorView {
        MonitorView {
            policy: self.policy@,
            previous: self.previous,
            previous_psi_some: self.previous_psi_some,
            previous_psi_full: self.previous_psi_full,
            last_notify: self.last_notify,
        }
    }
}

/// What one sample gives.
pub struct Observation {
    pub previous_state: State,
    pub state: State,
    pub candidate: State,
    /// Fall of MemAvailable, bytes per second.
    pub slope: u64,
    pub psi_some: Option<PsiRatePpm>,
    pub psi_full: Option<PsiRatePpm>,
    /// The reasons behind the state that the sample calls for.
    pub reasons: Vec<TriggerReason>,
    /// Whether a notification is due.
    pub notify: bool,
}

/// Time since the previous sample, or zero where there is none or the clock went back.
pub open spec fn elapsed_since(previous: Option<(u64, Timestamp)>, now: Timestamp) -> u128 {
    match previous {
        Some((_, t)) => if now.nanos >= t.nanos {
            (now.nanos - t.nanos) as u128
        } else {
            0
        },
        None => 0,
    }
}

pub open spec fn previous_available(previous: Option<(u64, Timestamp)>) -> Option<u64> {
    match previous {
        Some((a, _)) => Some(a),
        None => None,
    }
}

/// The clock reading in whole seconds, as the policy counts dwell.
pub open spec fn clock_secs(now: Timestamp) -> u64 {
    if now.nanos / 1_000_000_000 > u64::MAX {
        u64::MAX
    } else {
        (now.nanos / 1_000_000_000) as u64
    }
}

/// A pressure rate, or 0 where none is known.
pub open spec fn rate_or_zero(r: Option<PsiRatePpm>) -> u64 {
    match r {
        Some(p) => p.0,
        None => 0,
    }
}

fn rate_or_zero_of(r: Option<PsiRatePpm>) -> (v: u64)
    ensures
        v == rate_or_zero(r),
{
    match r {
        Some(p) => p.0,
        None => 0,
    }
}

impl Monitor {
    pub fn new() -> (m: Monitor)
        ensures
            m@.policy == crate::policy::initial(),
            m@.previous is None,
            m@.previous_psi_some is None,
            m@.previous_psi_full is None,
            m@.last_notify is None,
    {
        Monitor {
            policy: Policy::new(),
            previous: None,
            previous_psi_some: None,
            previous_psi_full: None,
            last_notify: None,
        }
    }

    /// Takes a sample read at `now`: measures the fall of MemAvailable and the
    /// pressure rates since the previous sample, feeds the policy, and says which
    /// reasons stand behind the new target and whether a notification is due.
    pub fn observe(
        &mut self,
        s: &Snapshot,
        now: Timestamp,
        c: Config,
        warning_repeat_secs: u64,
        critical_repeat_secs: u64,
    ) -> (o: Observation)
        ensures
            ({
                let m = old(self)@;
                let e = elapsed_since(m.previous, now);
                let some = rate_or_zero(o.psi_some);
                let full = rate_or_zero(o.psi_full);
                &&& o.previous_state == m.policy.state
                &&& o.slope == slope_spec(previous_available(m.previous), s.available, e)
                &&& o.psi_some == psi_rate_spec(m.previous_psi_some, s.psi_some, e)
                &&& o.psi_full == psi_rate_spec(m.previous_psi_full, s.psi_full, e)
                &&& reason_views(o.reasons@) == reasons_spec(
                    m.policy.state,
                    s.available,
                    o.slope,
                    some,
                    full,
                    c,
                )
                &&& final(self)@.policy == step(
                    m.policy,
                    s.available,
                    o.slope,
                    some,
                    full,
                    clock_secs(now),
                    c,
                )
                &&& o.state == final(self)@.policy.state
                &&& o.candidate == final(self)@.policy.candidate
                &&& o.notify == notify_due(
                    o.state,
                    o.previous_state,
                    m.last_notify,
                    now,
                    warning_repeat_secs,
                    critical_repeat_secs,
                )
                &&& final(self)@.last_notify == last_notify_after(
                    o.state,
                    false,
                    now,
                    m.last_notify,
                )
                &&& final(self)@.previous == Some((s.available, now))
                &&& final(self)@.previous_psi_some == s.psi_some
                &&& final(self)@.previous_psi_full == s.psi_full
            }),
    {
        let elapsed = match self.previous {
            Some((_, t)) => match now.checked_duration_since(t) {
                Some(d) => d,
                None => Elapsed::zero(),
            },
            None => Elapsed::zero(),
        };
        let previous_available = match self.previous {
            Some((a, _)) => Some(a),
            None => None,
        };
        let slope = available_slope(previous_available, s.available, elapsed);
        let psi_some = calculate_psi_rate_ppm(self.previous_psi_some, s.psi_some, elapsed);
        let psi_full = calculate_psi_rate_ppm(self.previous_psi_full, s.psi_full, elapsed);
        let some = rate_or_zero_of(psi_some);
        let full = rate_or_zero_of(psi_full);
        let previous_state = self.policy.state();
        let reasons = trigger_reasons(previous_state, s.available, slope, some, full, c);
        let secs = now.nanos / 1_000_000_000;
        let clock = if secs > u64::MAX as u128 {
            u64::MAX
        } else {
            secs as u64
        };
        let state = self.policy.update(s.available, slope, some, full, clock, c);
        let candidate = self.policy.candidate();
        let notify = should_notify(
            state,
            previous_state,
            self.last_notify,
            now,
            warning_repeat_secs,
            critical_repeat_secs,
        );
        self.last_notify = record_notification(state, false, now, self.last_notify);
        self.previous = Some((s.available, now));
        self.previous_psi_some = s.psi_some;
        self.previous_psi_full = s.psi_full;
        Observation {
            previous_state,
            state,
            candidate,
            slope,
            psi_some,
            psi_full,
            reasons,
            notify,
        }
    }

    /// Records that a notification went out at `now`.
    pub fn delivered(&mut self, now: Timestamp)
        ensures
            final(self)@.last_notify == last_notify_after(
                old(self)@.policy.state,
                true,
                now,
                old(self)@.last_notify,
            ),
            final(self)@.policy == old(self)@.policy,
            final(self)@.previous == old(self)@.previous,
            final(self)@.previous_psi_some == old(self)@.previous_psi_some,
            final(self)@.previous_psi_full == old(self)@.previous_psi_full,
    {
        let state = self.policy.state();
        self.last_notify = record_notification(state, true, now, self.last_notify);
    }

    /// The current alert state.
    pub fn state(&self) -> (r: State)
        ensures
            r == self@.policy.state,
    {
        self.policy.state()
    }
}


/// The policy's clock is the whole seconds of the timestamp: the largest number
/// of seconds not after it (capped at `u64::MAX`).
pub proof fn law_clock_is_whole_seconds(now: Timestamp)
    ensures
        now.nanos < (u64::MAX as int + 1) * 1_000_000_000 ==> clock_secs(now) * 1_000_000_000
            <= now.nanos < (clock_secs(now) + 1) * 1_000_000_000,
        now.nanos >= (u64::MAX as int + 1) * 1_000_000_000 ==> clock_secs(now) == u64::MAX,
{
}

/// Between two readings of a monotonic clock, the policy's clock advances by the
/// whole seconds that passed, give or take one for the boundary.
pub proof fn law_clock_tracks_elapsed(earlier: Timestamp, later: Timestamp)
    requires
        earlier.nanos <= later.nanos,
        later.nanos < (u64::MAX as int + 1) * 1_000_000_000,
    ensures
        clock_secs(earlier) <= clock_secs(later),
        (clock_secs(later) - clock_secs(earlier)) * 1_000_000_000 <= later.nanos - earlier.nanos
            + 999_999_999,
        later.nanos - earlier.nanos < (clock_secs(later) - clock_secs(earlier) + 1)
            * 1_000_000_000,
{
}

} // verus!
