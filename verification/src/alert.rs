//! The decisions around a sample: how fast MemAvailable falls, and whether a
//! notification is due.
use vstd::prelude::*;
use crate::clock::{Elapsed, Timestamp};
use crate::policy::State;

verus! {

/// Samples further apart than this (in nanoseconds) give no slope.
pub const SLOPE_WINDOW_NANOS: u128 = 300_000_000_000;

/// The fall of MemAvailable in bytes per second, rounded to the nearest byte
/// (halves up) and capped at `u64::MAX`; 0 where there is no previous sample, no
/// time passed, more than 300 s passed, or MemAvailable did not fall.
pub open spec fn slope_spec(previous: Option<u64>, current: u64, elapsed_nanos: u128) -> u64 {
    match previous {
        None => 0,
        Some(p) => if elapsed_nanos == 0 || elapsed_nanos > SLOPE_WINDOW_NANOS || p < current {
            0
        } else {
            let q = ((p - current) * 1_000_000_000 + elapsed_nanos / 2) / (elapsed_nanos as int);
            if q > u64::MAX {
                u64::MAX
            } else {
                q as u64
            }
        },
    }
}

pub fn available_slope(previous: Option<u64>, current: u64, elapsed: Elapsed) -> (r: u64)
    ensures
        r == slope_spec(previous, current, elapsed.nanos),
{
    let previous = match previous {
        None => {
            return 0;
        },
        Some(p) => p,
    };
    let elapsed_nanos = elapsed.as_nanos();
    if elapsed_nanos == 0 || elapsed_nanos > SLOPE_WINDOW_NANOS {
        return 0;
    }
    if previous < current {
        return 0;
    }
    let decrease = previous - current;
    // bytes * (ns per s) / ns = bytes per second, rounded to the nearest
    let num = decrease as u128 * 1_000_000_000;
    let half = elapsed_nanos / 2;
    let bps = (num + half) / elapsed_nanos;
    if bps > u64::MAX as u128 {
        u64::MAX
    } else {
        bps as u64
    }
}

/// Whether to notify: never in Normal; at once on escalation from Warning to
/// Critical; otherwise when nothing was sent yet in this episode, or when the
/// repeat interval of the current state (at least one second) has passed since
/// the last notification.
pub open spec fn notify_due(
    current: State,
    previous: State,
    last_notify: Option<Timestamp>,
    now: Timestamp,
    warning_repeat_secs: u64,
    critical_repeat_secs: u64,
) -> bool {
    if current == State::Normal {
        false
    } else if previous == State::Warning && current == State::Critical {
        true
    } else {
        let repeat = if current == State::Warning {
            warning_repeat_secs
        } else {
            critical_repeat_secs
        };
        let interval = if repeat >= 1 {
            repeat
        } else {
            1
        };
        match last_notify {
            None => true,
            Some(t) => now.nanos >= t.nanos && (now.nanos - t.nanos) / 1_000_000_000 >= interval,
        }
    }
}

pub fn should_notify(
    current_state: State,
    previous_state: State,
    last_notify: Option<Timestamp>,
    now: Timestamp,
    warning_repeat_secs: u64,
    critical_repeat_secs: u64,
) -> (r: bool)
    ensures
        r == notify_due(
            current_state,
            previous_state,
            last_notify,
            now,
            warning_repeat_secs,
            critical_repeat_secs,
        ),
{
    if current_state == State::Normal {
        return false;
    }
    // Immediate escalation from Warning to Critical
    if previous_state == State::Warning && current_state == State::Critical {
        return true;
    }
    let repeat = match current_state {
        State::Warning => warning_repeat_secs,
        State::Critical => critical_repeat_secs,
        State::Normal => 0,
    };
    let interval = if repeat >= 1 {
        repeat
    } else {
        1
    };
    match last_notify {
        None => true,
        Some(t) => match now.checked_duration_since(t) {
            Some(d) => d.as_secs() >= interval as u128,
            None => false,
        },
    }
}


/// Normal never notifies, whatever came before and whenever the last notice was.
pub proof fn law_normal_never_notifies(
    previous: State,
    last_notify: Option<Timestamp>,
    now: Timestamp,
    warning_repeat_secs: u64,
    critical_repeat_secs: u64,
)
    ensures
        !notify_due(
            State::Normal,
            previous,
            last_notify,
            now,
            warning_repeat_secs,
            critical_repeat_secs,
        ),
{
}

/// Escalation from Warning to Critical notifies at once, however recent the last notice.
pub proof fn law_escalation_notifies_at_once(
    last_notify: Option<Timestamp>,
    now: Timestamp,
    warning_repeat_secs: u64,
    critical_repeat_secs: u64,
)
    ensures
        notify_due(
            State::Critical,
            State::Warning,
            last_notify,
            now,
            warning_repeat_secs,
            critical_repeat_secs,
        ),
{
}

/// Within an alert state, a reminder comes no sooner than one repeat interval
/// (and at least one second) after the last notice.
pub proof fn law_reminders_respect_interval(
    state: State,
    t: Timestamp,
    now: Timestamp,
    warning_repeat_secs: u64,
    critical_repeat_secs: u64,
)
    requires
        state != State::Normal,
        notify_due(state, state, Some(t), now, warning_repeat_secs, critical_repeat_secs),
    ensures
        now.nanos >= t.nanos,
        now.nanos - t.nanos >= 1_000_000_000,
        now.nanos - t.nanos >= (if state == State::Warning {
            warning_repeat_secs
        } else {
            critical_repeat_secs
        }) * 1_000_000_000,
{
    let d = (now.nanos - t.nanos) as int;
    let need: int = if state == State::Warning {
        warning_repeat_secs as int
    } else {
        critical_repeat_secs as int
    };
    let k: int = if need >= 1 {
        need
    } else {
        1
    };
    assert(d / 1_000_000_000 >= k);
    assert(d >= k * 1_000_000_000) by (nonlinear_arith)
        requires
            d >= 0,
            d / 1_000_000_000 >= k,
    ;
}

/// When MemAvailable did not fall, the slope is zero.
pub proof fn law_no_fall_no_slope(previous: u64, current: u64, elapsed_nanos: u128)
    requires
        previous <= current,
    ensures
        slope_spec(Some(previous), current, elapsed_nanos) == 0,
{
    if previous == current && elapsed_nanos != 0 && elapsed_nanos <= SLOPE_WINDOW_NANOS {
        assert((0int * 1_000_000_000 + elapsed_nanos / 2) / (elapsed_nanos as int) == 0) by (nonlinear_arith)
            requires
                elapsed_nanos > 0,
        ;
    }
}


/// When the last notification of the current episode went out, after a sample:
/// cleared in Normal, the sample's time where a notification was delivered, and
/// otherwise unchanged.
pub open spec fn last_notify_after(
    state: State,
    delivered: bool,
    now: Timestamp,
    last_notify: Option<Timestamp>,
) -> Option<Timestamp> {
    if state == State::Normal {
        None
    } else if delivered {
        Some(now)
    } else {
        last_notify
    }
}

pub fn record_notification(
    state: State,
    delivered: bool,
    now: Timestamp,
    last_notify: Option<Timestamp>,
) -> (r: Option<Timestamp>)
    ensures
        r == last_notify_after(state, delivered, now, last_notify),
{
    if state == State::Normal {
        None
    } else if delivered {
        Some(now)
    } else {
        last_notify
    }
}


/// The first alert of an episode always notifies: in Warning or Critical, with
/// nothing sent yet, a notification is due whatever came before.
pub proof fn law_first_alert_notifies(
    state: State,
    previous: State,
    now: Timestamp,
    warning_repeat_secs: u64,
    critical_repeat_secs: u64,
)
    requires
        state != State::Normal,
    ensures
        notify_due(state, previous, None, now, warning_repeat_secs, critical_repeat_secs),
{
}


/// The slope is the fall per second rounded to the nearest byte (halves up):
/// over `n` nanoseconds, `r * n` is within half of `n` of the fall times 10^9,
/// unless the slope is capped at `u64::MAX`.
pub proof fn law_slope_rounds_to_nearest(previous: u64, current: u64, elapsed_nanos: u128)
    requires
        current <= previous,
        0 < elapsed_nanos <= SLOPE_WINDOW_NANOS,
        slope_spec(Some(previous), current, elapsed_nanos) < u64::MAX,
    ensures
        ({
            let r = slope_spec(Some(previous), current, elapsed_nanos) as int;
            let n = elapsed_nanos as int;
            let x = (previous - current) * 1_000_000_000;
            &&& r * n <= x + n / 2
            &&& x + n / 2 < (r + 1) * n
        }),
{
    let n = elapsed_nanos as int;
    let x = (previous - current) * 1_000_000_000;
    crate::text::lemma_div_bounds(x + n / 2, n);
}

/// Within an alert state, a reminder is due once the repeat interval (at least
/// one second) has passed since the last notice.
pub proof fn law_reminder_due_after_interval(
    state: State,
    t: Timestamp,
    now: Timestamp,
    warning_repeat_secs: u64,
    critical_repeat_secs: u64,
)
    requires
        state != State::Normal,
        t.nanos <= now.nanos,
        now.nanos - t.nanos >= 1_000_000_000,
        now.nanos - t.nanos >= (if state == State::Warning {
            warning_repeat_secs
        } else {
            critical_repeat_secs
        }) * 1_000_000_000,
    ensures
        notify_due(state, state, Some(t), now, warning_repeat_secs, critical_repeat_secs),
{
    let d = (now.nanos - t.nanos) as int;
    let need: int = if state == State::Warning {
        warning_repeat_secs as int
    } else {
        critical_repeat_secs as int
    };
    let k: int = if need >= 1 {
        need
    } else {
        1
    };
    assert(d >= k * 1_000_000_000);
    assert(d / 1_000_000_000 >= k) by (nonlinear_arith)
        requires
            d >= k * 1_000_000_000,
            k >= 0,
    ;
}

} // verus!
