//! The texts of notifications and of the reasons behind them.
use vstd::prelude::*;
use crate::memory::{percent_text, sat_mul, PsiRatePpm};
use crate::policy::{
    decline_critical, decline_warning, exit_rate, sat_add, target, Config, State,
};
use crate::text::{decimal, push_decimal};

verus! {

/// Bytes in a MiB.
pub const MIB: u64 = 1_048_576;

/// Why an alert state is held or sought.
#[derive(Clone, Debug, PartialEq, Eq)]
pub enum TriggerReason {
    /// MemAvailable (bytes) is at or below the threshold (bytes).
    LowAvailable { current: u64, threshold: u64 },
    /// The `some` pressure-stall rate is at or above the threshold.
    PsiSome { rate: PsiRatePpm, threshold: PsiRatePpm },
    /// The `full` pressure-stall rate is at or above the threshold.
    PsiFull { rate: PsiRatePpm, threshold: PsiRatePpm },
    /// MemAvailable falls (bytes per second) at or above the threshold (bytes per minute).
    RapidDecline { slope_per_sec: u64, threshold: u64 },
    /// A trigger has not yet cleared enough to leave the state.
    Recovering { detail: String },
}

/// The text of a reason, such as `MemAvailable low: 2500 MiB`.
pub open spec fn reason_text(r: TriggerReason) -> Seq<char> {
    match r {
        TriggerReason::LowAvailable { current, .. } => "MemAvailable low: "@ + decimal(
            (current / MIB) as nat,
        ) + " MiB"@,
        TriggerReason::PsiSome { rate, .. } => "PSI some "@ + percent_text(rate.0),
        TriggerReason::PsiFull { rate, .. } => "PSI full "@ + percent_text(rate.0),
        TriggerReason::RapidDecline { slope_per_sec, .. } => "rapid decline: "@ + decimal(
            (sat_mul(slope_per_sec, 60) / MIB) as nat,
        ) + " MiB/min"@,
        TriggerReason::Recovering { detail } => "recovering ("@ + detail@ + ")"@,
    }
}

/// `a * b`, or `u64::MAX` where the product does not fit.
fn saturating_mul(a: u64, b: u64) -> (r: u64)
    ensures
        r == sat_mul(a, b),
{
    if b != 0 && a > u64::MAX / b {
        proof {
            assert(a * b > u64::MAX) by (nonlinear_arith)
                requires
                    b != 0,
                    a > u64::MAX / b,
            ;
        }
        u64::MAX
    } else {
        proof {
            assert(a * b <= u64::MAX) by (nonlinear_arith)
                requires
                    b == 0 || a <= u64::MAX / b,
            ;
        }
        a * b
    }
}

impl TriggerReason {
    /// The text of the reason, such as `MemAvailable low: 2500 MiB`.
    pub fn to_string(&self) -> (s: String)
        ensures
            s@ == reason_text(*self),
    {
        let mut s = String::new();
        push_reason(&mut s, self);
        s
    }
}

fn push_reason(out: &mut String, r: &TriggerReason)
    ensures
        final(out)@ == old(out)@ + reason_text(*r),
{
    let ghost start = out@;
    match r {
        TriggerReason::LowAvailable { current, .. } => {
            out.append("MemAvailable low: ");
            push_decimal(out, *current / MIB);
            out.append(" MiB");
        },
        TriggerReason::PsiSome { rate, .. } => {
            out.append("PSI some ");
            let t = rate.to_string();
            out.append(t.as_str());
        },
        TriggerReason::PsiFull { rate, .. } => {
            out.append("PSI full ");
            let t = rate.to_string();
            out.append(t.as_str());
        },
        TriggerReason::RapidDecline { slope_per_sec, .. } => {
            out.append("rapid decline: ");
            push_decimal(out, saturating_mul(*slope_per_sec, 60) / MIB);
            out.append(" MiB/min");
        },
        TriggerReason::Recovering { detail } => {
            out.append("recovering (");
            out.append(detail.as_str());
            out.append(")");
        },
    }
    assert(out@ =~= start + reason_text(*r));
}

/// The reasons as bulleted lines.
pub open spec fn bullet_lines(rs: Seq<TriggerReason>) -> Seq<char>
    decreases rs.len(),
{
    if rs.len() == 0 {
        Seq::empty()
    } else if rs.len() == 1 {
        "• "@ + reason_text(rs[0])
    } else {
        bullet_lines(rs.drop_last()) + "\n"@ + "• "@ + reason_text(rs.last())
    }
}

/// A pressure rate, or `n/a` where none is known.
pub open spec fn rate_text(p: Option<PsiRatePpm>) -> Seq<char> {
    match p {
        Some(r) => percent_text(r.0),
        None => "n/a"@,
    }
}

/// The body of a notification: the reasons (if any) under `Triggers:`, then
/// MemAvailable in MiB, the fall in MiB per minute, and both pressure rates.
pub open spec fn body_text(
    available: u64,
    slope_per_sec: u64,
    psi_some: Option<PsiRatePpm>,
    psi_full: Option<PsiRatePpm>,
    reasons: Seq<TriggerReason>,
) -> Seq<char> {
    let head = if reasons.len() == 0 {
        Seq::empty()
    } else {
        "Triggers:\n"@ + bullet_lines(reasons) + "\n\n"@
    };
    head + "MemAvailable: "@ + decimal((available / MIB) as nat) + " MiB\nSlope: "@ + decimal(
        (sat_mul(slope_per_sec, 60) / MIB) as nat,
    ) + " MiB/min\nPSI some: "@ + rate_text(psi_some) + "\nPSI full: "@ + rate_text(psi_full)
}

fn push_rate(out: &mut String, p: Option<PsiRatePpm>)
    ensures
        final(out)@ == old(out)@ + rate_text(p),
{
    match p {
        Some(r) => {
            let t = r.to_string();
            out.append(t.as_str());
        },
        None => {
            out.append("n/a");
        },
    }
}

pub fn format_notification_body(
    available: u64,
    slope_per_sec: u64,
    psi_some: Option<PsiRatePpm>,
    psi_full: Option<PsiRatePpm>,
    reasons: &[TriggerReason],
) -> (s: String)
    ensures
        s@ == body_text(available, slope_per_sec, psi_some, psi_full, reasons@),
{
    let slope_per_min = saturating_mul(slope_per_sec, 60);
    let mut out = String::new();
    if reasons.len() > 0 {
        out.append("Triggers:\n");
        let mut i: usize = 0;
        let ghost start = out@;
        while i < reasons.len()
            invariant
                i <= reasons@.len(),
                out@ == start + bullet_lines(reasons@.take(i as int)),
            decreases reasons@.len() - i,
        {
            let ghost before = out@;
            if i > 0 {
                out.append("\n");
            }
            out.append("• ");
            push_reason(&mut out, &reasons[i]);
            proof {
                let p = reasons@.take(i + 1);
                assert(p.drop_last() =~= reasons@.take(i as int));
                assert(p.last() == reasons@[i as int]);
                if i == 0 {
                    assert(reasons@.take(0) =~= Seq::<TriggerReason>::empty());
                    assert(out@ =~= start + bullet_lines(p));
                } else {
                    assert(out@ =~= start + bullet_lines(p));
                }
            }
            i = i + 1;
        }
        assert(reasons@.take(reasons@.len() as int) =~= reasons@);
        out.append("\n\n");
    }
    let ghost head = out@;
    out.append("MemAvailable: ");
    push_decimal(&mut out, available / MIB);
    out.append(" MiB\nSlope: ");
    push_decimal(&mut out, slope_per_min / MIB);
    out.append(" MiB/min\nPSI some: ");
    push_rate(&mut out, psi_some);
    out.append("\nPSI full: ");
    push_rate(&mut out, psi_full);
    proof {
        if reasons@.len() == 0 {
            assert(head =~= Seq::<char>::empty());
        }
        assert(out@ =~= body_text(available, slope_per_sec, psi_some, psi_full, reasons@));
    }
    out
}


/// What a reason holds, as plain values.
pub ghost enum ReasonView {
    LowAvailable { current: u64, threshold: u64 },
    PsiSome { rate: u64, threshold: u64 },
    PsiFull { rate: u64, threshold: u64 },
    RapidDecline { slope_per_sec: u64, threshold: u64 },
    Recovering { detail: Seq<char> },
}

impl View for TriggerReason {
    type V = ReasonView;

    open spec fn view(&self) -> ReasonView {
        match self {
            TriggerReason::LowAvailable { current, threshold } => ReasonView::LowAvailable {
                current: *current,
                threshold: *threshold,
            },
            TriggerReason::PsiSome { rate, threshold } => ReasonView::PsiSome {
                rate: rate.0,
                threshold: threshold.0,
            },
            TriggerReason::PsiFull { rate, threshold } => ReasonView::PsiFull {
                rate: rate.0,
                threshold: threshold.0,
            },
            TriggerReason::RapidDecline { slope_per_sec, threshold } => ReasonView::RapidDecline {
                slope_per_sec: *slope_per_sec,
                threshold: *threshold,
            },
            TriggerReason::Recovering { detail } => ReasonView::Recovering { detail: detail@ },
        }
    }
}

pub open spec fn reason_views(rs: Seq<TriggerReason>) -> Seq<ReasonView> {
    rs.map_values(|r: TriggerReason| r@)
}

pub open spec fn one_if(b: bool, r: ReasonView) -> Seq<ReasonView> {
    if b {
        seq![r]
    } else {
        Seq::empty()
    }
}

/// The triggers that a sample fires at their entry thresholds.
pub open spec fn entry_reasons(
    available: u64,
    slope: u64,
    psi_some: u64,
    psi_full: u64,
    c: Config,
) -> Seq<ReasonView> {
    one_if(
        available <= c.warning || available <= c.critical,
        ReasonView::LowAvailable {
            current: available,
            threshold: if available <= c.critical {
                c.critical
            } else {
                c.warning
            },
        },
    ) + one_if(
        decline_critical(available, slope, c) || decline_warning(available, slope, c),
        ReasonView::RapidDecline {
            slope_per_sec: slope,
            threshold: if decline_critical(available, slope, c) {
                c.decline_critical_rate
            } else {
                c.decline_warning_rate
            },
        },
    ) + one_if(
        psi_full >= c.psi_full_critical.0,
        ReasonView::PsiFull { rate: psi_full, threshold: c.psi_full_critical.0 },
    ) + one_if(
        psi_some >= c.psi_some_warning.0,
        ReasonView::PsiSome { rate: psi_some, threshold: c.psi_some_warning.0 },
    )
}

/// `PSI <stream> <rate> >= exit threshold <half the threshold>`.
pub open spec fn psi_hold_text(stream: Seq<char>, rate: u64, threshold: PsiRatePpm) -> Seq<char> {
    "PSI "@ + stream + " "@ + percent_text(rate) + " >= exit threshold "@ + percent_text(
        exit_rate(threshold),
    )
}

/// `MemAvailable <n> MiB < recovery level <m> MiB`.
pub open spec fn memory_hold_text(available: u64, c: Config) -> Seq<char> {
    "MemAvailable "@ + decimal((available / MIB) as nat) + " MiB < recovery level "@ + decimal(
        (sat_add(c.warning, c.hysteresis) / MIB) as nat,
    ) + " MiB"@
}

/// What keeps an alert state from clearing when no trigger is at its entry threshold.
pub open spec fn holding_reasons(available: u64, psi_some: u64, psi_full: u64, c: Config) -> Seq<
    ReasonView,
> {
    one_if(
        psi_full >= exit_rate(c.psi_full_critical),
        ReasonView::Recovering { detail: psi_hold_text("full"@, psi_full, c.psi_full_critical) },
    ) + one_if(
        psi_some >= exit_rate(c.psi_some_warning),
        ReasonView::Recovering { detail: psi_hold_text("some"@, psi_some, c.psi_some_warning) },
    ) + one_if(
        available < sat_add(c.warning, c.hysteresis),
        ReasonView::Recovering { detail: memory_hold_text(available, c) },
    )
}

/// The reasons behind the state that a sample calls for: the triggers at their
/// entry thresholds, or, in an alert state where none is, what keeps the state
/// from clearing.
pub open spec fn reasons_spec(
    current: State,
    available: u64,
    slope: u64,
    psi_some: u64,
    psi_full: u64,
    c: Config,
) -> Seq<ReasonView> {
    let entry = entry_reasons(available, slope, psi_some, psi_full, c);
    if entry.len() > 0 || current == State::Normal {
        entry
    } else {
        holding_reasons(available, psi_some, psi_full, c)
    }
}

fn push_view(v: &mut Vec<TriggerReason>, r: TriggerReason)
    ensures
        reason_views(final(v)@) == reason_views(old(v)@).push(r@),
{
    let ghost before = reason_views(v@);
    v.push(r);
    assert(reason_views(v@) =~= before.push(r@));
}

fn psi_hold(stream: &str, rate: u64, threshold: PsiRatePpm) -> (s: String)
    ensures
        s@ == psi_hold_text(stream@, rate, threshold),
{
    let mut s = String::new();
    s.append("PSI ");
    s.append(stream);
    s.append(" ");
    let t = PsiRatePpm(rate).to_string();
    s.append(t.as_str());
    s.append(" >= exit threshold ");
    let e = PsiRatePpm(threshold.0 / 2).to_string();
    s.append(e.as_str());
    assert(s@ =~= psi_hold_text(stream@, rate, threshold));
    s
}

/// The reasons behind the state that a sample calls for, given the state before
/// it; rates in ppm.
pub fn trigger_reasons(
    current: State,
    available: u64,
    slope: u64,
    psi_some: u64,
    psi_full: u64,
    c: Config,
) -> (r: Vec<TriggerReason>)
    ensures
        reason_views(r@) == reasons_spec(current, available, slope, psi_some, psi_full, c),
{
    let mut r: Vec<TriggerReason> = Vec::new();
    assert(reason_views(r@) =~= Seq::<ReasonView>::empty());
    if available <= c.warning || available <= c.critical {
        let threshold = if available <= c.critical {
            c.critical
        } else {
            c.warning
        };
        push_view(&mut r, TriggerReason::LowAvailable { current: available, threshold });
    }
    let per_min = if slope > u64::MAX / 60 {
        u64::MAX
    } else {
        slope * 60
    };
    let critical_fall = per_min >= c.decline_critical_rate && available < c.decline_critical_gate;
    let warning_fall = per_min >= c.decline_warning_rate && available < c.decline_warning_gate;
    if critical_fall || warning_fall {
        let threshold = if critical_fall {
            c.decline_critical_rate
        } else {
            c.decline_warning_rate
        };
        push_view(&mut r, TriggerReason::RapidDecline { slope_per_sec: slope, threshold });
    }
    if psi_full >= c.psi_full_critical.0 {
        push_view(
            &mut r,
            TriggerReason::PsiFull { rate: PsiRatePpm(psi_full), threshold: c.psi_full_critical },
        );
    }
    if psi_some >= c.psi_some_warning.0 {
        push_view(
            &mut r,
            TriggerReason::PsiSome { rate: PsiRatePpm(psi_some), threshold: c.psi_some_warning },
        );
    }
    assert(reason_views(r@) =~= entry_reasons(available, slope, psi_some, psi_full, c));
    if r.len() > 0 || current == State::Normal {
        return r;
    }
    assert(reason_views(r@) =~= Seq::<ReasonView>::empty());
    if psi_full >= c.psi_full_critical.0 / 2 {
        push_view(
            &mut r,
            TriggerReason::Recovering { detail: psi_hold("full", psi_full, c.psi_full_critical) },
        );
    }
    if psi_some >= c.psi_some_warning.0 / 2 {
        push_view(
            &mut r,
            TriggerReason::Recovering { detail: psi_hold("some", psi_some, c.psi_some_warning) },
        );
    }
    let level = c.warning.saturating_add(c.hysteresis);
    if available < level {
        let mut d = String::new();
        d.append("MemAvailable ");
        push_decimal(&mut d, available / MIB);
        d.append(" MiB < recovery level ");
        push_decimal(&mut d, level / MIB);
        d.append(" MiB");
        assert(d@ =~= memory_hold_text(available, c));
        push_view(&mut r, TriggerReason::Recovering { detail: d });
    }
    assert(reason_views(r@) =~= holding_reasons(available, psi_some, psi_full, c));
    r
}

/// A sample comes with reasons exactly when it calls for an alert state.
pub proof fn law_reasons_iff_alert(
    current: State,
    available: u64,
    slope: u64,
    psi_some: u64,
    psi_full: u64,
    c: Config,
)
    ensures
        (reasons_spec(current, available, slope, psi_some, psi_full, c).len() > 0) == (target(
            current,
            available,
            slope,
            psi_some,
            psi_full,
            c,
        ) != State::Normal),
{
}

} // verus!
