//! The alert state machine: which state the memory figures and the pressure
//! rates call for, and the dwell time that a new state must hold before it is
//! entered.
use vstd::prelude::*;
use crate::memory::{sat_mul, PsiRatePpm};

verus! {

/// Alert level.
#[derive(Clone, Copy, Debug, PartialEq, Eq, Structural)]
pub enum State {
    Normal,
    Warning,
    Critical,
}

/// Thresholds of the policy.
#[derive(Clone, Copy, Debug)]
pub struct Config {
    /// MemAvailable (bytes) at or below which the state is Warning.
    pub warning: u64,
    /// MemAvailable (bytes) at or below which the state is Critical.
    pub critical: u64,
    /// Margin (bytes) above `warning` that MemAvailable must reach to return to Normal.
    pub hysteresis: u64,
    /// Seconds a new target must persist before the state follows it.
    pub dwell: u64,
    /// `some` pressure-stall rate at or above which the state is Warning.
    pub psi_some_warning: PsiRatePpm,
    /// `full` pressure-stall rate at or above which the state is Critical.
    pub psi_full_critical: PsiRatePpm,
    /// Fall of MemAvailable (bytes per minute) at or above which the state is
    /// Warning, while MemAvailable is below `decline_warning_gate`.
    pub decline_warning_rate: u64,
    pub decline_warning_gate: u64,
    /// Fall of MemAvailable (bytes per minute) at or above which the state is
    /// Critical, while MemAvailable is below `decline_critical_gate`.
    pub decline_critical_rate: u64,
    pub decline_critical_gate: u64,
}

pub open spec fn default_config() -> Config {
    Config {
        warning: 3_221_225_472u64,
        critical: 805_306_368u64,
        hysteresis: 268_435_456u64,
        dwell: 10,
        psi_some_warning: PsiRatePpm(100_000),
        psi_full_critical: PsiRatePpm(50_000),
        decline_warning_rate: 1_073_741_824,
        decline_warning_gate: 6_442_450_944u64,
        decline_critical_rate: 2_147_483_648u64,
        decline_critical_gate: 4_294_967_296u64,
    }
}

impl Default for Config {
    /// The documented defaults: Warning at 3 GiB, Critical at 768 MiB, 256 MiB
    /// of hysteresis, 10 s of dwell, PSI some 10%, PSI full 5%, a fall of 1 GiB/min
    /// below 6 GiB for Warning and of 2 GiB/min below 4 GiB for Critical.
    fn default() -> (c: Config)
        ensures
            c == default_config(),
    {
        Config {
            warning: 3 * 1_073_741_824,
            critical: 768 * 1_048_576,
            hysteresis: 256 * 1_048_576,
            dwell: 10,
            psi_some_warning: PsiRatePpm(100_000),
            psi_full_critical: PsiRatePpm(50_000),
            decline_warning_rate: 1_073_741_824,
            decline_warning_gate: 6 * 1_073_741_824,
            decline_critical_rate: 2 * 1_073_741_824,
            decline_critical_gate: 4 * 1_073_741_824,
        }
    }
}

/// The alert policy: the current state, the state that the latest figures ask
/// for, and the clock reading at which they began to ask for it.
pub struct Policy {
    state: State,
    candidate: State,
    since: u64,
}

/// What a policy holds, as plain values.
pub ghost struct PolicyView {
    pub state: State,
    pub candidate: State,
    pub since: u64,
}

impl View for Policy {
    type V = PolicyView;

    closed spec fn view(&self) -> PolicyView {
        PolicyView { state: self.state, candidate: self.candidate, since: self.since }
    }
}

/// `a - b`, or 0 where `b > a`.
pub open spec fn sat_sub(a: u64, b: u64) -> u64 {
    if a >= b {
        (a - b) as u64
    } else {
        0
    }
}

/// `a + b`, or `u64::MAX` where the sum does not fit.
pub open spec fn sat_add(a: u64, b: u64) -> u64 {
    if a + b <= u64::MAX {
        (a + b) as u64
    } else {
        u64::MAX
    }
}

/// The severity of a state: Normal 0, Warning 1, Critical 2.
pub open spec fn level(s: State) -> int {
    match s {
        State::Normal => 0,
        State::Warning => 1,
        State::Critical => 2,
    }
}

/// The more severe of two states.
pub open spec fn more_severe(a: State, b: State) -> State {
    if level(a) >= level(b) {
        a
    } else {
        b
    }
}

/// MemAvailable falls (bytes per second) at least at the Warning decline rate,
/// below the Warning gate.
pub open spec fn decline_warning(available: u64, slope: u64, c: Config) -> bool {
    sat_mul(slope, 60) >= c.decline_warning_rate && available < c.decline_warning_gate
}

/// MemAvailable falls (bytes per second) at least at the Critical decline rate,
/// below the Critical gate.
pub open spec fn decline_critical(available: u64, slope: u64, c: Config) -> bool {
    sat_mul(slope, 60) >= c.decline_critical_rate && available < c.decline_critical_gate
}

/// The exit rate of a pressure threshold: half its entry rate.
pub open spec fn exit_rate(threshold: PsiRatePpm) -> u64 {
    threshold.0 / 2
}

/// The state that MemAvailable calls for: Critical at or below `critical`,
/// Warning at or below `warning`, Normal from `warning + hysteresis` on, and in
/// between the current state.
pub open spec fn available_target(current: State, available: u64, c: Config) -> State {
    if available <= c.critical {
        State::Critical
    } else if available <= c.warning {
        State::Warning
    } else if available >= sat_add(c.warning, c.hysteresis) {
        State::Normal
    } else {
        current
    }
}

/// The state that the fall of MemAvailable calls for.
pub open spec fn decline_target(available: u64, slope: u64, c: Config) -> State {
    if decline_critical(available, slope, c) {
        State::Critical
    } else if decline_warning(available, slope, c) {
        State::Warning
    } else {
        State::Normal
    }
}

/// The state that the pressure rates (ppm) call for. A stream enters an alert at
/// its threshold and, once in an alert state, holds it down to half that
/// threshold: full pressure holds Critical, either stream holds Warning.
pub open spec fn psi_target(current: State, psi_some: u64, psi_full: u64, c: Config) -> State {
    if psi_full >= c.psi_full_critical.0 || (current == State::Critical && psi_full >= exit_rate(
        c.psi_full_critical,
    )) {
        State::Critical
    } else if psi_some >= c.psi_some_warning.0 || (current != State::Normal && (psi_some
        >= exit_rate(c.psi_some_warning) || psi_full >= exit_rate(c.psi_full_critical))) {
        State::Warning
    } else {
        State::Normal
    }
}

/// The state that one sample calls for, given the current state: the most severe
/// of what MemAvailable, its fall and the pressure call for.
pub open spec fn target(
    current: State,
    available: u64,
    slope: u64,
    psi_some: u64,
    psi_full: u64,
    c: Config,
) -> State {
    more_severe(
        more_severe(available_target(current, available, c), decline_target(available, slope, c)),
        psi_target(current, psi_some, psi_full, c),
    )
}

/// The policy after one sample at clock reading `now`.
pub open spec fn step(
    p: PolicyView,
    available: u64,
    slope: u64,
    psi_some: u64,
    psi_full: u64,
    now: u64,
    c: Config,
) -> PolicyView {
    let t = target(p.state, available, slope, psi_some, psi_full, c);
    let (candidate, since) = if t != p.candidate {
        (t, now)
    } else {
        (p.candidate, p.since)
    };
    let state = if sat_sub(now, since) >= c.dwell {
        t
    } else {
        p.state
    };
    PolicyView { state, candidate, since }
}

fn times_60(slope: u64) -> (r: u64)
    ensures
        r == sat_mul(slope, 60),
{
    if slope > u64::MAX / 60 {
        u64::MAX
    } else {
        slope * 60
    }
}

/// The state that one sample calls for, given the current state.
pub fn target_of(
    current: State,
    available: u64,
    slope: u64,
    psi_some: u64,
    psi_full: u64,
    c: Config,
) -> (t: State)
    ensures
        t == target(current, available, slope, psi_some, psi_full, c),
{
    let per_min = times_60(slope);
    let memory = if available <= c.critical {
        State::Critical
    } else if available <= c.warning {
        State::Warning
    } else if available >= c.warning.saturating_add(c.hysteresis) {
        State::Normal
    } else {
        current
    };
    let decline = if per_min >= c.decline_critical_rate && available < c.decline_critical_gate {
        State::Critical
    } else if per_min >= c.decline_warning_rate && available < c.decline_warning_gate {
        State::Warning
    } else {
        State::Normal
    };
    let some_exit = c.psi_some_warning.0 / 2;
    let full_exit = c.psi_full_critical.0 / 2;
    let pressure = if psi_full >= c.psi_full_critical.0 || (current == State::Critical && psi_full
        >= full_exit) {
        State::Critical
    } else if psi_some >= c.psi_some_warning.0 || (current != State::Normal && (psi_some
        >= some_exit || psi_full >= full_exit)) {
        State::Warning
    } else {
        State::Normal
    };
    match (memory, decline, pressure) {
        (State::Critical, _, _) | (_, State::Critical, _) | (_, _, State::Critical) => State::Critical,
        (State::Warning, _, _) | (_, State::Warning, _) | (_, _, State::Warning) => State::Warning,
        _ => State::Normal,
    }
}

impl Policy {
    pub fn new() -> (p: Self)
        ensures
            p@ == (PolicyView { state: State::Normal, candidate: State::Normal, since: 0 }),
    {
        Self { state: State::Normal, candidate: State::Normal, since: 0 }
    }

    /// Feeds one sample, taken at clock reading `now` (seconds): MemAvailable
    /// (bytes), its fall (bytes per second) and the pressure rates (ppm).
    /// Returns the state after it.
    pub fn update(
        &mut self,
        available: u64,
        slope: u64,
        psi_some: u64,
        psi_full: u64,
        now: u64,
        c: Config,
    ) -> (r: State)
        ensures
            final(self)@ == step(old(self)@, available, slope, psi_some, psi_full, now, c),
            r == final(self)@.state,
    {
        let target = target_of(self.state, available, slope, psi_some, psi_full, c);
        if target != self.candidate {
            self.candidate = target;
            self.since = now;
        }
        if target == self.candidate && now.saturating_sub(self.since) >= c.dwell {
            self.state = target;
        }
        self.state
    }

    pub fn state(&self) -> (r: State)
        ensures
            r == self@.state,
    {
        self.state
    }

    /// The state that the latest sample asked for.
    pub fn candidate(&self) -> (r: State)
        ensures
            r == self@.candidate,
    {
        self.candidate
    }
}

/// After a sample the state is either unchanged or the state that this sample calls for.
pub proof fn law_state_moves_only_to_target(
    p: PolicyView,
    available: u64,
    slope: u64,
    psi_some_rate: u64,
    psi_full_rate: u64,
    now: u64,
    c: Config,
)
    ensures
        ({
            let q = step(p, available, slope, psi_some_rate, psi_full_rate, now, c);
            q.state == p.state || q.state == target(
                p.state,
                available,
                slope,
                psi_some_rate,
                psi_full_rate,
                c,
            )
        }),
{
}

/// The state changes only to the pending candidate, and only once that candidate
/// has been asked for during at least the dwell time.
pub proof fn law_change_only_after_dwell(
    p: PolicyView,
    available: u64,
    slope: u64,
    psi_some_rate: u64,
    psi_full_rate: u64,
    now: u64,
    c: Config,
)
    ensures
        ({
            let q = step(p, available, slope, psi_some_rate, psi_full_rate, now, c);
            q.state != p.state ==> q.state == q.candidate && sat_sub(now, q.since) >= c.dwell
        }),
{
}

/// A state that a sample asks for for the first time is not entered on that
/// sample, unless the dwell time is zero.
pub proof fn law_new_target_waits(
    p: PolicyView,
    available: u64,
    slope: u64,
    psi_some_rate: u64,
    psi_full_rate: u64,
    now: u64,
    c: Config,
)
    requires
        c.dwell > 0,
        target(p.state, available, slope, psi_some_rate, psi_full_rate, c) != p.candidate,
    ensures
        step(p, available, slope, psi_some_rate, psi_full_rate, now, c).state == p.state,
{
}

/// A target asked for by two samples at least the dwell time apart, and by no
/// other state in between, is entered on the second.
pub proof fn law_sustained_target_entered(
    p: PolicyView,
    a0: u64,
    slope0: u64,
    some0: u64,
    full0: u64,
    t0: u64,
    a1: u64,
    slope1: u64,
    some1: u64,
    full1: u64,
    t1: u64,
    c: Config,
)
    requires
        p.since <= t0,
        t0 <= t1,
        t1 - t0 >= c.dwell,
        target(step(p, a0, slope0, some0, full0, t0, c).state, a1, slope1, some1, full1, c)
            == target(p.state, a0, slope0, some0, full0, c),
    ensures
        ({
            let q = step(p, a0, slope0, some0, full0, t0, c);
            step(q, a1, slope1, some1, full1, t1, c).state == target(
                p.state,
                a0,
                slope0,
                some0,
                full0,
                c,
            )
        }),
{
}

/// In the hysteresis band of MemAvailable, with no decline and no pressure
/// stream at its entry threshold, the state does not change.
pub proof fn law_hysteresis_band_keeps_state(
    p: PolicyView,
    available: u64,
    slope: u64,
    psi_some: u64,
    psi_full: u64,
    now: u64,
    c: Config,
)
    requires
        c.critical < available,
        c.warning < available,
        available < sat_add(c.warning, c.hysteresis),
        !decline_warning(available, slope, c),
        !decline_critical(available, slope, c),
        psi_some < c.psi_some_warning.0,
        psi_full < c.psi_full_critical.0,
    ensures
        target(p.state, available, slope, psi_some, psi_full, c) == p.state,
        step(p, available, slope, psi_some, psi_full, now, c).state == p.state,
{
}

/// Leaving an alert state for Normal needs MemAvailable at least the warning
/// threshold plus the hysteresis, no decline trigger, and both pressure streams
/// below half their thresholds.
pub proof fn law_recovery_needs_margin(
    p: PolicyView,
    available: u64,
    slope: u64,
    psi_some: u64,
    psi_full: u64,
    now: u64,
    c: Config,
)
    requires
        p.state != State::Normal,
        step(p, available, slope, psi_some, psi_full, now, c).state == State::Normal,
    ensures
        available >= sat_add(c.warning, c.hysteresis),
        available > c.warning,
        available > c.critical,
        !decline_warning(available, slope, c),
        !decline_critical(available, slope, c),
        psi_some < exit_rate(c.psi_some_warning),
        psi_full < exit_rate(c.psi_full_critical),
{
}

/// Pressure exit hysteresis: in an alert state, a pressure stream at or above half
/// its threshold keeps the state from returning to Normal, and full pressure at or
/// above half its threshold keeps Critical.
pub proof fn law_psi_exit_hysteresis(
    p: PolicyView,
    available: u64,
    slope: u64,
    psi_some: u64,
    psi_full: u64,
    now: u64,
    c: Config,
)
    requires
        p.state != State::Normal,
        psi_some >= exit_rate(c.psi_some_warning) || psi_full >= exit_rate(c.psi_full_critical),
    ensures
        target(p.state, available, slope, psi_some, psi_full, c) != State::Normal,
        step(p, available, slope, psi_some, psi_full, now, c).state != State::Normal,
        p.state == State::Critical && psi_full >= exit_rate(c.psi_full_critical) ==> target(
            p.state,
            available,
            slope,
            psi_some,
            psi_full,
            c,
        ) == State::Critical,
{
}

/// More pressure never calls for a less severe state.
pub proof fn law_more_pressure_never_milder(
    current: State,
    available: u64,
    slope: u64,
    psi_some: u64,
    psi_full: u64,
    more_some: u64,
    more_full: u64,
    c: Config,
)
    requires
        psi_some <= more_some,
        psi_full <= more_full,
    ensures
        level(target(current, available, slope, psi_some, psi_full, c)) <= level(
            target(current, available, slope, more_some, more_full, c),
        ),
{
}

/// A faster fall of MemAvailable never calls for a less severe state.
pub proof fn law_faster_fall_never_milder(
    current: State,
    available: u64,
    slope: u64,
    faster: u64,
    psi_some: u64,
    psi_full: u64,
    c: Config,
)
    requires
        slope <= faster,
    ensures
        level(target(current, available, slope, psi_some, psi_full, c)) <= level(
            target(current, available, faster, psi_some, psi_full, c),
        ),
{
}

/// Each trigger at its threshold calls for its state, whatever the other figures
/// and the current state: MemAvailable at or below `critical`, full pressure at
/// or above its threshold, or a fall (bytes per minute) at or above the Critical
/// rate below the Critical gate give Critical; MemAvailable at or below `warning`,
/// `some` pressure at or above its threshold, or a fall at or above the Warning
/// rate below the Warning gate give at least Warning.
pub proof fn law_triggers_call_for_their_state(
    current: State,
    available: u64,
    slope: u64,
    psi_some: u64,
    psi_full: u64,
    c: Config,
)
    ensures
        available <= c.critical ==> target(current, available, slope, psi_some, psi_full, c)
            == State::Critical,
        psi_full >= c.psi_full_critical.0 ==> target(
            current,
            available,
            slope,
            psi_some,
            psi_full,
            c,
        ) == State::Critical,
        slope * 60 >= c.decline_critical_rate && available < c.decline_critical_gate ==> target(
            current,
            available,
            slope,
            psi_some,
            psi_full,
            c,
        ) == State::Critical,
        available <= c.warning ==> target(current, available, slope, psi_some, psi_full, c)
            != State::Normal,
        psi_some >= c.psi_some_warning.0 ==> target(
            current,
            available,
            slope,
            psi_some,
            psi_full,
            c,
        ) != State::Normal,
        slope * 60 >= c.decline_warning_rate && available < c.decline_warning_gate ==> target(
            current,
            available,
            slope,
            psi_some,
            psi_full,
            c,
        ) != State::Normal,
        available >= c.warning + c.hysteresis && available > c.warning && available > c.critical
            && slope * 60 < c.decline_warning_rate && slope * 60 < c.decline_critical_rate
            && psi_some < c.psi_some_warning.0 / 2 && psi_full < c.psi_full_critical.0 / 2
            ==> target(current, available, slope, psi_some, psi_full, c) == State::Normal,
{
}

/// One sample fed to `Policy::update`.
pub ghost struct Sample {
    pub available: u64,
    pub slope: u64,
    pub psi_some_rate: u64,
    pub psi_full_rate: u64,
    pub now: u64,
}

/// The policy as `Policy::new` makes it.
pub open spec fn initial() -> PolicyView {
    PolicyView { state: State::Normal, candidate: State::Normal, since: 0 }
}

/// The policy after feeding the samples in order.
pub open spec fn run(p: PolicyView, xs: Seq<Sample>, c: Config) -> PolicyView
    decreases xs.len(),
{
    if xs.len() == 0 {
        p
    } else {
        let q = run(p, xs.drop_last(), c);
        let x = xs.last();
        step(q, x.available, x.slope, x.psi_some_rate, x.psi_full_rate, x.now, c)
    }
}

/// The target that the `j`-th sample calls for, in the state the earlier samples left.
pub open spec fn target_at(p: PolicyView, xs: Seq<Sample>, c: Config, j: int) -> State {
    let q = run(p, xs.take(j), c);
    let x = xs[j];
    target(q.state, x.available, x.slope, x.psi_some_rate, x.psi_full_rate, c)
}

proof fn lemma_run_take_step(p: PolicyView, xs: Seq<Sample>, c: Config, m: int)
    requires
        0 <= m < xs.len(),
    ensures
        run(p, xs.take(m + 1), c) == step(
            run(p, xs.take(m), c),
            xs[m].available,
            xs[m].slope,
            xs[m].psi_some_rate,
            xs[m].psi_full_rate,
            xs[m].now,
            c,
        ),
{
    assert(xs.take(m + 1).drop_last() =~= xs.take(m));
    assert(xs.take(m + 1).last() == xs[m]);
}

/// Within a run of samples that all call for `t`, starting at sample `k`, the
/// candidate is `t` and its clock reading is that of sample `k` (or 0, where the
/// run starts with the first sample and asks for Normal, which a new policy
/// already has as its candidate).
proof fn lemma_candidate_over_run(xs: Seq<Sample>, c: Config, k: int, t: State, m: int)
    requires
        0 <= k < m <= xs.len(),
        forall|j: int| k <= j < m ==> #[trigger] target_at(initial(), xs, c, j) == t,
        k == 0 || target_at(initial(), xs, c, k - 1) != t,
    ensures
        run(initial(), xs.take(m), c).candidate == t,
        run(initial(), xs.take(m), c).since == (if k == 0 && t == State::Normal {
            0
        } else {
            xs[k].now
        }),
    decreases m - k,
{
    lemma_run_take_step(initial(), xs, c, m - 1);
    if m == k + 1 {
        assert(target_at(initial(), xs, c, k) == t);
        if k == 0 {
            assert(xs.take(0) =~= Seq::<Sample>::empty());
        } else {
            lemma_run_take_step(initial(), xs, c, k - 1);
        }
    } else {
        lemma_candidate_over_run(xs, c, k, t, m - 1);
        assert(target_at(initial(), xs, c, m - 1) == t);
    }
}

/// Dwell over a run of updates from a new policy: let the last sample call for
/// `t`, and let sample `k` begin the longest stretch of samples, ending with the
/// last, that all call for `t`. Then the state after the last sample is `t` if
/// at least `dwell` seconds separate it from the start of that stretch (from 0,
/// where the stretch begins with the first sample and `t` is Normal), and
/// otherwise the state before it.
pub proof fn law_dwell_over_run(xs: Seq<Sample>, c: Config, k: int)
    requires
        0 <= k < xs.len(),
        forall|j: int|
            k <= j < xs.len() ==> #[trigger] target_at(initial(), xs, c, j) == target_at(
                initial(),
                xs,
                c,
                xs.len() - 1,
            ),
        k == 0 || target_at(initial(), xs, c, k - 1) != target_at(
            initial(),
            xs,
            c,
            xs.len() - 1,
        ),
    ensures
        ({
            let n = xs.len() as int;
            let t = target_at(initial(), xs, c, n - 1);
            let t0: u64 = if k == 0 && t == State::Normal {
                0
            } else {
                xs[k].now
            };
            let q = run(initial(), xs, c);
            &&& q.candidate == t
            &&& q.since == t0
            &&& q.state == (if sat_sub(xs[n - 1].now, t0) >= c.dwell {
                t
            } else {
                run(initial(), xs.drop_last(), c).state
            })
        }),
{
    let n = xs.len() as int;
    let t = target_at(initial(), xs, c, n - 1);
    lemma_candidate_over_run(xs, c, k, t, n);
    assert(xs.take(n) =~= xs);
    assert(xs.take(n - 1) =~= xs.drop_last());
    lemma_run_take_step(initial(), xs, c, n - 1);
}

} // verus!
