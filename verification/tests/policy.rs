use oom_alerter::memory::PsiRatePpm;
use oom_alerter::policy::{Config, Policy, State};

#[test]
fn dwell_and_recover() {
    let c = Config {
        warning: 3,
        critical: 1,
        hysteresis: 1,
        dwell: 2,
        ..Config::default()
    };
    let mut p = Policy::new();
    assert_eq!(p.update(2, 0, 0, 0, 0, c), State::Normal);
    assert_eq!(p.update(2, 0, 0, 0, 2, c), State::Warning);
    assert_eq!(p.update(5, 0, 0, 0, 3, c), State::Warning);
    assert_eq!(p.update(5, 0, 0, 0, 5, c), State::Normal);
}

#[test]
fn explicit_policy_transitions() {
    let c = Config {
        warning: 30,
        critical: 10,
        hysteresis: 5,
        dwell: 2,
        ..Config::default()
    };
    let mut p = Policy::new();
    assert_eq!(p.update(100, 0, 0, 0, 0, c), State::Normal);
    assert_eq!(p.update(20, 0, 0, 0, 1, c), State::Normal);
    assert_eq!(p.update(20, 0, 0, 0, 3, c), State::Warning);
    assert_eq!(p.update(5, 0, 0, 0, 3, c), State::Warning);
    assert_eq!(p.update(5, 0, 0, 0, 5, c), State::Critical);
    assert_eq!(p.update(34, 0, 0, 0, 6, c), State::Critical);
    assert_eq!(p.update(36, 0, 0, 0, 7, c), State::Critical);
    assert_eq!(p.update(36, 0, 0, 0, 8, c), State::Critical);
    assert_eq!(p.update(36, 0, 0, 0, 9, c), State::Normal);
}

const MIB: u64 = 1024 * 1024;
const GIB: u64 = 1024 * MIB;

fn config() -> Config {
    Config {
        warning: 30,
        critical: 10,
        hysteresis: 5,
        dwell: 2,
        ..Config::default()
    }
}

#[test]
fn defaults_are_the_documented_ones() {
    let c = Config::default();
    assert_eq!(c.warning, 3 * GIB);
    assert_eq!(c.critical, 768 * MIB);
    assert_eq!(c.hysteresis, 256 * MIB);
    assert_eq!(c.dwell, 10);
    assert_eq!(c.psi_some_warning, PsiRatePpm(100_000));
    assert_eq!(c.psi_full_critical, PsiRatePpm(50_000));
    assert_eq!(c.decline_warning_rate, GIB);
    assert_eq!(c.decline_warning_gate, 6 * GIB);
    assert_eq!(c.decline_critical_rate, 2 * GIB);
    assert_eq!(c.decline_critical_gate, 4 * GIB);
}

#[test]
fn new_policy_is_normal() {
    let p = Policy::new();
    assert_eq!(p.state(), State::Normal);
    assert_eq!(p.candidate(), State::Normal);
}

#[test]
fn state_and_candidate_report_last_update() {
    let mut p = Policy::new();
    let s = p.update(5, 0, 0, 0, 0, config());
    assert_eq!(s, State::Normal);
    assert_eq!(p.state(), State::Normal);
    assert_eq!(p.candidate(), State::Critical);
}

#[test]
fn zero_dwell_follows_target_at_once() {
    let c = Config { dwell: 0, ..config() };
    let mut p = Policy::new();
    assert_eq!(p.update(20, 0, 0, 0, 0, c), State::Warning);
    assert_eq!(p.update(40, 0, 0, 0, 0, c), State::Normal);
}

#[test]
fn new_target_waits_for_dwell() {
    let c = config();
    let mut p = Policy::new();
    assert_eq!(p.update(5, 0, 0, 0, 10, c), State::Normal);
    assert_eq!(p.update(5, 0, 0, 0, 11, c), State::Normal);
    assert_eq!(p.update(5, 0, 0, 0, 12, c), State::Critical);
}

#[test]
fn interrupted_target_restarts_dwell() {
    let c = config();
    let mut p = Policy::new();
    assert_eq!(p.update(20, 0, 0, 0, 0, c), State::Normal);
    // back to Normal figures: the Warning candidate is dropped
    assert_eq!(p.update(50, 0, 0, 0, 1, c), State::Normal);
    assert_eq!(p.update(20, 0, 0, 0, 2, c), State::Normal);
    assert_eq!(p.update(20, 0, 0, 0, 3, c), State::Normal);
    assert_eq!(p.update(20, 0, 0, 0, 4, c), State::Warning);
}

#[test]
fn hysteresis_band_keeps_state() {
    let c = Config { dwell: 0, ..config() };
    let mut p = Policy::new();
    assert_eq!(p.update(32, 0, 0, 0, 0, c), State::Normal);
    assert_eq!(p.update(25, 0, 0, 0, 1, c), State::Warning);
    assert_eq!(p.update(32, 0, 0, 0, 2, c), State::Warning);
    assert_eq!(p.update(34, 0, 0, 0, 3, c), State::Warning);
    assert_eq!(p.update(35, 0, 0, 0, 4, c), State::Normal);
}

#[test]
fn pressure_triggers_use_configured_thresholds() {
    let c = Config { dwell: 0, ..config() };
    // full pressure at its threshold (5%) asks for Critical
    let mut p = Policy::new();
    assert_eq!(p.update(100, 0, 0, 50_000, 0, c), State::Critical);
    // some pressure at its threshold (10%) asks for Warning
    let mut p = Policy::new();
    assert_eq!(p.update(100, 0, 99_999, 49_999, 0, c), State::Normal);
    assert_eq!(p.update(100, 0, 100_000, 0, 1, c), State::Warning);
}

#[test]
fn decline_triggers_are_gated() {
    let c = Config::default();
    let mut p = Policy::new();
    let c0 = Config { dwell: 0, ..c };
    // 1.1 GiB/min with 5 GiB available: below the 6 GiB gate, Warning
    let fall = GIB * 11 / 10 / 60 + 1;
    assert_eq!(p.update(5 * GIB, fall, 0, 0, 0, c0), State::Warning);
    // the same fall with 7 GiB available: above both gates, Normal
    let mut p = Policy::new();
    assert_eq!(p.update(7 * GIB, fall, 0, 0, 0, c0), State::Normal);
    // 2 GiB/min below the 4 GiB gate: Critical
    let mut p = Policy::new();
    assert_eq!(p.update(3 * GIB + 512 * MIB, 2 * GIB / 60 + 1, 0, 0, 0, c0), State::Critical);
    // 2 GiB/min between the gates: only Warning
    let mut p = Policy::new();
    assert_eq!(p.update(5 * GIB, 2 * GIB / 60 + 1, 0, 0, 0, c0), State::Warning);
}

#[test]
fn psi_exit_hysteresis_holds_warning() {
    let c = config();
    let mut p = Policy::new();
    assert_eq!(p.update(100, 0, 200_000, 0, 0, c), State::Normal);
    assert_eq!(p.update(100, 0, 200_000, 0, 2, c), State::Warning);
    // still at or above half the threshold: Warning holds however long
    assert_eq!(p.update(100, 0, 60_000, 0, 3, c), State::Warning);
    assert_eq!(p.update(100, 0, 50_000, 0, 10, c), State::Warning);
    // below half: Normal once the dwell has passed
    assert_eq!(p.update(100, 0, 49_999, 0, 11, c), State::Warning);
    assert_eq!(p.update(100, 0, 49_999, 0, 13, c), State::Normal);
    // half the threshold does not enter an alert from Normal
    assert_eq!(p.update(100, 0, 60_000, 30_000, 20, c), State::Normal);
    assert_eq!(p.update(100, 0, 60_000, 30_000, 30, c), State::Normal);
}

#[test]
fn psi_full_exit_hysteresis_holds_critical() {
    let c = Config { dwell: 0, ..config() };
    let mut p = Policy::new();
    assert_eq!(p.update(100, 0, 0, 50_000, 0, c), State::Critical);
    assert_eq!(p.update(100, 0, 0, 25_000, 1, c), State::Critical);
    // full pressure gone, some still above half: down to Warning only
    assert_eq!(p.update(100, 0, 70_000, 0, 2, c), State::Warning);
    // full at half no longer raises Warning to Critical, but holds Warning
    assert_eq!(p.update(100, 0, 0, 30_000, 3, c), State::Warning);
    assert_eq!(p.update(100, 0, 0, 0, 4, c), State::Normal);
}

#[test]
fn band_keeps_critical_whatever_the_pressure() {
    let c = Config { dwell: 0, ..config() };
    let mut p = Policy::new();
    assert_eq!(p.update(5, 0, 0, 0, 0, c), State::Critical);
    assert_eq!(p.update(32, 0, 60_000, 0, 1, c), State::Critical);
    assert_eq!(p.update(32, 0, 0, 0, 2, c), State::Critical);
    assert_eq!(p.update(32, 0, 150_000, 0, 3, c), State::Critical);
}

#[test]
fn recovery_margin_saturates() {
    let c = Config {
        warning: u64::MAX - 1,
        critical: 10,
        hysteresis: 5,
        dwell: 0,
        ..Config::default()
    };
    let mut p = Policy::new();
    assert_eq!(p.update(20, 0, 0, 0, 0, c), State::Warning);
    assert_eq!(p.update(u64::MAX, 0, 0, 0, 1, c), State::Normal);
}

#[test]
fn clock_going_back_does_not_count_as_dwell() {
    let c = config();
    let mut p = Policy::new();
    assert_eq!(p.update(20, 0, 0, 0, 100, c), State::Normal);
    assert_eq!(p.update(20, 0, 0, 0, 50, c), State::Normal);
    assert_eq!(p.update(20, 0, 0, 0, 102, c), State::Warning);
}

#[test]
fn dwell_counts_from_start_of_stretch() {
    let c = config();
    let mut p = Policy::new();
    // Normal from the start: the stretch begins at 0
    assert_eq!(p.update(100, 0, 0, 0, 7, c), State::Normal);
    // a stretch asking for Warning starts at 8
    assert_eq!(p.update(20, 0, 0, 0, 8, c), State::Normal);
    assert_eq!(p.update(20, 0, 0, 0, 9, c), State::Normal);
    assert_eq!(p.update(20, 0, 0, 0, 10, c), State::Warning);
    // a stretch asking for Critical starts at 11
    assert_eq!(p.update(5, 0, 0, 0, 11, c), State::Warning);
    assert_eq!(p.update(5, 0, 0, 0, 12, c), State::Warning);
    assert_eq!(p.update(5, 0, 0, 0, 13, c), State::Critical);
}
