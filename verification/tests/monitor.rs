use oom_alerter::clock::Timestamp;
use oom_alerter::memory::{Psi, PsiRatePpm, Snapshot};
use oom_alerter::monitor::Monitor;
use oom_alerter::policy::{Config, State};
use oom_alerter::report::TriggerReason;

const MIB: u64 = 1024 * 1024;
const GIB: u64 = 1024 * MIB;

fn sample(available: u64, some_us: u64, full_us: u64) -> Snapshot {
    Snapshot {
        available,
        total: 16 * GIB,
        swap_total: 0,
        swap_free: 0,
        psi_some: Some(Psi {
            avg10: 0,
            avg60: 0,
            avg300: 0,
            total_us: some_us,
        }),
        psi_full: Some(Psi {
            avg10: 0,
            avg60: 0,
            avg300: 0,
            total_us: full_us,
        }),
    }
}

fn at(secs: u64) -> Timestamp {
    Timestamp::from_nanos(secs as u128 * 1_000_000_000)
}

#[test]
fn first_sample_has_no_rates() {
    let mut m = Monitor::new();
    let o = m.observe(&sample(8 * GIB, 0, 0), at(0), Config::default(), 300, 60);
    assert_eq!(o.previous_state, State::Normal);
    assert_eq!(o.state, State::Normal);
    assert_eq!(o.slope, 0);
    assert_eq!(o.psi_some, None);
    assert_eq!(o.psi_full, None);
    assert!(o.reasons.is_empty());
    assert!(!o.notify);
}

#[test]
fn pressure_episode_notifies_reminds_and_clears() {
    let c = Config { dwell: 2, ..Config::default() };
    let mut m = Monitor::new();
    m.observe(&sample(8 * GIB, 0, 0), at(0), c, 300, 60);
    // 20% some pressure
    let o = m.observe(&sample(8 * GIB, 200_000, 0), at(1), c, 300, 60);
    assert_eq!(o.psi_some, Some(PsiRatePpm(200_000)));
    assert_eq!(o.candidate, State::Warning);
    assert_eq!(o.state, State::Normal);
    assert_eq!(
        o.reasons,
        vec![TriggerReason::PsiSome {
            rate: PsiRatePpm(200_000),
            threshold: PsiRatePpm(100_000)
        }]
    );
    assert!(!o.notify);
    let o = m.observe(&sample(8 * GIB, 400_000, 0), at(3), c, 300, 60);
    assert_eq!(o.state, State::Warning);
    assert!(o.notify);
    m.delivered(at(3));
    // reminder not due yet
    let o = m.observe(&sample(8 * GIB, 600_000, 0), at(4), c, 300, 60);
    assert_eq!(o.state, State::Warning);
    assert!(!o.notify);
    // pressure gone: back to Normal after dwell
    m.observe(&sample(8 * GIB, 600_000, 0), at(5), c, 300, 60);
    let o = m.observe(&sample(8 * GIB, 600_000, 0), at(7), c, 300, 60);
    assert_eq!(o.state, State::Normal);
    assert!(!o.notify);
    // a new episode notifies at once
    m.observe(&sample(8 * GIB, 800_000, 0), at(8), c, 300, 60);
    let o = m.observe(&sample(8 * GIB, 1_000_000, 0), at(10), c, 300, 60);
    assert_eq!(o.state, State::Warning);
    assert!(o.notify);
}

#[test]
fn falling_memory_gives_slope_and_decline() {
    let c = Config { dwell: 0, ..Config::default() };
    let mut m = Monitor::new();
    m.observe(&sample(5 * GIB, 0, 0), at(0), c, 300, 60);
    let o = m.observe(&sample(5 * GIB - 40 * MIB, 0, 0), at(2), c, 300, 60);
    assert_eq!(o.slope, 20 * MIB);
    assert_eq!(o.state, State::Warning);
    assert_eq!(m.state(), State::Warning);
    assert!(o.notify);
}
