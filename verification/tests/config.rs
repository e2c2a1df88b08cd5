use oom_alerter::config::{parse_memory_size, validate_args, Args};
use oom_alerter::memory::PsiRatePpm;

#[test]
fn parses_binary_sizes_and_bytes() {
    assert_eq!(parse_memory_size("20G"), Ok(20 * 1024_u64.pow(3)));
    assert_eq!(parse_memory_size("20GiB"), Ok(20 * 1024_u64.pow(3)));
    assert_eq!(parse_memory_size("768M"), Ok(768 * 1024_u64.pow(2)));
    assert_eq!(parse_memory_size("3GiB"), Ok(3 * 1024_u64.pow(3)));
    assert_eq!(parse_memory_size("4096"), Ok(4096));
    assert_eq!(parse_memory_size("2mib"), Ok(2 * 1024_u64.pow(2)));
}

#[test]
fn rejects_invalid_or_overflowing_sizes() {
    assert!(parse_memory_size("0").is_err());
    assert!(parse_memory_size("12GB").is_err());
    assert!(parse_memory_size("abc").is_err());
    assert!(parse_memory_size("18446744073709551615G").is_err());
    assert!(parse_memory_size("1.5G").is_err());
}

#[test]
fn size_error_messages() {
    assert_eq!(
        parse_memory_size("abc"),
        Err("expected a positive byte value or binary size such as 768M or 3GiB".to_string())
    );
    assert_eq!(
        parse_memory_size("99999999999999999999"),
        Err("size number is too large".to_string())
    );
    assert_eq!(
        parse_memory_size("12GB"),
        Err("unknown size suffix \"gb\"; use K, M, G, KiB, MiB, or GiB".to_string())
    );
    assert_eq!(
        parse_memory_size("1.5G"),
        Err("unknown size suffix \".5g\"; use K, M, G, KiB, MiB, or GiB".to_string())
    );
    assert_eq!(
        parse_memory_size("0k"),
        Err("size must be greater than zero and fit in an unsigned 64-bit value".to_string())
    );
    assert_eq!(
        parse_memory_size("18446744073709551615G"),
        Err("size must be greater than zero and fit in an unsigned 64-bit value".to_string())
    );
}

#[test]
fn sizes_ignore_case_and_surrounding_space() {
    assert_eq!(parse_memory_size("  3gIb \t"), Ok(3 * 1024_u64.pow(3)));
    assert_eq!(parse_memory_size("3GIB"), parse_memory_size("3gib"));
    assert_eq!(parse_memory_size("1K"), Ok(1024));
    assert_eq!(parse_memory_size("1ki"), Ok(1024));
    assert_eq!(parse_memory_size("1Mi"), Ok(1024 * 1024));
    assert_eq!(parse_memory_size("18446744073709551615"), Ok(u64::MAX));
    assert!(parse_memory_size("").is_err());
    assert!(parse_memory_size("+5").is_err());
    assert!(parse_memory_size("5 G").is_err());
}

fn valid() -> Args {
    Args {
        interval: 1,
        warning: 3 * 1024 * 1024 * 1024,
        critical: 768 * 1024 * 1024,
        hysteresis: 256 * 1024 * 1024,
        dwell: 10,
        psi_some_warning: PsiRatePpm(100_000),
        psi_full_critical: PsiRatePpm(50_000),
        decline_warning: 1024 * 1024 * 1024,
        decline_warning_gate: 6 * 1024 * 1024 * 1024,
        decline_critical: 2 * 1024 * 1024 * 1024,
        decline_critical_gate: 4 * 1024 * 1024 * 1024,
        warning_repeat: 300,
        critical_repeat: 60,
        once: false,
        verbose: false,
    }
}

#[test]
fn cli_validation_checks() {
    let valid_args = valid();
    assert!(validate_args(&valid_args).is_ok());

    // critical >= warning
    let mut bad = valid_args.clone();
    bad.critical = bad.warning;
    assert!(validate_args(&bad).is_err());

    // interval == 0
    let mut bad = valid_args.clone();
    bad.interval = 0;
    assert!(validate_args(&bad).is_err());

    // hysteresis == 0
    let mut bad = valid_args.clone();
    bad.hysteresis = 0;
    assert!(validate_args(&bad).is_err());

    // dwell == 0
    let mut bad = valid_args.clone();
    bad.dwell = 0;
    assert!(validate_args(&bad).is_err());

    // decline rates == 0
    let mut bad = valid_args.clone();
    bad.decline_warning = 0;
    assert!(validate_args(&bad).is_err());
    let mut bad = valid_args.clone();
    bad.decline_critical = 0;
    assert!(validate_args(&bad).is_err());

    // decline_critical <= decline_warning
    let mut bad = valid_args.clone();
    bad.decline_critical = bad.decline_warning;
    assert!(validate_args(&bad).is_err());

    // repeats == 0
    let mut bad = valid_args.clone();
    bad.warning_repeat = 0;
    assert!(validate_args(&bad).is_err());
    let mut bad = valid_args.clone();
    bad.critical_repeat = 0;
    assert!(validate_args(&bad).is_err());

    // warning + hysteresis overflow
    let mut bad = valid_args.clone();
    bad.warning = u64::MAX;
    bad.hysteresis = 1;
    assert!(validate_args(&bad).is_err());

    // decline critical gate > decline warning gate
    let mut bad = valid_args.clone();
    bad.decline_critical_gate = bad.decline_warning_gate + 1;
    assert!(validate_args(&bad).is_err());
}

#[test]
fn validation_messages_name_the_first_rule_broken() {
    let mut bad = valid();
    bad.critical = bad.warning;
    bad.interval = 0;
    assert_eq!(validate_args(&bad), Err("--critical must be less than --warning"));
    let mut bad = valid();
    bad.warning = u64::MAX;
    assert_eq!(
        validate_args(&bad),
        Err("--warning + --hysteresis overflows 64-bit integer")
    );
    let mut bad = valid();
    bad.interval = 0;
    assert_eq!(validate_args(&bad), Err("--interval must be greater than zero"));
    let mut bad = valid();
    bad.dwell = 0;
    assert_eq!(
        validate_args(&bad),
        Err("--hysteresis and --dwell must be greater than zero")
    );
    let mut bad = valid();
    bad.decline_critical = 0;
    assert_eq!(
        validate_args(&bad),
        Err("--decline-warning and --decline-critical must be greater than zero")
    );
    let mut bad = valid();
    bad.decline_critical = 1;
    assert_eq!(
        validate_args(&bad),
        Err("--decline-critical must be greater than --decline-warning")
    );
    let mut bad = valid();
    bad.critical_repeat = 0;
    assert_eq!(
        validate_args(&bad),
        Err("--warning-repeat and --critical-repeat must be greater than zero")
    );
    let mut bad = valid();
    bad.decline_critical_gate = u64::MAX;
    assert_eq!(
        validate_args(&bad),
        Err("--decline-critical-gate must not be greater than --decline-warning-gate")
    );
    let mut ok = valid();
    ok.decline_critical_gate = ok.decline_warning_gate;
    assert_eq!(validate_args(&ok), Ok(()));
}

#[test]
fn settings_give_the_policy_thresholds() {
    let a = valid();
    let c = a.config();
    assert_eq!(c.warning, a.warning);
    assert_eq!(c.critical, a.critical);
    assert_eq!(c.hysteresis, a.hysteresis);
    assert_eq!(c.dwell, a.dwell);
    assert_eq!(c.psi_some_warning, PsiRatePpm(100_000));
    assert_eq!(c.psi_full_critical, PsiRatePpm(50_000));
    assert_eq!(c.decline_warning_rate, a.decline_warning);
    assert_eq!(c.decline_warning_gate, a.decline_warning_gate);
    assert_eq!(c.decline_critical_rate, a.decline_critical);
    assert_eq!(c.decline_critical_gate, a.decline_critical_gate);
}
