use oom_alerter::clock::Elapsed;
use oom_alerter::memory::{calculate_psi_rate_ppm, parse_meminfo, parse_psi, psi_delta, read, MeminfoError, Psi, PsiRatePpm};
use oom_alerter::text::parse_u64;
use std::io::ErrorKind;

#[test]
fn kib_is_bytes() {
    assert_eq!(parse_u64("3").unwrap() * 1024, 3072);
}

#[test]
fn psi_counter_reset_and_long_gap_are_ignored() {
    let a = Psi {
        avg10: 0,
        avg60: 0,
        avg300: 0,
        total_us: 100,
    };
    let b = Psi { total_us: 50, ..a };
    assert_eq!(psi_delta(Some(a), Some(b), 1), None);
    assert_eq!(psi_delta(Some(a), Some(a), 301), None);
}

#[test]
fn psi_streams_delta_independently_when_other_stream_is_missing() {
    let previous = Psi {
        avg10: 0,
        avg60: 0,
        avg300: 0,
        total_us: 100,
    };
    let current = Psi {
        total_us: 250,
        ..previous
    };

    assert_eq!(psi_delta(Some(previous), Some(current), 1), Some(150_000));
    assert_eq!(psi_delta(None, None, 1), None);
    assert_eq!(psi_delta(None, Some(current), 1), None);
}

#[test]
fn required_meminfo_fields_are_strict() {
    let text = "MemTotal: 10 kB\nMemAvailable: 5 kB\nSwapTotal: 0 kB\nSwapFree: 0 kB\n";
    assert_eq!(parse_meminfo(text).unwrap().0, 5120);
    assert_eq!(
        parse_meminfo("MemTotal: nope kB\n").unwrap_err().kind(),
        ErrorKind::InvalidData
    );
    assert!(parse_meminfo("MemAvailable: 5 kB\n").is_err());
    assert!(parse_meminfo(
        "MemTotal: 10 kB extra\nMemAvailable: 5 kB\nSwapTotal: 0 kB\nSwapFree: 0 kB\n"
    )
    .is_err());
    assert!(parse_meminfo("MemTotal: 10 kB\nMemTotal: 10 kB\nMemAvailable: 5 kB\nSwapTotal: 0 kB\nSwapFree: 0 kB\n").is_err());
}

const FULL: &str = "MemTotal:       16303480 kB\nMemFree:          531520 kB\nMemAvailable:    6143364 kB\nBuffers:          264660 kB\nSwapCached:         1024 kB\nSwapTotal:       8388604 kB\nSwapFree:        8200000 kB\nHugePages_Total:       0\n";

#[test]
fn meminfo_reads_all_four_fields_in_bytes() {
    assert_eq!(
        parse_meminfo(FULL),
        Ok((6143364 * 1024, 16303480 * 1024, 8388604 * 1024, 8200000 * 1024))
    );
}

#[test]
fn meminfo_accepts_crlf_tabs_and_plus_sign() {
    let text = "MemTotal:\t+10 kB\r\nMemAvailable: 5   kB\r\n\r\nSwapTotal: 0 kB\nSwapFree: 1 kB";
    assert_eq!(parse_meminfo(text), Ok((5120, 10240, 0, 1024)));
}

#[test]
fn meminfo_error_variants() {
    // malformed: a known field without its unit
    assert_eq!(
        parse_meminfo("MemTotal: 10\n"),
        Err(MeminfoError::MalformedField)
    );
    // malformed: value that overflows once in bytes
    assert_eq!(
        parse_meminfo("MemTotal: 18014398509481984 kB\n"),
        Err(MeminfoError::MalformedField)
    );
    // missing: zero MemAvailable
    assert_eq!(
        parse_meminfo("MemTotal: 10 kB\nMemAvailable: 0 kB\nSwapTotal: 0 kB\nSwapFree: 0 kB\n"),
        Err(MeminfoError::MissingFields)
    );
    assert_eq!(parse_meminfo(""), Err(MeminfoError::MissingFields));
    assert_eq!(
        MeminfoError::MalformedField.message(),
        "malformed meminfo field"
    );
    assert_eq!(
        MeminfoError::MissingFields.message(),
        "missing required memory fields"
    );
    assert_eq!(MeminfoError::MissingFields.kind(), ErrorKind::InvalidData);
}

const PRESSURE: &str = "some avg10=0.12 avg60=3 avg300=0.00 total=123456\nfull avg10=0.00 avg60=0.00 avg300=0.00 total=7890\n";

#[test]
fn psi_parses_both_streams() {
    let (some, full) = parse_psi(PRESSURE);
    assert_eq!(
        some,
        Some(Psi {
            avg10: 0,
            avg60: 3,
            avg300: 0,
            total_us: 123456
        })
    );
    assert_eq!(
        full,
        Some(Psi {
            avg10: 0,
            avg60: 0,
            avg300: 0,
            total_us: 7890
        })
    );
}

#[test]
fn psi_without_total_or_unknown_kind_is_ignored() {
    let (some, full) = parse_psi("some avg10=1 avg60=2 avg300=3\nother total=5\nfull total=x total=9\n");
    assert_eq!(some, None);
    assert_eq!(
        full,
        Some(Psi {
            avg10: 0,
            avg60: 0,
            avg300: 0,
            total_us: 9
        })
    );
    assert_eq!(parse_psi(""), (None, None));
}

#[test]
fn psi_delta_scales_and_saturates() {
    let a = Psi {
        avg10: 0,
        avg60: 0,
        avg300: 0,
        total_us: 0,
    };
    let b = Psi { total_us: 3_000, ..a };
    assert_eq!(psi_delta(Some(a), Some(b), 2), Some(1_500_000));
    assert_eq!(psi_delta(Some(a), Some(b), 300), Some(10_000));
    assert_eq!(psi_delta(Some(a), Some(b), 0), None);
    let huge = Psi { total_us: u64::MAX, ..a };
    assert_eq!(psi_delta(Some(a), Some(huge), 1), Some(u64::MAX));
}

#[test]
fn read_combines_meminfo_and_pressure() {
    let s = read(FULL, Some(PRESSURE)).unwrap();
    assert_eq!(s.available, 6143364 * 1024);
    assert_eq!(s.total, 16303480 * 1024);
    assert_eq!(s.swap_total, 8388604 * 1024);
    assert_eq!(s.swap_free, 8200000 * 1024);
    assert_eq!(s.psi_some.unwrap().total_us, 123456);
    assert_eq!(s.psi_full.unwrap().total_us, 7890);
    let s = read(FULL, None).unwrap();
    assert_eq!(s.psi_some, None);
    assert_eq!(s.psi_full, None);
    assert!(matches!(read("", Some(PRESSURE)), Err(MeminfoError::MissingFields)));
}

#[test]
fn rate_renders_one_decimal() {
    assert_eq!(PsiRatePpm(100_000).to_string(), "10.0%");
    assert_eq!(PsiRatePpm(40_000).to_string(), "4.0%");
    assert_eq!(PsiRatePpm(124_449).to_string(), "12.4%");
    assert_eq!(PsiRatePpm(124_500).to_string(), "12.5%");
    assert_eq!(PsiRatePpm(0).to_string(), "0.0%");
    assert_eq!(PsiRatePpm(1_000_000).to_string(), "100.0%");
}

#[test]
fn unsigned_parse_follows_std() {
    for s in ["0", "+7", "18446744073709551615", "007"] {
        assert_eq!(parse_u64(s), s.parse::<u64>().ok());
    }
    for s in ["", "+", "-1", "18446744073709551616", "1 ", "0.5", "x"] {
        assert_eq!(parse_u64(s), None);
    }
}

#[test]
fn psi_rate_in_ppm() {
    let a = Psi {
        avg10: 0,
        avg60: 0,
        avg300: 0,
        total_us: 1_000,
    };
    // 100 ms stalled in one second: 10%
    let b = Psi { total_us: 101_000, ..a };
    assert_eq!(
        calculate_psi_rate_ppm(Some(a), Some(b), Elapsed::from_secs(1)),
        Some(PsiRatePpm(100_000))
    );
    // the same over half a second: 20%
    assert_eq!(
        calculate_psi_rate_ppm(Some(a), Some(b), Elapsed::from_millis(500)),
        Some(PsiRatePpm(200_000))
    );
    // agrees with psi_delta over whole seconds
    assert_eq!(psi_delta(Some(a), Some(b), 2), Some(50_000_000));
    assert_eq!(
        calculate_psi_rate_ppm(Some(a), Some(b), Elapsed::from_secs(2)),
        Some(PsiRatePpm(50_000_000 / 1000))
    );
    assert_eq!(calculate_psi_rate_ppm(Some(b), Some(a), Elapsed::from_secs(1)), None);
    assert_eq!(calculate_psi_rate_ppm(Some(a), Some(b), Elapsed::zero()), None);
    assert_eq!(calculate_psi_rate_ppm(Some(a), Some(b), Elapsed::from_secs(301)), None);
    assert_eq!(calculate_psi_rate_ppm(None, Some(b), Elapsed::from_secs(1)), None);
}
