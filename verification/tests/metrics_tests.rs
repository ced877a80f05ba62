use deepfilter_audio::metrics::{
    check_nnapi_available, parse_cpu_times, set_nnapi_registered, CpuReading, CpuTimes, CpuTracker,
    NnapiStatus,
};

#[test]
fn nnapi_status_reads_back_what_was_set() {
    let mut status = NnapiStatus::new();
    assert!(!check_nnapi_available(&status));
    set_nnapi_registered(&mut status, true);
    assert!(check_nnapi_available(&status));
    set_nnapi_registered(&mut status, false);
    assert!(!check_nnapi_available(&status));
}

#[test]
fn reads_the_aggregate_cpu_line() {
    let stat = "cpu  100 20 30 400 5 6 7 0 0 0\ncpu0 50 10 15 200 2 3 4 0 0 0\nintr 1\n";
    let t = parse_cpu_times(stat).unwrap();
    assert_eq!(
        t,
        CpuTimes { user: 100, nice: 20, system: 30, idle: 400, iowait: 5, irq: 6, softirq: 7 }
    );
    assert_eq!(t.totals(), (568, 405));
}

#[test]
fn missing_and_unreadable_fields_count_as_zero() {
    let t = parse_cpu_times("cpu 1 2 3 4").unwrap();
    assert_eq!(t, CpuTimes { user: 1, nice: 2, system: 3, idle: 4, iowait: 0, irq: 0, softirq: 0 });
    let t = parse_cpu_times("cpu 1 x 3 4 y").unwrap();
    assert_eq!(t, CpuTimes { user: 1, nice: 0, system: 3, idle: 4, iowait: 0, irq: 0, softirq: 0 });
}

#[test]
fn refuses_lines_that_are_not_the_cpu_line() {
    assert_eq!(parse_cpu_times(""), None);
    assert_eq!(parse_cpu_times("cpu 1 2 3"), None);
    assert_eq!(parse_cpu_times("cpu0 1 2 3 4 5"), None);
    assert_eq!(parse_cpu_times("\ncpu 1 2 3 4"), None);
}

#[test]
fn tabs_carriage_returns_and_unicode_spaces_separate_fields() {
    let t = parse_cpu_times("  cpu\t1\u{00A0}2 3 4 5\r\nrest").unwrap();
    assert_eq!(t, CpuTimes { user: 1, nice: 2, system: 3, idle: 4, iowait: 5, irq: 0, softirq: 0 });
}

#[test]
fn totals_wrap_around() {
    let t = CpuTimes { user: u64::MAX, nice: 2, system: 0, idle: u64::MAX, iowait: 3, irq: 0, softirq: 0 };
    assert_eq!(t.totals(), (u64::MAX.wrapping_add(2).wrapping_add(u64::MAX).wrapping_add(3), 2));
}

#[test]
fn tracker_compares_successive_samples() {
    let mut tracker = CpuTracker::new();
    assert_eq!(tracker.update(1000, 800), CpuReading::FirstSample);
    assert_eq!(tracker.update(1100, 850), CpuReading::Delta { total: 100, idle: 50 });
    assert_eq!(tracker.update(1100, 850), CpuReading::Unavailable);
    assert_eq!(tracker.update(1050, 900), CpuReading::Unavailable);
    assert_eq!(tracker.update(1200, 800), CpuReading::Delta { total: 150, idle: 0 });
}

/// The counters as the first line of `/proc/stat` gives them, read with
/// std's `lines`, `split_whitespace` and `parse`.
fn std_reading(stat: &str) -> Option<CpuTimes> {
    let line = stat.lines().next()?;
    let parts: Vec<&str> = line.split_whitespace().collect();
    if parts.len() >= 5 && parts[0] == "cpu" {
        let field = |i: usize| parts.get(i).and_then(|s| s.parse::<u64>().ok()).unwrap_or(0);
        Some(CpuTimes {
            user: field(1),
            nice: field(2),
            system: field(3),
            idle: field(4),
            iowait: field(5),
            irq: field(6),
            softirq: field(7),
        })
    } else {
        None
    }
}

#[test]
fn agrees_with_std_line_and_whitespace_splitting() {
    let cases = [
        "cpu  1 2 3 4 5 6 7\n",
        "cpu 1 2 3 4\r\ncpu0 9 9 9 9",
        "cpu 1 2 3 4\r",
        "cpu 1 2 3 4 5\r",
        "cpu\u{2003}1\u{3000}2\u{85}3\u{2028}4",
        "cpu 1 2 3",
        "cpu 1 2 3 +4 -5 18446744073709551616 7",
        "\r\ncpu 1 2 3 4",
        "cpu",
        "",
        "\n",
        "  \t cpu 10 20 30 40 50 60 70 80 90",
        "CPU 1 2 3 4",
    ];
    for stat in cases {
        assert_eq!(parse_cpu_times(stat), std_reading(stat), "{stat:?}");
    }
}
