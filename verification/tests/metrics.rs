use trading_engine::metrics::{LatencyStats, P99_RANK, WINDOW};

#[test]
fn report_is_due_every_window() {
    let mut stats = LatencyStats::new();
    for n in 1..WINDOW as u64 {
        assert!(stats.record(n).is_none());
    }
    let report = stats.record(WINDOW as u64).expect("report due");
    assert_eq!(report.count, 10_000);
    assert_eq!(report.min, 1);
    assert_eq!(report.max, 10_000);
    assert_eq!(report.avg, 5_000);
    assert_eq!(report.p99, 9_901);
}

#[test]
fn p99_of_unordered_window() {
    let mut stats = LatencyStats::new();
    for i in 0..WINDOW as u64 {
        stats.record((i * 7919) % 10_000);
    }
    // The samples are a permutation of 0..10000.
    assert_eq!(stats.p99(), P99_RANK as u64);
}

#[test]
fn window_keeps_latest_samples() {
    let mut stats = LatencyStats::new();
    for _ in 0..WINDOW {
        stats.record(1_000);
    }
    for _ in 0..200 {
        stats.record(5);
    }
    // 200 fresh samples of 5 replaced the oldest; rank 9900 is still 1000.
    assert_eq!(stats.p99(), 1_000);
    let r = stats.report();
    assert_eq!(r.min, 5);
    assert_eq!(r.max, 1_000);
    assert_eq!(r.count, 10_200);
    assert_eq!(r.avg, (10_000 * 1_000 + 200 * 5) / 10_200);
}

#[test]
fn min_and_max_track_extremes() {
    let mut stats = LatencyStats::new();
    stats.record(40);
    stats.record(5_751);
    stats.record(119);
    let r = stats.report();
    assert_eq!(r.min, 40);
    assert_eq!(r.max, 5_751);
    assert_eq!(r.avg, (40 + 5_751 + 119) / 3);
    // The rest of the window is still zero.
    assert_eq!(r.p99, 0);
}

#[test]
fn p99_with_ties_sits_at_rank() {
    let mut stats = LatencyStats::new();
    for i in 0..WINDOW as u64 {
        stats.record(if i < 50 { 1 } else { 0 });
    }
    // 9950 zeros and 50 ones: at most 9900 samples lie below the answer and
    // more than 9900 at or below it.
    assert_eq!(stats.p99(), 0);
    let mut stats = LatencyStats::new();
    for i in 0..WINDOW as u64 {
        stats.record(if i < 100 { 9 } else { 3 });
    }
    // 9900 threes then 100 nines: rank 9900 is the first nine.
    assert_eq!(stats.p99(), 9);
}
