use rhb::stats::Stats;

#[test]
fn test_stats_record_and_summary() {
    let mut stats = Stats::new(false).unwrap();
    for i in 0..100 {
        stats.record_success(10_000_000 + i, 200, 1024, 0, "GET", "http://t/");
    }
    for _ in 0..10 {
        stats.record_failure(50_000_000, 0, 0, "GET", "http://t/");
    }
    assert_eq!(stats.total(), 110);
    assert_eq!(stats.success(), 100);
    assert_eq!(stats.failure(), 10);
    let hist = stats.histogram_snapshot();
    let p50_ms = hist.hdr.value_at_quantile(0.5) as f64 / 1_000_000.0;
    assert!((p50_ms - 10.0).abs() < 1.0, "p50={}", p50_ms);
    let error_rate_pct = stats.failure() as f64 / stats.total() as f64 * 100.0;
    assert!((error_rate_pct - 100.0 * 10.0 / 110.0).abs() < 0.01);
}

#[test]
fn counts_bytes_and_status_codes() {
    let mut stats = Stats::new(false).unwrap();
    stats.record_success(5, 200, 10, 0, "GET", "u");
    stats.record_success(0, 200, 5, 1, "GET", "u");
    stats.record_success(7, 301, 0, 1, "GET", "u");
    stats.record_failure(9, 503, 2, "GET", "u");
    stats.record_failure(9, 0, 2, "GET", "u");
    assert_eq!(stats.total(), 5);
    assert_eq!(stats.bytes(), 15);
    let codes: Vec<(u16, u64)> = stats.status_codes().into_iter().collect();
    assert_eq!(codes, vec![(200, 2), (301, 1), (503, 1)]);
    let hist = stats.histogram_snapshot();
    assert_eq!(hist.hdr.len(), 5);
    assert_eq!(hist.hdr.min(), 1);
    assert!(stats.details().is_empty());
}

#[test]
fn details_are_kept_on_request() {
    let mut stats = Stats::new(true).unwrap();
    stats.record_success(2_000_000, 200, 512, 3, "GET", "http://t/");
    stats.record_failure(4_000_000, 0, 4, "POST", "http://t/x");
    let d = stats.details();
    assert_eq!(d.len(), 2);
    assert_eq!(d[0].worker, 3);
    assert_eq!(d[0].method, "GET");
    assert!(d[0].success);
    assert_eq!(d[0].size_bytes, 512);
    assert_eq!(d[0].latency_ns, 2_000_000);
    assert!(d[0].timestamp_ms > 1_600_000_000_000);
    assert_eq!(d[1].url, "http://t/x");
    assert_eq!(d[1].status, 0);
    assert!(!d[1].success);
    assert_eq!(d[1].size_bytes, 0);
}

#[test]
fn latency_beyond_tracked_range_counts_but_stays_out_of_histogram() {
    let mut stats = Stats::new(false).unwrap();
    stats.record_success(u64::MAX, 200, 0, 0, "GET", "u");
    assert_eq!(stats.total(), 1);
    assert_eq!(stats.histogram_snapshot().hdr.len(), 0);
}
