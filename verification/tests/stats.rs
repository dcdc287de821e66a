use latency::{Histogram, LatencyStats, PercentileRanks, Percentiles};

/// The ranks at which the common percentiles are read: `count * p / 100`
/// in floating point, at least 1.
fn common_ranks(count: u64) -> PercentileRanks {
    let rank = |p: f64| ((count as f64 * p / 100.0) as u64).max(1);
    PercentileRanks {
        p50: rank(50.0),
        p90: rank(90.0),
        p99: rank(99.0),
        p999: rank(99.9),
        p9999: rank(99.99),
    }
}


fn five_values() -> Histogram {
    let mut hist = Histogram::new();
    for v in [100u64, 200, 300, 400, 500] {
        hist.record(v);
    }
    hist
}

#[test]
fn stats_of_five_values() {
    let hist = five_values();
    let stats = hist.stats(&common_ranks(hist.count()));
    assert_eq!(stats.count, 5);
    assert_eq!(stats.min, 100);
    assert_eq!(stats.max, 500);
    assert_eq!(stats.mean, 300);
    // rank 2 of 5 is 200, reported as its bucket's midpoint
    assert_eq!(stats.p50, 201);
    // ranks 4 (90%, 99%, 99.9%, 99.99% of 5, rounded down) are 400
    assert_eq!(stats.p90, 402);
    assert_eq!(stats.p99, 402);
    assert_eq!(stats.p999, 402);
    assert_eq!(stats.p9999, 402);
}

#[test]
fn latency_stats_format() {
    let hist = five_values();
    let stats = hist.stats(&common_ranks(hist.count()));
    assert_eq!(
        stats.format(),
        "count=5 min=100ns p50=201ns p99=402ns p999=402ns max=500ns"
    );
    assert_eq!(
        stats.format_micros(),
        "count=5 min=0μs p50=0μs p99=0μs p999=0μs max=0μs"
    );
}

#[test]
fn latency_stats_format_micros_divides() {
    let stats = LatencyStats {
        min: 1_500,
        max: 12_345_678,
        mean: 0,
        p50: 2_999,
        p90: 0,
        p99: 1_000_000,
        p999: 10_000_000_000,
        p9999: 0,
        count: 42,
    };
    assert_eq!(
        stats.format_micros(),
        "count=42 min=1μs p50=2μs p99=1000μs p999=10000000μs max=12345μs"
    );
    assert_eq!(
        stats.format(),
        "count=42 min=1500ns p50=2999ns p99=1000000ns p999=10000000000ns max=12345678ns"
    );
}

#[test]
fn percentiles_format() {
    let p = Percentiles { p50: 7, p90: 1_000, p99: 0, p999: 123_456_789, p9999: u64::MAX };
    assert_eq!(
        p.format(),
        "p50=7ns p90=1000ns p99=0ns p999=123456789ns p9999=18446744073709551615ns"
    );
    assert_eq!(
        p.format_micros(),
        "p50=0μs p90=1μs p99=0μs p999=123456μs p9999=18446744073709551μs"
    );
}

#[test]
fn empty_histogram_reports_zeros() {
    let hist = Histogram::new();
    let stats = hist.stats(&common_ranks(hist.count()));
    assert_eq!(stats.count, 0);
    assert_eq!(stats.min, 0);
    assert_eq!(stats.max, 0);
    assert_eq!(stats.mean, 0);
    assert_eq!(stats.p50, 0);
    assert_eq!(stats.p9999, 0);
    assert_eq!(hist.value_at_rank(1), 0);
}

#[test]
fn recorded_maximum_is_reported_as_minimum() {
    let mut hist = Histogram::new();
    assert_eq!(hist.min(), 0);
    hist.record(u64::MAX);
    assert_eq!(hist.count(), 1);
    assert_eq!(hist.min(), u64::MAX);
    assert_eq!(hist.max(), u64::MAX);
    assert_eq!(hist.stats(&common_ranks(hist.count())).min, u64::MAX);
}

#[test]
fn rank_zero_counts_as_rank_one_and_large_ranks_find_nothing() {
    let mut hist = Histogram::new();
    hist.record(5);
    hist.record(70);
    assert_eq!(hist.value_at_rank(0), 5);
    assert_eq!(hist.value_at_rank(1), 5);
    assert_eq!(hist.value_at_rank(2), 70);
    assert_eq!(hist.value_at_rank(3), 0);
}

#[test]
fn top_rank_is_bucket_of_maximum_and_first_rank_bucket_of_minimum() {
    let mut hist = Histogram::new();
    let values = [5_000u64, 17, 123_456, 99, 1_000_000, 4_242];
    for v in values {
        hist.record(v);
    }
    let max_mid = Histogram::bucket_midpoint(Histogram::value_to_bucket(1_000_000));
    let min_mid = Histogram::bucket_midpoint(Histogram::value_to_bucket(17));
    assert_eq!(hist.value_at_rank(values.len() as u64), max_mid);
    assert_eq!(hist.value_at_rank(1), min_mid);
}

#[test]
fn mean_is_sum_over_count() {
    let mut hist = Histogram::new();
    hist.record(1);
    hist.record(2);
    assert_eq!(hist.mean(), 1);
    hist.record(6);
    assert_eq!(hist.mean(), 3);
}

#[test]
fn sum_wraps_like_an_atomic_counter() {
    let mut hist = Histogram::new();
    hist.record(u64::MAX);
    hist.record(3);
    // (u64::MAX + 3) mod 2^64 == 2, divided by two samples
    assert_eq!(hist.mean(), 1);
}

#[test]
fn clear_returns_to_a_fresh_histogram() {
    let mut hist = five_values();
    hist.clear();
    let fresh = Histogram::new().stats(&common_ranks(0));
    let cleared = hist.stats(&common_ranks(hist.count()));
    assert_eq!(cleared.count, fresh.count);
    assert_eq!(cleared.min, fresh.min);
    assert_eq!(cleared.max, fresh.max);
    assert_eq!(cleared.mean, fresh.mean);
    assert_eq!(cleared.p50, fresh.p50);
    hist.record(42);
    assert_eq!(hist.count(), 1);
    assert_eq!(hist.min(), 42);
    assert_eq!(hist.max(), 42);
}

#[test]
fn default_is_empty() {
    let hist = Histogram::default();
    assert_eq!(hist.count(), 0);
    assert_eq!(hist.min(), 0);
}

#[test]
fn common_percentiles_are_ordered() {
    let mut hist = Histogram::new();
    let mut x: u64 = 12_345;
    for _ in 0..10_000 {
        x = x.wrapping_mul(6_364_136_223_846_793_005).wrapping_add(1_442_695_040_888_963_407);
        hist.record(x >> 40);
    }
    let p = hist.common_percentiles(&common_ranks(hist.count()));
    assert!(p.p50 <= p.p90);
    assert!(p.p90 <= p.p99);
    assert!(p.p99 <= p.p999);
    assert!(p.p999 <= p.p9999);
    assert!(p.p9999 <= Histogram::bucket_midpoint(Histogram::value_to_bucket(hist.max())));
}

#[test]
fn percentiles_of_one_to_one_hundred_thousand() {
    let mut hist = Histogram::new();
    for i in 1..=100u64 {
        hist.record(i * 1000);
    }
    let p = hist.common_percentiles(&common_ranks(hist.count()));
    // rank 50 is 50_000, in the bucket [49_664, 50_176)
    assert_eq!(p.p50, 49_920);
    // rank 99 is 99_000, in the bucket [98_304, 99_328)
    assert_eq!(p.p99, 98_816);
}

#[test]
fn mean_lies_between_min_and_max() {
    let mut hist = Histogram::new();
    for v in [7u64, 1_000, 3, 999_999, 42, 42] {
        hist.record(v);
    }
    assert_eq!(hist.min(), 3);
    assert_eq!(hist.max(), 999_999);
    assert_eq!(hist.mean(), (7 + 1_000 + 3 + 999_999 + 42 + 42) / 6);
    assert!(hist.min() <= hist.mean() && hist.mean() <= hist.max());
}

#[test]
fn value_at_rank_is_bucket_of_kth_smallest() {
    let values = [900u64, 5, 70_000, 64, 65, 12_345_678, 300, 301, 5];
    let mut hist = Histogram::new();
    for v in values {
        hist.record(v);
    }
    let mut sorted = values;
    sorted.sort();
    for k in 1..=values.len() {
        let expected = Histogram::bucket_midpoint(Histogram::value_to_bucket(sorted[k - 1]));
        assert_eq!(hist.value_at_rank(k as u64), expected);
    }
}

#[test]
fn one_more_record_updates_every_counter() {
    let mut hist = Histogram::new();
    hist.record(500);
    hist.record(20);
    let before = hist.stats(&common_ranks(hist.count()));
    hist.record(10);
    let after = hist.stats(&common_ranks(hist.count()));
    assert_eq!(after.count, before.count + 1);
    assert_eq!(after.min, 10);
    assert_eq!(after.max, 500);
    assert_eq!(after.mean, (500 + 20 + 10) / 3);
}
