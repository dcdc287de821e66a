use latency::histogram::{Histogram, PercentileRanks, SUB_BUCKETS};

/// The ranks at which the common percentiles are read: `count * p / 100`
/// in floating point, at least 1.
fn common_ranks(count: u64) -> PercentileRanks {
    let rank = |p: f64| ((count as f64 * p / 100.0) as u64).max(1);
    PercentileRanks {
        p50: rank(50.0),
        p90: rank(90.0),
        p99: rank(99.0),
        p999: rank(99.9),
        p9999: rank(99.99),
    }
}


#[test]
fn test_histogram_basic() {
    let mut hist = Histogram::new();

    // record some values
    hist.record(100);
    hist.record(200);
    hist.record(300);
    hist.record(400);
    hist.record(500);

    assert_eq!(hist.count(), 5);
    assert_eq!(hist.min(), 100);
    assert_eq!(hist.max(), 500);
    assert_eq!(hist.mean(), 300);
}

#[test]
fn test_percentiles() {
    let mut hist = Histogram::new();

    // record values 1-100 * 1000ns
    for i in 1..=100 {
        hist.record(i * 1000);
    }

    let percentiles = hist.common_percentiles(&common_ranks(hist.count()));

    // p50 should be near 50_000ns (within ~12.5% bucket precision)
    assert!(
        percentiles.p50 >= 40_000 && percentiles.p50 <= 56_000,
        "p50={} expected near 50000",
        percentiles.p50
    );

    // p99 should be near 99_000ns
    assert!(
        percentiles.p99 >= 88_000 && percentiles.p99 <= 104_000,
        "p99={} expected near 99000",
        percentiles.p99
    );
}

#[test]
fn test_bucket_conversion() {
    // linear region: values 0..SUB_BUCKETS map directly to their own bucket
    assert_eq!(Histogram::value_to_bucket(0), 0);
    assert_eq!(Histogram::value_to_bucket(1), 1);
    assert_eq!(
        Histogram::value_to_bucket((SUB_BUCKETS - 1) as u64),
        SUB_BUCKETS - 1
    );

    // first magnitude bucket starts exactly at SUB_BUCKETS
    assert_eq!(Histogram::value_to_bucket(SUB_BUCKETS as u64), SUB_BUCKETS);

    // within one magnitude, sub-bucket width is `1 << (mag - SUB_BITS)`, so a
    // value and `value + (width-1)` share a bucket. just above SUB_BUCKETS the
    // magnitude is SUB_BITS, giving width 1 (every integer its own bucket).
    assert_eq!(
        Histogram::value_to_bucket(SUB_BUCKETS as u64),
        Histogram::value_to_bucket(SUB_BUCKETS as u64)
    );
    assert_ne!(
        Histogram::value_to_bucket(SUB_BUCKETS as u64),
        Histogram::value_to_bucket(SUB_BUCKETS as u64 + 1)
    );

    // round-trip invariants for values across many magnitudes:
    // the lower bound never exceeds the value, and the midpoint stays inside
    // the bucket (>= lower bound).
    for v in [
        1u64,
        7,
        8,
        63,
        64,
        127,
        128,
        255,
        1000,
        1_000_000,
        1_000_000_000,
    ] {
        let bucket = Histogram::value_to_bucket(v);
        let lower = Histogram::bucket_to_value(bucket);
        let mid = Histogram::bucket_midpoint(bucket);
        assert!(lower <= v, "lower bound {lower} > value {v}");
        assert!(mid >= lower, "midpoint {mid} < lower bound {lower}");
    }
}

#[test]
fn test_sub_bucket_precision() {
    let mut hist = Histogram::new();

    // at 1μs scale, should distinguish 1000ns from 1200ns
    hist.record(1000);
    hist.record(1200);

    let b1 = Histogram::value_to_bucket(1000);
    let b2 = Histogram::value_to_bucket(1200);
    assert_ne!(b1, b2, "1000ns and 1200ns should be in different buckets");

    // verify bucket lower bounds are reasonable
    let v1 = Histogram::bucket_to_value(b1);
    let v2 = Histogram::bucket_to_value(b2);
    assert!(v1 <= 1000);
    assert!(v2 <= 1200);
    assert!(v2 > v1);
}

#[test]
fn test_clear() {
    let mut hist = Histogram::new();

    hist.record(100);
    hist.record(200);
    assert_eq!(hist.count(), 2);

    hist.clear();
    assert_eq!(hist.count(), 0);
    assert_eq!(hist.min(), 0);
    assert_eq!(hist.max(), 0);
}

#[test]
fn test_zero_value_is_recorded() {
    let mut hist = Histogram::new();

    hist.record(0);
    hist.record(10);

    assert_eq!(hist.count(), 2);
    assert_eq!(hist.min(), 0);
    assert_eq!(hist.max(), 10);

    let percentiles = hist.common_percentiles(&common_ranks(hist.count()));
    assert_eq!(percentiles.p50, 0);

    // the 100th percentile of two samples
    let exact = [hist.value_at_rank(((hist.count() as f64 * 100.0 / 100.0) as u64).max(1))];
    assert_eq!(exact[0], 10);
}
