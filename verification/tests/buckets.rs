use latency::histogram::{Histogram, NUM_BUCKETS, SUB_BUCKETS};

#[test]
fn bucket_indices_of_known_values() {
    assert_eq!(Histogram::value_to_bucket(1000), 317);
    assert_eq!(Histogram::bucket_to_value(317), 1000);
    assert_eq!(Histogram::bucket_midpoint(317), 1004);

    assert_eq!(Histogram::value_to_bucket(1200), 331);
    assert_eq!(Histogram::bucket_to_value(331), 1200);
    assert_eq!(Histogram::bucket_midpoint(331), 1208);

    assert_eq!(Histogram::value_to_bucket(50_000), 673);
    assert_eq!(Histogram::bucket_to_value(673), 49_664);
    assert_eq!(Histogram::bucket_midpoint(673), 49_920);
}

#[test]
fn largest_value_lands_in_last_bucket() {
    assert_eq!(Histogram::value_to_bucket(u64::MAX), NUM_BUCKETS - 1);
    assert_eq!(Histogram::bucket_to_value(NUM_BUCKETS - 1), 127u64 << 57);
    assert_eq!(Histogram::bucket_midpoint(NUM_BUCKETS - 1), (127u64 << 57) + (1u64 << 56));
}

#[test]
fn linear_region_is_exact() {
    for v in 0..SUB_BUCKETS as u64 {
        let b = Histogram::value_to_bucket(v);
        assert_eq!(b as u64, v);
        assert_eq!(Histogram::bucket_to_value(b), v);
        assert_eq!(Histogram::bucket_midpoint(b), v);
    }
}

#[test]
fn every_bucket_round_trips_through_its_lower_bound() {
    for b in 0..NUM_BUCKETS {
        let lower = Histogram::bucket_to_value(b);
        assert_eq!(Histogram::value_to_bucket(lower), b);
    }
}

#[test]
fn buckets_are_contiguous_and_increasing() {
    for b in 0..NUM_BUCKETS - 1 {
        let lower = Histogram::bucket_to_value(b);
        let next = Histogram::bucket_to_value(b + 1);
        assert!(lower < next);
        // the last value before the next bucket still belongs to this one
        assert_eq!(Histogram::value_to_bucket(next - 1), b);
        // the midpoint lies inside the bucket
        let mid = Histogram::bucket_midpoint(b);
        assert!(lower <= mid && mid < next);
    }
}

#[test]
fn relative_error_is_at_most_one_sixty_fourth() {
    let mut v: u64 = 1;
    while v < u64::MAX / 3 {
        for x in [v, v + 1, v * 2 - 1, v + v / 3] {
            let lower = Histogram::bucket_to_value(Histogram::value_to_bucket(x));
            assert!(lower <= x);
            assert!(64 * (x - lower) <= lower);
        }
        v = v * 3 + 1;
    }
}

#[test]
fn bucket_index_is_monotone() {
    let samples = [0u64, 1, 63, 64, 65, 127, 128, 1000, 1023, 1024, 99_999, 1 << 40, u64::MAX];
    for i in 0..samples.len() {
        for j in i..samples.len() {
            assert!(Histogram::value_to_bucket(samples[i]) <= Histogram::value_to_bucket(samples[j]));
        }
    }
}
