//! What a histogram holds after a sequence of recordings: its counters
//! summarize exactly the recorded values, and its percentiles report the
//! buckets of the samples of the requested rank.

use vstd::prelude::*;

verus! {

use crate::bucket::{
    bucket_of,
    bucket_mid,
    lemma_bucket_contains,
    lemma_bucket_of_monotone,
    NUM_BUCKETS,
};
use crate::histogram::{bucket_prefix, lemma_rank_bucket_is, HistogramView, PercentileRanks};

/// Sum of a sequence of samples, as an exact integer.
pub open spec fn sum_of(values: Seq<u64>) -> int
    decreases values.len(),
{
    if values.len() == 0 {
        0
    } else {
        sum_of(values.drop_last()) + values.last()
    }
}

/// Largest of a sequence of samples (0 for none).
pub open spec fn max_of(values: Seq<u64>) -> u64
    decreases values.len(),
{
    if values.len() == 0 {
        0
    } else if values.last() > max_of(values.drop_last()) {
        values.last()
    } else {
        max_of(values.drop_last())
    }
}

/// Smallest of a sequence of samples (`u64::MAX` for none).
pub open spec fn min_of(values: Seq<u64>) -> u64
    decreases values.len(),
{
    if values.len() == 0 {
        u64::MAX
    } else if values.last() < min_of(values.drop_last()) {
        values.last()
    } else {
        min_of(values.drop_last())
    }
}

/// How many of the samples fall into bucket `b`.
pub open spec fn count_in_bucket(values: Seq<u64>, b: int) -> int
    decreases values.len(),
{
    if values.len() == 0 {
        0
    } else {
        count_in_bucket(values.drop_last(), b) + (if bucket_of(values.last() as nat) == b {
            1int
        } else {
            0int
        })
    }
}

/// Recording values one after another leaves the counters summarizing
/// exactly those values: the number of samples, their sum (both modulo
/// `2^64`), their minimum and maximum, and per bucket the number of samples
/// that fall into it (modulo `2^64`).
pub proof fn lemma_recorded_all_summary(values: Seq<u64>)
    ensures
        HistogramView::empty().recorded_all(values).buckets.len() == NUM_BUCKETS,
        HistogramView::empty().recorded_all(values).count as int == values.len() as int
            % 0x1_0000_0000_0000_0000,
        HistogramView::empty().recorded_all(values).sum as int == sum_of(values)
            % 0x1_0000_0000_0000_0000,
        HistogramView::empty().recorded_all(values).min == min_of(values),
        HistogramView::empty().recorded_all(values).max == max_of(values),
        forall|b: int|
            0 <= b < NUM_BUCKETS ==> #[trigger] HistogramView::empty().recorded_all(values).buckets[b]
                as int == count_in_bucket(values, b) % 0x1_0000_0000_0000_0000,
    decreases values.len(),
{
    let m = 0x1_0000_0000_0000_0000int;
    if values.len() > 0 {
        let rest = values.drop_last();
        let v = values.last();
        lemma_recorded_all_summary(rest);
        let h = HistogramView::empty().recorded_all(rest);
        lemma_bucket_contains(v);
        let bv = bucket_of(v as nat) as int;
        assert((h.count as int + 1) % m == (rest.len() as int + 1) % m) by {
            vstd::arithmetic::div_mod::lemma_add_mod_noop(rest.len() as int, 1, m);
            vstd::arithmetic::div_mod::lemma_mod_twice(1, m);
            vstd::arithmetic::div_mod::lemma_mod_twice(rest.len() as int, m);
        }
        assert((h.sum as int + v) % m == (sum_of(rest) + v) % m) by {
            vstd::arithmetic::div_mod::lemma_add_mod_noop(sum_of(rest), v as int, m);
            vstd::arithmetic::div_mod::lemma_add_mod_noop(h.sum as int, v as int, m);
            vstd::arithmetic::div_mod::lemma_mod_twice(sum_of(rest), m);
            vstd::arithmetic::div_mod::lemma_small_mod(h.sum as nat, m as nat);
        }
        assert forall|b: int| 0 <= b < NUM_BUCKETS implies #[trigger] HistogramView::empty().recorded_all(
            values,
        ).buckets[b] as int == count_in_bucket(values, b) % m by {
            if b == bv {
                vstd::arithmetic::div_mod::lemma_add_mod_noop(count_in_bucket(rest, b), 1, m);
                vstd::arithmetic::div_mod::lemma_add_mod_noop(h.buckets[b] as int, 1, m);
                vstd::arithmetic::div_mod::lemma_mod_twice(count_in_bucket(rest, b), m);
                vstd::arithmetic::div_mod::lemma_small_mod(h.buckets[b] as nat, m as nat);
            }
        }
    } else {
        let e = HistogramView::empty();
        assert forall|b: int| 0 <= b < NUM_BUCKETS implies #[trigger] e.recorded_all(values).buckets[b]
            as int == count_in_bucket(values, b) % m by {}
    }
}

/// How many of the samples fall into a bucket below `b`.
pub open spec fn count_below(values: Seq<u64>, b: int) -> int
    decreases values.len(),
{
    if values.len() == 0 {
        0
    } else {
        count_below(values.drop_last(), b) + (if bucket_of(values.last() as nat) < b {
            1int
        } else {
            0int
        })
    }
}

proof fn lemma_count_below_step(values: Seq<u64>, b: int)
    ensures
        count_below(values, b + 1) == count_below(values, b) + count_in_bucket(values, b),
        0 <= count_in_bucket(values, b) <= values.len(),
        0 <= count_below(values, b) <= values.len(),
    decreases values.len(),
{
    if values.len() > 0 {
        lemma_count_below_step(values.drop_last(), b);
    }
}

proof fn lemma_count_below_all(values: Seq<u64>)
    ensures
        count_below(values, NUM_BUCKETS as int) == values.len(),
        count_below(values, 0) == 0,
    decreases values.len(),
{
    if values.len() > 0 {
        lemma_count_below_all(values.drop_last());
        lemma_bucket_contains(values.last());
    }
}

/// While fewer than `2^64` values are recorded, the running totals of the
/// bucket counts are exact: the first `b` buckets hold exactly the samples
/// whose bucket is below `b`.
pub proof fn lemma_recorded_all_prefix(values: Seq<u64>, b: int)
    requires
        values.len() < 0x1_0000_0000_0000_0000,
        0 <= b <= NUM_BUCKETS,
    ensures
        bucket_prefix(HistogramView::empty().recorded_all(values).buckets, b) == count_below(values, b),
    decreases b,
{
    lemma_recorded_all_summary(values);
    if b == 0 {
        lemma_count_below_all(values);
    } else {
        lemma_recorded_all_prefix(values, b - 1);
        lemma_count_below_step(values, b - 1);
        let h = HistogramView::empty().recorded_all(values);
        assert(h.buckets[b - 1] as int == count_in_bucket(values, b - 1) % 0x1_0000_0000_0000_0000);
        vstd::arithmetic::div_mod::lemma_small_mod(
            count_in_bucket(values, b - 1) as nat,
            0x1_0000_0000_0000_0000nat,
        );
    }
}

/// Percentiles from recorded samples: while fewer than `2^64` values are
/// recorded, the value reported for rank `rank` (between 1 and the number
/// of values) is the midpoint of the bucket `b` such that fewer than `rank`
/// samples lie in buckets below `b` and at least `rank` lie in buckets up to
/// `b`, that is, the bucket of the `rank`-th smallest sample.
pub proof fn lemma_value_at_rank_from_samples(values: Seq<u64>, rank: u64, b: int)
    requires
        1 <= rank <= values.len() < 0x1_0000_0000_0000_0000,
        0 <= b < NUM_BUCKETS,
        count_below(values, b) < rank <= count_below(values, b + 1),
    ensures
        HistogramView::empty().recorded_all(values).value_at_rank(rank) == bucket_mid(b as nat) as u64,
{
    let h = HistogramView::empty().recorded_all(values);
    lemma_recorded_all_summary(values);
    lemma_recorded_all_prefix(values, b);
    lemma_recorded_all_prefix(values, b + 1);
    lemma_recorded_all_prefix(values, NUM_BUCKETS as int);
    lemma_count_below_all(values);
    vstd::arithmetic::div_mod::lemma_small_mod(values.len() as nat, 0x1_0000_0000_0000_0000nat);
    lemma_rank_bucket_is(h.buckets, rank as int, b);
}

proof fn lemma_max_of_bounds(values: Seq<u64>)
    ensures
        forall|i: int| 0 <= i < values.len() ==> values[i] <= max_of(values),
        values.len() > 0 ==> exists|i: int| 0 <= i < values.len() && values[i] == max_of(values),
    decreases values.len(),
{
    if values.len() > 0 {
        let rest = values.drop_last();
        lemma_max_of_bounds(rest);
        assert forall|i: int| 0 <= i < values.len() implies values[i] <= max_of(values) by {
            if i < values.len() - 1 {
                assert(rest[i] == values[i]);
            }
        }
        if rest.len() > 0 && max_of(values) == max_of(rest) {
            let i = choose|i: int| 0 <= i < rest.len() && rest[i] == max_of(rest);
            assert(values[i] == max_of(values));
        } else {
            assert(values[values.len() - 1] == max_of(values));
        }
    }
}

proof fn lemma_min_of_bounds(values: Seq<u64>)
    ensures
        forall|i: int| 0 <= i < values.len() ==> min_of(values) <= values[i],
        values.len() > 0 ==> exists|i: int| 0 <= i < values.len() && values[i] == min_of(values),
    decreases values.len(),
{
    if values.len() > 0 {
        let rest = values.drop_last();
        lemma_min_of_bounds(rest);
        assert forall|i: int| 0 <= i < values.len() implies min_of(values) <= values[i] by {
            if i < values.len() - 1 {
                assert(rest[i] == values[i]);
            }
        }
        if rest.len() > 0 && min_of(values) == min_of(rest) {
            let i = choose|i: int| 0 <= i < rest.len() && rest[i] == min_of(rest);
            assert(values[i] == min_of(values));
        } else {
            assert(values[values.len() - 1] == min_of(values));
        }
    }
}

/// Samples all in buckets below `b` are all counted below `b`; a sample in
/// bucket `b` or above is not.
proof fn lemma_count_below_bounds(values: Seq<u64>, b: int)
    ensures
        (forall|i: int| 0 <= i < values.len() ==> bucket_of(#[trigger] values[i] as nat) < b)
            ==> count_below(values, b) == values.len(),
        (exists|i: int| 0 <= i < values.len() && bucket_of(#[trigger] values[i] as nat) >= b)
            ==> count_below(values, b) < values.len(),
    decreases values.len(),
{
    if values.len() > 0 {
        let rest = values.drop_last();
        lemma_count_below_bounds(rest, b);
        lemma_count_below_step(rest, b);
        if forall|i: int| 0 <= i < values.len() ==> bucket_of(#[trigger] values[i] as nat) < b {
            assert forall|i: int| 0 <= i < rest.len() implies bucket_of(#[trigger] rest[i] as nat) < b by {
                assert(rest[i] == values[i]);
            }
        }
        if exists|i: int| 0 <= i < values.len() && bucket_of(#[trigger] values[i] as nat) >= b {
            let i = choose|i: int| 0 <= i < values.len() && bucket_of(#[trigger] values[i] as nat) >= b;
            if i < values.len() - 1 {
                assert(rest[i] == values[i]);
            }
        }
    }
}

/// The highest percentile is the bucket of the largest sample: while fewer
/// than `2^64` values are recorded, the value reported for the rank equal to
/// the number of samples is the midpoint of the bucket of the maximum.
pub proof fn lemma_top_rank_is_max_bucket(values: Seq<u64>)
    requires
        1 <= values.len() < 0x1_0000_0000_0000_0000,
    ensures
        HistogramView::empty().recorded_all(values).value_at_rank(values.len() as u64) == bucket_mid(
            bucket_of(max_of(values) as nat),
        ) as u64,
{
    let mx = max_of(values);
    let b = bucket_of(mx as nat) as int;
    lemma_bucket_contains(mx);
    lemma_max_of_bounds(values);
    assert forall|i: int| 0 <= i < values.len() implies bucket_of(#[trigger] values[i] as nat) < b + 1 by {
        lemma_bucket_of_monotone(values[i], mx);
    }
    lemma_count_below_bounds(values, b + 1);
    let j = choose|i: int| 0 <= i < values.len() && values[i] == mx;
    assert(bucket_of(values[j] as nat) >= b);
    lemma_count_below_bounds(values, b);
    lemma_value_at_rank_from_samples(values, values.len() as u64, b);
}

/// The lowest rank is the bucket of the smallest sample: while fewer than
/// `2^64` values are recorded, the value reported for rank 1 (and rank 0)
/// is the midpoint of the bucket of the minimum.
pub proof fn lemma_first_rank_is_min_bucket(values: Seq<u64>)
    requires
        1 <= values.len() < 0x1_0000_0000_0000_0000,
    ensures
        HistogramView::empty().recorded_all(values).value_at_rank(1) == bucket_mid(
            bucket_of(min_of(values) as nat),
        ) as u64,
{
    let mn = min_of(values);
    let b = bucket_of(mn as nat) as int;
    lemma_bucket_contains(mn);
    lemma_min_of_bounds(values);
    assert forall|i: int| 0 <= i < values.len() implies !(bucket_of(#[trigger] values[i] as nat) < b) by {
        lemma_bucket_of_monotone(mn, values[i]);
    }
    lemma_count_below_zero(values, b);
    let j = choose|i: int| 0 <= i < values.len() && values[i] == mn;
    lemma_count_below_step(values, b);
    lemma_count_in_bucket_pos(values, b, j);
    lemma_value_at_rank_from_samples(values, 1, b);
}

proof fn lemma_count_below_zero(values: Seq<u64>, b: int)
    requires
        forall|i: int| 0 <= i < values.len() ==> !(bucket_of(#[trigger] values[i] as nat) < b),
    ensures
        count_below(values, b) == 0,
    decreases values.len(),
{
    if values.len() > 0 {
        let rest = values.drop_last();
        assert forall|i: int| 0 <= i < rest.len() implies !(bucket_of(#[trigger] rest[i] as nat) < b) by {
            assert(rest[i] == values[i]);
        }
        lemma_count_below_zero(rest, b);
        assert(values[values.len() - 1] == values.last());
    }
}

proof fn lemma_count_in_bucket_pos(values: Seq<u64>, b: int, j: int)
    requires
        0 <= j < values.len(),
        bucket_of(values[j] as nat) == b,
    ensures
        count_in_bucket(values, b) >= 1,
    decreases values.len(),
{
    let rest = values.drop_last();
    lemma_count_below_step(rest, b);
    if j < values.len() - 1 {
        assert(rest[j] == values[j]);
        lemma_count_in_bucket_pos(rest, b, j);
    }
}

/// The samples sum to at least `len * min` and at most `len * max`.
proof fn lemma_sum_between_min_max(values: Seq<u64>)
    ensures
        values.len() * (min_of(values) as int) <= sum_of(values) || values.len() == 0,
        sum_of(values) <= values.len() * (max_of(values) as int),
        sum_of(values) >= 0,
    decreases values.len(),
{
    if values.len() > 0 {
        let rest = values.drop_last();
        let v = values.last() as int;
        lemma_sum_between_min_max(rest);
        let n = rest.len() as int;
        let mn = min_of(values) as int;
        let mx = max_of(values) as int;
        assert(mn <= min_of(rest) && mn <= v);
        assert(mx >= max_of(rest) && mx >= v);
        assert(n * mn <= n * (min_of(rest) as int)) by (nonlinear_arith)
            requires
                mn <= min_of(rest),
                n >= 0,
        ;
        assert(n * (max_of(rest) as int) <= n * mx) by (nonlinear_arith)
            requires
                mx >= max_of(rest),
                n >= 0,
        ;
        assert((n + 1) * mn == n * mn + mn && (n + 1) * mx == n * mx + mx) by (nonlinear_arith);
    }
}

/// Reading back recorded values: while fewer than `2^64` values are recorded
/// and their sum fits in 64 bits, the reported minimum, maximum and mean are
/// the minimum, maximum and (rounded down) mean of the values, and the mean
/// lies between the minimum and the maximum.
pub proof fn lemma_recorded_all_reports(values: Seq<u64>)
    requires
        1 <= values.len() < 0x1_0000_0000_0000_0000,
        sum_of(values) <= u64::MAX,
    ensures
        HistogramView::empty().recorded_all(values).reported_min() == min_of(values),
        HistogramView::empty().recorded_all(values).max == max_of(values),
        HistogramView::empty().recorded_all(values).mean() == sum_of(values) / (values.len() as int),
        min_of(values) <= HistogramView::empty().recorded_all(values).mean() <= max_of(values),
{
    lemma_recorded_all_summary(values);
    lemma_sum_between_min_max(values);
    let n = values.len() as int;
    let s = sum_of(values);
    vstd::arithmetic::div_mod::lemma_small_mod(n as nat, 0x1_0000_0000_0000_0000nat);
    vstd::arithmetic::div_mod::lemma_small_mod(s as nat, 0x1_0000_0000_0000_0000nat);
    let mn = min_of(values) as int;
    let mx = max_of(values) as int;
    assert(mn <= s / n <= mx) by {
        vstd::arithmetic::div_mod::lemma_div_is_ordered(n * mn, s, n);
        vstd::arithmetic::div_mod::lemma_div_is_ordered(s, n * mx, n);
        vstd::arithmetic::div_mod::lemma_div_multiples_vanish(mn, n);
        vstd::arithmetic::div_mod::lemma_div_multiples_vanish(mx, n);
    }
}

/// One more recording, while no counter reaches `2^64` (fewer than
/// `2^64 - 1` values before it, and a sum that still fits): the count grows
/// by one, the sum by the value, exactly the value's bucket gains one
/// sample, the maximum becomes the larger of the two, and the reported
/// minimum becomes the value when nothing was recorded before and the
/// smaller of the two otherwise.
pub proof fn lemma_record_step(values: Seq<u64>, v: u64)
    requires
        values.len() + 1 < 0x1_0000_0000_0000_0000,
        sum_of(values) + v <= u64::MAX,
    ensures
        ({
            let h = HistogramView::empty().recorded_all(values);
            let h2 = h.recorded(v);
            &&& h2.count == h.count + 1
            &&& h2.sum == h.sum + v
            &&& h2.max == (if v > h.max { v } else { h.max })
            &&& h2.reported_min() == (if h.count == 0 {
                v
            } else if v < h.reported_min() {
                v
            } else {
                h.reported_min()
            })
            &&& h2.buckets[bucket_of(v as nat) as int] == h.buckets[bucket_of(v as nat) as int] + 1
            &&& forall|b: int|
                0 <= b < NUM_BUCKETS && b != bucket_of(v as nat) ==> #[trigger] h2.buckets[b]
                    == h.buckets[b]
        }),
{
    let h = HistogramView::empty().recorded_all(values);
    lemma_recorded_all_summary(values);
    lemma_sum_between_min_max(values);
    lemma_bucket_contains(v);
    let m = 0x1_0000_0000_0000_0000int;
    vstd::arithmetic::div_mod::lemma_small_mod(values.len() as nat, m as nat);
    vstd::arithmetic::div_mod::lemma_small_mod(sum_of(values) as nat, m as nat);
    let bv = bucket_of(v as nat) as int;
    lemma_count_below_step(values, bv);
    vstd::arithmetic::div_mod::lemma_small_mod(count_in_bucket(values, bv) as nat, m as nat);
    assert(h.buckets[bv] < u64::MAX);
    if values.len() == 0 {
        assert(h.min == u64::MAX);
    }
}

/// Removing one sample takes it out of the count below `b` exactly when its
/// bucket is below `b`.
proof fn lemma_count_below_remove(values: Seq<u64>, i: int, b: int)
    requires
        0 <= i < values.len(),
    ensures
        count_below(values, b) == count_below(values.remove(i), b) + (if bucket_of(
            values[i] as nat,
        ) < b {
            1int
        } else {
            0int
        }),
    decreases values.len(),
{
    if i == values.len() - 1 {
        assert(values.remove(i) =~= values.drop_last());
    } else {
        let rest = values.drop_last();
        lemma_count_below_remove(rest, i, b);
        assert(values.remove(i).drop_last() =~= rest.remove(i));
        assert(values.remove(i).last() == values.last());
        assert(rest[i] == values[i]);
    }
}

/// The count below `b` depends only on which values were recorded, not on
/// their order.
proof fn lemma_count_below_permutation(s1: Seq<u64>, s2: Seq<u64>, b: int)
    requires
        s1.to_multiset() == s2.to_multiset(),
    ensures
        count_below(s1, b) == count_below(s2, b),
    decreases s1.len(),
{
    broadcast use vstd::seq_lib::group_to_multiset_ensures;

    if s1.len() == 0 {
        assert(s2.len() == s2.to_multiset().len());
    } else {
        let x = s1.last();
        let r1 = s1.drop_last();
        assert(r1.push(x) =~= s1);
        assert(s1.to_multiset() == r1.to_multiset().insert(x));
        assert(s2.to_multiset().count(x) > 0);
        assert(s2.contains(x));
        let i = choose|i: int| 0 <= i < s2.len() && s2[i] == x;
        let r2 = s2.remove(i);
        assert(r2.to_multiset() == s2.to_multiset().remove(x));
        assert(r1.to_multiset() =~= r2.to_multiset());
        lemma_count_below_permutation(r1, r2, b);
        lemma_count_below_remove(s2, i, b);
    }
}

/// If every sample from index `m` on lies in bucket `b` or above, at most
/// `m` samples lie below `b`.
proof fn lemma_count_below_at_most(values: Seq<u64>, b: int, m: int)
    requires
        0 <= m,
        forall|j: int| m <= j < values.len() ==> bucket_of(#[trigger] values[j] as nat) >= b,
    ensures
        count_below(values, b) <= m,
    decreases values.len(),
{
    lemma_count_below_step(values, b);
    if values.len() > m {
        let rest = values.drop_last();
        assert forall|j: int| m <= j < rest.len() implies bucket_of(#[trigger] rest[j] as nat) >= b by {
            assert(rest[j] == values[j]);
        }
        lemma_count_below_at_most(rest, b, m);
        assert(values[values.len() - 1] == values.last());
    }
}

/// If the first `m` samples all lie below bucket `b`, at least `m` samples
/// lie below `b`.
proof fn lemma_count_below_at_least(values: Seq<u64>, b: int, m: int)
    requires
        0 <= m <= values.len(),
        forall|j: int| 0 <= j < m ==> bucket_of(#[trigger] values[j] as nat) < b,
    ensures
        count_below(values, b) >= m,
    decreases values.len(),
{
    if values.len() > 0 {
        let rest = values.drop_last();
        lemma_count_below_step(rest, b);
        if values.len() > m {
            assert forall|j: int| 0 <= j < m implies bucket_of(#[trigger] rest[j] as nat) < b by {
                assert(rest[j] == values[j]);
            }
            lemma_count_below_at_least(rest, b, m);
        } else {
            assert forall|j: int| 0 <= j < m - 1 implies bucket_of(#[trigger] rest[j] as nat) < b by {
                assert(rest[j] == values[j]);
            }
            lemma_count_below_at_least(rest, b, m - 1);
            assert(values[values.len() - 1] == values.last());
        }
    }
}

/// The samples in ascending order.
pub open spec fn is_sorted(values: Seq<u64>) -> bool {
    forall|i: int, j: int| 0 <= i <= j < values.len() ==> values[i] <= values[j]
}

/// Percentiles are the buckets of sorted samples: while fewer than `2^64`
/// values are recorded, the value reported for rank `rank` (between 1 and
/// the number of values) is the midpoint of the bucket of the `rank`-th
/// smallest value, that is, of `sorted[rank - 1]` for the values in
/// ascending order.
pub proof fn lemma_value_at_rank_is_kth_smallest(values: Seq<u64>, sorted: Seq<u64>, rank: u64)
    requires
        1 <= rank <= values.len() < 0x1_0000_0000_0000_0000,
        is_sorted(sorted),
        sorted.to_multiset() == values.to_multiset(),
    ensures
        HistogramView::empty().recorded_all(values).value_at_rank(rank) == bucket_mid(
            bucket_of(sorted[rank - 1] as nat),
        ) as u64,
{
    broadcast use vstd::seq_lib::group_to_multiset_ensures;

    assert(sorted.len() == values.len()) by {
        assert(sorted.len() == sorted.to_multiset().len());
        assert(values.len() == values.to_multiset().len());
    }
    let k = rank as int;
    let x = sorted[k - 1];
    let b = bucket_of(x as nat) as int;
    lemma_bucket_contains(x);
    assert forall|j: int| k - 1 <= j < sorted.len() implies bucket_of(#[trigger] sorted[j] as nat)
        >= b by {
        lemma_bucket_of_monotone(x, sorted[j]);
    }
    lemma_count_below_at_most(sorted, b, k - 1);
    assert forall|j: int| 0 <= j < k implies bucket_of(#[trigger] sorted[j] as nat) < b + 1 by {
        lemma_bucket_of_monotone(sorted[j], x);
    }
    lemma_count_below_at_least(sorted, b + 1, k);
    lemma_count_below_permutation(sorted, values, b);
    lemma_count_below_permutation(sorted, values, b + 1);
    lemma_value_at_rank_from_samples(values, rank, b);
}

/// The value reported for the sample of rank `rank` among `values`: the
/// midpoint of the bucket of the `rank`-th smallest of them, `sorted` being
/// `values` in ascending order.
pub open spec fn kth_smallest_mid(sorted: Seq<u64>, rank: u64) -> u64 {
    bucket_mid(bucket_of(sorted[rank - 1] as nat)) as u64
}

/// Each common percentile of a histogram filled from empty with `values`
/// is read at its own rank: p50 is the midpoint of the bucket of the
/// `ranks.p50`-th smallest sample, p90 that of the `ranks.p90`-th smallest,
/// and so on for p99, p999 and p9999; the statistics report the same five
/// values, together with the smallest and largest sample, their count and
/// (when the sum fits) their mean.
pub proof fn lemma_percentiles_from_samples(
    values: Seq<u64>,
    sorted: Seq<u64>,
    ranks: PercentileRanks,
)
    requires
        values.len() < 0x1_0000_0000_0000_0000,
        is_sorted(sorted),
        sorted.to_multiset() == values.to_multiset(),
        1 <= ranks.p50 <= values.len(),
        1 <= ranks.p90 <= values.len(),
        1 <= ranks.p99 <= values.len(),
        1 <= ranks.p999 <= values.len(),
        1 <= ranks.p9999 <= values.len(),
    ensures
        ({
            let h = HistogramView::empty().recorded_all(values);
            let p = h.percentiles_at(ranks);
            let st = h.stats(ranks);
            &&& p.p50 == kth_smallest_mid(sorted, ranks.p50)
            &&& p.p90 == kth_smallest_mid(sorted, ranks.p90)
            &&& p.p99 == kth_smallest_mid(sorted, ranks.p99)
            &&& p.p999 == kth_smallest_mid(sorted, ranks.p999)
            &&& p.p9999 == kth_smallest_mid(sorted, ranks.p9999)
            &&& st.p50 == kth_smallest_mid(sorted, ranks.p50)
            &&& st.p90 == kth_smallest_mid(sorted, ranks.p90)
            &&& st.p99 == kth_smallest_mid(sorted, ranks.p99)
            &&& st.p999 == kth_smallest_mid(sorted, ranks.p999)
            &&& st.p9999 == kth_smallest_mid(sorted, ranks.p9999)
            &&& st.min == min_of(values)
            &&& st.max == max_of(values)
            &&& st.count == values.len()
            &&& sum_of(values) <= u64::MAX ==> st.mean == sum_of(values) / (values.len() as int)
        }),
{
    lemma_value_at_rank_is_kth_smallest(values, sorted, ranks.p50);
    lemma_value_at_rank_is_kth_smallest(values, sorted, ranks.p90);
    lemma_value_at_rank_is_kth_smallest(values, sorted, ranks.p99);
    lemma_value_at_rank_is_kth_smallest(values, sorted, ranks.p999);
    lemma_value_at_rank_is_kth_smallest(values, sorted, ranks.p9999);
    lemma_recorded_all_summary(values);
    if sum_of(values) <= u64::MAX {
        lemma_recorded_all_reports(values);
    }
}

} // verus!
