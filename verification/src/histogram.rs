//! Latency histogram: counts per logarithmic bucket, plus the number,
//! sum, minimum and maximum of the samples, and percentiles read from the
//! bucket counts.

pub use crate::bucket::{NUM_BUCKETS, SUB_BITS, SUB_BUCKETS};

use vstd::prelude::*;

verus! {

use crate::bucket::{
    bucket_of,
    bucket_mid,
    lemma_bucket_contains,
    lemma_bucket_width_fits,
    lemma_bucket_mid_inside,
    lemma_buckets_contiguous,
    lemma_bucket_lower_increasing,
};
use crate::render::{decimal, push_decimal};

/// Histogram for tracking latency distributions.
///
/// Holds a count per bucket, the number of samples, their sum, and the
/// smallest and largest sample seen. Counters wrap around at `2^64`, as
/// atomic additions do.
pub struct Histogram {
    /// bucket counts
    buckets: Vec<u64>,
    /// total count of samples
    count: u64,
    /// sum of all samples, for the mean
    sum: u64,
    /// minimum value seen (`u64::MAX` while nothing is recorded)
    min: u64,
    /// maximum value seen
    max: u64,
}

impl Default for Histogram {
    /// An empty histogram, as `new` makes.
    fn default() -> (h: Self)
        ensures
            h.wf(),
            h@ == HistogramView::empty(),
    {
        Self::new()
    }
}

/// `(x + y) mod 2^64`: an addition on a `u64` counter that wraps around.
pub open spec fn add_mod(x: u64, y: u64) -> u64 {
    ((x + y) % 0x1_0000_0000_0000_0000) as u64
}

/// The state of a histogram: its counters, read as plain values.
#[verifier::ext_equal]
pub struct HistogramView {
    /// count per bucket (always `NUM_BUCKETS` entries)
    pub buckets: Seq<u64>,
    /// number of samples, modulo `2^64`
    pub count: u64,
    /// sum of the samples, modulo `2^64`
    pub sum: u64,
    /// smallest sample, `u64::MAX` when there is none
    pub min: u64,
    /// largest sample, 0 when there is none
    pub max: u64,
}

/// Sum of the first `n` bucket counts, as an exact integer.
pub open spec fn bucket_prefix(buckets: Seq<u64>, n: int) -> int
    decreases n,
{
    if n <= 0 {
        0
    } else {
        bucket_prefix(buckets, n - 1) + buckets[n - 1]
    }
}

/// The bucket that holds the sample of rank `target` (1-based): the first
/// bucket at which the running total of counts reaches `target`.
pub open spec fn rank_bucket(buckets: Seq<u64>, target: int) -> int {
    choose|i: int|
        0 <= i < NUM_BUCKETS && #[trigger] bucket_prefix(buckets, i) < target <= bucket_prefix(
            buckets,
            i + 1,
        )
}

impl HistogramView {
    /// A histogram with nothing recorded.
    pub open spec fn empty() -> HistogramView {
        HistogramView {
            buckets: Seq::new(NUM_BUCKETS as nat, |i: int| 0u64),
            count: 0,
            sum: 0,
            min: u64::MAX,
            max: 0,
        }
    }

    /// The state after recording `value`.
    pub open spec fn recorded(self, value: u64) -> HistogramView {
        let b = bucket_of(value as nat) as int;
        HistogramView {
            buckets: self.buckets.update(b, add_mod(self.buckets[b], 1)),
            count: add_mod(self.count, 1),
            sum: add_mod(self.sum, value),
            min: if value < self.min { value } else { self.min },
            max: if value > self.max { value } else { self.max },
        }
    }

    /// The counters agree with each other: one counter per bucket, the
    /// sample count equals the total of the bucket counts (modulo `2^64`),
    /// and the minimum does not exceed the maximum unless nothing is recorded.
    pub open spec fn consistent(self) -> bool {
        &&& self.buckets.len() == NUM_BUCKETS
        &&& self.count as int == self.total() % 0x1_0000_0000_0000_0000
        &&& (self.min <= self.max || (self.min == u64::MAX && self.max == 0))
    }

    /// The state after recording each of `values` in order.
    pub open spec fn recorded_all(self, values: Seq<u64>) -> HistogramView
        decreases values.len(),
    {
        if values.len() == 0 {
            self
        } else {
            self.recorded_all(values.drop_last()).recorded(values.last())
        }
    }

    /// Total of all bucket counts, as an exact integer.
    pub open spec fn total(self) -> int {
        bucket_prefix(self.buckets, NUM_BUCKETS as int)
    }

    /// Value reported for the sample of rank `rank` (1-based, a rank of 0
    /// counts as 1): the midpoint of the bucket holding it; 0 when nothing
    /// is recorded or the rank exceeds the bucket total.
    pub open spec fn value_at_rank(self, rank: u64) -> u64 {
        let target: int = if rank < 1 { 1 } else { rank as int };
        if self.count == 0 || self.total() < target {
            0
        } else {
            bucket_mid(rank_bucket(self.buckets, target) as nat) as u64
        }
    }

    /// The minimum as reported: the smallest sample, or 0 while the count
    /// of samples is zero.
    pub open spec fn reported_min(self) -> u64 {
        if self.count == 0 { 0 } else { self.min }
    }

    /// The percentile values reported by `common_percentiles` for the
    /// given ranks.
    pub open spec fn percentiles_at(self, ranks: PercentileRanks) -> Percentiles {
        Percentiles {
            p50: self.value_at_rank(ranks.p50),
            p90: self.value_at_rank(ranks.p90),
            p99: self.value_at_rank(ranks.p99),
            p999: self.value_at_rank(ranks.p999),
            p9999: self.value_at_rank(ranks.p9999),
        }
    }

    /// The statistics reported by `stats` for the given percentile ranks.
    pub open spec fn stats(self, ranks: PercentileRanks) -> crate::LatencyStats {
        let p = self.percentiles_at(ranks);
        crate::LatencyStats {
            min: self.reported_min(),
            max: self.max,
            mean: self.mean(),
            p50: p.p50,
            p90: p.p90,
            p99: p.p99,
            p999: p.p999,
            p9999: p.p9999,
            count: self.count,
        }
    }

    /// Mean of the samples: the wrapped sum divided by the wrapped count.
    pub open spec fn mean(self) -> u64 {
        if self.count == 0 { 0 } else { self.sum / self.count }
    }
}

/// Running totals of bucket counts never decrease.
pub proof fn lemma_bucket_prefix_monotone(buckets: Seq<u64>, i: int, j: int)
    requires
        0 <= i <= j,
    ensures
        bucket_prefix(buckets, i) <= bucket_prefix(buckets, j),
    decreases j - i,
{
    if i < j {
        lemma_bucket_prefix_monotone(buckets, i, j - 1);
    }
}

/// The bucket at which the running total first reaches `target` is unique.
pub(crate) proof fn lemma_rank_bucket_is(buckets: Seq<u64>, target: int, i: int)
    requires
        0 <= i < NUM_BUCKETS,
        bucket_prefix(buckets, i) < target <= bucket_prefix(buckets, i + 1),
    ensures
        rank_bucket(buckets, target) == i,
{
    let j = rank_bucket(buckets, target);
    assert(0 <= j < NUM_BUCKETS && bucket_prefix(buckets, j) < target <= bucket_prefix(buckets, j + 1));
    if j < i {
        lemma_bucket_prefix_monotone(buckets, j + 1, i);
    } else if i < j {
        lemma_bucket_prefix_monotone(buckets, i + 1, j);
    }
}

/// When the bucket total reaches `target`, some bucket is the first one at
/// which the running total reaches it.
proof fn lemma_rank_bucket_exists(buckets: Seq<u64>, target: int, n: int)
    requires
        1 <= target <= bucket_prefix(buckets, n),
        0 <= n <= NUM_BUCKETS,
    ensures
        0 <= rank_bucket(buckets, target) < n,
        bucket_prefix(buckets, rank_bucket(buckets, target)) < target <= bucket_prefix(
            buckets,
            rank_bucket(buckets, target) + 1,
        ),
    decreases n,
{
    if bucket_prefix(buckets, n - 1) >= target {
        lemma_rank_bucket_exists(buckets, target, n - 1);
    } else {
        lemma_rank_bucket_is(buckets, target, n - 1);
    }
}

/// Percentiles never decrease with the rank: for consistent counters, a
/// higher rank (within the bucket total) never reports a smaller value.
pub proof fn lemma_value_at_rank_monotone(h: HistogramView, r1: u64, r2: u64)
    requires
        h.consistent(),
        r1 <= r2,
        r2 <= h.total(),
    ensures
        h.value_at_rank(r1) <= h.value_at_rank(r2),
{
    let t1: int = if r1 < 1 { 1 } else { r1 as int };
    let t2: int = if r2 < 1 { 1 } else { r2 as int };
    if h.count != 0 && t2 <= h.total() {
        lemma_rank_bucket_exists(h.buckets, t1, NUM_BUCKETS as int);
        lemma_rank_bucket_exists(h.buckets, t2, NUM_BUCKETS as int);
        let b1 = rank_bucket(h.buckets, t1);
        let b2 = rank_bucket(h.buckets, t2);
        if b2 < b1 {
            lemma_bucket_prefix_monotone(h.buckets, b2 + 1, b1);
        }
        lemma_bucket_width_fits(b1 as nat);
        lemma_bucket_width_fits(b2 as nat);
        lemma_bucket_mid_inside(b1 as nat);
        lemma_bucket_mid_inside(b2 as nat);
        if b1 < b2 {
            lemma_buckets_contiguous(b1 as nat);
            if b1 + 1 < b2 {
                lemma_bucket_lower_increasing((b1 + 1) as nat, b2 as nat);
            }
        }
    } else if h.count == 0 {
    } else {
        // the bucket total is at least the count, which is at least 1
        assert(h.total() >= 0) by {
            lemma_bucket_prefix_monotone(h.buckets, 0, NUM_BUCKETS as int);
        }
    }
}

/// The reported percentiles are ordered: p50 <= p90 <= p99 <= p999 <= p9999,
/// for every histogram with consistent counters and ordered ranks within
/// the bucket total (such as the ranks of 50%, 90%, 99%, 99.9% and 99.99%
/// of the count).
pub proof fn lemma_common_percentiles_ordered(h: HistogramView, ranks: PercentileRanks)
    requires
        h.consistent(),
        ranks.p50 <= ranks.p90 <= ranks.p99 <= ranks.p999 <= ranks.p9999,
        ranks.p9999 <= h.total(),
    ensures
        h.percentiles_at(ranks).p50 <= h.percentiles_at(ranks).p90,
        h.percentiles_at(ranks).p90 <= h.percentiles_at(ranks).p99,
        h.percentiles_at(ranks).p99 <= h.percentiles_at(ranks).p999,
        h.percentiles_at(ranks).p999 <= h.percentiles_at(ranks).p9999,
{
    lemma_value_at_rank_monotone(h, ranks.p50, ranks.p90);
    lemma_value_at_rank_monotone(h, ranks.p90, ranks.p99);
    lemma_value_at_rank_monotone(h, ranks.p99, ranks.p999);
    lemma_value_at_rank_monotone(h, ranks.p999, ranks.p9999);
}

/// The bucket total is at least the sample count, so ranks up to the count
/// are always found.
pub proof fn lemma_count_within_total(h: HistogramView)
    requires
        h.consistent(),
    ensures
        h.count <= h.total(),
{
    lemma_bucket_prefix_monotone(h.buckets, 0, NUM_BUCKETS as int);
    vstd::arithmetic::div_mod::lemma_mod_decreases(h.total() as nat, 0x1_0000_0000_0000_0000nat);
}

/// Ranks (1-based, as numbers of samples) at which the common percentiles
/// p50, p90, p99, p999 and p9999 are read: `count * p / 100` for each
/// percentage `p`, computed by the caller.
#[derive(Debug, Clone, Copy)]
pub struct PercentileRanks {
    pub p50: u64,
    pub p90: u64,
    pub p99: u64,
    pub p999: u64,
    pub p9999: u64,
}

/// Common percentile values.
#[derive(Debug, Clone, Copy, Default)]
pub struct Percentiles {
    pub p50: u64,
    pub p90: u64,
    pub p99: u64,
    pub p999: u64,
    pub p9999: u64,
}

impl Percentiles {
    /// The text of `format`: all five percentiles in nanoseconds.
    pub open spec fn format_spec(self) -> Seq<char> {
        "p50="@ + decimal(self.p50 as nat) + "ns p90="@ + decimal(self.p90 as nat) + "ns p99="@
            + decimal(self.p99 as nat) + "ns p999="@ + decimal(self.p999 as nat) + "ns p9999="@
            + decimal(self.p9999 as nat) + "ns"@
    }

    /// The text of `format_micros`: all five percentiles in whole microseconds.
    pub open spec fn format_micros_spec(self) -> Seq<char> {
        "p50="@ + decimal(self.p50 as nat / 1000) + "μs p90="@ + decimal(self.p90 as nat / 1000)
            + "μs p99="@ + decimal(self.p99 as nat / 1000) + "μs p999="@ + decimal(
            self.p999 as nat / 1000,
        ) + "μs p9999="@ + decimal(self.p9999 as nat / 1000) + "μs"@
    }

    /// Formats percentiles as a string.
    pub fn format(&self) -> (s: String)
        ensures
            s@ == self.format_spec(),
    {
        let mut s = String::from_str("p50=");
        push_decimal(&mut s, self.p50);
        s.append("ns p90=");
        push_decimal(&mut s, self.p90);
        s.append("ns p99=");
        push_decimal(&mut s, self.p99);
        s.append("ns p999=");
        push_decimal(&mut s, self.p999);
        s.append("ns p9999=");
        push_decimal(&mut s, self.p9999);
        s.append("ns");
        s
    }

    /// Formats with microsecond units.
    pub fn format_micros(&self) -> (s: String)
        ensures
            s@ == self.format_micros_spec(),
    {
        let mut s = String::from_str("p50=");
        push_decimal(&mut s, self.p50 / 1000);
        s.append("μs p90=");
        push_decimal(&mut s, self.p90 / 1000);
        s.append("μs p99=");
        push_decimal(&mut s, self.p99 / 1000);
        s.append("μs p999=");
        push_decimal(&mut s, self.p999 / 1000);
        s.append("μs p9999=");
        push_decimal(&mut s, self.p9999 / 1000);
        s.append("μs");
        s
    }
}

proof fn lemma_bucket_prefix_zero(buckets: Seq<u64>, n: int)
    requires
        0 <= n <= buckets.len(),
        forall|i: int| 0 <= i < buckets.len() ==> buckets[i] == 0,
    ensures
        bucket_prefix(buckets, n) == 0,
    decreases n,
{
    if n > 0 {
        lemma_bucket_prefix_zero(buckets, n - 1);
    }
}

proof fn lemma_bucket_prefix_update(buckets: Seq<u64>, b: int, x: u64, n: int)
    requires
        0 <= b < buckets.len(),
        0 <= n <= buckets.len(),
    ensures
        bucket_prefix(buckets.update(b, x), n) == bucket_prefix(buckets, n) + (if b < n {
            x - buckets[b]
        } else {
            0
        }),
    decreases n,
{
    if n > 0 {
        lemma_bucket_prefix_update(buckets, b, x, n - 1);
    }
}

/// A histogram with nothing recorded is consistent.
pub proof fn lemma_empty_consistent()
    ensures
        HistogramView::empty().consistent(),
{
    let e = HistogramView::empty();
    lemma_bucket_prefix_zero(e.buckets, NUM_BUCKETS as int);
}

/// Recording a value keeps the counters consistent.
pub proof fn lemma_recorded_consistent(h: HistogramView, value: u64)
    requires
        h.consistent(),
    ensures
        h.recorded(value).consistent(),
{
    let b = bucket_of(value as nat) as int;
    lemma_bucket_contains(value);
    let old_count = h.buckets[b];
    lemma_bucket_prefix_update(h.buckets, b, add_mod(old_count, 1), NUM_BUCKETS as int);
    let t = h.total();
    let t2 = h.recorded(value).total();
    let m = 0x1_0000_0000_0000_0000int;
    lemma_bucket_prefix_monotone(h.buckets, 0, NUM_BUCKETS as int);
    if old_count == u64::MAX {
        assert(t2 == t + 1 - m);
        assert((t + 1) % m == (t + 1 - m) % m) by {
            vstd::arithmetic::div_mod::lemma_mod_sub_multiples_vanish(t + 1, m);
        }
    } else {
        assert(t2 == t + 1);
    }
    assert((t % m + 1) % m == (t + 1) % m) by {
        vstd::arithmetic::div_mod::lemma_add_mod_noop(t, 1, m);
        vstd::arithmetic::div_mod::lemma_mod_twice(1, m);
    }
}

impl View for Histogram {
    type V = HistogramView;

    closed spec fn view(&self) -> HistogramView {
        HistogramView {
            buckets: Seq::new(NUM_BUCKETS as nat, |i: int| self.buckets@[i]),
            count: self.count,
            sum: self.sum,
            min: self.min,
            max: self.max,
        }
    }
}

proof fn lemma_wrapping_add(x: u64, y: u64)
    ensures
        vstd::wrapping::u64_specs::wrapping_add(x, y) == add_mod(x, y),
{
}

impl Histogram {
    /// Well-formedness: one counter per bucket, and counters consistent
    /// with each other.
    pub closed spec fn wf(&self) -> bool {
        &&& self.buckets.len() == NUM_BUCKETS
        &&& self@.consistent()
    }

    /// Every well-formed histogram has consistent counters: its sample
    /// count equals the total of its bucket counts (modulo `2^64`), and its
    /// minimum does not exceed its maximum unless nothing is recorded.
    pub proof fn lemma_consistent(&self)
        requires
            self.wf(),
        ensures
            self@.consistent(),
    {
    }

    /// Creates a new empty histogram.
    pub fn new() -> (h: Self)
        ensures
            h.wf(),
            h@ == HistogramView::empty(),
    {
        let buckets: Vec<u64> = vec![0u64; NUM_BUCKETS];
        let h = Self { buckets, count: 0, sum: 0, min: u64::MAX, max: 0 };
        assert(h@.buckets =~= HistogramView::empty().buckets);
        proof {
            lemma_empty_consistent();
        }
        h
    }

    /// Records a value in nanoseconds.
    pub fn record(&mut self, value_ns: u64)
        requires
            old(self).wf(),
        ensures
            final(self).wf(),
            final(self)@ == old(self)@.recorded(value_ns),
    {
        proof {
            lemma_wrapping_add(self.count, 1);
            lemma_wrapping_add(self.sum, value_ns);
        }
        let bucket = Self::value_to_bucket(value_ns);
        let c = self.buckets[bucket];
        proof {
            lemma_wrapping_add(c, 1);
        }
        self.buckets.set(bucket, c.wrapping_add(1));
        self.count = self.count.wrapping_add(1);
        self.sum = self.sum.wrapping_add(value_ns);
        self.update_min(value_ns);
        self.update_max(value_ns);
        assert(self@.buckets =~= old(self)@.recorded(value_ns).buckets);
        proof {
            lemma_recorded_consistent(old(self)@, value_ns);
        }
    }

    /// Clears the histogram.
    pub fn clear(&mut self)
        requires
            old(self).wf(),
        ensures
            final(self).wf(),
            final(self)@ == HistogramView::empty(),
    {
        let mut i: usize = 0;
        while i < NUM_BUCKETS
            invariant
                self.buckets.len() == NUM_BUCKETS,
                0 <= i <= NUM_BUCKETS,
                forall|j: int| 0 <= j < i ==> self.buckets@[j] == 0,
            decreases NUM_BUCKETS - i,
        {
            self.buckets.set(i, 0);
            i = i + 1;
        }
        self.count = 0;
        self.sum = 0;
        self.min = u64::MAX;
        self.max = 0;
        assert(self@.buckets =~= HistogramView::empty().buckets);
        proof {
            lemma_empty_consistent();
        }
    }

    /// Gets the total count of samples.
    pub fn count(&self) -> (count: u64)
        ensures
            count == self@.count,
    {
        self.count
    }

    /// Gets the minimum value (0 while nothing is recorded).
    pub fn min(&self) -> (min: u64)
        ensures
            min == self@.reported_min(),
    {
        if self.count == 0 {
            0
        } else {
            self.min
        }
    }

    /// Gets the maximum value.
    pub fn max(&self) -> (max: u64)
        ensures
            max == self@.max,
    {
        self.max
    }

    /// Calculates the mean value.
    pub fn mean(&self) -> (mean: u64)
        ensures
            mean == self@.mean(),
    {
        let count = self.count;
        if count == 0 {
            0
        } else {
            self.sum / count
        }
    }

    /// Value reported for the sample of the given rank (1-based; a rank of 0
    /// counts as 1): the midpoint of the first bucket at which the running
    /// total of bucket counts reaches the rank.
    pub fn value_at_rank(&self, rank: u64) -> (value: u64)
        requires
            self.wf(),
        ensures
            value == self@.value_at_rank(rank),
    {
        let count = self.count;
        if count == 0 {
            return 0;
        }
        let target: u64 = if rank < 1 {
            1
        } else {
            rank
        };
        let ghost buckets = self@.buckets;
        assert(buckets =~= self.buckets@);
        let mut cumulative: u128 = 0;
        let mut i: usize = 0;
        while i < NUM_BUCKETS
            invariant
                self.buckets.len() == NUM_BUCKETS,
                buckets == self.buckets@,
                buckets == self@.buckets,
                self@.count != 0,
                target == (if rank < 1 { 1 } else { rank }),
                0 <= i <= NUM_BUCKETS,
                cumulative == bucket_prefix(buckets, i as int),
                cumulative < target,
            decreases NUM_BUCKETS - i,
        {
            cumulative = cumulative + self.buckets[i] as u128;
            if cumulative >= target as u128 {
                proof {
                    lemma_rank_bucket_is(buckets, target as int, i as int);
                    lemma_bucket_prefix_monotone(buckets, i as int + 1, NUM_BUCKETS as int);
                    lemma_bucket_width_fits(i as nat);
                }
                return Self::bucket_midpoint(i);
            }
            i = i + 1;
        }
        0
    }

    /// Gets common percentiles (p50, p90, p99, p999, p9999), read at the
    /// given ranks.
    pub fn common_percentiles(&self, ranks: &PercentileRanks) -> (p: Percentiles)
        requires
            self.wf(),
        ensures
            p == self@.percentiles_at(*ranks),
            p.p50 == self@.value_at_rank(ranks.p50),
            p.p90 == self@.value_at_rank(ranks.p90),
            p.p99 == self@.value_at_rank(ranks.p99),
            p.p999 == self@.value_at_rank(ranks.p999),
            p.p9999 == self@.value_at_rank(ranks.p9999),
    {
        Percentiles {
            p50: self.value_at_rank(ranks.p50),
            p90: self.value_at_rank(ranks.p90),
            p99: self.value_at_rank(ranks.p99),
            p999: self.value_at_rank(ranks.p999),
            p9999: self.value_at_rank(ranks.p9999),
        }
    }

    /// Gets latency statistics, with the percentiles read at the given ranks.
    pub fn stats(&self, ranks: &PercentileRanks) -> (stats: crate::LatencyStats)
        requires
            self.wf(),
        ensures
            stats == self@.stats(*ranks),
            stats.p50 == self@.value_at_rank(ranks.p50),
            stats.p90 == self@.value_at_rank(ranks.p90),
            stats.p99 == self@.value_at_rank(ranks.p99),
            stats.p999 == self@.value_at_rank(ranks.p999),
            stats.p9999 == self@.value_at_rank(ranks.p9999),
            stats.min == self@.reported_min(),
            stats.max == self@.max,
            stats.mean == self@.mean(),
            stats.count == self@.count,
    {
        let percentiles = self.common_percentiles(ranks);
        crate::LatencyStats {
            min: self.min(),
            max: self.max(),
            mean: self.mean(),
            p50: percentiles.p50,
            p90: percentiles.p90,
            p99: percentiles.p99,
            p999: percentiles.p999,
            p9999: percentiles.p9999,
            count: self.count(),
        }
    }

    /// Lowers the minimum to `value` when `value` is smaller.
    fn update_min(&mut self, value: u64)
        ensures
            final(self).min == (if value < old(self).min { value } else { old(self).min }),
            final(self).buckets == old(self).buckets,
            final(self).count == old(self).count,
            final(self).sum == old(self).sum,
            final(self).max == old(self).max,
    {
        if value < self.min {
            self.min = value;
        }
    }

    /// Raises the maximum to `value` when `value` is larger.
    fn update_max(&mut self, value: u64)
        ensures
            final(self).max == (if value > old(self).max { value } else { old(self).max }),
            final(self).buckets == old(self).buckets,
            final(self).count == old(self).count,
            final(self).sum == old(self).sum,
            final(self).min == old(self).min,
    {
        if value > self.max {
            self.max = value;
        }
    }
}

} // verus!
