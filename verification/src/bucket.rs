//! Logarithmic buckets: the mapping between values and bucket indices.
//!
//! A value is placed by its magnitude (the position of its leading one bit)
//! and the `SUB_BITS` bits that follow it, so every power-of-two range is split
//! into `SUB_BUCKETS` equal sub-buckets.

use vstd::prelude::*;

verus! {

use vstd::arithmetic::power2::{pow2, lemma_pow2_pos, lemma_pow2_unfold, lemma_pow2_adds, lemma_pow2_strictly_increases, lemma2_to64};
use vstd::arithmetic::div_mod::{lemma_fundamental_div_mod, lemma_fundamental_div_mod_converse};
use vstd::bits::lemma_u64_shr_is_div;
use vstd::std_specs::bits::{u64_leading_zeros, axiom_u64_leading_zeros};
use crate::histogram::Histogram;

/// Number of precision bits kept after the leading one bit.
pub const SUB_BITS: u32 = 6;

/// Sub-buckets per power-of-two range (`1 << SUB_BITS`).
pub const SUB_BUCKETS: usize = 64;

/// Total number of buckets: the linear region plus one group of
/// `SUB_BUCKETS` buckets for each magnitude from `SUB_BITS` to 63.
pub const NUM_BUCKETS: usize = SUB_BUCKETS + 58 * SUB_BUCKETS;

/// `floor(log2(v))` for `v >= 1` (and 0 for `v == 0`).
pub open spec fn magnitude(v: nat) -> nat
    decreases v,
{
    if v < 2 {
        0
    } else {
        1 + magnitude(v / 2)
    }
}

/// The bucket that holds `v`: values below `SUB_BUCKETS` have a bucket each;
/// above, the bucket is given by the magnitude and the next `SUB_BITS` bits.
pub open spec fn bucket_of(v: nat) -> nat {
    if v < 64 {
        v
    } else {
        let shift = (magnitude(v) - 6) as nat;
        shift * 64 + v / pow2(shift)
    }
}

/// Width of bucket `b` (how many integers it covers).
pub open spec fn bucket_width(b: nat) -> nat {
    if b < 64 {
        1
    } else {
        pow2((b / 64 - 1) as nat)
    }
}

/// Smallest value that falls into bucket `b`.
pub open spec fn bucket_lower(b: nat) -> nat {
    if b < 64 {
        b
    } else {
        bucket_width(b) * (64 + b % 64)
    }
}

/// Representative value of bucket `b`: the middle of the range it covers.
pub open spec fn bucket_mid(b: nat) -> nat {
    bucket_lower(b) + bucket_width(b) / 2
}

/// `2^k <= v < 2^(k+1)` pins down the magnitude of `v`.
proof fn lemma_magnitude_bounds(v: nat)
    requires
        v >= 1,
    ensures
        pow2(magnitude(v)) <= v < pow2(magnitude(v) + 1),
    decreases v,
{
    lemma_pow2_unfold(magnitude(v) + 1);
    if v < 2 {
        lemma2_to64();
    } else {
        lemma_magnitude_bounds(v / 2);
        lemma_pow2_unfold(magnitude(v));
    }
}

/// The count of leading zero bits of a nonzero `u64` is `63 - magnitude`.
proof fn lemma_leading_zeros_magnitude(v: u64)
    requires
        v >= 1,
    ensures
        u64_leading_zeros(v) == 63 - magnitude(v as nat),
    decreases v,
{
    reveal(u64_leading_zeros);
    if v < 2 {
        assert(u64_leading_zeros(0) == 64);
    } else {
        lemma_leading_zeros_magnitude(v / 2);
    }
}

/// Quotient bounds: `lo * d <= x < hi * d` gives `lo <= x / d < hi`.
proof fn lemma_div_between(x: int, d: int, lo: int, hi: int)
    requires
        d > 0,
        lo * d <= x < hi * d,
    ensures
        lo <= x / d < hi,
{
    lemma_fundamental_div_mod(x, d);
    let q = x / d;
    let r = x % d;
    assert(lo <= q < hi) by (nonlinear_arith)
        requires
            x == d * q + r,
            0 <= r < d,
            lo * d <= x < hi * d,
            d > 0,
    ;
}


/// Every bucket's range stays inside `u64`: its width is at most `2^57` and
/// its lower bound plus its width is at most `2^64`.
pub(crate) proof fn lemma_bucket_width_fits(b: nat)
    requires
        b < NUM_BUCKETS,
    ensures
        bucket_width(b) >= 1,
        b >= 64 ==> bucket_width(b) == pow2((b / 64 - 1) as nat),
        b >= 64 ==> bucket_width(b) <= 0x200_0000_0000_0000,
        b >= 64 ==> (64 + b % 64) * bucket_width(b) <= 0xffff_ffff_ffff_ffff,
        bucket_lower(b) + bucket_width(b) <= 0x1_0000_0000_0000_0000,
{
    if b >= 64 {
        let g = (b / 64 - 1) as nat;
        lemma_pow2_pos(g);
        lemma_pow2_adds(g, 7);
        lemma_pow2_adds((57 - g) as nat, g);
        lemma_pow2_pos((57 - g) as nat);
        assert(pow2(57) == 0x200_0000_0000_0000 && pow2(64) == 0x1_0000_0000_0000_0000
            && pow2(7) == 128) by {
            lemma2_to64();
            vstd::arithmetic::power2::lemma2_to64_rest();
        }
        assert(pow2((57 - g) as nat + g) == pow2(57));
        assert(bucket_width(b) <= pow2(57)) by (nonlinear_arith)
            requires
                pow2((57 - g) as nat) * bucket_width(b) == pow2(57),
                pow2((57 - g) as nat) >= 1,
                bucket_width(b) >= 1,
        ;
        assert(pow2(g + 7) == bucket_width(b) * 128);
        assert(pow2(g + 7) <= pow2(64)) by {
            if g + 7 < 64 {
                lemma_pow2_strictly_increases(g + 7, 64);
            }
        }
        assert((64 + b % 64) * bucket_width(b) + bucket_width(b) <= 128 * bucket_width(b))
            by (nonlinear_arith)
            requires
                b % 64 < 64,
        ;
    }
}


/// Shape of `bucket_of(v)` above the linear region: with `shift` the
/// magnitude minus `SUB_BITS`, the bucket lies in group `shift + 1` at
/// position `v / 2^shift - 64`.
proof fn lemma_bucket_of_parts(v: nat)
    requires
        64 <= v < 0x1_0000_0000_0000_0000,
    ensures
        6 <= magnitude(v) <= 63,
        64 <= v / pow2((magnitude(v) - 6) as nat) < 128,
        bucket_of(v) / 64 == magnitude(v) - 5,
        bucket_of(v) % 64 == v / pow2((magnitude(v) - 6) as nat) - 64,
        bucket_width(bucket_of(v)) == pow2((magnitude(v) - 6) as nat),
        bucket_of(v) < NUM_BUCKETS,
{
    lemma_magnitude_bounds(v);
    let m = magnitude(v);
    lemma2_to64();
    vstd::arithmetic::power2::lemma2_to64_rest();
    if m < 6 {
        lemma_pow2_strictly_increases(m + 1, 6);
    }
    if m > 63 {
        lemma_pow2_strictly_increases(64, m);
    }
    let shift = (m - 6) as nat;
    lemma_pow2_pos(shift);
    lemma_pow2_adds(shift, 6);
    lemma_pow2_adds(shift, 7);
    assert(shift + 6 == m && shift + 7 == m + 1);
    lemma_div_between(v as int, pow2(shift) as int, 64, 128);
    let q = v / pow2(shift);
    assert(bucket_of(v) == shift * 64 + q);
    assert((shift * 64 + q) / 64 == shift + 1 && (shift * 64 + q) % 64 == q - 64) by {
        lemma_fundamental_div_mod_converse((shift * 64 + q) as int, 64, (shift + 1) as int, (q - 64) as int);
    }
}

/// Every value lies in the range of its bucket:
/// `bucket_lower(b) <= v < bucket_lower(b) + bucket_width(b)` for `b = bucket_of(v)`.
pub proof fn lemma_bucket_contains(v: u64)
    ensures
        bucket_of(v as nat) < NUM_BUCKETS,
        bucket_lower(bucket_of(v as nat)) <= v,
        v < bucket_lower(bucket_of(v as nat)) + bucket_width(bucket_of(v as nat)),
{
    if v >= 64 {
        lemma_bucket_of_parts(v as nat);
        let shift = (magnitude(v as nat) - 6) as nat;
        let p = pow2(shift);
        let q = v as nat / p;
        lemma_pow2_pos(shift);
        lemma_fundamental_div_mod(v as int, p as int);
        let b = bucket_of(v as nat);
        assert(64 + b % 64 == q);
        assert(bucket_lower(b) == p * q);
        assert(p * q <= v < p * q + p) by (nonlinear_arith)
            requires
                v == p * q + (v as int) % (p as int),
                0 <= (v as int) % (p as int) < p,
        ;
    }
}

/// Adjacent buckets are contiguous: each starts where the previous ends.
pub proof fn lemma_buckets_contiguous(b: nat)
    requires
        b + 1 < NUM_BUCKETS,
    ensures
        bucket_lower(b + 1) == bucket_lower(b) + bucket_width(b),
{
    if b >= 64 {
        let g = (b / 64 - 1) as nat;
        if b % 64 == 63 {
            assert((b + 1) / 64 == b / 64 + 1);
            assert((b + 1) % 64 == 0);
            lemma_pow2_unfold(g + 1);
            assert(bucket_width(b + 1) == 2 * bucket_width(b));
            assert(bucket_lower(b + 1) == bucket_width(b + 1) * 64);
            assert(bucket_lower(b) == bucket_width(b) * 127);
        } else {
            assert((b + 1) / 64 == b / 64);
            assert((b + 1) % 64 == b % 64 + 1);
            assert(bucket_width(b) * (64 + b % 64 + 1) == bucket_width(b) * (64 + b % 64)
                + bucket_width(b)) by (nonlinear_arith);
        }
    } else if b == 63 {
        assert(pow2(0) == 1) by {
            lemma2_to64();
        }
    }
}

/// Bucket lower bounds strictly increase with the bucket index.
pub proof fn lemma_bucket_lower_increasing(b1: nat, b2: nat)
    requires
        b1 < b2 < NUM_BUCKETS,
    ensures
        bucket_lower(b1) < bucket_lower(b2),
    decreases b2 - b1,
{
    lemma_buckets_contiguous(b1);
    lemma_bucket_width_fits(b1);
    if b1 + 1 < b2 {
        lemma_bucket_lower_increasing(b1 + 1, b2);
    }
}

/// The bucket of a bucket's lower bound is that bucket.
pub proof fn lemma_bucket_round_trip(b: nat)
    requires
        b < NUM_BUCKETS,
    ensures
        bucket_of(bucket_lower(b)) == b,
{
    lemma_bucket_width_fits(b);
    let lower = bucket_lower(b);
    lemma_bucket_contains(lower as u64);
    let c = bucket_of(lower);
    if c < b {
        lemma_buckets_contiguous(c);
        if c + 1 < b {
            lemma_bucket_lower_increasing(c + 1, b);
        }
    } else if b < c {
        lemma_bucket_lower_increasing(b, c);
    }
}

/// Larger values never go to smaller buckets.
pub proof fn lemma_bucket_of_monotone(v1: u64, v2: u64)
    requires
        v1 <= v2,
    ensures
        bucket_of(v1 as nat) <= bucket_of(v2 as nat),
{
    lemma_bucket_contains(v1);
    lemma_bucket_contains(v2);
    let b1 = bucket_of(v1 as nat);
    let b2 = bucket_of(v2 as nat);
    if b2 < b1 {
        lemma_buckets_contiguous(b2);
        if b2 + 1 < b1 {
            lemma_bucket_lower_increasing(b2 + 1, b1);
        }
    }
}

/// Relative precision: a value exceeds the lower bound of its bucket by at
/// most a `1 / SUB_BUCKETS` fraction of that bound.
pub proof fn lemma_bucket_precision(v: u64)
    ensures
        64 * (v - bucket_lower(bucket_of(v as nat))) <= bucket_lower(bucket_of(v as nat)),
{
    lemma_bucket_contains(v);
    let b = bucket_of(v as nat);
    if v >= 64 {
        lemma_bucket_of_parts(v as nat);
        lemma_bucket_width_fits(b);
        assert(64 * bucket_width(b) <= bucket_width(b) * (64 + b % 64)) by (nonlinear_arith);
    }
}

/// The representative value of a bucket lies inside the bucket.
pub proof fn lemma_bucket_mid_inside(b: nat)
    requires
        b < NUM_BUCKETS,
    ensures
        bucket_lower(b) <= bucket_mid(b) < bucket_lower(b) + bucket_width(b),
{
    lemma_bucket_width_fits(b);
}

impl Histogram {
    /// Converts a value to the index of the bucket that holds it.
    pub fn value_to_bucket(value: u64) -> (bucket: usize)
        ensures
            bucket == bucket_of(value as nat),
            bucket < NUM_BUCKETS,
    {
        if value == 0 {
            return 0;
        }
        proof {
            axiom_u64_leading_zeros(value);
            lemma_leading_zeros_magnitude(value);
            lemma_magnitude_bounds(value as nat);
        }
        let mag: u32 = 63 - value.leading_zeros();
        if mag < SUB_BITS {
            proof {
                if value >= 64 {
                    lemma2_to64();
                    if mag < 6 {
                        lemma_pow2_strictly_increases(mag as nat + 1, 6);
                    }
                }
            }
            value as usize
        } else {
            let shift: u32 = mag - SUB_BITS;
            let q: u64 = value >> shift;
            proof {
                lemma_u64_shr_is_div(value, shift as u64);
                lemma_pow2_pos(shift as nat);
                lemma_pow2_adds(shift as nat, 6);
                lemma_pow2_adds(shift as nat, 7);
                lemma2_to64();
                lemma_div_between(value as int, pow2(shift as nat) as int, 64, 128);
                assert(value as nat >= 64) by {
                    if mag > 6 {
                        lemma_pow2_strictly_increases(6, mag as nat);
                    }
                }
            }
            let sub: usize = (q as usize) & (SUB_BUCKETS - 1);
            assert(sub == q - 64) by (bit_vector)
                requires
                    64 <= q < 128,
                    sub == (q as usize) & 63usize,
            ;
            let base: usize = ((mag - SUB_BITS) as usize + 1) * SUB_BUCKETS;
            let bucket: usize = base + sub;
            if bucket < NUM_BUCKETS - 1 {
                bucket
            } else {
                NUM_BUCKETS - 1
            }
        }
    }

    /// Converts a bucket index to the smallest value that falls into it.
    pub fn bucket_to_value(bucket: usize) -> (value: u64)
        requires
            bucket < NUM_BUCKETS,
        ensures
            value == bucket_lower(bucket as nat),
    {
        if bucket < SUB_BUCKETS {
            bucket as u64
        } else {
            let group: usize = (bucket / SUB_BUCKETS) - 1;
            let sub: usize = bucket & (SUB_BUCKETS - 1);
            let mag: usize = group + SUB_BITS as usize;
            let shift: usize = mag - SUB_BITS as usize;
            assert(sub == bucket % 64) by (bit_vector)
                requires
                    sub == bucket & 63usize,
            ;
            let g: u64 = shift as u64;
            let s: u64 = sub as u64;
            let m: u64 = mag as u64;
            let value: u64 = (1u64 << m) | (s << g);
            let t: u64 = 64 + s;
            assert(value == t << g) by (bit_vector)
                requires
                    value == (1u64 << m) | (s << g),
                    m == g + 6,
                    t == 64 + s,
                    s < 64,
                    g <= 57,
            ;
            proof {
                lemma_bucket_width_fits(bucket as nat);
                vstd::bits::lemma_u64_shl_is_mul(t, g);
                assert(g as nat == (bucket as nat / 64 - 1) as nat);
                assert(bucket_width(bucket as nat) == pow2(g as nat));
                assert(t * pow2(g as nat) == pow2(g as nat) * t) by (nonlinear_arith);
            }
            value
        }
    }

    /// Converts a bucket index to a representative value: the midpoint of
    /// the range the bucket covers.
    pub fn bucket_midpoint(bucket: usize) -> (value: u64)
        requires
            bucket < NUM_BUCKETS,
        ensures
            value == bucket_mid(bucket as nat),
    {
        let lower = Self::bucket_to_value(bucket);
        if bucket < SUB_BUCKETS {
            lower
        } else {
            let group: usize = (bucket / SUB_BUCKETS) - 1;
            let mag: usize = group + SUB_BITS as usize;
            let shift: usize = mag - SUB_BITS as usize;
            proof {
                lemma_bucket_width_fits(bucket as nat);
                vstd::bits::lemma_u64_shl_is_mul(1, shift as u64);
            }
            let width: u64 = 1u64 << (shift as u64);
            lower + width / 2
        }
    }
}

} // verus!
