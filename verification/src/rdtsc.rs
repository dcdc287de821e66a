//! Cycle-counter arithmetic: conversions between cycles and nanoseconds,
//! frequency calibration from timed samples, and the invariant-counter
//! feature bit.

use vstd::prelude::*;

verus! {

use vstd::arithmetic::power2::lemma2_to64;
use vstd::bits::lemma_u128_shr_is_div;

/// Cycles to nanoseconds with a Q32 fixed-point multiplier: with no
/// multiplier (not calibrated) a 3 GHz clock is assumed; otherwise
/// `(cycles * multiplier) >> 32`, truncated to 64 bits.
pub open spec fn cycles_to_nanos_spec(cycles: u64, multiplier: u64) -> u64 {
    if multiplier == 0 {
        cycles / 3
    } else {
        (cycles * multiplier / 0x1_0000_0000) as u64
    }
}

/// Nanoseconds to cycles with a Q32 fixed-point multiplier: with no
/// multiplier a 3 GHz clock is assumed; otherwise `(nanos * multiplier) >> 32`,
/// truncated to 64 bits.
pub open spec fn nanos_to_cycles_spec(nanos: u64, multiplier: u64) -> u64 {
    if multiplier == 0 {
        (nanos * 3) as u64
    } else {
        (nanos * multiplier / 0x1_0000_0000) as u64
    }
}

/// `(x * multiplier) >> 32`, truncated to 64 bits.
fn q32_scale(x: u64, multiplier: u64) -> (r: u64)
    ensures
        r == (x * multiplier / 0x1_0000_0000) as u64,
{
    assert((x as int) * (multiplier as int) <= 0xffff_ffff_ffff_ffff * 0xffff_ffff_ffff_ffff)
        by (nonlinear_arith)
        requires
            x <= 0xffff_ffff_ffff_ffff,
            multiplier <= 0xffff_ffff_ffff_ffff,
    ;
    let product: u128 = (x as u128) * (multiplier as u128);
    let shifted: u128 = product >> 32u32;
    proof {
        lemma_u128_shr_is_div(product, 32);
        lemma2_to64();
        assert(shifted == product / 0x1_0000_0000);
    }
    #[verifier::truncate]
    (shifted as u64)
}

/// Converts cpu cycles to nanoseconds using the Q32 fixed-point multiplier
/// (`nanos_multiplier` of the calibration; 0 when not calibrated).
pub fn cycles_to_nanos(cycles: u64, multiplier: u64) -> (nanos: u64)
    ensures
        nanos == cycles_to_nanos_spec(cycles, multiplier),
{
    if multiplier == 0 {
        cycles / 3
    } else {
        q32_scale(cycles, multiplier)
    }
}

/// Converts nanoseconds to cpu cycles using the Q32 fixed-point multiplier
/// (`cycles_multiplier` of the calibration; 0 when not calibrated).
pub fn nanos_to_cycles(nanos: u64, multiplier: u64) -> (cycles: u64)
    requires
        multiplier != 0 || nanos * 3 <= u64::MAX,
    ensures
        cycles == nanos_to_cycles_spec(nanos, multiplier),
{
    if multiplier == 0 {
        nanos * 3
    } else {
        q32_scale(nanos, multiplier)
    }
}

/// One calibration measurement: the cycle counter before and after a
/// wall-clock interval, and the length of that interval in nanoseconds.
#[derive(Debug, Clone, Copy)]
pub struct CalibrationSample {
    pub start_cycles: u64,
    pub end_cycles: u64,
    pub elapsed_nanos: u128,
}

impl CalibrationSample {
    /// The counter did not run backwards and some time passed.
    pub open spec fn is_valid(self) -> bool {
        self.start_cycles <= self.end_cycles && self.elapsed_nanos > 0
    }

    /// Cycles per second seen in this sample, truncated to 64 bits.
    pub open spec fn frequency(self) -> u64 {
        ((self.end_cycles - self.start_cycles) * 1_000_000_000 / (self.elapsed_nanos as int)) as u64
    }
}

/// A sample's frequency is its cycles per second, rounded down: whenever it
/// fits in 64 bits, the frequency times the elapsed nanoseconds is at most
/// the cycles times `10^9`, and one cycle per second more would exceed it.
pub proof fn lemma_sample_frequency_is_rate(sample: CalibrationSample)
    requires
        sample.is_valid(),
        (sample.end_cycles - sample.start_cycles) * 1_000_000_000 / (sample.elapsed_nanos as int)
            <= u64::MAX,
    ensures
        sample.frequency() * sample.elapsed_nanos <= (sample.end_cycles - sample.start_cycles)
            * 1_000_000_000,
        (sample.end_cycles - sample.start_cycles) * 1_000_000_000 < (sample.frequency() + 1)
            * sample.elapsed_nanos,
{
    let x = (sample.end_cycles - sample.start_cycles) * 1_000_000_000;
    let d = sample.elapsed_nanos as int;
    let q = x / d;
    vstd::arithmetic::div_mod::lemma_fundamental_div_mod(x, d);
    assert(sample.frequency() as int == q);
    assert(q * d <= x && x < (q + 1) * d) by (nonlinear_arith)
        requires
            x == d * q + x % d,
            0 <= x % d < d,
    ;
}

/// The highest frequency seen over the samples (0 when there are none).
pub open spec fn best_frequency(samples: Seq<CalibrationSample>) -> u64
    decreases samples.len(),
{
    if samples.len() == 0 {
        0
    } else {
        let rest = best_frequency(samples.drop_last());
        let f = samples.last().frequency();
        if f > rest {
            f
        } else {
            rest
        }
    }
}

/// Calibration keeps the highest frequency: the result is at least the
/// frequency of every sample, and is the frequency of one of them (0 when
/// there are no samples).
pub proof fn lemma_best_frequency_is_max(samples: Seq<CalibrationSample>)
    ensures
        forall|i: int| 0 <= i < samples.len() ==> (#[trigger] samples[i]).frequency() <= best_frequency(
            samples,
        ),
        samples.len() == 0 ==> best_frequency(samples) == 0,
        samples.len() > 0 ==> exists|i: int|
            0 <= i < samples.len() && (#[trigger] samples[i]).frequency() == best_frequency(samples),
    decreases samples.len(),
{
    if samples.len() > 0 {
        let rest = samples.drop_last();
        lemma_best_frequency_is_max(rest);
        assert forall|i: int| 0 <= i < samples.len() implies (#[trigger] samples[i]).frequency()
            <= best_frequency(samples) by {
            if i < samples.len() - 1 {
                assert(rest[i] == samples[i]);
            }
        }
        if best_frequency(samples) == samples.last().frequency() {
            assert(samples[samples.len() - 1] == samples.last());
        } else {
            let i = choose|i: int|
                0 <= i < rest.len() && (#[trigger] rest[i]).frequency() == best_frequency(rest);
            assert(rest[i] == samples[i]);
        }
    }
}

/// Cycles per second measured by one sample.
fn sample_frequency(sample: &CalibrationSample) -> (freq: u64)
    requires
        sample.is_valid(),
    ensures
        freq == sample.frequency(),
{
    let cycles: u64 = sample.end_cycles - sample.start_cycles;
    let scaled: u128 = (cycles as u128) * 1_000_000_000;
    #[verifier::truncate]
    ((scaled / sample.elapsed_nanos) as u64)
}

/// Calibrates the cpu frequency from timed samples: the maximum frequency
/// observed, which is the one least affected by preemption.
pub fn calibrate_frequency(samples: &[CalibrationSample]) -> (freq: u64)
    requires
        forall|i: int| 0 <= i < samples@.len() ==> (#[trigger] samples@[i]).is_valid(),
    ensures
        freq == best_frequency(samples@),
        forall|i: int| 0 <= i < samples@.len() ==> (#[trigger] samples@[i]).frequency() <= freq,
        samples@.len() == 0 ==> freq == 0,
        samples@.len() > 0 ==> exists|i: int|
            0 <= i < samples@.len() && (#[trigger] samples@[i]).frequency() == freq,
{
    proof {
        lemma_best_frequency_is_max(samples@);
    }
    let mut best_freq: u64 = 0;
    let mut i: usize = 0;
    while i < samples.len()
        invariant
            0 <= i <= samples@.len(),
            forall|j: int| 0 <= j < samples@.len() ==> (#[trigger] samples@[j]).is_valid(),
            best_freq == best_frequency(samples@.subrange(0, i as int)),
        decreases samples@.len() - i,
    {
        let freq = sample_frequency(&samples[i]);
        assert(samples@.subrange(0, i as int + 1).drop_last() =~= samples@.subrange(0, i as int));
        if freq > best_freq {
            best_freq = freq;
        }
        i = i + 1;
    }
    assert(samples@.subrange(0, samples@.len() as int) =~= samples@);
    best_freq
}

/// Bit 8 of EDX from cpuid leaf `0x8000_0007`: the counter runs at a
/// constant rate whatever the power state.
pub fn tsc_is_invariant(edx: u32) -> (constant_rate: bool)
    ensures
        constant_rate == ((edx / 256) % 2 == 1),
{
    let bit: u32 = edx & (1u32 << 8u32);
    assert(bit == 0 <==> (edx / 256) % 2 == 0) by (bit_vector)
        requires
            bit == edx & (1u32 << 8u32),
    ;
    bit != 0
}

/// Memory fence to prevent instruction reordering: a sequentially
/// consistent `std::sync::atomic::fence`.
#[verifier::external_body]
pub fn fence() {
    std::sync::atomic::fence(std::sync::atomic::Ordering::SeqCst);
}

} // verus!
