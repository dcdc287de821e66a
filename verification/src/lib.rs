//! Low-overhead timing: latency histograms with logarithmic buckets,
//! cycle-counter arithmetic and timers.

pub mod bucket;
pub mod histogram;
pub mod rdtsc;
pub mod render;
pub mod samples;
pub mod text;
pub mod timer;

pub use histogram::{Histogram, HistogramView, PercentileRanks, Percentiles};
pub use timer::{ScopedTimer, Timer, TimerGuard};
pub use rdtsc::{calibrate_frequency, cycles_to_nanos, nanos_to_cycles, CalibrationSample};

use vstd::prelude::*;

verus! {

use crate::render::{decimal, push_decimal};
use crate::rdtsc::{cycles_to_nanos_spec, nanos_to_cycles_spec};
use vstd::arithmetic::div_mod::lemma_fundamental_div_mod;

/// Q32 nanoseconds-per-cycle multiplier for a counter running at `freq`
/// cycles per second: `(10^9 << 32) / freq`, truncated to 64 bits.
pub open spec fn nanos_multiplier_for(freq: u64) -> u64 {
    (4_294_967_296_000_000_000int / (freq as int)) as u64
}

/// Q32 cycles-per-nanosecond multiplier for a counter running at `freq`
/// cycles per second: `(freq << 32) / 10^9`, truncated to 64 bits.
pub open spec fn cycles_multiplier_for(freq: u64) -> u64 {
    (freq * 0x1_0000_0000 / 1_000_000_000) as u64
}

/// Calibration of the cycle counter: its frequency and the fixed-point
/// multipliers precomputed from it. All zero while not calibrated.
#[derive(Debug, Clone, Copy)]
pub struct Calibration {
    cycles_per_second: u64,
    nanos_multiplier: u64,
    cycles_multiplier: u64,
}

impl Calibration {
    /// Cycles per second (0 when not calibrated).
    pub closed spec fn frequency(self) -> u64 {
        self.cycles_per_second
    }

    /// Q32 multiplier from cycles to nanoseconds (0 when not calibrated).
    pub closed spec fn nanos_mult(self) -> u64 {
        self.nanos_multiplier
    }

    /// Q32 multiplier from nanoseconds to cycles (0 when not calibrated).
    pub closed spec fn cycles_mult(self) -> u64 {
        self.cycles_multiplier
    }

    /// The state before calibration: every value is zero.
    pub fn uncalibrated() -> (c: Calibration)
        ensures
            c.frequency() == 0,
            c.nanos_mult() == 0,
            c.cycles_mult() == 0,
    {
        Calibration { cycles_per_second: 0, nanos_multiplier: 0, cycles_multiplier: 0 }
    }

    /// The calibration for a counter measured at `freq` cycles per second,
    /// with both fixed-point multipliers precomputed so that conversions
    /// avoid a 128-bit division.
    pub fn from_frequency(freq: u64) -> (c: Calibration)
        requires
            freq > 0,
        ensures
            c.frequency() == freq,
            c.nanos_mult() == nanos_multiplier_for(freq),
            c.cycles_mult() == cycles_multiplier_for(freq),
    {
        let one_second_q32: u128 = 1_000_000_000u128 << 32u32;
        assert(one_second_q32 == 4_294_967_296_000_000_000u128) by (bit_vector)
            requires
                one_second_q32 == 1_000_000_000u128 << 32u32,
        ;
        let freq_wide: u128 = freq as u128;
        let freq_q32: u128 = freq_wide << 32u32;
        assert(freq_q32 == freq_wide * 0x1_0000_0000) by (bit_vector)
            requires
                freq_q32 == freq_wide << 32u32,
                freq_wide <= 0xffff_ffff_ffff_ffff,
        ;
        #[verifier::truncate]
        let nanos_mult = (one_second_q32 / freq_wide) as u64;
        let cycles_mult = freq_q32 / 1_000_000_000u128;
        Calibration {
            cycles_per_second: freq,
            nanos_multiplier: nanos_mult,
            cycles_multiplier: #[verifier::truncate] (cycles_mult as u64),
        }
    }
}

/// Before calibration (a 3 GHz clock is assumed), converting cycles to
/// nanoseconds and back never gives more cycles than it started with, and
/// loses fewer than 3.
pub proof fn lemma_uncalibrated_round_trip(cycles: u64)
    ensures
        cycles_to_nanos_spec(cycles, 0) * 3 <= u64::MAX,
        nanos_to_cycles_spec(cycles_to_nanos_spec(cycles, 0), 0) <= cycles,
        cycles - nanos_to_cycles_spec(cycles_to_nanos_spec(cycles, 0), 0) < 3,
{
}

/// Converting `cycles` to nanoseconds under a calibration at `freq` fits in
/// 64 bits: `cycles * nanos_multiplier >> 32` is not truncated.
pub open spec fn nanos_fit(freq: u64, cycles: u64) -> bool {
    (cycles as int) * (nanos_multiplier_for(freq) as int) / 0x1_0000_0000 <= u64::MAX
}

/// The intermediate values of a calibrated round trip, when no step is
/// truncated to 64 bits.
proof fn lemma_calibrated_parts(freq: u64, cycles: u64)
    requires
        1 <= freq < 4_294_967_296_000_000_000,
        nanos_fit(freq, cycles),
    ensures
        nanos_multiplier_for(freq) as int == 4_294_967_296_000_000_000int / (freq as int),
        nanos_multiplier_for(freq) >= 1,
        (nanos_multiplier_for(freq) as int) * (freq as int) <= 4_294_967_296_000_000_000int,
        (nanos_multiplier_for(freq) as int) * (freq as int) > 4_294_967_296_000_000_000int
            - freq,
        cycles_multiplier_for(freq) as int == (freq as int) * 0x1_0000_0000 / 1_000_000_000,
        (cycles_multiplier_for(freq) as int) * 1_000_000_000 <= (freq as int) * 0x1_0000_0000,
        (cycles_multiplier_for(freq) as int) * 1_000_000_000 > (freq as int) * 0x1_0000_0000
            - 1_000_000_000,
        cycles_to_nanos_spec(cycles, nanos_multiplier_for(freq)) as int == (cycles as int)
            * (nanos_multiplier_for(freq) as int) / 0x1_0000_0000,
        (cycles_to_nanos_spec(cycles, nanos_multiplier_for(freq)) as int) * (freq as int) <= (
        cycles as int) * 1_000_000_000,
        nanos_to_cycles_spec(
            cycles_to_nanos_spec(cycles, nanos_multiplier_for(freq)),
            cycles_multiplier_for(freq),
        ) as int == (cycles_to_nanos_spec(cycles, nanos_multiplier_for(freq)) as int)
            * (cycles_multiplier_for(freq) as int) / 0x1_0000_0000,
        nanos_to_cycles_spec(
            cycles_to_nanos_spec(cycles, nanos_multiplier_for(freq)),
            cycles_multiplier_for(freq),
        ) <= cycles,
{
    let k: int = 0x1_0000_0000;
    let b: int = 1_000_000_000;
    let f = freq as int;
    let c = cycles as int;
    let nm_wide = (b * k) / f;
    lemma_fundamental_div_mod(b * k, f);
    assert(nm_wide * f <= b * k && nm_wide * f > b * k - f) by (nonlinear_arith)
        requires
            b * k == f * nm_wide + (b * k) % f,
            0 <= (b * k) % f < f,
    ;
    assert(1 <= nm_wide <= b * k) by (nonlinear_arith)
        requires
            nm_wide * f <= b * k,
            nm_wide * f > b * k - f,
            1 <= f < k * b,
            k == 0x1_0000_0000,
            b == 1_000_000_000,
    ;
    let nm = nanos_multiplier_for(freq);
    assert(nm as int == nm_wide);
    let cm_wide = (f * k) / b;
    lemma_fundamental_div_mod(f * k, b);
    assert(cm_wide * b <= f * k && cm_wide * b > f * k - b) by (nonlinear_arith)
        requires
            f * k == b * cm_wide + (f * k) % b,
            0 <= (f * k) % b < b,
    ;
    assert(0 <= cm_wide < k * k) by (nonlinear_arith)
        requires
            cm_wide * b <= f * k,
            f * k == b * cm_wide + (f * k) % b,
            0 <= (f * k) % b,
            1 <= f < k * b,
            k == 0x1_0000_0000,
            b == 1_000_000_000,
    ;
    let cm = cycles_multiplier_for(freq);
    assert(cm as int == cm_wide);
    let n_wide = (c * nm) / k;
    lemma_fundamental_div_mod(c * nm, k);
    assert(n_wide * k <= c * nm && n_wide >= 0) by (nonlinear_arith)
        requires
            c * nm == k * n_wide + (c * nm) % k,
            0 <= (c * nm) % k,
            k > 0,
            c >= 0,
            nm >= 0,
    ;
    let n = cycles_to_nanos_spec(cycles, nm);
    assert(n as int == n_wide);
    assert(n * f <= c * b) by (nonlinear_arith)
        requires
            n_wide * k <= c * nm,
            nm * f <= b * k,
            n == n_wide,
            f > 0,
            k > 0,
            c >= 0,
    ;
    let r_wide = (n * cm) / k;
    lemma_fundamental_div_mod(n * cm, k);
    assert(r_wide <= c && r_wide >= 0) by (nonlinear_arith)
        requires
            n * cm == k * r_wide + (n * cm) % k,
            0 <= (n * cm) % k,
            n * f <= c * b,
            cm * b <= f * k,
            n >= 0,
            c >= 0,
            f > 0,
            b > 0,
            k > 0,
            cm >= 0,
    ;
}

/// A calibrated conversion gives the duration of the cycles in whole
/// nanoseconds, rounded down, whenever it fits in 64 bits: with `c` cycles,
/// `f` the frequency, `n` the nanoseconds, `K = 2^32` and `B = 10^9`,
/// `n * f <= c * B < (n + 1) * f + c * f / K`, that is,
/// `n <= c * B / f < n + 1 + c / K`.
pub proof fn lemma_calibrated_nanos_accuracy(freq: u64, cycles: u64)
    requires
        1 <= freq < 4_294_967_296_000_000_000,
        nanos_fit(freq, cycles),
    ensures
        ({
            let n = cycles_to_nanos_spec(cycles, nanos_multiplier_for(freq)) as int;
            let f = freq as int;
            let c = cycles as int;
            &&& n * f <= c * 1_000_000_000
            &&& c * 1_000_000_000 * 0x1_0000_0000 < (n + 1) * f * 0x1_0000_0000 + c * f
        }),
{
    lemma_calibrated_parts(freq, cycles);
    let k: int = 0x1_0000_0000;
    let b: int = 1_000_000_000;
    let f = freq as int;
    let c = cycles as int;
    let nm = nanos_multiplier_for(freq) as int;
    let n = cycles_to_nanos_spec(cycles, nanos_multiplier_for(freq)) as int;
    lemma_fundamental_div_mod(c * nm, k);
    assert((n + 1) * k > c * nm) by (nonlinear_arith)
        requires
            n == c * nm / k,
            c * nm == k * (c * nm / k) + (c * nm) % k,
            (c * nm) % k < k,
    ;
    assert(c * nm * f >= c * b * k - c * f) by (nonlinear_arith)
        requires
            nm * f > b * k - f,
            c >= 0,
    ;
    assert((n + 1) * k * f > c * nm * f) by (nonlinear_arith)
        requires
            (n + 1) * k > c * nm,
            f > 0,
    ;
    assert(c * b * k < (n + 1) * f * k + c * f) by (nonlinear_arith)
        requires
            (n + 1) * k * f > c * nm * f,
            c * nm * f >= c * b * k - c * f,
    ;
}

/// From 1 GHz on, converting any number of cycles to nanoseconds fits in
/// 64 bits.
pub proof fn lemma_nanos_fit_from_one_ghz(freq: u64, cycles: u64)
    requires
        1_000_000_000 <= freq,
    ensures
        nanos_fit(freq, cycles),
{
    let k: int = 0x1_0000_0000;
    let b: int = 1_000_000_000;
    let f = freq as int;
    let c = cycles as int;
    let nm = (b * k) / f;
    lemma_fundamental_div_mod(b * k, f);
    assert(nm <= k) by (nonlinear_arith)
        requires
            b * k == f * nm + (b * k) % f,
            0 <= (b * k) % f,
            b <= f,
            b > 0,
            k > 0,
    ;
    assert(nanos_multiplier_for(freq) as int == nm);
    assert(c * nm <= c * k) by (nonlinear_arith)
        requires
            nm <= k,
            c >= 0,
    ;
    vstd::arithmetic::div_mod::lemma_div_is_ordered(c * nm, c * k, k);
    vstd::arithmetic::div_mod::lemma_div_by_multiple(c, k);
}

/// Whenever no step is truncated to 64 bits (from 1 GHz on, never), converting
/// cycles to nanoseconds and back under a calibration never gives more
/// cycles than it started with.
pub proof fn lemma_calibrated_round_trip(freq: u64, cycles: u64)
    requires
        1 <= freq < 4_294_967_296_000_000_000,
        nanos_fit(freq, cycles),
    ensures
        nanos_multiplier_for(freq) > 0,
        nanos_to_cycles_spec(
            cycles_to_nanos_spec(cycles, nanos_multiplier_for(freq)),
            cycles_multiplier_for(freq),
        ) <= cycles,
{
    lemma_calibrated_parts(freq, cycles);
}

/// Error of a calibrated round trip at any frequency, whenever no step is
/// truncated to 64 bits: with `c` cycles, `f` the frequency, `K = 2^32` and
/// `B = 10^9`, the cycles lost satisfy
/// `lost * K * B * f < c * f^2 + K * f^2 + c * B^2 + K * B * f`,
/// that is, `lost < c * f / (K * B) + f / B + c * B / (K * f) + 1`.
pub proof fn lemma_calibrated_round_trip_error(freq: u64, cycles: u64)
    requires
        1 <= freq < 4_294_967_296_000_000_000,
        nanos_fit(freq, cycles),
    ensures
        ({
            let f = freq as int;
            let c = cycles as int;
            let lost = c - nanos_to_cycles_spec(
                cycles_to_nanos_spec(cycles, nanos_multiplier_for(freq)),
                cycles_multiplier_for(freq),
            );
            lost * 0x1_0000_0000 * 1_000_000_000 * f < c * f * f + 0x1_0000_0000 * f * f + c
                * 1_000_000_000 * 1_000_000_000 + 0x1_0000_0000 * 1_000_000_000 * f
        }),
{
    lemma_calibrated_parts(freq, cycles);
    let k: int = 0x1_0000_0000;
    let b: int = 1_000_000_000;
    let f = freq as int;
    let c = cycles as int;
    let nm = nanos_multiplier_for(freq) as int;
    let cm = cycles_multiplier_for(freq) as int;
    let n = cycles_to_nanos_spec(cycles, nanos_multiplier_for(freq)) as int;
    let r = nanos_to_cycles_spec(
        cycles_to_nanos_spec(cycles, nanos_multiplier_for(freq)),
        cycles_multiplier_for(freq),
    ) as int;
    lemma_fundamental_div_mod(c * nm, k);
    assert(n * k > c * nm - k) by (nonlinear_arith)
        requires
            c * nm == k * ((c * nm) / k) + (c * nm) % k,
            (c * nm) % k < k,
            n == (c * nm) / k,
    ;
    lemma_fundamental_div_mod(n * cm, k);
    assert(r * k > n * cm - k) by (nonlinear_arith)
        requires
            n * cm == k * ((n * cm) / k) + (n * cm) % k,
            (n * cm) % k < k,
            r == (n * cm) / k,
    ;
    assert(n * f * k > c * b * k - c * f - k * f) by (nonlinear_arith)
        requires
            n * k > c * nm - k,
            nm * f > b * k - f,
            f > 0,
            c >= 0,
    ;
    assert(r * k * b > n * f * k - n * b - k * b) by (nonlinear_arith)
        requires
            r * k > n * cm - k,
            cm * b > f * k - b,
            b > 0,
            n >= 0,
    ;
    // multiply both by f, and bound n * b * f by c * b * b
    assert(r * k * b * f > n * f * k * f - n * b * f - k * b * f) by (nonlinear_arith)
        requires
            r * k * b > n * f * k - n * b - k * b,
            f > 0,
    ;
    assert(n * f * k * f > (c * b * k - c * f - k * f) * f) by (nonlinear_arith)
        requires
            n * f * k > c * b * k - c * f - k * f,
            f > 0,
    ;
    assert(n * b * f <= c * b * b) by (nonlinear_arith)
        requires
            n * f <= c * b,
            b > 0,
    ;
    assert((c * b * k - c * f - k * f) * f == c * b * k * f - c * f * f - k * f * f)
        by (nonlinear_arith);
    assert((c - r) * k * b * f == c * k * b * f - r * k * b * f) by (nonlinear_arith);
    assert(c * b * k * f == c * k * b * f) by (nonlinear_arith);
    assert(c * b * b == c * 1_000_000_000 * 1_000_000_000);
    assert((c - r) * k * b * f < c * f * f + k * f * f + c * b * b + k * b * f);
}

/// Converting a billion cycles or more (up to ten billion) to nanoseconds
/// and back under a calibration between 32 Hz and `10^15` Hz loses less
/// than 1% of the cycles, and never gains any.
pub proof fn lemma_round_trip_within_one_percent(freq: u64, cycles: u64)
    requires
        32 <= freq <= 1_000_000_000_000_000,
        1_000_000_000 <= cycles <= 10_000_000_000,
    ensures
        nanos_to_cycles_spec(
            cycles_to_nanos_spec(cycles, nanos_multiplier_for(freq)),
            cycles_multiplier_for(freq),
        ) <= cycles,
        (cycles - nanos_to_cycles_spec(
            cycles_to_nanos_spec(cycles, nanos_multiplier_for(freq)),
            cycles_multiplier_for(freq),
        )) * 100 < cycles,
{
    let k: int = 0x1_0000_0000;
    let b: int = 1_000_000_000;
    let f = freq as int;
    let c = cycles as int;
    // the conversion to nanoseconds fits: c * nm / k <= c * b / f <= 10^10 * 10^9 / 32
    let nm = (b * k) / f;
    lemma_fundamental_div_mod(b * k, f);
    assert(nm * f <= b * k) by (nonlinear_arith)
        requires
            b * k == f * nm + (b * k) % f,
            0 <= (b * k) % f,
    ;
    assert(nanos_multiplier_for(freq) as int == nm);
    assert(nm * 32 <= b * k) by (nonlinear_arith)
        requires
            nm * f <= b * k,
            f >= 32,
            nm >= 0,
    ;
    assert(c * nm <= 10_000_000_000 * nm) by (nonlinear_arith)
        requires
            c <= 10_000_000_000,
            nm >= 0,
    ;
    assert(b * k == 4_294_967_296_000_000_000);
    assert(c * nm <= 0x8000_0000_0000_0000_0000_0000);
    vstd::arithmetic::div_mod::lemma_div_is_ordered(c * nm, 0x8000_0000_0000_0000_0000_0000, k);
    assert(nanos_fit(freq, cycles));
    lemma_calibrated_parts(freq, cycles);
    lemma_calibrated_round_trip_error(freq, cycles);
    let r = nanos_to_cycles_spec(
        cycles_to_nanos_spec(cycles, nanos_multiplier_for(freq)),
        cycles_multiplier_for(freq),
    ) as int;
    let lost = c - r;
    assert(lost * k * b * f < c * f * f + k * f * f + c * b * b + k * b * f);
    assert(100 * (c * f * f + k * f * f + c * b * b + k * b * f) <= c * k * b * f)
        by (nonlinear_arith)
        requires
            32 <= f <= 1_000_000_000_000_000,
            1_000_000_000 <= c <= 10_000_000_000,
            b == 1_000_000_000,
            k == 0x1_0000_0000,
    ;
    let m = k * b * f;
    let bound = c * f * f + k * f * f + c * b * b + k * b * f;
    assert(lost * k * b * f == lost * m) by (nonlinear_arith)
        requires
            m == k * b * f,
    ;
    assert(c * k * b * f == c * m) by (nonlinear_arith)
        requires
            m == k * b * f,
    ;
    assert(m > 0) by (nonlinear_arith)
        requires
            k > 0,
            b > 0,
            f > 0,
            m == k * b * f,
    ;
    lemma_scaled_bound(lost, m, bound, c);
}

/// `x * m < s` and `100 * s <= c * m` with `m > 0` give `100 * x < c`.
proof fn lemma_scaled_bound(x: int, m: int, s: int, c: int)
    by (nonlinear_arith)
    requires
        x * m < s,
        100 * s <= c * m,
        m > 0,
    ensures
        x * 100 < c,
{
}

/// Gets the calibrated cpu frequency in cycles per second.
pub fn cpu_frequency(calibration: &Calibration) -> (freq: u64)
    ensures
        freq == calibration.frequency(),
{
    calibration.cycles_per_second
}

/// Gets the precomputed Q32 nanos multiplier.
pub fn nanos_multiplier(calibration: &Calibration) -> (mult: u64)
    ensures
        mult == calibration.nanos_mult(),
{
    calibration.nanos_multiplier
}

/// Gets the precomputed Q32 cycles multiplier.
pub fn cycles_multiplier(calibration: &Calibration) -> (mult: u64)
    ensures
        mult == calibration.cycles_mult(),
{
    calibration.cycles_multiplier
}

/// Timing measurement point: a reading of the cycle counter.
#[derive(Debug, Clone, Copy)]
pub struct TimePoint {
    cycles: u64,
}

impl TimePoint {
    /// The counter value this point was taken at.
    pub closed spec fn counter(self) -> u64 {
        self.cycles
    }

    /// Cycles from this point to `end`; 0 when `end` is not later.
    pub open spec fn cycles_until(self, end: TimePoint) -> u64 {
        if end.counter() > self.counter() {
            (end.counter() - self.counter()) as u64
        } else {
            0
        }
    }

    /// Nanoseconds from this point to `end` under `calibration`; 0 when
    /// `end` is not later.
    pub open spec fn nanos_until(self, end: TimePoint, calibration: Calibration) -> u64 {
        if end.counter() > self.counter() {
            cycles_to_nanos_spec((end.counter() - self.counter()) as u64, calibration.nanos_mult())
        } else {
            0
        }
    }

    /// The time point for a counter reading.
    pub fn from_cycles(cycles: u64) -> (t: TimePoint)
        ensures
            t.counter() == cycles,
    {
        TimePoint { cycles }
    }

    /// The counter reading of this time point.
    pub fn cycles(&self) -> (cycles: u64)
        ensures
            cycles == self.counter(),
    {
        self.cycles
    }

    /// Calculates elapsed time from this point to `end` in nanoseconds.
    pub fn elapsed_ns(&self, end: TimePoint, calibration: &Calibration) -> (nanos: u64)
        ensures
            nanos == self.nanos_until(end, *calibration),
            nanos == cycles_to_nanos_spec(self.cycles_until(end), calibration.nanos_mult()),
            end.counter() > self.counter() ==> nanos == cycles_to_nanos_spec(
                (end.counter() - self.counter()) as u64,
                calibration.nanos_mult(),
            ),
    {
        let now = end.cycles;
        if now > self.cycles {
            crate::rdtsc::cycles_to_nanos(now - self.cycles, calibration.nanos_multiplier)
        } else {
            0
        }
    }

    /// Calculates elapsed time from this point to `end` in cycles.
    pub fn elapsed_cycles(&self, end: TimePoint) -> (cycles: u64)
        ensures
            cycles == self.cycles_until(end),
            end.counter() > self.counter() ==> cycles == end.counter() - self.counter(),
            end.counter() <= self.counter() ==> cycles == 0,
    {
        let now = end.cycles;
        if now > self.cycles {
            now - self.cycles
        } else {
            0
        }
    }
}

/// Elapsed cycles add up: from a start point to a later end point, the
/// start counter plus the elapsed cycles is the end counter, the whole
/// difference with no cap; otherwise no cycles elapse. Elapsed nanoseconds
/// are exactly those cycles converted, so none elapse when no cycle does.
pub proof fn lemma_elapsed_adds_up(start: TimePoint, end: TimePoint, calibration: Calibration)
    ensures
        end.counter() > start.counter() ==> start.counter() + start.cycles_until(end)
            == end.counter(),
        end.counter() <= start.counter() ==> start.cycles_until(end) == 0,
        start.nanos_until(end, calibration) == cycles_to_nanos_spec(
            start.cycles_until(end),
            calibration.nanos_mult(),
        ),
        end.counter() <= start.counter() ==> start.nanos_until(end, calibration) == 0,
{
}

/// Elapsed cycles over consecutive intervals add up: for points `a`, `b`,
/// `c` in counter order, the cycles from `a` to `c` are those from `a` to
/// `b` plus those from `b` to `c`.
pub proof fn lemma_elapsed_cycles_additive(a: TimePoint, b: TimePoint, c: TimePoint)
    requires
        a.counter() <= b.counter() <= c.counter(),
    ensures
        a.cycles_until(c) == a.cycles_until(b) + b.cycles_until(c),
{
}

/// An earlier start point never reports less elapsed time up to the same
/// end point: in cycles always, and in nanoseconds whenever the conversion
/// of the longer interval fits in 64 bits (always before calibration).
pub proof fn lemma_earlier_start_elapses_more(
    a: TimePoint,
    b: TimePoint,
    end: TimePoint,
    calibration: Calibration,
)
    requires
        a.counter() <= b.counter(),
        calibration.nanos_mult() == 0 || (a.cycles_until(end) as int) * (
        calibration.nanos_mult() as int) / 0x1_0000_0000 <= u64::MAX,
    ensures
        a.cycles_until(end) >= b.cycles_until(end),
        a.nanos_until(end, calibration) >= b.nanos_until(end, calibration),
{
    let ca = a.cycles_until(end) as int;
    let cb = b.cycles_until(end) as int;
    let m = calibration.nanos_mult() as int;
    assert(cb <= ca);
    if end.counter() > b.counter() {
        if m == 0 {
            vstd::arithmetic::div_mod::lemma_div_is_ordered(cb, ca, 3);
        } else {
            assert(cb * m <= ca * m) by (nonlinear_arith)
                requires
                    cb <= ca,
                    m >= 0,
            ;
            vstd::arithmetic::div_mod::lemma_div_is_ordered(cb * m, ca * m, 0x1_0000_0000);
            assert(cb * m >= 0) by (nonlinear_arith)
                requires
                    cb >= 0,
                    m >= 0,
            ;
        }
    }
}

/// Latency statistics.
#[derive(Debug, Clone, Copy, Default)]
pub struct LatencyStats {
    pub min: u64,
    pub max: u64,
    pub mean: u64,
    pub p50: u64,
    pub p90: u64,
    pub p99: u64,
    pub p999: u64,
    pub p9999: u64,
    pub count: u64,
}

impl LatencyStats {
    /// The text of `format`: count, min, p50, p99, p999 and max, in nanoseconds.
    pub open spec fn format_spec(self) -> Seq<char> {
        "count="@ + decimal(self.count as nat) + " min="@ + decimal(self.min as nat) + "ns p50="@
            + decimal(self.p50 as nat) + "ns p99="@ + decimal(self.p99 as nat) + "ns p999="@
            + decimal(self.p999 as nat) + "ns max="@ + decimal(self.max as nat) + "ns"@
    }

    /// The text of `format_micros`: the same fields, durations in whole microseconds.
    pub open spec fn format_micros_spec(self) -> Seq<char> {
        "count="@ + decimal(self.count as nat) + " min="@ + decimal(self.min as nat / 1000)
            + "μs p50="@ + decimal(self.p50 as nat / 1000) + "μs p99="@ + decimal(
            self.p99 as nat / 1000,
        ) + "μs p999="@ + decimal(self.p999 as nat / 1000) + "μs max="@ + decimal(
            self.max as nat / 1000,
        ) + "μs"@
    }

    /// Formats the stats as a string.
    pub fn format(&self) -> (s: String)
        ensures
            s@ == self.format_spec(),
    {
        let mut s = String::from_str("count=");
        push_decimal(&mut s, self.count);
        s.append(" min=");
        push_decimal(&mut s, self.min);
        s.append("ns p50=");
        push_decimal(&mut s, self.p50);
        s.append("ns p99=");
        push_decimal(&mut s, self.p99);
        s.append("ns p999=");
        push_decimal(&mut s, self.p999);
        s.append("ns max=");
        push_decimal(&mut s, self.max);
        s.append("ns");
        s
    }

    /// Formats with microsecond units.
    pub fn format_micros(&self) -> (s: String)
        ensures
            s@ == self.format_micros_spec(),
    {
        let mut s = String::from_str("count=");
        push_decimal(&mut s, self.count);
        s.append(" min=");
        push_decimal(&mut s, self.min / 1000);
        s.append("μs p50=");
        push_decimal(&mut s, self.p50 / 1000);
        s.append("μs p99=");
        push_decimal(&mut s, self.p99 / 1000);
        s.append("μs p999=");
        push_decimal(&mut s, self.p999 / 1000);
        s.append("μs max=");
        push_decimal(&mut s, self.max / 1000);
        s.append("μs");
        s
    }
}

} // verus!
