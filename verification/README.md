# latency

Low-overhead timing: latency histograms with logarithmic buckets, cycle-counter
arithmetic, and timers.

- `src/` is the verified library (Verus):
  - `bucket.rs`: the value/bucket mapping and its laws (every value lies in its
    bucket, buckets tile the `u64` range, relative precision of 1/64);
  - `histogram.rs`: the histogram, its abstract view, percentiles and statistics;
  - `samples.rs`: what the counters and percentiles say about a sequence of
    recorded values;
  - `rdtsc.rs`: cycles/nanoseconds conversions, frequency calibration from
    timed samples, the invariant-counter feature bit;
  - `lib.rs`: calibration state, time points, latency statistics;
  - `timer.rs`: manual timers, guards and scoped timers, fed with clock readings;
  - `render.rs`: decimal rendering for the text summaries.
- `app/` holds what reads the hardware (the counter through inline assembly,
  `cpuid`), the floating-point percentile ranks, the process-wide calibration, histograms shared between threads, timers that read
  the clock themselves, the global registry, and printing.
- `tests/` exercises the library on concrete values.
