use latency::rdtsc::tsc_is_invariant;
use latency::{
    calibrate_frequency, cpu_frequency, cycles_multiplier, cycles_to_nanos, nanos_multiplier,
    nanos_to_cycles, Calibration, CalibrationSample, TimePoint,
};

#[test]
fn test_conversion() {
    // a counter calibrated at 3 ghz
    let calibration = Calibration::from_frequency(3_000_000_000);

    let cycles = 1_000_000_000; // 1 billion cycles
    let nanos = cycles_to_nanos(cycles, nanos_multiplier(&calibration));
    let cycles2 = nanos_to_cycles(nanos, cycles_multiplier(&calibration));

    // should be approximately equal (some rounding error ok)
    let diff = if cycles2 > cycles {
        cycles2 - cycles
    } else {
        cycles - cycles2
    };

    assert!(diff < cycles / 100); // less than 1% error
}

#[test]
fn calibration_multipliers() {
    let calibration = Calibration::from_frequency(3_000_000_000);
    assert_eq!(cpu_frequency(&calibration), 3_000_000_000);
    assert_eq!(nanos_multiplier(&calibration), 1_431_655_765);
    assert_eq!(cycles_multiplier(&calibration), 12_884_901_888);

    let calibration = Calibration::from_frequency(2_500_000_000);
    assert_eq!(nanos_multiplier(&calibration), 1_717_986_918);
    assert_eq!(cycles_multiplier(&calibration), 10_737_418_240);

    let uncalibrated = Calibration::uncalibrated();
    assert_eq!(cpu_frequency(&uncalibrated), 0);
    assert_eq!(nanos_multiplier(&uncalibrated), 0);
    assert_eq!(cycles_multiplier(&uncalibrated), 0);
}

#[test]
fn conversions_with_known_multipliers() {
    assert_eq!(cycles_to_nanos(1_000_000_000, 1_431_655_765), 333_333_333);
    assert_eq!(nanos_to_cycles(333_333_333, 12_884_901_888), 999_999_999);
    assert_eq!(cycles_to_nanos(3_000_000_000, 1_431_655_765), 999_999_999);
    // a multiplier of 2^32 is the identity
    assert_eq!(cycles_to_nanos(123_456_789, 1 << 32), 123_456_789);
    assert_eq!(nanos_to_cycles(987_654_321, 1 << 32), 987_654_321);
}

#[test]
fn uncalibrated_conversions_assume_three_ghz() {
    assert_eq!(cycles_to_nanos(3_000, 0), 1_000);
    assert_eq!(cycles_to_nanos(3_002, 0), 1_000);
    assert_eq!(nanos_to_cycles(1_000, 0), 3_000);
    for c in [0u64, 1, 2, 3, 100, 1_000_001, u64::MAX] {
        let back = nanos_to_cycles(cycles_to_nanos(c, 0), 0);
        assert!(back <= c && c - back < 3);
    }
}

#[test]
fn calibrated_round_trip_never_overshoots() {
    for freq in [1_000_000_000u64, 2_400_000_000, 3_000_000_000, 4_700_000_000] {
        let calibration = Calibration::from_frequency(freq);
        for c in [0u64, 1, 999, 1_000_000_007, 1 << 50, u64::MAX] {
            let n = cycles_to_nanos(c, nanos_multiplier(&calibration));
            let back = nanos_to_cycles(n, cycles_multiplier(&calibration));
            assert!(back <= c);
        }
    }
}

#[test]
fn calibration_keeps_the_highest_frequency() {
    let samples = [
        CalibrationSample { start_cycles: 10, end_cycles: 10 + 59_000_000, elapsed_nanos: 20_000_000 },
        CalibrationSample { start_cycles: 0, end_cycles: 60_000_000, elapsed_nanos: 20_000_000 },
        CalibrationSample { start_cycles: 5, end_cycles: 5 + 58_000_000, elapsed_nanos: 20_000_001 },
    ];
    assert_eq!(calibrate_frequency(&samples), 3_000_000_000);
    assert_eq!(calibrate_frequency(&samples[..1]), 2_950_000_000);
    assert_eq!(calibrate_frequency(&[]), 0);
}

#[test]
fn invariant_tsc_bit() {
    assert!(tsc_is_invariant(0x100));
    assert!(tsc_is_invariant(0xffff_ffff));
    assert!(!tsc_is_invariant(0xff));
    assert!(!tsc_is_invariant(0xffff_feff));
}

#[test]
fn elapsed_between_time_points() {
    let calibration = Calibration::from_frequency(3_000_000_000);
    let start = TimePoint::from_cycles(1_000);
    let end = TimePoint::from_cycles(3_001_000);
    assert_eq!(start.cycles(), 1_000);
    assert_eq!(start.elapsed_cycles(end), 3_000_000);
    assert_eq!(start.elapsed_ns(end, &calibration), 999_999);
    // a counter that went backwards reads as no time at all
    assert_eq!(end.elapsed_cycles(start), 0);
    assert_eq!(end.elapsed_ns(start, &calibration), 0);
    assert_eq!(start.elapsed_ns(start, &calibration), 0);
    // before calibration a 3 ghz clock is assumed
    assert_eq!(start.elapsed_ns(end, &Calibration::uncalibrated()), 1_000_000);
}

#[test]
fn round_trip_within_one_percent_from_32_hz() {
    for freq in [32u64, 1_000, 500_000_000, 999_999_999, 10_000_000_000, 1_000_000_000_000_000] {
        let calibration = Calibration::from_frequency(freq);
        for c in [1_000_000_000u64, 3_333_333_333, 10_000_000_000] {
            let n = cycles_to_nanos(c, nanos_multiplier(&calibration));
            let back = nanos_to_cycles(n, cycles_multiplier(&calibration));
            assert!(back <= c);
            assert!((c - back) * 100 < c);
        }
    }
}

#[test]
fn earlier_start_reports_more_elapsed_time() {
    let calibration = Calibration::from_frequency(2_000_000_000);
    let end = TimePoint::from_cycles(10_000_000);
    let a = TimePoint::from_cycles(1_000);
    let b = TimePoint::from_cycles(5_000_000);
    assert!(a.elapsed_cycles(end) >= b.elapsed_cycles(end));
    assert!(a.elapsed_ns(end, &calibration) >= b.elapsed_ns(end, &calibration));
    assert!(a.elapsed_ns(end, &Calibration::uncalibrated()) >= b.elapsed_ns(end, &Calibration::uncalibrated()));
}
