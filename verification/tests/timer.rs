use latency::timer::{DEFAULT_THRESHOLD_NS, SLOW_OPERATION_NS};
use latency::{Calibration, Histogram, ScopedTimer, TimePoint, Timer, TimerGuard};

fn at(cycles: u64) -> TimePoint {
    TimePoint::from_cycles(cycles)
}

#[test]
fn timer_reports_and_records_elapsed_time() {
    // 1 cycle per nanosecond
    let calibration = Calibration::from_frequency(1_000_000_000);
    let timer = Timer::start(at(500));
    assert_eq!(timer.elapsed_ns(at(2_500_500), &calibration), 2_500_000);
    assert_eq!(timer.elapsed_micros(at(2_500_500), &calibration), 2_500);
    assert_eq!(timer.elapsed_millis(at(2_500_500), &calibration), 2);

    let mut hist = Histogram::new();
    let elapsed = timer.stop(at(1_500_500), &calibration, &mut hist);
    assert_eq!(elapsed, 1_500_000);
    assert_eq!(hist.count(), 1);
    assert_eq!(hist.max(), 1_500_000);
    assert_eq!(hist.min(), 1_500_000);
}

#[test]
fn restarted_timer_measures_from_restart() {
    let calibration = Calibration::from_frequency(1_000_000_000);
    let mut timer = Timer::start(at(0));
    let before = timer.elapsed_ns(at(2_000_000), &calibration);
    assert!(before > 1_000_000);
    timer.restart(at(2_000_000));
    assert_eq!(timer.elapsed_ns(at(2_000_000), &calibration), 0);
    assert!(timer.elapsed_ns(at(2_000_100), &calibration) < before);
}

#[test]
fn guard_records_and_reports_slow_named_operations() {
    let calibration = Calibration::from_frequency(1_000_000_000);
    let mut hist = Histogram::new();

    let guard = TimerGuard::new(at(0));
    assert!(guard.name().is_none());
    assert_eq!(guard.elapsed_ns(at(10), &calibration), 10);
    assert_eq!(guard.finish(at(2_000_000), &calibration, &mut hist), None);
    assert_eq!(hist.count(), 1);

    let named = TimerGuard::named(at(0), "db query");
    assert_eq!(named.name(), Some("db query"));
    assert_eq!(named.finish(at(2_000_000), &calibration, &mut hist), Some(2_000));
    assert_eq!(named.finish(at(SLOW_OPERATION_NS), &calibration, &mut hist), None);
    assert_eq!(hist.count(), 3);
    assert_eq!(hist.max(), 2_000_000);
    assert_eq!(hist.min(), 1_000_000);
}

#[test]
fn scoped_timer_threshold() {
    let calibration = Calibration::from_frequency(1_000_000_000);
    let mut hist = Histogram::new();

    let timer = ScopedTimer::new();
    assert_eq!(timer.threshold_ns(), DEFAULT_THRESHOLD_NS);
    assert_eq!(timer.complete(at(0), at(1_000_000), &calibration, &mut hist), (1_000_000, false));
    assert_eq!(timer.complete(at(0), at(1_000_001), &calibration, &mut hist), (1_000_001, true));

    let strict = timer.with_threshold(10);
    assert_eq!(strict.threshold_ns(), 10);
    assert_eq!(strict.complete(at(5), at(16), &calibration, &mut hist), (11, true));
    assert_eq!(hist.count(), 3);

    let guard = strict.guard(at(7));
    assert!(guard.name().is_none());
    let named = strict.guard_named(at(7), "step");
    assert_eq!(named.name(), Some("step"));
    assert_eq!(named.elapsed_ns(at(9), &calibration), 2);
}
