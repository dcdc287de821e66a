//! Timers: the decisions behind manual timers, drop guards and scoped
//! timers. Each takes its clock readings as `TimePoint`s and records into
//! the histogram it is handed.

use vstd::prelude::*;

verus! {

use crate::{Calibration, TimePoint};
use crate::histogram::Histogram;

/// Threshold above which a scoped timing is reported: one millisecond.
pub const DEFAULT_THRESHOLD_NS: u64 = 1_000_000;

/// Duration above which a named guard reports a slow operation: one millisecond.
pub const SLOW_OPERATION_NS: u64 = 1_000_000;

/// Manual timer for measuring elapsed time.
#[derive(Debug, Clone, Copy)]
pub struct Timer {
    start: TimePoint,
}

impl Timer {
    /// The point the timer was (re)started at.
    pub closed spec fn started_at(self) -> TimePoint {
        self.start
    }

    /// Creates a new timer starting at `now`.
    pub fn start(now: TimePoint) -> (timer: Timer)
        ensures
            timer.started_at() == now,
    {
        Timer { start: now }
    }

    /// Gets elapsed time in nanoseconds up to `now`.
    pub fn elapsed_ns(&self, now: TimePoint, calibration: &Calibration) -> (nanos: u64)
        ensures
            nanos == self.started_at().nanos_until(now, *calibration),
    {
        self.start.elapsed_ns(now, calibration)
    }

    /// Gets elapsed time in whole microseconds up to `now`.
    pub fn elapsed_micros(&self, now: TimePoint, calibration: &Calibration) -> (micros: u64)
        ensures
            micros == self.started_at().nanos_until(now, *calibration) / 1000,
    {
        self.elapsed_ns(now, calibration) / 1000
    }

    /// Gets elapsed time in whole milliseconds up to `now`.
    pub fn elapsed_millis(&self, now: TimePoint, calibration: &Calibration) -> (millis: u64)
        ensures
            millis == self.started_at().nanos_until(now, *calibration) / 1_000_000,
    {
        self.elapsed_ns(now, calibration) / 1_000_000
    }

    /// Stops the timer at `now`, records the elapsed time to `histogram` and
    /// returns it.
    pub fn stop(self, now: TimePoint, calibration: &Calibration, histogram: &mut Histogram) -> (nanos: u64)
        requires
            old(histogram).wf(),
        ensures
            nanos == self.started_at().nanos_until(now, *calibration),
            final(histogram).wf(),
            final(histogram)@ == old(histogram)@.recorded(nanos),
    {
        let elapsed = self.elapsed_ns(now, calibration);
        histogram.record(elapsed);
        elapsed
    }

    /// Restarts the timer from `now`.
    pub fn restart(&mut self, now: TimePoint)
        ensures
            final(self).started_at() == now,
    {
        self.start = now;
    }
}

/// Guard that records the elapsed time when it is finished.
#[derive(Debug, Clone, Copy)]
pub struct TimerGuard {
    start: TimePoint,
    name: Option<&'static str>,
}

impl TimerGuard {
    /// The point the guard was created at.
    pub closed spec fn started_at(self) -> TimePoint {
        self.start
    }

    /// Whether the guard carries a name.
    pub closed spec fn is_named(self) -> bool {
        self.name is Some
    }

    /// The guard's name, if any.
    pub closed spec fn name_view(self) -> Option<Seq<char>> {
        match self.name {
            Some(n) => Some(n@),
            None => None,
        }
    }

    /// Creates a new timer guard started at `now`.
    pub fn new(now: TimePoint) -> (guard: TimerGuard)
        ensures
            guard.started_at() == now,
            !guard.is_named(),
    {
        TimerGuard { start: now, name: None }
    }

    /// Creates a named timer guard (for debugging) started at `now`.
    pub fn named(now: TimePoint, name: &'static str) -> (guard: TimerGuard)
        ensures
            guard.started_at() == now,
            guard.is_named(),
            guard.name_view() == Some(name@),
    {
        TimerGuard { start: now, name: Some(name) }
    }

    /// The guard's name, if any.
    pub fn name(&self) -> (name: Option<&'static str>)
        ensures
            name is Some <==> self.is_named(),
            self.is_named() ==> self.name_view() == Some(name.unwrap()@),
    {
        self.name
    }

    /// Gets elapsed time so far, up to `now`.
    pub fn elapsed_ns(&self, now: TimePoint, calibration: &Calibration) -> (nanos: u64)
        ensures
            nanos == self.started_at().nanos_until(now, *calibration),
    {
        self.start.elapsed_ns(now, calibration)
    }

    /// Finishes the guard at `now`: records the elapsed time to `histogram`.
    /// Returns the elapsed time in whole microseconds when the operation is
    /// named and took longer than `SLOW_OPERATION_NS`, to be reported.
    pub fn finish(&self, now: TimePoint, calibration: &Calibration, histogram: &mut Histogram) -> (slow_micros: Option<u64>)
        requires
            old(histogram).wf(),
        ensures
            final(histogram).wf(),
            final(histogram)@ == old(histogram)@.recorded(
                self.started_at().nanos_until(now, *calibration),
            ),
            slow_micros == (if self.started_at().nanos_until(now, *calibration) > SLOW_OPERATION_NS
                && self.is_named() {
                Some(self.started_at().nanos_until(now, *calibration) / 1000)
            } else {
                None::<u64>
            }),
    {
        let elapsed = self.start.elapsed_ns(now, calibration);
        histogram.record(elapsed);
        if elapsed > SLOW_OPERATION_NS && self.name.is_some() {
            Some(elapsed / 1000)
        } else {
            None
        }
    }
}

/// Scoped timer for specific code sections, with a reporting threshold.
#[derive(Debug, Clone, Copy)]
pub struct ScopedTimer {
    threshold_ns: u64,
}

impl ScopedTimer {
    /// The reporting threshold in nanoseconds.
    pub closed spec fn threshold(self) -> u64 {
        self.threshold_ns
    }

    /// Creates a new scoped timer with the default 1ms threshold.
    pub fn new() -> (timer: ScopedTimer)
        ensures
            timer.threshold() == DEFAULT_THRESHOLD_NS,
    {
        ScopedTimer { threshold_ns: DEFAULT_THRESHOLD_NS }
    }

    /// Sets the warning threshold in nanoseconds.
    pub fn with_threshold(self, threshold_ns: u64) -> (timer: ScopedTimer)
        ensures
            timer.threshold() == threshold_ns,
    {
        let mut timer = self;
        timer.threshold_ns = threshold_ns;
        timer
    }

    /// Gets the warning threshold in nanoseconds.
    pub fn threshold_ns(&self) -> (threshold: u64)
        ensures
            threshold == self.threshold(),
    {
        self.threshold_ns
    }

    /// Completes one timed section that ran from `start` to `end`: records
    /// the elapsed time to `histogram` and returns it, with whether it
    /// exceeded the threshold.
    pub fn complete(
        &self,
        start: TimePoint,
        end: TimePoint,
        calibration: &Calibration,
        histogram: &mut Histogram,
    ) -> (outcome: (u64, bool))
        requires
            old(histogram).wf(),
        ensures
            outcome.0 == start.nanos_until(end, *calibration),
            outcome.1 == (outcome.0 > self.threshold()),
            final(histogram).wf(),
            final(histogram)@ == old(histogram)@.recorded(outcome.0),
    {
        let elapsed = start.elapsed_ns(end, calibration);
        histogram.record(elapsed);
        (elapsed, elapsed > self.threshold_ns)
    }

    /// Creates a timer guard started at `now`.
    pub fn guard(&self, now: TimePoint) -> (guard: TimerGuard)
        ensures
            guard.started_at() == now,
            !guard.is_named(),
    {
        TimerGuard::new(now)
    }

    /// Creates a named timer guard started at `now`.
    pub fn guard_named(&self, now: TimePoint, name: &'static str) -> (guard: TimerGuard)
        ensures
            guard.started_at() == now,
            guard.name_view() == Some(name@),
    {
        TimerGuard::named(now, name)
    }
}

} // verus!
