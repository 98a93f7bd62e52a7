use vstd::prelude::*;

verus! {

/// Nanoseconds in one millisecond.
pub const NANOS_PER_MILLI: u64 = 1_000_000;

/// Nanoseconds in one second.
pub const NANOS_PER_SECOND: u64 = 1_000_000_000;

/// The time counted after `delta` more nanoseconds, by a timer that has
/// counted `elapsed` and stops at `duration`.
pub open spec fn count_up(elapsed: u64, duration: u64, delta: u64) -> u64 {
    if elapsed + delta >= duration {
        duration
    } else {
        (elapsed + delta) as u64
    }
}

/// A timer that runs once: it counts elapsed nanoseconds up to its duration
/// and then stays finished until it is reset.
#[derive(Clone, Copy, Debug, PartialEq, Eq, Structural)]
pub struct Timer {
    /// The time the timer runs for, in nanoseconds.
    pub duration: u64,
    /// The time counted so far, in nanoseconds.
    pub elapsed: u64,
}

impl Timer {
    /// The counted time never passes the duration.
    pub open spec fn wf(self) -> bool {
        self.elapsed <= self.duration
    }

    /// Whether the whole duration has been counted.
    pub open spec fn is_finished(self) -> bool {
        self.elapsed >= self.duration
    }

    /// The timer after a tick of `delta` nanoseconds.
    pub open spec fn ticked(self, delta: u64) -> Timer {
        Timer { elapsed: count_up(self.elapsed, self.duration, delta), ..self }
    }

    /// The timer after a reset.
    pub open spec fn restarted(self) -> Timer {
        Timer { elapsed: 0, ..self }
    }

    /// A fresh timer of `duration` nanoseconds.
    pub fn new(duration: u64) -> (timer: Self)
        ensures
            timer == (Timer { duration, elapsed: 0 }),
    {
        Timer { duration, elapsed: 0 }
    }

    /// A fresh timer of `millis` milliseconds; the duration saturates at the
    /// largest number of nanoseconds that can be counted.
    pub fn from_millis(millis: u64) -> (timer: Self)
        ensures
            timer.elapsed == 0,
            timer.duration == saturating_product(millis, NANOS_PER_MILLI),
    {
        Timer::new(scale_saturating(millis, NANOS_PER_MILLI))
    }

    /// A fresh timer of `secs` seconds; the duration saturates at the largest
    /// number of nanoseconds that can be counted.
    pub fn from_secs(secs: u64) -> (timer: Self)
        ensures
            timer.elapsed == 0,
            timer.duration == saturating_product(secs, NANOS_PER_SECOND),
    {
        Timer::new(scale_saturating(secs, NANOS_PER_SECOND))
    }

    pub fn finished(&self) -> (done: bool)
        ensures
            done == self.is_finished(),
    {
        self.elapsed >= self.duration
    }

    /// Advances the timer by `delta` nanoseconds, stopping at the duration.
    pub fn tick(&mut self, delta: u64)
        ensures
            *final(self) == old(self).ticked(delta),
    {
        if self.elapsed >= self.duration || delta >= self.duration - self.elapsed {
            self.elapsed = self.duration;
        } else {
            self.elapsed = self.elapsed + delta;
        }
    }

    /// Starts the count again from zero.
    pub fn reset(&mut self)
        ensures
            *final(self) == old(self).restarted(),
    {
        self.elapsed = 0;
    }
}

/// `value * unit`, or the largest `u64` where the product does not fit.
pub open spec fn saturating_product(value: u64, unit: u64) -> u64 {
    if value * unit <= u64::MAX {
        (value * unit) as u64
    } else {
        u64::MAX
    }
}

fn scale_saturating(value: u64, unit: u64) -> (scaled: u64)
    requires
        unit > 0,
    ensures
        scaled == saturating_product(value, unit),
{
    if value <= u64::MAX / unit {
        assert(value * unit <= u64::MAX) by (nonlinear_arith)
            requires
                value <= u64::MAX / unit,
                unit > 0,
        ;
        value * unit
    } else {
        assert(value * unit > u64::MAX) by (nonlinear_arith)
            requires
                value > u64::MAX / unit,
                unit > 0,
        ;
        u64::MAX
    }
}

/// Ticks and resets leave a timer well formed and keep its duration; a tick
/// never counts backwards.
pub proof fn timer_stays_well_formed(timer: Timer, delta: u64)
    requires
        timer.wf(),
    ensures
        timer.ticked(delta).wf(),
        timer.restarted().wf(),
        timer.ticked(delta).duration == timer.duration,
        timer.ticked(delta).elapsed >= timer.elapsed,
{
}

/// A finished timer stays as it is, however long it is ticked.
pub proof fn finished_timer_ignores_ticks(timer: Timer, delta: u64)
    requires
        timer.wf(),
        timer.is_finished(),
    ensures
        timer.ticked(delta) == timer,
{
}

/// Ticking twice counts the same time as one tick of the sum.
pub proof fn ticks_accumulate(timer: Timer, first: u64, second: u64)
    requires
        timer.wf(),
        first + second <= u64::MAX,
    ensures
        timer.ticked(first).ticked(second) == timer.ticked((first + second) as u64),
{
}

} // verus!
