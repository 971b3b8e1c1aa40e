//! `Clock`: the bookkeeping of a clock that measures real time.
//!
//! The clock itself never looks at the time. Whoever owns it reads a
//! monotonic counter and hands in the duration observed since the clock was
//! started; the clock turns that into stamps and steps.

use crate::freq::{Frequency, FrequencyTicker, TickerView};
use crate::stamp::{TimeStamp, MAX_ELAPSED_NANOS};
use crate::step::{ClockStep, StepView};
use vstd::prelude::*;

verus! {

/// A clock that yields a `ClockStep` for each observation of the time.
///
/// Its view is the stamp of its last step, in nanoseconds since the start
/// of the clock.
#[derive(Debug)]
pub struct Clock {
    /// The stamp corresponding to "now", measured from the start.
    now: TimeStamp,
}

impl View for Clock {
    type V = nat;

    closed spec fn view(&self) -> nat {
        self.now@
    }
}

impl Clone for Clock {
    fn clone(&self) -> (clock: Clock)
        ensures
            clock@ == self@,
    {
        Clock { now: self.now }
    }
}

impl Default for Clock {
    fn default() -> (clock: Clock)
        ensures
            clock@ == 0,
    {
        Clock::new()
    }
}

impl Clock {
    /// Returns a new clock that has just been started.
    pub fn new() -> (clock: Clock)
        ensures
            clock@ == 0,
    {
        Clock { now: TimeStamp::start() }
    }

    /// Returns a clock whose last step was at `now`.
    pub fn starting_at(now: TimeStamp) -> (clock: Clock)
        ensures
            clock@ == now@,
    {
        Clock { now }
    }

    /// Returns the stamp that was "now" at the last step.
    pub fn now(&self) -> (now: TimeStamp)
        ensures
            now@ == self@,
    {
        self.now
    }

    /// Advances the clock to the time at which `elapsed` nanoseconds have
    /// passed since its start, and returns the new "now" with the span
    /// since the previous step.
    ///
    /// No running process observes more than `MAX_ELAPSED_NANOS`.
    pub fn step(&mut self, elapsed: u128) -> (r: ClockStep)
        requires
            elapsed <= MAX_ELAPSED_NANOS,
        ensures
            final(self)@ == elapsed,
            r@ == (StepView { now: elapsed as nat, step: elapsed - old(self)@ }),
    {
        let now = TimeStamp::from_observed_duration(elapsed);
        let step = now - self.now;
        self.now = now;
        ClockStep { now, step }
    }

    /// Creates a ticker that ticks at the given frequency, starting from the
    /// clock's "now".
    pub fn ticker(&self, freq: Frequency) -> (t: FrequencyTicker)
        ensures
            t@ == (TickerView { freq: freq@, until_next: freq@.cycle, now: self@ }),
            t@.wf(),
    {
        FrequencyTicker::new(freq, self.now)
    }
}

} // verus!
