//! `ClockStep`: what one advancement of a clock or ticker reports.

use crate::span::TimeSpan;
use crate::stamp::TimeStamp;
use vstd::prelude::*;

verus! {

/// Result of one step of a clock, or one tick of a ticker: the stamp that is
/// "now" after it, and the span since the previous step.
#[derive(Clone, Copy, Debug, PartialEq, Eq, Structural)]
pub struct ClockStep {
    /// The stamp corresponding to "now".
    pub now: TimeStamp,
    /// The span since the previous step.
    pub step: TimeSpan,
}

/// A `ClockStep` in plain numbers.
pub ghost struct StepView {
    /// Nanoseconds since the reference point.
    pub now: nat,
    /// Nanoseconds since the previous step.
    pub step: int,
}

impl View for ClockStep {
    type V = StepView;

    open spec fn view(&self) -> StepView {
        StepView { now: self.now@, step: self.step@ }
    }
}

} // verus!
