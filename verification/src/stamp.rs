//! `TimeStamp`: a fixed point in time, counted in nanoseconds from a
//! reference point that the creator of the stamp chooses.

use crate::span::TimeSpan;
use vstd::prelude::*;

verus! {

/// The largest number of nanoseconds since the reference point that a stamp
/// can hold: one less than the longest `TimeSpan`.
pub const MAX_ELAPSED_NANOS: u64 = 9_223_372_036_854_775_806;

/// A fixed point in time relative to a reference point.
///
/// The reference point depends on how the stamp is made: a clock hands out
/// stamps relative to its own start, and stamps derived from another stamp
/// share its reference point.
///
/// Its view is the number of nanoseconds elapsed since the reference point,
/// which never exceeds `MAX_ELAPSED_NANOS`.
#[derive(Clone, Copy, Debug, PartialEq, Eq, Structural, Ord, Hash)]
pub struct TimeStamp {
    nanos: u64,
}

impl View for TimeStamp {
    type V = nat;

    closed spec fn view(&self) -> nat {
        self.nanos as nat
    }
}

impl TimeStamp {
    /// Every stamp lies within `MAX_ELAPSED_NANOS` of its reference point.
    #[verifier::type_invariant]
    pub closed spec fn in_range(self) -> bool {
        self.nanos <= MAX_ELAPSED_NANOS
    }

    /// Two stamps with the same elapsed time are the same stamp.
    pub proof fn lemma_view(self, other: TimeStamp)
        ensures
            self@ == other@ <==> self == other,
            self.in_range() <==> self@ <= MAX_ELAPSED_NANOS,
    {
    }

    /// The reference point itself: the smallest stamp.
    pub fn start() -> (t: TimeStamp)
        ensures
            t@ == 0,
    {
        TimeStamp { nanos: 0 }
    }

    /// The largest stamp. It cannot be reached without artificially long
    /// spans.
    pub fn never() -> (t: TimeStamp)
        ensures
            t@ == MAX_ELAPSED_NANOS,
    {
        TimeStamp { nanos: MAX_ELAPSED_NANOS }
    }

    /// Constructs the stamp that lies `nanos` nanoseconds after the reference
    /// point, or `None` if that is beyond the largest stamp.
    pub fn from_elapsed(nanos: u64) -> (r: Option<TimeStamp>)
        ensures
            nanos <= MAX_ELAPSED_NANOS ==> (r matches Some(t) && t@ == nanos),
            nanos > MAX_ELAPSED_NANOS ==> r is None,
    {
        if nanos > MAX_ELAPSED_NANOS {
            return None;
        }
        Some(TimeStamp { nanos })
    }

    /// Constructs the stamp that lies `nanos` nanoseconds after the reference
    /// point, for a count known to be in range.
    pub fn from_elapsed_unchecked(nanos: u64) -> (t: TimeStamp)
        requires
            nanos <= MAX_ELAPSED_NANOS,
        ensures
            t@ == nanos,
    {
        TimeStamp { nanos }
    }

    /// The elapsed nanoseconds as a signed number.
    fn nanos(self) -> (n: i64)
        ensures
            n == self@,
    {
        proof {
            use_type_invariant(&self);
        }
        self.nanos as i64
    }

    /// Constructs the stamp that lies a duration of `nanos` nanoseconds in
    /// total after the reference point, or `None` if that is beyond the
    /// largest stamp.
    pub fn from_duration(nanos: u128) -> (r: Option<TimeStamp>)
        ensures
            nanos <= MAX_ELAPSED_NANOS ==> (r matches Some(t) && t@ == nanos),
            nanos > MAX_ELAPSED_NANOS ==> r is None,
    {
        if nanos > MAX_ELAPSED_NANOS as u128 {
            return None;
        }
        Some(TimeStamp::from_elapsed_unchecked(nanos as u64))
    }

    /// Constructs the stamp for a duration of `nanos` nanoseconds in total
    /// that the running process observed since the reference point.
    ///
    /// A process cannot observe more than `MAX_ELAPSED_NANOS`: that would be
    /// an uptime of some 292 years.
    pub fn from_observed_duration(nanos: u128) -> (t: TimeStamp)
        requires
            nanos <= MAX_ELAPSED_NANOS,
        ensures
            t@ == nanos,
    {
        TimeStamp::from_elapsed_unchecked(nanos as u64)
    }

    /// Returns the span elapsed since `since`, negative if `since` is the
    /// later stamp. The difference of two stamps always fits a span.
    pub fn checked_elapsed_since(self, since: TimeStamp) -> (r: Option<TimeSpan>)
        ensures
            r matches Some(s) && s@ == self@ - since@,
    {
        let lhs: i64 = self.nanos();
        let rhs: i64 = since.nanos();
        match lhs.checked_sub(rhs) {
            None => None,
            Some(diff) => Some(TimeSpan::new(diff)),
        }
    }

    /// Returns the span elapsed since `earlier`, negative if `earlier` is the
    /// later stamp.
    pub fn elapsed_since(self, earlier: TimeStamp) -> (s: TimeSpan)
        ensures
            s@ == self@ - earlier@,
    {
        let lhs: i64 = self.nanos();
        let rhs: i64 = earlier.nanos();
        TimeSpan::new(lhs - rhs)
    }

    /// Returns the span elapsed since the reference point.
    pub fn elapsed_since_start(self) -> (s: TimeSpan)
        ensures
            s@ == self@,
    {
        TimeSpan::new(self.nanos())
    }

    /// Returns the nanoseconds elapsed since the reference point.
    pub fn nanos_since_start(self) -> (n: u64)
        ensures
            n == self@,
            n <= MAX_ELAPSED_NANOS,
    {
        proof {
            use_type_invariant(&self);
        }
        self.nanos
    }

    /// Returns the stamp that lies `span` after this one, or `None` if that
    /// would be before the reference point or beyond the largest stamp.
    pub fn add_span(self, span: TimeSpan) -> (r: Option<TimeStamp>)
        ensures
            0 <= self@ + span@ <= MAX_ELAPSED_NANOS ==> (r matches Some(t) && t@ == self@ + span@),
            !(0 <= self@ + span@ <= MAX_ELAPSED_NANOS) ==> r is None,
    {
        let nanos: i64 = match self.nanos().checked_add(span.as_nanos()) {
            None => {
                return None;
            },
            Some(nanos) => nanos,
        };
        if nanos < 0 {
            return None;
        }
        TimeStamp::from_elapsed(nanos as u64)
    }

    /// Returns the stamp that lies `span` before this one, or `None` if that
    /// would be before the reference point or beyond the largest stamp.
    pub fn sub_span(self, span: TimeSpan) -> (r: Option<TimeStamp>)
        ensures
            0 <= self@ - span@ <= MAX_ELAPSED_NANOS ==> (r matches Some(t) && t@ == self@ - span@),
            !(0 <= self@ - span@ <= MAX_ELAPSED_NANOS) ==> r is None,
    {
        let nanos: i64 = match self.nanos().checked_sub(span.as_nanos()) {
            None => {
                return None;
            },
            Some(nanos) => nanos,
        };
        if nanos < 0 {
            return None;
        }
        TimeStamp::from_elapsed(nanos as u64)
    }
}

impl core::ops::Add<TimeSpan> for TimeStamp {
    type Output = TimeStamp;

    /// The stamp that lies `rhs` after this one.
    fn add(self, rhs: TimeSpan) -> (t: TimeStamp)
        ensures
            t@ == self@ + rhs@,
    {
        proof {
            use_type_invariant(&self);
            rhs.lemma_view(rhs);
        }
        let nanos: i64 = self.nanos() + rhs.as_nanos();
        TimeStamp { nanos: nanos as u64 }
    }
}

impl vstd::std_specs::ops::AddSpecImpl<TimeSpan> for TimeStamp {
    open spec fn obeys_add_spec() -> bool {
        true
    }

    open spec fn add_req(self, rhs: TimeSpan) -> bool {
        0 <= self@ + rhs@ <= MAX_ELAPSED_NANOS
    }

    closed spec fn add_spec(self, rhs: TimeSpan) -> TimeStamp {
        TimeStamp { nanos: (self@ + rhs@) as u64 }
    }
}

impl core::ops::Sub<TimeSpan> for TimeStamp {
    type Output = TimeStamp;

    /// The stamp that lies `rhs` before this one.
    fn sub(self, rhs: TimeSpan) -> (t: TimeStamp)
        ensures
            t@ == self@ - rhs@,
    {
        proof {
            use_type_invariant(&self);
            rhs.lemma_view(rhs);
        }
        let nanos: i64 = self.nanos() - rhs.as_nanos();
        TimeStamp { nanos: nanos as u64 }
    }
}

impl vstd::std_specs::ops::SubSpecImpl<TimeSpan> for TimeStamp {
    open spec fn obeys_sub_spec() -> bool {
        true
    }

    open spec fn sub_req(self, rhs: TimeSpan) -> bool {
        0 <= self@ - rhs@ <= MAX_ELAPSED_NANOS
    }

    closed spec fn sub_spec(self, rhs: TimeSpan) -> TimeStamp {
        TimeStamp { nanos: (self@ - rhs@) as u64 }
    }
}

impl core::ops::Sub<TimeStamp> for TimeStamp {
    type Output = TimeSpan;

    /// The span elapsed since `rhs`.
    fn sub(self, rhs: TimeStamp) -> (s: TimeSpan)
        ensures
            s@ == self@ - rhs@,
    {
        let s = self.elapsed_since(rhs);
        proof {
            use_type_invariant(&self);
            use_type_invariant(&rhs);
            s.lemma_stored();
        }
        s
    }
}

impl vstd::std_specs::ops::SubSpecImpl<TimeStamp> for TimeStamp {
    open spec fn obeys_sub_spec() -> bool {
        true
    }

    open spec fn sub_req(self, rhs: TimeStamp) -> bool {
        true
    }

    closed spec fn sub_spec(self, rhs: TimeStamp) -> TimeSpan {
        TimeSpan { nanos: (self@ - rhs@) as i64 }
    }
}

impl core::ops::AddAssign<TimeSpan> for TimeStamp {
    /// Moves this stamp `rhs` later.
    fn add_assign(&mut self, rhs: TimeSpan)
        requires
            0 <= old(self)@ + rhs@ <= MAX_ELAPSED_NANOS,
        ensures
            final(self)@ == old(self)@ + rhs@,
    {
        *self = *self + rhs;
    }
}

impl core::ops::SubAssign<TimeSpan> for TimeStamp {
    /// Moves this stamp `rhs` earlier.
    fn sub_assign(&mut self, rhs: TimeSpan)
        requires
            0 <= old(self)@ - rhs@ <= MAX_ELAPSED_NANOS,
        ensures
            final(self)@ == old(self)@ - rhs@,
    {
        *self = *self - rhs;
    }
}

} // verus!
