//! The arithmetic operators of `TimeSpan`. Each of them asks of its
//! operands that the result exists.

use crate::math::{div_overflows, lemma_trunc_div_fits, trunc_div, trunc_rem};
use crate::span::{fits_i64, TimeSpan};
use vstd::prelude::*;
use vstd::std_specs::ops::RemSpec;

verus! {

impl core::ops::Add<TimeSpan> for TimeSpan {
    type Output = TimeSpan;

    /// The sum of two spans.
    fn add(self, rhs: TimeSpan) -> (s: TimeSpan)
        ensures
            s@ == self@ + rhs@,
    {
        proof {
            self.lemma_stored();
            rhs.lemma_stored();
        }
        let s = TimeSpan { nanos: self.nanos + rhs.nanos };
        proof {
            s.lemma_stored();
        }
        s
    }
}

impl vstd::std_specs::ops::AddSpecImpl<TimeSpan> for TimeSpan {
    open spec fn obeys_add_spec() -> bool {
        true
    }

    open spec fn add_req(self, rhs: TimeSpan) -> bool {
        fits_i64(self@ + rhs@)
    }

    closed spec fn add_spec(self, rhs: TimeSpan) -> TimeSpan {
        TimeSpan { nanos: (self.nanos + rhs.nanos) as i64 }
    }
}

impl core::ops::AddAssign<TimeSpan> for TimeSpan {
    /// Adds `rhs` to this span.
    fn add_assign(&mut self, rhs: TimeSpan)
        requires
            fits_i64(old(self)@ + rhs@),
        ensures
            final(self)@ == old(self)@ + rhs@,
    {
        *self = *self + rhs;
    }
}

impl core::ops::Sub<TimeSpan> for TimeSpan {
    type Output = TimeSpan;

    /// The difference of two spans.
    fn sub(self, rhs: TimeSpan) -> (s: TimeSpan)
        ensures
            s@ == self@ - rhs@,
    {
        proof {
            self.lemma_stored();
            rhs.lemma_stored();
        }
        let s = TimeSpan { nanos: self.nanos - rhs.nanos };
        proof {
            s.lemma_stored();
        }
        s
    }
}

impl vstd::std_specs::ops::SubSpecImpl<TimeSpan> for TimeSpan {
    open spec fn obeys_sub_spec() -> bool {
        true
    }

    open spec fn sub_req(self, rhs: TimeSpan) -> bool {
        fits_i64(self@ - rhs@)
    }

    closed spec fn sub_spec(self, rhs: TimeSpan) -> TimeSpan {
        TimeSpan { nanos: (self.nanos - rhs.nanos) as i64 }
    }
}

impl core::ops::SubAssign<TimeSpan> for TimeSpan {
    /// Subtracts `rhs` from this span.
    fn sub_assign(&mut self, rhs: TimeSpan)
        requires
            fits_i64(old(self)@ - rhs@),
        ensures
            final(self)@ == old(self)@ - rhs@,
    {
        *self = *self - rhs;
    }
}

impl core::ops::Div<TimeSpan> for TimeSpan {
    type Output = i64;

    /// How many times `rhs` goes into this span, rounded toward zero.
    fn div(self, rhs: TimeSpan) -> (n: i64)
        ensures
            n == trunc_div(self@, rhs@),
    {
        self.div_span(rhs)
    }
}

impl vstd::std_specs::ops::DivSpecImpl<TimeSpan> for TimeSpan {
    open spec fn obeys_div_spec() -> bool {
        true
    }

    open spec fn div_req(self, rhs: TimeSpan) -> bool {
        rhs@ != 0 && !div_overflows(self@, rhs@)
    }

    open spec fn div_spec(self, rhs: TimeSpan) -> i64 {
        trunc_div(self@, rhs@) as i64
    }
}

impl core::ops::Rem<TimeSpan> for TimeSpan {
    type Output = TimeSpan;

    /// What is left of this span when `rhs` is taken from it as often as it
    /// goes; it has the sign of this span.
    fn rem(self, rhs: TimeSpan) -> TimeSpan {
        let s = self.rem_span(rhs);
        proof {
            s.lemma_stored();
        }
        s
    }
}

impl vstd::std_specs::ops::RemSpecImpl<TimeSpan> for TimeSpan {
    open spec fn obeys_rem_spec() -> bool {
        true
    }

    open spec fn rem_req(self, rhs: TimeSpan) -> bool {
        rhs@ != 0 && !div_overflows(self@, rhs@)
    }

    closed spec fn rem_spec(self, rhs: TimeSpan) -> TimeSpan {
        TimeSpan { nanos: trunc_rem(self@, rhs@) as i64 }
    }
}

impl TimeSpan {
    /// The span that `%` leaves of this span is the remainder of its
    /// nanoseconds by those of `rhs`.
    pub proof fn lemma_rem_spec(self, rhs: TimeSpan)
        requires
            rhs@ != 0,
            !div_overflows(self@, rhs@),
        ensures
            self.rem_spec(rhs)@ == trunc_rem(self@, rhs@),
    {
        self.lemma_view(self);
        rhs.lemma_view(rhs);
        lemma_trunc_div_fits(self@, rhs@);
        self.rem_spec(rhs).lemma_stored();
    }
}

impl core::ops::RemAssign<TimeSpan> for TimeSpan {
    /// Leaves of this span what `rhs` does not take from it.
    fn rem_assign(&mut self, rhs: TimeSpan)
        requires
            rhs@ != 0,
            !div_overflows(old(self)@, rhs@),
        ensures
            final(self)@ == trunc_rem(old(self)@, rhs@),
    {
        proof {
            self.lemma_rem_spec(rhs);
        }
        *self = *self % rhs;
    }
}

impl core::ops::Mul<i64> for TimeSpan {
    type Output = TimeSpan;

    /// This span, `rhs` times.
    fn mul(self, rhs: i64) -> (s: TimeSpan)
        ensures
            s@ == self@ * rhs,
    {
        proof {
            self.lemma_stored();
        }
        let s = TimeSpan { nanos: self.nanos * rhs };
        proof {
            s.lemma_stored();
        }
        s
    }
}

impl vstd::std_specs::ops::MulSpecImpl<i64> for TimeSpan {
    open spec fn obeys_mul_spec() -> bool {
        true
    }

    open spec fn mul_req(self, rhs: i64) -> bool {
        fits_i64(self@ * rhs)
    }

    closed spec fn mul_spec(self, rhs: i64) -> TimeSpan {
        TimeSpan { nanos: (self.nanos * rhs) as i64 }
    }
}

impl core::ops::Mul<TimeSpan> for i64 {
    type Output = TimeSpan;

    /// The span `rhs`, this many times.
    fn mul(self, rhs: TimeSpan) -> (s: TimeSpan)
        ensures
            s@ == self * rhs@,
    {
        proof {
            rhs.lemma_stored();
            assert(self * rhs.nanos == rhs.nanos * self) by (nonlinear_arith);
        }
        let s = TimeSpan { nanos: self * rhs.nanos };
        proof {
            s.lemma_stored();
        }
        s
    }
}

impl vstd::std_specs::ops::MulSpecImpl<TimeSpan> for i64 {
    open spec fn obeys_mul_spec() -> bool {
        true
    }

    open spec fn mul_req(self, rhs: TimeSpan) -> bool {
        fits_i64(self * rhs@)
    }

    closed spec fn mul_spec(self, rhs: TimeSpan) -> TimeSpan {
        TimeSpan { nanos: (self * rhs.nanos) as i64 }
    }
}

impl core::ops::MulAssign<i64> for TimeSpan {
    /// Multiplies this span by `rhs`.
    fn mul_assign(&mut self, rhs: i64)
        requires
            fits_i64(old(self)@ * rhs),
        ensures
            final(self)@ == old(self)@ * rhs,
    {
        *self = *self * rhs;
    }
}

impl core::ops::Div<i64> for TimeSpan {
    type Output = TimeSpan;

    /// This span divided by `rhs`, rounded toward zero.
    fn div(self, rhs: i64) -> (s: TimeSpan)
        ensures
            s@ == trunc_div(self@, rhs as int),
    {
        match self.checked_div(rhs) {
            Some(s) => {
                proof {
                    s.lemma_stored();
                }
                s
            },
            None => self,
        }
    }
}

impl vstd::std_specs::ops::DivSpecImpl<i64> for TimeSpan {
    open spec fn obeys_div_spec() -> bool {
        true
    }

    open spec fn div_req(self, rhs: i64) -> bool {
        rhs != 0 && !div_overflows(self@, rhs as int)
    }

    closed spec fn div_spec(self, rhs: i64) -> TimeSpan {
        TimeSpan { nanos: trunc_div(self@, rhs as int) as i64 }
    }
}

impl core::ops::DivAssign<i64> for TimeSpan {
    /// Divides this span by `rhs`, rounding toward zero.
    fn div_assign(&mut self, rhs: i64)
        requires
            rhs != 0,
            !div_overflows(old(self)@, rhs as int),
        ensures
            final(self)@ == trunc_div(old(self)@, rhs as int),
    {
        *self = *self / rhs;
    }
}

impl core::ops::Rem<i64> for TimeSpan {
    type Output = TimeSpan;

    /// What is left of this span's nanoseconds when they are divided by
    /// `rhs`; it has the sign of this span.
    fn rem(self, rhs: i64) -> (s: TimeSpan)
        ensures
            s@ == trunc_rem(self@, rhs as int),
    {
        let s = TimeSpan::rem(self, rhs);
        proof {
            s.lemma_stored();
        }
        s
    }
}

impl vstd::std_specs::ops::RemSpecImpl<i64> for TimeSpan {
    open spec fn obeys_rem_spec() -> bool {
        true
    }

    open spec fn rem_req(self, rhs: i64) -> bool {
        rhs != 0 && !div_overflows(self@, rhs as int)
    }

    closed spec fn rem_spec(self, rhs: i64) -> TimeSpan {
        TimeSpan { nanos: trunc_rem(self@, rhs as int) as i64 }
    }
}

impl core::ops::RemAssign<i64> for TimeSpan {
    /// Leaves of this span what a division of its nanoseconds by `rhs`
    /// leaves.
    fn rem_assign(&mut self, rhs: i64)
        requires
            rhs != 0,
            !div_overflows(old(self)@, rhs as int),
        ensures
            final(self)@ == trunc_rem(old(self)@, rhs as int),
    {
        *self = *self % rhs;
    }
}

/// Conversions from plain numbers to spans.
pub trait TimeSpanNumExt: Sized {
    /// The number that the conversions read.
    spec fn number(self) -> int;

    /// This many nanoseconds.
    fn nanoseconds(self) -> (s: TimeSpan)
        requires
            fits_i64(self.number()),
        ensures
            s@ == self.number(),
    ;

    /// This many microseconds.
    fn microseconds(self) -> (s: TimeSpan)
        requires
            fits_i64(self.number() * 1_000),
        ensures
            s@ == self.number() * 1_000,
    ;

    /// This many milliseconds.
    fn milliseconds(self) -> (s: TimeSpan)
        requires
            fits_i64(self.number() * 1_000_000),
        ensures
            s@ == self.number() * 1_000_000,
    ;

    /// This many seconds.
    fn seconds(self) -> (s: TimeSpan)
        requires
            fits_i64(self.number() * 1_000_000_000),
        ensures
            s@ == self.number() * 1_000_000_000,
    ;

    /// This many minutes.
    fn minutes(self) -> (s: TimeSpan)
        requires
            fits_i64(self.number() * 60_000_000_000),
        ensures
            s@ == self.number() * 60_000_000_000,
    ;

    /// This many hours.
    fn hours(self) -> (s: TimeSpan)
        requires
            fits_i64(self.number() * 3_600_000_000_000),
        ensures
            s@ == self.number() * 3_600_000_000_000,
    ;

    /// This many days.
    fn days(self) -> (s: TimeSpan)
        requires
            fits_i64(self.number() * 86_400_000_000_000),
        ensures
            s@ == self.number() * 86_400_000_000_000,
    ;
}

impl TimeSpanNumExt for i64 {
    open spec fn number(self) -> int {
        self as int
    }

    fn nanoseconds(self) -> (s: TimeSpan) {
        TimeSpan::nanosecond() * self
    }

    fn microseconds(self) -> (s: TimeSpan) {
        TimeSpan::microsecond() * self
    }

    fn milliseconds(self) -> (s: TimeSpan) {
        TimeSpan::millisecond() * self
    }

    fn seconds(self) -> (s: TimeSpan) {
        TimeSpan::second() * self
    }

    fn minutes(self) -> (s: TimeSpan) {
        TimeSpan::minute() * self
    }

    fn hours(self) -> (s: TimeSpan) {
        TimeSpan::hour() * self
    }

    fn days(self) -> (s: TimeSpan) {
        TimeSpan::day() * self
    }
}

} // verus!
