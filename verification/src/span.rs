//! `TimeSpan`: a signed interval between two points in time, counted in
//! nanoseconds.

use crate::math::{
    abs_int, div_overflows, lemma_trunc_by_floor, lemma_trunc_div_fits, trunc_div, trunc_rem,
};
use vstd::prelude::*;

verus! {

/// Nanoseconds in one microsecond.
pub const NANOS_PER_MICROSECOND: i64 = 1_000;

/// Nanoseconds in one millisecond.
pub const NANOS_PER_MILLISECOND: i64 = 1_000_000;

/// Nanoseconds in one second.
pub const NANOS_PER_SECOND: i64 = 1_000_000_000;

/// Nanoseconds in one minute.
pub const NANOS_PER_MINUTE: i64 = 60_000_000_000;

/// Nanoseconds in one hour.
pub const NANOS_PER_HOUR: i64 = 3_600_000_000_000;

/// Nanoseconds in one day.
pub const NANOS_PER_DAY: i64 = 86_400_000_000_000;

/// Nanoseconds in one week of seven days.
pub const NANOS_PER_WEEK: i64 = 604_800_000_000_000;

/// Nanoseconds in one Julian year of 365.25 days.
pub const NANOS_PER_JULIAN_YEAR: i64 = 31_557_600_000_000_000;

/// Nanoseconds that `TimeSpan::gregorian_year`, `TimeSpan::year` and
/// `TimeSpan::ydhms` count for one year.
pub const NANOS_PER_GREGORIAN_YEAR: i64 = 31_556_952_000_000;

/// Nanoseconds in one solar year of 365.24219 days.
pub const NANOS_PER_SOLAR_YEAR: i64 = 31_556_925_216_000_000;

/// An interval between time stamps, with nanosecond precision.
///
/// Its view is the signed number of nanoseconds.
#[derive(Clone, Copy, Debug, PartialEq, Eq, Structural, Ord, Hash)]
pub struct TimeSpan {
    pub(crate) nanos: i64,
}

impl View for TimeSpan {
    type V = int;

    closed spec fn view(&self) -> int {
        self.nanos as int
    }
}

/// The nanoseconds of `hours`, `minutes` and `seconds` together.
pub open spec fn hms_nanos(hours: int, minutes: int, seconds: int) -> int {
    hours * NANOS_PER_HOUR + minutes * NANOS_PER_MINUTE + seconds * NANOS_PER_SECOND
}

/// The nanoseconds of `days`, `hours`, `minutes` and `seconds` together.
pub open spec fn dhms_nanos(days: int, hours: int, minutes: int, seconds: int) -> int {
    days * NANOS_PER_DAY + hms_nanos(hours, minutes, seconds)
}

/// The nanoseconds of `years`, `days`, `hours`, `minutes` and `seconds`
/// together.
pub open spec fn ydhms_nanos(years: int, days: int, hours: int, minutes: int, seconds: int) -> int {
    years * NANOS_PER_GREGORIAN_YEAR + dhms_nanos(days, hours, minutes, seconds)
}

/// Whether `n` can be stored as a span's nanosecond count.
pub open spec fn fits_i64(n: int) -> bool {
    i64::MIN <= n <= i64::MAX
}

impl TimeSpan {
    /// A span is its nanosecond count: the count always fits 64 signed bits,
    /// and two spans with the same count are the same span.
    pub proof fn lemma_view(self, other: TimeSpan)
        ensures
            fits_i64(self@),
            self@ == other@ <==> self == other,
    {
    }

    /// The view is the stored count.
    pub(crate) proof fn lemma_stored(self)
        ensures
            self@ == self.nanos,
    {
    }

    /// The span between equal time points.
    pub fn zero() -> (s: TimeSpan)
        ensures
            s@ == 0,
    {
        TimeSpan { nanos: 0 }
    }

    /// The least span that serves as a bound: the negation of `max_value`, so
    /// that its negation and absolute value exist.
    pub fn min_value() -> (s: TimeSpan)
        ensures
            s@ == -i64::MAX,
    {
        TimeSpan { nanos: -i64::MAX }
    }

    /// The longest span.
    pub fn max_value() -> (s: TimeSpan)
        ensures
            s@ == i64::MAX,
    {
        TimeSpan { nanos: i64::MAX }
    }

    /// One nanosecond: the smallest positive span.
    pub fn nanosecond() -> (s: TimeSpan)
        ensures
            s@ == 1,
    {
        TimeSpan { nanos: 1 }
    }

    /// One microsecond.
    pub fn microsecond() -> (s: TimeSpan)
        ensures
            s@ == NANOS_PER_MICROSECOND,
    {
        TimeSpan { nanos: NANOS_PER_MICROSECOND }
    }

    /// One millisecond.
    pub fn millisecond() -> (s: TimeSpan)
        ensures
            s@ == NANOS_PER_MILLISECOND,
    {
        TimeSpan { nanos: NANOS_PER_MILLISECOND }
    }

    /// One second.
    pub fn second() -> (s: TimeSpan)
        ensures
            s@ == NANOS_PER_SECOND,
    {
        TimeSpan { nanos: NANOS_PER_SECOND }
    }

    /// One minute.
    pub fn minute() -> (s: TimeSpan)
        ensures
            s@ == NANOS_PER_MINUTE,
    {
        TimeSpan { nanos: NANOS_PER_MINUTE }
    }

    /// One hour.
    pub fn hour() -> (s: TimeSpan)
        ensures
            s@ == NANOS_PER_HOUR,
    {
        TimeSpan { nanos: NANOS_PER_HOUR }
    }

    /// One day.
    pub fn day() -> (s: TimeSpan)
        ensures
            s@ == NANOS_PER_DAY,
    {
        TimeSpan { nanos: NANOS_PER_DAY }
    }

    /// One week of seven days.
    pub fn week() -> (s: TimeSpan)
        ensures
            s@ == NANOS_PER_WEEK,
    {
        TimeSpan { nanos: NANOS_PER_WEEK }
    }

    /// One Julian year.
    pub fn julian_year() -> (s: TimeSpan)
        ensures
            s@ == NANOS_PER_JULIAN_YEAR,
    {
        TimeSpan { nanos: NANOS_PER_JULIAN_YEAR }
    }

    /// One Gregorian year, as this library counts it.
    pub fn gregorian_year() -> (s: TimeSpan)
        ensures
            s@ == NANOS_PER_GREGORIAN_YEAR,
    {
        TimeSpan { nanos: NANOS_PER_GREGORIAN_YEAR }
    }

    /// One solar (tropical) year.
    pub fn solar_year() -> (s: TimeSpan)
        ensures
            s@ == NANOS_PER_SOLAR_YEAR,
    {
        TimeSpan { nanos: NANOS_PER_SOLAR_YEAR }
    }

    /// One year: the Gregorian year.
    pub fn year() -> (s: TimeSpan)
        ensures
            s@ == NANOS_PER_GREGORIAN_YEAR,
    {
        TimeSpan { nanos: NANOS_PER_GREGORIAN_YEAR }
    }

    /// Constructs a span from a number of nanoseconds.
    pub fn new(nanos: i64) -> (s: TimeSpan)
        ensures
            s@ == nanos,
    {
        TimeSpan { nanos }
    }

    /// Returns the number of nanoseconds in this span.
    pub fn as_nanos(self) -> (n: i64)
        ensures
            n == self@,
    {
        self.nanos
    }

    /// Returns the number of whole microseconds, rounded toward zero.
    pub fn as_micros(self) -> (n: i64)
        ensures
            n == trunc_div(self@, NANOS_PER_MICROSECOND as int),
    {
        self.nanos / NANOS_PER_MICROSECOND
    }

    /// Returns the number of whole milliseconds, rounded toward zero.
    pub fn as_millis(self) -> (n: i64)
        ensures
            n == trunc_div(self@, NANOS_PER_MILLISECOND as int),
    {
        self.nanos / NANOS_PER_MILLISECOND
    }

    /// Returns the number of whole seconds, rounded toward zero.
    pub fn as_seconds(self) -> (n: i64)
        ensures
            n == trunc_div(self@, NANOS_PER_SECOND as int),
    {
        self.nanos / NANOS_PER_SECOND
    }

    /// Returns the number of whole minutes, rounded toward zero.
    pub fn as_minutes(self) -> (n: i64)
        ensures
            n == trunc_div(self@, NANOS_PER_MINUTE as int),
    {
        self.nanos / NANOS_PER_MINUTE
    }

    /// Returns the number of whole hours, rounded toward zero.
    pub fn as_hours(self) -> (n: i64)
        ensures
            n == trunc_div(self@, NANOS_PER_HOUR as int),
    {
        self.nanos / NANOS_PER_HOUR
    }

    /// Returns the number of whole days, rounded toward zero.
    pub fn as_days(self) -> (n: i64)
        ensures
            n == trunc_div(self@, NANOS_PER_DAY as int),
    {
        self.nanos / NANOS_PER_DAY
    }

    /// Returns the number of whole weeks, rounded toward zero.
    pub fn as_weeks(self) -> (n: i64)
        ensures
            n == trunc_div(self@, NANOS_PER_WEEK as int),
    {
        self.nanos / NANOS_PER_WEEK
    }

    /// Converts a duration of `nanos` nanoseconds in total into a span.
    ///
    /// A duration longer than the longest span has no span.
    pub fn from_duration(nanos: u128) -> (s: TimeSpan)
        requires
            nanos <= i64::MAX,
        ensures
            s@ == nanos,
    {
        TimeSpan { nanos: nanos as i64 }
    }

    /// Returns the span of `nanos` nanoseconds, or `None` if that is longer
    /// than the longest span.
    pub fn checked_from_nanos(nanos: u64) -> (r: Option<TimeSpan>)
        ensures
            nanos <= i64::MAX ==> (r matches Some(s) && s@ == nanos),
            nanos > i64::MAX ==> r is None,
    {
        if nanos > i64::MAX as u64 {
            None
        } else {
            Some(TimeSpan { nanos: nanos as i64 })
        }
    }

    /// Converts this span into the whole seconds and the nanoseconds beyond
    /// them that make up a duration.
    ///
    /// A negative span has no duration.
    pub fn into_duration(self) -> (parts: (u64, u32))
        requires
            self@ >= 0,
        ensures
            parts.0 == self@ / (NANOS_PER_SECOND as int),
            parts.1 == self@ % (NANOS_PER_SECOND as int),
            parts.1 < NANOS_PER_SECOND,
    {
        ((self.nanos / NANOS_PER_SECOND) as u64, (self.nanos % NANOS_PER_SECOND) as u32)
    }

    /// Returns the span of the given hours, minutes and seconds.
    pub fn hms(hours: i64, minutes: i64, seconds: i64) -> (s: TimeSpan)
        requires
            fits_i64(hms_nanos(hours as int, minutes as int, seconds as int)),
        ensures
            s@ == hms_nanos(hours as int, minutes as int, seconds as int),
    {
        let nanos: i128 = hours as i128 * NANOS_PER_HOUR as i128 + minutes as i128
            * NANOS_PER_MINUTE as i128 + seconds as i128 * NANOS_PER_SECOND as i128;
        TimeSpan { nanos: nanos as i64 }
    }

    /// Returns the span of the given days, hours, minutes and seconds.
    pub fn dhms(days: i64, hours: i64, minutes: i64, seconds: i64) -> (s: TimeSpan)
        requires
            fits_i64(dhms_nanos(days as int, hours as int, minutes as int, seconds as int)),
        ensures
            s@ == dhms_nanos(days as int, hours as int, minutes as int, seconds as int),
    {
        let nanos: i128 = days as i128 * NANOS_PER_DAY as i128 + hours as i128
            * NANOS_PER_HOUR as i128 + minutes as i128 * NANOS_PER_MINUTE as i128 + seconds as i128
            * NANOS_PER_SECOND as i128;
        TimeSpan { nanos: nanos as i64 }
    }

    /// Returns the span of the given years, days, hours, minutes and
    /// seconds, with the year that `gregorian_year` returns.
    pub fn ydhms(years: i64, days: i64, hours: i64, minutes: i64, seconds: i64) -> (s: TimeSpan)
        requires
            fits_i64(
                ydhms_nanos(
                    years as int,
                    days as int,
                    hours as int,
                    minutes as int,
                    seconds as int,
                ),
            ),
        ensures
            s@ == ydhms_nanos(
                years as int,
                days as int,
                hours as int,
                minutes as int,
                seconds as int,
            ),
    {
        let nanos: i128 = years as i128 * NANOS_PER_GREGORIAN_YEAR as i128 + days as i128
            * NANOS_PER_DAY as i128 + hours as i128 * NANOS_PER_HOUR as i128 + minutes as i128
            * NANOS_PER_MINUTE as i128 + seconds as i128 * NANOS_PER_SECOND as i128;
        TimeSpan { nanos: nanos as i64 }
    }

    /// Returns the absolute value of this span.
    ///
    /// The one span without an absolute value, `i64::MIN` nanoseconds, is
    /// excluded.
    pub fn abs(self) -> (s: TimeSpan)
        requires
            self@ != i64::MIN,
        ensures
            s@ == abs_int(self@),
    {
        if self.nanos < 0 {
            TimeSpan { nanos: -self.nanos }
        } else {
            self
        }
    }

    /// Returns true if this span is negative.
    pub fn is_negative(self) -> (b: bool)
        ensures
            b == (self@ < 0),
    {
        self.nanos < 0
    }

    /// Returns the sum of two spans, or `None` if it does not fit.
    pub fn checked_add(self, span: TimeSpan) -> (r: Option<TimeSpan>)
        ensures
            fits_i64(self@ + span@) ==> (r matches Some(s) && s@ == self@ + span@),
            !fits_i64(self@ + span@) ==> r is None,
    {
        match self.nanos.checked_add(span.nanos) {
            None => None,
            Some(nanos) => Some(TimeSpan { nanos }),
        }
    }

    /// Returns the difference of two spans, or `None` if it does not fit.
    pub fn checked_sub(self, span: TimeSpan) -> (r: Option<TimeSpan>)
        ensures
            fits_i64(self@ - span@) ==> (r matches Some(s) && s@ == self@ - span@),
            !fits_i64(self@ - span@) ==> r is None,
    {
        match self.nanos.checked_sub(span.nanos) {
            None => None,
            Some(nanos) => Some(TimeSpan { nanos }),
        }
    }

    /// Returns this span multiplied by a scalar, or `None` if the product
    /// does not fit.
    pub fn checked_mul(self, value: i64) -> (r: Option<TimeSpan>)
        ensures
            fits_i64(self@ * value) ==> (r matches Some(s) && s@ == self@ * value),
            !fits_i64(self@ * value) ==> r is None,
    {
        match self.nanos.checked_mul(value) {
            None => None,
            Some(nanos) => Some(TimeSpan { nanos }),
        }
    }

    /// Returns this span divided by a scalar, rounded toward zero, or `None`
    /// if the scalar is zero or the quotient does not fit (the least
    /// span divided by minus one).
    pub fn checked_div(self, value: i64) -> (r: Option<TimeSpan>)
        ensures
            value != 0 && !div_overflows(self@, value as int) ==> (r matches Some(s) && s@
                == trunc_div(self@, value as int)),
            value == 0 || div_overflows(self@, value as int) ==> r is None,
    {
        proof {
            if value != 0 && !div_overflows(self@, value as int) {
                lemma_trunc_div_fits(self@, value as int);
            }
        }
        match self.nanos.checked_div(value) {
            None => None,
            Some(nanos) => Some(TimeSpan { nanos }),
        }
    }

    /// Returns how many times `span` goes into this span, rounded toward
    /// zero, or `None` if `span` is zero or the quotient does not fit.
    pub fn checked_div_span(self, span: TimeSpan) -> (r: Option<i64>)
        ensures
            span@ != 0 && !div_overflows(self@, span@) ==> r == Some(
                trunc_div(self@, span@) as i64,
            ),
            span@ == 0 || div_overflows(self@, span@) ==> r is None,
    {
        proof {
            if span@ != 0 && !div_overflows(self@, span@) {
                lemma_trunc_div_fits(self@, span@);
            }
        }
        self.nanos.checked_div(span.nanos)
    }

    /// Returns how many times the non-zero `span` goes into this span,
    /// rounded toward zero.
    pub fn div_span(self, span: TimeSpan) -> (n: i64)
        requires
            span@ != 0,
            !div_overflows(self@, span@),
        ensures
            n == trunc_div(self@, span@),
    {
        proof {
            lemma_trunc_by_floor(self@, span@);
            lemma_trunc_div_fits(self@, span@);
        }
        self.nanos / span.nanos
    }

    /// Returns the remainder of this span divided by a scalar, with the sign
    /// of this span, or `None` if the scalar is zero or the division itself
    /// overflows.
    pub fn checked_rem(self, value: i64) -> (r: Option<TimeSpan>)
        ensures
            value != 0 && !div_overflows(self@, value as int) ==> (r matches Some(s) && s@
                == trunc_rem(self@, value as int)),
            value == 0 || div_overflows(self@, value as int) ==> r is None,
    {
        proof {
            if value != 0 && !div_overflows(self@, value as int) {
                lemma_trunc_div_fits(self@, value as int);
            }
        }
        match self.nanos.checked_rem(value) {
            None => None,
            Some(nanos) => Some(TimeSpan { nanos }),
        }
    }

    /// Returns the remainder of this span divided by a non-zero scalar, with
    /// the sign of this span.
    pub fn rem(self, value: i64) -> (s: TimeSpan)
        requires
            value != 0,
            !div_overflows(self@, value as int),
        ensures
            s@ == trunc_rem(self@, value as int),
    {
        proof {
            lemma_trunc_by_floor(self@, value as int);
        }
        let nanos: i64 = self.nanos % value;
        TimeSpan { nanos }
    }

    /// Returns the remainder of this span divided by `span`, with the sign of
    /// this span, or `None` if `span` is zero or the division itself
    /// overflows.
    pub fn checked_rem_span(self, span: TimeSpan) -> (r: Option<TimeSpan>)
        ensures
            span@ != 0 && !div_overflows(self@, span@) ==> (r matches Some(s) && s@
                == trunc_rem(self@, span@)),
            span@ == 0 || div_overflows(self@, span@) ==> r is None,
    {
        proof {
            if span@ != 0 && !div_overflows(self@, span@) {
                lemma_trunc_div_fits(self@, span@);
            }
        }
        match self.nanos.checked_rem(span.nanos) {
            None => None,
            Some(nanos) => Some(TimeSpan { nanos }),
        }
    }

    /// Returns the remainder of this span divided by the non-zero `span`,
    /// with the sign of this span.
    pub fn rem_span(self, span: TimeSpan) -> (s: TimeSpan)
        requires
            span@ != 0,
            !div_overflows(self@, span@),
        ensures
            s@ == trunc_rem(self@, span@),
    {
        proof {
            lemma_trunc_by_floor(self@, span@);
        }
        let nanos: i64 = self.nanos % span.nanos;
        TimeSpan { nanos }
    }
}

/// A span that is longer than zero, as the cycle of a frequency must be.
///
/// Its view is the positive number of nanoseconds.
#[derive(Clone, Copy, Debug, PartialEq, Eq, Structural, Ord, Hash)]
pub struct NonZeroTimeSpan {
    nanos: u64,
}

impl View for NonZeroTimeSpan {
    type V = int;

    closed spec fn view(&self) -> int {
        self.nanos as int
    }
}

impl NonZeroTimeSpan {
    /// The span is positive and fits a `TimeSpan`.
    #[verifier::type_invariant]
    pub closed spec fn positive(self) -> bool {
        0 < self.nanos <= i64::MAX
    }

    /// Two such spans with the same length are the same span.
    pub proof fn lemma_view(self, other: NonZeroTimeSpan)
        ensures
            self@ == other@ <==> self == other,
            self.positive() <==> 0 < self@ <= i64::MAX,
    {
    }

    /// Returns `span` as a span longer than zero, or `None` if it is zero or
    /// negative.
    pub fn new(span: TimeSpan) -> (r: Option<NonZeroTimeSpan>)
        ensures
            span@ > 0 ==> (r matches Some(s) && s@ == span@),
            span@ <= 0 ==> r is None,
    {
        if span.nanos > 0 {
            Some(NonZeroTimeSpan { nanos: span.nanos as u64 })
        } else {
            None
        }
    }

    /// Returns the span of `nanos` nanoseconds, or `None` if `nanos` is zero
    /// or more than the longest `TimeSpan`.
    pub fn from_nanos(nanos: u64) -> (r: Option<NonZeroTimeSpan>)
        ensures
            0 < nanos <= i64::MAX ==> (r matches Some(s) && s@ == nanos),
            nanos == 0 || nanos > i64::MAX ==> r is None,
    {
        if nanos == 0 || nanos > i64::MAX as u64 {
            None
        } else {
            Some(NonZeroTimeSpan { nanos })
        }
    }

    /// One nanosecond.
    pub fn nanosecond() -> (s: NonZeroTimeSpan)
        ensures
            s@ == 1,
    {
        NonZeroTimeSpan { nanos: 1 }
    }

    /// One microsecond.
    pub fn microsecond() -> (s: NonZeroTimeSpan)
        ensures
            s@ == NANOS_PER_MICROSECOND,
    {
        NonZeroTimeSpan { nanos: 1_000 }
    }

    /// One millisecond.
    pub fn millisecond() -> (s: NonZeroTimeSpan)
        ensures
            s@ == NANOS_PER_MILLISECOND,
    {
        NonZeroTimeSpan { nanos: 1_000_000 }
    }

    /// One second.
    pub fn second() -> (s: NonZeroTimeSpan)
        ensures
            s@ == NANOS_PER_SECOND,
    {
        NonZeroTimeSpan { nanos: 1_000_000_000 }
    }

    /// Returns this span as a `TimeSpan`.
    pub fn get(self) -> (s: TimeSpan)
        ensures
            s@ == self@,
    {
        proof {
            use_type_invariant(&self);
        }
        TimeSpan { nanos: self.nanos as i64 }
    }

    /// Returns the number of nanoseconds in this span.
    pub fn as_nanos(self) -> (n: u64)
        ensures
            n == self@,
            0 < n <= i64::MAX,
    {
        proof {
            use_type_invariant(&self);
        }
        self.nanos
    }
}

} // verus!
