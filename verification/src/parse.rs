//! Reading time spans from text.
//!
//! The text is ASCII of at most `MAX_TIME_SPAN_STRING` bytes. It is cut at
//! its separators, the bytes that are neither digits nor spaces, and the
//! separators decide how the numbers between them are read:
//!
//! - `1d02:03`, `1d02:03:04`, `1d02:03:04.5`: days, hours, minutes, seconds;
//! - `2:03:04`, `2:03:04.5`: hours, minutes, seconds;
//! - `3:04`, `3:04.5`: minutes and seconds;
//! - `4.5`: seconds;
//! - `4s`, `4ms`, `4us`, `4`: a whole number of seconds, milliseconds or
//!   microseconds; seconds if no unit is given.

use crate::math::pow10;
use crate::span::{
    TimeSpan, NANOS_PER_DAY, NANOS_PER_HOUR, NANOS_PER_MICROSECOND, NANOS_PER_MILLISECOND,
    NANOS_PER_MINUTE, NANOS_PER_SECOND,
};
use vstd::prelude::*;
use vstd::string::StringSliceAdditionalSpecFns;

verus! {

/// The longest text that is read as a span.
pub const MAX_TIME_SPAN_STRING: usize = 48;

/// Why a run of bytes is no number.
#[derive(Clone, Copy, Debug, PartialEq, Eq, Structural)]
pub enum IntParseErrorKind {
    /// There is nothing between the blanks.
    Empty,
    /// A byte that is no decimal digit stands among the digits.
    InvalidDigit,
    /// The number is too large for its 64 bits.
    PosOverflow,
    /// The number is zero where it must not be.
    Zero,
}

/// Why a text is no time span.
#[derive(Clone, Copy, Debug, PartialEq, Eq, Structural)]
pub enum TimeSpanParseErr {
    /// The text holds a byte outside ASCII.
    NonASCII,
    /// The text is longer than `MAX_TIME_SPAN_STRING` bytes.
    StringTooLarge {
        /// Its length in bytes.
        len: usize,
    },
    /// One of the numbers cannot be read, or the span does not fit.
    IntParseError {
        /// What is wrong with the number.
        kind: IntParseErrorKind,
    },
    /// A separator stands where the layout allows none.
    UnexpectedDelimiter {
        /// The separator.
        delim: char,
        /// Its position in the text.
        pos: usize,
    },
    /// The text ends after its days.
    UnexpectedEndOfString,
    /// The unit after the number is none of `s`, `ms` and `us`.
    UnexpectedSuffix,
    /// Hours after days are more than 23.
    HoursOutOfBound {
        /// The hours as written.
        hours: i64,
    },
    /// Minutes after hours are more than 59.
    MinutesOutOfBound {
        /// The minutes as written.
        minutes: i64,
    },
    /// Seconds after minutes are more than 59.
    SecondsOutOfBound {
        /// The seconds as written.
        seconds: i64,
    },
}

/// A decimal digit.
pub open spec fn is_digit(b: u8) -> bool {
    48 <= b <= 57
}

/// A space between the numbers: space, tab, line feed, form feed or carriage
/// return.
pub open spec fn is_space(b: u8) -> bool {
    b == 32 || b == 9 || b == 10 || b == 12 || b == 13
}

/// What is cut from both ends of a number: the spaces and the vertical tab.
pub open spec fn is_blank(b: u8) -> bool {
    is_space(b) || b == 11
}

/// A byte that is neither digit nor space separates numbers.
pub open spec fn is_separator(b: u8) -> bool {
    !is_digit(b) && !is_space(b)
}

/// The position of the first separator at or after `from`, or the length
/// of the text if there is none.
pub open spec fn next_separator(s: Seq<u8>, from: int) -> int
    decreases s.len() - from,
{
    if from >= s.len() {
        s.len() as int
    } else if is_separator(s[from]) {
        from
    } else {
        next_separator(s, from + 1)
    }
}

/// `next_separator` finds a separator, and skips none on the way to it.
pub proof fn lemma_next_separator(s: Seq<u8>, from: int)
    requires
        0 <= from <= s.len(),
    ensures
        from <= next_separator(s, from) <= s.len(),
        next_separator(s, from) < s.len() ==> is_separator(s[next_separator(s, from)]),
        forall|i: int| from <= i < next_separator(s, from) ==> !is_separator(#[trigger] s[i]),
    decreases s.len() - from,
{
    if from < s.len() && !is_separator(s[from]) {
        lemma_next_separator(s, from + 1);
    }
}

/// The first position from `from` that is `to` or holds no blank.
pub open spec fn skip_blanks(s: Seq<u8>, from: int, to: int) -> int
    decreases to - from,
{
    if from >= to {
        to
    } else if is_blank(s[from]) {
        skip_blanks(s, from + 1, to)
    } else {
        from
    }
}

/// The last position up to `to` that is `from` or follows a byte that is no
/// blank.
pub open spec fn drop_blanks(s: Seq<u8>, from: int, to: int) -> int
    decreases to - from,
{
    if to <= from {
        from
    } else if is_blank(s[to - 1]) {
        drop_blanks(s, from, to - 1)
    } else {
        to
    }
}

/// The number that the digits from `from` up to `to` add to `acc`, read
/// from the left. The first byte that is no digit, or the first digit with
/// which the number no longer fits 64 signed bits, ends the reading.
pub open spec fn digits_value(s: Seq<u8>, from: int, to: int, acc: int) -> Result<
    int,
    IntParseErrorKind,
>
    decreases to - from,
{
    if from >= to {
        Ok(acc)
    } else if !is_digit(s[from]) {
        Err(IntParseErrorKind::InvalidDigit)
    } else if acc * 10 + (s[from] - 48) > i64::MAX {
        Err(IntParseErrorKind::PosOverflow)
    } else {
        digits_value(s, from + 1, to, acc * 10 + (s[from] - 48))
    }
}

/// The number written between `from` and `to`, blanks around it aside.
pub open spec fn number(s: Seq<u8>, from: int, to: int) -> Result<int, IntParseErrorKind> {
    let start = skip_blanks(s, from, to);
    let end = drop_blanks(s, start, to);
    if start >= end {
        Err(IntParseErrorKind::Empty)
    } else {
        digits_value(s, start, end, 0)
    }
}

/// The value of a run of digits: each digit counts ten times the one after
/// it.
pub open spec fn decimal_value(s: Seq<u8>) -> int
    decreases s.len(),
{
    if s.len() == 0 {
        0
    } else {
        decimal_value(s.drop_last()) * 10 + (s.last() - 48)
    }
}

/// Reading digits from the left succeeds exactly on a run of digits whose
/// value fits, and gives that value behind what was read before.
pub proof fn lemma_digits_value(s: Seq<u8>, from: int, to: int, acc: int)
    requires
        0 <= from <= to <= s.len(),
        0 <= acc <= i64::MAX,
    ensures
        digits_value(s, from, to, acc) matches Ok(v) ==> {
            &&& 0 <= v <= i64::MAX
            &&& forall|i: int| from <= i < to ==> is_digit(#[trigger] s[i])
            &&& decimal_value(s.subrange(0, to)) - decimal_value(s.subrange(0, from)) * pow10(
                (to - from) as nat,
            ) == v - acc * pow10((to - from) as nat)
        },
    decreases to - from,
{
    if from < to && is_digit(s[from]) && acc * 10 + (s[from] - 48) <= i64::MAX {
        let next = acc * 10 + (s[from] - 48);
        lemma_digits_value(s, from + 1, to, next);
        if digits_value(s, from, to, acc) is Ok {
            let k = (to - from - 1) as nat;
            assert(s.subrange(0, from + 1).drop_last() =~= s.subrange(0, from));
            let head = decimal_value(s.subrange(0, from));
            let through = decimal_value(s.subrange(0, from + 1));
            assert(through == head * 10 + (s[from] - 48));
            assert(pow10((to - from) as nat) == 10 * pow10(k));
            assert(through * pow10(k) - next * pow10(k) == head * (10 * pow10(k)) - acc * (10
                * pow10(k))) by (nonlinear_arith)
                requires
                    through == head * 10 + (s[from] - 48),
                    next == acc * 10 + (s[from] - 48),
            ;
        }
    } else if from >= to {
        assert(pow10(0) == 1);
    }
}

/// Returns the position of the first separator at or after `from`.
fn find_separator(s: &[u8], from: usize) -> (pos: usize)
    requires
        from <= s.len(),
    ensures
        pos == next_separator(s@, from as int),
        from <= pos <= s.len(),
{
    let mut i: usize = from;
    while i < s.len()
        invariant
            from <= i <= s.len(),
            next_separator(s@, from as int) == next_separator(s@, i as int),
        decreases s.len() - i,
    {
        let b: u8 = s[i];
        let digit = 48 <= b && b <= 57;
        let space = b == 32 || b == 9 || b == 10 || b == 12 || b == 13;
        if !digit && !space {
            return i;
        }
        i = i + 1;
    }
    i
}

/// Whether `b` is cut from the ends of a number.
fn blank(b: u8) -> (r: bool)
    ensures
        r == is_blank(b),
{
    b == 32 || b == 9 || b == 10 || b == 11 || b == 12 || b == 13
}

/// Returns the end of the text between `from` and `to` once the blanks at
/// its end are cut.
fn trim_end(s: &[u8], from: usize, to: usize) -> (end: usize)
    requires
        from <= to <= s.len(),
    ensures
        end == drop_blanks(s@, from as int, to as int),
        from <= end <= to,
{
    let mut end: usize = to;
    while end > from
        invariant
            from <= end <= to <= s.len(),
            drop_blanks(s@, from as int, to as int) == drop_blanks(s@, from as int, end as int),
        decreases end,
    {
        if !blank(s[end - 1]) {
            return end;
        }
        end = end - 1;
    }
    end
}

/// Returns the start of the text between `from` and `to` once the blanks at
/// its start are cut.
fn trim_start(s: &[u8], from: usize, to: usize) -> (start: usize)
    requires
        from <= to <= s.len(),
    ensures
        start == skip_blanks(s@, from as int, to as int),
        from <= start <= to,
{
    let mut start: usize = from;
    while start < to
        invariant
            from <= start <= to <= s.len(),
            skip_blanks(s@, from as int, to as int) == skip_blanks(s@, start as int, to as int),
        decreases to - start,
    {
        if !blank(s[start]) {
            return start;
        }
        start = start + 1;
    }
    start
}

/// Reads the number written between `from` and `to`.
fn parse_number(s: &[u8], from: usize, to: usize) -> (r: Result<i64, IntParseErrorKind>)
    requires
        from <= to <= s.len(),
    ensures
        match number(s@, from as int, to as int) {
            Ok(v) => r == Ok::<i64, IntParseErrorKind>(v as i64) && 0 <= v <= i64::MAX,
            Err(kind) => r == Err::<i64, IntParseErrorKind>(kind),
        },
{
    let start = trim_start(s, from, to);
    let end = trim_end(s, start, to);
    if start >= end {
        return Err(IntParseErrorKind::Empty);
    }
    let mut acc: i64 = 0;
    let mut i: usize = start;
    while i < end
        invariant
            start <= i <= end <= s.len(),
            0 <= acc,
            number(s@, from as int, to as int) == digits_value(s@, start as int, end as int, 0),
            digits_value(s@, start as int, end as int, 0) == digits_value(
                s@,
                i as int,
                end as int,
                acc as int,
            ),
        decreases end - i,
    {
        let b: u8 = s[i];
        if b < 48 || b > 57 {
            return Err(IntParseErrorKind::InvalidDigit);
        }
        let digit: i64 = (b - 48) as i64;
        if acc > (i64::MAX - digit) / 10 {
            return Err(IntParseErrorKind::PosOverflow);
        }
        acc = acc * 10 + digit;
        i = i + 1;
    }
    Ok(acc)
}

/// A stretch of the text, from `start` up to `end`.
#[derive(Clone, Copy, Debug)]
pub struct FieldRange {
    /// Position of its first byte.
    pub start: usize,
    /// Position behind its last byte.
    pub end: usize,
}

/// Where the numbers of a span stand in its text.
#[derive(Clone, Copy, Debug)]
pub struct Ranges {
    /// The days, if the text has any.
    pub days: Option<FieldRange>,
    /// The hours, if the text has any.
    pub hours: Option<FieldRange>,
    /// The minutes, if the text has any.
    pub minutes: Option<FieldRange>,
    /// The seconds, if the text has any.
    pub seconds: Option<FieldRange>,
    /// The digits behind the decimal point, if the text has one.
    pub fract: Option<FieldRange>,
    /// The number of bytes behind the decimal point, at most 20: the
    /// digits there count in units of ten to the power of minus `denom`
    /// seconds.
    pub denom: u32,
}

/// What the separators of a text make of it.
#[derive(Clone, Copy, Debug)]
pub enum Shape {
    /// Numbers for days, hours, minutes, seconds and fraction.
    Fields(Ranges),
    /// One whole number of a unit.
    Scaled {
        /// Where the number stands.
        digits: FieldRange,
        /// The nanoseconds in one unit.
        unit: i64,
    },
}

/// The complaint about the separator at `pos`.
pub open spec fn unexpected(s: Seq<u8>, pos: int) -> TimeSpanParseErr {
    TimeSpanParseErr::UnexpectedDelimiter { delim: s[pos] as char, pos: pos as usize }
}

/// The stretch from `start` up to `end`.
pub open spec fn stretch(start: int, end: int) -> Option<FieldRange> {
    Some(FieldRange { start: start as usize, end: end as usize })
}

/// The layout of a text with a decimal point at `point`, behind seconds
/// that start at `seconds`. No separator may follow the point. Where days or
/// hours are given, at most 20 bytes behind the point are read.
pub open spec fn layout_fraction(
    s: Seq<u8>,
    days: Option<FieldRange>,
    hours: Option<FieldRange>,
    minutes: Option<FieldRange>,
    seconds: int,
    point: int,
) -> Result<Shape, TimeSpanParseErr> {
    let after = next_separator(s, point + 1);
    let behind = s.len() - point - 1;
    let end = if hours is Some && behind > 20 {
        point + 21
    } else {
        s.len() as int
    };
    if after < s.len() {
        Err(unexpected(s, after))
    } else {
        Ok(
            Shape::Fields(
                Ranges {
                    days,
                    hours,
                    minutes,
                    seconds: stretch(seconds, point),
                    fract: stretch(point + 1, end),
                    denom: if behind > 20 {
                        20
                    } else {
                        behind as u32
                    },
                },
            ),
        )
    }
}

/// The layout of a text whose first separator, at `first`, ends its days:
/// hours and minutes must follow, seconds and a fraction may.
pub open spec fn layout_days(s: Seq<u8>, first: int) -> Result<Shape, TimeSpanParseErr> {
    let second = next_separator(s, first + 1);
    let third = next_separator(s, second + 1);
    let fourth = next_separator(s, third + 1);
    let days = stretch(0, first);
    let hours = stretch(first + 1, second);
    if second >= s.len() {
        Err(TimeSpanParseErr::UnexpectedEndOfString)
    } else if s[second] != 58 {
        Err(unexpected(s, second))
    } else if third >= s.len() {
        Ok(
            Shape::Fields(
                Ranges {
                    days,
                    hours,
                    minutes: stretch(second + 1, s.len() as int),
                    seconds: None,
                    fract: None,
                    denom: 0,
                },
            ),
        )
    } else if s[third] != 58 {
        Err(unexpected(s, third))
    } else if fourth >= s.len() {
        Ok(
            Shape::Fields(
                Ranges {
                    days,
                    hours,
                    minutes: stretch(second + 1, third),
                    seconds: stretch(third + 1, s.len() as int),
                    fract: None,
                    denom: 0,
                },
            ),
        )
    } else if s[fourth] == 46 {
        layout_fraction(s, days, hours, stretch(second + 1, third), third + 1, fourth)
    } else {
        Err(unexpected(s, fourth))
    }
}

/// The layout of a text whose first separator, at `first`, is a colon:
/// minutes and seconds, or hours, minutes and seconds, with or without a
/// fraction.
pub open spec fn layout_colon(s: Seq<u8>, first: int) -> Result<Shape, TimeSpanParseErr> {
    let second = next_separator(s, first + 1);
    let third = next_separator(s, second + 1);
    if second >= s.len() {
        Ok(
            Shape::Fields(
                Ranges {
                    days: None,
                    hours: None,
                    minutes: stretch(0, first),
                    seconds: stretch(first + 1, s.len() as int),
                    fract: None,
                    denom: 0,
                },
            ),
        )
    } else if s[second] == 58 {
        if third >= s.len() {
            Ok(
                Shape::Fields(
                    Ranges {
                        days: None,
                        hours: stretch(0, first),
                        minutes: stretch(first + 1, second),
                        seconds: stretch(second + 1, s.len() as int),
                        fract: None,
                        denom: 0,
                    },
                ),
            )
        } else if s[third] == 46 {
            layout_fraction(
                s,
                None,
                stretch(0, first),
                stretch(first + 1, second),
                second + 1,
                third,
            )
        } else {
            Err(unexpected(s, third))
        }
    } else if s[second] == 46 {
        layout_fraction(s, None, None, stretch(0, first), first + 1, second)
    } else {
        Err(unexpected(s, second))
    }
}

/// The layout of a text whose first separator, at `first`, starts a unit of
/// `letters` letters, the second of them an `s`: nothing but blanks may
/// follow the unit.
pub open spec fn layout_suffix(s: Seq<u8>, first: int, letters: int, unit: i64) -> Result<
    Shape,
    TimeSpanParseErr,
> {
    if drop_blanks(s, first, s.len() as int) == first + letters && (letters == 2 ==> s[first + 1]
        == 115) {
        Ok(Shape::Scaled { digits: FieldRange { start: 0, end: first as usize }, unit })
    } else {
        Err(TimeSpanParseErr::UnexpectedSuffix)
    }
}

/// The layout that the separators of a text give it.
pub open spec fn layout(s: Seq<u8>) -> Result<Shape, TimeSpanParseErr> {
    let first = next_separator(s, 0);
    if first >= s.len() {
        Ok(
            Shape::Scaled {
                digits: FieldRange { start: 0, end: s.len() as usize },
                unit: NANOS_PER_SECOND,
            },
        )
    } else if s[first] == 100 || s[first] == 68 || s[first] == 116 || s[first] == 84 {
        layout_days(s, first)
    } else if s[first] == 58 {
        layout_colon(s, first)
    } else if s[first] == 46 {
        layout_fraction(s, None, None, None, 0, first)
    } else if s[first] == 115 {
        layout_suffix(s, first, 1, NANOS_PER_SECOND)
    } else if s[first] == 109 {
        layout_suffix(s, first, 2, NANOS_PER_MILLISECOND)
    } else if s[first] == 117 {
        layout_suffix(s, first, 2, NANOS_PER_MICROSECOND)
    } else {
        Err(unexpected(s, first))
    }
}

/// The number in a stretch of the text; zero where the text has none.
pub open spec fn field_value(s: Seq<u8>, field: Option<FieldRange>) -> Result<
    int,
    IntParseErrorKind,
> {
    match field {
        None => Ok(0),
        Some(r) => number(s, r.start as int, r.end as int),
    }
}

/// The microseconds of a fraction of `denom` decimal places. Places beyond
/// the sixth are cut off.
pub open spec fn fraction_micros(fract: int, denom: u32) -> int {
    if denom < 6 {
        fract * pow10((6 - denom) as nat)
    } else if denom == 6 {
        fract
    } else {
        fract / pow10((denom - 6) as nat)
    }
}

/// A span of `nanos` nanoseconds, if one exists.
pub open spec fn span_of(nanos: int) -> Result<int, TimeSpanParseErr> {
    if nanos > i64::MAX {
        Err(TimeSpanParseErr::IntParseError { kind: IntParseErrorKind::PosOverflow })
    } else {
        Ok(nanos)
    }
}

/// The span that the numbers of a text add up to, once its seconds,
/// minutes and hours are read: days and fraction are read last.
pub open spec fn value_from_days(
    s: Seq<u8>,
    r: Ranges,
    seconds: int,
    minutes: int,
    hours: int,
) -> Result<int, TimeSpanParseErr> {
    match field_value(s, r.days) {
        Err(kind) => Err(TimeSpanParseErr::IntParseError { kind }),
        Ok(days) => match field_value(s, r.fract) {
            Err(kind) => Err(TimeSpanParseErr::IntParseError { kind }),
            Ok(fract) => span_of(
                days * NANOS_PER_DAY + hours * NANOS_PER_HOUR + minutes * NANOS_PER_MINUTE
                    + seconds * NANOS_PER_SECOND + fraction_micros(fract, r.denom)
                    * NANOS_PER_MICROSECOND,
            ),
        },
    }
}

/// The span of a text once its seconds and minutes are read: hours behind
/// days must be below 24.
pub open spec fn value_from_hours(s: Seq<u8>, r: Ranges, seconds: int, minutes: int) -> Result<
    int,
    TimeSpanParseErr,
> {
    match field_value(s, r.hours) {
        Err(kind) => Err(TimeSpanParseErr::IntParseError { kind }),
        Ok(hours) => if r.days is Some && hours > 23 {
            Err(TimeSpanParseErr::HoursOutOfBound { hours: hours as i64 })
        } else {
            value_from_days(s, r, seconds, minutes, hours)
        },
    }
}

/// The span of a text once its seconds are read: minutes behind hours must
/// be below 60.
pub open spec fn value_from_minutes(s: Seq<u8>, r: Ranges, seconds: int) -> Result<
    int,
    TimeSpanParseErr,
> {
    match field_value(s, r.minutes) {
        Err(kind) => Err(TimeSpanParseErr::IntParseError { kind }),
        Ok(minutes) => if r.hours is Some && minutes > 59 {
            Err(TimeSpanParseErr::MinutesOutOfBound { minutes: minutes as i64 })
        } else {
            value_from_hours(s, r, seconds, minutes)
        },
    }
}

/// The span of a text laid out in fields. The numbers are read from the
/// seconds back to the days, then the fraction, and the first that fails
/// decides the error; seconds behind minutes must be below 60.
pub open spec fn ranges_value(s: Seq<u8>, r: Ranges) -> Result<int, TimeSpanParseErr> {
    match field_value(s, r.seconds) {
        Err(kind) => Err(TimeSpanParseErr::IntParseError { kind }),
        Ok(seconds) => if r.minutes is Some && seconds > 59 {
            Err(TimeSpanParseErr::SecondsOutOfBound { seconds: seconds as i64 })
        } else {
            value_from_minutes(s, r, seconds)
        },
    }
}

/// The span of a text of the given shape.
pub open spec fn shape_value(s: Seq<u8>, shape: Shape) -> Result<int, TimeSpanParseErr> {
    match shape {
        Shape::Fields(r) => ranges_value(s, r),
        Shape::Scaled { digits, unit } => match number(s, digits.start as int, digits.end as int) {
            Err(kind) => Err(TimeSpanParseErr::IntParseError { kind }),
            Ok(count) => span_of(count * unit),
        },
    }
}

/// The span that a text stands for, in nanoseconds, or the reason why it
/// stands for none.
pub open spec fn text_value(s: Seq<u8>) -> Result<int, TimeSpanParseErr> {
    if exists|i: int| 0 <= i < s.len() && s[i] >= 128 {
        Err(TimeSpanParseErr::NonASCII)
    } else if s.len() > MAX_TIME_SPAN_STRING {
        Err(TimeSpanParseErr::StringTooLarge { len: s.len() as usize })
    } else {
        match layout(s) {
            Err(e) => Err(e),
            Ok(shape) => shape_value(s, shape),
        }
    }
}

impl FieldRange {
    /// The stretch lies within a text of `len` bytes.
    pub open spec fn within(self, len: nat) -> bool {
        self.start <= self.end <= len
    }
}

/// The stretch, if there is one, lies within a text of `len` bytes.
pub open spec fn field_within(field: Option<FieldRange>, len: nat) -> bool {
    field matches Some(r) ==> r.within(len)
}

impl Ranges {
    /// All stretches lie within a text of `len` bytes, and the fraction has
    /// at most 20 places.
    pub open spec fn within(self, len: nat) -> bool {
        &&& field_within(self.days, len)
        &&& field_within(self.hours, len)
        &&& field_within(self.minutes, len)
        &&& field_within(self.seconds, len)
        &&& field_within(self.fract, len)
        &&& self.denom <= 20
    }

    /// Reads the numbers and adds them up.
    fn parse(self, s: &[u8]) -> (r: Result<TimeSpan, TimeSpanParseErr>)
        requires
            self.within(s@.len()),
        ensures
            parsed_as(r, ranges_value(s@, self)),
            r matches Ok(span) ==> span@ >= 0,
    {
        let seconds: i64 = match parse_field(s, self.seconds) {
            Ok(seconds) => seconds,
            Err(kind) => {
                return Err(TimeSpanParseErr::IntParseError { kind });
            },
        };
        if self.minutes.is_some() && seconds > 59 {
            return Err(TimeSpanParseErr::SecondsOutOfBound { seconds });
        }
        let minutes: i64 = match parse_field(s, self.minutes) {
            Ok(minutes) => minutes,
            Err(kind) => {
                return Err(TimeSpanParseErr::IntParseError { kind });
            },
        };
        if self.hours.is_some() && minutes > 59 {
            return Err(TimeSpanParseErr::MinutesOutOfBound { minutes });
        }
        let hours: i64 = match parse_field(s, self.hours) {
            Ok(hours) => hours,
            Err(kind) => {
                return Err(TimeSpanParseErr::IntParseError { kind });
            },
        };
        if self.days.is_some() && hours > 23 {
            return Err(TimeSpanParseErr::HoursOutOfBound { hours });
        }
        let days: i64 = match parse_field(s, self.days) {
            Ok(days) => days,
            Err(kind) => {
                return Err(TimeSpanParseErr::IntParseError { kind });
            },
        };
        let fract: i64 = match parse_field(s, self.fract) {
            Ok(fract) => fract,
            Err(kind) => {
                return Err(TimeSpanParseErr::IntParseError { kind });
            },
        };
        let micros: i128 = if self.denom < 6 {
            let scale: i64 = power_of_ten(6 - self.denom);
            assert(0 <= fract * scale <= 0x7fff_ffff_ffff_ffff * 100_000_000_000_000)
                by (nonlinear_arith)
                requires
                    0 <= fract <= 0x7fff_ffff_ffff_ffff,
                    0 < scale <= 100_000_000_000_000,
            ;
            fract as i128 * scale as i128
        } else if self.denom == 6 {
            fract as i128
        } else {
            let scale: i64 = power_of_ten(self.denom - 6);
            assert(0 <= fract / scale <= fract) by (nonlinear_arith)
                requires
                    0 <= fract,
                    0 < scale,
            ;
            (fract / scale) as i128
        };
        let nanos: i128 = days as i128 * NANOS_PER_DAY as i128 + hours as i128
            * NANOS_PER_HOUR as i128 + minutes as i128 * NANOS_PER_MINUTE as i128 + seconds as i128
            * NANOS_PER_SECOND as i128 + micros * NANOS_PER_MICROSECOND as i128;
        span_from(nanos)
    }
}

impl Shape {
    /// All stretches lie within a text of `len` bytes.
    pub open spec fn within(self, len: nat) -> bool {
        match self {
            Shape::Fields(r) => r.within(len),
            Shape::Scaled { digits, unit } => digits.within(len) && 0 < unit <= NANOS_PER_SECOND,
        }
    }
}

/// Whether `r` is the outcome that the specification `value` names: the span
/// of that many nanoseconds, or that error.
pub open spec fn parsed_as(
    r: Result<TimeSpan, TimeSpanParseErr>,
    value: Result<int, TimeSpanParseErr>,
) -> bool {
    match value {
        Ok(nanos) => r matches Ok(span) && span@ == nanos,
        Err(e) => r == Err::<TimeSpan, TimeSpanParseErr>(e),
    }
}

/// Returns the span of `nanos` nanoseconds, if there is one.
fn span_from(nanos: i128) -> (r: Result<TimeSpan, TimeSpanParseErr>)
    requires
        nanos >= 0,
    ensures
        parsed_as(r, span_of(nanos as int)),
        r matches Ok(span) ==> span@ >= 0,
{
    if nanos > i64::MAX as i128 {
        Err(TimeSpanParseErr::IntParseError { kind: IntParseErrorKind::PosOverflow })
    } else {
        Ok(TimeSpan::new(nanos as i64))
    }
}

/// Ten to the power of `n`.
fn power_of_ten(n: u32) -> (p: i64)
    requires
        n <= 14,
    ensures
        p == pow10(n as nat),
        0 < p <= 100_000_000_000_000,
{
    proof {
        reveal_with_fuel(pow10, 16);
    }
    if n == 0 {
        1
    } else if n == 1 {
        10
    } else if n == 2 {
        100
    } else if n == 3 {
        1_000
    } else if n == 4 {
        10_000
    } else if n == 5 {
        100_000
    } else if n == 6 {
        1_000_000
    } else if n == 7 {
        10_000_000
    } else if n == 8 {
        100_000_000
    } else if n == 9 {
        1_000_000_000
    } else if n == 10 {
        10_000_000_000
    } else if n == 11 {
        100_000_000_000
    } else if n == 12 {
        1_000_000_000_000
    } else if n == 13 {
        10_000_000_000_000
    } else {
        100_000_000_000_000
    }
}

/// Reads the number in a stretch of the text; zero where there is none.
fn parse_field(s: &[u8], field: Option<FieldRange>) -> (r: Result<i64, IntParseErrorKind>)
    requires
        field_within(field, s@.len()),
    ensures
        match field_value(s@, field) {
            Ok(v) => r == Ok::<i64, IntParseErrorKind>(v as i64) && 0 <= v <= i64::MAX,
            Err(kind) => r == Err::<i64, IntParseErrorKind>(kind),
        },
{
    match field {
        None => Ok(0),
        Some(range) => parse_number(s, range.start, range.end),
    }
}

/// The complaint about the separator at `pos`.
fn unexpected_at(s: &[u8], pos: usize) -> (e: TimeSpanParseErr)
    requires
        pos < s.len(),
    ensures
        e == unexpected(s@, pos as int),
{
    TimeSpanParseErr::UnexpectedDelimiter { delim: s[pos] as char, pos }
}

/// Lays out a text with a decimal point at `point`.
fn fraction_shape(
    s: &[u8],
    days: Option<FieldRange>,
    hours: Option<FieldRange>,
    minutes: Option<FieldRange>,
    seconds: usize,
    point: usize,
) -> (r: Result<Shape, TimeSpanParseErr>)
    requires
        s.len() <= MAX_TIME_SPAN_STRING,
        seconds <= point < s.len(),
        field_within(days, s@.len()),
        field_within(hours, s@.len()),
        field_within(minutes, s@.len()),
    ensures
        r == layout_fraction(s@, days, hours, minutes, seconds as int, point as int),
        r matches Ok(shape) ==> shape.within(s@.len()),
{
    let after = find_separator(s, point + 1);
    if after < s.len() {
        return Err(unexpected_at(s, after));
    }
    let behind: usize = s.len() - point - 1;
    let end: usize = if hours.is_some() && behind > 20 {
        point + 21
    } else {
        s.len()
    };
    let denom: u32 = if behind > 20 {
        20
    } else {
        behind as u32
    };
    Ok(
        Shape::Fields(
            Ranges {
                days,
                hours,
                minutes,
                seconds: Some(FieldRange { start: seconds, end: point }),
                fract: Some(FieldRange { start: point + 1, end }),
                denom,
            },
        ),
    )
}

/// Lays out a text whose first separator ends its days.
fn days_shape(s: &[u8], first: usize) -> (r: Result<Shape, TimeSpanParseErr>)
    requires
        s.len() <= MAX_TIME_SPAN_STRING,
        first < s.len(),
    ensures
        r == layout_days(s@, first as int),
        r matches Ok(shape) ==> shape.within(s@.len()),
{
    let days = Some(FieldRange { start: 0, end: first });
    let second = find_separator(s, first + 1);
    if second >= s.len() {
        return Err(TimeSpanParseErr::UnexpectedEndOfString);
    }
    if s[second] != 58 {
        return Err(unexpected_at(s, second));
    }
    let hours = Some(FieldRange { start: first + 1, end: second });
    let third = find_separator(s, second + 1);
    if third >= s.len() {
        return Ok(
            Shape::Fields(
                Ranges {
                    days,
                    hours,
                    minutes: Some(FieldRange { start: second + 1, end: s.len() }),
                    seconds: None,
                    fract: None,
                    denom: 0,
                },
            ),
        );
    }
    if s[third] != 58 {
        return Err(unexpected_at(s, third));
    }
    let minutes = Some(FieldRange { start: second + 1, end: third });
    let fourth = find_separator(s, third + 1);
    if fourth >= s.len() {
        return Ok(
            Shape::Fields(
                Ranges {
                    days,
                    hours,
                    minutes,
                    seconds: Some(FieldRange { start: third + 1, end: s.len() }),
                    fract: None,
                    denom: 0,
                },
            ),
        );
    }
    if s[fourth] == 46 {
        fraction_shape(s, days, hours, minutes, third + 1, fourth)
    } else {
        Err(unexpected_at(s, fourth))
    }
}

/// Lays out a text whose first separator is a colon.
fn colon_shape(s: &[u8], first: usize) -> (r: Result<Shape, TimeSpanParseErr>)
    requires
        s.len() <= MAX_TIME_SPAN_STRING,
        first < s.len(),
    ensures
        r == layout_colon(s@, first as int),
        r matches Ok(shape) ==> shape.within(s@.len()),
{
    let head = Some(FieldRange { start: 0, end: first });
    let second = find_separator(s, first + 1);
    if second >= s.len() {
        return Ok(
            Shape::Fields(
                Ranges {
                    days: None,
                    hours: None,
                    minutes: head,
                    seconds: Some(FieldRange { start: first + 1, end: s.len() }),
                    fract: None,
                    denom: 0,
                },
            ),
        );
    }
    if s[second] == 58 {
        let minutes = Some(FieldRange { start: first + 1, end: second });
        let third = find_separator(s, second + 1);
        if third >= s.len() {
            Ok(
                Shape::Fields(
                    Ranges {
                        days: None,
                        hours: head,
                        minutes,
                        seconds: Some(FieldRange { start: second + 1, end: s.len() }),
                        fract: None,
                        denom: 0,
                    },
                ),
            )
        } else if s[third] == 46 {
            fraction_shape(s, None, head, minutes, second + 1, third)
        } else {
            Err(unexpected_at(s, third))
        }
    } else if s[second] == 46 {
        fraction_shape(s, None, None, head, first + 1, second)
    } else {
        Err(unexpected_at(s, second))
    }
}

/// Lays out a text whose first separator starts a unit.
fn suffix_shape(s: &[u8], first: usize, letters: usize, unit: i64) -> (r: Result<
    Shape,
    TimeSpanParseErr,
>)
    requires
        s.len() <= MAX_TIME_SPAN_STRING,
        first < s.len(),
        letters == 1 || letters == 2,
        0 < unit <= NANOS_PER_SECOND,
    ensures
        r == layout_suffix(s@, first as int, letters as int, unit),
        r matches Ok(shape) ==> shape.within(s@.len()),
{
    let end = trim_end(s, first, s.len());
    if end == first + letters && (letters == 1 || s[first + 1] == 115) {
        Ok(Shape::Scaled { digits: FieldRange { start: 0, end: first }, unit })
    } else {
        Err(TimeSpanParseErr::UnexpectedSuffix)
    }
}

/// Lays out a text by its separators.
fn shape_of(s: &[u8]) -> (r: Result<Shape, TimeSpanParseErr>)
    requires
        s.len() <= MAX_TIME_SPAN_STRING,
    ensures
        r == layout(s@),
        r matches Ok(shape) ==> shape.within(s@.len()),
{
    let first = find_separator(s, 0);
    if first >= s.len() {
        return Ok(
            Shape::Scaled { digits: FieldRange { start: 0, end: s.len() }, unit: NANOS_PER_SECOND },
        );
    }
    let b: u8 = s[first];
    if b == 100 || b == 68 || b == 116 || b == 84 {
        days_shape(s, first)
    } else if b == 58 {
        colon_shape(s, first)
    } else if b == 46 {
        fraction_shape(s, None, None, None, 0, first)
    } else if b == 115 {
        suffix_shape(s, first, 1, NANOS_PER_SECOND)
    } else if b == 109 {
        suffix_shape(s, first, 2, NANOS_PER_MILLISECOND)
    } else if b == 117 {
        suffix_shape(s, first, 2, NANOS_PER_MICROSECOND)
    } else {
        Err(unexpected_at(s, first))
    }
}

/// Whether every byte of the text is ASCII.
fn all_ascii(s: &[u8]) -> (r: bool)
    ensures
        r == !(exists|i: int| 0 <= i < s@.len() && s@[i] >= 128),
{
    let mut i: usize = 0;
    while i < s.len()
        invariant
            i <= s.len(),
            forall|j: int| 0 <= j < i ==> s@[j] < 128,
        decreases s.len() - i,
    {
        if s[i] >= 128 {
            return false;
        }
        i = i + 1;
    }
    true
}

/// Reads a time span from the bytes of a text.
///
/// Returns the span that `text_value` gives for the text, or the error
/// that it gives. No span is negative: the sign is a separator that no
/// layout allows.
pub fn parse_bytes(text: &[u8]) -> (r: Result<TimeSpan, TimeSpanParseErr>)
    ensures
        parsed_as(r, text_value(text@)),
        r matches Ok(span) ==> span@ >= 0,
{
    if !all_ascii(text) {
        return Err(TimeSpanParseErr::NonASCII);
    }
    if text.len() > MAX_TIME_SPAN_STRING {
        return Err(TimeSpanParseErr::StringTooLarge { len: text.len() });
    }
    match shape_of(text) {
        Err(e) => Err(e),
        Ok(Shape::Fields(ranges)) => ranges.parse(text),
        Ok(Shape::Scaled { digits, unit }) => {
            match parse_number(text, digits.start, digits.end) {
                Err(kind) => Err(TimeSpanParseErr::IntParseError { kind }),
                Ok(count) => {
                    assert(0 <= count * unit <= 0x7fff_ffff_ffff_ffff * 1_000_000_000)
                        by (nonlinear_arith)
                        requires
                            0 <= count <= 0x7fff_ffff_ffff_ffff,
                            0 < unit <= 1_000_000_000,
                    ;
                    span_from(count as i128 * unit as i128)
                },
            }
        },
    }
}

impl TimeSpan {
    /// Reads a time span from text such as `1d00:00`, `1:02:11`,
    /// `2:11.011`, `15s`, `15ms` or `15us`.
    ///
    /// Returns the span that `text_value` gives for the bytes of the text,
    /// or the error that it gives.
    pub fn parse(text: &str) -> (r: Result<TimeSpan, TimeSpanParseErr>)
        ensures
            parsed_as(r, text_value(text.spec_bytes())),
            r matches Ok(span) ==> span@ >= 0,
    {
        parse_bytes(text.as_bytes())
    }
}

impl core::str::FromStr for TimeSpan {
    type Err = TimeSpanParseErr;

    fn from_str(s: &str) -> (r: Result<TimeSpan, TimeSpanParseErr>)
        ensures
            parsed_as(r, text_value(s.spec_bytes())),
    {
        TimeSpan::parse(s)
    }
}

} // verus!
