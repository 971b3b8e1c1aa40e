//! Human-readable text for time spans.
//!
//! A span is written with the coarsest units it needs: `1d00:00`,
//! `1:02:11`, `2:11.011`, `2.345s`, `15ms`, `1.500us`, `7ns`.

use crate::math::{abs_int, lemma_div_mod_split, pow10};
use crate::span::{
    TimeSpan, NANOS_PER_DAY, NANOS_PER_HOUR, NANOS_PER_MICROSECOND, NANOS_PER_MILLISECOND,
    NANOS_PER_MINUTE, NANOS_PER_SECOND,
};
use vstd::arithmetic::div_mod::lemma_mod_mod;
use vstd::prelude::*;
use vstd::string::{StringExecFns, StringSliceAdditionalSpecFns};
use vstd::utf8::{is_ascii_chars, is_ascii_chars_encode_utf8};

verus! {

/// The character for a decimal digit.
pub open spec fn digit_char(d: int) -> char {
    if d == 0 {
        '0'
    } else if d == 1 {
        '1'
    } else if d == 2 {
        '2'
    } else if d == 3 {
        '3'
    } else if d == 4 {
        '4'
    } else if d == 5 {
        '5'
    } else if d == 6 {
        '6'
    } else if d == 7 {
        '7'
    } else if d == 8 {
        '8'
    } else {
        '9'
    }
}

/// The decimal digits of `n`, without leading zeros.
pub open spec fn decimal(n: nat) -> Seq<char>
    decreases n,
{
    if n < 10 {
        seq![digit_char(n as int)]
    } else {
        decimal(n / 10).push(digit_char((n % 10) as int))
    }
}

/// The last `width` decimal digits of `n`, with leading zeros where `n` has
/// fewer digits.
pub open spec fn fixed_width(n: nat, width: nat) -> Seq<char>
    decreases width,
{
    if width == 0 {
        Seq::empty()
    } else {
        fixed_width(n / 10, (width - 1) as nat).push(digit_char((n % 10) as int))
    }
}

/// A span's length cut into the units that its text shows.
pub ghost struct Parts {
    /// Whole days.
    pub days: nat,
    /// Whole hours beyond the days, below 24.
    pub hours: nat,
    /// Whole minutes beyond the hours, below 60.
    pub minutes: nat,
    /// Whole seconds beyond the minutes, below 60.
    pub seconds: nat,
    /// Whole milliseconds beyond the seconds, below 1000.
    pub millis: nat,
    /// Whole microseconds beyond the milliseconds, below 1000.
    pub micros: nat,
    /// Nanoseconds beyond the microseconds, below 1000.
    pub nanos: nat,
}

/// Cuts a length of `length` nanoseconds into its units.
pub open spec fn parts_of(length: nat) -> Parts {
    Parts {
        days: length / (NANOS_PER_DAY as nat),
        hours: length % (NANOS_PER_DAY as nat) / (NANOS_PER_HOUR as nat),
        minutes: length % (NANOS_PER_HOUR as nat) / (NANOS_PER_MINUTE as nat),
        seconds: length % (NANOS_PER_MINUTE as nat) / (NANOS_PER_SECOND as nat),
        millis: length % (NANOS_PER_SECOND as nat) / (NANOS_PER_MILLISECOND as nat),
        micros: length % (NANOS_PER_MILLISECOND as nat) / (NANOS_PER_MICROSECOND as nat),
        nanos: length % (NANOS_PER_MICROSECOND as nat),
    }
}

/// The units of a length add up to it, and each stays below the next larger
/// unit.
pub proof fn lemma_parts_add_up(length: nat)
    ensures
        ({
            let p = parts_of(length);
            &&& length == p.days * NANOS_PER_DAY + p.hours * NANOS_PER_HOUR + p.minutes
                * NANOS_PER_MINUTE + p.seconds * NANOS_PER_SECOND + p.millis
                * NANOS_PER_MILLISECOND + p.micros * NANOS_PER_MICROSECOND + p.nanos
            &&& p.hours < 24
            &&& p.minutes < 60
            &&& p.seconds < 60
            &&& p.millis < 1000
            &&& p.micros < 1000
            &&& p.nanos < 1000
        }),
{
    let x = length as int;
    lemma_div_mod_split(x, 86_400_000_000_000);
    lemma_div_mod_split(x % 86_400_000_000_000, 3_600_000_000_000);
    lemma_mod_mod(x, 3_600_000_000_000, 24);
    lemma_div_mod_split(x % 3_600_000_000_000, 60_000_000_000);
    lemma_mod_mod(x, 60_000_000_000, 60);
    lemma_div_mod_split(x % 60_000_000_000, 1_000_000_000);
    lemma_mod_mod(x, 1_000_000_000, 60);
    lemma_div_mod_split(x % 1_000_000_000, 1_000_000);
    lemma_mod_mod(x, 1_000_000, 1_000);
    lemma_div_mod_split(x % 1_000_000, 1_000);
    lemma_mod_mod(x, 1_000, 1_000);
}

/// The digits after the decimal point: milliseconds, microseconds and
/// nanoseconds as far as there is anything but zeros to show, three digits
/// each. Empty if all are zero.
pub open spec fn fraction_text(millis: nat, micros: nat, nanos: nat) -> Seq<char> {
    if nanos > 0 {
        seq!['.'] + fixed_width(millis, 3) + fixed_width(micros, 3) + fixed_width(nanos, 3)
    } else if micros > 0 {
        seq!['.'] + fixed_width(millis, 3) + fixed_width(micros, 3)
    } else if millis > 0 {
        seq!['.'] + fixed_width(millis, 3)
    } else {
        Seq::empty()
    }
}

/// The days of a length of at least one minute, if it has any.
pub open spec fn clock_days(p: Parts) -> Seq<char> {
    if p.days > 0 {
        decimal(p.days) + seq!['d']
    } else {
        Seq::empty()
    }
}

/// The hours of a length of at least one minute: two digits after days,
/// else as many as they have, and none if there is nothing to show.
pub open spec fn clock_hours(p: Parts) -> Seq<char> {
    if p.days > 0 {
        fixed_width(p.hours, 2) + seq![':']
    } else if p.hours > 0 {
        decimal(p.hours) + seq![':']
    } else {
        Seq::empty()
    }
}

/// The minutes of a length of at least one minute: two digits after days or
/// hours, else as many as they have.
pub open spec fn clock_minutes(p: Parts) -> Seq<char> {
    if p.days > 0 || p.hours > 0 {
        fixed_width(p.minutes, 2)
    } else {
        decimal(p.minutes)
    }
}

/// The seconds of a length of at least one minute, with their fraction.
/// They are left out of a whole number of minutes that shows its days.
pub open spec fn clock_seconds(p: Parts) -> Seq<char> {
    if p.millis > 0 || p.micros > 0 || p.nanos > 0 || p.seconds > 0 || p.days == 0 {
        seq![':'] + fixed_width(p.seconds, 2) + fraction_text(p.millis, p.micros, p.nanos)
    } else {
        Seq::empty()
    }
}

/// The text of a length of at least one minute: days, hours and minutes as
/// far as they are needed, then the seconds.
pub open spec fn clock_text(p: Parts) -> Seq<char> {
    clock_days(p) + clock_hours(p) + clock_minutes(p) + clock_seconds(p)
}

/// The text of a length of `length` nanoseconds, which is not zero.
pub open spec fn length_text(length: nat) -> Seq<char> {
    let p = parts_of(length);
    if p.days > 0 || p.hours > 0 || p.minutes > 0 {
        clock_text(p)
    } else if p.seconds > 0 {
        decimal(p.seconds) + fraction_text(p.millis, p.micros, p.nanos) + seq!['s']
    } else if p.millis > 0 {
        decimal(p.millis) + fraction_text(p.micros, p.nanos, 0) + seq!['m', 's']
    } else if p.micros > 0 {
        decimal(p.micros) + fraction_text(p.nanos, 0, 0) + seq!['u', 's']
    } else {
        decimal(p.nanos) + seq!['n', 's']
    }
}

/// The sign that text shows in front of a negative number.
pub open spec fn sign_text(nanos: int) -> Seq<char> {
    if nanos < 0 {
        seq!['-']
    } else {
        Seq::empty()
    }
}

/// The text of a span of `nanos` nanoseconds: `0` for the empty span, else
/// the sign and the text of its length.
pub open spec fn span_text(nanos: int) -> Seq<char> {
    if nanos == 0 {
        seq!['0']
    } else {
        sign_text(nanos) + length_text(abs_int(nanos) as nat)
    }
}

/// The text of a span of `nanos` nanoseconds with every unit written out:
/// days, then hours, minutes and seconds with two digits each, then nine
/// digits of nanoseconds.
pub open spec fn span_text_full(nanos: int) -> Seq<char> {
    let length = abs_int(nanos) as nat;
    let p = parts_of(length);
    sign_text(nanos) + decimal(p.days) + seq!['d'] + fixed_width(p.hours, 2) + seq![':']
        + fixed_width(p.minutes, 2) + seq![':'] + fixed_width(p.seconds, 2) + seq!['.']
        + fixed_width(length % (NANOS_PER_SECOND as nat), 9)
}

/// The text of a span of `nanos` nanoseconds as a plain count: the number
/// and `ns`.
pub open spec fn span_text_nanos(nanos: int) -> Seq<char> {
    sign_text(nanos) + decimal(abs_int(nanos) as nat) + seq!['n', 's']
}

/// The length in bytes of the longest text of a span, such as
/// `-106751d23:47:16.854775807`.
pub const MAX_DISPLAY_LENGTH: usize = 26;

/// A number below ten to the power of `digits` has at most `digits`
/// decimal digits, all of them ASCII.
pub proof fn lemma_decimal_shape(n: nat, digits: nat)
    requires
        digits >= 1,
        n < pow10(digits),
    ensures
        1 <= decimal(n).len() <= digits,
        is_ascii_chars(decimal(n)),
    decreases digits,
{
    if n >= 10 {
        assert(pow10(1) == 10) by {
            reveal_with_fuel(pow10, 2);
        }
        lemma_decimal_shape(n / 10, (digits - 1) as nat);
    }
}

/// A number written with a fixed width has that many characters, all of
/// them ASCII.
pub proof fn lemma_fixed_width_shape(n: nat, width: nat)
    ensures
        fixed_width(n, width).len() == width,
        is_ascii_chars(fixed_width(n, width)),
    decreases width,
{
    if width > 0 {
        lemma_fixed_width_shape(n / 10, (width - 1) as nat);
    }
}

/// The digits after the decimal point are ASCII and come in threes behind
/// the point.
pub proof fn lemma_fraction_shape(millis: nat, micros: nat, nanos: nat)
    ensures
        fraction_text(millis, micros, nanos).len() <= 10,
        is_ascii_chars(fraction_text(millis, micros, nanos)),
{
    lemma_fixed_width_shape(millis, 3);
    lemma_fixed_width_shape(micros, 3);
    lemma_fixed_width_shape(nanos, 3);
}

/// The text of a length that 64 bits can hold is ASCII of at most 25
/// characters.
pub proof fn lemma_length_text_shape(length: nat)
    requires
        length <= 0x8000_0000_0000_0000,
    ensures
        1 <= length_text(length).len() <= 25,
        is_ascii_chars(length_text(length)),
{
    let p = parts_of(length);
    assert(pow10(6) == 1_000_000 && pow10(3) == 1_000 && pow10(2) == 100) by {
        reveal_with_fuel(pow10, 7);
    }
    lemma_parts_add_up(length);
    assert(p.days < 1_000_000);
    lemma_decimal_shape(p.days, 6);
    lemma_decimal_shape(p.hours, 2);
    lemma_decimal_shape(p.minutes, 2);
    lemma_decimal_shape(p.seconds, 2);
    lemma_decimal_shape(p.millis, 3);
    lemma_decimal_shape(p.micros, 3);
    lemma_decimal_shape(p.nanos, 3);
    lemma_fixed_width_shape(p.hours, 2);
    lemma_fixed_width_shape(p.minutes, 2);
    lemma_fixed_width_shape(p.seconds, 2);
    lemma_fraction_shape(p.millis, p.micros, p.nanos);
    lemma_fraction_shape(p.micros, p.nanos, 0);
    lemma_fraction_shape(p.nanos, 0, 0);
    if p.days > 0 || p.hours > 0 || p.minutes > 0 {
        assert(is_ascii_chars(clock_days(p)));
        assert(is_ascii_chars(clock_hours(p)));
        assert(is_ascii_chars(clock_minutes(p)));
        assert(is_ascii_chars(clock_seconds(p)));
        assert(is_ascii_chars(clock_text(p)));
    }
}

/// The text of a span is ASCII and fits `MAX_DISPLAY_LENGTH` bytes.
pub proof fn lemma_span_text_shape(nanos: int)
    requires
        i64::MIN <= nanos <= i64::MAX,
    ensures
        1 <= span_text(nanos).len() <= MAX_DISPLAY_LENGTH,
        is_ascii_chars(span_text(nanos)),
{
    if nanos != 0 {
        lemma_length_text_shape(abs_int(nanos) as nat);
    }
}

/// Appends one decimal digit.
fn push_digit(out: &mut String, d: u64)
    requires
        d < 10,
    ensures
        final(out)@ == old(out)@.push(digit_char(d as int)),
{
    proof {
        reveal_strlit("0");
        reveal_strlit("1");
        reveal_strlit("2");
        reveal_strlit("3");
        reveal_strlit("4");
        reveal_strlit("5");
        reveal_strlit("6");
        reveal_strlit("7");
        reveal_strlit("8");
        reveal_strlit("9");
    }
    let ghost before = out@;
    if d == 0 {
        out.append("0");
    } else if d == 1 {
        out.append("1");
    } else if d == 2 {
        out.append("2");
    } else if d == 3 {
        out.append("3");
    } else if d == 4 {
        out.append("4");
    } else if d == 5 {
        out.append("5");
    } else if d == 6 {
        out.append("6");
    } else if d == 7 {
        out.append("7");
    } else if d == 8 {
        out.append("8");
    } else {
        out.append("9");
    }
    assert(out@ =~= before.push(digit_char(d as int)));
}

/// Appends the decimal digits of `n`.
pub(crate) fn push_decimal(out: &mut String, n: u64)
    ensures
        final(out)@ == old(out)@ + decimal(n as nat),
    decreases n,
{
    let ghost before = out@;
    if n >= 10 {
        push_decimal(out, n / 10);
    }
    push_digit(out, n % 10);
    assert(out@ =~= before + decimal(n as nat));
}

/// Appends the last `width` decimal digits of `n`.
fn push_fixed(out: &mut String, n: u64, width: u32)
    ensures
        final(out)@ == old(out)@ + fixed_width(n as nat, width as nat),
    decreases width,
{
    let ghost before = out@;
    if width > 0 {
        push_fixed(out, n / 10, width - 1);
        push_digit(out, n % 10);
    }
    assert(out@ =~= before + fixed_width(n as nat, width as nat));
}

/// Appends the digits after the decimal point.
fn push_fraction(out: &mut String, millis: u64, micros: u64, nanos: u64)
    ensures
        final(out)@ == old(out)@ + fraction_text(millis as nat, micros as nat, nanos as nat),
{
    proof {
        reveal_strlit(".");
    }
    let ghost before = out@;
    if nanos > 0 {
        out.append(".");
        push_fixed(out, millis, 3);
        push_fixed(out, micros, 3);
        push_fixed(out, nanos, 3);
    } else if micros > 0 {
        out.append(".");
        push_fixed(out, millis, 3);
        push_fixed(out, micros, 3);
    } else if millis > 0 {
        out.append(".");
        push_fixed(out, millis, 3);
    }
    assert(out@ =~= before + fraction_text(millis as nat, micros as nat, nanos as nat));
}

/// Appends the sign of a negative number.
pub(crate) fn push_sign(out: &mut String, nanos: i64)
    ensures
        final(out)@ == old(out)@ + sign_text(nanos as int),
{
    proof {
        reveal_strlit("-");
    }
    let ghost before = out@;
    if nanos < 0 {
        out.append("-");
    }
    assert(out@ =~= before + sign_text(nanos as int));
}

/// The length of a span of `nanos` nanoseconds.
pub(crate) fn length_of(nanos: i64) -> (length: u64)
    ensures
        length == abs_int(nanos as int),
{
    if nanos >= 0 {
        nanos as u64
    } else if nanos == i64::MIN {
        0x8000_0000_0000_0000
    } else {
        (-nanos) as u64
    }
}

/// A span's length cut into its units, as numbers to print.
struct Units {
    days: u64,
    hours: u64,
    minutes: u64,
    seconds: u64,
    millis: u64,
    micros: u64,
    nanos: u64,
}

impl View for Units {
    type V = Parts;

    closed spec fn view(&self) -> Parts {
        Parts {
            days: self.days as nat,
            hours: self.hours as nat,
            minutes: self.minutes as nat,
            seconds: self.seconds as nat,
            millis: self.millis as nat,
            micros: self.micros as nat,
            nanos: self.nanos as nat,
        }
    }
}

/// Cuts a length into its units.
fn units_of(length: u64) -> (u: Units)
    ensures
        u@ == parts_of(length as nat),
{
    Units {
        days: length / (NANOS_PER_DAY as u64),
        hours: length % (NANOS_PER_DAY as u64) / (NANOS_PER_HOUR as u64),
        minutes: length % (NANOS_PER_HOUR as u64) / (NANOS_PER_MINUTE as u64),
        seconds: length % (NANOS_PER_MINUTE as u64) / (NANOS_PER_SECOND as u64),
        millis: length % (NANOS_PER_SECOND as u64) / (NANOS_PER_MILLISECOND as u64),
        micros: length % (NANOS_PER_MILLISECOND as u64) / (NANOS_PER_MICROSECOND as u64),
        nanos: length % (NANOS_PER_MICROSECOND as u64),
    }
}

/// Appends days and hours of a length of at least one minute.
fn push_clock_head(out: &mut String, u: &Units)
    ensures
        final(out)@ == old(out)@ + (clock_days(u@) + clock_hours(u@)),
{
    proof {
        reveal_strlit("d");
        reveal_strlit(":");
    }
    let ghost before = out@;
    if u.days > 0 {
        push_decimal(out, u.days);
        out.append("d");
        push_fixed(out, u.hours, 2);
        out.append(":");
    } else if u.hours > 0 {
        push_decimal(out, u.hours);
        out.append(":");
    }
    assert(out@ =~= before + (clock_days(u@) + clock_hours(u@)));
}

/// Appends minutes and seconds of a length of at least one minute.
fn push_clock_tail(out: &mut String, u: &Units)
    ensures
        final(out)@ == old(out)@ + (clock_minutes(u@) + clock_seconds(u@)),
{
    proof {
        reveal_strlit(":");
    }
    let ghost before = out@;
    if u.days > 0 || u.hours > 0 {
        push_fixed(out, u.minutes, 2);
    } else {
        push_decimal(out, u.minutes);
    }
    if u.millis > 0 || u.micros > 0 || u.nanos > 0 || u.seconds > 0 || u.days == 0 {
        out.append(":");
        push_fixed(out, u.seconds, 2);
        push_fraction(out, u.millis, u.micros, u.nanos);
    }
    assert(out@ =~= before + (clock_minutes(u@) + clock_seconds(u@)));
}

/// Appends a number with its fraction and its unit.
fn push_scaled(out: &mut String, whole: u64, thousandths: u64, millionths: u64, unit: &str)
    ensures
        final(out)@ == old(out)@ + (decimal(whole as nat) + fraction_text(
            thousandths as nat,
            millionths as nat,
            0,
        ) + unit@),
{
    let ghost before = out@;
    push_decimal(out, whole);
    push_fraction(out, thousandths, millionths, 0);
    out.append(unit);
    assert(out@ =~= before + (decimal(whole as nat) + fraction_text(
        thousandths as nat,
        millionths as nat,
        0,
    ) + unit@));
}

/// Appends the text of a length.
fn push_length(out: &mut String, length: u64)
    ensures
        final(out)@ == old(out)@ + length_text(length as nat),
{
    proof {
        reveal_strlit("s");
        reveal_strlit("ms");
        reveal_strlit("us");
        reveal_strlit("ns");
    }
    let ghost before = out@;
    let u = units_of(length);
    if u.days > 0 || u.hours > 0 || u.minutes > 0 {
        push_clock_head(out, &u);
        push_clock_tail(out, &u);
        assert(out@ =~= before + clock_text(u@));
    } else if u.seconds > 0 {
        push_decimal(out, u.seconds);
        push_fraction(out, u.millis, u.micros, u.nanos);
        out.append("s");
        assert(out@ =~= before + length_text(length as nat));
    } else if u.millis > 0 {
        push_scaled(out, u.millis, u.micros, u.nanos, "ms");
        assert(out@ =~= before + length_text(length as nat));
    } else if u.micros > 0 {
        push_scaled(out, u.micros, u.nanos, 0, "us");
        assert(out@ =~= before + length_text(length as nat));
    } else {
        push_decimal(out, u.nanos);
        out.append("ns");
        assert(out@ =~= before + length_text(length as nat));
    }
}

impl TimeSpan {
    /// Returns the text of this span: the coarsest units it needs, and no
    /// more digits than it has.
    pub fn to_string(&self) -> (text: String)
        ensures
            text@ == span_text(self@),
    {
        proof {
            self.lemma_stored();
            reveal_strlit("0");
        }
        let mut out = String::new();
        if self.nanos == 0 {
            out.append("0");
            assert(out@ =~= span_text(self@));
            return out;
        }
        push_sign(&mut out, self.nanos);
        push_length(&mut out, length_of(self.nanos));
        assert(out@ =~= span_text(self@));
        out
    }

    /// Writes the text of this span into the buffer, as ASCII, and returns
    /// the number of bytes written. The rest of the buffer stays as it is.
    pub fn display_to_buffer(self, buf: &mut [u8; MAX_DISPLAY_LENGTH]) -> (len: usize)
        ensures
            len == span_text(self@).len(),
            0 < len <= MAX_DISPLAY_LENGTH,
            forall|i: int| 0 <= i < len ==> final(buf)@[i] == span_text(self@)[i] as u8,
            forall|i: int| len <= i < MAX_DISPLAY_LENGTH ==> final(buf)@[i] == old(buf)@[i],
    {
        let text = self.to_string();
        proof {
            self.lemma_view(self);
            lemma_span_text_shape(self@);
            is_ascii_chars_encode_utf8(text@);
        }
        let bytes = text.as_str().as_bytes();
        let mut i: usize = 0;
        while i < bytes.len()
            invariant
                i <= bytes.len() <= 26,
                forall|j: int| 0 <= j < i ==> buf@[j] == bytes@[j],
                forall|j: int| i <= j < 26 ==> buf@[j] == old(buf)@[j],
            decreases bytes.len() - i,
        {
            buf[i] = bytes[i];
            i = i + 1;
        }
        i
    }

    /// Returns the text of this span with every unit written out, such as
    /// `0d00:02:11.011000000`.
    pub fn to_string_full(&self) -> (text: String)
        ensures
            text@ == span_text_full(self@),
    {
        proof {
            self.lemma_stored();
            reveal_strlit("d");
            reveal_strlit(":");
            reveal_strlit(".");
        }
        let mut out = String::new();
        push_sign(&mut out, self.nanos);
        let length: u64 = length_of(self.nanos);
        let u = units_of(length);
        push_decimal(&mut out, u.days);
        out.append("d");
        push_fixed(&mut out, u.hours, 2);
        out.append(":");
        push_fixed(&mut out, u.minutes, 2);
        out.append(":");
        push_fixed(&mut out, u.seconds, 2);
        out.append(".");
        push_fixed(&mut out, length % (NANOS_PER_SECOND as u64), 9);
        assert(out@ =~= span_text_full(self@));
        out
    }

    /// Returns the text of this span as a plain count of nanoseconds, such
    /// as `-1500ns`.
    pub fn to_string_nanos(&self) -> (text: String)
        ensures
            text@ == span_text_nanos(self@),
    {
        proof {
            self.lemma_stored();
            reveal_strlit("ns");
        }
        let mut out = String::new();
        push_sign(&mut out, self.nanos);
        push_decimal(&mut out, length_of(self.nanos));
        out.append("ns");
        assert(out@ =~= span_text_nanos(self@));
        out
    }
}

} // verus!
