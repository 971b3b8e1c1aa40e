//! What the parse errors say.

use crate::display::{decimal, push_decimal, push_sign, sign_text};
use crate::freq_text::FrequencyParseErr;
use crate::math::abs_int;
use crate::parse::{IntParseErrorKind, TimeSpanParseErr, MAX_TIME_SPAN_STRING};
use vstd::prelude::*;
use vstd::string::StringExecFns;

verus! {

/// The text of a signed number.
pub open spec fn signed_decimal(n: int) -> Seq<char> {
    sign_text(n) + decimal(abs_int(n) as nat)
}

/// What the error about a number says.
pub open spec fn kind_message(kind: IntParseErrorKind) -> Seq<char> {
    match kind {
        IntParseErrorKind::Empty => "cannot parse integer from empty string"@,
        IntParseErrorKind::InvalidDigit => "invalid digit found in string"@,
        IntParseErrorKind::PosOverflow => "number too large to fit in target type"@,
        IntParseErrorKind::Zero => "number would be zero for non-zero type"@,
    }
}

/// What the error about a time span's text says.
pub open spec fn span_message(e: TimeSpanParseErr) -> Seq<char> {
    match e {
        TimeSpanParseErr::NonASCII => "Time spans encoded in strings are always ASCII"@,
        TimeSpanParseErr::StringTooLarge { len } => "Valid time span string may never exceed "@
            + decimal(MAX_TIME_SPAN_STRING as nat) + " bytes. String is "@ + decimal(len as nat),
        TimeSpanParseErr::IntParseError { kind } => "Failed to parse integer"@,
        TimeSpanParseErr::UnexpectedDelimiter { delim, pos } => "Unexpected delimiter '"@.push(
            delim,
        ) + "' at "@ + decimal(pos as nat),
        TimeSpanParseErr::UnexpectedEndOfString => "Unexpected end of string"@,
        TimeSpanParseErr::UnexpectedSuffix =>
            "Unexpected suffix. Only `s`, `ms` and `us` suffixes are supported"@,
        TimeSpanParseErr::HoursOutOfBound { hours } =>
            "Hours must be in range 0-23 when days are specified. Value at hours position is '"@
            + signed_decimal(hours as int) + "'"@,
        TimeSpanParseErr::MinutesOutOfBound { minutes } =>
            "Minutes must be in range 0-59 when hours are specified. Value at minutes position is '"@
            + signed_decimal(minutes as int) + "'"@,
        TimeSpanParseErr::SecondsOutOfBound { seconds } =>
            "Seconds must be in range 0-59 when minutes are specified. Value at seconds position is '"@
            + signed_decimal(seconds as int) + "'"@,
    }
}

/// What the error about a frequency's text says.
pub open spec fn frequency_message(e: FrequencyParseErr) -> Seq<char> {
    match e {
        FrequencyParseErr::WrongFormat => "Wrong frequency format"@,
        FrequencyParseErr::IntParseError { kind } => kind_message(kind),
    }
}

/// Appends one character.
///
/// `String::push` is taken at its word: it appends the given character to
/// the end of the string and changes nothing else.
#[verifier::external_body]
fn push_char(out: &mut String, c: char)
    ensures
        final(out)@ == old(out)@.push(c),
{
    out.push(c);
}

/// Appends a signed number.
fn push_signed(out: &mut String, n: i64)
    ensures
        final(out)@ == old(out)@ + signed_decimal(n as int),
{
    let ghost before = out@;
    push_sign(out, n);
    push_decimal(out, crate::display::length_of(n));
    assert(out@ =~= before + signed_decimal(n as int));
}

/// Returns a message that ends with a number between quotes.
fn quoted(lead: &str, n: i64) -> (text: String)
    ensures
        text@ == lead@ + signed_decimal(n as int) + "'"@,
{
    let mut out = String::new();
    out.append(lead);
    push_signed(&mut out, n);
    out.append("'");
    assert(out@ =~= lead@ + signed_decimal(n as int) + "'"@);
    out
}

impl IntParseErrorKind {
    /// Returns what this error says.
    pub fn to_string(&self) -> (text: String)
        ensures
            text@ == kind_message(*self),
    {
        let mut out = String::new();
        let ghost empty = out@;
        match self {
            IntParseErrorKind::Empty => out.append("cannot parse integer from empty string"),
            IntParseErrorKind::InvalidDigit => out.append("invalid digit found in string"),
            IntParseErrorKind::PosOverflow => out.append("number too large to fit in target type"),
            IntParseErrorKind::Zero => out.append("number would be zero for non-zero type"),
        }
        assert(out@ =~= kind_message(*self));
        out
    }
}

impl TimeSpanParseErr {
    /// Returns what this error says.
    pub fn to_string(&self) -> (text: String)
        ensures
            text@ == span_message(*self),
    {
        let mut out = String::new();
        match self {
            TimeSpanParseErr::NonASCII => {
                out.append("Time spans encoded in strings are always ASCII");
            },
            TimeSpanParseErr::StringTooLarge { len } => {
                out.append("Valid time span string may never exceed ");
                push_decimal(&mut out, MAX_TIME_SPAN_STRING as u64);
                out.append(" bytes. String is ");
                push_decimal(&mut out, *len as u64);
            },
            TimeSpanParseErr::IntParseError { kind } => {
                out.append("Failed to parse integer");
            },
            TimeSpanParseErr::UnexpectedDelimiter { delim, pos } => {
                out.append("Unexpected delimiter '");
                push_char(&mut out, *delim);
                out.append("' at ");
                push_decimal(&mut out, *pos as u64);
            },
            TimeSpanParseErr::UnexpectedEndOfString => {
                out.append("Unexpected end of string");
            },
            TimeSpanParseErr::UnexpectedSuffix => {
                out.append("Unexpected suffix. Only `s`, `ms` and `us` suffixes are supported");
            },
            TimeSpanParseErr::HoursOutOfBound { hours } => {
                return quoted(
                    "Hours must be in range 0-23 when days are specified. Value at hours position is '",
                    *hours,
                );
            },
            TimeSpanParseErr::MinutesOutOfBound { minutes } => {
                return quoted(
                    "Minutes must be in range 0-59 when hours are specified. Value at minutes position is '",
                    *minutes,
                );
            },
            TimeSpanParseErr::SecondsOutOfBound { seconds } => {
                return quoted(
                    "Seconds must be in range 0-59 when minutes are specified. Value at seconds position is '",
                    *seconds,
                );
            },
        }
        assert(out@ =~= span_message(*self));
        out
    }
}

impl FrequencyParseErr {
    /// Returns what this error says.
    pub fn to_string(&self) -> (text: String)
        ensures
            text@ == frequency_message(*self),
    {
        match self {
            FrequencyParseErr::WrongFormat => {
                let mut out = String::new();
                out.append("Wrong frequency format");
                assert(out@ =~= frequency_message(*self));
                out
            },
            FrequencyParseErr::IntParseError { kind } => kind.to_string(),
        }
    }
}

} // verus!
