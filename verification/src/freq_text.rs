//! Frequencies as text: `3/10 Hz` is three ticks every ten nanoseconds, and
//! `5 Hz` is five ticks every nanosecond.

use crate::display::decimal;
use crate::freq::{Frequency, FrequencyView};
use crate::parse::IntParseErrorKind;
use vstd::prelude::*;
use vstd::string::StringExecFns;

verus! {

/// Why a text is no frequency.
#[derive(Clone, Copy, Debug, PartialEq, Eq, Structural)]
pub enum FrequencyParseErr {
    /// The text does not end in `Hz`.
    WrongFormat,
    /// The count or the cycle cannot be read.
    IntParseError {
        /// What is wrong with the number.
        kind: IntParseErrorKind,
    },
}

/// The text of the frequency of `count` ticks per `cycle` nanoseconds.
pub open spec fn frequency_text(count: nat, cycle: nat) -> Seq<char> {
    decimal(count) + seq!['/'] + decimal(cycle) + seq![' ', 'H', 'z']
}

/// A character with the Unicode property White_Space, which is cut from both
/// ends of a number.
pub open spec fn is_whitespace(c: char) -> bool {
    let n = c as u32;
    ||| 9 <= n <= 13
    ||| n == 0x20
    ||| n == 0x85
    ||| n == 0xA0
    ||| n == 0x1680
    ||| 0x2000 <= n <= 0x200A
    ||| n == 0x2028
    ||| n == 0x2029
    ||| n == 0x202F
    ||| n == 0x205F
    ||| n == 0x3000
}

/// One of the digits `0` to `9`.
pub open spec fn is_decimal_digit(c: char) -> bool {
    48 <= c as u32 <= 57
}

/// The position of the first `/` at or after `from`, or the length of the
/// text if there is none.
pub open spec fn first_slash(s: Seq<char>, from: int) -> int
    decreases s.len() - from,
{
    if from >= s.len() {
        s.len() as int
    } else if s[from] == '/' {
        from
    } else {
        first_slash(s, from + 1)
    }
}

/// The first position from `from` that is `to` or holds no whitespace.
pub open spec fn skip_whitespace(s: Seq<char>, from: int, to: int) -> int
    decreases to - from,
{
    if from >= to {
        to
    } else if is_whitespace(s[from]) {
        skip_whitespace(s, from + 1, to)
    } else {
        from
    }
}

/// The last position up to `to` that is `from` or follows a character that
/// is no whitespace.
pub open spec fn drop_whitespace(s: Seq<char>, from: int, to: int) -> int
    decreases to - from,
{
    if to <= from {
        from
    } else if is_whitespace(s[to - 1]) {
        drop_whitespace(s, from, to - 1)
    } else {
        to
    }
}

/// The number that the digits from `from` up to `to` add to `acc`, read
/// from the left. The first character that is no digit, or the first digit
/// with which the number no longer fits 64 bits, ends the reading.
pub open spec fn unsigned_digits(s: Seq<char>, from: int, to: int, acc: int) -> Result<
    int,
    IntParseErrorKind,
>
    decreases to - from,
{
    if from >= to {
        Ok(acc)
    } else if !is_decimal_digit(s[from]) {
        Err(IntParseErrorKind::InvalidDigit)
    } else if acc * 10 + (s[from] as u32 - 48) > u64::MAX {
        Err(IntParseErrorKind::PosOverflow)
    } else {
        unsigned_digits(s, from + 1, to, acc * 10 + (s[from] as u32 - 48))
    }
}

/// The unsigned number written between `from` and `to`, whitespace around it
/// aside. A plus sign may stand in front of the digits.
pub open spec fn unsigned_number(s: Seq<char>, from: int, to: int) -> Result<
    int,
    IntParseErrorKind,
> {
    let start = skip_whitespace(s, from, to);
    let end = drop_whitespace(s, start, to);
    if start >= end {
        Err(IntParseErrorKind::Empty)
    } else if end - start == 1 && (s[start] == '+' || s[start] == '-') {
        Err(IntParseErrorKind::InvalidDigit)
    } else if s[start] == '+' {
        unsigned_digits(s, start + 1, end, 0)
    } else {
        unsigned_digits(s, start, end, 0)
    }
}

/// Whether the text from `from` up to `to` ends in `Hz`.
pub open spec fn ends_in_hz(s: Seq<char>, from: int, to: int) -> bool {
    to - from >= 2 && s[to - 2] == 'H' && s[to - 1] == 'z'
}

/// The cycle that stands from `from` up to the `Hz` at the end of the text:
/// a number that is not zero.
pub open spec fn cycle_value(s: Seq<char>, from: int) -> Result<int, FrequencyParseErr> {
    if !ends_in_hz(s, from, s.len() as int) {
        Err(FrequencyParseErr::WrongFormat)
    } else {
        match unsigned_number(s, from, s.len() - 2) {
            Err(kind) => Err(FrequencyParseErr::IntParseError { kind }),
            Ok(cycle) => if cycle == 0 {
                Err(FrequencyParseErr::IntParseError { kind: IntParseErrorKind::Zero })
            } else {
                Ok(cycle)
            },
        }
    }
}

/// The count and the cycle that a text stands for, or the reason why it
/// stands for none.
///
/// With a `/` the text is a count, the `/`, a cycle in nanoseconds and `Hz`;
/// the count is read first. Without one it is a count and `Hz`, and the
/// cycle is one nanosecond.
pub open spec fn frequency_value(s: Seq<char>) -> Result<(int, int), FrequencyParseErr> {
    let slash = first_slash(s, 0);
    if slash >= s.len() {
        if !ends_in_hz(s, 0, s.len() as int) {
            Err(FrequencyParseErr::WrongFormat)
        } else {
            match unsigned_number(s, 0, s.len() - 2) {
                Err(kind) => Err(FrequencyParseErr::IntParseError { kind }),
                Ok(count) => Ok((count, 1)),
            }
        }
    } else {
        match unsigned_number(s, 0, slash) {
            Err(kind) => Err(FrequencyParseErr::IntParseError { kind }),
            Ok(count) => match cycle_value(s, slash + 1) {
                Err(e) => Err(e),
                Ok(cycle) => Ok((count, cycle)),
            },
        }
    }
}

/// Whether `r` is the outcome that the specification `value` names: the
/// frequency of that count and cycle in lowest terms, or that error.
pub open spec fn frequency_parsed_as(
    r: Result<Frequency, FrequencyParseErr>,
    value: Result<(int, int), FrequencyParseErr>,
) -> bool {
    match value {
        Ok(ratio) => r matches Ok(f) && f@ == FrequencyView::reduced(
            ratio.0 as nat,
            ratio.1 as nat,
        ),
        Err(e) => r == Err::<Frequency, FrequencyParseErr>(e),
    }
}

/// The digits of a number are decimal digits.
pub proof fn lemma_decimal_is_digits(n: nat)
    ensures
        decimal(n).len() >= 1,
        forall|i: int| 0 <= i < decimal(n).len() ==> is_decimal_digit(#[trigger] decimal(n)[i]),
        forall|i: int|
            0 <= i < decimal(n).len() ==> (#[trigger] decimal(n)[i]) as u32 - 48 == if i + 1
                == decimal(n).len() {
                (n % 10) as int
            } else {
                decimal(n / 10)[i] as u32 - 48
            },
    decreases n,
{
    if n >= 10 {
        lemma_decimal_is_digits(n / 10);
    }
}

/// Reading digits up to `to` is reading them up to `mid` and going on from
/// there.
pub proof fn lemma_digits_split(s: Seq<char>, from: int, mid: int, to: int, acc: int)
    requires
        from <= mid <= to,
    ensures
        unsigned_digits(s, from, to, acc) == match unsigned_digits(s, from, mid, acc) {
            Ok(v) => unsigned_digits(s, mid, to, v),
            Err(kind) => Err(kind),
        },
    decreases mid - from,
{
    if from < mid && is_decimal_digit(s[from]) && acc * 10 + (s[from] as u32 - 48) <= u64::MAX {
        lemma_digits_split(s, from + 1, mid, to, acc * 10 + (s[from] as u32 - 48));
    }
}

/// The digits of `n`, where they stand in a text, are read as `n`.
pub proof fn lemma_reads_decimal(s: Seq<char>, from: int, n: nat)
    requires
        0 <= from,
        from + decimal(n).len() <= s.len(),
        s.subrange(from, from + decimal(n).len()) == decimal(n),
        n <= u64::MAX,
    ensures
        unsigned_digits(s, from, from + decimal(n).len(), 0) == Ok::<int, IntParseErrorKind>(
            n as int,
        ),
    decreases n,
{
    let len = decimal(n).len() as int;
    lemma_decimal_is_digits(n);
    assert forall|i: int| 0 <= i < len implies s[from + i] == #[trigger] decimal(n)[i] by {
        assert(s.subrange(from, from + len)[i] == s[from + i]);
    }
    if n < 10 {
        assert(s[from] == decimal(n)[0]);
        assert(unsigned_digits(s, from + 1, from + 1, n as int) == Ok::<int, IntParseErrorKind>(
            n as int,
        ));
    } else {
        let head = decimal(n / 10);
        let mid = from + len - 1;
        assert(s.subrange(from, mid) =~= head);
        lemma_reads_decimal(s, from, n / 10);
        lemma_digits_split(s, from, mid, from + len, 0);
        assert(s[mid] == decimal(n)[len - 1]);
        assert(unsigned_digits(s, mid + 1, mid + 1, n as int) == Ok::<int, IntParseErrorKind>(
            n as int,
        ));
    }
}

/// The first `/` of a text stands at `at` if none stands before it.
pub proof fn lemma_first_slash(s: Seq<char>, from: int, at: int)
    requires
        0 <= from <= at < s.len(),
        s[at] == '/',
        forall|i: int| from <= i < at ==> s[i] != '/',
    ensures
        first_slash(s, from) == at,
    decreases at - from,
{
    if from < at {
        lemma_first_slash(s, from + 1, at);
    }
}

/// What `Frequency::to_string` writes, `Frequency::parse` reads back: the
/// text of a count and a cycle stands for that count and that cycle.
pub proof fn lemma_text_round_trip(count: nat, cycle: nat)
    requires
        count <= u64::MAX,
        0 < cycle <= u64::MAX,
    ensures
        frequency_value(frequency_text(count, cycle)) == Ok::<(int, int), FrequencyParseErr>(
            (count as int, cycle as int),
        ),
{
    let s = frequency_text(count, cycle);
    let a = decimal(count).len() as int;
    let b = decimal(cycle).len() as int;
    lemma_decimal_is_digits(count);
    lemma_decimal_is_digits(cycle);
    assert(s.len() == a + b + 4);
    assert forall|i: int| 0 <= i < a implies s[i] == #[trigger] decimal(count)[i] by {}
    assert forall|i: int| 0 <= i < b implies s[a + 1 + i] == #[trigger] decimal(cycle)[i] by {}
    assert(s[a] == '/' && s[a + b + 1] == ' ' && s[a + b + 2] == 'H' && s[a + b + 3] == 'z');
    assert forall|i: int| 0 <= i < a implies s[i] != '/' by {
        assert(is_decimal_digit(decimal(count)[i]));
    }
    lemma_first_slash(s, 0, a);
    // The count.
    assert(is_decimal_digit(decimal(count)[0]) && is_decimal_digit(decimal(count)[a - 1]));
    assert(skip_whitespace(s, 0, a) == 0);
    assert(drop_whitespace(s, 0, a) == a);
    assert(s.subrange(0, a) =~= decimal(count));
    lemma_reads_decimal(s, 0, count);
    assert(unsigned_number(s, 0, a) == Ok::<int, IntParseErrorKind>(count as int));
    // The cycle.
    let start = a + 1;
    let end = a + 1 + b;
    assert(is_decimal_digit(decimal(cycle)[0]) && is_decimal_digit(decimal(cycle)[b - 1]));
    assert(s[start] == decimal(cycle)[0] && s[end - 1] == decimal(cycle)[b - 1]);
    assert(skip_whitespace(s, start, end + 1) == start);
    assert(is_whitespace(s[end]));
    assert(drop_whitespace(s, start, end) == end);
    assert(drop_whitespace(s, start, end + 1) == end);
    assert(s.subrange(start, end) =~= decimal(cycle));
    lemma_reads_decimal(s, start, cycle);
    assert(unsigned_number(s, start, end + 1) == Ok::<int, IntParseErrorKind>(cycle as int));
    assert(ends_in_hz(s, start, s.len() as int));
    assert(cycle_value(s, start) == Ok::<int, FrequencyParseErr>(cycle as int));
}

/// Returns the characters of a text.
fn chars_of(text: &str) -> (chars: Vec<char>)
    ensures
        chars@ == text@,
{
    let mut chars: Vec<char> = Vec::new();
    for c in it: text.chars()
        invariant
            chars@ =~= it.seq().subrange(0, it.index() as int),
            it.seq() == text@,
    {
        chars.push(c);
    }
    chars
}

/// Whether `c` is cut from the ends of a number.
fn whitespace(c: char) -> (r: bool)
    ensures
        r == is_whitespace(c),
{
    let n: u32 = c as u32;
    (9 <= n && n <= 13) || n == 0x20 || n == 0x85 || n == 0xA0 || n == 0x1680 || (0x2000 <= n && n
        <= 0x200A) || n == 0x2028 || n == 0x2029 || n == 0x202F || n == 0x205F || n == 0x3000
}

/// Returns the start of the text between `from` and `to` once the whitespace
/// at its start is cut.
fn trim_start(s: &Vec<char>, from: usize, to: usize) -> (start: usize)
    requires
        from <= to <= s.len(),
    ensures
        start == skip_whitespace(s@, from as int, to as int),
        from <= start <= to,
{
    let mut start: usize = from;
    while start < to
        invariant
            from <= start <= to <= s.len(),
            skip_whitespace(s@, from as int, to as int) == skip_whitespace(
                s@,
                start as int,
                to as int,
            ),
        decreases to - start,
    {
        if !whitespace(s[start]) {
            return start;
        }
        start = start + 1;
    }
    start
}

/// Returns the end of the text between `from` and `to` once the whitespace
/// at its end is cut.
fn trim_end(s: &Vec<char>, from: usize, to: usize) -> (end: usize)
    requires
        from <= to <= s.len(),
    ensures
        end == drop_whitespace(s@, from as int, to as int),
        from <= end <= to,
{
    let mut end: usize = to;
    while end > from
        invariant
            from <= end <= to <= s.len(),
            drop_whitespace(s@, from as int, to as int) == drop_whitespace(
                s@,
                from as int,
                end as int,
            ),
        decreases end,
    {
        if !whitespace(s[end - 1]) {
            return end;
        }
        end = end - 1;
    }
    end
}

/// Returns the position of the first `/`, or the length of the text.
fn find_slash(s: &Vec<char>) -> (slash: usize)
    ensures
        slash == first_slash(s@, 0),
        slash <= s.len(),
        slash < s.len() ==> s@[slash as int] == '/',
{
    let mut slash: usize = 0;
    while slash < s.len()
        invariant
            slash <= s.len(),
            first_slash(s@, 0) == first_slash(s@, slash as int),
        decreases s.len() - slash,
    {
        if s[slash] == '/' {
            return slash;
        }
        slash = slash + 1;
    }
    slash
}

/// Reads the unsigned number written between `from` and `to`.
fn parse_unsigned(s: &Vec<char>, from: usize, to: usize) -> (r: Result<u64, IntParseErrorKind>)
    requires
        from <= to <= s.len(),
    ensures
        match unsigned_number(s@, from as int, to as int) {
            Ok(v) => r == Ok::<u64, IntParseErrorKind>(v as u64) && 0 <= v <= u64::MAX,
            Err(kind) => r == Err::<u64, IntParseErrorKind>(kind),
        },
{
    let start = trim_start(s, from, to);
    let end = trim_end(s, start, to);
    if start >= end {
        return Err(IntParseErrorKind::Empty);
    }
    if end - start == 1 && (s[start] == '+' || s[start] == '-') {
        return Err(IntParseErrorKind::InvalidDigit);
    }
    let first: usize = if s[start] == '+' {
        start + 1
    } else {
        start
    };
    let mut acc: u64 = 0;
    let mut i: usize = first;
    while i < end
        invariant
            first <= i <= end <= s.len(),
            unsigned_number(s@, from as int, to as int) == unsigned_digits(
                s@,
                i as int,
                end as int,
                acc as int,
            ),
        decreases end - i,
    {
        let n: u32 = s[i] as u32;
        if n < 48 || n > 57 {
            return Err(IntParseErrorKind::InvalidDigit);
        }
        let digit: u64 = (n - 48) as u64;
        if acc > (u64::MAX - digit) / 10 {
            return Err(IntParseErrorKind::PosOverflow);
        }
        acc = acc * 10 + digit;
        i = i + 1;
    }
    Ok(acc)
}

/// Whether the text from `from` on ends in `Hz`.
fn has_hz(s: &Vec<char>, from: usize) -> (r: bool)
    requires
        from <= s.len(),
    ensures
        r == ends_in_hz(s@, from as int, s@.len() as int),
{
    s.len() - from >= 2 && s[s.len() - 2] == 'H' && s[s.len() - 1] == 'z'
}

impl Frequency {
    /// Reads a frequency from text such as `3/10 Hz` or `5 Hz`.
    ///
    /// Returns the frequency, in lowest terms, of the count and cycle that
    /// `frequency_value` gives for the text, or the error that it gives.
    pub fn parse(text: &str) -> (r: Result<Frequency, FrequencyParseErr>)
        ensures
            frequency_parsed_as(r, frequency_value(text@)),
    {
        let s = chars_of(text);
        let slash = find_slash(&s);
        if slash >= s.len() {
            if !has_hz(&s, 0) {
                return Err(FrequencyParseErr::WrongFormat);
            }
            return match parse_unsigned(&s, 0, s.len() - 2) {
                Err(kind) => Err(FrequencyParseErr::IntParseError { kind }),
                Ok(count) => Ok(Frequency::from_ratio(count, 1)),
            };
        }
        let count: u64 = match parse_unsigned(&s, 0, slash) {
            Err(kind) => {
                return Err(FrequencyParseErr::IntParseError { kind });
            },
            Ok(count) => count,
        };
        if !has_hz(&s, slash + 1) {
            return Err(FrequencyParseErr::WrongFormat);
        }
        match parse_unsigned(&s, slash + 1, s.len() - 2) {
            Err(kind) => Err(FrequencyParseErr::IntParseError { kind }),
            Ok(cycle) => if cycle == 0 {
                Err(FrequencyParseErr::IntParseError { kind: IntParseErrorKind::Zero })
            } else {
                Ok(Frequency::from_ratio(count, cycle))
            },
        }
    }

    /// Returns the text of this frequency: count, `/`, cycle in nanoseconds
    /// and `Hz`, such as `3/10 Hz`.
    pub fn to_string(&self) -> (text: String)
        ensures
            text@ == frequency_text(self@.count, self@.cycle),
    {
        proof {
            reveal_strlit("/");
            reveal_strlit(" Hz");
        }
        let mut out = String::new();
        crate::display::push_decimal(&mut out, self.count());
        out.append("/");
        crate::display::push_decimal(&mut out, self.cycle());
        out.append(" Hz");
        assert(out@ =~= frequency_text(self@.count, self@.cycle));
        out
    }
}

} // verus!
