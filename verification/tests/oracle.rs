use std::num::IntErrorKind;

use gametime::{Frequency, FrequencyParseErr, IntParseErrorKind, TimeSpan, TimeSpanParseErr};

const SECOND: i64 = 1_000_000_000;
const MINUTE: i64 = 60 * SECOND;
const HOUR: i64 = 60 * MINUTE;
const DAY: i64 = 24 * HOUR;

/// A small generator of repeatable pseudo-random numbers.
struct Lcg(u64);

impl Lcg {
    fn next(&mut self) -> u64 {
        self.0 = self.0.wrapping_mul(6364136223846793005).wrapping_add(1442695040888963407);
        self.0 >> 11
    }
}

fn kind_of(err: std::num::ParseIntError) -> IntParseErrorKind {
    match err.kind() {
        IntErrorKind::Empty => IntParseErrorKind::Empty,
        IntErrorKind::InvalidDigit => IntParseErrorKind::InvalidDigit,
        IntErrorKind::PosOverflow => IntParseErrorKind::PosOverflow,
        IntErrorKind::Zero => IntParseErrorKind::Zero,
        other => panic!("unexpected kind {other:?}"),
    }
}

fn number(text: &str) -> Result<i64, TimeSpanParseErr> {
    text.trim().parse::<i64>().map_err(|e| TimeSpanParseErr::IntParseError { kind: kind_of(e) })
}

fn field(text: &str, range: Option<(usize, usize)>) -> Result<i64, TimeSpanParseErr> {
    match range {
        None => Ok(0),
        Some((start, end)) => number(&text[start..end]),
    }
}

fn too_long() -> TimeSpanParseErr {
    TimeSpanParseErr::IntParseError { kind: IntParseErrorKind::PosOverflow }
}

struct Fields {
    days: Option<(usize, usize)>,
    hours: Option<(usize, usize)>,
    minutes: Option<(usize, usize)>,
    seconds: Option<(usize, usize)>,
    fract: Option<(usize, usize)>,
    denom: u32,
}

fn add_up(text: &str, f: Fields) -> Result<TimeSpan, TimeSpanParseErr> {
    let seconds = field(text, f.seconds)?;
    if f.minutes.is_some() && seconds > 59 {
        return Err(TimeSpanParseErr::SecondsOutOfBound { seconds });
    }
    let minutes = field(text, f.minutes)?;
    if f.hours.is_some() && minutes > 59 {
        return Err(TimeSpanParseErr::MinutesOutOfBound { minutes });
    }
    let hours = field(text, f.hours)?;
    if f.days.is_some() && hours > 23 {
        return Err(TimeSpanParseErr::HoursOutOfBound { hours });
    }
    let days = field(text, f.days)?;
    let fract = field(text, f.fract)?;
    let micros = match f.denom {
        denom @ 0..=5 => fract * 10i64.pow(6 - denom),
        6 => fract,
        denom => fract / 10i64.pow(denom - 6),
    };
    let total = days
        .checked_mul(DAY)
        .and_then(|t| t.checked_add(hours.checked_mul(HOUR)?))
        .and_then(|t| t.checked_add(minutes.checked_mul(MINUTE)?))
        .and_then(|t| t.checked_add(seconds.checked_mul(SECOND)?))
        .and_then(|t| t.checked_add(micros.checked_mul(1_000)?));
    total.map(TimeSpan::new).ok_or_else(too_long)
}

fn scaled(digits: &str, unit: i64) -> Result<TimeSpan, TimeSpanParseErr> {
    number(digits)?.checked_mul(unit).map(TimeSpan::new).ok_or_else(too_long)
}

/// Reads a span with the text functions of the standard library.
fn read_span(s: &str) -> Result<TimeSpan, TimeSpanParseErr> {
    if !s.is_ascii() {
        return Err(TimeSpanParseErr::NonASCII);
    }
    if s.len() > 48 {
        return Err(TimeSpanParseErr::StringTooLarge { len: s.len() });
    }
    let len = s.len();
    let seps: Vec<(usize, char)> = s
        .char_indices()
        .filter(|(_, c)| !c.is_ascii_digit() && !c.is_ascii_whitespace())
        .collect();
    let sep = |n: usize| seps.get(n).copied();
    let unexpected =
        |(pos, delim): (usize, char)| Err(TimeSpanParseErr::UnexpectedDelimiter { delim, pos });
    let places = |point: usize| (len - point - 1).min(20) as u32;
    let fields = match sep(0) {
        None => return scaled(s, SECOND),
        Some((dh, 'd' | 'D' | 't' | 'T')) => match sep(1) {
            None => return Err(TimeSpanParseErr::UnexpectedEndOfString),
            Some((hm, ':')) => match sep(2) {
                None => Fields {
                    days: Some((0, dh)),
                    hours: Some((dh + 1, hm)),
                    minutes: Some((hm + 1, len)),
                    seconds: None,
                    fract: None,
                    denom: 0,
                },
                Some((ms, ':')) => match sep(3) {
                    None => Fields {
                        days: Some((0, dh)),
                        hours: Some((dh + 1, hm)),
                        minutes: Some((hm + 1, ms)),
                        seconds: Some((ms + 1, len)),
                        fract: None,
                        denom: 0,
                    },
                    Some((sf, '.')) => {
                        if let Some(extra) = sep(4) {
                            return unexpected(extra);
                        }
                        Fields {
                            days: Some((0, dh)),
                            hours: Some((dh + 1, hm)),
                            minutes: Some((hm + 1, ms)),
                            seconds: Some((ms + 1, sf)),
                            fract: Some((sf + 1, len.min(sf + 21))),
                            denom: places(sf),
                        }
                    }
                    Some(other) => return unexpected(other),
                },
                Some(other) => return unexpected(other),
            },
            Some(other) => return unexpected(other),
        },
        Some((hms, ':')) => match sep(1) {
            None => Fields {
                days: None,
                hours: None,
                minutes: Some((0, hms)),
                seconds: Some((hms + 1, len)),
                fract: None,
                denom: 0,
            },
            Some((ms, ':')) => match sep(2) {
                None => Fields {
                    days: None,
                    hours: Some((0, hms)),
                    minutes: Some((hms + 1, ms)),
                    seconds: Some((ms + 1, len)),
                    fract: None,
                    denom: 0,
                },
                Some((sf, '.')) => {
                    if let Some(extra) = sep(3) {
                        return unexpected(extra);
                    }
                    Fields {
                        days: None,
                        hours: Some((0, hms)),
                        minutes: Some((hms + 1, ms)),
                        seconds: Some((ms + 1, sf)),
                        fract: Some((sf + 1, len.min(sf + 21))),
                        denom: places(sf),
                    }
                }
                Some(other) => return unexpected(other),
            },
            Some((sf, '.')) => {
                if let Some(extra) = sep(2) {
                    return unexpected(extra);
                }
                Fields {
                    days: None,
                    hours: None,
                    minutes: Some((0, hms)),
                    seconds: Some((hms + 1, sf)),
                    fract: Some((sf + 1, len)),
                    denom: places(sf),
                }
            }
            Some(other) => return unexpected(other),
        },
        Some((sf, '.')) => {
            if let Some(extra) = sep(1) {
                return unexpected(extra);
            }
            Fields {
                days: None,
                hours: None,
                minutes: None,
                seconds: Some((0, sf)),
                fract: Some((sf + 1, len)),
                denom: places(sf),
            }
        }
        Some((at, unit @ ('s' | 'm' | 'u'))) => {
            let (name, nanos) = match unit {
                's' => ("s", SECOND),
                'm' => ("ms", 1_000_000),
                _ => ("us", 1_000),
            };
            if s[at..].trim() != name {
                return Err(TimeSpanParseErr::UnexpectedSuffix);
            }
            return scaled(&s[..at], nanos);
        }
        Some(other) => return unexpected(other),
    };
    add_up(s, fields)
}

/// Writes a span with the formatting of the standard library.
fn write_span(nanos: i64) -> String {
    if nanos == 0 {
        return "0".to_string();
    }
    let sign = if nanos < 0 { "-" } else { "" };
    let length = nanos.unsigned_abs();
    let (day, hour, minute, second) = (DAY as u64, HOUR as u64, MINUTE as u64, SECOND as u64);
    let days = length / day;
    let hours = length % day / hour;
    let minutes = length % hour / minute;
    let seconds = length % minute / second;
    let millis = length % second / 1_000_000;
    let micros = length % 1_000_000 / 1_000;
    let nanos = length % 1_000;
    let body = if days > 0 || hours > 0 || minutes > 0 {
        let head = if days > 0 {
            format!("{days}d{hours:02}:{minutes:02}")
        } else if hours > 0 {
            format!("{hours}:{minutes:02}")
        } else {
            format!("{minutes}")
        };
        let tail = if nanos > 0 {
            format!(":{seconds:02}.{millis:03}{micros:03}{nanos:03}")
        } else if micros > 0 {
            format!(":{seconds:02}.{millis:03}{micros:03}")
        } else if millis > 0 {
            format!(":{seconds:02}.{millis:03}")
        } else if seconds > 0 || days == 0 {
            format!(":{seconds:02}")
        } else {
            String::new()
        };
        head + &tail
    } else if seconds > 0 {
        if nanos > 0 {
            format!("{seconds}.{millis:03}{micros:03}{nanos:03}s")
        } else if micros > 0 {
            format!("{seconds}.{millis:03}{micros:03}s")
        } else if millis > 0 {
            format!("{seconds}.{millis:03}s")
        } else {
            format!("{seconds}s")
        }
    } else if millis > 0 {
        if nanos > 0 {
            format!("{millis}.{micros:03}{nanos:03}ms")
        } else if micros > 0 {
            format!("{millis}.{micros:03}ms")
        } else {
            format!("{millis}ms")
        }
    } else if micros > 0 {
        if nanos > 0 {
            format!("{micros}.{nanos:03}us")
        } else {
            format!("{micros}us")
        }
    } else {
        format!("{nanos}ns")
    };
    format!("{sign}{body}")
}

fn write_span_full(nanos: i64) -> String {
    let sign = if nanos < 0 { "-" } else { "" };
    let length = nanos.unsigned_abs();
    let days = length / DAY as u64;
    let hours = length % DAY as u64 / HOUR as u64;
    let minutes = length % HOUR as u64 / MINUTE as u64;
    let seconds = length % MINUTE as u64 / SECOND as u64;
    let rest = length % SECOND as u64;
    format!("{sign}{days:01}d{hours:02}:{minutes:02}:{seconds:02}.{rest:09}")
}

/// Reads a frequency with the text functions of the standard library.
fn read_frequency(s: &str) -> Result<Frequency, FrequencyParseErr> {
    let number = |kind| FrequencyParseErr::IntParseError { kind };
    let ratio = |count: u64, cycle: u64| Ok(Frequency::try_from_ratio(count, cycle).unwrap());
    match s.split_once('/') {
        None => {
            let count = s.strip_suffix("Hz").ok_or(FrequencyParseErr::WrongFormat)?;
            let count = count.trim().parse::<u64>().map_err(|e| number(kind_of(e)))?;
            ratio(count, 1)
        }
        Some((count, rest)) => {
            let count = count.trim().parse::<u64>().map_err(|e| number(kind_of(e)))?;
            let cycle = rest.strip_suffix("Hz").ok_or(FrequencyParseErr::WrongFormat)?;
            let cycle = cycle
                .trim()
                .parse::<std::num::NonZeroU64>()
                .map_err(|e| number(kind_of(e)))?;
            ratio(count, cycle.get())
        }
    }
}

fn each_text(alphabet: &[char], max_len: usize, check: &mut dyn FnMut(&str)) {
    let mut text = String::new();
    let mut index = vec![0usize; 0];
    loop {
        check(&text);
        // Move on to the next text in order of length, then of letters.
        let mut at = index.len();
        loop {
            if at == 0 {
                if index.len() == max_len {
                    return;
                }
                index = vec![0; index.len() + 1];
                break;
            }
            at -= 1;
            if index[at] + 1 < alphabet.len() {
                index[at] += 1;
                for later in index.iter_mut().skip(at + 1) {
                    *later = 0;
                }
                break;
            }
        }
        text.clear();
        text.extend(index.iter().map(|i| alphabet[*i]));
    }
}

#[test]
fn spans_are_read_as_the_standard_library_reads_them() {
    let alphabet = ['1', '7', ' ', '\u{b}', ':', '.', 'd', 's', 'm', 'u', 'x'];
    let mut count = 0u32;
    each_text(&alphabet, 5, &mut |text| {
        assert_eq!(TimeSpan::parse(text), read_span(text), "{text:?}");
        count += 1;
    });
    assert_eq!(count, 1 + 11 + 121 + 1_331 + 14_641 + 161_051);
}

#[test]
fn layouts_are_read_as_the_standard_library_reads_them() {
    let alphabet = ['0', '5', '9', ':', '.', 'd', 'T', '\t', 's'];
    each_text(&alphabet, 6, &mut |text| {
        assert_eq!(TimeSpan::parse(text), read_span(text), "{text:?}");
    });
}

#[test]
fn long_spans_are_read_as_the_standard_library_reads_them() {
    let mut random = Lcg(0x5eed);
    let pieces = [
        "0", "1", "9", "99", "000000", "123456789", "9223372036854775807", "9223372036854775808",
        "106751", "106752", "23", "24", "59", "60", ":", ":", ".", "d", "D", "t", " ", "\r",
        "\u{c}", "s", "ms", "us", "\u{b}", "-", "+", "e", "\u{e9}",
    ];
    for _ in 0..200_000 {
        let mut text = String::new();
        for _ in 0..1 + random.next() % 7 {
            text.push_str(pieces[(random.next() % pieces.len() as u64) as usize]);
        }
        assert_eq!(TimeSpan::parse(&text), read_span(&text), "{text:?}");
        assert_eq!(gametime::parse::parse_bytes(text.as_bytes()), read_span(&text), "{text:?}");
    }
}

#[test]
fn spans_are_written_as_the_standard_library_writes_them() {
    let mut random = Lcg(0xfeed);
    let mut values = vec![0, 1, -1, 999, 1_000, 1_001, i64::MAX, i64::MIN, i64::MIN + 1];
    for unit in [1_000, 1_000_000, SECOND, MINUTE, HOUR, DAY] {
        for factor in [1, 2, 9, 10, 23, 24, 59, 60, 999, 1_000] {
            for offset in [-1, 0, 1, 1_000, 1_000_000, SECOND] {
                values.push(unit * factor + offset);
                values.push(-(unit * factor + offset));
            }
        }
    }
    for _ in 0..200_000 {
        let bits = random.next() % 64;
        values.push((random.next() << 11 >> bits) as i64);
        values.push(((random.next() % 1_000_000) * 1_000_000 * (random.next() % 100_000)) as i64);
    }
    for nanos in values {
        let span = TimeSpan::new(nanos);
        assert_eq!(span.to_string(), write_span(nanos));
        assert_eq!(span.to_string_full(), write_span_full(nanos));
        assert_eq!(span.to_string_nanos(), format!("{nanos}ns"));
    }
}

#[test]
fn frequencies_are_read_as_the_standard_library_reads_them() {
    let alphabet = ['1', '0', ' ', '\u{a0}', '/', 'H', 'z', '+', '-', 'x'];
    each_text(&alphabet, 6, &mut |text| {
        assert_eq!(Frequency::parse(text), read_frequency(text), "{text:?}");
    });
    for text in [
        "18446744073709551615/18446744073709551615 Hz",
        "18446744073709551616/1 Hz",
        "1/18446744073709551616 Hz",
        "00000000000000000000000000001/00000000000000000000000000002Hz",
    ] {
        assert_eq!(Frequency::parse(text), read_frequency(text), "{text:?}");
    }
}

#[test]
fn whitespace_is_what_the_standard_library_trims() {
    for code in 0..=0x10ffffu32 {
        if let Some(c) = char::from_u32(code) {
            let text = format!("{c}5{c}Hz");
            assert_eq!(Frequency::parse(&text), read_frequency(&text), "{code:#x}");
            if !c.is_ascii_digit() {
                assert_eq!(Frequency::parse(&text).is_ok(), c.is_whitespace(), "{code:#x}");
            }
        }
    }
}

#[test]
fn frequencies_are_written_as_the_standard_library_writes_them() {
    let mut random = Lcg(0xf00d);
    for _ in 0..100_000 {
        let count = random.next() >> (random.next() % 53);
        let cycle = 1 + (random.next() >> (random.next() % 53));
        let f = Frequency::try_from_ratio(count, cycle).unwrap();
        assert_eq!(f.to_string(), format!("{}/{} Hz", f.count(), f.cycle()));
        assert_eq!(Frequency::parse(&f.to_string()), Ok(f));
    }
}
