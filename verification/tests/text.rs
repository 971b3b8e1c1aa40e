use gametime::{
    Clock, ClockStep, Frequency, FrequencyParseErr, IntParseErrorKind, NonZeroTimeSpan, TimeSpan,
    TimeSpanParseErr, TimeStamp,
};

#[test]
fn frequency_text_names_count_and_cycle() {
    let f = Frequency::new(3, NonZeroTimeSpan::from_nanos(10).unwrap());
    assert_eq!(f.to_string(), "3/10 Hz");
    assert_eq!(Frequency::from_hz(60).to_string(), "3/50000000 Hz");
    assert_eq!(Frequency::from_hz(0).to_string(), "0/1 Hz");
    assert_eq!(
        Frequency::try_from_ratio(u64::MAX, u64::MAX - 1).unwrap().to_string(),
        "18446744073709551615/18446744073709551614 Hz"
    );
}

#[test]
fn frequency_text_is_read_back() {
    for (count, cycle) in [(3u64, 10u64), (0, 1), (1, 1), (7, 1_000_000_000), (u64::MAX, 1)] {
        let f = Frequency::try_from_ratio(count, cycle).unwrap();
        assert_eq!(Frequency::parse(&f.to_string()), Ok(f));
    }
}

#[test]
fn frequency_text_is_read_in_both_forms() {
    let ratio = |count, cycle| Ok(Frequency::try_from_ratio(count, cycle).unwrap());
    assert_eq!(Frequency::parse("3/10 Hz"), ratio(3, 10));
    assert_eq!(Frequency::parse("6/20Hz"), ratio(3, 10));
    assert_eq!(Frequency::parse(" 3 / 10 Hz"), ratio(3, 10));
    assert_eq!(Frequency::parse("+3/+10Hz"), ratio(3, 10));
    assert_eq!(Frequency::parse("\u{a0}3\u{2003}/\u{3000}10\u{85}Hz"), ratio(3, 10));
    assert_eq!(Frequency::parse("5 Hz"), ratio(5, 1));
    assert_eq!(Frequency::parse("5Hz"), ratio(5, 1));
    assert_eq!(Frequency::parse("0Hz"), ratio(0, 1));
    assert_eq!(Frequency::parse("18446744073709551615Hz"), ratio(u64::MAX, 1));
}

#[test]
fn frequency_errors_are_reported() {
    let number = |kind| Err(FrequencyParseErr::IntParseError { kind });
    assert_eq!(Frequency::parse(""), Err(FrequencyParseErr::WrongFormat));
    assert_eq!(Frequency::parse("5"), Err(FrequencyParseErr::WrongFormat));
    assert_eq!(Frequency::parse("5 Hz "), Err(FrequencyParseErr::WrongFormat));
    assert_eq!(Frequency::parse("5 hz"), Err(FrequencyParseErr::WrongFormat));
    assert_eq!(Frequency::parse("z"), Err(FrequencyParseErr::WrongFormat));
    assert_eq!(Frequency::parse("3/10"), Err(FrequencyParseErr::WrongFormat));
    assert_eq!(Frequency::parse("3/H"), Err(FrequencyParseErr::WrongFormat));
    assert_eq!(Frequency::parse("x/10"), number(IntParseErrorKind::InvalidDigit));
    assert_eq!(Frequency::parse("Hz"), number(IntParseErrorKind::Empty));
    assert_eq!(Frequency::parse(" Hz"), number(IntParseErrorKind::Empty));
    assert_eq!(Frequency::parse("/10 Hz"), number(IntParseErrorKind::Empty));
    assert_eq!(Frequency::parse("3/ Hz"), number(IntParseErrorKind::Empty));
    assert_eq!(Frequency::parse("3/0 Hz"), number(IntParseErrorKind::Zero));
    assert_eq!(Frequency::parse("3/+0 Hz"), number(IntParseErrorKind::Zero));
    assert_eq!(Frequency::parse("-3/10 Hz"), number(IntParseErrorKind::InvalidDigit));
    assert_eq!(Frequency::parse("+/10 Hz"), number(IntParseErrorKind::InvalidDigit));
    assert_eq!(Frequency::parse("-Hz"), number(IntParseErrorKind::InvalidDigit));
    assert_eq!(Frequency::parse("3 3/10 Hz"), number(IntParseErrorKind::InvalidDigit));
    assert_eq!(Frequency::parse("3/1/0 Hz"), number(IntParseErrorKind::InvalidDigit));
    assert_eq!(Frequency::parse("3/\u{e9} Hz"), number(IntParseErrorKind::InvalidDigit));
    assert_eq!(
        Frequency::parse("18446744073709551616 Hz"),
        number(IntParseErrorKind::PosOverflow)
    );
    assert_eq!(
        Frequency::parse("3/99999999999999999999 Hz"),
        number(IntParseErrorKind::PosOverflow)
    );
}

#[test]
fn errors_say_what_is_wrong() {
    assert_eq!(
        TimeSpanParseErr::NonASCII.to_string(),
        "Time spans encoded in strings are always ASCII"
    );
    assert_eq!(
        TimeSpanParseErr::StringTooLarge { len: 49 }.to_string(),
        "Valid time span string may never exceed 48 bytes. String is 49"
    );
    assert_eq!(
        TimeSpanParseErr::IntParseError { kind: IntParseErrorKind::Empty }.to_string(),
        "Failed to parse integer"
    );
    assert_eq!(
        TimeSpanParseErr::UnexpectedDelimiter { delim: 'x', pos: 12 }.to_string(),
        "Unexpected delimiter 'x' at 12"
    );
    assert_eq!(
        TimeSpanParseErr::UnexpectedDelimiter { delim: '\u{e9}', pos: 0 }.to_string(),
        "Unexpected delimiter '\u{e9}' at 0"
    );
    assert_eq!(TimeSpanParseErr::UnexpectedEndOfString.to_string(), "Unexpected end of string");
    assert_eq!(
        TimeSpanParseErr::UnexpectedSuffix.to_string(),
        "Unexpected suffix. Only `s`, `ms` and `us` suffixes are supported"
    );
    assert_eq!(
        TimeSpanParseErr::HoursOutOfBound { hours: 24 }.to_string(),
        "Hours must be in range 0-23 when days are specified. Value at hours position is '24'"
    );
    assert_eq!(
        TimeSpanParseErr::MinutesOutOfBound { minutes: 60 }.to_string(),
        "Minutes must be in range 0-59 when hours are specified. Value at minutes position is '60'"
    );
    assert_eq!(
        TimeSpanParseErr::SecondsOutOfBound { seconds: -61 }.to_string(),
        "Seconds must be in range 0-59 when minutes are specified. Value at seconds position is '-61'"
    );
    assert_eq!(
        TimeSpan::parse("1:2:3x").unwrap_err().to_string(),
        "Unexpected delimiter 'x' at 5"
    );
    assert_eq!(FrequencyParseErr::WrongFormat.to_string(), "Wrong frequency format");
    let number = |kind| FrequencyParseErr::IntParseError { kind }.to_string();
    assert_eq!(number(IntParseErrorKind::Empty), "cannot parse integer from empty string");
    assert_eq!(number(IntParseErrorKind::InvalidDigit), "invalid digit found in string");
    assert_eq!(number(IntParseErrorKind::PosOverflow), "number too large to fit in target type");
    assert_eq!(number(IntParseErrorKind::Zero), "number would be zero for non-zero type");
    assert_eq!(IntParseErrorKind::Zero.to_string(), "number would be zero for non-zero type");
}

#[test]
fn text_fits_the_display_buffer() {
    for nanos in [0i64, 7, -7, 1_500, 61_000_000_000, i64::MAX, i64::MIN, -86_399_999_999_999] {
        let span = TimeSpan::new(nanos);
        let mut buf = [0xaau8; 26];
        let len = span.display_to_buffer(&mut buf);
        let text = span.to_string();
        assert_eq!(len, text.len());
        assert!(0 < len && len <= gametime::display::MAX_DISPLAY_LENGTH);
        assert_eq!(&buf[..len], text.as_bytes());
        assert!(buf[len..].iter().all(|b| *b == 0xaa));
    }
    let mut buf = [0u8; 26];
    let len = TimeSpan::new(i64::MIN + 1).display_to_buffer(&mut buf);
    assert_eq!(&buf[..len], b"-106751d23:47:16.854775807");
}

#[test]
fn clock_turns_observations_into_steps() {
    let at = |nanos: u64| TimeStamp::from_elapsed(nanos).unwrap();
    let mut clock = Clock::new();
    assert_eq!(clock.now(), TimeStamp::start());
    assert_eq!(clock.step(0), ClockStep { now: at(0), step: TimeSpan::zero() });
    assert_eq!(clock.step(1_500), ClockStep { now: at(1_500), step: TimeSpan::new(1_500) });
    assert_eq!(clock.step(1_500), ClockStep { now: at(1_500), step: TimeSpan::zero() });
    assert_eq!(clock.step(4_000), ClockStep { now: at(4_000), step: TimeSpan::new(2_500) });
    assert_eq!(clock.now(), at(4_000));
    let mut ticker = clock.ticker(Frequency::from_mhz(1));
    assert_eq!(ticker.next_tick(), Some(at(5_000)));
    assert_eq!(ticker.tick_count(TimeSpan::new(2_000)), 2);

    let mut late = Clock::starting_at(at(10));
    assert_eq!(late.now(), at(10));
    assert_eq!(late.step(4), ClockStep { now: at(4), step: TimeSpan::new(-6) });
    assert_eq!(late.step(i64::MAX as u128 - 1).now, TimeStamp::never());
    assert_eq!(Clock::default().now(), TimeStamp::start());
}
