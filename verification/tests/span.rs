use gametime::{
    IntParseErrorKind, NonZeroTimeSpan, TimeSpan, TimeSpanNumExt, TimeSpanParseErr, TimeStamp,
};

fn test_spans() -> [TimeSpan; 7] {
    [
        // 1 day
        TimeSpan::day(),
        // 2 hours, 3 minutes, 1 second
        TimeSpan::new(
            2 * TimeSpan::hour().as_nanos()
                + 3 * TimeSpan::minute().as_nanos()
                + 1 * TimeSpan::second().as_nanos(),
        ),
        // 3 hours
        TimeSpan::new(3 * TimeSpan::hour().as_nanos()),
        // 2 minutes, 3 seconds
        TimeSpan::new(2 * TimeSpan::minute().as_nanos() + 3 * TimeSpan::second().as_nanos()),
        // 3 minutes
        TimeSpan::new(3 * TimeSpan::minute().as_nanos()),
        // 42 seconds
        TimeSpan::new(42 * TimeSpan::second().as_nanos()),
        // 2 years
        TimeSpan::new(2 * TimeSpan::year().as_nanos()),
    ]
}

#[test]
fn test_timespan_macro() {
    let spans = test_spans();
    assert_eq!(spans[0], TimeSpan::day());
    assert_eq!(spans[1], TimeSpan::hms(2, 3, 1));
    assert_eq!(spans[2], TimeSpan::hour() * 3);
    assert_eq!(spans[3], TimeSpan::hms(0, 2, 3));
    assert_eq!(spans[4], TimeSpan::minute() * 3);
    assert_eq!(spans[5], TimeSpan::second() * 42);
}

#[test]
fn test_span_print() {
    assert_eq!("1d00:00", TimeSpan::day().to_string());
    assert_eq!("1:00:00", TimeSpan::hour().to_string());
    assert_eq!("1:00", TimeSpan::minute().to_string());
    assert_eq!("1s", TimeSpan::second().to_string());

    assert_eq!(
        "1:02:11",
        (TimeSpan::hour() + 2 * TimeSpan::minute() + 11 * TimeSpan::second()).to_string()
    );

    assert_eq!(
        "2:11.011",
        (2 * TimeSpan::minute() + 11 * TimeSpan::second() + 11 * TimeSpan::millisecond())
            .to_string()
    );

    assert_eq!(
        "2:11.011",
        (2 * TimeSpan::minute() + 11 * TimeSpan::second() + 11 * TimeSpan::millisecond())
            .to_string()
    );
}

#[test]
fn test_span_parse() {
    assert_eq!("1d00:00".parse::<TimeSpan>().unwrap(), TimeSpan::day());
    assert_eq!("1:00:00".parse::<TimeSpan>().unwrap(), TimeSpan::hour());
    assert_eq!("1:00".parse::<TimeSpan>().unwrap(), TimeSpan::minute());
    assert_eq!("1s".parse::<TimeSpan>().unwrap(), TimeSpan::second());

    assert_eq!(
        "1:02:11".parse::<TimeSpan>().unwrap(),
        TimeSpan::hour() + 2 * TimeSpan::minute() + 11 * TimeSpan::second()
    );

    assert_eq!(
        "2:11.011".parse::<TimeSpan>().unwrap(),
        2 * TimeSpan::minute() + 11 * TimeSpan::second() + 11 * TimeSpan::millisecond()
    );

    assert_eq!(
        "2:11.011".parse::<TimeSpan>().unwrap(),
        2 * TimeSpan::minute() + 11 * TimeSpan::second() + 11 * TimeSpan::millisecond()
    );
}

#[test]
fn named_spans_hold_their_nanoseconds() {
    assert_eq!(TimeSpan::zero().as_nanos(), 0);
    assert_eq!(TimeSpan::nanosecond().as_nanos(), 1);
    assert_eq!(TimeSpan::microsecond().as_nanos(), 1_000);
    assert_eq!(TimeSpan::millisecond().as_nanos(), 1_000_000);
    assert_eq!(TimeSpan::second().as_nanos(), 1_000_000_000);
    assert_eq!(TimeSpan::minute().as_nanos(), 60_000_000_000);
    assert_eq!(TimeSpan::hour().as_nanos(), 3_600_000_000_000);
    assert_eq!(TimeSpan::day().as_nanos(), 86_400_000_000_000);
    assert_eq!(TimeSpan::week().as_nanos(), 604_800_000_000_000);
    assert_eq!(TimeSpan::julian_year().as_nanos(), 31_557_600_000_000_000);
    assert_eq!(TimeSpan::gregorian_year().as_nanos(), 31_556_952_000_000);
    assert_eq!(TimeSpan::solar_year().as_nanos(), 31_556_925_216_000_000);
    assert_eq!(TimeSpan::year(), TimeSpan::gregorian_year());
    assert_eq!(TimeSpan::min_value().as_nanos(), -i64::MAX);
    assert_eq!(TimeSpan::max_value().as_nanos(), i64::MAX);
}

#[test]
fn whole_units_round_toward_zero() {
    let span = TimeSpan::new(-1_999_999_999);
    assert_eq!(span.as_seconds(), -1);
    assert_eq!(span.as_millis(), -1_999);
    assert_eq!(span.as_micros(), -1_999_999);
    let span = TimeSpan::dhms(15, 7, 59, 59);
    assert_eq!(span.as_weeks(), 2);
    assert_eq!(span.as_days(), 15);
    assert_eq!(span.as_hours(), 15 * 24 + 7);
    assert_eq!(span.as_minutes(), (15 * 24 + 7) * 60 + 59);
    assert_eq!(span.as_seconds(), ((15 * 24 + 7) * 60 + 59) * 60 + 59);
    assert_eq!(TimeSpan::ydhms(1, 0, 0, 0, 1).as_nanos(), 31_557_952_000_000);
}

#[test]
fn abs_and_sign() {
    assert_eq!(TimeSpan::new(-5).abs(), TimeSpan::new(5));
    assert_eq!(TimeSpan::new(5).abs(), TimeSpan::new(5));
    assert_eq!(TimeSpan::min_value().abs(), TimeSpan::max_value());
    assert!(TimeSpan::new(-1).is_negative());
    assert!(!TimeSpan::zero().is_negative());
}

#[test]
fn checked_arithmetic_reports_what_does_not_fit() {
    let max = TimeSpan::max_value();
    let one = TimeSpan::nanosecond();
    assert_eq!(max.checked_add(one), None);
    assert_eq!(max.checked_sub(one), Some(TimeSpan::new(i64::MAX - 1)));
    assert_eq!(TimeSpan::new(i64::MIN).checked_sub(one), None);
    assert_eq!(max.checked_mul(2), None);
    assert_eq!(TimeSpan::new(21).checked_mul(-2), Some(TimeSpan::new(-42)));
    assert_eq!(TimeSpan::new(7).checked_div(0), None);
    assert_eq!(TimeSpan::new(i64::MIN).checked_div(-1), None);
    assert_eq!(TimeSpan::new(-7).checked_div(2), Some(TimeSpan::new(-3)));
    assert_eq!(TimeSpan::new(7).checked_div(-2), Some(TimeSpan::new(-3)));
    assert_eq!(TimeSpan::new(-7).checked_div_span(TimeSpan::new(-2)), Some(3));
    assert_eq!(TimeSpan::new(7).checked_div_span(TimeSpan::zero()), None);
    assert_eq!(TimeSpan::new(-7).checked_rem(2), Some(TimeSpan::new(-1)));
    assert_eq!(TimeSpan::new(7).checked_rem(-2), Some(TimeSpan::new(1)));
    assert_eq!(TimeSpan::new(7).checked_rem(0), None);
    assert_eq!(TimeSpan::new(i64::MIN).checked_rem(-1), None);
    assert_eq!(TimeSpan::new(-7).checked_rem_span(TimeSpan::new(4)), Some(TimeSpan::new(-3)));
    assert_eq!(TimeSpan::new(7).checked_rem_span(TimeSpan::zero()), None);
}

#[test]
fn division_and_remainder_rebuild_the_span() {
    for a in [-17i64, -4, -1, 0, 1, 9, 17, i64::MAX, i64::MIN + 1] {
        for b in [-5i64, -1, 1, 2, 4, 1_000] {
            let span = TimeSpan::new(a);
            let by = TimeSpan::new(b);
            let q = span.div_span(by);
            let r = span.rem_span(by);
            assert_eq!(q, a / b);
            assert_eq!(r.as_nanos(), a % b);
            assert_eq!(span.rem(b), r);
            assert_eq!(span / by, q);
            assert_eq!(span % by, r);
            assert_eq!(span % b, r);
            assert_eq!((span / b).as_nanos(), a / b);
        }
    }
}

#[test]
fn operators_agree_with_the_nanoseconds() {
    let mut span = TimeSpan::new(10) + TimeSpan::new(5);
    assert_eq!(span, TimeSpan::new(15));
    span += TimeSpan::new(5);
    assert_eq!(span, TimeSpan::new(20));
    span -= TimeSpan::new(50);
    assert_eq!(span, TimeSpan::new(-30));
    span *= -3;
    assert_eq!(span, TimeSpan::new(90));
    span /= 4;
    assert_eq!(span, TimeSpan::new(22));
    span %= 5;
    assert_eq!(span, TimeSpan::new(2));
    span = TimeSpan::new(22);
    span %= TimeSpan::new(6);
    assert_eq!(span, TimeSpan::new(4));
    assert_eq!(TimeSpan::new(3) - TimeSpan::new(5), TimeSpan::new(-2));
    assert!(TimeSpan::new(3) < TimeSpan::new(5));
    assert!(TimeSpan::new(-3) < TimeSpan::zero());
}

#[test]
fn numbers_convert_to_spans() {
    assert_eq!(5i64.nanoseconds(), TimeSpan::new(5));
    assert_eq!(5i64.microseconds(), TimeSpan::new(5_000));
    assert_eq!(5i64.milliseconds(), TimeSpan::new(5_000_000));
    assert_eq!((-5i64).seconds(), TimeSpan::new(-5_000_000_000));
    assert_eq!(5i64.minutes(), TimeSpan::new(300_000_000_000));
    assert_eq!(5i64.hours(), TimeSpan::hms(5, 0, 0));
    assert_eq!(5i64.days(), TimeSpan::dhms(5, 0, 0, 0));
}

#[test]
fn durations_convert_both_ways() {
    assert_eq!(TimeSpan::from_duration(2_500_000_000), TimeSpan::new(2_500_000_000));
    assert_eq!(TimeSpan::new(2_500_000_001).into_duration(), (2, 500_000_001));
    assert_eq!(TimeSpan::zero().into_duration(), (0, 0));
    assert_eq!(TimeSpan::max_value().into_duration(), (9_223_372_036, 854_775_807));
    assert_eq!(TimeSpan::checked_from_nanos(7), Some(TimeSpan::new(7)));
    assert_eq!(TimeSpan::checked_from_nanos(i64::MAX as u64), Some(TimeSpan::max_value()));
    assert_eq!(TimeSpan::checked_from_nanos(i64::MAX as u64 + 1), None);
}

#[test]
fn non_zero_spans_are_positive() {
    assert!(NonZeroTimeSpan::new(TimeSpan::zero()).is_none());
    assert!(NonZeroTimeSpan::new(TimeSpan::new(-1)).is_none());
    assert!(NonZeroTimeSpan::from_nanos(0).is_none());
    assert!(NonZeroTimeSpan::from_nanos(i64::MAX as u64 + 1).is_none());
    let span = NonZeroTimeSpan::new(TimeSpan::second()).unwrap();
    assert_eq!(span, NonZeroTimeSpan::second());
    assert_eq!(span.get(), TimeSpan::second());
    assert_eq!(span.as_nanos(), 1_000_000_000);
    assert_eq!(NonZeroTimeSpan::nanosecond().as_nanos(), 1);
    assert_eq!(NonZeroTimeSpan::microsecond().as_nanos(), 1_000);
    assert_eq!(NonZeroTimeSpan::millisecond().as_nanos(), 1_000_000);
}

#[test]
fn text_uses_the_coarsest_units() {
    let text = |nanos: i64| TimeSpan::new(nanos).to_string();
    assert_eq!(text(0), "0");
    assert_eq!(text(7), "7ns");
    assert_eq!(text(-7), "-7ns");
    assert_eq!(text(1_500), "1.500us");
    assert_eq!(text(15_000), "15us");
    assert_eq!(text(15_000_000), "15ms");
    assert_eq!(text(15_000_001), "15.000001ms");
    assert_eq!(text(15_020_000), "15.020ms");
    assert_eq!(text(2_345_000_000), "2.345s");
    assert_eq!(text(2_000_000_001), "2.000000001s");
    assert_eq!(text(2_000_045_000), "2.000045s");
    assert_eq!(text(59_000_000_000), "59s");
    assert_eq!(text(61_000_000_000), "1:01");
    assert_eq!(text(-3_661_000_000_000), "-1:01:01");
    assert_eq!(text(3_600_000_000_001), "1:00:00.000000001");
    assert_eq!(text(86_400_000_000_000 + 1_000_000_000), "1d00:00:01");
    assert_eq!(text(86_400_000_000_000 * 12 + 3_600_000_000_000 * 23), "12d23:00");
    assert_eq!(text(i64::MAX), "106751d23:47:16.854775807");
    assert_eq!(text(i64::MIN), "-106751d23:47:16.854775808");
}

#[test]
fn full_and_plain_text() {
    let span = 2 * TimeSpan::minute() + 11 * TimeSpan::second() + 11 * TimeSpan::millisecond();
    assert_eq!(span.to_string_full(), "0d00:02:11.011000000");
    assert_eq!(TimeSpan::zero().to_string_full(), "0d00:00:00.000000000");
    assert_eq!(TimeSpan::new(-86_400_000_000_001).to_string_full(), "-1d00:00:00.000000001");
    assert_eq!(TimeSpan::new(i64::MIN).to_string_full(), "-106751d23:47:16.854775808");
    assert_eq!(TimeSpan::new(-1_500).to_string_nanos(), "-1500ns");
    assert_eq!(TimeSpan::zero().to_string_nanos(), "0ns");
    assert_eq!(TimeSpan::new(i64::MAX).to_string_nanos(), "9223372036854775807ns");
}

#[test]
fn every_layout_is_read() {
    let read = |text: &str| TimeSpan::parse(text).unwrap().as_nanos();
    assert_eq!(read("15"), 15_000_000_000);
    assert_eq!(read(" 15 "), 15_000_000_000);
    assert_eq!(read("15s"), 15_000_000_000);
    assert_eq!(read("15 s "), 15_000_000_000);
    assert_eq!(read("15s\u{b}"), 15_000_000_000);
    assert_eq!(read("15ms"), 15_000_000);
    assert_eq!(read("15us"), 15_000);
    assert_eq!(read("4.5"), 4_500_000_000);
    assert_eq!(read("4.000001"), 4_000_001_000);
    assert_eq!(read("4.0000019"), 4_000_001_000);
    assert_eq!(read("4.5 "), 4_050_000_000);
    assert_eq!(read("3:04"), 184_000_000_000);
    assert_eq!(read("3:04.5"), 184_500_000_000);
    assert_eq!(read("70:04"), 4_204_000_000_000);
    assert_eq!(read("2:03:04"), 7_384_000_000_000);
    assert_eq!(read("2:03:04.25"), 7_384_250_000_000);
    assert_eq!(read("30:03:04"), 108_184_000_000_000);
    assert_eq!(read("1d02:03"), 93_780_000_000_000);
    assert_eq!(read("1D02:03:04"), 93_784_000_000_000);
    assert_eq!(read("1t02:03:04.5"), 93_784_500_000_000);
    assert_eq!(read("1T 02 : 03 : 04 . 5"), 93_784_050_000_000);
    assert_eq!(read("2:03:04.000000000000000000009"), 7_384_000_000_000);
    assert_eq!(read("3:04.000000000000000000009"), 184_000_000_000);
    assert_eq!(read("2:03:04.0100000000000000000009"), 7_384_010_000_000);
    assert_eq!(read("9223372036"), 9_223_372_036_000_000_000);
}

#[test]
fn every_error_is_reported() {
    let err = |text: &str| TimeSpan::parse(text).unwrap_err();
    let number = |kind| TimeSpanParseErr::IntParseError { kind };
    let delimiter = |delim, pos| TimeSpanParseErr::UnexpectedDelimiter { delim, pos };
    assert_eq!(err("1\u{e9}"), TimeSpanParseErr::NonASCII);
    assert_eq!(
        err("1234567890123456789012345678901234567890123456789"),
        TimeSpanParseErr::StringTooLarge { len: 49 }
    );
    assert_eq!(err(""), number(IntParseErrorKind::Empty));
    assert_eq!(err("  "), number(IntParseErrorKind::Empty));
    assert_eq!(err("1 2"), number(IntParseErrorKind::InvalidDigit));
    assert_eq!(err("99999999999999999999"), number(IntParseErrorKind::PosOverflow));
    assert_eq!(err("99999999999999999999 9"), number(IntParseErrorKind::PosOverflow));
    assert_eq!(err("9 99999999999999999999"), number(IntParseErrorKind::InvalidDigit));
    assert_eq!(err("9223372037"), number(IntParseErrorKind::PosOverflow));
    assert_eq!(err("106752d00:00"), number(IntParseErrorKind::PosOverflow));
    assert_eq!(err("4."), number(IntParseErrorKind::Empty));
    assert_eq!(err(":04"), number(IntParseErrorKind::Empty));
    assert_eq!(err("3:04.0100000000000000000009"), number(IntParseErrorKind::PosOverflow));
    assert_eq!(err("-5s"), delimiter('-', 0));
    assert_eq!(err("+5"), delimiter('+', 0));
    assert_eq!(err("5x"), delimiter('x', 1));
    assert_eq!(err("1\u{b}2"), delimiter('\u{b}', 1));
    assert_eq!(err("4.5s"), delimiter('s', 3));
    assert_eq!(err("4.5.6"), delimiter('.', 3));
    assert_eq!(err("1:2:3:4"), delimiter(':', 5));
    assert_eq!(err("1:2.3:4"), delimiter(':', 5));
    assert_eq!(err("1:2:3.4."), delimiter('.', 7));
    assert_eq!(err("1d2.3"), delimiter('.', 3));
    assert_eq!(err("1d2:3d4"), delimiter('d', 5));
    assert_eq!(err("1d2:3:4:5"), delimiter(':', 7));
    assert_eq!(err("1d2:3:4.5d"), delimiter('d', 9));
    assert_eq!(err("1d"), TimeSpanParseErr::UnexpectedEndOfString);
    assert_eq!(err("1d 12"), TimeSpanParseErr::UnexpectedEndOfString);
    assert_eq!(err("5sec"), TimeSpanParseErr::UnexpectedSuffix);
    assert_eq!(err("5m"), TimeSpanParseErr::UnexpectedSuffix);
    assert_eq!(err("5mx"), TimeSpanParseErr::UnexpectedSuffix);
    assert_eq!(err("5u s"), TimeSpanParseErr::UnexpectedSuffix);
    assert_eq!(err("5ms1"), TimeSpanParseErr::UnexpectedSuffix);
    assert_eq!(err("1d24:00"), TimeSpanParseErr::HoursOutOfBound { hours: 24 });
    assert_eq!(err("1:60:00"), TimeSpanParseErr::MinutesOutOfBound { minutes: 60 });
    assert_eq!(err("1:60"), TimeSpanParseErr::SecondsOutOfBound { seconds: 60 });
    assert_eq!(err("1:x:60"), delimiter('x', 2));
    assert_eq!(err("1: :60"), TimeSpanParseErr::SecondsOutOfBound { seconds: 60 });
    assert_eq!(err("1: :59"), number(IntParseErrorKind::Empty));
}

#[test]
fn parsing_bytes_and_text_agree() {
    assert_eq!(gametime::parse::parse_bytes(b"1:02:11"), TimeSpan::parse("1:02:11"));
    assert_eq!(gametime::parse::parse_bytes(&[0x31, 0xff]), Err(TimeSpanParseErr::NonASCII));
}

#[test]
fn stamps_are_offsets_from_the_start() {
    let start = TimeStamp::start();
    assert_eq!(start.nanos_since_start(), 0);
    assert_eq!(TimeStamp::never().nanos_since_start(), i64::MAX as u64 - 1);
    assert_eq!(TimeStamp::from_elapsed(5).unwrap().nanos_since_start(), 5);
    assert_eq!(TimeStamp::from_elapsed(i64::MAX as u64 - 1), Some(TimeStamp::never()));
    assert_eq!(TimeStamp::from_elapsed(i64::MAX as u64), None);
    assert_eq!(TimeStamp::from_elapsed_unchecked(9), TimeStamp::from_elapsed(9).unwrap());
    assert_eq!(TimeStamp::from_duration(9), TimeStamp::from_elapsed(9));
    assert_eq!(TimeStamp::from_duration(u128::MAX), None);
    assert_eq!(TimeStamp::from_observed_duration(9), TimeStamp::from_elapsed(9).unwrap());
    assert!(start < TimeStamp::never());
}

#[test]
fn stamps_and_spans_add_up() {
    let at = |nanos: u64| TimeStamp::from_elapsed(nanos).unwrap();
    assert_eq!(at(5).add_span(TimeSpan::new(7)), Some(at(12)));
    assert_eq!(at(5).add_span(TimeSpan::new(-5)), Some(at(0)));
    assert_eq!(at(5).add_span(TimeSpan::new(-6)), None);
    assert_eq!(at(5).add_span(TimeSpan::max_value()), None);
    assert_eq!(TimeStamp::never().add_span(TimeSpan::nanosecond()), None);
    assert_eq!(at(5).sub_span(TimeSpan::new(5)), Some(at(0)));
    assert_eq!(at(5).sub_span(TimeSpan::new(6)), None);
    assert_eq!(at(5).sub_span(TimeSpan::new(-6)), Some(at(11)));
    assert_eq!(at(5).sub_span(TimeSpan::new(i64::MIN)), None);
    assert_eq!(at(5).elapsed_since(at(7)), TimeSpan::new(-2));
    assert_eq!(at(5).checked_elapsed_since(at(2)), Some(TimeSpan::new(3)));
    assert_eq!(TimeStamp::never().elapsed_since_start(), TimeSpan::new(i64::MAX - 1));
    assert_eq!(TimeStamp::start() - TimeStamp::never(), TimeSpan::new(1 - i64::MAX));
    assert_eq!(at(5) + TimeSpan::new(7), at(12));
    assert_eq!(at(5) - TimeSpan::new(3), at(2));
    let mut stamp = at(5);
    stamp += TimeSpan::new(10);
    stamp -= TimeSpan::new(1);
    assert_eq!(stamp, at(14));
}
