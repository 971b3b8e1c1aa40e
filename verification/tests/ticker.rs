use gametime::{
    ClockStep, Frequency, FrequencyNumExt, FrequencyTicker, NonZeroTimeSpan, TimeSpan, TimeStamp,
};

fn three_per_ten() -> Frequency {
    Frequency::new(3, NonZeroTimeSpan::from_nanos(10).unwrap())
}

#[test]
fn test_freq_ticker() {
    let mut ticker = FrequencyTicker::new(three_per_ten(), TimeStamp::start());

    assert_eq!(ticker.tick_count(TimeSpan::nanosecond() * 10), 3);

    let ticks = [0, 0, 0, 1, 0, 0, 1, 0, 0, 1];

    for _ in 0..10 {
        for tick in ticks {
            assert_eq!(ticker.tick_count(TimeSpan::nanosecond()), tick);
        }
    }
}

#[test]
fn test_freq_ticker_delay() {
    const DELAY: u64 = 12;

    let mut ticker = FrequencyTicker::with_delay(three_per_ten(), DELAY, TimeStamp::start());

    assert_eq!(0, ticker.tick_count(TimeSpan::nanosecond() * 40));

    let ticks = [0, 0, 0, 1, 0, 0, 1, 0, 0, 1];

    for _ in 0..10 {
        for tick in ticks {
            assert_eq!(ticker.tick_count(TimeSpan::nanosecond()), tick);
        }
    }
}

#[test]
fn test_freq_ticker_next_tick() {
    let mut ticker = FrequencyTicker::new(three_per_ten(), TimeStamp::start());

    let ticks = [0, 0, 0, 1, 0, 0, 1, 0, 0, 1];

    let mut next_tick = ticker.next_tick().unwrap();

    for _ in 0..100 {
        for tick in ticks {
            assert_eq!(ticker.tick_count(TimeSpan::nanosecond()), tick);

            if tick > 0 {
                assert_eq!(next_tick, ticker.now());
                next_tick = ticker.next_tick().unwrap();
            } else {
                assert_eq!(next_tick, ticker.next_tick().unwrap());
            }
        }
    }
}

#[test]
fn test_hz() {
    let mut freq = Frequency::from_hz(3).ticker(TimeStamp::start());

    let ticks = freq.ticks(TimeSpan::second()).to_vec();
    assert_eq!(
        ticks,
        vec![
            ClockStep {
                now: TimeStamp::start() + TimeSpan::new(333_333_334),
                step: TimeSpan::new(333_333_334),
            },
            ClockStep {
                now: TimeStamp::start() + TimeSpan::new(666_666_667),
                step: TimeSpan::new(333_333_333),
            },
            ClockStep {
                now: TimeStamp::start() + TimeSpan::new(1_000_000_000),
                step: TimeSpan::new(333_333_333),
            },
        ]
    );
}

#[test]
fn frequency_is_reduced() {
    let f = Frequency::new(6, NonZeroTimeSpan::from_nanos(4).unwrap());
    assert_eq!((f.count(), f.cycle()), (3, 2));
    let f = Frequency::new(0, NonZeroTimeSpan::from_nanos(250).unwrap());
    assert_eq!((f.count(), f.cycle()), (0, 1));
    let f = Frequency::from_hz(60);
    assert_eq!((f.count(), f.cycle()), (3, 50_000_000));
    assert_eq!(gametime::gcd(f.count(), f.cycle()), 1);
    let f = Frequency::from_khz(1);
    assert_eq!((f.count(), f.cycle()), (1, 1_000_000));
    let f = Frequency::from_mhz(7);
    assert_eq!((f.count(), f.cycle()), (7, 1_000));
    let f = Frequency::from_ghz(5);
    assert_eq!((f.count(), f.cycle()), (5, 1));
}

#[test]
fn equal_ratios_are_one_frequency() {
    let a = Frequency::new(2, NonZeroTimeSpan::from_nanos(4).unwrap());
    let b = Frequency::new(50, NonZeroTimeSpan::from_nanos(100).unwrap());
    assert_eq!(a, b);
    assert_eq!(3u64.hz(), Frequency::from_hz(3));
    assert_eq!(3u64.khz(), Frequency::from_khz(3));
    assert_eq!(3u64.mhz(), Frequency::from_mhz(3));
    assert_eq!(3u64.ghz(), Frequency::from_ghz(3));
}

#[test]
fn try_new_rejects_cycles_that_are_not_positive() {
    assert!(Frequency::try_new(3, TimeSpan::zero()).is_none());
    assert!(Frequency::try_new(3, TimeSpan::new(-10)).is_none());
    let f = Frequency::try_new(3, TimeSpan::new(9)).unwrap();
    assert_eq!((f.count(), f.cycle()), (1, 3));
}

#[test]
fn periods_in_span_rounds_down() {
    let f = three_per_ten();
    assert_eq!(f.periods_in_span(TimeSpan::new(0)), 0);
    assert_eq!(f.periods_in_span(TimeSpan::new(3)), 0);
    assert_eq!(f.periods_in_span(TimeSpan::new(4)), 1);
    assert_eq!(f.periods_in_span(TimeSpan::new(10)), 3);
    assert_eq!(f.periods_in_span(TimeSpan::new(1_000_001)), 300_000);
}

#[test]
fn tick_count_equals_number_of_ticks_taken() {
    let spans = [0i64, 1, 3, 4, 7, 10, 33, 1000, 12_345];
    for first in spans {
        for second in spans {
            let mut counted = FrequencyTicker::new(three_per_ten(), TimeStamp::start());
            let mut walked = FrequencyTicker::new(three_per_ten(), TimeStamp::start());
            counted.tick_count(TimeSpan::new(first));
            walked.tick_count(TimeSpan::new(first));
            let count = counted.tick_count(TimeSpan::new(second));
            let mut iter = walked.ticks(TimeSpan::new(second));
            assert_eq!(iter.ticks(), count);
            let mut taken = 0;
            while let Some(_) = iter.next() {
                taken += 1;
                assert_eq!(iter.ticks(), count - taken);
            }
            assert_eq!(taken, count);
            assert!(iter.next().is_none());
            assert_eq!(counted.now(), walked.now());
            assert_eq!(counted.next_tick(), walked.next_tick());
        }
    }
}

#[test]
fn steps_in_parts_equal_one_step() {
    let spans = [0i64, 1, 2, 3, 4, 9, 10, 11, 47, 1_000_003];
    for delay in [0u64, 1, 5] {
        for first in spans {
            for second in spans {
                let mut parts =
                    FrequencyTicker::with_delay(three_per_ten(), delay, TimeStamp::start());
                let mut whole =
                    FrequencyTicker::with_delay(three_per_ten(), delay, TimeStamp::start());
                let in_parts = parts.tick_count(TimeSpan::new(first))
                    + parts.tick_count(TimeSpan::new(second));
                let at_once = whole.tick_count(TimeSpan::new(first + second));
                assert_eq!(in_parts, at_once);
                assert_eq!(parts.now(), whole.now());
                assert_eq!(parts.next_tick(), whole.next_tick());
                assert_eq!(parts.tick_count(TimeSpan::new(7)), whole.tick_count(TimeSpan::new(7)));
            }
        }
    }
}

#[test]
fn ticks_within_one_nanosecond_share_its_stamp() {
    // 5 ticks every 2 ns: ticks fall at 0.4, 0.8, 1.2, 1.6 and 2.0 ns.
    let f = Frequency::new(5, NonZeroTimeSpan::from_nanos(2).unwrap());
    let mut ticker = FrequencyTicker::new(f, TimeStamp::start());
    let ticks = ticker.ticks(TimeSpan::new(2)).to_vec();
    let at = |nanos: u64| TimeStamp::from_elapsed(nanos).unwrap();
    assert_eq!(
        ticks,
        vec![
            ClockStep { now: at(1), step: TimeSpan::new(1) },
            ClockStep { now: at(1), step: TimeSpan::zero() },
            ClockStep { now: at(2), step: TimeSpan::new(1) },
            ClockStep { now: at(2), step: TimeSpan::zero() },
            ClockStep { now: at(2), step: TimeSpan::zero() },
        ]
    );
    assert_eq!(ticker.now(), at(2));
    assert_eq!(ticker.next_tick(), Some(at(3)));
}

#[test]
fn zero_count_never_ticks() {
    let f = Frequency::from_hz(0);
    let mut ticker = f.ticker(TimeStamp::start());
    assert_eq!(ticker.next_tick(), None);
    for nanos in [0i64, 1, 1_000_000_000, i64::MAX - 1] {
        let mut fresh = f.ticker(TimeStamp::start());
        assert_eq!(fresh.tick_count(TimeSpan::new(nanos)), 0);
        assert_eq!(fresh.next_tick(), None);
    }
    assert!(ticker.ticks(TimeSpan::day()).to_vec().is_empty());
    assert_eq!(ticker.now(), TimeStamp::start() + TimeSpan::day());
}

#[test]
fn next_tick_names_the_first_tick_of_the_next_step() {
    let mut ticker = FrequencyTicker::new(Frequency::from_hz(3), TimeStamp::start());
    for step in [1i64, 333_333_333, 5, 1_000_000_000, 17, 250_000_000] {
        let named = ticker.next_tick().unwrap();
        let ticks = ticker.ticks(TimeSpan::new(step)).to_vec();
        match ticks.first() {
            Some(first) => assert_eq!(first.now, named),
            None => assert_eq!(ticker.next_tick(), Some(named)),
        }
    }
}

#[test]
fn whole_cycles_repeat() {
    let f = Frequency::new(7, NonZeroTimeSpan::from_nanos(30).unwrap());
    let mut ticker = FrequencyTicker::new(f, TimeStamp::start());
    ticker.tick_count(TimeSpan::new(11));
    let mut pattern = Vec::new();
    for _ in 0..30 {
        pattern.push(ticker.tick_count(TimeSpan::nanosecond()));
    }
    assert_eq!(pattern.iter().sum::<u64>(), 7);
    for _ in 0..20 {
        for expected in &pattern {
            assert_eq!(ticker.tick_count(TimeSpan::nanosecond()), *expected);
        }
    }
}

#[test]
fn set_frequency_keeps_or_clips_the_wait() {
    let slow = Frequency::new(1, NonZeroTimeSpan::from_nanos(100).unwrap());
    let fast = Frequency::new(1, NonZeroTimeSpan::from_nanos(10).unwrap());
    let mut kept = FrequencyTicker::new(slow, TimeStamp::start());
    kept.set_frequency(fast, false);
    assert_eq!(kept.frequency(), fast);
    assert_eq!(kept.next_tick(), TimeStamp::from_elapsed(100));
    assert_eq!(kept.tick_count(TimeSpan::new(100)), 1);
    assert_eq!(kept.tick_count(TimeSpan::new(10)), 1);

    let mut clipped = FrequencyTicker::new(slow, TimeStamp::start());
    clipped.set_frequency(fast, true);
    assert_eq!(clipped.next_tick(), TimeStamp::from_elapsed(10));
    assert_eq!(clipped.tick_count(TimeSpan::new(100)), 10);

    let mut shorter = FrequencyTicker::new(fast, TimeStamp::start());
    shorter.set_frequency(slow, true);
    assert_eq!(shorter.next_tick(), TimeStamp::from_elapsed(10));
}

#[test]
fn with_ticks_calls_back_for_each_tick() {
    let mut ticker = FrequencyTicker::new(three_per_ten(), TimeStamp::start());
    let mut seen = Vec::new();
    ticker.with_ticks(TimeSpan::new(10), |tick| seen.push(tick.now.nanos_since_start()));
    assert_eq!(seen, vec![4, 7, 10]);
}

#[test]
fn ticks_are_reported_in_order_within_the_step() {
    for (count, cycle, step) in [(3u64, 10u64, 40i64), (7, 3, 25), (1, 1_000, 12_345), (64, 7, 9)] {
        let f = Frequency::try_from_ratio(count, cycle).unwrap();
        let mut ticker = FrequencyTicker::new(f, TimeStamp::start());
        ticker.tick_count(TimeSpan::new(5));
        let start = ticker.now();
        let ticks = ticker.ticks(TimeSpan::new(step)).to_vec();
        let mut last = start;
        for tick in &ticks {
            assert!(start < tick.now && tick.now <= start + TimeSpan::new(step));
            assert_eq!(tick.now - last, tick.step);
            assert!(!tick.step.is_negative());
            last = tick.now;
        }
    }
}

#[test]
fn a_fresh_ticker_counts_whole_periods() {
    for (count, cycle) in [(3u64, 10u64), (7, 3), (1, 1_000), (1_000, 1)] {
        let f = Frequency::try_from_ratio(count, cycle).unwrap();
        for step in [0i64, 1, 9, 10, 11, 999, 1_000, 1_001, 123_456] {
            let mut ticker = f.ticker(TimeStamp::start());
            let expected = step as u64 * f.count() / f.cycle();
            assert_eq!(ticker.tick_count(TimeSpan::new(step)), expected);
            assert_eq!(f.periods_in_span(TimeSpan::new(step)), expected);
        }
    }
}
