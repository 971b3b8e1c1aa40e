use gametime::{ClockRate, ClockStep, Frequency, NonZeroTimeSpan, TimeSpan, TimeStamp};

fn at(nanos: u64) -> TimeStamp {
    TimeStamp::from_elapsed(nanos).unwrap()
}

#[test]
fn new_clock_runs_at_rate_one() {
    let mut clock = ClockRate::new();
    assert_eq!(clock.now(), TimeStamp::start());
    assert_eq!(clock.rate_ratio(), (1, 1));
    for (nanos, total) in [(5i64, 5u64), (5, 10), (0, 10), (1, 11), (1_000_000, 1_000_011)] {
        let step = clock.step(TimeSpan::new(nanos));
        assert_eq!(step, ClockStep { now: at(total), step: TimeSpan::new(nanos) });
        assert_eq!(clock.now(), at(total));
    }
    let clock = ClockRate::default();
    assert_eq!((clock.now(), clock.rate_ratio()), (TimeStamp::start(), (1, 1)));
}

#[test]
fn slow_clock_carries_fractions() {
    let mut clock = ClockRate::new().with_rate_ratio(1, 3);
    let mut steps = Vec::new();
    for _ in 0..9 {
        steps.push(clock.step(TimeSpan::nanosecond()).step.as_nanos());
    }
    assert_eq!(steps, vec![0, 0, 1, 0, 0, 1, 0, 0, 1]);
    assert_eq!(clock.now(), at(3));
}

#[test]
fn scaled_steps_round_down_without_drift() {
    let mut clock = ClockRate::new().with_rate_ratio(2, 3);
    assert_eq!(clock.step(TimeSpan::new(100)).step, TimeSpan::new(66));
    assert_eq!(clock.step(TimeSpan::new(1)).step, TimeSpan::new(1));
    assert_eq!(clock.step(TimeSpan::new(1)).step, TimeSpan::new(1));
    assert_eq!(clock.step(TimeSpan::new(1)).step, TimeSpan::new(0));
    assert_eq!(clock.now(), at(68));

    let mut fine = ClockRate::new().with_rate_ratio(7, 13);
    let mut coarse = ClockRate::new().with_rate_ratio(7, 13);
    for _ in 0..1_000 {
        fine.step(TimeSpan::new(17));
    }
    assert_eq!(coarse.step(TimeSpan::new(17_000)).step, TimeSpan::new(17_000 * 7 / 13));
    assert_eq!(fine.now(), coarse.now());
    assert_eq!(fine.step(TimeSpan::new(5)), coarse.step(TimeSpan::new(5)));
}

#[test]
fn paused_clock_stands_still() {
    let mut clock = ClockRate::new().with_now(at(42)).with_rate_ratio(3, 2);
    clock.step(TimeSpan::new(1));
    let now = clock.now();
    clock.pause();
    assert_eq!(clock.rate_ratio(), (0, 2));
    for nanos in [0i64, 1, 1_000_000_000, i64::MAX] {
        assert_eq!(clock.step(TimeSpan::new(nanos)), ClockStep { now, step: TimeSpan::zero() });
    }
    assert_eq!(clock.now(), now);
    clock.set_rate_ratio(3, 2);
    assert_eq!(clock.step(TimeSpan::new(1)).step, TimeSpan::new(2));
}

#[test]
fn reset_and_set_now() {
    let mut clock = ClockRate::new().with_rate_ratio(1, 2);
    clock.step(TimeSpan::new(3));
    assert_eq!(clock.now(), at(1));
    clock.set_now(at(100));
    assert_eq!(clock.now(), at(100));
    assert_eq!(clock.step(TimeSpan::new(1)).now, at(101));
    clock.step(TimeSpan::new(1));
    clock.reset();
    assert_eq!(clock.now(), TimeStamp::start());
    assert_eq!(clock.rate_ratio(), (1, 2));
    assert_eq!(clock.step(TimeSpan::new(1)).step, TimeSpan::zero());
    assert_eq!(clock.step(TimeSpan::new(1)).step, TimeSpan::nanosecond());
}

#[test]
fn ticker_of_a_clock_runs_at_the_scaled_frequency() {
    let three_per_ten = Frequency::new(3, NonZeroTimeSpan::from_nanos(10).unwrap());
    let clock = ClockRate::new().with_now(at(50)).with_rate_ratio(2, 3);
    let mut ticker = clock.ticker(three_per_ten);
    assert_eq!(ticker.frequency(), Frequency::new(1, NonZeroTimeSpan::from_nanos(5).unwrap()));
    assert_eq!(ticker.now(), at(50));
    assert_eq!(ticker.next_tick(), Some(at(55)));
    assert_eq!(ticker.tick_count(TimeSpan::new(50)), 10);

    let unreduced = ClockRate::new().with_rate_ratio(4, 6);
    assert_eq!(unreduced.ticker(three_per_ten).frequency(), ticker.frequency());

    let paused = ClockRate::new().with_rate_ratio(0, 7);
    assert_eq!(paused.ticker(three_per_ten).frequency(), Frequency::from_hz(0));
}
