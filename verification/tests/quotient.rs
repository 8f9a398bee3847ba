use std::time::Duration;
use streams::engine::Pacer;
use streams::quotient::Positive;
use streams::rates::{Counters, LogMsg, LogStats, Rate};

/// A double by its significand and exponent.
fn value(double: &Positive) -> f64 {
    double.significand as f64 * 2f64.powi(double.exponent as i32 - 1074)
}

/// Numbers of many sizes, the same in every run.
fn numbers(count: usize) -> Vec<u64> {
    let mut x: u64 = 0x2545_F491_4F6C_DD1D;
    let mut list = vec![1, 2, 3, 999_999_999, 1_000_000_000, 1_000_000_001, u64::MAX - 1, u64::MAX];
    while list.len() < count {
        x ^= x << 13;
        x ^= x >> 7;
        x ^= x << 17;
        list.push((x >> (x % 61)).max(1));
    }
    list
}

#[test]
fn durations_come_to_seconds() {
    for n in numbers(3000) {
        assert_eq!(value(&Positive::seconds(n)), Duration::from_nanos(n).as_secs_f64(), "{n}");
        assert_eq!(value(&Positive::whole(n)), n as f64, "{n}");
    }
}

#[test]
fn quotients_are_those_of_doubles() {
    let list = numbers(3000);
    for pair in list.windows(2) {
        let a = Positive::whole(pair[0]);
        let b = Positive::seconds(pair[1]);
        let ratio = a.over(&b);
        let expected = pair[0] as f64 / Duration::from_nanos(pair[1]).as_secs_f64();
        assert_eq!(value(&ratio), expected, "{pair:?}");
        assert_eq!(ratio.floor(), expected as u64, "{pair:?}");
        assert_eq!(ratio.sixtyfold().floor(), (expected * 60.0) as u64, "{pair:?}");
        assert_eq!(ratio.ceiling(), expected.ceil() as u32, "{pair:?}");
        assert_eq!(ratio.nearest().to_string(), format!("{expected:.0}"), "{pair:?}");
    }
}

#[test]
fn halves_go_to_the_even_number() {
    for (points, nanos) in [(1, 2), (3, 2), (5, 2), (7, 2), (1, 4), (3, 4)] {
        let ratio = Positive::whole(points).over(&Positive::seconds(nanos * 1_000_000_000));
        assert_eq!(ratio.nearest().to_string(), format!("{:.0}", points as f64 / nanos as f64));
    }
}

#[test]
fn rates_are_divided_as_doubles() {
    // 4.9 seconds are a little more as a double, so that thirty points a second are just missed.
    assert_eq!(Rate { points: 147, nanos: 4_900_000_000 }.per_second(), 29);
    assert_eq!(Rate { points: 209, nanos: 1_100_000_000 }.per_second(), 189);
    for pair in numbers(2000).windows(2) {
        let rate = Rate { points: pair[0], nanos: pair[1] };
        let expected = pair[0] as f64 / Duration::from_nanos(pair[1]).as_secs_f64();
        assert_eq!(rate.per_second(), expected as u64);
        assert_eq!(rate.per_minute(), (expected * 60.0) as u64);
        let mut stats = LogStats { last_sent: 0, last_time: 0 };
        let counters = Counters { sent: pair[0], enqueued: 0, failed: 0 };
        let (line, _) = stats.log_step(LogMsg::Timeout, "rc", 1, &counters, pair[1]);
        assert_eq!(line.args[5].1, format!("{expected:.0}"));
    }
}

#[test]
fn missed_ticks_are_counted_as_doubles() {
    for (gap, interval) in [
        (3_000_000_000, 1_000_000_000),
        (300_000_001, 100_000_000),
        (1_234_567_891, 16_666_667),
        (999, 1000),
        (700_000_000, 100_000_000),
        (2_100_000_000, 300_000_000),
        (u64::from(u32::MAX) * 1000, 1),
    ] {
        let mut pacer = Pacer::new(interval, 50);
        let seconds = |n| Duration::from_nanos(n).as_secs_f64();
        let expected = (seconds(gap) / seconds(interval)).ceil() as u32;
        assert_eq!(pacer.advance(50 + interval + gap), expected, "{gap} {interval}");
        assert_eq!(pacer.next, 50 + interval + u64::from(expected) * interval);
    }
}
