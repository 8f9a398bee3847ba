use std::collections::VecDeque;
use streams::rates::{
    sample, window_rate, Counters, LogMsg, LogStats, Rate, LOG_STATS_INTERVAL,
};

const SECOND: u64 = 1_000_000_000;

fn pair(a: &str, b: &str) -> (String, String) {
    (a.to_string(), b.to_string())
}

#[test]
fn old_samples_are_forgotten() {
    let mut samples = VecDeque::new();
    for t in 0..100u64 {
        sample(&mut samples, t * SECOND, t * 10);
    }
    assert_eq!(samples.front(), Some(&(38 * SECOND, 380)));
    assert_eq!(samples.back(), Some(&(99 * SECOND, 990)));
    assert_eq!(samples.len(), 62);
}

#[test]
fn rates_are_taken_over_the_window() {
    let mut samples = VecDeque::new();
    assert_eq!(window_rate(&samples, 5 * SECOND), Rate { points: 0, nanos: 0 });
    samples.push_back((10 * SECOND, 100));
    assert_eq!(window_rate(&samples, 5 * SECOND).per_second(), 0);
    samples.push_back((16 * SECOND, 700));
    samples.push_back((18 * SECOND, 1000));
    let short = window_rate(&samples, 5 * SECOND);
    assert_eq!(short, Rate { points: 300, nanos: 2 * SECOND });
    assert_eq!(short.per_second(), 150);
    let long = window_rate(&samples, 60 * SECOND);
    assert_eq!(long, Rate { points: 900, nanos: 8 * SECOND });
    assert_eq!(long.per_second(), 112);
    assert_eq!(long.per_minute(), 6750);
}

#[test]
fn counters_that_fall_give_no_rate() {
    let samples = VecDeque::from(vec![(0, 500), (SECOND, 100)]);
    assert_eq!(window_rate(&samples, 5 * SECOND), Rate { points: 0, nanos: SECOND });
}

#[test]
fn rates_that_do_not_fit_are_cut() {
    let rate = Rate { points: u64::MAX, nanos: 1 };
    assert_eq!(rate.per_second(), u64::MAX);
    assert_eq!(rate.per_minute(), u64::MAX);
}

#[test]
fn statistics_are_logged() {
    assert_eq!(LOG_STATS_INTERVAL, 10 * SECOND);
    let mut stats = LogStats::new(SECOND);
    let counters = Counters { sent: 1005, enqueued: 2000, failed: 7 };
    let (line, done) = stats.log_step(LogMsg::Timeout, "rc", 50, &counters, 11 * SECOND);
    assert!(!done);
    assert_eq!(line.message, "stats batch=rc sats=50 sent=1005 enqueued=2000 failed=7 rate=100pts/s");
    assert_eq!(
        line.args,
        vec![
            pair("batch", "rc"),
            pair("sats", "50"),
            pair("points_sent", "1005"),
            pair("points_enqueued", "2000"),
            pair("points_failed", "7"),
            pair("rate_pts_per_sec", "100"),
        ]
    );
    assert_eq!(stats, LogStats { last_sent: 1005, last_time: 11 * SECOND });
    let next = Counters { sent: 1020, enqueued: 2000, failed: 7 };
    let (line, _) = stats.log_step(LogMsg::Timeout, "rc", 50, &next, 21 * SECOND);
    assert_eq!(line.args[5], pair("rate_pts_per_sec", &format!("{:.0}", 1.5f64)));
    let (line, _) = stats.log_step(LogMsg::Timeout, "rc", 50, &next, 21 * SECOND);
    assert_eq!(line.args[5], pair("rate_pts_per_sec", "0"));
}

#[test]
fn events_and_the_end_are_logged() {
    let mut stats = LogStats::new(7);
    let counters = Counters { sent: 42, enqueued: 50, failed: 1 };
    let message = LogMsg::Event("run started".to_string());
    let (line, done) = stats.log_step(message, "rc", 3, &counters, 9);
    assert!(!done);
    assert_eq!(line.message, "run started");
    assert_eq!(line.args, vec![pair("batch", "rc")]);
    let (line, done) = stats.log_step(LogMsg::Shutdown, "rc", 3, &counters, 9);
    assert!(done);
    assert_eq!(line.message, "stream stopped");
    assert_eq!(line.args, vec![pair("batch", "rc"), pair("points_sent", "42")]);
    assert_eq!(stats, LogStats::new(7));
}

#[test]
fn statistics_are_due_at_their_interval() {
    let mut stats = LogStats::new(5 * SECOND);
    assert_eq!(stats.wait(5 * SECOND), 10 * SECOND);
    assert_eq!(stats.wait(4 * SECOND), 10 * SECOND);
    let counters = Counters { sent: 0, enqueued: 0, failed: 0 };
    // An event three seconds later leaves seven to wait.
    stats.log_step(LogMsg::Event("run started".to_string()), "rc", 3, &counters, 8 * SECOND);
    assert_eq!(stats.wait(8 * SECOND), 7 * SECOND);
    assert_eq!(stats.wait(15 * SECOND), 0);
    assert_eq!(stats.wait(u64::MAX), 0);
    stats.log_step(LogMsg::Timeout, "rc", 3, &counters, 15 * SECOND);
    assert_eq!(stats.wait(15 * SECOND), 10 * SECOND);
    assert_eq!(LogStats::new(u64::MAX).wait(u64::MAX), 10 * SECOND);
}
