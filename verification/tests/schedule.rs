use streams::lateness::{all_scenarios, Scenario, MILLISECOND, SECOND};
use streams::schedule::{to_timestamp, Runner, Sched, Timestamp};

/// Hands over everything up to `until`, stepping in uneven strides.
fn deliveries(scenario: Scenario, stride: u64, until: u64) -> Vec<(u64, u64)> {
    let mut runner = Runner::new(scenario, 1_700_000_000 * SECOND, 0);
    let mut list = Vec::new();
    let mut now = 0;
    while now <= until {
        for point in runner.step(now) {
            list.push((point.seq, point.timestamp));
        }
        now += stride;
    }
    list
}

#[test]
fn timestamps_are_split() {
    assert_eq!(to_timestamp(0), Timestamp { seconds: 0, nanos: 0 });
    assert_eq!(to_timestamp(1_999_999_999), Timestamp { seconds: 1, nanos: 999_999_999 });
}

#[test]
fn runs_start_on_the_grid() {
    // 70 ms past a multiple of 200 ms: the first tick is 130 ms away.
    let wall = 1_700_000_000 * SECOND + 70 * MILLISECOND;
    let mut runner = Runner::new(Scenario::Sine5Hz, wall, 500);
    assert!(runner.step(500 + 130 * MILLISECOND - 1).is_empty());
    assert_eq!(runner.wait(500 + 130 * MILLISECOND - 1), 1);
    let due = runner.step(500 + 130 * MILLISECOND);
    assert_eq!(due.len(), 1);
    assert_eq!(due[0].timestamp, wall + 130 * MILLISECOND);
    assert_eq!(due[0].seq, 0);
    assert_eq!(runner.wait(500 + 130 * MILLISECOND), 200 * MILLISECOND);
}

#[test]
fn sleeps_are_never_long() {
    let runner = Runner::new(Scenario::Sine5Hz, SECOND + 1, 0);
    assert_eq!(runner.wait(0), 200 * MILLISECOND - 1);
    let mut late = Runner::new(Scenario::ConstantDelay, SECOND, 10 * SECOND);
    assert!(late.step(10 * SECOND).is_empty());
    assert_eq!(late.wait(10 * SECOND), 200 * MILLISECOND);
    assert_eq!(late.wait(0), 200 * MILLISECOND);
}

#[test]
fn steps_do_not_depend_on_the_stride() {
    for scenario in [Scenario::ChaosSine, Scenario::TailSwap, Scenario::PairSwap] {
        let coarse = deliveries(scenario, 700 * MILLISECOND, 21 * SECOND);
        let fine = deliveries(scenario, 35 * MILLISECOND, 21 * SECOND);
        assert_eq!(coarse, fine);
    }
}

#[test]
fn runs_repeat_exactly() {
    let a = deliveries(Scenario::ChaosSine, 20 * MILLISECOND, 30 * SECOND);
    let b = deliveries(Scenario::ChaosSine, 20 * MILLISECOND, 30 * SECOND);
    assert_eq!(a, b);
    assert!(a.len() > 500);
    assert!(a.windows(2).any(|w| w[0].0 > w[1].0));
}

#[test]
fn constant_delays_keep_the_order() {
    let list = deliveries(Scenario::ConstantDelay, 100 * MILLISECOND, 10 * SECOND);
    let order: Vec<u64> = list.iter().map(|p| p.0).collect();
    assert_eq!(order, (0..21).collect::<Vec<u64>>());
}

#[test]
fn pairs_are_swapped() {
    let list = deliveries(Scenario::PairSwap, 10 * MILLISECOND, 1300 * MILLISECOND);
    let order: Vec<u64> = list.iter().map(|p| p.0).collect();
    assert_eq!(order, vec![0, 2, 1, 4, 3, 6, 5]);
}

#[test]
fn the_held_quarter_comes_after_its_release() {
    let list = deliveries(Scenario::TailSwap, 10 * MILLISECOND, 6 * SECOND);
    let order: Vec<u64> = list.iter().map(|p| p.0).collect();
    let release = order.iter().position(|s| *s == 13).unwrap();
    for held in 7..13 {
        let at = order.iter().position(|s| *s == held).unwrap();
        assert!(at > release);
    }
    assert_eq!(&order[release + 1..release + 7], &[7, 8, 9, 10, 11, 12]);
}

#[test]
fn future_stamps_lead() {
    let list = deliveries(Scenario::FutureStamps, 10 * MILLISECOND, 2 * SECOND);
    for (seq, stamp) in list {
        let tick = 1_700_000_000 * SECOND + seq * 200 * MILLISECOND;
        assert_eq!(stamp, if seq % 4 == 3 { tick + 3 * SECOND } else { tick });
    }
}

#[test]
fn the_end_of_a_run_is_reported() {
    let mut runner = Runner::new(Scenario::ConstantDelay, 0, 0);
    runner.step(7 * SECOND);
    assert_eq!(
        runner.stop_line(),
        "[constant-delay] stopped after 6 points (30 still scheduled, discarded)"
    );
}

/// How far the points come in behind the newest timestamp at most.
fn worst_lateness(scenario: Scenario, upto: u64) -> u64 {
    let mut newest = 0;
    let mut worst = 0;
    for (_, stamp) in deliveries(scenario, 10 * MILLISECOND, upto) {
        newest = stamp.max(newest);
        worst = worst.max(newest - stamp);
    }
    worst
}

#[test]
fn lateness_stays_in_its_bounds() {
    assert_eq!(worst_lateness(Scenario::Sine5Hz, 10 * SECOND), 0);
    assert_eq!(worst_lateness(Scenario::Sine50Hz, 10 * SECOND), 0);
    assert_eq!(worst_lateness(Scenario::ConstantDelay, 20 * SECOND), 0);
    assert_eq!(worst_lateness(Scenario::SkewForward, 10 * SECOND), 0);
    assert_eq!(worst_lateness(Scenario::PairSwap, 10 * SECOND), 200 * MILLISECOND);
    assert_eq!(worst_lateness(Scenario::TailSwap, 10 * SECOND), 1200 * MILLISECOND);
    assert_eq!(worst_lateness(Scenario::FutureStamps, 10 * SECOND), 2800 * MILLISECOND);
    let chaos = worst_lateness(Scenario::ChaosSine, 60 * SECOND);
    assert!(chaos > 10 * SECOND && chaos <= 15 * SECOND);
}

#[test]
fn points_are_equal_by_their_place() {
    let a = Sched { deliver_at: 5, seq: 1, timestamp: 10 };
    let b = Sched { deliver_at: 5, seq: 1, timestamp: 20 };
    let c = Sched { deliver_at: 5, seq: 2, timestamp: 10 };
    let d = Sched { deliver_at: 6, seq: 1, timestamp: 10 };
    assert_eq!(a, b);
    assert!(!a.comes_before(&b) && !b.comes_before(&a));
    assert_ne!(a, c);
    assert!(a.comes_before(&c) && !c.comes_before(&a));
    assert_ne!(a, d);
    assert!(c.comes_before(&d));
}

#[test]
fn however_it_is_cut_a_run_hands_over_each_point_once() {
    for scenario in all_scenarios() {
        let fine = deliveries(scenario, 10 * MILLISECOND, 20 * SECOND);
        let coarse = deliveries(scenario, 400 * MILLISECOND, 20 * SECOND);
        assert_eq!(fine, coarse);
        let mut seen: Vec<u64> = fine.iter().map(|p| p.0).collect();
        seen.sort();
        seen.dedup();
        assert_eq!(seen.len(), fine.len());
    }
}
