use streams::lateness::{
    all_scenarios, chaos_delay_nanos, select, Ev, Rng, Scenario, MILLISECOND, SECOND, SEED,
};

const STEPS: f64 = 9007199254740992.0;

#[test]
fn scenarios_are_listed_in_order() {
    let names: Vec<&str> = all_scenarios().iter().map(|s| s.name()).collect();
    assert_eq!(
        names,
        vec![
            "sine-5hz",
            "sine-50hz",
            "constant-delay",
            "skew-forward",
            "tail-swap",
            "chaos-sine",
            "future-stamps",
            "pair-swap",
        ]
    );
    assert_eq!(
        Scenario::Sine50Hz.list_line(),
        format!("{:<18} {} Hz  {}", "sine-50hz", 50, "perfect sine, every point on time")
    );
    assert_eq!(
        Scenario::ConstantDelay.list_line(),
        format!("{:<18} {} Hz  {}", "constant-delay", 5, "every point delivered 6 s after its timestamp")
    );
}

#[test]
fn names_find_their_scenarios() {
    for scenario in all_scenarios() {
        assert_eq!(Scenario::find(scenario.name()), Some(scenario));
    }
    assert_eq!(Scenario::find("sine"), None);
    assert_eq!(Scenario::find(""), None);
}

#[test]
fn selection_keeps_the_order_given() {
    let names = vec!["pair-swap".to_string(), "sine-5hz".to_string(), "pair-swap".to_string()];
    assert_eq!(
        select(&names),
        Ok(vec![Scenario::PairSwap, Scenario::Sine5Hz, Scenario::PairSwap])
    );
    assert_eq!(select(&vec![]), Ok(vec![]));
}

#[test]
fn all_selects_everything() {
    let names = vec!["nonsense".to_string(), "all".to_string()];
    assert_eq!(select(&names), Ok(all_scenarios()));
}

#[test]
fn the_first_unknown_name_is_the_error() {
    let names = vec!["sine-5hz".to_string(), "one".to_string(), "two".to_string()];
    assert_eq!(select(&names), Err("one".to_string()));
}

#[test]
fn the_generator_is_the_usual_xorshift() {
    let mut rng = Rng(SEED);
    let mut x = SEED;
    for _ in 0..1000 {
        x ^= x << 13;
        x ^= x >> 7;
        x ^= x << 17;
        assert_eq!(rng.next_steps(), x >> 11);
        assert_eq!(rng.0, x);
        assert_ne!(x, 0);
    }
}

#[test]
fn chaos_delays_follow_double_arithmetic() {
    let mut rng = Rng(SEED);
    let mut long = 0;
    for _ in 0..20_000 {
        let first = rng.next_steps();
        let second = rng.next_steps();
        let u = first as f64 / STEPS;
        let v = second as f64 / STEPS;
        let secs = if v < 0.95 { u * 10.0 } else { 10.0 + u * 5.0 };
        let expected = std::time::Duration::from_secs_f64(secs).as_nanos() as u64;
        assert_eq!(chaos_delay_nanos(first, second), expected);
        assert!(expected <= 15 * SECOND);
        if expected > 10 * SECOND {
            long += 1;
        }
    }
    assert!(long > 800 && long < 1200);
}

#[test]
fn controls_are_on_time() {
    let mut rng = Rng(SEED);
    for n in 0..100 {
        assert_eq!(Scenario::Sine5Hz.emit(n, n + 7, &mut rng), Ev::on_time());
        assert_eq!(Scenario::Sine50Hz.emit(n, n + 7, &mut rng), Ev::on_time());
    }
    assert_eq!(rng, Rng(SEED));
}

#[test]
fn delays_and_stamps_are_the_documented_ones() {
    let mut rng = Rng(SEED);
    assert_eq!(Scenario::ConstantDelay.emit(3, 3, &mut rng), Ev::late(6 * SECOND));
    assert_eq!(
        Scenario::SkewForward.emit(3, 3, &mut rng),
        Ev { deliver_after: 0, ts_offset: 2 * SECOND }
    );
    for n in 0..8u64 {
        let future = Scenario::FutureStamps.emit(n, n, &mut rng);
        assert_eq!(future.ts_offset, if n % 4 == 3 { 3 * SECOND } else { 0 });
        let pair = Scenario::PairSwap.emit(n, n, &mut rng);
        assert_eq!(pair.deliver_after, if n % 2 == 1 { 250 * MILLISECOND } else { 0 });
    }
}

#[test]
fn the_falling_quarter_is_held_back() {
    let mut rng = Rng(SEED);
    for index in 0..50u64 {
        let ev = Scenario::TailSwap.emit(index, index, &mut rng);
        let k = index % 25;
        let expected = if (7..13).contains(&k) { (13 - k) * 200 * MILLISECOND + 50 * MILLISECOND } else { 0 };
        assert_eq!(ev.deliver_after, expected, "{index}");
    }
}

#[test]
fn chaos_delays_end_below_fifteen_seconds() {
    let unit: u64 = 1 << 53;
    // The largest draws round up to the bound.
    assert_eq!(chaos_delay_nanos(unit - 1, unit - 1), 15 * SECOND);
    assert!(chaos_delay_nanos(unit - 1_000_000, unit - 1) < 15 * SECOND);
    assert_eq!(chaos_delay_nanos(0, unit - 1), 10 * SECOND);
    assert_eq!(chaos_delay_nanos(0, 0), 0);
}
