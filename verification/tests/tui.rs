use streams::config::{FleetConfig, OrbitWeights, Preset};
use streams::double::Double;
use streams::provision::{ProvisionOutcome, ProvisionProgress};
use streams::tui::{Action, App, Key, RunInfo, Screen};
use streams::tui_events::{end_report, provision_report, run_report, AppEvent};

fn double(x: f64) -> Double {
    Double { bits: x.to_bits(), text: x.to_string(), tenths: format!("{x:.1}") }
}

fn preset(name: &str, rate: f64) -> Preset {
    Preset {
        name: name.to_string(),
        label: format!("{name} label"),
        sat_prefix: name.to_uppercase(),
        count: 10,
        rate_hz: double(rate),
    }
}

fn app() -> App {
    App::new(FleetConfig {
        common_label: "RC sats".to_string(),
        ground_station: None,
        orbits: OrbitWeights::default(),
        presets: vec![preset("one", 100.0), preset("two", 0.5), preset("three", 20.0)],
    })
}

fn run(title: &str) -> RunInfo {
    RunInfo { rid: format!("ri.{title}"), title: title.to_string(), start_unix: 7 }
}

fn outcome(created: usize, failed: usize) -> ProvisionOutcome {
    ProvisionOutcome {
        asset_rids: vec!["ri.a".to_string(), "ri.logs".to_string()],
        existing: 4,
        created,
        failed,
        first_error: if failed > 0 { Some("ONE-1: busy".to_string()) } else { None },
    }
}

/// One word for each action.
fn words(actions: &[Action]) -> Vec<String> {
    actions
        .iter()
        .map(|a| match a {
            Action::Provision(p) => format!("provision {} {}", p.name, p.rate_hz.text),
            Action::CreateRun { preset, asset_rids, cutover, debug } => {
                format!("create {} {} {cutover} {debug}", preset.name, asset_rids.join("+"))
            }
            Action::EndRun { run, cutover } => format!("end {} {cutover}", run.title),
            Action::StartStream(run) => format!("start {}", run.title),
            Action::StopEngine => "stop engine".to_string(),
            Action::Log(text) => format!("log {text}"),
            Action::CloseLog => "close log".to_string(),
        })
        .collect()
}

fn status(app: &App) -> (&str, bool) {
    match &app.status {
        Some((text, error)) => (text.as_str(), *error),
        None => ("", false),
    }
}

/// An application that streams the first preset.
fn streaming() -> App {
    let mut a = app();
    a.on_key(Key::Enter);
    a.on_event(AppEvent::ProvisionDone { sats: vec![], outcome: outcome(2, 0) }, 10);
    a.on_event(AppEvent::RunCreated(run("first")), 20);
    a.on_event(AppEvent::StreamStarted(run("first")), 30);
    a
}

#[test]
fn the_selection_goes_around() {
    let mut a = app();
    assert_eq!(a.selected, 0);
    a.on_key(Key::Up);
    assert_eq!(a.selected, 2);
    a.on_key(Key::Down);
    assert_eq!(a.selected, 0);
    a.on_key(Key::Char('j'));
    assert_eq!(a.selected, 1);
    a.on_key(Key::Char('k'));
    a.on_key(Key::Char('k'));
    assert_eq!(a.selected, 2);
    assert!(a.on_key(Key::Other).is_empty());
    assert!(a.on_key(Key::Char('x')).is_empty());
}

#[test]
fn quitting_the_selection_exits() {
    let mut a = app();
    a.on_key(Key::Char('q'));
    assert!(a.should_exit);
}

#[test]
fn debug_mode_streams_every_preset_at_one_hertz() {
    let mut a = app();
    a.on_key(Key::Char('d'));
    assert_eq!(status(&a), ("debug mode on: presets will stream at 1 Hz", false));
    assert_eq!(words(&a.on_key(Key::Enter)), vec!["provision one 1"]);
    assert!(a.provision_debug);
    assert_eq!(a.screen, Screen::Provisioning);
    let mut b = app();
    b.on_key(Key::Char('d'));
    b.on_key(Key::Down);
    assert_eq!(words(&b.on_key(Key::Enter)), vec!["provision two 1"]);
    assert!(b.provision_debug);
    let mut c = app();
    c.on_key(Key::Char('d'));
    c.on_key(Key::Char('d'));
    assert_eq!(status(&c), ("debug mode off: presets stream at their configured rate", false));
    assert_eq!(words(&c.on_key(Key::Char('p'))), vec!["provision one 100"]);
    assert!(c.provision_only);
}

#[test]
fn provisioning_can_be_abandoned() {
    let mut a = app();
    a.on_key(Key::Enter);
    assert!(a.on_key(Key::Char('s')).is_empty());
    assert!(!a.should_exit);
    a.on_event(AppEvent::ProvisionProgress(ProvisionProgress { total: 3, existing: 1, created: 0, failed: 0 }), 0);
    assert_eq!(a.provision.unwrap().total, 3);
    a.on_key(Key::Char('q'));
    assert!(a.should_exit);
}

#[test]
fn failed_provisioning_returns_to_the_selection() {
    let mut a = app();
    a.on_key(Key::Enter);
    let actions = a.on_event(AppEvent::ProvisionDone { sats: vec![], outcome: outcome(2, 3) }, 1);
    assert!(actions.is_empty());
    assert_eq!(
        status(&a),
        ("provisioning: 3 of 5 asset creations failed (run again to retry). First error: ONE-1: busy", true)
    );
    assert_eq!(a.screen, Screen::Select);
    assert!(a.session.is_none());
}

#[test]
fn provisioning_alone_makes_no_run() {
    let mut a = app();
    a.on_key(Key::Char('p'));
    let actions = a.on_event(AppEvent::ProvisionDone { sats: vec![], outcome: outcome(1, 0) }, 1);
    assert!(actions.is_empty());
    assert_eq!(status(&a), ("batch 'one' ready: 2 assets (1 created, 4 already existed)", false));
    assert_eq!(a.screen, Screen::Select);
}

#[test]
fn sessions_open_run_and_stream() {
    let mut a = app();
    a.on_key(Key::Enter);
    let actions = a.on_event(AppEvent::ProvisionDone { sats: vec![], outcome: outcome(2, 0) }, 10);
    assert_eq!(words(&actions), vec!["create one ri.a+ri.logs false false"]);
    assert_eq!(status(&a), ("assets ready (2 created, 4 existing); creating run…", false));
    let actions = a.on_event(AppEvent::RunCreated(run("first")), 20);
    assert_eq!(words(&actions), vec!["start first"]);
    let actions = a.on_event(AppEvent::StreamStarted(run("first")), 30);
    assert_eq!(words(&actions), vec!["log run started 'first' (ri.first)"]);
    assert_eq!(a.screen, Screen::Streaming);
    assert_eq!(status(&a), ("", false));
    let session = a.session.as_ref().unwrap();
    assert!(session.engine && session.logging && !session.cutover_pending);
    assert_eq!(session.stream_started, 30);
}

#[test]
fn streams_that_fail_end_the_session() {
    let mut a = app();
    a.on_key(Key::Enter);
    a.on_event(AppEvent::ProvisionDone { sats: vec![], outcome: outcome(2, 0) }, 10);
    a.on_event(AppEvent::RunCreated(run("first")), 20);
    assert!(a.on_event(AppEvent::StreamFailed("no route".to_string()), 30).is_empty());
    assert_eq!(status(&a), ("failed to start stream: no route", true));
    assert_eq!(a.screen, Screen::Select);
    assert!(a.session.is_none());
}

#[test]
fn cutovers_keep_the_stream() {
    let mut a = streaming();
    let actions = a.on_key(Key::Char('n'));
    assert_eq!(
        words(&actions),
        vec!["log run cutover: ending 'first'", "end first true", "create one ri.a+ri.logs true false"]
    );
    assert!(a.session.as_ref().unwrap().cutover_pending);
    assert!(a.on_key(Key::Char('n')).is_empty());
    let actions = a.on_event(AppEvent::CutoverComplete(run("second")), 40);
    assert_eq!(words(&actions), vec!["log run cutover: started 'second'"]);
    assert_eq!(status(&a), ("cut over to new run 'second'", false));
    let session = a.session.as_ref().unwrap();
    assert!(!session.cutover_pending && session.engine);
    assert_eq!(session.run.as_ref().unwrap().title, "second");
}

#[test]
fn stopping_waits_for_a_cutover() {
    let mut a = streaming();
    a.on_key(Key::Char('n'));
    for key in ['s', 'q'] {
        assert!(a.on_key(Key::Char(key)).is_empty());
        assert_eq!(
            status(&a),
            ("cutover in progress — wait for it to finish before stopping", true)
        );
        assert_eq!(a.screen, Screen::Streaming);
    }
    a.on_event(AppEvent::BackgroundError("cutover: failed".to_string()), 1);
    assert_eq!(words(&a.on_key(Key::Char('s')))[0], "log stream stopping");
}

#[test]
fn stopping_waits_for_engine_and_run() {
    let mut a = streaming();
    let actions = a.on_key(Key::Char('s'));
    assert_eq!(words(&actions), vec!["log stream stopping", "stop engine", "end first false"]);
    assert_eq!(a.screen, Screen::Stopping);
    assert!(a.on_key(Key::Char('q')).is_empty());
    assert!(a.on_event(AppEvent::RunEnded, 50).is_empty());
    assert!(a.session.is_some());
    let actions = a.on_event(AppEvent::EngineStopped, 60);
    assert_eq!(words(&actions), vec!["close log"]);
    assert!(a.session.is_none());
    assert_eq!(status(&a), ("stream stopped, run ended", false));
    assert_eq!(a.screen, Screen::Select);
    assert!(!a.should_exit);
}

#[test]
fn quitting_stops_first() {
    let mut a = streaming();
    a.on_key(Key::Char('q'));
    assert!(!a.should_exit);
    a.on_event(AppEvent::EngineStopped, 50);
    assert!(!a.should_exit);
    a.on_event(AppEvent::RunEnded, 60);
    assert!(a.should_exit);
    assert!(a.session.is_none());
}

#[test]
fn background_errors_are_shortened() {
    let mut a = app();
    a.on_key(Key::Enter);
    let long = "é".repeat(400);
    a.on_event(AppEvent::BackgroundError(long.clone()), 1);
    let (text, error) = status(&a);
    assert!(error);
    assert_eq!(text, "é".repeat(300));
    assert_eq!(a.screen, Screen::Select);
    let mut b = streaming();
    b.on_event(AppEvent::BackgroundError("short".to_string()), 1);
    assert_eq!(status(&b), ("short", true));
    assert_eq!(b.screen, Screen::Streaming);
}

#[test]
fn sessions_sample_what_was_sent() {
    let mut a = streaming();
    let second = 1_000_000_000;
    a.sample_stats(second, 5);
    a.sample_stats(63 * second, 9);
    let samples = &a.session.as_ref().unwrap().samples;
    assert_eq!(samples.len(), 1);
    assert_eq!(samples[0], (63 * second, 9));
    let mut idle = app();
    idle.sample_stats(second, 5);
    assert!(idle.session.is_none());
}

/// One word for each report.
fn reports(events: &[AppEvent]) -> Vec<String> {
    events
        .iter()
        .map(|e| match e {
            AppEvent::ProvisionDone { outcome, .. } => format!("done {}", outcome.created),
            AppEvent::RunCreated(run) => format!("created {}", run.title),
            AppEvent::CutoverComplete(run) => format!("cut over {}", run.title),
            AppEvent::RunEnded => "ended".to_string(),
            AppEvent::BackgroundError(text) => text.clone(),
            _ => "other".to_string(),
        })
        .collect()
}

#[test]
fn replies_become_reports() {
    assert_eq!(reports(&[provision_report(vec![], Ok(outcome(3, 0)))]), vec!["done 3"]);
    let failed = provision_report(vec![], Err("busy".to_string()));
    assert_eq!(reports(&[failed]), vec!["provisioning failed: busy"]);
    assert_eq!(reports(&[run_report(Ok(run("a")), false)]), vec!["created a"]);
    assert_eq!(reports(&[run_report(Ok(run("b")), true)]), vec!["cut over b"]);
    for cutover in [false, true] {
        let failed = run_report(Err("busy".to_string()), cutover);
        assert_eq!(reports(&[failed]), vec!["run creation failed: busy"]);
    }
    assert_eq!(reports(&end_report(Ok(()), false)), vec!["ended"]);
    assert!(end_report(Ok(()), true).is_empty());
    assert_eq!(
        reports(&end_report(Err("busy".to_string()), false)),
        vec!["failed to end run: busy", "ended"]
    );
    assert_eq!(
        reports(&end_report(Err("busy".to_string()), true)),
        vec!["cutover: failed to end previous run: busy"]
    );
}

#[test]
fn failed_ends_do_not_keep_the_session() {
    let mut a = streaming();
    a.on_key(Key::Char('s'));
    a.on_event(AppEvent::EngineStopped, 40);
    assert!(a.session.is_some());
    for event in end_report(Err("busy".to_string()), false) {
        a.on_event(event, 50);
    }
    assert!(a.session.is_none());
    assert_eq!(a.screen, Screen::Select);
}
