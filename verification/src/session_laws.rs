//! What the keys and events of the terminal application do to a session, from provisioning to the
//! end of its last run.
use crate::config::FleetConfig;
use crate::provision::{OutcomeTree, ProvisionOutcome, ProvisionProgress};
use crate::rates::fresh;
use crate::satgen::SatelliteConfig;
use crate::text::{decimal, texts};
use crate::tui::{
    action_trees, key_step, Action, ActionTree, App, AppTree, Key, RunInfo, RunInfoTree, Screen,
    Session, SessionTree,
};
use crate::tui_events::{
    end_report, event_step, event_trees, provision_report, run_report, AppEvent, EventTree,
};
use vstd::prelude::*;
use vstd::string::*;

verus! {

/// The session opened by provisioning carries the debug mark under which it was provisioned, and
/// the preset, the satellites and the assets that belong to it. Nothing runs in it yet.
pub proof fn sessions_carry_the_debug_mark(
    s: AppTree,
    sats: Seq<SatelliteConfig>,
    outcome: OutcomeTree,
    now: u64,
)
    requires
        s.provision_preset is Some,
        outcome.failed == 0,
        !s.provision_only,
    ensures
        ({
            let app = event_step(s, EventTree::ProvisionDone { sats, outcome }, now).app;
            let session = app.session->0;
            &&& app.session is Some
            &&& session.debug == s.provision_debug
            &&& session.preset == s.provision_preset->0
            &&& session.sats == sats
            &&& session.asset_rids == outcome.asset_rids
            &&& session.run is None
            &&& !session.engine
            &&& !session.logging
            &&& !session.cutover_pending
            &&& session.samples.len() == 0
            &&& session.stream_started == now
            &&& app.screen == s.screen
            &&& app.status == Some(
                (
                    "assets ready ("@ + decimal(outcome.created) + " created, "@ + decimal(
                        outcome.existing,
                    ) + " existing); creating run…"@,
                    false,
                ),
            )
        }),
{
}

/// Whether a run that is asked for belongs to the session: its preset, its assets and its debug
/// mark are those of the session.
pub open spec fn runs_match(actions: Seq<ActionTree>, session: Option<SessionTree>) -> bool {
    forall|i: int|
        0 <= i < actions.len() ==> (#[trigger] actions[i] matches ActionTree::CreateRun {
            preset,
            asset_rids,
            cutover,
            debug,
        } ==> {
            &&& session matches Some(owner) && owner.debug == debug && owner.preset == preset
                && owner.asset_rids == asset_rids && owner.cutover_pending == cutover
        })
}

/// Every run that an event asks for has the preset, the assets and the debug mark of the session.
pub proof fn events_create_runs_of_the_session(s: AppTree, event: EventTree, now: u64)
    ensures
        runs_match(event_step(s, event, now).actions, event_step(s, event, now).app.session),
{
}

/// Every run that a key asks for has the preset, the assets and the debug mark of the session.
pub proof fn keys_create_runs_of_the_session(s: AppTree, key: Key)
    ensures
        runs_match(key_step(s, key).actions, key_step(s, key).app.session),
{
}

/// Whether two sessions stream the same: their presets, satellites, assets and debug marks agree.
pub open spec fn streams_the_same(before: Option<SessionTree>, after: SessionTree) -> bool {
    &&& before is Some
    &&& before->0.debug == after.debug
    &&& before->0.preset == after.preset
    &&& before->0.sats == after.sats
    &&& before->0.asset_rids == after.asset_rids
}

/// As long as a session lasts, keys leave its preset, its satellites, its assets and its debug mark
/// alone.
pub proof fn keys_keep_what_is_streamed(s: AppTree, key: Key)
    requires
        key_step(s, key).app.session is Some,
    ensures
        streams_the_same(s.session, key_step(s, key).app.session->0),
{
}

/// As long as a session lasts, events leave its preset, its satellites, its assets and its debug
/// mark alone. Only provisioning opens another one.
pub proof fn events_keep_what_is_streamed(s: AppTree, event: EventTree, now: u64)
    requires
        event !is ProvisionDone,
        event_step(s, event, now).app.session is Some,
    ensures
        streams_the_same(s.session, event_step(s, event, now).app.session->0),
{
}

/// The first run of a session and the one that it cuts over to have the same debug mark, the one
/// under which the batch was provisioned.
pub proof fn both_runs_are_marked_alike(
    s: AppTree,
    sats: Seq<SatelliteConfig>,
    outcome: OutcomeTree,
    run: RunInfoTree,
    now: u64,
)
    requires
        s.provision_preset is Some,
        outcome.failed == 0,
        !s.provision_only,
    ensures
        ({
            let opening = event_step(s, EventTree::ProvisionDone { sats, outcome }, now);
            let created = event_step(opening.app, EventTree::RunCreated(run), now);
            let streaming = event_step(created.app, EventTree::StreamStarted(run), now);
            let cutover = key_step(streaming.app, Key::Char('n'));
            &&& opening.actions.len() == 1
            &&& opening.actions[0] == (ActionTree::CreateRun {
                preset: s.provision_preset->0,
                asset_rids: outcome.asset_rids,
                cutover: false,
                debug: s.provision_debug,
            })
            &&& created.actions == seq![ActionTree::StartStream(run)]
            &&& cutover.actions.len() == 3
            &&& cutover.actions[0] == ActionTree::Log("run cutover: ending '"@ + run.title + "'"@)
            &&& cutover.actions[1] == (ActionTree::EndRun { run, cutover: true })
            &&& cutover.actions[2] == (ActionTree::CreateRun {
                preset: s.provision_preset->0,
                asset_rids: outcome.asset_rids,
                cutover: true,
                debug: s.provision_debug,
            })
        }),
{
}

/// A run that a key ends is the one that the session had open.
pub proof fn only_the_open_run_is_ended(s: AppTree, key: Key, i: int)
    requires
        0 <= i < key_step(s, key).actions.len(),
        key_step(s, key).actions[i] is EndRun,
    ensures
        s.session is Some,
        s.session->0.run == Some(key_step(s, key).actions[i]->EndRun_run),
        key_step(s, key).actions[i]->EndRun_cutover <==> key == Key::Char('n'),
{
    assert(s.screen == Screen::Streaming);
    if key != Key::Char('n') {
        assert(!s.session->0.cutover_pending);
    }
}

/// No event ends a run.
pub proof fn events_end_no_run(s: AppTree, event: EventTree, now: u64, i: int)
    requires
        0 <= i < event_step(s, event, now).actions.len(),
    ensures
        event_step(s, event, now).actions[i] !is EndRun,
{
}

/// In the selection, up and down move by one place and wrap around at the ends, `k` and `j` do the
/// same, and nothing else changes.
pub proof fn arrows_move_the_selection(s: AppTree)
    requires
        s.screen == Screen::Select,
        0 <= s.selected < s.presets.len(),
    ensures
        ({
            let up = key_step(s, Key::Up);
            let down = key_step(s, Key::Down);
            let last = s.presets.len() - 1;
            &&& up.app.selected == if s.selected == 0 {
                last
            } else {
                s.selected - 1
            }
            &&& down.app.selected == if s.selected == last {
                0
            } else {
                s.selected + 1
            }
            &&& up.app == (AppTree { selected: up.app.selected, ..s })
            &&& down.app == (AppTree { selected: down.app.selected, ..s })
            &&& up.actions.len() == 0
            &&& down.actions.len() == 0
            &&& key_step(s, Key::Char('k')) == up
            &&& key_step(s, Key::Char('j')) == down
        }),
{
    let len = s.presets.len() as int;
    if s.selected == 0 {
        vstd::arithmetic::div_mod::lemma_fundamental_div_mod_converse(-1, len, -1, len - 1);
    } else {
        vstd::arithmetic::div_mod::lemma_small_mod((s.selected - 1) as nat, len as nat);
    }
    if s.selected == len - 1 {
        vstd::arithmetic::div_mod::lemma_mod_self_0(len);
    } else {
        vstd::arithmetic::div_mod::lemma_small_mod((s.selected + 1) as nat, len as nat);
    }
}

/// Enter provisions the selected preset in order to stream it, and `p` only to provision it. Debug
/// mode slows the batch down to one cycle a second and changes nothing else of it.
pub proof fn selected_presets_are_provisioned(s: AppTree, only: bool)
    requires
        s.screen == Screen::Select,
        0 <= s.selected < s.presets.len(),
    ensures
        ({
            let step = key_step(
                s,
                if only {
                    Key::Char('p')
                } else {
                    Key::Enter
                },
            );
            let chosen = s.presets[s.selected];
            let preset = step.app.provision_preset->0;
            &&& step.app.provision_preset is Some
            &&& step.actions.len() == 1
            &&& step.actions[0] == ActionTree::Provision(preset)
            &&& preset.name == chosen.name
            &&& preset.label == chosen.label
            &&& preset.sat_prefix == chosen.sat_prefix
            &&& preset.count == chosen.count
            &&& !s.debug_rate ==> preset.rate_hz == chosen.rate_hz
            &&& s.debug_rate ==> preset.rate_hz.bits == 0x3FF0_0000_0000_0000
                && preset.rate_hz.text == "1"@
            &&& step.app.provision_only == only
            &&& step.app.provision_debug == s.debug_rate
            &&& step.app.provision is None
            &&& step.app.status is None
            &&& step.app.screen == Screen::Provisioning
            &&& step.app.session == s.session
            &&& step.app.selected == s.selected
            &&& step.app.debug_rate == s.debug_rate
            &&& step.app.should_exit == s.should_exit
        }),
{
}

/// `d` switches debug mode and says so; `q` leaves from the selection and from provisioning; other
/// keys do nothing there.
pub proof fn other_keys_of_the_selection(s: AppTree, c: char)
    requires
        s.screen == Screen::Select || s.screen == Screen::Provisioning,
    ensures
        s.screen == Screen::Select ==> ({
            let step = key_step(s, Key::Char('d'));
            let status = if s.debug_rate {
                "debug mode off: presets stream at their configured rate"@
            } else {
                "debug mode on: presets will stream at 1 Hz"@
            };
            &&& step.actions.len() == 0
            &&& step.app == (AppTree {
                debug_rate: !s.debug_rate,
                status: Some((status, false)),
                ..s
            })
        }),
        key_step(s, Key::Char('q')).app == (AppTree { should_exit: true, ..s }),
        key_step(s, Key::Char('q')).actions.len() == 0,
        key_step(s, Key::Other).app == s,
        key_step(s, Key::Other).actions.len() == 0,
        s.screen == Screen::Provisioning && c != 'q' ==> key_step(s, Key::Char(c)).app == s
            && key_step(s, Key::Char(c)).actions.len() == 0 && key_step(s, Key::Enter).app == s
            && key_step(s, Key::Up).app == s && key_step(s, Key::Down).app == s,
        s.screen == Screen::Select && c != 'k' && c != 'j' && c != 'p' && c != 'd' && c != 'q'
            ==> key_step(s, Key::Char(c)).app == s && key_step(s, Key::Char(c)).actions.len() == 0,
{
}

/// While a session streams, `s` and `q` stop it: the stopping is logged, the engine stopped and the
/// run ended, in this order, and both are waited for. `q` leaves afterwards, `s` does not. Keys
/// other than these two and `n` do nothing.
pub proof fn stopping_asks_for_everything(s: AppTree, quit: bool, key: Key)
    requires
        s.screen == Screen::Streaming,
        s.session is Some,
        s.session->0.engine,
        s.session->0.logging,
        s.session->0.run is Some,
        !s.session->0.cutover_pending,
        key != Key::Char('n') && key != Key::Char('s') && key != Key::Char('q'),
    ensures
        ({
            let step = key_step(
                s,
                if quit {
                    Key::Char('q')
                } else {
                    Key::Char('s')
                },
            );
            let session = s.session->0;
            &&& step.actions.len() == 3
            &&& step.actions[0] == ActionTree::Log("stream stopping"@)
            &&& step.actions[1] == ActionTree::StopEngine
            &&& step.actions[2] == (ActionTree::EndRun { run: session.run->0, cutover: false })
            &&& step.app == (AppTree {
                screen: Screen::Stopping,
                quit_after_stop: quit,
                waiting_engine: true,
                waiting_run_end: true,
                session: Some(SessionTree { engine: false, run: None, ..session }),
                ..s
            })
        }),
        key_step(s, key).app == s,
        key_step(s, key).actions.len() == 0,
{
}

/// While a cutover is on its way a stop is refused with an error, and nothing else changes.
pub proof fn stops_are_refused_during_cutovers(s: AppTree)
    requires
        s.screen == Screen::Streaming,
        s.session is Some,
        s.session->0.cutover_pending,
    ensures
        key_step(s, Key::Char('s')).app == (AppTree {
            status: Some(
                ("cutover in progress — wait for it to finish before stopping"@, true),
            ),
            ..s
        }),
        key_step(s, Key::Char('q')) == key_step(s, Key::Char('s')),
{
}

/// Once the last of what is waited for has come, the log is closed and the session is over. Then
/// the application leaves if that was asked for, or says that the run has ended and shows the
/// selection. Until then only the waiting ends.
pub proof fn sessions_end_with_the_last_report(s: AppTree, now: u64)
    requires
        s.screen == Screen::Stopping,
        s.session is Some,
        s.session->0.logging,
    ensures
        ({
            let ended = event_step(s, EventTree::RunEnded, now);
            let stopped = event_step(s, EventTree::EngineStopped, now);
            &&& s.waiting_engine ==> ended.app == (AppTree { waiting_run_end: false, ..s })
                && ended.actions.len() == 0
            &&& s.waiting_run_end ==> stopped.app == (AppTree { waiting_engine: false, ..s })
                && stopped.actions.len() == 0
            &&& !s.waiting_engine ==> ended.actions == seq![ActionTree::CloseLog]
                && ended.app == if s.quit_after_stop {
                AppTree { waiting_run_end: false, session: None, should_exit: true, ..s }
            } else {
                AppTree {
                    waiting_run_end: false,
                    session: None,
                    screen: Screen::Select,
                    status: Some(("stream stopped, run ended"@, false)),
                    ..s
                }
            }
            &&& !s.waiting_run_end ==> stopped.actions == seq![ActionTree::CloseLog]
                && stopped.app == if s.quit_after_stop {
                AppTree { waiting_engine: false, session: None, should_exit: true, ..s }
            } else {
                AppTree {
                    waiting_engine: false,
                    session: None,
                    screen: Screen::Select,
                    status: Some(("stream stopped, run ended"@, false)),
                    ..s
                }
            }
        }),
{
}

/// A created run becomes the session's and its stream is started. Once the stream runs, so do the
/// engine and the log, the rates start anew, and the start is logged with the run's title and id.
pub proof fn created_runs_are_streamed(s: AppTree, run: RunInfoTree, now: u64)
    requires
        s.session is Some,
    ensures
        ({
            let created = event_step(s, EventTree::RunCreated(run), now);
            let started = event_step(s, EventTree::StreamStarted(run), now);
            let session = s.session->0;
            &&& created.app == (AppTree {
                session: Some(SessionTree { run: Some(run), ..session }),
                ..s
            })
            &&& created.actions.len() == 1
            &&& created.actions[0] == ActionTree::StartStream(run)
            &&& started.app == (AppTree {
                session: Some(
                    SessionTree {
                        engine: true,
                        logging: true,
                        stream_started: now,
                        samples: Seq::empty(),
                        ..session
                    },
                ),
                screen: Screen::Streaming,
                status: None,
                ..s
            })
            &&& started.actions.len() == 1
            &&& started.actions[0] == ActionTree::Log(
                "run started '"@ + run.title + "' ("@ + run.rid + ")"@,
            )
        }),
{
}

/// A stream that cannot be started ends its session with the error. Without a session, what is
/// reported of a run or a stream changes nothing.
pub proof fn failed_streams_end_their_session(
    s: AppTree,
    run: RunInfoTree,
    error: Seq<char>,
    now: u64,
)
    ensures
        event_step(s, EventTree::StreamFailed(error), now).actions.len() == 0,
        s.session is Some ==> event_step(s, EventTree::StreamFailed(error), now).app == (AppTree {
            status: Some(("failed to start stream: "@ + error, true)),
            screen: Screen::Select,
            session: None,
            ..s
        }),
        s.session is None ==> event_step(s, EventTree::StreamFailed(error), now).app == s
            && event_step(s, EventTree::RunCreated(run), now).app == s && event_step(
            s,
            EventTree::StreamStarted(run),
            now,
        ).app == s,
{
}

/// A cutover ends with the new run as the session's, which is shown and logged; the stream goes on
/// untouched.
pub proof fn cutovers_end_with_the_new_run(s: AppTree, run: RunInfoTree, now: u64)
    requires
        s.session is Some,
        s.session->0.logging,
    ensures
        ({
            let step = event_step(s, EventTree::CutoverComplete(run), now);
            &&& step.app == (AppTree {
                session: Some(
                    SessionTree { run: Some(run), cutover_pending: false, ..s.session->0 },
                ),
                status: Some(("cut over to new run '"@ + run.title + "'"@, false)),
                ..s
            })
            &&& step.actions.len() == 1
            &&& step.actions[0] == ActionTree::Log("run cutover: started '"@ + run.title + "'"@)
        }),
{
}

/// An error is shown by its first 300 characters. It ends provisioning and the wait for a cutover,
/// and leaves the session streaming.
pub proof fn errors_are_shown(s: AppTree, message: Seq<char>, now: u64)
    ensures
        ({
            let step = event_step(s, EventTree::BackgroundError(message), now);
            let shown = step.app.status->0;
            &&& step.actions.len() == 0
            &&& step.app.status is Some
            &&& shown.1
            &&& message.len() <= 300 ==> shown.0 == message
            &&& message.len() > 300 ==> shown.0 == message.subrange(0, 300)
            &&& step.app.screen == if s.screen == Screen::Provisioning {
                Screen::Select
            } else {
                s.screen
            }
            &&& s.session matches Some(session) ==> step.app.session == Some(
                SessionTree { cutover_pending: false, ..session },
            )
            &&& s.session is None ==> step.app.session is None
            &&& step.app.waiting_engine == s.waiting_engine
            &&& step.app.waiting_run_end == s.waiting_run_end
            &&& step.app.should_exit == s.should_exit
            &&& step.app.quit_after_stop == s.quit_after_stop
        }),
{
    assert(message.len() == 300 ==> message.take(300) =~= message);
    assert(message.len() > 300 ==> message.take(300) =~= message.subrange(0, 300));
}

/// Failed creations are reported as an error, with how many of how many failed and the first
/// reason; a batch that was only to be provisioned is reported with its assets. Both lead back to
/// the selection.
pub proof fn provisioning_is_reported(
    s: AppTree,
    sats: Seq<SatelliteConfig>,
    outcome: OutcomeTree,
    now: u64,
)
    requires
        s.provision_preset is Some,
    ensures
        ({
            let step = event_step(s, EventTree::ProvisionDone { sats, outcome }, now);
            let tried = decimal(outcome.failed + outcome.created);
            let reason = match outcome.first_error {
                Some(error) => error,
                None => Seq::empty(),
            };
            &&& outcome.failed > 0 ==> step.actions.len() == 0 && step.app == (AppTree {
                status: Some(
                    (
                        "provisioning: "@ + decimal(outcome.failed) + " of "@ + tried
                            + " asset creations failed (run again to retry). First error: "@
                            + reason,
                        true,
                    ),
                ),
                screen: Screen::Select,
                ..s
            })
            &&& outcome.failed == 0 && s.provision_only ==> step.actions.len() == 0 && step.app == (
            AppTree {
                status: Some(
                    (
                        "batch '"@ + s.provision_preset->0.name + "' ready: "@ + decimal(
                            outcome.asset_rids.len(),
                        ) + " assets ("@ + decimal(outcome.created) + " created, "@ + decimal(
                            outcome.existing,
                        ) + " already existed)"@,
                        false,
                    ),
                ),
                screen: Screen::Select,
                ..s
            })
        }),
{
}

/// What came of provisioning, of a run's creation and of its end is reported as what it is: a
/// result as the result, an error as an error with what failed in front.
pub proof fn replies_are_reported(
    sats: Vec<SatelliteConfig>,
    provisioned: Result<ProvisionOutcome, String>,
    created: Result<RunInfo, String>,
    cutover: bool,
    first: AppEvent,
    second: AppEvent,
)
    requires
        call_ensures(provision_report, (sats, provisioned), first),
        call_ensures(run_report, (created, cutover), second),
    ensures
        provisioned matches Ok(outcome) ==> first@ == (EventTree::ProvisionDone {
            sats: sats@,
            outcome: outcome@,
        }),
        provisioned matches Err(error) ==> first@ == EventTree::BackgroundError(
            "provisioning failed: "@ + error@,
        ),
        created matches Ok(run) ==> second@ == if cutover {
            EventTree::CutoverComplete(run@)
        } else {
            EventTree::RunCreated(run@)
        },
        created matches Err(error) ==> second@ == EventTree::BackgroundError(
            "run creation failed: "@ + error@,
        ),
{
}

/// The end of a run that was stopped is reported in any case, after its error where there is one.
/// The end of a run that was cut over is not waited for, so that only an error is reported.
pub proof fn ends_are_reported(reply: Result<(), String>, cutover: bool, events: Vec<AppEvent>)
    requires
        call_ensures(end_report, (reply, cutover), events),
    ensures
        ({
            let reports = event_trees(events@);
            &&& reply is Ok && cutover ==> reports.len() == 0
            &&& reply is Ok && !cutover ==> reports == seq![EventTree::RunEnded]
            &&& reply matches Err(error) ==> if cutover {
                reports == seq![
                    EventTree::BackgroundError("cutover: failed to end previous run: "@ + error@),
                ]
            } else {
                reports == seq![
                    EventTree::BackgroundError("failed to end run: "@ + error@),
                    EventTree::RunEnded,
                ]
            }
        }),
{
}

/// Progress of provisioning is kept and shown, and changes nothing else.
pub proof fn progress_is_kept(s: AppTree, now: u64, progress: ProvisionProgress)
    ensures
        event_step(s, EventTree::ProvisionProgress(progress), now).app == (AppTree {
            provision: Some(progress),
            ..s
        }),
        event_step(s, EventTree::ProvisionProgress(progress), now).actions.len() == 0,
{
}

/// The application starts in the selection, on the first preset, with nothing done or asked for.
pub proof fn the_selection_comes_first(fleet: FleetConfig, app: App)
    requires
        call_ensures(App::new, (fleet,), app),
    ensures
        app.fleet == fleet,
        app.screen == Screen::Select,
        app.selected == 0,
        !app.debug_rate,
        app.session is None,
        app.status is None,
        app.provision is None,
        app.provision_preset is None,
        !app.provision_only,
        !app.provision_debug,
        !app.waiting_engine,
        !app.waiting_run_end,
        !app.quit_after_stop,
        !app.should_exit,
{
    let start = app@;
    assert(start.selected == 0 && start.session is None && start.status is None);
}

/// Keys and events take the application from state to state as their steps say, and leave the fleet
/// alone.
pub proof fn applications_go_step_by_step(
    pressed: &mut App,
    told: &mut App,
    key: Key,
    event: AppEvent,
    now: u64,
    first: Vec<Action>,
    second: Vec<Action>,
)
    requires
        call_ensures(App::on_key, (pressed, key), first),
        call_ensures(App::on_event, (told, event, now), second),
    ensures
        final(pressed)@ == key_step(old(pressed)@, key).app,
        action_trees(first@) == key_step(old(pressed)@, key).actions,
        final(pressed).fleet == old(pressed).fleet,
        final(told)@ == event_step(old(told)@, event@, now).app,
        action_trees(second@) == event_step(old(told)@, event@, now).actions,
        final(told).fleet == old(told).fleet,
{
}

/// Sampling notes the points sent so far in the session, and changes nothing else.
pub proof fn sampling_notes_the_points(app: &mut App, now: u64, sent: u64)
    requires
        call_ensures(App::sample_stats, (app, now, sent), ()),
    ensures
        old(app)@.session is None ==> final(app)@ == old(app)@,
        old(app)@.session matches Some(session) ==> {
            let after = final(app)@.session->0;
            &&& final(app)@.session is Some
            &&& after.samples == fresh(session.samples.push((now, sent)), now)
            &&& after == (SessionTree { samples: after.samples, ..session })
            &&& final(app)@ == (AppTree { session: Some(after), ..old(app)@ })
        },
{
}

/// A stop asks only for what there is: a line where there is a log, the engine's stop where it runs
/// and the run's end where one is open. Where there is nothing to wait for, the session is over at
/// once and its log closed.
pub proof fn stopping_asks_only_for_what_runs(s: AppTree, quit: bool)
    requires
        s.screen == Screen::Streaming,
        s.session is Some,
        !s.session->0.cutover_pending,
        !s.waiting_engine,
        !s.waiting_run_end,
    ensures
        ({
            let step = key_step(
                s,
                if quit {
                    Key::Char('q')
                } else {
                    Key::Char('s')
                },
            );
            let session = s.session->0;
            let line = if session.logging {
                seq![ActionTree::Log("stream stopping"@)]
            } else {
                Seq::empty()
            };
            let engine = if session.engine {
                seq![ActionTree::StopEngine]
            } else {
                Seq::empty()
            };
            let end = match session.run {
                Some(run) => seq![ActionTree::EndRun { run, cutover: false }],
                None => Seq::empty(),
            };
            let waits = session.engine || session.run is Some;
            let close = if session.logging && !waits {
                seq![ActionTree::CloseLog]
            } else {
                Seq::empty()
            };
            &&& step.actions == line + engine + end + close
            &&& step.app.quit_after_stop == quit
            &&& waits ==> step.app == (AppTree {
                screen: Screen::Stopping,
                quit_after_stop: quit,
                waiting_engine: session.engine,
                waiting_run_end: session.run is Some,
                session: Some(SessionTree { engine: false, run: None, ..session }),
                ..s
            })
            &&& !waits && quit ==> step.app.session is None && step.app.should_exit
            &&& !waits && !quit ==> step.app.session is None && step.app.screen == Screen::Select
                && step.app.status == Some(("stream stopped, run ended"@, false))
                && step.app.should_exit == s.should_exit
        }),
{
}

/// A cutover needs a session with an open run. It is logged only where there is a log, and nothing
/// of the application changes but that the cutover is on its way.
pub proof fn cutovers_need_an_open_run(s: AppTree)
    requires
        s.screen == Screen::Streaming,
    ensures
        ({
            let step = key_step(s, Key::Char('n'));
            let ready = s.session is Some && s.session->0.run is Some
                && !s.session->0.cutover_pending;
            &&& !ready ==> step.app == s && step.actions.len() == 0
            &&& ready ==> step.app == (AppTree {
                session: Some(SessionTree { cutover_pending: true, ..s.session->0 }),
                ..s
            })
            &&& ready ==> step.actions.len() == if s.session->0.logging {
                3int
            } else {
                2
            }
        }),
{
}

/// Without a session there is nothing to stop: `q` leaves at once, and what is reported of a run
/// that was cut over to is only shown.
pub proof fn nothing_is_stopped_without_a_session(s: AppTree, run: RunInfoTree, now: u64)
    requires
        s.session is None,
    ensures
        s.screen == Screen::Streaming ==> key_step(s, Key::Char('q')).app == (AppTree {
            should_exit: true,
            ..s
        }),
        s.screen == Screen::Streaming ==> key_step(s, Key::Char('q')).actions.len() == 0,
        s.screen == Screen::Streaming ==> key_step(s, Key::Char('s')).app == (AppTree {
            should_exit: false,
            ..s
        }),
        event_step(s, EventTree::CutoverComplete(run), now).app == (AppTree {
            status: Some(("cut over to new run '"@ + run.title + "'"@, false)),
            ..s
        }),
        event_step(s, EventTree::CutoverComplete(run), now).actions.len() == 0,
{
}

/// What is waited for elsewhere than while stopping ends the waiting and nothing else, and while
/// stopping a session without a log ends without one to close.
pub proof fn late_reports_change_nothing_else(s: AppTree, now: u64)
    ensures
        s.screen != Screen::Stopping ==> event_step(s, EventTree::RunEnded, now).app == (AppTree {
            waiting_run_end: false,
            ..s
        }),
        s.screen != Screen::Stopping ==> event_step(s, EventTree::EngineStopped, now).app == (
        AppTree { waiting_engine: false, ..s }),
        s.screen != Screen::Stopping || s.session is None || !s.session->0.logging ==> event_step(
            s,
            EventTree::RunEnded,
            now,
        ).actions.len() == 0 && event_step(s, EventTree::EngineStopped, now).actions.len() == 0,
{
}

/// Provisioning that nobody asked for is passed over.
pub proof fn unasked_provisioning_is_passed_over(
    s: AppTree,
    sats: Seq<SatelliteConfig>,
    outcome: OutcomeTree,
    now: u64,
)
    requires
        s.provision_preset is None,
    ensures
        event_step(s, EventTree::ProvisionDone { sats, outcome }, now).app == s,
        event_step(s, EventTree::ProvisionDone { sats, outcome }, now).actions.len() == 0,
{
}

/// The steps speak of an application field by field as it is.
pub proof fn steps_speak_of_the_application(app: App)
    ensures
        app@.screen == app.screen,
        app@.selected == app.selected,
        app@.presets.len() == app.fleet.presets@.len(),
        forall|i: int|
            0 <= i < app@.presets.len() ==> #[trigger] app@.presets[i] == app.fleet.presets@[i]@,
        app@.debug_rate == app.debug_rate,
        app@.provision_only == app.provision_only,
        app@.provision == app.provision,
        app@.provision_debug == app.provision_debug,
        app.provision_preset matches Some(p) ==> app@.provision_preset == Some(p@),
        app.provision_preset is None ==> app@.provision_preset is None,
        app.session matches Some(session) ==> app@.session == Some(session@),
        app.session is None ==> app@.session is None,
        app.status matches Some(line) ==> app@.status == Some((line.0@, line.1)),
        app.status is None ==> app@.status is None,
        app@.waiting_engine == app.waiting_engine,
        app@.waiting_run_end == app.waiting_run_end,
        app@.quit_after_stop == app.quit_after_stop,
        app@.should_exit == app.should_exit,
{
}

/// The steps speak of a session and its run field by field as they are.
pub proof fn steps_speak_of_the_session(session: Session, run: RunInfo)
    ensures
        session@.preset.name == session.preset.name@,
        session@.preset.label == session.preset.label@,
        session@.preset.sat_prefix == session.preset.sat_prefix@,
        session@.preset.count == session.preset.count,
        session@.preset.rate_hz == session.preset.rate_hz@,
        session@.debug == session.debug,
        session@.sats == session.sats@,
        session@.asset_rids == texts(session.asset_rids@),
        session.run matches Some(open) ==> session@.run == Some(open@),
        session.run is None ==> session@.run is None,
        session@.engine == session.engine,
        session@.stream_started == session.stream_started,
        session@.samples == session.samples@,
        session@.logging == session.logging,
        session@.cutover_pending == session.cutover_pending,
        run@.rid == run.rid@,
        run@.title == run.title@,
        run@.start_unix == run.start_unix,
{
}

/// The steps speak of an action as it is.
pub proof fn steps_speak_of_the_action(action: Action)
    ensures
        match action {
            Action::Provision(preset) => action@ == ActionTree::Provision(preset@),
            Action::CreateRun { preset, asset_rids, cutover, debug } => action@ == (
            ActionTree::CreateRun {
                preset: preset@,
                asset_rids: texts(asset_rids@),
                cutover,
                debug,
            }),
            Action::EndRun { run, cutover } => action@ == (ActionTree::EndRun {
                run: run@,
                cutover,
            }),
            Action::StartStream(run) => action@ == ActionTree::StartStream(run@),
            Action::StopEngine => action@ == ActionTree::StopEngine,
            Action::Log(message) => action@ == ActionTree::Log(message@),
            Action::CloseLog => action@ == ActionTree::CloseLog,
        },
{
}

} // verus!
