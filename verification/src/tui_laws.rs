//! What holds of every step of the terminal application.
use crate::config::PresetTree;
use crate::provision::OutcomeTree;
use crate::satgen::SatelliteConfig;
use crate::tui::{
    cutover_begun, effective, key_step, moved, one_tree, quiet, stop_begun, stop_requested,
    stop_requests, stop_settled, ActionTree, AppTree, Key, Screen, SessionTree,
};
use crate::tui_events::{end_reports, event_step, provision_done, shortened, EventTree};
use vstd::prelude::*;

verus! {

/// Moving up undoes moving down, and the other way round.
pub proof fn moving_back_returns(selected: int, len: int)
    requires
        0 <= selected < len,
    ensures
        0 <= moved(selected, 1, len) < len,
        0 <= moved(selected, -1, len) < len,
        moved(moved(selected, 1, len), -1, len) == selected,
        moved(moved(selected, -1, len), 1, len) == selected,
{
    let down = moved(selected, 1, len);
    let up = moved(selected, -1, len);
    vstd::arithmetic::div_mod::lemma_small_mod(selected as nat, len as nat);
    vstd::arithmetic::div_mod::lemma_sub_mod_noop(selected + 1, 1, len);
    vstd::arithmetic::div_mod::lemma_add_mod_noop(selected - 1, 1, len);
    vstd::arithmetic::div_mod::lemma_mod_bound(selected + 1, len);
    vstd::arithmetic::div_mod::lemma_mod_bound(selected - 1, len);
    vstd::arithmetic::div_mod::lemma_sub_mod_noop(down, 1, len);
    vstd::arithmetic::div_mod::lemma_add_mod_noop(up, 1, len);
    vstd::arithmetic::div_mod::lemma_small_mod(down as nat, len as nat);
    vstd::arithmetic::div_mod::lemma_small_mod(up as nat, len as nat);
}

/// Debug mode changes nothing but the rate: the batch, its assets and its size stay, so that
/// provisioning still finds them.
pub proof fn debugging_keeps_the_batch(debug_rate: bool, preset: PresetTree)
    ensures
        effective(debug_rate, preset).name == preset.name,
        effective(debug_rate, preset).label == preset.label,
        effective(debug_rate, preset).sat_prefix == preset.sat_prefix,
        effective(debug_rate, preset).count == preset.count,
{
}

/// In debug mode every preset streams at 1 Hz, whatever its rate; otherwise at its own rate.
pub proof fn debugging_streams_at_one_hertz(preset: PresetTree)
    ensures
        effective(true, preset).rate_hz == one_tree(),
        effective(false, preset) == preset,
{
}

/// Switching debug mode twice leaves it as it was.
pub proof fn debug_mode_toggles(s: AppTree)
    requires
        s.screen == Screen::Select,
    ensures
        key_step(key_step(s, Key::Char('d')).app, Key::Char('d')).app.debug_rate == s.debug_rate,
        key_step(s, Key::Char('d')).app.debug_rate != s.debug_rate,
        key_step(s, Key::Char('d')).actions.len() == 0,
{
}

/// While a cutover is on its way the stream can neither be stopped nor cut over again: nothing is
/// asked for, and the session stays as it is.
pub proof fn cutovers_are_not_interrupted(s: AppTree, key: Key)
    requires
        s.screen == Screen::Streaming,
        s.session is Some,
        s.session->0.cutover_pending,
    ensures
        key_step(s, key).actions.len() == 0,
        key_step(s, key).app.session == s.session,
        key_step(s, key).app.screen == Screen::Streaming,
        key_step(s, key).app.should_exit == s.should_exit,
{
}

/// A cutover ends the open run and creates one over the same assets, while the stream goes on.
pub proof fn cutovers_keep_streaming(s: AppTree)
    requires
        s.session is Some,
        s.session->0.run is Some,
        !s.session->0.cutover_pending,
    ensures
        ({
            let before = s.session->0;
            let step = cutover_begun(s);
            &&& step.app.screen == s.screen
            &&& step.app.session == Some(SessionTree { cutover_pending: true, ..before })
            &&& step.actions.contains(ActionTree::EndRun { run: before.run->0, cutover: true })
            &&& step.actions.contains(
                ActionTree::CreateRun {
                    preset: before.preset,
                    asset_rids: before.asset_rids,
                    cutover: true,
                    debug: before.debug,
                },
            )
            &&& !step.actions.contains(ActionTree::StopEngine)
        }),
{
    let before = s.session->0;
    let actions = cutover_begun(s).actions;
    let first = if before.logging {
        1int
    } else {
        0int
    };
    assert(actions.len() == first + 2);
    assert(actions[first] == (ActionTree::EndRun { run: before.run->0, cutover: true }));
    assert(actions[first + 1] == (ActionTree::CreateRun {
        preset: before.preset,
        asset_rids: before.asset_rids,
        cutover: true,
        debug: before.debug,
    }));
}

/// Stopping a session asks for the end of its open run and for the stop of its engine, and leaves
/// neither with the session.
pub proof fn stopping_ends_what_is_open(s: AppTree, quit_after: bool)
    requires
        s.session is Some,
        !s.session->0.cutover_pending,
    ensures
        ({
            let before = s.session->0;
            let step = stop_begun(s, quit_after);
            &&& before.run matches Some(run) ==> step.actions.contains(
                ActionTree::EndRun { run, cutover: false },
            ) && step.app.waiting_run_end
            &&& before.engine ==> step.actions.contains(ActionTree::StopEngine)
                && step.app.waiting_engine
            &&& step.app.session matches Some(after) ==> after.run is None && !after.engine
        }),
{
    let before = s.session->0;
    let requests = stop_requests(before);
    let settled = stop_settled(stop_requested(s, before, quit_after));
    let actions = requests + settled.actions;
    let first = if before.logging {
        1int
    } else {
        0int
    };
    let second = if before.engine {
        first + 1
    } else {
        first
    };
    if before.engine {
        assert(requests[first] == ActionTree::StopEngine);
        assert(actions[first] == ActionTree::StopEngine);
    }
    if before.run is Some {
        assert(requests[second] == (ActionTree::EndRun { run: before.run->0, cutover: false }));
        assert(actions[second] == (ActionTree::EndRun { run: before.run->0, cutover: false }));
    }
}

/// A stopping session ends only when neither its engine nor its run is waited for.
pub proof fn stopping_waits(s: AppTree, event: EventTree, now: u64)
    requires
        s.screen == Screen::Stopping,
        s.session is Some,
        event is RunEnded || event is EngineStopped,
        event_step(s, event, now).app.session is None,
    ensures
        event is RunEnded ==> !s.waiting_engine,
        event is EngineStopped ==> !s.waiting_run_end,
{
}

/// The application does not exit while an engine runs or a run is open: it waits for both.
pub proof fn quitting_waits(s: AppTree)
    requires
        s.screen == Screen::Streaming,
        !s.should_exit,
        s.session is Some,
        s.session->0.engine || s.session->0.run is Some,
    ensures
        !key_step(s, Key::Char('q')).app.should_exit,
        key_step(s, Key::Char('q')).app.session is Some,
{
}

/// Once the engine has stopped and the run has ended, in whichever order, stopping is done: the
/// session is over, and the application exits if that was asked for, else shows the selection.
pub proof fn stopping_finishes_in_either_order(s: AppTree, quit_after: bool, now: u64, later: u64)
    requires
        s.screen == Screen::Streaming,
        !s.waiting_engine,
        !s.waiting_run_end,
        !s.should_exit,
        s.session is Some,
        s.session->0.engine,
        s.session->0.run is Some,
        !s.session->0.cutover_pending,
    ensures
        ({
            let stopping = stop_begun(s, quit_after).app;
            let first = event_step(
                event_step(stopping, EventTree::EngineStopped, now).app,
                EventTree::RunEnded,
                later,
            ).app;
            let second = event_step(
                event_step(stopping, EventTree::RunEnded, now).app,
                EventTree::EngineStopped,
                later,
            ).app;
            &&& first == second
            &&& first.session is None
            &&& first.should_exit == quit_after
            &&& !quit_after ==> first.screen == Screen::Select
        }),
{
}

/// The state after a list of events.
pub open spec fn after_events(s: AppTree, events: Seq<EventTree>, now: u64) -> AppTree
    decreases events.len(),
{
    if events.len() == 0 {
        s
    } else {
        event_step(after_events(s, events.drop_last(), now), events.last(), now).app
    }
}

/// A run that could not be ended keeps nobody from stopping: whatever came of it, the session is
/// over once its end was reported.
pub proof fn failed_ends_let_sessions_stop(s: AppTree, error: Option<Seq<char>>, now: u64)
    requires
        s.screen == Screen::Stopping,
        !s.waiting_engine,
    ensures
        after_events(s, end_reports(error, false), now).session is None,
        !after_events(s, end_reports(error, false), now).waiting_run_end,
{
    let reports = end_reports(error, false);
    reveal_with_fuel(after_events, 3);
    if error is Some {
        assert(reports.drop_last().drop_last() =~= Seq::empty());
        assert(after_events(s, reports.drop_last(), now).screen == Screen::Stopping);
    } else {
        assert(reports.drop_last() =~= Seq::empty());
    }
}

/// Whether the state is one that work and waiting agree with: what streams has an engine and a log,
/// and what is waited for belongs to a session that is being stopped.
pub open spec fn in_order(s: AppTree) -> bool {
    &&& 0 <= s.selected < s.presets.len()
    &&& s.screen == Screen::Streaming ==> s.session is Some && s.session->0.engine
        && s.session->0.logging
    &&& s.waiting_engine || s.waiting_run_end ==> s.screen == Screen::Stopping && s.session is Some
    &&& s.screen == Screen::Stopping && !s.should_exit ==> s.session is Some
        && !s.session->0.engine && (s.waiting_engine || s.waiting_run_end)
}

/// Whether an event can come in this state: provisioning ends while its screen is shown, and a
/// session's first run is created before it streams.
pub open spec fn is_due(s: AppTree, event: EventTree) -> bool {
    match event {
        EventTree::ProvisionDone { .. } => s.screen == Screen::Provisioning,
        EventTree::RunCreated(_) | EventTree::StreamStarted(_) | EventTree::StreamFailed(_) =>
            s.screen == Screen::Provisioning || s.screen == Screen::Select,
        _ => true,
    }
}

/// Every key keeps the state in order.
pub proof fn keys_keep_order(s: AppTree, key: Key)
    requires
        in_order(s),
    ensures
        in_order(key_step(s, key).app),
        key_step(s, key).app.presets == s.presets,
{
    moving_back_returns(s.selected, s.presets.len() as int);
}

/// Every event that can come keeps the state in order.
pub proof fn events_keep_order(s: AppTree, event: EventTree, now: u64)
    requires
        in_order(s),
        is_due(s, event),
    ensures
        in_order(event_step(s, event, now).app),
        event_step(s, event, now).app.presets == s.presets,
{
}

/// The log of a session is closed exactly when the session ends.
pub proof fn logs_close_with_their_session(s: AppTree)
    requires
        s.session is Some,
        s.session->0.logging,
    ensures
        stop_settled(s).actions.contains(ActionTree::CloseLog) <==> stop_settled(
            s,
        ).app.session is None,
{
    let actions = stop_settled(s).actions;
    if stop_settled(s).app.session is None {
        assert(actions[0] == ActionTree::CloseLog);
    }
}

/// While stopping, keys do nothing.
pub proof fn keys_rest_while_stopping(s: AppTree, key: Key)
    requires
        s.screen == Screen::Stopping,
    ensures
        key_step(s, key) == quiet(s),
{
}

/// Where an asset could not be created no session is opened and no run created.
pub proof fn failed_provisioning_opens_nothing(
    s: AppTree,
    sats: Seq<SatelliteConfig>,
    outcome: OutcomeTree,
    now: u64,
)
    requires
        outcome.failed > 0 || s.provision_only,
    ensures
        provision_done(s, sats, outcome, now).actions.len() == 0,
        provision_done(s, sats, outcome, now).app.session == s.session,
        s.provision_preset is Some ==> provision_done(s, sats, outcome, now).app.screen
            == Screen::Select,
{
}

/// The run of a session is created over all assets that provisioning lists, under the rate that
/// was provisioned.
pub proof fn sessions_stream_what_was_provisioned(
    s: AppTree,
    sats: Seq<SatelliteConfig>,
    outcome: OutcomeTree,
    now: u64,
)
    requires
        s.provision_preset is Some,
        outcome.failed == 0,
        !s.provision_only,
    ensures
        ({
            let step = provision_done(s, sats, outcome, now);
            &&& step.actions == seq![
                ActionTree::CreateRun {
                    preset: s.provision_preset->0,
                    asset_rids: outcome.asset_rids,
                    cutover: false,
                    debug: s.provision_debug,
                },
            ]
            &&& step.app.session matches Some(session) && session.sats == sats
                && session.asset_rids == outcome.asset_rids && session.preset
                == s.provision_preset->0
        }),
{
}

/// An error shows at most as many characters as are allowed, from its beginning.
pub proof fn errors_are_shortened(text: Seq<char>)
    ensures
        shortened(text).len() <= 300,
        shortened(text).is_prefix_of(text),
{
    if text.len() < 300 {
        assert(text.take(text.len() as int) =~= text);
    } else {
        assert(text.take(300).len() == 300);
    }
}

/// A batch is provisioned as a debug batch exactly if debug mode is on, and its session and run are
/// then marked so.
pub proof fn debug_runs_are_marked(s: AppTree)
    requires
        0 <= s.selected < s.presets.len(),
        s.screen == Screen::Select,
    ensures
        key_step(s, Key::Enter).app.provision_debug == s.debug_rate,
        key_step(s, Key::Enter).actions == seq![
            ActionTree::Provision(effective(s.debug_rate, s.presets[s.selected])),
        ],
{
}

} // verus!
