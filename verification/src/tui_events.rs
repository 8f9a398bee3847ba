//! How the terminal application takes in what the background work reports.
use crate::config::{Preset, PresetTree};
use crate::provision::{OutcomeTree, ProvisionOutcome, ProvisionProgress};
use crate::rates::{fresh, sample};
use crate::satgen::SatelliteConfig;
use crate::text::{decimal, push_decimal, push_wide_decimal, quoted, take_chars};
use crate::tui::{
    action_trees, just, logged, nothing, quiet, stop_settled, Action, ActionTree, App,
    AppTree, RunInfo, RunInfoTree, Screen, Session, SessionTree, Step, STATUS_LIMIT,
};
use std::collections::VecDeque;
use vstd::prelude::*;
use vstd::string::*;

verus! {

/// What the background work reports.
#[derive(Debug)]
pub enum AppEvent {
    ProvisionProgress(ProvisionProgress),
    ProvisionDone { sats: Vec<SatelliteConfig>, outcome: ProvisionOutcome },
    RunCreated(RunInfo),
    /// The stream of the session was started, or could not be.
    StreamStarted(RunInfo),
    StreamFailed(String),
    CutoverComplete(RunInfo),
    RunEnded,
    EngineStopped,
    BackgroundError(String),
}

/// What the background work reports, with texts as characters.
pub enum EventTree {
    ProvisionProgress(ProvisionProgress),
    ProvisionDone { sats: Seq<SatelliteConfig>, outcome: OutcomeTree },
    RunCreated(RunInfoTree),
    StreamStarted(RunInfoTree),
    StreamFailed(Seq<char>),
    CutoverComplete(RunInfoTree),
    RunEnded,
    EngineStopped,
    BackgroundError(Seq<char>),
}

impl View for AppEvent {
    type V = EventTree;

    open spec fn view(&self) -> EventTree {
        match *self {
            AppEvent::ProvisionProgress(p) => EventTree::ProvisionProgress(p),
            AppEvent::ProvisionDone { sats, outcome } => EventTree::ProvisionDone {
                sats: sats@,
                outcome: outcome@,
            },
            AppEvent::RunCreated(run) => EventTree::RunCreated(run@),
            AppEvent::StreamStarted(run) => EventTree::StreamStarted(run@),
            AppEvent::StreamFailed(error) => EventTree::StreamFailed(error@),
            AppEvent::CutoverComplete(run) => EventTree::CutoverComplete(run@),
            AppEvent::RunEnded => EventTree::RunEnded,
            AppEvent::EngineStopped => EventTree::EngineStopped,
            AppEvent::BackgroundError(message) => EventTree::BackgroundError(message@),
        }
    }
}

/// The status after assets could not be created.
pub open spec fn failed_status(outcome: OutcomeTree) -> Seq<char> {
    "provisioning: "@ + decimal(outcome.failed) + " of "@ + decimal(
        outcome.failed + outcome.created,
    ) + " asset creations failed (run again to retry). First error: "@ + match outcome.first_error {
        Some(error) => error,
        None => Seq::empty(),
    }
}

/// The status after a batch was provisioned only.
pub open spec fn ready_status(name: Seq<char>, outcome: OutcomeTree) -> Seq<char> {
    "batch '"@ + name + "' ready: "@ + decimal(outcome.asset_rids.len()) + " assets ("@ + decimal(
        outcome.created,
    ) + " created, "@ + decimal(outcome.existing) + " already existed)"@
}

/// The status while the run is created.
pub open spec fn creating_status(outcome: OutcomeTree) -> Seq<char> {
    "assets ready ("@ + decimal(outcome.created) + " created, "@ + decimal(outcome.existing)
        + " existing); creating run…"@
}

/// A session whose run has yet to be created.
pub open spec fn opened(
    preset: PresetTree,
    debug: bool,
    sats: Seq<SatelliteConfig>,
    asset_rids: Seq<Seq<char>>,
    now: u64,
) -> SessionTree {
    SessionTree {
        preset,
        debug,
        sats,
        asset_rids,
        run: None,
        engine: false,
        stream_started: now,
        samples: Seq::empty(),
        logging: false,
        cutover_pending: false,
    }
}

/// Provisioning is done: back to the selection after a failure or when nothing else was asked for,
/// else the session is opened and its run created.
pub open spec fn provision_done(
    s: AppTree,
    sats: Seq<SatelliteConfig>,
    outcome: OutcomeTree,
    now: u64,
) -> Step {
    match s.provision_preset {
        None => quiet(s),
        Some(preset) => if outcome.failed > 0 {
            quiet(
                AppTree {
                    status: Some((failed_status(outcome), true)),
                    screen: Screen::Select,
                    ..s
                },
            )
        } else if s.provision_only {
            quiet(
                AppTree {
                    status: Some((ready_status(preset.name, outcome), false)),
                    screen: Screen::Select,
                    ..s
                },
            )
        } else {
            Step {
                app: AppTree {
                    status: Some((creating_status(outcome), false)),
                    session: Some(
                        opened(preset, s.provision_debug, sats, outcome.asset_rids, now),
                    ),
                    ..s
                },
                actions: seq![
                    ActionTree::CreateRun {
                        preset,
                        asset_rids: outcome.asset_rids,
                        cutover: false,
                        debug: s.provision_debug,
                    },
                ],
            }
        },
    }
}

/// The run of the session is open: its stream is started.
pub open spec fn run_created(s: AppTree, run: RunInfoTree) -> Step {
    match s.session {
        None => quiet(s),
        Some(session) => Step {
            app: AppTree { session: Some(SessionTree { run: Some(run), ..session }), ..s },
            actions: seq![ActionTree::StartStream(run)],
        },
    }
}

/// The stream of the session runs.
pub open spec fn stream_started(s: AppTree, run: RunInfoTree, now: u64) -> Step {
    match s.session {
        None => quiet(s),
        Some(session) => Step {
            app: AppTree {
                session: Some(
                    SessionTree {
                        engine: true,
                        stream_started: now,
                        samples: Seq::empty(),
                        logging: true,
                        ..session
                    },
                ),
                screen: Screen::Streaming,
                status: None,
                ..s
            },
            actions: seq![
                ActionTree::Log("run started '"@ + run.title + "' ("@ + run.rid + ")"@),
            ],
        },
    }
}

/// The stream could not be started: the session ends.
pub open spec fn stream_failed(s: AppTree, error: Seq<char>) -> Step {
    match s.session {
        None => quiet(s),
        Some(_) => quiet(
            AppTree {
                status: Some(("failed to start stream: "@ + error, true)),
                screen: Screen::Select,
                session: None,
                ..s
            },
        ),
    }
}

/// The new run is open: the cutover is over.
pub open spec fn cutover_complete(s: AppTree, run: RunInfoTree) -> Step {
    let session = match s.session {
        Some(session) => Some(
            SessionTree { cutover_pending: false, run: Some(run), ..session },
        ),
        None => None,
    };
    Step {
        app: AppTree {
            session,
            status: Some(("cut over to new run '"@ + run.title + "'"@, false)),
            ..s
        },
        actions: logged(session, "run cutover: started '"@ + run.title + "'"@),
    }
}

/// The first characters of a text.
pub open spec fn shortened(text: Seq<char>) -> Seq<char> {
    if text.len() < STATUS_LIMIT {
        text
    } else {
        text.take(STATUS_LIMIT as int)
    }
}

/// Background work has failed: its error is shown, provisioning is given up, and a cutover is no
/// longer waited for.
pub open spec fn background_error(s: AppTree, message: Seq<char>) -> Step {
    quiet(
        AppTree {
            status: Some((shortened(message), true)),
            screen: if s.screen == Screen::Provisioning {
                Screen::Select
            } else {
                s.screen
            },
            session: match s.session {
                Some(session) => Some(SessionTree { cutover_pending: false, ..session }),
                None => None,
            },
            ..s
        },
    )
}

/// What an event does.
pub open spec fn event_step(s: AppTree, event: EventTree, now: u64) -> Step {
    match event {
        EventTree::ProvisionProgress(p) => quiet(AppTree { provision: Some(p), ..s }),
        EventTree::ProvisionDone { sats, outcome } => provision_done(s, sats, outcome, now),
        EventTree::RunCreated(run) => run_created(s, run),
        EventTree::StreamStarted(run) => stream_started(s, run, now),
        EventTree::StreamFailed(error) => stream_failed(s, error),
        EventTree::CutoverComplete(run) => cutover_complete(s, run),
        EventTree::RunEnded => stop_settled(AppTree { waiting_run_end: false, ..s }),
        EventTree::EngineStopped => stop_settled(AppTree { waiting_engine: false, ..s }),
        EventTree::BackgroundError(message) => background_error(s, message),
    }
}

/// What is reported of provisioning, given what came of it.
pub fn provision_report(
    sats: Vec<SatelliteConfig>,
    reply: Result<ProvisionOutcome, String>,
) -> (event: AppEvent)
    ensures
        event@ == match reply {
            Ok(outcome) => EventTree::ProvisionDone { sats: sats@, outcome: outcome@ },
            Err(error) => EventTree::BackgroundError("provisioning failed: "@ + error@),
        },
{
    match reply {
        Ok(outcome) => AppEvent::ProvisionDone { sats, outcome },
        Err(error) => background("provisioning failed: ", error.as_str()),
    }
}

/// What is reported of the creation of a run, given what came of it.
pub fn run_report(reply: Result<RunInfo, String>, cutover: bool) -> (event: AppEvent)
    ensures
        event@ == match reply {
            Ok(run) => if cutover {
                EventTree::CutoverComplete(run@)
            } else {
                EventTree::RunCreated(run@)
            },
            Err(error) => EventTree::BackgroundError("run creation failed: "@ + error@),
        },
{
    match reply {
        Ok(run) => if cutover {
            AppEvent::CutoverComplete(run)
        } else {
            AppEvent::RunCreated(run)
        },
        Err(error) => background("run creation failed: ", error.as_str()),
    }
}

/// The views of a list of reports.
pub open spec fn event_trees(events: Seq<AppEvent>) -> Seq<EventTree> {
    events.map_values(|e: AppEvent| e@)
}

/// What is reported of the end of a run: the error, if there is one, and unless it is for a cutover
/// that the run is over in any case.
pub open spec fn end_reports(error: Option<Seq<char>>, cutover: bool) -> Seq<EventTree> {
    let errors = match error {
        Some(text) => seq![
            EventTree::BackgroundError(
                if cutover {
                    "cutover: failed to end previous run: "@ + text
                } else {
                    "failed to end run: "@ + text
                },
            ),
        ],
        None => Seq::empty(),
    };
    if cutover {
        errors
    } else {
        errors.push(EventTree::RunEnded)
    }
}

/// What is reported of the end of a run, given what came of it.
pub fn end_report(reply: Result<(), String>, cutover: bool) -> (events: Vec<AppEvent>)
    ensures
        event_trees(events@) == end_reports(
            match reply {
                Ok(()) => None,
                Err(error) => Some(error@),
            },
            cutover,
        ),
{
    let ghost error = match &reply {
        Ok(()) => None,
        Err(error) => Some(error@),
    };
    let mut events: Vec<AppEvent> = Vec::new();
    match &reply {
        Ok(()) => {},
        Err(text) => {
            let before: &str = if cutover {
                "cutover: failed to end previous run: "
            } else {
                "failed to end run: "
            };
            events.push(background(before, text.as_str()));
        },
    }
    if !cutover {
        events.push(AppEvent::RunEnded);
    }
    assert(event_trees(events@) =~= end_reports(error, cutover));
    events
}

fn background(before: &str, error: &str) -> (event: AppEvent)
    ensures
        event@ == EventTree::BackgroundError(before@ + error@),
{
    let mut message = before.to_owned();
    message.append(error);
    AppEvent::BackgroundError(message)
}

fn write_failed_status(outcome: &ProvisionOutcome) -> (text: String)
    ensures
        text@ == failed_status(outcome@),
{
    let mut text = "provisioning: ".to_owned();
    push_decimal(&mut text, outcome.failed as u64);
    text.append(" of ");
    push_wide_decimal(&mut text, outcome.failed as u128 + outcome.created as u128);
    text.append(" asset creations failed (run again to retry). First error: ");
    match &outcome.first_error {
        Some(error) => text.append(error.as_str()),
        None => {},
    }
    assert(text@ =~= failed_status(outcome@));
    text
}

fn write_ready_status(name: &str, outcome: &ProvisionOutcome) -> (text: String)
    ensures
        text@ == ready_status(name@, outcome@),
{
    let mut text = "batch '".to_owned();
    text.append(name);
    text.append("' ready: ");
    push_decimal(&mut text, outcome.asset_rids.len() as u64);
    text.append(" assets (");
    push_decimal(&mut text, outcome.created as u64);
    text.append(" created, ");
    push_decimal(&mut text, outcome.existing as u64);
    text.append(" already existed)");
    text
}

fn write_creating_status(outcome: &ProvisionOutcome) -> (text: String)
    ensures
        text@ == creating_status(outcome@),
{
    let mut text = "assets ready (".to_owned();
    push_decimal(&mut text, outcome.created as u64);
    text.append(" created, ");
    push_decimal(&mut text, outcome.existing as u64);
    text.append(" existing); creating run…");
    text
}

impl App {
    /// Takes in the outcome of provisioning.
    fn on_provision_done(
        &mut self,
        sats: Vec<SatelliteConfig>,
        outcome: ProvisionOutcome,
        now: u64,
    ) -> (actions: Vec<Action>)
        requires
            old(self).well_formed(),
        ensures
            final(self).well_formed(),
            final(self).fleet == old(self).fleet,
            (Step { app: final(self)@, actions: action_trees(actions@) }) == provision_done(
                old(self)@,
                sats@,
                outcome@,
                now,
            ),
    {
        let preset: Preset = match &self.provision_preset {
            Some(preset) => preset.clone(),
            None => {
                return nothing();
            },
        };
        if outcome.failed > 0 {
            self.status = Some((write_failed_status(&outcome), true));
            self.screen = Screen::Select;
            return nothing();
        }
        if self.provision_only {
            self.status = Some((write_ready_status(preset.name.as_str(), &outcome), false));
            self.screen = Screen::Select;
            return nothing();
        }
        self.status = Some((write_creating_status(&outcome), false));
        let debug: bool = self.provision_debug;
        let session = Session {
            preset: preset.clone(),
            debug,
            sats,
            asset_rids: crate::tui::copy_texts(&outcome.asset_rids),
            run: None,
            engine: false,
            stream_started: now,
            samples: VecDeque::new(),
            logging: false,
            cutover_pending: false,
        };
        assert(session@ == opened(preset@, debug, sats@, outcome@.asset_rids, now));
        self.session = Some(session);
        just(
            Action::CreateRun {
                preset,
                asset_rids: outcome.asset_rids,
                cutover: false,
                debug,
            },
        )
    }

    /// Takes in that the run of the session is open.
    fn on_run_created(&mut self, run: RunInfo) -> (actions: Vec<Action>)
        requires
            old(self).well_formed(),
        ensures
            final(self).well_formed(),
            final(self).fleet == old(self).fleet,
            (Step { app: final(self)@, actions: action_trees(actions@) }) == run_created(
                old(self)@,
                run@,
            ),
    {
        match self.session.take() {
            Some(mut session) => {
                session.run = Some(run.clone());
                self.session = Some(session);
                just(Action::StartStream(run))
            },
            None => nothing(),
        }
    }

    /// Takes in that the stream of the session runs.
    fn on_stream_started(&mut self, run: RunInfo, now: u64) -> (actions: Vec<Action>)
        requires
            old(self).well_formed(),
        ensures
            final(self).well_formed(),
            final(self).fleet == old(self).fleet,
            (Step { app: final(self)@, actions: action_trees(actions@) }) == stream_started(
                old(self)@,
                run@,
                now,
            ),
    {
        match self.session.take() {
            Some(mut session) => {
                session.engine = true;
                session.stream_started = now;
                session.samples = VecDeque::new();
                session.logging = true;
                self.session = Some(session);
                self.screen = Screen::Streaming;
                self.status = None;
                let mut message = "run started '".to_owned();
                message.append(run.title.as_str());
                message.append("' (");
                message.append(run.rid.as_str());
                message.append(")");
                just(Action::Log(message))
            },
            None => nothing(),
        }
    }

    /// Takes in that the stream could not be started.
    fn on_stream_failed(&mut self, error: String)
        requires
            old(self).well_formed(),
        ensures
            final(self).well_formed(),
            final(self).fleet == old(self).fleet,
            final(self)@ == stream_failed(old(self)@, error@).app,
    {
        match self.session.take() {
            Some(_) => {
                self.status = Some((quoted("failed to start stream: ", error.as_str(), ""), true));
                proof {
                    reveal_strlit("");
                    assert("failed to start stream: "@ + error@ + ""@
                        =~= "failed to start stream: "@ + error@);
                }
                self.screen = Screen::Select;
            },
            None => {},
        }
    }

    /// Takes in that the new run of a cutover is open.
    fn on_cutover_complete(&mut self, run: RunInfo) -> (actions: Vec<Action>)
        requires
            old(self).well_formed(),
        ensures
            final(self).well_formed(),
            final(self).fleet == old(self).fleet,
            (Step { app: final(self)@, actions: action_trees(actions@) }) == cutover_complete(
                old(self)@,
                run@,
            ),
    {
        match self.session.take() {
            Some(mut session) => {
                session.cutover_pending = false;
                session.run = Some(run.clone());
                self.session = Some(session);
            },
            None => {},
        }
        self.status = Some((quoted("cut over to new run '", run.title.as_str(), "'"), false));
        let mut actions = nothing();
        let message = quoted("run cutover: started '", run.title.as_str(), "'");
        self.log_event(message, &mut actions);
        assert(action_trees(actions@) =~= cutover_complete(old(self)@, run@).actions);
        actions
    }

    /// Takes in that background work has failed.
    fn on_background_error(&mut self, message: String)
        requires
            old(self).well_formed(),
        ensures
            final(self).well_formed(),
            final(self).fleet == old(self).fleet,
            final(self)@ == background_error(old(self)@, message@).app,
    {
        let text = take_chars(message.as_str(), STATUS_LIMIT);
        assert(text@ =~= shortened(message@));
        self.status = Some((text, true));
        let provisioning: bool = self.screen == Screen::Provisioning;
        if provisioning {
            self.screen = Screen::Select;
        }
        match self.session.take() {
            Some(mut session) => {
                session.cutover_pending = false;
                self.session = Some(session);
            },
            None => {},
        }
    }

    /// Handles a report of the background work.
    pub fn on_event(&mut self, event: AppEvent, now: u64) -> (actions: Vec<Action>)
        requires
            old(self).well_formed(),
        ensures
            final(self).well_formed(),
            final(self).fleet == old(self).fleet,
            (Step { app: final(self)@, actions: action_trees(actions@) }) == event_step(
                old(self)@,
                event@,
                now,
            ),
    {
        match event {
            AppEvent::ProvisionProgress(p) => {
                self.provision = Some(p);
                nothing()
            },
            AppEvent::ProvisionDone { sats, outcome } => self.on_provision_done(
                sats,
                outcome,
                now,
            ),
            AppEvent::RunCreated(run) => self.on_run_created(run),
            AppEvent::StreamStarted(run) => self.on_stream_started(run, now),
            AppEvent::StreamFailed(error) => {
                self.on_stream_failed(error);
                nothing()
            },
            AppEvent::CutoverComplete(run) => self.on_cutover_complete(run),
            AppEvent::RunEnded => {
                self.waiting_run_end = false;
                let ghost eased = self@;
                let mut actions = nothing();
                self.finish_stop_if_done(&mut actions);
                assert(action_trees(actions@) =~= stop_settled(eased).actions);
                actions
            },
            AppEvent::EngineStopped => {
                self.waiting_engine = false;
                let ghost eased = self@;
                let mut actions = nothing();
                self.finish_stop_if_done(&mut actions);
                assert(action_trees(actions@) =~= stop_settled(eased).actions);
                actions
            },
            AppEvent::BackgroundError(message) => {
                self.on_background_error(message);
                nothing()
            },
        }
    }

    /// Notes how many points the session has sent by now.
    pub fn sample_stats(&mut self, now: u64, sent: u64)
        requires
            old(self).well_formed(),
        ensures
            final(self).well_formed(),
            final(self).fleet == old(self).fleet,
            final(self)@ == (AppTree {
                session: match old(self)@.session {
                    Some(session) => Some(
                        SessionTree {
                            samples: fresh(session.samples.push((now, sent)), now),
                            ..session
                        },
                    ),
                    None => None,
                },
                ..old(self)@
            }),
    {
        match self.session.take() {
            Some(mut session) => {
                sample(&mut session.samples, now, sent);
                self.session = Some(session);
            },
            None => {},
        }
    }
}

} // verus!
