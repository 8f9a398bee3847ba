//! The terminal application as a state machine: keys and events change its state and give rise to
//! actions, which are carried out elsewhere.
use crate::config::{FleetConfig, Preset, PresetTree};
use crate::double::{Double, DoubleTree, ONE_BITS};
use crate::provision::ProvisionProgress;
use crate::satgen::SatelliteConfig;
use crate::text::{quoted, texts};
use std::collections::VecDeque;
use vstd::prelude::*;
use vstd::string::*;

verus! {

/// How many characters of an error are shown.
pub const STATUS_LIMIT: usize = 300;

/// A key press.
#[derive(Clone, Copy, PartialEq, Eq, Structural, Debug)]
pub enum Key {
    Up,
    Down,
    Enter,
    Char(char),
    Other,
}

/// What the terminal shows.
#[derive(Clone, Copy, PartialEq, Eq, Structural, Debug)]
pub enum Screen {
    Select,
    Provisioning,
    Streaming,
    Stopping,
}

/// A run of the service.
#[derive(Debug)]
pub struct RunInfo {
    pub rid: String,
    pub title: String,
    pub start_unix: i64,
}

/// A run, with texts as characters.
pub struct RunInfoTree {
    pub rid: Seq<char>,
    pub title: Seq<char>,
    pub start_unix: i64,
}

impl View for RunInfo {
    type V = RunInfoTree;

    open spec fn view(&self) -> RunInfoTree {
        RunInfoTree { rid: self.rid@, title: self.title@, start_unix: self.start_unix }
    }
}

impl Clone for RunInfo {
    fn clone(&self) -> (copy: Self)
        ensures
            copy == *self,
    {
        RunInfo {
            rid: self.rid.clone(),
            title: self.title.clone(),
            start_unix: self.start_unix,
        }
    }
}

/// A streaming session: one batch, its assets, and the run that is open.
#[derive(Debug)]
pub struct Session {
    pub preset: Preset,
    pub debug: bool,
    pub sats: Vec<SatelliteConfig>,
    pub asset_rids: Vec<String>,
    pub run: Option<RunInfo>,
    /// Whether the engine runs.
    pub engine: bool,
    /// Monotonic time at which the stream was started, in nanoseconds.
    pub stream_started: u64,
    /// Monotonic times with the number of points sent by then.
    pub samples: VecDeque<(u64, u64)>,
    /// Whether the log writer runs.
    pub logging: bool,
    pub cutover_pending: bool,
}

/// A session, with texts as characters.
pub struct SessionTree {
    pub preset: PresetTree,
    pub debug: bool,
    pub sats: Seq<SatelliteConfig>,
    pub asset_rids: Seq<Seq<char>>,
    pub run: Option<RunInfoTree>,
    pub engine: bool,
    pub stream_started: u64,
    pub samples: Seq<(u64, u64)>,
    pub logging: bool,
    pub cutover_pending: bool,
}

/// A run, where there is one, with texts as characters.
pub open spec fn optional_run(run: Option<RunInfo>) -> Option<RunInfoTree> {
    match run {
        Some(r) => Some(r@),
        None => None,
    }
}

impl View for Session {
    type V = SessionTree;

    open spec fn view(&self) -> SessionTree {
        SessionTree {
            preset: self.preset@,
            debug: self.debug,
            sats: self.sats@,
            asset_rids: texts(self.asset_rids@),
            run: optional_run(self.run),
            engine: self.engine,
            stream_started: self.stream_started,
            samples: self.samples@,
            logging: self.logging,
            cutover_pending: self.cutover_pending,
        }
    }
}

/// The state of the application.
#[derive(Debug)]
pub struct App {
    pub fleet: FleetConfig,
    pub screen: Screen,
    /// The place of the selected preset.
    pub selected: usize,
    /// When set, presets stream at 1 Hz instead of their configured rate.
    pub debug_rate: bool,
    pub provision_only: bool,
    pub provision: Option<ProvisionProgress>,
    pub provision_preset: Option<Preset>,
    pub provision_debug: bool,
    pub session: Option<Session>,
    /// The status line, and whether it is an error.
    pub status: Option<(String, bool)>,
    pub waiting_engine: bool,
    pub waiting_run_end: bool,
    pub quit_after_stop: bool,
    pub should_exit: bool,
}

/// The state of the application, with texts as characters.
pub struct AppTree {
    pub presets: Seq<PresetTree>,
    pub screen: Screen,
    pub selected: int,
    pub debug_rate: bool,
    pub provision_only: bool,
    pub provision: Option<ProvisionProgress>,
    pub provision_preset: Option<PresetTree>,
    pub provision_debug: bool,
    pub session: Option<SessionTree>,
    pub status: Option<(Seq<char>, bool)>,
    pub waiting_engine: bool,
    pub waiting_run_end: bool,
    pub quit_after_stop: bool,
    pub should_exit: bool,
}

/// The views of the presets.
pub open spec fn preset_trees(presets: Seq<Preset>) -> Seq<PresetTree> {
    presets.map_values(|p: Preset| p@)
}

impl View for App {
    type V = AppTree;

    open spec fn view(&self) -> AppTree {
        AppTree {
            presets: preset_trees(self.fleet.presets@),
            screen: self.screen,
            selected: self.selected as int,
            debug_rate: self.debug_rate,
            provision_only: self.provision_only,
            provision: self.provision,
            provision_preset: match self.provision_preset {
                Some(p) => Some(p@),
                None => None,
            },
            provision_debug: self.provision_debug,
            session: match self.session {
                Some(s) => Some(s@),
                None => None,
            },
            status: match self.status {
                Some(s) => Some((s.0@, s.1)),
                None => None,
            },
            waiting_engine: self.waiting_engine,
            waiting_run_end: self.waiting_run_end,
            quit_after_stop: self.quit_after_stop,
            should_exit: self.should_exit,
        }
    }
}

/// What is to be done.
#[derive(Debug)]
pub enum Action {
    /// Provision the assets of a batch.
    Provision(Preset),
    /// Create a run over the assets, as the first of the session or for a cutover.
    CreateRun { preset: Preset, asset_rids: Vec<String>, cutover: bool, debug: bool },
    /// End a run. Unless it is for a cutover, its end is awaited.
    EndRun { run: RunInfo, cutover: bool },
    /// Start the stream of the session, and its log writer.
    StartStream(RunInfo),
    /// Stop the engine and wait until its stream is flushed.
    StopEngine,
    /// Write a line to the session's log.
    Log(String),
    /// Write the last line to the session's log and close it.
    CloseLog,
}

/// What is to be done, with texts as characters.
pub enum ActionTree {
    Provision(PresetTree),
    CreateRun { preset: PresetTree, asset_rids: Seq<Seq<char>>, cutover: bool, debug: bool },
    EndRun { run: RunInfoTree, cutover: bool },
    StartStream(RunInfoTree),
    StopEngine,
    Log(Seq<char>),
    CloseLog,
}

impl View for Action {
    type V = ActionTree;

    open spec fn view(&self) -> ActionTree {
        match *self {
            Action::Provision(p) => ActionTree::Provision(p@),
            Action::CreateRun { preset, asset_rids, cutover, debug } => ActionTree::CreateRun {
                preset: preset@,
                asset_rids: texts(asset_rids@),
                cutover,
                debug,
            },
            Action::EndRun { run, cutover } => ActionTree::EndRun { run: run@, cutover },
            Action::StartStream(run) => ActionTree::StartStream(run@),
            Action::StopEngine => ActionTree::StopEngine,
            Action::Log(message) => ActionTree::Log(message@),
            Action::CloseLog => ActionTree::CloseLog,
        }
    }
}

/// The views of a list of actions.
pub open spec fn action_trees(actions: Seq<Action>) -> Seq<ActionTree> {
    actions.map_values(|a: Action| a@)
}

/// A state and the actions that led to it.
pub struct Step {
    pub app: AppTree,
    pub actions: Seq<ActionTree>,
}

/// A step without actions.
pub open spec fn quiet(app: AppTree) -> Step {
    Step { app, actions: Seq::empty() }
}

/// The place `delta` away, around the ends of the list.
pub open spec fn moved(selected: int, delta: int, len: int) -> int {
    (selected + delta) % len
}

/// The double one.
pub open spec fn one_tree() -> DoubleTree {
    DoubleTree { bits: ONE_BITS, text: "1"@, tenths: "1.0"@ }
}

/// A preset as it streams: the same batch, in debug mode at 1 Hz instead of its configured rate.
pub open spec fn effective(debug_rate: bool, preset: PresetTree) -> PresetTree {
    if debug_rate {
        PresetTree { rate_hz: one_tree(), ..preset }
    } else {
        preset
    }
}

/// Provisioning of the selected preset begins.
pub open spec fn provision_begun(s: AppTree, provision_only: bool) -> Step {
    let preset = effective(s.debug_rate, s.presets[s.selected]);
    Step {
        app: AppTree {
            status: None,
            provision_only,
            provision: None,
            provision_preset: Some(preset),
            provision_debug: s.debug_rate,
            screen: Screen::Provisioning,
            ..s
        },
        actions: seq![ActionTree::Provision(preset)],
    }
}

/// The status after debug mode was switched.
pub open spec fn debug_status(on: bool) -> Seq<char> {
    if on {
        "debug mode on: presets will stream at 1 Hz"@
    } else {
        "debug mode off: presets stream at their configured rate"@
    }
}

/// The log line, where the session has a log.
pub open spec fn logged(session: Option<SessionTree>, message: Seq<char>) -> Seq<ActionTree> {
    match session {
        Some(s) => if s.logging {
            seq![ActionTree::Log(message)]
        } else {
            Seq::empty()
        },
        None => Seq::empty(),
    }
}

/// The session cuts over to a new run: the old one ends, a new one is created, and the stream goes
/// on. Without an open run, or while a cutover is on its way, nothing happens.
pub open spec fn cutover_begun(s: AppTree) -> Step {
    match s.session {
        Some(session) => match session.run {
            Some(run) => if session.cutover_pending {
                quiet(s)
            } else {
                Step {
                    app: AppTree {
                        session: Some(SessionTree { cutover_pending: true, ..session }),
                        ..s
                    },
                    actions: logged(
                        s.session,
                        "run cutover: ending '"@ + run.title + "'"@,
                    ) + seq![
                        ActionTree::EndRun { run, cutover: true },
                        ActionTree::CreateRun {
                            preset: session.preset,
                            asset_rids: session.asset_rids,
                            cutover: true,
                            debug: session.debug,
                        },
                    ],
                }
            },
            None => quiet(s),
        },
        None => quiet(s),
    }
}

/// Stopping is done once nothing is waited for any more: the log is closed and the session ends.
pub open spec fn stop_settled(s: AppTree) -> Step {
    if s.screen != Screen::Stopping || s.waiting_engine || s.waiting_run_end {
        quiet(s)
    } else {
        let actions = match s.session {
            Some(session) => if session.logging {
                seq![ActionTree::CloseLog]
            } else {
                Seq::empty()
            },
            None => Seq::empty(),
        };
        let ended = AppTree { session: None, ..s };
        Step {
            app: if s.quit_after_stop {
                AppTree { should_exit: true, ..ended }
            } else {
                AppTree {
                    status: Some(("stream stopped, run ended"@, false)),
                    screen: Screen::Select,
                    ..ended
                }
            },
            actions,
        }
    }
}

/// The status while a cutover keeps the stream from being stopped.
pub open spec fn cutover_status() -> Seq<char> {
    "cutover in progress — wait for it to finish before stopping"@
}

/// The state in which the engine's stop and the run's end are waited for.
pub open spec fn stop_requested(s: AppTree, session: SessionTree, quit_after: bool) -> AppTree {
    AppTree {
        screen: Screen::Stopping,
        quit_after_stop: quit_after,
        session: Some(SessionTree { engine: false, run: None, ..session }),
        waiting_engine: s.waiting_engine || session.engine,
        waiting_run_end: s.waiting_run_end || session.run is Some,
        ..s
    }
}

/// What stopping a session asks for: the engine's stop and the run's end, where there are any.
pub open spec fn stop_requests(session: SessionTree) -> Seq<ActionTree> {
    let engine = if session.engine {
        seq![ActionTree::StopEngine]
    } else {
        Seq::empty()
    };
    let end = match session.run {
        Some(run) => seq![ActionTree::EndRun { run, cutover: false }],
        None => Seq::empty(),
    };
    logged(Some(session), "stream stopping"@) + engine + end
}

/// The stream is stopped and its run ended. While a cutover is on its way this is refused: the new
/// run would be left open.
pub open spec fn stop_begun(s: AppTree, quit_after: bool) -> Step {
    match s.session {
        None => quiet(AppTree { should_exit: quit_after, ..s }),
        Some(session) => if session.cutover_pending {
            quiet(AppTree { status: Some((cutover_status(), true)), ..s })
        } else {
            let settled = stop_settled(stop_requested(s, session, quit_after));
            Step { app: settled.app, actions: stop_requests(session) + settled.actions }
        },
    }
}

/// What a key does.
pub open spec fn key_step(s: AppTree, key: Key) -> Step {
    match s.screen {
        Screen::Select => match key {
            Key::Up => quiet(
                AppTree { selected: moved(s.selected, -1, s.presets.len() as int), ..s },
            ),
            Key::Down => quiet(
                AppTree { selected: moved(s.selected, 1, s.presets.len() as int), ..s },
            ),
            Key::Enter => provision_begun(s, false),
            Key::Char(c) => if c == 'k' {
                quiet(AppTree { selected: moved(s.selected, -1, s.presets.len() as int), ..s })
            } else if c == 'j' {
                quiet(AppTree { selected: moved(s.selected, 1, s.presets.len() as int), ..s })
            } else if c == 'p' {
                provision_begun(s, true)
            } else if c == 'd' {
                quiet(
                    AppTree {
                        debug_rate: !s.debug_rate,
                        status: Some((debug_status(!s.debug_rate), false)),
                        ..s
                    },
                )
            } else if c == 'q' {
                quiet(AppTree { should_exit: true, ..s })
            } else {
                quiet(s)
            },
            Key::Other => quiet(s),
        },
        Screen::Provisioning => if key == Key::Char('q') {
            quiet(AppTree { should_exit: true, ..s })
        } else {
            quiet(s)
        },
        Screen::Streaming => if key == Key::Char('n') {
            cutover_begun(s)
        } else if key == Key::Char('s') {
            stop_begun(s, false)
        } else if key == Key::Char('q') {
            stop_begun(s, true)
        } else {
            quiet(s)
        },
        Screen::Stopping => quiet(s),
    }
}

/// A list that holds one action.
pub(crate) fn just(action: Action) -> (actions: Vec<Action>)
    ensures
        action_trees(actions@) == seq![action@],
{
    let mut actions: Vec<Action> = Vec::new();
    actions.push(action);
    assert(action_trees(actions@) =~= seq![action@]);
    actions
}

/// A list that holds no action.
pub(crate) fn nothing() -> (actions: Vec<Action>)
    ensures
        action_trees(actions@) == Seq::<ActionTree>::empty(),
{
    let actions: Vec<Action> = Vec::new();
    assert(action_trees(actions@) =~= Seq::<ActionTree>::empty());
    actions
}

/// Appends an action.
pub(crate) fn also(actions: &mut Vec<Action>, action: Action)
    ensures
        action_trees(final(actions)@) == action_trees(old(actions)@) + seq![action@],
{
    let ghost before = action_trees(actions@);
    actions.push(action);
    assert(action_trees(actions@) =~= before + seq![action@]);
}

/// A copy of the list.
pub(crate) fn copy_texts(list: &Vec<String>) -> (copy: Vec<String>)
    ensures
        texts(copy@) == texts(list@),
{
    let mut copy: Vec<String> = Vec::new();
    for i in 0..list.len()
        invariant
            copy@.len() == i,
            forall|k: int| 0 <= k < i ==> (#[trigger] copy@[k])@ == list@[k]@,
    {
        copy.push(list[i].clone());
    }
    assert(texts(copy@) =~= texts(list@));
    copy
}

impl App {
    /// The selection lies within the presets, and there are some.
    pub open spec fn well_formed(&self) -> bool {
        self.selected < self.fleet.presets@.len()
    }

    /// The state at the start: the first preset is selected.
    pub fn new(fleet: FleetConfig) -> (app: App)
        requires
            fleet.presets@.len() > 0,
        ensures
            app.well_formed(),
            app.fleet == fleet,
            app@ == (AppTree {
                presets: preset_trees(fleet.presets@),
                screen: Screen::Select,
                selected: 0,
                debug_rate: false,
                provision_only: false,
                provision: None,
                provision_preset: None,
                provision_debug: false,
                session: None,
                status: None,
                waiting_engine: false,
                waiting_run_end: false,
                quit_after_stop: false,
                should_exit: false,
            }),
    {
        App {
            fleet,
            screen: Screen::Select,
            selected: 0,
            debug_rate: false,
            provision_only: false,
            provision: None,
            provision_preset: None,
            provision_debug: false,
            session: None,
            status: None,
            waiting_engine: false,
            waiting_run_end: false,
            quit_after_stop: false,
            should_exit: false,
        }
    }

    /// Selects the preset above or below, around the ends of the list.
    fn move_selection(&mut self, down: bool)
        requires
            old(self).well_formed(),
        ensures
            final(self).well_formed(),
            final(self).fleet == old(self).fleet,
            final(self)@ == (AppTree {
                selected: moved(
                    old(self)@.selected,
                    if down {
                        1
                    } else {
                        -1
                    },
                    old(self)@.presets.len() as int,
                ),
                ..old(self)@
            }),
    {
        let len: usize = self.fleet.presets.len();
        if down {
            if self.selected + 1 == len {
                self.selected = 0;
                assert((len as int) % (len as int) == 0) by (nonlinear_arith)
                    requires
                        len > 0,
                ;
            } else {
                self.selected = self.selected + 1;
                proof {
                    vstd::arithmetic::div_mod::lemma_small_mod(self.selected as nat, len as nat);
                }
            }
        } else {
            if self.selected == 0 {
                self.selected = len - 1;
                proof {
                    vstd::arithmetic::div_mod::lemma_mod_add_multiples_vanish(-1, len as int);
                    vstd::arithmetic::div_mod::lemma_small_mod((len - 1) as nat, len as nat);
                }
            } else {
                self.selected = self.selected - 1;
                proof {
                    vstd::arithmetic::div_mod::lemma_small_mod(self.selected as nat, len as nat);
                }
            }
        }
    }

    /// Begins to provision the selected preset.
    fn start_provision(&mut self, provision_only: bool) -> (actions: Vec<Action>)
        requires
            old(self).well_formed(),
        ensures
            final(self).well_formed(),
            final(self).fleet == old(self).fleet,
            (Step { app: final(self)@, actions: action_trees(actions@) }) == provision_begun(
                old(self)@,
                provision_only,
            ),
    {
        let mut preset = self.fleet.presets[self.selected].clone();
        assert(preset@ == self@.presets[self@.selected]);
        let debug: bool = self.debug_rate;
        if debug {
            preset.rate_hz = Double::one();
        }
        self.status = None;
        self.provision_only = provision_only;
        self.provision = None;
        self.provision_preset = Some(preset.clone());
        self.provision_debug = debug;
        self.screen = Screen::Provisioning;
        just(Action::Provision(preset))
    }

    /// Appends a log line, where the session has a log.
    pub(crate) fn log_event(&self, message: String, actions: &mut Vec<Action>)
        ensures
            action_trees(final(actions)@) == action_trees(old(actions)@) + logged(
                self@.session,
                message@,
            ),
    {
        let logging: bool = match &self.session {
            Some(session) => session.logging,
            None => false,
        };
        if logging {
            also(actions, Action::Log(message));
        }
        assert(action_trees(actions@) =~= action_trees(old(actions)@) + logged(
            self@.session,
            message@,
        ));
    }

    /// Begins a cutover to a new run.
    fn start_cutover(&mut self) -> (actions: Vec<Action>)
        requires
            old(self).well_formed(),
        ensures
            final(self).well_formed(),
            final(self).fleet == old(self).fleet,
            (Step { app: final(self)@, actions: action_trees(actions@) }) == cutover_begun(
                old(self)@,
            ),
    {
        let mut actions = nothing();
        let mut session: Session = match self.session.take() {
            Some(session) => session,
            None => {
                return actions;
            },
        };
        let run: Option<RunInfo> = match &session.run {
            Some(run) => Some(run.clone()),
            None => None,
        };
        match run {
            Some(run) => {
                if !session.cutover_pending {
                    session.cutover_pending = true;
                    let preset = session.preset.clone();
                    let asset_rids = copy_texts(&session.asset_rids);
                    let debug: bool = session.debug;
                    self.session = Some(session);
                    let message = quoted("run cutover: ending '", run.title.as_str(), "'");
                    self.log_event(message, &mut actions);
                    also(&mut actions, Action::EndRun { run, cutover: true });
                    also(
                        &mut actions,
                        Action::CreateRun { preset, asset_rids, cutover: true, debug },
                    );
                    assert(action_trees(actions@) =~= cutover_begun(old(self)@).actions);
                } else {
                    self.session = Some(session);
                }
            },
            None => {
                self.session = Some(session);
            },
        }
        actions
    }

    /// Ends the session once nothing is waited for any more.
    pub(crate) fn finish_stop_if_done(&mut self, actions: &mut Vec<Action>)
        requires
            old(self).well_formed(),
        ensures
            final(self).well_formed(),
            final(self).fleet == old(self).fleet,
            final(self)@ == stop_settled(old(self)@).app,
            action_trees(final(actions)@) == action_trees(old(actions)@) + stop_settled(
                old(self)@,
            ).actions,
    {
        let stopping: bool = self.screen == Screen::Stopping;
        if stopping && !self.waiting_engine && !self.waiting_run_end {
            let logging: bool = match &self.session {
                Some(session) => session.logging,
                None => false,
            };
            if logging {
                also(actions, Action::CloseLog);
            }
            self.session = None;
            if self.quit_after_stop {
                self.should_exit = true;
            } else {
                self.status = Some(("stream stopped, run ended".to_owned(), false));
                self.screen = Screen::Select;
            }
        }
        assert(action_trees(actions@) =~= action_trees(old(actions)@) + stop_settled(
            old(self)@,
        ).actions);
    }

    /// Begins to stop the stream.
    fn start_stop(&mut self, quit_after: bool) -> (actions: Vec<Action>)
        requires
            old(self).well_formed(),
        ensures
            final(self).well_formed(),
            final(self).fleet == old(self).fleet,
            (Step { app: final(self)@, actions: action_trees(actions@) }) == stop_begun(
                old(self)@,
                quit_after,
            ),
    {
        let mut actions = nothing();
        let session: Session = match self.session.take() {
            Some(session) => session,
            None => {
                self.should_exit = quit_after;
                return actions;
            },
        };
        if session.cutover_pending {
            self.session = Some(session);
            self.status = Some(
                (
                    "cutover in progress — wait for it to finish before stopping".to_owned(),
                    true,
                ),
            );
            return actions;
        }
        let ghost held = session@;
        actions = self.request_stop(session, quit_after);
        assert(self@ == stop_requested(old(self)@, held, quit_after));
        self.finish_stop_if_done(&mut actions);
        actions
    }

    /// Asks for the engine's stop and the run's end.
    fn request_stop(&mut self, session: Session, quit_after: bool) -> (actions: Vec<Action>)
        requires
            old(self).well_formed(),
        ensures
            final(self).well_formed(),
            final(self).fleet == old(self).fleet,
            final(self)@ == stop_requested(old(self)@, session@, quit_after),
            action_trees(actions@) == stop_requests(session@),
    {
        let ghost held = session@;
        let mut session = session;
        let engine: bool = session.engine;
        let run: Option<RunInfo> = session.run.take();
        session.engine = false;
        self.session = Some(session);
        self.screen = Screen::Stopping;
        self.quit_after_stop = quit_after;
        let mut actions = nothing();
        self.log_event("stream stopping".to_owned(), &mut actions);
        if engine {
            self.waiting_engine = true;
            also(&mut actions, Action::StopEngine);
        }
        match run {
            Some(run) => {
                self.waiting_run_end = true;
                also(&mut actions, Action::EndRun { run, cutover: false });
            },
            None => {},
        }
        assert(action_trees(actions@) =~= stop_requests(held));
        actions
    }

    /// Handles a key press.
    pub fn on_key(&mut self, key: Key) -> (actions: Vec<Action>)
        requires
            old(self).well_formed(),
        ensures
            final(self).well_formed(),
            final(self).fleet == old(self).fleet,
            (Step { app: final(self)@, actions: action_trees(actions@) }) == key_step(
                old(self)@,
                key,
            ),
    {
        match self.screen {
            Screen::Select => match key {
                Key::Up => {
                    self.move_selection(false);
                    nothing()
                },
                Key::Down => {
                    self.move_selection(true);
                    nothing()
                },
                Key::Enter => self.start_provision(false),
                Key::Char(c) => {
                    if c == 'k' {
                        self.move_selection(false);
                        nothing()
                    } else if c == 'j' {
                        self.move_selection(true);
                        nothing()
                    } else if c == 'p' {
                        self.start_provision(true)
                    } else if c == 'd' {
                        self.debug_rate = !self.debug_rate;
                        let text: &str = if self.debug_rate {
                            "debug mode on: presets will stream at 1 Hz"
                        } else {
                            "debug mode off: presets stream at their configured rate"
                        };
                        self.status = Some((text.to_owned(), false));
                        nothing()
                    } else {
                        if c == 'q' {
                            self.should_exit = true;
                        }
                        nothing()
                    }
                },
                Key::Other => nothing(),
            },
            Screen::Provisioning => {
                if key == Key::Char('q') {
                    self.should_exit = true;
                }
                nothing()
            },
            Screen::Streaming => {
                if key == Key::Char('n') {
                    self.start_cutover()
                } else if key == Key::Char('s') {
                    self.start_stop(false)
                } else if key == Key::Char('q') {
                    self.start_stop(true)
                } else {
                    nothing()
                }
            },
            Screen::Stopping => nothing(),
        }
    }
}

} // verus!
