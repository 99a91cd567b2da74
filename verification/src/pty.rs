//! The decisions of the terminal session: how the shell is launched, what
//! each thing that happens leads to, and in which order a session is taken
//! down.
//!
//! The program around the library owns the pseudo-terminal and runs the
//! loops. It reports what happened as a `PtyEvent` and carries out the
//! `PtyAction` it gets back.

use vstd::prelude::*;
use vstd::string::StringSliceAdditionalSpecFns;
use crate::event::opt_text;
use crate::session::SessionManager;

verus! {

/// Where a session stands.
#[derive(Debug, Clone, Copy, PartialEq, Eq, Structural)]
pub enum Phase {
    NotStarted,
    Running,
    Stopping,
    Stopped,
}

/// What happened.
#[derive(Debug, Clone, Copy, PartialEq, Eq, Structural)]
pub enum PtyEvent {
    /// The shell runs and the loops are in place.
    Started,
    /// The terminal changed its size.
    Resized { cols: u16, rows: u16 },
    /// The shell ended.
    ChildExited,
    /// The process was asked to end.
    TerminationSignal,
    /// The user asked for the session to end.
    UserExit,
    /// Reading from or writing to the pseudo-terminal failed for good.
    IoFailed,
    /// Nothing happened within the polling interval.
    Idle,
    /// The teardown is done.
    TornDown,
}

/// The size of a terminal. The size in pixels is not known and stands at 0.
#[derive(Debug, Clone, Copy, PartialEq, Eq, Structural)]
pub struct TerminalSize {
    pub rows: u16,
    pub cols: u16,
    pub pixel_width: u16,
    pub pixel_height: u16,
}

/// What is to be done.
#[derive(Debug, Clone, Copy, PartialEq, Eq, Structural)]
pub enum PtyAction {
    Nothing,
    /// Give the pseudo-terminal this size.
    Resize(TerminalSize),
    /// Carry out the teardown steps, in order, and report `TornDown`.
    TearDown,
}

/// One step of taking a session down.
#[derive(Debug, Clone, Copy, PartialEq, Eq, Structural)]
pub enum TeardownStep {
    /// Put the terminal back into the mode it was in.
    RestoreTerminal,
    /// End the parser's stream, so that an open command is closed.
    FinishParser,
    /// Stop reading the shell's output.
    CancelReader,
    /// Hand the session over to be stopped and stored.
    StopSession,
}

/// Whether the hook files were written for a shell that takes them.
#[derive(Debug, Clone, PartialEq, Eq)]
pub enum Bootstrap {
    /// The shell takes no hook files, so none were written.
    NotTried,
    /// Writing the hook files failed.
    Failed,
    /// The hook files stand in this directory.
    Ready { dir: String },
}

/// How the shell is launched. It always runs interactively, in the working
/// directory of the program.
#[derive(Debug, Clone, PartialEq, Eq)]
pub struct LaunchPlan {
    /// The program to run.
    pub program: String,
    /// The value of `TERM` for the shell, if it gets one.
    pub term: Option<String>,
    /// The value of `ZDOTDIR` for the shell, if it gets one.
    pub zdotdir: Option<String>,
    /// Whether `RECLI_DEBUG_MARKERS` is set for the shell.
    pub debug_markers: bool,
}

/// The mathematical value of a `LaunchPlan`.
pub struct LaunchPlanView {
    pub program: Seq<char>,
    pub term: Option<Seq<char>>,
    pub zdotdir: Option<Seq<char>>,
    pub debug_markers: bool,
}

impl View for LaunchPlan {
    type V = LaunchPlanView;

    open spec fn view(&self) -> LaunchPlanView {
        LaunchPlanView {
            program: self.program@,
            term: opt_text(self.term),
            zdotdir: opt_text(self.zdotdir),
            debug_markers: self.debug_markers,
        }
    }
}

/// `zsh`
pub const ZSH: [u8; 3] = [0x7a, 0x73, 0x68];

/// How long, in milliseconds, the session waits for something to happen
/// before it looks at the shell and the signals again.
pub const POLL_INTERVAL_MS: u64 = 50;

/// How many bytes are read from the shell, or from the keyboard, at once.
pub const READ_CHUNK: usize = 8192;

/// Whether `needle` occurs in `hay`.
pub open spec fn occurs_in(hay: Seq<u8>, needle: Seq<u8>) -> bool {
    exists|i: int|
        0 <= i && i + needle.len() <= hay.len() && #[trigger] hay.subrange(
            i,
            i + needle.len(),
        ) == needle
}

/// Whether a shell takes hook files: whether its name holds `zsh`.
pub open spec fn takes_hooks(shell: Seq<u8>) -> bool {
    occurs_in(shell, ZSH@)
}

/// How far a session has come.
pub open spec fn rank(phase: Phase) -> nat {
    match phase {
        Phase::NotStarted => 0,
        Phase::Running => 1,
        Phase::Stopping => 2,
        Phase::Stopped => 3,
    }
}

/// Whether the event ends a running session.
pub open spec fn ends_session(event: PtyEvent) -> bool {
    event is ChildExited || event is TerminationSignal || event is UserExit || event is IoFailed
}

/// The phase after `event` in `phase`.
pub open spec fn next_phase(phase: Phase, event: PtyEvent) -> Phase {
    match phase {
        Phase::NotStarted => if event is Started {
            Phase::Running
        } else {
            Phase::NotStarted
        },
        Phase::Running => if ends_session(event) {
            Phase::Stopping
        } else {
            Phase::Running
        },
        Phase::Stopping => if event is TornDown {
            Phase::Stopped
        } else {
            Phase::Stopping
        },
        Phase::Stopped => Phase::Stopped,
    }
}

/// What the session has to act on before it waits for the terminal: a
/// termination signal before the shell's exit, and that before a failure of
/// input or output. `None` where none of them has happened.
pub open spec fn pressing(terminated: bool, child_exited: bool, io_failed: bool) -> Option<
    PtyEvent,
> {
    if terminated {
        Some(PtyEvent::TerminationSignal)
    } else if child_exited {
        Some(PtyEvent::ChildExited)
    } else if io_failed {
        Some(PtyEvent::IoFailed)
    } else {
        None
    }
}

/// What happened at the terminal within the polling interval: a change of
/// size, or nothing that matters.
pub open spec fn at_terminal(resized: Option<(u16, u16)>) -> PtyEvent {
    match resized {
        Some((cols, rows)) => PtyEvent::Resized { cols, rows },
        None => PtyEvent::Idle,
    }
}

/// The size of a terminal with `cols` columns and `rows` rows.
pub open spec fn size_of(cols: u16, rows: u16) -> TerminalSize {
    TerminalSize { rows, cols, pixel_width: 0, pixel_height: 0 }
}

/// What `event` in `phase` asks for: a running session follows the terminal's
/// size and is taken down by whatever ends it; nothing else asks for anything.
pub open spec fn action_for(phase: Phase, event: PtyEvent) -> PtyAction {
    match phase {
        Phase::Running => match event {
            PtyEvent::Resized { cols, rows } => PtyAction::Resize(size_of(cols, rows)),
            _ => if ends_session(event) {
                PtyAction::TearDown
            } else {
                PtyAction::Nothing
            },
        },
        _ => PtyAction::Nothing,
    }
}

/// The steps that take a session down, in order. The parser and the session
/// are there only where the session is logged.
pub open spec fn teardown_plan(logging: bool) -> Seq<TeardownStep> {
    if logging {
        seq![
            TeardownStep::RestoreTerminal,
            TeardownStep::FinishParser,
            TeardownStep::CancelReader,
            TeardownStep::StopSession,
        ]
    } else {
        seq![TeardownStep::RestoreTerminal, TeardownStep::CancelReader]
    }
}

/// How `shell` is launched. A shell that takes hook files, and has them, is
/// run as `zsh` with its configuration directory set to where they stand. A
/// shell whose hook files could not be written runs plain, with no marker
/// debugging.
pub open spec fn launch_plan(
    shell: Seq<char>,
    term: Option<Seq<char>>,
    bootstrap: Bootstrap,
    verbose: bool,
) -> LaunchPlanView {
    match bootstrap {
        Bootstrap::Ready { dir } => LaunchPlanView {
            program: "zsh"@,
            term,
            zdotdir: Some(dir@),
            debug_markers: verbose,
        },
        Bootstrap::Failed => LaunchPlanView {
            program: shell,
            term,
            zdotdir: None,
            debug_markers: false,
        },
        Bootstrap::NotTried => LaunchPlanView {
            program: shell,
            term,
            zdotdir: None,
            debug_markers: verbose,
        },
    }
}

/// A session never goes back: each event leaves it where it is or takes it
/// one phase on.
pub proof fn lemma_phase_never_goes_back(phase: Phase, event: PtyEvent)
    ensures
        rank(phase) <= rank(next_phase(phase, event)) <= rank(phase) + 1,
{
}

/// A stopped session stays stopped and asks for nothing more.
pub proof fn lemma_stopped_is_final(event: PtyEvent)
    ensures
        next_phase(Phase::Stopped, event) == Phase::Stopped,
        action_for(Phase::Stopped, event) == PtyAction::Nothing,
{
}

/// The teardown is asked for exactly when a running session begins to stop,
/// and a session begins to stop exactly on the shell's exit, a termination
/// signal, the user's exit or an input or output failure while it runs.
pub proof fn lemma_teardown_when_stopping(phase: Phase, event: PtyEvent)
    ensures
        action_for(phase, event) == PtyAction::TearDown <==> (phase == Phase::Running
            && next_phase(phase, event) == Phase::Stopping),
        (phase == Phase::Running && next_phase(phase, event) == Phase::Stopping)
            <==> (phase == Phase::Running && ends_session(event)),
{
}

/// In every teardown the terminal is restored first; and where the session
/// is logged, the parser is finished before the reader is cancelled, and the
/// session is stopped last.
pub proof fn lemma_teardown_order(logging: bool)
    ensures
        teardown_plan(logging)[0] == TeardownStep::RestoreTerminal,
        logging ==> teardown_plan(logging) == seq![
            TeardownStep::RestoreTerminal,
            TeardownStep::FinishParser,
            TeardownStep::CancelReader,
            TeardownStep::StopSession,
        ],
{
}

/// Whether `needle` stands in `hay` at `at`.
fn matches_at(hay: &[u8], needle: &[u8], at: usize) -> (r: bool)
    requires
        at + needle@.len() <= hay@.len(),
    ensures
        r == (hay@.subrange(at as int, at + needle@.len()) == needle@),
{
    let n: usize = needle.len();
    let h: usize = hay.len();
    let mut k: usize = 0;
    while k < n
        invariant
            n == needle@.len(),
            h == hay@.len(),
            at + n <= h,
            k <= n,
            forall|j: int| 0 <= j < k ==> hay@[at + j] == needle@[j],
        decreases n - k,
    {
        if hay[at + k] != needle[k] {
            proof {
                assert(hay@.subrange(at as int, at + n)[k as int] == hay@[at + k]);
            }
            return false;
        }
        k = k + 1;
    }
    proof {
        assert(hay@.subrange(at as int, at + n) =~= needle@);
    }
    true
}

/// Whether `needle` occurs in `hay`.
pub fn contains(hay: &[u8], needle: &[u8]) -> (r: bool)
    ensures
        r == occurs_in(hay@, needle@),
{
    let h: usize = hay.len();
    let n: usize = needle.len();
    if n > h {
        return false;
    }
    if n == 0 {
        proof {
            let zero: int = 0;
            assert(hay@.subrange(zero, zero + needle@.len()) =~= needle@);
        }
        return true;
    }
    let last: usize = h - n;
    let mut i: usize = 0;
    while i <= last
        invariant
            h == hay@.len(),
            n == needle@.len(),
            0 < n <= h,
            last == h - n,
            i <= last + 1,
            forall|j: int| 0 <= j < i ==> #[trigger] hay@.subrange(j, j + n) != needle@,
        decreases last + 1 - i,
    {
        if matches_at(hay, needle, i) {
            return true;
        }
        i = i + 1;
    }
    false
}

/// The size of a terminal with `cols` columns and `rows` rows.
pub fn terminal_size(cols: u16, rows: u16) -> (size: TerminalSize)
    ensures
        size == size_of(cols, rows),
{
    TerminalSize { rows, cols, pixel_width: 0, pixel_height: 0 }
}

/// What the session has to act on before it waits for the terminal.
pub fn urgent_event(terminated: bool, child_exited: bool, io_failed: bool) -> (event: Option<
    PtyEvent,
>)
    ensures
        event == pressing(terminated, child_exited, io_failed),
{
    if terminated {
        Some(PtyEvent::TerminationSignal)
    } else if child_exited {
        Some(PtyEvent::ChildExited)
    } else if io_failed {
        Some(PtyEvent::IoFailed)
    } else {
        None
    }
}

/// What happened at the terminal within the polling interval. `resized` is
/// the new size in columns and rows, if the size changed.
pub fn terminal_event(resized: Option<(u16, u16)>) -> (event: PtyEvent)
    ensures
        event == at_terminal(resized),
{
    match resized {
        Some((cols, rows)) => PtyEvent::Resized { cols, rows },
        None => PtyEvent::Idle,
    }
}

/// Whether `shell` takes hook files.
pub fn wants_bootstrap(shell: &str) -> (r: bool)
    ensures
        r == takes_hooks(shell.spec_bytes()),
{
    contains(shell.as_bytes(), ZSH.as_slice())
}

/// Plans the launch of `shell`. `term` is the value of `TERM`, if it is set.
pub fn plan_launch(shell: &str, term: Option<String>, bootstrap: Bootstrap, verbose: bool) -> (plan:
    LaunchPlan)
    ensures
        plan@ == launch_plan(shell@, opt_text(term), bootstrap, verbose),
{
    match bootstrap {
        Bootstrap::Ready { dir } => LaunchPlan {
            program: "zsh".to_owned(),
            term,
            zdotdir: Some(dir),
            debug_markers: verbose,
        },
        Bootstrap::Failed => LaunchPlan {
            program: shell.to_owned(),
            term,
            zdotdir: None,
            debug_markers: false,
        },
        Bootstrap::NotTried => LaunchPlan {
            program: shell.to_owned(),
            term,
            zdotdir: None,
            debug_markers: verbose,
        },
    }
}

/// A terminal session.
#[derive(Debug)]
pub struct PtySession {
    verbose: bool,
    phase: Phase,
    session_manager: Option<SessionManager>,
}

impl PtySession {
    /// A session that is not logged.
    pub fn new(verbose: bool) -> (s: PtySession)
        ensures
            s.phase() == Phase::NotStarted,
            s.is_verbose() == verbose,
            !s.is_logging(),
    {
        PtySession { verbose, phase: Phase::NotStarted, session_manager: None }
    }

    /// A session that is logged through `session_manager`.
    pub fn new_with_logging(verbose: bool, session_manager: SessionManager) -> (s: PtySession)
        ensures
            s.phase() == Phase::NotStarted,
            s.is_verbose() == verbose,
            s.is_logging(),
            s.manager() == Some(session_manager),
    {
        PtySession { verbose, phase: Phase::NotStarted, session_manager: Some(session_manager) }
    }

    /// Where the session stands.
    pub closed spec fn phase(&self) -> Phase {
        self.phase
    }

    /// Whether the session says what it does.
    pub closed spec fn is_verbose(&self) -> bool {
        self.verbose
    }

    /// The session manager, while the session holds one.
    pub closed spec fn manager(&self) -> Option<SessionManager> {
        self.session_manager
    }

    /// Whether the session is logged.
    pub open spec fn is_logging(&self) -> bool {
        self.manager() is Some
    }

    /// Where the session stands.
    pub fn current_phase(&self) -> (p: Phase)
        ensures
            p == self.phase(),
    {
        self.phase
    }

    /// Whether the session says what it does.
    pub fn verbose(&self) -> (v: bool)
        ensures
            v == self.is_verbose(),
    {
        self.verbose
    }

    /// Whether the session is logged.
    pub fn logging(&self) -> (l: bool)
        ensures
            l == self.is_logging(),
    {
        self.session_manager.is_some()
    }

    /// Hands out the session manager, for the part of the program that
    /// feeds it. The session counts as logged no longer.
    pub fn take_session_manager(&mut self) -> (m: Option<SessionManager>)
        ensures
            m == old(self).manager(),
            final(self).manager() is None,
            final(self).phase() == old(self).phase(),
            final(self).is_verbose() == old(self).is_verbose(),
    {
        self.session_manager.take()
    }

    /// Takes in what happened and says what is to be done.
    pub fn step(&mut self, event: PtyEvent) -> (action: PtyAction)
        ensures
            final(self).phase() == next_phase(old(self).phase(), event),
            action == action_for(old(self).phase(), event),
            final(self).is_verbose() == old(self).is_verbose(),
            final(self).manager() == old(self).manager(),
    {
        let ends: bool = match event {
            PtyEvent::ChildExited => true,
            PtyEvent::TerminationSignal => true,
            PtyEvent::UserExit => true,
            PtyEvent::IoFailed => true,
            _ => false,
        };
        match self.phase {
            Phase::NotStarted => {
                match event {
                    PtyEvent::Started => {
                        self.phase = Phase::Running;
                    },
                    _ => {},
                }
                PtyAction::Nothing
            },
            Phase::Running => {
                match event {
                    PtyEvent::Resized { cols, rows } => PtyAction::Resize(terminal_size(cols, rows)),
                    _ => {
                        if ends {
                            self.phase = Phase::Stopping;
                            PtyAction::TearDown
                        } else {
                            PtyAction::Nothing
                        }
                    },
                }
            },
            Phase::Stopping => {
                match event {
                    PtyEvent::TornDown => {
                        self.phase = Phase::Stopped;
                    },
                    _ => {},
                }
                PtyAction::Nothing
            },
            Phase::Stopped => PtyAction::Nothing,
        }
    }

    /// The steps that take a session down, in order.
    pub fn teardown_steps(logging: bool) -> (steps: Vec<TeardownStep>)
        ensures
            steps@ == teardown_plan(logging),
    {
        let mut steps: Vec<TeardownStep> = Vec::new();
        steps.push(TeardownStep::RestoreTerminal);
        if logging {
            steps.push(TeardownStep::FinishParser);
        }
        steps.push(TeardownStep::CancelReader);
        if logging {
            steps.push(TeardownStep::StopSession);
        }
        proof {
            assert(steps@ =~= teardown_plan(logging));
        }
        steps
    }
}

} // verus!
