//! The session: at most one at a time, its pid marker, and the consumer that
//! turns lifecycle events into the command log.
//!
//! Whether a session is live is a fact about the disk and the process table.
//! The program around the library looks it up and hands it in; what follows
//! from it is decided here.

use vstd::prelude::*;
use vstd::string::StringExecFns;
use crate::clock::local_time;
use crate::command_log::{CommandLog, CommandLogView};
use crate::error::{RecliError, RecliErrorView};
use crate::event::{opt_text, LogEvent, LogEventView};
use crate::strings::{decimal, decimal_text};
use crate::text::{parse_u32, read_u32, trim, trimmed};

verus! {

/// What a session is known by.
#[derive(Debug, Clone, PartialEq, Eq)]
pub struct SessionConfig {
    pub session_id: String,
    /// The directory that takes the session's log.
    pub log_dir: String,
    /// When the session began, in local time.
    pub started_at: String,
    pub shell: String,
}

/// The mathematical value of a `SessionConfig`.
pub struct SessionConfigView {
    pub session_id: Seq<char>,
    pub log_dir: Seq<char>,
    pub started_at: Seq<char>,
    pub shell: Seq<char>,
}

impl View for SessionConfig {
    type V = SessionConfigView;

    open spec fn view(&self) -> SessionConfigView {
        SessionConfigView {
            session_id: self.session_id@,
            log_dir: self.log_dir@,
            started_at: self.started_at@,
            shell: self.shell@,
        }
    }
}

/// The view of an optional configuration.
pub open spec fn opt_config(c: Option<SessionConfig>) -> Option<SessionConfigView> {
    match c {
        Some(c) => Some(c@),
        None => None,
    }
}

/// The process id that a pid marker with this content records: the decimal
/// number in it, blanks around it aside.
pub open spec fn recorded_pid_of(content: Seq<u8>) -> Option<u32> {
    parse_u32(trim(content))
}

/// Reads the process id out of a pid marker's content.
pub fn recorded_pid(content: &[u8]) -> (pid: Option<u32>)
    ensures
        pid == recorded_pid_of(content@),
{
    read_u32(trimmed(content))
}

/// Whether a session is live: its marker records a process id, and a process
/// with that id exists. `recorded` is `None` where there is no marker, or
/// none that can be read; `alive` says whether the recorded process exists.
pub open spec fn session_live(recorded: Option<u32>, alive: bool) -> bool {
    recorded is Some && alive
}

/// The identifier of the session that began at the local time `stamp`.
pub open spec fn session_id_of(stamp: Seq<char>) -> Seq<char> {
    "recli_session_"@ + stamp
}

/// The path of `name` in the directory `dir`.
pub open spec fn joined(dir: Seq<char>, name: Seq<char>) -> Seq<char> {
    dir + seq!['/'] + name
}

/// The directory under `log_root` that takes the log of session `id`.
pub open spec fn log_dir_of(log_root: Seq<char>, id: Seq<char>) -> Seq<char> {
    joined(log_root, id)
}

/// The path of `name` in the directory `dir`.
pub fn join_path(dir: &str, name: &str) -> (path: String)
    ensures
        path@ == joined(dir@, name@),
{
    let mut path: String = String::from_str(dir);
    path.append("/");
    path.append(name);
    proof {
        reveal_strlit("/");
        assert("/"@ =~= seq!['/']);
    }
    path
}

/// The file in a session's directory that holds the list of its commands.
pub fn commands_path(log_dir: &str) -> (path: String)
    ensures
        path@ == joined(log_dir@, "commands.json"@),
{
    join_path(log_dir, "commands.json")
}

/// The file in a session's directory that holds the session's description.
pub fn metadata_path(log_dir: &str) -> (path: String)
    ensures
        path@ == joined(log_dir@, "session_metadata.json"@),
{
    join_path(log_dir, "session_metadata.json")
}

/// The file in a session's directory that takes the output of the command
/// that is running, until the command ends and the file gets its name.
pub fn open_spool_path(log_dir: &str) -> (path: String)
    ensures
        path@ == joined(log_dir@, "current.out"@),
{
    join_path(log_dir, "current.out")
}

/// The marker under `log_root` that records the process of the live session.
pub fn pid_marker_path(log_root: &str) -> (path: String)
    ensures
        path@ == joined(log_root@, "session.pid"@),
{
    join_path(log_root, "session.pid")
}

/// What starting a session asks of the program: to make the log directory
/// named in `config`, and to write `pid_text` into the pid marker.
#[derive(Debug, Clone, PartialEq, Eq)]
pub struct SessionStart {
    pub config: SessionConfig,
    pub pid_text: String,
}

/// What stopping a session asks of the program: to store the command log
/// and the session's description in `log_dir`, where there is one, and to
/// remove the pid marker.
#[derive(Debug, Clone, PartialEq, Eq)]
pub struct SessionStop {
    pub log_dir: Option<String>,
}

/// What the consumer asks of the program after an event.
#[derive(Debug, Clone, PartialEq, Eq)]
pub enum Effect {
    /// Nothing is to be stored.
    Nothing,
    /// A command ended: its spool file, if it has one, is to get this name,
    /// and the whole list of entries is to be stored.
    Persist { spool_name: Option<String> },
}

/// The mathematical value of an `Effect`.
pub enum EffectView {
    Nothing,
    Persist { spool_name: Option<Seq<char>> },
}

impl View for Effect {
    type V = EffectView;

    open spec fn view(&self) -> EffectView {
        match *self {
            Effect::Nothing => EffectView::Nothing,
            Effect::Persist { spool_name } => EffectView::Persist {
                spool_name: opt_text(spool_name),
            },
        }
    }
}

/// Whether `after` and `effect` are what consuming `event` makes of the log
/// `before`. A start opens an entry and output extends its preview, with
/// nothing to store. An end closes the entry, stamped with some moment and,
/// where the start was timed, some duration, and asks for the log to be
/// stored and the spool file to be named.
pub open spec fn consumes(
    before: CommandLogView,
    event: LogEventView,
    spool_opened: bool,
    after: CommandLogView,
    effect: EffectView,
) -> bool {
    match event {
        LogEventView::CommandStart { cmd, cwd } => after == before.started(cmd, spool_opened)
            && effect == EffectView::Nothing,
        LogEventView::Output { data } => after == before.appended(data) && effect
            == EffectView::Nothing,
        LogEventView::CommandEnd { exit_code, pipestatus, cwd } => effect matches EffectView::Persist {
            spool_name,
        } && before.ends(exit_code, pipestatus, cwd, after, spool_name),
    }
}

/// The session and its log.
#[derive(Debug)]
pub struct SessionManager {
    config: Option<SessionConfig>,
    command_log: CommandLog,
    log_root: String,
    accepting: bool,
}

/// The mathematical value of a `SessionManager`.
pub struct SessionManagerView {
    /// The session that this manager started, while it runs.
    pub config: Option<SessionConfigView>,
    pub log: CommandLogView,
    /// The directory under which each session gets one of its own.
    pub log_root: Seq<char>,
    /// Whether the consumer is in place, so that events are taken.
    pub accepting: bool,
}

impl View for SessionManager {
    type V = SessionManagerView;

    closed spec fn view(&self) -> SessionManagerView {
        SessionManagerView {
            config: opt_config(self.config),
            log: self.command_log@,
            log_root: self.log_root@,
            accepting: self.accepting,
        }
    }
}

impl SessionManagerView {
    /// The state once a session has begun at `stamp`, for `shell`.
    pub open spec fn started(
        self,
        shell: Seq<char>,
        stamp: Seq<char>,
        started_at: Seq<char>,
    ) -> SessionManagerView {
        SessionManagerView {
            config: Some(self.new_config(shell, stamp, started_at)),
            accepting: true,
            ..self
        }
    }

    /// The description of the session that begins at `stamp`.
    pub open spec fn new_config(
        self,
        shell: Seq<char>,
        stamp: Seq<char>,
        started_at: Seq<char>,
    ) -> SessionConfigView {
        SessionConfigView {
            session_id: session_id_of(stamp),
            log_dir: log_dir_of(self.log_root, session_id_of(stamp)),
            started_at,
            shell,
        }
    }

    /// The state once the session has been stopped.
    pub open spec fn stopped(self) -> SessionManagerView {
        SessionManagerView { config: None, accepting: false, ..self }
    }

    /// The status in words.
    pub open spec fn status(self, live: bool) -> Seq<char> {
        match self.config {
            Some(c) => "active session: "@ + c.session_id + "\nstarted: "@ + c.started_at
                + "\nlog directory: "@ + c.log_dir,
            None => if live {
                "session is active but config not loaded"@
            } else {
                "no active session"@
            },
        }
    }
}

impl SessionManager {
    /// A manager with no session. Each session's log goes to a directory of
    /// its own under `log_root`.
    pub fn new(log_root: String) -> (m: SessionManager)
        ensures
            m@.config is None,
            m@.log == CommandLogView::empty(),
            m@.log_root == log_root@,
            !m@.accepting,
    {
        SessionManager { config: None, command_log: CommandLog::new(), log_root, accepting: false }
    }

    /// Whether a session is live.
    pub fn is_session_active(recorded: Option<u32>, alive: bool) -> (live: bool)
        ensures
            live == session_live(recorded, alive),
    {
        recorded.is_some() && alive
    }

    /// The session that this manager started, while it runs.
    pub fn config(&self) -> (c: &Option<SessionConfig>)
        ensures
            opt_config(*c) == self@.config,
    {
        &self.config
    }

    /// The marker that records the process of the live session.
    pub fn pid_file(&self) -> (path: String)
        ensures
            path@ == joined(self@.log_root, "session.pid"@),
    {
        pid_marker_path(self.log_root.as_str())
    }

    /// The command log.
    pub fn command_log(&self) -> (log: &CommandLog)
        ensures
            log@ == self@.log,
    {
        &self.command_log
    }

    /// Begins a session for `shell` at the local time `stamp`, unless one is
    /// live. `pid` is the process that will own the session.
    pub fn start_session_at(
        &mut self,
        shell: &str,
        live: bool,
        pid: u32,
        stamp: String,
        started_at: String,
    ) -> (r: Result<SessionStart, RecliError>)
        ensures
            live ==> final(self)@ == old(self)@ && (r matches Err(e) && e@
                == RecliErrorView::Session("session already active"@)),
            !live ==> final(self)@ == old(self)@.started(shell@, stamp@, started_at@) && (
            r matches Ok(start) && start.config@ == old(self)@.new_config(
                shell@,
                stamp@,
                started_at@,
            ) && start.pid_text@ == decimal_text(pid as nat)),
    {
        if live {
            return Err(RecliError::Session(String::from_str("session already active")));
        }
        let session_id: String = String::from_str("recli_session_").concat(stamp.as_str());
        let log_dir: String = join_path(self.log_root.as_str(), session_id.as_str());
        let config = SessionConfig {
            session_id,
            log_dir,
            started_at,
            shell: String::from_str(shell),
        };
        let handed = SessionConfig {
            session_id: config.session_id.clone(),
            log_dir: config.log_dir.clone(),
            started_at: config.started_at.clone(),
            shell: config.shell.clone(),
        };
        self.config = Some(config);
        self.accepting = true;
        Ok(SessionStart { config: handed, pid_text: decimal(pid as u64) })
    }

    /// Begins a session for `shell` now, unless one is live. Whatever the
    /// clock says, the session begins as `start_session_at` begins it.
    pub fn start_session(&mut self, shell: &str, live: bool, pid: u32) -> (r: Result<
        SessionStart,
        RecliError,
    >)
        ensures
            live ==> final(self)@ == old(self)@ && (r matches Err(e) && e@
                == RecliErrorView::Session("session already active"@)),
            !live ==> exists|stamp: Seq<char>, started_at: Seq<char>|
                #![trigger old(self)@.started(shell@, stamp, started_at)]
                {
                    &&& final(self)@ == old(self)@.started(shell@, stamp, started_at)
                    &&& r matches Ok(start) && start.config@ == old(self)@.new_config(
                        shell@,
                        stamp,
                        started_at,
                    ) && start.pid_text@ == decimal_text(pid as nat)
                },
    {
        let stamp: String = local_time("%Y%m%d_%H%M%S");
        let started_at: String = local_time("%Y-%m-%d %H:%M:%S");
        self.start_session_at(shell, live, pid, stamp, started_at)
    }

    /// Stops the session, if one is live. Where none is, nothing happens and
    /// nothing is asked of the program.
    pub fn stop_session(&mut self, live: bool) -> (r: Option<SessionStop>)
        ensures
            !live ==> final(self)@ == old(self)@ && r is None,
            live ==> final(self)@ == old(self)@.stopped() && (r matches Some(stop) && opt_text(
                stop.log_dir,
            ) == (match old(self)@.config {
                Some(c) => Some(c.log_dir),
                None => None,
            })),
    {
        if !live {
            return None;
        }
        let log_dir: Option<String> = match &self.config {
            Some(c) => Some(c.log_dir.clone()),
            None => None,
        };
        self.config = None;
        self.accepting = false;
        Some(SessionStop { log_dir })
    }

    /// The status in words.
    pub fn get_status(&self, live: bool) -> (text: String)
        ensures
            text@ == self@.status(live),
    {
        match &self.config {
            Some(c) => {
                let mut text: String = String::from_str("active session: ");
                text.append(c.session_id.as_str());
                text.append("\nstarted: ");
                text.append(c.started_at.as_str());
                text.append("\nlog directory: ");
                text.append(c.log_dir.as_str());
                text
            },
            None => if live {
                String::from_str("session is active but config not loaded")
            } else {
                String::from_str("no active session")
            },
        }
    }

    /// Decides what becomes of an event that the parser reports: it is handed
    /// back for the queue while the consumer is in place, and dropped once it
    /// is gone.
    pub fn send_log_event(&self, event: LogEvent) -> (queued: Option<LogEvent>)
        ensures
            self@.accepting ==> queued == Some(event),
            !self@.accepting ==> queued is None,
    {
        if self.accepting {
            Some(event)
        } else {
            None
        }
    }

    /// Takes one event off the queue into the command log. A start opens a
    /// new entry, output goes into its preview, and an end closes the entry
    /// and asks for the log to be stored. `spool_opened` matters for a start
    /// only: whether a spool file stands ready for the command's output.
    pub fn consume(&mut self, event: LogEvent, spool_opened: bool) -> (effect: Effect)
        ensures
            final(self)@.config == old(self)@.config,
            final(self)@.log_root == old(self)@.log_root,
            final(self)@.accepting == old(self)@.accepting,
            old(self)@.log.wf() ==> final(self)@.log.wf(),
            consumes(old(self)@.log, event@, spool_opened, final(self)@.log, effect@),
    {
        match event {
            LogEvent::CommandStart { cmd, cwd } => {
                self.command_log.start_command(cmd, cwd, spool_opened);
                Effect::Nothing
            },
            LogEvent::Output { data } => {
                self.command_log.append_output_bytes(data.as_slice());
                Effect::Nothing
            },
            LogEvent::CommandEnd { exit_code, pipestatus, cwd } => {
                let spool_name: Option<String> = self.command_log.finish_command(
                    exit_code,
                    pipestatus,
                    cwd,
                );
                Effect::Persist { spool_name }
            },
        }
    }
}

} // verus!
