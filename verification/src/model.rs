//! The parser as mathematics: its state, what one marker and one byte do to
//! it, and what a whole chunk of terminal output does.
//!
//! The executable parser in `command_detector` is proved against these
//! functions, and the laws in `laws` are stated over them.

use vstd::prelude::*;
use crate::event::LogEventView;
use crate::marker::{marker_of, MarkerView};
use crate::text::first_of;

verus! {

/// The record separator that opens a marker.
pub const RS: u8 = 0x1e;

/// Line feed.
pub const LF: u8 = 0x0a;

/// Carriage return.
pub const CR: u8 = 0x0d;

/// How long, in milliseconds, the echoed command line is waited for.
pub const SKIP_GRACE_MS: u64 = 50;

/// The exit code given to a command whose end the shell never announced.
pub const ASSUMED_EXIT_CODE: i32 = 0;

/// Whether `b` ends a line.
pub open spec fn is_eol(b: u8) -> bool {
    b == LF || b == CR
}

/// Everything the parser remembers between two chunks.
pub struct DetectorState {
    /// A marker whose line end has not arrived yet, from its record
    /// separator on; empty where there is none.
    pub carry: Seq<u8>,
    /// Whether a command is open.
    pub in_command: bool,
    /// Whether the echoed command line is still being dropped.
    pub skip_until_eol: bool,
    /// When the dropping began, in milliseconds.
    pub skip_started_at: Option<u64>,
    /// The exit code announced for the open command.
    pub pending_exit_code: Option<i32>,
    /// The pipeline's exit codes announced for the open command.
    pub pending_pipestatus: Option<Seq<i32>>,
    /// The working directory announced for the open command.
    pub pending_pwd: Option<Seq<char>>,
    /// The last working directory the shell announced.
    pub last_pwd: Option<Seq<char>>,
    /// The working directory to report while the shell has announced none.
    pub process_cwd: Seq<char>,
    /// The events queued for the log, oldest first.
    pub events: Seq<LogEventView>,
    /// Output of the open command that no queued event holds yet.
    pub open_output: Seq<u8>,
}

impl DetectorState {
    /// The state of a parser that has seen nothing.
    pub open spec fn initial(process_cwd: Seq<char>) -> DetectorState {
        DetectorState {
            carry: Seq::empty(),
            in_command: false,
            skip_until_eol: false,
            skip_started_at: None,
            pending_exit_code: None,
            pending_pipestatus: None,
            pending_pwd: None,
            last_pwd: None,
            process_cwd,
            events: Seq::empty(),
            open_output: Seq::empty(),
        }
    }

    /// What holds of every state that the parser reaches.
    pub open spec fn wf(self) -> bool {
        &&& self.carry.len() > 0 ==> self.carry[0] == RS
        &&& forall|i: int| 0 <= i < self.carry.len() ==> !is_eol(#[trigger] self.carry[i])
        &&& self.in_command ==> !(self.pending_exit_code is Some && self.pending_pwd is Some)
        &&& self.skip_until_eol <==> self.skip_started_at is Some
        &&& !self.in_command ==> self.open_output.len() == 0
        &&& forall|i: int|
            0 <= i < self.events.len() ==> (#[trigger] self.events[i] matches LogEventView::Output {
                data,
            } ==> data.len() > 0)
    }

    /// Whether no command is open and no marker is half read.
    pub open spec fn idle(self) -> bool {
        !self.in_command && self.carry.len() == 0
    }

    /// The working directory as far as it is known.
    pub open spec fn cwd(self) -> Seq<char> {
        match self.last_pwd {
            Some(p) => p,
            None => self.process_cwd,
        }
    }

    /// The queue with the open output closed into an event of its own.
    pub open spec fn queued(self) -> Seq<LogEventView> {
        if self.open_output.len() > 0 {
            self.events.push(LogEventView::Output { data: self.open_output })
        } else {
            self.events
        }
    }

    /// The state with `e` queued behind everything seen so far.
    pub open spec fn emit(self, e: LogEventView) -> DetectorState {
        DetectorState { events: self.queued().push(e), open_output: Seq::empty(), ..self }
    }

    /// The state once the queue has been handed out.
    pub open spec fn drained(self) -> DetectorState {
        DetectorState { events: Seq::empty(), open_output: Seq::empty(), ..self }
    }

    /// Whether the open command can be closed: its exit code and its working
    /// directory are both known.
    pub open spec fn ready(self) -> bool {
        self.in_command && self.pending_exit_code is Some && self.pending_pwd is Some
    }

    /// Closes the open command if it is ready.
    pub open spec fn finalized(self) -> DetectorState {
        if self.ready() {
            DetectorState {
                in_command: false,
                pending_exit_code: None,
                pending_pipestatus: None,
                pending_pwd: None,
                ..self.emit(
                    LogEventView::CommandEnd {
                        exit_code: self.pending_exit_code->0,
                        pipestatus: self.pending_pipestatus,
                        cwd: self.pending_pwd->0,
                    },
                )
            }
        } else {
            self
        }
    }

    /// The end that is made up for an open command nobody closed.
    pub open spec fn assumed_end(self) -> LogEventView {
        LogEventView::CommandEnd {
            exit_code: ASSUMED_EXIT_CODE,
            pipestatus: None,
            cwd: self.cwd(),
        }
    }

    /// Opens a command at time `now`, closing one that is still open first.
    pub open spec fn started(self, cmd: Seq<char>, now: u64) -> DetectorState {
        let closed = if self.in_command {
            self.emit(self.assumed_end())
        } else {
            self
        };
        DetectorState {
            in_command: true,
            skip_until_eol: true,
            skip_started_at: Some(now),
            pending_exit_code: None,
            pending_pipestatus: None,
            pending_pwd: None,
            ..closed.emit(LogEventView::CommandStart { cmd, cwd: self.cwd() })
        }
    }

    /// What the marker `m`, read at time `now`, does.
    pub open spec fn on_marker(self, m: MarkerView, now: u64) -> DetectorState {
        match m {
            MarkerView::Start { cmd } => self.started(cmd, now),
            MarkerView::End { exit_code } => DetectorState {
                pending_exit_code: exit_code,
                ..self
            }.finalized(),
            MarkerView::Pwd { path } => DetectorState {
                pending_pwd: Some(path),
                last_pwd: Some(path),
                ..self
            }.finalized(),
            MarkerView::Pipe { status } => (match status {
                Some(codes) => DetectorState { pending_pipestatus: Some(codes), ..self },
                None => self,
            }).finalized(),
            MarkerView::Other => self,
        }
    }

    /// Whether the echoed command line is being dropped.
    pub open spec fn skipping(self) -> bool {
        self.in_command && self.skip_until_eol
    }

    /// Whether the wait for the echoed command line is over at time `now`.
    pub open spec fn skip_expired(self, now: u64) -> bool {
        self.skip_started_at matches Some(t) && now - t >= SKIP_GRACE_MS
    }

    /// Whether the plain byte `b`, read at time `now`, reaches the display.
    pub open spec fn shows(self, b: u8, now: u64) -> bool {
        !self.skipping() || is_eol(b) || self.skip_expired(now)
    }

    /// What the plain byte `b`, read at time `now`, does.
    pub open spec fn on_byte(self, b: u8, now: u64) -> DetectorState {
        if !self.in_command {
            self
        } else if !self.skip_until_eol {
            DetectorState { open_output: self.open_output.push(b), ..self }
        } else if is_eol(b) || self.skip_expired(now) {
            DetectorState {
                skip_until_eol: false,
                skip_started_at: None,
                open_output: self.open_output.push(b),
                ..self
            }
        } else {
            self
        }
    }

    /// The state after the stream has ended: a half-read marker is given up
    /// and an open command is closed with the assumed exit code.
    pub open spec fn finished(self) -> DetectorState {
        if self.in_command {
            DetectorState {
                carry: Seq::empty(),
                in_command: false,
                pending_exit_code: None,
                pending_pipestatus: None,
                pending_pwd: None,
                ..self.emit(self.assumed_end())
            }
        } else {
            DetectorState { carry: Seq::empty(), ..self }
        }
    }
}

/// What reading a buffer comes to: the state afterwards and the bytes to show.
pub struct Scan {
    pub state: DetectorState,
    pub display: Seq<u8>,
}

/// Where the marker that opens `buf` ends: the index of its line end, or the
/// length of `buf` where the line end has not arrived.
pub open spec fn marker_end(buf: Seq<u8>) -> int {
    1 + first_of(buf.skip(1), LF, CR) as int
}

/// Reads `buf` from the front, at time `now`, in state `st`.
///
/// A record separator opens a marker. If its line end is in `buf`, the marker
/// takes effect and neither it nor its line end is shown; if not, the rest of
/// `buf` is kept whole for the next chunk. Every other byte is shown, unless
/// it belongs to the echoed command line.
pub open spec fn scan(st: DetectorState, buf: Seq<u8>, now: u64) -> Scan
    decreases buf.len(),
{
    if buf.len() == 0 {
        Scan { state: st, display: Seq::empty() }
    } else if buf[0] == RS {
        let j = marker_end(buf);
        if j >= buf.len() {
            Scan { state: DetectorState { carry: buf, ..st }, display: Seq::empty() }
        } else {
            scan(st.on_marker(marker_of(buf.subrange(1, j)), now), buf.skip(j + 1), now)
        }
    } else {
        let rest = scan(st.on_byte(buf[0], now), buf.skip(1), now);
        if st.shows(buf[0], now) {
            Scan { state: rest.state, display: seq![buf[0]] + rest.display }
        } else {
            rest
        }
    }
}

/// What the chunk `data`, read at time `now`, does in state `st`: the marker
/// that was half read comes first, then the chunk.
pub open spec fn process(st: DetectorState, data: Seq<u8>, now: u64) -> Scan {
    scan(DetectorState { carry: Seq::empty(), ..st }, st.carry + data, now)
}

} // verus!
