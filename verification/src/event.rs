//! The lifecycle events that the marker parser reports.

use vstd::prelude::*;

verus! {

/// One step in the life of a shell command.
#[derive(Debug, Clone, PartialEq, Eq)]
pub enum LogEvent {
    /// The shell is about to run `cmd`; `cwd` is the directory it was last
    /// known to be in.
    CommandStart { cmd: String, cwd: String },
    /// Bytes that the command wrote to the terminal.
    Output { data: Vec<u8> },
    /// The command ended.
    CommandEnd { exit_code: i32, pipestatus: Option<Vec<i32>>, cwd: String },
}

/// The mathematical value of a `LogEvent`.
pub enum LogEventView {
    CommandStart { cmd: Seq<char>, cwd: Seq<char> },
    Output { data: Seq<u8> },
    CommandEnd { exit_code: i32, pipestatus: Option<Seq<i32>>, cwd: Seq<char> },
}

/// The text in an optional string.
pub open spec fn opt_text(o: Option<String>) -> Option<Seq<char>> {
    match o {
        Some(s) => Some(s@),
        None => None,
    }
}

/// The exit codes in an optional list.
pub open spec fn opt_codes(o: Option<Vec<i32>>) -> Option<Seq<i32>> {
    match o {
        Some(v) => Some(v@),
        None => None,
    }
}

impl View for LogEvent {
    type V = LogEventView;

    open spec fn view(&self) -> LogEventView {
        match *self {
            LogEvent::CommandStart { cmd, cwd } => LogEventView::CommandStart {
                cmd: cmd@,
                cwd: cwd@,
            },
            LogEvent::Output { data } => LogEventView::Output { data: data@ },
            LogEvent::CommandEnd { exit_code, pipestatus, cwd } => LogEventView::CommandEnd {
                exit_code,
                pipestatus: opt_codes(pipestatus),
                cwd: cwd@,
            },
        }
    }
}

/// The values of a list of events, in order.
pub open spec fn events_view(events: Seq<LogEvent>) -> Seq<LogEventView> {
    events.map_values(|e: LogEvent| e@)
}

} // verus!
