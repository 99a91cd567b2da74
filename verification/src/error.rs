//! What can go wrong, by the part of the system it goes wrong in.

use vstd::prelude::*;
use vstd::string::StringExecFns;

verus! {

/// An error of the session, with the message of its cause.
#[derive(Debug, Clone, PartialEq, Eq)]
pub enum RecliError {
    /// Reading or writing failed.
    Io(String),
    /// The pseudo-terminal failed.
    Pty(String),
    /// The terminal's mode could not be changed or read.
    Terminal(String),
    /// The shell process failed.
    Shell(String),
    /// The session could not be started or stopped.
    Session(String),
    /// The log could not be written as JSON, or read back.
    Json(String),
}

/// The mathematical value of a `RecliError`.
pub enum RecliErrorView {
    Io(Seq<char>),
    Pty(Seq<char>),
    Terminal(Seq<char>),
    Shell(Seq<char>),
    Session(Seq<char>),
    Json(Seq<char>),
}

impl View for RecliError {
    type V = RecliErrorView;

    open spec fn view(&self) -> RecliErrorView {
        match *self {
            RecliError::Io(m) => RecliErrorView::Io(m@),
            RecliError::Pty(m) => RecliErrorView::Pty(m@),
            RecliError::Terminal(m) => RecliErrorView::Terminal(m@),
            RecliError::Shell(m) => RecliErrorView::Shell(m@),
            RecliError::Session(m) => RecliErrorView::Session(m@),
            RecliError::Json(m) => RecliErrorView::Json(m@),
        }
    }
}

impl RecliErrorView {
    /// The error in words: the name of its domain, then the message.
    pub open spec fn text(self) -> Seq<char> {
        match self {
            RecliErrorView::Io(m) => "IO error: "@ + m,
            RecliErrorView::Pty(m) => "PTY error: "@ + m,
            RecliErrorView::Terminal(m) => "Terminal error: "@ + m,
            RecliErrorView::Shell(m) => "Shell error: "@ + m,
            RecliErrorView::Session(m) => "Session error: "@ + m,
            RecliErrorView::Json(m) => "JSON error: "@ + m,
        }
    }
}

impl RecliError {
    /// The error in words.
    pub fn describe(&self) -> (text: String)
        ensures
            text@ == self@.text(),
    {
        match self {
            RecliError::Io(m) => String::from_str("IO error: ").concat(m.as_str()),
            RecliError::Pty(m) => String::from_str("PTY error: ").concat(m.as_str()),
            RecliError::Terminal(m) => String::from_str("Terminal error: ").concat(m.as_str()),
            RecliError::Shell(m) => String::from_str("Shell error: ").concat(m.as_str()),
            RecliError::Session(m) => String::from_str("Session error: ").concat(m.as_str()),
            RecliError::Json(m) => String::from_str("JSON error: ").concat(m.as_str()),
        }
    }
}

} // verus!
