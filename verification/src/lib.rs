//! Capture of shell command boundaries from a terminal byte stream.
//!
//! A shell that runs inside a pseudo-terminal announces the start and the end
//! of each command by in-band marker frames. This library strips those frames
//! from the stream, turns them into lifecycle events, and keeps the record of
//! finished commands.
//!
//! - `marker` and `text` read the marker grammar.
//! - `model` says what the parser does, as mathematics; `command_detector`
//!   is the parser, proved against it; `laws` holds what follows on every
//!   input.
//! - `command_log` keeps the record of commands, `session` the session and
//!   the consumer that fills the record, `pty` the decisions of the terminal
//!   session.
//! - `io`, `cli`, `config`, `schema`, `retry` and `telemetry` hold the rules
//!   of the program's edges.
//!
//! Every function here is verified. The terminal, the disk and the process
//! table belong to the program around the library: it looks things up, hands
//! them in as plain values, and carries out what the library decides. The
//! few calls into other crates, and into the parts of the standard library
//! that have no specification, stand behind declarations whose contracts are
//! trusted; each says so in its documentation.

pub mod cli;
pub mod clock;
pub mod command_detector;
pub mod command_log;
pub mod config;
pub mod error;
pub mod event;
pub mod io;
pub mod laws;
pub mod marker;
pub mod model;
pub mod pty;
pub mod retry;
pub mod schema;
pub mod session;
pub mod strings;
pub mod telemetry;
pub mod text;
