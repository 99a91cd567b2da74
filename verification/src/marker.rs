//! The marker grammar: what stands between the record separator and the end
//! of the line.
//!
//! A marker is the byte `0x1E`, an ASCII token and a line end. The token is a
//! tag and a payload: `RECLI_START:` and the command line, `RECLI_END:` and
//! the exit code, `RECLI_PWD:` and the working directory, `RECLI_PIPE:` and
//! the bracketed exit codes of a pipeline. Any other token means nothing.

use vstd::prelude::*;
use vstd::slice::slice_subrange;
use crate::event::{opt_codes};
use crate::text::{
    first_of, has_prefix, lossy_string, lossy_text, parse_i32, read_i32,
    scan_to, starts_with, trim, trimmed,
};

verus! {

/// `RECLI_START:`
pub const START_TAG: [u8; 12] = [
    0x52, 0x45, 0x43, 0x4c, 0x49, 0x5f, 0x53, 0x54, 0x41, 0x52, 0x54, 0x3a,
];

/// `RECLI_END:`
pub const END_TAG: [u8; 10] = [0x52, 0x45, 0x43, 0x4c, 0x49, 0x5f, 0x45, 0x4e, 0x44, 0x3a];

/// `RECLI_PWD:`
pub const PWD_TAG: [u8; 10] = [0x52, 0x45, 0x43, 0x4c, 0x49, 0x5f, 0x50, 0x57, 0x44, 0x3a];

/// `RECLI_PIPE:`
pub const PIPE_TAG: [u8; 11] = [
    0x52, 0x45, 0x43, 0x4c, 0x49, 0x5f, 0x50, 0x49, 0x50, 0x45, 0x3a,
];

/// What a marker says.
#[derive(Debug, Clone, PartialEq, Eq)]
pub enum Marker {
    /// A command is about to run.
    Start { cmd: String },
    /// The command returned; `None` where the payload is no `i32`.
    End { exit_code: Option<i32> },
    /// The shell's working directory.
    Pwd { path: String },
    /// The exit codes of the pipeline's stages; `None` where the payload is
    /// no bracketed list of `i32`s with at least one member.
    Pipe { status: Option<Vec<i32>> },
    /// A token with none of the four tags.
    Other,
}

/// The mathematical value of a `Marker`.
pub enum MarkerView {
    Start { cmd: Seq<char> },
    End { exit_code: Option<i32> },
    Pwd { path: Seq<char> },
    Pipe { status: Option<Seq<i32>> },
    Other,
}

impl View for Marker {
    type V = MarkerView;

    open spec fn view(&self) -> MarkerView {
        match *self {
            Marker::Start { cmd } => MarkerView::Start { cmd: cmd@ },
            Marker::End { exit_code } => MarkerView::End { exit_code },
            Marker::Pwd { path } => MarkerView::Pwd { path: path@ },
            Marker::Pipe { status } => MarkerView::Pipe { status: opt_codes(status) },
            Marker::Other => MarkerView::Other,
        }
    }
}

/// The integers that `s` lists, separated by commas, each with blanks around
/// it at will; `None` where a member is no `i32`. The empty text lists
/// nothing, and so has no valid member.
pub open spec fn int_list(s: Seq<u8>) -> Option<Seq<i32>>
    decreases s.len(),
{
    let c = first_of(s, 0x2c, 0x2c) as int;
    match parse_i32(trim(s.take(c))) {
        None => None,
        Some(v) => if c >= s.len() {
            Some(seq![v])
        } else {
            match int_list(s.skip(c + 1)) {
                Some(rest) => Some(seq![v] + rest),
                None => None,
            }
        },
    }
}

/// The exit codes that a pipeline payload lists: blanks at will, then `[`,
/// the comma-separated integers and `]`.
pub open spec fn pipe_list(payload: Seq<u8>) -> Option<Seq<i32>> {
    let s = trim(payload);
    if s.len() >= 2 && s[0] == 0x5b && s.last() == 0x5d {
        int_list(s.subrange(1, s.len() - 1))
    } else {
        None
    }
}

/// What the token `span` says.
pub open spec fn marker_of(span: Seq<u8>) -> MarkerView {
    if has_prefix(span, START_TAG@) {
        MarkerView::Start { cmd: lossy_text(span.skip(12)) }
    } else if has_prefix(span, END_TAG@) {
        MarkerView::End { exit_code: parse_i32(trim(span.skip(10))) }
    } else if has_prefix(span, PWD_TAG@) {
        MarkerView::Pwd { path: lossy_text(span.skip(10)) }
    } else if has_prefix(span, PIPE_TAG@) {
        MarkerView::Pipe { status: pipe_list(span.skip(11)) }
    } else {
        MarkerView::Other
    }
}

/// Reads a comma-separated list of integers.
pub fn read_int_list(s: &[u8]) -> (r: Option<Vec<i32>>)
    ensures
        opt_codes(r) == int_list(s@),
{
    let n: usize = s.len();
    let mut acc: Vec<i32> = Vec::new();
    let mut pos: usize = 0;
    proof {
        assert(s@.skip(0) =~= s@);
        let whole = int_list(s@);
        if whole is Some {
            assert(acc@ + whole->0 =~= whole->0);
        }
    }
    loop
        invariant
            n == s@.len(),
            pos <= n,
            int_list(s@) == (match int_list(s@.skip(pos as int)) {
                Some(rest) => Some(acc@ + rest),
                None => None,
            }),
        decreases n - pos,
    {
        let ghost tail = s@.skip(pos as int);
        let c: usize = scan_to(s, pos, 0x2c, 0x2c);
        let part: &[u8] = slice_subrange(s, pos, c);
        proof {
            assert(part@ =~= tail.take(c - pos));
        }
        match read_i32(trimmed(part)) {
            None => {
                return None;
            },
            Some(v) => {
                if c >= n {
                    proof {
                        assert(acc@ + seq![v] =~= acc@.push(v));
                    }
                    acc.push(v);
                    return Some(acc);
                }
                proof {
                    assert(tail.skip(c - pos + 1) =~= s@.skip(c + 1));
                    let rest = int_list(s@.skip(c + 1));
                    if rest is Some {
                        assert(acc@ + (seq![v] + rest->0) =~= acc@.push(v) + rest->0);
                    }
                }
                acc.push(v);
                pos = c + 1;
            },
        }
    }
}

/// Reads the payload of a pipeline marker.
pub fn read_pipe_list(payload: &[u8]) -> (r: Option<Vec<i32>>)
    ensures
        opt_codes(r) == pipe_list(payload@),
{
    let s: &[u8] = trimmed(payload);
    let n: usize = s.len();
    if n >= 2 && s[0] == 0x5b && s[n - 1] == 0x5d {
        read_int_list(slice_subrange(s, 1, n - 1))
    } else {
        None
    }
}

/// Reads the token of a marker: what stood between the record separator and
/// the line end.
pub fn parse_marker(span: &[u8]) -> (m: Marker)
    ensures
        m@ == marker_of(span@),
{
    let n: usize = span.len();
    if starts_with(span, START_TAG.as_slice()) {
        let payload: &[u8] = slice_subrange(span, 12, n);
        proof {
            assert(payload@ =~= span@.skip(12));
        }
        Marker::Start { cmd: lossy_string(payload) }
    } else if starts_with(span, END_TAG.as_slice()) {
        let payload: &[u8] = slice_subrange(span, 10, n);
        proof {
            assert(payload@ =~= span@.skip(10));
        }
        Marker::End { exit_code: read_i32(trimmed(payload)) }
    } else if starts_with(span, PWD_TAG.as_slice()) {
        let payload: &[u8] = slice_subrange(span, 10, n);
        proof {
            assert(payload@ =~= span@.skip(10));
        }
        Marker::Pwd { path: lossy_string(payload) }
    } else if starts_with(span, PIPE_TAG.as_slice()) {
        let payload: &[u8] = slice_subrange(span, 11, n);
        proof {
            assert(payload@ =~= span@.skip(11));
        }
        Marker::Pipe { status: read_pipe_list(payload) }
    } else {
        Marker::Other
    }
}

} // verus!
