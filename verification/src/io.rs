//! Keys on their way to the shell, and output on its way to the screen.

use vstd::prelude::*;
use vstd::slice::slice_to_vec;
use vstd::string::{StrSliceExecFns, StringSliceAdditionalSpecFns};
use vstd::utf8::encode_utf8;
use crate::strings::push_char;

verus! {

/// A key.
#[derive(Debug, Clone, Copy, PartialEq, Eq, Structural)]
pub enum KeyCode {
    Char(char),
    Enter,
    Backspace,
    Tab,
    Up,
    Down,
    Right,
    Left,
    /// A function key, by its number.
    F(u8),
    PageUp,
    PageDown,
    Home,
    End,
    Insert,
    Delete,
    Esc,
    /// Any key that the shell gets nothing for.
    Other,
}

/// What the terminal reports of a key.
#[derive(Debug, Clone, Copy, PartialEq, Eq, Structural)]
pub struct KeyEvent {
    pub code: KeyCode,
    /// Whether the control key was held.
    pub control: bool,
    /// Whether the key went down, rather than up or on repeating.
    pub pressed: bool,
}

/// Escape.
pub const ESC: u8 = 0x1b;

/// The bytes that stand for the key `code` on a terminal; `None` for a key
/// that has none.
pub open spec fn key_bytes(code: KeyCode) -> Option<Seq<u8>> {
    match code {
        KeyCode::Char(c) => Some(encode_utf8(seq![c])),
        KeyCode::Enter => Some(seq![0x0du8]),
        KeyCode::Backspace => Some(seq![0x7fu8]),
        KeyCode::Tab => Some(seq![0x09u8]),
        KeyCode::Up => Some(seq![ESC, 0x5bu8, 0x41u8]),
        KeyCode::Down => Some(seq![ESC, 0x5bu8, 0x42u8]),
        KeyCode::Right => Some(seq![ESC, 0x5bu8, 0x43u8]),
        KeyCode::Left => Some(seq![ESC, 0x5bu8, 0x44u8]),
        KeyCode::F(n) => if 1 <= n && n <= 12 {
            Some(
                seq![
                    ESC,
                    0x5bu8,
                    (0x30 + (n + 10) / 10) as u8,
                    (0x30 + (n + 10) % 10) as u8,
                    0x3bu8,
                    0x32u8,
                    0x7eu8,
                ],
            )
        } else {
            None
        },
        KeyCode::PageUp => Some(seq![ESC, 0x5bu8, 0x35u8, 0x7eu8]),
        KeyCode::PageDown => Some(seq![ESC, 0x5bu8, 0x36u8, 0x7eu8]),
        KeyCode::Home => Some(seq![ESC, 0x5bu8, 0x48u8]),
        KeyCode::End => Some(seq![ESC, 0x5bu8, 0x46u8]),
        KeyCode::Insert => Some(seq![ESC, 0x5bu8, 0x32u8, 0x7eu8]),
        KeyCode::Delete => Some(seq![ESC, 0x5bu8, 0x33u8, 0x7eu8]),
        KeyCode::Esc => Some(seq![ESC]),
        KeyCode::Other => None,
    }
}

/// Whether the key is the one that ends the session: control with `x`, or
/// the control character that some terminals send for it.
pub open spec fn is_exit_key(key: KeyEvent) -> bool {
    match key.code {
        KeyCode::Char(c) => (key.control && c == 'x') || c == '\u{18}',
        _ => false,
    }
}

/// What goes to the shell for a key event: nothing unless the key went down,
/// nothing for control with `x`, and otherwise the key's bytes.
pub open spec fn forwarded(key: KeyEvent) -> Option<Seq<u8>> {
    if !key.pressed {
        None
    } else if key.control && key.code == KeyCode::Char('x') {
        None
    } else {
        key_bytes(key.code)
    }
}

/// The byte that control with the letter `c` sends, for the four letters
/// that the shell is given: `c`, `d`, `z` and `l`.
pub open spec fn control_byte(c: char) -> Option<u8> {
    if c == 'c' {
        Some(3u8)
    } else if c == 'd' {
        Some(4u8)
    } else if c == 'z' {
        Some(26u8)
    } else if c == 'l' {
        Some(12u8)
    } else {
        None
    }
}

/// The view of optional bytes.
pub open spec fn opt_bytes(o: Option<Vec<u8>>) -> Option<Seq<u8>> {
    match o {
        Some(v) => Some(v@),
        None => None,
    }
}

/// Turns what the terminal reports of the keyboard into input for the shell.
pub struct InputHandler;

/// Prepares the shell's output for the screen.
pub struct OutputHandler;

/// The bytes of an escape sequence with one final byte.
fn escape1(last: u8) -> (v: Vec<u8>)
    ensures
        v@ == seq![ESC, 0x5bu8, last],
{
    let mut v: Vec<u8> = Vec::new();
    v.push(ESC);
    v.push(0x5b);
    v.push(last);
    proof {
        assert(v@ =~= seq![ESC, 0x5bu8, last]);
    }
    v
}

/// The bytes of an escape sequence with a parameter and a tilde.
fn escape_tilde(param: u8) -> (v: Vec<u8>)
    ensures
        v@ == seq![ESC, 0x5bu8, param, 0x7eu8],
{
    let mut v: Vec<u8> = Vec::new();
    v.push(ESC);
    v.push(0x5b);
    v.push(param);
    v.push(0x7e);
    proof {
        assert(v@ =~= seq![ESC, 0x5bu8, param, 0x7eu8]);
    }
    v
}

/// One byte.
fn single(b: u8) -> (v: Vec<u8>)
    ensures
        v@ == seq![b],
{
    let mut v: Vec<u8> = Vec::new();
    v.push(b);
    proof {
        assert(v@ =~= seq![b]);
    }
    v
}

impl InputHandler {
    /// The bytes to send to the shell for a key event; `None` for an event
    /// that is not forwarded.
    pub fn key_to_bytes(key_event: KeyEvent) -> (bytes: Option<Vec<u8>>)
        ensures
            opt_bytes(bytes) == forwarded(key_event),
    {
        if !key_event.pressed {
            return None;
        }
        match key_event.code {
            KeyCode::Char(c) => {
                if key_event.control && c == 'x' {
                    return None;
                }
                let mut text: String = String::new();
                push_char(&mut text, c);
                proof {
                    assert(text@ =~= seq![c]);
                }
                Some(text.as_str().as_bytes_vec())
            },
            KeyCode::Enter => Some(single(0x0d)),
            KeyCode::Backspace => Some(single(0x7f)),
            KeyCode::Tab => Some(single(0x09)),
            KeyCode::Up => Some(escape1(0x41)),
            KeyCode::Down => Some(escape1(0x42)),
            KeyCode::Right => Some(escape1(0x43)),
            KeyCode::Left => Some(escape1(0x44)),
            KeyCode::F(n) => {
                if 1 <= n && n <= 12 {
                    let number: u8 = n + 10;
                    let mut v: Vec<u8> = Vec::new();
                    v.push(ESC);
                    v.push(0x5b);
                    v.push(0x30 + number / 10);
                    v.push(0x30 + number % 10);
                    v.push(0x3b);
                    v.push(0x32);
                    v.push(0x7e);
                    proof {
                        assert(v@ =~= key_bytes(KeyCode::F(n))->0);
                    }
                    Some(v)
                } else {
                    None
                }
            },
            KeyCode::PageUp => Some(escape_tilde(0x35)),
            KeyCode::PageDown => Some(escape_tilde(0x36)),
            KeyCode::Home => Some(escape1(0x48)),
            KeyCode::End => Some(escape1(0x46)),
            KeyCode::Insert => Some(escape_tilde(0x32)),
            KeyCode::Delete => Some(escape_tilde(0x33)),
            KeyCode::Esc => Some(single(ESC)),
            KeyCode::Other => None,
        }
    }

    /// Whether the key ends the session.
    pub fn is_exit_hotkey(key_event: KeyEvent) -> (r: bool)
        ensures
            r == is_exit_key(key_event),
    {
        match key_event.code {
            KeyCode::Char(c) => (key_event.control && c == 'x') || c == '\u{18}',
            _ => false,
        }
    }

    /// The byte that control with the letter `c` sends.
    pub fn handle_control_key(c: char) -> (bytes: Option<Vec<u8>>)
        ensures
            opt_bytes(bytes) == (match control_byte(c) {
                Some(b) => Some(seq![b]),
                None => None,
            }),
    {
        if c == 'c' {
            Some(single(3))
        } else if c == 'd' {
            Some(single(4))
        } else if c == 'z' {
            Some(single(26))
        } else if c == 'l' {
            Some(single(12))
        } else {
            None
        }
    }
}

impl OutputHandler {
    /// The bytes to show for what the shell wrote: all of them, unchanged.
    pub fn process_output(buffer: &[u8]) -> (shown: Vec<u8>)
        ensures
            shown@ == buffer@,
    {
        slice_to_vec(buffer)
    }
}

} // verus!
