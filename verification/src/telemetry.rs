//! How much the program logs about itself.

use vstd::prelude::*;
use vstd::string::{StringExecFns, StringSliceAdditionalSpecFns};

verus! {

/// `error`
pub const ERROR: [u8; 5] = [0x65, 0x72, 0x72, 0x6f, 0x72];

/// `warn`
pub const WARN: [u8; 4] = [0x77, 0x61, 0x72, 0x6e];

/// `debug`
pub const DEBUG: [u8; 5] = [0x64, 0x65, 0x62, 0x75, 0x67];

/// `trace`
pub const TRACE: [u8; 5] = [0x74, 0x72, 0x61, 0x63, 0x65];

/// `b` with an ASCII capital turned into its small letter.
pub open spec fn lower(b: u8) -> u8 {
    if 0x41 <= b && b <= 0x5a {
        (b + 0x20) as u8
    } else {
        b
    }
}

/// Whether `text` is `word` but for the case of its ASCII letters. `word`
/// is in small letters.
pub open spec fn spells(text: Seq<u8>, word: Seq<u8>) -> bool {
    text.len() == word.len() && forall|i: int|
        0 <= i < text.len() ==> lower(#[trigger] text[i]) == word[i]
}

/// The filter for the level that a configuration names: the level itself in
/// small letters where it is one of `error`, `warn`, `debug` and `trace`,
/// and `info` for anything else.
pub open spec fn level_filter(level: Seq<u8>) -> Seq<char> {
    if spells(level, ERROR@) {
        "error"@
    } else if spells(level, WARN@) {
        "warn"@
    } else if spells(level, DEBUG@) {
        "debug"@
    } else if spells(level, TRACE@) {
        "trace"@
    } else {
        "info"@
    }
}

/// Whether `text` is `word` but for the case of its ASCII letters.
fn spelled(text: &[u8], word: &[u8]) -> (r: bool)
    ensures
        r == spells(text@, word@),
{
    if text.len() != word.len() {
        return false;
    }
    let n: usize = text.len();
    let mut i: usize = 0;
    while i < n
        invariant
            n == text@.len(),
            n == word@.len(),
            i <= n,
            forall|k: int| 0 <= k < i ==> lower(#[trigger] text@[k]) == word@[k],
        decreases n - i,
    {
        let b: u8 = text[i];
        let small: u8 = if 0x41 <= b && b <= 0x5a {
            b + 0x20
        } else {
            b
        };
        if small != word[i] {
            return false;
        }
        i = i + 1;
    }
    true
}

/// The filter for the level that a configuration names.
pub fn map_level(level: &str) -> (filter: String)
    ensures
        filter@ == level_filter(level.spec_bytes()),
{
    let bytes: &[u8] = level.as_bytes();
    if spelled(bytes, ERROR.as_slice()) {
        String::from_str("error")
    } else if spelled(bytes, WARN.as_slice()) {
        String::from_str("warn")
    } else if spelled(bytes, DEBUG.as_slice()) {
        String::from_str("debug")
    } else if spelled(bytes, TRACE.as_slice()) {
        String::from_str("trace")
    } else {
        String::from_str("info")
    }
}

} // verus!
