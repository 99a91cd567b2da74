//! The canonical form of a log event, its identifier and its validity.

use vstd::prelude::*;
use vstd::string::{StringExecFns, StringSliceAdditionalSpecFns};
use vstd::utf8::encode_utf8;
use crate::command_log::CommandEntry;
use crate::strings::{decimal, decimal_text};

verus! {

/// A log event in its canonical form.
#[derive(Debug, Clone, PartialEq, Eq)]
pub struct LogEventV1 {
    pub id: String,
    pub schema_version: u8,
    /// RFC 3339, UTC.
    pub timestamp: String,
    pub host: String,
    /// The program that made the event.
    pub app: String,
    pub session_id: String,
    /// `INFO`, `WARN` or `ERROR`.
    pub level: String,
    pub command: String,
    pub exit_code: Option<i32>,
    pub error_type: Option<String>,
    pub message: String,
    pub tags: Vec<String>,
    /// The event as it was found, as JSON text.
    pub raw: Option<String>,
}

/// The SHA-256 digest of a byte string.
pub uninterp spec fn sha256(data: Seq<u8>) -> Seq<u8>;

/// What chrono finds wrong with a text meant as an RFC 3339 date and time,
/// in chrono's own words; `None` where the text is one.
pub uninterp spec fn rfc3339_fault(text: Seq<char>) -> Option<Seq<char>>;

/// The lower-case hexadecimal digit for `n`.
pub open spec fn hex_digit(n: int) -> char {
    if n == 0 {
        '0'
    } else if n == 1 {
        '1'
    } else if n == 2 {
        '2'
    } else if n == 3 {
        '3'
    } else if n == 4 {
        '4'
    } else if n == 5 {
        '5'
    } else if n == 6 {
        '6'
    } else if n == 7 {
        '7'
    } else if n == 8 {
        '8'
    } else if n == 9 {
        '9'
    } else if n == 10 {
        'a'
    } else if n == 11 {
        'b'
    } else if n == 12 {
        'c'
    } else if n == 13 {
        'd'
    } else if n == 14 {
        'e'
    } else {
        'f'
    }
}

/// `bytes` in lower-case hexadecimal: two digits for each byte, the high
/// half first.
pub open spec fn hex_text(bytes: Seq<u8>) -> Seq<char> {
    Seq::new(
        2 * bytes.len(),
        |i: int|
            if i % 2 == 0 {
                hex_digit(bytes[i / 2] as int / 16)
            } else {
                hex_digit(bytes[i / 2] as int % 16)
            },
    )
}

/// What an event's identifier is made from: the five texts, with a bar
/// between each two.
pub open spec fn id_input(
    host: Seq<char>,
    session_id: Seq<char>,
    timestamp: Seq<char>,
    command: Seq<char>,
    offset: Seq<char>,
) -> Seq<char> {
    host + "|"@ + session_id + "|"@ + timestamp + "|"@ + command + "|"@ + offset
}

/// The identifier of an event: the SHA-256 digest of what it is made from,
/// in hexadecimal.
pub open spec fn id_of(
    host: Seq<char>,
    session_id: Seq<char>,
    timestamp: Seq<char>,
    command: Seq<char>,
    offset: Seq<char>,
) -> Seq<char> {
    hex_text(sha256(encode_utf8(id_input(host, session_id, timestamp, command, offset))))
}

/// Whether `level` names a level of the canonical form.
pub open spec fn is_level(level: Seq<char>) -> bool {
    level == "INFO"@ || level == "WARN"@ || level == "ERROR"@
}

/// What is wrong with an event whose timestamp has the fault `fault`: the
/// first of its level, its timestamp, an empty identifier, session, host or
/// program, and a command and a message that are both empty. `None` where
/// nothing is.
pub open spec fn complaint(event: LogEventV1, fault: Option<Seq<char>>) -> Option<Seq<char>> {
    if !is_level(event.level@) {
        Some("invalid level: "@ + event.level@)
    } else if fault is Some {
        Some("invalid rfc3339 timestamp: "@ + fault->0)
    } else if event.id@.len() == 0 {
        Some("id is empty"@)
    } else if event.session_id@.len() == 0 {
        Some("session_id is empty"@)
    } else if event.host@.len() == 0 {
        Some("host is empty"@)
    } else if event.app@.len() == 0 {
        Some("app is empty"@)
    } else if event.command@.len() == 0 && event.message@.len() == 0 {
        Some("both command and message are empty"@)
    } else {
        None
    }
}

/// The complaint in a verdict.
pub open spec fn verdict_text(r: Result<(), String>) -> Option<Seq<char>> {
    match r {
        Ok(_) => None,
        Err(m) => Some(m@),
    }
}

/// Computes a SHA-256 digest with sha2's `Sha256::digest`. Trusted: the
/// digest is a function of the data alone and has 32 bytes.
#[verifier::external_body]
pub(crate) fn sha256_digest(data: &[u8]) -> (digest: Vec<u8>)
    ensures
        digest@ == sha256(data@),
        digest@.len() == 32,
{
    <sha2::Sha256 as sha2::Digest>::digest(data).to_vec()
}

/// Writes bytes in hexadecimal with `hex::encode`. Trusted: the text has two
/// lower-case digits for each byte, the high half first.
#[verifier::external_body]
pub(crate) fn hex_encode(bytes: &[u8]) -> (text: String)
    ensures
        text@ == hex_text(bytes@),
{
    hex::encode(bytes)
}

/// Reads `text` with chrono's `DateTime::parse_from_rfc3339` and hands back
/// what chrono says of a failure. Trusted: the answer is a function of the
/// text alone.
#[verifier::external_body]
pub(crate) fn check_rfc3339(text: &str) -> (fault: Option<String>)
    ensures
        crate::event::opt_text(fault) == rfc3339_fault(text@),
{
    match chrono::DateTime::parse_from_rfc3339(text) {
        Ok(_) => None,
        Err(e) => Some(e.to_string()),
    }
}

/// Whether `text` is the word `word`.
fn is_word(text: &String, word: &str) -> (r: bool)
    ensures
        r == (text@ == word@),
{
    let other: String = String::from_str(word);
    *text == other
}

impl LogEventV1 {
    /// The identifier of an event. `offset` tells events apart that agree in
    /// everything else: a position in a file, or a number in a sequence.
    pub fn make_id(host: &str, session_id: &str, timestamp: &str, command: &str, offset: &str) -> (id:
        String)
        ensures
            id@ == id_of(host@, session_id@, timestamp@, command@, offset@),
    {
        let mut input: String = String::from_str(host);
        input.append("|");
        input.append(session_id);
        input.append("|");
        input.append(timestamp);
        input.append("|");
        input.append(command);
        input.append("|");
        input.append(offset);
        let digest: Vec<u8> = sha256_digest(input.as_str().as_bytes());
        hex_encode(digest.as_slice())
    }
}

/// The level of the event for a command that returned `exit_code`.
pub open spec fn level_for(exit_code: i32) -> Seq<char> {
    if exit_code == 0 {
        "INFO"@
    } else {
        "ERROR"@
    }
}

/// The canonical event for the finished command `entry`, which is number
/// `index` in the log of session `session_id` on `host`. `timestamp` is the
/// entry's time as RFC 3339 in UTC.
pub fn event_for_entry(
    entry: &CommandEntry,
    host: &str,
    session_id: &str,
    timestamp: String,
    index: usize,
) -> (event: LogEventV1)
    ensures
        event.id@ == id_of(host@, session_id@, timestamp@, entry.cmd@, decimal_text(index as nat)),
        event.schema_version == 1,
        event.timestamp@ == timestamp@,
        event.host@ == host@,
        event.app@ == "recli"@,
        event.session_id@ == session_id@,
        event.level@ == level_for(entry.exit_code),
        event.command@ == entry.cmd@,
        event.exit_code == Some(entry.exit_code),
        event.error_type is None,
        event.message@ == entry.output_preview@,
        event.tags@.len() == 0,
        event.raw is None,
{
    let offset: String = decimal(index as u64);
    let id: String = LogEventV1::make_id(
        host,
        session_id,
        timestamp.as_str(),
        entry.cmd.as_str(),
        offset.as_str(),
    );
    let level: String = if entry.exit_code == 0 {
        String::from_str("INFO")
    } else {
        String::from_str("ERROR")
    };
    LogEventV1 {
        id,
        schema_version: 1,
        timestamp,
        host: String::from_str(host),
        app: String::from_str("recli"),
        session_id: String::from_str(session_id),
        level,
        command: entry.cmd.clone(),
        exit_code: Some(entry.exit_code),
        error_type: None,
        message: entry.output_preview.clone(),
        tags: Vec::new(),
        raw: None,
    }
}

/// Judges an event whose timestamp has been read already: `fault` is what
/// was found wrong with it, if anything.
pub fn validate_checked(event: &LogEventV1, fault: Option<String>) -> (r: Result<(), String>)
    ensures
        verdict_text(r) == complaint(*event, crate::event::opt_text(fault)),
{
    if !(is_word(&event.level, "INFO") || is_word(&event.level, "WARN") || is_word(
        &event.level,
        "ERROR",
    )) {
        return Err(String::from_str("invalid level: ").concat(event.level.as_str()));
    }
    match fault {
        Some(f) => {
            return Err(String::from_str("invalid rfc3339 timestamp: ").concat(f.as_str()));
        },
        None => {},
    }
    if event.id.as_str().is_empty() {
        return Err(String::from_str("id is empty"));
    }
    if event.session_id.as_str().is_empty() {
        return Err(String::from_str("session_id is empty"));
    }
    if event.host.as_str().is_empty() {
        return Err(String::from_str("host is empty"));
    }
    if event.app.as_str().is_empty() {
        return Err(String::from_str("app is empty"));
    }
    if event.command.as_str().is_empty() && event.message.as_str().is_empty() {
        return Err(String::from_str("both command and message are empty"));
    }
    Ok(())
}

/// Judges an event: whether it has what the canonical form asks for.
pub fn validate_event(event: &LogEventV1) -> (r: Result<(), String>)
    ensures
        verdict_text(r) == complaint(*event, rfc3339_fault(event.timestamp@)),
{
    let fault: Option<String> = check_rfc3339(event.timestamp.as_str());
    validate_checked(event, fault)
}

} // verus!
