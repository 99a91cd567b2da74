//! The record of commands: the finished ones, in order, and the one that is
//! running.

use vstd::prelude::*;
use vstd::string::StringExecFns;
use vstd::slice::slice_subrange;
use std::time::Instant;
use crate::clock::{millis_since, utc_timestamp};
use crate::event::{opt_codes, opt_text};
use crate::strings::{
    decimal_text, fit, fitted, lemma_encode_concat, lemma_fit, push_char, push_decimal,
    push_replaced, replace_char, utf8_len,
};
use crate::text::{lossy_string, lossy_text};

verus! {

/// The most bytes of a command's output that its record keeps.
pub const PREVIEW_CAP: usize = 8192;

/// One finished command.
#[derive(Debug, Clone, PartialEq, Eq)]
pub struct CommandEntry {
    /// The command line.
    pub cmd: String,
    /// The working directory when the command ended.
    pub cwd: String,
    /// When the command ended: RFC 3339, UTC.
    pub timestamp: String,
    pub exit_code: i32,
    /// The beginning of the command's output, `PREVIEW_CAP` bytes at most.
    pub output_preview: String,
    /// The name of the file that holds the whole output, if there is one.
    pub output_path: Option<String>,
    /// The exit codes of the pipeline's stages, if the shell announced them.
    pub pipestatus: Option<Vec<i32>>,
    /// How long the command ran, in milliseconds.
    pub duration_ms: Option<u64>,
}

/// The mathematical value of a `CommandEntry`.
pub struct CommandEntryView {
    pub cmd: Seq<char>,
    pub cwd: Seq<char>,
    pub timestamp: Seq<char>,
    pub exit_code: i32,
    pub output_preview: Seq<char>,
    pub output_path: Option<Seq<char>>,
    pub pipestatus: Option<Seq<i32>>,
    pub duration_ms: Option<u64>,
}

impl View for CommandEntry {
    type V = CommandEntryView;

    open spec fn view(&self) -> CommandEntryView {
        CommandEntryView {
            cmd: self.cmd@,
            cwd: self.cwd@,
            timestamp: self.timestamp@,
            exit_code: self.exit_code,
            output_preview: self.output_preview@,
            output_path: opt_text(self.output_path),
            pipestatus: opt_codes(self.pipestatus),
            duration_ms: self.duration_ms,
        }
    }
}

/// The values of a list of entries, in order.
pub open spec fn entries_view(entries: Seq<CommandEntry>) -> Seq<CommandEntryView> {
    entries.map_values(|e: CommandEntry| e@)
}

/// The record of one session's commands.
#[derive(Debug)]
pub struct CommandLog {
    /// The finished commands, oldest first.
    pub entries: Vec<CommandEntry>,
    /// The command that is running; empty where none is.
    pub current_cmd: String,
    /// The beginning of the running command's output.
    pub current_preview: String,
    /// When the running command began.
    pub current_start_time: Option<Instant>,
    /// Whether a spool file takes the running command's whole output.
    pub spooling: bool,
}

/// The mathematical value of a `CommandLog`.
pub struct CommandLogView {
    pub entries: Seq<CommandEntryView>,
    pub current_cmd: Seq<char>,
    pub current_preview: Seq<char>,
    /// Whether the running command's start was timed.
    pub timing: bool,
    pub spooling: bool,
}

impl View for CommandLog {
    type V = CommandLogView;

    open spec fn view(&self) -> CommandLogView {
        CommandLogView {
            entries: entries_view(self.entries@),
            current_cmd: self.current_cmd@,
            current_preview: self.current_preview@,
            timing: self.current_start_time is Some,
            spooling: self.spooling,
        }
    }
}

/// The name of the file that holds the whole output of the command with
/// number `seq` that ended at `timestamp`: the timestamp with its colons
/// turned into hyphens, a hyphen, the number, and `.out`.
pub open spec fn spool_name(timestamp: Seq<char>, seq: nat) -> Seq<char> {
    replace_char(timestamp, ':', '-') + seq!['-'] + decimal_text(seq) + seq!['.', 'o', 'u', 't']
}

/// The preview after `bytes` more of output. While there is room, as many of
/// the bytes as there is room for are decoded, and as much of that text is
/// added as fits; a full preview stays as it is.
pub open spec fn preview_after(preview: Seq<char>, bytes: Seq<u8>) -> Seq<char> {
    if utf8_len(preview) < PREVIEW_CAP {
        let room = (PREVIEW_CAP - utf8_len(preview)) as nat;
        let taken = if bytes.len() <= room {
            bytes
        } else {
            bytes.take(room as int)
        };
        preview + fit(lossy_text(taken), room)
    } else {
        preview
    }
}

impl CommandLogView {
    /// The log with nothing in it.
    pub open spec fn empty() -> CommandLogView {
        CommandLogView {
            entries: Seq::empty(),
            current_cmd: Seq::empty(),
            current_preview: Seq::empty(),
            timing: false,
            spooling: false,
        }
    }

    /// What holds of every log that these functions make: no preview is
    /// longer than `PREVIEW_CAP` bytes.
    pub open spec fn wf(self) -> bool {
        &&& utf8_len(self.current_preview) <= PREVIEW_CAP
        &&& forall|i: int|
            0 <= i < self.entries.len() ==> utf8_len(#[trigger] self.entries[i].output_preview)
                <= PREVIEW_CAP
    }

    /// The log once the command `cmd` has begun.
    pub open spec fn started(self, cmd: Seq<char>, spooling: bool) -> CommandLogView {
        CommandLogView {
            current_cmd: cmd,
            current_preview: Seq::empty(),
            timing: true,
            spooling,
            ..self
        }
    }

    /// The log after `bytes` more of output.
    pub open spec fn appended(self, bytes: Seq<u8>) -> CommandLogView {
        CommandLogView { current_preview: preview_after(self.current_preview, bytes), ..self }
    }

    /// The name that the running command's spool file gets when the command
    /// ends at `timestamp`.
    pub open spec fn output_path(self, timestamp: Seq<char>) -> Option<Seq<char>> {
        if self.spooling {
            Some(spool_name(timestamp, self.entries.len()))
        } else {
            None
        }
    }

    /// The entry that the running command leaves when it ends.
    pub open spec fn closing_entry(
        self,
        exit_code: i32,
        pipestatus: Option<Seq<i32>>,
        cwd: Seq<char>,
        timestamp: Seq<char>,
        duration_ms: Option<u64>,
    ) -> CommandEntryView {
        CommandEntryView {
            cmd: self.current_cmd,
            cwd,
            timestamp,
            exit_code,
            output_preview: self.current_preview,
            output_path: self.output_path(timestamp),
            pipestatus,
            duration_ms,
        }
    }

    /// The log once the running command has ended. Where none is running,
    /// nothing changes.
    pub open spec fn finished(
        self,
        exit_code: i32,
        pipestatus: Option<Seq<i32>>,
        cwd: Seq<char>,
        timestamp: Seq<char>,
        duration_ms: Option<u64>,
    ) -> CommandLogView {
        if self.current_cmd.len() == 0 {
            self
        } else {
            CommandLogView {
                entries: self.entries.push(
                    self.closing_entry(exit_code, pipestatus, cwd, timestamp, duration_ms),
                ),
                ..CommandLogView::empty()
            }
        }
    }

    /// The name that is handed out for the spool file when the running
    /// command ends at `timestamp`; none where no command is running.
    pub open spec fn handed_out(self, timestamp: Seq<char>) -> Option<Seq<char>> {
        if self.current_cmd.len() == 0 {
            None
        } else {
            self.output_path(timestamp)
        }
    }

    /// Whether `after` and `name` are what the end of the running command at
    /// `timestamp`, after `duration_ms`, makes of this log. There is a
    /// duration exactly where the command's start was timed.
    pub open spec fn ends_as(
        self,
        exit_code: i32,
        pipestatus: Option<Seq<i32>>,
        cwd: Seq<char>,
        timestamp: Seq<char>,
        duration_ms: Option<u64>,
        after: CommandLogView,
        name: Option<Seq<char>>,
    ) -> bool {
        &&& duration_ms is Some <==> self.timing
        &&& after == self.finished(exit_code, pipestatus, cwd, timestamp, duration_ms)
        &&& name == self.handed_out(timestamp)
    }

    /// Whether `after` and `name` are what the end of the running command
    /// makes of this log, at some moment and after some duration.
    pub open spec fn ends(
        self,
        exit_code: i32,
        pipestatus: Option<Seq<i32>>,
        cwd: Seq<char>,
        after: CommandLogView,
        name: Option<Seq<char>>,
    ) -> bool {
        exists|timestamp: Seq<char>, duration_ms: Option<u64>|
            #![trigger self.ends_as(exit_code, pipestatus, cwd, timestamp, duration_ms, after, name)]
            self.ends_as(exit_code, pipestatus, cwd, timestamp, duration_ms, after, name)
    }

    /// The last `count` entries, in order; all of them where there are fewer.
    pub open spec fn recent(self, count: nat) -> Seq<CommandEntryView> {
        if self.entries.len() > count {
            self.entries.skip(self.entries.len() - count)
        } else {
            self.entries
        }
    }
}

/// The preview never outgrows its cap.
pub proof fn lemma_preview_stays_capped(preview: Seq<char>, bytes: Seq<u8>)
    requires
        utf8_len(preview) <= PREVIEW_CAP,
    ensures
        utf8_len(preview_after(preview, bytes)) <= PREVIEW_CAP,
{
    if utf8_len(preview) < PREVIEW_CAP {
        let room = (PREVIEW_CAP - utf8_len(preview)) as nat;
        let taken = if bytes.len() <= room {
            bytes
        } else {
            bytes.take(room as int)
        };
        lemma_fit(lossy_text(taken), room);
        lemma_encode_concat(preview, fit(lossy_text(taken), room));
    }
}

/// The finished commands are history: beginning a command and taking in its
/// output leave them as they are, and ending a command adds one entry behind
/// them, or none where no command was running.
pub proof fn lemma_history_is_append_only(
    log: CommandLogView,
    cmd: Seq<char>,
    spooling: bool,
    bytes: Seq<u8>,
    exit_code: i32,
    pipestatus: Option<Seq<i32>>,
    cwd: Seq<char>,
    timestamp: Seq<char>,
    duration_ms: Option<u64>,
)
    ensures
        log.started(cmd, spooling).entries == log.entries,
        log.appended(bytes).entries == log.entries,
        ({
            let after = log.finished(exit_code, pipestatus, cwd, timestamp, duration_ms);
            &&& after.entries.len() == log.entries.len() + (if log.current_cmd.len() == 0 {
                0int
            } else {
                1int
            })
            &&& after.entries.take(log.entries.len() as int) == log.entries
        }),
{
    let after = log.finished(exit_code, pipestatus, cwd, timestamp, duration_ms);
    assert(after.entries.take(log.entries.len() as int) =~= log.entries);
}

/// The recent entries are the end of the history, in its order: as many as
/// were asked for, or all of them where there are no more.
pub proof fn lemma_recent_is_the_end(log: CommandLogView, count: nat)
    ensures
        log.recent(count).len() == (if count < log.entries.len() {
            count
        } else {
            log.entries.len()
        }),
        forall|i: int|
            0 <= i < log.recent(count).len() ==> #[trigger] log.recent(count)[i]
                == log.entries[log.entries.len() - log.recent(count).len() + i],
        count >= log.entries.len() ==> log.recent(count) == log.entries,
{
}

/// Makes the name of a spool file.
pub fn make_spool_name(timestamp: &str, seq: usize) -> (name: String)
    ensures
        name@ == spool_name(timestamp@, seq as nat),
{
    let mut name: String = String::new();
    push_replaced(&mut name, timestamp, ':', '-');
    push_char(&mut name, '-');
    push_decimal(&mut name, seq as u64);
    push_char(&mut name, '.');
    push_char(&mut name, 'o');
    push_char(&mut name, 'u');
    push_char(&mut name, 't');
    proof {
        assert(name@ =~= spool_name(timestamp@, seq as nat));
    }
    name
}

impl CommandLog {
    /// A log with nothing in it.
    pub fn new() -> (log: CommandLog)
        ensures
            log@ == CommandLogView::empty(),
            log@.wf(),
    {
        let log = CommandLog {
            entries: Vec::new(),
            current_cmd: String::new(),
            current_preview: String::new(),
            current_start_time: None,
            spooling: false,
        };
        proof {
            assert(log@.entries =~= Seq::empty());
        }
        log
    }

    /// A log that holds `entries` and no running command: what a stored log
    /// comes back as.
    pub fn from_entries(entries: Vec<CommandEntry>) -> (log: CommandLog)
        ensures
            log@ == (CommandLogView { entries: entries_view(entries@), ..CommandLogView::empty() }),
    {
        CommandLog {
            entries,
            current_cmd: String::new(),
            current_preview: String::new(),
            current_start_time: None,
            spooling: false,
        }
    }

    /// Begins the command `cmd_string`: whatever was gathered for a command
    /// before is dropped, and the clock starts. `spool_opened` says whether a
    /// spool file stands ready for the whole output.
    pub fn start_command(&mut self, cmd_string: String, _cwd: String, spool_opened: bool)
        ensures
            final(self)@ == old(self)@.started(cmd_string@, spool_opened),
            old(self)@.wf() ==> final(self)@.wf(),
    {
        self.current_cmd = cmd_string;
        self.current_preview = String::new();
        self.current_start_time = Some(Instant::now());
        self.spooling = spool_opened;
        proof {
            assert(utf8_len(Seq::<char>::empty()) == 0) by {
                reveal_with_fuel(vstd::utf8::encode_utf8, 1);
            }
        }
    }

    /// Takes in more output of the running command, as text.
    pub fn append_output(&mut self, output: &str)
        ensures
            final(self)@ == old(self)@.appended(vstd::utf8::encode_utf8(output@)),
            old(self)@.wf() ==> final(self)@.wf(),
    {
        self.append_output_bytes(output.as_bytes());
    }

    /// Takes in more output of the running command.
    pub fn append_output_bytes(&mut self, bytes: &[u8])
        ensures
            final(self)@ == old(self)@.appended(bytes@),
            old(self)@.wf() ==> final(self)@.wf(),
    {
        proof {
            if old(self)@.wf() {
                lemma_preview_stays_capped(old(self)@.current_preview, bytes@);
            }
        }
        let used: usize = self.current_preview.as_str().as_bytes().len();
        if used < PREVIEW_CAP {
            let room: usize = PREVIEW_CAP - used;
            let take: usize = if bytes.len() <= room {
                bytes.len()
            } else {
                room
            };
            let taken: &[u8] = slice_subrange(bytes, 0, take);
            proof {
                if bytes@.len() <= room {
                    assert(taken@ =~= bytes@);
                } else {
                    assert(taken@ =~= bytes@.take(room as int));
                }
            }
            let snippet: String = lossy_string(taken);
            self.current_preview.append(fitted(snippet.as_str(), room));
        }
    }

    /// Ends the running command at `timestamp`, after `duration_ms`, and adds
    /// its entry to the log. Returns the name that the command's spool file
    /// is to get, if it has one. Where no command is running, nothing
    /// happens.
    pub fn finish_command_at(
        &mut self,
        exit_code: i32,
        pipestatus: Option<Vec<i32>>,
        cwd: String,
        timestamp: String,
        duration_ms: Option<u64>,
    ) -> (output_path: Option<String>)
        ensures
            final(self)@ == old(self)@.finished(
                exit_code,
                opt_codes(pipestatus),
                cwd@,
                timestamp@,
                duration_ms,
            ),
            opt_text(output_path) == old(self)@.handed_out(timestamp@),
            old(self)@.wf() ==> final(self)@.wf(),
    {
        if self.current_cmd.as_str().is_empty() {
            return None;
        }
        let output_path: Option<String> = if self.spooling {
            Some(make_spool_name(timestamp.as_str(), self.entries.len()))
        } else {
            None
        };
        let returned: Option<String> = match &output_path {
            Some(name) => Some(name.clone()),
            None => None,
        };
        let mut cmd: String = String::new();
        let mut preview: String = String::new();
        std::mem::swap(&mut cmd, &mut self.current_cmd);
        std::mem::swap(&mut preview, &mut self.current_preview);
        let entry = CommandEntry {
            cmd,
            cwd,
            timestamp,
            exit_code,
            output_preview: preview,
            output_path,
            pipestatus,
            duration_ms,
        };
        let ghost before = self.entries@;
        self.entries.push(entry);
        self.current_start_time = None;
        self.spooling = false;
        proof {
            assert(entries_view(before.push(entry)) =~= entries_view(before).push(entry@));
            assert(utf8_len(Seq::<char>::empty()) == 0) by {
                reveal_with_fuel(vstd::utf8::encode_utf8, 1);
            }
        }
        returned
    }

    /// Ends the running command now: the entry is stamped with the present
    /// moment, and with the time since the command began if that was taken.
    /// Whatever the clocks say, the command ends as `finish_command_at` ends
    /// it.
    pub fn finish_command(
        &mut self,
        exit_code: i32,
        pipestatus: Option<Vec<i32>>,
        cwd: String,
    ) -> (output_path: Option<String>)
        ensures
            old(self)@.ends(
                exit_code,
                opt_codes(pipestatus),
                cwd@,
                final(self)@,
                opt_text(output_path),
            ),
            old(self)@.wf() ==> final(self)@.wf(),
    {
        let ghost codes = opt_codes(pipestatus);
        let ghost dir = cwd@;
        let timestamp: String = utc_timestamp();
        let duration_ms: Option<u64> = match &self.current_start_time {
            Some(start) => Some(millis_since(start)),
            None => None,
        };
        let ghost stamp = timestamp@;
        let output_path: Option<String> = self.finish_command_at(
            exit_code,
            pipestatus,
            cwd,
            timestamp,
            duration_ms,
        );
        proof {
            assert(old(self)@.ends_as(
                exit_code,
                codes,
                dir,
                stamp,
                duration_ms,
                self@,
                opt_text(output_path),
            ));
        }
        output_path
    }

    /// Ends a command that is still running, with exit code 0 and no
    /// pipeline. Where none is running, nothing happens.
    pub fn force_flush(&mut self, cwd: String) -> (output_path: Option<String>)
        ensures
            old(self)@.current_cmd.len() == 0 ==> final(self)@ == old(self)@ && output_path
                is None,
            old(self)@.current_cmd.len() > 0 ==> old(self)@.ends(
                0,
                None,
                cwd@,
                final(self)@,
                opt_text(output_path),
            ),
            old(self)@.wf() ==> final(self)@.wf(),
    {
        if !self.current_cmd.as_str().is_empty() {
            self.finish_command(0, None, cwd)
        } else {
            None
        }
    }

    /// The last `count` entries, oldest first; all of them where the log
    /// holds fewer.
    pub fn get_recent(&self, count: usize) -> (recent: Vec<&CommandEntry>)
        ensures
            recent@.map_values(|e: &CommandEntry| e@) == self@.recent(count as nat),
    {
        let n: usize = self.entries.len();
        let start: usize = if n > count {
            n - count
        } else {
            0
        };
        let mut recent: Vec<&CommandEntry> = Vec::new();
        let mut i: usize = start;
        while i < n
            invariant
                n == self.entries@.len(),
                start <= i <= n,
                recent@.len() == i - start,
                forall|k: int| 0 <= k < i - start ==> *recent@[k] == self.entries@[start + k],
            decreases n - i,
        {
            recent.push(&self.entries[i]);
            i = i + 1;
        }
        proof {
            assert(recent@.map_values(|e: &CommandEntry| e@) =~= self@.recent(count as nat));
        }
        recent
    }

    /// All entries, oldest first.
    pub fn get_all(&self) -> (entries: &Vec<CommandEntry>)
        ensures
            entries == &self.entries,
    {
        &self.entries
    }

    /// Forgets everything: the entries and the running command.
    pub fn clear(&mut self)
        ensures
            final(self)@ == CommandLogView::empty(),
            final(self)@.wf(),
    {
        self.entries.clear();
        self.current_cmd = String::new();
        self.current_preview = String::new();
        self.current_start_time = None;
        self.spooling = false;
        proof {
            assert(self@.entries =~= Seq::empty());
            assert(utf8_len(Seq::<char>::empty()) == 0) by {
                reveal_with_fuel(vstd::utf8::encode_utf8, 1);
            }
        }
    }
}

} // verus!
