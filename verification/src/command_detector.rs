//! The streaming marker parser.
//!
//! `CommandDetector` takes the terminal's output chunk by chunk. It hands
//! back the bytes to show, with every marker taken out and nothing else
//! touched, and queues the lifecycle events that the markers announce.

use vstd::prelude::*;
use vstd::slice::slice_subrange;
use std::time::Instant;
use crate::clock::millis_since;
use crate::event::{events_view, opt_codes, opt_text, LogEvent, LogEventView};
use crate::laws::{lemma_finish_keeps_wf, lemma_marker_keeps_wf, lemma_process_keeps_wf};
use crate::marker::{parse_marker, Marker};
use crate::model::{
    marker_end, process, scan, DetectorState, ASSUMED_EXIT_CODE, CR, LF, RS, SKIP_GRACE_MS,
};
use crate::text::scan_to;

verus! {

/// A parser for one terminal session.
#[derive(Debug)]
pub struct CommandDetector {
    carry: Vec<u8>,
    in_command: bool,
    skip_until_eol: bool,
    skip_started_at: Option<u64>,
    pending_exit_code: Option<i32>,
    pending_pipestatus: Option<Vec<i32>>,
    pending_pwd: Option<String>,
    last_pwd: Option<String>,
    process_cwd: String,
    events: Vec<LogEvent>,
    open_output: Vec<u8>,
    epoch: Instant,
}

impl View for CommandDetector {
    type V = DetectorState;

    closed spec fn view(&self) -> DetectorState {
        DetectorState {
            carry: self.carry@,
            in_command: self.in_command,
            skip_until_eol: self.skip_until_eol,
            skip_started_at: self.skip_started_at,
            pending_exit_code: self.pending_exit_code,
            pending_pipestatus: opt_codes(self.pending_pipestatus),
            pending_pwd: opt_text(self.pending_pwd),
            last_pwd: opt_text(self.last_pwd),
            process_cwd: self.process_cwd@,
            events: events_view(self.events@),
            open_output: self.open_output@,
        }
    }
}

impl CommandDetector {
    /// A parser that has seen nothing. `process_cwd` is the working directory
    /// to report until the shell announces its own. The parser's clock starts
    /// now.
    pub fn new(process_cwd: String) -> (d: CommandDetector)
        ensures
            d@ == DetectorState::initial(process_cwd@),
            d@.wf(),
    {
        let d = CommandDetector {
            carry: Vec::new(),
            in_command: false,
            skip_until_eol: false,
            skip_started_at: None,
            pending_exit_code: None,
            pending_pipestatus: None,
            pending_pwd: None,
            last_pwd: None,
            process_cwd,
            events: Vec::new(),
            open_output: Vec::new(),
            epoch: Instant::now(),
        };
        proof {
            assert(d@.events =~= Seq::empty());
        }
        d
    }

    /// Whether a command is open.
    pub fn in_command(&self) -> (r: bool)
        ensures
            r == self@.in_command,
    {
        self.in_command
    }

    /// Whether a marker is half read.
    pub fn has_partial_marker(&self) -> (r: bool)
        ensures
            r == (self@.carry.len() > 0),
    {
        self.carry.len() > 0
    }

    /// The working directory as far as it is known.
    pub fn current_dir(&self) -> (r: String)
        ensures
            r@ == self@.cwd(),
    {
        match &self.last_pwd {
            Some(p) => p.clone(),
            None => self.process_cwd.clone(),
        }
    }

    /// Closes the open output into an event of its own.
    fn flush(&mut self)
        ensures
            final(self)@ == (DetectorState {
                events: old(self)@.queued(),
                open_output: Seq::empty(),
                ..old(self)@
            }),
    {
        if self.open_output.len() > 0 {
            let mut data: Vec<u8> = Vec::new();
            data.append(&mut self.open_output);
            let ghost before = self.events@;
            let e = LogEvent::Output { data };
            self.events.push(e);
            proof {
                assert(events_view(before.push(e)) =~= events_view(before).push(e@));
            }
        }
        proof {
            assert(self@.open_output =~= Seq::empty());
        }
    }

    /// Queues `e` behind everything seen so far.
    fn emit(&mut self, e: LogEvent)
        ensures
            final(self)@ == old(self)@.emit(e@),
    {
        self.flush();
        let ghost before = self.events@;
        self.events.push(e);
        proof {
            assert(events_view(before.push(e)) =~= events_view(before).push(e@));
        }
    }

    /// Queues the end of a command whose pipeline is unknown.
    fn send_end_event(&mut self, exit_code: i32, cwd: String)
        ensures
            final(self)@ == old(self)@.emit(
                LogEventView::CommandEnd { exit_code, pipestatus: None, cwd: cwd@ },
            ),
    {
        self.emit(LogEvent::CommandEnd { exit_code, pipestatus: None, cwd });
    }

    /// Queues the end of a command.
    fn send_end_event_with_pipe(
        &mut self,
        exit_code: i32,
        pipestatus: Option<Vec<i32>>,
        cwd: String,
    )
        ensures
            final(self)@ == old(self)@.emit(
                LogEventView::CommandEnd {
                    exit_code,
                    pipestatus: opt_codes(pipestatus),
                    cwd: cwd@,
                },
            ),
    {
        self.emit(LogEvent::CommandEnd { exit_code, pipestatus, cwd });
    }

    /// Closes the open command if its exit code and its working directory
    /// are both known.
    fn try_finish_when_ready(&mut self)
        ensures
            final(self)@ == old(self)@.finalized(),
    {
        if self.in_command && self.pending_exit_code.is_some() && self.pending_pwd.is_some() {
            let exit_code: i32 = self.pending_exit_code.unwrap();
            let pwd: String = self.pending_pwd.take().unwrap();
            let pipe: Option<Vec<i32>> = self.pending_pipestatus.take();
            self.send_end_event_with_pipe(exit_code, pipe, pwd);
            self.in_command = false;
            self.pending_exit_code = None;
        }
    }

    /// Opens a command, closing one that is still open first.
    fn start_command(&mut self, cmd: String, now_ms: u64)
        ensures
            final(self)@ == old(self)@.started(cmd@, now_ms),
    {
        let cwd: String = self.current_dir();
        if self.in_command {
            let end_cwd: String = self.current_dir();
            self.send_end_event(ASSUMED_EXIT_CODE, end_cwd);
        }
        self.in_command = true;
        self.skip_until_eol = true;
        self.skip_started_at = Some(now_ms);
        self.pending_exit_code = None;
        self.pending_pipestatus = None;
        self.pending_pwd = None;
        self.emit(LogEvent::CommandStart { cmd, cwd });
    }

    /// Takes in what a marker says. `now_ms` is the time in milliseconds.
    pub fn handle_marker(&mut self, marker: Marker, now_ms: u64)
        ensures
            final(self)@ == old(self)@.on_marker(marker@, now_ms),
            old(self)@.wf() ==> final(self)@.wf(),
    {
        proof {
            if old(self)@.wf() {
                lemma_marker_keeps_wf(old(self)@, marker@, now_ms);
            }
        }
        match marker {
            Marker::Start { cmd } => {
                self.start_command(cmd, now_ms);
            },
            Marker::End { exit_code } => {
                self.pending_exit_code = exit_code;
                self.try_finish_when_ready();
            },
            Marker::Pwd { path } => {
                self.pending_pwd = Some(path.clone());
                self.last_pwd = Some(path);
                self.try_finish_when_ready();
            },
            Marker::Pipe { status } => {
                match status {
                    Some(codes) => {
                        self.pending_pipestatus = Some(codes);
                    },
                    None => {},
                }
                self.try_finish_when_ready();
            },
            Marker::Other => {},
        }
    }

    /// Takes in one byte that belongs to no marker; says whether to show it.
    fn handle_byte(&mut self, b: u8, now_ms: u64) -> (shown: bool)
        ensures
            final(self)@ == old(self)@.on_byte(b, now_ms),
            shown == old(self)@.shows(b, now_ms),
    {
        if !self.in_command {
            return true;
        }
        if self.skip_until_eol {
            let expired: bool = match self.skip_started_at {
                Some(t) => now_ms >= t && now_ms - t >= SKIP_GRACE_MS,
                None => false,
            };
            if b == LF || b == CR || expired {
                self.skip_until_eol = false;
                self.skip_started_at = None;
            } else {
                return false;
            }
        }
        self.open_output.push(b);
        true
    }

    /// Takes in the next chunk of terminal output, read at time `now_ms`
    /// (milliseconds on any clock that does not run backwards), and returns
    /// the bytes to show.
    pub fn process_output_at(&mut self, data: &[u8], now_ms: u64) -> (out: Vec<u8>)
        ensures
            final(self)@ == process(old(self)@, data@, now_ms).state,
            out@ == process(old(self)@, data@, now_ms).display,
            old(self)@.wf() ==> final(self)@.wf(),
    {
        proof {
            if old(self)@.wf() {
                lemma_process_keeps_wf(old(self)@, data@, now_ms);
            }
        }
        let mut buf: Vec<u8> = Vec::new();
        buf.append(&mut self.carry);
        buf.extend_from_slice(data);
        let n: usize = buf.len();
        let mut out: Vec<u8> = Vec::new();
        let mut i: usize = 0;
        let ghost goal = process(old(self)@, data@, now_ms);
        proof {
            assert(buf@ =~= old(self)@.carry + data@);
            assert(buf@.skip(0) =~= buf@);
            assert(self@ == DetectorState { carry: Seq::empty(), ..old(self)@ });
            assert(out@ + goal.display =~= goal.display);
        }
        while i < n
            invariant
                n == buf@.len(),
                i <= n,
                self@.carry.len() == 0 || i == n,
                goal.state == scan(self@, buf@.skip(i as int), now_ms).state,
                goal.display == out@ + scan(self@, buf@.skip(i as int), now_ms).display,
            decreases n - i,
        {
            let ghost tail = buf@.skip(i as int);
            let ghost before = self@;
            let b: u8 = buf[i];
            if b == RS {
                let j: usize = scan_to(buf.as_slice(), i + 1, LF, CR);
                proof {
                    assert(tail.skip(1) =~= buf@.skip(i + 1));
                    assert(marker_end(tail) == j - i);
                }
                if j >= n {
                    let mut k: usize = i;
                    while k < n
                        invariant
                            n == buf@.len(),
                            i <= k <= n,
                            self.carry@ == buf@.subrange(i as int, k as int),
                            self@ == (DetectorState { carry: self.carry@, ..before }),
                        decreases n - k,
                    {
                        self.carry.push(buf[k]);
                        proof {
                            assert(self.carry@ =~= buf@.subrange(i as int, k + 1));
                        }
                        k = k + 1;
                    }
                    proof {
                        assert(self.carry@ =~= tail);
                        assert(buf@.skip(n as int) =~= Seq::<u8>::empty());
                        assert(out@ + Seq::<u8>::empty() =~= out@);
                    }
                    i = n;
                } else {
                    let span: &[u8] = slice_subrange(buf.as_slice(), i + 1, j);
                    proof {
                        assert(span@ =~= tail.subrange(1, j - i));
                        assert(tail.skip(j - i + 1) =~= buf@.skip(j + 1));
                    }
                    let m: Marker = parse_marker(span);
                    self.handle_marker(m, now_ms);
                    i = j + 1;
                }
            } else {
                proof {
                    assert(tail.skip(1) =~= buf@.skip(i + 1));
                }
                let shown: bool = self.handle_byte(b, now_ms);
                if shown {
                    proof {
                        let rest = scan(self@, buf@.skip(i + 1), now_ms).display;
                        assert(out@ + (seq![b] + rest) =~= out@.push(b) + rest);
                    }
                    out.push(b);
                }
                i = i + 1;
            }
        }
        proof {
            assert(buf@.skip(n as int) =~= Seq::<u8>::empty());
            assert(out@ + Seq::<u8>::empty() =~= out@);
        }
        out
    }

    /// Takes in the next chunk of terminal output and returns the bytes to
    /// show. The chunk counts as read at the moment of the call, on the
    /// parser's own clock; whatever that moment is, the chunk is read as
    /// `process_output_at` reads it.
    pub fn process_output(&mut self, data: &[u8]) -> (out: Vec<u8>)
        ensures
            exists|now_ms: u64|
                #![trigger process(old(self)@, data@, now_ms)]
                final(self)@ == process(old(self)@, data@, now_ms).state && out@ == process(
                    old(self)@,
                    data@,
                    now_ms,
                ).display,
            old(self)@.wf() ==> final(self)@.wf(),
    {
        let now_ms: u64 = millis_since(&self.epoch);
        self.process_output_at(data, now_ms)
    }

    /// Ends the stream: a half-read marker is given up, and a command that
    /// is still open is closed with exit code 0 and the working directory as
    /// far as it is known. A second call changes nothing.
    pub fn finish(&mut self)
        ensures
            final(self)@ == old(self)@.finished(),
            old(self)@.wf() ==> final(self)@.wf(),
    {
        proof {
            if old(self)@.wf() {
                lemma_finish_keeps_wf(old(self)@);
            }
        }
        self.carry = Vec::new();
        if self.in_command {
            let cwd: String = self.current_dir();
            self.send_end_event(ASSUMED_EXIT_CODE, cwd);
            self.in_command = false;
            self.pending_exit_code = None;
            self.pending_pipestatus = None;
            self.pending_pwd = None;
        }
    }

    /// Hands out the queued events, oldest first, and empties the queue.
    /// Output that no event holds yet leaves as a last event of its own.
    pub fn take_events(&mut self) -> (events: Vec<LogEvent>)
        ensures
            events_view(events@) == old(self)@.queued(),
            final(self)@ == old(self)@.drained(),
            old(self)@.wf() ==> final(self)@.wf(),
    {
        self.flush();
        let mut events: Vec<LogEvent> = Vec::new();
        events.append(&mut self.events);
        proof {
            assert(events_view(self.events@) =~= Seq::empty());
        }
        events
    }
}

} // verus!
