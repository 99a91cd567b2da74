//! What holds of the parser on every input.
//!
//! Each proof function here states one law over the model of `model`, which
//! is what the contracts of `CommandDetector` speak of.

use vstd::prelude::*;
use crate::event::LogEventView;
use crate::marker::{marker_of, MarkerView};
use crate::model::{is_eol, marker_end, process, scan, DetectorState, CR, LF, RS};
use crate::text::{first_of, lemma_first_of, lemma_first_of_bounds};

verus! {

/// Whether no byte of `s` is a record separator.
pub open spec fn no_separator(s: Seq<u8>) -> bool {
    forall|i: int| 0 <= i < s.len() ==> #[trigger] s[i] != RS
}

/// Whether no byte of `s` ends a line.
pub open spec fn no_eol(s: Seq<u8>) -> bool {
    forall|i: int| 0 <= i < s.len() ==> !is_eol(#[trigger] s[i])
}

/// A state whose half-read marker has been taken out.
pub open spec fn without_carry(st: DetectorState) -> DetectorState {
    DetectorState { carry: Seq::empty(), ..st }
}

/// A marker leaves a well-formed state well-formed.
pub proof fn lemma_marker_keeps_wf(st: DetectorState, m: MarkerView, now: u64)
    requires
        st.wf(),
    ensures
        st.on_marker(m, now).wf(),
        st.on_marker(m, now).carry == st.carry,
{
}

/// A plain byte leaves a well-formed state well-formed.
pub proof fn lemma_byte_keeps_wf(st: DetectorState, b: u8, now: u64)
    requires
        st.wf(),
    ensures
        st.on_byte(b, now).wf(),
        st.on_byte(b, now).carry == st.carry,
{
}

/// Reading a buffer leaves a well-formed state well-formed.
pub proof fn lemma_scan_keeps_wf(st: DetectorState, buf: Seq<u8>, now: u64)
    requires
        st.wf(),
        st.carry.len() == 0,
    ensures
        scan(st, buf, now).state.wf(),
    decreases buf.len(),
{
    if buf.len() == 0 {
    } else if buf[0] == RS {
        let j = marker_end(buf);
        if j >= buf.len() {
            lemma_first_of_bounds(buf.skip(1), LF, CR);
            assert forall|i: int| 0 <= i < buf.len() implies !is_eol(#[trigger] buf[i]) by {
                if i > 0 {
                    assert(buf.skip(1)[i - 1] == buf[i]);
                }
            }
        } else {
            let m = marker_of(buf.subrange(1, j));
            lemma_marker_keeps_wf(st, m, now);
            lemma_scan_keeps_wf(st.on_marker(m, now), buf.skip(j + 1), now);
        }
    } else {
        lemma_byte_keeps_wf(st, buf[0], now);
        lemma_scan_keeps_wf(st.on_byte(buf[0], now), buf.skip(1), now);
    }
}

/// Every chunk leaves a well-formed state well-formed: a half-read marker
/// starts at its record separator and holds no line end, a command that is
/// open lacks its exit code or its working directory, and no queued output
/// event is empty.
pub proof fn lemma_process_keeps_wf(st: DetectorState, data: Seq<u8>, now: u64)
    requires
        st.wf(),
    ensures
        process(st, data, now).state.wf(),
{
    lemma_scan_keeps_wf(without_carry(st), st.carry + data, now);
}

/// The end of the stream leaves a well-formed state well-formed, with no
/// command open and no marker half read.
pub proof fn lemma_finish_keeps_wf(st: DetectorState)
    requires
        st.wf(),
    ensures
        st.finished().wf(),
        st.finished().idle(),
{
}

/// While no echoed command line is being dropped, bytes without a record
/// separator are shown as they are; they are logged as output if a command
/// is open, and change nothing else.
pub proof fn lemma_scan_plain(st: DetectorState, buf: Seq<u8>, now: u64)
    requires
        !st.skipping(),
        no_separator(buf),
    ensures
        scan(st, buf, now).display == buf,
        st.in_command ==> scan(st, buf, now).state == (DetectorState {
            open_output: st.open_output + buf,
            ..st
        }),
        !st.in_command ==> scan(st, buf, now).state == st,
    decreases buf.len(),
{
    if buf.len() == 0 {
        assert(st.open_output + buf =~= st.open_output);
    } else {
        let next = st.on_byte(buf[0], now);
        assert(no_separator(buf.skip(1))) by {
            assert forall|i: int| 0 <= i < buf.skip(1).len() implies #[trigger] buf.skip(1)[i]
                != RS by {
                assert(buf.skip(1)[i] == buf[i + 1]);
            }
        }
        lemma_scan_plain(next, buf.skip(1), now);
        assert(seq![buf[0]] + buf.skip(1) =~= buf);
        assert(st.open_output.push(buf[0]) + buf.skip(1) =~= st.open_output + buf);
    }
}

/// Input without a record separator, given to an idle parser, comes back
/// unchanged and changes nothing: no event is queued.
pub proof fn lemma_no_marker_passthrough(st: DetectorState, data: Seq<u8>, now: u64)
    requires
        st.idle(),
        no_separator(data),
    ensures
        process(st, data, now).display == data,
        process(st, data, now).state == st,
{
    assert(st.carry =~= Seq::empty());
    assert(st.carry + data =~= data);
    assert(without_carry(st) == st);
    lemma_scan_plain(st, data, now);
}

/// Where `a` holds one of the two bytes `x` and `y`, the first of them in
/// `a + b` is the first in `a`.
pub proof fn lemma_first_of_concat(a: Seq<u8>, b: Seq<u8>, x: u8, y: u8)
    requires
        first_of(a, x, y) < a.len(),
    ensures
        first_of(a + b, x, y) == first_of(a, x, y),
{
    lemma_first_of_bounds(a, x, y);
    let k = first_of(a, x, y) as int;
    assert forall|i: int| 0 <= i < k implies #[trigger] (a + b)[i] != x && (a + b)[i] != y by {
        assert((a + b)[i] == a[i]);
    }
    assert((a + b)[k] == a[k]);
    lemma_first_of(a + b, x, y, k);
}

/// Reading `x + y` in one go is reading `x`, and then reading what `x` left
/// half read together with `y`.
pub proof fn lemma_scan_concat(st: DetectorState, x: Seq<u8>, y: Seq<u8>, now: u64)
    requires
        st.carry.len() == 0,
    ensures
        scan(st, x + y, now).state == scan(
            without_carry(scan(st, x, now).state),
            scan(st, x, now).state.carry + y,
            now,
        ).state,
        scan(st, x + y, now).display == scan(st, x, now).display + scan(
            without_carry(scan(st, x, now).state),
            scan(st, x, now).state.carry + y,
            now,
        ).display,
    decreases x.len(),
{
    let whole = x + y;
    let first = scan(st, x, now);
    let second = scan(without_carry(first.state), first.state.carry + y, now);
    assert(st.carry =~= Seq::empty());
    if x.len() == 0 {
        assert(whole =~= y);
        assert(first.state.carry + y =~= y);
        assert(without_carry(st) == st);
        assert(first.display + second.display =~= second.display);
    } else if x[0] == RS {
        assert(whole[0] == RS);
        assert(whole.skip(1) =~= x.skip(1) + y);
        let jx = marker_end(x);
        if jx >= x.len() {
            assert(first.state.carry + y =~= whole);
            assert(without_carry(first.state) == st);
            assert(first.display + second.display =~= second.display);
        } else {
            lemma_first_of_concat(x.skip(1), y, LF, CR);
            assert(marker_end(whole) == jx);
            assert(whole.subrange(1, jx) =~= x.subrange(1, jx));
            assert(whole.skip(jx + 1) =~= x.skip(jx + 1) + y);
            let next = st.on_marker(marker_of(x.subrange(1, jx)), now);
            lemma_scan_concat(next, x.skip(jx + 1), y, now);
        }
    } else {
        assert(whole[0] == x[0]);
        assert(whole.skip(1) =~= x.skip(1) + y);
        let next = st.on_byte(x[0], now);
        lemma_scan_concat(next, x.skip(1), y, now);
        let rest_first = scan(next, x.skip(1), now);
        if st.shows(x[0], now) {
            assert(seq![x[0]] + (rest_first.display + second.display) =~= (seq![x[0]]
                + rest_first.display) + second.display);
        }
    }
}

/// However a stream is cut into two chunks, the parser ends in the same
/// state, with the same events queued, as when it is given the stream whole,
/// and shows the same bytes. Both chunks are read at the same time `now`.
pub proof fn lemma_split_is_whole(st: DetectorState, a: Seq<u8>, b: Seq<u8>, now: u64)
    ensures
        process(process(st, a, now).state, b, now).state == process(st, a + b, now).state,
        process(st, a, now).display + process(process(st, a, now).state, b, now).display
            == process(st, a + b, now).display,
{
    assert(st.carry + (a + b) =~= (st.carry + a) + b);
    lemma_scan_concat(without_carry(st), st.carry + a, b, now);
}

/// While the echoed command line is being dropped and the wait for it is not
/// over, bytes without a record separator vanish up to the first line end;
/// from that line end on they are shown and logged.
pub proof fn lemma_scan_skipping(st: DetectorState, buf: Seq<u8>, now: u64)
    requires
        st.skipping(),
        !st.skip_expired(now),
        no_separator(buf),
    ensures
        scan(st, buf, now).display == buf.skip(first_of(buf, LF, CR) as int),
        first_of(buf, LF, CR) < buf.len() ==> scan(st, buf, now).state == (DetectorState {
            skip_until_eol: false,
            skip_started_at: None,
            open_output: st.open_output + buf.skip(first_of(buf, LF, CR) as int),
            ..st
        }),
        first_of(buf, LF, CR) >= buf.len() ==> scan(st, buf, now).state == st,
    decreases buf.len(),
{
    lemma_first_of_bounds(buf, LF, CR);
    if buf.len() == 0 {
        assert(buf.skip(0) =~= buf);
    } else {
        assert(no_separator(buf.skip(1))) by {
            assert forall|i: int| 0 <= i < buf.skip(1).len() implies #[trigger] buf.skip(1)[i]
                != RS by {
                assert(buf.skip(1)[i] == buf[i + 1]);
            }
        }
        if is_eol(buf[0]) {
            let next = st.on_byte(buf[0], now);
            lemma_scan_plain(next, buf.skip(1), now);
            assert(buf.skip(0) =~= buf);
            assert(seq![buf[0]] + buf.skip(1) =~= buf);
            assert(st.open_output.push(buf[0]) + buf.skip(1) =~= st.open_output + buf);
        } else {
            lemma_scan_skipping(st, buf.skip(1), now);
            let k = first_of(buf.skip(1), LF, CR) as int;
            assert(buf.skip(1).skip(k) =~= buf.skip(k + 1));
        }
    }
}

/// A start marker, given to an idle parser between bytes that hold no record
/// separator, vanishes from the display together with its line end, and so
/// does what follows it up to the next line end: the echoed command line.
/// Everything before the marker, and everything from that line end on, is
/// shown unchanged; one start event is queued.
pub proof fn lemma_start_marker_is_stripped(
    st: DetectorState,
    prefix: Seq<u8>,
    token: Seq<u8>,
    eol: u8,
    suffix: Seq<u8>,
    now: u64,
)
    requires
        st.idle(),
        no_separator(prefix),
        no_separator(suffix),
        no_eol(token),
        is_eol(eol),
        marker_of(token) is Start,
    ensures
        process(st, prefix + seq![RS] + token + seq![eol] + suffix, now).display == prefix
            + suffix.skip(first_of(suffix, LF, CR) as int),
        process(st, prefix + seq![RS] + token + seq![eol] + suffix, now).state.queued()
            == st.queued().push(
            LogEventView::CommandStart { cmd: marker_of(token)->Start_cmd, cwd: st.cwd() },
        ) + (if first_of(suffix, LF, CR) < suffix.len() {
            seq![LogEventView::Output { data: suffix.skip(first_of(suffix, LF, CR) as int) }]
        } else {
            Seq::empty()
        }),
        process(st, prefix + seq![RS] + token + seq![eol] + suffix, now).state.in_command,
{
    let frame = seq![RS] + token + seq![eol];
    let input = prefix + seq![RS] + token + seq![eol] + suffix;
    let cmd = marker_of(token)->Start_cmd;
    assert(st.carry =~= Seq::empty());
    assert(without_carry(st) == st);
    assert(st.carry + input =~= prefix + (frame + suffix));
    lemma_scan_concat(st, prefix, frame + suffix, now);
    lemma_scan_plain(st, prefix, now);
    assert(scan(st, prefix, now).state.carry + (frame + suffix) =~= frame + suffix);
    let rest = frame + suffix;
    assert(rest[0] == RS);
    let body = rest.skip(1);
    assert(body =~= token + seq![eol] + suffix);
    assert forall|i: int| 0 <= i < token.len() implies #[trigger] body[i] != LF && body[i]
        != CR by {
        assert(body[i] == token[i]);
    }
    assert(body[token.len() as int] == eol);
    let t = token.len() as int;
    lemma_first_of(body, LF, CR, t);
    assert(marker_end(rest) == t + 1);
    assert(rest.subrange(1, t + 1) =~= token);
    assert(rest.skip(t + 2) =~= suffix);
    let opened = st.started(cmd, now);
    assert(opened == st.on_marker(marker_of(token), now));
    lemma_scan_skipping(opened, suffix, now);
    lemma_first_of_bounds(suffix, LF, CR);
    let k = first_of(suffix, LF, CR) as int;
    let end = scan(opened, suffix, now);
    assert(opened.open_output + suffix.skip(k) =~= suffix.skip(k));
    if k < suffix.len() {
        assert(end.state.queued() =~= st.queued().push(
            LogEventView::CommandStart { cmd, cwd: st.cwd() },
        ) + seq![LogEventView::Output { data: suffix.skip(k) }]);
    } else {
        assert(end.state.queued() =~= st.queued().push(
            LogEventView::CommandStart { cmd, cwd: st.cwd() },
        ) + Seq::<LogEventView>::empty());
    }
}

/// `buf` without its markers: every marker whose line end has arrived is
/// taken out together with that line end, and what follows the record
/// separator of a marker that has not ended yet is left for later.
pub open spec fn frames_removed(buf: Seq<u8>) -> Seq<u8>
    decreases buf.len(),
{
    if buf.len() == 0 {
        Seq::empty()
    } else if buf[0] == RS {
        let j = marker_end(buf);
        if j >= buf.len() {
            Seq::empty()
        } else {
            frames_removed(buf.skip(j + 1))
        }
    } else {
        seq![buf[0]] + frames_removed(buf.skip(1))
    }
}

/// Whether one of the markers of `buf` whose line end has arrived opens a
/// command.
pub open spec fn opens_command(buf: Seq<u8>) -> bool
    decreases buf.len(),
{
    if buf.len() == 0 {
        false
    } else if buf[0] == RS {
        let j = marker_end(buf);
        if j >= buf.len() {
            false
        } else {
            marker_of(buf.subrange(1, j)) is Start || opens_command(buf.skip(j + 1))
        }
    } else {
        opens_command(buf.skip(1))
    }
}

/// While no echoed command line is awaited, every byte outside a marker is
/// shown exactly once, in order and unchanged: what is shown is the input
/// without its markers. This holds at any time, so time plays no part: the
/// state that is reached is the same at any two moments.
pub proof fn lemma_scan_shows_all_but_markers(
    st: DetectorState,
    buf: Seq<u8>,
    now: u64,
    other_time: u64,
)
    requires
        !st.skipping(),
        !opens_command(buf),
    ensures
        scan(st, buf, now).display == frames_removed(buf),
        scan(st, buf, now) == scan(st, buf, other_time),
        !scan(st, buf, now).state.skipping(),
    decreases buf.len(),
{
    if buf.len() == 0 {
    } else if buf[0] == RS {
        let j = marker_end(buf);
        if j < buf.len() {
            let m = marker_of(buf.subrange(1, j));
            assert(st.on_marker(m, now) == st.on_marker(m, other_time));
            lemma_scan_shows_all_but_markers(st.on_marker(m, now), buf.skip(j + 1), now, other_time);
        }
    } else {
        assert(st.on_byte(buf[0], now) == st.on_byte(buf[0], other_time));
        lemma_scan_shows_all_but_markers(st.on_byte(buf[0], now), buf.skip(1), now, other_time);
    }
}

/// A chunk that opens no command, given to a parser that awaits no echoed
/// command line, is shown without its markers and with nothing else taken
/// away; and it does not matter when it is read.
pub proof fn lemma_only_markers_are_stripped(
    st: DetectorState,
    data: Seq<u8>,
    now: u64,
    other_time: u64,
)
    requires
        !st.skipping(),
        !opens_command(st.carry + data),
    ensures
        process(st, data, now).display == frames_removed(st.carry + data),
        process(st, data, now) == process(st, data, other_time),
{
    lemma_scan_shows_all_but_markers(without_carry(st), st.carry + data, now, other_time);
}

/// What reading `buf` leaves half read: the marker at its end whose line end
/// has not arrived, from its record separator on.
pub open spec fn half_read(buf: Seq<u8>) -> Seq<u8>
    decreases buf.len(),
{
    if buf.len() == 0 {
        Seq::empty()
    } else if buf[0] == RS {
        let j = marker_end(buf);
        if j >= buf.len() {
            buf
        } else {
            half_read(buf.skip(j + 1))
        }
    } else {
        half_read(buf.skip(1))
    }
}

/// What is left half read depends on the bytes alone.
pub proof fn lemma_scan_leaves_half_read(st: DetectorState, buf: Seq<u8>, now: u64)
    requires
        st.carry.len() == 0,
    ensures
        scan(st, buf, now).state.carry == half_read(buf),
    decreases buf.len(),
{
    if buf.len() == 0 {
        assert(st.carry =~= Seq::empty());
    } else if buf[0] == RS {
        let j = marker_end(buf);
        if j < buf.len() {
            let m = marker_of(buf.subrange(1, j));
            lemma_scan_leaves_half_read(st.on_marker(m, now), buf.skip(j + 1), now);
        }
    } else {
        lemma_scan_leaves_half_read(st.on_byte(buf[0], now), buf.skip(1), now);
    }
}

/// A stream opens a command exactly if its first part does, or what the
/// first part left half read does together with the rest.
pub proof fn lemma_opens_command_concat(x: Seq<u8>, y: Seq<u8>)
    ensures
        opens_command(x + y) == (opens_command(x) || opens_command(half_read(x) + y)),
    decreases x.len(),
{
    let whole = x + y;
    if x.len() == 0 {
        assert(whole =~= y);
        assert(half_read(x) + y =~= y);
    } else if x[0] == RS {
        assert(whole[0] == RS);
        assert(whole.skip(1) =~= x.skip(1) + y);
        let jx = marker_end(x);
        if jx >= x.len() {
            assert(half_read(x) + y =~= whole);
        } else {
            lemma_first_of_concat(x.skip(1), y, LF, CR);
            assert(marker_end(whole) == jx);
            assert(whole.subrange(1, jx) =~= x.subrange(1, jx));
            assert(whole.skip(jx + 1) =~= x.skip(jx + 1) + y);
            lemma_opens_command_concat(x.skip(jx + 1), y);
        }
    } else {
        assert(whole[0] == x[0]);
        assert(whole.skip(1) =~= x.skip(1) + y);
        lemma_opens_command_concat(x.skip(1), y);
    }
}

/// A stream that opens no command, given to a parser that awaits no echoed
/// command line, may be cut into two chunks anywhere and the chunks read at
/// any times: the parser ends in the same state and shows the same bytes as
/// when it is given the stream whole at any time.
pub proof fn lemma_split_at_any_times(
    st: DetectorState,
    a: Seq<u8>,
    b: Seq<u8>,
    first_time: u64,
    second_time: u64,
    whole_time: u64,
)
    requires
        !st.skipping(),
        !opens_command(st.carry + (a + b)),
    ensures
        process(process(st, a, first_time).state, b, second_time).state == process(
            st,
            a + b,
            whole_time,
        ).state,
        process(st, a, first_time).display + process(
            process(st, a, first_time).state,
            b,
            second_time,
        ).display == process(st, a + b, whole_time).display,
{
    let x = st.carry + a;
    assert(st.carry + (a + b) =~= x + b);
    lemma_opens_command_concat(x, b);
    lemma_only_markers_are_stripped(st, a, first_time, whole_time);
    let mid = process(st, a, whole_time).state;
    lemma_scan_shows_all_but_markers(without_carry(st), x, whole_time, first_time);
    lemma_scan_leaves_half_read(without_carry(st), x, whole_time);
    lemma_only_markers_are_stripped(mid, b, second_time, whole_time);
    lemma_split_is_whole(st, a, b, whole_time);
}

/// Nothing is shown twice and nothing is made up: what a chunk shows and
/// what it leaves half read are together no longer than the chunk and what
/// was half read before it.
pub proof fn lemma_scan_shows_no_more(st: DetectorState, buf: Seq<u8>, now: u64)
    requires
        st.carry.len() == 0,
    ensures
        scan(st, buf, now).display.len() + scan(st, buf, now).state.carry.len() <= buf.len(),
    decreases buf.len(),
{
    if buf.len() == 0 {
    } else if buf[0] == RS {
        let j = marker_end(buf);
        if j < buf.len() {
            let m = marker_of(buf.subrange(1, j));
            lemma_scan_shows_no_more(st.on_marker(m, now), buf.skip(j + 1), now);
        }
    } else {
        lemma_scan_shows_no_more(st.on_byte(buf[0], now), buf.skip(1), now);
    }
}

/// What a chunk shows and what it leaves half read are together no longer
/// than the chunk and what was half read before it.
pub proof fn lemma_process_shows_no_more(st: DetectorState, data: Seq<u8>, now: u64)
    ensures
        process(st, data, now).display.len() + process(st, data, now).state.carry.len()
            <= st.carry.len() + data.len(),
{
    lemma_scan_shows_no_more(without_carry(st), st.carry + data, now);
}

/// An end, working-directory or pipeline marker closes the open command if
/// and only if, once what it announces is stored, a command is open and both
/// its exit code and its working directory are known. The end event then
/// carries exactly these; otherwise no event is queued.
pub proof fn lemma_finalize_iff_ready(st: DetectorState, m: MarkerView, now: u64)
    requires
        !(m is Start),
    ensures
        ({
            let stored = match m {
                MarkerView::End { exit_code } => DetectorState {
                    pending_exit_code: exit_code,
                    ..st
                },
                MarkerView::Pwd { path } => DetectorState {
                    pending_pwd: Some(path),
                    last_pwd: Some(path),
                    ..st
                },
                MarkerView::Pipe { status: Some(codes) } => DetectorState {
                    pending_pipestatus: Some(codes),
                    ..st
                },
                _ => st,
            };
            let after = st.on_marker(m, now);
            if !(m is Other) && stored.ready() {
                &&& !after.in_command
                &&& after.events == st.queued().push(
                    LogEventView::CommandEnd {
                        exit_code: stored.pending_exit_code->0,
                        pipestatus: stored.pending_pipestatus,
                        cwd: stored.pending_pwd->0,
                    },
                )
                &&& after.open_output.len() == 0
            } else {
                &&& after.in_command == st.in_command
                &&& after.events == st.events
                &&& after.open_output == st.open_output
            }
        }),
{
}

/// What a run of markers, all read at time `now`, does.
pub open spec fn replay(st: DetectorState, markers: Seq<MarkerView>, now: u64) -> DetectorState
    decreases markers.len(),
{
    if markers.len() == 0 {
        st
    } else {
        replay(st, markers.drop_last(), now).on_marker(markers.last(), now)
    }
}

/// The exit code that a run of markers leaves known: what its last end
/// marker announced. An end marker whose payload is no number leaves none.
pub open spec fn last_exit(markers: Seq<MarkerView>) -> Option<i32>
    decreases markers.len(),
{
    if markers.len() == 0 {
        None
    } else {
        match markers.last() {
            MarkerView::End { exit_code } => exit_code,
            _ => last_exit(markers.drop_last()),
        }
    }
}

/// The working directory that a run of markers leaves known: what its last
/// working-directory marker announced.
pub open spec fn last_path(markers: Seq<MarkerView>) -> Option<Seq<char>>
    decreases markers.len(),
{
    if markers.len() == 0 {
        None
    } else {
        match markers.last() {
            MarkerView::Pwd { path } => Some(path),
            _ => last_path(markers.drop_last()),
        }
    }
}

/// Whether a run of markers leaves both the exit code and the working
/// directory known.
pub open spec fn both_known(markers: Seq<MarkerView>) -> bool {
    last_exit(markers) is Some && last_path(markers) is Some
}

/// Whether no marker of the run opens a command.
pub open spec fn no_start(markers: Seq<MarkerView>) -> bool {
    forall|i: int| 0 <= i < markers.len() ==> !(#[trigger] markers[i] is Start)
}

/// Whether at some point of the run both the exit code and the working
/// directory were known.
pub open spec fn ever_both_known(markers: Seq<MarkerView>) -> bool {
    exists|k: int| 0 <= k <= markers.len() && both_known(#[trigger] markers.take(k))
}

/// While a command stays open, what is pending for it is what the markers
/// since its start leave known; and it stays open exactly as long as they
/// never left both the exit code and the working directory known.
proof fn lemma_pending_follows_markers(st: DetectorState, markers: Seq<MarkerView>, now: u64)
    requires
        st.in_command,
        st.pending_exit_code is None,
        st.pending_pwd is None,
        no_start(markers),
    ensures
        replay(st, markers, now).in_command <==> !ever_both_known(markers),
        replay(st, markers, now).in_command ==> replay(st, markers, now).pending_exit_code
            == last_exit(markers) && replay(st, markers, now).pending_pwd == last_path(markers),
    decreases markers.len(),
{
    if markers.len() == 0 {
        assert forall|k: int| 0 <= k <= markers.len() implies !both_known(
            #[trigger] markers.take(k),
        ) by {
            assert(markers.take(k) =~= markers);
        }
    } else {
        let front = markers.drop_last();
        let n = front.len() as int;
        lemma_pending_follows_markers(st, front, now);
        let mid = replay(st, front, now);
        assert(markers.take(n + 1) =~= markers);
        assert(markers.take(n) =~= front);
        assert forall|k: int| 0 <= k <= n implies markers.take(k) == #[trigger] front.take(k) by {
            assert(markers.take(k) =~= front.take(k));
        }
        if mid.in_command {
            assert forall|k: int| 0 <= k <= n implies !both_known(#[trigger] markers.take(k)) by {
                assert(!both_known(front.take(k)));
                assert(markers.take(k) =~= front.take(k));
            }
            assert(front.take(n) =~= front);
            assert(!both_known(front));
            if both_known(markers) {
                assert(both_known(markers.take(n + 1)));
            } else {
                assert forall|k: int| 0 <= k <= markers.len() implies !both_known(
                    #[trigger] markers.take(k),
                ) by {
                    if k == n + 1 {
                    }
                }
            }
        } else {
            let k = choose|k: int| 0 <= k <= front.len() && both_known(#[trigger] front.take(k));
            assert(markers.take(k) =~= front.take(k));
            assert(both_known(markers.take(k)));
        }
    }
}

/// A command that a start marker opened is closed, by markers that open no
/// other, if and only if at some point both an exit code and a working
/// directory were known: an end marker announced a number, no later end
/// marker took it back, and a working-directory marker came before or after.
/// So an end without a working directory never closes the command, nor does
/// a working directory without an end.
pub proof fn lemma_finalize_iff_end_and_pwd(
    st: DetectorState,
    cmd: Seq<char>,
    markers: Seq<MarkerView>,
    now: u64,
)
    requires
        no_start(markers),
    ensures
        !replay(st.started(cmd, now), markers, now).in_command <==> ever_both_known(markers),
{
    lemma_pending_follows_markers(st.started(cmd, now), markers, now);
}

/// Whether a command is open after `events`, given whether one was open
/// before them; `None` where the events are out of order: a start while a
/// command is open, or output or an end while none is.
pub open spec fn open_after(open: bool, events: Seq<LogEventView>) -> Option<bool>
    decreases events.len(),
{
    if events.len() == 0 {
        Some(open)
    } else {
        match open_after(open, events.drop_last()) {
            None => None,
            Some(before) => match events.last() {
                LogEventView::CommandStart { .. } => if before {
                    None
                } else {
                    Some(true)
                },
                LogEventView::Output { .. } => if before {
                    Some(true)
                } else {
                    None
                },
                LogEventView::CommandEnd { .. } => if before {
                    Some(false)
                } else {
                    None
                },
            },
        }
    }
}

/// Whether the queue of `st` is in order, and leaves a command open exactly
/// if `st` has one open. `open` says whether a command was open before the
/// first queued event.
pub open spec fn in_order(open: bool, st: DetectorState) -> bool {
    open_after(open, st.queued()) == Some(st.in_command)
}

/// Queueing an event behind a queue that is in order.
proof fn lemma_emit_in_order(open: bool, st: DetectorState, e: LogEventView)
    requires
        in_order(open, st),
    ensures
        open_after(open, st.emit(e).queued()) == (match e {
            LogEventView::CommandStart { .. } => if st.in_command {
                None
            } else {
                Some(true)
            },
            LogEventView::Output { .. } => if st.in_command {
                Some(true)
            } else {
                None
            },
            LogEventView::CommandEnd { .. } => if st.in_command {
                Some(false)
            } else {
                None
            },
        }),
{
    let q = st.queued().push(e);
    assert(st.emit(e).queued() == q);
    assert(q.drop_last() =~= st.queued());
}

/// A marker keeps the queue in order.
proof fn lemma_marker_keeps_order(open: bool, st: DetectorState, m: MarkerView, now: u64)
    requires
        in_order(open, st),
    ensures
        in_order(open, st.on_marker(m, now)),
{
    match m {
        MarkerView::Start { cmd } => {
            let start = LogEventView::CommandStart { cmd, cwd: st.cwd() };
            if st.in_command {
                let closed = st.emit(st.assumed_end());
                lemma_emit_in_order(open, st, st.assumed_end());
                let shut = DetectorState { in_command: false, ..closed };
                assert(shut.queued() == closed.queued());
                lemma_emit_in_order(open, shut, start);
                assert(shut.emit(start).queued() == closed.emit(start).queued());
            } else {
                lemma_emit_in_order(open, st, start);
            }
        },
        MarkerView::End { exit_code } => {
            let stored = DetectorState { pending_exit_code: exit_code, ..st };
            assert(stored.queued() == st.queued());
            if stored.ready() {
                lemma_emit_in_order(
                    open,
                    stored,
                    LogEventView::CommandEnd {
                        exit_code: stored.pending_exit_code->0,
                        pipestatus: stored.pending_pipestatus,
                        cwd: stored.pending_pwd->0,
                    },
                );
            }
        },
        MarkerView::Pwd { path } => {
            let stored = DetectorState { pending_pwd: Some(path), last_pwd: Some(path), ..st };
            assert(stored.queued() == st.queued());
            if stored.ready() {
                lemma_emit_in_order(
                    open,
                    stored,
                    LogEventView::CommandEnd {
                        exit_code: stored.pending_exit_code->0,
                        pipestatus: stored.pending_pipestatus,
                        cwd: stored.pending_pwd->0,
                    },
                );
            }
        },
        MarkerView::Pipe { status } => {
            let stored = match status {
                Some(codes) => DetectorState { pending_pipestatus: Some(codes), ..st },
                None => st,
            };
            assert(stored.queued() == st.queued());
            if stored.ready() {
                lemma_emit_in_order(
                    open,
                    stored,
                    LogEventView::CommandEnd {
                        exit_code: stored.pending_exit_code->0,
                        pipestatus: stored.pending_pipestatus,
                        cwd: stored.pending_pwd->0,
                    },
                );
            }
        },
        MarkerView::Other => {},
    }
}

/// A plain byte keeps the queue in order.
proof fn lemma_byte_keeps_order(open: bool, st: DetectorState, b: u8, now: u64)
    requires
        in_order(open, st),
    ensures
        in_order(open, st.on_byte(b, now)),
{
    let next = st.on_byte(b, now);
    if next.open_output != st.open_output {
        let grown = st.open_output.push(b);
        assert(next.open_output == grown);
        assert(next.queued() == st.events.push(LogEventView::Output { data: grown }));
        assert(next.queued().drop_last() =~= st.events);
        if st.open_output.len() > 0 {
            assert(st.queued().drop_last() =~= st.events);
        }
    }
}

/// Reading a buffer keeps the queue in order.
proof fn lemma_scan_keeps_order(open: bool, st: DetectorState, buf: Seq<u8>, now: u64)
    requires
        in_order(open, st),
    ensures
        in_order(open, scan(st, buf, now).state),
    decreases buf.len(),
{
    if buf.len() == 0 {
    } else if buf[0] == RS {
        let j = marker_end(buf);
        if j >= buf.len() {
            let kept = DetectorState { carry: buf, ..st };
            assert(kept.queued() == st.queued());
        } else {
            let m = marker_of(buf.subrange(1, j));
            lemma_marker_keeps_order(open, st, m, now);
            lemma_scan_keeps_order(open, st.on_marker(m, now), buf.skip(j + 1), now);
        }
    } else {
        lemma_byte_keeps_order(open, st, buf[0], now);
        lemma_scan_keeps_order(open, st.on_byte(buf[0], now), buf.skip(1), now);
    }
}

/// The events that a chunk queues are in order: each command's start comes
/// before its output, its output before its end, and no command starts
/// before the one before it has ended. A queue that was in order stays in
/// order, and leaves a command open exactly if the parser has one open.
pub proof fn lemma_events_stay_in_order(
    open: bool,
    st: DetectorState,
    data: Seq<u8>,
    now: u64,
)
    requires
        in_order(open, st),
    ensures
        in_order(open, process(st, data, now).state),
{
    let cleared = without_carry(st);
    assert(cleared.queued() == st.queued());
    lemma_scan_keeps_order(open, cleared, st.carry + data, now);
}

/// The queue of a parser whose queue was just handed out is in order, and
/// so is the queue after the end of the stream.
pub proof fn lemma_order_at_the_ends(open: bool, st: DetectorState)
    ensures
        in_order(st.in_command, st.drained()),
        in_order(open, st) ==> in_order(open, st.finished()),
{
    assert(st.drained().queued() =~= Seq::empty());
    if in_order(open, st) {
        if st.in_command {
            lemma_emit_in_order(open, st, st.assumed_end());
        } else {
            let cleared = DetectorState { carry: Seq::empty(), ..st };
            assert(cleared.queued() == st.queued());
        }
    }
}

/// Two start markers with nothing between them, given to a parser with no
/// command open, queue three events in this order: the start of the first
/// command, an end made up for it with exit code 0, no pipeline and the
/// working directory as far as it is known, and the start of the second.
pub proof fn lemma_double_start(
    st: DetectorState,
    first: Seq<char>,
    second: Seq<char>,
    now1: u64,
    now2: u64,
)
    requires
        !st.in_command,
    ensures
        st.started(first, now1).started(second, now2).events == st.queued() + seq![
            LogEventView::CommandStart { cmd: first, cwd: st.cwd() },
            LogEventView::CommandEnd { exit_code: 0, pipestatus: None, cwd: st.cwd() },
            LogEventView::CommandStart { cmd: second, cwd: st.cwd() },
        ],
        st.started(first, now1).started(second, now2).open_output.len() == 0,
        st.started(first, now1).started(second, now2).in_command,
{
    let s2 = st.started(first, now1).started(second, now2);
    assert(s2.events =~= st.queued() + seq![
        LogEventView::CommandStart { cmd: first, cwd: st.cwd() },
        LogEventView::CommandEnd { exit_code: 0, pipestatus: None, cwd: st.cwd() },
        LogEventView::CommandStart { cmd: second, cwd: st.cwd() },
    ]);
}

/// Ending the stream twice is ending it once; and ending it with a command
/// open queues exactly one event, the end made up for that command.
pub proof fn lemma_finish_once(st: DetectorState)
    ensures
        st.finished().finished() == st.finished(),
        st.in_command ==> st.finished().events == st.queued().push(st.assumed_end()),
        !st.in_command ==> st.finished().events == st.events,
{
}

} // verus!
