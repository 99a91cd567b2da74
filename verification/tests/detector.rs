use recli::command_detector::CommandDetector;
use recli::event::LogEvent;
use recli::marker::{parse_marker, Marker};

fn detector() -> CommandDetector {
    CommandDetector::new("/start".to_string())
}

fn start(cmd: &str, cwd: &str) -> LogEvent {
    LogEvent::CommandStart { cmd: cmd.to_string(), cwd: cwd.to_string() }
}

fn output(data: &[u8]) -> LogEvent {
    LogEvent::Output { data: data.to_vec() }
}

fn end(exit_code: i32, pipestatus: Option<Vec<i32>>, cwd: &str) -> LogEvent {
    LogEvent::CommandEnd { exit_code, pipestatus, cwd: cwd.to_string() }
}

#[test]
fn no_marker_input_passes_through_while_idle() {
    let mut d = detector();
    let input: &[u8] = b"plain \x1b[31mtext\x1b[0m\r\nwith \xff bytes\n";
    let shown = d.process_output_at(input, 10);
    assert_eq!(shown, input.to_vec());
    assert!(d.take_events().is_empty());
    assert!(!d.in_command());
}

#[test]
fn empty_chunk_changes_nothing() {
    let mut d = detector();
    assert_eq!(d.process_output_at(b"", 0), Vec::<u8>::new());
    assert!(d.take_events().is_empty());
    assert!(!d.has_partial_marker());
}

#[test]
fn start_marker_is_stripped_with_the_echoed_line() {
    let mut d = detector();
    let shown = d.process_output_at(b"abc\x1eRECLI_START:ls -la\nls -la\r\ntotal 0\n", 0);
    assert_eq!(shown, b"abc\r\ntotal 0\n".to_vec());
    assert_eq!(d.take_events(), vec![start("ls -la", "/start"), output(b"\r\ntotal 0\n")]);
    assert!(d.in_command());
}

#[test]
fn start_marker_with_nothing_after_it() {
    let mut d = detector();
    let shown = d.process_output_at(b"before\x1eRECLI_START:ls -la\n", 0);
    assert_eq!(shown, b"before".to_vec());
    assert_eq!(d.take_events(), vec![start("ls -la", "/start")]);
}

#[test]
fn carriage_return_ends_a_marker_too() {
    let mut d = detector();
    let shown = d.process_output_at(b"\x1eRECLI_PWD:/tmp\rafter", 0);
    assert_eq!(shown, b"after".to_vec());
    assert_eq!(d.current_dir(), "/tmp");
}

#[test]
fn split_marker_at_every_offset_is_the_same_as_whole() {
    let input: &[u8] =
        b"pre\x1eRECLI_START:echo hi\necho hi\r\nhi\n\x1eRECLI_END:0\n\x1eRECLI_PIPE:[0]\n\x1eRECLI_PWD:/home/u\npost";
    let mut whole = detector();
    let shown_whole = whole.process_output_at(input, 5);
    let events_whole = whole.take_events();
    assert_eq!(shown_whole, b"pre\r\nhi\npost".to_vec());
    assert_eq!(
        events_whole,
        vec![start("echo hi", "/start"), output(b"\r\nhi\n"), end(0, Some(vec![0]), "/home/u")]
    );
    for cut in 0..=input.len() {
        let mut d = detector();
        let mut shown = d.process_output_at(&input[..cut], 5);
        shown.extend(d.process_output_at(&input[cut..], 5));
        assert_eq!(shown, shown_whole, "cut at {}", cut);
        assert_eq!(d.take_events(), events_whole, "cut at {}", cut);
        assert!(!d.has_partial_marker());
    }
}

#[test]
fn unfinished_marker_is_kept_whole_and_never_shown() {
    let mut d = detector();
    assert_eq!(d.process_output_at(b"ab\x1eRECLI_ST", 0), b"ab".to_vec());
    assert!(d.has_partial_marker());
    assert!(d.take_events().is_empty());
    assert_eq!(d.process_output_at(b"ART:make", 0), Vec::<u8>::new());
    assert!(d.has_partial_marker());
    assert_eq!(d.process_output_at(b"\n", 0), Vec::<u8>::new());
    assert!(!d.has_partial_marker());
    assert_eq!(d.take_events(), vec![start("make", "/start")]);
}

#[test]
fn end_without_pwd_never_finalizes() {
    let mut d = detector();
    d.process_output_at(b"\x1eRECLI_START:true\n", 0);
    d.process_output_at(b"\x1eRECLI_END:0\n", 100);
    d.process_output_at(b"\x1eRECLI_PIPE:[0]\n", 100);
    d.process_output_at(b"more output\n", 100);
    assert!(d.in_command());
    assert_eq!(d.take_events(), vec![start("true", "/start"), output(b"more output\n")]);
}

#[test]
fn pwd_without_end_never_finalizes() {
    let mut d = detector();
    d.process_output_at(b"\x1eRECLI_START:true\n\x1eRECLI_PWD:/a\n", 0);
    assert!(d.in_command());
    assert_eq!(d.take_events(), vec![start("true", "/start")]);
}

#[test]
fn end_and_pwd_finalize_in_either_order() {
    let mut d = detector();
    d.process_output_at(b"\x1eRECLI_START:a\n\x1eRECLI_END:3\n\x1eRECLI_PWD:/x\n", 0);
    assert!(!d.in_command());
    assert_eq!(d.take_events(), vec![start("a", "/start"), end(3, None, "/x")]);
    d.process_output_at(b"\x1eRECLI_START:b\n\x1eRECLI_PWD:/y\n\x1eRECLI_END:-2\n", 0);
    assert!(!d.in_command());
    assert_eq!(d.take_events(), vec![start("b", "/x"), end(-2, None, "/y")]);
}

#[test]
fn unreadable_exit_code_does_not_finalize() {
    let mut d = detector();
    d.process_output_at(b"\x1eRECLI_START:a\n\x1eRECLI_END:zero\n\x1eRECLI_PWD:/x\n", 0);
    assert!(d.in_command());
    d.process_output_at(b"\x1eRECLI_END: 7 \n", 0);
    assert!(!d.in_command());
    assert_eq!(d.take_events(), vec![start("a", "/start"), end(7, None, "/x")]);
}

#[test]
fn markers_outside_a_command_queue_nothing() {
    let mut d = detector();
    let shown = d.process_output_at(b"a\x1eRECLI_END:0\nb\x1eRECLI_PWD:/w\nc", 0);
    assert_eq!(shown, b"abc".to_vec());
    assert!(d.take_events().is_empty());
    assert_eq!(d.current_dir(), "/w");
}

#[test]
fn double_start_closes_the_first_command() {
    let mut d = detector();
    d.process_output_at(b"\x1eRECLI_START:first\n\x1eRECLI_START:second\n", 0);
    assert_eq!(
        d.take_events(),
        vec![start("first", "/start"), end(0, None, "/start"), start("second", "/start")]
    );
    assert!(d.in_command());
}

#[test]
fn double_start_keeps_output_of_the_first_before_its_end() {
    let mut d = detector();
    d.process_output_at(b"\x1eRECLI_PWD:/p\n\x1eRECLI_START:first\n\nout\n", 0);
    d.process_output_at(b"\x1eRECLI_START:second\n", 0);
    assert_eq!(
        d.take_events(),
        vec![start("first", "/p"), output(b"\nout\n"), end(0, None, "/p"), start("second", "/p")]
    );
}

#[test]
fn scenario_echo_hi_once_the_echo_wait_is_over() {
    let mut d = CommandDetector::new("/home/u".to_string());
    let mut shown = d.process_output_at(b"\x1eRECLI_START:echo hi\n", 1000);
    shown.extend(d.process_output_at(b"hi\n\x1eRECLI_END:0\n\x1eRECLI_PWD:/home/u\n", 1050));
    assert_eq!(shown, b"hi\n".to_vec());
    assert_eq!(
        d.take_events(),
        vec![start("echo hi", "/home/u"), output(b"hi\n"), end(0, None, "/home/u")]
    );
}

#[test]
fn scenario_echo_hi_in_one_read_drops_the_echoed_line() {
    let mut d = CommandDetector::new("/home/u".to_string());
    let shown =
        d.process_output_at(b"\x1eRECLI_START:echo hi\nhi\n\x1eRECLI_END:0\n\x1eRECLI_PWD:/home/u\n", 1000);
    assert_eq!(shown, b"\n".to_vec());
    assert_eq!(
        d.take_events(),
        vec![start("echo hi", "/home/u"), output(b"\n"), end(0, None, "/home/u")]
    );
}

#[test]
fn echo_wait_ends_after_fifty_milliseconds() {
    let mut d = detector();
    d.process_output_at(b"\x1eRECLI_START:cat\n", 200);
    assert_eq!(d.process_output_at(b"ec", 249), Vec::<u8>::new());
    assert_eq!(d.process_output_at(b"ho", 250), b"ho".to_vec());
    assert_eq!(d.process_output_at(b"more", 251), b"more".to_vec());
    assert_eq!(d.take_events(), vec![start("cat", "/start"), output(b"homore")]);
}

#[test]
fn a_clock_that_ran_backwards_ends_no_wait() {
    let mut d = detector();
    d.process_output_at(b"\x1eRECLI_START:cat\n", 200);
    assert_eq!(d.process_output_at(b"x", 100), Vec::<u8>::new());
}

#[test]
fn finish_closes_an_open_command_once() {
    let mut d = detector();
    d.process_output_at(b"\x1eRECLI_PWD:/last\n\x1eRECLI_START:sleep 9\n\nzz", 0);
    d.finish();
    assert!(!d.in_command());
    assert_eq!(
        d.take_events(),
        vec![start("sleep 9", "/last"), output(b"\nzz"), end(0, None, "/last")]
    );
    d.finish();
    assert!(d.take_events().is_empty());
}

#[test]
fn finish_without_a_command_only_gives_up_the_partial_marker() {
    let mut d = detector();
    d.process_output_at(b"\x1eRECLI_STA", 0);
    assert!(d.has_partial_marker());
    d.finish();
    assert!(!d.has_partial_marker());
    assert!(d.take_events().is_empty());
    assert_eq!(d.process_output_at(b"RT:x\n", 0), b"RT:x\n".to_vec());
}

#[test]
fn pipe_marker_sets_the_pipestatus() {
    let mut d = detector();
    d.process_output_at(
        b"\x1eRECLI_START:a|b|c\n\x1eRECLI_END:2\n\x1eRECLI_PIPE:[0,1,2]\n\x1eRECLI_PWD:/p\n",
        0,
    );
    assert_eq!(d.take_events(), vec![start("a|b|c", "/start"), end(2, Some(vec![0, 1, 2]), "/p")]);
}

#[test]
fn bad_pipe_list_is_dropped_and_blocks_nothing() {
    let mut d = detector();
    d.process_output_at(
        b"\x1eRECLI_START:a|b|c\n\x1eRECLI_END:2\n\x1eRECLI_PIPE:[0,x,2]\n\x1eRECLI_PWD:/p\n",
        0,
    );
    assert_eq!(d.take_events(), vec![start("a|b|c", "/start"), end(2, None, "/p")]);
}

#[test]
fn bad_pipe_list_leaves_an_earlier_one_in_place() {
    let mut d = detector();
    d.process_output_at(
        b"\x1eRECLI_START:a\n\x1eRECLI_PIPE:[4, 5]\n\x1eRECLI_PIPE:[]\n\x1eRECLI_END:5\n\x1eRECLI_PWD:/p\n",
        0,
    );
    assert_eq!(d.take_events(), vec![start("a", "/start"), end(5, Some(vec![4, 5]), "/p")]);
}

#[test]
fn unknown_marker_is_stripped_and_ignored() {
    let mut d = detector();
    let shown = d.process_output_at(b"x\x1eRECLI_DEBUG:hook_loaded_v5\ny", 0);
    assert_eq!(shown, b"xy".to_vec());
    assert!(d.take_events().is_empty());
}

#[test]
fn ill_formed_text_in_a_payload_is_replaced() {
    let mut d = detector();
    d.process_output_at(b"\x1eRECLI_START:caf\xc3\xa9 \xff!\n", 0);
    assert_eq!(d.take_events(), vec![start("caf\u{e9} \u{fffd}!", "/start")]);
}

#[test]
fn output_before_the_start_marker_is_not_logged() {
    let mut d = detector();
    let shown = d.process_output_at(b"prompt$ \x1eRECLI_START:ls\n\nfile\n", 0);
    assert_eq!(shown, b"prompt$ \nfile\n".to_vec());
    assert_eq!(d.take_events(), vec![start("ls", "/start"), output(b"\nfile\n")]);
}

#[test]
fn taking_events_closes_the_open_output() {
    let mut d = detector();
    d.process_output_at(b"\x1eRECLI_START:ls\n\na", 0);
    assert_eq!(d.take_events(), vec![start("ls", "/start"), output(b"\na")]);
    d.process_output_at(b"b", 0);
    assert_eq!(d.take_events(), vec![output(b"b")]);
    assert!(d.take_events().is_empty());
}

#[test]
fn clocked_reading_strips_markers_too() {
    let mut d = detector();
    let shown = d.process_output(b"a\x1eRECLI_PWD:/q\nb");
    assert_eq!(shown, b"ab".to_vec());
    assert_eq!(d.current_dir(), "/q");
}

#[test]
fn handle_marker_takes_a_parsed_marker() {
    let mut d = detector();
    d.handle_marker(Marker::Start { cmd: "x".to_string() }, 0);
    d.handle_marker(Marker::End { exit_code: Some(1) }, 0);
    d.handle_marker(Marker::Other, 0);
    d.handle_marker(Marker::Pwd { path: "/z".to_string() }, 0);
    assert_eq!(d.take_events(), vec![start("x", "/start"), end(1, None, "/z")]);
}

#[test]
fn markers_parse_by_their_tags() {
    assert_eq!(parse_marker(b"RECLI_START:ls -la"), Marker::Start { cmd: "ls -la".to_string() });
    assert_eq!(parse_marker(b"RECLI_START:"), Marker::Start { cmd: String::new() });
    assert_eq!(parse_marker(b"RECLI_END:0"), Marker::End { exit_code: Some(0) });
    assert_eq!(parse_marker(b"RECLI_END: -130\t"), Marker::End { exit_code: Some(-130) });
    assert_eq!(parse_marker(b"RECLI_END:"), Marker::End { exit_code: None });
    assert_eq!(parse_marker(b"RECLI_END:2147483648"), Marker::End { exit_code: None });
    assert_eq!(parse_marker(b"RECLI_PWD:/home/u"), Marker::Pwd { path: "/home/u".to_string() });
    assert_eq!(parse_marker(b"RECLI_PIPE:[0,1,2]"), Marker::Pipe { status: Some(vec![0, 1, 2]) });
    assert_eq!(parse_marker(b"RECLI_PIPE: [ 1 , -1 ] "), Marker::Pipe { status: Some(vec![1, -1]) });
    assert_eq!(parse_marker(b"RECLI_PIPE:[0,x,2]"), Marker::Pipe { status: None });
    assert_eq!(parse_marker(b"RECLI_PIPE:[]"), Marker::Pipe { status: None });
    assert_eq!(parse_marker(b"RECLI_PIPE:[1,]"), Marker::Pipe { status: None });
    assert_eq!(parse_marker(b"RECLI_PIPE:["), Marker::Pipe { status: None });
    assert_eq!(parse_marker(b"RECLI_PIPE:0,1"), Marker::Pipe { status: None });
    assert_eq!(parse_marker(b"RECLI_STOP:now"), Marker::Other);
    assert_eq!(parse_marker(b"recli_start:x"), Marker::Other);
    assert_eq!(parse_marker(b""), Marker::Other);
}

#[test]
fn without_a_start_marker_the_time_of_reading_does_not_matter() {
    let input: &[u8] = b"out\x1eRECLI_END:4\nmore\x1eRECLI_PIPE:[4]\n\x1eRECLI_PWD:/w\nprompt> ";
    let opened = |d: &mut CommandDetector| {
        d.process_output_at(b"\x1eRECLI_START:job\n\n", 0);
        d.take_events();
    };
    let mut whole = detector();
    opened(&mut whole);
    let shown_whole = whole.process_output_at(input, 7);
    let events_whole = whole.take_events();
    assert_eq!(shown_whole, b"outmoreprompt> ".to_vec());
    assert_eq!(events_whole, vec![output(b"outmore"), end(4, Some(vec![4]), "/w")]);
    for cut in 0..=input.len() {
        let mut d = detector();
        opened(&mut d);
        let mut shown = d.process_output_at(&input[..cut], 1_000 + cut as u64);
        shown.extend(d.process_output_at(&input[cut..], 90_000));
        assert_eq!(shown, shown_whole, "cut at {}", cut);
        assert_eq!(d.take_events(), events_whole, "cut at {}", cut);
    }
}

#[test]
fn what_is_shown_and_kept_is_never_more_than_what_came() {
    let input: &[u8] = b"a\x1eRECLI_START:x\nskipped\nb\x1eRECLI_PWD:/p\n\x1eRECLI_EN";
    let mut d = detector();
    let shown = d.process_output_at(input, 0);
    assert_eq!(shown, b"a\nb".to_vec());
    assert!(d.has_partial_marker());
    let rest = d.process_output_at(b"D:0\nz", 0);
    assert_eq!(rest, b"z".to_vec());
    assert_eq!(
        d.take_events(),
        vec![start("x", "/start"), output(b"\nb"), end(0, None, "/p")]
    );
}

#[test]
fn events_come_in_order_over_a_long_stream() {
    let mut d = detector();
    let mut all = Vec::new();
    for round in 0..5 {
        d.process_output_at(b"$ \x1eRECLI_START:cmd\n\nline\n", round * 10);
        if round % 2 == 0 {
            d.process_output_at(b"\x1eRECLI_END:0\n\x1eRECLI_PWD:/d\n", round * 10);
        }
        all.extend(d.take_events());
    }
    d.finish();
    all.extend(d.take_events());
    let mut open = false;
    for e in &all {
        match e {
            LogEvent::CommandStart { .. } => {
                assert!(!open);
                open = true;
            }
            LogEvent::Output { data } => {
                assert!(open);
                assert!(!data.is_empty());
            }
            LogEvent::CommandEnd { .. } => {
                assert!(open);
                open = false;
            }
        }
    }
    assert!(!open);
    assert_eq!(all.iter().filter(|e| matches!(e, LogEvent::CommandStart { .. })).count(), 5);
    assert_eq!(all.iter().filter(|e| matches!(e, LogEvent::CommandEnd { .. })).count(), 5);
}
