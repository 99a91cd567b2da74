use recli::command_log::{make_spool_name, CommandEntry, CommandLog, PREVIEW_CAP};

fn entry(cmd: &str) -> CommandEntry {
    CommandEntry {
        cmd: cmd.to_string(),
        cwd: "/".to_string(),
        timestamp: "2024-05-01T12:00:00+00:00".to_string(),
        exit_code: 0,
        output_preview: String::new(),
        output_path: None,
        pipestatus: None,
        duration_ms: None,
    }
}

#[test]
fn new_log_is_empty() {
    let log = CommandLog::new();
    assert!(log.entries.is_empty());
    assert_eq!(log.current_cmd, "");
    assert_eq!(log.current_preview, "");
    assert!(log.current_start_time.is_none());
    assert!(!log.spooling);
}

#[test]
fn spool_name_is_timestamp_number_and_extension() {
    assert_eq!(
        make_spool_name("2024-05-01T12:00:00.123456789+00:00", 3),
        "2024-05-01T12-00-00.123456789+00-00-3.out"
    );
    assert_eq!(make_spool_name("", 0), "-0.out");
    assert_eq!(make_spool_name("t", 120), "t-120.out");
}

#[test]
fn a_command_runs_from_start_to_finish() {
    let mut log = CommandLog::new();
    log.start_command("echo hi".to_string(), "/home/u".to_string(), true);
    assert_eq!(log.current_cmd, "echo hi");
    assert!(log.current_start_time.is_some());
    assert!(log.spooling);
    log.append_output_bytes(b"hi\n");
    log.append_output("there\n");
    assert_eq!(log.current_preview, "hi\nthere\n");
    let name = log.finish_command_at(
        0,
        Some(vec![0]),
        "/home/u".to_string(),
        "2024-05-01T12:00:00+00:00".to_string(),
        Some(12),
    );
    assert_eq!(name, Some("2024-05-01T12-00-00+00-00-0.out".to_string()));
    assert_eq!(
        log.entries,
        vec![CommandEntry {
            cmd: "echo hi".to_string(),
            cwd: "/home/u".to_string(),
            timestamp: "2024-05-01T12:00:00+00:00".to_string(),
            exit_code: 0,
            output_preview: "hi\nthere\n".to_string(),
            output_path: Some("2024-05-01T12-00-00+00-00-0.out".to_string()),
            pipestatus: Some(vec![0]),
            duration_ms: Some(12),
        }]
    );
    assert_eq!(log.current_cmd, "");
    assert_eq!(log.current_preview, "");
    assert!(log.current_start_time.is_none());
    assert!(!log.spooling);
}

#[test]
fn a_command_without_spool_file_has_no_output_path() {
    let mut log = CommandLog::new();
    log.start_command("ls".to_string(), "/".to_string(), false);
    let name = log.finish_command_at(1, None, "/".to_string(), "T".to_string(), None);
    assert_eq!(name, None);
    assert_eq!(log.entries.len(), 1);
    assert_eq!(log.entries[0].output_path, None);
    assert_eq!(log.entries[0].exit_code, 1);
    assert_eq!(log.entries[0].duration_ms, None);
}

#[test]
fn the_spool_number_is_the_count_of_entries_before() {
    let mut log = CommandLog::from_entries(vec![entry("a"), entry("b")]);
    log.start_command("c".to_string(), "/".to_string(), true);
    let name = log.finish_command_at(0, None, "/".to_string(), "10:00".to_string(), None);
    assert_eq!(name, Some("10-00-2.out".to_string()));
}

#[test]
fn finishing_without_a_command_adds_no_entry() {
    let mut log = CommandLog::new();
    log.append_output_bytes(b"stray");
    let name = log.finish_command_at(0, None, "/".to_string(), "T".to_string(), Some(1));
    assert_eq!(name, None);
    assert!(log.entries.is_empty());
    assert_eq!(log.current_preview, "stray");
    assert_eq!(log.finish_command(0, None, "/".to_string()), None);
    assert!(log.entries.is_empty());
}

#[test]
fn finishing_now_stamps_the_entry() {
    let mut log = CommandLog::new();
    log.start_command("sleep 0".to_string(), "/".to_string(), true);
    let name = log.finish_command(0, None, "/tmp".to_string());
    assert_eq!(log.entries.len(), 1);
    let e = &log.entries[0];
    assert_eq!(e.cmd, "sleep 0");
    assert_eq!(e.cwd, "/tmp");
    assert!(e.duration_ms.is_some());
    assert!(!e.timestamp.is_empty());
    assert_eq!(name, e.output_path);
    assert_eq!(name, Some(make_spool_name(&e.timestamp, 0)));
}

#[test]
fn preview_stops_at_the_cap() {
    let mut log = CommandLog::new();
    log.start_command("yes".to_string(), "/".to_string(), false);
    let chunk = vec![b'y'; 5000];
    log.append_output_bytes(&chunk);
    assert_eq!(log.current_preview.len(), 5000);
    log.append_output_bytes(&chunk);
    assert_eq!(log.current_preview.len(), PREVIEW_CAP);
    log.append_output_bytes(&chunk);
    assert_eq!(log.current_preview.len(), PREVIEW_CAP);
    assert_eq!(log.current_preview, "y".repeat(8192));
}

#[test]
fn preview_never_outgrows_the_cap_on_wide_or_broken_text() {
    let mut log = CommandLog::new();
    log.start_command("cat".to_string(), "/".to_string(), false);
    log.append_output_bytes(&vec![b'a'; 8191]);
    log.append_output("\u{e9}");
    assert_eq!(log.current_preview.len(), 8191);
    log.append_output_bytes(b"\xff");
    assert_eq!(log.current_preview.len(), 8191);
    log.append_output_bytes(b"z");
    assert_eq!(log.current_preview.len(), 8192);

    let mut broken = CommandLog::new();
    broken.start_command("cat".to_string(), "/".to_string(), false);
    broken.append_output_bytes(&vec![0xffu8; 8192]);
    assert_eq!(broken.current_preview, "\u{fffd}".repeat(2730));
    assert_eq!(broken.current_preview.len(), 8190);
}

#[test]
fn ill_formed_output_is_replaced_in_the_preview() {
    let mut log = CommandLog::new();
    log.start_command("cat".to_string(), "/".to_string(), false);
    log.append_output_bytes(b"ok \xf0\x9f fine");
    assert_eq!(log.current_preview, "ok \u{fffd} fine");
}

#[test]
fn starting_a_command_drops_what_was_gathered() {
    let mut log = CommandLog::new();
    log.start_command("a".to_string(), "/".to_string(), true);
    log.append_output("x");
    log.start_command("b".to_string(), "/".to_string(), false);
    assert_eq!(log.current_cmd, "b");
    assert_eq!(log.current_preview, "");
    assert!(!log.spooling);
    assert!(log.entries.is_empty());
}

#[test]
fn get_recent_returns_the_last_entries_in_order() {
    let log = CommandLog::from_entries(vec![entry("a"), entry("b"), entry("c")]);
    let names = |n: usize| -> Vec<String> {
        log.get_recent(n).iter().map(|e| e.cmd.clone()).collect()
    };
    assert_eq!(names(0), Vec::<String>::new());
    assert_eq!(names(1), vec!["c".to_string()]);
    assert_eq!(names(2), vec!["b".to_string(), "c".to_string()]);
    assert_eq!(names(3), vec!["a".to_string(), "b".to_string(), "c".to_string()]);
    assert_eq!(names(9), vec!["a".to_string(), "b".to_string(), "c".to_string()]);
    assert_eq!(log.get_all().len(), 3);
}

#[test]
fn from_entries_has_no_running_command() {
    let log = CommandLog::from_entries(vec![entry("a")]);
    assert_eq!(log.entries, vec![entry("a")]);
    assert_eq!(log.current_cmd, "");
    assert_eq!(log.current_preview, "");
    assert!(log.current_start_time.is_none());
    assert!(!log.spooling);
}

#[test]
fn clear_forgets_everything() {
    let mut log = CommandLog::from_entries(vec![entry("a")]);
    log.start_command("b".to_string(), "/".to_string(), true);
    log.append_output("x");
    log.clear();
    assert!(log.entries.is_empty());
    assert_eq!(log.current_cmd, "");
    assert_eq!(log.current_preview, "");
    assert!(log.current_start_time.is_none());
    assert!(!log.spooling);
}

#[test]
fn force_flush_ends_a_running_command_with_success() {
    let mut log = CommandLog::new();
    assert_eq!(log.force_flush("/".to_string()), None);
    assert!(log.entries.is_empty());
    log.start_command("vim".to_string(), "/".to_string(), false);
    log.force_flush("/work".to_string());
    assert_eq!(log.entries.len(), 1);
    assert_eq!(log.entries[0].cmd, "vim");
    assert_eq!(log.entries[0].exit_code, 0);
    assert_eq!(log.entries[0].pipestatus, None);
    assert_eq!(log.entries[0].cwd, "/work");
}
