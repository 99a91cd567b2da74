use recli::pty::{
    contains, plan_launch, terminal_event, terminal_size, urgent_event, wants_bootstrap, Bootstrap, LaunchPlan, Phase, PtyAction,
    PtyEvent, PtySession, TeardownStep, TerminalSize,
};
use recli::session::SessionManager;

fn running() -> PtySession {
    let mut s = PtySession::new(false);
    assert_eq!(s.step(PtyEvent::Started), PtyAction::Nothing);
    assert_eq!(s.current_phase(), Phase::Running);
    s
}

#[test]
fn a_new_session_has_not_started() {
    let s = PtySession::new(true);
    assert_eq!(s.current_phase(), Phase::NotStarted);
    assert!(s.verbose());
    assert!(!s.logging());
    let logged = PtySession::new_with_logging(false, SessionManager::new("/logs".to_string()));
    assert_eq!(logged.current_phase(), Phase::NotStarted);
    assert!(!logged.verbose());
    assert!(logged.logging());
}

#[test]
fn the_session_manager_can_be_taken_out_once() {
    let mut s = PtySession::new_with_logging(false, SessionManager::new("/logs".to_string()));
    assert!(s.take_session_manager().is_some());
    assert!(!s.logging());
    assert!(s.take_session_manager().is_none());
}

#[test]
fn nothing_happens_before_the_start() {
    for event in [
        PtyEvent::Resized { cols: 80, rows: 24 },
        PtyEvent::ChildExited,
        PtyEvent::TerminationSignal,
        PtyEvent::UserExit,
        PtyEvent::IoFailed,
        PtyEvent::Idle,
        PtyEvent::TornDown,
    ] {
        let mut s = PtySession::new(false);
        assert_eq!(s.step(event), PtyAction::Nothing);
        assert_eq!(s.current_phase(), Phase::NotStarted);
    }
}

#[test]
fn a_running_session_follows_the_terminal_size() {
    let mut s = running();
    assert_eq!(
        s.step(PtyEvent::Resized { cols: 132, rows: 43 }),
        PtyAction::Resize(TerminalSize { rows: 43, cols: 132, pixel_width: 0, pixel_height: 0 })
    );
    assert_eq!(s.current_phase(), Phase::Running);
    assert_eq!(s.step(PtyEvent::Idle), PtyAction::Nothing);
    assert_eq!(s.step(PtyEvent::Started), PtyAction::Nothing);
    assert_eq!(s.step(PtyEvent::TornDown), PtyAction::Nothing);
    assert_eq!(s.current_phase(), Phase::Running);
}

#[test]
fn four_things_end_a_running_session() {
    for event in
        [PtyEvent::ChildExited, PtyEvent::TerminationSignal, PtyEvent::UserExit, PtyEvent::IoFailed]
    {
        let mut s = running();
        assert_eq!(s.step(event), PtyAction::TearDown);
        assert_eq!(s.current_phase(), Phase::Stopping);
    }
}

#[test]
fn teardown_is_asked_for_once() {
    let mut s = running();
    assert_eq!(s.step(PtyEvent::ChildExited), PtyAction::TearDown);
    assert_eq!(s.step(PtyEvent::TerminationSignal), PtyAction::Nothing);
    assert_eq!(s.step(PtyEvent::Resized { cols: 1, rows: 1 }), PtyAction::Nothing);
    assert_eq!(s.current_phase(), Phase::Stopping);
    assert_eq!(s.step(PtyEvent::TornDown), PtyAction::Nothing);
    assert_eq!(s.current_phase(), Phase::Stopped);
    for event in [PtyEvent::Started, PtyEvent::ChildExited, PtyEvent::TornDown, PtyEvent::Idle] {
        assert_eq!(s.step(event), PtyAction::Nothing);
        assert_eq!(s.current_phase(), Phase::Stopped);
    }
}

#[test]
fn teardown_restores_the_terminal_first_and_stops_the_session_last() {
    assert_eq!(
        PtySession::teardown_steps(true),
        vec![
            TeardownStep::RestoreTerminal,
            TeardownStep::FinishParser,
            TeardownStep::CancelReader,
            TeardownStep::StopSession,
        ]
    );
    assert_eq!(
        PtySession::teardown_steps(false),
        vec![TeardownStep::RestoreTerminal, TeardownStep::CancelReader]
    );
}

#[test]
fn terminal_size_has_no_pixels() {
    assert_eq!(
        terminal_size(80, 24),
        TerminalSize { rows: 24, cols: 80, pixel_width: 0, pixel_height: 0 }
    );
}

#[test]
fn contains_finds_a_byte_string() {
    assert!(contains(b"/bin/zsh", b"zsh"));
    assert!(contains(b"zsh", b"zsh"));
    assert!(contains(b"zzsh5", b"zsh"));
    assert!(contains(b"abc", b""));
    assert!(contains(b"", b""));
    assert!(!contains(b"/bin/bash", b"zsh"));
    assert!(!contains(b"zs", b"zsh"));
    assert!(!contains(b"z-s-h", b"zsh"));
    assert!(!contains(b"", b"zsh"));
}

#[test]
fn only_zsh_takes_hook_files() {
    assert!(wants_bootstrap("/bin/zsh"));
    assert!(wants_bootstrap("/usr/local/bin/zsh-5.9"));
    assert!(wants_bootstrap("zsh"));
    assert!(!wants_bootstrap("/bin/bash"));
    assert!(!wants_bootstrap("/bin/ZSH"));
    assert!(!wants_bootstrap(""));
}

#[test]
fn zsh_with_hook_files_runs_from_their_directory() {
    let plan = plan_launch(
        "/opt/bin/zsh",
        Some("xterm-256color".to_string()),
        Bootstrap::Ready { dir: "/home/u/.recli".to_string() },
        true,
    );
    assert_eq!(
        plan,
        LaunchPlan {
            program: "zsh".to_string(),
            term: Some("xterm-256color".to_string()),
            zdotdir: Some("/home/u/.recli".to_string()),
            debug_markers: true,
        }
    );
    let quiet = plan_launch("zsh", None, Bootstrap::Ready { dir: "/d".to_string() }, false);
    assert_eq!(
        quiet,
        LaunchPlan { program: "zsh".to_string(), term: None, zdotdir: Some("/d".to_string()), debug_markers: false }
    );
}

#[test]
fn a_shell_without_hook_files_runs_plain() {
    let failed = plan_launch("/bin/zsh", Some("vt100".to_string()), Bootstrap::Failed, true);
    assert_eq!(
        failed,
        LaunchPlan {
            program: "/bin/zsh".to_string(),
            term: Some("vt100".to_string()),
            zdotdir: None,
            debug_markers: false,
        }
    );
    let bash = plan_launch("/bin/bash", None, Bootstrap::NotTried, true);
    assert_eq!(
        bash,
        LaunchPlan { program: "/bin/bash".to_string(), term: None, zdotdir: None, debug_markers: true }
    );
    let quiet = plan_launch("/bin/bash", None, Bootstrap::NotTried, false);
    assert!(!quiet.debug_markers);
}

#[test]
fn a_signal_comes_before_the_exit_and_the_exit_before_a_failure() {
    assert_eq!(urgent_event(false, false, false), None);
    assert_eq!(urgent_event(true, false, false), Some(PtyEvent::TerminationSignal));
    assert_eq!(urgent_event(true, true, true), Some(PtyEvent::TerminationSignal));
    assert_eq!(urgent_event(false, true, false), Some(PtyEvent::ChildExited));
    assert_eq!(urgent_event(false, true, true), Some(PtyEvent::ChildExited));
    assert_eq!(urgent_event(false, false, true), Some(PtyEvent::IoFailed));
    assert_eq!(terminal_event(None), PtyEvent::Idle);
    assert_eq!(terminal_event(Some((120, 40))), PtyEvent::Resized { cols: 120, rows: 40 });
}
