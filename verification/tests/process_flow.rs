use remoteify::executor::{LinuxProcessConfiguration, LinuxProcessError};
use remoteify::process::{ProcessState, ProcessTracker};

fn tracker(cfg: &LinuxProcessConfiguration) -> ProcessTracker {
    ProcessTracker::new(cfg)
}

#[test]
fn fresh_tracker_mirrors_configuration() {
    let cfg = LinuxProcessConfiguration::new("p").redirect_stdout().redirect_stdin();
    let t = tracker(&cfg);
    assert!(t.redirect_stdout);
    assert!(t.redirect_stdin);
    assert!(!t.redirect_stderr);
    assert!(t.stdin_open);
    assert_eq!(t.status_code, None);
    assert_eq!(t.state, ProcessState::Running);
    assert!(t.stdout.is_empty() && t.stderr.is_empty() && t.extended.is_empty());
}

#[test]
fn data_is_captured_only_when_stdout_redirected() {
    let cfg = LinuxProcessConfiguration::new("p").redirect_stdout();
    let mut t = tracker(&cfg);
    t.handle_data(b"one");
    t.handle_data(b"two");
    assert_eq!(t.stdout, b"onetwo".to_vec());

    let cfg = LinuxProcessConfiguration::new("p");
    let mut t = tracker(&cfg);
    t.handle_data(b"dropped");
    assert!(t.stdout.is_empty());
}

#[test]
fn extended_data_routes_stderr_and_extra_streams() {
    let cfg = LinuxProcessConfiguration::new("p").redirect_stderr();
    let mut t = tracker(&cfg);
    t.handle_extended_data(1, b"oops");
    t.handle_extended_data(5, b"aa");
    t.handle_extended_data(7, b"bb");
    t.handle_extended_data(5, b"cc");
    assert_eq!(t.stderr, b"oops".to_vec());
    assert_eq!(
        t.extended,
        vec![(5, b"aacc".to_vec()), (7, b"bb".to_vec())]
    );
}

#[test]
fn stderr_is_dropped_without_redirect() {
    let cfg = LinuxProcessConfiguration::new("p");
    let mut t = tracker(&cfg);
    t.handle_extended_data(1, b"oops");
    assert!(t.stderr.is_empty());
}

#[test]
fn disable_extra_reads_drains_extra_streams() {
    let cfg = LinuxProcessConfiguration::new("p").redirect_stderr().disable_extra_reads();
    let mut t = tracker(&cfg);
    t.handle_extended_data(5, b"aa");
    t.handle_extended_data(1, b"kept");
    assert!(t.extended.is_empty());
    assert_eq!(t.stderr, b"kept".to_vec());
}

#[test]
fn exit_status_is_surfaced_nonnegative() {
    let cfg = LinuxProcessConfiguration::new("p");
    let mut t = tracker(&cfg);
    t.handle_exit_status(3);
    assert_eq!(t.status_code, Some(3));
    assert_eq!(t.state, ProcessState::Exited);
}

#[test]
fn exit_signal_is_surfaced_negated() {
    let cfg = LinuxProcessConfiguration::new("p");
    let mut t = tracker(&cfg);
    t.handle_exit_signal(15);
    assert_eq!(t.status_code, Some(-15));
    assert_eq!(t.state, ProcessState::Exited);
}

#[test]
fn close_without_report_leaves_status_absent() {
    let cfg = LinuxProcessConfiguration::new("p");
    let mut t = tracker(&cfg);
    t.handle_close();
    assert_eq!(t.status_code, None);
    assert_eq!(t.state, ProcessState::Exited);
}

#[test]
fn kill_request_signals_only_live_processes() {
    let cfg = LinuxProcessConfiguration::new("p");
    let mut t = tracker(&cfg);
    assert!(t.note_kill_requested());
    assert_eq!(t.state, ProcessState::Signalled);
    t.handle_close();
    let mut t2 = tracker(&cfg);
    t2.handle_exit_status(0);
    assert!(!t2.note_kill_requested());
    assert_eq!(t2.state, ProcessState::Exited);
}

#[test]
fn stdin_writes_need_redirect() {
    let cfg = LinuxProcessConfiguration::new("p");
    let t = tracker(&cfg);
    assert_eq!(t.check_stdin_writable(), Err(LinuxProcessError::StdinNotPiped));

    let cfg = LinuxProcessConfiguration::new("p").redirect_stdin();
    let t = tracker(&cfg);
    assert_eq!(t.check_stdin_writable(), Ok(()));
}

#[test]
fn close_stdin_is_idempotent_and_needs_redirect() {
    let cfg = LinuxProcessConfiguration::new("p").redirect_stdin();
    let mut t = tracker(&cfg);
    assert_eq!(t.close_stdin(), Ok(true));
    assert_eq!(t.close_stdin(), Ok(false));
    assert_eq!(t.check_stdin_writable(), Err(LinuxProcessError::StdinNotPiped));

    let cfg = LinuxProcessConfiguration::new("p");
    let mut t = tracker(&cfg);
    assert_eq!(t.close_stdin(), Err(LinuxProcessError::StdinNotPiped));
}

#[test]
fn partial_output_reports_streams_per_redirect() {
    let cfg = LinuxProcessConfiguration::new("p").redirect_stdout();
    let mut t = tracker(&cfg);
    t.handle_data(b"so far");
    t.handle_extended_data(1, b"dropped");
    t.handle_extended_data(9, b"extra");
    let p = t.get_partial_output().unwrap();
    assert_eq!(p.stdout, Some(b"so far".to_vec()));
    assert_eq!(p.stderr, None);
    assert_eq!(p.stdout_extended, vec![(9, b"extra".to_vec())]);
}

#[test]
fn partial_snapshots_are_prefixes_of_the_final_output() {
    let cfg = LinuxProcessConfiguration::new("p").redirect_stdout();
    let mut t = tracker(&cfg);
    t.handle_data(b"he");
    let snap1 = t.get_partial_output().unwrap().stdout.unwrap();
    t.handle_data(b"llo");
    let snap2 = t.get_partial_output().unwrap().stdout.unwrap();
    t.handle_exit_status(0);
    let out = t.into_output();
    let final_stdout = out.stdout.unwrap();
    assert!(final_stdout.starts_with(&snap1));
    assert!(final_stdout.starts_with(&snap2));
    assert_eq!(final_stdout, b"hello".to_vec());
}

#[test]
fn echo_run_yields_stdout_and_zero_status() {
    let cfg = LinuxProcessConfiguration::new("echo").arg("hello").redirect_stdout();
    let mut t = tracker(&cfg);
    t.handle_data(b"hello\n");
    t.handle_exit_status(0);
    let out = t.into_output();
    assert_eq!(out.stdout, Some(b"hello\n".to_vec()));
    assert_eq!(out.stderr, None);
    assert_eq!(out.status_code, Some(0));
}

#[test]
fn cat_roundtrip_echoes_stdin() {
    let cfg = LinuxProcessConfiguration::new("sh")
        .arg("-c")
        .arg("cat")
        .redirect_stdin()
        .redirect_stdout();
    let mut t = tracker(&cfg);
    assert_eq!(t.check_stdin_writable(), Ok(()));
    t.handle_data(b"abc");
    assert_eq!(t.close_stdin(), Ok(true));
    t.handle_exit_status(0);
    let out = t.into_output();
    assert_eq!(out.stdout, Some(b"abc".to_vec()));
    assert_eq!(out.status_code, Some(0));
}

#[test]
fn output_presence_matches_redirects() {
    let cfg = LinuxProcessConfiguration::new("p").redirect_stderr();
    let mut t = tracker(&cfg);
    t.handle_data(b"ignored");
    t.handle_extended_data(1, b"err");
    t.handle_exit_status(1);
    let out = t.into_output();
    assert_eq!(out.stdout, None);
    assert_eq!(out.stderr, Some(b"err".to_vec()));
    assert_eq!(out.status_code, Some(1));
}
