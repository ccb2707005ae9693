use vssh::parse::ShellError;
use vssh::run::{execute_line, wiring_for, ExecOutcome, PipeChannel, RunReport, WaitKind};

/// Runs a foreground line and returns the parent's report. If this process
/// turns out to be a forked child whose program could not be started, it is
/// replaced by `false` so that it ends with a nonzero status instead of
/// running on into the test harness.
fn run_fg(line: &[u8]) -> RunReport {
    match execute_line(&line.to_vec(), false) {
        Ok(ExecOutcome::Done(rep)) => rep,
        Ok(ExecOutcome::ChildExit(_)) => {
            let f = c"false";
            let _ = nix::unistd::execvp(f, &[f]);
            unreachable!()
        }
        Err(e) => panic!("setup failed: {:?}", e),
    }
}

fn write_file(path: &str, data: &[u8]) {
    let flags = nix::fcntl::OFlag::O_WRONLY
        | nix::fcntl::OFlag::O_CREAT
        | nix::fcntl::OFlag::O_TRUNC;
    let mode = nix::sys::stat::Mode::from_bits_truncate(0o644);
    let fd = nix::fcntl::open(path, flags, mode).unwrap();
    let mut off: usize = 0;
    while off < data.len() {
        off += nix::unistd::write(fd, &data[off..]).unwrap();
    }
    nix::unistd::close(fd).unwrap();
}

fn read_file(path: &str) -> Vec<u8> {
    let fd = nix::fcntl::open(path, nix::fcntl::OFlag::O_RDONLY, nix::sys::stat::Mode::empty())
        .unwrap();
    let mut out: Vec<u8> = Vec::new();
    let mut buf = [0u8; 4096];
    loop {
        let n = nix::unistd::read(fd, &mut buf).unwrap();
        if n == 0 {
            break;
        }
        out.extend_from_slice(&buf[..n]);
    }
    nix::unistd::close(fd).unwrap();
    out
}

#[test]
fn two_segment_pipe_uppercases_through_the_channel() {
    let out = "/tmp/vssh_test_upper.txt";
    let line = format!("echo hello | tr a-z A-Z > {}", out);
    let rep = run_fg(line.as_bytes());
    assert_eq!(rep.pids.len(), 2);
    assert_eq!(rep.channels_closed, 2);
    for r in &rep.reports {
        assert_eq!(r.outcome, WaitKind::Exited { code: 0 });
    }
    assert_eq!(read_file(out), b"HELLO\n".to_vec());
}

#[test]
fn redirected_sort_writes_sorted_lines() {
    let inp = "/tmp/vssh_test_sort_in.txt";
    let outp = "/tmp/vssh_test_sort_out.txt";
    write_file(inp, b"banana\napple\ncherry\n");
    let line = format!("sort < {} > {}", inp, outp);
    let rep = run_fg(line.as_bytes());
    assert_eq!(rep.pids.len(), 1);
    assert_eq!(rep.channels_closed, 0);
    assert_eq!(rep.reports[0].outcome, WaitKind::Exited { code: 0 });
    assert_eq!(read_file(outp), b"apple\nbanana\ncherry\n".to_vec());
}

#[test]
fn missing_program_reports_nonzero_and_pipeline_finishes() {
    let rep = run_fg(b"vssh-no-such-program-zz | true");
    assert_eq!(rep.reports.len(), 2);
    assert!(matches!(rep.reports[0].outcome, WaitKind::Exited { code } if code != 0));
    assert_eq!(rep.reports[1].outcome, WaitKind::Exited { code: 0 });
}

#[test]
fn exit_statuses_stay_tied_to_their_segments() {
    let rep = run_fg(b"false | true");
    assert_eq!(rep.pids.len(), 2);
    assert_eq!(rep.reports.len(), 2);
    assert_eq!(rep.reports[0].pid, rep.pids[0]);
    assert_eq!(rep.reports[1].pid, rep.pids[1]);
    assert_eq!(rep.reports[0].outcome, WaitKind::Exited { code: 1 });
    assert_eq!(rep.reports[1].outcome, WaitKind::Exited { code: 0 });
}

#[test]
fn foreground_run_waits_once_per_child_and_closes_all_ends() {
    let rep = run_fg(b"echo x | cat | cat > /tmp/vssh_test_three.txt");
    assert_eq!(rep.pids.len(), 3);
    assert_eq!(rep.reports.len(), 3);
    assert_eq!(rep.channels_closed, 4);
    assert_eq!(read_file("/tmp/vssh_test_three.txt"), b"x\n".to_vec());
}

#[test]
fn background_run_returns_before_children_finish() {
    let started = std::time::Instant::now();
    let rep = match execute_line(&b"sleep 2".to_vec(), true) {
        Ok(ExecOutcome::Done(rep)) => rep,
        _ => panic!("background run should set up"),
    };
    assert!(rep.background);
    assert_eq!(rep.pids.len(), 1);
    assert_eq!(rep.reports.len(), 0);
    assert!(started.elapsed() < std::time::Duration::from_millis(1500));
}

#[test]
fn empty_segment_spawns_no_child_but_keeps_topology() {
    let rep = run_fg(b"echo a | | cat > /tmp/vssh_test_empty_mid.txt");
    assert_eq!(rep.pids.len(), 2);
    assert_eq!(rep.reports.len(), 2);
    assert_eq!(rep.channels_closed, 4);
    // The writer may see its unread channel close under it; the reader sees
    // end-of-stream at once and ends cleanly instead of hanging.
    assert_eq!(rep.reports[1].outcome, WaitKind::Exited { code: 0 });
    assert_eq!(read_file("/tmp/vssh_test_empty_mid.txt"), b"".to_vec());
}

#[test]
fn blank_line_runs_nothing() {
    let rep = run_fg(b"   ");
    assert_eq!(rep.pids.len(), 0);
    assert_eq!(rep.reports.len(), 0);
    assert_eq!(rep.channels_closed, 0);
}

#[test]
fn malformed_redirection_aborts_before_any_spawn() {
    let r = execute_line(&b"cat < | wc".to_vec(), false);
    assert!(matches!(r, Err(ShellError::MalformedRedirection)));
}

#[test]
fn wiring_follows_pipeline_position() {
    let chans = vec![
        PipeChannel { read_fd: 3, write_fd: 4 },
        PipeChannel { read_fd: 5, write_fd: 6 },
    ];
    let first = wiring_for(0, 3, &chans, true, true);
    assert!(first.open_input);
    assert!(!first.open_output);
    assert_eq!(first.stdin_fd, None);
    assert_eq!(first.stdout_fd, Some(4));
    let mid = wiring_for(1, 3, &chans, true, true);
    assert!(!mid.open_input);
    assert!(!mid.open_output);
    assert_eq!(mid.stdin_fd, Some(3));
    assert_eq!(mid.stdout_fd, Some(6));
    let last = wiring_for(2, 3, &chans, true, true);
    assert!(!last.open_input);
    assert!(last.open_output);
    assert_eq!(last.stdin_fd, Some(5));
    assert_eq!(last.stdout_fd, None);
    let solo = wiring_for(0, 1, &Vec::new(), true, true);
    assert!(solo.open_input && solo.open_output);
    assert_eq!(solo.stdin_fd, None);
    assert_eq!(solo.stdout_fd, None);
}
