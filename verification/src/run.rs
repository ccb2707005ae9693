//! Pipe Allocator, Process Launcher and Pipeline Coordinator: one command
//! line becomes one child process per non-empty segment, wired together by
//! kernel pipes, every parent-side descriptor closed exactly twice per
//! channel, and (for a foreground run) one wait per child in spawn order.

use vstd::prelude::*;

use crate::parse::{
    lemma_segment_count, parse_line, parsed_of, sep_count, views, views2, SepKind, ShellError,
};
use crate::sys::{
    sys_close, sys_create_write, sys_dup2, sys_exec, sys_fork, sys_open_read, sys_pipe,
    sys_waitpid,
};

verus! {

/// The standard input slot.
pub const STDIN_FD: i32 = 0;
/// The standard output slot.
pub const STDOUT_FD: i32 = 1;
/// No process can hold more channels than descriptors can number.
pub const MAX_CHANNELS: usize = 0x7fff_ffff;

/// One inter-process channel: a kernel pipe's read and write descriptors.
#[derive(Clone, Copy, Debug, PartialEq, Eq, Structural)]
pub struct PipeChannel {
    pub read_fd: i32,
    pub write_fd: i32,
}

/// What fork returned: the parent's handle on the new child, or the fact
/// of being that child.
pub enum ForkedRole {
    ParentOf { child_pid: i32 },
    InChild,
}

/// How one waited-for child ended.
#[derive(Clone, Copy, Debug, PartialEq, Eq, Structural)]
pub enum WaitKind {
    /// Normal exit with a status code.
    Exited { code: i32 },
    /// Terminated by a signal, with or without a core dump.
    Signaled { signal: i32, core_dumped: bool },
    /// Stopped by a signal.
    Stopped { signal: i32 },
    /// Resumed after a stop.
    Continued,
    /// A state this interface does not track further.
    Other,
    /// The wait itself failed; only this handle's report is lost.
    WaitFailed { errno: i32 },
}

/// One child's termination report.
#[derive(Clone, Copy, Debug, PartialEq, Eq, Structural)]
pub struct WaitReport {
    pub pid: i32,
    pub outcome: WaitKind,
}

/// What one run leaves behind for the operator: the spawned handles, one
/// report per handle for a foreground run (none for a background run), and
/// how many parent-side descriptors were closed.
pub struct RunReport {
    pub pids: Vec<i32>,
    pub reports: Vec<WaitReport>,
    pub channels_closed: usize,
    pub background: bool,
}

/// How execute_line comes back: in the orchestrating process with the
/// run's report, or in a child whose program could not be started, which
/// must then exit with the given code.
pub enum ExecOutcome {
    Done(RunReport),
    ChildExit(i32),
}

/// How many segments hold at least one word; each spawns one child.
pub open spec fn live_count(segs: Seq<Seq<Seq<u8>>>) -> nat
    decreases segs.len(),
{
    if segs.len() == 0 {
        0
    } else {
        live_count(segs.drop_last()) + (if segs.last().len() > 0 { 1nat } else { 0nat })
    }
}

/// Closes both ends of every channel: exactly two closes per channel,
/// whatever each close reports.
pub fn close_channels(chans: &Vec<PipeChannel>) -> (n_closed: usize)
    requires
        chans@.len() <= MAX_CHANNELS,
    ensures
        n_closed == 2 * chans@.len(),
{
    let mut i: usize = 0;
    let mut n_closed: usize = 0;
    while i < chans.len()
        invariant
            i <= chans@.len() <= MAX_CHANNELS,
            n_closed == 2 * i,
        decreases chans@.len() - i,
    {
        let c = chans[i];
        sys_close(c.read_fd);
        sys_close(c.write_fd);
        n_closed = n_closed + 2;
        i = i + 1;
    }
    n_closed
}

/// Allocates the n - 1 channels of an n-segment pipeline, before any child
/// is started. On any failure the channels already made are closed again
/// and the whole setup fails.
pub fn make_channels(n: usize) -> (r: Result<Vec<PipeChannel>, ShellError>)
    requires
        1 <= n,
        n - 1 <= MAX_CHANNELS,
    ensures
        r matches Ok(chans) ==> chans@.len() == n - 1 && (forall|j: int|
            0 <= j < chans@.len() ==> chans@[j].read_fd >= 0 && chans@[j].write_fd >= 0),
        n == 1 ==> r is Ok,
        r matches Err(e) ==> e == ShellError::PipeCreationFailed,
{
    let mut chans: Vec<PipeChannel> = Vec::new();
    let mut i: usize = 0;
    while i < n - 1
        invariant
            1 <= n,
            i <= n - 1 <= MAX_CHANNELS,
            chans@.len() == i,
            forall|j: int| 0 <= j < chans@.len()
                ==> chans@[j].read_fd >= 0 && chans@[j].write_fd >= 0,
        decreases n - 1 - i,
    {
        match sys_pipe() {
            Ok(c) => {
                chans.push(c);
            }
            Err(_) => {
                close_channels(&chans);
                return Err(ShellError::PipeCreationFailed);
            }
        }
        i = i + 1;
    }
    Ok(chans)
}

/// One child's descriptor decision, by its position in the pipeline:
/// whether the input file feeds it, whether the output file takes its
/// output, and which channel ends (if any) replace its standard streams.
#[derive(Clone, Copy, Debug, PartialEq, Eq)]
pub struct ChildWiring {
    pub open_input: bool,
    pub open_output: bool,
    pub stdin_fd: Option<i32>,
    pub stdout_fd: Option<i32>,
}

/// The wiring rule for position i of n: the input file is opened only at
/// the first segment and the output file only at the last; every segment
/// after the first reads channel i-1's read end on its standard input, and
/// every segment before the last writes channel i's write end on its
/// standard output. A channel overrides a file, but the two can meet only
/// at i == 0 or i == n-1, where no channel end is selected for that slot.
pub open spec fn spec_wiring(
    i: int,
    n: int,
    chans: Seq<PipeChannel>,
    has_input: bool,
    has_output: bool,
) -> ChildWiring {
    ChildWiring {
        open_input: i == 0 && has_input,
        open_output: i == n - 1 && has_output,
        stdin_fd: if i > 0 { Some(chans[i - 1].read_fd) } else { None },
        stdout_fd: if i < n - 1 { Some(chans[i].write_fd) } else { None },
    }
}

/// Decides one child's wiring, exactly as `spec_wiring` states.
pub fn wiring_for(
    i: usize,
    n: usize,
    chans: &Vec<PipeChannel>,
    has_input: bool,
    has_output: bool,
) -> (w: ChildWiring)
    requires
        n >= 1,
        i < n,
        chans@.len() == n - 1,
    ensures
        w == spec_wiring(i as int, n as int, chans@, has_input, has_output),
{
    let stdin_fd: Option<i32> = if i > 0 {
        Some(chans[i - 1].read_fd)
    } else {
        None
    };
    let stdout_fd: Option<i32> = if i < n - 1 {
        Some(chans[i].write_fd)
    } else {
        None
    };
    ChildWiring {
        open_input: i == 0 && has_input,
        open_output: i == n - 1 && has_output,
        stdin_fd,
        stdout_fd,
    }
}

/// Runs in a freshly forked child: performs the wiring that `wiring_for`
/// decided for position i of n (file duplications first, then the channel
/// ends), releases every channel descriptor on every path, and replaces
/// the image with the program named by the argument vector's first token.
/// Returning at all means the child failed; its exit code is always 1.
pub fn child_run(
    i: usize,
    n: usize,
    chans: &Vec<PipeChannel>,
    input_name: &Option<Vec<u8>>,
    output_name: &Option<Vec<u8>>,
    argv: &Vec<Vec<u8>>,
) -> (code: i32)
    requires
        n >= 1,
        i < n,
        chans@.len() == n - 1,
        chans@.len() <= MAX_CHANNELS,
        argv@.len() >= 1,
    ensures
        code == 1,
{
    let w = wiring_for(i, n, chans, input_name.is_some(), output_name.is_some());
    if w.open_input {
        match input_name {
            Some(name) => {
                match sys_open_read(name) {
                    Ok(fd) => {
                        sys_dup2(fd, STDIN_FD);
                        sys_close(fd);
                    }
                    Err(_) => {
                        close_channels(chans);
                        return 1;
                    }
                }
            }
            None => {
                assert(false);
            }
        }
    }
    if w.open_output {
        match output_name {
            Some(name) => {
                match sys_create_write(name) {
                    Ok(fd) => {
                        sys_dup2(fd, STDOUT_FD);
                        sys_close(fd);
                    }
                    Err(_) => {
                        close_channels(chans);
                        return 1;
                    }
                }
            }
            None => {
                assert(false);
            }
        }
    }
    match w.stdin_fd {
        Some(fd) => {
            sys_dup2(fd, STDIN_FD);
        }
        None => {}
    }
    match w.stdout_fd {
        Some(fd) => {
            sys_dup2(fd, STDOUT_FD);
        }
        None => {}
    }
    close_channels(chans);
    sys_exec(argv);
    1
}

/// Waits once for every spawned handle, in spawn order; the i-th report is
/// for the i-th handle. A failed wait loses only that handle's report and
/// waiting goes on.
pub fn wait_all(pids: &Vec<i32>) -> (reports: Vec<WaitReport>)
    requires
        forall|i: int| 0 <= i < pids@.len() ==> pids@[i] >= 1,
    ensures
        reports@.len() == pids@.len(),
        forall|i: int| 0 <= i < pids@.len() ==> reports@[i].pid == pids@[i],
{
    let mut reports: Vec<WaitReport> = Vec::new();
    let mut i: usize = 0;
    while i < pids.len()
        invariant
            i <= pids@.len(),
            reports@.len() == i,
            forall|j: int| 0 <= j < pids@.len() ==> pids@[j] >= 1,
            forall|j: int| 0 <= j < i ==> reports@[j].pid == pids@[j],
        decreases pids@.len() - i,
    {
        let pid = pids[i];
        let outcome = sys_waitpid(pid);
        reports.push(WaitReport { pid, outcome });
        i = i + 1;
    }
    reports
}

/// Runs one command line: parses it, allocates its channels, starts one
/// child per non-empty segment, closes both ends of every channel in the
/// parent, and, unless the run is backgrounded, waits once per child in
/// spawn order. A background run waits for nothing and reports nothing.
///
/// In the orchestrating process the result is Done with the run's report;
/// in a child whose program could not be started it is ChildExit, and the
/// caller must end that child's process with the given code.
pub fn execute_line(line: &Vec<u8>, background: bool) -> (r: Result<ExecOutcome, ShellError>)
    ensures
        parsed_of(line@) matches Err(pe) ==> r == Err::<ExecOutcome, ShellError>(pe),
        r matches Ok(o) ==> parsed_of(line@) is Ok,
        r == Err::<ExecOutcome, ShellError>(ShellError::MalformedRedirection)
            ==> parsed_of(line@) is Err,
        r matches Err(e) && e != ShellError::MalformedRedirection ==> parsed_of(line@) is Ok,
        r matches Ok(ExecOutcome::ChildExit(code)) ==> code == 1,
        r matches Ok(ExecOutcome::Done(rep)) ==> {
            let segs = (parsed_of(line@)->Ok_0).0;
            &&& (forall|j: int| 0 <= j < rep.pids@.len() ==> rep.pids@[j] >= 1)
            &&& rep.pids@.len() == live_count(segs)
            &&& rep.channels_closed == 2 * (segs.len() - 1)
            &&& rep.channels_closed == 2 * sep_count(SepKind::Pipe, line@)
            &&& rep.background == background
            &&& (background ==> rep.reports@.len() == 0)
            &&& (!background ==> rep.reports@.len() == rep.pids@.len() && (forall|i: int|
                0 <= i < rep.pids@.len() ==> rep.reports@[i].pid == rep.pids@[i]))
        },
{
    let pipeline = match parse_line(line) {
        Ok(p) => p,
        Err(e) => {
            return Err(e);
        }
    };
    let ghost segs_spec = (parsed_of(line@)->Ok_0).0;
    proof {
        lemma_segment_count(line@);
        assert(views2(pipeline.segments@) == segs_spec);
    }
    let n = pipeline.segments.len();
    if n - 1 > MAX_CHANNELS {
        return Err(ShellError::PipeCreationFailed);
    }
    let chans = match make_channels(n) {
        Ok(cs) => cs,
        Err(e) => {
            return Err(e);
        }
    };
    let mut pids: Vec<i32> = Vec::new();
    let mut i: usize = 0;
    while i < n
        invariant
            i <= n,
            n == pipeline.segments@.len(),
            n >= 1,
            parsed_of(line@) is Ok,
            segs_spec == (parsed_of(line@)->Ok_0).0,
            chans@.len() == n - 1,
            chans@.len() <= MAX_CHANNELS,
            views2(pipeline.segments@) == segs_spec,
            pids@.len() == live_count(segs_spec.take(i as int)),
            forall|j: int| 0 <= j < pids@.len() ==> pids@[j] >= 1,
        decreases n - i,
    {
        proof {
            assert(segs_spec.take(i + 1).drop_last() =~= segs_spec.take(i as int));
            assert(segs_spec.take(i + 1).last() == segs_spec[i as int]);
            assert(segs_spec[i as int] == views(pipeline.segments@[i as int]@));
        }
        let toks_len = pipeline.segments[i].len();
        if toks_len > 0 {
            match sys_fork() {
                Ok(ForkedRole::InChild) => {
                    let code = child_run(
                        i,
                        n,
                        &chans,
                        &pipeline.input_name,
                        &pipeline.output_name,
                        &pipeline.segments[i],
                    );
                    return Ok(ExecOutcome::ChildExit(code));
                }
                Ok(ForkedRole::ParentOf { child_pid }) => {
                    pids.push(child_pid);
                }
                Err(_) => {
                    close_channels(&chans);
                    return Err(ShellError::SpawnFailed);
                }
            }
        }
        i = i + 1;
    }
    proof {
        assert(segs_spec.take(segs_spec.len() as int) =~= segs_spec);
    }
    let channels_closed = close_channels(&chans);
    let reports: Vec<WaitReport> = if background {
        Vec::new()
    } else {
        wait_all(&pids)
    };
    Ok(ExecOutcome::Done(RunReport { pids, reports, channels_closed, background }))
}

}
