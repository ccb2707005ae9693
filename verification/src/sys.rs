//! Trusted wrappers around the host's process and descriptor calls.
//!
//! Each function holds exactly one outside call; its contract states only
//! what that call's source shows for every outcome.

use vstd::prelude::*;

use crate::run::{ForkedRole, PipeChannel, WaitKind};

verus! {

/// Relies on nix::unistd::pipe: on success the kernel hands back a fresh
/// channel as two valid (non-negative) descriptors, read end first.
#[verifier::external_body]
pub(crate) fn sys_pipe() -> (r: Result<PipeChannel, i32>)
    ensures
        r matches Ok(c) ==> c.read_fd >= 0 && c.write_fd >= 0,
{
    match nix::unistd::pipe() {
        Ok((rd, wr)) => Ok(PipeChannel { read_fd: rd, write_fd: wr }),
        Err(e) => Err(match e {
            nix::Error::Sys(no) => no as i32,
            _ => -1,
        }),
    }
}

/// Relies on nix::unistd::fork: on success the call returns in two
/// processes, in the parent with the child's positive process id, and in
/// the new child as InChild.
#[verifier::external_body]
pub(crate) fn sys_fork() -> (r: Result<ForkedRole, i32>)
    ensures
        r matches Ok(ForkedRole::ParentOf { child_pid }) ==> child_pid >= 1,
{
    match nix::unistd::fork() {
        Ok(nix::unistd::ForkResult::Parent { child }) => Ok(ForkedRole::ParentOf {
            child_pid: child.as_raw(),
        }),
        Ok(nix::unistd::ForkResult::Child) => Ok(ForkedRole::InChild),
        Err(e) => Err(match e {
            nix::Error::Sys(no) => no as i32,
            _ => -1,
        }),
    }
}

/// Relies on nix::unistd::dup2: makes descriptor `newfd` refer to the same
/// open stream as `oldfd`.
#[verifier::external_body]
pub(crate) fn sys_dup2(oldfd: i32, newfd: i32) -> (ok: bool) {
    nix::unistd::dup2(oldfd, newfd).is_ok()
}

/// Relies on nix::unistd::close: releases one descriptor.
#[verifier::external_body]
pub(crate) fn sys_close(fd: i32) -> (ok: bool) {
    nix::unistd::close(fd).is_ok()
}

/// Relies on nix::fcntl::open with O_RDONLY: on success the descriptor is
/// valid (non-negative) and open for reading the named file.
#[verifier::external_body]
pub(crate) fn sys_open_read(name: &Vec<u8>) -> (r: Result<i32, i32>)
    ensures
        r matches Ok(fd) ==> fd >= 0,
{
    match nix::fcntl::open(&name[..], nix::fcntl::OFlag::O_RDONLY, nix::sys::stat::Mode::empty()) {
        Ok(fd) => Ok(fd),
        Err(e) => Err(match e {
            nix::Error::Sys(no) => no as i32,
            _ => -1,
        }),
    }
}

/// Relies on nix::fcntl::open with O_WRONLY | O_CREAT | O_TRUNC: creates or
/// truncates the named file for writing; on success the descriptor is valid
/// (non-negative).
#[verifier::external_body]
pub(crate) fn sys_create_write(name: &Vec<u8>) -> (r: Result<i32, i32>)
    ensures
        r matches Ok(fd) ==> fd >= 0,
{
    let flags = nix::fcntl::OFlag::O_WRONLY | nix::fcntl::OFlag::O_CREAT | nix::fcntl::OFlag::O_TRUNC;
    match nix::fcntl::open(&name[..], flags, nix::sys::stat::Mode::from_bits_truncate(0o666)) {
        Ok(fd) => Ok(fd),
        Err(e) => Err(match e {
            nix::Error::Sys(no) => no as i32,
            _ => -1,
        }),
    }
}

/// Relies on nix::unistd::execvp: replaces this process's image with the
/// program named by the first token, searched for on the host's path, and
/// returns only if the replacement failed. A token with an interior NUL
/// cannot be passed to the host and fails the same way.
#[verifier::external_body]
pub(crate) fn sys_exec(argv: &Vec<Vec<u8>>) -> (r: i32)
    requires
        argv@.len() >= 1,
{
    let owned: Vec<Vec<u8>> = argv.iter().map(|t| { let mut b = t.clone(); b.push(0); b }).collect();
    let mut refs: Vec<&core::ffi::CStr> = Vec::new();
    for b in owned.iter() {
        match core::ffi::CStr::from_bytes_with_nul(b) {
            Ok(c) => refs.push(c),
            Err(_) => return -1,
        }
    }
    match nix::unistd::execvp(refs[0], &refs) { Err(nix::Error::Sys(no)) => no as i32, _ => -1 }
}

/// Relies on nix::sys::wait::waitpid with no options: blocks until the one
/// given child changes state and tells how it ended; a failed wait comes
/// back as WaitFailed with the errno.
#[verifier::external_body]
pub(crate) fn sys_waitpid(pid: i32) -> (r: WaitKind)
    requires
        pid >= 1,
{
    match nix::sys::wait::waitpid(nix::unistd::Pid::from_raw(pid), None) {
        Ok(nix::sys::wait::WaitStatus::Exited(_, code)) => WaitKind::Exited { code },
        Ok(nix::sys::wait::WaitStatus::Signaled(_, sig, core_dumped)) => WaitKind::Signaled {
            signal: sig as i32,
            core_dumped,
        },
        Ok(nix::sys::wait::WaitStatus::Stopped(_, sig)) => WaitKind::Stopped { signal: sig as i32 },
        Ok(nix::sys::wait::WaitStatus::Continued(_)) => WaitKind::Continued,
        Ok(_) => WaitKind::Other,
        Err(e) => WaitKind::WaitFailed { errno: match e {
            nix::Error::Sys(no) => no as i32,
            _ => -1,
        } },
    }
}

}
