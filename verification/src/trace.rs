//! Trusted window onto the operating system's process-tracing interface.
//!
//! Every function here wraps exactly one call into the `nix` crate (plus
//! the conversions between the library's plain values and the crate's
//! types).  What a traced child does is decided by the operating system
//! and the child itself, so none of these results can be pinned down by a
//! contract; the verified callers state what holds whatever comes back.
//! Errors are carried as the raw `errno` value.

use vstd::prelude::*;

verus! {

/// The x86-64 user-mode register file, as the tracing interface hands it
/// out.  Opaque to the verifier; the fields the debugger reads are exposed
/// through the accessors below.
#[verifier::external_type_specification]
#[verifier::external_body]
pub struct ExUserRegs(nix::libc::user_regs_struct);

/// What one wait on the child reported, reduced to plain values.
#[derive(Clone, Copy, Debug, PartialEq, Eq, Structural)]
pub enum WaitEvent {
    /// Normal exit with the given status code.
    Exited(i32),
    /// Killed by the given signal.
    Signaled(i32),
    /// Stopped by the given signal.
    Stopped(i32),
    /// Any other report (trace events, non-blocking polls); the debugger
    /// never requests these and treats one as a failed wait.
    Other,
}

/// Relies on nix::sys::ptrace::read: one word of the tracee's memory at
/// the given address.
#[verifier::external_body]
pub(crate) fn read_word(pid: i32, addr: usize) -> (r: Result<u64, i32>) {
    match nix::sys::ptrace::read(
        nix::unistd::Pid::from_raw(pid),
        addr as nix::sys::ptrace::AddressType,
    ) {
        Ok(w) => Ok(w as u64),
        Err(e) => Err(e as i32),
    }
}

/// Relies on nix::sys::ptrace::write: store one word into the tracee's
/// memory at the given address.
#[verifier::external_body]
pub(crate) fn write_word(pid: i32, addr: usize, word: u64) -> (r: Result<(), i32>) {
    match nix::sys::ptrace::write(
        nix::unistd::Pid::from_raw(pid),
        addr as nix::sys::ptrace::AddressType,
        word as nix::libc::c_long,
    ) {
        Ok(()) => Ok(()),
        Err(e) => Err(e as i32),
    }
}

/// Relies on nix::sys::ptrace::getregs: the tracee's current registers.
#[verifier::external_body]
pub(crate) fn getregs(pid: i32) -> (r: Result<nix::libc::user_regs_struct, i32>) {
    match nix::sys::ptrace::getregs(nix::unistd::Pid::from_raw(pid)) {
        Ok(regs) => Ok(regs),
        Err(e) => Err(e as i32),
    }
}

/// Relies on nix::sys::ptrace::setregs: overwrite the tracee's registers.
#[verifier::external_body]
pub(crate) fn setregs(pid: i32, regs: nix::libc::user_regs_struct) -> (r: Result<(), i32>) {
    match nix::sys::ptrace::setregs(nix::unistd::Pid::from_raw(pid), regs) {
        Ok(()) => Ok(()),
        Err(e) => Err(e as i32),
    }
}

/// Relies on the x86-64 layout of libc::user_regs_struct: the instruction
/// pointer field.
#[verifier::external_body]
pub(crate) fn regs_rip(regs: &nix::libc::user_regs_struct) -> (r: u64) {
    regs.rip
}

/// Relies on the x86-64 layout of libc::user_regs_struct: the frame
/// pointer field.
#[verifier::external_body]
pub(crate) fn regs_rbp(regs: &nix::libc::user_regs_struct) -> (r: u64) {
    regs.rbp
}

/// Relies on the x86-64 layout of libc::user_regs_struct: the same
/// register file with the instruction pointer replaced.
#[verifier::external_body]
pub(crate) fn regs_with_rip(
    regs: nix::libc::user_regs_struct,
    rip: u64,
) -> (r: nix::libc::user_regs_struct) {
    let mut out = regs;
    out.rip = rip;
    out
}

/// Relies on nix::sys::ptrace::step: let the tracee execute one
/// instruction, with no signal delivered.
#[verifier::external_body]
pub(crate) fn singlestep(pid: i32) -> (r: Result<(), i32>) {
    match nix::sys::ptrace::step(
        nix::unistd::Pid::from_raw(pid),
        Option::<nix::sys::signal::Signal>::None,
    ) {
        Ok(()) => Ok(()),
        Err(e) => Err(e as i32),
    }
}

/// Relies on nix::sys::ptrace::cont: resume the tracee, with no signal
/// delivered.
#[verifier::external_body]
pub(crate) fn cont(pid: i32) -> (r: Result<(), i32>) {
    match nix::sys::ptrace::cont(
        nix::unistd::Pid::from_raw(pid),
        Option::<nix::sys::signal::Signal>::None,
    ) {
        Ok(()) => Ok(()),
        Err(e) => Err(e as i32),
    }
}

/// Relies on nix::sys::wait::waitpid: block until the child changes state,
/// with each of the crate's report variants mapped to its plain-value
/// counterpart (signals as their raw numbers).
#[verifier::external_body]
pub(crate) fn wait_child(pid: i32) -> (r: Result<WaitEvent, i32>) {
    match nix::sys::wait::waitpid(nix::unistd::Pid::from_raw(pid), None) {
        Ok(nix::sys::wait::WaitStatus::Exited(_, code)) => Ok(WaitEvent::Exited(code)),
        Ok(nix::sys::wait::WaitStatus::Signaled(_, sig, _)) => Ok(WaitEvent::Signaled(sig as i32)),
        Ok(nix::sys::wait::WaitStatus::Stopped(_, sig)) => Ok(WaitEvent::Stopped(sig as i32)),
        Ok(_) => Ok(WaitEvent::Other),
        Err(e) => Err(e as i32),
    }
}

/// Relies on nix::sys::signal::kill: deliver SIGKILL to the child.
#[verifier::external_body]
pub(crate) fn kill_child(pid: i32) -> (r: Result<(), i32>) {
    match nix::sys::signal::kill(
        nix::unistd::Pid::from_raw(pid),
        nix::sys::signal::Signal::SIGKILL,
    ) {
        Ok(()) => Ok(()),
        Err(e) => Err(e as i32),
    }
}

} // verus!
