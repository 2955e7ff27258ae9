//! What the debugger has to say, as structured values.
//!
//! The session and the inferior controller report everything the user
//! should see as `Output` values; turning them into text is left to
//! whatever runs the prompt.

use vstd::prelude::*;

verus! {

/// One line of debugger output, as data.
#[derive(Debug, PartialEq, Eq)]
pub enum Output {
    /// A breakpoint was recorded: its 0-based index and its address.
    SetBreakpoint(usize, usize),
    /// The child exited with the given status code.
    ChildExited(i32),
    /// The child stopped: signal number and instruction pointer.
    ChildStopped(i32, usize),
    /// The source position of the stop, when the line table resolves it.
    StoppedAtLine(String, usize),
    /// One backtrace frame: function name, file, line number.
    Frame(String, String, usize),
    /// A command needed a running inferior and there is none.
    NotRunning,
    /// A breakpoint address token did not parse.
    InvalidAddress,
    /// A breakpoint target was neither an address, a known line, nor a
    /// known function.
    InvalidTarget,
    /// The child could not be spawned or never reached its entry trap.
    ErrorStartingSubprocess,
    /// A resume failed in the tracing interface; the inferior is kept.
    ContinueFails,
    /// The kill request itself failed; the inferior is discarded anyway.
    KillFailed,
}

/// The conventional name of signal number `signo` on x86-64 Linux
/// (signals 1 through 31, but 6 is reported as SIGABRT rather than its
/// SIGIOT alias), or `"UNKNOWN"` for a number outside that table.
pub open spec fn spec_signal_name(signo: i32) -> Seq<char> {
    if signo == 1 {
        "SIGHUP"@
    } else if signo == 2 {
        "SIGINT"@
    } else if signo == 3 {
        "SIGQUIT"@
    } else if signo == 4 {
        "SIGILL"@
    } else if signo == 5 {
        "SIGTRAP"@
    } else if signo == 6 {
        "SIGABRT"@
    } else if signo == 7 {
        "SIGBUS"@
    } else if signo == 8 {
        "SIGFPE"@
    } else if signo == 9 {
        "SIGKILL"@
    } else if signo == 10 {
        "SIGUSR1"@
    } else if signo == 11 {
        "SIGSEGV"@
    } else if signo == 12 {
        "SIGUSR2"@
    } else if signo == 13 {
        "SIGPIPE"@
    } else if signo == 14 {
        "SIGALRM"@
    } else if signo == 15 {
        "SIGTERM"@
    } else if signo == 16 {
        "SIGSTKFLT"@
    } else if signo == 17 {
        "SIGCHLD"@
    } else if signo == 18 {
        "SIGCONT"@
    } else if signo == 19 {
        "SIGSTOP"@
    } else if signo == 20 {
        "SIGTSTP"@
    } else if signo == 21 {
        "SIGTTIN"@
    } else if signo == 22 {
        "SIGTTOU"@
    } else if signo == 23 {
        "SIGURG"@
    } else if signo == 24 {
        "SIGXCPU"@
    } else if signo == 25 {
        "SIGXFSZ"@
    } else if signo == 26 {
        "SIGVTALRM"@
    } else if signo == 27 {
        "SIGPROF"@
    } else if signo == 28 {
        "SIGWINCH"@
    } else if signo == 29 {
        "SIGIO"@
    } else if signo == 30 {
        "SIGPWR"@
    } else if signo == 31 {
        "SIGSYS"@
    } else {
        "UNKNOWN"@
    }
}

/// The conventional name of signal number `signo`, for display.
pub fn signal_name(signo: i32) -> (r: &'static str)
    ensures
        r@ == spec_signal_name(signo),
{
    if signo == 1 {
        "SIGHUP"
    } else if signo == 2 {
        "SIGINT"
    } else if signo == 3 {
        "SIGQUIT"
    } else if signo == 4 {
        "SIGILL"
    } else if signo == 5 {
        "SIGTRAP"
    } else if signo == 6 {
        "SIGABRT"
    } else if signo == 7 {
        "SIGBUS"
    } else if signo == 8 {
        "SIGFPE"
    } else if signo == 9 {
        "SIGKILL"
    } else if signo == 10 {
        "SIGUSR1"
    } else if signo == 11 {
        "SIGSEGV"
    } else if signo == 12 {
        "SIGUSR2"
    } else if signo == 13 {
        "SIGPIPE"
    } else if signo == 14 {
        "SIGALRM"
    } else if signo == 15 {
        "SIGTERM"
    } else if signo == 16 {
        "SIGSTKFLT"
    } else if signo == 17 {
        "SIGCHLD"
    } else if signo == 18 {
        "SIGCONT"
    } else if signo == 19 {
        "SIGSTOP"
    } else if signo == 20 {
        "SIGTSTP"
    } else if signo == 21 {
        "SIGTTIN"
    } else if signo == 22 {
        "SIGTTOU"
    } else if signo == 23 {
        "SIGURG"
    } else if signo == 24 {
        "SIGXCPU"
    } else if signo == 25 {
        "SIGXFSZ"
    } else if signo == 26 {
        "SIGVTALRM"
    } else if signo == 27 {
        "SIGPROF"
    } else if signo == 28 {
        "SIGWINCH"
    } else if signo == 29 {
        "SIGIO"
    } else if signo == 30 {
        "SIGPWR"
    } else if signo == 31 {
        "SIGSYS"
    } else {
        "UNKNOWN"
    }
}

} // verus!
