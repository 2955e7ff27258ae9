//! The inferior controller: the traced child process, its breakpoint byte
//! table, and the resume protocol.
//!
//! A software breakpoint displaces one instruction byte with the trap
//! opcode.  The byte table remembers, per patched address, the displaced
//! byte; it is the single source of truth for restoration.  Resuming from
//! a breakpoint hit is a small dance: restore the byte, rewind the
//! instruction pointer, single-step, re-plant the trap, continue.

use vstd::prelude::*;

verus! {

use crate::dwarf::DebugInfo;
use crate::output::Output;
use crate::patch::{TRAP_OPCODE, align_addr_to_word, byte_of_word, set_byte_in_word};
use crate::strutil::str_eq;
use crate::trace;
use crate::trace::WaitEvent;

/// The signal number of SIGTRAP, the stop a breakpoint or a single step
/// raises.
pub const SIGTRAP_SIGNO: i32 = 5;

/// The most stack frames one backtrace will walk.
pub const MAX_FRAMES: usize = 8192;

/// An inferior's observed state after one wait.
#[derive(Clone, Copy, Debug, PartialEq, Eq, Structural)]
pub enum Status {
    /// Stopped by a signal; the second field is the instruction pointer at
    /// the stop.
    Stopped(i32, usize),
    /// Exited normally with the given status code.
    Exited(i32),
    /// Killed by the given signal.
    Signaled(i32),
}

/// What one wait report means for the inferior: an exit carries its code,
/// a death carries its signal, a stop carries its signal and the
/// instruction pointer read from the stopped tracee, and any other report
/// is a failed wait.
pub open spec fn spec_classify(ev: WaitEvent, rip: usize) -> Option<Status> {
    match ev {
        WaitEvent::Exited(code) => Some(Status::Exited(code)),
        WaitEvent::Signaled(sig) => Some(Status::Signaled(sig)),
        WaitEvent::Stopped(sig) => Some(Status::Stopped(sig, rip)),
        WaitEvent::Other => None,
    }
}

/// Map one wait report, together with the instruction pointer read from
/// the stopped tracee, to the inferior's observed status.
pub fn classify_event(ev: WaitEvent, rip: usize) -> (r: Option<Status>)
    ensures
        r == spec_classify(ev, rip),
{
    match ev {
        WaitEvent::Exited(code) => Some(Status::Exited(code)),
        WaitEvent::Signaled(sig) => Some(Status::Signaled(sig)),
        WaitEvent::Stopped(sig) => Some(Status::Stopped(sig, rip)),
        WaitEvent::Other => None,
    }
}

/// Whether a wait report is the SIGTRAP stop the debugger looks for: the
/// entry trap of a freshly spawned tracee, or the stop after
/// single-stepping over a displaced instruction.
pub fn is_trap_stop(st: &Option<Status>) -> (r: bool)
    ensures
        r == (*st matches Some(Status::Stopped(sig, _)) && sig == SIGTRAP_SIGNO),
{
    match st {
        Some(Status::Stopped(sig, _)) => *sig == SIGTRAP_SIGNO,
        _ => false,
    }
}

/// Whether address `a` appears among the entries.
pub open spec fn table_contains(s: Seq<(usize, u8)>, a: usize) -> bool {
    exists|i: int| 0 <= i < s.len() && s[i].0 == a
}

/// The byte recorded for the first entry at address `a`.
pub open spec fn table_lookup(s: Seq<(usize, u8)>, a: usize) -> Option<u8>
    decreases s.len(),
{
    if s.len() == 0 {
        None
    } else if s[0].0 == a {
        Some(s[0].1)
    } else {
        table_lookup(s.drop_first(), a)
    }
}

pub proof fn lemma_table_lookup_none(s: Seq<(usize, u8)>, a: usize)
    requires
        forall|j: int| 0 <= j < s.len() ==> (#[trigger] s[j]).0 != a,
    ensures
        table_lookup(s, a) is None,
        !table_contains(s, a),
    decreases s.len(),
{
    if s.len() > 0 {
        let d = s.drop_first();
        assert(forall|j: int| 0 <= j < d.len() ==> d[j] == s[j + 1]);
        lemma_table_lookup_none(d, a);
    }
}

pub proof fn lemma_table_lookup_some(s: Seq<(usize, u8)>, a: usize, i: int)
    requires
        0 <= i < s.len(),
        s[i].0 == a,
        forall|j: int| 0 <= j < i ==> (#[trigger] s[j]).0 != a,
    ensures
        table_lookup(s, a) == Some(s[i].1),
        table_contains(s, a),
    decreases i,
{
    if i > 0 {
        let d = s.drop_first();
        assert(forall|j: int| 0 <= j < d.len() ==> d[j] == s[j + 1]);
        lemma_table_lookup_some(d, a, i - 1);
    }
}

/// The breakpoint byte table: for every patched address, the byte the trap
/// opcode displaced.  Addresses are never entered twice, so each entry
/// keeps the byte the program's text originally had.
pub struct ByteTable {
    pub entries: Vec<(usize, u8)>,
}

impl ByteTable {
    /// Entries are per-address: no address appears twice.
    pub open spec fn wf(&self) -> bool {
        forall|i: int, j: int|
            0 <= i < j < self.entries@.len() ==> (#[trigger] self.entries@[i]).0 != (
            #[trigger] self.entries@[j]).0
    }

    pub fn new() -> (r: ByteTable)
        ensures
            r.entries@.len() == 0,
            r.wf(),
    {
        ByteTable { entries: Vec::new() }
    }

    /// The byte saved for address `a`, if `a` is patched.
    pub fn lookup(&self, a: usize) -> (r: Option<u8>)
        ensures
            r == table_lookup(self.entries@, a),
            r is Some <==> table_contains(self.entries@, a),
    {
        let n = self.entries.len();
        let mut i: usize = 0;
        while i < n
            invariant
                n == self.entries@.len(),
                0 <= i <= n,
                forall|j: int| 0 <= j < i ==> (#[trigger] self.entries@[j]).0 != a,
            decreases n - i,
        {
            let e = self.entries[i];
            if e.0 == a {
                proof {
                    lemma_table_lookup_some(self.entries@, a, i as int);
                }
                return Some(e.1);
            }
            i = i + 1;
        }
        proof {
            lemma_table_lookup_none(self.entries@, a);
        }
        None
    }

    /// Record the displaced byte `b` for the freshly patched address `a`.
    pub fn record(&mut self, a: usize, b: u8)
        requires
            old(self).wf(),
            !table_contains(old(self).entries@, a),
        ensures
            final(self).entries@ == old(self).entries@.push((a, b)),
            final(self).wf(),
    {
        self.entries.push((a, b));
        proof {
            assert forall|i: int, j: int|
                0 <= i < j < self.entries@.len() implies (#[trigger] self.entries@[i]).0 != (
            #[trigger] self.entries@[j]).0 by {
                if j == self.entries@.len() - 1 {
                    assert(!table_contains(old(self).entries@, a));
                    assert(old(self).entries@[i].0 == a ==> table_contains(old(self).entries@, a));
                }
            }
        }
    }
}

/// A running (or just-stopped) traced child process and its breakpoint
/// byte table.
pub struct Inferior {
    pub pid: i32,
    pub table: ByteTable,
}

impl Inferior {
    pub open spec fn wf(&self) -> bool {
        self.table.wf()
    }

    /// Take charge of the freshly spawned, traced child `pid`: wait for
    /// the trap it raises on reaching its entry point, then plant every
    /// requested breakpoint.  Any other first report means the spawn
    /// failed.  Every table entry of the result is for a requested
    /// breakpoint address.
    pub fn new(pid: i32, breakpoints: &Vec<usize>) -> (r: Option<Inferior>)
        ensures
            r matches Some(inf) ==> inf.wf() && inf.pid == pid && forall|i: int|
                0 <= i < inf.table.entries@.len() ==> breakpoints@.contains(
                    (#[trigger] inf.table.entries@[i]).0,
                ),
    {
        let mut inferior = Inferior { pid, table: ByteTable::new() };
        let first = inferior.wait();
        if !is_trap_stop(&first) {
            return None;
        }
        inferior.install_breakpoints(breakpoints);
        Some(inferior)
    }

    /// The child's process identifier.
    pub fn pid(&self) -> (r: i32)
        ensures
            r == self.pid,
    {
        self.pid
    }

    /// Wait for the child to change state and report what it did.  Which
    /// report comes back is the child's and the operating system's to
    /// decide; whatever does, it is mapped to a `Status` by
    /// `classify_event`, whose contract fixes the mapping.  A failed wait,
    /// a failed register read at a stop, or a report the debugger never
    /// requests, is `None`.
    pub fn wait(&self) -> (r: Option<Status>) {
        let ev = match trace::wait_child(self.pid) {
            Ok(ev) => ev,
            Err(_) => {
                return None;
            },
        };
        let rip: usize = match ev {
            WaitEvent::Stopped(_) => {
                match trace::getregs(self.pid) {
                    Ok(regs) => trace::regs_rip(&regs) as usize,
                    Err(_) => {
                        return None;
                    },
                }
            },
            _ => 0,
        };
        classify_event(ev, rip)
    }

    /// Patch the byte at `addr` in the tracee to `val` through the
    /// word-sized memory interface, returning the displaced byte, or
    /// `None` if the tracee's memory could not be read or written there.
    fn write_byte(pid: i32, addr: usize, val: u8) -> (r: Option<u8>) {
        let aligned = align_addr_to_word(addr);
        let offset = addr - aligned;
        let word = match trace::read_word(pid, aligned) {
            Ok(w) => w,
            Err(_) => {
                return None;
            },
        };
        let orig = byte_of_word(word, offset);
        let updated = set_byte_in_word(word, offset, val);
        match trace::write_word(pid, aligned, updated) {
            Ok(()) => Some(orig),
            Err(_) => None,
        }
    }

    /// Plant a trap at every listed address not already patched, recording
    /// each displaced byte.  Addresses already in the table are left
    /// alone — their saved byte is the program's original one and must not
    /// be clobbered by re-reading a planted trap.  An address whose word
    /// cannot be patched is skipped: only validated patches enter the
    /// table.  Existing entries are kept unchanged, and every new entry is
    /// for a listed address.
    pub fn install_breakpoints(&mut self, breakpoints: &Vec<usize>)
        requires
            old(self).wf(),
        ensures
            final(self).wf(),
            final(self).pid == old(self).pid,
            final(self).table.entries@.len() >= old(self).table.entries@.len(),
            forall|i: int|
                0 <= i < old(self).table.entries@.len() ==> final(self).table.entries@[i] == old(
                    self,
                ).table.entries@[i],
            forall|i: int|
                old(self).table.entries@.len() <= i < final(self).table.entries@.len()
                    ==> breakpoints@.contains((#[trigger] final(self).table.entries@[i]).0),
    {
        let n = breakpoints.len();
        let mut i: usize = 0;
        while i < n
            invariant
                n == breakpoints@.len(),
                0 <= i <= n,
                self.wf(),
                self.pid == old(self).pid,
                self.table.entries@.len() >= old(self).table.entries@.len(),
                forall|k: int|
                    0 <= k < old(self).table.entries@.len() ==> self.table.entries@[k] == old(
                        self,
                    ).table.entries@[k],
                forall|k: int|
                    old(self).table.entries@.len() <= k < self.table.entries@.len()
                        ==> breakpoints@.contains((#[trigger] self.table.entries@[k]).0),
            decreases n - i,
        {
            let addr = breakpoints[i];
            if self.table.lookup(addr).is_none() {
                match Inferior::write_byte(self.pid, addr, TRAP_OPCODE) {
                    Some(orig) => {
                        self.table.record(addr, orig);
                    },
                    None => {},
                }
            }
            i = i + 1;
        }
    }

    /// Resume the child and wait for its next report.
    ///
    /// If the last stop was a breakpoint hit — the byte just before the
    /// current instruction pointer is a patched address — first restore
    /// the displaced byte, rewind the instruction pointer onto it,
    /// single-step that original instruction, and re-plant the trap once
    /// the step reports back with SIGTRAP (on any other report the child
    /// is gone and the following continue observes that on its own).
    /// Then continue and return what the next wait reports; `None` means a
    /// tracing call failed.  The byte table keeps its entries throughout.
    pub fn go(&self) -> (r: Option<Status>) {
        let regs = match trace::getregs(self.pid) {
            Ok(regs) => regs,
            Err(_) => {
                return None;
            },
        };
        let rip = trace::regs_rip(&regs) as usize;
        if rip >= 1 {
            let candidate = rip - 1;
            match self.table.lookup(candidate) {
                Some(saved) => {
                    if Inferior::write_byte(self.pid, candidate, saved).is_none() {
                        return None;
                    }
                    let rewound = trace::regs_with_rip(regs, candidate as u64);
                    if trace::setregs(self.pid, rewound).is_err() {
                        return None;
                    }
                    if trace::singlestep(self.pid).is_err() {
                        return None;
                    }
                    let stepped = self.wait();
                    if is_trap_stop(&stepped) {
                        if Inferior::write_byte(self.pid, candidate, TRAP_OPCODE).is_none() {
                            return None;
                        }
                    }
                },
                None => {},
            }
        }
        if trace::cont(self.pid).is_err() {
            return None;
        }
        self.wait()
    }

    /// Kill the child and reap it: deliver SIGKILL, then wait once so no
    /// zombie is left behind.  The report of that wait is returned;
    /// `None` means the kill or the wait itself failed.
    pub fn kill(&mut self) -> (r: Option<Status>)
        ensures
            *final(self) == *old(self),
    {
        match trace::kill_child(self.pid) {
            Ok(()) => self.wait(),
            Err(_) => None,
        }
    }

    /// Walk the child's call stack by the frame-pointer convention and
    /// report one `Output::Frame` per frame, innermost first: function
    /// name and source position resolved through `info`, with fallbacks
    /// for addresses the tables do not cover.  The walk ends at `main`,
    /// as soon as a frame cannot be read, or — so that a corrupt or
    /// frame-pointer-less stack cannot wedge the debugger — after
    /// `MAX_FRAMES` frames.
    pub fn backtrace(&self, info: &DebugInfo) -> (r: Vec<Output>)
        ensures
            forall|i: int| 0 <= i < r@.len() ==> (#[trigger] r@[i]) is Frame,
            forall|i: int|
                0 <= i < r@.len() - 1 ==> !((#[trigger] r@[i]) matches Output::Frame(f, _, _)
                    && f@ == "main"@),
    {
        let mut out: Vec<Output> = Vec::new();
        let regs = match trace::getregs(self.pid) {
            Ok(regs) => regs,
            Err(_) => {
                return out;
            },
        };
        let mut pc = trace::regs_rip(&regs) as usize;
        let mut fp = trace::regs_rbp(&regs) as usize;
        let mut depth: usize = 0;
        while depth < MAX_FRAMES
            invariant
                forall|i: int| 0 <= i < out@.len() ==> (#[trigger] out@[i]) is Frame,
                forall|i: int|
                    0 <= i < out@.len() ==> !((#[trigger] out@[i]) matches Output::Frame(f, _, _)
                        && f@ == "main"@),
            decreases MAX_FRAMES - depth,
        {
            let func = match info.function_at(pc) {
                Some(name) => name,
                None => "Unrecognized function".to_owned(),
            };
            let (file, line) = match info.line_at(pc) {
                Some(fl) => fl,
                None => ("Unrecognized file".to_owned(), 0),
            };
            let at_main = str_eq(func.as_str(), "main");
            out.push(Output::Frame(func, file, line));
            if at_main {
                return out;
            }
            if fp > usize::MAX - 8 {
                return out;
            }
            pc = match trace::read_word(self.pid, fp + 8) {
                Ok(w) => w as usize,
                Err(_) => {
                    return out;
                },
            };
            fp = match trace::read_word(self.pid, fp) {
                Ok(w) => w as usize,
                Err(_) => {
                    return out;
                },
            };
            depth = depth + 1;
        }
        out
    }
}

} // verus!
