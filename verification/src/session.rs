//! The debugger session: pending breakpoints, the optional inferior, and
//! the meaning of each user command.
//!
//! The session owns the breakpoint list — whose order gives the
//! user-visible breakpoint numbers — and the current inferior, if one is
//! running.  Each handler turns one command into `Output` values and the
//! next session state.  Spawning a child is the caller's business: `run`
//! is split into `prepare_run` (kill whatever is live, so the old
//! inferior is gone before a new one exists) and `finish_run` (adopt the
//! freshly spawned, traced child and resume it).

use vstd::prelude::*;

verus! {

use crate::command::{spec_parse_address, spec_parse_dec, parse_address, parse_dec};
use crate::dwarf::{DebugInfo, FunctionEntry, LineEntry, best_line_index, first_line_numbered,
    first_named};
use crate::inferior::{Inferior, Status};
use crate::output::Output;

/// How a breakpoint target token resolves against the debug information.
pub enum BreakResolution {
    /// The target denotes this address.
    Addr(usize),
    /// The target began with `*` but the rest is not a hexadecimal
    /// address.
    BadAddress,
    /// The target is a line number, but no line-table row is for it; the
    /// command is silently a no-op.
    Miss,
    /// The target is neither an address, a line number, nor a known
    /// function name.
    BadTarget,
}

/// What a breakpoint target token means.  A leading `*` demands a raw
/// hexadecimal address; otherwise a token that parses as a decimal number
/// is a source line; otherwise it is a function name.
pub open spec fn resolve_spec(
    funcs: Seq<FunctionEntry>,
    lines: Seq<LineEntry>,
    t: Seq<char>,
) -> BreakResolution {
    if t.len() >= 1 && t[0] == '*' {
        match spec_parse_address(t.drop_first()) {
            Some(a) => BreakResolution::Addr(a),
            None => BreakResolution::BadAddress,
        }
    } else {
        match spec_parse_dec(t) {
            Some(line) => match first_line_numbered(lines, line) {
                Some(i) => BreakResolution::Addr(lines[i].address),
                None => BreakResolution::Miss,
            },
            None => match first_named(funcs, t) {
                Some(i) => BreakResolution::Addr(funcs[i].low),
                None => BreakResolution::BadTarget,
            },
        }
    }
}

/// The status-reporting policy: what one reported status means for the
/// user and for the inferior's life.  `outs` are the outputs owed for
/// status `st` against the line table `lines`, and `discard` says whether
/// the inferior is finished and must be dropped: an exit is reported and
/// ends the inferior; a stop is reported, with its source position when
/// the line table resolves the stop address; a death by signal ends the
/// inferior silently; an absent status means the resume failed and the
/// inferior is kept.
pub open spec fn outputs_of_status(
    lines: Seq<LineEntry>,
    st: Option<Status>,
    outs: Seq<Output>,
    discard: bool,
) -> bool {
    match st {
        Some(Status::Exited(code)) => outs =~= seq![Output::ChildExited(code)] && discard,
        Some(Status::Stopped(sig, rip)) => !discard && (match best_line_index(lines, rip) {
            Some(i) => outs.len() == 2 && outs[0] == Output::ChildStopped(sig, rip) && (outs[1]
                matches Output::StoppedAtLine(f, l) && f@ == lines[i].file@ && l
                == lines[i].number),
            None => outs =~= seq![Output::ChildStopped(sig, rip)],
        }),
        Some(Status::Signaled(_)) => outs =~= Seq::<Output>::empty() && discard,
        None => outs =~= seq![Output::ContinueFails] && !discard,
    }
}

/// One debugging session.
pub struct Debugger {
    pub debug_info: DebugInfo,
    pub breakpoints: Vec<usize>,
    pub inferior: Option<Inferior>,
}

impl Debugger {
    pub open spec fn wf(&self) -> bool {
        match self.inferior {
            Some(inf) => inf.wf(),
            None => true,
        }
    }

    /// A fresh session over the given debug information: no breakpoints,
    /// nothing running.
    pub fn new(debug_info: DebugInfo) -> (r: Debugger)
        ensures
            r.debug_info == debug_info,
            r.breakpoints@.len() == 0,
            r.inferior is None,
            r.wf(),
    {
        Debugger { debug_info, breakpoints: Vec::new(), inferior: None }
    }

    /// The outputs for one reported status, and whether the inferior is
    /// finished and must be discarded.  An exit is reported and ends the
    /// inferior; a stop is reported with its source position when the
    /// line table resolves the stop address; a death by signal ends the
    /// inferior silently; an absent status means the resume failed and
    /// the inferior is kept for another try.
    pub fn status_outputs(&self, status: Option<Status>) -> (r: (Vec<Output>, bool))
        ensures
            outputs_of_status(self.debug_info.lines@, status, r.0@, r.1),
    {
        let mut outs: Vec<Output> = Vec::new();
        match status {
            Some(Status::Exited(code)) => {
                outs.push(Output::ChildExited(code));
                (outs, true)
            },
            Some(Status::Stopped(sig, rip)) => {
                outs.push(Output::ChildStopped(sig, rip));
                match self.debug_info.line_at(rip) {
                    Some((file, line)) => {
                        outs.push(Output::StoppedAtLine(file, line));
                    },
                    None => {},
                }
                (outs, false)
            },
            Some(Status::Signaled(_)) => (outs, true),
            None => {
                outs.push(Output::ContinueFails);
                (outs, false)
            },
        }
    }

    /// Resume the current inferior, report what happened, and discard the
    /// inferior if it is gone: the outputs and the discarding decision
    /// follow `outputs_of_status` for the status the resume reported.
    fn resume_and_report(&mut self) -> (r: Vec<Output>)
        requires
            old(self).wf(),
            old(self).inferior is Some,
        ensures
            final(self).wf(),
            final(self).breakpoints == old(self).breakpoints,
            final(self).debug_info == old(self).debug_info,
            exists|st: Option<Status>|
                #[trigger] outputs_of_status(
                    old(self).debug_info.lines@,
                    st,
                    r@,
                    final(self).inferior is None,
                ),
            final(self).inferior is Some ==> final(self).inferior == old(self).inferior,
    {
        let status = match &self.inferior {
            Some(inf) => inf.go(),
            None => None,
        };
        let (outs, discard) = self.status_outputs(status);
        if discard {
            self.inferior = None;
        }
        proof {
            assert(outputs_of_status(
                old(self).debug_info.lines@,
                status,
                outs@,
                self.inferior is None,
            ));
        }
        outs
    }

    /// `continue`: refuse when nothing is being run, else resume the
    /// inferior and report.
    pub fn handle_continue(&mut self) -> (r: Vec<Output>)
        requires
            old(self).wf(),
        ensures
            final(self).wf(),
            final(self).breakpoints == old(self).breakpoints,
            final(self).debug_info == old(self).debug_info,
            old(self).inferior is None ==> r@ =~= seq![Output::NotRunning] && *final(self) == *old(
                self,
            ),
            old(self).inferior is Some ==> exists|st: Option<Status>|
                #[trigger] outputs_of_status(
                    old(self).debug_info.lines@,
                    st,
                    r@,
                    final(self).inferior is None,
                ),
    {
        if self.inferior.is_none() {
            let mut outs: Vec<Output> = Vec::new();
            outs.push(Output::NotRunning);
            return outs;
        }
        self.resume_and_report()
    }

    /// `backtrace`: refuse when nothing is being run, else walk the
    /// inferior's stack; every reported item is a frame.
    pub fn handle_backtrace(&self) -> (r: Vec<Output>)
        ensures
            self.inferior is None ==> r@ =~= seq![Output::NotRunning],
            self.inferior is Some ==> forall|i: int|
                0 <= i < r@.len() ==> (#[trigger] r@[i]) is Frame,
    {
        match &self.inferior {
            None => {
                let mut outs: Vec<Output> = Vec::new();
                outs.push(Output::NotRunning);
                outs
            },
            Some(inf) => inf.backtrace(&self.debug_info),
        }
    }

    /// First half of `run`: kill and reap any live inferior, so that no
    /// zombie outlives the command and the old child is gone before a new
    /// one is spawned.
    pub fn prepare_run(&mut self) -> (r: Vec<Output>)
        requires
            old(self).wf(),
        ensures
            final(self).wf(),
            final(self).inferior is None,
            final(self).breakpoints == old(self).breakpoints,
            final(self).debug_info == old(self).debug_info,
            old(self).inferior is None ==> *final(self) == *old(self) && r@ =~= Seq::<
                Output,
            >::empty(),
            old(self).inferior is Some ==> r@ =~= Seq::<Output>::empty() || r@ =~= seq![
                Output::KillFailed,
            ],
    {
        let mut outs: Vec<Output> = Vec::new();
        match &mut self.inferior {
            Some(inf) => {
                if inf.kill().is_none() {
                    outs.push(Output::KillFailed);
                }
            },
            None => {
                return outs;
            },
        }
        self.inferior = None;
        outs
    }

    /// Second half of `run`: adopt the freshly spawned, traced child —
    /// `None` if the spawn itself already failed — wait for its entry
    /// trap, plant every pending breakpoint, resume it and report.
    pub fn finish_run(&mut self, spawned: Option<i32>) -> (r: Vec<Output>)
        requires
            old(self).wf(),
            old(self).inferior is None,
        ensures
            final(self).wf(),
            final(self).breakpoints == old(self).breakpoints,
            final(self).debug_info == old(self).debug_info,
            spawned is None ==> r@ =~= seq![Output::ErrorStartingSubprocess] && *final(self) == *old(
                self,
            ),
            spawned is Some ==> ((final(self).inferior is None && r@ =~= seq![
                Output::ErrorStartingSubprocess,
            ]) || exists|st: Option<Status>|
                #[trigger] outputs_of_status(
                    old(self).debug_info.lines@,
                    st,
                    r@,
                    final(self).inferior is None,
                )),
    {
        let pid = match spawned {
            Some(pid) => pid,
            None => {
                let mut outs: Vec<Output> = Vec::new();
                outs.push(Output::ErrorStartingSubprocess);
                return outs;
            },
        };
        match Inferior::new(pid, &self.breakpoints) {
            Some(inf) => {
                self.inferior = Some(inf);
                self.resume_and_report()
            },
            None => {
                let mut outs: Vec<Output> = Vec::new();
                outs.push(Output::ErrorStartingSubprocess);
                outs
            },
        }
    }

    /// `break <target>`: resolve the target, append the address to the
    /// breakpoint list — its 0-based position is the number the user
    /// sees — and, if an inferior is live, plant every not-yet-planted
    /// breakpoint in it at once.
    pub fn handle_break(&mut self, target: &str) -> (r: Vec<Output>)
        requires
            old(self).wf(),
        ensures
            final(self).wf(),
            final(self).debug_info == old(self).debug_info,
            old(self).inferior is None ==> final(self).inferior is None,
            old(self).inferior matches Some(inf0) ==> final(self).inferior matches Some(inf1)
                && inf1.pid == inf0.pid && inf1.table.entries@.len() >= inf0.table.entries@.len()
                && (forall|i: int|
                0 <= i < inf0.table.entries@.len() ==> inf1.table.entries@[i]
                    == inf0.table.entries@[i]) && (forall|i: int|
                inf0.table.entries@.len() <= i < inf1.table.entries@.len()
                    ==> final(self).breakpoints@.contains((#[trigger] inf1.table.entries@[i]).0)),
            ({
                let res = resolve_spec(
                    old(self).debug_info.functions@,
                    old(self).debug_info.lines@,
                    target@,
                );
                match res {
                    BreakResolution::Addr(a) => final(self).breakpoints@ == old(
                        self,
                    ).breakpoints@.push(a) && r@ =~= seq![
                        Output::SetBreakpoint(old(self).breakpoints@.len() as usize, a),
                    ],
                    BreakResolution::BadAddress => final(self).breakpoints@ == old(
                        self,
                    ).breakpoints@ && r@ =~= seq![Output::InvalidAddress],
                    BreakResolution::Miss => final(self).breakpoints@ == old(self).breakpoints@
                        && r@ =~= Seq::<Output>::empty(),
                    BreakResolution::BadTarget => final(self).breakpoints@ == old(self).breakpoints@
                        && r@ =~= seq![Output::InvalidTarget],
                }
            }),
    {
        let mut outs: Vec<Output> = Vec::new();
        let n = target.unicode_len();
        if n >= 1 && target.get_char(0) == '*' {
            let rest = target.substring_char(1, n);
            proof {
                assert(rest@ =~= target@.drop_first());
            }
            match parse_address(rest) {
                Some(addr) => {
                    self.record_breakpoint(addr, &mut outs);
                },
                None => {
                    outs.push(Output::InvalidAddress);
                },
            }
        } else {
            match parse_dec(target) {
                Some(line) => {
                    match self.debug_info.addr_of_line(line) {
                        Some(addr) => {
                            self.record_breakpoint(addr, &mut outs);
                        },
                        None => {},
                    }
                },
                None => {
                    match self.debug_info.find_function(target) {
                        Some(i) => {
                            let addr = self.debug_info.function_addr(i);
                            self.record_breakpoint(addr, &mut outs);
                        },
                        None => {
                            outs.push(Output::InvalidTarget);
                        },
                    }
                },
            }
        }
        match &mut self.inferior {
            Some(inf) => {
                inf.install_breakpoints(&self.breakpoints);
            },
            None => {},
        }
        outs
    }

    /// Append `addr` to the breakpoint list and report its number: the
    /// 0-based position at which it was appended.
    fn record_breakpoint(&mut self, addr: usize, outs: &mut Vec<Output>)
        requires
            old(self).wf(),
        ensures
            final(self).wf(),
            final(self).debug_info == old(self).debug_info,
            final(self).inferior == old(self).inferior,
            final(self).breakpoints@ == old(self).breakpoints@.push(addr),
            final(outs)@ =~= old(outs)@.push(
                Output::SetBreakpoint(old(self).breakpoints@.len() as usize, addr),
            ),
    {
        let index = self.breakpoints.len();
        self.breakpoints.push(addr);
        outs.push(Output::SetBreakpoint(index, addr));
    }

    /// `quit`: kill and reap any live inferior, so the session can end
    /// with nothing left running.
    pub fn handle_quit(&mut self) -> (r: Vec<Output>)
        requires
            old(self).wf(),
        ensures
            final(self).wf(),
            final(self).inferior is None,
            final(self).breakpoints == old(self).breakpoints,
            final(self).debug_info == old(self).debug_info,
    {
        self.prepare_run()
    }
}

} // verus!
