use deet::dwarf::{DebugInfo, FunctionEntry, LineEntry};
use deet::inferior::{Status, classify_event, is_trap_stop};
use deet::trace::WaitEvent;
use deet::output::{Output, signal_name};
use deet::session::Debugger;

fn sample_info() -> DebugInfo {
    DebugInfo {
        functions: vec![
            FunctionEntry { name: "main".to_string(), low: 0x401130, high: 0x401190 },
        ],
        lines: vec![
            LineEntry { file: "file.c".to_string(), number: 42, address: 0x401150 },
        ],
    }
}

#[test]
fn continue_before_run_refuses() {
    let mut dbg = Debugger::new(sample_info());
    let outs = dbg.handle_continue();
    assert_eq!(outs, vec![Output::NotRunning]);
    assert!(dbg.inferior.is_none());
}

#[test]
fn backtrace_before_run_refuses() {
    let dbg = Debugger::new(sample_info());
    let outs = dbg.handle_backtrace();
    assert_eq!(outs, vec![Output::NotRunning]);
}

#[test]
fn break_by_raw_address_appends_pending() {
    let mut dbg = Debugger::new(sample_info());
    let outs = dbg.handle_break("*0x400abc");
    assert_eq!(outs, vec![Output::SetBreakpoint(0, 0x400abc)]);
    assert_eq!(dbg.breakpoints, vec![0x400abc]);

    let outs = dbg.handle_break("*401130");
    assert_eq!(outs, vec![Output::SetBreakpoint(1, 0x401130)]);
    assert_eq!(dbg.breakpoints, vec![0x400abc, 0x401130]);
}

#[test]
fn break_index_matches_list_position() {
    let mut dbg = Debugger::new(sample_info());
    for k in 0..4 {
        let outs = dbg.handle_break("*0x1000");
        assert_eq!(outs, vec![Output::SetBreakpoint(k, 0x1000)]);
        assert_eq!(dbg.breakpoints.len(), k + 1);
    }
}

#[test]
fn break_by_function_name_uses_entry_address() {
    let mut dbg = Debugger::new(sample_info());
    let outs = dbg.handle_break("main");
    assert_eq!(outs, vec![Output::SetBreakpoint(0, 0x401130)]);
    assert_eq!(dbg.breakpoints, vec![0x401130]);
}

#[test]
fn break_by_line_number_uses_line_table() {
    let mut dbg = Debugger::new(sample_info());
    let outs = dbg.handle_break("42");
    assert_eq!(outs, vec![Output::SetBreakpoint(0, 0x401150)]);
    assert_eq!(dbg.breakpoints, vec![0x401150]);
}

#[test]
fn break_on_unknown_line_is_silent() {
    let mut dbg = Debugger::new(sample_info());
    let outs = dbg.handle_break("99");
    assert!(outs.is_empty());
    assert!(dbg.breakpoints.is_empty());
}

#[test]
fn break_with_bad_address_reports_invalid_address() {
    let mut dbg = Debugger::new(sample_info());
    let outs = dbg.handle_break("*zz");
    assert_eq!(outs, vec![Output::InvalidAddress]);
    assert!(dbg.breakpoints.is_empty());
}

#[test]
fn break_with_unknown_target_reports_invalid_target() {
    let mut dbg = Debugger::new(sample_info());
    let outs = dbg.handle_break("nosuchfn");
    assert_eq!(outs, vec![Output::InvalidTarget]);
    assert!(dbg.breakpoints.is_empty());
}

#[test]
fn failed_spawn_is_reported() {
    let mut dbg = Debugger::new(sample_info());
    let outs = dbg.prepare_run();
    assert!(outs.is_empty());
    let outs = dbg.finish_run(None);
    assert_eq!(outs, vec![Output::ErrorStartingSubprocess]);
    assert!(dbg.inferior.is_none());
}

#[test]
fn pending_breakpoints_survive_run_attempts() {
    let mut dbg = Debugger::new(sample_info());
    dbg.handle_break("*0x400abc");
    dbg.handle_break("main");
    assert_eq!(dbg.breakpoints, vec![0x400abc, 0x401130]);

    let _ = dbg.prepare_run();
    let _ = dbg.finish_run(None);
    assert_eq!(dbg.breakpoints, vec![0x400abc, 0x401130]);

    let outs = dbg.handle_break("*0x500000");
    assert_eq!(outs, vec![Output::SetBreakpoint(2, 0x500000)]);
}

#[test]
fn quit_with_nothing_running_leaves_nothing_running() {
    let mut dbg = Debugger::new(sample_info());
    let outs = dbg.handle_quit();
    assert!(outs.is_empty());
    assert!(dbg.inferior.is_none());
}

#[test]
fn status_outputs_reports_exit_and_discards() {
    let dbg = Debugger::new(sample_info());
    let (outs, discard) = dbg.status_outputs(Some(Status::Exited(3)));
    assert_eq!(outs, vec![Output::ChildExited(3)]);
    assert!(discard);
}

#[test]
fn status_outputs_resolves_stop_location() {
    let dbg = Debugger::new(sample_info());
    let (outs, discard) = dbg.status_outputs(Some(Status::Stopped(5, 0x401150)));
    assert_eq!(
        outs,
        vec![
            Output::ChildStopped(5, 0x401150),
            Output::StoppedAtLine("file.c".to_string(), 42),
        ]
    );
    assert!(!discard);

    let (outs, _) = dbg.status_outputs(Some(Status::Stopped(5, 0x100)));
    assert_eq!(outs, vec![Output::ChildStopped(5, 0x100)]);
}

#[test]
fn status_outputs_on_signal_death_and_failure() {
    let dbg = Debugger::new(sample_info());
    let (outs, discard) = dbg.status_outputs(Some(Status::Signaled(9)));
    assert!(outs.is_empty());
    assert!(discard);

    let (outs, discard) = dbg.status_outputs(None);
    assert_eq!(outs, vec![Output::ContinueFails]);
    assert!(!discard);
}

#[test]
fn signal_names_are_conventional() {
    assert_eq!(signal_name(5), "SIGTRAP");
    assert_eq!(signal_name(9), "SIGKILL");
    assert_eq!(signal_name(11), "SIGSEGV");
    assert_eq!(signal_name(16), "SIGSTKFLT");
    assert_eq!(signal_name(23), "SIGURG");
    assert_eq!(signal_name(28), "SIGWINCH");
    assert_eq!(signal_name(31), "SIGSYS");
    assert_eq!(signal_name(64), "UNKNOWN");
}

#[test]
fn wait_reports_classify_exactly() {
    assert_eq!(classify_event(WaitEvent::Exited(3), 0), Some(Status::Exited(3)));
    assert_eq!(classify_event(WaitEvent::Signaled(9), 0), Some(Status::Signaled(9)));
    assert_eq!(
        classify_event(WaitEvent::Stopped(5), 0x401131),
        Some(Status::Stopped(5, 0x401131))
    );
    assert_eq!(classify_event(WaitEvent::Other, 0), None);

    assert!(is_trap_stop(&Some(Status::Stopped(5, 0x401130))));
    assert!(!is_trap_stop(&Some(Status::Stopped(11, 0x401130))));
    assert!(!is_trap_stop(&Some(Status::Exited(0))));
    assert!(!is_trap_stop(&None));
}
