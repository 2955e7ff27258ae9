//! A source-level debugger library for native executables on x86-64 Linux.
//!
//! The library holds the verified core of the debugger: the word-aligned
//! byte-patching arithmetic used to plant and remove software breakpoints,
//! the breakpoint byte table, the command grammar, a plain-data model of the
//! debug-information tables, the inferior controller that drives a traced
//! child process, and the session state machine that dispatches user
//! commands.  Process spawning, the prompt, and all printing live outside
//! the library.

pub mod command;
pub mod dwarf;
pub mod inferior;
pub mod output;
pub mod patch;
pub mod session;
pub mod strutil;
pub mod trace;

pub use patch::align_addr_to_word;
