//! Core of a source-level debugger for x86-64 Linux executables: the
//! breakpoint engine, the continue (repair) protocol, the frame walk of a
//! backtrace, the debug-info lookup surface and the command parser.
//!
//! Everything that touches the traced process (spawning, `ptrace`, `waitpid`)
//! is left to the caller: the library decides what to do next and the caller
//! performs it and hands back what it observed.
use vstd::prelude::*;

pub mod debugger_command;
pub mod debuginfo;
pub mod inferior;
pub mod protocol;
pub mod registry;
pub mod text;
pub mod word;
