//! Process control and breakpoint management for an interactive debugger.
//!
//! The library decides; the program around it performs the system calls. Each
//! operation on the traced child is handed out as a [`inferior::Request`], and
//! each answer of the operating system comes back as a plain value.

pub mod text;
pub mod address;
pub mod memory;
pub mod breakpoints;
pub mod inferior;
pub mod backtrace;
pub mod debugger_command;
pub mod prompt;
pub mod debugger;
pub mod laws;
