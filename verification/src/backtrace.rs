//! Walking the chain of frame base pointers, and naming a frame.

use vstd::prelude::*;
use vstd::string::StringExecFns;
use crate::memory::BYTES_PER_WORD;
use crate::text::str_eq;

verus! {

/// One frame of the call stack.
#[derive(Clone, Copy, Debug, PartialEq, Eq, Structural)]
pub struct Frame {
    /// The instruction pointer in this frame.
    pub rip: usize,
    /// The base pointer of this frame.
    pub rbp: usize,
}

/// How the walk goes on after a frame.
#[derive(Clone, Copy, Debug, PartialEq, Eq, Structural)]
pub enum BacktraceStep {
    /// The frame was the outermost: the walk is over.
    Done,
    /// The caller's frame is to be read from the stack: its instruction
    /// pointer at the first address, its base pointer at the second.
    Read { return_address_at: usize, saved_base_at: usize },
}

/// Whether a frame of this function is the outermost: the program's entry
/// point, `main`. A frame whose function is not known is not.
pub open spec fn is_entry_point(function: Option<Seq<char>>) -> bool {
    function == Some("main"@)
}

/// The step after a frame. The walk ends at the entry point, and where the
/// caller's return address would lie beyond the address space.
pub open spec fn step_after(frame: Frame, function: Option<Seq<char>>) -> BacktraceStep {
    if is_entry_point(function) || frame.rbp + BYTES_PER_WORD > usize::MAX {
        BacktraceStep::Done
    } else {
        BacktraceStep::Read {
            return_address_at: (frame.rbp + BYTES_PER_WORD) as usize,
            saved_base_at: frame.rbp,
        }
    }
}

/// The name of a function as characters, if there is one.
pub open spec fn text_view(text: Option<&str>) -> Option<Seq<char>> {
    match text {
        Some(t) => Some(t@),
        None => None,
    }
}

/// Decides how the walk goes on after `frame`, whose function the symbol
/// table has looked up. That the function is not known never ends the walk.
pub fn backtrace_step(frame: Frame, function: Option<&str>) -> (step: BacktraceStep)
    ensures
        step == step_after(frame, text_view(function)),
{
    let at_entry = match function {
        Some(name) => str_eq(name, "main"),
        None => false,
    };
    if at_entry || frame.rbp > usize::MAX - BYTES_PER_WORD {
        BacktraceStep::Done
    } else {
        BacktraceStep::Read { return_address_at: frame.rbp + BYTES_PER_WORD, saved_base_at: frame.rbp }
    }
}

/// The caller's frame, from the two words read from the stack.
pub fn caller_frame(return_address: usize, saved_base: usize) -> (frame: Frame)
    ensures
        frame == (Frame { rip: return_address, rbp: saved_base }),
{
    Frame { rip: return_address, rbp: saved_base }
}

/// The text that names a place in the program: the function, then the source
/// line in brackets, with a fixed text for each that is not known.
pub open spec fn place_text(function: Option<Seq<char>>, line: Option<Seq<char>>) -> Seq<char> {
    let name = match function {
        Some(f) => f,
        None => "unknown func"@,
    };
    let source = match line {
        Some(l) => l,
        None => "source file not found"@,
    };
    name + " ("@ + source + ")"@
}

/// Names a place in the program from what the symbol table found for it.
pub fn describe_place(function: Option<&str>, line: Option<&str>) -> (text: String)
    ensures
        text@ == place_text(text_view(function), text_view(line)),
{
    let name: &str = match function {
        Some(f) => f,
        None => "unknown func",
    };
    let source: &str = match line {
        Some(l) => l,
        None => "source file not found",
    };
    let mut text = name.to_owned();
    text.append(" (");
    text.append(source);
    text.append(")");
    text
}

} // verus!
