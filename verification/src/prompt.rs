//! What the prompt does with each thing that reading a line can give.

use vstd::prelude::*;
use crate::debugger_command::{parse_tokens, token_views, CommandView, DebuggerCommand};

verus! {

/// What reading one line gave.
#[derive(Clone, Copy, Debug, PartialEq, Eq, Structural)]
pub enum InputEvent {
    /// A line, whose tokens come with the event.
    Line,
    /// The user interrupted the prompt.
    Interrupted,
    /// The input has ended.
    Eof,
    /// Reading failed in some other way.
    Failed,
}

/// What the prompt does next.
#[derive(Debug, PartialEq, Eq)]
pub enum PromptStep {
    /// Carry out this command.
    Command(DebuggerCommand),
    /// The line was blank: ask again, and keep it out of the history.
    Blank,
    /// The line names no command: say so and ask again.
    Unrecognized,
    /// Tell the user how to leave, and ask again.
    QuitHint,
    /// Reading is broken: give up.
    Failed,
}

/// [`PromptStep`] with its command as a view.
pub enum PromptStepView {
    Command(CommandView),
    Blank,
    Unrecognized,
    QuitHint,
    Failed,
}

impl View for PromptStep {
    type V = PromptStepView;

    open spec fn view(&self) -> PromptStepView {
        match *self {
            PromptStep::Command(c) => PromptStepView::Command(c@),
            PromptStep::Blank => PromptStepView::Blank,
            PromptStep::Unrecognized => PromptStepView::Unrecognized,
            PromptStep::QuitHint => PromptStepView::QuitHint,
            PromptStep::Failed => PromptStepView::Failed,
        }
    }
}

/// The step after an event. The end of the input counts as `quit`; a line is
/// read as a command unless it has no token.
pub open spec fn step_of(event: InputEvent, tokens: Seq<Seq<char>>) -> PromptStepView {
    match event {
        InputEvent::Interrupted => PromptStepView::QuitHint,
        InputEvent::Eof => PromptStepView::Command(CommandView::Quit),
        InputEvent::Failed => PromptStepView::Failed,
        InputEvent::Line => if tokens.len() == 0 {
            PromptStepView::Blank
        } else {
            match parse_tokens(tokens) {
                Some(c) => PromptStepView::Command(c),
                None => PromptStepView::Unrecognized,
            }
        },
    }
}

/// Decides what the prompt does after `event`. `tokens` are the words of the
/// line, and count only where the event is a line.
pub fn next_step(event: InputEvent, tokens: &Vec<&str>) -> (step: PromptStep)
    ensures
        step@ == step_of(event, token_views(tokens@)),
{
    match event {
        InputEvent::Interrupted => PromptStep::QuitHint,
        InputEvent::Eof => PromptStep::Command(DebuggerCommand::Quit),
        InputEvent::Failed => PromptStep::Failed,
        InputEvent::Line => {
            if tokens.len() == 0 {
                PromptStep::Blank
            } else {
                match DebuggerCommand::from_tokens(tokens) {
                    Some(c) => PromptStep::Command(c),
                    None => PromptStep::Unrecognized,
                }
            }
        },
    }
}

} // verus!
