//! The commands of the debugger's prompt.

use vstd::prelude::*;
use crate::text::str_eq;

verus! {

/// One command, as the user typed it.
#[derive(Debug, PartialEq, Eq)]
pub enum DebuggerCommand {
    Quit,
    Run(Vec<String>),
    Cont,
    Back,
    Break(String),
}

/// What a command is, with its strings as sequences of characters.
pub enum CommandView {
    Quit,
    Run(Seq<Seq<char>>),
    Cont,
    Back,
    Break(Seq<char>),
}

impl View for DebuggerCommand {
    type V = CommandView;

    open spec fn view(&self) -> CommandView {
        match *self {
            DebuggerCommand::Quit => CommandView::Quit,
            DebuggerCommand::Run(args) => CommandView::Run(
                Seq::new(args@.len(), |i: int| args@[i]@),
            ),
            DebuggerCommand::Cont => CommandView::Cont,
            DebuggerCommand::Back => CommandView::Back,
            DebuggerCommand::Break(location) => CommandView::Break(location@),
        }
    }
}

/// The tokens of a line, each as its characters.
pub open spec fn token_views(tokens: Seq<&str>) -> Seq<Seq<char>> {
    Seq::new(tokens.len(), |i: int| tokens[i]@)
}

/// The command that a non-empty line of tokens stands for, if any. The first
/// token names the command, by its full name or its abbreviation; `run` takes
/// every further token as an argument, `break` the second token as the place
/// (the empty string where there is none).
pub open spec fn parse_tokens(tokens: Seq<Seq<char>>) -> Option<CommandView>
    recommends
        tokens.len() > 0,
{
    let head = tokens[0];
    if head == "q"@ || head == "quit"@ {
        Some(CommandView::Quit)
    } else if head == "r"@ || head == "run"@ {
        Some(CommandView::Run(tokens.subrange(1, tokens.len() as int)))
    } else if head == "c"@ || head == "cont"@ || head == "continue"@ {
        Some(CommandView::Cont)
    } else if head == "bt"@ || head == "back"@ || head == "backtrace"@ {
        Some(CommandView::Back)
    } else if head == "b"@ || head == "break"@ {
        Some(
            CommandView::Break(
                if tokens.len() == 1 {
                    Seq::empty()
                } else {
                    tokens[1]
                },
            ),
        )
    } else {
        None
    }
}

impl DebuggerCommand {
    /// Reads a command from the tokens of one line.
    pub fn from_tokens(tokens: &Vec<&str>) -> (command: Option<DebuggerCommand>)
        requires
            tokens.len() > 0,
        ensures
            match command {
                Some(c) => parse_tokens(token_views(tokens@)) == Some(c@),
                None => parse_tokens(token_views(tokens@)) is None,
            },
    {
        let head: &str = tokens[0];
        if str_eq(head, "q") || str_eq(head, "quit") {
            Some(DebuggerCommand::Quit)
        } else if str_eq(head, "r") || str_eq(head, "run") {
            let mut args: Vec<String> = Vec::new();
            let mut i: usize = 1;
            while i < tokens.len()
                invariant
                    1 <= i <= tokens.len(),
                    args@.len() == i - 1,
                    forall|j: int| 0 <= j < args@.len() ==> args@[j]@ == tokens@[j + 1]@,
                decreases tokens.len() - i,
            {
                args.push(tokens[i].to_owned());
                i += 1;
            }
            let command = DebuggerCommand::Run(args);
            proof {
                let views = token_views(tokens@);
                assert(command@ == CommandView::Run(views.subrange(1, views.len() as int))) by {
                    assert(Seq::new(args@.len(), |i: int| args@[i]@) =~= views.subrange(
                        1,
                        views.len() as int,
                    ));
                }
            }
            Some(command)
        } else if str_eq(head, "c") || str_eq(head, "cont") || str_eq(head, "continue") {
            Some(DebuggerCommand::Cont)
        } else if str_eq(head, "bt") || str_eq(head, "back") || str_eq(head, "backtrace") {
            Some(DebuggerCommand::Back)
        } else if str_eq(head, "b") || str_eq(head, "break") {
            if tokens.len() == 1 {
                Some(DebuggerCommand::Break(String::new()))
            } else {
                Some(DebuggerCommand::Break(tokens[1].to_owned()))
            }
        } else {
            None
        }
    }
}

} // verus!
