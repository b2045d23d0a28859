//! The session: the requested breakpoints and the child that is traced, if
//! one is, with one operation for each command of the user.

use vstd::prelude::*;
use crate::address::{
    address_of_location, get_address, location_of_text, parse_location, Location, LocationView,
};
use crate::breakpoints::{BreakpointTable, PLACEHOLDER_BYTE, TRAP_BYTE};
use crate::debugger_command::{CommandView, DebuggerCommand};
use crate::inferior::{
    after_event, after_failure, install_requests, installed_after, is_terminal, resume_plan,
    Inferior, Knowledge, Progress, ProgressView, Request, ResumeError, State, WaitEvent,
};

verus! {

/// Why a command was not carried out.
#[derive(Clone, Copy, Debug, PartialEq, Eq, Structural)]
pub enum CommandError {
    /// There is no process running.
    NoProcess,
    /// The process is not halted.
    NotStopped,
}

/// What became of a `break` command.
#[derive(Clone, Copy, Debug, PartialEq, Eq, Structural)]
pub enum BreakOutcome {
    /// The place has no address: nothing changed.
    InvalidAddress,
    /// The breakpoint with this number is set at this address.
    Recorded { index: usize, address: usize },
    /// The breakpoint with this number is set once this patch of the running
    /// child has succeeded.
    Install { index: usize, address: usize, request: Request },
}

/// What is to be done for a command.
#[derive(Debug, PartialEq, Eq)]
pub enum Action {
    /// Kill this process, if one is named; then start the program with these
    /// arguments and hand the new child to the session.
    Launch { kill: Option<i32>, args: Vec<String> },
    /// Perform these operations on the traced child, and hand in the event.
    Perform(Vec<Request>),
    /// Look this place up, and hand it back with its address.
    Resolve(Location),
    /// Walk the stack of this process.
    Walk(i32),
    /// Tell the user why nothing was done.
    Refuse(CommandError),
    /// Kill this process, if one is named; then leave.
    Exit { kill: Option<i32> },
}

/// [`Action`] with its texts as sequences of characters.
pub enum ActionView {
    Launch { kill: Option<i32>, args: Seq<Seq<char>> },
    Perform(Seq<Request>),
    Resolve(LocationView),
    Walk(i32),
    Refuse(CommandError),
    Exit { kill: Option<i32> },
}

impl View for Action {
    type V = ActionView;

    open spec fn view(&self) -> ActionView {
        match *self {
            Action::Launch { kill, args } => ActionView::Launch {
                kill,
                args: Seq::new(args@.len(), |i: int| args@[i]@),
            },
            Action::Perform(requests) => ActionView::Perform(requests@),
            Action::Resolve(location) => ActionView::Resolve(location@),
            Action::Walk(pid) => ActionView::Walk(pid),
            Action::Refuse(error) => ActionView::Refuse(error),
            Action::Exit { kill } => ActionView::Exit { kill },
        }
    }
}

/// The process that is to be killed when the traced child is let go: the
/// child's, unless there is none or it has ended.
pub open spec fn kill_target(process: Option<Knowledge>, pid: Option<i32>) -> Option<i32> {
    match process {
        Some(k) if !is_terminal(k.state) => pid,
        _ => None,
    }
}

/// What a command does to the traced child, and the action that it asks for.
pub open spec fn command_effect(
    command: CommandView,
    process: Option<Knowledge>,
    pid: Option<i32>,
) -> (Option<Knowledge>, ActionView) {
    match command {
        CommandView::Quit => (None, ActionView::Exit { kill: kill_target(process, pid) }),
        CommandView::Run(args) => (
            None,
            ActionView::Launch { kill: kill_target(process, pid), args },
        ),
        CommandView::Cont => match process {
            None => (None, ActionView::Refuse(CommandError::NoProcess)),
            Some(k) => match resume_plan(k) {
                Some((state, plan)) => (
                    Some(Knowledge { state, ..k }),
                    ActionView::Perform(plan),
                ),
                None => (process, ActionView::Refuse(CommandError::NotStopped)),
            },
        },
        CommandView::Back => match pid {
            Some(p) => (process, ActionView::Walk(p)),
            None => (process, ActionView::Refuse(CommandError::NoProcess)),
        },
        CommandView::Break(pos) => (process, ActionView::Resolve(location_of_text(pos))),
    }
}

/// What a new run starts with.
#[derive(Debug, PartialEq, Eq)]
pub struct Launch {
    /// The process of the run before, where it is still to be killed.
    pub kill: Option<i32>,
    /// The patches that install the requested breakpoints in the new child.
    pub install: Vec<Request>,
}

/// The session of one debugger.
pub struct Debugger {
    target: String,
    inferior: Option<Inferior>,
    breakpoints: BreakpointTable,
}

impl Debugger {
    /// The path of the program that is debugged.
    pub closed spec fn spec_target(&self) -> Seq<char> {
        self.target@
    }

    /// The requested breakpoints, each with the byte saved for it.
    pub closed spec fn breakpoints(&self) -> Map<usize, u8> {
        self.breakpoints@
    }

    /// The addresses of the breakpoints by their numbers.
    pub closed spec fn numbering(&self) -> Seq<usize> {
        self.breakpoints.order()
    }

    /// What is known of the traced child, if there is one.
    pub closed spec fn process(&self) -> Option<Knowledge> {
        match self.inferior {
            Some(inferior) => Some(inferior@),
            None => None,
        }
    }

    /// The traced child's process identifier, if there is one.
    pub closed spec fn process_id(&self) -> Option<i32> {
        match self.inferior {
            Some(inferior) => Some(inferior.spec_pid()),
            None => None,
        }
    }

    /// The table and the child's controller are well formed.
    pub closed spec fn wf(&self) -> bool {
        &&& self.breakpoints.wf()
        &&& match self.inferior {
            Some(inferior) => inferior.wf(),
            None => true,
        }
    }

    /// Each address has one number, and the numbered addresses are those of
    /// the table: the next number is the size of the table.
    pub proof fn lemma_numbering(&self)
        requires
            self.wf(),
        ensures
            self.numbering().no_duplicates(),
            forall|a: usize| self.numbering().contains(a) <==> self.breakpoints().dom().contains(a),
            self.breakpoints().dom().finite(),
            self.breakpoints().dom().len() == self.numbering().len(),
    {
        self.breakpoints.lemma_order();
    }

    /// A session for the program at `target`, with no breakpoint and no
    /// process.
    pub fn new(target: &str) -> (debugger: Debugger)
        ensures
            debugger.wf(),
            debugger.spec_target() == target@,
            debugger.breakpoints() == Map::<usize, u8>::empty(),
            debugger.numbering() == Seq::<usize>::empty(),
            debugger.process() is None,
            debugger.process_id() is None,
    {
        Debugger { target: target.to_owned(), inferior: None, breakpoints: BreakpointTable::new() }
    }

    /// The path of the program that is debugged.
    pub fn target(&self) -> (target: &str)
        ensures
            target@ == self.spec_target(),
    {
        self.target.as_str()
    }

    /// Whether a child is traced.
    pub fn has_process(&self) -> (active: bool)
        ensures
            active == self.process() is Some,
            active == self.process_id() is Some,
    {
        self.inferior.is_some()
    }

    /// How many breakpoints are requested.
    pub fn breakpoint_count(&self) -> (n: usize)
        ensures
            n == self.numbering().len(),
    {
        self.breakpoints.len()
    }

    /// The byte saved for the breakpoint at `addr`, if one is requested there.
    pub fn saved_byte(&self, addr: usize) -> (byte: Option<u8>)
        ensures
            byte == (if self.breakpoints().dom().contains(addr) {
                Some(self.breakpoints()[addr])
            } else {
                None
            }),
    {
        self.breakpoints.get(addr)
    }

    /// The address of the breakpoint with the number `index`, if there is one.
    pub fn breakpoint_address(&self, index: usize) -> (addr: Option<usize>)
        ensures
            addr == (if index < self.numbering().len() {
                Some(self.numbering()[index as int])
            } else {
                None
            }),
    {
        if index < self.breakpoints.len() {
            Some(self.breakpoints.address_at(index))
        } else {
            None
        }
    }

    /// Where the traced child is in its life, if there is one.
    pub fn process_state(&self) -> (state: Option<State>)
        ensures
            state == (match self.process() {
                Some(k) => Some(k.state),
                None => None,
            }),
    {
        match &self.inferior {
            Some(inferior) => Some(inferior.state()),
            None => None,
        }
    }

    /// The original byte of the breakpoint installed at `addr` in the traced
    /// child, if there is one.
    pub fn installed_byte(&self, addr: usize) -> (byte: Option<u8>)
        ensures
            byte == (match self.process() {
                Some(k) if k.installed.dom().contains(addr) => Some(k.installed[addr]),
                _ => None,
            }),
    {
        match &self.inferior {
            Some(inferior) => inferior.original_byte(addr),
            None => None,
        }
    }

    /// Carries out one command as far as the session alone can, and says
    /// what is to be done for it. The table of breakpoints is not touched:
    /// `break` changes it only when the place has been looked up.
    pub fn run(&mut self, command: &DebuggerCommand) -> (action: Action)
        requires
            old(self).wf(),
        ensures
            final(self).wf(),
            final(self).breakpoints() == old(self).breakpoints(),
            final(self).numbering() == old(self).numbering(),
            final(self).spec_target() == old(self).spec_target(),
            final(self).process() == command_effect(
                command@,
                old(self).process(),
                old(self).process_id(),
            ).0,
            final(self).process_id() == (if final(self).process() is Some {
                old(self).process_id()
            } else {
                None
            }),
            action@ == command_effect(command@, old(self).process(), old(self).process_id()).1,
    {
        match command {
            DebuggerCommand::Quit => Action::Exit { kill: self.quit() },
            DebuggerCommand::Run(args) => {
                let kill = self.clear();
                let mut copy: Vec<String> = Vec::new();
                let mut i: usize = 0;
                while i < args.len()
                    invariant
                        i <= args@.len(),
                        copy@.len() == i,
                        forall|j: int| 0 <= j < i ==> copy@[j]@ == args@[j]@,
                    decreases args@.len() - i,
                {
                    copy.push(args[i].clone());
                    i += 1;
                }
                let action = Action::Launch { kill, args: copy };
                proof {
                    assert(Seq::new(copy@.len(), |i: int| copy@[i]@) =~= Seq::new(
                        args@.len(),
                        |i: int| args@[i]@,
                    ));
                }
                action
            },
            DebuggerCommand::Cont => match self.cont() {
                Ok(requests) => Action::Perform(requests),
                Err(error) => Action::Refuse(error),
            },
            DebuggerCommand::Back => match self.backtrace() {
                Ok(pid) => Action::Walk(pid),
                Err(error) => Action::Refuse(error),
            },
            DebuggerCommand::Break(pos) => Action::Resolve(parse_location(pos.as_str())),
        }
    }

    /// Lets go of the traced child. Returns the process to kill, or `None`
    /// where there is none or it has ended. Afterwards no child is traced.
    pub fn clear(&mut self) -> (target: Option<i32>)
        requires
            old(self).wf(),
        ensures
            final(self).wf(),
            final(self).process() is None,
            final(self).process_id() is None,
            final(self).breakpoints() == old(self).breakpoints(),
            final(self).numbering() == old(self).numbering(),
            final(self).spec_target() == old(self).spec_target(),
            target == kill_target(old(self).process(), old(self).process_id()),
    {
        let target = match &mut self.inferior {
            Some(inferior) => inferior.kill(),
            None => None,
        };
        self.inferior = None;
        target
    }

    /// Ends the session's process: what `quit` asks for.
    pub fn quit(&mut self) -> (target: Option<i32>)
        requires
            old(self).wf(),
        ensures
            final(self).wf(),
            final(self).process() is None,
            final(self).process_id() is None,
            final(self).breakpoints() == old(self).breakpoints(),
            final(self).numbering() == old(self).numbering(),
            final(self).spec_target() == old(self).spec_target(),
            target == kill_target(old(self).process(), old(self).process_id()),
    {
        self.clear()
    }

    /// Takes up the child `pid`, which was just launched and is halted before
    /// its first instruction. A child that was still traced is let go and
    /// named for killing; every requested breakpoint gets its patch.
    pub fn attach(&mut self, pid: i32) -> (launch: Launch)
        requires
            old(self).wf(),
        ensures
            final(self).wf(),
            final(self).process_id() == Some(pid),
            final(self).process() == Some(
                Knowledge {
                    state: State::Created,
                    installed: Map::empty(),
                    last_stop: None,
                },
            ),
            final(self).breakpoints() == old(self).breakpoints(),
            final(self).numbering() == old(self).numbering(),
            final(self).spec_target() == old(self).spec_target(),
            launch.kill == kill_target(old(self).process(), old(self).process_id()),
            launch.install@.len() == old(self).numbering().len(),
            forall|i: int|
                0 <= i < launch.install@.len() ==> #[trigger] launch.install@[i] == (
                Request::WriteByte { addr: old(self).numbering()[i], byte: TRAP_BYTE }),
    {
        let kill = self.clear();
        let install = install_requests(&self.breakpoints);
        self.inferior = Some(Inferior::new(pid));
        Launch { kill, install }
    }

    /// Takes the answer to the patch at `addr` of the traced child: the byte
    /// that stood there, or `None` where the write failed. A new patch is
    /// recorded with the child, and its original byte in the table. Returns
    /// whether a breakpoint is newly installed.
    pub fn record_install(&mut self, addr: usize, written: Option<u8>) -> (installed: bool)
        requires
            old(self).wf(),
        ensures
            final(self).wf(),
            final(self).process_id() == old(self).process_id(),
            final(self).spec_target() == old(self).spec_target(),
            installed == (written is Some && old(self).process() is Some && !old(
                self,
            ).process().unwrap().installed.dom().contains(addr)),
            final(self).process() == (match old(self).process() {
                Some(k) => Some(
                    Knowledge { installed: installed_after(k.installed, addr, written), ..k },
                ),
                None => None,
            }),
            final(self).breakpoints() == (if installed {
                old(self).breakpoints().insert(addr, written.unwrap())
            } else {
                old(self).breakpoints()
            }),
            final(self).numbering() == (if installed && !old(self).breakpoints().dom().contains(
                addr,
            ) {
                old(self).numbering().push(addr)
            } else {
                old(self).numbering()
            }),
    {
        let installed = match &mut self.inferior {
            Some(inferior) => inferior.record_install(addr, written),
            None => false,
        };
        if installed {
            match written {
                Some(previous) => {
                    self.breakpoints.insert(addr, previous);
                },
                None => {},
            }
        }
        installed
    }

    /// Carries out `break` at a place whose address, where it is a line or a
    /// function, the symbol table has looked up (`resolved`). A place without
    /// an address is refused and nothing changes. Without a traced child the
    /// breakpoint is recorded with the placeholder byte. With one, the patch
    /// is handed out and nothing is recorded before its answer; a breakpoint
    /// that is installed already is only named. The number is the size of
    /// the table before the command.
    pub fn break_at(&mut self, location: &Location, resolved: Option<usize>) -> (outcome:
        BreakOutcome)
        requires
            old(self).wf(),
        ensures
            final(self).wf(),
            final(self).process() == old(self).process(),
            final(self).process_id() == old(self).process_id(),
            final(self).spec_target() == old(self).spec_target(),
            outcome == break_outcome(
                address_of_location(location@, resolved),
                old(self).process(),
                old(self).numbering().len(),
            ),
            final(self).breakpoints() == (match outcome {
                BreakOutcome::Recorded { index, address } if old(self).process() is None => old(
                    self,
                ).breakpoints().insert(address, PLACEHOLDER_BYTE),
                _ => old(self).breakpoints(),
            }),
            final(self).numbering() == (match outcome {
                BreakOutcome::Recorded { index, address } if old(self).process() is None && !old(
                    self,
                ).breakpoints().dom().contains(address) => old(self).numbering().push(address),
                _ => old(self).numbering(),
            }),
    {
        let index = self.breakpoints.len();
        match get_address(location, resolved) {
            None => BreakOutcome::InvalidAddress,
            Some(address) => {
                match &self.inferior {
                    None => {
                        self.breakpoints.insert(address, PLACEHOLDER_BYTE);
                        BreakOutcome::Recorded { index, address }
                    },
                    Some(inferior) => {
                        match inferior.install_request(address) {
                            Some(request) => BreakOutcome::Install { index, address, request },
                            None => BreakOutcome::Recorded { index, address },
                        }
                    },
                }
            },
        }
    }

    /// Carries out `continue`: the operations that resume the traced child.
    pub fn cont(&mut self) -> (requests: Result<Vec<Request>, CommandError>)
        requires
            old(self).wf(),
        ensures
            final(self).wf(),
            final(self).process_id() == old(self).process_id(),
            final(self).breakpoints() == old(self).breakpoints(),
            final(self).numbering() == old(self).numbering(),
            final(self).spec_target() == old(self).spec_target(),
            match old(self).process() {
                None => {
                    &&& requests == Err::<Vec<Request>, CommandError>(CommandError::NoProcess)
                    &&& final(self).process() is None
                },
                Some(k) => match resume_plan(k) {
                    Some((state, plan)) => {
                        &&& requests is Ok
                        &&& requests.unwrap()@ == plan
                        &&& final(self).process() == Some(Knowledge { state, ..k })
                    },
                    None => {
                        &&& requests == Err::<Vec<Request>, CommandError>(
                            CommandError::NotStopped,
                        )
                        &&& final(self).process() == Some(k)
                    },
                },
            },
    {
        match &mut self.inferior {
            None => Err(CommandError::NoProcess),
            Some(inferior) => {
                match inferior.resume() {
                    Ok(requests) => Ok(requests),
                    Err(ResumeError::NotStopped) => Err(CommandError::NotStopped),
                }
            },
        }
    }

    /// Takes what the wait on the resumed child reported. A child that has
    /// ended is let go.
    pub fn on_event(&mut self, event: WaitEvent) -> (progress: Progress)
        requires
            old(self).wf(),
        ensures
            final(self).wf(),
            final(self).breakpoints() == old(self).breakpoints(),
            final(self).numbering() == old(self).numbering(),
            final(self).spec_target() == old(self).spec_target(),
            match old(self).process() {
                None => {
                    &&& progress@ == ProgressView::Unexpected
                    &&& final(self).process() is None
                    &&& final(self).process_id() is None
                },
                Some(k) => {
                    &&& progress@ == after_event(k, event).1
                    &&& if is_terminal(after_event(k, event).0.state) {
                        &&& final(self).process() is None
                        &&& final(self).process_id() is None
                    } else {
                        &&& final(self).process() == Some(after_event(k, event).0)
                        &&& final(self).process_id() == old(self).process_id()
                    }
                },
            },
    {
        let (progress, ended) = match &mut self.inferior {
            None => (Progress::Unexpected, false),
            Some(inferior) => {
                let progress = inferior.on_event(event);
                (progress, inferior.is_terminal())
            },
        };
        if ended {
            self.inferior = None;
        }
        progress
    }

    /// Takes note that an operation of the resume failed. The table stays as
    /// it is, and the child is taken to be where it was last seen halted.
    pub fn resume_failed(&mut self)
        requires
            old(self).wf(),
        ensures
            final(self).wf(),
            final(self).process_id() == old(self).process_id(),
            final(self).breakpoints() == old(self).breakpoints(),
            final(self).numbering() == old(self).numbering(),
            final(self).spec_target() == old(self).spec_target(),
            final(self).process() == (match old(self).process() {
                Some(k) => Some(Knowledge { state: after_failure(k), ..k }),
                None => None,
            }),
    {
        match &mut self.inferior {
            Some(inferior) => {
                inferior.resume_failed();
            },
            None => {},
        }
    }

    /// Carries out the first part of `backtrace`: names the process whose
    /// stack is to be walked.
    pub fn backtrace(&self) -> (target: Result<i32, CommandError>)
        ensures
            target == (match self.process_id() {
                Some(pid) => Ok::<i32, CommandError>(pid),
                None => Err::<i32, CommandError>(CommandError::NoProcess),
            }),
    {
        match &self.inferior {
            Some(inferior) => Ok(inferior.pid()),
            None => Err(CommandError::NoProcess),
        }
    }
}

/// What `break` answers for a place with this address, with this known of
/// the traced child, and this many breakpoints in the table.
pub open spec fn break_outcome(address: Option<usize>, process: Option<Knowledge>, count: nat) -> BreakOutcome {
    match address {
        None => BreakOutcome::InvalidAddress,
        Some(address) => match process {
            None => BreakOutcome::Recorded { index: count as usize, address },
            Some(k) => if k.installed.dom().contains(address) {
                BreakOutcome::Recorded { index: count as usize, address }
            } else {
                BreakOutcome::Install {
                    index: count as usize,
                    address,
                    request: Request::WriteByte { addr: address, byte: TRAP_BYTE },
                }
            },
        },
    }
}

} // verus!
