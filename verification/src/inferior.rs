//! The controller of one traced child process.
//!
//! The controller never touches the child itself. It keeps what is known of
//! the child, hands out the operations to perform on it as [`Request`]s, and
//! is told what the operating system answered.

use vstd::prelude::*;
use crate::breakpoints::{BreakpointTable, TRAP_BYTE};

verus! {

/// The signal with which a child is killed.
pub const KILL_SIGNAL: i32 = 9;

/// The width of the trap instruction in bytes.
pub const TRAP_WIDTH: usize = 1;

/// One operation on the traced child.
#[derive(Clone, Copy, Debug, PartialEq, Eq, Structural)]
pub enum Request {
    /// Write `byte` at `addr` in the child's memory and report the byte that
    /// stood there.
    WriteByte { addr: usize, byte: u8 },
    /// Set the child's instruction pointer.
    SetInstructionPointer(usize),
    /// Let the child execute one machine instruction, and wait for it.
    SingleStep,
    /// Let the child run, and wait until it stops or ends.
    Continue,
}

/// What the operating system reports when a wait on the child returns.
#[derive(Clone, Copy, Debug, PartialEq, Eq, Structural)]
pub enum WaitEvent {
    /// The child exited with this code.
    Exited(i32),
    /// The child was killed by this signal.
    Signaled(i32),
    /// The child was stopped by this signal, with its instruction pointer here.
    Stopped(i32, usize),
}

/// How a resumed child came to rest.
#[derive(Clone, Copy, Debug, PartialEq, Eq, Structural)]
pub enum Status {
    /// It exited with this code.
    Exited(i32),
    /// It was killed by this signal.
    Signaled(i32),
    /// It was stopped by this signal at this instruction.
    Stopped(i32, usize),
}

/// Where a traced child is in its life.
#[derive(Clone, Copy, Debug, PartialEq, Eq, Structural)]
pub enum State {
    /// Loaded, and halted before its first instruction.
    Created,
    /// Resumed, and not yet reported back.
    Running,
    /// Resumed for the one instruction under the breakpoint at this address.
    Stepping(usize),
    /// Halted by the trap of the breakpoint at this address.
    StoppedAtBreakpoint(usize),
    /// Halted at this address, where no breakpoint is installed.
    StoppedElsewhere(usize),
    /// Ended with this exit code.
    Exited(i32),
    /// Ended by this signal.
    Signaled(i32),
}

/// Why a child cannot be resumed.
#[derive(Clone, Copy, Debug, PartialEq, Eq, Structural)]
pub enum ResumeError {
    /// The child is not halted: it runs, or it has ended.
    NotStopped,
}

/// What follows an event.
#[derive(Debug, PartialEq, Eq)]
pub enum Progress {
    /// These operations are to be performed, in this order, and the next
    /// event handed in.
    More(Vec<Request>),
    /// The child has come to rest.
    Done(Status),
    /// No event was awaited: nothing changed.
    Unexpected,
}

/// [`Progress`] with its operations as a sequence.
pub enum ProgressView {
    More(Seq<Request>),
    Done(Status),
    Unexpected,
}

impl View for Progress {
    type V = ProgressView;

    open spec fn view(&self) -> ProgressView {
        match *self {
            Progress::More(requests) => ProgressView::More(requests@),
            Progress::Done(status) => ProgressView::Done(status),
            Progress::Unexpected => ProgressView::Unexpected,
        }
    }
}

/// What is known of a child: its state, the breakpoints installed in it with
/// their original bytes, and the address at which it was last seen halted.
pub struct Knowledge {
    pub state: State,
    pub installed: Map<usize, u8>,
    pub last_stop: Option<usize>,
}

/// Whether the child has ended.
pub open spec fn is_terminal(state: State) -> bool {
    state is Exited || state is Signaled
}

/// The address of the instruction that a halted child was about to execute
/// or, after a trap, has just executed the trap in place of: the reported
/// instruction pointer moved back by the width of the trap.
pub open spec fn stop_address(reported: usize) -> usize {
    if reported >= TRAP_WIDTH {
        (reported - TRAP_WIDTH) as usize
    } else {
        0
    }
}

/// The installed breakpoints after the answer to one patch. A byte that was
/// read back is recorded as the original of a breakpoint that was not yet
/// installed; a failed write, or one on an installed breakpoint, changes
/// nothing.
pub open spec fn installed_after(installed: Map<usize, u8>, addr: usize, written: Option<u8>) -> Map<
    usize,
    u8,
> {
    match written {
        Some(previous) if !installed.dom().contains(addr) => installed.insert(addr, previous),
        _ => installed,
    }
}

/// The operations that step a child over the breakpoint at `addr`: put the
/// original byte back, point the child at it, execute that one instruction.
pub open spec fn step_over_requests(addr: usize, original: u8) -> Seq<Request> {
    seq![
        Request::WriteByte { addr, byte: original },
        Request::SetInstructionPointer(addr),
        Request::SingleStep,
    ]
}

/// The operations that follow the single step: write the trap back, then let
/// the child run.
pub open spec fn repatch_requests(addr: usize) -> Seq<Request> {
    seq![Request::WriteByte { addr, byte: TRAP_BYTE }, Request::Continue]
}

/// Resuming: the new state and the operations to perform, or `None` where the
/// child is not halted. A child halted by a breakpoint is first stepped over
/// it; any other halted child runs at once.
pub open spec fn resume_plan(k: Knowledge) -> Option<(State, Seq<Request>)> {
    match k.state {
        State::Created => Some((State::Running, seq![Request::Continue])),
        State::StoppedElsewhere(_) => Some((State::Running, seq![Request::Continue])),
        State::StoppedAtBreakpoint(addr) => Some(
            (State::Stepping(addr), step_over_requests(addr, k.installed[addr])),
        ),
        _ => None,
    }
}

/// The state in which a child is that was reported halted at `addr`.
pub open spec fn halted_state(installed: Map<usize, u8>, addr: usize) -> State {
    if installed.dom().contains(addr) {
        State::StoppedAtBreakpoint(addr)
    } else {
        State::StoppedElsewhere(addr)
    }
}

/// An event: what is known afterwards, and what follows.
pub open spec fn after_event(k: Knowledge, event: WaitEvent) -> (Knowledge, ProgressView) {
    match k.state {
        State::Running => match event {
            WaitEvent::Exited(code) => (
                Knowledge { state: State::Exited(code), ..k },
                ProgressView::Done(Status::Exited(code)),
            ),
            WaitEvent::Signaled(signal) => (
                Knowledge { state: State::Signaled(signal), ..k },
                ProgressView::Done(Status::Signaled(signal)),
            ),
            WaitEvent::Stopped(signal, reported) => {
                let addr = stop_address(reported);
                (
                    Knowledge {
                        state: halted_state(k.installed, addr),
                        last_stop: Some(addr),
                        ..k
                    },
                    ProgressView::Done(Status::Stopped(signal, addr)),
                )
            },
        },
        State::Stepping(addr) => match event {
            WaitEvent::Exited(code) => (
                Knowledge { state: State::Exited(code), ..k },
                ProgressView::Done(Status::Exited(code)),
            ),
            WaitEvent::Signaled(signal) => (
                Knowledge { state: State::Signaled(signal), ..k },
                ProgressView::Done(Status::Signaled(signal)),
            ),
            WaitEvent::Stopped(_, reported) => (
                Knowledge { state: State::Running, last_stop: Some(reported), ..k },
                ProgressView::More(repatch_requests(addr)),
            ),
        },
        _ => (k, ProgressView::Unexpected),
    }
}

/// The state after an operation of a resume failed: the child is taken to be
/// where it was last seen halted.
pub open spec fn after_failure(k: Knowledge) -> State {
    match k.state {
        State::Stepping(addr) => State::StoppedAtBreakpoint(addr),
        State::Running => match k.last_stop {
            Some(addr) => State::StoppedElsewhere(addr),
            None => State::Created,
        },
        other => other,
    }
}

/// The state after a kill.
pub open spec fn after_kill(state: State) -> State {
    if is_terminal(state) {
        state
    } else {
        State::Signaled(KILL_SIGNAL)
    }
}

/// One traced child, as its controller knows it.
pub struct Inferior {
    pid: i32,
    state: State,
    installed: BreakpointTable,
    last_stop: Option<usize>,
}

impl View for Inferior {
    type V = Knowledge;

    closed spec fn view(&self) -> Knowledge {
        Knowledge { state: self.state, installed: self.installed@, last_stop: self.last_stop }
    }
}

impl Inferior {
    /// The child's process identifier.
    pub closed spec fn spec_pid(&self) -> i32 {
        self.pid
    }

    /// A child that is halted by, or stepping over, a breakpoint has that
    /// breakpoint installed.
    pub closed spec fn wf(&self) -> bool {
        &&& self.installed.wf()
        &&& match self.state {
            State::StoppedAtBreakpoint(addr) => self.installed@.dom().contains(addr),
            State::Stepping(addr) => self.installed@.dom().contains(addr),
            _ => true,
        }
    }

    /// The controller of the child `pid`, which was just loaded and halted.
    pub fn new(pid: i32) -> (inferior: Inferior)
        ensures
            inferior.wf(),
            inferior.spec_pid() == pid,
            inferior@ == (Knowledge {
                state: State::Created,
                installed: Map::empty(),
                last_stop: None,
            }),
    {
        Inferior { pid, state: State::Created, installed: BreakpointTable::new(), last_stop: None }
    }

    /// The child's process identifier.
    pub fn pid(&self) -> (pid: i32)
        ensures
            pid == self.spec_pid(),
    {
        self.pid
    }

    /// Where the child is in its life.
    pub fn state(&self) -> (state: State)
        ensures
            state == self@.state,
    {
        self.state
    }

    /// Whether the child has ended.
    pub fn is_terminal(&self) -> (ended: bool)
        ensures
            ended == is_terminal(self@.state),
    {
        match self.state {
            State::Exited(_) => true,
            State::Signaled(_) => true,
            _ => false,
        }
    }

    /// The original byte of the breakpoint installed at `addr`, if one is.
    pub fn original_byte(&self, addr: usize) -> (byte: Option<u8>)
        ensures
            byte == (if self@.installed.dom().contains(addr) {
                Some(self@.installed[addr])
            } else {
                None
            }),
    {
        self.installed.get(addr)
    }

    /// The patch that installs a breakpoint at `addr`: the trap byte is to be
    /// written there. `None` where one is installed already, so that the trap
    /// is never taken for an original byte.
    pub fn install_request(&self, addr: usize) -> (request: Option<Request>)
        ensures
            request == (if self@.installed.dom().contains(addr) {
                None
            } else {
                Some(Request::WriteByte { addr, byte: TRAP_BYTE })
            }),
    {
        if self.installed.contains(addr) {
            None
        } else {
            Some(Request::WriteByte { addr, byte: TRAP_BYTE })
        }
    }

    /// Takes the answer to the patch at `addr`: the byte that stood there, or
    /// `None` where the write failed. Returns whether a breakpoint is now
    /// newly installed there.
    pub fn record_install(&mut self, addr: usize, written: Option<u8>) -> (installed: bool)
        requires
            old(self).wf(),
        ensures
            final(self).wf(),
            final(self).spec_pid() == old(self).spec_pid(),
            final(self)@ == (Knowledge {
                installed: installed_after(old(self)@.installed, addr, written),
                ..old(self)@
            }),
            installed == (written is Some && !old(self)@.installed.dom().contains(addr)),
    {
        match written {
            Some(previous) => {
                if self.installed.contains(addr) {
                    false
                } else {
                    self.installed.insert(addr, previous);
                    true
                }
            },
            None => false,
        }
    }

    /// Resumes the halted child: returns the operations to perform before the
    /// next event is handed in.
    pub fn resume(&mut self) -> (requests: Result<Vec<Request>, ResumeError>)
        requires
            old(self).wf(),
        ensures
            final(self).wf(),
            final(self).spec_pid() == old(self).spec_pid(),
            match resume_plan(old(self)@) {
                Some((state, plan)) => {
                    &&& requests is Ok
                    &&& requests.unwrap()@ == plan
                    &&& final(self)@ == (Knowledge { state, ..old(self)@ })
                },
                None => {
                    &&& requests == Err::<Vec<Request>, ResumeError>(ResumeError::NotStopped)
                    &&& final(self)@ == old(self)@
                },
            },
    {
        match self.state {
            State::Created => {
                self.state = State::Running;
                let mut requests: Vec<Request> = Vec::new();
                requests.push(Request::Continue);
                proof {
                    assert(requests@ =~= seq![Request::Continue]);
                }
                Ok(requests)
            },
            State::StoppedElsewhere(_) => {
                self.state = State::Running;
                let mut requests: Vec<Request> = Vec::new();
                requests.push(Request::Continue);
                proof {
                    assert(requests@ =~= seq![Request::Continue]);
                }
                Ok(requests)
            },
            State::StoppedAtBreakpoint(addr) => {
                match self.installed.get(addr) {
                    Some(original) => {
                        self.state = State::Stepping(addr);
                        let mut requests: Vec<Request> = Vec::new();
                        requests.push(Request::WriteByte { addr, byte: original });
                        requests.push(Request::SetInstructionPointer(addr));
                        requests.push(Request::SingleStep);
                        proof {
                            assert(requests@ =~= step_over_requests(addr, original));
                        }
                        Ok(requests)
                    },
                    None => {
                        // A child halted by a breakpoint has it installed.
                        proof {
                            assert(false);
                        }
                        Err(ResumeError::NotStopped)
                    },
                }
            },
            _ => Err(ResumeError::NotStopped),
        }
    }

    /// Takes what the wait on the resumed child reported.
    pub fn on_event(&mut self, event: WaitEvent) -> (progress: Progress)
        requires
            old(self).wf(),
        ensures
            final(self).wf(),
            final(self).spec_pid() == old(self).spec_pid(),
            final(self)@ == after_event(old(self)@, event).0,
            progress@ == after_event(old(self)@, event).1,
    {
        match self.state {
            State::Running => match event {
                WaitEvent::Exited(code) => {
                    self.state = State::Exited(code);
                    Progress::Done(Status::Exited(code))
                },
                WaitEvent::Signaled(signal) => {
                    self.state = State::Signaled(signal);
                    Progress::Done(Status::Signaled(signal))
                },
                WaitEvent::Stopped(signal, reported) => {
                    let addr: usize = if reported >= TRAP_WIDTH {
                        reported - TRAP_WIDTH
                    } else {
                        0
                    };
                    if self.installed.contains(addr) {
                        self.state = State::StoppedAtBreakpoint(addr);
                    } else {
                        self.state = State::StoppedElsewhere(addr);
                    }
                    self.last_stop = Some(addr);
                    Progress::Done(Status::Stopped(signal, addr))
                },
            },
            State::Stepping(addr) => match event {
                WaitEvent::Exited(code) => {
                    self.state = State::Exited(code);
                    Progress::Done(Status::Exited(code))
                },
                WaitEvent::Signaled(signal) => {
                    self.state = State::Signaled(signal);
                    Progress::Done(Status::Signaled(signal))
                },
                WaitEvent::Stopped(_, reported) => {
                    self.state = State::Running;
                    self.last_stop = Some(reported);
                    let mut requests: Vec<Request> = Vec::new();
                    requests.push(Request::WriteByte { addr, byte: TRAP_BYTE });
                    requests.push(Request::Continue);
                    proof {
                        assert(requests@ =~= repatch_requests(addr));
                    }
                    Progress::More(requests)
                },
            },
            _ => Progress::Unexpected,
        }
    }

    /// Takes note that an operation of the resume failed. The installed
    /// breakpoints stay as they are.
    pub fn resume_failed(&mut self)
        requires
            old(self).wf(),
        ensures
            final(self).wf(),
            final(self).spec_pid() == old(self).spec_pid(),
            final(self)@ == (Knowledge { state: after_failure(old(self)@), ..old(self)@ }),
    {
        match self.state {
            State::Stepping(addr) => {
                self.state = State::StoppedAtBreakpoint(addr);
            },
            State::Running => {
                match self.last_stop {
                    Some(addr) => {
                        self.state = State::StoppedElsewhere(addr);
                    },
                    None => {
                        self.state = State::Created;
                    },
                }
            },
            _ => {},
        }
    }

    /// Ends the child. Returns the process to kill, or `None` where the child
    /// has ended already.
    pub fn kill(&mut self) -> (target: Option<i32>)
        requires
            old(self).wf(),
        ensures
            final(self).wf(),
            final(self).spec_pid() == old(self).spec_pid(),
            final(self)@ == (Knowledge { state: after_kill(old(self)@.state), ..old(self)@ }),
            target == (if is_terminal(old(self)@.state) {
                None
            } else {
                Some(old(self).spec_pid())
            }),
    {
        if self.is_terminal() {
            None
        } else {
            self.state = State::Signaled(KILL_SIGNAL);
            Some(self.pid)
        }
    }
}

/// The patches that install every breakpoint of `table` in a child that was
/// just loaded: one for each address, in the table's order.
pub fn install_requests(table: &BreakpointTable) -> (requests: Vec<Request>)
    ensures
        requests@.len() == table.order().len(),
        forall|i: int|
            0 <= i < requests@.len() ==> #[trigger] requests@[i] == (Request::WriteByte {
                addr: table.order()[i],
                byte: TRAP_BYTE,
            }),
{
    let mut requests: Vec<Request> = Vec::new();
    let n = table.len();
    let mut i: usize = 0;
    while i < n
        invariant
            n == table.order().len(),
            i <= n,
            requests@.len() == i,
            forall|j: int|
                0 <= j < i ==> #[trigger] requests@[j] == (Request::WriteByte {
                    addr: table.order()[j],
                    byte: TRAP_BYTE,
                }),
        decreases n - i,
    {
        requests.push(Request::WriteByte { addr: table.address_at(i), byte: TRAP_BYTE });
        i += 1;
    }
    requests
}

} // verus!
