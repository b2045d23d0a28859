//! What holds of the breakpoint protocol, stated over a model of the child's
//! memory: a mapping from each writable address to the byte that stands there.

use vstd::prelude::*;
use crate::breakpoints::{PLACEHOLDER_BYTE, TRAP_BYTE};
use crate::inferior::{
    after_event, after_kill, installed_after, is_terminal, repatch_requests, resume_plan,
    step_over_requests, Knowledge, ProgressView, Request, State, Status, WaitEvent,
};

verus! {

/// The memory after the write of `byte` at `addr`: a write outside the
/// writable memory fails and changes nothing.
pub open spec fn memory_after(memory: Map<usize, u8>, addr: usize, byte: u8) -> Map<usize, u8> {
    if memory.dom().contains(addr) {
        memory.insert(addr, byte)
    } else {
        memory
    }
}

/// The answer to the write at `addr`: the byte that stood there, or `None`
/// where the write fails.
pub open spec fn write_answer(memory: Map<usize, u8>, addr: usize) -> Option<u8> {
    if memory.dom().contains(addr) {
        Some(memory[addr])
    } else {
        None
    }
}

/// The table after `break` at each of `addrs` in turn, with no process.
pub open spec fn recorded(table: Map<usize, u8>, addrs: Seq<usize>) -> Map<usize, u8>
    decreases addrs.len(),
{
    if addrs.len() == 0 {
        table
    } else {
        recorded(table, addrs.drop_last()).insert(addrs.last(), PLACEHOLDER_BYTE)
    }
}

/// The memory and the installed breakpoints after the trap was written at
/// each of `addrs` in turn and each answer recorded.
pub open spec fn installed_all(
    memory: Map<usize, u8>,
    installed: Map<usize, u8>,
    addrs: Seq<usize>,
) -> (Map<usize, u8>, Map<usize, u8>)
    decreases addrs.len(),
{
    if addrs.len() == 0 {
        (memory, installed)
    } else {
        let before = installed_all(memory, installed, addrs.drop_last());
        let addr = addrs.last();
        (
            memory_after(before.0, addr, TRAP_BYTE),
            installed_after(before.1, addr, write_answer(before.0, addr)),
        )
    }
}

/// Every breakpoint requested before a run stands in the table under its
/// address, and none that stood there is lost.
pub proof fn lemma_breaks_are_recorded(table: Map<usize, u8>, addrs: Seq<usize>)
    ensures
        forall|i: int| 0 <= i < addrs.len() ==> recorded(table, addrs).dom().contains(addrs[i]),
        forall|a: usize| table.dom().contains(a) ==> recorded(table, addrs).dom().contains(a),
        forall|a: usize|
            recorded(table, addrs).dom().contains(a) ==> table.dom().contains(a) || addrs.contains(
                a,
            ),
    decreases addrs.len(),
{
    if addrs.len() > 0 {
        let shorter = addrs.drop_last();
        lemma_breaks_are_recorded(table, shorter);
        assert forall|i: int| 0 <= i < addrs.len() implies recorded(table, addrs).dom().contains(
            addrs[i],
        ) by {
            if i < shorter.len() {
                assert(shorter[i] == addrs[i]);
            }
        }
        assert forall|a: usize| recorded(table, addrs).dom().contains(a) implies table.dom().contains(
            a,
        ) || addrs.contains(a) by {
            if a == addrs.last() {
                assert(addrs[addrs.len() - 1] == a);
            } else if shorter.contains(a) {
                let i = choose|i: int| 0 <= i < shorter.len() && shorter[i] == a;
                assert(addrs[i] == a);
            }
        }
    }
}

/// After a run has patched the requested breakpoints, each address among
/// them that is writable holds the trap, and the byte that stood there is
/// recorded with the breakpoint; an address that is not writable has no
/// breakpoint installed; the rest of the memory is as it was.
pub proof fn lemma_run_installs_breakpoints(memory: Map<usize, u8>, addrs: Seq<usize>)
    requires
        addrs.no_duplicates(),
    ensures
        ({
            let (patched, installed) = installed_all(memory, Map::empty(), addrs);
            &&& patched.dom() == memory.dom()
            &&& forall|a: usize|
                addrs.contains(a) && memory.dom().contains(a) ==> {
                    &&& patched[a] == TRAP_BYTE
                    &&& installed.dom().contains(a)
                    &&& installed[a] == memory[a]
                    &&& memory_after(patched, a, installed[a])[a] == memory[a]
                }
            &&& forall|a: usize|
                installed.dom().contains(a) ==> addrs.contains(a) && memory.dom().contains(a)
            &&& forall|a: usize|
                memory.dom().contains(a) && !addrs.contains(a) ==> patched[a] == memory[a]
        }),
    decreases addrs.len(),
{
    if addrs.len() > 0 {
        let shorter = addrs.drop_last();
        let last = addrs.last();
        lemma_run_installs_breakpoints(memory, shorter);
        let before = installed_all(memory, Map::empty(), shorter);
        let (patched, installed) = installed_all(memory, Map::empty(), addrs);
        assert(!shorter.contains(last)) by {
            if shorter.contains(last) {
                let i = choose|i: int| 0 <= i < shorter.len() && shorter[i] == last;
                assert(addrs[i] == addrs[addrs.len() - 1]);
            }
        }
        assert forall|a: usize| addrs.contains(a) <==> (a == last || shorter.contains(a)) by {
            if addrs.contains(a) {
                let i = choose|i: int| 0 <= i < addrs.len() && addrs[i] == a;
                if i < shorter.len() {
                    assert(shorter[i] == a);
                }
            }
            if shorter.contains(a) {
                let i = choose|i: int| 0 <= i < shorter.len() && shorter[i] == a;
                assert(addrs[i] == a);
            }
            if a == last {
                assert(addrs[addrs.len() - 1] == a);
            }
        }
        assert(patched.dom() =~= memory.dom());
    } else {
        assert(forall|a: usize| !addrs.contains(a));
    }
}

/// Writing the trap over a byte and then the answered byte over the trap
/// leaves the memory as it was, and the second write answers the trap.
pub proof fn lemma_install_then_restore(memory: Map<usize, u8>, addr: usize)
    requires
        memory.dom().contains(addr),
    ensures
        ({
            let patched = memory_after(memory, addr, TRAP_BYTE);
            let original = write_answer(memory, addr).unwrap();
            &&& original == memory[addr]
            &&& write_answer(patched, addr) == Some(TRAP_BYTE)
            &&& memory_after(patched, addr, original) == memory
        }),
{
    let patched = memory_after(memory, addr, TRAP_BYTE);
    assert(memory_after(patched, addr, memory[addr]) =~= memory);
}

/// The child as the operations see it: its memory and its instruction
/// pointer.
pub struct Child {
    pub memory: Map<usize, u8>,
    pub ip: usize,
}

/// The child after an operation that does not let it run. What running does
/// to a child is not modelled: such an operation leaves the model as it is.
pub open spec fn performed(child: Child, request: Request) -> Child {
    match request {
        Request::WriteByte { addr, byte } => Child {
            memory: memory_after(child.memory, addr, byte),
            ..child
        },
        Request::SetInstructionPointer(addr) => Child { ip: addr, ..child },
        _ => child,
    }
}

/// A child that is halted by a breakpoint is never just told to run, which
/// would run it into the same trap again. It is resumed in three operations,
/// the last of which is the single step; when that step is taken, the
/// instruction pointer is at the breakpoint and the byte there is the
/// original one, so that the step executes the program's own instruction.
pub proof fn lemma_resume_steps_over_breakpoint(k: Knowledge, child: Child, addr: usize)
    requires
        k.state == State::StoppedAtBreakpoint(addr),
        k.installed.dom().contains(addr),
        child.memory.dom().contains(addr),
        child.memory[addr] == TRAP_BYTE,
    ensures
        ({
            let original = k.installed[addr];
            let plan = step_over_requests(addr, original);
            let at_step = performed(performed(child, plan[0]), plan[1]);
            &&& resume_plan(k) == Some((State::Stepping(addr), plan))
            &&& plan.len() == 3
            &&& plan[2] == Request::SingleStep
            &&& !plan.contains(Request::Continue)
            &&& at_step.ip == addr
            &&& at_step.memory[at_step.ip] == original
            &&& at_step.memory == child.memory.insert(addr, original)
        }),
{
}

/// When the child has halted after the single step, the trap is written
/// back, which leaves the memory as it was before the resume, and only then
/// is the child told to run. A child that ended in the step is reported as
/// ended, and nothing more is done to it.
pub proof fn lemma_step_is_followed_by_repatch(
    k: Knowledge,
    child: Child,
    addr: usize,
    event: WaitEvent,
)
    requires
        k.state == State::Stepping(addr),
        k.installed.dom().contains(addr),
        child.memory.dom().contains(addr),
    ensures
        after_event(k, event).0.installed == k.installed,
        match event {
            WaitEvent::Stopped(_, reported) => {
                let plan = repatch_requests(addr);
                let patched = performed(child, plan[0]);
                &&& after_event(k, event).1 == ProgressView::More(plan)
                &&& after_event(k, event).0.state == State::Running
                &&& plan.len() == 2
                &&& plan[1] == Request::Continue
                &&& patched.ip == child.ip
                &&& patched.memory == child.memory.insert(addr, TRAP_BYTE)
                &&& child.memory.insert(addr, k.installed[addr]).insert(addr, TRAP_BYTE)
                    == child.memory.insert(addr, TRAP_BYTE)
            },
            WaitEvent::Exited(code) => {
                &&& after_event(k, event).1 == ProgressView::Done(Status::Exited(code))
                &&& after_event(k, event).0.state == State::Exited(code)
            },
            WaitEvent::Signaled(signal) => {
                &&& after_event(k, event).1 == ProgressView::Done(Status::Signaled(signal))
                &&& after_event(k, event).0.state == State::Signaled(signal)
            },
        },
{
    assert(child.memory.insert(addr, k.installed[addr]).insert(addr, TRAP_BYTE)
        =~= child.memory.insert(addr, TRAP_BYTE));
}

/// No event changes the installed breakpoints, and a child that an event
/// leaves halted by a breakpoint has that breakpoint installed.
pub proof fn lemma_events_keep_breakpoints(k: Knowledge, event: WaitEvent)
    ensures
        after_event(k, event).0.installed == k.installed,
        forall|addr: usize|
            k.state is Running && after_event(k, event).0.state == State::StoppedAtBreakpoint(addr)
                ==> k.installed.dom().contains(addr),
{
}

/// A kill leaves the child ended, and a second kill changes nothing.
pub proof fn lemma_kill_is_idempotent(state: State)
    ensures
        is_terminal(after_kill(state)),
        after_kill(after_kill(state)) == after_kill(state),
        is_terminal(state) ==> after_kill(state) == state,
{
}

} // verus!
