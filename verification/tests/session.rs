use deet::address::{parse_location, Location};
use deet::breakpoints::{BreakpointTable, PLACEHOLDER_BYTE, TRAP_BYTE};
use deet::debugger::{Action, BreakOutcome, CommandError, Debugger};
use deet::debugger_command::DebuggerCommand;
use deet::inferior::{
    install_requests, Inferior, Progress, Request, ResumeError, State, Status, WaitEvent,
    KILL_SIGNAL,
};
use std::collections::HashMap;

/// Performs a write on a stand-in for the child's memory.
fn write(memory: &mut HashMap<usize, u8>, addr: usize, byte: u8) -> Option<u8> {
    match memory.get_mut(&addr) {
        Some(cell) => {
            let previous = *cell;
            *cell = byte;
            Some(previous)
        }
        None => None,
    }
}

fn code() -> HashMap<usize, u8> {
    let mut memory = HashMap::new();
    for (i, byte) in [0x55u8, 0x48, 0x89, 0xe5, 0x90, 0xc3].iter().enumerate() {
        memory.insert(0x1000 + i, *byte);
    }
    memory
}

fn install_all(debugger: &mut Debugger, memory: &mut HashMap<usize, u8>, requests: &[Request]) {
    for request in requests {
        match *request {
            Request::WriteByte { addr, byte } => {
                let answer = write(memory, addr, byte);
                debugger.record_install(addr, answer);
            }
            _ => panic!("only patches install breakpoints"),
        }
    }
}

#[test]
fn table_starts_empty() {
    let table = BreakpointTable::new();
    assert_eq!(table.len(), 0);
    assert_eq!(table.get(0), None);
    assert!(!table.contains(0x1000));
}

#[test]
fn table_keeps_the_order_of_first_requests() {
    let mut table = BreakpointTable::new();
    assert_eq!(table.insert(0x30, 1), None);
    assert_eq!(table.insert(0x10, 2), None);
    assert_eq!(table.insert(0x30, 3), Some(1));
    assert_eq!(table.len(), 2);
    assert_eq!(table.address_at(0), 0x30);
    assert_eq!(table.address_at(1), 0x10);
    assert_eq!(table.get(0x30), Some(3));
    assert_eq!(table.get(0x10), Some(2));
    assert_eq!(table.get(0x20), None);
    assert!(table.contains(0x10));
}

#[test]
fn every_break_before_a_run_is_in_the_table() {
    let mut debugger = Debugger::new("target");
    let addrs = [0x1004usize, 0x1000, 0x9999, 0x1002];
    for (i, addr) in addrs.iter().enumerate() {
        assert_eq!(
            debugger.break_at(&Location::Address(*addr), None),
            BreakOutcome::Recorded { index: i, address: *addr }
        );
    }
    assert_eq!(debugger.breakpoint_count(), 4);
    for (i, addr) in addrs.iter().enumerate() {
        assert_eq!(debugger.saved_byte(*addr), Some(PLACEHOLDER_BYTE));
        assert_eq!(debugger.breakpoint_address(i), Some(*addr));
    }
    assert_eq!(debugger.breakpoint_address(4), None);
}

#[test]
fn a_run_installs_every_valid_breakpoint() {
    let mut debugger = Debugger::new("target");
    for addr in [0x1004usize, 0x1000, 0x9999, 0x1002] {
        debugger.break_at(&Location::Address(addr), None);
    }
    let mut memory = code();
    let pristine = memory.clone();
    let launch = debugger.attach(41);
    assert_eq!(launch.kill, None);
    assert_eq!(
        launch.install,
        vec![
            Request::WriteByte { addr: 0x1004, byte: TRAP_BYTE },
            Request::WriteByte { addr: 0x1000, byte: TRAP_BYTE },
            Request::WriteByte { addr: 0x9999, byte: TRAP_BYTE },
            Request::WriteByte { addr: 0x1002, byte: TRAP_BYTE },
        ]
    );
    install_all(&mut debugger, &mut memory, &launch.install);
    for addr in [0x1004usize, 0x1000, 0x1002] {
        assert_eq!(memory[&addr], TRAP_BYTE);
        assert_eq!(debugger.installed_byte(addr), Some(pristine[&addr]));
        assert_eq!(debugger.saved_byte(addr), Some(pristine[&addr]));
    }
    assert_eq!(debugger.installed_byte(0x9999), None);
    assert_eq!(debugger.saved_byte(0x9999), Some(PLACEHOLDER_BYTE));
    assert_eq!(memory[&0x1001], pristine[&0x1001]);
    assert_eq!(debugger.breakpoint_count(), 4);
    assert_eq!(debugger.process_state(), Some(State::Created));
}

#[test]
fn install_then_restore_gives_the_original_byte() {
    let mut memory = code();
    let mut inferior = Inferior::new(7);
    let request = inferior.install_request(0x1003).unwrap();
    assert_eq!(request, Request::WriteByte { addr: 0x1003, byte: 0xcc });
    let answer = write(&mut memory, 0x1003, 0xcc);
    assert!(inferior.record_install(0x1003, answer));
    assert_eq!(memory[&0x1003], 0xcc);
    let original = inferior.original_byte(0x1003).unwrap();
    assert_eq!(write(&mut memory, 0x1003, original), Some(0xcc));
    assert_eq!(memory, code());
}

#[test]
fn an_installed_breakpoint_is_not_patched_again() {
    let mut inferior = Inferior::new(7);
    assert!(inferior.record_install(0x1003, Some(0xe5)));
    assert_eq!(inferior.install_request(0x1003), None);
    assert!(!inferior.record_install(0x1003, Some(0xcc)));
    assert_eq!(inferior.original_byte(0x1003), Some(0xe5));
}

#[test]
fn a_failed_patch_installs_nothing() {
    let mut inferior = Inferior::new(7);
    assert!(!inferior.record_install(0x9999, None));
    assert_eq!(inferior.original_byte(0x9999), None);
    assert_eq!(
        inferior.install_request(0x9999),
        Some(Request::WriteByte { addr: 0x9999, byte: TRAP_BYTE })
    );
}

#[test]
fn resume_from_a_breakpoint_steps_over_it_once() {
    let mut debugger = Debugger::new("target");
    debugger.break_at(&Location::Address(0x1002), None);
    let mut memory = code();
    let launch = debugger.attach(41);
    install_all(&mut debugger, &mut memory, &launch.install);

    assert_eq!(debugger.cont().unwrap(), vec![Request::Continue]);
    assert_eq!(debugger.process_state(), Some(State::Running));
    assert_eq!(
        debugger.on_event(WaitEvent::Stopped(5, 0x1003)),
        Progress::Done(Status::Stopped(5, 0x1002))
    );
    assert_eq!(debugger.process_state(), Some(State::StoppedAtBreakpoint(0x1002)));

    let requests = debugger.cont().unwrap();
    assert_eq!(
        requests,
        vec![
            Request::WriteByte { addr: 0x1002, byte: 0x89 },
            Request::SetInstructionPointer(0x1002),
            Request::SingleStep,
        ]
    );
    assert_eq!(debugger.process_state(), Some(State::Stepping(0x1002)));
    assert_eq!(write(&mut memory, 0x1002, 0x89), Some(TRAP_BYTE));
    assert_eq!(memory, code());

    let progress = debugger.on_event(WaitEvent::Stopped(5, 0x1004));
    assert_eq!(
        progress,
        Progress::More(vec![
            Request::WriteByte { addr: 0x1002, byte: TRAP_BYTE },
            Request::Continue,
        ])
    );
    assert_eq!(write(&mut memory, 0x1002, TRAP_BYTE), Some(0x89));
    assert_eq!(debugger.process_state(), Some(State::Running));

    assert_eq!(debugger.on_event(WaitEvent::Exited(3)), Progress::Done(Status::Exited(3)));
    assert!(!debugger.has_process());
}

#[test]
fn a_child_that_ends_in_the_step_is_reported() {
    let mut inferior = Inferior::new(3);
    inferior.record_install(0x10, Some(1));
    inferior.resume().unwrap();
    inferior.on_event(WaitEvent::Stopped(5, 0x11));
    inferior.resume().unwrap();
    assert_eq!(inferior.on_event(WaitEvent::Signaled(11)), Progress::Done(Status::Signaled(11)));
    assert_eq!(inferior.state(), State::Signaled(11));
    assert!(inferior.is_terminal());
    assert_eq!(inferior.resume(), Err(ResumeError::NotStopped));
}

#[test]
fn a_stop_where_no_breakpoint_is_still_a_stop() {
    let mut inferior = Inferior::new(3);
    assert_eq!(inferior.resume().unwrap(), vec![Request::Continue]);
    assert_eq!(
        inferior.on_event(WaitEvent::Stopped(2, 0x2001)),
        Progress::Done(Status::Stopped(2, 0x2000))
    );
    assert_eq!(inferior.state(), State::StoppedElsewhere(0x2000));
    assert_eq!(inferior.resume().unwrap(), vec![Request::Continue]);
    assert_eq!(inferior.on_event(WaitEvent::Stopped(2, 0)), Progress::Done(Status::Stopped(2, 0)));
}

#[test]
fn an_event_that_nothing_awaits_changes_nothing() {
    let mut inferior = Inferior::new(3);
    assert_eq!(inferior.on_event(WaitEvent::Exited(0)), Progress::Unexpected);
    assert_eq!(inferior.state(), State::Created);
    let mut debugger = Debugger::new("target");
    assert_eq!(debugger.on_event(WaitEvent::Exited(0)), Progress::Unexpected);
    assert!(!debugger.has_process());
}

#[test]
fn a_running_child_cannot_be_resumed() {
    let mut inferior = Inferior::new(3);
    inferior.resume().unwrap();
    assert_eq!(inferior.resume(), Err(ResumeError::NotStopped));
    assert_eq!(inferior.state(), State::Running);
    let mut debugger = Debugger::new("target");
    debugger.attach(3);
    debugger.cont().unwrap();
    assert_eq!(debugger.cont(), Err(CommandError::NotStopped));
}

#[test]
fn a_failed_resume_keeps_the_breakpoints() {
    let mut debugger = Debugger::new("target");
    debugger.break_at(&Location::Address(0x1002), None);
    debugger.attach(9);
    debugger.record_install(0x1002, Some(0x89));
    debugger.cont().unwrap();
    debugger.resume_failed();
    assert_eq!(debugger.process_state(), Some(State::Created));
    debugger.cont().unwrap();
    debugger.on_event(WaitEvent::Stopped(5, 0x1003));
    debugger.cont().unwrap();
    debugger.resume_failed();
    assert_eq!(debugger.process_state(), Some(State::StoppedAtBreakpoint(0x1002)));
    debugger.cont().unwrap();
    debugger.on_event(WaitEvent::Stopped(5, 0x1004));
    debugger.resume_failed();
    assert_eq!(debugger.process_state(), Some(State::StoppedElsewhere(0x1004)));
    assert_eq!(debugger.saved_byte(0x1002), Some(0x89));
    assert_eq!(debugger.installed_byte(0x1002), Some(0x89));
    assert_eq!(debugger.breakpoint_count(), 1);
}

#[test]
fn kill_twice_is_kill_once() {
    let mut inferior = Inferior::new(12);
    assert_eq!(inferior.pid(), 12);
    assert_eq!(inferior.kill(), Some(12));
    assert_eq!(inferior.state(), State::Signaled(KILL_SIGNAL));
    assert_eq!(inferior.kill(), None);
    assert_eq!(inferior.state(), State::Signaled(KILL_SIGNAL));
}

#[test]
fn quit_without_a_process_does_nothing() {
    let mut debugger = Debugger::new("target");
    debugger.break_at(&Location::Address(0x10), None);
    assert_eq!(debugger.quit(), None);
    assert_eq!(debugger.clear(), None);
    assert_eq!(debugger.breakpoint_count(), 1);
    assert!(!debugger.has_process());
}

#[test]
fn quit_twice_kills_once() {
    let mut debugger = Debugger::new("target");
    debugger.attach(77);
    assert!(debugger.has_process());
    assert_eq!(debugger.quit(), Some(77));
    assert!(!debugger.has_process());
    assert_eq!(debugger.quit(), None);
}

#[test]
fn a_new_run_names_the_old_child_for_killing() {
    let mut debugger = Debugger::new("target");
    assert_eq!(debugger.attach(1).kill, None);
    assert_eq!(debugger.attach(2).kill, Some(1));
    assert_eq!(debugger.backtrace(), Ok(2));
    assert_eq!(debugger.process_state(), Some(State::Created));
}

#[test]
fn breakpoint_at_a_function_stops_there() {
    let mut debugger = Debugger::new("target");
    let location = parse_location("main");
    assert_eq!(location, Location::Function("main".to_string()));
    assert_eq!(
        debugger.break_at(&location, Some(0x1001)),
        BreakOutcome::Recorded { index: 0, address: 0x1001 }
    );
    let mut memory = code();
    let launch = debugger.attach(5);
    install_all(&mut debugger, &mut memory, &launch.install);
    assert_eq!(memory[&0x1001], TRAP_BYTE);
    assert_eq!(debugger.cont().unwrap(), vec![Request::Continue]);
    let progress = debugger.on_event(WaitEvent::Stopped(5, 0x1002));
    assert_eq!(progress, Progress::Done(Status::Stopped(5, 0x1001)));
    assert_eq!(
        deet::backtrace::describe_place(Some("main"), Some("/src/target.c:7")),
        "main (/src/target.c:7)"
    );
}

#[test]
fn a_normal_exit_clears_the_process() {
    let mut debugger = Debugger::new("target");
    let launch = debugger.attach(5);
    assert!(launch.install.is_empty());
    assert_eq!(debugger.cont().unwrap(), vec![Request::Continue]);
    assert_eq!(debugger.on_event(WaitEvent::Exited(0)), Progress::Done(Status::Exited(0)));
    assert!(!debugger.has_process());
    assert_eq!(debugger.process_state(), None);
    assert_eq!(debugger.cont(), Err(CommandError::NoProcess));
}

#[test]
fn backtrace_without_a_process_is_an_error() {
    let debugger = Debugger::new("target");
    assert_eq!(debugger.backtrace(), Err(CommandError::NoProcess));
    assert_eq!(debugger.target(), "target");
}

#[test]
fn continue_without_a_process_is_an_error() {
    let mut debugger = Debugger::new("target");
    assert_eq!(debugger.cont(), Err(CommandError::NoProcess));
    assert!(!debugger.has_process());
}

#[test]
fn break_at_an_unknown_function_changes_nothing() {
    let mut debugger = Debugger::new("target");
    debugger.break_at(&Location::Address(0x10), None);
    let location = parse_location("no_such_function");
    assert_eq!(debugger.break_at(&location, None), BreakOutcome::InvalidAddress);
    assert_eq!(debugger.break_at(&parse_location("*"), None), BreakOutcome::InvalidAddress);
    assert_eq!(debugger.break_at(&parse_location("12"), None), BreakOutcome::InvalidAddress);
    assert_eq!(debugger.breakpoint_count(), 1);
    assert_eq!(debugger.saved_byte(0x10), Some(PLACEHOLDER_BYTE));
}

#[test]
fn break_with_a_process_waits_for_the_patch() {
    let mut debugger = Debugger::new("target");
    let mut memory = code();
    debugger.attach(5);
    let outcome = debugger.break_at(&Location::Line(3), Some(0x1004));
    assert_eq!(
        outcome,
        BreakOutcome::Install {
            index: 0,
            address: 0x1004,
            request: Request::WriteByte { addr: 0x1004, byte: TRAP_BYTE },
        }
    );
    assert_eq!(debugger.breakpoint_count(), 0);
    let answer = write(&mut memory, 0x1004, TRAP_BYTE);
    assert!(debugger.record_install(0x1004, answer));
    assert_eq!(debugger.breakpoint_count(), 1);
    assert_eq!(debugger.saved_byte(0x1004), Some(0x90));
    assert_eq!(
        debugger.break_at(&Location::Address(0x1004), None),
        BreakOutcome::Recorded { index: 1, address: 0x1004 }
    );
    assert_eq!(debugger.breakpoint_count(), 1);
    let outcome = debugger.break_at(&Location::Address(0x9999), None);
    assert_eq!(
        outcome,
        BreakOutcome::Install {
            index: 1,
            address: 0x9999,
            request: Request::WriteByte { addr: 0x9999, byte: TRAP_BYTE },
        }
    );
    assert!(!debugger.record_install(0x9999, None));
    assert_eq!(debugger.breakpoint_count(), 1);
    assert_eq!(debugger.saved_byte(0x9999), None);
}

#[test]
fn a_patch_without_a_process_is_not_recorded() {
    let mut debugger = Debugger::new("target");
    assert!(!debugger.record_install(0x10, Some(1)));
    assert_eq!(debugger.breakpoint_count(), 0);
}

#[test]
fn patches_follow_the_table() {
    let mut table = BreakpointTable::new();
    table.insert(8, 0);
    table.insert(4, 0);
    assert_eq!(
        install_requests(&table),
        vec![
            Request::WriteByte { addr: 8, byte: TRAP_BYTE },
            Request::WriteByte { addr: 4, byte: TRAP_BYTE },
        ]
    );
}

#[test]
fn commands_without_a_process_are_refused() {
    let mut debugger = Debugger::new("target");
    assert_eq!(debugger.run(&DebuggerCommand::Cont), Action::Refuse(CommandError::NoProcess));
    assert_eq!(debugger.run(&DebuggerCommand::Back), Action::Refuse(CommandError::NoProcess));
    assert_eq!(debugger.run(&DebuggerCommand::Quit), Action::Exit { kill: None });
    assert!(!debugger.has_process());
}

#[test]
fn a_run_command_lets_go_of_the_old_child() {
    let mut debugger = Debugger::new("target");
    let args = vec!["-v".to_string(), "input file".to_string()];
    assert_eq!(
        debugger.run(&DebuggerCommand::Run(args.clone())),
        Action::Launch { kill: None, args: args.clone() }
    );
    debugger.attach(31);
    assert_eq!(
        debugger.run(&DebuggerCommand::Run(vec![])),
        Action::Launch { kill: Some(31), args: vec![] }
    );
    assert!(!debugger.has_process());
}

#[test]
fn commands_with_a_process_are_carried_out() {
    let mut debugger = Debugger::new("target");
    debugger.attach(31);
    assert_eq!(debugger.run(&DebuggerCommand::Back), Action::Walk(31));
    assert_eq!(debugger.run(&DebuggerCommand::Cont), Action::Perform(vec![Request::Continue]));
    assert_eq!(debugger.run(&DebuggerCommand::Cont), Action::Refuse(CommandError::NotStopped));
    assert_eq!(debugger.run(&DebuggerCommand::Quit), Action::Exit { kill: Some(31) });
    assert_eq!(debugger.run(&DebuggerCommand::Quit), Action::Exit { kill: None });
}

#[test]
fn a_break_command_asks_for_the_place() {
    let mut debugger = Debugger::new("target");
    assert_eq!(
        debugger.run(&DebuggerCommand::Break("*0x1000".to_string())),
        Action::Resolve(Location::Address(0x1000))
    );
    assert_eq!(
        debugger.run(&DebuggerCommand::Break("17".to_string())),
        Action::Resolve(Location::Line(17))
    );
    assert_eq!(
        debugger.run(&DebuggerCommand::Break("main".to_string())),
        Action::Resolve(Location::Function("main".to_string()))
    );
    assert_eq!(
        debugger.run(&DebuggerCommand::Break(String::new())),
        Action::Resolve(Location::Function(String::new()))
    );
    assert_eq!(debugger.breakpoint_count(), 0);
}
