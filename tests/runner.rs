use cbv::{write_scroll, Action, Instruction, MachineMsg, OrthoPointers, Pointers, Request, Response, WebMachine};

fn op(i: Instruction) -> u32 {
    i.encode()
}

fn p(a: usize, b: usize, c: usize) -> Pointers {
    Pointers { a, b, c }
}

fn echo_image() -> Vec<u8> {
    write_scroll(&[op(Instruction::In(p(0, 0, 0))), op(Instruction::Out(p(0, 0, 0))), op(Instruction::Halt(p(0, 0, 0)))])
}

fn loop_image() -> Vec<u8> {
    write_scroll(&[op(Instruction::Ortho(OrthoPointers { a: 1, value: 0 })), op(Instruction::Load(p(0, 0, 1)))])
}

fn status(w: &mut WebMachine) -> (usize, bool, u64, u32, Vec<u8>) {
    match w.handle(Request::Status) {
        Action::Reply(Response::Status { finger, halted, cycles, clock, output }) => (finger, halted, cycles, clock, output),
        other => panic!("unexpected {:?}", other),
    }
}

#[test]
fn fresh_runner_reports_halted() {
    let mut w = WebMachine::new();
    assert_eq!(status(&mut w), (0, true, 0, 100_000, vec![]));
    assert!(!w.update(MachineMsg::Tick));
}

#[test]
fn boot_request_asks_for_one_fetch() {
    let mut w = WebMachine::new();
    assert_eq!(w.handle(Request::BootFrom("codex.umz".to_string())), Action::Fetch("codex.umz".to_string()));
    assert_eq!(w.handle(Request::BootFrom("other.um".to_string())), Action::Nothing);
    assert!(!w.update(MachineMsg::BootAs(echo_image())));
    assert_eq!(w.handle(Request::BootFrom("again.um".to_string())), Action::Fetch("again.um".to_string()));
}

#[test]
fn tick_runs_until_halt_and_keeps_output() {
    let mut w = WebMachine::new();
    w.update(MachineMsg::BootAs(echo_image()));
    assert_eq!(w.handle(Request::Input(vec![0x7A])), Action::Nothing);
    assert!(!w.update(MachineMsg::Tick));
    assert_eq!(status(&mut w), (0, true, 2, 100_000, vec![0x7A]));
    assert_eq!(status(&mut w), (0, true, 2, 100_000, vec![]));
}

#[test]
fn starving_batch_ends_early() {
    let mut w = WebMachine::new();
    w.update(MachineMsg::BootAs(echo_image()));
    assert!(!w.update(MachineMsg::Tick));
    assert_eq!(status(&mut w), (0, false, 0, 100_000, vec![]));
    w.handle(Request::Input(vec![0x31]));
    assert!(!w.update(MachineMsg::Tick));
    assert_eq!(status(&mut w), (0, true, 2, 100_000, vec![0x31]));
}

#[test]
fn full_batch_then_clock_calibration() {
    let mut w = WebMachine::new();
    w.update(MachineMsg::BootAs(loop_image()));
    assert!(w.update(MachineMsg::Tick));
    assert_eq!(status(&mut w), (0, false, 100_000, 100_000, vec![]));
    w.set_clock(85);
    assert_eq!(status(&mut w).3, 100_000);
    w.set_clock(40);
    assert_eq!(status(&mut w).3, 200_000);
    w.set_clock(190);
    assert_eq!(status(&mut w).3, 100_000);
    w.set_clock(u64::MAX);
    assert_eq!(status(&mut w).3, 1);
    assert!(w.update(MachineMsg::Tick));
    assert_eq!(status(&mut w), (1, false, 100_001, 1, vec![]));
}

#[test]
fn clock_stays_within_u32() {
    let mut w = WebMachine::new();
    for _ in 0..10 {
        w.set_clock(0);
    }
    assert_eq!(status(&mut w).3, u32::MAX);
}

#[test]
fn shutdown_drops_the_machine() {
    let mut w = WebMachine::new();
    w.update(MachineMsg::BootAs(loop_image()));
    w.update(MachineMsg::Tick);
    assert_eq!(w.handle(Request::Shutdown), Action::Nothing);
    assert_eq!(status(&mut w), (0, true, 0, 100_000, vec![]));
    assert_eq!(w.handle(Request::Input(vec![1, 2])), Action::Nothing);
    assert_eq!(status(&mut w), (0, true, 0, 100_000, vec![]));
}

#[test]
fn faulting_machine_is_dropped() {
    let mut w = WebMachine::new();
    w.update(MachineMsg::BootAs(write_scroll(&[0xE000_0000])));
    assert!(!w.update(MachineMsg::Tick));
    assert_eq!(status(&mut w).1, true);
}
