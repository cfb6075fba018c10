use cbv::{spin, write_scroll, Fault, Instruction, Machine, OrthoPointers, Pointers, Step, END_OF_INPUT};

fn std_op(op: u32, a: usize, b: usize, c: usize) -> u32 {
    let p = Pointers { a, b, c };
    let i = match op {
        0 => Instruction::Move(p),
        1 => Instruction::Index(p),
        2 => Instruction::Amend(p),
        3 => Instruction::Add(p),
        4 => Instruction::Mul(p),
        5 => Instruction::Div(p),
        6 => Instruction::Nand(p),
        7 => Instruction::Halt(p),
        8 => Instruction::Allocate(p),
        9 => Instruction::Abandon(p),
        10 => Instruction::Out(p),
        11 => Instruction::In(p),
        _ => Instruction::Load(p),
    };
    i.encode()
}

fn ortho(a: usize, value: u32) -> u32 {
    Instruction::Ortho(OrthoPointers { a, value }).encode()
}

fn boot(words: &[u32]) -> Machine {
    Machine::new(&write_scroll(words))
}

fn run_to_end(m: &mut Machine) -> Step {
    for _ in 0..10_000 {
        match m.step() {
            Step::Continue => {}
            other => return other,
        }
    }
    panic!("program did not stop");
}

#[test]
fn halt_immediately() {
    let mut m = Machine::new(&[0x70, 0, 0, 0]);
    assert_eq!(m.step(), Step::Halt);
    assert_eq!(m.finger(), 1);
    assert!(m.take_output().is_empty());
}

#[test]
fn orthography_and_output() {
    let mut m = boot(&[0xD200_0041, 0xD000_0041, 0xA000_0000, 0x7000_0000]);
    assert_eq!(run_to_end(&mut m), Step::Halt);
    assert_eq!(m.register(1), 0x41);
    assert_eq!(m.take_output(), b"A".to_vec());
}

#[test]
fn echo_one_byte() {
    let mut m = boot(&[std_op(11, 0, 0, 0), std_op(10, 0, 0, 0), std_op(7, 0, 0, 0)]);
    m.push_input(0x7A);
    assert_eq!(run_to_end(&mut m), Step::Halt);
    assert_eq!(m.take_output(), vec![0x7A]);
}

#[test]
fn allocate_amend_index() {
    let mut m = boot(&[
        ortho(2, 3),
        std_op(8, 0, 1, 2),
        ortho(3, 1),
        ortho(4, 0xCAFE),
        std_op(2, 1, 3, 4),
        std_op(1, 0, 1, 3),
        std_op(10, 0, 0, 0),
        std_op(7, 0, 0, 0),
    ]);
    assert_eq!(run_to_end(&mut m), Step::Halt);
    assert_eq!(m.take_output(), vec![0xFE]);
    assert_eq!(m.register(0), 0xCAFE);
    let k = m.register(1);
    assert_eq!(k, 1);
    assert_eq!(m.heap().length(k), Ok(3));
    assert_eq!(m.heap().index(k, 0), Ok(0));
    assert_eq!(m.heap().index(k, 1), Ok(0xCAFE));
    assert_eq!(m.heap().index(k, 2), Ok(0));
}

#[test]
fn load_from_zero_jumps_without_copying() {
    let image = [ortho(1, 1), std_op(3, 2, 2, 1), std_op(12, 0, 0, 3), std_op(7, 0, 0, 0)];
    let mut m = boot(&image);
    for _ in 0..3 {
        assert_eq!(m.step(), Step::Continue);
    }
    assert_eq!(m.finger(), 0);
    assert_eq!(m.register(2), 1);
    for _ in 0..3 {
        assert_eq!(m.step(), Step::Continue);
    }
    assert_eq!(m.finger(), 0);
    assert_eq!(m.register(2), 2);
    assert_eq!(m.heap().length(0), Ok(4));
    for (i, w) in image.iter().enumerate() {
        assert_eq!(m.heap().index(0, i as u32), Ok(*w));
    }
}

#[test]
fn load_copies_array_into_program() {
    // Build a two-word program in a new array: Ortho r7 <- 9; Halt.
    let image = [
        ortho(1, 2),
        std_op(8, 0, 2, 1),
        ortho(4, 0xDE00),
        ortho(6, 0x10000),
        std_op(4, 4, 4, 6),
        ortho(5, 9),
        std_op(3, 4, 4, 5),
        ortho(3, 0),
        std_op(2, 2, 3, 4),
        ortho(4, 0x7000),
        std_op(4, 4, 4, 6),
        ortho(3, 1),
        std_op(2, 2, 3, 4),
        ortho(3, 0),
        std_op(12, 0, 2, 3),
    ];
    let mut m = boot(&image);
    for _ in 0..image.len() {
        assert_eq!(m.step(), Step::Continue);
    }
    let k = m.register(2);
    assert_eq!(m.finger(), 0);
    assert_eq!(m.heap().length(0), Ok(2));
    assert_eq!(m.heap().index(0, 0), Ok(ortho(7, 9)));
    assert_eq!(m.heap().index(0, 1), Ok(0x7000_0000));
    assert_eq!(m.heap().index(k, 0), Ok(ortho(7, 9)));
    assert_eq!(m.heap().index(k, 1), Ok(0x7000_0000));
    assert_eq!(m.step(), Step::Continue);
    assert_eq!(m.register(7), 9);
    assert_eq!(m.step(), Step::Halt);
}

#[test]
fn abandoned_identifier_is_reused() {
    let mut m = boot(&[
        ortho(1, 4),
        std_op(8, 0, 2, 1),
        std_op(9, 0, 0, 2),
        ortho(1, 2),
        std_op(8, 0, 3, 1),
        std_op(7, 0, 0, 0),
    ]);
    assert_eq!(run_to_end(&mut m), Step::Halt);
    let (k1, k2) = (m.register(2), m.register(3));
    assert_eq!(k1, k2);
    assert_eq!(m.heap().length(k2), Ok(2));
    assert_eq!(m.heap().index(k2, 0), Ok(0));
    assert_eq!(m.heap().index(k2, 1), Ok(0));
}

#[test]
fn input_waits_without_losing_the_instruction() {
    let mut m = boot(&[std_op(11, 0, 0, 5), std_op(7, 0, 0, 0)]);
    assert_eq!(m.step(), Step::Continue);
    assert_eq!(m.finger(), 0);
    assert_eq!(m.step(), Step::Continue);
    assert_eq!(m.finger(), 0);
    m.push_input(0x41);
    assert_eq!(m.step(), Step::Continue);
    assert_eq!(m.finger(), 1);
    assert_eq!(m.register(5), 0x41);
}

#[test]
fn end_of_input_reads_all_ones() {
    let mut m = boot(&[std_op(11, 0, 0, 1), std_op(7, 0, 0, 0)]);
    m.push_input(END_OF_INPUT);
    assert_eq!(m.step(), Step::Continue);
    assert_eq!(m.register(1), 0xFFFF_FFFF);
}

#[test]
fn arithmetic_wraps() {
    let mut m = boot(&[
        ortho(1, 0x1FF_FFFF),
        ortho(2, 0x80),
        std_op(4, 3, 1, 2),
        std_op(4, 4, 3, 2),
        std_op(3, 5, 4, 1),
        std_op(6, 6, 1, 2),
        std_op(5, 7, 1, 2),
        std_op(7, 0, 0, 0),
    ]);
    assert_eq!(run_to_end(&mut m), Step::Halt);
    assert_eq!(m.register(3), 0xFFFF_FF80);
    assert_eq!(m.register(4), 0xFFFF_C000);
    assert_eq!(m.register(5), 0x01FF_BFFF);
    assert_eq!(m.register(6), !(0x1FF_FFFFu32 & 0x80));
    assert_eq!(m.register(7), 0x3FFFF);
}

#[test]
fn conditional_move() {
    let mut m = boot(&[
        ortho(1, 5),
        std_op(0, 2, 1, 0),
        ortho(3, 1),
        std_op(0, 4, 1, 3),
        std_op(7, 0, 0, 0),
    ]);
    assert_eq!(run_to_end(&mut m), Step::Halt);
    assert_eq!(m.register(2), 0);
    assert_eq!(m.register(4), 5);
}

#[test]
fn output_keeps_the_low_byte() {
    let mut m = boot(&[ortho(0, 0x141), std_op(10, 0, 0, 0), std_op(7, 0, 0, 0)]);
    assert_eq!(run_to_end(&mut m), Step::Halt);
    assert_eq!(m.take_output(), vec![0x41]);
}

#[test]
fn faults() {
    let cases: Vec<(Vec<u32>, Fault)> = vec![
        (vec![], Fault::FingerOutOfBounds),
        (vec![ortho(0, 1)], Fault::FingerOutOfBounds),
        (vec![0xE000_0000], Fault::IllegalInstruction),
        (vec![0xF000_0000], Fault::IllegalInstruction),
        (vec![std_op(5, 0, 1, 2)], Fault::DivideByZero),
        (vec![std_op(9, 0, 0, 0)], Fault::AbandonedProgram),
        (vec![ortho(1, 3), std_op(9, 0, 0, 1)], Fault::InactiveArray),
        (vec![ortho(1, 3), std_op(1, 0, 1, 0)], Fault::InactiveArray),
        (vec![ortho(1, 3), std_op(12, 0, 1, 0)], Fault::InactiveArray),
        (vec![ortho(1, 9), std_op(1, 0, 0, 1)], Fault::IndexOutOfBounds),
        (vec![ortho(1, 9), std_op(2, 0, 1, 0)], Fault::IndexOutOfBounds),
        (
            vec![ortho(1, 1), std_op(8, 0, 2, 1), std_op(9, 0, 0, 2), std_op(9, 0, 0, 2)],
            Fault::InactiveArray,
        ),
    ];
    for (words, fault) in cases {
        let mut m = boot(&words);
        assert_eq!(run_to_end(&mut m), Step::Fault(fault));
    }
}

#[test]
fn spin_hands_back_a_running_machine() {
    let m = boot(&[ortho(0, 0x5A), std_op(10, 0, 0, 0), std_op(7, 0, 0, 0)]);
    let m = spin(m).expect("still running");
    assert_eq!(m.finger(), 1);
    let mut m = spin(m).expect("still running");
    assert_eq!(m.take_output(), vec![0x5A]);
    assert!(spin(m).is_none());
    assert!(spin(boot(&[0xE000_0000])).is_none());
}
