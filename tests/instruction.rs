use cbv::{Instruction, OrthoPointers, Pointers};

#[test]
fn lib_test_instruction() {
    let target = Instruction::Add(Pointers { a: 7, b: 6, c: 0 });
    let other: Instruction = 0b0011_0000_0000_0000_0000_0001_1111_0000.into();
    assert_eq!(target, other);
}

#[test]
fn main_test_instruction() {
    let target = Instruction::Add(Pointers { a: 7, b: 6, c: 0 });
    let other: Instruction = 0b00110000000000000000000111110000.into();
    assert_eq!(target, other);
}

#[test]
fn decodes_register_fields() {
    assert_eq!(Pointers::new(0x0000_01D3), Pointers { a: 7, b: 2, c: 3 });
    assert_eq!(Pointers::new(0xFFFF_FE00), Pointers { a: 0, b: 0, c: 0 });
}

#[test]
fn decodes_orthography() {
    assert_eq!(OrthoPointers::new(0xD200_0041), OrthoPointers { a: 1, value: 0x41 });
    assert_eq!(OrthoPointers::new(0xDFFF_FFFF), OrthoPointers { a: 7, value: 0x1FF_FFFF });
    let i: Instruction = 0xD000_0041.into();
    assert_eq!(i, Instruction::Ortho(OrthoPointers { a: 0, value: 0x41 }));
}

#[test]
fn decodes_every_operation() {
    let p = Pointers { a: 1, b: 2, c: 3 };
    let expected = [
        Instruction::Move(p),
        Instruction::Index(p),
        Instruction::Amend(p),
        Instruction::Add(p),
        Instruction::Mul(p),
        Instruction::Div(p),
        Instruction::Nand(p),
        Instruction::Halt(p),
        Instruction::Allocate(p),
        Instruction::Abandon(p),
        Instruction::Out(p),
        Instruction::In(p),
        Instruction::Load(p),
    ];
    for (op, want) in expected.iter().enumerate() {
        let w = ((op as u32) << 28) | (1 << 6) | (2 << 3) | 3;
        let got: Instruction = w.into();
        assert_eq!(got, *want);
    }
}

#[test]
fn operations_fourteen_and_fifteen_are_illegal() {
    let i: Instruction = 0xE000_0000.into();
    assert_eq!(i, Instruction::Illegal(0xE000_0000));
    let j: Instruction = 0xF123_4567.into();
    assert_eq!(j, Instruction::Illegal(0xF123_4567));
}

#[test]
fn encode_then_decode_gives_the_instruction() {
    let samples = [
        Instruction::Move(Pointers { a: 0, b: 7, c: 3 }),
        Instruction::Load(Pointers { a: 5, b: 0, c: 6 }),
        Instruction::Halt(Pointers { a: 0, b: 0, c: 0 }),
        Instruction::In(Pointers { a: 7, b: 7, c: 7 }),
        Instruction::Ortho(OrthoPointers { a: 6, value: 0x1AB_CDEF }),
        Instruction::Illegal(0xF000_0001),
    ];
    for s in samples.iter() {
        let back: Instruction = s.encode().into();
        assert_eq!(back, *s);
    }
    assert_eq!(Instruction::Ortho(OrthoPointers { a: 1, value: 0x41 }).encode(), 0xD200_0041);
    assert_eq!(Instruction::Add(Pointers { a: 7, b: 6, c: 0 }).encode(), 0x3000_01F0);
}
