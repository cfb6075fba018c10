//! Instruction words and their fields.
use vstd::prelude::*;

verus! {

/// The three register fields of a standard instruction.
#[derive(Debug, Clone, Copy, PartialEq, Eq, Structural)]
pub struct Pointers {
    pub a: usize,
    pub b: usize,
    pub c: usize,
}

/// The fields of an orthography instruction: a register and a 25-bit literal.
#[derive(Debug, Clone, Copy, PartialEq, Eq, Structural)]
pub struct OrthoPointers {
    pub a: usize,
    pub value: u32,
}

/// A decoded instruction word.
#[derive(Debug, Clone, Copy, PartialEq, Eq, Structural)]
pub enum Instruction {
    Move(Pointers),
    Index(Pointers),
    Amend(Pointers),
    Add(Pointers),
    Mul(Pointers),
    Div(Pointers),
    Nand(Pointers),
    Halt(Pointers),
    Allocate(Pointers),
    Abandon(Pointers),
    /// Writes the low 8 bits of register `c`; higher bits are dropped.
    Out(Pointers),
    In(Pointers),
    Load(Pointers),
    Ortho(OrthoPointers),
    /// A word whose operation number is 14 or 15; executing it is a fault.
    Illegal(u32),
}

/// The register fields of a standard instruction word.
pub open spec fn pointers_of(w: u32) -> Pointers {
    Pointers {
        a: ((w >> 6u32) & 7u32) as usize,
        b: ((w >> 3u32) & 7u32) as usize,
        c: (w & 7u32) as usize,
    }
}

/// The fields of an orthography word.
pub open spec fn ortho_of(w: u32) -> OrthoPointers {
    OrthoPointers { a: ((w >> 25u32) & 7u32) as usize, value: w & 0x1FF_FFFFu32 }
}

/// The instruction that a word encodes, selected by its top four bits.
pub open spec fn decode(w: u32) -> Instruction {
    let p = pointers_of(w);
    let op = w >> 28u32;
    if op == 0 {
        Instruction::Move(p)
    } else if op == 1 {
        Instruction::Index(p)
    } else if op == 2 {
        Instruction::Amend(p)
    } else if op == 3 {
        Instruction::Add(p)
    } else if op == 4 {
        Instruction::Mul(p)
    } else if op == 5 {
        Instruction::Div(p)
    } else if op == 6 {
        Instruction::Nand(p)
    } else if op == 7 {
        Instruction::Halt(p)
    } else if op == 8 {
        Instruction::Allocate(p)
    } else if op == 9 {
        Instruction::Abandon(p)
    } else if op == 10 {
        Instruction::Out(p)
    } else if op == 11 {
        Instruction::In(p)
    } else if op == 12 {
        Instruction::Load(p)
    } else if op == 13 {
        Instruction::Ortho(ortho_of(w))
    } else {
        Instruction::Illegal(w)
    }
}

/// The operation number and register fields of a standard instruction.
pub open spec fn standard_parts(i: Instruction) -> (u32, Pointers) {
    match i {
        Instruction::Move(p) => (0u32, p),
        Instruction::Index(p) => (1u32, p),
        Instruction::Amend(p) => (2u32, p),
        Instruction::Add(p) => (3u32, p),
        Instruction::Mul(p) => (4u32, p),
        Instruction::Div(p) => (5u32, p),
        Instruction::Nand(p) => (6u32, p),
        Instruction::Halt(p) => (7u32, p),
        Instruction::Allocate(p) => (8u32, p),
        Instruction::Abandon(p) => (9u32, p),
        Instruction::Out(p) => (10u32, p),
        Instruction::In(p) => (11u32, p),
        Instruction::Load(p) => (12u32, p),
        _ => (0u32, Pointers { a: 0, b: 0, c: 0 }),
    }
}

/// The word of a standard instruction.
pub open spec fn standard_word(op: u32, p: Pointers) -> u32 {
    (op << 28u32) | ((p.a as u32) << 6u32) | ((p.b as u32) << 3u32) | (p.c as u32)
}

/// The word that encodes an instruction.
pub open spec fn encode(i: Instruction) -> u32 {
    match i {
        Instruction::Ortho(o) => (13u32 << 28u32) | ((o.a as u32) << 25u32) | o.value,
        Instruction::Illegal(w) => w,
        _ => standard_word(standard_parts(i).0, standard_parts(i).1),
    }
}

impl Pointers {
    /// Each field names one of the eight registers.
    pub open spec fn wf(self) -> bool {
        self.a < 8 && self.b < 8 && self.c < 8
    }

    /// Reads the register fields of a standard instruction word.
    pub fn new(i: u32) -> (r: Pointers)
        ensures
            r == pointers_of(i),
            r.wf(),
    {
        assert((i & 7u32) < 8 && ((i >> 3u32) & 7u32) < 8 && ((i >> 6u32) & 7u32) < 8)
            by (bit_vector);
        Pointers {
            c: (i & 7u32) as usize,
            b: ((i >> 3u32) & 7u32) as usize,
            a: ((i >> 6u32) & 7u32) as usize,
        }
    }
}

impl OrthoPointers {
    /// The register is one of eight and the literal fits in 25 bits.
    pub open spec fn wf(self) -> bool {
        self.a < 8 && self.value < 0x200_0000
    }

    /// Reads the fields of an orthography word.
    pub fn new(i: u32) -> (r: OrthoPointers)
        ensures
            r == ortho_of(i),
            r.wf(),
    {
        assert(((i >> 25u32) & 7u32) < 8 && (i & 0x1FF_FFFFu32) < 0x200_0000) by (bit_vector);
        OrthoPointers { a: ((i >> 25u32) & 7u32) as usize, value: i & 0x1FF_FFFFu32 }
    }
}

impl Instruction {
    /// Every field is in range and an illegal word has an illegal operation number.
    pub open spec fn wf(self) -> bool {
        match self {
            Instruction::Ortho(o) => o.wf(),
            Instruction::Illegal(w) => w >> 28u32 >= 14,
            _ => standard_parts(self).1.wf(),
        }
    }

    /// The word that encodes this instruction.
    pub fn encode(&self) -> (w: u32)
        requires
            self.wf(),
        ensures
            w == encode(*self),
    {
        match *self {
            Instruction::Ortho(o) => (13u32 << 28u32) | ((o.a as u32) << 25u32) | o.value,
            Instruction::Illegal(w) => w,
            Instruction::Move(p) => standard(0, p),
            Instruction::Index(p) => standard(1, p),
            Instruction::Amend(p) => standard(2, p),
            Instruction::Add(p) => standard(3, p),
            Instruction::Mul(p) => standard(4, p),
            Instruction::Div(p) => standard(5, p),
            Instruction::Nand(p) => standard(6, p),
            Instruction::Halt(p) => standard(7, p),
            Instruction::Allocate(p) => standard(8, p),
            Instruction::Abandon(p) => standard(9, p),
            Instruction::Out(p) => standard(10, p),
            Instruction::In(p) => standard(11, p),
            Instruction::Load(p) => standard(12, p),
        }
    }
}

fn standard(op: u32, p: Pointers) -> (w: u32)
    requires
        p.wf(),
    ensures
        w == standard_word(op, p),
{
    (op << 28u32) | ((p.a as u32) << 6u32) | ((p.b as u32) << 3u32) | (p.c as u32)
}

impl From<u32> for Instruction {
    /// Decodes an instruction word.
    fn from(i: u32) -> (r: Instruction) {
        let op = i >> 28u32;
        if op == 13 {
            Instruction::Ortho(OrthoPointers::new(i))
        } else if op >= 14 {
            Instruction::Illegal(i)
        } else {
            let p = Pointers::new(i);
            if op == 0 {
                Instruction::Move(p)
            } else if op == 1 {
                Instruction::Index(p)
            } else if op == 2 {
                Instruction::Amend(p)
            } else if op == 3 {
                Instruction::Add(p)
            } else if op == 4 {
                Instruction::Mul(p)
            } else if op == 5 {
                Instruction::Div(p)
            } else if op == 6 {
                Instruction::Nand(p)
            } else if op == 7 {
                Instruction::Halt(p)
            } else if op == 8 {
                Instruction::Allocate(p)
            } else if op == 9 {
                Instruction::Abandon(p)
            } else if op == 10 {
                Instruction::Out(p)
            } else if op == 11 {
                Instruction::In(p)
            } else {
                Instruction::Load(p)
            }
        }
    }
}

impl vstd::std_specs::convert::FromSpecImpl<u32> for Instruction {
    open spec fn obeys_from_spec() -> bool {
        true
    }

    open spec fn from_spec(v: u32) -> Instruction {
        decode(v)
    }
}

proof fn lemma_standard_fields(op: u32, a: u32, b: u32, c: u32)
    requires
        op < 13,
        a < 8,
        b < 8,
        c < 8,
    ensures
        ((op << 28u32) | (a << 6u32) | (b << 3u32) | c) >> 28u32 == op,
        (((op << 28u32) | (a << 6u32) | (b << 3u32) | c) >> 6u32) & 7u32 == a,
        (((op << 28u32) | (a << 6u32) | (b << 3u32) | c) >> 3u32) & 7u32 == b,
        ((op << 28u32) | (a << 6u32) | (b << 3u32) | c) & 7u32 == c,
{
    assert(((op << 28u32) | (a << 6u32) | (b << 3u32) | c) >> 28u32 == op) by (bit_vector)
        requires
            op < 13,
            a < 8,
            b < 8,
            c < 8,
    ;
    assert((((op << 28u32) | (a << 6u32) | (b << 3u32) | c) >> 6u32) & 7u32 == a) by (bit_vector)
        requires
            a < 8,
            b < 8,
            c < 8,
    ;
    assert((((op << 28u32) | (a << 6u32) | (b << 3u32) | c) >> 3u32) & 7u32 == b) by (bit_vector)
        requires
            b < 8,
            c < 8,
    ;
    assert(((op << 28u32) | (a << 6u32) | (b << 3u32) | c) & 7u32 == c) by (bit_vector)
        requires
            c < 8,
    ;
}

proof fn lemma_ortho_fields(a: u32, v: u32)
    requires
        a < 8,
        v < 0x200_0000,
    ensures
        ((13u32 << 28u32) | (a << 25u32) | v) >> 28u32 == 13,
        (((13u32 << 28u32) | (a << 25u32) | v) >> 25u32) & 7u32 == a,
        ((13u32 << 28u32) | (a << 25u32) | v) & 0x1FF_FFFFu32 == v,
{
    assert(((13u32 << 28u32) | (a << 25u32) | v) >> 28u32 == 13) by (bit_vector)
        requires
            a < 8,
            v < 0x200_0000,
    ;
    assert((((13u32 << 28u32) | (a << 25u32) | v) >> 25u32) & 7u32 == a) by (bit_vector)
        requires
            a < 8,
            v < 0x200_0000,
    ;
    assert(((13u32 << 28u32) | (a << 25u32) | v) & 0x1FF_FFFFu32 == v) by (bit_vector)
        requires
            v < 0x200_0000,
    ;
}

/// Every word decodes to a well-formed instruction.
pub proof fn lemma_decode_wf(w: u32)
    ensures
        decode(w).wf(),
{
    assert((w & 7u32) < 8 && ((w >> 3u32) & 7u32) < 8 && ((w >> 6u32) & 7u32) < 8) by (bit_vector);
    assert(((w >> 25u32) & 7u32) < 8 && (w & 0x1FF_FFFFu32) < 0x200_0000) by (bit_vector);
}

/// Decoding the word of a well-formed instruction gives that instruction back.
pub proof fn lemma_decode_encode(i: Instruction)
    requires
        i.wf(),
    ensures
        decode(encode(i)) == i,
{
    match i {
        Instruction::Ortho(o) => {
            lemma_ortho_fields(o.a as u32, o.value);
        },
        Instruction::Illegal(w) => {},
        _ => {
            let (op, p) = standard_parts(i);
            lemma_standard_fields(op, p.a as u32, p.b as u32, p.c as u32);
        },
    }
}

} // verus!
