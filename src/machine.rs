//! The machine: eight registers, a finger into the program, the array heap and two
//! byte channels, one instruction at a time.
use std::collections::VecDeque;
use vstd::prelude::*;

use crate::codec::{read_scroll, words_of};
use crate::heap::{zeros, Fault, Heap, IDENTIFIERS};
use crate::instruction::{decode, lemma_decode_wf, Instruction, Pointers};

verus! {

/// The value that an `In` instruction delivers once input has ended.
pub const END_OF_INPUT: u32 = 0xFFFF_FFFF;

/// What one step of the machine came to.
#[derive(Debug, Clone, Copy, PartialEq, Eq, Structural)]
pub enum Step {
    /// The instruction ran, or an `In` found no input and will run again.
    Continue,
    /// The machine reached `Halt`.
    Halt,
    /// The machine faulted and must not run on.
    Fault(Fault),
}

/// The whole state of a machine, as values.
pub struct MachineView {
    pub finger: int,
    pub regs: Seq<u32>,
    pub arrays: Seq<Option<Seq<u32>>>,
    pub free: Seq<usize>,
    pub input: Seq<u32>,
    pub output: Seq<u8>,
}

impl MachineView {
    /// Whether `k` names a live array.
    pub open spec fn is_live(self, k: u32) -> bool {
        k < self.arrays.len() && self.arrays[k as int] is Some
    }

    /// The words of array `k`.
    pub open spec fn array(self, k: u32) -> Seq<u32> {
        self.arrays[k as int]->0
    }

    /// Register `r`.
    pub open spec fn reg(self, r: usize) -> u32 {
        self.regs[r as int]
    }

    /// The same state with register `r` set to `v`.
    pub open spec fn with_reg(self, r: usize, v: u32) -> MachineView {
        MachineView { regs: self.regs.update(r as int, v), ..self }
    }
}

/// The state of a freshly booted machine running `scroll`.
pub open spec fn boot(scroll: Seq<u32>) -> MachineView {
    MachineView {
        finger: 0,
        regs: Seq::new(8, |i: int| 0u32),
        arrays: seq![Some(scroll)],
        free: Seq::empty(),
        input: Seq::empty(),
        output: Seq::empty(),
    }
}

/// The identifier that an allocation of `n` words receives and the state after it:
/// the most recently abandoned identifier if any wait, else the next unused one.
pub open spec fn allocation(s: MachineView, n: nat) -> Option<(u32, MachineView)> {
    if s.free.len() > 0 {
        let k = s.free.last();
        Some(
            (
                k as u32,
                MachineView {
                    arrays: s.arrays.update(k as int, Some(zeros(n))),
                    free: s.free.drop_last(),
                    ..s
                },
            ),
        )
    } else if s.arrays.len() < IDENTIFIERS {
        Some(
            (
                s.arrays.len() as u32,
                MachineView { arrays: s.arrays.push(Some(zeros(n))), ..s },
            ),
        )
    } else {
        None
    }
}

/// Carries out an instruction on a state whose finger has already moved past it.
pub open spec fn execute(s: MachineView, i: Instruction) -> (MachineView, Step) {
    match i {
        Instruction::Move(p) => (
            if s.reg(p.c) != 0 {
                s.with_reg(p.a, s.reg(p.b))
            } else {
                s
            },
            Step::Continue,
        ),
        Instruction::Index(p) => {
            let (k, j) = (s.reg(p.b), s.reg(p.c));
            if !s.is_live(k) {
                (s, Step::Fault(Fault::InactiveArray))
            } else if j >= s.array(k).len() {
                (s, Step::Fault(Fault::IndexOutOfBounds))
            } else {
                (s.with_reg(p.a, s.array(k)[j as int]), Step::Continue)
            }
        },
        Instruction::Amend(p) => {
            let (k, j) = (s.reg(p.a), s.reg(p.b));
            if !s.is_live(k) {
                (s, Step::Fault(Fault::InactiveArray))
            } else if j >= s.array(k).len() {
                (s, Step::Fault(Fault::IndexOutOfBounds))
            } else {
                (
                    MachineView {
                        arrays: s.arrays.update(
                            k as int,
                            Some(s.array(k).update(j as int, s.reg(p.c))),
                        ),
                        ..s
                    },
                    Step::Continue,
                )
            }
        },
        Instruction::Add(p) => (
            s.with_reg(p.a, ((s.reg(p.b) + s.reg(p.c)) % 0x1_0000_0000) as u32),
            Step::Continue,
        ),
        Instruction::Mul(p) => (
            s.with_reg(p.a, ((s.reg(p.b) * s.reg(p.c)) % 0x1_0000_0000) as u32),
            Step::Continue,
        ),
        Instruction::Div(p) => if s.reg(p.c) == 0 {
            (s, Step::Fault(Fault::DivideByZero))
        } else {
            (s.with_reg(p.a, (s.reg(p.b) / s.reg(p.c)) as u32), Step::Continue)
        },
        Instruction::Nand(p) => (s.with_reg(p.a, !(s.reg(p.b) & s.reg(p.c))), Step::Continue),
        Instruction::Halt(_) => (s, Step::Halt),
        Instruction::Allocate(p) => match allocation(s, s.reg(p.c) as nat) {
            Some((k, t)) => (t.with_reg(p.b, k), Step::Continue),
            None => (s, Step::Fault(Fault::IdentifiersExhausted)),
        },
        Instruction::Abandon(p) => {
            let k = s.reg(p.c);
            if k == 0 {
                (s, Step::Fault(Fault::AbandonedProgram))
            } else if !s.is_live(k) {
                (s, Step::Fault(Fault::InactiveArray))
            } else {
                (
                    MachineView {
                        arrays: s.arrays.update(k as int, None),
                        free: s.free.push(k as usize),
                        ..s
                    },
                    Step::Continue,
                )
            }
        },
        Instruction::Out(p) => (
            MachineView { output: s.output.push((s.reg(p.c) % 256) as u8), ..s },
            Step::Continue,
        ),
        Instruction::In(p) => if s.input.len() == 0 {
            (MachineView { finger: s.finger - 1, ..s }, Step::Continue)
        } else {
            (
                MachineView { input: s.input.drop_first(), ..s }.with_reg(p.c, s.input[0]),
                Step::Continue,
            )
        },
        Instruction::Load(p) => {
            let k = s.reg(p.b);
            if k == 0 {
                (MachineView { finger: s.reg(p.c) as int, ..s }, Step::Continue)
            } else if !s.is_live(k) {
                (s, Step::Fault(Fault::InactiveArray))
            } else {
                (
                    MachineView {
                        finger: s.reg(p.c) as int,
                        arrays: s.arrays.update(0, Some(s.array(k))),
                        ..s
                    },
                    Step::Continue,
                )
            }
        },
        Instruction::Ortho(o) => (s.with_reg(o.a, o.value), Step::Continue),
        Instruction::Illegal(_) => (s, Step::Fault(Fault::IllegalInstruction)),
    }
}

/// One step: fetch the word under the finger, move the finger past it, and carry it out.
pub open spec fn next(s: MachineView) -> (MachineView, Step) {
    let scroll = s.array(0);
    if 0 <= s.finger < scroll.len() {
        execute(MachineView { finger: s.finger + 1, ..s }, decode(scroll[s.finger]))
    } else {
        (s, Step::Fault(Fault::FingerOutOfBounds))
    }
}

/// A running machine: its registers, its finger, its arrays, the input that waits to
/// be read and the output that waits to be taken.
pub struct Machine {
    fin: usize,
    reg: [u32; 8],
    heap: Heap,
    inbox: VecDeque<u32>,
    outbox: Vec<u8>,
}

impl View for Machine {
    type V = MachineView;

    closed spec fn view(&self) -> MachineView {
        MachineView {
            finger: self.fin as int,
            regs: self.reg@,
            arrays: self.heap.arrays(),
            free: self.heap.free(),
            input: self.inbox@,
            output: self.outbox@,
        }
    }
}

impl Machine {
    /// The heap is well formed.
    pub closed spec fn wf(&self) -> bool {
        self.heap.wf()
    }

    /// What well-formedness gives a caller: eight registers, a live array 0,
    /// identifiers that fit in 32 bits, and a free stack that holds each abandoned
    /// non-zero identifier exactly once.
    pub proof fn lemma_wf(&self)
        requires
            self.wf(),
        ensures
            self@.regs.len() == 8,
            self@.is_live(0),
            1 <= self@.arrays.len() <= IDENTIFIERS,
            self@.free.no_duplicates(),
            forall|j: int|
                0 <= j < self@.free.len() ==> 0 < #[trigger] self@.free[j] < self@.arrays.len()
                    && !self@.is_live(self@.free[j] as u32),
            forall|k: int|
                0 < k < self@.arrays.len() && !self@.is_live(k as u32)
                    ==> #[trigger] self@.free.contains(k as usize),
    {
        self.heap.lemma_wf();
    }

    /// Boots a machine on a program image: registers and finger zero, array 0 the
    /// image's words, no input and no output.
    pub fn new(image: &[u8]) -> (m: Machine)
        ensures
            m.wf(),
            m@ == boot(words_of(image@)),
    {
        let m = Machine {
            fin: 0,
            reg: [0u32; 8],
            heap: Heap::new(read_scroll(image)),
            inbox: VecDeque::new(),
            outbox: Vec::new(),
        };
        assert(m@.regs =~= boot(words_of(image@)).regs);
        m
    }

    /// The instruction under the finger.
    fn instruction(&self) -> (r: Result<Instruction, Fault>)
        requires
            self.wf(),
        ensures
            r == (if self@.finger < self@.array(0).len() {
                Ok(decode(self@.array(0)[self@.finger]))
            } else {
                Err(Fault::FingerOutOfBounds)
            }),
            r matches Ok(i) ==> i.wf(),
            self@.array(0).len() <= usize::MAX,
    {
        match self.heap.scroll_word(self.fin) {
            Some(w) => {
                proof {
                    lemma_decode_wf(w);
                }
                Ok(Instruction::from(w))
            },
            None => Err(Fault::FingerOutOfBounds),
        }
    }

    /// Fetches the instruction under the finger and moves the finger past it.
    fn advance(&mut self) -> (r: Result<Instruction, Fault>)
        requires
            old(self).wf(),
        ensures
            final(self).wf(),
            r == (if old(self)@.finger < old(self)@.array(0).len() {
                Ok(decode(old(self)@.array(0)[old(self)@.finger]))
            } else {
                Err(Fault::FingerOutOfBounds)
            }),
            r matches Ok(i) ==> i.wf(),
            r is Ok ==> final(self)@ == (MachineView { finger: old(self)@.finger + 1, ..old(self)@ }),
            r is Err ==> *final(self) == *old(self),
    {
        let instruction = self.instruction()?;
        self.fin = self.fin + 1;
        Ok(instruction)
    }

    /// Runs one instruction, as `next` says. `Out` writes the low 8 bits of its
    /// register: a value above 255 is masked, not a fault. `In` with no input waiting
    /// moves the finger back onto itself, so it runs again on the next step.
    pub fn step(&mut self) -> (r: Step)
        requires
            old(self).wf(),
        ensures
            final(self).wf(),
            (final(self)@, r) == next(old(self)@),
    {
        let instruction = match self.advance() {
            Ok(i) => i,
            Err(e) => return Step::Fault(e),
        };
        let ghost s = self@;
        match instruction {
            Instruction::Move(p) => {
                if self.reg[p.c] != 0 {
                    self.reg[p.a] = self.reg[p.b];
                }
                Step::Continue
            },
            Instruction::Index(p) => match self.heap.index(self.reg[p.b], self.reg[p.c]) {
                Ok(v) => {
                    self.reg[p.a] = v;
                    Step::Continue
                },
                Err(e) => Step::Fault(e),
            },
            Instruction::Amend(p) => match self.heap.amend(self.reg[p.a], self.reg[p.b], self.reg[p.c]) {
                Ok(()) => Step::Continue,
                Err(e) => Step::Fault(e),
            },
            Instruction::Add(p) => {
                self.reg[p.a] = self.reg[p.b].wrapping_add(self.reg[p.c]);
                Step::Continue
            },
            Instruction::Mul(p) => {
                self.reg[p.a] = self.reg[p.b].wrapping_mul(self.reg[p.c]);
                Step::Continue
            },
            Instruction::Div(p) => {
                if self.reg[p.c] == 0 {
                    Step::Fault(Fault::DivideByZero)
                } else {
                    self.reg[p.a] = self.reg[p.b] / self.reg[p.c];
                    Step::Continue
                }
            },
            Instruction::Nand(p) => {
                self.reg[p.a] = !(self.reg[p.b] & self.reg[p.c]);
                Step::Continue
            },
            Instruction::Halt(_) => Step::Halt,
            Instruction::Allocate(p) => match self.heap.allocate(self.reg[p.c] as usize) {
                Ok(k) => {
                    self.reg[p.b] = k;
                    Step::Continue
                },
                Err(e) => Step::Fault(e),
            },
            Instruction::Abandon(p) => match self.heap.abandon(self.reg[p.c]) {
                Ok(()) => Step::Continue,
                Err(e) => Step::Fault(e),
            },
            Instruction::Out(p) => {
                self.outbox.push((self.reg[p.c] % 256) as u8);
                Step::Continue
            },
            Instruction::In(p) => {
                match self.inbox.pop_front() {
                    Some(v) => self.reg[p.c] = v,
                    None => self.fin = self.fin - 1,
                }
                Step::Continue
            },
            Instruction::Load(p) => {
                let k = self.reg[p.b];
                if k != 0 {
                    if let Err(e) = self.heap.load(k) {
                        return Step::Fault(e);
                    }
                }
                self.fin = self.reg[p.c] as usize;
                Step::Continue
            },
            Instruction::Ortho(o) => {
                self.reg[o.a] = o.value;
                Step::Continue
            },
            Instruction::Illegal(_) => Step::Fault(Fault::IllegalInstruction),
        }
    }

    /// The position of the next instruction in array 0.
    pub fn finger(&self) -> (r: usize)
        ensures
            r == self@.finger,
    {
        self.fin
    }

    /// Register `r`.
    pub fn register(&self, r: usize) -> (v: u32)
        requires
            r < 8,
        ensures
            v == self@.reg(r),
    {
        self.reg[r]
    }

    /// The machine's arrays.
    pub fn heap(&self) -> (h: &Heap)
        requires
            self.wf(),
        ensures
            h.wf(),
            h.arrays() == self@.arrays,
            h.free() == self@.free,
    {
        &self.heap
    }

    /// Queues a value for `In` to read: a byte, or `END_OF_INPUT` once input has ended.
    pub fn push_input(&mut self, v: u32)
        requires
            old(self).wf(),
        ensures
            final(self).wf(),
            final(self)@ == (MachineView { input: old(self)@.input.push(v), ..old(self)@ }),
    {
        self.inbox.push_back(v);
    }

    /// Hands over the bytes written since the last call, in the order written.
    pub fn take_output(&mut self) -> (out: Vec<u8>)
        requires
            old(self).wf(),
        ensures
            final(self).wf(),
            out@ == old(self)@.output,
            final(self)@ == (MachineView { output: Seq::empty(), ..old(self)@ }),
    {
        let mut out: Vec<u8> = Vec::new();
        std::mem::swap(&mut self.outbox, &mut out);
        out
    }
}

/// Runs one instruction of a machine that is handed over; gives it back unless the
/// instruction halted it or faulted.
pub fn spin(machine: Machine) -> (r: Option<Machine>)
    requires
        machine.wf(),
    ensures
        match r {
            Some(m) => m.wf() && next(machine@) == (m@, Step::Continue),
            None => next(machine@).1 != Step::Continue,
        },
{
    let mut machine = machine;
    match machine.step() {
        Step::Continue => Some(machine),
        _ => None,
    }
}

/// After a `Load` from a live array other than 0, array 0 is an element-wise copy of
/// that array, the array itself is unchanged, and the finger is the value of the
/// third register field.
pub proof fn lemma_load_copies(s: MachineView, p: Pointers)
    requires
        0 <= s.finger < s.array(0).len(),
        decode(s.array(0)[s.finger]) == Instruction::Load(p),
        s.reg(p.b) != 0,
        s.is_live(s.reg(p.b)),
    ensures
        ({
            let (t, r) = next(s);
            let k = s.reg(p.b);
            &&& r == Step::Continue
            &&& t.is_live(0)
            &&& t.array(0).len() == s.array(k).len()
            &&& forall|i: int| 0 <= i < s.array(k).len() ==> t.array(0)[i] == s.array(k)[i]
            &&& t.arrays[k as int] == s.arrays[k as int]
            &&& t.finger == s.reg(p.c)
        }),
{
}

/// An `In` leaves the finger on itself exactly when no input waits, and otherwise
/// moves on with the first waiting value in its register.
pub proof fn lemma_input_suspends(s: MachineView, p: Pointers)
    requires
        0 <= s.finger < s.array(0).len(),
        decode(s.array(0)[s.finger]) == Instruction::In(p),
        s.regs.len() == 8,
    ensures
        ({
            let (t, r) = next(s);
            &&& r == Step::Continue
            &&& (t.finger == s.finger) == (s.input.len() == 0)
            &&& s.input.len() == 0 ==> t == s
            &&& s.input.len() > 0 ==> t.finger == s.finger + 1 && t.reg(p.c) == s.input[0]
                && t.input == s.input.drop_first()
        }),
{
    lemma_decode_wf(s.array(0)[s.finger]);
}

/// The state after an instruction that sets register `a` to `v`: every other
/// register, the arrays, the free stack and both channels are as before, and the
/// finger has moved on by one.
pub open spec fn sets_register(s: MachineView, t: MachineView, a: usize, v: u32) -> bool {
    &&& t.regs.len() == 8
    &&& t.reg(a) == v
    &&& forall|i: int| 0 <= i < 8 && i != a ==> t.regs[i] == s.regs[i]
    &&& t.finger == s.finger + 1
    &&& t.arrays == s.arrays
    &&& t.free == s.free
    &&& t.input == s.input
    &&& t.output == s.output
}

/// For all register values, `Add` and `Mul` compute modulo 2^32 and `Nand` is the
/// complement of the bitwise and; nothing else changes but the finger.
pub proof fn lemma_arithmetic(s: MachineView, p: Pointers)
    requires
        0 <= s.finger < s.array(0).len(),
        s.regs.len() == 8,
    ensures
        ({
            let (x, y) = (s.reg(p.b), s.reg(p.c));
            let (t, r) = next(s);
            &&& decode(s.array(0)[s.finger]) == Instruction::Add(p) ==> r == Step::Continue
                && sets_register(s, t, p.a, ((x + y) % 0x1_0000_0000) as u32)
            &&& decode(s.array(0)[s.finger]) == Instruction::Mul(p) ==> r == Step::Continue
                && sets_register(s, t, p.a, ((x * y) % 0x1_0000_0000) as u32)
            &&& decode(s.array(0)[s.finger]) == Instruction::Nand(p) ==> r == Step::Continue
                && sets_register(s, t, p.a, !(x & y))
        }),
{
    lemma_decode_wf(s.array(0)[s.finger]);
}

} // verus!
