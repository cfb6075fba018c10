//! The array heap: arrays of words named by 32-bit identifiers, with identifier 0
//! holding the running program.
use vstd::prelude::*;

verus! {

/// Why the machine stopped with a fault.
#[derive(Debug, Clone, Copy, PartialEq, Eq, Structural)]
pub enum Fault {
    /// The finger points past the end of the program.
    FingerOutOfBounds,
    /// The word under the finger has operation number 14 or 15.
    IllegalInstruction,
    /// The identifier names no live array.
    InactiveArray,
    /// The offset lies past the end of the array.
    IndexOutOfBounds,
    /// The program tried to abandon array 0.
    AbandonedProgram,
    /// Every 32-bit identifier is in use.
    IdentifiersExhausted,
    /// Division by zero.
    DivideByZero,
}

/// An array of `n` zero words.
pub open spec fn zeros(n: nat) -> Seq<u32> {
    Seq::new(n, |i: int| 0u32)
}

/// The number of distinct 32-bit identifiers.
pub const IDENTIFIERS: u64 = 0x1_0000_0000;

/// All arrays of a machine. Slot `k` holds the array named `k` while it is live; the
/// identifiers of abandoned slots wait on a stack and are handed out again last in,
/// first out.
pub struct Heap {
    stacks: Vec<Vec<u32>>,
    live: Vec<bool>,
    available: Vec<usize>,
}

impl Heap {
    /// Slot `k`: the array's words while it is live, `None` once it is abandoned.
    pub closed spec fn arrays(&self) -> Seq<Option<Seq<u32>>> {
        Seq::new(
            self.stacks@.len(),
            |k: int| if self.live@[k] { Some(self.stacks@[k]@) } else { None },
        )
    }

    /// The abandoned identifiers waiting for reuse; the last is handed out first.
    pub closed spec fn free(&self) -> Seq<usize> {
        self.available@
    }

    /// Whether `k` names a live array.
    pub open spec fn is_live(&self, k: int) -> bool {
        0 <= k < self.arrays().len() && self.arrays()[k] is Some
    }

    /// The words of the live array `k`.
    pub open spec fn array(&self, k: int) -> Seq<u32> {
        self.arrays()[k]->0
    }

    /// Slot 0 is live, every slot has a 32-bit identifier, and the free stack holds
    /// each abandoned identifier exactly once.
    pub closed spec fn wf(&self) -> bool {
        &&& self.stacks@.len() == self.live@.len()
        &&& 1 <= self.stacks@.len() <= IDENTIFIERS
        &&& self.live@[0]
        &&& self.available@.no_duplicates()
        &&& forall|j: int|
            0 <= j < self.available@.len() ==> {
                let k = #[trigger] self.available@[j];
                0 < k < self.stacks@.len() && !self.live@[k as int]
            }
        &&& forall|k: int|
            0 < k < self.stacks@.len() && !#[trigger] self.live@[k] ==> self.available@.contains(
                k as usize,
            )
    }

    /// What well-formedness gives a caller: array 0 is live, identifiers fit in 32
    /// bits, and the free stack holds each abandoned non-zero identifier exactly once.
    pub proof fn lemma_wf(&self)
        requires
            self.wf(),
        ensures
            self.is_live(0),
            1 <= self.arrays().len() <= IDENTIFIERS,
            self.free().no_duplicates(),
            forall|j: int|
                0 <= j < self.free().len() ==> 0 < #[trigger] self.free()[j] < self.arrays().len()
                    && !self.is_live(self.free()[j] as int),
            forall|k: int|
                0 < k < self.arrays().len() && !self.is_live(k) ==> #[trigger] self.free().contains(
                    k as usize,
                ),
    {
    }

    /// A heap whose only array is the program.
    pub fn new(scroll: Vec<u32>) -> (h: Heap)
        ensures
            h.wf(),
            h.arrays() == seq![Some(scroll@)],
            h.free() == Seq::<usize>::empty(),
    {
        let mut stacks: Vec<Vec<u32>> = Vec::new();
        let ghost s = scroll@;
        stacks.push(scroll);
        let mut live: Vec<bool> = Vec::new();
        live.push(true);
        let h = Heap { stacks, live, available: Vec::new() };
        assert(h.arrays() =~= seq![Some(s)]);
        h
    }

    /// Word `i` of the program, if there is one.
    pub fn scroll_word(&self, i: usize) -> (r: Option<u32>)
        requires
            self.wf(),
        ensures
            r == (if i < self.array(0).len() {
                Some(self.array(0)[i as int])
            } else {
                None
            }),
            self.array(0).len() <= usize::MAX,
    {
        if i < self.stacks[0].len() {
            Some(self.stacks[0][i])
        } else {
            None
        }
    }

    /// The length of the live array `k`.
    pub fn length(&self, k: u32) -> (r: Result<usize, Fault>)
        requires
            self.wf(),
        ensures
            r == (if self.is_live(k as int) {
                Ok(self.array(k as int).len() as usize)
            } else {
                Err(Fault::InactiveArray)
            }),
    {
        let k = k as usize;
        if k < self.stacks.len() && self.live[k] {
            Ok(self.stacks[k].len())
        } else {
            Err(Fault::InactiveArray)
        }
    }

    /// Creates an array of `n` zero words under an identifier that is not live: the
    /// last abandoned one if any wait, else the next unused one.
    pub fn allocate(&mut self, n: usize) -> (r: Result<u32, Fault>)
        requires
            old(self).wf(),
        ensures
            final(self).wf(),
            match r {
                Ok(k) => {
                    &&& k != 0
                    &&& (k as int) < final(self).arrays().len()
                    &&& !old(self).is_live(k as int)
                    &&& final(self).is_live(k as int)
                    &&& final(self).array(k as int) == zeros(n as nat)
                    &&& if old(self).free().len() > 0 {
                        &&& k == old(self).free().last()
                        &&& (k as int) < old(self).arrays().len()
                        &&& final(self).free() == old(self).free().drop_last()
                        &&& final(self).arrays() == old(self).arrays().update(
                            k as int,
                            Some(zeros(n as nat)),
                        )
                    } else {
                        &&& k == old(self).arrays().len()
                        &&& final(self).free() == old(self).free()
                        &&& final(self).arrays() == old(self).arrays().push(Some(zeros(n as nat)))
                    }
                },
                Err(e) => {
                    &&& e == Fault::IdentifiersExhausted
                    &&& old(self).free().len() == 0
                    &&& old(self).arrays().len() == IDENTIFIERS
                    &&& *final(self) == *old(self)
                },
            },
    {
        if self.available.len() == 0 && self.stacks.len() as u64 >= IDENTIFIERS {
            return Err(Fault::IdentifiersExhausted);
        }
        let fresh: Vec<u32> = vec![0u32; n];
        assert(fresh@ =~= zeros(n as nat));
        let ghost before = self.arrays();
        match self.available.pop() {
            Some(key) => {
                self.stacks.set(key, fresh);
                self.live.set(key, true);
                proof {
                    assert(self.arrays() =~= before.update(key as int, Some(zeros(n as nat))));
                    assert forall|k: int|
                        0 < k < self.stacks@.len() && !#[trigger] self.live@[k] implies self.available@.contains(
                        k as usize,
                    ) by {
                        assert(old(self).available@.contains(k as usize));
                        let j = choose|j: int|
                            0 <= j < old(self).available@.len() && old(self).available@[j]
                                == k as usize;
                        if j == old(self).available@.len() - 1 {
                            assert(false);
                        } else {
                            assert(self.available@[j] == k as usize);
                        }
                    }
                }
                Ok(key as u32)
            },
            None => {
                let key = self.stacks.len();
                self.stacks.push(fresh);
                self.live.push(true);
                assert(self.arrays() =~= before.push(Some(zeros(n as nat))));
                Ok(key as u32)
            },
        }
    }

    /// Releases the live array `k`, other than the program, and puts its identifier on
    /// the free stack.
    pub fn abandon(&mut self, k: u32) -> (r: Result<(), Fault>)
        requires
            old(self).wf(),
        ensures
            final(self).wf(),
            r == (if k == 0 {
                Err(Fault::AbandonedProgram)
            } else if !old(self).is_live(k as int) {
                Err(Fault::InactiveArray)
            } else {
                Ok(())
            }),
            r is Ok ==> final(self).arrays() == old(self).arrays().update(k as int, None)
                && final(self).free() == old(self).free().push(k as usize),
            r is Err ==> *final(self) == *old(self),
    {
        let key = k as usize;
        if key == 0 {
            return Err(Fault::AbandonedProgram);
        }
        if key >= self.stacks.len() || !self.live[key] {
            return Err(Fault::InactiveArray);
        }
        let ghost before = self.arrays();
        self.stacks.set(key, Vec::new());
        self.live.set(key, false);
        self.available.push(key);
        proof {
            assert(self.arrays() =~= before.update(k as int, None));
            assert(!old(self).available@.contains(key));
            assert forall|j: int| 0 <= j < self.available@.len() - 1 implies #[trigger] self.available@[j] != key by {
                assert(old(self).available@[j] == self.available@[j]);
            }
            assert forall|k2: int|
                0 < k2 < self.stacks@.len() && !#[trigger] self.live@[k2] implies self.available@.contains(
                k2 as usize,
            ) by {
                if k2 == key {
                    assert(self.available@[self.available@.len() - 1] == key);
                } else {
                    let j = choose|j: int| 0 <= j < old(self).available@.len() && old(self).available@[j] == k2 as usize;
                    assert(self.available@[j] == k2 as usize);
                }
            }
        }
        Ok(())
    }

    /// Word `i` of the live array `k`.
    pub fn index(&self, k: u32, i: u32) -> (r: Result<u32, Fault>)
        requires
            self.wf(),
        ensures
            r == (if !self.is_live(k as int) {
                Err(Fault::InactiveArray)
            } else if i >= self.array(k as int).len() {
                Err(Fault::IndexOutOfBounds)
            } else {
                Ok(self.array(k as int)[i as int])
            }),
    {
        let key = k as usize;
        let i = i as usize;
        if key >= self.stacks.len() || !self.live[key] {
            Err(Fault::InactiveArray)
        } else if i >= self.stacks[key].len() {
            Err(Fault::IndexOutOfBounds)
        } else {
            Ok(self.stacks[key][i])
        }
    }

    /// Sets word `i` of the live array `k` to `v`.
    pub fn amend(&mut self, k: u32, i: u32, v: u32) -> (r: Result<(), Fault>)
        requires
            old(self).wf(),
        ensures
            final(self).wf(),
            final(self).free() == old(self).free(),
            r == (if !old(self).is_live(k as int) {
                Err(Fault::InactiveArray)
            } else if i >= old(self).array(k as int).len() {
                Err(Fault::IndexOutOfBounds)
            } else {
                Ok(())
            }),
            r is Ok ==> final(self).arrays() == old(self).arrays().update(
                k as int,
                Some(old(self).array(k as int).update(i as int, v)),
            ),
            r is Err ==> *final(self) == *old(self),
    {
        let key = k as usize;
        let i = i as usize;
        if key >= self.stacks.len() || !self.live[key] {
            return Err(Fault::InactiveArray);
        }
        if i >= self.stacks[key].len() {
            return Err(Fault::IndexOutOfBounds);
        }
        let ghost before = self.arrays();
        let mut target: Vec<u32> = Vec::new();
        self.stacks.set_and_swap(key, &mut target);
        target.set(i, v);
        self.stacks.set_and_swap(key, &mut target);
        assert(self.arrays() =~= before.update(
            k as int,
            Some(before[k as int]->0.update(i as int, v)),
        ));
        Ok(())
    }

    /// Replaces the program with a copy of the live array `k`, which stays as it is.
    pub fn load(&mut self, k: u32) -> (r: Result<(), Fault>)
        requires
            old(self).wf(),
        ensures
            final(self).wf(),
            final(self).free() == old(self).free(),
            r == (if old(self).is_live(k as int) {
                Ok(())
            } else {
                Err(Fault::InactiveArray)
            }),
            r is Ok ==> final(self).arrays() == old(self).arrays().update(
                0,
                Some(old(self).array(k as int)),
            ),
            r is Err ==> *final(self) == *old(self),
    {
        let key = k as usize;
        if key >= self.stacks.len() || !self.live[key] {
            return Err(Fault::InactiveArray);
        }
        let ghost before = self.arrays();
        let copy = self.stacks[key].clone();
        self.stacks.set(0, copy);
        assert(self.arrays() =~= before.update(0, Some(before[k as int]->0)));
        Ok(())
    }
}

} // verus!
