//! Drives a machine for a host in batches of a bounded number of steps, collects its
//! output, and tunes the batch size to the time a batch takes.
use vstd::prelude::*;

use crate::codec::words_of;
use crate::machine::{boot, next, Machine, MachineView, Step};

verus! {

/// The batch size a runner starts with.
pub const INITIAL_CLOCK: u32 = 100_000;

/// A command from the host.
#[derive(Debug, PartialEq, Eq)]
pub enum Request {
    /// Fetch the program image at this address and boot it.
    BootFrom(String),
    /// Values for the machine to read: bytes, or the end-of-input value.
    Input(Vec<u32>),
    /// Drop the machine.
    Shutdown,
    /// Report progress and hand over the output.
    Status,
}

/// A reply to the host.
#[derive(Debug, PartialEq, Eq)]
pub enum Response {
    Status { finger: usize, halted: bool, cycles: u64, clock: u32, output: Vec<u8> },
}

/// An event from the runner's own services.
#[derive(Debug, PartialEq, Eq)]
pub enum MachineMsg {
    /// Time for the next batch.
    Tick,
    /// The fetched image has arrived.
    BootAs(Vec<u8>),
}

/// What the host is to do after a request.
#[derive(Debug, PartialEq, Eq)]
pub enum Action {
    Nothing,
    Reply(Response),
    /// Fetch the image at this address and report it with `MachineMsg::BootAs`.
    Fetch(String),
}

/// The runner's state as values.
pub struct RunnerView {
    pub machine: Option<MachineView>,
    pub buffer: Seq<u8>,
    pub clock: u32,
    pub cycles: u64,
    pub fetching: bool,
}

/// Runs at most `n` steps from `s`, and stops early at a step that halts, faults or
/// leaves the finger where it was (an `In` waiting for input). Gives the state
/// reached, the number of steps that ran on, and how the last step ended.
pub open spec fn batch(s: MachineView, n: nat) -> (MachineView, nat, Step)
    decreases n,
{
    if n == 0 {
        (s, 0, Step::Continue)
    } else {
        let (t, r) = next(s);
        if r != Step::Continue {
            (t, 0, r)
        } else if t.finger == s.finger {
            (t, 0, Step::Continue)
        } else {
            let (u, c, e) = batch(t, (n - 1) as nat);
            (u, c + 1, e)
        }
    }
}

/// The batch size after a full batch that took `elapsed` milliseconds: unchanged
/// within 80 to 90 ms, else scaled by 100 / (elapsed + 10), and kept between 1 and
/// `u32::MAX`.
pub open spec fn recalibrated(clock: u32, elapsed: u64) -> u32 {
    if 80 <= elapsed <= 90 {
        clock
    } else {
        let v = (clock * 100) / (elapsed + 10);
        if v < 1 {
            1
        } else if v > u32::MAX {
            u32::MAX
        } else {
            v as u32
        }
    }
}

/// The step count after adding `c` more, held at `u64::MAX` at the top.
pub open spec fn counted(cycles: u64, c: nat) -> u64 {
    if cycles + c > u64::MAX {
        u64::MAX
    } else {
        (cycles + c) as u64
    }
}

/// Runs `machine` for at most `iters` steps, as `batch` says: gives the number of
/// steps that ran on and how the last one ended.
pub fn run(machine: &mut Machine, iters: u32) -> (r: (u32, Step))
    requires
        old(machine).wf(),
    ensures
        final(machine).wf(),
        batch(old(machine)@, iters as nat) == (final(machine)@, r.0 as nat, r.1),
{
    let mut count: u32 = 0;
    let mut left: u32 = iters;
    while left > 0
        invariant
            machine.wf(),
            count as nat + left as nat == iters as nat,
            ({
                let (u, c, e) = batch(machine@, left as nat);
                batch(old(machine)@, iters as nat) == (u, (c + count) as nat, e)
            }),
        decreases left,
    {
        let before = machine.finger();
        match machine.step() {
            Step::Continue => {},
            other => return (count, other),
        }
        if machine.finger() == before {
            return (count, Step::Continue);
        }
        count = count + 1;
        left = left - 1;
    }
    (count, Step::Continue)
}

/// A runner: at most one machine, the output collected from it, the batch size, the
/// steps run since boot, and whether an image is being fetched.
pub struct WebMachine {
    machine: Option<Machine>,
    buffer: Vec<u8>,
    clock: u32,
    cycles: u64,
    fetching: bool,
}

impl View for WebMachine {
    type V = RunnerView;

    closed spec fn view(&self) -> RunnerView {
        RunnerView {
            machine: match self.machine {
                Some(m) => Some(m@),
                None => None,
            },
            buffer: self.buffer@,
            clock: self.clock,
            cycles: self.cycles,
            fetching: self.fetching,
        }
    }
}

impl WebMachine {
    /// The machine, if any, is well formed and the batch size is positive.
    pub closed spec fn wf(&self) -> bool {
        &&& self.clock >= 1
        &&& self.machine matches Some(m) ==> m.wf()
    }

    /// A runner with no machine, no output and the initial batch size.
    pub fn new() -> (w: WebMachine)
        ensures
            w.wf(),
            w@ == (RunnerView {
                machine: None,
                buffer: Seq::empty(),
                clock: INITIAL_CLOCK,
                cycles: 0,
                fetching: false,
            }),
    {
        WebMachine {
            machine: None,
            buffer: Vec::new(),
            clock: INITIAL_CLOCK,
            cycles: 0,
            fetching: false,
        }
    }

    /// Rescales the batch size after a full batch that took `elapsed` milliseconds.
    pub fn set_clock(&mut self, elapsed: u64)
        requires
            old(self).wf(),
        ensures
            final(self).wf(),
            final(self)@ == (RunnerView {
                clock: recalibrated(old(self)@.clock, elapsed),
                ..old(self)@
            }),
    {
        if elapsed > 90 || elapsed < 80 {
            let scaled: u128 = (self.clock as u128 * 100) / (elapsed as u128 + 10);
            self.clock = if scaled < 1 {
                1
            } else if scaled > u32::MAX as u128 {
                u32::MAX
            } else {
                scaled as u32
            };
        }
    }

    /// Handles an event of the runner's own: on `Tick`, runs a batch of at most `clock`
    /// steps, moves the machine's output to the buffer, counts the steps, and drops a
    /// machine that halted or faulted; on `BootAs`, boots a fresh machine on the image.
    /// Returns whether a whole batch ran, after which the host times it for `set_clock`.
    pub fn update(&mut self, msg: MachineMsg) -> (full: bool)
        requires
            old(self).wf(),
        ensures
            final(self).wf(),
            match msg {
                MachineMsg::Tick => match old(self)@.machine {
                    None => final(self)@ == old(self)@ && !full,
                    Some(m) => {
                        let (t, c, e) = batch(m, old(self)@.clock as nat);
                        &&& final(self)@ == (RunnerView {
                            machine: if e == Step::Continue {
                                Some(MachineView { output: Seq::empty(), ..t })
                            } else {
                                None
                            },
                            buffer: old(self)@.buffer + t.output,
                            cycles: counted(old(self)@.cycles, c),
                            ..old(self)@
                        })
                        &&& full == (e == Step::Continue && c == old(self)@.clock)
                    },
                },
                MachineMsg::BootAs(image) => {
                    &&& final(self)@ == (RunnerView {
                        machine: Some(boot(words_of(image@))),
                        buffer: Seq::empty(),
                        cycles: 0,
                        fetching: false,
                        ..old(self)@
                    })
                    &&& !full
                },
            },
    {
        match msg {
            MachineMsg::Tick => {
                match self.machine.take() {
                    None => false,
                    Some(m) => {
                        let mut m = m;
                        let (c, e) = run(&mut m, self.clock);
                        let mut out = m.take_output();
                        self.buffer.append(&mut out);
                        self.cycles = self.cycles.saturating_add(c as u64);
                        match e {
                            Step::Continue => {
                                self.machine = Some(m);
                                c == self.clock
                            },
                            _ => false,
                        }
                    },
                }
            },
            MachineMsg::BootAs(image) => {
                self.fetching = false;
                self.machine = Some(Machine::new(image.as_slice()));
                self.cycles = 0;
                self.buffer = Vec::new();
                false
            },
        }
    }

    /// Handles a command from the host.
    pub fn handle(&mut self, msg: Request) -> (a: Action)
        requires
            old(self).wf(),
        ensures
            final(self).wf(),
            match msg {
                Request::Status => {
                    &&& a matches Action::Reply(
                        Response::Status { finger, halted, cycles, clock, output },
                    )
                    &&& finger == match old(self)@.machine {
                        Some(m) => m.finger,
                        None => 0,
                    }
                    &&& halted == old(self)@.machine is None
                    &&& cycles == old(self)@.cycles
                    &&& clock == old(self)@.clock
                    &&& output@ == old(self)@.buffer
                    &&& final(self)@ == (RunnerView { buffer: Seq::empty(), ..old(self)@ })
                },
                Request::Input(values) => {
                    &&& a == Action::Nothing
                    &&& final(self)@ == (RunnerView {
                        machine: match old(self)@.machine {
                            Some(m) => Some(MachineView { input: m.input + values@, ..m }),
                            None => None,
                        },
                        ..old(self)@
                    })
                },
                Request::BootFrom(url) => if old(self)@.fetching {
                    a == Action::Nothing && final(self)@ == old(self)@
                } else {
                    &&& a == Action::Fetch(url)
                    &&& final(self)@ == (RunnerView {
                        machine: None,
                        buffer: Seq::empty(),
                        cycles: 0,
                        fetching: true,
                        ..old(self)@
                    })
                },
                Request::Shutdown => {
                    &&& a == Action::Nothing
                    &&& final(self)@ == (RunnerView {
                        machine: None,
                        buffer: Seq::empty(),
                        cycles: 0,
                        ..old(self)@
                    })
                },
            },
    {
        match msg {
            Request::Status => {
                let finger = match &self.machine {
                    Some(m) => m.finger(),
                    None => 0,
                };
                let mut output: Vec<u8> = Vec::new();
                std::mem::swap(&mut self.buffer, &mut output);
                Action::Reply(
                    Response::Status {
                        finger,
                        halted: self.machine.is_none(),
                        cycles: self.cycles,
                        clock: self.clock,
                        output,
                    },
                )
            },
            Request::Input(values) => {
                if let Some(m) = self.machine.take() {
                    let mut m = m;
                    let ghost start = m@;
                    let mut i: usize = 0;
                    while i < values.len()
                        invariant
                            m.wf(),
                            i <= values@.len(),
                            m@ == (MachineView { input: start.input + values@.take(i as int), ..start }),
                        decreases values@.len() - i,
                    {
                        m.push_input(values[i]);
                        assert(start.input + values@.take(i + 1) =~= (start.input + values@.take(i as int)).push(values@[i as int]));
                        i = i + 1;
                    }
                    assert(values@.take(values@.len() as int) =~= values@);
                    self.machine = Some(m);
                }
                Action::Nothing
            },
            Request::BootFrom(url) => {
                if self.fetching {
                    Action::Nothing
                } else {
                    self.cycles = 0;
                    self.buffer = Vec::new();
                    self.machine = None;
                    self.fetching = true;
                    Action::Fetch(url)
                }
            },
            Request::Shutdown => {
                self.cycles = 0;
                self.buffer = Vec::new();
                self.machine = None;
                Action::Nothing
            },
        }
    }
}

} // verus!
