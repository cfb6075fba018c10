//! An interpreter for the Universal Machine: a register machine with eight
//! 32-bit registers, a heap of word arrays and fourteen instructions.

pub mod codec;
pub mod export;
pub mod heap;
pub mod instruction;
pub mod machine;
pub mod runner;

pub use codec::{as_u32, read_scroll, write_scroll};
pub use export::{ExportWatch, Route, SIG_EXPORT};
pub use heap::{Fault, Heap};
pub use instruction::{Instruction, OrthoPointers, Pointers};
pub use machine::{spin, Machine, Step, END_OF_INPUT};
pub use runner::{Action, MachineMsg, Request, Response, WebMachine};
