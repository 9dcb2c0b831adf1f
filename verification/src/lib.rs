//! Execution core of a small 8-bit accumulator machine of the 6502 family.
//!
//! The machine state is a [`CPU`]; a program is a sequence of bytes. The
//! mathematical model of a run lives in [`semantics`], the executable
//! interpreter in [`cpu`], the theorems about the model in [`laws`], and the
//! theory of which runs come to a stop in [`termination`].

pub mod cpu;
pub mod flags;
pub mod instruction;
pub mod laws;
pub mod semantics;
pub mod termination;

pub use cpu::CPU;
pub use flags::{Flags, NEGATIVE_FLAG, RESERVED_BITS, ZERO_FLAG};
pub use instruction::{Fault, Instruction, BRK_OPCODE, INX_OPCODE, LDA_OPCODE, TAX_OPCODE};
pub use semantics::Step;
pub use termination::STEP_BOUND;
