//! The instruction set: which opcode byte stands for which instruction.

use vstd::prelude::*;

verus! {

/// LDA with an immediate operand: load the accumulator.
pub const LDA_OPCODE: u8 = 0xA9;

/// TAX: copy the accumulator to the index register.
pub const TAX_OPCODE: u8 = 0xAA;

/// INX: add one to the index register.
pub const INX_OPCODE: u8 = 0xE8;

/// BRK: halt.
pub const BRK_OPCODE: u8 = 0x00;

/// The instructions that the machine can decode.
#[derive(Clone, Copy, Debug, PartialEq, Eq, Structural)]
pub enum Instruction {
    /// Load the accumulator from the byte that follows the opcode.
    Lda,
    /// Copy the accumulator to the index register.
    Tax,
    /// Add one to the index register, wrapping from 255 to 0.
    Inx,
    /// Halt.
    Brk,
}

/// Why a run was abandoned.
#[derive(Clone, Copy, Debug, PartialEq, Eq, Structural)]
pub enum Fault {
    /// A fetch at `offset`, which lies past the end of the program.
    OutOfBounds { offset: u16 },
    /// The byte `opcode` was fetched as an opcode and stands for no
    /// instruction.
    UnknownOpcode { opcode: u8 },
}

/// The instruction that `opcode` stands for, if any.
pub open spec fn decoded(opcode: u8) -> Option<Instruction> {
    if opcode == LDA_OPCODE {
        Some(Instruction::Lda)
    } else if opcode == TAX_OPCODE {
        Some(Instruction::Tax)
    } else if opcode == INX_OPCODE {
        Some(Instruction::Inx)
    } else if opcode == BRK_OPCODE {
        Some(Instruction::Brk)
    } else {
        None
    }
}

impl Instruction {
    /// Decodes an opcode byte. Exactly four bytes decode.
    pub fn decode(opcode: u8) -> (instruction: Option<Instruction>)
        ensures
            instruction == decoded(opcode),
            instruction is Some <==> opcode == LDA_OPCODE || opcode == TAX_OPCODE || opcode
                == INX_OPCODE || opcode == BRK_OPCODE,
    {
        match opcode {
            LDA_OPCODE => Some(Instruction::Lda),
            TAX_OPCODE => Some(Instruction::Tax),
            INX_OPCODE => Some(Instruction::Inx),
            BRK_OPCODE => Some(Instruction::Brk),
            _ => None,
        }
    }
}

} // verus!
