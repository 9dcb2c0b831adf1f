//! The machine state and the interpreter that runs a program on it.

use vstd::prelude::*;
use crate::flags::{
    flags_of, lemma_merged, negative_bit, updated_status, zero_bit, Flags, RESERVED_BITS,
};
use crate::instruction::{Fault, Instruction};
use crate::semantics::{
    advanced, after_inx, after_lda, after_tax, fetched, incremented, lemma_outcome,
    lemma_outcome_unfolds, lemma_run_stable, outcome, reported, restarted, run, step, stops,
    stops_within, Step,
};
use crate::termination::{lemma_stop_bound, STEP_BOUND};

verus! {

/// The state of the machine. Every value of every field is a valid state.
#[derive(Clone, Copy, Debug, PartialEq, Eq, Structural)]
pub struct CPU {
    /// The accumulator.
    pub register_a: u8,
    /// The index register.
    pub register_x: u8,
    /// The status byte: bit 1 is the zero flag, bit 7 the negative flag.
    pub status: u8,
    /// The offset in the program of the next byte to fetch.
    pub program_counter: u16,
}

impl CPU {
    /// A machine with every field zero.
    pub fn new() -> (cpu: CPU)
        ensures
            cpu == (CPU { register_a: 0, register_x: 0, status: 0, program_counter: 0 }),
    {
        CPU { register_a: 0, register_x: 0, status: 0, program_counter: 0 }
    }

    /// Sets the zero and negative flags from `result` and leaves the other
    /// six bits of the status byte as they are.
    pub fn update_zero_and_negative_flags(&mut self, result: u8)
        ensures
            *final(self) == (CPU { status: updated_status(old(self).status, result), ..*old(self) }),
            zero_bit(final(self).status) <==> result == 0,
            negative_bit(final(self).status) <==> result >= 0x80,
            final(self).status & RESERVED_BITS == old(self).status & RESERVED_BITS,
    {
        proof {
            lemma_merged(self.status, flags_of(result));
        }
        self.status = Flags::of(result).merge_into(self.status);
    }

    /// LDA: loads `value` into the accumulator and sets the flags from it.
    pub fn lda(&mut self, value: u8)
        ensures
            *final(self) == after_lda(*old(self), value),
            final(self).register_a == value,
            zero_bit(final(self).status) <==> final(self).register_a == 0,
            negative_bit(final(self).status) <==> final(self).register_a >= 0x80,
            final(self).status & RESERVED_BITS == old(self).status & RESERVED_BITS,
    {
        self.register_a = value;
        self.update_zero_and_negative_flags(self.register_a);
    }

    /// TAX: copies the accumulator to the index register and sets the flags
    /// from it.
    pub fn tax(&mut self)
        ensures
            *final(self) == after_tax(*old(self)),
            final(self).register_x == old(self).register_a,
            zero_bit(final(self).status) <==> final(self).register_x == 0,
            negative_bit(final(self).status) <==> final(self).register_x >= 0x80,
            final(self).status & RESERVED_BITS == old(self).status & RESERVED_BITS,
    {
        self.register_x = self.register_a;
        self.update_zero_and_negative_flags(self.register_x);
    }

    /// INX: adds one to the index register, wrapping from 255 to 0, and sets
    /// the flags from it.
    pub fn inx(&mut self)
        ensures
            *final(self) == after_inx(*old(self)),
            final(self).register_x == incremented(old(self).register_x),
            zero_bit(final(self).status) <==> final(self).register_x == 0,
            negative_bit(final(self).status) <==> final(self).register_x >= 0x80,
            final(self).status & RESERVED_BITS == old(self).status & RESERVED_BITS,
    {
        self.register_x = self.register_x.wrapping_add(1);
        self.update_zero_and_negative_flags(self.register_x);
    }

    /// Fetches the byte at the program counter and moves the program counter
    /// past it; `None`, with nothing changed, where the program has no such
    /// byte.
    fn fetch(&mut self, program: &[u8]) -> (byte: Option<u8>)
        ensures
            byte == fetched(program@, old(self).program_counter),
            byte is Some ==> *final(self) == advanced(*old(self)),
            byte is None ==> *final(self) == *old(self),
    {
        let offset: usize = self.program_counter as usize;
        if offset < program.len() {
            let byte: u8 = program[offset];
            self.program_counter = self.program_counter.wrapping_add(1);
            Some(byte)
        } else {
            None
        }
    }

    /// Fetches, decodes and executes one instruction.
    ///
    /// Returns `Continue` after LDA, TAX and INX, `Halt` on BRK, and `Fail`
    /// where a fetch lies past the end of the program or the opcode stands
    /// for no instruction.
    pub fn step(&mut self, program: &[u8]) -> (end: Step)
        ensures
            (*final(self), end) == step(*old(self), program@),
    {
        let pc: u16 = self.program_counter;
        let opcode: u8 = match self.fetch(program) {
            Some(byte) => byte,
            None => {
                return Step::Fail(Fault::OutOfBounds { offset: pc });
            },
        };
        match Instruction::decode(opcode) {
            None => Step::Fail(Fault::UnknownOpcode { opcode }),
            Some(Instruction::Brk) => Step::Halt,
            Some(Instruction::Tax) => {
                self.tax();
                Step::Continue
            },
            Some(Instruction::Inx) => {
                self.inx();
                Step::Continue
            },
            Some(Instruction::Lda) => {
                let operand_at: u16 = self.program_counter;
                match self.fetch(program) {
                    Some(value) => {
                        self.lda(value);
                        Step::Continue
                    },
                    None => Step::Fail(Fault::OutOfBounds { offset: operand_at }),
                }
            },
        }
    }

    /// Runs `program` from its first byte until BRK or a fault.
    ///
    /// The program counter starts at 0; the registers and the status byte
    /// start as they are. `Ok` is returned at BRK, the fault where a fetch
    /// lies past the end of the program or an opcode stands for no
    /// instruction. The machine is left as the last step left it.
    ///
    /// The run must come to a stop. Every program shorter than 0x10000 bytes
    /// does; in a longer one the program counter can wrap round for ever.
    /// [`CPU::interpret_within`] runs any program.
    pub fn interpret(&mut self, program: Vec<u8>) -> (result: Result<(), Fault>)
        requires
            stops(restarted(*old(self)), program@),
        ensures
            *final(self) == outcome(restarted(*old(self)), program@).0,
            Some(result) == reported(outcome(restarted(*old(self)), program@).1),
    {
        self.program_counter = 0;
        let ghost start: CPU = *self;
        let ghost total: nat = choose|fuel: nat| stops_within(start, program@, fuel);
        let ghost mut done: nat = 0;
        loop
            invariant
                start == restarted(*old(self)),
                stops(*self, program@),
                outcome(*self, program@) == outcome(start, program@),
                stops_within(*self, program@, (total - done) as nat),
                done <= total,
            decreases total - done,
        {
            proof {
                lemma_outcome_unfolds(*self, program@);
            }
            match self.step(program.as_slice()) {
                Step::Continue => {
                    proof {
                        done = done + 1;
                    }
                },
                Step::Halt => {
                    return Ok(());
                },
                Step::Fail(fault) => {
                    return Err(fault);
                },
            }
        }
    }

    /// Runs `program` from its first byte until BRK, a fault, or the end of
    /// a budget of `budget` instructions.
    ///
    /// Returns what [`CPU::interpret`] returns if the run stops within the
    /// budget, and `None` if `budget` instructions were executed and the
    /// next is due; the machine is left as the last step left it. With a
    /// budget of [`STEP_BOUND`] or more, `None` is returned only for a run
    /// that would never stop.
    pub fn interpret_within(&mut self, program: &[u8], budget: usize) -> (result: Option<
        Result<(), Fault>,
    >)
        ensures
            *final(self) == run(restarted(*old(self)), program@, budget as nat).0,
            result == reported(run(restarted(*old(self)), program@, budget as nat).1),
            result is Some ==> stops(restarted(*old(self)), program@) && *final(self) == outcome(
                restarted(*old(self)),
                program@,
            ).0 && result == reported(outcome(restarted(*old(self)), program@).1),
            budget >= STEP_BOUND ==> (result is None <==> !stops(
                restarted(*old(self)),
                program@,
            )),
    {
        self.program_counter = 0;
        let ghost start: CPU = *self;
        let mut left: usize = budget;
        proof {
            lemma_stop_bound(start, program@);
            if budget >= STEP_BOUND && stops_within(start, program@, STEP_BOUND as nat) {
                lemma_run_stable(start, program@, STEP_BOUND as nat, budget as nat);
            }
            if stops_within(start, program@, budget as nat) {
                lemma_outcome(start, program@, budget as nat);
            }
        }
        while left > 0
            invariant
                start == restarted(*old(self)),
                run(start, program@, budget as nat) == run(*self, program@, left as nat),
                stops_within(start, program@, budget as nat) ==> stops(start, program@)
                    && outcome(start, program@) == run(start, program@, budget as nat),
                budget >= STEP_BOUND && stops(start, program@) ==> stops_within(
                    start,
                    program@,
                    budget as nat,
                ),
            decreases left,
        {
            match self.step(program) {
                Step::Continue => {
                    left = left - 1;
                },
                Step::Halt => {
                    return Some(Ok(()));
                },
                Step::Fail(fault) => {
                    return Some(Err(fault));
                },
            }
        }
        None
    }
}

impl Default for CPU {
    /// The machine with every field zero.
    fn default() -> (cpu: CPU)
        ensures
            cpu == (CPU { register_a: 0, register_x: 0, status: 0, program_counter: 0 }),
    {
        CPU::new()
    }
}

} // verus!
