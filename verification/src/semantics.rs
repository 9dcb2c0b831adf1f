//! The mathematical model of the machine: what one step does to a state, and
//! what a run of steps comes to.

use vstd::prelude::*;
use crate::cpu::CPU;
use crate::flags::updated_status;
use crate::instruction::{decoded, Fault, Instruction};

verus! {

/// How a step ended.
#[derive(Clone, Copy, Debug, PartialEq, Eq, Structural)]
pub enum Step {
    /// An instruction was executed and the next one is due.
    Continue,
    /// BRK was fetched.
    Halt,
    /// The step could not be carried out.
    Fail(Fault),
}

/// The byte of `program` at `offset`, if the program is that long.
pub open spec fn fetched(program: Seq<u8>, offset: u16) -> Option<u8> {
    if offset < program.len() {
        Some(program[offset as int])
    } else {
        None
    }
}

/// The offset after `offset`, wrapping from 0xFFFF to 0.
pub open spec fn next_offset(offset: u16) -> u16 {
    if offset == 0xFFFF {
        0
    } else {
        (offset + 1) as u16
    }
}

/// The byte after `value`, wrapping from 0xFF to 0.
pub open spec fn incremented(value: u8) -> u8 {
    if value == 0xFF {
        0
    } else {
        (value + 1) as u8
    }
}

/// `cpu` with its program counter moved to the next offset.
pub open spec fn advanced(cpu: CPU) -> CPU {
    CPU { program_counter: next_offset(cpu.program_counter), ..cpu }
}

/// `cpu` with its program counter at the start of the program.
pub open spec fn restarted(cpu: CPU) -> CPU {
    CPU { program_counter: 0, ..cpu }
}

/// LDA: the accumulator takes `value`, and the flags follow the accumulator.
pub open spec fn after_lda(cpu: CPU, value: u8) -> CPU {
    CPU { register_a: value, status: updated_status(cpu.status, value), ..cpu }
}

/// TAX: the index register takes the accumulator, and the flags follow the
/// index register.
pub open spec fn after_tax(cpu: CPU) -> CPU {
    CPU { register_x: cpu.register_a, status: updated_status(cpu.status, cpu.register_a), ..cpu }
}

/// INX: the index register goes up by one, wrapping, and the flags follow
/// the index register.
pub open spec fn after_inx(cpu: CPU) -> CPU {
    CPU {
        register_x: incremented(cpu.register_x),
        status: updated_status(cpu.status, incremented(cpu.register_x)),
        ..cpu
    }
}

/// One fetch, decode and execute from `cpu` on `program`: the state it
/// leaves and how it ended.
///
/// The program counter moves past every byte that was fetched. A fetch past
/// the end leaves the program counter at the offending offset and the other
/// fields as they were.
pub open spec fn step(cpu: CPU, program: Seq<u8>) -> (CPU, Step) {
    match fetched(program, cpu.program_counter) {
        None => (cpu, Step::Fail(Fault::OutOfBounds { offset: cpu.program_counter })),
        Some(opcode) => {
            let at_operand = advanced(cpu);
            match decoded(opcode) {
                None => (at_operand, Step::Fail(Fault::UnknownOpcode { opcode })),
                Some(Instruction::Brk) => (at_operand, Step::Halt),
                Some(Instruction::Tax) => (after_tax(at_operand), Step::Continue),
                Some(Instruction::Inx) => (after_inx(at_operand), Step::Continue),
                Some(Instruction::Lda) => match fetched(program, at_operand.program_counter) {
                    None => (
                        at_operand,
                        Step::Fail(Fault::OutOfBounds { offset: at_operand.program_counter }),
                    ),
                    Some(value) => (after_lda(advanced(at_operand), value), Step::Continue),
                },
            }
        },
    }
}

/// At most `fuel` steps from `cpu`, ending at the first step that does not
/// continue.
pub open spec fn run(cpu: CPU, program: Seq<u8>, fuel: nat) -> (CPU, Step)
    decreases fuel,
{
    if fuel == 0 {
        (cpu, Step::Continue)
    } else {
        let (next, end) = step(cpu, program);
        if end == Step::Continue {
            run(next, program, (fuel - 1) as nat)
        } else {
            (next, end)
        }
    }
}

/// The run from `cpu` halts or fails within `fuel` steps.
pub open spec fn stops_within(cpu: CPU, program: Seq<u8>, fuel: nat) -> bool {
    run(cpu, program, fuel).1 != Step::Continue
}

/// The run from `cpu` halts or fails after some number of steps.
pub open spec fn stops(cpu: CPU, program: Seq<u8>) -> bool {
    exists|fuel: nat| stops_within(cpu, program, fuel)
}

/// Where the run from `cpu` ends, if it stops: the state it leaves, and
/// `Halt` or the fault.
pub open spec fn outcome(cpu: CPU, program: Seq<u8>) -> (CPU, Step) {
    run(cpu, program, choose|fuel: nat| stops_within(cpu, program, fuel))
}

/// The end of a run as the interpreter reports it: `Ok` for a halt, the
/// fault for a failure, and `None` for a run that has not ended.
pub open spec fn reported(end: Step) -> Option<Result<(), Fault>> {
    match end {
        Step::Continue => None,
        Step::Halt => Some(Ok(())),
        Step::Fail(fault) => Some(Err(fault)),
    }
}

/// More fuel does not change a run that has stopped.
pub proof fn lemma_run_stable(cpu: CPU, program: Seq<u8>, fuel: nat, more: nat)
    requires
        stops_within(cpu, program, fuel),
        fuel <= more,
    ensures
        run(cpu, program, more) == run(cpu, program, fuel),
    decreases fuel,
{
    if fuel > 0 {
        let (next, end) = step(cpu, program);
        if end == Step::Continue {
            lemma_run_stable(next, program, (fuel - 1) as nat, (more - 1) as nat);
        }
    }
}

/// A run that stops within `fuel` steps has the outcome that `fuel` steps
/// give.
pub proof fn lemma_outcome(cpu: CPU, program: Seq<u8>, fuel: nat)
    requires
        stops_within(cpu, program, fuel),
    ensures
        stops(cpu, program),
        outcome(cpu, program) == run(cpu, program, fuel),
        outcome(cpu, program).1 != Step::Continue,
{
    let chosen = choose|f: nat| stops_within(cpu, program, f);
    if chosen <= fuel {
        lemma_run_stable(cpu, program, chosen, fuel);
    } else {
        lemma_run_stable(cpu, program, fuel, chosen);
    }
}

/// A run that continues after its first step has the outcome of the run from
/// the state which that step leaves.
pub proof fn lemma_outcome_unfolds(cpu: CPU, program: Seq<u8>)
    requires
        stops(cpu, program),
    ensures
        step(cpu, program).1 != Step::Continue ==> outcome(cpu, program) == step(cpu, program),
        step(cpu, program).1 == Step::Continue ==> stops(step(cpu, program).0, program)
            && outcome(cpu, program) == outcome(step(cpu, program).0, program),
{
    let fuel = choose|f: nat| stops_within(cpu, program, f);
    assert(fuel > 0);
    if step(cpu, program).1 == Step::Continue {
        lemma_outcome(step(cpu, program).0, program, (fuel - 1) as nat);
    }
}

} // verus!
