//! Theorems about the model of the machine: what holds of every state and
//! every program.

use vstd::prelude::*;
use crate::cpu::CPU;
use crate::flags::{
    flags_of, lemma_merged, negative_bit, updated_status, zero_bit, RESERVED_BITS,
};
use crate::instruction::{decoded, Fault, Instruction, BRK_OPCODE, LDA_OPCODE};
use crate::semantics::{
    advanced, fetched, lemma_outcome, lemma_outcome_unfolds, outcome, restarted, run, step, stops,
    stops_within, Step,
};

verus! {

/// The register that the instruction `instruction` writes, as `cpu` holds
/// it; `None` for BRK, which writes none.
pub open spec fn destination(instruction: Instruction, cpu: CPU) -> Option<u8> {
    match instruction {
        Instruction::Lda => Some(cpu.register_a),
        Instruction::Tax => Some(cpu.register_x),
        Instruction::Inx => Some(cpu.register_x),
        Instruction::Brk => None,
    }
}

/// Every program shorter than 0x10000 bytes comes to a stop, from every
/// state: the program counter only grows until it reaches BRK, an unknown
/// opcode or the end of the program.
pub proof fn lemma_short_program_stops(cpu: CPU, program: Seq<u8>)
    requires
        program.len() <= 0xFFFF,
    ensures
        stops(cpu, program),
    decreases program.len() - cpu.program_counter,
{
    let (next, end) = step(cpu, program);
    if end == Step::Continue {
        lemma_short_program_stops(next, program);
        let fuel = choose|fuel: nat| stops_within(next, program, fuel);
        assert(stops_within(cpu, program, fuel + 1));
    } else {
        assert(stops_within(cpu, program, 1));
    }
}

/// After a step that executes LDA, TAX or INX, the zero flag is set exactly
/// if the register that the instruction wrote is zero, the negative flag is
/// set exactly if bit 7 of that register is set, and the six other bits of
/// the status byte are as they were.
pub proof fn lemma_flags_follow_destination(cpu: CPU, program: Seq<u8>)
    requires
        step(cpu, program).1 == Step::Continue,
    ensures
        ({
            let next = step(cpu, program).0;
            let instruction = decoded(program[cpu.program_counter as int]);
            &&& instruction is Some
            &&& destination(instruction->0, next) matches Some(written)
            &&& (zero_bit(next.status) <==> written == 0)
            &&& (negative_bit(next.status) <==> written & 0x80 == 0x80)
            &&& next.status & RESERVED_BITS == cpu.status & RESERVED_BITS
        }),
{
    let next = step(cpu, program).0;
    let instruction = decoded(program[cpu.program_counter as int]);
    let written = destination(instruction->0, next)->0;
    lemma_merged(cpu.status, flags_of(written));
    assert(written & 0x80 == 0x80 <==> written >= 0x80) by (bit_vector);
}

/// Loading any byte and halting leaves that byte in the accumulator: the
/// run of LDA `value`, BRK stops at BRK, with `value` in the accumulator,
/// the flags set from it, the index register untouched and the program
/// counter past the BRK.
pub proof fn lemma_lda_loads(cpu: CPU, value: u8)
    ensures
        stops(restarted(cpu), seq![LDA_OPCODE, value, BRK_OPCODE]),
        outcome(restarted(cpu), seq![LDA_OPCODE, value, BRK_OPCODE]) == (
            CPU {
                register_a: value,
                register_x: cpu.register_x,
                status: updated_status(cpu.status, value),
                program_counter: 3,
            },
            Step::Halt,
        ),
{
    let program = seq![LDA_OPCODE, value, BRK_OPCODE];
    let loaded = step(restarted(cpu), program).0;
    assert(step(restarted(cpu), program).1 == Step::Continue);
    assert(step(loaded, program).1 == Step::Halt);
    assert(run(loaded, program, 1) == step(loaded, program));
    assert(run(restarted(cpu), program, 2) == run(loaded, program, 1));
    lemma_outcome(restarted(cpu), program, 2);
}

/// BRK halts at once: where the byte at the program counter is BRK, the run
/// ends there, with nothing changed but the program counter, which has
/// moved past the BRK. What follows the BRK in the program plays no part.
pub proof fn lemma_brk_halts_at_once(cpu: CPU, program: Seq<u8>)
    requires
        fetched(program, cpu.program_counter) == Some(BRK_OPCODE),
    ensures
        stops(cpu, program),
        outcome(cpu, program) == (advanced(cpu), Step::Halt),
{
    assert(run(cpu, program, 1) == step(cpu, program));
    lemma_outcome(cpu, program, 1);
}

/// A run of `fuel` steps that halts at BRK is the same run on the program
/// with `tail` behind it.
proof fn lemma_run_ignores_tail(cpu: CPU, program: Seq<u8>, tail: Seq<u8>, fuel: nat)
    requires
        run(cpu, program, fuel).1 == Step::Halt,
    ensures
        run(cpu, program + tail, fuel) == run(cpu, program, fuel),
    decreases fuel,
{
    if fuel > 0 {
        let (next, end) = step(cpu, program);
        assert(step(cpu, program + tail) == (next, end));
        if end == Step::Continue {
            lemma_run_ignores_tail(next, program, tail, (fuel - 1) as nat);
        }
    }
}

/// A run that halts at BRK reads no byte behind it: whatever is appended to
/// the program, the run halts in the same state.
pub proof fn lemma_halt_ignores_tail(cpu: CPU, program: Seq<u8>, tail: Seq<u8>)
    requires
        stops(cpu, program),
        outcome(cpu, program).1 == Step::Halt,
    ensures
        stops(cpu, program + tail),
        outcome(cpu, program + tail) == outcome(cpu, program),
{
    let fuel = choose|fuel: nat| stops_within(cpu, program, fuel);
    lemma_run_ignores_tail(cpu, program, tail, fuel);
    lemma_outcome(cpu, program + tail, fuel);
}

/// A byte that stands for no instruction ends the run where it is fetched
/// as an opcode: the run fails with that byte, the program counter past it
/// and nothing else changed.
pub proof fn lemma_unknown_opcode_fails(cpu: CPU, program: Seq<u8>, opcode: u8)
    requires
        fetched(program, cpu.program_counter) == Some(opcode),
        decoded(opcode) is None,
    ensures
        step(cpu, program) == (advanced(cpu), Step::Fail(Fault::UnknownOpcode { opcode })),
        stops(cpu, program),
        outcome(cpu, program) == (advanced(cpu), Step::Fail(Fault::UnknownOpcode { opcode })),
{
    assert(run(cpu, program, 1) == step(cpu, program));
    lemma_outcome(cpu, program, 1);
}

/// A fetch past the end of the program ends the run: it fails with the
/// offset of the fetch, and the registers and the status byte are as the
/// last instruction left them.
pub proof fn lemma_fetch_past_end_fails(cpu: CPU, program: Seq<u8>)
    requires
        cpu.program_counter >= program.len(),
    ensures
        stops(cpu, program),
        outcome(cpu, program) == (
            cpu,
            Step::Fail(Fault::OutOfBounds { offset: cpu.program_counter }),
        ),
{
    assert(run(cpu, program, 1) == step(cpu, program));
    lemma_outcome(cpu, program, 1);
}

/// A run passes through the states that its steps leave: if `fuel` steps
/// from `cpu` continue and leave `reached`, the run from `cpu` stops exactly
/// if the run from `reached` does, and with the same outcome.
pub proof fn lemma_outcome_resumes(cpu: CPU, program: Seq<u8>, fuel: nat, reached: CPU)
    requires
        run(cpu, program, fuel) == (reached, Step::Continue),
    ensures
        stops(cpu, program) <==> stops(reached, program),
        stops(cpu, program) ==> outcome(cpu, program) == outcome(reached, program),
    decreases fuel,
{
    if fuel > 0 {
        let next = step(cpu, program).0;
        lemma_outcome_resumes(next, program, (fuel - 1) as nat, reached);
        if stops(cpu, program) {
            lemma_outcome_unfolds(cpu, program);
        }
        if stops(next, program) {
            let rest = choose|rest: nat| stops_within(next, program, rest);
            lemma_outcome(cpu, program, rest + 1);
        }
    }
}

/// No run goes on past a byte that stands for no instruction: if some
/// number of steps from `cpu` continue and leave `reached`, and the byte at
/// the program counter of `reached` is no opcode, the run from `cpu` fails
/// there with that byte.
pub proof fn lemma_run_fails_at_unknown_opcode(
    cpu: CPU,
    program: Seq<u8>,
    fuel: nat,
    reached: CPU,
    opcode: u8,
)
    requires
        run(cpu, program, fuel) == (reached, Step::Continue),
        fetched(program, reached.program_counter) == Some(opcode),
        decoded(opcode) is None,
    ensures
        stops(cpu, program),
        outcome(cpu, program) == (advanced(reached), Step::Fail(Fault::UnknownOpcode { opcode })),
{
    lemma_unknown_opcode_fails(reached, program, opcode);
    lemma_outcome_resumes(cpu, program, fuel, reached);
}

} // verus!
