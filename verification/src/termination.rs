//! Which runs come to a stop: the program counter alone decides, and a run
//! that stops at all stops within 0x10000 steps.

use vstd::prelude::*;
use vstd::set_lib::{lemma_int_range, lemma_subset_equality, set_int_range};
use crate::cpu::CPU;
use crate::semantics::{lemma_run_stable, run, step, stops, stops_within, Step};

verus! {

/// The number of offsets that a program counter can hold, and the number of
/// steps within which every run that stops has stopped.
pub const STEP_BOUND: usize = 0x1_0000;

/// The program counter after `fuel` steps from `cpu`.
pub open spec fn counter_after(cpu: CPU, program: Seq<u8>, fuel: nat) -> int {
    run(cpu, program, fuel).0.program_counter as int
}

/// Whether a run continues, and where, depends on the program counter
/// alone: two states with the same program counter end `fuel` steps in the
/// same way and at the same program counter.
pub proof fn lemma_run_follows_counter(a: CPU, b: CPU, program: Seq<u8>, fuel: nat)
    requires
        a.program_counter == b.program_counter,
    ensures
        run(a, program, fuel).1 == run(b, program, fuel).1,
        counter_after(a, program, fuel) == counter_after(b, program, fuel),
    decreases fuel,
{
    if fuel > 0 && step(a, program).1 == Step::Continue {
        lemma_run_follows_counter(
            step(a, program).0,
            step(b, program).0,
            program,
            (fuel - 1) as nat,
        );
    }
}

/// A run of `fuel` steps whose first `first` steps continue is the run of
/// the remaining steps from the state that those leave.
pub proof fn lemma_run_splits(cpu: CPU, program: Seq<u8>, first: nat, fuel: nat)
    requires
        first <= fuel,
        run(cpu, program, first).1 == Step::Continue,
    ensures
        run(cpu, program, fuel) == run(
            run(cpu, program, first).0,
            program,
            (fuel - first) as nat,
        ),
    decreases first,
{
    if first > 0 {
        lemma_run_splits(
            step(cpu, program).0,
            program,
            (first - 1) as nat,
            (fuel - 1) as nat,
        );
    }
}

/// A run that comes back to the program counter it started from never
/// stops.
pub proof fn lemma_cycle_never_stops(cpu: CPU, program: Seq<u8>, period: nat, fuel: nat)
    requires
        period > 0,
        run(cpu, program, period).1 == Step::Continue,
        counter_after(cpu, program, period) == cpu.program_counter,
    ensures
        !stops_within(cpu, program, fuel),
    decreases fuel,
{
    if stops_within(cpu, program, fuel) {
        if fuel <= period {
            lemma_run_stable(cpu, program, fuel, period);
        } else {
            let back = run(cpu, program, period).0;
            lemma_run_splits(cpu, program, period, fuel);
            lemma_run_follows_counter(back, cpu, program, (fuel - period) as nat);
            lemma_cycle_never_stops(cpu, program, period, (fuel - period) as nat);
        }
    }
}

/// Among the program counters after 0, 1, ..., 0x10000 steps, two are the
/// same. `seen` holds those after fewer than `count` steps, which differ
/// from each other.
proof fn lemma_counter_repeats(cpu: CPU, program: Seq<u8>, count: nat, seen: Set<int>) -> (pair:
    (nat, nat))
    requires
        count <= STEP_BOUND,
        seen.finite(),
        seen.len() == count,
        forall|p: int|
            seen.contains(p) <==> exists|i: nat|
                i < count && #[trigger] counter_after(cpu, program, i) == p,
    ensures
        pair.0 < pair.1 <= STEP_BOUND,
        counter_after(cpu, program, pair.0) == counter_after(cpu, program, pair.1),
    decreases STEP_BOUND - count,
{
    let p = counter_after(cpu, program, count);
    if seen.contains(p) {
        let i = choose|i: nat| i < count && #[trigger] counter_after(cpu, program, i) == p;
        (i, count)
    } else {
        let all = set_int_range(0, STEP_BOUND as int);
        lemma_int_range(0, STEP_BOUND as int);
        assert(seen.subset_of(all));
        if count == STEP_BOUND {
            lemma_subset_equality(seen, all);
            assert(all.contains(p));
        }
        let grown = seen.insert(p);
        assert forall|q: int| grown.contains(q) <==> exists|i: nat|
            i < count + 1 && #[trigger] counter_after(cpu, program, i) == q by {
            if grown.contains(q) {
                if q == p {
                    assert(count < count + 1 && counter_after(cpu, program, count) == q);
                } else {
                    let i = choose|i: nat|
                        i < count && #[trigger] counter_after(cpu, program, i) == q;
                    assert(i < count + 1 && counter_after(cpu, program, i) == q);
                }
            }
        }
        lemma_counter_repeats(cpu, program, count + 1, grown)
    }
}

/// A run that stops at all stops within 0x10000 steps: in a longer run the
/// program counter would come by the same offset twice, and the run would
/// go round for ever.
pub proof fn lemma_stop_bound(cpu: CPU, program: Seq<u8>)
    ensures
        stops(cpu, program) <==> stops_within(cpu, program, STEP_BOUND as nat),
{
    if stops(cpu, program) && !stops_within(cpu, program, STEP_BOUND as nat) {
        let fuel = choose|fuel: nat| stops_within(cpu, program, fuel);
        let (i, j) = lemma_counter_repeats(cpu, program, 0, Set::empty());
        if stops_within(cpu, program, j) {
            lemma_run_stable(cpu, program, j, STEP_BOUND as nat);
        }
        if stops_within(cpu, program, i) {
            lemma_run_stable(cpu, program, i, j);
        }
        let from = run(cpu, program, i).0;
        lemma_run_splits(cpu, program, i, j);
        if fuel <= i {
            lemma_run_stable(cpu, program, fuel, i);
        } else {
            lemma_run_splits(cpu, program, i, fuel);
            lemma_cycle_never_stops(from, program, (j - i) as nat, (fuel - i) as nat);
        }
    }
}

} // verus!
