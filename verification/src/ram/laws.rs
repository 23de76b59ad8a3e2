//! What holds of every machine state, every step and every run.

use vstd::prelude::*;
use crate::ram::error::{RuntimeErrorView, StepResult};
use crate::ram::instruction_op::InstructionOpView;
use crate::ram::state::{lemma_first_executable, MachineState};
use crate::ram::types::Number;

verus! {

/// The outcome "there is more to do".
pub open spec fn continuing() -> Result<StepResult, RuntimeErrorView> {
    Ok(StepResult::Continuing)
}

/// A step keeps the state well-formed, and never changes the program or the
/// input tape.
pub proof fn lemma_step_preserves(s: MachineState)
    requires
        s.wf(),
    ensures
        s.step().state.wf(),
        s.step().state.program == s.program,
        s.step().state.input == s.input,
{
    lemma_step_shape(s);
}

/// The ways a step can move the pointer, whatever the instruction.
proof fn lemma_step_shape(s: MachineState)
    requires
        s.wf(),
    ensures
        s.step().state.wf(),
        s.step().state.program == s.program,
        s.step().state.input == s.input,
        s.step().result is Err ==> s.step().state == s,
{
    if s.pointer < s.program.len() {
        lemma_first_executable(s.program, s.pointer + 1);
        match s.program[s.pointer as int].op {
            InstructionOpView::Jump(label) => {
                lemma_jump_shape(s, label);
            },
            InstructionOpView::CondJumpRegRelReg(a, rel, b, label) => {
                lemma_jump_shape(s, label);
            },
            InstructionOpView::CondJumpRegRelConst(a, rel, v, label) => {
                lemma_jump_shape(s, label);
            },
            _ => {},
        }
    }
}

/// A jump keeps the state well-formed, and never changes the program or
/// the input tape.
proof fn lemma_jump_shape(s: MachineState, label: Seq<char>)
    requires
        s.wf(),
    ensures
        s.jump(label).state.wf(),
        s.jump(label).state.program == s.program,
        s.jump(label).state.input == s.input,
{
    crate::ram::labels::lemma_label_table_last_wins(s.program, label);
    if crate::ram::labels::label_table(s.program).contains_key(label) {
        lemma_first_executable(s.program, crate::ram::labels::label_table(s.program)[label]);
    }
}

/// A failed step changes nothing.
pub proof fn lemma_failed_step_changes_nothing(s: MachineState)
    requires
        s.wf(),
    ensures
        s.step().result is Err ==> s.step().state == s,
{
    lemma_step_shape(s);
}

/// A run keeps the state well-formed, and never changes the program or the
/// input tape.
pub proof fn lemma_run_preserves(s: MachineState, budget: nat)
    requires
        s.wf(),
    ensures
        s.run(budget).state.wf(),
        s.run(budget).state.program == s.program,
        s.run(budget).state.input == s.input,
    decreases budget,
{
    if budget > 0 {
        lemma_step_shape(s);
        if s.step().result == continuing() {
            lemma_run_preserves(s.step().state, (budget - 1) as nat);
        }
    }
}

/// Once a run has stopped within a budget, a larger budget changes nothing.
pub proof fn lemma_run_stable(s: MachineState, budget: nat, more: nat)
    requires
        s.stops_within(budget),
        budget <= more,
    ensures
        s.run(more) == s.run(budget),
    decreases budget,
{
    if budget > 0 && s.step().result == continuing() {
        lemma_run_stable(s.step().state, (budget - 1) as nat, (more - 1) as nat);
    }
}

/// All budgets within which a run stops give the same outcome.
pub proof fn lemma_run_agrees(s: MachineState, budget: nat)
    requires
        s.stops_within(budget),
    ensures
        forall|other: nat| #[trigger] s.stops_within(other) ==> s.run(other) == s.run(budget),
{
    assert forall|other: nat| #[trigger] s.stops_within(other) implies s.run(other) == s.run(
        budget,
    ) by {
        if other <= budget {
            lemma_run_stable(s, other, budget);
        } else {
            lemma_run_stable(s, budget, other);
        }
    }
}

/// Stepping a halted machine reports `Halted` and changes nothing, however
/// often it is done.
pub proof fn lemma_halted_stays_halted(s: MachineState, steps: nat)
    requires
        s.halted(),
        steps > 0,
    ensures
        s.step() == s.stay_halted(),
        s.run(steps) == s.stay_halted(),
{
}

/// A step that reports `Halted` leaves the machine halted, and so does a
/// run.
pub proof fn lemma_halted_means_halted(s: MachineState, budget: nat)
    requires
        s.wf(),
    ensures
        s.step().result == Ok::<StepResult, RuntimeErrorView>(StepResult::Halted)
            ==> s.step().state.halted(),
        s.run(budget).result == Ok::<StepResult, RuntimeErrorView>(StepResult::Halted) ==> s.run(
            budget,
        ).state.halted(),
    decreases budget,
{
    lemma_step_shape(s);
    if budget > 0 && s.step().result == continuing() {
        lemma_halted_means_halted(s.step().state, (budget - 1) as nat);
    }
}

/// The machine is about to execute a `write`.
pub open spec fn at_write(s: MachineState) -> bool {
    s.pointer < s.program.len() && s.program[s.pointer as int].op is Write
}

/// The machine is about to execute a `read`.
pub open spec fn at_read(s: MachineState) -> bool {
    s.pointer < s.program.len() && s.program[s.pointer as int].op is Read
}

/// How many `write` instructions the run `s.run(budget)` executes.
pub open spec fn writes_executed(s: MachineState, budget: nat) -> nat
    decreases budget,
{
    if budget == 0 {
        0
    } else {
        let now: nat = if at_write(s) {
            1
        } else {
            0
        };
        if s.step().result == continuing() {
            now + writes_executed(s.step().state, (budget - 1) as nat)
        } else {
            now
        }
    }
}

/// How many `read` instructions the run `s.run(budget)` executes with
/// success.
pub open spec fn reads_executed(s: MachineState, budget: nat) -> nat
    decreases budget,
{
    if budget == 0 {
        0
    } else {
        let now: nat = if at_read(s) && s.step().result is Ok {
            1
        } else {
            0
        };
        if s.step().result == continuing() {
            now + reads_executed(s.step().state, (budget - 1) as nat)
        } else {
            now
        }
    }
}

/// A `write` appends the value of its cell to the output tape; every other
/// instruction leaves the tape alone.
pub proof fn lemma_step_output(s: MachineState)
    requires
        s.wf(),
    ensures
        at_write(s) ==> (s.program[s.pointer as int].op matches InstructionOpView::Write(a)
            && s.step().state.output == s.output.push(s.value_at(a))),
        !at_write(s) ==> s.step().state.output == s.output,
{
}

/// The output tape grows by exactly one value for each `write` that a run
/// executes, and what was on it stays.
pub proof fn lemma_output_counts_writes(s: MachineState, budget: nat)
    requires
        s.wf(),
    ensures
        s.run(budget).state.output.len() == s.output.len() + writes_executed(s, budget),
        s.run(budget).state.output.take(s.output.len() as int) == s.output,
    decreases budget,
{
    if budget > 0 {
        lemma_step_output(s);
        lemma_step_shape(s);
        let next = s.step().state;
        if s.step().result == continuing() {
            lemma_output_counts_writes(next, (budget - 1) as nat);
            let last = next.run((budget - 1) as nat).state.output;
            assert(last.take(s.output.len() as int) == last.take(next.output.len() as int).take(
                s.output.len() as int,
            ));
        }
        assert(next.output.take(s.output.len() as int) == s.output);
    } else {
        assert(s.output.take(s.output.len() as int) == s.output);
    }
}

/// A `read` with input left stores the value under the cursor and moves the
/// cursor on by one; with no input left it fails and changes nothing. No
/// other instruction moves the cursor.
pub proof fn lemma_step_cursor(s: MachineState)
    requires
        s.wf(),
    ensures
        at_read(s) && s.cursor < s.input.len() ==> {
            &&& (s.program[s.pointer as int].op matches InstructionOpView::Read(a)
                && s.step().state.value_at(a) == s.input[s.cursor as int])
            &&& s.step().result is Ok
            &&& s.step().state.cursor == s.cursor + 1
            &&& s.step().state.cursor <= s.input.len()
        },
        at_read(s) && s.cursor >= s.input.len() ==> s.step() == s.fail(
            RuntimeErrorView::InputExhausted,
        ),
        !at_read(s) ==> s.step().state.cursor == s.cursor,
        s.cursor <= s.input.len() ==> s.step().state.cursor <= s.step().state.input.len(),
{
    lemma_step_shape(s);
}

/// Over a run the cursor moves on by one for each successful `read`, and
/// stays within the tape if it started there.
pub proof fn lemma_cursor_counts_reads(s: MachineState, budget: nat)
    requires
        s.wf(),
    ensures
        s.run(budget).state.cursor == s.cursor + reads_executed(s, budget),
        s.cursor <= s.input.len() ==> s.run(budget).state.cursor <= s.input.len(),
    decreases budget,
{
    if budget > 0 {
        lemma_step_cursor(s);
        lemma_step_shape(s);
        if s.step().result == continuing() {
            lemma_cursor_counts_reads(s.step().state, (budget - 1) as nat);
        }
    }
}

/// Once the input is used up, a `read` fails again each time it is tried.
pub proof fn lemma_exhausted_read_repeats(s: MachineState, steps: nat)
    requires
        s.wf(),
        at_read(s),
        s.cursor >= s.input.len(),
        steps > 0,
    ensures
        s.run(steps) == s.fail(RuntimeErrorView::InputExhausted),
{
}

/// Indirect load: where cell `b` holds `x` and cell `x` holds `y`, executing
/// `Ra := [Rb]` leaves `y` in cell `a`.
pub proof fn lemma_load_is_indirect(s: MachineState, a: Number, b: Number, x: Number, y: Number)
    requires
        s.pointer < s.program.len(),
        s.program[s.pointer as int].op == InstructionOpView::Load(a, b),
        s.value_at(b) == x,
        s.value_at(x) == y,
    ensures
        s.step().result is Ok,
        s.step().state.value_at(a) == y,
        forall|other: Number| other != a ==> s.step().state.value_at(other) == s.value_at(other),
{
}

/// Indirect store: where cell `a` holds `x`, executing `[Ra] := Rb` leaves
/// the value of cell `b` in cell `x`.
pub proof fn lemma_store_is_indirect(s: MachineState, a: Number, b: Number, x: Number)
    requires
        s.pointer < s.program.len(),
        s.program[s.pointer as int].op == InstructionOpView::Store(a, b),
        s.value_at(a) == x,
    ensures
        s.step().result is Ok,
        s.step().state.value_at(x) == s.value_at(b),
        forall|other: Number| other != x ==> s.step().state.value_at(other) == s.value_at(other),
{
}

} // verus!
