//! The machine as a mathematical object: its state and the meaning of a step.

use vstd::prelude::*;
use crate::ram::error::{RuntimeErrorView, StepResult};
use crate::ram::instruction::InstructionView;
use crate::ram::instruction_op::InstructionOpView;
use crate::ram::labels::label_table;
use crate::ram::op::Op;
use crate::ram::types::Number;

verus! {

/// The first position at or after `from` that holds an instruction to
/// execute, or the program's length if there is none.
pub open spec fn first_executable(program: Seq<InstructionView>, from: nat) -> nat
    decreases program.len() - from,
{
    if from < program.len() && program[from as int].op is Empty {
        first_executable(program, from + 1)
    } else {
        from
    }
}

/// `first_executable` skips a run of placeholders and nothing else.
pub proof fn lemma_first_executable(program: Seq<InstructionView>, from: nat)
    requires
        from <= program.len(),
    ensures
        from <= first_executable(program, from) <= program.len(),
        first_executable(program, from) < program.len() ==> !(program[first_executable(
            program,
            from,
        ) as int].op is Empty),
        forall|i: int|
            from <= i < first_executable(program, from) ==> (#[trigger] program[i]).op is Empty,
    decreases program.len() - from,
{
    if from < program.len() && program[from as int].op is Empty {
        lemma_first_executable(program, from + 1);
    }
}

/// Everything a machine holds at one moment.
pub struct MachineState {
    /// The program; it never changes.
    pub program: Seq<InstructionView>,
    /// The cells that have been written, by address. Every other cell holds 0.
    pub store: Map<Number, Number>,
    /// The position of the next instruction.
    pub pointer: nat,
    /// The input tape; it never changes.
    pub input: Seq<Number>,
    /// How many values of the input tape have been read.
    pub cursor: nat,
    /// The values written so far, oldest first.
    pub output: Seq<Number>,
}

/// A state together with what the step that led to it reported.
pub struct StepOutcome {
    pub state: MachineState,
    pub result: Result<StepResult, RuntimeErrorView>,
}

impl MachineState {
    /// The state in which a machine starts on `program`.
    pub open spec fn initial(program: Seq<InstructionView>) -> MachineState {
        MachineState {
            program,
            store: Map::empty(),
            pointer: first_executable(program, 0),
            input: Seq::empty(),
            cursor: 0,
            output: Seq::empty(),
        }
    }

    /// The pointer is within the program or at its end, and never rests on a
    /// placeholder.
    pub open spec fn wf(self) -> bool {
        &&& self.pointer <= self.program.len()
        &&& self.pointer < self.program.len() ==> !(self.program[self.pointer as int].op is Empty)
    }

    /// The value of the cell at `address`.
    pub open spec fn value_at(self, address: Number) -> Number {
        if self.store.contains_key(address) {
            self.store[address]
        } else {
            0
        }
    }

    /// The machine has stopped for good: its pointer is at the end of the
    /// program or on a `halt`.
    pub open spec fn halted(self) -> bool {
        self.pointer >= self.program.len() || self.program[self.pointer as int].op is Halt
    }

    /// The state with `value` stored at `address`.
    pub open spec fn with_cell(self, address: Number, value: Number) -> MachineState {
        MachineState { store: self.store.insert(address, value), ..self }
    }

    /// Moves the pointer to the first instruction to execute at or after
    /// `position`, and reports whether there is one.
    pub open spec fn continue_at(self, position: nat) -> StepOutcome {
        let pointer = first_executable(self.program, position);
        StepOutcome {
            state: MachineState { pointer, ..self },
            result: Ok(
                if pointer >= self.program.len() {
                    StepResult::Halted
                } else {
                    StepResult::Continuing
                },
            ),
        }
    }

    /// Goes on with the instruction after the current one.
    pub open spec fn advance(self) -> StepOutcome {
        self.continue_at(self.pointer + 1)
    }

    /// The state unchanged, with the reason of the failure.
    pub open spec fn fail(self, error: RuntimeErrorView) -> StepOutcome {
        StepOutcome { state: self, result: Err(error) }
    }

    /// The state unchanged, reported as halted.
    pub open spec fn stay_halted(self) -> StepOutcome {
        StepOutcome { state: self, result: Ok(StepResult::Halted) }
    }

    /// Goes on at the instruction that `label` names; fails if none does.
    pub open spec fn jump(self, label: Seq<char>) -> StepOutcome {
        if label_table(self.program).contains_key(label) {
            self.continue_at(label_table(self.program)[label])
        } else {
            self.fail(RuntimeErrorView::LabelNotFound(label))
        }
    }

    /// Stores `left op right` at `target` and goes on; fails on a zero divisor.
    pub open spec fn compute(
        self,
        target: Number,
        op: Op,
        left: Number,
        right: Number,
    ) -> StepOutcome {
        if op == Op::Div && right == 0 {
            self.fail(RuntimeErrorView::DivisionByZero)
        } else {
            self.with_cell(target, op.apply_spec(left, right)).advance()
        }
    }

    /// What one step does: the instruction under the pointer is executed, and
    /// the pointer moves on past any placeholders. A halted machine stays as
    /// it is.
    pub open spec fn step(self) -> StepOutcome {
        if self.pointer >= self.program.len() {
            self.stay_halted()
        } else {
            match self.program[self.pointer as int].op {
                InstructionOpView::AssignFromConst(a, v) => self.with_cell(a, v).advance(),
                InstructionOpView::AssignFromRegister(a, b) => self.with_cell(
                    a,
                    self.value_at(b),
                ).advance(),
                InstructionOpView::Load(a, b) => self.with_cell(
                    a,
                    self.value_at(self.value_at(b)),
                ).advance(),
                InstructionOpView::Store(a, b) => self.with_cell(
                    self.value_at(a),
                    self.value_at(b),
                ).advance(),
                InstructionOpView::ArithmeticRegOpReg(a, b, op, c) => self.compute(
                    a,
                    op,
                    self.value_at(b),
                    self.value_at(c),
                ),
                InstructionOpView::ArithmeticRegOpConst(a, b, op, v) => self.compute(
                    a,
                    op,
                    self.value_at(b),
                    v,
                ),
                InstructionOpView::Jump(label) => self.jump(label),
                InstructionOpView::CondJumpRegRelReg(a, rel, b, label) => if rel.holds_spec(
                    self.value_at(a),
                    self.value_at(b),
                ) {
                    self.jump(label)
                } else {
                    self.advance()
                },
                InstructionOpView::CondJumpRegRelConst(a, rel, v, label) => if rel.holds_spec(
                    self.value_at(a),
                    v,
                ) {
                    self.jump(label)
                } else {
                    self.advance()
                },
                InstructionOpView::Read(a) => if self.cursor >= self.input.len() {
                    self.fail(RuntimeErrorView::InputExhausted)
                } else {
                    (MachineState {
                        cursor: self.cursor + 1,
                        ..self.with_cell(a, self.input[self.cursor as int])
                    }).advance()
                },
                InstructionOpView::Write(a) => (MachineState {
                    output: self.output.push(self.value_at(a)),
                    ..self
                }).advance(),
                InstructionOpView::Halt => self.stay_halted(),
                InstructionOpView::Empty => self.advance(),
            }
        }
    }

    /// What at most `budget` steps do: the machine is stepped until a step
    /// reports something other than `Continuing`, or the budget is used up.
    /// The result is `Continuing` exactly when the budget ran out first.
    pub open spec fn run(self, budget: nat) -> StepOutcome
        decreases budget,
    {
        if budget == 0 {
            StepOutcome { state: self, result: Ok(StepResult::Continuing) }
        } else {
            let first = self.step();
            if first.result == Ok::<StepResult, RuntimeErrorView>(StepResult::Continuing) {
                first.state.run((budget - 1) as nat)
            } else {
                first
            }
        }
    }

    /// Within `budget` steps the machine halts or fails.
    pub open spec fn stops_within(self, budget: nat) -> bool {
        self.run(budget).result != Ok::<StepResult, RuntimeErrorView>(StepResult::Continuing)
    }

    /// The machine halts or fails after finitely many steps.
    pub open spec fn terminates(self) -> bool {
        exists|budget: nat| self.stops_within(budget)
    }
}

} // verus!
