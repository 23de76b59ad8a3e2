//! The executable machine.

use std::collections::HashMap;
use vstd::prelude::*;
use vstd::pervasive::unreached;
use crate::ram::error::{step_result_view, RuntimeError, RuntimeErrorView, StepResult};
use crate::ram::instruction::{program_view, Instruction};
use crate::ram::instruction_op::InstructionOp;
use crate::ram::labels::{label_table, LabelTable};
use crate::ram::op::Op;
use crate::ram::rel::Rel;
use crate::ram::laws::{
    lemma_failed_step_changes_nothing, lemma_halted_means_halted, lemma_run_agrees,
};
use crate::ram::state::{first_executable, lemma_first_executable, MachineState};
use crate::ram::types::{Index, Label, Number};

verus! {

broadcast use vstd::std_specs::hash::group_hash_axioms;

/// A random access machine: a program, a store of numbered cells, an input
/// tape with a read cursor and an output tape.
#[derive(Debug)]
pub struct RamMachine {
    memory: HashMap<Number, Number>,
    program: Vec<Instruction>,
    instruction_pointer: Index,
    labels: LabelTable,
    input_pointer: Index,
    input_tape: Vec<Number>,
    output_tape: Vec<Number>,
}

impl View for RamMachine {
    type V = MachineState;

    closed spec fn view(&self) -> MachineState {
        MachineState {
            program: program_view(self.program@),
            store: self.memory@,
            pointer: self.instruction_pointer as nat,
            input: self.input_tape@,
            cursor: self.input_pointer as nat,
            output: self.output_tape@,
        }
    }
}

/// What `run` returns for the outcome of the last step.
pub open spec fn run_result_view(r: Result<(), RuntimeError>) -> Result<
    StepResult,
    RuntimeErrorView,
> {
    match r {
        Ok(_) => Ok(StepResult::Halted),
        Err(e) => Err(e@),
    }
}

impl RamMachine {
    /// The label table is that of the program.
    pub closed spec fn labels_resolved(&self) -> bool {
        self.labels@ == label_table(program_view(self.program@))
    }

    /// The machine is in a state that `new` and `step` can leave it in.
    pub open spec fn wf(&self) -> bool {
        &&& self@.wf()
        &&& self.labels_resolved()
    }

    /// A machine at the start of `program`, with an empty store and empty
    /// tapes.
    pub fn new(program: Vec<Instruction>) -> (machine: RamMachine)
        ensures
            machine.wf(),
            machine@ == MachineState::initial(program_view(program@)),
    {
        let labels = RamMachine::extract_labels(&program);
        let mut machine = RamMachine {
            memory: HashMap::new(),
            program,
            instruction_pointer: 0,
            labels,
            input_pointer: 0,
            input_tape: Vec::new(),
            output_tape: Vec::new(),
        };
        machine.skip_empty();
        proof {
            lemma_first_executable(machine@.program, 0);
        }
        machine
    }

    /// The same machine with `input_tape` as its input. The read cursor
    /// stays where it is.
    pub fn with_input(self, input_tape: Vec<Number>) -> (machine: RamMachine)
        ensures
            machine@ == (MachineState { input: input_tape@, ..self@ }),
            self.wf() ==> machine.wf(),
    {
        let mut machine = self;
        machine.input_tape = input_tape;
        machine
    }

    /// The label table of `program`.
    pub fn extract_labels(program: &Vec<Instruction>) -> (labels: LabelTable)
        ensures
            labels@ == label_table(program_view(program@)),
    {
        LabelTable::of_program(program)
    }

    /// The value of the cell at `reg`; 0 if it was never written.
    pub fn get(&self, reg: Number) -> (value: Number)
        ensures
            value == self@.value_at(reg),
    {
        match self.memory.get(&reg) {
            None => 0,
            Some(value) => *value,
        }
    }

    /// Stores `value` in the cell at `reg`.
    fn set(&mut self, reg: Number, value: Number)
        ensures
            final(self)@ == old(self)@.with_cell(reg, value),
            final(self).labels_resolved() == old(self).labels_resolved(),
    {
        self.memory.insert(reg, value);
    }

    /// The cells written so far.
    pub fn get_memory(&self) -> (memory: &HashMap<Number, Number>)
        ensures
            memory@ == self@.store,
    {
        &self.memory
    }

    /// How many values of the input tape have been read.
    pub fn get_input_pointer(&self) -> (cursor: Index)
        ensures
            cursor == self@.cursor,
    {
        self.input_pointer
    }

    /// The input tape, read and unread values alike.
    pub fn get_input(&self) -> (input: &Vec<Number>)
        ensures
            input@ == self@.input,
    {
        &self.input_tape
    }

    /// The values written so far.
    pub fn get_output(&self) -> (output: &Vec<Number>)
        ensures
            output@ == self@.output,
    {
        &self.output_tape
    }

    /// The program, placeholders included.
    pub fn get_program(&self) -> (program: &Vec<Instruction>)
        ensures
            program_view(program@) == self@.program,
    {
        &self.program
    }

    /// The position of the next instruction.
    pub fn get_instruction_pointer(&self) -> (pointer: Index)
        ensures
            pointer == self@.pointer,
    {
        self.instruction_pointer
    }

    /// `a op b`, or the error of a division by zero.
    pub fn apply_op(op: Op, a: Number, b: Number) -> (r: Result<Number, RuntimeError>)
        ensures
            r == (if op == Op::Div && b == 0 {
                Err::<Number, RuntimeError>(RuntimeError::DivisionByZero)
            } else {
                Ok(op.apply_spec(a, b))
            }),
    {
        match op.apply(a, b) {
            Some(value) => Ok(value),
            None => Err(RuntimeError::DivisionByZero),
        }
    }

    /// Whether `a rel b` holds.
    pub fn apply_rel(rel: Rel, a: Number, b: Number) -> (r: bool)
        ensures
            r == rel.holds_spec(a, b),
    {
        rel.holds(a, b)
    }

    /// Moves the pointer past the placeholders under it.
    fn skip_empty(&mut self)
        requires
            old(self)@.pointer <= old(self)@.program.len(),
        ensures
            final(self)@ == (MachineState {
                pointer: first_executable(old(self)@.program, old(self)@.pointer),
                ..old(self)@
            }),
            final(self).labels_resolved() == old(self).labels_resolved(),
    {
        while self.instruction_pointer != self.program.len()
            && self.program[self.instruction_pointer].op.is_empty()
            invariant
                self.instruction_pointer <= self.program.len(),
                self.program == old(self).program,
                self.memory == old(self).memory,
                self.labels == old(self).labels,
                self.input_pointer == old(self).input_pointer,
                self.input_tape == old(self).input_tape,
                self.output_tape == old(self).output_tape,
                first_executable(old(self)@.program, old(self)@.pointer) == first_executable(
                    self@.program,
                    self.instruction_pointer as nat,
                ),
            decreases self.program.len() - self.instruction_pointer,
        {
            self.instruction_pointer += 1;
        }
    }

    /// Sets the pointer to the first instruction to execute at or after
    /// `position`.
    fn continue_at(&mut self, position: Index) -> (r: StepResult)
        requires
            position <= old(self)@.program.len(),
        ensures
            final(self)@ == old(self)@.continue_at(position as nat).state,
            Ok::<StepResult, RuntimeErrorView>(r) == old(self)@.continue_at(position as nat).result,
            final(self)@.wf(),
            final(self).labels_resolved() == old(self).labels_resolved(),
    {
        self.instruction_pointer = position;
        self.skip_empty();
        proof {
            lemma_first_executable(old(self)@.program, position as nat);
        }
        if self.instruction_pointer >= self.program.len() {
            StepResult::Halted
        } else {
            StepResult::Continuing
        }
    }

    /// Goes on at the instruction that `target` is, or fails for `label`.
    fn jump(&mut self, target: Option<Index>, label: Label) -> (r: Result<StepResult, RuntimeError>)
        requires
            old(self).wf(),
            match target {
                Some(index) => label_table(old(self)@.program).contains_key(label@) && label_table(
                    old(self)@.program,
                )[label@] == index,
                None => !label_table(old(self)@.program).contains_key(label@),
            },
        ensures
            final(self).wf(),
            final(self)@ == old(self)@.jump(label@).state,
            step_result_view(r) == old(self)@.jump(label@).result,
    {
        match target {
            Some(index) => {
                proof {
                    crate::ram::labels::lemma_label_table_last_wins(self@.program, label@);
                }
                Ok(self.continue_at(index))
            },
            None => Err(RuntimeError::LabelNotFound(label)),
        }
    }

    /// Executes the instruction under the pointer and moves the pointer on,
    /// past any placeholders. A halted machine is left as it is and reports
    /// `Halted`; a failed step leaves the machine as it was.
    pub fn step(&mut self) -> (r: Result<StepResult, RuntimeError>)
        requires
            old(self).wf(),
        ensures
            final(self).wf(),
            final(self)@ == old(self)@.step().state,
            step_result_view(r) == old(self)@.step().result,
            old(self)@.halted() ==> (r matches Ok(StepResult::Halted)),
            old(self)@.halted() ==> final(self)@ == old(self)@,
            (r matches Ok(StepResult::Halted)) ==> final(self)@.halted(),
            r is Err ==> final(self)@ == old(self)@,
    {
        proof {
            lemma_halted_means_halted(self@, 0);
            lemma_failed_step_changes_nothing(self@);
        }
        if self.instruction_pointer >= self.program.len() {
            return Ok(StepResult::Halted);
        }
        let pointer = self.instruction_pointer;
        assert(self@.program[pointer as int] == self.program@[pointer as int]@);
        match &self.program[pointer].op {
            InstructionOp::AssignFromConst(target, value) => {
                let (target, value) = (*target, *value);
                self.set(target, value);
            },
            InstructionOp::AssignFromRegister(target, source) => {
                let target = *target;
                let value = self.get(*source);
                self.set(target, value);
            },
            InstructionOp::Load(target, source) => {
                let target = *target;
                let value = self.get(self.get(*source));
                self.set(target, value);
            },
            InstructionOp::Store(target, source) => {
                let address = self.get(*target);
                let value = self.get(*source);
                self.set(address, value);
            },
            InstructionOp::ArithmeticRegOpReg(target, source1, op, source2) => {
                let target = *target;
                let result = RamMachine::apply_op(*op, self.get(*source1), self.get(*source2))?;
                self.set(target, result);
            },
            InstructionOp::ArithmeticRegOpConst(target, source, op, value) => {
                let target = *target;
                let result = RamMachine::apply_op(*op, self.get(*source), *value)?;
                self.set(target, result);
            },
            InstructionOp::Jump(label) => {
                let target = self.labels.get(label);
                let label = label.clone();
                return self.jump(target, label);
            },
            InstructionOp::CondJumpRegRelReg(reg1, rel, reg2, label) => {
                if RamMachine::apply_rel(*rel, self.get(*reg1), self.get(*reg2)) {
                    let target = self.labels.get(label);
                    let label = label.clone();
                    return self.jump(target, label);
                }
            },
            InstructionOp::CondJumpRegRelConst(reg, rel, value, label) => {
                if RamMachine::apply_rel(*rel, self.get(*reg), *value) {
                    let target = self.labels.get(label);
                    let label = label.clone();
                    return self.jump(target, label);
                }
            },
            InstructionOp::Halt => {
                return Ok(StepResult::Halted);
            },
            InstructionOp::Read(reg) => {
                let reg = *reg;
                if self.input_pointer >= self.input_tape.len() {
                    return Err(RuntimeError::InputExhausted);
                }
                let value = self.input_tape[self.input_pointer];
                self.input_pointer += 1;
                self.set(reg, value);
            },
            InstructionOp::Write(reg) => {
                let value = self.get(*reg);
                self.output_tape.push(value);
            },
            InstructionOp::Empty => {
                return unreached();
            },
        }
        Ok(self.continue_at(pointer + 1))
    }

    /// Steps the machine until a step halts or fails, but at most `budget`
    /// times. Returns `Continuing` when the budget ran out first.
    pub fn run_bounded(&mut self, budget: usize) -> (r: Result<StepResult, RuntimeError>)
        requires
            old(self).wf(),
        ensures
            final(self).wf(),
            final(self)@ == old(self)@.run(budget as nat).state,
            step_result_view(r) == old(self)@.run(budget as nat).result,
    {
        let mut left = budget;
        while left > 0
            invariant
                self.wf(),
                self@.run(left as nat) == old(self)@.run(budget as nat),
            decreases left,
        {
            match self.step() {
                Ok(StepResult::Continuing) => {},
                Ok(StepResult::Halted) => {
                    return Ok(StepResult::Halted);
                },
                Err(error) => {
                    return Err(error);
                },
            }
            left -= 1;
        }
        Ok(StepResult::Continuing)
    }

    /// Steps the machine until a step halts or fails, and returns the
    /// failure if there was one. On a machine that does neither, this does
    /// not return: hence the precondition.
    pub fn run(&mut self) -> (r: Result<(), RuntimeError>)
        requires
            old(self).wf(),
            old(self)@.terminates(),
        ensures
            final(self).wf(),
            forall|budget: nat| #[trigger]
                old(self)@.stops_within(budget) ==> {
                    &&& final(self)@ == old(self)@.run(budget).state
                    &&& run_result_view(r) == old(self)@.run(budget).result
                },
            r is Ok ==> final(self)@.halted(),
    {
        let ghost total = choose|budget: nat| old(self)@.stops_within(budget);
        let ghost mut left = total;
        loop
            invariant
                self.wf(),
                self@.stops_within(left),
                self@.run(left) == old(self)@.run(total),
                old(self)@.stops_within(total),
            decreases left,
        {
            match self.step() {
                Ok(StepResult::Continuing) => {
                    proof {
                        left = (left - 1) as nat;
                    }
                },
                Ok(StepResult::Halted) => {
                    proof {
                        lemma_run_agrees(old(self)@, total);
                    }
                    return Ok(());
                },
                Err(error) => {
                    proof {
                        lemma_run_agrees(old(self)@, total);
                    }
                    return Err(error);
                },
            }
        }
    }
}

} // verus!
