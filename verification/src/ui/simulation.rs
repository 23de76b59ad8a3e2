//! A simulation: a machine that is stepped key by key.

use vstd::prelude::*;
use vstd::utf8::encode_utf8;
use crate::ram::error::{RuntimeError, RuntimeErrorView, StepResult};
use crate::ram::instruction::{program_view, InstructionView};
use crate::ram::machine::RamMachine;
use crate::ram::state::MachineState;
use crate::ui::key::Key;

verus! {

/// What the caller is to do after a key.
#[derive(Debug, Clone, Copy, PartialEq, Eq, Structural)]
pub enum SimulationHandleResult {
    /// Nothing: wait for the next key.
    Continue,
    /// Go back to the menu.
    Exit,
}

/// How far the simulation has come.
#[derive(Debug, Clone, PartialEq, Eq)]
pub enum SimulationState {
    /// The machine can be stepped.
    Running,
    /// The machine has halted.
    Finished,
    /// A step of the machine has failed.
    Error(RuntimeError),
}

/// The mathematical content of a [`SimulationState`].
pub enum SimulationStateView {
    Running,
    Finished,
    Error(RuntimeErrorView),
}

impl View for SimulationState {
    type V = SimulationStateView;

    open spec fn view(&self) -> SimulationStateView {
        match self {
            SimulationState::Running => SimulationStateView::Running,
            SimulationState::Finished => SimulationStateView::Finished,
            SimulationState::Error(error) => SimulationStateView::Error(error@),
        }
    }
}

/// The number of bytes that a label takes in a listing.
pub open spec fn label_width(label: Option<Seq<char>>) -> nat {
    match label {
        Some(label) => encode_utf8(label).len(),
        None => 0,
    }
}

/// The width of the widest label of a program; 0 if it has none.
pub open spec fn widest_label(program: Seq<InstructionView>) -> nat
    decreases program.len(),
{
    if program.len() == 0 {
        0
    } else {
        let earlier = widest_label(program.drop_last());
        let last = label_width(program.last().label);
        if last > earlier {
            last
        } else {
            earlier
        }
    }
}

/// What a simulation holds.
pub struct SimulationView {
    /// The name of the program.
    pub name: Seq<char>,
    pub machine: MachineState,
    /// The width that the listing leaves for labels.
    pub label_indent: nat,
    pub state: SimulationStateView,
}

impl SimulationView {
    /// What the key for a step does: a running machine takes one step, and
    /// the simulation ends where the machine halts or fails.
    pub open spec fn stepped(self) -> SimulationView {
        if self.state is Running {
            let outcome = self.machine.step();
            SimulationView {
                machine: outcome.state,
                state: match outcome.result {
                    Ok(StepResult::Continuing) => SimulationStateView::Running,
                    Ok(StepResult::Halted) => SimulationStateView::Finished,
                    Err(error) => SimulationStateView::Error(error),
                },
                ..self
            }
        } else {
            self
        }
    }

    /// What a key does: the blank and the enter key step the machine, the
    /// escape key leaves, any other key does nothing.
    pub open spec fn handled(self, key: Key) -> (SimulationView, SimulationHandleResult) {
        match key {
            Key::Char(c) => if c == ' ' {
                (self.stepped(), SimulationHandleResult::Continue)
            } else {
                (self, SimulationHandleResult::Continue)
            },
            Key::Enter => (self.stepped(), SimulationHandleResult::Continue),
            Key::Esc => (self, SimulationHandleResult::Exit),
            _ => (self, SimulationHandleResult::Continue),
        }
    }
}

/// A machine under its program's name, stepped key by key.
#[derive(Debug)]
pub struct Simulation {
    name: String,
    machine: RamMachine,
    label_indent: usize,
    state: SimulationState,
}

impl View for Simulation {
    type V = SimulationView;

    closed spec fn view(&self) -> SimulationView {
        SimulationView {
            name: self.name@,
            machine: self.machine@,
            label_indent: self.label_indent as nat,
            state: self.state@,
        }
    }
}

impl Simulation {
    /// The machine is well-formed.
    pub closed spec fn wf(&self) -> bool {
        self.machine.wf()
    }

    /// A simulation of `machine` that is ready to run.
    pub fn new(name: String, machine: RamMachine) -> (simulation: Simulation)
        requires
            machine.wf(),
        ensures
            simulation.wf(),
            simulation@.name == name@,
            simulation@.machine == machine@,
            simulation@.state is Running,
            simulation@.label_indent == widest_label(machine@.program),
    {
        let program = machine.get_program();
        let mut label_indent: usize = 0;
        let mut i: usize = 0;
        while i < program.len()
            invariant
                i <= program.len(),
                program_view(program@) == machine@.program,
                label_indent == widest_label(machine@.program.take(i as int)),
            decreases program.len() - i,
        {
            assert(machine@.program.take(i + 1).drop_last() == machine@.program.take(i as int));
            assert(machine@.program.take(i + 1).last() == program@[i as int]@);
            match &program[i].label {
                Some(label) => {
                    let width = label.as_str().as_bytes().len();
                    if width > label_indent {
                        label_indent = width;
                    }
                },
                None => {},
            }
            i += 1;
        }
        assert(machine@.program.take(program.len() as int) == machine@.program);
        Simulation { name, machine, label_indent, state: SimulationState::Running }
    }

    /// The name of the program.
    pub fn name(&self) -> (name: &String)
        ensures
            name@ == self@.name,
    {
        &self.name
    }

    /// The machine.
    pub fn machine(&self) -> (machine: &RamMachine)
        ensures
            machine@ == self@.machine,
    {
        &self.machine
    }

    /// The width that the listing leaves for labels.
    pub fn label_indent(&self) -> (width: usize)
        ensures
            width == self@.label_indent,
    {
        self.label_indent
    }

    /// How far the simulation has come.
    pub fn state(&self) -> (state: &SimulationState)
        ensures
            state@ == self@.state,
    {
        &self.state
    }

    /// Reacts to a key.
    pub fn handle_input(&mut self, key: Key) -> (r: SimulationHandleResult)
        requires
            old(self).wf(),
        ensures
            final(self).wf(),
            (final(self)@, r) == old(self)@.handled(key),
    {
        match key {
            Key::Char(c) => {
                if c == ' ' {
                    self.step();
                }
                SimulationHandleResult::Continue
            },
            Key::Enter => {
                self.step();
                SimulationHandleResult::Continue
            },
            Key::Esc => SimulationHandleResult::Exit,
            _ => SimulationHandleResult::Continue,
        }
    }

    /// Steps the machine if it is running, and notes where it halts or
    /// fails.
    pub fn step(&mut self)
        requires
            old(self).wf(),
        ensures
            final(self).wf(),
            final(self)@ == old(self)@.stepped(),
    {
        match self.state {
            SimulationState::Running => {},
            _ => {
                return;
            },
        }
        match self.machine.step() {
            Ok(StepResult::Halted) => {
                self.state = SimulationState::Finished;
            },
            Ok(StepResult::Continuing) => {},
            Err(error) => {
                self.state = SimulationState::Error(error);
            },
        }
    }
}

} // verus!
