//! What a step of the machine reports.

use vstd::prelude::*;
use vstd::string::StringExecFns;
use crate::ram::types::Label;

verus! {

/// How a step that did not fail left the machine.
#[derive(Debug, Clone, Copy, PartialEq, Eq, Structural)]
pub enum StepResult {
    /// There is a next instruction to execute.
    Continuing,
    /// A `halt` was executed, or the program has run off its end.
    Halted,
}

/// Why a step failed. A failed step leaves the machine as it was.
#[derive(Debug, Clone, PartialEq, Eq)]
pub enum RuntimeError {
    /// A jump names a label that no instruction carries.
    LabelNotFound(Label),
    /// A read found the input tape used up.
    InputExhausted,
    /// A division had a zero divisor.
    DivisionByZero,
}

/// The mathematical content of a [`RuntimeError`].
pub enum RuntimeErrorView {
    LabelNotFound(Seq<char>),
    InputExhausted,
    DivisionByZero,
}

impl View for RuntimeError {
    type V = RuntimeErrorView;

    open spec fn view(&self) -> RuntimeErrorView {
        match *self {
            RuntimeError::LabelNotFound(name) => RuntimeErrorView::LabelNotFound(name@),
            RuntimeError::InputExhausted => RuntimeErrorView::InputExhausted,
            RuntimeError::DivisionByZero => RuntimeErrorView::DivisionByZero,
        }
    }
}

impl RuntimeErrorView {
    /// The failure in words.
    pub open spec fn message(self) -> Seq<char> {
        match self {
            RuntimeErrorView::LabelNotFound(name) => "Label "@ + name + " not found"@,
            RuntimeErrorView::InputExhausted => "The input tape is empty"@,
            RuntimeErrorView::DivisionByZero => "Division by zero"@,
        }
    }
}

impl RuntimeError {
    /// The failure in words.
    pub fn message(&self) -> (message: String)
        ensures
            message@ == self@.message(),
    {
        match self {
            RuntimeError::LabelNotFound(name) => {
                let mut message = String::from_str("Label ");
                message.append(name.as_str());
                message.append(" not found");
                message
            },
            RuntimeError::InputExhausted => String::from_str("The input tape is empty"),
            RuntimeError::DivisionByZero => String::from_str("Division by zero"),
        }
    }
}

/// The mathematical content of what a step returns.
pub open spec fn step_result_view(r: Result<StepResult, RuntimeError>) -> Result<
    StepResult,
    RuntimeErrorView,
> {
    match r {
        Ok(s) => Ok(s),
        Err(e) => Err(e@),
    }
}

} // verus!
