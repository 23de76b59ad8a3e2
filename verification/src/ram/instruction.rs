//! A program line: an operation with its optional label and comment.

use vstd::prelude::*;
use crate::ram::instruction_op::{InstructionOp, InstructionOpView};
use crate::ram::types::Label;

verus! {

/// One line of a program. The label names the line as a jump target; the
/// comment is kept for listings only.
#[derive(Debug, Clone, PartialEq)]
pub struct Instruction {
    pub label: Option<Label>,
    pub op: InstructionOp,
    pub comment: Option<String>,
}

/// The mathematical content of an [`Instruction`].
pub struct InstructionView {
    pub label: Option<Seq<char>>,
    pub op: InstructionOpView,
    pub comment: Option<Seq<char>>,
}

/// The characters of an optional string.
pub open spec fn text_of(s: Option<String>) -> Option<Seq<char>> {
    match s {
        Some(t) => Some(t@),
        None => None,
    }
}

impl View for Instruction {
    type V = InstructionView;

    open spec fn view(&self) -> InstructionView {
        InstructionView { label: text_of(self.label), op: self.op@, comment: text_of(self.comment) }
    }
}

/// The mathematical content of a program.
pub open spec fn program_view(program: Seq<Instruction>) -> Seq<InstructionView> {
    program.map_values(|i: Instruction| i@)
}

impl Instruction {
    /// An instruction with no label and no comment.
    pub fn new(instruction: InstructionOp) -> (r: Instruction)
        ensures
            r@ == (InstructionView { label: None, op: instruction@, comment: None }),
    {
        Instruction { label: None, op: instruction, comment: None }
    }

    /// The same instruction under the given label.
    pub fn with_label(self, label: &str) -> (r: Instruction)
        ensures
            r@ == (InstructionView { label: Some(label@), ..self@ }),
    {
        Instruction { label: Some(label.to_owned()), op: self.op, comment: self.comment }
    }

    /// The same instruction with the given comment.
    pub fn with_comment(self, comment: &str) -> (r: Instruction)
        ensures
            r@ == (InstructionView { comment: Some(comment@), ..self@ }),
    {
        Instruction { label: self.label, op: self.op, comment: Some(comment.to_owned()) }
    }
}

} // verus!
