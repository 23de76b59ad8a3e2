//! Writing an operation as text and reading the text gives the operation
//! back.

use vstd::prelude::*;
use crate::parser::grammar;
use crate::parser::round_trip::forms::{
    lemma_cond_jump_is_readable, lemma_jump_is_readable, lemma_operation_is_a_form,
    lemma_other_forms_are_readable, lemma_reads_back_arithmetic_const,
    lemma_reads_back_arithmetic_reg, lemma_reads_back_assign_from_const,
    lemma_reads_back_assign_from_register, lemma_reads_back_cond_jump_const,
    lemma_reads_back_cond_jump_reg, lemma_reads_back_halt, lemma_reads_back_jump,
    lemma_reads_back_load, lemma_reads_back_read, lemma_reads_back_store, lemma_reads_back_write,
};
use crate::parser::round_trip::lines::{
    lemma_code_of_line, lemma_label_lacks_hash, lemma_lacks_trimmed, lemma_operation_text_of_code,
    lemma_text_lacks_hash, lemma_trimmed_text, lemma_trimmed_text_has_no_label,
    lemma_trimmed_text_reads_back,
};
use crate::ram::instruction::InstructionView;
use crate::ram::instruction_op::InstructionOpView;
use crate::ram::syntax::{blank, goto_word};
use crate::text::search::{contains, lemma_lacks_is_not_found};
use crate::text::space::{is_space, is_trimmed, trimmed};

pub mod forms;
pub mod lines;
pub mod pieces;

verus! {

/// A character that is no white space, begins neither `:=` nor `goto` nor a
/// comment.
pub open spec fn is_plain(c: char) -> bool {
    !is_space(c) && c != ':' && c != 'g' && c != '#'
}

/// Every character of `s` is plain.
pub open spec fn plain(s: Seq<char>) -> bool {
    forall|i: int| 0 <= i < s.len() ==> is_plain(#[trigger] s[i])
}

/// Every character of `s` is plain or a blank.
pub open spec fn quiet(s: Seq<char>) -> bool {
    forall|i: int| 0 <= i < s.len() ==> is_plain(#[trigger] s[i]) || s[i] == ' '
}

/// A label as the grammar gives it: trimmed, and without the word `goto`.
pub open spec fn is_label(label: Seq<char>) -> bool {
    is_trimmed(label) && !contains(label, goto_word())
}

/// What holds of every operation that the grammar gives: its addresses are
/// not negative, its label is one that the grammar gives, and it is no
/// placeholder.
pub open spec fn readable(op: InstructionOpView) -> bool {
    match op {
        InstructionOpView::AssignFromConst(a, v) => a >= 0,
        InstructionOpView::AssignFromRegister(a, b) => a >= 0 && b >= 0,
        InstructionOpView::Load(a, b) => a >= 0 && b >= 0,
        InstructionOpView::Store(a, b) => a >= 0 && b >= 0,
        InstructionOpView::ArithmeticRegOpReg(a, b, op, c) => a >= 0 && b >= 0 && c >= 0,
        InstructionOpView::ArithmeticRegOpConst(a, b, op, v) => a >= 0 && b >= 0,
        InstructionOpView::Jump(label) => is_label(label),
        InstructionOpView::CondJumpRegRelReg(a, rel, b, label) => a >= 0 && b >= 0 && is_label(
            label,
        ),
        InstructionOpView::CondJumpRegRelConst(a, rel, v, label) => a >= 0 && is_label(label),
        InstructionOpView::Read(a) => a >= 0,
        InstructionOpView::Write(a) => a >= 0,
        InstructionOpView::Halt => true,
        InstructionOpView::Empty => false,
    }
}

/// Reading the text of a readable operation gives the operation.
pub proof fn lemma_text_reads_back(op: InstructionOpView)
    requires
        readable(op),
    ensures
        grammar::operation(op.text()) == Some(op),
{
    match op {
        InstructionOpView::AssignFromConst(a, v) => lemma_reads_back_assign_from_const(a, v),
        InstructionOpView::AssignFromRegister(a, b) => lemma_reads_back_assign_from_register(a, b),
        InstructionOpView::Load(a, b) => lemma_reads_back_load(a, b),
        InstructionOpView::Store(a, b) => lemma_reads_back_store(a, b),
        InstructionOpView::ArithmeticRegOpReg(a, b, op, c) => lemma_reads_back_arithmetic_reg(
            a,
            b,
            op,
            c,
        ),
        InstructionOpView::ArithmeticRegOpConst(a, b, op, v) => lemma_reads_back_arithmetic_const(
            a,
            b,
            op,
            v,
        ),
        InstructionOpView::Jump(label) => lemma_reads_back_jump(label),
        InstructionOpView::CondJumpRegRelReg(a, rel, b, label) => lemma_reads_back_cond_jump_reg(
            a,
            rel,
            b,
            label,
        ),
        InstructionOpView::CondJumpRegRelConst(a, rel, v, label) =>
            lemma_reads_back_cond_jump_const(a, rel, v, label),
        InstructionOpView::Read(a) => lemma_reads_back_read(a),
        InstructionOpView::Write(a) => lemma_reads_back_write(a),
        InstructionOpView::Halt => lemma_reads_back_halt(),
        InstructionOpView::Empty => {},
    }
}

/// Every operation that the grammar gives is readable.
pub proof fn lemma_operation_is_readable(source: Seq<char>)
    ensures
        match grammar::operation(source) {
            Some(op) => readable(op),
            None => true,
        },
{
    lemma_jump_is_readable(source);
    lemma_cond_jump_is_readable(source);
    lemma_other_forms_are_readable(source);
    lemma_operation_is_a_form(source);
}

/// Writing an operation that was read and reading the text gives the same
/// operation: for every text that the grammar reads as an operation, the
/// text of that operation reads as that operation.
pub proof fn lemma_read_write_read(source: Seq<char>, op: InstructionOpView)
    requires
        grammar::operation(source) == Some(op),
    ensures
        grammar::operation(op.text()) == Some(op),
{
    lemma_operation_is_readable(source);
    lemma_text_reads_back(op);
}

/// The label that an operation jumps to; empty where it is no jump.
pub open spec fn label_of(op: InstructionOpView) -> Seq<char> {
    match op {
        InstructionOpView::Jump(label) => label,
        InstructionOpView::CondJumpRegRelReg(a, rel, b, label) => label,
        InstructionOpView::CondJumpRegRelConst(a, rel, v, label) => label,
        _ => Seq::empty(),
    }
}

/// Writing the operation of a source line and reading the text as a source
/// line gives the same operation, without label and comment. This holds
/// unless the text of the operation, read as a line, begins with a label:
/// as does the text of a jump to a label that holds a colon.
pub proof fn lemma_line_read_write_read(line: Seq<char>, instruction: InstructionView)
    requires
        grammar::source_line(line) == Some(instruction),
        !(instruction.op is Empty),
        grammar::split_line(instruction.op.text()).0 is None,
    ensures
        grammar::source_line(instruction.op.text()) == Some(
            InstructionView { label: None, op: instruction.op, comment: None },
        ),
{
    let op = instruction.op;
    let code = lemma_code_of_line(line, instruction);
    let source = grammar::split_line(code).1;
    lemma_operation_text_of_code(code);
    lemma_operation_is_readable(source);
    lemma_label_lacks_hash(source);
    lemma_text_lacks_hash(op);
    lemma_lacks_trimmed(op.text(), '#');
    lemma_trimmed_text(op);
    let t = trimmed(op.text());
    lemma_lacks_is_not_found(t, '#');
    lemma_trimmed_text_reads_back(op);
    lemma_trimmed_text_has_no_label(op);
}

} // verus!
