//! The operations an instruction can carry.

use vstd::prelude::*;
use crate::ram::op::Op;
use crate::ram::rel::Rel;
use crate::ram::syntax::{
    assign_sign, blank, goto_word, halt_word, if_word, read_word, write_word,
};
use crate::ram::types::{Label, Number};
use crate::text::convert::{chars_of, push_all, string_of};
use crate::text::number::{push_signed_decimal, signed_decimal};

verus! {

/// One operation of the machine. Addresses and values are plain numbers: the
/// address `7` is the store cell that source text calls `R7`.
#[derive(Debug, Clone, PartialEq)]
pub enum InstructionOp {
    /// `Ra := c`
    AssignFromConst(Number, Number),
    /// `Ra := Rb`
    AssignFromRegister(Number, Number),
    /// `Ra := [Rb]`
    Load(Number, Number),
    /// `[Ra] := Rb`
    Store(Number, Number),
    /// `Ra := Rb op Rc`
    ArithmeticRegOpReg(Number, Number, Op, Number),
    /// `Ra := Rb op c`
    ArithmeticRegOpConst(Number, Number, Op, Number),
    /// `goto label`
    Jump(Label),
    /// `if (Ra rel Rb) goto label`
    CondJumpRegRelReg(Number, Rel, Number, Label),
    /// `if (Ra rel c) goto label`
    CondJumpRegRelConst(Number, Rel, Number, Label),
    /// `Ra := read()`
    Read(Number),
    /// `write(Ra)`
    Write(Number),
    /// `halt`
    Halt,
    /// A blank or comment-only source line; kept for listings, never executed.
    Empty,
}

/// The mathematical content of an [`InstructionOp`]: the same variants, with
/// labels as sequences of characters.
pub enum InstructionOpView {
    AssignFromConst(Number, Number),
    AssignFromRegister(Number, Number),
    Load(Number, Number),
    Store(Number, Number),
    ArithmeticRegOpReg(Number, Number, Op, Number),
    ArithmeticRegOpConst(Number, Number, Op, Number),
    Jump(Seq<char>),
    CondJumpRegRelReg(Number, Rel, Number, Seq<char>),
    CondJumpRegRelConst(Number, Rel, Number, Seq<char>),
    Read(Number),
    Write(Number),
    Halt,
    Empty,
}

impl View for InstructionOp {
    type V = InstructionOpView;

    open spec fn view(&self) -> InstructionOpView {
        match *self {
            InstructionOp::AssignFromConst(a, v) => InstructionOpView::AssignFromConst(a, v),
            InstructionOp::AssignFromRegister(a, b) => InstructionOpView::AssignFromRegister(a, b),
            InstructionOp::Load(a, b) => InstructionOpView::Load(a, b),
            InstructionOp::Store(a, b) => InstructionOpView::Store(a, b),
            InstructionOp::ArithmeticRegOpReg(a, b, op, c) => InstructionOpView::ArithmeticRegOpReg(
                a,
                b,
                op,
                c,
            ),
            InstructionOp::ArithmeticRegOpConst(a, b, op, v) =>
                InstructionOpView::ArithmeticRegOpConst(a, b, op, v),
            InstructionOp::Jump(l) => InstructionOpView::Jump(l@),
            InstructionOp::CondJumpRegRelReg(a, rel, b, l) => InstructionOpView::CondJumpRegRelReg(
                a,
                rel,
                b,
                l@,
            ),
            InstructionOp::CondJumpRegRelConst(a, rel, v, l) =>
                InstructionOpView::CondJumpRegRelConst(a, rel, v, l@),
            InstructionOp::Read(a) => InstructionOpView::Read(a),
            InstructionOp::Write(a) => InstructionOpView::Write(a),
            InstructionOp::Halt => InstructionOpView::Halt,
            InstructionOp::Empty => InstructionOpView::Empty,
        }
    }
}

/// The source text of the cell at `address`: `R` and the address.
pub open spec fn register_text(address: Number) -> Seq<char> {
    seq!['R'] + signed_decimal(address as int)
}

/// The source text of the cell that the cell at `address` points to.
pub open spec fn memory_access_text(address: Number) -> Seq<char> {
    seq!['['] + register_text(address) + seq![']']
}

/// `left := right`, with one blank on each side of the sign.
pub open spec fn assignment_text(left: Seq<char>, right: Seq<char>) -> Seq<char> {
    left + blank() + assign_sign() + blank() + right
}

/// `left sign right`, with one blank on each side of the sign.
pub open spec fn infix_text(left: Seq<char>, sign: Seq<char>, right: Seq<char>) -> Seq<char> {
    left + blank() + sign + blank() + right
}

/// `if (condition) goto label`
pub open spec fn cond_jump_text(condition: Seq<char>, label: Seq<char>) -> Seq<char> {
    if_word() + blank() + seq!['('] + condition + seq![')'] + blank() + goto_word() + blank()
        + label
}

impl InstructionOpView {
    /// The operation as source text.
    pub open spec fn text(self) -> Seq<char> {
        match self {
            InstructionOpView::AssignFromConst(a, v) => assignment_text(
                register_text(a),
                signed_decimal(v as int),
            ),
            InstructionOpView::AssignFromRegister(a, b) => assignment_text(
                register_text(a),
                register_text(b),
            ),
            InstructionOpView::Load(a, b) => assignment_text(
                register_text(a),
                memory_access_text(b),
            ),
            InstructionOpView::Store(a, b) => assignment_text(
                memory_access_text(a),
                register_text(b),
            ),
            InstructionOpView::ArithmeticRegOpReg(a, b, op, c) => assignment_text(
                register_text(a),
                infix_text(register_text(b), op.symbol_spec(), register_text(c)),
            ),
            InstructionOpView::ArithmeticRegOpConst(a, b, op, v) => assignment_text(
                register_text(a),
                infix_text(register_text(b), op.symbol_spec(), signed_decimal(v as int)),
            ),
            InstructionOpView::Jump(label) => goto_word() + blank() + label,
            InstructionOpView::CondJumpRegRelReg(a, rel, b, label) => cond_jump_text(
                infix_text(register_text(a), rel.symbol_spec(), register_text(b)),
                label,
            ),
            InstructionOpView::CondJumpRegRelConst(a, rel, v, label) => cond_jump_text(
                infix_text(register_text(a), rel.symbol_spec(), signed_decimal(v as int)),
                label,
            ),
            InstructionOpView::Read(a) => assignment_text(
                register_text(a),
                read_word() + seq!['(', ')'],
            ),
            InstructionOpView::Write(a) => write_word() + seq!['('] + register_text(a) + seq![')'],
            InstructionOpView::Halt => halt_word(),
            InstructionOpView::Empty => Seq::empty(),
        }
    }
}

/// The source text of the cell at `address`.
fn register_chars(address: Number) -> (out: Vec<char>)
    ensures
        out@ == register_text(address),
{
    let mut out: Vec<char> = Vec::new();
    out.push('R');
    push_signed_decimal(&mut out, address);
    out
}

/// The source text of the cell that the cell at `address` points to.
fn memory_access_chars(address: Number) -> (out: Vec<char>)
    ensures
        out@ == memory_access_text(address),
{
    let mut out: Vec<char> = Vec::new();
    out.push('[');
    push_all(&mut out, register_chars(address).as_slice());
    out.push(']');
    out
}

/// The numeral of `value`.
fn value_chars(value: Number) -> (out: Vec<char>)
    ensures
        out@ == signed_decimal(value as int),
{
    let mut out: Vec<char> = Vec::new();
    push_signed_decimal(&mut out, value);
    assert(Seq::<char>::empty() + signed_decimal(value as int) =~= signed_decimal(value as int));
    out
}

/// `left := right`
fn assignment_chars(left: Vec<char>, right: &[char]) -> (out: Vec<char>)
    ensures
        out@ == assignment_text(left@, right@),
{
    let sign: [char; 4] = [' ', ':', '=', ' '];
    assert(sign@ =~= blank() + assign_sign() + blank());
    let mut out = left;
    push_all(&mut out, sign.as_slice());
    push_all(&mut out, right);
    assert(out@ =~= assignment_text(left@, right@));
    out
}

/// `left sign right`
fn infix_chars(left: Vec<char>, sign: &[char], right: &[char]) -> (out: Vec<char>)
    ensures
        out@ == infix_text(left@, sign@, right@),
{
    let mut out = left;
    out.push(' ');
    push_all(&mut out, sign);
    out.push(' ');
    push_all(&mut out, right);
    assert(out@ =~= infix_text(left@, sign@, right@));
    out
}

/// `goto label`
fn jump_chars(label: &Label) -> (out: Vec<char>)
    ensures
        out@ == goto_word() + blank() + label@,
{
    let word: [char; 5] = ['g', 'o', 't', 'o', ' '];
    assert(word@ =~= goto_word() + blank());
    let mut out: Vec<char> = Vec::new();
    push_all(&mut out, word.as_slice());
    push_all(&mut out, chars_of(label.as_str()).as_slice());
    assert(out@ =~= goto_word() + blank() + label@);
    out
}

/// `if (condition) goto label`
fn cond_jump_chars(condition: &[char], label: &Label) -> (out: Vec<char>)
    ensures
        out@ == cond_jump_text(condition@, label@),
{
    let head: [char; 4] = ['i', 'f', ' ', '('];
    assert(head@ =~= if_word() + blank() + seq!['(']);
    let mut out: Vec<char> = Vec::new();
    push_all(&mut out, head.as_slice());
    push_all(&mut out, condition);
    out.push(')');
    out.push(' ');
    push_all(&mut out, jump_chars(label).as_slice());
    assert(out@ =~= cond_jump_text(condition@, label@));
    out
}

/// The source text of an arithmetic operator.
fn operator_chars(op: Op) -> (out: Vec<char>)
    ensures
        out@ == op.symbol_spec(),
{
    let mut out: Vec<char> = Vec::new();
    op.push_symbol(&mut out);
    assert(Seq::<char>::empty() + op.symbol_spec() =~= op.symbol_spec());
    out
}

/// The source text of a relation.
fn relation_chars(rel: Rel) -> (out: Vec<char>)
    ensures
        out@ == rel.symbol_spec(),
{
    let mut out: Vec<char> = Vec::new();
    rel.push_symbol(&mut out);
    assert(Seq::<char>::empty() + rel.symbol_spec() =~= rel.symbol_spec());
    out
}

/// `word(argument)`
fn call_chars(word: &[char], argument: &[char]) -> (out: Vec<char>)
    ensures
        out@ == word@ + seq!['('] + argument@ + seq![')'],
{
    let mut out: Vec<char> = Vec::new();
    push_all(&mut out, word);
    out.push('(');
    push_all(&mut out, argument);
    out.push(')');
    assert(out@ =~= word@ + seq!['('] + argument@ + seq![')']);
    out
}

impl InstructionOp {
    /// The operation as source text.
    pub fn to_string(&self) -> (s: String)
        ensures
            s@ == self@.text(),
    {
        let out = match self {
            InstructionOp::AssignFromConst(target, value) => assignment_chars(
                register_chars(*target),
                value_chars(*value).as_slice(),
            ),
            InstructionOp::AssignFromRegister(target, source) => assignment_chars(
                register_chars(*target),
                register_chars(*source).as_slice(),
            ),
            InstructionOp::Load(target, source) => assignment_chars(
                register_chars(*target),
                memory_access_chars(*source).as_slice(),
            ),
            InstructionOp::Store(target, source) => assignment_chars(
                memory_access_chars(*target),
                register_chars(*source).as_slice(),
            ),
            InstructionOp::ArithmeticRegOpReg(target, source1, op, source2) => assignment_chars(
                register_chars(*target),
                infix_chars(
                    register_chars(*source1),
                    operator_chars(*op).as_slice(),
                    register_chars(*source2).as_slice(),
                ).as_slice(),
            ),
            InstructionOp::ArithmeticRegOpConst(target, source, op, value) => assignment_chars(
                register_chars(*target),
                infix_chars(
                    register_chars(*source),
                    operator_chars(*op).as_slice(),
                    value_chars(*value).as_slice(),
                ).as_slice(),
            ),
            InstructionOp::Jump(label) => jump_chars(label),
            InstructionOp::CondJumpRegRelReg(reg1, rel, reg2, label) => cond_jump_chars(
                infix_chars(
                    register_chars(*reg1),
                    relation_chars(*rel).as_slice(),
                    register_chars(*reg2).as_slice(),
                ).as_slice(),
                label,
            ),
            InstructionOp::CondJumpRegRelConst(reg, rel, value, label) => cond_jump_chars(
                infix_chars(
                    register_chars(*reg),
                    relation_chars(*rel).as_slice(),
                    value_chars(*value).as_slice(),
                ).as_slice(),
                label,
            ),
            InstructionOp::Read(reg) => {
                let word: [char; 4] = ['r', 'e', 'a', 'd'];
                assert(word@ =~= read_word());
                let call = call_chars(word.as_slice(), Vec::new().as_slice());
                assert(call@ =~= read_word() + seq!['(', ')']);
                assignment_chars(register_chars(*reg), call.as_slice())
            },
            InstructionOp::Write(reg) => {
                let word: [char; 5] = ['w', 'r', 'i', 't', 'e'];
                assert(word@ =~= write_word());
                call_chars(word.as_slice(), register_chars(*reg).as_slice())
            },
            InstructionOp::Halt => {
                let word: [char; 4] = ['h', 'a', 'l', 't'];
                assert(word@ =~= halt_word());
                let mut out: Vec<char> = Vec::new();
                push_all(&mut out, word.as_slice());
                assert(out@ =~= halt_word());
                out
            },
            InstructionOp::Empty => Vec::new(),
        };
        string_of(out.as_slice())
    }

    /// Whether this is the placeholder of a blank line.
    pub fn is_empty(&self) -> (r: bool)
        ensures
            r == (self@ is Empty),
    {
        match self {
            InstructionOp::Empty => true,
            _ => false,
        }
    }
}

} // verus!
