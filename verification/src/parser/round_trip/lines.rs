//! The text of an operation read as a source line.

use vstd::prelude::*;
use crate::parser::grammar;
use crate::parser::round_trip::{label_of, lemma_text_reads_back, plain, quiet, readable};
use crate::parser::round_trip::forms::{
    cond_jump_text_with, jump_text_with, lemma_operation_is_a_form,
    lemma_reads_back_cond_jump_const_with, lemma_reads_back_cond_jump_reg_with,
    lemma_reads_back_jump_with,
};
use crate::parser::round_trip::pieces::{
    lemma_infix_words, lemma_memory_access_text, lemma_operator_text, lemma_plain_is_quiet,
    lemma_quiet_concat, lemma_register_text, lemma_relation_text, lemma_value_text,
};
use crate::ram::instruction::InstructionView;
use crate::ram::instruction_op::{
    InstructionOpView, assignment_text, cond_jump_text, infix_text, memory_access_text,
    register_text,
};
use crate::ram::syntax::{assign_sign, blank, goto_word, halt_word, if_word, read_word, write_word};
use crate::ram::types::Number;
use crate::text::number::signed_decimal;
use crate::text::search::{
    after, lacks, lemma_find, lemma_lacks_concat, lemma_lacks_is_not_found, lemma_lacks_part,
    split_in_two, strip_prefix,
};
use crate::text::space::{
    all_space, is_trimmed, lemma_trimmed_ignores_padding, lemma_trimmed_of_trimmed, trimmed,
};

verus! {

/// What stands between `goto` and the label once the text of a jump is
/// trimmed: the blank, unless the label is empty.
pub(crate) open spec fn trimmed_pad(label: Seq<char>) -> Seq<char> {
    if label.len() == 0 {
        Seq::empty()
    } else {
        blank()
    }
}

/// The text of a readable operation, trimmed.
pub(crate) open spec fn trimmed_text(op: InstructionOpView) -> Seq<char> {
    match op {
        InstructionOpView::Jump(label) => jump_text_with(trimmed_pad(label), label),
        InstructionOpView::CondJumpRegRelReg(a, rel, b, label) => cond_jump_text_with(
            infix_text(register_text(a), rel.symbol_spec(), register_text(b)),
            trimmed_pad(label),
            label,
        ),
        InstructionOpView::CondJumpRegRelConst(a, rel, v, label) => cond_jump_text_with(
            infix_text(register_text(a), rel.symbol_spec(), signed_decimal(v as int)),
            trimmed_pad(label),
            label,
        ),
        _ => op.text(),
    }
}

/// What trimming does to a text that ends with a label after a blank.
proof fn lemma_trimmed_before_label(head: Seq<char>, label: Seq<char>)
    requires
        is_trimmed(head),
        head.len() > 0,
        is_trimmed(label),
    ensures
        trimmed(head + blank() + label) == head + trimmed_pad(label) + label,
        (head + trimmed_pad(label) + label).len() > 0,
{
    let text = head + blank() + label;
    let t = head + trimmed_pad(label) + label;
    if label.len() == 0 {
        assert(t =~= head);
        lemma_trimmed_ignores_padding(Seq::empty(), head, blank());
        assert(Seq::<char>::empty() + head + blank() =~= text);
        lemma_trimmed_of_trimmed(head);
    } else {
        assert(t =~= text);
        assert(text.first() == head.first());
        assert(text.last() == label.last());
        lemma_trimmed_of_trimmed(text);
    }
}

/// An assignment between two trimmed texts is trimmed.
proof fn lemma_assignment_is_trimmed(left: Seq<char>, right: Seq<char>)
    requires
        is_trimmed(left),
        left.len() > 0,
        is_trimmed(right),
        right.len() > 0,
    ensures
        trimmed(assignment_text(left, right)) == assignment_text(left, right),
        assignment_text(left, right).len() > 0,
{
    let s = assignment_text(left, right);
    assert(s.first() == left.first());
    assert(s.last() == right.last());
    lemma_trimmed_of_trimmed(s);
}

/// The texts of addresses and constants are trimmed and not empty.
proof fn lemma_operands_are_trimmed(a: Number, v: Number)
    requires
        a >= 0,
    ensures
        is_trimmed(register_text(a)),
        register_text(a).len() > 0,
        is_trimmed(memory_access_text(a)),
        memory_access_text(a).len() > 0,
        is_trimmed(signed_decimal(v as int)),
        signed_decimal(v as int).len() > 0,
{
    lemma_register_text(a);
    lemma_memory_access_text(a);
    lemma_value_text(v);
    lemma_plain_is_quiet(register_text(a));
    lemma_plain_is_quiet(memory_access_text(a));
    lemma_plain_is_quiet(signed_decimal(v as int));
}

/// The text of an operation on two addresses or values is trimmed and not
/// empty.
proof fn lemma_infix_is_trimmed(left: Seq<char>, sign: Seq<char>, right: Seq<char>)
    requires
        is_trimmed(left),
        left.len() > 0,
        is_trimmed(right),
        right.len() > 0,
    ensures
        is_trimmed(infix_text(left, sign, right)),
        infix_text(left, sign, right).len() > 0,
{
    let s = infix_text(left, sign, right);
    assert(s.first() == left.first());
    assert(s.last() == right.last());
}

/// The text of a plain assignment is trimmed.
proof fn lemma_trimmed_text_of_assignment(op: InstructionOpView)
    requires
        readable(op),
        op is AssignFromConst || op is AssignFromRegister || op is Load || op is Store || op
            is Read,
    ensures
        trimmed(op.text()) == op.text(),
        op.text().len() > 0,
{
    match op {
        InstructionOpView::AssignFromConst(a, v) => {
            lemma_operands_are_trimmed(a, v);
            lemma_assignment_is_trimmed(register_text(a), signed_decimal(v as int));
        },
        InstructionOpView::AssignFromRegister(a, b) => {
            lemma_operands_are_trimmed(a, 0);
            lemma_operands_are_trimmed(b, 0);
            lemma_assignment_is_trimmed(register_text(a), register_text(b));
        },
        InstructionOpView::Load(a, b) => {
            lemma_operands_are_trimmed(a, 0);
            lemma_operands_are_trimmed(b, 0);
            lemma_assignment_is_trimmed(register_text(a), memory_access_text(b));
        },
        InstructionOpView::Store(a, b) => {
            lemma_operands_are_trimmed(a, 0);
            lemma_operands_are_trimmed(b, 0);
            lemma_assignment_is_trimmed(memory_access_text(a), register_text(b));
        },
        InstructionOpView::Read(a) => {
            lemma_operands_are_trimmed(a, 0);
            let call = read_word() + seq!['(', ')'];
            assert(is_trimmed(call) && call.len() > 0) by {
                assert(call.first() == 'r');
                assert(call.last() == ')');
            }
            lemma_assignment_is_trimmed(register_text(a), call);
        },
        _ => {},
    }
}

/// The text of an arithmetic operation is trimmed.
proof fn lemma_trimmed_text_of_arithmetic(op: InstructionOpView)
    requires
        readable(op),
        op is ArithmeticRegOpReg || op is ArithmeticRegOpConst,
    ensures
        trimmed(op.text()) == op.text(),
        op.text().len() > 0,
{
    match op {
        InstructionOpView::ArithmeticRegOpReg(a, b, sign, c) => {
            lemma_operands_are_trimmed(a, 0);
            lemma_operands_are_trimmed(b, 0);
            lemma_operands_are_trimmed(c, 0);
            lemma_infix_is_trimmed(register_text(b), sign.symbol_spec(), register_text(c));
            lemma_assignment_is_trimmed(
                register_text(a),
                infix_text(register_text(b), sign.symbol_spec(), register_text(c)),
            );
        },
        InstructionOpView::ArithmeticRegOpConst(a, b, sign, v) => {
            lemma_operands_are_trimmed(a, v);
            lemma_operands_are_trimmed(b, v);
            lemma_infix_is_trimmed(register_text(b), sign.symbol_spec(), signed_decimal(v as int));
            lemma_assignment_is_trimmed(
                register_text(a),
                infix_text(register_text(b), sign.symbol_spec(), signed_decimal(v as int)),
            );
        },
        _ => {},
    }
}

/// The texts of `write` and `halt` are trimmed.
proof fn lemma_trimmed_text_of_word(op: InstructionOpView)
    requires
        readable(op),
        op is Write || op is Halt,
    ensures
        trimmed(op.text()) == op.text(),
        op.text().len() > 0,
{
    let text = op.text();
    match op {
        InstructionOpView::Write(a) => {
            assert(text.first() == 'w');
            assert(text.last() == ')');
        },
        _ => {
            assert(text.first() == 'h');
            assert(text.last() == 't');
        },
    }
    lemma_trimmed_of_trimmed(text);
}

/// Trimming the text of a jump takes away the blank before an empty label
/// and nothing else.
proof fn lemma_trimmed_text_of_jump(op: InstructionOpView)
    requires
        readable(op),
        op is Jump || op is CondJumpRegRelReg || op is CondJumpRegRelConst,
    ensures
        trimmed(op.text()) == trimmed_text(op),
        trimmed_text(op).len() > 0,
        label_of(op).len() > 0 ==> trimmed_text(op) == op.text(),
{
    match op {
        InstructionOpView::Jump(label) => {
            assert(is_trimmed(goto_word())) by {
                assert(goto_word().first() == 'g' && goto_word().last() == 'o');
            }
            lemma_trimmed_before_label(goto_word(), label);
        },
        InstructionOpView::CondJumpRegRelReg(a, rel, b, label) => {
            let condition = infix_text(register_text(a), rel.symbol_spec(), register_text(b));
            lemma_trimmed_cond_jump(condition, label);
        },
        InstructionOpView::CondJumpRegRelConst(a, rel, v, label) => {
            let condition = infix_text(
                register_text(a),
                rel.symbol_spec(),
                signed_decimal(v as int),
            );
            lemma_trimmed_cond_jump(condition, label);
        },
        _ => {},
    }
}

/// Trimming the text of a readable operation takes away the blank before
/// an empty label and nothing else.
pub(crate) proof fn lemma_trimmed_text(op: InstructionOpView)
    requires
        readable(op),
    ensures
        trimmed(op.text()) == trimmed_text(op),
        trimmed_text(op).len() > 0,
        label_of(op).len() > 0 || !(op is Jump || op is CondJumpRegRelReg || op
            is CondJumpRegRelConst) ==> trimmed_text(op) == op.text(),
{
    if op is Jump || op is CondJumpRegRelReg || op is CondJumpRegRelConst {
        lemma_trimmed_text_of_jump(op);
    } else if op is ArithmeticRegOpReg || op is ArithmeticRegOpConst {
        lemma_trimmed_text_of_arithmetic(op);
    } else if op is Write || op is Halt {
        lemma_trimmed_text_of_word(op);
    } else {
        lemma_trimmed_text_of_assignment(op);
    }
}

/// Trimming the text of a conditional jump.
proof fn lemma_trimmed_cond_jump(condition: Seq<char>, label: Seq<char>)
    requires
        is_trimmed(label),
    ensures
        trimmed(cond_jump_text(condition, label)) == cond_jump_text_with(
            condition,
            trimmed_pad(label),
            label,
        ),
        cond_jump_text_with(condition, trimmed_pad(label), label).len() > 0,
        label.len() > 0 ==> cond_jump_text_with(condition, trimmed_pad(label), label)
            == cond_jump_text(condition, label),
{
    let head = if_word() + blank() + seq!['('] + condition + seq![')'] + blank() + goto_word();
    assert(is_trimmed(head)) by {
        assert(head.first() == 'i');
        assert(head.last() == 'o');
    }
    lemma_trimmed_before_label(head, label);
    assert(cond_jump_text(condition, label) =~= head + blank() + label);
    assert(cond_jump_text_with(condition, trimmed_pad(label), label) =~= head + trimmed_pad(label)
        + label);
}

/// Reading the trimmed text of a readable operation gives the operation.
pub(crate) proof fn lemma_trimmed_text_reads_back(op: InstructionOpView)
    requires
        readable(op),
    ensures
        grammar::operation(trimmed_text(op)) == Some(op),
{
    match op {
        InstructionOpView::Jump(label) => {
            assert(all_space(trimmed_pad(label)));
            lemma_reads_back_jump_with(trimmed_pad(label), label);
        },
        InstructionOpView::CondJumpRegRelReg(a, rel, b, label) => {
            assert(all_space(trimmed_pad(label)));
            lemma_reads_back_cond_jump_reg_with(a, rel, b, trimmed_pad(label), label);
        },
        InstructionOpView::CondJumpRegRelConst(a, rel, v, label) => {
            assert(all_space(trimmed_pad(label)));
            lemma_reads_back_cond_jump_const_with(a, rel, v, trimmed_pad(label), label);
        },
        _ => {
            lemma_text_reads_back(op);
        },
    }
}

/// A plain or quiet text holds neither a colon nor the sign of a comment.
proof fn lemma_quiet_lacks(s: Seq<char>)
    requires
        quiet(s),
    ensures
        lacks(s, ':'),
        lacks(s, '#'),
{
}

/// The trimmed text of a jump without a label holds no colon.
proof fn lemma_bare_jump_lacks_colon(op: InstructionOpView)
    requires
        readable(op),
        op is Jump || op is CondJumpRegRelReg || op is CondJumpRegRelConst,
        label_of(op).len() == 0,
    ensures
        lacks(trimmed_text(op), ':'),
{
    assert(lacks(goto_word(), ':'));
    match op {
        InstructionOpView::CondJumpRegRelReg(a, rel, b, label) => {
            lemma_register_text(a);
            lemma_register_text(b);
            lemma_relation_text(rel);
            let condition = infix_text(register_text(a), rel.symbol_spec(), register_text(b));
            lemma_infix_words(register_text(a), rel.symbol_spec(), register_text(b));
            lemma_bare_cond_jump_lacks_colon(condition);
        },
        InstructionOpView::CondJumpRegRelConst(a, rel, v, label) => {
            lemma_register_text(a);
            lemma_value_text(v);
            lemma_relation_text(rel);
            let condition = infix_text(
                register_text(a),
                rel.symbol_spec(),
                signed_decimal(v as int),
            );
            lemma_infix_words(register_text(a), rel.symbol_spec(), signed_decimal(v as int));
            lemma_bare_cond_jump_lacks_colon(condition);
        },
        _ => {
            assert(trimmed_text(op) =~= goto_word());
        },
    }
}

/// The text of a conditional jump up to `goto` holds no colon.
proof fn lemma_bare_cond_jump_lacks_colon(condition: Seq<char>)
    requires
        quiet(condition),
    ensures
        lacks(cond_jump_text_with(condition, Seq::empty(), Seq::empty()), ':'),
{
    let head = if_word() + blank() + seq!['('] + condition + seq![')'] + blank();
    assert(quiet(head)) by {
        lemma_quiet_concat(if_word() + blank() + seq!['('], condition);
        lemma_quiet_concat(if_word() + blank() + seq!['('] + condition, seq![')'] + blank());
        assert(if_word() + blank() + seq!['('] + condition + (seq![')'] + blank()) =~= head);
    }
    lemma_quiet_lacks(head);
    assert(lacks(goto_word(), ':'));
    lemma_lacks_concat(head, goto_word(), ':');
    assert(cond_jump_text_with(condition, Seq::empty(), Seq::empty()) =~= head + goto_word());
}

/// Where the text of an operation does not begin with a label, its trimmed
/// text does not either.
pub(crate) proof fn lemma_trimmed_text_has_no_label(op: InstructionOpView)
    requires
        readable(op),
        grammar::split_line(op.text()).0 is None,
    ensures
        grammar::split_line(trimmed_text(op)) == (None::<Seq<char>>, trimmed_text(op)),
{
    lemma_trimmed_text(op);
    let t = trimmed_text(op);
    if t == op.text() {
        assert(grammar::split_line(t).1 == trimmed(t));
    } else {
        lemma_bare_jump_lacks_colon(op);
        lemma_lacks_is_not_found(t, ':');
        crate::text::space::lemma_trimmed(op.text());
        lemma_trimmed_of_trimmed(t);
    }
}

/// What a text lacks, the text trimmed lacks.
pub(crate) proof fn lemma_lacks_trimmed(s: Seq<char>, c: char)
    requires
        lacks(s, c),
    ensures
        lacks(trimmed(s), c),
{
    crate::text::space::lemma_trimmed(s);
    let (i, j) = choose|i: int, j: int|
        0 <= i <= j <= s.len() && #[trigger] s.subrange(i, j) == trimmed(s) && all_space(
            s.subrange(0, i),
        ) && all_space(s.subrange(j, s.len() as int));
    lemma_lacks_part(s, c, i, j);
}

/// The label of a jump that is read from a text without the sign of a
/// comment holds none.
pub(crate) proof fn lemma_label_lacks_hash(s: Seq<char>)
    requires
        lacks(s, '#'),
    ensures
        grammar::operation(s) matches Some(op) ==> lacks(label_of(op), '#'),
{
    lemma_operation_is_a_form(s);
    if let Some(rest) = strip_prefix(s, goto_word()) {
        lemma_lacks_part(s, '#', goto_word().len() as int, s.len() as int);
        lemma_lacks_trimmed(rest, '#');
    }
    if let Some(rest) = strip_prefix(s, if_word()) {
        lemma_lacks_part(s, '#', if_word().len() as int, s.len() as int);
        lemma_lacks_trimmed(rest, '#');
        if let Some((before, target)) = split_in_two(trimmed(rest), goto_word()) {
            lemma_find(trimmed(rest), goto_word());
            let at = crate::text::search::find(trimmed(rest), goto_word())->0;
            lemma_lacks_part(trimmed(rest), '#', at + 4, trimmed(rest).len() as int);
            lemma_lacks_trimmed(target, '#');
        }
    }
}

/// The texts of addresses and constants are plain.
proof fn lemma_plain_pieces(a: Number, v: Number)
    requires
        a >= 0,
    ensures
        plain(register_text(a)),
        plain(memory_access_text(a)),
        plain(signed_decimal(v as int)),
{
    lemma_register_text(a);
    lemma_memory_access_text(a);
    lemma_value_text(v);
}

/// The text of a plain assignment holds no sign of a comment.
proof fn lemma_assignment_lacks_hash(op: InstructionOpView)
    requires
        readable(op),
        op is AssignFromConst || op is AssignFromRegister || op is Load || op is Store || op
            is Read,
    ensures
        lacks(op.text(), '#'),
{
    match op {
        InstructionOpView::AssignFromConst(a, v) => {
            lemma_plain_pieces(a, v);
            lemma_hashless_assignment(register_text(a), signed_decimal(v as int));
        },
        InstructionOpView::AssignFromRegister(a, b) => {
            lemma_plain_pieces(a, 0);
            lemma_plain_pieces(b, 0);
            lemma_hashless_assignment(register_text(a), register_text(b));
        },
        InstructionOpView::Load(a, b) => {
            lemma_plain_pieces(a, 0);
            lemma_plain_pieces(b, 0);
            lemma_hashless_assignment(register_text(a), memory_access_text(b));
        },
        InstructionOpView::Store(a, b) => {
            lemma_plain_pieces(a, 0);
            lemma_plain_pieces(b, 0);
            lemma_hashless_assignment(memory_access_text(a), register_text(b));
        },
        InstructionOpView::Read(a) => {
            lemma_plain_pieces(a, 0);
            let call = read_word() + seq!['(', ')'];
            assert(quiet(call)) by {
                assert(call =~= seq!['r', 'e', 'a', 'd', '(', ')']);
            }
            lemma_hashless_assignment(register_text(a), call);
        },
        _ => {},
    }
}

/// The text of an arithmetic operation holds no sign of a comment.
proof fn lemma_arithmetic_lacks_hash(op: InstructionOpView)
    requires
        readable(op),
        op is ArithmeticRegOpReg || op is ArithmeticRegOpConst,
    ensures
        lacks(op.text(), '#'),
{
    match op {
        InstructionOpView::ArithmeticRegOpReg(a, b, sign, c) => {
            lemma_plain_pieces(a, 0);
            assert(plain(sign.symbol_spec()) && sign.symbol_spec().len() > 0) by {
                lemma_operator_text(sign);
            }
            assert(plain(register_text(c)) && register_text(c).len() > 0) by {
                lemma_register_text(c);
            }
            lemma_quiet_operation(b, sign.symbol_spec(), register_text(c));
            lemma_hashless_assignment(
                register_text(a),
                infix_text(register_text(b), sign.symbol_spec(), register_text(c)),
            );
        },
        InstructionOpView::ArithmeticRegOpConst(a, b, sign, v) => {
            lemma_plain_pieces(a, v);
            assert(plain(sign.symbol_spec()) && sign.symbol_spec().len() > 0) by {
                lemma_operator_text(sign);
            }
            assert(signed_decimal(v as int).len() > 0) by {
                lemma_value_text(v);
            }
            lemma_quiet_operation(b, sign.symbol_spec(), signed_decimal(v as int));
            lemma_hashless_assignment(
                register_text(a),
                infix_text(register_text(b), sign.symbol_spec(), signed_decimal(v as int)),
            );
        },
        _ => {},
    }
}

/// An address, a sign and a plain text in a row, with blanks between them,
/// are quiet.
proof fn lemma_quiet_operation(a: Number, sign: Seq<char>, right: Seq<char>)
    requires
        a >= 0,
        plain(sign),
        sign.len() > 0,
        plain(right),
        right.len() > 0,
    ensures
        quiet(infix_text(register_text(a), sign, right)),
{
    lemma_register_text(a);
    lemma_infix_words(register_text(a), sign, right);
}

/// The text of a jump holds the sign of a comment only in its label.
proof fn lemma_jump_lacks_hash(op: InstructionOpView)
    requires
        readable(op),
        op is Jump || op is CondJumpRegRelReg || op is CondJumpRegRelConst,
        lacks(label_of(op), '#'),
    ensures
        lacks(op.text(), '#'),
{
    match op {
        InstructionOpView::Jump(label) => {
            assert(lacks(goto_word() + blank(), '#'));
            lemma_lacks_concat(goto_word() + blank(), label, '#');
        },
        InstructionOpView::CondJumpRegRelReg(a, rel, b, label) => {
            assert(plain(rel.symbol_spec()) && rel.symbol_spec().len() > 0) by {
                lemma_relation_text(rel);
            }
            assert(plain(register_text(b)) && register_text(b).len() > 0) by {
                lemma_register_text(b);
            }
            lemma_quiet_operation(a, rel.symbol_spec(), register_text(b));
            lemma_hashless_cond_jump(
                infix_text(register_text(a), rel.symbol_spec(), register_text(b)),
                label,
            );
        },
        InstructionOpView::CondJumpRegRelConst(a, rel, v, label) => {
            assert(plain(rel.symbol_spec()) && rel.symbol_spec().len() > 0) by {
                lemma_relation_text(rel);
            }
            assert(plain(signed_decimal(v as int)) && signed_decimal(v as int).len() > 0) by {
                lemma_value_text(v);
            }
            lemma_quiet_operation(a, rel.symbol_spec(), signed_decimal(v as int));
            lemma_hashless_cond_jump(
                infix_text(register_text(a), rel.symbol_spec(), signed_decimal(v as int)),
                label,
            );
        },
        _ => {},
    }
}

/// The texts of `write` and `halt` hold no sign of a comment.
proof fn lemma_word_lacks_hash(op: InstructionOpView)
    requires
        readable(op),
        op is Write || op is Halt,
    ensures
        lacks(op.text(), '#'),
{
    match op {
        InstructionOpView::Write(a) => {
            lemma_plain_pieces(a, 0);
            lemma_plain_is_quiet(register_text(a));
            lemma_quiet_lacks(register_text(a));
            assert(lacks(write_word() + seq!['('], '#'));
            lemma_lacks_concat(write_word() + seq!['('], register_text(a), '#');
            assert(lacks(seq![')'], '#'));
            lemma_lacks_concat(write_word() + seq!['('] + register_text(a), seq![')'], '#');
        },
        _ => {
            assert(lacks(halt_word(), '#'));
        },
    }
}

/// The text of a readable operation holds the sign of a comment only in
/// its label.
pub(crate) proof fn lemma_text_lacks_hash(op: InstructionOpView)
    requires
        readable(op),
        lacks(label_of(op), '#'),
    ensures
        lacks(op.text(), '#'),
{
    if op is Jump || op is CondJumpRegRelReg || op is CondJumpRegRelConst {
        lemma_jump_lacks_hash(op);
    } else if op is ArithmeticRegOpReg || op is ArithmeticRegOpConst {
        lemma_arithmetic_lacks_hash(op);
    } else if op is Write || op is Halt {
        lemma_word_lacks_hash(op);
    } else {
        lemma_assignment_lacks_hash(op);
    }
}

/// An assignment between two quiet texts holds no sign of a comment.
proof fn lemma_hashless_assignment(left: Seq<char>, right: Seq<char>)
    requires
        quiet(left) || plain(left),
        quiet(right) || plain(right),
    ensures
        lacks(assignment_text(left, right), '#'),
{
    if plain(left) {
        lemma_plain_is_quiet(left);
    }
    if plain(right) {
        lemma_plain_is_quiet(right);
    }
    lemma_quiet_lacks(left);
    lemma_quiet_lacks(right);
    let sign = blank() + assign_sign() + blank();
    assert(lacks(sign, '#'));
    lemma_lacks_concat(left, sign, '#');
    lemma_lacks_concat(left + sign, right, '#');
    assert(assignment_text(left, right) =~= left + sign + right);
}

/// The text of a conditional jump holds the sign of a comment only in its
/// label.
proof fn lemma_hashless_cond_jump(condition: Seq<char>, label: Seq<char>)
    requires
        quiet(condition),
        lacks(label, '#'),
    ensures
        lacks(cond_jump_text(condition, label), '#'),
{
    let head = if_word() + blank() + seq!['('];
    let tail = seq![')'] + blank() + goto_word() + blank();
    assert(lacks(head, '#'));
    assert(lacks(tail, '#'));
    lemma_quiet_lacks(condition);
    lemma_lacks_concat(head, condition, '#');
    lemma_lacks_concat(head + condition, tail, '#');
    lemma_lacks_concat(head + condition + tail, label, '#');
    assert(cond_jump_text(condition, label) =~= head + condition + tail + label);
}

/// The text before the comment of a source line that writes an operation:
/// it holds no sign of a comment, and reads as the instruction of the line
/// without its comment.
pub(crate) proof fn lemma_code_of_line(line: Seq<char>, instruction: InstructionView) -> (code: Seq<
    char,
>)
    requires
        grammar::source_line(line) == Some(instruction),
        !(instruction.op is Empty),
    ensures
        lacks(code, '#'),
        grammar::instruction(code) matches Some(i) && i.op == instruction.op,
{
    let t = trimmed(line);
    lemma_lacks_is_not_found(t, '#');
    match crate::text::search::find(t, seq!['#']) {
        Some(hash) => {
            let code = trimmed(t.subrange(0, hash));
            lemma_lacks_trimmed(t.subrange(0, hash), '#');
            code
        },
        None => t,
    }
}

/// The text of the operation of a line without comment holds no sign of a
/// comment if the line holds none.
pub(crate) proof fn lemma_operation_text_of_code(code: Seq<char>)
    requires
        lacks(code, '#'),
    ensures
        lacks(grammar::split_line(code).1, '#'),
{
    lemma_lacks_trimmed(code, '#');
    lemma_lacks_is_not_found(code, ':');
    if let Some(colon) = crate::text::search::find(code, seq![':']) {
        lemma_lacks_part(code, '#', colon + 1, code.len() as int);
        lemma_lacks_trimmed(after(code, colon + 1), '#');
    }
}

} // verus!
