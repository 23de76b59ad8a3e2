//! Form by form: the text of an operation reads as that operation.

use vstd::prelude::*;
use crate::parser::grammar;
use crate::parser::round_trip::{is_label, is_plain, plain, quiet, readable};
use crate::parser::round_trip::pieces::{
    lemma_assignment_text, lemma_infix_words, lemma_memory_access_text, lemma_no_assignment_form,
    lemma_operator_text, lemma_plain_is_one_word, lemma_plain_is_quiet, lemma_prefix_needs_first,
    lemma_quiet_concat, lemma_quiet_holds_neither, lemma_register_needs_no_blank,
    lemma_register_text, lemma_relation_text, lemma_split_at_sign, lemma_value_needs_numeral,
    lemma_value_text,
};
use crate::ram::instruction_op::{
    InstructionOpView, assignment_text, cond_jump_text, infix_text, memory_access_text,
    register_text,
};
use crate::ram::op::Op;
use crate::ram::rel::Rel;
use crate::ram::syntax::{blank, goto_word, halt_word, if_word, read_word, write_word};
use crate::ram::types::Number;
use crate::text::number::signed_decimal;
use crate::text::search::{
    after, contains, lemma_find, lemma_find_none, lemma_part_contains_not, occurs_at, split_in_two,
    strip_prefix,
};
use crate::text::space::{
    all_space, is_space, is_trimmed, lemma_trimmed, lemma_trimmed_ignores_padding,
    lemma_trimmed_of_trimmed, trimmed,
};
use crate::text::words::words;

verus! {

/// `Ra := c` reads back.
pub(crate) proof fn lemma_reads_back_assign_from_const(a: Number, v: Number)
    requires
        a >= 0,
    ensures
        grammar::operation(InstructionOpView::AssignFromConst(a, v).text()) == Some(
            InstructionOpView::AssignFromConst(a, v),
        ),
{
    lemma_register_text(a);
    lemma_value_text(v);
    lemma_plain_is_quiet(register_text(a));
    lemma_plain_is_quiet(signed_decimal(v as int));
    lemma_assignment_text(register_text(a), signed_decimal(v as int));
}

/// `Ra := Rb` reads back: its right side is no constant.
pub(crate) proof fn lemma_reads_back_assign_from_register(a: Number, b: Number)
    requires
        a >= 0,
        b >= 0,
    ensures
        grammar::operation(InstructionOpView::AssignFromRegister(a, b).text()) == Some(
            InstructionOpView::AssignFromRegister(a, b),
        ),
{
    lemma_register_text(a);
    lemma_register_text(b);
    lemma_plain_is_quiet(register_text(a));
    lemma_plain_is_quiet(register_text(b));
    lemma_assignment_text(register_text(a), register_text(b));
}

/// `Ra := [Rb]` reads back: its right side is neither a constant nor an
/// address.
pub(crate) proof fn lemma_reads_back_load(a: Number, b: Number)
    requires
        a >= 0,
        b >= 0,
    ensures
        grammar::operation(InstructionOpView::Load(a, b).text()) == Some(
            InstructionOpView::Load(a, b),
        ),
{
    lemma_register_text(a);
    lemma_memory_access_text(b);
    lemma_plain_is_quiet(register_text(a));
    lemma_plain_is_quiet(memory_access_text(b));
    lemma_assignment_text(register_text(a), memory_access_text(b));
}

/// `[Ra] := Rb` reads back: its left side is no address.
pub(crate) proof fn lemma_reads_back_store(a: Number, b: Number)
    requires
        a >= 0,
        b >= 0,
    ensures
        grammar::operation(InstructionOpView::Store(a, b).text()) == Some(
            InstructionOpView::Store(a, b),
        ),
{
    lemma_memory_access_text(a);
    lemma_register_text(b);
    lemma_plain_is_quiet(memory_access_text(a));
    lemma_plain_is_quiet(register_text(b));
    lemma_assignment_text(memory_access_text(a), register_text(b));
}

/// Which form decides, by the forms that match.
proof fn lemma_operation_picks(s: Seq<char>)
    ensures
        grammar::assign_from_const(s) is Some ==> grammar::operation(s)
            == grammar::assign_from_const(s),
        grammar::assign_from_const(s) is None && grammar::assign_from_register(s) is Some
            ==> grammar::operation(s) == grammar::assign_from_register(s),
        grammar::assign_from_const(s) is None && grammar::assign_from_register(s) is None
            && grammar::load(s) is Some ==> grammar::operation(s) == grammar::load(s),
        grammar::assign_from_const(s) is None && grammar::assign_from_register(s) is None
            && grammar::load(s) is None && grammar::store(s) is Some ==> grammar::operation(s)
            == grammar::store(s),
        grammar::assign_from_const(s) is None && grammar::assign_from_register(s) is None
            && grammar::load(s) is None && grammar::store(s) is None ==> {
            &&& grammar::arithmetic_op(s) is Some ==> grammar::operation(s)
                == grammar::arithmetic_op(s)
            &&& grammar::arithmetic_op(s) is None && grammar::jump(s) is Some
                ==> grammar::operation(s) == grammar::jump(s)
            &&& grammar::arithmetic_op(s) is None && grammar::jump(s) is None
                && grammar::cond_jump_rel(s) is Some ==> grammar::operation(s)
                == grammar::cond_jump_rel(s)
            &&& grammar::arithmetic_op(s) is None && grammar::jump(s) is None
                && grammar::cond_jump_rel(s) is None && grammar::halt(s) is Some
                ==> grammar::operation(s) == grammar::halt(s)
            &&& grammar::arithmetic_op(s) is None && grammar::jump(s) is None
                && grammar::cond_jump_rel(s) is None && grammar::halt(s) is None
                && grammar::read(s) is Some ==> grammar::operation(s) == grammar::read(s)
            &&& grammar::arithmetic_op(s) is None && grammar::jump(s) is None
                && grammar::cond_jump_rel(s) is None && grammar::halt(s) is None
                && grammar::read(s) is None ==> grammar::operation(s) == grammar::write(s)
        },
{
}

/// The arithmetic form, by what its parts read as.
proof fn lemma_arithmetic_from_parts(
    text: Seq<char>,
    left: Seq<char>,
    right: Seq<char>,
    first: Seq<char>,
    second: Seq<char>,
    third: Seq<char>,
)
    requires
        grammar::assignment(text) == Some((left, right)),
        words(right) == seq![first, second, third],
    ensures
        grammar::arithmetic_op(text) == match (
            grammar::register(left),
            grammar::register(first),
            grammar::operator(second),
        ) {
            (Some(a), Some(b), Some(op)) => match grammar::register(third) {
                Some(c) => Some(InstructionOpView::ArithmeticRegOpReg(a, b, op, c)),
                None => match grammar::value(third) {
                    Some(v) => Some(InstructionOpView::ArithmeticRegOpConst(a, b, op, v)),
                    None => None,
                },
            },
            _ => None,
        },
{
    let w = words(right);
    assert(w.len() == 3);
    assert(w[0] == first);
    assert(w[1] == second);
    assert(w[2] == third);
}

/// The four forms before the arithmetic form, by what the sides of the
/// assignment read as.
proof fn lemma_plain_assignments_from_parts(text: Seq<char>, left: Seq<char>, right: Seq<char>)
    requires
        grammar::assignment(text) == Some((left, right)),
    ensures
        grammar::value(right) is None ==> grammar::assign_from_const(text) is None,
        grammar::register(right) is None ==> grammar::assign_from_register(text) is None,
        grammar::memory_access(right) is None ==> grammar::load(text) is None,
        grammar::memory_access(left) is None ==> grammar::store(text) is None,
{
}

/// How the text of an arithmetic operation parts: into the sides of an
/// assignment, and the right side into three words.
proof fn lemma_arithmetic_text_parts(a: Number, b: Number, op: Op, third: Seq<char>)
    requires
        a >= 0,
        b >= 0,
        plain(third),
        third.len() > 0,
    ensures
        ({
            let right = infix_text(register_text(b), op.symbol_spec(), third);
            let text = assignment_text(register_text(a), right);
            &&& grammar::assignment(text) == Some((register_text(a), right))
            &&& words(right) == seq![register_text(b), op.symbol_spec(), third]
            &&& grammar::value(right) is None
            &&& grammar::register(right) is None
            &&& grammar::memory_access(right) is None
        }),
{
    let left = register_text(a);
    let right = infix_text(register_text(b), op.symbol_spec(), third);
    lemma_register_text(a);
    lemma_register_text(b);
    lemma_operator_text(op);
    lemma_infix_words(register_text(b), op.symbol_spec(), third);
    lemma_plain_is_quiet(left);
    lemma_assignment_text(left, right);
    lemma_value_needs_numeral(right);
    lemma_register_needs_no_blank(right, register_text(b).len() as int);
}

/// What the parts of the text of an arithmetic operation read as.
proof fn lemma_arithmetic_parts_read(a: Number, b: Number, op: Op)
    requires
        a >= 0,
        b >= 0,
    ensures
        grammar::register(register_text(a)) == Some(a),
        grammar::memory_access(register_text(a)) is None,
        grammar::register(register_text(b)) == Some(b),
        grammar::operator(op.symbol_spec()) == Some(op),
{
    lemma_register_text(a);
    lemma_register_text(b);
    lemma_operator_text(op);
}

/// `Ra := Rb op Rc` reads back.
pub(crate) proof fn lemma_reads_back_arithmetic_reg(a: Number, b: Number, op: Op, c: Number)
    requires
        a >= 0,
        b >= 0,
        c >= 0,
    ensures
        grammar::operation(InstructionOpView::ArithmeticRegOpReg(a, b, op, c).text()) == Some(
            InstructionOpView::ArithmeticRegOpReg(a, b, op, c),
        ),
{
    let third = register_text(c);
    let right = infix_text(register_text(b), op.symbol_spec(), third);
    let text = assignment_text(register_text(a), right);
    assert(text == InstructionOpView::ArithmeticRegOpReg(a, b, op, c).text());
    assert(grammar::register(third) == Some(c) && plain(third) && third.len() > 0) by {
        lemma_register_text(c);
    }
    lemma_arithmetic_text_parts(a, b, op, third);
    lemma_arithmetic_parts_read(a, b, op);
    lemma_arithmetic_from_parts(
        text,
        register_text(a),
        right,
        register_text(b),
        op.symbol_spec(),
        third,
    );
    lemma_plain_assignments_from_parts(text, register_text(a), right);
    lemma_operation_picks(text);
}

/// `Ra := Rb op c` reads back: its third word is no address.
pub(crate) proof fn lemma_reads_back_arithmetic_const(a: Number, b: Number, op: Op, v: Number)
    requires
        a >= 0,
        b >= 0,
    ensures
        grammar::operation(InstructionOpView::ArithmeticRegOpConst(a, b, op, v).text()) == Some(
            InstructionOpView::ArithmeticRegOpConst(a, b, op, v),
        ),
{
    let third = signed_decimal(v as int);
    let right = infix_text(register_text(b), op.symbol_spec(), third);
    let text = assignment_text(register_text(a), right);
    assert(text == InstructionOpView::ArithmeticRegOpConst(a, b, op, v).text());
    assert(grammar::register(third) is None && grammar::value(third) == Some(v) && plain(third)
        && third.len() > 0) by {
        lemma_value_text(v);
    }
    lemma_arithmetic_text_parts(a, b, op, third);
    lemma_arithmetic_parts_read(a, b, op);
    lemma_arithmetic_from_parts(
        text,
        register_text(a),
        right,
        register_text(b),
        op.symbol_spec(),
        third,
    );
    lemma_plain_assignments_from_parts(text, register_text(a), right);
    lemma_operation_picks(text);
}

/// The text of a jump with `pad` between `goto` and the label. The text of
/// the operation has one blank there.
pub(crate) open spec fn jump_text_with(pad: Seq<char>, label: Seq<char>) -> Seq<char> {
    goto_word() + pad + label
}

/// The text of a conditional jump with `pad` between `goto` and the label.
/// The text of the operation has one blank there.
pub(crate) open spec fn cond_jump_text_with(
    condition: Seq<char>,
    pad: Seq<char>,
    label: Seq<char>,
) -> Seq<char> {
    if_word() + blank() + seq!['('] + condition + seq![')'] + blank() + goto_word() + pad + label
}

/// White space and a label after it do not hold the word `goto`, and trim
/// to the label.
proof fn lemma_label_after_pad(pad: Seq<char>, label: Seq<char>)
    requires
        all_space(pad),
        is_label(label),
    ensures
        !contains(pad + label, goto_word()),
        trimmed(pad + label) == label,
{
    let s = pad + label;
    lemma_find(label, goto_word());
    assert forall|j: int| !occurs_at(s, goto_word(), j) by {
        if occurs_at(s, goto_word(), j) {
            assert(s.subrange(j, j + 4)[0] == 'g');
            assert(s[j] == 'g');
            if j < pad.len() {
                assert(is_space(pad[j]));
            }
            assert(label.subrange(j - pad.len(), j - pad.len() + 4) =~= s.subrange(j, j + 4));
            assert(occurs_at(label, goto_word(), j - pad.len()));
        }
    }
    lemma_find_none(s, goto_word());
    lemma_trimmed_ignores_padding(pad, label, Seq::empty());
    assert(pad + label + Seq::<char>::empty() =~= s);
    lemma_trimmed_of_trimmed(label);
}

/// A jump reads back whatever white space stands before its label.
pub(crate) proof fn lemma_reads_back_jump_with(pad: Seq<char>, label: Seq<char>)
    requires
        all_space(pad),
        is_label(label),
    ensures
        grammar::operation(jump_text_with(pad, label)) == Some(InstructionOpView::Jump(label)),
{
    let text = jump_text_with(pad, label);
    assert(text.first() == 'g');
    assert(grammar::jump(text) == Some(InstructionOpView::Jump(label))) by {
        assert(text.subrange(0, 4) =~= goto_word());
        assert(after(text, 4) =~= pad + label);
        lemma_label_after_pad(pad, label);
    }
    lemma_no_assignment_form(text);
    lemma_operation_picks(text);
}

/// `goto label` reads back.
pub(crate) proof fn lemma_reads_back_jump(label: Seq<char>)
    requires
        is_label(label),
    ensures
        grammar::operation(InstructionOpView::Jump(label).text()) == Some(
            InstructionOpView::Jump(label),
        ),
{
    assert(all_space(blank()));
    lemma_reads_back_jump_with(blank(), label);
}

/// The conditional form, by what its parts read as.
proof fn lemma_cond_jump_from_parts(
    text: Seq<char>,
    rest: Seq<char>,
    before: Seq<char>,
    target: Seq<char>,
    condition: Seq<char>,
    first: Seq<char>,
    second: Seq<char>,
    third: Seq<char>,
)
    requires
        strip_prefix(text, if_word()) == Some(rest),
        split_in_two(trimmed(rest), goto_word()) == Some((before, target)),
        grammar::in_parentheses(trimmed(before)) == Some(condition),
        words(condition) == seq![first, second, third],
    ensures
        grammar::cond_jump_rel(text) == match (
            grammar::register(first),
            grammar::relation(second),
        ) {
            (Some(a), Some(rel)) => match grammar::value(third) {
                Some(v) => Some(
                    InstructionOpView::CondJumpRegRelConst(a, rel, v, trimmed(target)),
                ),
                None => match grammar::register(third) {
                    Some(b) => Some(
                        InstructionOpView::CondJumpRegRelReg(a, rel, b, trimmed(target)),
                    ),
                    None => None,
                },
            },
            _ => None,
        },
{
    let w = words(condition);
    assert(w.len() == 3);
    assert(w[0] == first);
    assert(w[1] == second);
    assert(w[2] == third);
}

/// What follows `goto` in the text of a jump to `label`, as far as
/// trimming the whole text leaves it.
spec fn target_text(pad: Seq<char>, label: Seq<char>) -> Seq<char> {
    if label.len() == 0 {
        Seq::empty()
    } else {
        pad + label
    }
}

/// The condition in its parentheses, with the blank after it.
spec fn before_goto(condition: Seq<char>) -> Seq<char> {
    seq!['('] + condition + seq![')'] + blank()
}

/// How the text of a conditional jump parts at `if` and at `goto`.
proof fn lemma_cond_jump_text_parts(condition: Seq<char>, pad: Seq<char>, label: Seq<char>)
    requires
        quiet(condition),
        all_space(pad),
        is_label(label),
    ensures
        ({
            let text = cond_jump_text_with(condition, pad, label);
            &&& text.len() > 0
            &&& text.first() == 'i'
            &&& strip_prefix(text, if_word()) is Some
            &&& split_in_two(trimmed(strip_prefix(text, if_word())->0), goto_word()) == Some(
                (before_goto(condition), target_text(pad, label)),
            )
            &&& trimmed(target_text(pad, label)) == label
        }),
{
    let text = cond_jump_text_with(condition, pad, label);
    let before = before_goto(condition);
    let target = target_text(pad, label);
    let core = before + goto_word() + target;
    let rest = blank() + before + goto_word() + pad + label;
    assert(text.first() == 'i');
    assert(text.subrange(0, 2) =~= if_word());
    assert(after(text, 2) =~= rest);
    lemma_label_after_pad(pad, label);
    assert(quiet(before)) by {
        lemma_quiet_concat(seq!['('], condition);
        lemma_quiet_concat(seq!['('] + condition, seq![')']);
        lemma_quiet_concat(seq!['('] + condition + seq![')'], blank());
    }
    assert(is_trimmed(core)) by {
        assert(core.first() == '(');
        if label.len() == 0 {
            assert(core.last() == 'o');
        } else {
            assert(core.last() == label.last());
        }
    }
    assert(trimmed(rest) == core) by {
        lemma_trimmed_of_trimmed(core);
        if label.len() == 0 {
            lemma_trimmed_ignores_padding(blank(), core, pad);
            assert(blank() + core + pad =~= rest);
        } else {
            lemma_trimmed_ignores_padding(blank(), core, Seq::empty());
            assert(blank() + core + Seq::<char>::empty() =~= rest);
        }
    }
    assert(!contains(target, goto_word()) && trimmed(target) == label) by {
        if label.len() == 0 {
            lemma_quiet_holds_neither(target);
        }
    }
    lemma_split_at_sign(before, goto_word(), target);
}

/// The condition between its parentheses.
proof fn lemma_condition_in_parentheses(condition: Seq<char>)
    ensures
        grammar::in_parentheses(trimmed(before_goto(condition))) == Some(condition),
{
    let closed = seq!['('] + condition + seq![')'];
    assert(trimmed(before_goto(condition)) == closed) by {
        lemma_trimmed_ignores_padding(Seq::empty(), closed, blank());
        assert(Seq::<char>::empty() + closed + blank() =~= before_goto(condition));
        assert(closed.first() == '(');
        assert(closed.last() == ')');
        lemma_trimmed_of_trimmed(closed);
    }
    assert(closed.first() == '(');
    assert(closed.drop_first() =~= condition + seq![')']);
    assert(closed.drop_first().last() == ')');
    assert(closed.drop_first().drop_last() =~= condition);
}

/// How the condition of a conditional jump parts into words, and what they
/// read as.
proof fn lemma_condition_words(a: Number, rel: Rel, third: Seq<char>)
    requires
        a >= 0,
        plain(third),
        third.len() > 0,
    ensures
        words(infix_text(register_text(a), rel.symbol_spec(), third)) == seq![
            register_text(a),
            rel.symbol_spec(),
            third,
        ],
        quiet(infix_text(register_text(a), rel.symbol_spec(), third)),
        grammar::register(register_text(a)) == Some(a),
        grammar::relation(rel.symbol_spec()) == Some(rel),
{
    lemma_register_text(a);
    lemma_relation_text(rel);
    lemma_infix_words(register_text(a), rel.symbol_spec(), third);
}

/// The text of a conditional jump writes no assignment and no plain jump.
proof fn lemma_cond_jump_is_no_other(text: Seq<char>)
    requires
        text.len() > 0,
        text.first() == 'i',
    ensures
        grammar::assign_from_const(text) is None,
        grammar::assign_from_register(text) is None,
        grammar::load(text) is None,
        grammar::store(text) is None,
        grammar::arithmetic_op(text) is None,
        grammar::jump(text) is None,
{
    lemma_no_assignment_form(text);
    lemma_prefix_needs_first(text, goto_word());
}

/// A conditional jump reads back as the form with a constant where its
/// third word is one, and with an address where that is one.
proof fn lemma_reads_back_cond_jump(
    a: Number,
    rel: Rel,
    third: Seq<char>,
    pad: Seq<char>,
    label: Seq<char>,
)
    requires
        a >= 0,
        plain(third),
        third.len() > 0,
        all_space(pad),
        is_label(label),
    ensures
        ({
            let text = cond_jump_text_with(
                infix_text(register_text(a), rel.symbol_spec(), third),
                pad,
                label,
            );
            &&& grammar::cond_jump_rel(text) == match grammar::value(third) {
                Some(v) => Some(InstructionOpView::CondJumpRegRelConst(a, rel, v, label)),
                None => match grammar::register(third) {
                    Some(b) => Some(InstructionOpView::CondJumpRegRelReg(a, rel, b, label)),
                    None => None,
                },
            }
            &&& grammar::cond_jump_rel(text) is Some ==> grammar::operation(text)
                == grammar::cond_jump_rel(text)
        }),
{
    let condition = infix_text(register_text(a), rel.symbol_spec(), third);
    let text = cond_jump_text_with(condition, pad, label);
    lemma_condition_words(a, rel, third);
    lemma_cond_jump_text_parts(condition, pad, label);
    lemma_condition_in_parentheses(condition);
    lemma_cond_jump_from_parts(
        text,
        strip_prefix(text, if_word())->0,
        before_goto(condition),
        target_text(pad, label),
        condition,
        register_text(a),
        rel.symbol_spec(),
        third,
    );
    lemma_cond_jump_is_no_other(text);
    lemma_operation_picks(text);
}

/// A conditional jump reads back whatever white space stands before its
/// label.
pub(crate) proof fn lemma_reads_back_cond_jump_reg_with(
    a: Number,
    rel: Rel,
    b: Number,
    pad: Seq<char>,
    label: Seq<char>,
)
    requires
        a >= 0,
        b >= 0,
        all_space(pad),
        is_label(label),
    ensures
        grammar::operation(
            cond_jump_text_with(
                infix_text(register_text(a), rel.symbol_spec(), register_text(b)),
                pad,
                label,
            ),
        ) == Some(InstructionOpView::CondJumpRegRelReg(a, rel, b, label)),
{
    let third = register_text(b);
    assert(grammar::register(third) == Some(b) && grammar::value(third) is None && plain(third)
        && third.len() > 0) by {
        lemma_register_text(b);
    }
    lemma_reads_back_cond_jump(a, rel, third, pad, label);
}

/// A conditional jump reads back whatever white space stands before its
/// label.
pub(crate) proof fn lemma_reads_back_cond_jump_const_with(
    a: Number,
    rel: Rel,
    v: Number,
    pad: Seq<char>,
    label: Seq<char>,
)
    requires
        a >= 0,
        all_space(pad),
        is_label(label),
    ensures
        grammar::operation(
            cond_jump_text_with(
                infix_text(register_text(a), rel.symbol_spec(), signed_decimal(v as int)),
                pad,
                label,
            ),
        ) == Some(InstructionOpView::CondJumpRegRelConst(a, rel, v, label)),
{
    let third = signed_decimal(v as int);
    assert(grammar::value(third) == Some(v) && plain(third) && third.len() > 0) by {
        lemma_value_text(v);
    }
    lemma_reads_back_cond_jump(a, rel, third, pad, label);
}

/// The text of a conditional jump has one blank before its label.
proof fn lemma_cond_jump_text_is_padded(condition: Seq<char>, label: Seq<char>)
    ensures
        cond_jump_text(condition, label) == cond_jump_text_with(condition, blank(), label),
        all_space(blank()),
{
    assert(cond_jump_text(condition, label) =~= cond_jump_text_with(condition, blank(), label));
}

/// `if (Ra rel Rb) goto label` reads back.
pub(crate) proof fn lemma_reads_back_cond_jump_reg(a: Number, rel: Rel, b: Number, label: Seq<char>)
    requires
        a >= 0,
        b >= 0,
        is_label(label),
    ensures
        grammar::operation(InstructionOpView::CondJumpRegRelReg(a, rel, b, label).text()) == Some(
            InstructionOpView::CondJumpRegRelReg(a, rel, b, label),
        ),
{
    lemma_cond_jump_text_is_padded(
        infix_text(register_text(a), rel.symbol_spec(), register_text(b)),
        label,
    );
    lemma_reads_back_cond_jump_reg_with(a, rel, b, blank(), label);
}

/// `if (Ra rel c) goto label` reads back.
pub(crate) proof fn lemma_reads_back_cond_jump_const(
    a: Number,
    rel: Rel,
    v: Number,
    label: Seq<char>,
)
    requires
        a >= 0,
        is_label(label),
    ensures
        grammar::operation(InstructionOpView::CondJumpRegRelConst(a, rel, v, label).text())
            == Some(InstructionOpView::CondJumpRegRelConst(a, rel, v, label)),
{
    lemma_cond_jump_text_is_padded(
        infix_text(register_text(a), rel.symbol_spec(), signed_decimal(v as int)),
        label,
    );
    lemma_reads_back_cond_jump_const_with(a, rel, v, blank(), label);
}

/// `halt` reads back.
pub(crate) proof fn lemma_reads_back_halt()
    ensures
        grammar::operation(InstructionOpView::Halt.text()) == Some(InstructionOpView::Halt),
{
    let text = halt_word();
    assert(text.first() == 'h');
    assert(is_trimmed(text)) by {
        assert(text.last() == 't');
    }
    lemma_trimmed_of_trimmed(text);
    lemma_no_assignment_form(text);
    lemma_prefix_needs_first(text, goto_word());
    lemma_prefix_needs_first(text, if_word());
    lemma_operation_picks(text);
}

/// A trimmed text that begins with another character than `halt` does is
/// not `halt`.
proof fn lemma_not_halt(s: Seq<char>)
    requires
        is_trimmed(s),
        s.len() > 0,
        s.first() != 'h',
    ensures
        grammar::halt(s) is None,
{
    lemma_trimmed_of_trimmed(s);
    assert(halt_word().first() == 'h');
}

/// What stands between the parentheses of the text of a call.
proof fn lemma_call_text(word: Seq<char>, argument: Seq<char>)
    requires
        plain(argument),
    ensures
        grammar::call_argument(word + seq!['('] + argument + seq![')'], word) == Some(argument),
{
    let s = word + seq!['('] + argument + seq![')'];
    let rest = seq!['('] + argument + seq![')'];
    assert(s.subrange(0, word.len() as int) =~= word);
    assert(after(s, word.len() as int) =~= rest);
    assert(rest.first() == '(' && rest.last() == ')');
    lemma_trimmed_of_trimmed(rest);
    let inner = argument + seq![')'];
    assert(rest.drop_first() =~= inner);
    assert(inner.last() == ')');
    assert(is_trimmed(inner)) by {
        lemma_plain_is_quiet(argument);
        if argument.len() > 0 {
            assert(inner.first() == argument.first());
        } else {
            assert(inner.first() == ')');
        }
    }
    lemma_trimmed_of_trimmed(inner);
    assert(inner.drop_last() =~= argument);
    lemma_plain_is_quiet(argument);
    lemma_trimmed_of_trimmed(argument);
}

/// The call of `read` without an argument.
spec fn read_call() -> Seq<char> {
    read_word() + seq!['(', ')']
}

/// The call of `read` is plain, one word, and neither a constant nor an
/// address of any form.
proof fn lemma_read_call()
    ensures
        plain(read_call()),
        quiet(read_call()),
        is_trimmed(read_call()),
        grammar::value(read_call()) is None,
        grammar::register(read_call()) is None,
        grammar::memory_access(read_call()) is None,
        words(read_call()) == seq![read_call()],
        grammar::call_argument(read_call(), read_word()) == Some(Seq::<char>::empty()),
{
    let right = read_call();
    assert(right =~= seq!['r', 'e', 'a', 'd', '(', ')']);
    assert(plain(right)) by {
        assert forall|i: int| 0 <= i < right.len() implies is_plain(#[trigger] right[i]) by {}
    }
    lemma_plain_is_quiet(right);
    assert(right.first() == 'r');
    lemma_value_needs_numeral(right);
    lemma_plain_is_one_word(right);
    lemma_call_text(read_word(), Seq::empty());
    assert(read_word() + seq!['('] + Seq::<char>::empty() + seq![')'] =~= right);
}

/// The text of a `read` writes an assignment of the call to an address, and
/// is no jump and no `halt`.
proof fn lemma_read_text_parts(a: Number)
    requires
        a >= 0,
    ensures
        grammar::assignment(InstructionOpView::Read(a).text()) == Some(
            (register_text(a), read_call()),
        ),
        grammar::register(register_text(a)) == Some(a),
        grammar::memory_access(register_text(a)) is None,
        grammar::jump(InstructionOpView::Read(a).text()) is None,
        grammar::cond_jump_rel(InstructionOpView::Read(a).text()) is None,
        grammar::halt(InstructionOpView::Read(a).text()) is None,
{
    let text = InstructionOpView::Read(a).text();
    let left = register_text(a);
    lemma_register_text(a);
    lemma_plain_is_quiet(left);
    lemma_read_call();
    lemma_assignment_text(left, read_call());
    assert(text.first() == 'R' && text.last() == ')');
    lemma_prefix_needs_first(text, goto_word());
    lemma_prefix_needs_first(text, if_word());
    lemma_not_halt(text);
}

/// `Ra := read()` reads back: its right side is one word, and neither a
/// constant nor an address.
pub(crate) proof fn lemma_reads_back_read(a: Number)
    requires
        a >= 0,
    ensures
        grammar::operation(InstructionOpView::Read(a).text()) == Some(InstructionOpView::Read(a)),
{
    let text = InstructionOpView::Read(a).text();
    lemma_read_text_parts(a);
    lemma_read_call();
    lemma_plain_assignments_from_parts(text, register_text(a), read_call());
    assert(grammar::arithmetic_op(text) is None);
    assert(grammar::read(text) == Some(InstructionOpView::Read(a)));
    lemma_operation_picks(text);
}

/// `write(Ra)` reads back.
pub(crate) proof fn lemma_reads_back_write(a: Number)
    requires
        a >= 0,
    ensures
        grammar::operation(InstructionOpView::Write(a).text()) == Some(InstructionOpView::Write(a)),
{
    let op = InstructionOpView::Write(a);
    let text = op.text();
    assert(text.len() > 0 && text.first() == 'w' && text.last() == ')');
    assert(grammar::write(text) == Some(op)) by {
        lemma_register_text(a);
        lemma_call_text(write_word(), register_text(a));
    }
    assert(grammar::halt(text) is None) by {
        lemma_not_halt(text);
    }
    assert(grammar::jump(text) is None) by {
        lemma_prefix_needs_first(text, goto_word());
    }
    assert(grammar::cond_jump_rel(text) is None) by {
        lemma_prefix_needs_first(text, if_word());
    }
    lemma_no_assignment_form(text);
    lemma_operation_picks(text);
}

/// An operation that the grammar gives is given by one of the forms.
pub(crate) proof fn lemma_operation_is_a_form(s: Seq<char>)
    ensures
        ({
            let op = grammar::operation(s);
            op is Some ==> op == grammar::assign_from_const(s) || op
                == grammar::assign_from_register(s) || op == grammar::load(s) || op
                == grammar::store(s) || op == grammar::arithmetic_op(s) || op == grammar::jump(s)
                || op == grammar::cond_jump_rel(s) || op == grammar::halt(s) || op
                == grammar::read(s) || op == grammar::write(s)
        }),
{
}

/// What the forms without a label give is readable.
pub(crate) proof fn lemma_other_forms_are_readable(s: Seq<char>)
    ensures
        grammar::assign_from_const(s) matches Some(op) ==> readable(op),
        grammar::assign_from_register(s) matches Some(op) ==> readable(op),
        grammar::load(s) matches Some(op) ==> readable(op),
        grammar::store(s) matches Some(op) ==> readable(op),
        grammar::arithmetic_op(s) matches Some(op) ==> readable(op),
        grammar::halt(s) matches Some(op) ==> readable(op),
        grammar::read(s) matches Some(op) ==> readable(op),
        grammar::write(s) matches Some(op) ==> readable(op),
{
}

/// The label that the jump form gives is trimmed and holds no `goto`.
pub(crate) proof fn lemma_jump_is_readable(s: Seq<char>)
    ensures
        grammar::jump(s) matches Some(op) ==> readable(op),
{
    if let Some(rest) = strip_prefix(s, goto_word()) {
        lemma_trimmed(rest);
    }
}

/// The label that the conditional form gives is trimmed and holds no
/// `goto`.
pub(crate) proof fn lemma_cond_jump_is_readable(s: Seq<char>)
    ensures
        grammar::cond_jump_rel(s) matches Some(op) ==> readable(op),
{
    if let Some(rest) = strip_prefix(s, if_word()) {
        if let Some((before, target)) = split_in_two(trimmed(rest), goto_word()) {
            lemma_trimmed(target);
            let (i, j) = choose|i: int, j: int|
                0 <= i <= j <= target.len() && #[trigger] target.subrange(i, j) == trimmed(target)
                    && all_space(target.subrange(0, i)) && all_space(
                    target.subrange(j, target.len() as int),
                );
            lemma_part_contains_not(target, goto_word(), i, j);
        }
    }
}

} // verus!
