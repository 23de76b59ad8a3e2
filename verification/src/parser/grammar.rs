//! The grammar of program text, as functions from text to what it means.

use vstd::prelude::*;
use crate::ram::instruction::InstructionView;
use crate::ram::instruction_op::InstructionOpView;
use crate::ram::op::Op;
use crate::ram::rel::Rel;
use crate::ram::syntax::{assign_sign, goto_word, halt_word, if_word, read_word, write_word};
use crate::ram::types::Number;
use crate::text::number::{signed_numeral, unsigned_numeral};
use crate::text::search::{
    after, contains, find, lemma_find, split_in_two, starts_with, strip_first, strip_last,
    strip_prefix,
};
use crate::text::space::{trimmed, without_leading_space};
use crate::text::words::words;

verus! {

/// The first of two results that is one.
pub open spec fn or_else<T>(first: Option<T>, second: Option<T>) -> Option<T> {
    if first is Some {
        first
    } else {
        second
    }
}

/// An address: `R`, then a numeral without a minus sign whose value is a
/// 32-bit signed number. No white space is allowed.
pub open spec fn register(s: Seq<char>) -> Option<Number> {
    match strip_first(s, 'R') {
        Some(numeral) => match unsigned_numeral(numeral) {
            Some(n) => if n <= Number::MAX {
                Some(n as Number)
            } else {
                None
            },
            None => None,
        },
        None => None,
    }
}

/// A constant: a numeral whose value is a 32-bit signed number, with white
/// space allowed around it.
pub open spec fn value(s: Seq<char>) -> Option<Number> {
    match signed_numeral(trimmed(s)) {
        Some(v) => if Number::MIN <= v <= Number::MAX {
            Some(v as Number)
        } else {
            None
        },
        None => None,
    }
}

/// An indirect address: an address in square brackets.
pub open spec fn memory_access(s: Seq<char>) -> Option<Number> {
    match strip_first(s, '[') {
        Some(rest) => match strip_last(rest, ']') {
            Some(inner) => register(inner),
            None => None,
        },
        None => None,
    }
}

/// An arithmetic operator, with white space allowed around it.
pub open spec fn operator(s: Seq<char>) -> Option<Op> {
    let t = trimmed(s);
    if t == Op::Add.symbol_spec() {
        Some(Op::Add)
    } else if t == Op::Sub.symbol_spec() {
        Some(Op::Sub)
    } else if t == Op::Mul.symbol_spec() {
        Some(Op::Mul)
    } else if t == Op::Div.symbol_spec() {
        Some(Op::Div)
    } else {
        None
    }
}

/// A relation, with white space allowed around it.
pub open spec fn relation(s: Seq<char>) -> Option<Rel> {
    let t = trimmed(s);
    if t == Rel::Lt.symbol_spec() {
        Some(Rel::Lt)
    } else if t == Rel::Gt.symbol_spec() {
        Some(Rel::Gt)
    } else if t == Rel::Le.symbol_spec() {
        Some(Rel::Le)
    } else if t == Rel::Ge.symbol_spec() {
        Some(Rel::Ge)
    } else if t == Rel::Eq.symbol_spec() {
        Some(Rel::Eq)
    } else if t == Rel::Ne.symbol_spec() {
        Some(Rel::Ne)
    } else {
        None
    }
}

/// The two sides of an assignment, trimmed: the text holds `:=` once and no
/// more.
pub open spec fn assignment(s: Seq<char>) -> Option<(Seq<char>, Seq<char>)> {
    match split_in_two(s, assign_sign()) {
        Some((left, right)) => Some((trimmed(left), trimmed(right))),
        None => None,
    }
}

/// `Ra := c`
pub open spec fn assign_from_const(s: Seq<char>) -> Option<InstructionOpView> {
    match assignment(s) {
        Some((left, right)) => match (register(left), value(right)) {
            (Some(a), Some(v)) => Some(InstructionOpView::AssignFromConst(a, v)),
            _ => None,
        },
        None => None,
    }
}

/// `Ra := Rb`
pub open spec fn assign_from_register(s: Seq<char>) -> Option<InstructionOpView> {
    match assignment(s) {
        Some((left, right)) => match (register(left), register(right)) {
            (Some(a), Some(b)) => Some(InstructionOpView::AssignFromRegister(a, b)),
            _ => None,
        },
        None => None,
    }
}

/// `Ra := [Rb]`
pub open spec fn load(s: Seq<char>) -> Option<InstructionOpView> {
    match assignment(s) {
        Some((left, right)) => match (register(left), memory_access(right)) {
            (Some(a), Some(b)) => Some(InstructionOpView::Load(a, b)),
            _ => None,
        },
        None => None,
    }
}

/// `[Ra] := Rb`
pub open spec fn store(s: Seq<char>) -> Option<InstructionOpView> {
    match assignment(s) {
        Some((left, right)) => match (memory_access(left), register(right)) {
            (Some(a), Some(b)) => Some(InstructionOpView::Store(a, b)),
            _ => None,
        },
        None => None,
    }
}

/// `Ra := Rb op Rc` or `Ra := Rb op c`: the right side has three words, and
/// the third decides which of the two it is.
pub open spec fn arithmetic_op(s: Seq<char>) -> Option<InstructionOpView> {
    match assignment(s) {
        Some((left, right)) => {
            let w = words(right);
            if w.len() == 3 {
                match (register(left), register(w[0]), operator(w[1])) {
                    (Some(a), Some(b), Some(op)) => match register(w[2]) {
                        Some(c) => Some(InstructionOpView::ArithmeticRegOpReg(a, b, op, c)),
                        None => match value(w[2]) {
                            Some(v) => Some(InstructionOpView::ArithmeticRegOpConst(a, b, op, v)),
                            None => None,
                        },
                    },
                    _ => None,
                }
            } else {
                None
            }
        },
        None => None,
    }
}

/// `goto label`: the label is all that follows the word, trimmed; it may
/// hold white space, but not the word `goto`.
pub open spec fn jump(s: Seq<char>) -> Option<InstructionOpView> {
    match strip_prefix(s, goto_word()) {
        Some(rest) => if contains(trimmed(rest), goto_word()) {
            None
        } else {
            Some(InstructionOpView::Jump(trimmed(rest)))
        },
        None => None,
    }
}

/// The condition of a conditional jump without its parentheses.
pub open spec fn in_parentheses(s: Seq<char>) -> Option<Seq<char>> {
    match strip_first(s, '(') {
        Some(rest) => strip_last(rest, ')'),
        None => None,
    }
}

/// `if (Ra rel Rb) goto label` or `if (Ra rel c) goto label`: after `if`,
/// the text holds `goto` once and no more; before it stands the condition
/// in parentheses, three words; after it the label.
pub open spec fn cond_jump_rel(s: Seq<char>) -> Option<InstructionOpView> {
    match strip_prefix(s, if_word()) {
        Some(rest) => match split_in_two(trimmed(rest), goto_word()) {
            Some((before, target)) => match in_parentheses(trimmed(before)) {
                Some(condition) => {
                    let w = words(condition);
                    let label = trimmed(target);
                    if w.len() == 3 {
                        match (register(w[0]), relation(w[1])) {
                            (Some(a), Some(rel)) => match value(w[2]) {
                                Some(v) => Some(
                                    InstructionOpView::CondJumpRegRelConst(a, rel, v, label),
                                ),
                                None => match register(w[2]) {
                                    Some(b) => Some(
                                        InstructionOpView::CondJumpRegRelReg(a, rel, b, label),
                                    ),
                                    None => None,
                                },
                            },
                            _ => None,
                        }
                    } else {
                        None
                    }
                },
                None => None,
            },
            None => None,
        },
        None => None,
    }
}

/// `halt`, with white space allowed around it.
pub open spec fn halt(s: Seq<char>) -> Option<InstructionOpView> {
    if trimmed(s) == halt_word() {
        Some(InstructionOpView::Halt)
    } else {
        None
    }
}

/// What stands between the parentheses of a call of `word`, trimmed: `s` is
/// the word, an opening parenthesis, some text and a closing parenthesis,
/// with white space allowed after each of the first three.
pub open spec fn call_argument(s: Seq<char>, word: Seq<char>) -> Option<Seq<char>> {
    match strip_prefix(s, word) {
        Some(rest) => match strip_first(trimmed(rest), '(') {
            Some(inner) => match strip_last(trimmed(inner), ')') {
                Some(argument) => Some(trimmed(argument)),
                None => None,
            },
            None => None,
        },
        None => None,
    }
}

/// `Ra := read()`
pub open spec fn read(s: Seq<char>) -> Option<InstructionOpView> {
    match assignment(s) {
        Some((left, right)) => match call_argument(right, read_word()) {
            Some(argument) => if argument.len() == 0 {
                match register(left) {
                    Some(a) => Some(InstructionOpView::Read(a)),
                    None => None,
                }
            } else {
                None
            },
            None => None,
        },
        None => None,
    }
}

/// `write(Ra)`
pub open spec fn write(s: Seq<char>) -> Option<InstructionOpView> {
    match call_argument(s, write_word()) {
        Some(argument) => match register(argument) {
            Some(a) => Some(InstructionOpView::Write(a)),
            None => None,
        },
        None => None,
    }
}

/// The operation that `s` writes: that of the first form that `s` matches,
/// the forms taken in this order.
pub open spec fn operation(s: Seq<char>) -> Option<InstructionOpView> {
    or_else(
        assign_from_const(s),
        or_else(
            assign_from_register(s),
            or_else(
                load(s),
                or_else(
                    store(s),
                    or_else(
                        arithmetic_op(s),
                        or_else(
                            jump(s),
                            or_else(cond_jump_rel(s), or_else(halt(s), or_else(read(s), write(s)))),
                        ),
                    ),
                ),
            ),
        ),
    )
}

/// The label before the first colon of `line` and the text after it, both
/// trimmed. A colon that begins a `:=`, with or without white space between
/// the two, parts nothing: then there is no label, and the text is the
/// whole line, trimmed.
pub open spec fn split_line(line: Seq<char>) -> (Option<Seq<char>>, Seq<char>) {
    match find(line, seq![':']) {
        Some(colon) => if starts_with(
            without_leading_space(after(line, colon + 1)),
            seq!['='],
        ) {
            (None, trimmed(line))
        } else {
            (Some(trimmed(line.subrange(0, colon))), trimmed(after(line, colon + 1)))
        },
        None => (None, trimmed(line)),
    }
}

/// The instruction that a line without comment writes: an optional label
/// and an operation.
pub open spec fn instruction(line: Seq<char>) -> Option<InstructionView> {
    match operation(split_line(line).1) {
        Some(op) => Some(InstructionView { label: split_line(line).0, op, comment: None }),
        None => None,
    }
}

/// The placeholder for a line without an operation.
pub open spec fn empty_line(comment: Option<Seq<char>>) -> InstructionView {
    InstructionView { label: None, op: InstructionOpView::Empty, comment }
}

/// The instruction that a source line writes. What follows the first `#`
/// is the comment, kept trimmed. A line with nothing before its comment,
/// or with nothing at all, gives a placeholder. None where the text before
/// the comment matches no form.
pub open spec fn source_line(line: Seq<char>) -> Option<InstructionView> {
    let t = trimmed(line);
    match find(t, seq!['#']) {
        Some(hash) => {
            let comment = Some(trimmed(after(t, hash + 1)));
            let code = trimmed(t.subrange(0, hash));
            if code.len() == 0 {
                Some(empty_line(comment))
            } else {
                match instruction(code) {
                    Some(i) => Some(InstructionView { comment, ..i }),
                    None => None,
                }
            }
        },
        None => if t.len() == 0 {
            Some(empty_line(None))
        } else {
            instruction(t)
        },
    }
}

/// The program that the lines write, or the first line that writes no
/// instruction.
pub open spec fn program(lines: Seq<Seq<char>>) -> Result<Seq<InstructionView>, Seq<char>>
    decreases lines.len(),
{
    if lines.len() == 0 {
        Ok(Seq::empty())
    } else {
        match program(lines.drop_last()) {
            Ok(earlier) => match source_line(lines.last()) {
                Some(i) => Ok(earlier.push(i)),
                None => Err(lines.last()),
            },
            Err(line) => Err(line),
        }
    }
}

/// A program has one instruction for each line, in order; and where there
/// is no program, the line that is to blame is the first that writes no
/// instruction.
pub proof fn lemma_program_line_by_line(lines: Seq<Seq<char>>)
    ensures
        match program(lines) {
            Ok(instructions) => instructions.len() == lines.len() && forall|i: int|
                0 <= i < lines.len() ==> source_line(#[trigger] lines[i]) == Some(instructions[i]),
            Err(line) => exists|k: int|
                0 <= k < lines.len() && #[trigger] lines[k] == line && source_line(line) is None
                    && forall|j: int| 0 <= j < k ==> source_line(#[trigger] lines[j]) is Some,
        },
    decreases lines.len(),
{
    if lines.len() > 0 {
        let earlier = lines.drop_last();
        lemma_program_line_by_line(earlier);
        assert(forall|i: int| 0 <= i < earlier.len() ==> earlier[i] == lines[i]);
        match program(earlier) {
            Ok(instructions) => {
                if source_line(lines.last()) is None {
                    let k = lines.len() - 1;
                    assert(lines[k] == lines.last());
                    assert forall|j: int| 0 <= j < k implies source_line(
                        #[trigger] lines[j],
                    ) is Some by {
                        assert(source_line(earlier[j]) == Some(instructions[j]));
                    }
                } else {
                    let all = instructions.push(source_line(lines.last())->0);
                    assert forall|i: int| 0 <= i < lines.len() implies source_line(
                        #[trigger] lines[i],
                    ) == Some(all[i]) by {
                        if i < earlier.len() {
                            assert(source_line(earlier[i]) == Some(instructions[i]));
                        }
                    }
                }
            },
            Err(line) => {
                let k = choose|k: int|
                    0 <= k < earlier.len() && #[trigger] earlier[k] == line && source_line(line)
                        is None && forall|j: int|
                        0 <= j < k ==> source_line(#[trigger] earlier[j]) is Some;
                assert(lines[k] == line);
                assert forall|j: int| 0 <= j < k implies source_line(#[trigger] lines[j])
                    is Some by {
                    assert(source_line(earlier[j]) is Some);
                }
            },
        }
    }
}

/// A line as it stands before its line feed: without the carriage return
/// that may end it.
pub open spec fn before_line_feed(s: Seq<char>) -> Seq<char> {
    if s.len() > 0 && s.last() == '\r' {
        s.drop_last()
    } else {
        s
    }
}

/// The lines of a text. Each line feed ends a line, and what follows the
/// last one is a line if it is not empty.
pub open spec fn lines_of(text: Seq<char>) -> Seq<Seq<char>>
    decreases text.len(),
    via lines_of_decreases
{
    if text.len() == 0 {
        Seq::empty()
    } else {
        match find(text, seq!['\n']) {
            Some(feed) => seq![before_line_feed(text.subrange(0, feed))] + lines_of(
                after(text, feed + 1),
            ),
            None => seq![text],
        }
    }
}

/// What follows a line feed is shorter than the text.
#[via_fn]
proof fn lines_of_decreases(text: Seq<char>) {
    lemma_find(text, seq!['\n']);
}

} // verus!
