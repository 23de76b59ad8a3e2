//! The pieces that the texts of operations are made of, and how each reads.

use vstd::prelude::*;
use crate::parser::grammar;
use crate::parser::round_trip::{is_plain, plain, quiet};
use crate::ram::instruction_op::{assignment_text, infix_text, memory_access_text, register_text};
use crate::ram::op::Op;
use crate::ram::rel::Rel;
use crate::ram::syntax::{assign_sign, blank, goto_word};
use crate::ram::types::Number;
use crate::text::number::{
    all_digits, decimal, is_digit, lemma_decimal, lemma_signed_decimal, signed_decimal,
};
use crate::text::search::{
    after, contains, lemma_find, lemma_find_is, lemma_find_none, occurs_at, split_in_two,
    starts_with, strip_first, strip_prefix,
};
use crate::text::space::{
    is_space, is_trimmed, lemma_trimmed_ignores_padding, lemma_trimmed_of_trimmed, no_space,
    trimmed,
};
use crate::text::words::{lemma_words_of_word_then, words};

verus! {

/// A plain text is quiet, holds no white space and is trimmed.
pub(crate) proof fn lemma_plain_is_quiet(s: Seq<char>)
    requires
        plain(s),
    ensures
        quiet(s),
        no_space(s),
        is_trimmed(s),
{
    if s.len() > 0 {
        assert(is_plain(s[0]));
        assert(is_plain(s[s.len() - 1]));
    }
}

/// Two plain texts in a row are plain.
proof fn lemma_plain_concat(a: Seq<char>, b: Seq<char>)
    requires
        plain(a),
        plain(b),
    ensures
        plain(a + b),
{
    assert forall|i: int| 0 <= i < (a + b).len() implies is_plain(#[trigger] (a + b)[i]) by {
        if i < a.len() {
            assert((a + b)[i] == a[i]);
        } else {
            assert((a + b)[i] == b[i - a.len()]);
        }
    }
}

/// Two quiet texts in a row are quiet.
pub(crate) proof fn lemma_quiet_concat(a: Seq<char>, b: Seq<char>)
    requires
        quiet(a),
        quiet(b),
    ensures
        quiet(a + b),
{
    assert forall|i: int| 0 <= i < (a + b).len() implies is_plain(#[trigger] (a + b)[i]) || (a
        + b)[i] == ' ' by {
        if i < a.len() {
            assert((a + b)[i] == a[i]);
        } else {
            assert((a + b)[i] == b[i - a.len()]);
        }
    }
}

/// A text in which the first character of the pattern never stands does
/// not hold the pattern.
pub(crate) proof fn lemma_quiet_holds_neither(s: Seq<char>)
    requires
        quiet(s),
    ensures
        !contains(s, assign_sign()),
        !contains(s, goto_word()),
{
    assert forall|j: int| !occurs_at(s, assign_sign(), j) by {
        if occurs_at(s, assign_sign(), j) {
            assert(s.subrange(j, j + 2)[0] == ':');
            assert(s[j] == ':');
        }
    }
    lemma_find_none(s, assign_sign());
    assert forall|j: int| !occurs_at(s, goto_word(), j) by {
        if occurs_at(s, goto_word(), j) {
            assert(s.subrange(j, j + 4)[0] == 'g');
            assert(s[j] == 'g');
        }
    }
    lemma_find_none(s, goto_word());
}

/// Where the text before the pattern is quiet and the text after it does
/// not hold the pattern, the text parts in two at the pattern.
pub(crate) proof fn lemma_split_at_sign(a: Seq<char>, pattern: Seq<char>, b: Seq<char>)
    requires
        quiet(a),
        pattern == assign_sign() || pattern == goto_word(),
        !contains(b, pattern),
    ensures
        split_in_two(a + pattern + b, pattern) == Some((a, b)),
{
    let s = a + pattern + b;
    let at = a.len() as int;
    assert(s.subrange(at, at + pattern.len()) =~= pattern);
    assert forall|j: int| 0 <= j < at implies !occurs_at(s, pattern, j) by {
        if occurs_at(s, pattern, j) {
            assert(s.subrange(j, j + pattern.len())[0] == pattern[0]);
            assert(s[j] == a[j]);
        }
    }
    lemma_find_is(s, pattern, at);
    assert(after(s, at + pattern.len()) =~= b);
    assert(s.subrange(0, at) =~= a);
}

/// The digits of a number are plain.
proof fn lemma_decimal_plain(n: nat)
    ensures
        plain(decimal(n)),
        decimal(n).len() > 0,
        is_digit(decimal(n).first()),
{
    lemma_decimal(n);
    assert forall|i: int| 0 <= i < decimal(n).len() implies is_plain(#[trigger] decimal(n)[i]) by {
        assert(is_digit(decimal(n)[i]));
    }
    assert(is_digit(decimal(n)[0]));
}

/// The numeral of a number is plain, and reads as a constant and not as an
/// address.
pub(crate) proof fn lemma_value_text(v: Number)
    ensures
        plain(signed_decimal(v as int)),
        signed_decimal(v as int).len() > 0,
        grammar::value(signed_decimal(v as int)) == Some(v),
        grammar::register(signed_decimal(v as int)) is None,
        grammar::memory_access(signed_decimal(v as int)) is None,
{
    let s = signed_decimal(v as int);
    lemma_signed_decimal(v as int);
    if v < 0 {
        lemma_decimal_plain((-v) as nat);
        lemma_plain_concat(seq!['-'], decimal((-v) as nat));
        assert(s.first() == '-');
    } else {
        lemma_decimal_plain(v as nat);
    }
    lemma_plain_is_quiet(s);
    lemma_trimmed_of_trimmed(s);
}

/// The text of an address is plain, and reads as that address and not as a
/// constant.
pub(crate) proof fn lemma_register_text(a: Number)
    requires
        a >= 0,
    ensures
        plain(register_text(a)),
        register_text(a).len() > 0,
        register_text(a).first() == 'R',
        grammar::register(register_text(a)) == Some(a),
        grammar::value(register_text(a)) is None,
        grammar::memory_access(register_text(a)) is None,
{
    let s = register_text(a);
    lemma_decimal_plain(a as nat);
    lemma_decimal(a as nat);
    lemma_plain_concat(seq!['R'], decimal(a as nat));
    assert(s.first() == 'R');
    assert(s.drop_first() =~= decimal(a as nat));
    lemma_plain_is_quiet(s);
    lemma_trimmed_of_trimmed(s);
}

/// The text of an indirect address is plain, and reads as that and as
/// nothing else.
pub(crate) proof fn lemma_memory_access_text(a: Number)
    requires
        a >= 0,
    ensures
        plain(memory_access_text(a)),
        memory_access_text(a).len() > 0,
        memory_access_text(a).first() == '[',
        grammar::memory_access(memory_access_text(a)) == Some(a),
        grammar::register(memory_access_text(a)) is None,
        grammar::value(memory_access_text(a)) is None,
{
    let s = memory_access_text(a);
    lemma_register_text(a);
    lemma_plain_concat(seq!['['], register_text(a));
    lemma_plain_concat(seq!['['] + register_text(a), seq![']']);
    assert(s.first() == '[');
    assert(s.last() == ']');
    assert(s.drop_first().drop_last() =~= register_text(a));
    assert(s.drop_first().last() == ']');
    lemma_plain_is_quiet(s);
    lemma_trimmed_of_trimmed(s);
}

/// The text of an assignment with a quiet, trimmed text on each side reads
/// as the assignment of those sides.
pub(crate) proof fn lemma_assignment_text(left: Seq<char>, right: Seq<char>)
    requires
        quiet(left),
        quiet(right),
        is_trimmed(left),
        is_trimmed(right),
    ensures
        grammar::assignment(assignment_text(left, right)) == Some((left, right)),
{
    let a = left + blank();
    let b = blank() + right;
    lemma_quiet_concat(left, blank());
    lemma_quiet_concat(blank(), right);
    lemma_quiet_holds_neither(b);
    lemma_split_at_sign(a, assign_sign(), b);
    assert(assignment_text(left, right) =~= a + assign_sign() + b);
    lemma_trimmed_ignores_padding(Seq::empty(), left, blank());
    assert(Seq::<char>::empty() + left + blank() =~= a);
    lemma_trimmed_ignores_padding(blank(), right, Seq::empty());
    assert(blank() + right + Seq::<char>::empty() =~= b);
    lemma_trimmed_of_trimmed(left);
    lemma_trimmed_of_trimmed(right);
}

/// A text begins with a word only if it begins with the word's first
/// character.
pub(crate) proof fn lemma_prefix_needs_first(s: Seq<char>, word: Seq<char>)
    requires
        word.len() > 0,
        s.len() == 0 || s.first() != word.first(),
    ensures
        !starts_with(s, word),
        strip_prefix(s, word) is None,
{
    if starts_with(s, word) {
        assert(s.subrange(0, word.len() as int)[0] == word[0]);
    }
}

/// The left side of an assignment begins as the text does, if the text
/// does not begin with white space.
proof fn lemma_assignment_left_start(s: Seq<char>)
    requires
        s.len() > 0,
        !is_space(s.first()),
    ensures
        match grammar::assignment(s) {
            Some((left, right)) => left.len() == 0 || left.first() == s.first(),
            None => true,
        },
{
    if let Some((before, right)) = split_in_two(s, assign_sign()) {
        lemma_find(s, assign_sign());
        crate::text::space::lemma_without_trailing_space(before);
        if before.len() > 0 {
            assert(before.first() == s.first());
        }
    }
}

/// A text that begins with neither `R` nor `[` nor white space writes no
/// assignment of any form.
pub(crate) proof fn lemma_no_assignment_form(s: Seq<char>)
    requires
        s.len() > 0,
        !is_space(s.first()),
        s.first() != 'R',
        s.first() != '[',
    ensures
        grammar::assign_from_const(s) is None,
        grammar::assign_from_register(s) is None,
        grammar::load(s) is None,
        grammar::store(s) is None,
        grammar::arithmetic_op(s) is None,
        grammar::read(s) is None,
{
    lemma_assignment_left_start(s);
}

/// A trimmed text that begins with neither a digit nor a sign is no
/// constant.
pub(crate) proof fn lemma_value_needs_numeral(s: Seq<char>)
    requires
        is_trimmed(s),
        s.len() > 0,
        !is_digit(s.first()),
        s.first() != '+',
        s.first() != '-',
    ensures
        grammar::value(s) is None,
{
    lemma_trimmed_of_trimmed(s);
    assert(!all_digits(s)) by {
        if all_digits(s) {
            assert(is_digit(s[0]));
        }
    }
}

/// A text that holds a blank is no address.
pub(crate) proof fn lemma_register_needs_no_blank(s: Seq<char>, at: int)
    requires
        0 <= at < s.len(),
        s[at] == ' ',
    ensures
        grammar::register(s) is None,
{
    if let Some(numeral) = strip_first(s, 'R') {
        assert(at >= 1);
        assert(numeral[at - 1] == ' ');
        if numeral.first() == '+' {
            let digits = numeral.drop_first();
            assert(at >= 2);
            assert(digits[at - 2] == ' ');
            assert(!is_digit(digits[at - 2]));
        } else {
            assert(!is_digit(numeral[at - 1]));
        }
    }
}

/// A plain text that is not empty is one word.
pub(crate) proof fn lemma_plain_is_one_word(s: Seq<char>)
    requires
        plain(s),
        s.len() > 0,
    ensures
        words(s) == seq![s],
{
    lemma_plain_is_quiet(s);
    lemma_words_of_word_then(s, Seq::empty());
    assert(s + Seq::<char>::empty() =~= s);
    assert(seq![s] + Seq::<Seq<char>>::empty() =~= seq![s]);
}

/// The words of two texts with a sign between them are the two texts and
/// the sign.
pub(crate) proof fn lemma_infix_words(left: Seq<char>, sign: Seq<char>, right: Seq<char>)
    requires
        plain(left),
        plain(sign),
        plain(right),
        left.len() > 0,
        sign.len() > 0,
        right.len() > 0,
    ensures
        words(infix_text(left, sign, right)) == seq![left, sign, right],
        quiet(infix_text(left, sign, right)),
        is_trimmed(infix_text(left, sign, right)),
        infix_text(left, sign, right).first() == left.first(),
        infix_text(left, sign, right)[left.len() as int] == ' ',
{
    let s = infix_text(left, sign, right);
    lemma_plain_is_quiet(left);
    lemma_plain_is_quiet(sign);
    lemma_plain_is_quiet(right);
    let tail2 = blank() + right;
    let tail1 = blank() + sign + tail2;
    assert(s =~= left + tail1);
    lemma_words_of_word_then(left, tail1);
    assert(tail1.drop_first() =~= sign + tail2);
    assert(is_space(tail1.first()));
    assert(words(tail1) == words(sign + tail2));
    lemma_words_of_word_then(sign, tail2);
    assert(tail2.drop_first() =~= right);
    assert(is_space(tail2.first()));
    assert(words(tail2) == words(right));
    lemma_plain_is_one_word(right);
    assert(seq![left] + (seq![sign] + seq![right]) =~= seq![left, sign, right]);
    lemma_quiet_concat(left, blank());
    lemma_quiet_concat(left + blank(), sign);
    lemma_quiet_concat(left + blank() + sign, blank());
    lemma_quiet_concat(left + blank() + sign + blank(), right);
    assert(s.first() == left.first());
    assert(s.last() == right.last());
    assert(is_plain(left[0]));
    assert(is_plain(right[right.len() - 1]));
}

/// The text of an operator is plain and reads as that operator.
pub(crate) proof fn lemma_operator_text(op: Op)
    ensures
        plain(op.symbol_spec()),
        op.symbol_spec().len() > 0,
        grammar::operator(op.symbol_spec()) == Some(op),
{
    let s = op.symbol_spec();
    assert(is_plain(s[0]));
    lemma_plain_is_quiet(s);
    lemma_trimmed_of_trimmed(s);
    assert(Op::Add.symbol_spec()[0] == '+');
    assert(Op::Sub.symbol_spec()[0] == '-');
    assert(Op::Mul.symbol_spec()[0] == '*');
    assert(Op::Div.symbol_spec()[0] == '/');
}

/// The text of a relation is plain and reads as that relation.
pub(crate) proof fn lemma_relation_text(rel: Rel)
    ensures
        plain(rel.symbol_spec()),
        rel.symbol_spec().len() > 0,
        grammar::relation(rel.symbol_spec()) == Some(rel),
{
    let s = rel.symbol_spec();
    assert(is_plain(s[0]));
    assert(s.len() == 2 ==> is_plain(s[1]));
    lemma_plain_is_quiet(s);
    lemma_trimmed_of_trimmed(s);
    assert(Rel::Lt.symbol_spec()[0] == '<');
    assert(Rel::Gt.symbol_spec()[0] == '>');
    assert(Rel::Le.symbol_spec()[0] == '<');
    assert(Rel::Ge.symbol_spec()[0] == '>');
    assert(Rel::Eq.symbol_spec()[0] == '=');
    assert(Rel::Ne.symbol_spec()[0] == '!');
    assert(Rel::Lt.symbol_spec().len() == 1);
    assert(Rel::Gt.symbol_spec().len() == 1);
    assert(Rel::Le.symbol_spec().len() == 2);
    assert(Rel::Ge.symbol_spec().len() == 2);
}

} // verus!
