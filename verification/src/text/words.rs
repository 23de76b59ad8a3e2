//! The words of a text: its maximal runs of characters that are not white
//! space.

use vstd::prelude::*;
use vstd::slice::slice_subrange;
use crate::text::search::after;
use crate::text::space::{
    char_is_space, is_space, no_space, trim_start, without_leading_space,
};

verus! {

/// The length of the word that `s` begins with; 0 if it begins with white
/// space or is empty.
pub open spec fn word_len(s: Seq<char>) -> nat
    decreases s.len(),
{
    if s.len() > 0 && !is_space(s.first()) {
        1 + word_len(s.drop_first())
    } else {
        0
    }
}

/// The word that `s` begins with reaches to the first white space or to the
/// end.
pub proof fn lemma_word_len(s: Seq<char>)
    ensures
        word_len(s) <= s.len(),
        no_space(s.subrange(0, word_len(s) as int)),
        word_len(s) < s.len() ==> is_space(s[word_len(s) as int]),
        s.len() > 0 && !is_space(s.first()) ==> word_len(s) >= 1,
    decreases s.len(),
{
    if s.len() > 0 && !is_space(s.first()) {
        let rest = s.drop_first();
        lemma_word_len(rest);
        let n = word_len(rest) as int;
        assert forall|i: int| 0 <= i < n + 1 implies !is_space(
            #[trigger] s.subrange(0, n + 1)[i],
        ) by {
            if i > 0 {
                assert(s.subrange(0, n + 1)[i] == rest.subrange(0, n)[i - 1]);
            }
        }
        if n + 1 < s.len() {
            assert(s[n + 1] == rest[n]);
        }
    }
}

/// A run of characters without white space, followed by white space or by
/// nothing, is the word that the text begins with.
pub proof fn lemma_word_len_is(word: Seq<char>, rest: Seq<char>)
    requires
        no_space(word),
        rest.len() > 0 ==> is_space(rest.first()),
    ensures
        word_len(word + rest) == word.len(),
    decreases word.len(),
{
    let s = word + rest;
    if word.len() > 0 {
        assert(s.first() == word[0]);
        assert(s.drop_first() == word.drop_first() + rest);
        assert forall|i: int| 0 <= i < word.drop_first().len() implies !is_space(
            #[trigger] word.drop_first()[i],
        ) by {
            assert(word.drop_first()[i] == word[i + 1]);
        }
        lemma_word_len_is(word.drop_first(), rest);
    } else {
        assert(s == rest);
    }
}

/// The words of `s`, in order.
pub open spec fn words(s: Seq<char>) -> Seq<Seq<char>>
    decreases s.len(),
    via words_decreases
{
    if s.len() == 0 {
        Seq::empty()
    } else if is_space(s.first()) {
        words(s.drop_first())
    } else {
        seq![s.subrange(0, word_len(s) as int)] + words(after(s, word_len(s) as int))
    }
}

/// What follows the first word is shorter than the text.
#[via_fn]
proof fn words_decreases(s: Seq<char>) {
    lemma_word_len(s);
}

/// White space before a text does not change its words.
pub proof fn lemma_words_skip_space(s: Seq<char>)
    ensures
        words(s) == words(without_leading_space(s)),
    decreases s.len(),
{
    if s.len() > 0 && is_space(s.first()) {
        lemma_words_skip_space(s.drop_first());
    }
}

/// The words of a word followed by white space and more text, or by nothing,
/// are that word and the words of what follows.
pub proof fn lemma_words_of_word_then(word: Seq<char>, rest: Seq<char>)
    requires
        word.len() > 0,
        no_space(word),
        rest.len() > 0 ==> is_space(rest.first()),
    ensures
        words(word + rest) == seq![word] + words(rest),
{
    let s = word + rest;
    lemma_word_len_is(word, rest);
    assert(!is_space(word[0]));
    assert(s.first() == word[0]);
    assert(s.subrange(0, word.len() as int) == word);
    assert(after(s, word.len() as int) == rest);
}

/// The word that `s` begins with after its leading white space, and what
/// follows that word; none if `s` has no word.
pub fn next_word(s: &[char]) -> (r: Option<(&[char], &[char])>)
    ensures
        match r {
            Some((word, rest)) => words(s@) == seq![word@] + words(rest@) && word@.len() > 0
                && rest@.len() < s@.len(),
            None => words(s@) == Seq::<Seq<char>>::empty(),
        },
{
    let t = trim_start(s);
    proof {
        lemma_words_skip_space(s@);
        crate::text::space::lemma_without_leading_space(s@);
    }
    if t.len() == 0 {
        return None;
    }
    let mut n: usize = 0;
    assert(t@.subrange(0, t.len() as int) == t@);
    while n < t.len() && !char_is_space(t[n])
        invariant
            n <= t.len(),
            word_len(t@) == n + word_len(t@.subrange(n as int, t.len() as int)),
        decreases t.len() - n,
    {
        assert(t@.subrange(n as int, t.len() as int).drop_first() == t@.subrange(
            n + 1,
            t.len() as int,
        ));
        n += 1;
    }
    assert(!is_space(t@.first()));
    Some((slice_subrange(t, 0, n), slice_subrange(t, n, t.len())))
}

/// The three words of `s`, if it has three and no more.
pub fn three_words(s: &[char]) -> (r: Option<(&[char], &[char], &[char])>)
    ensures
        match r {
            Some((first, second, third)) => words(s@) == seq![first@, second@, third@],
            None => words(s@).len() != 3,
        },
{
    match next_word(s) {
        Some((first, rest)) => match next_word(rest) {
            Some((second, rest)) => match next_word(rest) {
                Some((third, rest)) => match next_word(rest) {
                    Some(_) => None,
                    None => {
                        assert(words(s@) =~= seq![first@, second@, third@]);
                        Some((first, second, third))
                    },
                },
                None => None,
            },
            None => None,
        },
        None => None,
    }
}

} // verus!
