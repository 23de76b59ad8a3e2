//! Parting a text at every occurrence of a pattern, and at the last one.

use vstd::prelude::*;
use vstd::slice::slice_subrange;
use crate::text::convert::push_all;
use crate::text::search::{after, find, find_first, lemma_find, matches_at, occurs_at};

verus! {

/// `s` ends with `suffix`.
pub open spec fn ends_with(s: Seq<char>, suffix: Seq<char>) -> bool {
    occurs_at(s, suffix, s.len() - suffix.len())
}

/// The last position at or before `upto` where `pattern` stands in `s`.
pub open spec fn find_last_upto(s: Seq<char>, pattern: Seq<char>, upto: int) -> Option<int>
    decreases upto + 1,
{
    if upto < 0 {
        None
    } else if occurs_at(s, pattern, upto) {
        Some(upto)
    } else {
        find_last_upto(s, pattern, upto - 1)
    }
}

/// The last position where `pattern` stands in `s`.
pub open spec fn find_last(s: Seq<char>, pattern: Seq<char>) -> Option<int> {
    find_last_upto(s, pattern, s.len() as int)
}

/// What follows the last occurrence of `pattern` in `s`; all of `s` where
/// there is none.
pub open spec fn after_last(s: Seq<char>, pattern: Seq<char>) -> Seq<char> {
    match find_last(s, pattern) {
        Some(i) => after(s, i + pattern.len()),
        None => s,
    }
}

/// The parts of `s` between the occurrences of `pattern`, taken from the
/// left; one part more than there are occurrences.
pub open spec fn parts(s: Seq<char>, pattern: Seq<char>) -> Seq<Seq<char>>
    recommends
        pattern.len() > 0,
    decreases s.len(),
    via parts_decreases
{
    if pattern.len() == 0 {
        seq![s]
    } else {
        match find(s, pattern) {
            Some(i) => seq![s.subrange(0, i)] + parts(after(s, i + pattern.len()), pattern),
            None => seq![s],
        }
    }
}

/// What follows an occurrence of a pattern that is not empty is shorter
/// than the text.
#[via_fn]
proof fn parts_decreases(s: Seq<char>, pattern: Seq<char>) {
    lemma_find(s, pattern);
}

/// `s` without the occurrences of `pattern`, taken from the left.
pub open spec fn without_all(s: Seq<char>, pattern: Seq<char>) -> Seq<char>
    recommends
        pattern.len() > 0,
    decreases s.len(),
    via without_all_decreases
{
    if pattern.len() == 0 {
        s
    } else {
        match find(s, pattern) {
            Some(i) => s.subrange(0, i) + without_all(after(s, i + pattern.len()), pattern),
            None => s,
        }
    }
}

/// What follows an occurrence of a pattern that is not empty is shorter
/// than the text.
#[via_fn]
proof fn without_all_decreases(s: Seq<char>, pattern: Seq<char>) {
    lemma_find(s, pattern);
}

/// Whether `s` ends with `suffix`.
pub fn has_suffix(s: &[char], suffix: &[char]) -> (r: bool)
    ensures
        r == ends_with(s@, suffix@),
{
    if suffix.len() > s.len() {
        return false;
    }
    matches_at(s, suffix, s.len() - suffix.len())
}

/// What follows the last occurrence of `pattern` in `s`; all of `s` where
/// there is none.
pub fn rest_after_last<'a>(s: &'a [char], pattern: &[char]) -> (r: &'a [char])
    ensures
        r@ == after_last(s@, pattern@),
        r@.len() <= s@.len(),
{
    let mut i: usize = s.len();
    loop
        invariant
            i <= s.len(),
            find_last(s@, pattern@) == find_last_upto(s@, pattern@, i as int),
        decreases i,
    {
        if matches_at(s, pattern, i) {
            return slice_subrange(s, i + pattern.len(), s.len());
        }
        if i == 0 {
            assert(find_last_upto(s@, pattern@, -1) is None);
            assert(s@.subrange(0, s.len() as int) == s@);
            return slice_subrange(s, 0, s.len());
        }
        i -= 1;
    }
}

/// `s` without the occurrences of `pattern`, taken from the left.
pub fn remove_all(s: &[char], pattern: &[char]) -> (out: Vec<char>)
    requires
        pattern@.len() > 0,
    ensures
        out@ == without_all(s@, pattern@),
{
    let mut out: Vec<char> = Vec::new();
    let mut rest = s;
    loop
        invariant
            pattern@.len() > 0,
            without_all(s@, pattern@) == out@ + without_all(rest@, pattern@),
        decreases rest.len(),
    {
        match find_first(rest, pattern) {
            Some(i) => {
                proof {
                    lemma_find(rest@, pattern@);
                }
                let ghost before = out@;
                push_all(&mut out, slice_subrange(rest, 0, i));
                let ghost old_rest = rest@;
                rest = slice_subrange(rest, i + pattern.len(), rest.len());
                assert(before + without_all(old_rest, pattern@) =~= out@ + without_all(
                    rest@,
                    pattern@,
                ));
            },
            None => {
                push_all(&mut out, rest);
                return out;
            },
        }
    }
}

/// The parts of `s` between the occurrences of `pattern`.
pub fn split_all<'a>(s: &'a [char], pattern: &[char]) -> (out: Vec<&'a [char]>)
    requires
        pattern@.len() > 0,
    ensures
        out@.map_values(|part: &[char]| part@) == parts(s@, pattern@),
{
    let mut out: Vec<&[char]> = Vec::new();
    let mut rest = s;
    assert(out@.map_values(|part: &[char]| part@) =~= Seq::<Seq<char>>::empty());
    loop
        invariant
            pattern@.len() > 0,
            parts(s@, pattern@) == out@.map_values(|part: &[char]| part@) + parts(
                rest@,
                pattern@,
            ),
        decreases rest.len(),
    {
        let ghost before = out@.map_values(|part: &[char]| part@);
        match find_first(rest, pattern) {
            Some(i) => {
                proof {
                    lemma_find(rest@, pattern@);
                }
                let part = slice_subrange(rest, 0, i);
                out.push(part);
                assert(out@.map_values(|part: &[char]| part@) =~= before + seq![part@]);
                let ghost old_rest = rest@;
                rest = slice_subrange(rest, i + pattern.len(), rest.len());
                assert(before + parts(old_rest, pattern@) =~= before + seq![part@] + parts(
                    rest@,
                    pattern@,
                ));
            },
            None => {
                out.push(rest);
                assert(out@.map_values(|part: &[char]| part@) =~= before + seq![rest@]);
                return out;
            },
        }
    }
}

} // verus!
