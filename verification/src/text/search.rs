//! Finding one text in another, and splitting at what was found.

use vstd::prelude::*;
use vstd::slice::slice_subrange;

verus! {

/// `pattern` stands in `s` at position `i`.
pub open spec fn occurs_at(s: Seq<char>, pattern: Seq<char>, i: int) -> bool {
    &&& 0 <= i
    &&& i + pattern.len() <= s.len()
    &&& s.subrange(i, i + pattern.len()) == pattern
}

/// The first position at or after `from` where `pattern` stands in `s`.
pub open spec fn find_from(s: Seq<char>, pattern: Seq<char>, from: int) -> Option<int>
    decreases s.len() - from,
{
    if occurs_at(s, pattern, from) {
        Some(from)
    } else if 0 <= from < s.len() {
        find_from(s, pattern, from + 1)
    } else {
        None
    }
}

/// The first position where `pattern` stands in `s`.
pub open spec fn find(s: Seq<char>, pattern: Seq<char>) -> Option<int> {
    find_from(s, pattern, 0)
}

/// `pattern` stands somewhere in `s`.
pub open spec fn contains(s: Seq<char>, pattern: Seq<char>) -> bool {
    find(s, pattern) is Some
}

/// `s` begins with `prefix`.
pub open spec fn starts_with(s: Seq<char>, prefix: Seq<char>) -> bool {
    occurs_at(s, prefix, 0)
}

/// `s` after its first `n` characters.
pub open spec fn after(s: Seq<char>, n: int) -> Seq<char> {
    s.subrange(n, s.len() as int)
}

/// The two parts of `s` around `pattern`, where `pattern` stands in `s`
/// once and no more: after its first occurrence there is no other.
pub open spec fn split_in_two(s: Seq<char>, pattern: Seq<char>) -> Option<(Seq<char>, Seq<char>)> {
    match find(s, pattern) {
        Some(i) => {
            let rest = after(s, i + pattern.len());
            if contains(rest, pattern) {
                None
            } else {
                Some((s.subrange(0, i), rest))
            }
        },
        None => None,
    }
}

/// `s` without the character `c` at its start, if it starts with it.
pub open spec fn strip_first(s: Seq<char>, c: char) -> Option<Seq<char>> {
    if s.len() > 0 && s.first() == c {
        Some(s.drop_first())
    } else {
        None
    }
}

/// `s` without the character `c` at its end, if it ends with it.
pub open spec fn strip_last(s: Seq<char>, c: char) -> Option<Seq<char>> {
    if s.len() > 0 && s.last() == c {
        Some(s.drop_last())
    } else {
        None
    }
}

/// `s` without `prefix` at its start, if it starts with it.
pub open spec fn strip_prefix(s: Seq<char>, prefix: Seq<char>) -> Option<Seq<char>> {
    if starts_with(s, prefix) {
        Some(after(s, prefix.len() as int))
    } else {
        None
    }
}

/// What `find_from` returns is the first occurrence at or after `from`, and
/// it returns one whenever there is one.
pub proof fn lemma_find_from(s: Seq<char>, pattern: Seq<char>, from: int)
    requires
        0 <= from,
    ensures
        match find_from(s, pattern, from) {
            Some(i) => from <= i && occurs_at(s, pattern, i) && forall|j: int|
                from <= j < i ==> !occurs_at(s, pattern, j),
            None => forall|j: int| from <= j ==> !occurs_at(s, pattern, j),
        },
    decreases s.len() - from,
{
    if !occurs_at(s, pattern, from) && from < s.len() {
        lemma_find_from(s, pattern, from + 1);
    }
}

/// `find` returns the first occurrence, and returns one whenever there is
/// one.
pub proof fn lemma_find(s: Seq<char>, pattern: Seq<char>)
    ensures
        match find(s, pattern) {
            Some(i) => occurs_at(s, pattern, i) && forall|j: int|
                0 <= j < i ==> !occurs_at(s, pattern, j),
            None => forall|j: int| !occurs_at(s, pattern, j),
        },
{
    lemma_find_from(s, pattern, 0);
}

/// An occurrence with none before it is what `find` returns.
pub proof fn lemma_find_is(s: Seq<char>, pattern: Seq<char>, at: int)
    requires
        occurs_at(s, pattern, at),
        forall|j: int| 0 <= j < at ==> !occurs_at(s, pattern, j),
    ensures
        find(s, pattern) == Some(at),
{
    lemma_find(s, pattern);
}

/// Where there is no occurrence, `find` returns none.
pub proof fn lemma_find_none(s: Seq<char>, pattern: Seq<char>)
    requires
        forall|j: int| !occurs_at(s, pattern, j),
    ensures
        find(s, pattern) is None,
{
    lemma_find(s, pattern);
}

/// An occurrence in a part of a text is an occurrence in the text.
pub proof fn lemma_occurs_in_part(s: Seq<char>, pattern: Seq<char>, from: int, to: int, i: int)
    requires
        0 <= from <= to <= s.len(),
        occurs_at(s.subrange(from, to), pattern, i),
    ensures
        occurs_at(s, pattern, from + i),
{
    assert(s.subrange(from + i, from + i + pattern.len()) == s.subrange(from, to).subrange(
        i,
        i + pattern.len(),
    ));
}

/// A text that does not hold the pattern has no part that holds it.
pub proof fn lemma_part_contains_not(s: Seq<char>, pattern: Seq<char>, from: int, to: int)
    requires
        0 <= from <= to <= s.len(),
        !contains(s, pattern),
    ensures
        !contains(s.subrange(from, to), pattern),
{
    lemma_find(s, pattern);
    lemma_find(s.subrange(from, to), pattern);
    if let Some(i) = find(s.subrange(from, to), pattern) {
        lemma_occurs_in_part(s, pattern, from, to, i);
    }
}

/// The character `c` stands nowhere in `s`.
pub open spec fn lacks(s: Seq<char>, c: char) -> bool {
    forall|i: int| 0 <= i < s.len() ==> #[trigger] s[i] != c
}

/// A character stands nowhere in a text exactly when it cannot be found
/// there.
pub proof fn lemma_lacks_is_not_found(s: Seq<char>, c: char)
    ensures
        lacks(s, c) <==> find(s, seq![c]) is None,
        find(s, seq![c]) matches Some(i) ==> 0 <= i < s.len() && s[i] == c && lacks(
            s.subrange(0, i),
            c,
        ),
{
    lemma_find(s, seq![c]);
    assert forall|j: int| 0 <= j < s.len() implies (occurs_at(s, seq![c], j) <==> s[j] == c) by {
        if s[j] == c {
            assert(s.subrange(j, j + 1) =~= seq![c]);
        } else {
            assert(s.subrange(j, j + 1)[0] == s[j]);
        }
    }
    if let Some(i) = find(s, seq![c]) {
        assert(s.subrange(i, i + 1)[0] == s[i]);
        assert forall|j: int| 0 <= j < i implies #[trigger] s.subrange(0, i)[j] != c by {
            assert(!occurs_at(s, seq![c], j));
        }
    }
}

/// What a text lacks, each of its parts lacks.
pub proof fn lemma_lacks_part(s: Seq<char>, c: char, from: int, to: int)
    requires
        lacks(s, c),
        0 <= from <= to <= s.len(),
    ensures
        lacks(s.subrange(from, to), c),
{
    assert forall|i: int| 0 <= i < to - from implies #[trigger] s.subrange(from, to)[i] != c by {
        assert(s.subrange(from, to)[i] == s[from + i]);
    }
}

/// What two texts lack, the two in a row lack.
pub proof fn lemma_lacks_concat(a: Seq<char>, b: Seq<char>, c: char)
    requires
        lacks(a, c),
        lacks(b, c),
    ensures
        lacks(a + b, c),
{
    assert forall|i: int| 0 <= i < (a + b).len() implies #[trigger] (a + b)[i] != c by {
        if i < a.len() {
            assert((a + b)[i] == a[i]);
        } else {
            assert((a + b)[i] == b[i - a.len()]);
        }
    }
}

/// Whether `pattern` stands in `s` at position `i`.
pub fn matches_at(s: &[char], pattern: &[char], i: usize) -> (r: bool)
    ensures
        r == occurs_at(s@, pattern@, i as int),
{
    if i > s.len() || pattern.len() > s.len() - i {
        return false;
    }
    let mut k: usize = 0;
    while k < pattern.len()
        invariant
            k <= pattern.len(),
            i + pattern.len() <= s.len(),
            forall|m: int| 0 <= m < k ==> s@[i + m] == pattern@[m],
        decreases pattern.len() - k,
    {
        if s[i + k] != pattern[k] {
            assert(s@.subrange(i as int, i + pattern.len())[k as int] != pattern@[k as int]);
            return false;
        }
        k += 1;
    }
    assert(s@.subrange(i as int, i + pattern.len()) =~= pattern@);
    true
}

/// The first position where `pattern` stands in `s`.
pub fn find_first(s: &[char], pattern: &[char]) -> (r: Option<usize>)
    ensures
        match r {
            Some(i) => find(s@, pattern@) == Some(i as int),
            None => find(s@, pattern@) is None,
        },
{
    let mut i: usize = 0;
    while i < s.len()
        invariant
            i <= s.len(),
            find(s@, pattern@) == find_from(s@, pattern@, i as int),
        decreases s.len() - i,
    {
        if matches_at(s, pattern, i) {
            return Some(i);
        }
        i += 1;
    }
    if matches_at(s, pattern, i) {
        Some(i)
    } else {
        None
    }
}

/// `s` after `prefix`, if `s` begins with it.
pub fn without_prefix<'a>(s: &'a [char], prefix: &[char]) -> (r: Option<&'a [char]>)
    ensures
        match r {
            Some(rest) => strip_prefix(s@, prefix@) == Some(rest@),
            None => strip_prefix(s@, prefix@) is None,
        },
{
    if matches_at(s, prefix, 0) {
        Some(slice_subrange(s, prefix.len(), s.len()))
    } else {
        None
    }
}

/// `s` after the character `c`, if `s` begins with it.
pub fn without_first<'a>(s: &'a [char], c: char) -> (r: Option<&'a [char]>)
    ensures
        match r {
            Some(rest) => strip_first(s@, c) == Some(rest@),
            None => strip_first(s@, c) is None,
        },
{
    if s.len() > 0 && s[0] == c {
        Some(slice_subrange(s, 1, s.len()))
    } else {
        None
    }
}

/// `s` before the character `c`, if `s` ends with it.
pub fn without_last<'a>(s: &'a [char], c: char) -> (r: Option<&'a [char]>)
    ensures
        match r {
            Some(rest) => strip_last(s@, c) == Some(rest@),
            None => strip_last(s@, c) is None,
        },
{
    if s.len() > 0 && s[s.len() - 1] == c {
        Some(slice_subrange(s, 0, s.len() - 1))
    } else {
        None
    }
}

/// The parts of `s` before and after `pattern`, if `pattern` stands in `s`
/// once and no more.
pub fn split_once_only<'a>(s: &'a [char], pattern: &[char]) -> (r: Option<(&'a [char], &'a [char])>)
    ensures
        match r {
            Some((left, right)) => split_in_two(s@, pattern@) == Some((left@, right@)),
            None => split_in_two(s@, pattern@) is None,
        },
{
    match find_first(s, pattern) {
        Some(i) => {
            assert(i + pattern.len() <= s.len()) by {
                lemma_find(s@, pattern@);
            }
            let rest = slice_subrange(s, i + pattern.len(), s.len());
            match find_first(rest, pattern) {
                Some(_) => None,
                None => Some((slice_subrange(s, 0, i), rest)),
            }
        },
        None => None,
    }
}

} // verus!
