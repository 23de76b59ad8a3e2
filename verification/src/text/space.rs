//! White space and trimming.

use vstd::prelude::*;
use vstd::slice::slice_subrange;

verus! {

/// Whether `c` is white space: one of the characters that Unicode gives the
/// property `White_Space`.
pub open spec fn is_space(c: char) -> bool {
    let n = c as u32;
    ||| 0x09 <= n <= 0x0D
    ||| n == 0x20
    ||| n == 0x85
    ||| n == 0xA0
    ||| n == 0x1680
    ||| 0x2000 <= n <= 0x200A
    ||| n == 0x2028
    ||| n == 0x2029
    ||| n == 0x202F
    ||| n == 0x205F
    ||| n == 0x3000
}

/// Every character of `s` is white space.
pub open spec fn all_space(s: Seq<char>) -> bool {
    forall|i: int| 0 <= i < s.len() ==> is_space(#[trigger] s[i])
}

/// No character of `s` is white space.
pub open spec fn no_space(s: Seq<char>) -> bool {
    forall|i: int| 0 <= i < s.len() ==> !is_space(#[trigger] s[i])
}

/// `s` neither begins nor ends with white space.
pub open spec fn is_trimmed(s: Seq<char>) -> bool {
    s.len() > 0 ==> !is_space(s.first()) && !is_space(s.last())
}

/// `s` without the white space it begins with.
pub open spec fn without_leading_space(s: Seq<char>) -> Seq<char>
    decreases s.len(),
{
    if s.len() > 0 && is_space(s.first()) {
        without_leading_space(s.drop_first())
    } else {
        s
    }
}

/// `s` without the white space it ends with.
pub open spec fn without_trailing_space(s: Seq<char>) -> Seq<char>
    decreases s.len(),
{
    if s.len() > 0 && is_space(s.last()) {
        without_trailing_space(s.drop_last())
    } else {
        s
    }
}

/// `s` without the white space at either end.
pub open spec fn trimmed(s: Seq<char>) -> Seq<char> {
    without_trailing_space(without_leading_space(s))
}

/// What is left of `s` without its leading white space is the part of `s`
/// from its first character that is not white space.
pub proof fn lemma_without_leading_space(s: Seq<char>)
    ensures
        exists|i: int|
            0 <= i <= s.len() && #[trigger] s.subrange(i, s.len() as int) == without_leading_space(
                s,
            ) && all_space(s.subrange(0, i)),
        without_leading_space(s).len() > 0 ==> !is_space(without_leading_space(s).first()),
        without_leading_space(s).len() <= s.len(),
    decreases s.len(),
{
    if s.len() > 0 && is_space(s.first()) {
        let rest = s.drop_first();
        lemma_without_leading_space(rest);
        let i = choose|i: int|
            0 <= i <= rest.len() && #[trigger] rest.subrange(i, rest.len() as int)
                == without_leading_space(rest) && all_space(rest.subrange(0, i));
        assert(s.subrange(i + 1, s.len() as int) == rest.subrange(i, rest.len() as int));
        assert forall|k: int| 0 <= k < i + 1 implies is_space(
            #[trigger] s.subrange(0, i + 1)[k],
        ) by {
            if k > 0 {
                assert(s.subrange(0, i + 1)[k] == rest.subrange(0, i)[k - 1]);
            }
        }
    } else {
        assert(s.subrange(0, s.len() as int) == s);
    }
}

/// What is left of `s` without its trailing white space is the part of `s`
/// up to its last character that is not white space.
pub proof fn lemma_without_trailing_space(s: Seq<char>)
    ensures
        exists|j: int|
            0 <= j <= s.len() && #[trigger] s.subrange(0, j) == without_trailing_space(s)
                && all_space(s.subrange(j, s.len() as int)),
        without_trailing_space(s).len() > 0 ==> !is_space(without_trailing_space(s).last()),
        without_trailing_space(s).len() > 0 ==> without_trailing_space(s).first() == s.first(),
        without_trailing_space(s).len() <= s.len(),
    decreases s.len(),
{
    if s.len() > 0 && is_space(s.last()) {
        let rest = s.drop_last();
        lemma_without_trailing_space(rest);
        let j = choose|j: int|
            0 <= j <= rest.len() && #[trigger] rest.subrange(0, j) == without_trailing_space(rest)
                && all_space(rest.subrange(j, rest.len() as int));
        assert(s.subrange(0, j) == rest.subrange(0, j));
        assert forall|k: int| 0 <= k < s.len() - j implies is_space(
            #[trigger] s.subrange(j, s.len() as int)[k],
        ) by {
            if k < rest.len() - j {
                assert(s.subrange(j, s.len() as int)[k] == rest.subrange(j, rest.len() as int)[k]);
            }
        }
    } else {
        assert(s.subrange(0, s.len() as int) == s);
    }
}

/// Trimming gives a part of the text that neither begins nor ends with white
/// space, with nothing but white space around it.
pub proof fn lemma_trimmed(s: Seq<char>)
    ensures
        is_trimmed(trimmed(s)),
        trimmed(s).len() <= s.len(),
        exists|i: int, j: int|
            0 <= i <= j <= s.len() && #[trigger] s.subrange(i, j) == trimmed(s) && all_space(
                s.subrange(0, i),
            ) && all_space(s.subrange(j, s.len() as int)),
{
    lemma_without_leading_space(s);
    let t = without_leading_space(s);
    lemma_without_trailing_space(t);
    let i = choose|i: int|
        0 <= i <= s.len() && #[trigger] s.subrange(i, s.len() as int) == t && all_space(
            s.subrange(0, i),
        );
    let k = choose|k: int|
        0 <= k <= t.len() && #[trigger] t.subrange(0, k) == without_trailing_space(t) && all_space(
            t.subrange(k, t.len() as int),
        );
    assert(s.subrange(i, i + k) == t.subrange(0, k));
    assert(s.subrange(i + k, s.len() as int) == t.subrange(k, t.len() as int));
}

/// Text that neither begins nor ends with white space is its own trimming.
pub proof fn lemma_trimmed_of_trimmed(s: Seq<char>)
    requires
        is_trimmed(s),
    ensures
        trimmed(s) == s,
{
}

/// White space around a text does not change its trimming.
pub proof fn lemma_trimmed_ignores_padding(left: Seq<char>, core: Seq<char>, right: Seq<char>)
    requires
        all_space(left),
        all_space(right),
    ensures
        trimmed(left + core + right) == trimmed(core),
    decreases left.len() + right.len(),
{
    let s = left + core + right;
    if left.len() > 0 {
        assert(is_space(left[0]));
        assert(s.first() == left[0]);
        assert(s.drop_first() == left.drop_first() + core + right);
        assert(all_space(left.drop_first())) by {
            assert forall|i: int| 0 <= i < left.drop_first().len() implies is_space(
                #[trigger] left.drop_first()[i],
            ) by {
                assert(left.drop_first()[i] == left[i + 1]);
            }
        }
        lemma_trimmed_ignores_padding(left.drop_first(), core, right);
    } else if right.len() > 0 {
        assert(left + core == core);
        lemma_trailing_padding(core, right);
    } else {
        assert(s == core);
    }
}

/// White space after a text does not change its trimming.
proof fn lemma_trailing_padding(core: Seq<char>, right: Seq<char>)
    requires
        all_space(right),
    ensures
        trimmed(core + right) == trimmed(core),
    decreases core.len(),
{
    lemma_all_space_vanishes(right);
    if core.len() > 0 && is_space(core.first()) {
        assert((core + right).first() == core.first());
        assert((core + right).drop_first() == core.drop_first() + right);
        lemma_trailing_padding(core.drop_first(), right);
    } else if core.len() > 0 {
        assert((core + right).first() == core.first());
        lemma_trailing_space_of_concat(core, right);
    } else {
        assert(core + right == right);
    }
}

/// Trimming white space leaves nothing.
proof fn lemma_all_space_vanishes(s: Seq<char>)
    requires
        all_space(s),
    ensures
        without_leading_space(s) == Seq::<char>::empty(),
        without_trailing_space(s) == Seq::<char>::empty(),
        trimmed(s) == Seq::<char>::empty(),
    decreases s.len(),
{
    if s.len() > 0 {
        assert(is_space(s[0]));
        assert(is_space(s[s.len() - 1]));
        assert forall|i: int| 0 <= i < s.drop_first().len() implies is_space(
            #[trigger] s.drop_first()[i],
        ) by {
            assert(s.drop_first()[i] == s[i + 1]);
        }
        assert forall|i: int| 0 <= i < s.drop_last().len() implies is_space(
            #[trigger] s.drop_last()[i],
        ) by {
            assert(s.drop_last()[i] == s[i]);
        }
        lemma_all_space_vanishes(s.drop_first());
        lemma_all_space_vanishes(s.drop_last());
    }
}

/// White space after a text goes with the trailing white space.
proof fn lemma_trailing_space_of_concat(core: Seq<char>, right: Seq<char>)
    requires
        all_space(right),
    ensures
        without_trailing_space(core + right) == without_trailing_space(core),
    decreases right.len(),
{
    if right.len() > 0 {
        assert(is_space(right[right.len() - 1]));
        assert((core + right).last() == right[right.len() - 1]);
        assert((core + right).drop_last() == core + right.drop_last());
        assert forall|i: int| 0 <= i < right.drop_last().len() implies is_space(
            #[trigger] right.drop_last()[i],
        ) by {
            assert(right.drop_last()[i] == right[i]);
        }
        lemma_trailing_space_of_concat(core, right.drop_last());
    } else {
        assert(core + right == core);
    }
}

/// Whether `c` is white space.
pub fn char_is_space(c: char) -> (r: bool)
    ensures
        r == is_space(c),
{
    let n: u32 = c as u32;
    (0x09 <= n && n <= 0x0D) || n == 0x20 || n == 0x85 || n == 0xA0 || n == 0x1680 || (0x2000 <= n
        && n <= 0x200A) || n == 0x2028 || n == 0x2029 || n == 0x202F || n == 0x205F || n == 0x3000
}

/// The part of `s` after its leading white space.
pub fn trim_start(s: &[char]) -> (r: &[char])
    ensures
        r@ == without_leading_space(s@),
{
    let mut i: usize = 0;
    assert(s@.subrange(0, s.len() as int) == s@);
    while i < s.len() && char_is_space(s[i])
        invariant
            i <= s.len(),
            without_leading_space(s@) == without_leading_space(
                s@.subrange(i as int, s.len() as int),
            ),
        decreases s.len() - i,
    {
        assert(s@.subrange(i as int, s.len() as int).drop_first() == s@.subrange(
            i + 1,
            s.len() as int,
        ));
        i += 1;
    }
    slice_subrange(s, i, s.len())
}

/// The part of `s` before its trailing white space.
pub fn trim_end(s: &[char]) -> (r: &[char])
    ensures
        r@ == without_trailing_space(s@),
{
    let mut j: usize = s.len();
    assert(s@.subrange(0, s.len() as int) == s@);
    while j > 0 && char_is_space(s[j - 1])
        invariant
            j <= s.len(),
            without_trailing_space(s@) == without_trailing_space(s@.subrange(0, j as int)),
        decreases j,
    {
        assert(s@.subrange(0, j as int).drop_last() == s@.subrange(0, j - 1));
        j -= 1;
    }
    slice_subrange(s, 0, j)
}

/// The part of `s` between its leading and its trailing white space.
pub fn trim(s: &[char]) -> (r: &[char])
    ensures
        r@ == trimmed(s@),
{
    trim_end(trim_start(s))
}

} // verus!
