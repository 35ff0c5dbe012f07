//! Sequence helpers shared by the specifications.

use vstd::prelude::*;

verus! {

/// Replace every character of `s` by `f` of it, concatenating the pieces.
pub open spec fn expand(s: Seq<char>, f: spec_fn(char) -> Seq<char>) -> Seq<char>
    decreases s.len(),
{
    if s.len() == 0 {
        Seq::empty()
    } else {
        expand(s.drop_last(), f) + f(s.last())
    }
}

/// The number of characters of `s` satisfying `p`.
pub open spec fn count_where(s: Seq<char>, p: spec_fn(char) -> bool) -> nat
    decreases s.len(),
{
    if s.len() == 0 {
        0
    } else {
        count_where(s.drop_last(), p) + if p(s.last()) {
            1nat
        } else {
            0nat
        }
    }
}

/// Extending a prefix by one character extends its expansion by that
/// character's piece.
pub proof fn lemma_expand_take(s: Seq<char>, f: spec_fn(char) -> Seq<char>, i: int)
    requires
        0 <= i < s.len(),
    ensures
        expand(s.take(i + 1), f) == expand(s.take(i), f) + f(s[i]),
{
    assert(s.take(i + 1).drop_last() =~= s.take(i));
}

/// Extending a prefix by one character adds that character's count.
pub proof fn lemma_count_take(s: Seq<char>, p: spec_fn(char) -> bool, i: int)
    requires
        0 <= i < s.len(),
    ensures
        count_where(s.take(i + 1), p) == count_where(s.take(i), p) + if p(s[i]) {
            1nat
        } else {
            0nat
        },
{
    assert(s.take(i + 1).drop_last() =~= s.take(i));
}

/// A count never exceeds the length.
pub proof fn lemma_count_le_len(s: Seq<char>, p: spec_fn(char) -> bool)
    ensures
        count_where(s, p) <= s.len(),
    decreases s.len(),
{
    if s.len() > 0 {
        lemma_count_le_len(s.drop_last(), p);
    }
}

/// Every character of an expansion comes from some piece; if all pieces
/// satisfy `p`, so does the expansion.
pub proof fn lemma_expand_all(s: Seq<char>, f: spec_fn(char) -> Seq<char>, p: spec_fn(char) -> bool)
    requires
        forall|c: char, j: int| 0 <= j < f(c).len() ==> p(#[trigger] f(c)[j]),
    ensures
        forall|j: int| 0 <= j < expand(s, f).len() ==> p(#[trigger] expand(s, f)[j]),
    decreases s.len(),
{
    if s.len() > 0 {
        lemma_expand_all(s.drop_last(), f, p);
        let a = expand(s.drop_last(), f);
        let b = f(s.last());
        assert forall|j: int| 0 <= j < expand(s, f).len() implies p(#[trigger] expand(s, f)[j]) by {
            if j < a.len() {
                assert(expand(s, f)[j] == a[j]);
            } else {
                assert(expand(s, f)[j] == b[j - a.len()]);
            }
        }
    }
}

} // verus!
