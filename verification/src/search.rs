//! Literal search in text: where a token stands, and where it stands first.

use vstd::prelude::*;

verus! {

/// `token` stands in `text` at index `at`.
pub open spec fn occurs_at(text: Seq<char>, token: Seq<char>, at: int) -> bool {
    &&& 0 <= at
    &&& at + token.len() <= text.len()
    &&& text.subrange(at, at + token.len()) == token
}

/// `token` stands somewhere in `text`.
pub open spec fn occurs(text: Seq<char>, token: Seq<char>) -> bool {
    exists|at: int| occurs_at(text, token, at)
}

/// `at` is the leftmost index at which `token` stands in `text`.
pub open spec fn is_first_occurrence(text: Seq<char>, token: Seq<char>, at: int) -> bool {
    &&& occurs_at(text, token, at)
    &&& forall|i: int| 0 <= i < at ==> !occurs_at(text, token, i)
}

/// The leftmost index at which `token` stands in `text`, where it stands in it at all.
pub open spec fn first_occurrence(text: Seq<char>, token: Seq<char>) -> int {
    choose|at: int| is_first_occurrence(text, token, at)
}

/// No character of `a` is a character of `b`.
pub open spec fn disjoint(a: Seq<char>, b: Seq<char>) -> bool {
    forall|i: int, j: int| 0 <= i < a.len() && 0 <= j < b.len() ==> a[i] != b[j]
}

/// `token` cannot stand across `inner`: wherever `inner` stands between two texts, `token`
/// stands in the whole only before it or after it, never on one of its characters and never
/// on both sides of it.
pub open spec fn apart(inner: Seq<char>, token: Seq<char>) -> bool {
    forall|before: Seq<char>, after: Seq<char>, at: int| #[trigger]
        occurs_at(before + inner + after, token, at) ==> at + token.len() <= before.len()
            || before.len() + inner.len() <= at
}

/// Whether `token` stands in `text` at index `at`.
pub fn matches_at(text: &[char], token: &[char], at: usize) -> (found: bool)
    ensures
        found == occurs_at(text@, token@, at as int),
{
    if token.len() > text.len() || at > text.len() - token.len() {
        return false;
    }
    let mut i: usize = 0;
    while i < token.len()
        invariant
            i <= token.len(),
            at + token.len() <= text.len(),
            forall|j: int| 0 <= j < i ==> text[at + j] == token[j],
        decreases token.len() - i,
    {
        if text[at + i] != token[i] {
            return false;
        }
        i += 1;
    }
    assert(text@.subrange(at as int, at + token.len()) =~= token@);
    true
}

/// The leftmost index at which `token` stands in `text`, if it stands in it.
pub fn find(text: &[char], token: &[char]) -> (found: Option<usize>)
    ensures
        match found {
            Some(at) => is_first_occurrence(text@, token@, at as int),
            None => !occurs(text@, token@),
        },
{
    if text.len() < token.len() {
        return None;
    }
    let last: usize = text.len() - token.len();
    let mut at: usize = 0;
    while at <= last
        invariant
            at <= last + 1,
            last + token.len() == text.len(),
            forall|i: int| 0 <= i < at ==> !occurs_at(text@, token@, i),
        decreases last + 1 - at,
    {
        if matches_at(text, token, at) {
            return Some(at);
        }
        assert(token.len() > 0) by {
            if token.len() == 0 {
                assert(text@.subrange(at as int, at as int) =~= token@);
            }
        }
        at += 1;
    }
    None
}

/// A non-empty token cannot stand across a non-empty text that shares no character with it.
pub proof fn lemma_disjoint_apart(inner: Seq<char>, token: Seq<char>)
    requires
        inner.len() > 0,
        token.len() > 0,
        disjoint(inner, token),
    ensures
        apart(inner, token),
{
    assert forall|before: Seq<char>, after: Seq<char>, at: int| #[trigger]
        occurs_at(before + inner + after, token, at) implies at + token.len() <= before.len()
        || before.len() + inner.len() <= at by {
        let whole = before + inner + after;
        if at + token.len() > before.len() && before.len() + inner.len() > at {
            let i = if at >= before.len() {
                at
            } else {
                before.len() as int
            };
            assert(token[i - at] == inner[i - before.len()]);
        }
    }
}

/// At or before an occurrence stands a leftmost one.
proof fn lemma_leftmost(text: Seq<char>, token: Seq<char>, at: int)
    requires
        occurs_at(text, token, at),
    ensures
        exists|first: int| is_first_occurrence(text, token, first),
    decreases at,
{
    if exists|i: int| 0 <= i < at && occurs_at(text, token, i) {
        let i = choose|i: int| 0 <= i < at && occurs_at(text, token, i);
        lemma_leftmost(text, token, i);
    } else {
        assert(is_first_occurrence(text, token, at));
    }
}

/// A token that stands in a text has a leftmost occurrence, and `first_occurrence` is it.
pub proof fn lemma_first_occurrence(text: Seq<char>, token: Seq<char>)
    requires
        occurs(text, token),
    ensures
        is_first_occurrence(text, token, first_occurrence(text, token)),
{
    let at = choose|at: int| occurs_at(text, token, at);
    lemma_leftmost(text, token, at);
}

/// The leftmost occurrence is unique.
pub proof fn lemma_first_occurrence_unique(text: Seq<char>, token: Seq<char>, at: int)
    requires
        is_first_occurrence(text, token, at),
    ensures
        occurs(text, token),
        first_occurrence(text, token) == at,
{
}

/// An occurrence in a part of a text is an occurrence in the text.
pub proof fn lemma_occurs_in_part(text: Seq<char>, from: int, to: int, token: Seq<char>)
    requires
        0 <= from <= to <= text.len(),
        occurs(text.subrange(from, to), token),
    ensures
        occurs(text, token),
{
    let part = text.subrange(from, to);
    let at = choose|at: int| occurs_at(part, token, at);
    assert(text.subrange(from + at, from + at + token.len()) =~= part.subrange(
        at,
        at + token.len(),
    ));
    assert(occurs_at(text, token, from + at));
}

} // verus!
