//! Laws of instantiation: when a placeholder is gone from what was made of a template, when
//! a text is left as it is, and when instantiating is replacing in turn.

use crate::search::{
    apart, first_occurrence, lemma_first_occurrence, lemma_first_occurrence_unique,
    lemma_occurs_in_part, occurs, occurs_at,
};
use crate::template::instantiation;
use vstd::prelude::*;

verus! {

/// What `text` becomes when `token` is replaced by `replacement` wherever it stands, found
/// from left to right without overlap; an empty token stands nowhere.
pub open spec fn replaced(text: Seq<char>, token: Seq<char>, replacement: Seq<char>) -> Seq<char> {
    instantiation(text, seq![(token, replacement)])
}

/// What `text` becomes when the substitutions `subs` are made one after the other, each on the
/// whole of what the one before it left.
pub open spec fn replaced_in_turn(text: Seq<char>, subs: Seq<(Seq<char>, Seq<char>)>) -> Seq<char>
    decreases subs.len(),
{
    if subs.len() == 0 {
        text
    } else {
        replaced_in_turn(replaced(text, subs[0].0, subs[0].1), subs.drop_first())
    }
}

/// `token` cannot stand across any replacement of `subs`.
pub open spec fn replacements_apart(subs: Seq<(Seq<char>, Seq<char>)>, token: Seq<char>) -> bool {
    forall|k: int| 0 <= k < subs.len() ==> apart((#[trigger] subs[k]).1, token)
}

/// No placeholder of `subs` can stand across `inner`: each is empty or apart from it.
pub open spec fn placeholders_apart(inner: Seq<char>, subs: Seq<(Seq<char>, Seq<char>)>) -> bool {
    forall|k: int|
        0 <= k < subs.len() ==> (#[trigger] subs[k]).0.len() == 0 || apart(inner, subs[k].0)
}

/// No placeholder of `subs` applies to `text`: each is empty or stands nowhere in it.
pub open spec fn free_of_placeholders(text: Seq<char>, subs: Seq<(Seq<char>, Seq<char>)>) -> bool {
    forall|k: int|
        0 <= k < subs.len() ==> (#[trigger] subs[k]).0.len() == 0 || !occurs(text, subs[k].0)
}

/// A token that stands in neither of two texts does not stand in the whole that they make
/// with a text between them that it cannot stand across.
proof fn lemma_kept_apart(before: Seq<char>, between: Seq<char>, after: Seq<char>, token: Seq<char>)
    requires
        token.len() > 0,
        !occurs(before, token),
        !occurs(after, token),
        apart(between, token),
    ensures
        !occurs(before + between + after, token),
{
    let whole = before + between + after;
    if occurs(whole, token) {
        let at = choose|at: int| occurs_at(whole, token, at);
        let end = at + token.len();
        if end <= before.len() {
            assert(before.subrange(at, end) =~= whole.subrange(at, end));
            assert(occurs_at(before, token, at));
        } else {
            let shift = before.len() + between.len();
            assert(after.subrange(at - shift, end - shift) =~= whole.subrange(at, end));
            assert(occurs_at(after, token, at - shift));
        }
    }
}

/// A non-empty token stands nowhere in what `subs` makes of a template, where it cannot stand
/// across any replacement of `subs` and is a placeholder of `subs` or does not stand in the
/// template.
proof fn lemma_consumed(template: Seq<char>, subs: Seq<(Seq<char>, Seq<char>)>, token: Seq<char>)
    requires
        token.len() > 0,
        replacements_apart(subs, token),
        !occurs(template, token) || exists|k: int| 0 <= k < subs.len() && subs[k].0 == token,
    ensures
        !occurs(instantiation(template, subs), token),
    decreases subs.len(), template.len(),
{
    if subs.len() > 0 {
        let (placeholder, replacement) = subs[0];
        let rest = subs.drop_first();
        let later = !occurs(template, token) || exists|k: int|
            0 <= k < rest.len() && rest[k].0 == token;
        assert(placeholder != token ==> later) by {
            if placeholder != token && occurs(template, token) {
                let k = choose|k: int| 0 <= k < subs.len() && subs[k].0 == token;
                assert(rest[k - 1].0 == token);
            }
        }
        if placeholder.len() > 0 && occurs(template, placeholder) {
            lemma_first_occurrence(template, placeholder);
            let at = first_occurrence(template, placeholder);
            let head = template.take(at);
            let tail = template.skip(at + placeholder.len());
            if occurs(head, token) {
                lemma_occurs_in_part(template, 0, at, token);
                if placeholder == token {
                    let i = choose|i: int| occurs_at(head, token, i);
                    assert(template.subrange(i, i + token.len()) =~= head.subrange(
                        i,
                        i + token.len(),
                    ));
                    assert(occurs_at(template, token, i));
                }
            }
            if occurs(tail, token) {
                lemma_occurs_in_part(
                    template,
                    at + placeholder.len(),
                    template.len() as int,
                    token,
                );
            }
            lemma_consumed(head, rest, token);
            lemma_consumed(tail, subs, token);
            lemma_kept_apart(
                instantiation(head, rest),
                replacement,
                instantiation(tail, subs),
                token,
            );
        } else {
            lemma_consumed(template, rest, token);
        }
    }
}

/// A non-empty placeholder of `subs` stands nowhere in what `subs` makes of a template, where
/// it cannot stand across any replacement of `subs`.
pub proof fn lemma_placeholder_consumed(
    template: Seq<char>,
    subs: Seq<(Seq<char>, Seq<char>)>,
    i: int,
)
    requires
        0 <= i < subs.len(),
        subs[i].0.len() > 0,
        replacements_apart(subs, subs[i].0),
    ensures
        !occurs(instantiation(template, subs), subs[i].0),
{
    lemma_consumed(template, subs, subs[i].0);
}

/// A text to which no placeholder of `subs` applies is what `subs` makes of it.
pub proof fn lemma_nothing_to_replace(text: Seq<char>, subs: Seq<(Seq<char>, Seq<char>)>)
    requires
        free_of_placeholders(text, subs),
    ensures
        instantiation(text, subs) == text,
    decreases subs.len(),
{
    if subs.len() > 0 {
        let rest = subs.drop_first();
        lemma_nothing_to_replace(text, rest);
    }
}

/// Instantiating twice is instantiating once, where no placeholder of `subs` that is not
/// empty can stand across any replacement of `subs`.
pub proof fn lemma_instantiation_idempotent(template: Seq<char>, subs: Seq<(Seq<char>, Seq<char>)>)
    requires
        forall|i: int|
            0 <= i < subs.len() ==> (#[trigger] subs[i]).0.len() == 0 || replacements_apart(
                subs,
                subs[i].0,
            ),
    ensures
        instantiation(instantiation(template, subs), subs) == instantiation(template, subs),
{
    let once = instantiation(template, subs);
    assert forall|k: int| 0 <= k < subs.len() implies (#[trigger] subs[k]).0.len() == 0 || !occurs(
        once,
        subs[k].0,
    ) by {
        if subs[k].0.len() > 0 {
            lemma_placeholder_consumed(template, subs, k);
        }
    }
    lemma_nothing_to_replace(once, subs);
}

/// A substitution whose placeholder does not apply to a text leaves it to the later ones.
proof fn lemma_skip_first(text: Seq<char>, subs: Seq<(Seq<char>, Seq<char>)>)
    requires
        subs.len() > 0,
        subs[0].0.len() == 0 || !occurs(text, subs[0].0),
    ensures
        instantiation(text, subs) == instantiation(text, subs.drop_first()),
{
}

/// What a list of substitutions makes of a text with `inner` in it, where none of its
/// placeholders can stand across `inner`: it keeps `inner` and works on both sides of it.
proof fn lemma_around(
    before: Seq<char>,
    inner: Seq<char>,
    after: Seq<char>,
    subs: Seq<(Seq<char>, Seq<char>)>,
)
    requires
        placeholders_apart(inner, subs),
    ensures
        instantiation(before + inner + after, subs) == instantiation(before, subs) + inner
            + instantiation(after, subs),
    decreases subs.len(), before.len() + after.len(),
{
    let whole = before + inner + after;
    if subs.len() > 0 {
        let (token, replacement) = subs[0];
        let rest = subs.drop_first();
        let shift = before.len() + inner.len();
        assert(whole.subrange(0, before.len() as int) =~= before);
        assert(whole.subrange(shift as int, whole.len() as int) =~= after);
        if token.len() > 0 && occurs(whole, token) {
            lemma_first_occurrence(whole, token);
            let at = first_occurrence(whole, token);
            let end = at + token.len();
            if end <= before.len() {
                assert(before.subrange(at, end) =~= whole.subrange(at, end));
                assert forall|i: int| 0 <= i < at implies !occurs_at(before, token, i) by {
                    if occurs_at(before, token, i) {
                        assert(whole.subrange(i, i + token.len()) =~= before.subrange(
                            i,
                            i + token.len(),
                        ));
                        assert(occurs_at(whole, token, i));
                    }
                }
                lemma_first_occurrence_unique(before, token, at);
                assert(whole.take(at) =~= before.take(at));
                assert(whole.skip(end) =~= before.skip(end) + inner + after);
                lemma_around(before.skip(end), inner, after, subs);
            } else {
                let first = at - shift;
                assert(after.subrange(first, first + token.len()) =~= whole.subrange(at, end));
                assert forall|i: int| 0 <= i < first implies !occurs_at(after, token, i) by {
                    if occurs_at(after, token, i) {
                        assert(whole.subrange(i + shift, i + shift + token.len())
                            =~= after.subrange(i, i + token.len()));
                        assert(occurs_at(whole, token, i + shift));
                    }
                }
                lemma_first_occurrence_unique(after, token, first);
                if occurs(before, token) {
                    let i = choose|i: int| occurs_at(before, token, i);
                    assert(whole.subrange(i, i + token.len()) =~= before.subrange(
                        i,
                        i + token.len(),
                    ));
                    assert(occurs_at(whole, token, i));
                }
                lemma_skip_first(before, subs);
                assert(whole.take(at) =~= before + inner + after.take(first));
                assert(whole.skip(end) =~= after.skip(first + token.len()));
                lemma_around(before, inner, after.take(first), rest);
            }
        } else {
            if token.len() > 0 {
                if occurs(before, token) {
                    lemma_occurs_in_part(whole, 0, before.len() as int, token);
                }
                if occurs(after, token) {
                    lemma_occurs_in_part(whole, shift as int, whole.len() as int, token);
                }
            }
            lemma_skip_first(before, subs);
            lemma_skip_first(after, subs);
            lemma_around(before, inner, after, rest);
        }
    }
}

/// The first substitution may be made on the whole template before the later ones, where no
/// later placeholder can stand across its replacement.
proof fn lemma_first_then_rest(template: Seq<char>, subs: Seq<(Seq<char>, Seq<char>)>)
    requires
        subs.len() > 0,
        placeholders_apart(subs[0].1, subs.drop_first()),
    ensures
        instantiation(template, subs) == instantiation(
            replaced(template, subs[0].0, subs[0].1),
            subs.drop_first(),
        ),
    decreases template.len(),
{
    let (token, replacement) = subs[0];
    let rest = subs.drop_first();
    let single = seq![(token, replacement)];
    if token.len() > 0 && occurs(template, token) {
        lemma_first_occurrence(template, token);
        let at = first_occurrence(template, token);
        let head = template.take(at);
        let tail = template.skip(at + token.len());
        assert(instantiation(head, single.drop_first()) == head);
        lemma_first_then_rest(tail, subs);
        lemma_around(head, replacement, replaced(tail, token, replacement), rest);
    } else {
        assert(instantiation(template, single.drop_first()) == template);
    }
}

/// Instantiating is replacing in turn, where no placeholder that is not empty can stand
/// across the replacement of an earlier one.
pub proof fn lemma_instantiation_in_turn(template: Seq<char>, subs: Seq<(Seq<char>, Seq<char>)>)
    requires
        forall|i: int, j: int|
            #![trigger subs[i], subs[j]]
            0 <= i < j < subs.len() ==> subs[j].0.len() == 0 || apart(subs[i].1, subs[j].0),
    ensures
        instantiation(template, subs) == replaced_in_turn(template, subs),
    decreases subs.len(),
{
    if subs.len() > 0 {
        let rest = subs.drop_first();
        lemma_first_then_rest(template, subs);
        lemma_instantiation_in_turn(replaced(template, subs[0].0, subs[0].1), rest);
    }
}

} // verus!
