//! Instantiating a template: literal replacement of placeholder tokens.

use crate::search::{
    find, first_occurrence, lemma_first_occurrence, lemma_first_occurrence_unique, occurs,
};
use vstd::prelude::*;
use vstd::slice::slice_subrange;

verus! {

/// The text that `template` becomes under the substitutions `subs`, each a pair of a placeholder
/// and its replacement.
///
/// The first pair is applied to the whole template: its placeholder, if it is not empty, is
/// replaced wherever it stands, found from left to right without overlap. The pairs after it
/// are applied to the stretches of template text between those places only, so that no
/// replacement is ever searched again. A placeholder that stands nowhere changes nothing.
pub open spec fn instantiation(template: Seq<char>, subs: Seq<(Seq<char>, Seq<char>)>) -> Seq<char>
    decreases subs.len(), template.len(),
    via instantiation_decreases
{
    if subs.len() == 0 {
        template
    } else {
        let (token, replacement) = subs[0];
        if token.len() > 0 && occurs(template, token) {
            let at = first_occurrence(template, token);
            instantiation(template.take(at), subs.drop_first()) + replacement + instantiation(
                template.skip(at + token.len()),
                subs,
            )
        } else {
            instantiation(template, subs.drop_first())
        }
    }
}

#[via_fn]
proof fn instantiation_decreases(template: Seq<char>, subs: Seq<(Seq<char>, Seq<char>)>) {
    if subs.len() > 0 {
        let (token, replacement) = subs[0];
        if token.len() > 0 && occurs(template, token) {
            lemma_first_occurrence(template, token);
        }
    }
}

/// The characters of a string.
fn chars_of(s: &str) -> (chars: Vec<char>)
    ensures
        chars@ == s@,
{
    broadcast use vstd::string::group_string_axioms;

    let mut chars: Vec<char> = Vec::new();
    let source = s.chars();
    for c in it: source
        invariant
            it.seq() == s@,
            chars@ == s@.take(it.index()),
    {
        chars.push(c);
    }
    chars
}

/// The placeholders of `subs`, each as its characters.
fn tokens_of(subs: &[(&str, &str)]) -> (tokens: Vec<Vec<char>>)
    ensures
        tokens.len() == subs.len(),
        forall|k: int| 0 <= k < subs.len() ==> (#[trigger] tokens[k])@ == subs[k].0@,
{
    let mut tokens: Vec<Vec<char>> = Vec::new();
    let mut k: usize = 0;
    while k < subs.len()
        invariant
            k <= subs.len(),
            tokens.len() == k,
            forall|i: int| 0 <= i < k ==> (#[trigger] tokens[i])@ == subs[i].0@,
        decreases subs.len() - k,
    {
        tokens.push(chars_of(subs[k].0));
        k += 1;
    }
    tokens
}

/// Appends to `out` what `template[from..to]` becomes under `subs[k..]`.
fn expand(
    template: &str,
    chars: &Vec<char>,
    from: usize,
    to: usize,
    subs: &[(&str, &str)],
    tokens: &Vec<Vec<char>>,
    k: usize,
    out: &mut String,
)
    requires
        chars@ == template@,
        from <= to <= chars.len(),
        k <= subs.len(),
        tokens.len() == subs.len(),
        forall|i: int| 0 <= i < subs.len() ==> (#[trigger] tokens[i])@ == subs[i].0@,
    ensures
        final(out)@ == old(out)@ + instantiation(
            template@.subrange(from as int, to as int),
            subs.deep_view().skip(k as int),
        ),
    decreases subs.len() - k,
{
    let ghost rest = subs.deep_view().skip(k as int);
    if k == subs.len() {
        out.append(template.substring_char(from, to));
        return ;
    }
    let ghost later = subs.deep_view().skip(k + 1);
    assert(rest.drop_first() =~= later);
    let token = tokens[k].as_slice();
    if token.len() == 0 {
        expand(template, chars, from, to, subs, tokens, k + 1, out);
        return ;
    }
    let mut done: usize = from;
    loop
        invariant
            chars@ == template@,
            from <= done <= to <= chars.len(),
            k < subs.len(),
            tokens.len() == subs.len(),
            forall|i: int| 0 <= i < subs.len() ==> (#[trigger] tokens[i])@ == subs[i].0@,
            token@ == subs[k as int].0@,
            token.len() > 0,
            rest == subs.deep_view().skip(k as int),
            rest.len() > 0,
            rest.drop_first() == later,
            rest[0] == (subs[k as int].0@, subs[k as int].1@),
            later == subs.deep_view().skip(k + 1),
            out@ + instantiation(template@.subrange(done as int, to as int), rest) == old(out)@
                + instantiation(template@.subrange(from as int, to as int), rest),
        decreases to - done,
    {
        let ghost part = template@.subrange(done as int, to as int);
        match find(slice_subrange(chars.as_slice(), done, to), token) {
            None => {
                expand(template, chars, done, to, subs, tokens, k + 1, out);
                return ;
            },
            Some(at) => {
                proof {
                    lemma_first_occurrence_unique(part, token@, at as int);
                    assert(part.take(at as int) =~= template@.subrange(
                        done as int,
                        done + at,
                    ));
                    assert(part.skip(at + token.len()) =~= template@.subrange(
                        done + at + token.len(),
                        to as int,
                    ));
                }
                expand(template, chars, done, done + at, subs, tokens, k + 1, out);
                out.append(subs[k].1);
                done = done + at + token.len();
            },
        }
    }
}

/// Instantiates `template` with the substitutions `subs`, pairs of a placeholder and its
/// replacement, in the order of the list.
pub fn instantiate(template: &str, subs: &[(&str, &str)]) -> (text: String)
    ensures
        text@ == instantiation(template@, subs.deep_view()),
{
    let chars = chars_of(template);
    let tokens = tokens_of(subs);
    let mut text = String::new();
    assert(template@.subrange(0, chars.len() as int) =~= template@);
    assert(subs.deep_view().skip(0) =~= subs.deep_view());
    expand(template, &chars, 0, chars.len(), subs, &tokens, 0, &mut text);
    text
}

} // verus!
