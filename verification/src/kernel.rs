//! The kernel: the fragments of both fields and both point groups, in the order in which each
//! may use what stands before it.

use crate::fragment::{ec, ec_text, fft, fft_text, field2, field2_text, multiexp, multiexp_text};
use crate::store::{FQ, FQ2, FR, G1, G2, SEPARATOR};
use vstd::prelude::*;

verus! {

/// One of the two prime fields of a curve engine.
#[derive(Clone, Copy, Debug, PartialEq, Eq, Structural)]
pub enum EngineField {
    /// The field of the scalars.
    Scalar,
    /// The field of the coordinates.
    Base,
}

/// `parts` in their order, with `separator` between each two of them.
pub open spec fn joined(parts: Seq<Seq<char>>, separator: Seq<char>) -> Seq<char>
    decreases parts.len(),
{
    if parts.len() == 0 {
        Seq::empty()
    } else if parts.len() == 1 {
        parts[0]
    } else {
        joined(parts.drop_last(), separator) + separator + parts.last()
    }
}

/// The index in `joined(parts, separator)` at which part `i` begins.
pub open spec fn part_start(parts: Seq<Seq<char>>, separator: Seq<char>, i: int) -> int
    decreases i,
{
    if i <= 0 {
        0
    } else {
        part_start(parts, separator, i - 1) + parts[i - 1].len() + separator.len()
    }
}

/// The index in `joined(parts, separator)` at which part `i` ends.
pub open spec fn part_end(parts: Seq<Seq<char>>, separator: Seq<char>, i: int) -> int {
    part_start(parts, separator, i) + parts[i].len()
}

/// The eight fragments of the kernel whose scalar-field arithmetic is `fr` and whose
/// base-field arithmetic is `fq`, in their order.
pub open spec fn kernel_fragments(fr: Seq<char>, fq: Seq<char>, blstrs: bool) -> Seq<Seq<char>> {
    seq![
        fr,
        fft_text(FR@),
        fq,
        ec_text(FQ@, G1@, blstrs),
        multiexp_text(G1@, FR@),
        field2_text(FQ2@, FQ@),
        ec_text(FQ2@, G2@, blstrs),
        multiexp_text(G2@, FR@),
    ]
}

/// The kernel whose scalar-field arithmetic is `fr` and whose base-field arithmetic is `fq`:
/// its fragments with a blank line between each two.
pub open spec fn kernel_text(fr: Seq<char>, fq: Seq<char>, blstrs: bool) -> Seq<char> {
    joined(kernel_fragments(fr, fq, blstrs), SEPARATOR@)
}

/// `source` is a kernel for the engine whose field arithmetic `generate` writes: `generate`
/// may return `fr` for the scalar field under the name `Fr`, and `fq` for the base field under
/// the name `Fq`, both with the limb width `limb64`, and `source` is the kernel of `fr` and
/// `fq`.
pub open spec fn is_kernel<G>(
    generate: G,
    limb64: bool,
    blstrs: bool,
    source: Seq<char>,
) -> bool where G: Fn(EngineField, bool, &str) -> String {
    exists|fr: String, fq: String|
        {
            &&& #[trigger] generate.ensures((EngineField::Scalar, limb64, FR), fr)
            &&& #[trigger] generate.ensures((EngineField::Base, limb64, FQ), fq)
            &&& source == kernel_text(fr@, fq@, blstrs)
        }
}

/// What `generate` writes is settled by what it is asked for.
pub open spec fn deterministic<G>(generate: G) -> bool where
    G: Fn(EngineField, bool, &str) -> String,
{
    forall|field: EngineField, limb64: bool, name: &str, a: String, b: String|
        #![trigger generate.ensures((field, limb64, name), a), generate.ensures((field, limb64, name), b)]
        generate.ensures((field, limb64, name), a) && generate.ensures((field, limb64, name), b)
            ==> a@ == b@
}

/// Joins `parts` with `separator` between each two of them.
pub fn join(parts: &[String], separator: &str) -> (text: String)
    ensures
        text@ == joined(parts.deep_view(), separator@),
{
    let mut text = String::new();
    let mut i: usize = 0;
    while i < parts.len()
        invariant
            i <= parts.len(),
            text@ == joined(parts.deep_view().take(i as int), separator@),
        decreases parts.len() - i,
    {
        assert(parts.deep_view().take(i + 1).drop_last() =~= parts.deep_view().take(i as int));
        if i > 0 {
            text.append(separator);
        }
        text.append(parts[i].as_str());
        i += 1;
    }
    assert(parts.deep_view().take(i as int) =~= parts.deep_view());
    text
}

/// Assembles the kernel from the arithmetic of the scalar field, `fr`, which is to name that
/// field `Fr`, and the arithmetic of the base field, `fq`, which is to name it `Fq`. With
/// `blstrs`, affine points carry no infinity flag.
pub fn assemble(fr: &str, fq: &str, blstrs: bool) -> (source: String)
    ensures
        source@ == kernel_text(fr@, fq@, blstrs),
{
    let parts = [
        fr.to_owned(),
        fft(FR),
        fq.to_owned(),
        ec(FQ, G1, blstrs),
        multiexp(G1, FR),
        field2(FQ2, FQ),
        ec(FQ2, G2, blstrs),
        multiexp(G2, FR),
    ];
    let list = parts.as_slice();
    assert(list.deep_view() =~= kernel_fragments(fr@, fq@, blstrs));
    join(list, SEPARATOR)
}

/// Builds the kernel for the curve engine whose field arithmetic `generate` writes.
///
/// `generate` is asked twice: for the scalar field under the name `Fr`, then for the base
/// field under the name `Fq`, both times with the limb width `limb64` (64 bits where it holds,
/// 32 bits where it does not). The kernel is assembled from what it returned.
pub fn kernel<G>(generate: G, limb64: bool, blstrs: bool) -> (source: String) where
    G: Fn(EngineField, bool, &str) -> String,
    requires
        generate.requires((EngineField::Scalar, limb64, FR)),
        generate.requires((EngineField::Base, limb64, FQ)),
    ensures
        is_kernel(generate, limb64, blstrs, source@),
{
    let fr = generate(EngineField::Scalar, limb64, FR);
    let fq = generate(EngineField::Base, limb64, FQ);
    assemble(fr.as_str(), fq.as_str(), blstrs)
}

/// Where a part begins depends on the parts before it only.
proof fn lemma_part_start_of_prefix(parts: Seq<Seq<char>>, separator: Seq<char>, i: int)
    requires
        0 <= i < parts.len(),
    ensures
        part_start(parts.drop_last(), separator, i) == part_start(parts, separator, i),
    decreases i,
{
    if i > 0 {
        lemma_part_start_of_prefix(parts, separator, i - 1);
    }
}

/// The joined text ends where its last part ends.
proof fn lemma_joined_len(parts: Seq<Seq<char>>, separator: Seq<char>)
    requires
        parts.len() > 0,
    ensures
        joined(parts, separator).len() == part_end(parts, separator, parts.len() - 1),
    decreases parts.len(),
{
    if parts.len() > 1 {
        lemma_joined_len(parts.drop_last(), separator);
        lemma_part_start_of_prefix(parts, separator, parts.len() - 2);
    }
}

/// Each part stands whole in the joined text, from the index that `part_start` gives, and the
/// last part ends where the joined text ends.
pub proof fn lemma_part_in_joined(parts: Seq<Seq<char>>, separator: Seq<char>, i: int)
    requires
        0 <= i < parts.len(),
    ensures
        0 <= part_start(parts, separator, i),
        part_end(parts, separator, i) <= joined(parts, separator).len(),
        joined(parts, separator).subrange(
            part_start(parts, separator, i),
            part_end(parts, separator, i),
        ) == parts[i],
        i == parts.len() - 1 ==> part_end(parts, separator, i) == joined(parts, separator).len(),
    decreases parts.len(),
{
    lemma_joined_len(parts, separator);
    if parts.len() > 1 {
        let init = parts.drop_last();
        if i == parts.len() - 1 {
            lemma_joined_len(init, separator);
            lemma_part_start_of_prefix(parts, separator, i - 1);
        } else {
            lemma_part_in_joined(init, separator, i);
            lemma_part_start_of_prefix(parts, separator, i);
        }
    }
}

/// A part ends a separator before any later part begins.
pub proof fn lemma_parts_in_order(parts: Seq<Seq<char>>, separator: Seq<char>, i: int, j: int)
    requires
        0 <= i < j,
    ensures
        part_end(parts, separator, i) + separator.len() <= part_start(parts, separator, j),
    decreases j,
{
    if i < j - 1 {
        lemma_parts_in_order(parts, separator, i, j - 1);
    }
}

/// The layout of a kernel. It has eight fragments. Each stands whole in the kernel, the first
/// at its start, the last at its end, and each begins two characters, the blank line, after
/// the end of the one before it: so a fragment ends before any later one begins.
pub proof fn lemma_kernel_layout(fr: Seq<char>, fq: Seq<char>, blstrs: bool, i: int)
    requires
        0 <= i < 8,
    ensures
        ({
            let parts = kernel_fragments(fr, fq, blstrs);
            let text = kernel_text(fr, fq, blstrs);
            let start = part_start(parts, SEPARATOR@, i);
            let end = part_end(parts, SEPARATOR@, i);
            &&& parts.len() == 8
            &&& 0 <= start <= end <= text.len()
            &&& text.subrange(start, end) == parts[i]
            &&& i == 0 ==> start == 0
            &&& i == 7 ==> end == text.len()
            &&& i > 0 ==> start == part_end(parts, SEPARATOR@, i - 1) + 2
            &&& forall|j: int| 0 <= j < i ==> part_end(parts, SEPARATOR@, j) < start
        }),
{
    reveal_strlit("\n\n");
    let parts = kernel_fragments(fr, fq, blstrs);
    lemma_part_in_joined(parts, SEPARATOR@, i);
    assert forall|j: int| 0 <= j < i implies part_end(parts, SEPARATOR@, j) < part_start(
        parts,
        SEPARATOR@,
        i,
    ) by {
        lemma_parts_in_order(parts, SEPARATOR@, j, i);
    }
}

/// The order that the fragments of a kernel depend on: the arithmetic of the scalar field ends
/// before the FFT begins, the arithmetic of the base field before either elliptic-curve
/// fragment, and the extension field before the elliptic-curve fragment over it. Each of them
/// stands in the kernel between the two indices that are compared.
pub proof fn lemma_kernel_order(fr: Seq<char>, fq: Seq<char>, blstrs: bool)
    ensures
        ({
            let parts = kernel_fragments(fr, fq, blstrs);
            let text = kernel_text(fr, fq, blstrs);
            let start = |i: int| part_start(parts, SEPARATOR@, i);
            let end = |i: int| part_end(parts, SEPARATOR@, i);
            &&& text.subrange(start(0), end(0)) == fr
            &&& text.subrange(start(1), end(1)) == fft_text(FR@)
            &&& text.subrange(start(2), end(2)) == fq
            &&& text.subrange(start(3), end(3)) == ec_text(FQ@, G1@, blstrs)
            &&& text.subrange(start(5), end(5)) == field2_text(FQ2@, FQ@)
            &&& text.subrange(start(6), end(6)) == ec_text(FQ2@, G2@, blstrs)
            &&& end(0) < start(1)
            &&& end(2) < start(3)
            &&& end(2) < start(6)
            &&& end(5) < start(6)
        }),
{
    lemma_kernel_layout(fr, fq, blstrs, 0);
    lemma_kernel_layout(fr, fq, blstrs, 1);
    lemma_kernel_layout(fr, fq, blstrs, 2);
    lemma_kernel_layout(fr, fq, blstrs, 3);
    lemma_kernel_layout(fr, fq, blstrs, 5);
    lemma_kernel_layout(fr, fq, blstrs, 6);
}

/// Building a kernel is deterministic: for a generator whose results are settled by what it
/// is asked for, any two kernels for one limb width and one flag are the same text.
pub proof fn lemma_kernel_deterministic<G>(
    generate: G,
    limb64: bool,
    blstrs: bool,
    first: Seq<char>,
    second: Seq<char>,
) where G: Fn(EngineField, bool, &str) -> String
    requires
        deterministic(generate),
        is_kernel(generate, limb64, blstrs, first),
        is_kernel(generate, limb64, blstrs, second),
    ensures
        first == second,
{
}

} // verus!
