//! The four fragments that the templates of the store give.

use crate::search::{apart, disjoint, lemma_disjoint_apart, occurs, occurs_at};
use crate::store::{
    BLSTRS, BLSTRS_DEF, EC_SRC, EXPONENT, FFT_SRC, FIELD, FIELD2, FIELD2_SRC, FQ, FQ2, FR, G1, G2,
    MULTIEXP_SRC, POINT,
};
use crate::substitution::{
    lemma_instantiation_in_turn, lemma_nothing_to_replace, lemma_placeholder_consumed, replaced,
    replaced_in_turn,
};
use crate::template::{instantiate, instantiation};
use vstd::prelude::*;

verus! {

/// The extension-field fragment for the extension field `extension` of `field`.
pub open spec fn field2_text(extension: Seq<char>, field: Seq<char>) -> Seq<char> {
    instantiation(FIELD2_SRC@, seq![(FIELD2@, extension), (FIELD@, field)])
}

/// The FFT fragment over `field`.
pub open spec fn fft_text(field: Seq<char>) -> Seq<char> {
    instantiation(FFT_SRC@, seq![(FIELD@, field)])
}

/// The line that selects the representation of affine points: a definition where `blstrs`
/// holds, nothing where it does not.
pub open spec fn blstrs_def(blstrs: bool) -> Seq<char> {
    if blstrs {
        BLSTRS_DEF@
    } else {
        Seq::empty()
    }
}

/// The elliptic-curve fragment for the point group `point` over `field`.
pub open spec fn ec_text(field: Seq<char>, point: Seq<char>, blstrs: bool) -> Seq<char> {
    instantiation(EC_SRC@, seq![(FIELD@, field), (POINT@, point), (BLSTRS@, blstrs_def(blstrs))])
}

/// The multiexp fragment for the point group `point` with exponents from `exp`.
pub open spec fn multiexp_text(point: Seq<char>, exp: Seq<char>) -> Seq<char> {
    instantiation(MULTIEXP_SRC@, seq![(POINT@, point), (EXPONENT@, exp)])
}

/// Arithmetic of the quadratic extension field named `extension` over the field named `field`.
pub fn field2(extension: &str, field: &str) -> (text: String)
    ensures
        text@ == field2_text(extension@, field@),
{
    let subs = [(FIELD2, extension), (FIELD, field)];
    let list = subs.as_slice();
    assert(list.deep_view() =~= seq![(FIELD2@, extension@), (FIELD@, field@)]);
    instantiate(FIELD2_SRC, list)
}

/// The fast Fourier transform over the field named `field`.
pub fn fft(field: &str) -> (text: String)
    ensures
        text@ == fft_text(field@),
{
    let subs = [(FIELD, field)];
    let list = subs.as_slice();
    assert(list.deep_view() =~= seq![(FIELD@, field@)]);
    instantiate(FFT_SRC, list)
}

/// Point arithmetic of the group named `point` over the field named `field`. With `blstrs`
/// the fragment defines `BLSTRS`, under which affine points carry no infinity flag.
pub fn ec(field: &str, point: &str, blstrs: bool) -> (text: String)
    ensures
        text@ == ec_text(field@, point@, blstrs),
{
    let def = if blstrs {
        BLSTRS_DEF
    } else {
        ""
    };
    proof {
        reveal_strlit("");
        assert(def@ =~= blstrs_def(blstrs));
    }
    let subs = [(FIELD, field), (POINT, point), (BLSTRS, def)];
    let list = subs.as_slice();
    assert(list.deep_view() =~= seq![
        (FIELD@, field@),
        (POINT@, point@),
        (BLSTRS@, blstrs_def(blstrs)),
    ]);
    instantiate(EC_SRC, list)
}

/// Multi-scalar multiplication in the group named `point` with exponents from the field named
/// `exp`.
pub fn multiexp(point: &str, exp: &str) -> (text: String)
    ensures
        text@ == multiexp_text(point@, exp@),
{
    let subs = [(POINT, point), (EXPONENT, exp)];
    let list = subs.as_slice();
    assert(list.deep_view() =~= seq![(POINT@, point@), (EXPONENT@, exp@)]);
    instantiate(MULTIEXP_SRC, list)
}

/// Neither placeholder of the multiexp template stands in the fragment for the point group
/// `point` with exponents from `exp`, where both names are non-empty and share no character
/// with either placeholder.
pub proof fn lemma_multiexp_placeholders_consumed(point: Seq<char>, exp: Seq<char>)
    requires
        point.len() > 0,
        exp.len() > 0,
        disjoint(point, POINT@),
        disjoint(point, EXPONENT@),
        disjoint(exp, POINT@),
        disjoint(exp, EXPONENT@),
    ensures
        !occurs(multiexp_text(point, exp), POINT@),
        !occurs(multiexp_text(point, exp), EXPONENT@),
{
    reveal_strlit("POINT");
    reveal_strlit("EXPONENT");
    lemma_disjoint_apart(point, POINT@);
    lemma_disjoint_apart(point, EXPONENT@);
    lemma_disjoint_apart(exp, POINT@);
    lemma_disjoint_apart(exp, EXPONENT@);
    let subs = seq![(POINT@, point), (EXPONENT@, exp)];
    lemma_placeholder_consumed(MULTIEXP_SRC@, subs, 0);
    lemma_placeholder_consumed(MULTIEXP_SRC@, subs, 1);
}

/// Neither placeholder of the multiexp template stands in the multiexp fragment of either
/// point group of a kernel, and instantiating such a fragment once more changes nothing.
pub proof fn lemma_kernel_multiexp_placeholders_consumed()
    ensures
        !occurs(multiexp_text(G1@, FR@), POINT@),
        !occurs(multiexp_text(G1@, FR@), EXPONENT@),
        !occurs(multiexp_text(G2@, FR@), POINT@),
        !occurs(multiexp_text(G2@, FR@), EXPONENT@),
        instantiation(multiexp_text(G1@, FR@), seq![(POINT@, G1@), (EXPONENT@, FR@)])
            == multiexp_text(G1@, FR@),
        instantiation(multiexp_text(G2@, FR@), seq![(POINT@, G2@), (EXPONENT@, FR@)])
            == multiexp_text(G2@, FR@),
{
    reveal_strlit("POINT");
    reveal_strlit("EXPONENT");
    reveal_strlit("G1");
    reveal_strlit("G2");
    reveal_strlit("Fr");
    lemma_multiexp_placeholders_consumed(G1@, FR@);
    lemma_multiexp_placeholders_consumed(G2@, FR@);
    lemma_nothing_to_replace(multiexp_text(G1@, FR@), seq![(POINT@, G1@), (EXPONENT@, FR@)]);
    lemma_nothing_to_replace(multiexp_text(G2@, FR@), seq![(POINT@, G2@), (EXPONENT@, FR@)]);
}

/// The placeholder of a field cannot stand across the name of the extension field, though they
/// share a character.
proof fn lemma_field_apart_from_extension_name()
    ensures
        apart(FQ2@, FIELD@),
{
    reveal_strlit("Fq2");
    reveal_strlit("FIELD");
    assert forall|before: Seq<char>, after: Seq<char>, at: int| #[trigger]
        occurs_at(before + FQ2@ + after, FIELD@, at) implies at + FIELD@.len() <= before.len()
        || before.len() + FQ2@.len() <= at by {
        let whole = before + FQ2@ + after;
        let window = whole.subrange(at, at + 5);
        if at + 5 > before.len() && before.len() + 3 > at {
            if at <= before.len() {
                assert(window[before.len() - at] == whole[before.len() as int]);
                assert(window[1] == whole[at + 1]);
            } else {
                assert(window[0] == whole[at]);
            }
        }
    }
}

/// For the two pairs of a field and a point group of a kernel, the elliptic-curve fragment is
/// what replacing in turn makes of its template.
proof fn lemma_ec_in_turn(field: Seq<char>, point: Seq<char>, blstrs: bool)
    requires
        field == FQ@ || field == FQ2@,
        point == G1@ || point == G2@,
    ensures
        ec_text(field, point, blstrs) == replaced(
            replaced(replaced(EC_SRC@, FIELD@, field), POINT@, point),
            BLSTRS@,
            blstrs_def(blstrs),
        ),
{
    reveal_strlit("Fq");
    reveal_strlit("Fq2");
    reveal_strlit("G1");
    reveal_strlit("G2");
    reveal_strlit("POINT");
    reveal_strlit("__BLSTRS__");
    lemma_disjoint_apart(field, POINT@);
    lemma_disjoint_apart(field, BLSTRS@);
    lemma_disjoint_apart(point, BLSTRS@);
    let subs = seq![(FIELD@, field), (POINT@, point), (BLSTRS@, blstrs_def(blstrs))];
    lemma_instantiation_in_turn(EC_SRC@, subs);
    reveal_with_fuel(replaced_in_turn, 4);
}

/// For either point group of a kernel, the multiexp fragment is what replacing in turn makes
/// of its template.
proof fn lemma_multiexp_in_turn(point: Seq<char>)
    requires
        point == G1@ || point == G2@,
    ensures
        multiexp_text(point, FR@) == replaced(
            replaced(MULTIEXP_SRC@, POINT@, point),
            EXPONENT@,
            FR@,
        ),
{
    reveal_strlit("G1");
    reveal_strlit("G2");
    reveal_strlit("EXPONENT");
    lemma_disjoint_apart(point, EXPONENT@);
    let subs = seq![(POINT@, point), (EXPONENT@, FR@)];
    lemma_instantiation_in_turn(MULTIEXP_SRC@, subs);
    reveal_with_fuel(replaced_in_turn, 3);
}

/// Every fragment of a kernel is what replacing in turn makes of its template: each
/// placeholder replaced on the whole of what the one before it left. In a kernel no
/// placeholder can stand across a name that was put in before, so that searching the names
/// again finds nothing.
pub proof fn lemma_kernel_fragments_in_turn(blstrs: bool)
    ensures
        fft_text(FR@) == replaced(FFT_SRC@, FIELD@, FR@),
        field2_text(FQ2@, FQ@) == replaced(replaced(FIELD2_SRC@, FIELD2@, FQ2@), FIELD@, FQ@),
        ec_text(FQ@, G1@, blstrs) == replaced(
            replaced(replaced(EC_SRC@, FIELD@, FQ@), POINT@, G1@),
            BLSTRS@,
            blstrs_def(blstrs),
        ),
        ec_text(FQ2@, G2@, blstrs) == replaced(
            replaced(replaced(EC_SRC@, FIELD@, FQ2@), POINT@, G2@),
            BLSTRS@,
            blstrs_def(blstrs),
        ),
        multiexp_text(G1@, FR@) == replaced(replaced(MULTIEXP_SRC@, POINT@, G1@), EXPONENT@, FR@),
        multiexp_text(G2@, FR@) == replaced(replaced(MULTIEXP_SRC@, POINT@, G2@), EXPONENT@, FR@),
{
    lemma_ec_in_turn(FQ@, G1@, blstrs);
    lemma_ec_in_turn(FQ2@, G2@, blstrs);
    lemma_multiexp_in_turn(G1@);
    lemma_multiexp_in_turn(G2@);
    assert(field2_text(FQ2@, FQ@) == replaced(replaced(FIELD2_SRC@, FIELD2@, FQ2@), FIELD@, FQ@))
        by {
        lemma_field_apart_from_extension_name();
        let subs = seq![(FIELD2@, FQ2@), (FIELD@, FQ@)];
        lemma_instantiation_in_turn(FIELD2_SRC@, subs);
        reveal_with_fuel(replaced_in_turn, 3);
    }
}

} // verus!
