use gpu_kernel::fragment::{ec, fft, field2, multiexp};
use gpu_kernel::store::{EC_SRC, FFT_SRC, FIELD2_SRC, MULTIEXP_SRC};

#[test]
fn fft_names_the_field() {
    let text = fft("Fr");
    assert_eq!(text, FFT_SRC.replace("FIELD", "Fr"));
    assert!(!text.contains("FIELD"));
    assert!(text.contains("__kernel void radix_fft(__global Fr* x,"));
    assert!(text.contains("u[i0] = Fr_add(u[i0], u[i1]);"));
    assert!(text.contains("Fr field) {"));
}

#[test]
fn field2_names_both_fields() {
    let text = field2("Fq2", "Fq");
    assert_eq!(text, FIELD2_SRC.replace("FIELD2", "Fq2").replace("FIELD", "Fq"));
    assert!(!text.contains("FIELD"));
    assert!(text.contains("#define Fq2_LIMB_BITS Fq_LIMB_BITS"));
    assert!(text.contains("#define Fq2_ZERO ((Fq2){Fq_ZERO, Fq_ZERO})"));
    assert!(text.contains("typedef struct {\n  Fq c0;\n  Fq c1;\n} Fq2;"));
    assert!(text.contains("Fq2 Fq2_mul(Fq2 a, Fq2 b) {\n  const Fq aa = Fq_mul(a.c0, b.c0);"));
}

#[test]
fn field2_keeps_an_extension_name_that_holds_a_placeholder() {
    let text = field2("FIELD_EXT", "Fq");
    assert!(text.contains("#define FIELD_EXT_LIMB_BITS Fq_LIMB_BITS"));
    assert!(text.contains("} FIELD_EXT;"));
}

#[test]
fn ec_names_the_field_and_the_group() {
    let text = ec("Fq", "G1", false);
    let in_turn = EC_SRC.replace("FIELD", "Fq").replace("POINT", "G1").replace("__BLSTRS__", "");
    assert_eq!(text, in_turn);
    assert!(!text.contains("FIELD"));
    assert!(!text.contains("POINT"));
    assert!(text.contains("#define G1_ZERO ((G1_projective){Fq_ZERO, Fq_ONE, Fq_ZERO})"));
    assert!(text.contains("G1_projective G1_add_mixed(G1_projective a, G1_affine b) {"));
    assert!(text.contains("#if Fq_LIMB_BITS == 32"));
}

#[test]
fn ec_over_the_extension_field() {
    let text = ec("Fq2", "G2", false);
    assert!(text.contains("#define G2_ZERO ((G2_projective){Fq2_ZERO, Fq2_ONE, Fq2_ZERO})"));
    assert!(text.contains("#if Fq2_LIMB_BITS == 32"));
    assert!(text.contains("const Fq2 z1z1 = Fq2_sqr(a.z);"));
}

#[test]
fn ec_without_the_flag_defines_nothing() {
    let text = ec("Fq", "G1", false);
    assert!(!text.contains("__BLSTRS__"));
    assert!(!text.contains("#define BLSTRS"));
    assert!(text.contains("Fq_ONE, Fq_ZERO})\n\n\n\ntypedef struct {"));
    assert!(text.contains("#ifndef BLSTRS\n  bool inf;\n#endif"));
}

#[test]
fn ec_with_the_flag_defines_it() {
    let text = ec("Fq", "G1", true);
    assert!(!text.contains("__BLSTRS__"));
    assert!(text.contains("Fq_ONE, Fq_ZERO})\n\n#define BLSTRS\n\ntypedef struct {"));
    let in_turn =
        EC_SRC.replace("FIELD", "Fq").replace("POINT", "G1").replace("__BLSTRS__", "#define BLSTRS");
    assert_eq!(text, in_turn);
}

#[test]
fn multiexp_leaves_no_placeholder() {
    let text = multiexp("G1", "Fr");
    assert!(!text.contains("POINT"));
    assert!(!text.contains("EXPONENT"));
    assert_eq!(text, MULTIEXP_SRC.replace("POINT", "G1").replace("EXPONENT", "Fr"));
    let text = multiexp("G2", "Fr");
    assert!(!text.contains("POINT"));
    assert!(!text.contains("EXPONENT"));
}

#[test]
fn multiexp_names_the_group_and_the_exponents() {
    let text = multiexp("G1", "Fr");
    assert!(text.contains("__kernel void G1_bellman_multiexp("));
    assert!(text.contains("__global G1_affine *bases,"));
    assert!(text.contains("__global Fr *exps,"));
    assert!(text.contains("uint ind = Fr_get_bits(exps[i], bits, w);"));
    assert!(text.contains("(ushort)(Fr_BITS - bits)"));
    assert!(text.contains("acc = G1_add(acc, buckets[j]);"));
}

#[test]
fn multiexp_twice_is_multiexp_once() {
    let once = multiexp("G1", "Fr");
    let subs = [("POINT", "G1"), ("EXPONENT", "Fr")];
    assert_eq!(gpu_kernel::template::instantiate(&once, &subs), once);
}

#[test]
fn templates_hold_their_placeholders() {
    assert!(FFT_SRC.contains("FIELD"));
    assert!(FIELD2_SRC.contains("FIELD2") && FIELD2_SRC.contains("FIELD_"));
    assert!(EC_SRC.contains("FIELD") && EC_SRC.contains("POINT"));
    assert_eq!(EC_SRC.matches("__BLSTRS__").count(), 1);
    assert!(MULTIEXP_SRC.contains("POINT") && MULTIEXP_SRC.contains("EXPONENT"));
    assert!(!MULTIEXP_SRC.contains("FIELD"));
}
