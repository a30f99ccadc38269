use gpu_kernel::fragment::{ec, fft, field2, multiexp};
use gpu_kernel::kernel::{assemble, join, kernel, EngineField};
use std::cell::RefCell;

fn mock(field: EngineField, limb64: bool, name: &str) -> String {
    let kind = match field {
        EngineField::Scalar => "scalar",
        EngineField::Base => "base",
    };
    let bits = if limb64 { 64 } else { 32 };
    format!("// {} field {} with {} bit limbs", kind, name, bits)
}

#[test]
fn join_puts_the_separator_between_parts() {
    let parts = vec!["a".to_string(), "b".to_string(), "c".to_string()];
    assert_eq!(join(&parts, "\n\n"), "a\n\nb\n\nc");
    assert_eq!(join(&parts, ""), "abc");
}

#[test]
fn join_of_none_or_one() {
    assert_eq!(join(&vec![], ", "), "");
    assert_eq!(join(&vec!["a".to_string()], ", "), "a");
    assert_eq!(join(&vec!["".to_string(), "".to_string()], ", "), ", ");
}

#[test]
fn assemble_puts_eight_fragments_in_order() {
    let source = assemble("<Fr>", "<Fq>", false);
    let expected = vec![
        "<Fr>".to_string(),
        fft("Fr"),
        "<Fq>".to_string(),
        ec("Fq", "G1", false),
        multiexp("G1", "Fr"),
        field2("Fq2", "Fq"),
        ec("Fq2", "G2", false),
        multiexp("G2", "Fr"),
    ];
    assert_eq!(source, expected.join("\n\n"));
}

#[test]
fn assemble_places_each_fragment_after_what_it_uses() {
    let source = assemble("<Fr>", "<Fq>", false);
    let fr = source.find("<Fr>").unwrap();
    let fft_at = source.find("__kernel void radix_fft(").unwrap();
    let fq = source.find("<Fq>").unwrap();
    let g1 = source.find("} G1_affine;").unwrap();
    let g1_multiexp = source.find("__kernel void G1_bellman_multiexp(").unwrap();
    let fq2 = source.find("} Fq2;").unwrap();
    let g2 = source.find("} G2_affine;").unwrap();
    let g2_multiexp = source.find("__kernel void G2_bellman_multiexp(").unwrap();
    assert_eq!(fr, 0);
    assert!(fr < fft_at);
    assert!(fft_at < fq);
    assert!(fq < g1);
    assert!(g1 < g1_multiexp);
    assert!(g1_multiexp < fq2);
    assert!(fq2 < g2);
    assert!(g2 < g2_multiexp);
}

#[test]
fn assemble_passes_the_flag_to_both_point_groups() {
    let source = assemble("<Fr>", "<Fq>", true);
    assert_eq!(source.matches("#define BLSTRS\n").count(), 2);
    let source = assemble("<Fr>", "<Fq>", false);
    assert_eq!(source.matches("#define BLSTRS\n").count(), 0);
}

#[test]
fn assemble_is_a_function_of_its_arguments() {
    assert_eq!(assemble("<Fr>", "<Fq>", false), assemble("<Fr>", "<Fq>", false));
    assert_eq!(assemble("<Fr>", "<Fq>", true), assemble("<Fr>", "<Fq>", true));
    assert_ne!(assemble("<Fr>", "<Fq>", false), assemble("<Fr>", "<Fq>", true));
    assert_ne!(assemble("<Fr>", "<Fq>", false), assemble("<Fq>", "<Fr>", false));
}

#[test]
fn assemble_does_not_search_the_field_arithmetic() {
    let source = assemble("FIELD POINT", "EXPONENT __BLSTRS__", false);
    assert!(source.starts_with("FIELD POINT\n\n"));
    assert!(source.contains("\n\nEXPONENT __BLSTRS__\n\n"));
}

#[test]
fn kernel_with_a_mock_engine_and_64_bit_limbs() {
    let source = kernel(mock, true, false);
    let expected = vec![
        "// scalar field Fr with 64 bit limbs".to_string(),
        fft("Fr"),
        "// base field Fq with 64 bit limbs".to_string(),
        ec("Fq", "G1", false),
        multiexp("G1", "Fr"),
        field2("Fq2", "Fq"),
        ec("Fq2", "G2", false),
        multiexp("G2", "Fr"),
    ];
    assert_eq!(expected.len(), 8);
    assert_eq!(source, expected.join("\n\n"));
}

#[test]
fn kernel_with_a_mock_engine_and_32_bit_limbs() {
    let source = kernel(mock, false, false);
    assert!(source.starts_with("// scalar field Fr with 32 bit limbs\n\n"));
    assert!(source.contains("\n\n// base field Fq with 32 bit limbs\n\n"));
    assert!(!source.contains("64 bit limbs"));
}

#[test]
fn kernel_is_deterministic() {
    assert_eq!(kernel(mock, true, false), kernel(mock, true, false));
    assert_eq!(kernel(mock, false, false), kernel(mock, false, false));
    assert_eq!(kernel(mock, true, true), kernel(mock, true, true));
}

#[test]
fn kernel_asks_for_each_field_once_with_one_width() {
    let asked: RefCell<Vec<(EngineField, bool, String)>> = RefCell::new(Vec::new());
    let source = kernel(
        |field, limb64, name: &str| {
            asked.borrow_mut().push((field, limb64, name.to_string()));
            mock(field, limb64, name)
        },
        true,
        false,
    );
    assert_eq!(
        *asked.borrow(),
        vec![
            (EngineField::Scalar, true, "Fr".to_string()),
            (EngineField::Base, true, "Fq".to_string()),
        ]
    );
    assert_eq!(source, assemble(&mock(EngineField::Scalar, true, "Fr"), &mock(EngineField::Base, true, "Fq"), false));
}

#[test]
fn assemble_lays_the_fragments_out_with_a_blank_line_between() {
    let source = assemble("<Fr>", "<Fq>", true);
    let fragments = vec![
        "<Fr>".to_string(),
        fft("Fr"),
        "<Fq>".to_string(),
        ec("Fq", "G1", true),
        multiexp("G1", "Fr"),
        field2("Fq2", "Fq"),
        ec("Fq2", "G2", true),
        multiexp("G2", "Fr"),
    ];
    let mut start = 0;
    for (i, fragment) in fragments.iter().enumerate() {
        if i > 0 {
            assert_eq!(&source[start..start + 2], "\n\n");
            start += 2;
        }
        assert_eq!(&source[start..start + fragment.len()], fragment.as_str());
        start += fragment.len();
    }
    assert_eq!(start, source.len());
}

#[test]
fn assemble_with_empty_field_arithmetic() {
    let source = assemble("", "", false);
    assert!(source.starts_with("\n\nuint bitreverse(uint n, uint bits) {"));
    let expected = vec![
        String::new(),
        fft("Fr"),
        String::new(),
        ec("Fq", "G1", false),
        multiexp("G1", "Fr"),
        field2("Fq2", "Fq"),
        ec("Fq2", "G2", false),
        multiexp("G2", "Fr"),
    ];
    assert_eq!(source, expected.join("\n\n"));
}
