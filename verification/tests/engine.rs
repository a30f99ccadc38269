use ff_cl_gen::{Limb32, Limb64};
use gpu_kernel::dispatch::{program, Framework, Plan, Vendor};
use gpu_kernel::kernel::{assemble, kernel, EngineField};
use paired::bls12_381::{Fq, Fr};

fn bls12_381(field: EngineField, limb64: bool, name: &str) -> String {
    match (field, limb64) {
        (EngineField::Scalar, true) => ff_cl_gen::field::<Fr, Limb64>(name),
        (EngineField::Scalar, false) => ff_cl_gen::field::<Fr, Limb32>(name),
        (EngineField::Base, true) => ff_cl_gen::field::<Fq, Limb64>(name),
        (EngineField::Base, false) => ff_cl_gen::field::<Fq, Limb32>(name),
    }
}

#[test]
fn kernel_for_bls12_381_with_64_bit_limbs() {
    let source = kernel(bls12_381, true, false);
    let fr = ff_cl_gen::field::<Fr, Limb64>("Fr");
    let fq = ff_cl_gen::field::<Fq, Limb64>("Fq");
    assert_eq!(source, assemble(&fr, &fq, false));
    assert!(source.starts_with(&fr));
    assert!(source.contains("#define Fr_LIMB_BITS 64"));
    assert!(source.contains("#define Fq_LIMB_BITS 64"));
    assert!(!source.contains("_LIMB_BITS 32"));
    assert!(source.contains("#define Fr_LIMBS 4"));
    assert!(source.contains("#define Fq_LIMBS 6"));
}

#[test]
fn kernel_for_bls12_381_with_32_bit_limbs() {
    let source = kernel(bls12_381, false, false);
    assert!(source.contains("#define Fr_LIMB_BITS 32"));
    assert!(source.contains("#define Fq_LIMB_BITS 32"));
    assert!(!source.contains("_LIMB_BITS 64"));
    assert!(source.contains("#define Fr_LIMBS 8"));
    assert!(source.contains("#define Fq_LIMBS 12"));
}

#[test]
fn kernel_for_bls12_381_defines_each_name_before_its_use() {
    let source = kernel(bls12_381, true, false);
    let fr = source.find("} Fr;").unwrap();
    let fft = source.find("__kernel void radix_fft(__global Fr* x,").unwrap();
    let fq = source.find("} Fq;").unwrap();
    let g1 = source.find("} G1_affine;").unwrap();
    let fq2 = source.find("} Fq2;").unwrap();
    let g2 = source.find("} G2_affine;").unwrap();
    assert!(fr < fft);
    assert!(fft < fq);
    assert!(fq < g1);
    assert!(g1 < fq2);
    assert!(fq2 < g2);
    assert!(!source.contains("FIELD"));
    assert!(!source.contains("POINT"));
    assert!(!source.contains("EXPONENT"));
}

#[test]
fn program_for_bls12_381_on_a_compiling_device() {
    let plan = program(Framework::Opencl, Vendor::Nvidia, bls12_381, false);
    assert_eq!(plan, Plan::Source { source: kernel(bls12_381, true, false) });
    let plan = program(Framework::Opencl, Vendor::Amd, bls12_381, false);
    assert_eq!(plan, Plan::Source { source: kernel(bls12_381, false, false) });
}
