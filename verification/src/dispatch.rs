//! The dispatcher: by a device's framework and vendor, which of the two ways gives its program.

use crate::kernel::{is_kernel, kernel, EngineField};
use crate::store::{FQ, FR};
use vstd::prelude::*;

verus! {

/// Path of the precompiled kernel binary. It is built for one curve: whoever loads it answers
/// for its being the curve that is meant.
pub const SOURCE_BIN: &'static str = "./src/gpu/multiexp/multiexp32.fatbin";

/// How a device runs programs.
#[derive(Clone, Copy, Debug, PartialEq, Eq, Structural)]
pub enum Framework {
    /// The device loads a binary that was compiled beforehand.
    Cuda,
    /// The device compiles source text when the program is made.
    Opencl,
}

/// Who made a device.
#[derive(Clone, Copy, Debug, PartialEq, Eq, Structural)]
pub enum Vendor {
    /// AMD.
    Amd,
    /// NVIDIA.
    Nvidia,
}

/// What a device's program is made from.
#[derive(Debug, PartialEq, Eq)]
pub enum Plan {
    /// The binary at `path` is to be loaded.
    Binary { path: &'static str },
    /// `source` is to be compiled.
    Source { source: String },
}

/// Whether kernels for devices of `vendor` use limbs of 64 bits; the others use limbs of 32.
pub open spec fn uses_limb64(vendor: Vendor) -> bool {
    vendor == Vendor::Nvidia
}

/// Decides what the program of a device with `framework` and `vendor` is made from.
///
/// A device that loads binaries gets the one fixed binary, whatever the curve engine and the
/// vendor. No kernel is built for it: on that way nothing is required of `generate`, so that
/// it cannot be called. For a device that compiles source the kernel is built, with limbs of
/// 64 bits for the one vendor and of 32 bits for every other. Neither way falls back on the
/// other: loading or compiling the result, and what to do when that fails, is the caller's.
pub fn program<G>(framework: Framework, vendor: Vendor, generate: G, blstrs: bool) -> (plan: Plan)
    where G: Fn(EngineField, bool, &str) -> String,
    requires
        framework == Framework::Opencl ==> generate.requires(
            (EngineField::Scalar, uses_limb64(vendor), FR),
        ) && generate.requires((EngineField::Base, uses_limb64(vendor), FQ)),
    ensures
        framework == Framework::Cuda ==> plan == (Plan::Binary { path: SOURCE_BIN }),
        framework == Framework::Opencl ==> {
            &&& plan matches Plan::Source { source }
            &&& is_kernel(generate, uses_limb64(vendor), blstrs, source@)
        },
{
    match framework {
        Framework::Cuda => Plan::Binary { path: SOURCE_BIN },
        Framework::Opencl => {
            let limb64 = match vendor {
                Vendor::Nvidia => true,
                Vendor::Amd => false,
            };
            Plan::Source { source: kernel(generate, limb64, blstrs) }
        },
    }
}

/// The path of the binary holds no NUL character: it can be handed to a loader that takes a
/// C string, which ends at the first NUL.
pub proof fn lemma_source_bin_has_no_nul()
    ensures
        forall|i: int| 0 <= i < SOURCE_BIN@.len() ==> SOURCE_BIN@[i] != '\0',
{
    reveal_strlit("./src/gpu/multiexp/multiexp32.fatbin");
}

} // verus!
