//! Kernel source for elliptic-curve GPU programs.
//!
//! A kernel is one text: the arithmetic of a curve engine's scalar field and base field,
//! which a field generator writes, and between and after them the fragments that four
//! templates give for the FFT, for the points of both groups, for the quadratic extension
//! field and for multi-scalar multiplication. `template` instantiates a template, `fragment`
//! holds the four recipes, `kernel` puts the fragments in their order, and `dispatch` decides
//! whether a device loads the precompiled binary or compiles such a kernel.

pub mod dispatch;
pub mod fragment;
pub mod kernel;
pub mod search;
pub mod store;
pub mod substitution;
pub mod template;
