//! Lowering of GPU intrinsics to LLVM intrinsics and inline assembly.

pub mod bf16x2;
pub mod common;
pub mod convert;
pub mod dotprod;
pub mod warp;
