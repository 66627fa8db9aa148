//! Lowering of Rust MIR operations to LLVM operations for NVIDIA GPUs.
//!
//! Every module states what its functions emit as contracts over the sequence
//! of operations held by a [`ops::Builder`].

pub mod addressing;
pub mod aggregate_laws;
pub mod aggregates;
pub mod alignment;
pub mod arithmetic;
pub mod array_extract;
pub mod byte_access;
pub mod call;
pub mod call_intrinsics;
pub mod call_laws;
pub mod carrier_field_addr;
pub mod cast;
pub mod constants;
pub mod correctness;
pub mod device_laws;
pub mod dispatch;
pub mod enum_laws;
pub mod enum_memory;
pub mod enum_round_trips;
pub mod enums;
pub mod global_laws;
pub mod intrinsic_laws;
pub mod intrinsics;
pub mod ints;
pub mod library_names;
pub mod llvm;
pub mod lower;
pub mod math_laws;
pub mod memory;
pub mod memory_laws;
pub mod mir;
pub mod operation_laws;
pub mod ops;
pub mod place_laws;
pub mod refusal_laws;
pub mod rust_intrinsics;
pub mod rust_types;
pub mod semantics;
pub mod slots;
pub mod stack_memory;
pub mod text;
pub mod type_laws;
pub mod type_shape_laws;
pub mod types;
pub mod value_laws;
