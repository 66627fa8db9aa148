//! Packed arithmetic on pairs of 16-bit brain floats.

use crate::intrinsics::dotprod::{emit_ternary_asm, ternary_asm};
use crate::lower::{emits, LowerError};
use crate::ops::{Builder, Value};
use vstd::prelude::*;

verus! {

/// Lowers a packed fused multiply-add.
pub fn convert_fma_bf16x2(b: &mut Builder, operands: &Vec<Value>) -> (r: Result<Value, LowerError>)
    ensures
        emits(
            old(b)@,
            final(b)@,
            r,
            ternary_asm(operands@, "fma.rn.bf16x2 $0, $1, $2, $3;"@),
        ),
{
    emit_ternary_asm(b, operands, "fma.rn.bf16x2 $0, $1, $2, $3;")
}

} // verus!
