//! Integer dot products, as inline assembly.

use crate::llvm::LlvmType;
use crate::lower::{emits, Emitted, LowerError};
use crate::ops::{AsmKind, Builder, OpView, Value};
use vstd::prelude::*;

verus! {

/// Pure assembly with a 32-bit result and the first three operands as inputs.
/// Further operands are not used.
pub open spec fn ternary_asm(operands: Seq<Value>, template: Seq<char>) -> Emitted {
    if operands.len() < 3 {
        Err(LowerError::OperandCount)
    } else {
        Ok(
            seq![
                OpView::inline_asm(
                    AsmKind::Pure,
                    template,
                    "=r,r,r,r"@,
                    LlvmType::spec_int(32),
                    operands.take(3),
                ),
            ],
        )
    }
}

/// Emits pure assembly on three 32-bit inputs.
pub(crate) fn emit_ternary_asm(b: &mut Builder, operands: &Vec<Value>, template: &str) -> (r:
    Result<Value, LowerError>)
    ensures
        emits(old(b)@, final(b)@, r, ternary_asm(operands@, template@)),
{
    if operands.len() < 3 {
        return Err(LowerError::OperandCount);
    }
    let inputs: Vec<Value> = vec![operands[0].copy(), operands[1].copy(), operands[2].copy()];
    proof {
        assert(inputs@ =~= operands@.take(3));
    }
    let r = b.inline_assembly(
        AsmKind::Pure,
        template,
        "=r,r,r,r",
        &LlvmType::int_type(32),
        inputs,
    );
    proof {
        assert(b@ =~= old(b)@ + ternary_asm(operands@, template@).unwrap());
    }
    Ok(r)
}

/// Lowers the signed dot product of four bytes.
pub fn convert_dp4a_s32(b: &mut Builder, operands: &Vec<Value>) -> (r: Result<Value, LowerError>)
    ensures
        emits(
            old(b)@,
            final(b)@,
            r,
            ternary_asm(operands@, "dp4a.s32.s32 $0, $1, $2, $3;"@),
        ),
{
    emit_ternary_asm(b, operands, "dp4a.s32.s32 $0, $1, $2, $3;")
}

/// Lowers the unsigned dot product of four bytes.
pub fn convert_dp4a_u32(b: &mut Builder, operands: &Vec<Value>) -> (r: Result<Value, LowerError>)
    ensures
        emits(
            old(b)@,
            final(b)@,
            r,
            ternary_asm(operands@, "dp4a.u32.u32 $0, $1, $2, $3;"@),
        ),
{
    emit_ternary_asm(b, operands, "dp4a.u32.u32 $0, $1, $2, $3;")
}

/// Lowers the signed dot product of two halves.
pub fn convert_dp2a_s32(b: &mut Builder, operands: &Vec<Value>) -> (r: Result<Value, LowerError>)
    ensures
        emits(
            old(b)@,
            final(b)@,
            r,
            ternary_asm(operands@, "dp2a.lo.s32.s32 $0, $1, $2, $3;"@),
        ),
{
    emit_ternary_asm(b, operands, "dp2a.lo.s32.s32 $0, $1, $2, $3;")
}

/// Lowers the unsigned dot product of two halves.
pub fn convert_dp2a_u32(b: &mut Builder, operands: &Vec<Value>) -> (r: Result<Value, LowerError>)
    ensures
        emits(
            old(b)@,
            final(b)@,
            r,
            ternary_asm(operands@, "dp2a.lo.u32.u32 $0, $1, $2, $3;"@),
        ),
{
    emit_ternary_asm(b, operands, "dp2a.lo.u32.u32 $0, $1, $2, $3;")
}

} // verus!
