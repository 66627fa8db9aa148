//! Conversion between number formats, as inline assembly.

use crate::llvm::LlvmType;
use crate::lower::{emits, Emitted, LowerError};
use crate::ops::{AsmKind, Builder, OpView, Value};
use vstd::prelude::*;

verus! {

/// Two floats packed into a pair of half floats. The first operand becomes the
/// low half; further operands are not used.
pub open spec fn cvt_f16x2_ops(operands: Seq<Value>) -> Emitted {
    if operands.len() < 2 {
        Err(LowerError::OperandCount)
    } else {
        Ok(
            seq![
                OpView::inline_asm(
                    AsmKind::Pure,
                    "cvt.rn.f16x2.f32 $0, $2, $1;"@,
                    "=r,f,f"@,
                    LlvmType::spec_int(32),
                    operands.take(2),
                ),
            ],
        )
    }
}

/// Lowers the packing of two floats; the operands are the low and the high
/// value.
pub fn convert_cvt_f16x2_f32(b: &mut Builder, operands: &Vec<Value>) -> (r: Result<
    Value,
    LowerError,
>)
    ensures
        emits(old(b)@, final(b)@, r, cvt_f16x2_ops(operands@)),
{
    if operands.len() < 2 {
        return Err(LowerError::OperandCount);
    }
    let inputs: Vec<Value> = vec![operands[0].copy(), operands[1].copy()];
    proof {
        assert(inputs@ =~= operands@.take(2));
    }
    let r = b.inline_assembly(
        AsmKind::Pure,
        "cvt.rn.f16x2.f32 $0, $2, $1;",
        "=r,f,f",
        &LlvmType::int_type(32),
        inputs,
    );
    proof {
        assert(b@ =~= old(b)@ + cvt_f16x2_ops(operands@).unwrap());
    }
    Ok(r)
}

} // verus!
