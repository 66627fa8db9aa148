//! Lowering of warp-level operations: shuffle, vote, match and reduction.

use crate::intrinsics::common::{call_intrinsic, create_i32_const, intrinsic_call};
use crate::llvm::LlvmType;
use crate::lower::{emits, Emitted, LowerError};
use crate::ops::{one_value, Builder, OpView, Value};
use crate::text;
use vstd::prelude::*;

verus! {

/// A shuffle: the clamp constant, then the call with mask, value, lane and
/// clamp.
pub open spec fn shuffle_ops(
    n: nat,
    operands: Seq<Value>,
    name: Seq<char>,
    clamp: i32,
    ty: LlvmType,
) -> Emitted {
    if operands.len() != 3 {
        Err(LowerError::OperandCount)
    } else {
        let i32_ty = LlvmType::spec_int(32);
        Ok(
            seq![OpView::int_of(clamp as int, 32)] + intrinsic_call(
                name,
                seq![i32_ty, ty, i32_ty, i32_ty],
                ty,
                operands.push(Value::at(n, i32_ty)),
            ),
        )
    }
}

fn shuffle(
    b: &mut Builder,
    operands: &Vec<Value>,
    name: &str,
    clamp: i32,
    ty: &LlvmType,
) -> (r: Result<Value, LowerError>)
    requires
        text::is_identifier(name@),
    ensures
        emits(
            old(b)@,
            final(b)@,
            r,
            shuffle_ops(old(b)@.len(), operands@, name@, clamp, *ty),
        ),
{
    if operands.len() != 3 {
        return Err(LowerError::OperandCount);
    }
    let clamp_value = create_i32_const(b, clamp);
    let signature: Vec<LlvmType> = vec![
        LlvmType::int_type(32),
        ty.copy(),
        LlvmType::int_type(32),
        LlvmType::int_type(32),
    ];
    let args: Vec<Value> = vec![
        operands[0].copy(),
        operands[1].copy(),
        operands[2].copy(),
        clamp_value,
    ];
    proof {
        assert(args@ =~= operands@.push(clamp_value));
    }
    let r = call_intrinsic(b, name, signature, ty, args);
    proof {
        let i32_ty = LlvmType::spec_int(32);
        assert(signature@ =~= seq![i32_ty, *ty, i32_ty, i32_ty]);
        assert(b@ =~= old(b)@ + (seq![OpView::int_of(clamp as int, 32)] + intrinsic_call(
            name@,
            seq![i32_ty, *ty, i32_ty, i32_ty],
            *ty,
            operands@.push(Value::at(old(b)@.len(), i32_ty)),
        )));
    }
    Ok(r)
}

/// Lowers a 32-bit integer shuffle; the operands are mask, value and lane.
pub fn convert_shuffle_i32(b: &mut Builder, operands: &Vec<Value>, name: &str, clamp: i32) -> (r:
    Result<Value, LowerError>)
    requires
        text::is_identifier(name@),
    ensures
        emits(
            old(b)@,
            final(b)@,
            r,
            shuffle_ops(old(b)@.len(), operands@, name@, clamp, LlvmType::spec_int(32)),
        ),
{
    shuffle(b, operands, name, clamp, &LlvmType::int_type(32))
}

/// Lowers a 32-bit float shuffle; the operands are mask, value and lane.
pub fn convert_shuffle_f32(b: &mut Builder, operands: &Vec<Value>, name: &str, clamp: i32) -> (r:
    Result<Value, LowerError>)
    requires
        text::is_identifier(name@),
    ensures
        emits(
            old(b)@,
            final(b)@,
            r,
            shuffle_ops(old(b)@.len(), operands@, name@, clamp, LlvmType::Float),
        ),
{
    shuffle(b, operands, name, clamp, &LlvmType::Float)
}

/// A call with two operands, the second of type `second`.
pub open spec fn pair_ops(
    operands: Seq<Value>,
    name: Seq<char>,
    second: LlvmType,
    ty: LlvmType,
) -> Emitted {
    if operands.len() != 2 {
        Err(LowerError::OperandCount)
    } else {
        Ok(intrinsic_call(name, seq![LlvmType::spec_int(32), second], ty, operands))
    }
}

fn pair(
    b: &mut Builder,
    operands: &Vec<Value>,
    name: &str,
    second: &LlvmType,
    ty: &LlvmType,
) -> (r: Result<Value, LowerError>)
    requires
        text::is_identifier(name@),
    ensures
        emits(old(b)@, final(b)@, r, pair_ops(operands@, name@, *second, *ty)),
{
    if operands.len() != 2 {
        return Err(LowerError::OperandCount);
    }
    let signature: Vec<LlvmType> = vec![LlvmType::int_type(32), second.copy()];
    let args: Vec<Value> = vec![operands[0].copy(), operands[1].copy()];
    proof {
        assert(signature@ =~= seq![LlvmType::spec_int(32), *second]);
        assert(args@ =~= operands@);
    }
    Ok(call_intrinsic(b, name, signature, ty, args))
}

/// The result of a vote: the bit mask of a ballot, else one bit.
pub open spec fn vote_type(name: Seq<char>) -> LlvmType {
    if text::spec_contains(name, "ballot"@) {
        LlvmType::spec_int(32)
    } else {
        LlvmType::spec_int(1)
    }
}

/// Lowers a vote; the operands are mask and predicate.
pub fn convert_vote(b: &mut Builder, operands: &Vec<Value>, name: &str) -> (r: Result<
    Value,
    LowerError,
>)
    requires
        text::is_identifier(name@),
    ensures
        emits(
            old(b)@,
            final(b)@,
            r,
            pair_ops(operands@, name@, LlvmType::spec_int(1), vote_type(name@)),
        ),
{
    let ty = if text::contains(name, "ballot") {
        LlvmType::int_type(32)
    } else {
        LlvmType::int_type(1)
    };
    pair(b, operands, name, &LlvmType::int_type(1), &ty)
}

/// Lowers a match of any lanes; the operands are mask and value.
pub fn convert_match_any(
    b: &mut Builder,
    operands: &Vec<Value>,
    name: &str,
    value_ty: &LlvmType,
) -> (r: Result<Value, LowerError>)
    requires
        text::is_identifier(name@),
    ensures
        emits(
            old(b)@,
            final(b)@,
            r,
            pair_ops(operands@, name@, *value_ty, LlvmType::spec_int(32)),
        ),
{
    pair(b, operands, name, value_ty, &LlvmType::int_type(32))
}

/// A reduction: the operands are mask and value, the call takes value and mask.
pub open spec fn redux_ops(operands: Seq<Value>, name: Seq<char>) -> Emitted {
    if operands.len() != 2 {
        Err(LowerError::OperandCount)
    } else {
        let i32_ty = LlvmType::spec_int(32);
        Ok(intrinsic_call(name, seq![i32_ty, i32_ty], i32_ty, seq![operands[1], operands[0]]))
    }
}

/// Lowers a reduction over a warp.
pub fn convert_redux(b: &mut Builder, operands: &Vec<Value>, name: &str) -> (r: Result<
    Value,
    LowerError,
>)
    requires
        text::is_identifier(name@),
    ensures
        emits(old(b)@, final(b)@, r, redux_ops(operands@, name@)),
{
    if operands.len() != 2 {
        return Err(LowerError::OperandCount);
    }
    let flipped: Vec<Value> = vec![operands[1].copy(), operands[0].copy()];
    proof {
        assert(flipped@ =~= seq![operands@[1], operands@[0]]);
    }
    pair(b, &flipped, name, &LlvmType::int_type(32), &LlvmType::int_type(32))
}

/// Lowers a read of the mask of active lanes.
pub fn convert_active_mask(b: &mut Builder) -> (r: Value)
    ensures
        final(b)@ == old(b)@ + intrinsic_call(
            "llvm_nvvm_activemask"@,
            Seq::empty(),
            LlvmType::spec_int(32),
            Seq::empty(),
        ),
        r == Value::at(old(b)@.len() + 1, LlvmType::spec_int(32)),
{
    proof {
        reveal_strlit("llvm_nvvm_activemask");
    }
    call_intrinsic(b, "llvm_nvvm_activemask", Vec::new(), &LlvmType::int_type(32), Vec::new())
}

/// A barrier over the lanes of a mask. It has no result.
pub open spec fn bar_warp_sync_ops(operands: Seq<Value>) -> Emitted {
    if operands.len() != 1 {
        Err(LowerError::OperandCount)
    } else {
        Ok(
            intrinsic_call(
                "llvm_nvvm_bar_warp_sync"@,
                seq![LlvmType::spec_int(32)],
                LlvmType::Void,
                operands,
            ),
        )
    }
}

/// Lowers a barrier over the lanes of a mask. The operation has no result and is
/// erased.
pub fn convert_bar_warp_sync(b: &mut Builder, operands: &Vec<Value>) -> (r: Result<(), LowerError>)
    ensures
        match bar_warp_sync_ops(operands@) {
            Ok(ops) => final(b)@ == old(b)@ + ops && r is Ok,
            Err(e) => final(b)@ == old(b)@ && r == Err::<(), LowerError>(e),
        },
{
    if operands.len() != 1 {
        return Err(LowerError::OperandCount);
    }
    proof {
        reveal_strlit("llvm_nvvm_bar_warp_sync");
    }
    let args = one_value(&operands[0]);
    proof {
        assert(args@ =~= operands@);
    }
    call_intrinsic(
        b,
        "llvm_nvvm_bar_warp_sync",
        crate::cast::one_type(&LlvmType::int_type(32)),
        &LlvmType::Void,
        args,
    );
    Ok(())
}

/// A match of all lanes: the call returns mask and predicate, of which the mask
/// is taken.
pub open spec fn match_all_ops(
    n: nat,
    operands: Seq<Value>,
    name: Seq<char>,
    value_ty: LlvmType,
) -> Emitted {
    if operands.len() != 2 {
        Err(LowerError::OperandCount)
    } else {
        let i32_ty = LlvmType::spec_int(32);
        let pair_ty = LlvmType::spec_pair(i32_ty, LlvmType::spec_int(1));
        Ok(
            intrinsic_call(name, seq![i32_ty, value_ty], pair_ty, operands) + seq![
                OpView::extract(Value::at(n + 1, pair_ty), 0, i32_ty),
            ],
        )
    }
}

/// Lowers a match of all lanes; the operands are mask and value.
pub fn convert_match_all(
    b: &mut Builder,
    operands: &Vec<Value>,
    name: &str,
    value_ty: &LlvmType,
) -> (r: Result<Value, LowerError>)
    requires
        text::is_identifier(name@),
    ensures
        emits(
            old(b)@,
            final(b)@,
            r,
            match_all_ops(old(b)@.len(), operands@, name@, *value_ty),
        ),
{
    let pair_ty = LlvmType::pair(LlvmType::int_type(32), LlvmType::int_type(1));
    let both = match pair(b, operands, name, value_ty, &pair_ty) {
        Ok(v) => v,
        Err(e) => {
            return Err(e);
        },
    };
    let r = b.extract(&both, 0, LlvmType::int_type(32));
    proof {
        let i32_ty = LlvmType::spec_int(32);
        assert(b@ =~= old(b)@ + (intrinsic_call(
            name@,
            seq![i32_ty, *value_ty],
            pair_ty,
            operands@,
        ) + seq![OpView::extract(Value::at(old(b)@.len() + 1, pair_ty), 0, i32_ty)]));
    }
    Ok(r)
}

} // verus!
