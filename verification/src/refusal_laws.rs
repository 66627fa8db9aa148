//! Laws: which operations are refused, and why.

use crate::aggregates::{
    construct_array, construct_struct, construct_tuple, extract_field, insert_field, slice_ops,
};
use crate::arithmetic::{is_float, neg_ops, not_ops, signed_operand, three_way, OrderEnum};
use crate::call::Outcome;
use crate::call_intrinsics::{
    bit_ops, carrying_mul_add, exact_div_ops, float_math_ops, saturating_ops, select_ops,
};
use crate::cast::{cast_ops, MirCastKind, NicheEncoding};
use crate::dispatch::{binary_ops, MirBinary};
use crate::llvm::LlvmType;
use crate::lower::{recorded_pointer, recorded_signedness, Emitted, LowerError, Operand};
use crate::mir::MirType;
use crate::ops::{OpView, Value};
use crate::place_laws::{lemma_mapped_by, mapped_by};
use crate::rust_intrinsics::{
    LoweringOptions, RustBitIntrinsic, RustFloatMathIntrinsic, RustSaturatingIntrinsic,
};
use crate::slots::{StructInfo, StructSlotMap};
use vstd::prelude::*;

verus! {

/// Whether nothing is emitted, for the given reason.
pub open spec fn refuses(emitted: Emitted, reason: LowerError) -> bool {
    emitted == Err::<Seq<OpView>, LowerError>(reason)
}

/// Whether an operand has a recorded sign: an integer or a pointer was recorded.
pub open spec fn has_sign(operand: Operand) -> bool {
    exists|i: int|
        0 <= i < operand.history@.len() && ((#[trigger] operand.history@[i]) is Integer
            || operand.history@[i] is Pointer)
}

/// Whether the result of an operation on integers goes by their sign.
pub open spec fn goes_by_sign(op: MirBinary) -> bool {
    op == MirBinary::Div || op == MirBinary::Rem || op is Compare
}

/// A binary operation takes two operands. One that goes by the sign of integers
/// is refused where the first operand has none, and no other one is; a shift
/// takes integers.
pub proof fn law_binary_refused(n: nat, op: MirBinary, operands: Seq<Operand>)
    requires
        op == MirBinary::Shr ==> operands.len() > 0 && has_sign(operands[0]),
    ensures
        ({
            let made = binary_ops(n, op, operands);
            let shifts = op == MirBinary::Shl || op == MirBinary::Shr;
            &&& operands.len() != 2 ==> refuses(made, LowerError::OperandCount)
            &&& operands.len() == 2 && !shifts && goes_by_sign(op) && !is_float(
                operands[0].value.ty,
            ) ==> if has_sign(operands[0]) {
                made is Ok
            } else {
                refuses(made, LowerError::NotIntegerOrPointer)
            }
            &&& operands.len() == 2 && !shifts && !(goes_by_sign(op) && !is_float(
                operands[0].value.ty,
            )) ==> made is Ok
            &&& operands.len() == 2 && shifts ==> if !(operands[0].value.ty is Integer) {
                refuses(made, LowerError::ShiftValue)
            } else if !(operands[1].value.ty is Integer) {
                refuses(made, LowerError::ShiftAmount)
            } else {
                made is Ok
            }
        }),
{
    if operands.len() > 0 {
        lemma_has_sign(operands[0]);
    }
}

/// An operand has a sign exactly where it counts as signed or as unsigned.
proof fn lemma_has_sign(operand: Operand)
    ensures
        has_sign(operand) <==> signed_operand(operand) is Ok,
        !has_sign(operand) ==> signed_operand(operand) == Err::<
            bool,
            LowerError,
        >(LowerError::NotIntegerOrPointer),
{
    let history = operand.history@;
    lemma_sign_found(history);
    if recorded_signedness(history) is None {
        if recorded_pointer(history) {
            let i = choose|i: int| 0 <= i < history.len() && (#[trigger] history[i]) is Pointer;
            assert(history[i] is Pointer);
        }
    }
}

proof fn lemma_sign_found(history: Seq<MirType>)
    ensures
        recorded_signedness(history) is Some <==> exists|i: int|
            0 <= i < history.len() && (#[trigger] history[i]) is Integer,
    decreases history.len(),
{
    if history.len() > 0 {
        let shorter = history.drop_last();
        lemma_sign_found(shorter);
        if history.last() is Integer {
            assert(history[history.len() - 1] is Integer);
        } else {
            if exists|i: int| 0 <= i < history.len() && (#[trigger] history[i]) is Integer {
                let i = choose|i: int| 0 <= i < history.len() && (#[trigger] history[i]) is Integer;
                assert(shorter[i] is Integer);
            }
            if exists|i: int| 0 <= i < shorter.len() && (#[trigger] shorter[i]) is Integer {
                let i = choose|i: int| 0 <= i < shorter.len() && (#[trigger] shorter[i]) is Integer;
                assert(history[i] is Integer);
            }
        }
    }
}

/// Negation takes floats and integers, and the complement integers.
pub proof fn law_unary_refused(n: nat, operand: Value)
    ensures
        is_float(operand.ty) || operand.ty is Integer ==> neg_ops(n, operand) is Ok,
        !is_float(operand.ty) && !(operand.ty is Integer) ==> refuses(
            neg_ops(n, operand),
            LowerError::NegOperand,
        ),
        if operand.ty is Integer {
            not_ops(n, operand) is Ok
        } else {
            refuses(not_ops(n, operand), LowerError::NotOperand)
        },
{
}

/// A three-way comparison takes two operands that are no floats and have a sign,
/// and gives an enum of three variants with an integer tag.
pub proof fn law_three_way_refused(n: nat, operands: Seq<Operand>, result: OrderEnum)
    ensures
        ({
            let made = three_way(n, operands, result);
            let ordered = result.mir matches MirType::Enum(e) && e.variant_discriminants@.len()
                == 3;
            if operands.len() != 2 {
                refuses(made, LowerError::OperandCount)
            } else if is_float(operands[0].value.ty) {
                refuses(made, LowerError::FloatThreeWay)
            } else if !has_sign(operands[0]) {
                refuses(made, LowerError::NotIntegerOrPointer)
            } else if !ordered {
                refuses(made, LowerError::ThreeWayResult)
            } else if !(result.discriminant is Integer) {
                refuses(made, LowerError::DiscriminantType)
            } else {
                made is Ok
            }
        }),
{
    if operands.len() == 2 {
        lemma_has_sign(operands[0]);
    }
}

/// Every intrinsic has one result, and takes its own number of arguments.
pub proof fn law_intrinsic_refused(
    n: nat,
    args: Seq<Value>,
    operands: Seq<Operand>,
    results: nat,
    ty: LlvmType,
    options: LoweringOptions,
    bits: RustBitIntrinsic,
    saturating: RustSaturatingIntrinsic,
    float: RustFloatMathIntrinsic,
)
    ensures
        results != 1 ==> {
            &&& refuses(bit_ops(n, args, results, ty, bits), LowerError::ResultCount)
            &&& refuses(
                saturating_ops(n, operands, results, ty, saturating),
                LowerError::ResultCount,
            )
            &&& refuses(exact_div_ops(n, operands, results), LowerError::ResultCount)
            &&& refuses(carrying_mul_add(n, operands, results, ty), LowerError::ResultCount)
            &&& refuses(select_ops(args, results), LowerError::ResultCount)
            &&& refuses(
                float_math_ops(n, args, results, ty, options, float),
                LowerError::ResultCount,
            )
        },
        results == 1 ==> {
            &&& args.len() == 0 ==> refuses(
                bit_ops(n, args, results, ty, bits),
                LowerError::OperandCount,
            )
            &&& operands.len() != 2 ==> refuses(
                saturating_ops(n, operands, results, ty, saturating),
                LowerError::OperandCount,
            ) && refuses(exact_div_ops(n, operands, results), LowerError::OperandCount)
            &&& operands.len() != 4 ==> refuses(
                carrying_mul_add(n, operands, results, ty),
                LowerError::OperandCount,
            )
            &&& args.len() != 3 ==> refuses(select_ops(args, results), LowerError::OperandCount)
        },
{
}

/// A cast of numbers is refused where source or target is of another kind, or the
/// sign that decides is unknown.
pub proof fn law_cast_refused(
    n: nat,
    operand: Operand,
    niche: Option<NicheEncoding>,
    mir_result: MirType,
    ty: LlvmType,
)
    ensures
        ({
            let made = |kind: MirCastKind| cast_ops(n, operand, kind, niche, mir_result, ty);
            let from = operand.value.ty;
            let history = operand.history@;
            let sign_known = if history.len() > 0 {
                history.last() is Integer
            } else {
                from is Integer
            };
            &&& !(from is Integer) || !(ty is Integer) ==> refuses(
                made(MirCastKind::IntToInt),
                LowerError::IntCast,
            )
            &&& from is Integer && ty is Integer ==> (made(MirCastKind::IntToInt) is Err <==> (
            ty->Integer_0 > from->Integer_0 && !sign_known))
            &&& !sign_known ==> refuses(made(MirCastKind::IntToFloat), LowerError::IntCast)
            &&& sign_known ==> made(MirCastKind::IntToFloat) is Ok
            &&& made(MirCastKind::FloatToFloat) is Ok <==> is_float(from) && is_float(ty)
            &&& made(MirCastKind::FloatToInt) is Ok <==> is_float(from) && ty is Integer
                && mir_result is Integer
            &&& made(MirCastKind::PointerExposeAddress) is Ok
            &&& made(MirCastKind::PointerWithExposedProvenance) is Ok
        }),
{
}

/// A field is read or replaced by its index: without one nothing is done, and an
/// index beyond the fields of the struct or tuple is refused.
pub proof fn law_field_refused(
    ops: Seq<OpView>,
    aggregate: Operand,
    new_value: Value,
    field: u32,
    maps: Seq<Option<StructSlotMap>>,
    at: int,
)
    requires
        mapped_by(aggregate.history@, at),
        at <= usize::MAX,
        at < maps.len(),
        maps[at] is Some,
        !(aggregate.value.ty is Integer),
    ensures
        ({
            let refused = |made: Outcome, reason: LowerError|
                made.ops == ops && made.result == Err::<Option<Value>, LowerError>(reason);
            let slots = maps[at].unwrap().decl_to_llvm@;
            &&& refused(
                extract_field(ops, aggregate, None, maps),
                LowerError::MissingAttribute,
            )
            &&& refused(
                insert_field(ops, aggregate, new_value, None, maps),
                LowerError::MissingAttribute,
            )
            &&& field >= slots.len() ==> refused(
                extract_field(ops, aggregate, Some(field), maps),
                LowerError::FieldIndex,
            ) && refused(
                insert_field(ops, aggregate, new_value, Some(field), maps),
                LowerError::FieldIndex,
            )
        }),
{
    lemma_mapped_by(aggregate.history@, at);
}

/// A struct or tuple is built from as many operands as it has fields, and a type
/// of another kind is not built at all.
pub proof fn law_construction_refused(
    ops: Seq<OpView>,
    operands: Seq<Value>,
    info: StructInfo,
    data: Value,
    len: Value,
)
    ensures
        ({
            let refused = |made: Outcome, reason: LowerError|
                made.ops == ops && made.result == Err::<Option<Value>, LowerError>(reason);
            &&& operands.len() != info.map.decl_to_llvm@.len() ==> refused(
                construct_struct(ops, operands, Some(info)),
                LowerError::OperandCount,
            ) && refused(construct_tuple(ops, operands, Some(info)), LowerError::OperandCount)
            &&& refused(construct_struct(ops, operands, None), LowerError::WrongType)
            &&& refused(construct_tuple(ops, operands, None), LowerError::WrongType)
            &&& refused(construct_array(ops, operands, None), LowerError::WrongType)
            &&& refuses(slice_ops(ops.len(), data, len, false), LowerError::WrongType)
        }),
{
}

} // verus!
