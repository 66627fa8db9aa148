//! Laws: what arrays, slices and fat pointers are built of, and what casts keep.

use crate::aggregates::{construct_array, element_inserts, slice_ops};
use crate::array_extract::ArrayInfo;
use crate::cast::{abi_align, cast_ops, MirCastKind, NicheEncoding};
use crate::constants::{builtin_ops, float_ops, integer_ops, ConstantValue, TypedInt};
use crate::correctness::{counted, law_int_cast};
use crate::ints::lemma_value_of_int;
use crate::llvm::{LlvmType, Signedness};
use crate::lower::Operand;
use crate::mir::MirType;
use crate::operation_laws::gives;
use crate::ops::{CastKind, OpCode, OpView, Value};
use crate::semantics::{
    available, datum, holds_int, is_placed, lemma_accessed, lemma_datum_prefix, lemma_emitted,
    lemma_spilled, lemma_undefined, member_count, member_type, stack_at, undefined, wrap, Datum,
};
use crate::stack_memory::{at_offset, byte, laid_out, read, size_of, Byte};
use crate::text;
use vstd::arithmetic::div_mod::lemma_small_mod;
use vstd::arithmetic::power2::{lemma2_to64, lemma_pow2_pos, pow2};
use vstd::prelude::*;

verus! {

/// What an array holds after the first `n` insertions.
proof fn lemma_inserted(
    ops: Seq<OpView>,
    env: spec_fn(u64) -> Datum,
    value: Value,
    operands: Seq<Value>,
    n: nat,
    empty: Seq<Datum>,
)
    requires
        n <= operands.len() <= u32::MAX,
        n <= empty.len(),
        available(value, ops.len()),
        datum(ops, env, value) == Datum::Aggregate(empty),
        forall|i: int| 0 <= i < operands.len() ==> available(#[trigger] operands[i], ops.len()),
        ops.len() + n <= usize::MAX,
    ensures
        ({
            let (all, whole) = element_inserts(ops, value, operands, n);
            &&& ops.is_prefix_of(all)
            &&& all.len() == ops.len() + n
            &&& available(whole, all.len())
            &&& whole.ty == value.ty
            &&& datum(all, env, whole) == Datum::Aggregate(
                Seq::new(
                    empty.len(),
                    |i: int|
                        if i < n {
                            datum(ops, env, operands[i])
                        } else {
                            empty[i]
                        },
                ),
            )
        }),
    decreases n,
{
    let (all, whole) = element_inserts(ops, value, operands, n);
    let parts = |m: nat|
        Seq::new(
            empty.len(),
            |i: int|
                if i < m {
                    datum(ops, env, operands[i])
                } else {
                    empty[i]
                },
        );
    if n == 0 {
        assert(parts(0) =~= empty);
    } else {
        let m = (n - 1) as nat;
        lemma_inserted(ops, env, value, operands, m, empty);
        let (before, current) = element_inserts(ops, value, operands, m);
        let emitted = seq![OpView::insert(current, operands[m as int], m as u32)];
        assert(all =~= before + emitted);
        assert(available(operands[m as int], ops.len()));
        let added = before.skip(ops.len() as int);
        assert(before =~= ops + added);
        lemma_datum_prefix(ops, added, env, operands[m as int]);
        lemma_datum_prefix(before, emitted, env, operands[m as int]);
        lemma_datum_prefix(before, emitted, env, current);
        lemma_emitted(before, emitted, env, 0);
        assert(parts(m).update(m as int, datum(ops, env, operands[m as int])) =~= parts(n));
        assert(ops =~= all.take(ops.len() as int));
    }
}

/// An array that was built holds its elements: member `i` is operand `i`. What
/// no operand was given for is undefined.
pub proof fn law_constructed_array(
    ops: Seq<OpView>,
    env: spec_fn(u64) -> Datum,
    operands: Seq<Value>,
    info: ArrayInfo,
)
    requires
        operands.len() <= u32::MAX,
        operands.len() <= info.size,
        forall|i: int| 0 <= i < operands.len() ==> available(#[trigger] operands[i], ops.len()),
        ops.len() + operands.len() + 1 <= usize::MAX,
    ensures
        ({
            let made = construct_array(ops, operands, Some(info));
            let ty = LlvmType::Array(Box::new(info.element), info.size);
            &&& ops.is_prefix_of(made.ops)
            &&& made.result matches Ok(Some(value))
            &&& value.ty == ty
            &&& datum(made.ops, env, value) matches Datum::Aggregate(parts)
            &&& parts.len() == info.size
            &&& forall|i: int|
                0 <= i < operands.len() ==> #[trigger] parts[i] == datum(ops, env, operands[i])
            &&& forall|i: int|
                operands.len() <= i < info.size ==> #[trigger] parts[i] == undefined(info.element)
        }),
{
    let ty = LlvmType::Array(Box::new(info.element), info.size);
    let emitted = seq![OpView::undef(ty)];
    let begun = ops.push(OpView::undef(ty));
    assert(begun =~= ops + emitted);
    lemma_undefined(ty);
    lemma_emitted(ops, emitted, env, 0);
    let empty = undefined(ty)->Aggregate_0;
    assert forall|i: int| 0 <= i < operands.len() implies available(
        #[trigger] operands[i],
        begun.len(),
    ) && datum(begun, env, operands[i]) == datum(ops, env, operands[i]) by {
        lemma_datum_prefix(ops, emitted, env, operands[i]);
    }
    let start = Value::at(ops.len(), ty);
    lemma_inserted(begun, env, start, operands, operands.len(), empty);
    let (built, value) = element_inserts(begun, start, operands, operands.len());
    assert(ops =~= built.take(ops.len() as int));
    let parts = datum(built, env, value)->Aggregate_0;
    assert forall|i: int| operands.len() <= i < info.size implies #[trigger] parts[i] == undefined(
        info.element,
    ) by {
        assert(empty[i] == undefined(member_type(ty, i)));
    }
}

/// A slice holds its data pointer and its length, in this order.
pub proof fn law_constructed_slice(
    ops: Seq<OpView>,
    env: spec_fn(u64) -> Datum,
    data: Value,
    len: Value,
)
    requires
        available(data, ops.len()),
        available(len, ops.len()),
        ops.len() + 3 <= usize::MAX,
    ensures
        gives(
            ops,
            env,
            slice_ops(ops.len(), data, len, true),
            LlvmType::spec_slice(),
            Datum::Aggregate(seq![datum(ops, env, data), datum(ops, env, len)]),
        ),
{
    let ty = LlvmType::spec_slice();
    let emitted = slice_ops(ops.len(), data, len, true).unwrap();
    lemma_slice_members();
    lemma_undefined(ty);
    lemma_datum_prefix(ops, emitted, env, data);
    lemma_datum_prefix(ops, emitted, env, len);
    lemma_emitted(ops, emitted, env, 0);
    lemma_emitted(ops, emitted, env, 1);
    lemma_emitted(ops, emitted, env, 2);
    let empty = undefined(ty)->Aggregate_0;
    assert(empty.update(0, datum(ops, env, data)).update(1, datum(ops, env, len)) =~= seq![
        datum(ops, env, data),
        datum(ops, env, len),
    ]);
}

/// A slice has two members: a generic pointer and a 64-bit integer.
proof fn lemma_slice_members()
    ensures
        member_count(LlvmType::spec_slice()) == Some(2nat),
        member_type(LlvmType::spec_slice(), 0) == LlvmType::Pointer(0),
        member_type(LlvmType::spec_slice(), 1) == LlvmType::spec_int(64),
{
    reveal_with_fuel(crate::llvm::FieldTypes::types, 3);
}

/// Whether a pointer leads to an array of `n` elements, or to a struct whose
/// last field in memory is one.
pub open spec fn points_to_array(ty: MirType, n: u64) -> bool {
    ty matches MirType::Pointer(pointee, _, _) && match *pointee {
        MirType::Array(_, len) => len == n,
        MirType::Struct(_, _, types, layout) => {
            let last: int = if layout.mem_to_decl@.len() > 0 {
                layout.mem_to_decl@.last() as int
            } else {
                types@.len() - 1
            };
            0 <= last < types@.len() && (types@[last] matches MirType::Array(_, len) && len == n)
        },
        _ => false,
    }
}

/// Unsizing a pointer to an array of `n` elements gives a fat pointer: the data
/// pointer is the pointer, and the length is `n`.
pub proof fn law_unsized(
    ops: Seq<OpView>,
    env: spec_fn(u64) -> Datum,
    operand: Operand,
    niche: Option<NicheEncoding>,
    mir_result: MirType,
    ty: LlvmType,
    n: u64,
    members: nat,
)
    requires
        operand.history@.len() > 0,
        points_to_array(operand.history@.last(), n),
        ty.spec_is_struct(),
        member_count(ty) == Some(members),
        members >= 2,
        available(operand.value, ops.len()),
        ops.len() + 4 <= usize::MAX,
    ensures
        exists|parts: Seq<Datum>|
            {
                &&& #[trigger] gives(
                    ops,
                    env,
                    cast_ops(
                        ops.len(),
                        operand,
                        MirCastKind::PointerCoercionUnsize,
                        niche,
                        mir_result,
                        ty,
                    ),
                    ty,
                    Datum::Aggregate(parts),
                )
                &&& parts.len() == members
                &&& parts[0] == datum(ops, env, operand.value)
                &&& parts[1] == Datum::Int(64, n as int)
            },
{
    let made = cast_ops(
        ops.len(),
        operand,
        MirCastKind::PointerCoercionUnsize,
        niche,
        mir_result,
        ty,
    );
    let emitted = made.unwrap();
    lemma_undefined(ty);
    lemma_datum_prefix(ops, emitted, env, operand.value);
    lemma_value_of_int(n as int, 64);
    lemma2_to64();
    lemma_pow2_64();
    lemma_small_mod(n as nat, pow2(64));
    lemma_emitted(ops, emitted, env, 0);
    lemma_emitted(ops, emitted, env, 1);
    lemma_emitted(ops, emitted, env, 2);
    lemma_emitted(ops, emitted, env, 3);
    let parts = undefined(ty)->Aggregate_0.update(0, datum(ops, env, operand.value)).update(
        1,
        Datum::Int(64, n as int),
    );
    assert(gives(ops, env, made, ty, Datum::Aggregate(parts)));
}

proof fn lemma_pow2_64()
    ensures
        pow2(64) == 0x1_0000_0000_0000_0000,
{
    lemma2_to64();
}

/// One cast of an available value.
proof fn lemma_cast(
    ops: Seq<OpView>,
    env: spec_fn(u64) -> Datum,
    kind: CastKind,
    value: Value,
    ty: LlvmType,
)
    requires
        available(value, ops.len()),
        ops.len() < usize::MAX,
    ensures
        gives(
            ops,
            env,
            Ok(seq![OpView::cast(kind, value, ty)]),
            ty,
            crate::semantics::cast_result(kind, ty, datum(ops, env, value)),
        ),
{
    let emitted = seq![OpView::cast(kind, value, ty)];
    lemma_datum_prefix(ops, emitted, env, value);
    lemma_emitted(ops, emitted, env, 0);
}

/// Whether the source of a cast counts as signed, or as unsigned: by its last
/// recorded type, or by its own where none was recorded.
pub open spec fn cast_from(operand: Operand, is_signed: bool) -> bool {
    if operand.history@.len() > 0 {
        operand.history@.last() matches MirType::Integer(_, s) && (is_signed <==> s
            == Signedness::Signed)
    } else {
        operand.value.ty matches LlvmType::Integer(_, s) && (is_signed <==> s
            == Signedness::Signed)
    }
}

/// A cast between integers keeps the number that the source stands for, reduced
/// to the width of the target.
pub proof fn law_cast_integer(
    ops: Seq<OpView>,
    env: spec_fn(u64) -> Datum,
    operand: Operand,
    niche: Option<NicheEncoding>,
    mir_result: MirType,
    ty: LlvmType,
    from: u32,
    to: u32,
    number: int,
    is_signed: bool,
)
    requires
        operand.value.ty.spec_int_width() == Some(from),
        ty.spec_int_width() == Some(to),
        cast_from(operand, is_signed),
        holds_int(ops, env, operand.value, from as nat, number),
        ops.len() < usize::MAX,
    ensures
        gives(
            ops,
            env,
            cast_ops(ops.len(), operand, MirCastKind::IntToInt, niche, mir_result, ty),
            ty,
            Datum::Int(to as nat, wrap(counted(number, from as nat, is_signed), to as nat)),
        ),
{
    let made = cast_ops(ops.len(), operand, MirCastKind::IntToInt, niche, mir_result, ty);
    let emitted = made.unwrap();
    law_int_cast(ops, env, operand, ty, from, to, number);
    assert(ops.push(emitted[0]) =~= ops + emitted);
    if to <= from && is_signed {
        lemma_signed_wrap(number, from as nat, to as nat);
    }
}

/// Reduction to fewer bits does not see the sign.
proof fn lemma_signed_wrap(number: int, from: nat, to: nat)
    requires
        to <= from,
    ensures
        wrap(crate::semantics::signed(number, from), to) == wrap(number, to),
{
    let m = pow2(to) as int;
    let k = pow2((from - to) as nat) as int;
    lemma_pow2_pos(to);
    vstd::arithmetic::power2::lemma_pow2_adds(to, (from - to) as nat);
    assert(number - m * k == (-k) * m + number) by (nonlinear_arith);
    vstd::arithmetic::div_mod::lemma_mod_multiples_vanish(-k, number, m);
    assert((-k) * m == m * (-k)) by (nonlinear_arith);
}

/// A cast from an integer to a float gives the number nearest to the number that
/// the source stands for.
pub proof fn law_cast_to_float(
    ops: Seq<OpView>,
    env: spec_fn(u64) -> Datum,
    operand: Operand,
    niche: Option<NicheEncoding>,
    mir_result: MirType,
    ty: LlvmType,
    width: nat,
    number: int,
    is_signed: bool,
)
    requires
        cast_from(operand, is_signed),
        holds_int(ops, env, operand.value, width, number),
        ops.len() < usize::MAX,
    ensures
        gives(
            ops,
            env,
            cast_ops(ops.len(), operand, MirCastKind::IntToFloat, niche, mir_result, ty),
            ty,
            Datum::Nearest(counted(number, width, is_signed), ty),
        ),
{
    lemma_cast(ops, env, CastKind::SIToFP, operand.value, ty);
    lemma_cast(ops, env, CastKind::UIToFP, operand.value, ty);
}

/// A cast between floats extends where the target is wider, rounds where it is
/// narrower, and else keeps the value.
pub proof fn law_cast_float(
    ops: Seq<OpView>,
    env: spec_fn(u64) -> Datum,
    operand: Operand,
    niche: Option<NicheEncoding>,
    mir_result: MirType,
    ty: LlvmType,
    from: u32,
    to: u32,
)
    requires
        float_bits(operand.value.ty) == Some(from),
        float_bits(ty) == Some(to),
        available(operand.value, ops.len()),
        is_placed(datum(ops, env, operand.value)),
        ops.len() < usize::MAX,
    ensures
        ({
            let held = datum(ops, env, operand.value);
            gives(
                ops,
                env,
                cast_ops(ops.len(), operand, MirCastKind::FloatToFloat, niche, mir_result, ty),
                ty,
                if to > from {
                    Datum::Converted(CastKind::FPExt, Box::new(held), ty)
                } else if to < from {
                    Datum::Converted(CastKind::FPTrunc, Box::new(held), ty)
                } else {
                    held
                },
            )
        }),
{
    lemma_cast(ops, env, CastKind::FPExt, operand.value, ty);
    lemma_cast(ops, env, CastKind::FPTrunc, operand.value, ty);
    lemma_cast(ops, env, CastKind::Bitcast, operand.value, ty);
}

/// How many bits a float takes.
pub open spec fn float_bits(ty: LlvmType) -> Option<u32> {
    match ty {
        LlvmType::Half => Some(16),
        LlvmType::Float => Some(32),
        LlvmType::Double => Some(64),
        _ => None,
    }
}

/// A cast from a float to an integer declares and calls the saturating
/// conversion of LLVM for the signedness and width of the target and the width
/// of the source, on the source alone.
pub proof fn law_cast_from_float(
    ops: Seq<OpView>,
    operand: Operand,
    niche: Option<NicheEncoding>,
    mir_width: u32,
    signedness: Signedness,
    ty: LlvmType,
    from: u32,
    to: u32,
)
    requires
        float_bits(operand.value.ty) == Some(from),
        ty.spec_int_width() == Some(to),
    ensures
        ({
            let made = cast_ops(
                ops.len(),
                operand,
                MirCastKind::FloatToInt,
                niche,
                MirType::Integer(mir_width, signedness),
                ty,
            );
            let call = made.unwrap().last();
            let stem = if signedness == Signedness::Signed {
                "llvm_fptosi_sat_i"@
            } else {
                "llvm_fptoui_sat_i"@
            };
            let source = match operand.value.ty {
                LlvmType::Half => "_f16"@,
                LlvmType::Float => "_f32"@,
                _ => "_f64"@,
            };
            &&& made is Ok
            &&& made.unwrap().len() == 2
            &&& call.code == OpCode::Call
            &&& call.symbol == stem + text::decimal(to as nat) + source
            &&& call.operands == seq![operand.value]
            &&& call.signature == seq![operand.value.ty]
            &&& call.ty == ty
            &&& made.unwrap()[0] == OpView::declare(call.symbol, call.signature, ty)
        }),
{
}

/// An address that is exposed as an integer, or made from one, is the same
/// number.
pub proof fn law_cast_address(
    ops: Seq<OpView>,
    env: spec_fn(u64) -> Datum,
    operand: Operand,
    niche: Option<NicheEncoding>,
    mir_result: MirType,
    ty: LlvmType,
    kind: MirCastKind,
)
    requires
        kind == MirCastKind::PointerExposeAddress || kind
            == MirCastKind::PointerWithExposedProvenance || kind == MirCastKind::PtrToPtr || kind
            == MirCastKind::Transmute,
        available(operand.value, ops.len()),
        ops.len() < usize::MAX,
    ensures
        ({
            let made = cast_ops(ops.len(), operand, kind, niche, mir_result, ty);
            let held = datum(ops, env, operand.value);
            let from = operand.value.ty;
            &&& from is Pointer && held is Pointer && kind
                != MirCastKind::PointerWithExposedProvenance ==> (ty matches LlvmType::Integer(
                w,
                _,
            ) ==> gives(
                ops,
                env,
                made,
                ty,
                Datum::Int(w as nat, wrap(held->Pointer_0, w as nat)),
            ))
            &&& from is Integer && held is Int && ty is Pointer && kind
                != MirCastKind::PointerExposeAddress ==> gives(
                ops,
                env,
                made,
                ty,
                Datum::Pointer(held->Int_1),
            )
        }),
{
    lemma_cast(ops, env, CastKind::PtrToInt, operand.value, ty);
    lemma_cast(ops, env, CastKind::IntToPtr, operand.value, ty);
}

/// Whether a kind of cast reinterprets pointers.
pub open spec fn reinterprets(kind: MirCastKind) -> bool {
    match kind {
        MirCastKind::IntToInt
        | MirCastKind::IntToFloat
        | MirCastKind::FloatToInt
        | MirCastKind::FloatToFloat
        | MirCastKind::PointerCoercionUnsize
        | MirCastKind::PointerExposeAddress
        | MirCastKind::PointerWithExposedProvenance => false,
        _ => true,
    }
}

/// Between a fat pointer and a thin one, a cast keeps the data pointer; between
/// thin pointers it keeps the address, or brings it to the address space of the
/// target.
#[verifier::rlimit(40)]
pub proof fn law_cast_pointer(
    ops: Seq<OpView>,
    env: spec_fn(u64) -> Datum,
    operand: Operand,
    mir_result: MirType,
    ty: LlvmType,
    kind: MirCastKind,
)
    requires
        reinterprets(kind),
        available(operand.value, ops.len()),
        ops.len() + 2 <= usize::MAX,
    ensures
        ({
            let made = cast_ops(ops.len(), operand, kind, None, mir_result, ty);
            let held = datum(ops, env, operand.value);
            let from = operand.value.ty;
            &&& from is Pointer && ty == from && held is Pointer ==> gives(
                ops,
                env,
                made,
                ty,
                held,
            )
            &&& from is Pointer && ty is Pointer && ty != from ==> gives(
                ops,
                env,
                made,
                ty,
                Datum::Converted(CastKind::AddrSpaceCast, Box::new(held), ty),
            )
            &&& ty is Pointer && from.spec_is_struct() && from.spec_member(0) is Some
                && held is Aggregate && held->Aggregate_0.len() > 0 ==> gives(
                ops,
                env,
                made,
                from.spec_member(0).unwrap(),
                held->Aggregate_0[0],
            )
            &&& from is Pointer && ty.spec_is_struct() && member_count(ty) is Some
                && member_count(ty).unwrap() > 0 ==> gives(
                ops,
                env,
                made,
                ty,
                Datum::Aggregate(undefined(ty)->Aggregate_0.update(0, held)),
            )
        }),
{
    let from = operand.value.ty;
    let held = datum(ops, env, operand.value);
    lemma_cast(ops, env, CastKind::Bitcast, operand.value, ty);
    lemma_cast(ops, env, CastKind::AddrSpaceCast, operand.value, ty);
    let made = cast_ops(ops.len(), operand, kind, None, mir_result, ty);
    if ty is Pointer && from.spec_is_struct() && from.spec_member(0) is Some {
        let emitted = made.unwrap();
        lemma_datum_prefix(ops, emitted, env, operand.value);
        lemma_emitted(ops, emitted, env, 0);
    }
    if from is Pointer && ty.spec_is_struct() && member_count(ty) is Some {
        let emitted = made.unwrap();
        lemma_undefined(ty);
        lemma_datum_prefix(ops, emitted, env, operand.value);
        lemma_emitted(ops, emitted, env, 0);
        lemma_emitted(ops, emitted, env, 1);
    }
}

/// Whether `bytes` begins with the bytes of a value of type `ty`.
pub open spec fn begins_with(bytes: spec_fn(int) -> Byte, held: Datum, ty: LlvmType) -> bool {
    forall|k: int|
        0 <= k < size_of(ty) ==> #[trigger] at_offset(bytes, 0, k) == byte(held, ty, k)
}

/// A value that is reinterpreted as another type through memory, from struct to
/// struct, from struct to integer, or to or from an array, keeps its bytes: the
/// result is read from them.
#[verifier::rlimit(40)]
pub proof fn law_cast_bytes(
    ops: Seq<OpView>,
    env: spec_fn(u64) -> Datum,
    operand: Operand,
    mir_result: MirType,
    ty: LlvmType,
    kind: MirCastKind,
)
    requires
        reinterprets(kind),
        available(operand.value, ops.len()),
        laid_out(operand.value.ty),
        laid_out(ty),
        operand.value.ty.spec_is_struct() && ty.spec_is_struct() || {
            &&& operand.value.ty is Array && !ty.spec_is_struct() || ty is Array
                && !operand.value.ty.spec_is_struct() || operand.value.ty.spec_is_struct()
                && ty is Integer
            &&& cast_ops(ops.len(), operand, kind, None, mir_result, ty) is Ok
        },
        ops.len() + 4 <= usize::MAX,
    ensures
        exists|bytes: spec_fn(int) -> Byte|
            {
                &&& #[trigger] begins_with(
                    bytes,
                    datum(ops, env, operand.value),
                    operand.value.ty,
                )
                &&& gives(
                    ops,
                    env,
                    cast_ops(ops.len(), operand, kind, None, mir_result, ty),
                    ty,
                    read(bytes, 0, ty),
                )
            },
{
    let made = cast_ops(ops.len(), operand, kind, None, mir_result, ty);
    let emitted = made.unwrap();
    lemma_spilled(ops, emitted, env, operand.value);
    lemma_accessed(ops, emitted, env, 3);
    let all = ops + emitted;
    let slot = ops.len() + 1;
    let bytes = stack_at(all, env, ops.len() + 3)(slot);
    assert(begins_with(bytes, datum(ops, env, operand.value), operand.value.ty));
    assert(emitted[3].operands[0] == Value::at(slot, LlvmType::Pointer(0)));
    assert(gives(ops, env, made, ty, read(bytes, 0, ty)));
}

/// Memory that an array is reinterpreted through is aligned for both types, and
/// no more than one of them asks for.
pub proof fn law_cast_alignment(
    n: nat,
    operand: Operand,
    mir_result: MirType,
    ty: LlvmType,
    kind: MirCastKind,
)
    requires
        reinterprets(kind),
        operand.value.ty is Array && !ty.spec_is_struct() || ty is Array
            && !operand.value.ty.spec_is_struct(),
        cast_ops(n, operand, kind, None, mir_result, ty) is Ok,
    ensures
        ({
            let emitted = cast_ops(n, operand, kind, None, mir_result, ty).unwrap();
            let (own, other) = (abi_align(operand.value.ty), abi_align(ty));
            &&& emitted.len() == 4
            &&& emitted[1].align matches Some(align)
            &&& align >= own && align >= other && (align == own || align == other)
            &&& emitted[2].align == Some(align)
            &&& emitted[3].align == Some(align)
        }),
{
}

/// An integer constant holds its number, and a constant that an optimisation
/// made holds the same.
pub proof fn law_integer_constant(
    ops: Seq<OpView>,
    env: spec_fn(u64) -> Datum,
    constant: TypedInt,
)
    requires
        ops.len() < usize::MAX,
    ensures
        ({
            let width = constant.value.width;
            let ty = LlvmType::Integer(width, Signedness::Signless);
            let held = Datum::Int(width as nat, constant.value.value());
            &&& gives(ops, env, integer_ops(Some(constant)), ty, held)
            &&& gives(ops, env, builtin_ops(ConstantValue::Integer(constant)), ty, held)
        }),
{
    let emitted = integer_ops(Some(constant)).unwrap();
    lemma_emitted(ops, emitted, env, 0);
}

/// A floating-point constant has the bits of the narrowest attribute that it
/// has.
pub proof fn law_float_constant(
    ops: Seq<OpView>,
    env: spec_fn(u64) -> Datum,
    half: u16,
    single: u32,
    double: u64,
    more_single: Option<u32>,
    more_double: Option<u64>,
)
    requires
        ops.len() < usize::MAX,
    ensures
        gives(
            ops,
            env,
            float_ops(Some(half), more_single, more_double),
            LlvmType::Half,
            Datum::Pattern(half as u64),
        ),
        gives(
            ops,
            env,
            float_ops(None, Some(single), more_double),
            LlvmType::Float,
            Datum::Pattern(single as u64),
        ),
        gives(
            ops,
            env,
            float_ops(None, None, Some(double)),
            LlvmType::Double,
            Datum::Pattern(double),
        ),
{
    lemma_emitted(ops, float_ops(Some(half), more_single, more_double).unwrap(), env, 0);
    lemma_emitted(ops, float_ops(None, Some(single), more_double).unwrap(), env, 0);
    lemma_emitted(ops, float_ops(None, None, Some(double)).unwrap(), env, 0);
}

} // verus!
