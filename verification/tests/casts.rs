//! Casts.

use mir_lower::cast::{
    abi_alignment_bytes, convert, convert_float_to_float, convert_int_to_float,
    deep_scalar_index_path, emit_pointer_cast, emit_unsize_cast, float_bit_width,
    single_scalar_struct_width, type_byte_size, MirCastKind, NicheEncoding, MAX_NEWTYPE_DEPTH,
};
use mir_lower::ints::IntConst;
use mir_lower::llvm::{FieldTypes, LlvmType, Signedness};
use mir_lower::lower::{LowerError, Operand};
use mir_lower::mir::{EnumType, Layout, MirType};
use mir_lower::ops::{Builder, CastKind, Def, Index, IntPredicate, OpCode, Value};

fn integer(width: u32) -> LlvmType {
    LlvmType::Integer(width, Signedness::Signless)
}

fn record(types: Vec<LlvmType>) -> LlvmType {
    LlvmType::Struct(Box::new(FieldTypes::of(types)), false)
}

fn arg(n: u64, ty: LlvmType) -> Value {
    Value { def: Def::Argument(n), ty }
}

fn operand(ty: LlvmType, history: Vec<MirType>) -> Operand {
    Operand { value: arg(0, ty), history }
}

fn array(elem: LlvmType, n: u64) -> LlvmType {
    LlvmType::Array(Box::new(elem), n)
}

fn codes(b: &Builder) -> Vec<&OpCode> {
    b.ops.iter().map(|op| &op.code).collect()
}

/// Casts one operand, and returns what was emitted.
fn cast(
    kind: MirCastKind,
    source: Operand,
    mir_result: MirType,
    ty: LlvmType,
) -> (Builder, Result<Value, LowerError>) {
    let mut b = Builder::new();
    let r = convert(&mut b, &vec![source], Some(kind), None, &mir_result, &ty);
    (b, r)
}

fn single_cast(kind: MirCastKind, source: Operand, ty: LlvmType) -> CastKind {
    let (b, r) = cast(kind, source, MirType::Float, ty.copy());
    assert_eq!(r.unwrap(), Value { def: Def::Result(0), ty });
    match codes(&b).as_slice() {
        [OpCode::Cast(kind)] => *kind,
        other => panic!("one cast expected: {other:?}"),
    }
}

#[test]
fn integer_casts_extend_by_the_source() {
    let typed = |signedness: Signedness| vec![MirType::Integer(32, signedness)];
    let from = |signedness: Signedness| operand(integer(32), typed(signedness));
    let kind = MirCastKind::IntToInt;
    assert_eq!(single_cast(kind, from(Signedness::Signed), integer(64)), CastKind::SExt);
    assert_eq!(single_cast(kind, from(Signedness::Unsigned), integer(64)), CastKind::ZExt);
    assert_eq!(single_cast(kind, from(Signedness::Signless), integer(64)), CastKind::ZExt);
    assert_eq!(single_cast(kind, from(Signedness::Signed), integer(8)), CastKind::Trunc);
    assert_eq!(single_cast(kind, from(Signedness::Signed), integer(32)), CastKind::Bitcast);
    assert_eq!(single_cast(kind, operand(integer(32), vec![]), integer(64)), CastKind::ZExt);
    let (b, r) = cast(kind, operand(LlvmType::Float, vec![]), MirType::Float, integer(32));
    assert_eq!(r, Err(LowerError::IntCast));
    assert!(b.ops.is_empty());
    let unknown = operand(integer(32), vec![MirType::Float]);
    assert_eq!(cast(kind, unknown, MirType::Float, integer(64)).1, Err(LowerError::IntCast));
}

#[test]
fn float_casts_follow_the_widths() {
    assert_eq!(float_bit_width(&LlvmType::Half), Ok(16));
    assert_eq!(float_bit_width(&LlvmType::Float), Ok(32));
    assert_eq!(float_bit_width(&LlvmType::Double), Ok(64));
    assert_eq!(float_bit_width(&integer(32)), Err(LowerError::FloatCast));
    for (from, to, kind) in [
        (LlvmType::Half, LlvmType::Double, CastKind::FPExt),
        (LlvmType::Double, LlvmType::Float, CastKind::FPTrunc),
        (LlvmType::Float, LlvmType::Float, CastKind::Bitcast),
    ] {
        let mut b = Builder::new();
        convert_float_to_float(&mut b, &arg(0, from), &to).unwrap();
        assert_eq!(codes(&b), vec![&OpCode::Cast(kind)]);
    }
    let mut b = Builder::new();
    assert_eq!(
        convert_float_to_float(&mut b, &arg(0, integer(32)), &LlvmType::Float),
        Err(LowerError::FloatCast)
    );
    for (signedness, kind) in
        [(Signedness::Signed, CastKind::SIToFP), (Signedness::Unsigned, CastKind::UIToFP)]
    {
        let source = operand(integer(32), vec![MirType::Integer(32, signedness)]);
        let mut b = Builder::new();
        convert_int_to_float(&mut b, &source, &LlvmType::Double).unwrap();
        assert_eq!(codes(&b), vec![&OpCode::Cast(kind)]);
    }
}

#[test]
fn floats_saturate_on_the_way_to_integers() {
    let to_int = |from: LlvmType, result: MirType, ty: LlvmType| {
        cast(MirCastKind::FloatToInt, operand(from, vec![]), result, ty)
    };
    let signed = |w: u32| MirType::Integer(w, Signedness::Signed);
    let unsigned = |w: u32| MirType::Integer(w, Signedness::Unsigned);
    for (from, result, ty, name) in [
        (LlvmType::Float, signed(32), integer(32), "llvm_fptosi_sat_i32_f32"),
        (LlvmType::Double, unsigned(64), integer(64), "llvm_fptoui_sat_i64_f64"),
        (LlvmType::Half, unsigned(8), integer(8), "llvm_fptoui_sat_i8_f16"),
    ] {
        let (b, r) = to_int(from, result, ty.copy());
        assert_eq!(codes(&b), vec![&OpCode::Declare, &OpCode::Call]);
        assert_eq!(b.ops[1].symbol, name);
        assert_eq!(r, Ok(Value { def: Def::Result(1), ty }));
    }
    let err = |from: LlvmType, result: MirType, ty: LlvmType| to_int(from, result, ty).1;
    assert_eq!(err(LlvmType::Float, MirType::Float, integer(32)), Err(LowerError::IntCast));
    assert_eq!(err(LlvmType::Float, signed(32), LlvmType::Float), Err(LowerError::IntCast));
    assert_eq!(err(integer(32), signed(32), integer(32)), Err(LowerError::FloatCast));
}

#[test]
fn pointers_and_integers_change_places() {
    let pointer = |space: u32| operand(LlvmType::Pointer(space), vec![]);
    let kind = MirCastKind::PtrToPtr;
    assert_eq!(single_cast(kind, pointer(0), LlvmType::Pointer(0)), CastKind::Bitcast);
    assert_eq!(single_cast(kind, pointer(3), LlvmType::Pointer(0)), CastKind::AddrSpaceCast);
    assert_eq!(single_cast(MirCastKind::Transmute, pointer(0), integer(64)), CastKind::PtrToInt);
    let number = || operand(integer(64), vec![]);
    assert_eq!(
        single_cast(MirCastKind::Transmute, number(), LlvmType::Pointer(0)),
        CastKind::IntToPtr
    );
    assert_eq!(
        single_cast(MirCastKind::PointerExposeAddress, pointer(0), integer(64)),
        CastKind::PtrToInt
    );
    assert_eq!(
        single_cast(MirCastKind::PointerWithExposedProvenance, number(), LlvmType::Pointer(0)),
        CastKind::IntToPtr
    );
    assert_eq!(
        single_cast(MirCastKind::Transmute, operand(integer(32), vec![]), LlvmType::Float),
        CastKind::Bitcast
    );
}

#[test]
fn structs_lend_and_take_their_pointer() {
    let fat = || record(vec![LlvmType::Pointer(0), integer(64)]);
    let (b, r) = cast(
        MirCastKind::PtrToPtr,
        operand(fat(), vec![]),
        MirType::Float,
        LlvmType::Pointer(0),
    );
    assert_eq!(codes(&b), vec![&OpCode::ExtractValue]);
    assert_eq!(r.unwrap().ty, LlvmType::Pointer(0));
    let (b, _) = cast(
        MirCastKind::PtrToPtr,
        operand(LlvmType::Pointer(0), vec![]),
        MirType::Float,
        fat(),
    );
    assert_eq!(codes(&b), vec![&OpCode::Undef, &OpCode::InsertValue]);
    let (_, r) = cast(
        MirCastKind::PtrToPtr,
        operand(record(vec![]), vec![]),
        MirType::Float,
        LlvmType::Pointer(0),
    );
    assert_eq!(r, Err(LowerError::NoSuchMember));
}

#[test]
fn transmutations_go_through_memory() {
    let transmute = |from: LlvmType, to: LlvmType| {
        cast(MirCastKind::Transmute, operand(from, vec![]), MirType::Float, to)
    };
    let (b, _) = transmute(array(integer(8), 8), integer(64));
    assert_eq!(b.ops[1].code, OpCode::Alloca(array(integer(8), 8)));
    assert_eq!(b.ops[2].code, OpCode::Store);
    assert_eq!(b.ops[3].code, OpCode::Load);
    assert_eq!(b.ops[3].ty, integer(64));
    assert_eq!(b.ops[1].align, Some(8), "aligned for both types");
    assert_eq!(
        transmute(array(integer(8), 4), integer(64)).1,
        Err(LowerError::SizeMismatch)
    );
    assert_eq!(
        transmute(array(LlvmType::OpaqueStruct(1), 4), integer(64)).1,
        Err(LowerError::UnknownSize)
    );
    let (b, _) = transmute(record(vec![integer(64)]), record(vec![integer(32), integer(32)]));
    assert_eq!(b.ops[3].code, OpCode::Load);
    assert_eq!(b.ops[3].align, None);
    let (b, _) = transmute(record(vec![record(vec![integer(32)])]), integer(32));
    assert_eq!(b.ops[3].ty, integer(32));
    let (b, _) = transmute(record(vec![LlvmType::Float]), integer(32));
    assert_eq!(b.ops[3].code, OpCode::Load);
    assert_eq!(b.ops[3].ty, integer(32));
    assert_eq!(
        transmute(record(vec![LlvmType::Float]), integer(64)).1,
        Err(LowerError::SizeMismatch)
    );
    assert_eq!(
        transmute(record(vec![integer(32)]), integer(64)).1,
        Err(LowerError::SizeMismatch)
    );
    assert_eq!(
        transmute(record(vec![integer(32), integer(32)]), integer(64)).1,
        Err(LowerError::NotScalarWrapper)
    );
    assert_eq!(
        transmute(integer(64), record(vec![integer(64)])).1,
        Err(LowerError::ScalarToAggregate)
    );
}

#[test]
fn casts_need_one_operand_and_a_kind() {
    let mut b = Builder::new();
    let ty = integer(32);
    assert_eq!(
        convert(&mut b, &vec![], Some(MirCastKind::IntToInt), None, &MirType::Float, &ty),
        Err(LowerError::OperandCount)
    );
    let one = vec![operand(integer(32), vec![])];
    assert_eq!(
        convert(&mut b, &one, None, None, &MirType::Float, &ty),
        Err(LowerError::CastKindMissing)
    );
}

#[test]
fn sizes_are_told_without_padding_only() {
    assert_eq!(type_byte_size(&integer(1)), Some(1));
    assert_eq!(type_byte_size(&integer(33)), Some(5));
    assert_eq!(type_byte_size(&LlvmType::Half), Some(2));
    assert_eq!(type_byte_size(&LlvmType::Pointer(3)), Some(8));
    assert_eq!(type_byte_size(&array(integer(32), 6)), Some(24));
    assert_eq!(type_byte_size(&array(integer(64), u64::MAX)), None);
    assert_eq!(type_byte_size(&record(vec![integer(64), integer(32), integer(32)])), Some(16));
    assert_eq!(type_byte_size(&record(vec![integer(8), integer(32)])), None);
    assert_eq!(type_byte_size(&record(vec![integer(32), integer(8)])), None);
    assert_eq!(type_byte_size(&LlvmType::Void), None);
    assert_eq!(abi_alignment_bytes(&integer(1)), 1);
    assert_eq!(abi_alignment_bytes(&integer(128)), 16);
    assert_eq!(abi_alignment_bytes(&array(LlvmType::Double, 3)), 8);
    assert_eq!(abi_alignment_bytes(&record(vec![integer(8), LlvmType::Float])), 4);
    assert_eq!(abi_alignment_bytes(&record(vec![])), 1);
}

fn wrapped(ty: LlvmType, layers: usize) -> LlvmType {
    (0..layers).fold(ty, |inner, _| record(vec![inner]))
}

#[test]
fn wrappers_are_looked_through_to_a_limit() {
    assert_eq!(single_scalar_struct_width(&wrapped(integer(16), 3)), Some(16));
    assert_eq!(single_scalar_struct_width(&wrapped(LlvmType::Pointer(0), 1)), Some(64));
    assert_eq!(single_scalar_struct_width(&wrapped(LlvmType::Half, 1)), Some(16));
    assert_eq!(single_scalar_struct_width(&wrapped(LlvmType::Float, 1)), Some(32));
    assert_eq!(single_scalar_struct_width(&wrapped(LlvmType::Double, 2)), Some(64));
    assert_eq!(single_scalar_struct_width(&record(vec![integer(8), integer(8)])), None);
    assert_eq!(single_scalar_struct_width(&wrapped(array(integer(8), 4), 1)), None);
    let deepest = MAX_NEWTYPE_DEPTH - 1;
    assert_eq!(single_scalar_struct_width(&wrapped(integer(16), deepest)), Some(16));
    assert_eq!(single_scalar_struct_width(&wrapped(integer(16), deepest + 1)), None);
    let path = deep_scalar_index_path(&wrapped(integer(16), 2), &integer(16));
    assert_eq!(path, Some(vec![Index::Const(0), Index::Const(0)]));
    assert_eq!(deep_scalar_index_path(&integer(16), &integer(16)), Some(vec![]));
    assert_eq!(deep_scalar_index_path(&integer(16), &integer(32)), None);
    assert_eq!(
        deep_scalar_index_path(&wrapped(integer(16), deepest + 1), &integer(16)),
        None
    );
}

fn two_variants(discriminants: Vec<u64>) -> MirType {
    MirType::Enum(Box::new(EnumType {
        name: "Option".to_string(),
        discriminant: MirType::Integer(8, Signedness::Unsigned),
        variant_discriminants: discriminants,
        variants: vec![],
        tag_offset: 0,
        total_size: 0,
        abi_align: 0,
    }))
}

const NICHE: NicheEncoding =
    NicheEncoding { niche_start: 0, niche_variant_idx: 0, untagged_variant_idx: 1 };

#[test]
fn scalars_become_niched_enums() {
    let ty = record(vec![integer(8), record(vec![integer(64)])]);
    let mut b = Builder::new();
    let r = emit_pointer_cast(
        &mut b,
        &arg(0, integer(64)),
        Some(NICHE),
        &two_variants(vec![5, 9]),
        &ty,
    );
    assert_eq!(b.ops[0].code, OpCode::ConstInt(IntConst::from_u128(0, 64)));
    assert_eq!(b.ops[1].code, OpCode::IntCompare(IntPredicate::EQ));
    assert_eq!(b.ops[2].code, OpCode::ConstInt(IntConst::from_u128(5, 8)));
    assert_eq!(b.ops[3].code, OpCode::ConstInt(IntConst::from_u128(9, 8)));
    assert_eq!(b.ops[4].code, OpCode::Select);
    assert_eq!(b.ops[7].indices, vec![Index::Const(1), Index::Const(0)]);
    assert_eq!(r, Ok(Value { def: Def::Result(7), ty }));
}

#[test]
fn pointers_are_compared_with_a_pointer_niche() {
    let ty = record(vec![integer(8), LlvmType::Pointer(0)]);
    let mut b = Builder::new();
    emit_pointer_cast(
        &mut b,
        &arg(0, LlvmType::Pointer(0)),
        Some(NICHE),
        &two_variants(vec![0, 1]),
        &ty,
    )
    .unwrap();
    assert_eq!(b.ops[0].ty, integer(64));
    assert_eq!(b.ops[1].code, OpCode::Cast(CastKind::IntToPtr));
    assert_eq!(b.ops[2].code, OpCode::IntCompare(IntPredicate::EQ));
}

#[test]
fn niched_enums_that_cannot_be_rebuilt() {
    let mut b = Builder::new();
    let mut rebuild = |value: LlvmType, result: MirType, ty: LlvmType| {
        emit_pointer_cast(&mut b, &arg(0, value), Some(NICHE), &result, &ty)
    };
    let good = || record(vec![integer(8), integer(64)]);
    let result = || two_variants(vec![0, 1]);
    assert_eq!(
        rebuild(integer(64), result(), record(vec![integer(8)])),
        Err(LowerError::NicheShape)
    );
    assert_eq!(rebuild(integer(64), MirType::Float, good()), Err(LowerError::NicheResult));
    assert_eq!(
        rebuild(integer(64), two_variants(vec![0]), good()),
        Err(LowerError::NoDiscriminant)
    );
    assert_eq!(rebuild(integer(32), result(), good()), Err(LowerError::NoScalarSlot));
    assert_eq!(
        rebuild(integer(64), result(), record(vec![LlvmType::Float, integer(64)])),
        Err(LowerError::IntConstant)
    );
    assert!(b.ops.is_empty());
}

#[test]
fn unsizing_adds_the_length() {
    let fat = || record(vec![LlvmType::Pointer(0), integer(64)]);
    let pointer_to = |pointee: MirType| {
        operand(LlvmType::Pointer(0), vec![MirType::Pointer(Box::new(pointee), false, 0)])
    };
    let array_of = |n: u64| MirType::Array(Box::new(MirType::Float), n);
    let unsize = |source: Operand| {
        let mut b = Builder::new();
        emit_unsize_cast(&mut b, &source, None, &MirType::Float, &fat()).unwrap();
        b
    };
    let b = unsize(pointer_to(array_of(7)));
    assert_eq!(b.ops[2].code, OpCode::ConstInt(IntConst::from_u128(7, 64)));
    assert_eq!(b.ops[3].indices, vec![Index::Const(1)]);
    let layout = Layout { mem_to_decl: vec![1, 0], ..Layout::unknown() };
    let in_struct = MirType::Struct(
        "Tail".to_string(),
        vec!["tail".to_string(), "head".to_string()],
        vec![array_of(3), MirType::Float],
        layout,
    );
    let b = unsize(pointer_to(in_struct));
    assert_eq!(b.ops[2].code, OpCode::ConstInt(IntConst::from_u128(3, 64)));
    let b = unsize(pointer_to(MirType::Float));
    assert_eq!(codes(&b), vec![&OpCode::Undef, &OpCode::InsertValue]);
}

/// Unpacks a niched enum on a given scalar: the tag and the payload.
fn unpacked(niche: NicheEncoding, scalar: u128) -> (u128, u128) {
    let ty = record(vec![integer(8), integer(64)]);
    let mut b = Builder::new();
    let result = two_variants(vec![5, 9]);
    emit_pointer_cast(&mut b, &arg(0, integer(64)), Some(niche), &result, &ty).unwrap();
    let mut data: Vec<u128> = Vec::new();
    let mut members = [0u128; 2];
    for op in &b.ops {
        let at = |i: usize| match op.operands[i].def {
            Def::Result(n) => data[n],
            Def::Argument(_) => scalar,
        };
        let computed = match &op.code {
            OpCode::ConstInt(c) => c.bits,
            OpCode::IntCompare(IntPredicate::EQ) => u128::from(at(0) == at(1)),
            OpCode::Select => at(if at(0) == 1 { 1 } else { 2 }),
            OpCode::InsertValue => match op.indices[0] {
                Index::Const(slot) => {
                    members[slot as usize] = at(1);
                    0
                }
                Index::Dynamic(_) => panic!("constant index expected"),
            },
            OpCode::Undef => 0,
            other => panic!("unexpected operation: {other:?}"),
        };
        data.push(computed);
    }
    (members[0], members[1])
}

/// The niche pattern, and only that, stands for the niche variant.
#[test]
fn niche_pattern_selects_the_niche_variant() {
    assert_eq!(unpacked(NICHE, 0), (5, 0));
    assert_eq!(unpacked(NICHE, 7), (9, 7));
    let last = NicheEncoding { niche_start: u64::MAX, niche_variant_idx: 1, untagged_variant_idx: 0 };
    assert_eq!(unpacked(last, u128::from(u64::MAX)), (9, u128::from(u64::MAX)));
    assert_eq!(unpacked(last, 0), (5, 0));
}
