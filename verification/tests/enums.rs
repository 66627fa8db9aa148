//! Lowering of enum values.

use mir_lower::aggregates::convert_construct_tuple;
use mir_lower::cast::convert_int_to_int;
use mir_lower::enums::{
    convert_construct_enum, convert_enum_payload, convert_get_discriminant,
    convert_set_discriminant, enum_carrier_bits_for_variant, EnumCarrierKind, EnumInfo,
    EnumLayoutKind, StampedType,
};
use mir_lower::llvm::{FieldTypes, LlvmType, Signedness};
use mir_lower::lower::{LowerError, Operand};
use mir_lower::mir::MirType;
use mir_lower::ops::{Builder, CastKind, Coercion, Def, Index, IntBinary, Op, OpCode, Value};
use mir_lower::slots::{EnumSlotMap, StructInfo, StructSlotMap};

fn integer(width: u32) -> LlvmType {
    LlvmType::Integer(width, Signedness::Signless)
}

fn record(types: Vec<LlvmType>) -> LlvmType {
    LlvmType::Struct(Box::new(FieldTypes::of(types)), false)
}

fn arg(n: u64, ty: LlvmType) -> Value {
    Value { def: Def::Argument(n), ty }
}

fn count(b: &Builder, code: OpCode) -> usize {
    b.ops.iter().filter(|op| op.code == code).count()
}

fn casts(b: &Builder, kind: CastKind) -> usize {
    count(b, OpCode::Cast(kind))
}

fn constant(op: &Op) -> (u32, u128) {
    match &op.code {
        OpCode::ConstInt(c) => (c.width, c.bits),
        other => panic!("expected an integer constant: {other:?}"),
    }
}

/// An enum without payload under a direct tag.
fn direct(width: u32, discriminants: Vec<u64>) -> EnumInfo {
    let variants = discriminants.len();
    EnumInfo {
        discriminant: integer(width),
        variant_discriminants: discriminants,
        variant_field_counts: vec![0; variants],
        variant_inhabited: vec![true; variants],
        layout_kind: EnumLayoutKind::Direct,
        carrier_kind: EnumCarrierKind::Integer,
        carrier_width: width,
        niche_start: 0,
        niche_variant_start: 0,
        niche_variant_end: 0,
        untagged_variant: 0,
        single_variant: 0,
        tag_offset: 0,
        abi_align: 1,
        slots: EnumSlotMap {
            struct_ty: record(vec![integer(width)]),
            carrier_slot: Some(0),
            carrier_ty: Some(integer(width)),
            field_slots: vec![],
            field_types: vec![],
            storage_types: vec![],
            byte_types: vec![],
            zero_sized: vec![],
            field_offsets: vec![],
        },
    }
}

/// Two variants, of which the second is untagged.
fn niche(kind: EnumCarrierKind, width: u32, start: u128) -> EnumInfo {
    EnumInfo {
        layout_kind: EnumLayoutKind::Niche,
        carrier_kind: kind,
        carrier_width: width,
        niche_start: start,
        untagged_variant: 1,
        ..direct(width, vec![0, 1])
    }
}

fn with_payload(info: EnumInfo, slots: EnumSlotMap, counts: Vec<u32>) -> EnumInfo {
    EnumInfo { variant_field_counts: counts, slots, ..info }
}

/// Enum construction stores the declared discriminant value, not the variant
/// index.
#[test]
fn construct_enum_uses_declared_discriminant_not_variant_index() {
    let mut b = Builder::new();
    let info = Some(direct(8, vec![255, 0, 1]));
    convert_construct_enum(&mut b, &vec![], Some(0), &info).expect("lowering failed");
    let inserts: Vec<&Op> = b.ops.iter().filter(|op| op.code == OpCode::InsertValue).collect();
    assert_eq!(
        inserts.iter().map(|op| &op.indices).collect::<Vec<_>>(),
        vec![&vec![Index::Const(0)]],
        "unit enum construction should insert only the discriminant tag"
    );
    let tag = match inserts[0].operands[1].def {
        Def::Result(at) => &b.ops[at],
        Def::Argument(_) => panic!("the inserted enum tag must have a defining operation"),
    };
    let (width, bits) = constant(tag);
    assert_eq!(width, 8, "the enum tag must be 8-bit");
    assert_eq!(bits, 255, "Less must lower to its declared bit pattern 255, not variant index 0");
}

#[test]
fn nested_pointer_niche_tuple_construct_extract_and_discriminant_lower() {
    let lowered_tuple = record(vec![integer(64), LlvmType::Pointer(0)]);
    let tuple_info = Some(StructInfo {
        mem_to_decl: vec![0, 1],
        field_offsets: vec![0, 8],
        abi_align: 8,
        map: StructSlotMap {
            struct_ty: lowered_tuple.copy(),
            decl_to_llvm: vec![Some(0), Some(1)],
            field_types: vec![integer(64), LlvmType::Pointer(0)],
            natural_slot_offsets: Some(vec![0, 8]),
            layout_diverges: false,
        },
    });
    let info = Some(with_payload(
        EnumInfo {
            discriminant: integer(64),
            tag_offset: 8,
            abi_align: 8,
            ..niche(EnumCarrierKind::Pointer, 64, 0)
        },
        EnumSlotMap {
            struct_ty: record(vec![integer(64), LlvmType::Pointer(0)]),
            carrier_slot: Some(1),
            carrier_ty: Some(LlvmType::Pointer(0)),
            field_slots: vec![None],
            field_types: vec![lowered_tuple.copy()],
            storage_types: vec![Some(lowered_tuple.copy())],
            byte_types: vec![lowered_tuple.copy()],
            zero_sized: vec![false],
            field_offsets: vec![0],
        },
        vec![0, 1],
    ));
    let mut b = Builder::new();
    let parts = vec![arg(0, integer(64)), arg(1, LlvmType::Pointer(0))];
    let tuple = convert_construct_tuple(&mut b, &parts, &tuple_info).unwrap();
    let option = convert_construct_enum(&mut b, &vec![tuple], Some(1), &info).unwrap();
    let payload =
        convert_enum_payload(&mut b, &vec![option.copy()], Some(1), Some(0), &info).unwrap();
    assert_eq!(payload.ty, lowered_tuple);
    convert_get_discriminant(&mut b, &vec![option], &info).unwrap();
    assert_eq!(
        casts(&b, CastKind::IntToPtr),
        0,
        "constructing the untagged Some payload must not recreate its pointer from bits"
    );
    assert_eq!(
        casts(&b, CastKind::PtrToInt),
        1,
        "reading the pointer niche should inspect the carrier exactly once"
    );
    assert_eq!(
        count(&b, OpCode::Store),
        3,
        "construction and extraction should each spill the enum, plus one tuple payload store"
    );
    assert_eq!(
        count(&b, OpCode::Load),
        2,
        "construction should reload the enum and extraction should load the tuple payload"
    );
    let stored: Vec<&LlvmType> = b
        .ops
        .iter()
        .filter(|op| op.code == OpCode::Store)
        .map(|op| &op.operands[0].ty)
        .collect();
    let loaded: Vec<&LlvmType> =
        b.ops.iter().filter(|op| op.code == OpCode::Load).map(|op| &op.ty).collect();
    for field_ty in [integer(64), LlvmType::Pointer(0)] {
        assert!(!stored.contains(&&field_ty), "the payload must be stored whole");
        assert!(!loaded.contains(&&field_ty), "the payload must be read whole");
    }
    assert!(stored.contains(&&lowered_tuple), "a store must move the complete payload");
    assert!(loaded.contains(&&lowered_tuple), "a load must read the complete payload");
}

/// The write of a discriminant goes to the absolute byte offset of the tag, and
/// keeps the address space of the pointer.
#[test]
fn set_discriminant_uses_tag_slot_and_preserves_shared_address_space() {
    let tag_offset = u64::from(u32::MAX) + 1;
    let stamped = StampedType::Enum(EnumInfo {
        tag_offset,
        abi_align: 8,
        ..direct(8, vec![3, 7])
    });
    let mut b = Builder::new();
    let ptr = arg(0, LlvmType::Pointer(3));
    convert_set_discriminant(&mut b, &ptr, Some(1), &stamped).expect("lowering failed");
    let geps: Vec<&Op> =
        b.ops.iter().filter(|op| matches!(op.code, OpCode::Gep(_, _))).collect();
    assert_eq!(geps.len(), 1);
    assert_eq!(count(&b, OpCode::Store), 1);
    let offset = match geps[0].indices.as_slice() {
        [Index::Dynamic(Value { def: Def::Result(at), .. })] => constant(&b.ops[*at]).1,
        other => panic!("byte offset must be a value: {other:?}"),
    };
    assert_eq!(
        offset,
        u128::from(tag_offset),
        "the write must use the absolute carrier byte offset"
    );
    assert_eq!(geps[0].ty, LlvmType::Pointer(3), "tag GEP must preserve shared address space");
    let store = b.ops.last().unwrap();
    assert_eq!(store.operands[0].ty, integer(8));
    assert_eq!(store.operands[1].ty, LlvmType::Pointer(3));
    assert_eq!(store.operands[1].def, Def::Result(b.ops.len() - 2));
    assert_eq!(constant(&b.ops[0]), (8, 7));
}

#[test]
fn set_discriminant_niche_writes_only_tagged_variant_carrier() {
    for (target, expected_stores) in [(0, 1), (1, 0)] {
        let stamped = StampedType::Enum(niche(EnumCarrierKind::Integer, 8, 0));
        let mut b = Builder::new();
        let ptr = arg(0, LlvmType::Pointer(0));
        convert_set_discriminant(&mut b, &ptr, Some(target), &stamped).expect("lowering failed");
        assert_eq!(count(&b, OpCode::Store), expected_stores);
    }
}

#[test]
fn later_field_niche_set_writes_exact_carrier_offset() {
    let stamped = StampedType::Enum(EnumInfo {
        discriminant: integer(8),
        tag_offset: 4,
        abi_align: 4,
        ..niche(EnumCarrierKind::Integer, 32, 0)
    });
    let mut b = Builder::new();
    let ptr = arg(0, LlvmType::Pointer(0));
    convert_set_discriminant(&mut b, &ptr, Some(0), &stamped).expect("lowering failed");
    let gep = b.ops.iter().find(|op| matches!(op.code, OpCode::Gep(_, _))).unwrap();
    match gep.indices.as_slice() {
        [Index::Dynamic(Value { def: Def::Result(at), .. })] => {
            assert_eq!(constant(&b.ops[*at]).1, 4)
        }
        other => panic!("carrier access must use a byte-offset value: {other:?}"),
    }
}

#[test]
fn get_niche_discriminant_adds_large_range_start_at_logical_width() {
    let info = Some(EnumInfo {
        discriminant: integer(16),
        variant_discriminants: (0..300).collect(),
        variant_field_counts: vec![0; 300],
        variant_inhabited: (0..300).map(|i| i == 0 || i >= 298).collect(),
        niche_variant_start: 298,
        niche_variant_end: 299,
        untagged_variant: 0,
        ..niche(EnumCarrierKind::Integer, 8, 0)
    });
    let mut b = Builder::new();
    let value = arg(0, record(vec![integer(8)]));
    convert_get_discriminant(&mut b, &vec![value], &info).expect("lowering failed");
    assert_eq!(casts(&b, CastKind::ZExt), 1);
    let add = b
        .ops
        .iter()
        .find(|op| op.code == OpCode::Int(IntBinary::Add))
        .expect("logical variant add");
    for operand in &add.operands {
        assert_eq!(operand.ty, integer(16), "variant-index arithmetic must occur at logical width");
    }
}

#[test]
fn direct_negative_discriminant_read_remains_signed_for_widening() {
    let info = Some(direct(8, vec![255, 0]));
    let mut b = Builder::new();
    let value = convert_construct_enum(&mut b, &vec![], Some(0), &info).unwrap();
    let discriminant = convert_get_discriminant(&mut b, &vec![value], &info).unwrap();
    let operand = Operand {
        value: discriminant,
        history: vec![MirType::Integer(8, Signedness::Signed)],
    };
    convert_int_to_int(&mut b, &operand, &integer(32)).unwrap();
    assert_eq!(casts(&b, CastKind::SExt), 1);
    assert_eq!(casts(&b, CastKind::ZExt), 0);
}

#[test]
fn single_layout_preserves_large_and_negative_declared_discriminants() {
    for (width, signedness, bits, widened_width, expects_sext) in [
        (16, Signedness::Unsigned, 1_000, 16, false),
        (8, Signedness::Signed, 251, 32, true),
    ] {
        let info = Some(EnumInfo {
            layout_kind: EnumLayoutKind::Single,
            slots: EnumSlotMap {
                struct_ty: record(vec![]),
                carrier_slot: None,
                carrier_ty: None,
                ..direct(width, vec![]).slots
            },
            ..direct(width, vec![bits])
        });
        let mut b = Builder::new();
        let value = convert_construct_enum(&mut b, &vec![], Some(0), &info).unwrap();
        let discriminant = convert_get_discriminant(&mut b, &vec![value], &info).unwrap();
        if widened_width != width {
            let operand = Operand {
                value: discriminant,
                history: vec![MirType::Integer(width, signedness)],
            };
            convert_int_to_int(&mut b, &operand, &integer(widened_width)).unwrap();
        }
        let found_bits = b
            .ops
            .iter()
            .any(|op| matches!(&op.code, OpCode::ConstInt(c) if c.bits == u128::from(bits)));
        assert!(found_bits, "single discriminant {bits} must not be truncated");
        assert_eq!(casts(&b, CastKind::SExt) == 1, expects_sext);
    }
}

/// The bits that encode a niche variant are counted up from the first niche
/// value.
#[test]
fn carrier_bits_follow_the_layout() {
    let bits = |info: &EnumInfo, variant: usize| enum_carrier_bits_for_variant(info, variant);
    assert_eq!(bits(&direct(8, vec![3, 7]), 1), Ok(Some(7)));
    assert_eq!(bits(&direct(8, vec![3, 7]), 2), Err(LowerError::NoDiscriminant));
    let info = EnumInfo {
        niche_variant_start: 2,
        niche_variant_end: 4,
        untagged_variant: 0,
        ..niche(EnumCarrierKind::Integer, 8, 254)
    };
    assert_eq!(bits(&info, 0), Ok(None));
    assert_eq!(bits(&info, 1), Err(LowerError::VariantIndex));
    assert_eq!(bits(&info, 2), Ok(Some(254)));
    assert_eq!(bits(&info, 4), Ok(Some(256)));
    assert_eq!(bits(&info, 5), Err(LowerError::VariantIndex));
    let wrapped = EnumInfo { niche_start: u128::MAX, ..info };
    assert_eq!(bits(&wrapped, 3), Ok(Some(0)));
    let single = EnumInfo { layout_kind: EnumLayoutKind::Single, ..direct(8, vec![0]) };
    assert_eq!(bits(&single, 0), Ok(None));
    assert_eq!(bits(&single, 1), Err(LowerError::Uninhabited));
    let empty = EnumInfo { layout_kind: EnumLayoutKind::Empty, ..direct(8, vec![]) };
    assert_eq!(bits(&empty, 0), Err(LowerError::Uninhabited));
    let unknown = EnumInfo { layout_kind: EnumLayoutKind::Unknown, ..direct(8, vec![]) };
    assert_eq!(bits(&unknown, 0), Err(LowerError::UnknownLayout));
}

/// Evaluates the decoding of a niche on a given carrier.
fn decode(info: &EnumInfo, carrier: u128) -> u128 {
    let logical = match info.discriminant {
        LlvmType::Integer(width, _) => width,
        _ => panic!("integer discriminant expected"),
    };
    let mask = |v: u128, width: u32| if width < 128 { v & ((1 << width) - 1) } else { v };
    let mut b = Builder::new();
    let value = arg(0, record(vec![integer(info.carrier_width)]));
    let copied = Some(EnumInfo {
        discriminant: info.discriminant.copy(),
        variant_discriminants: vec![],
        variant_field_counts: vec![],
        variant_inhabited: vec![],
        slots: direct(info.carrier_width, vec![]).slots,
        ..*info
    });
    convert_get_discriminant(&mut b, &vec![value], &copied).unwrap();
    let mut data: Vec<u128> = Vec::new();
    for op in &b.ops {
        let at = |i: usize| match op.operands[i].def {
            Def::Result(n) => data[n],
            Def::Argument(_) => 0,
        };
        let width = match op.ty {
            LlvmType::Integer(width, _) => width,
            _ => logical,
        };
        let computed = match &op.code {
            OpCode::ConstInt(c) => c.bits,
            OpCode::ExtractValue => carrier,
            OpCode::Int(IntBinary::Sub) => mask(at(0).wrapping_sub(at(1)), width),
            OpCode::Int(IntBinary::Add) => mask(at(0).wrapping_add(at(1)), width),
            OpCode::IntCompare(_) => u128::from(at(0) <= at(1)),
            OpCode::Cast(_) => mask(at(0), width),
            OpCode::Select => at(if at(0) == 1 { 1 } else { 2 }),
            other => panic!("unexpected operation: {other:?}"),
        };
        data.push(computed);
    }
    *data.last().unwrap()
}

/// Every variant of a niche is found again from the bits that encode it.
#[test]
fn niche_variants_round_trip() {
    for (width, start) in [(8u32, 0u128), (8, 254), (16, 65_535), (32, 2)] {
        let info = EnumInfo {
            discriminant: integer(16),
            niche_variant_start: 1,
            niche_variant_end: 5,
            untagged_variant: 0,
            ..niche(EnumCarrierKind::Integer, width, start)
        };
        for variant in 1..=5usize {
            let bits = enum_carrier_bits_for_variant(&info, variant).unwrap().unwrap();
            assert_eq!(decode(&info, bits & ((1 << width) - 1)), variant as u128);
        }
        assert_eq!(decode(&info, (start + 5) & ((1 << width) - 1)), 0);
    }
}

fn mixed_slots() -> EnumSlotMap {
    EnumSlotMap {
        struct_ty: record(vec![integer(32), LlvmType::Float]),
        carrier_slot: Some(0),
        carrier_ty: Some(integer(32)),
        field_slots: vec![Some(1), None, None],
        field_types: vec![LlvmType::Float, integer(32), record(vec![])],
        storage_types: vec![Some(LlvmType::Float), Some(integer(32)), None],
        byte_types: vec![LlvmType::Float, integer(32), record(vec![])],
        zero_sized: vec![false, false, true],
        field_offsets: vec![4, 4, 8],
    }
}

fn mixed() -> Option<EnumInfo> {
    Some(EnumInfo {
        abi_align: 4,
        ..with_payload(direct(32, vec![0, 1, 2]), mixed_slots(), vec![1, 1, 1])
    })
}

#[test]
fn payload_with_a_slot_is_inserted() {
    let mut b = Builder::new();
    let r = convert_construct_enum(&mut b, &vec![arg(0, LlvmType::Float)], Some(0), &mixed());
    assert_eq!(r.unwrap().def, Def::Result(4));
    let codes: Vec<&OpCode> = b.ops.iter().map(|op| &op.code).collect();
    assert_eq!(codes[0], &OpCode::Undef);
    assert_eq!(constant(&b.ops[1]), (32, 0));
    assert_eq!(codes[2], &OpCode::InsertValue);
    assert_eq!(codes[3], &OpCode::Coerce(Coercion::PayloadStorage));
    assert_eq!(b.ops[4].indices, vec![Index::Const(1)]);
}

#[test]
fn payload_without_a_slot_goes_through_memory() {
    let mut b = Builder::new();
    convert_construct_enum(&mut b, &vec![arg(0, integer(32))], Some(1), &mixed()).unwrap();
    let tail: Vec<&OpCode> = b.ops[3..].iter().map(|op| &op.code).collect();
    assert_eq!(constant(&b.ops[3]), (64, 1));
    assert!(matches!(tail[1], OpCode::Alloca(_)));
    assert_eq!(tail[2], &OpCode::Store);
    assert_eq!(constant(&b.ops[6]), (64, 4));
    assert!(matches!(tail[4], OpCode::Gep(_, true)));
    assert_eq!(tail[5], &OpCode::Coerce(Coercion::BoolBytes));
    assert_eq!(tail[6], &OpCode::Coerce(Coercion::PayloadStorage));
    assert_eq!(tail[7], &OpCode::Store);
    assert_eq!(tail[8], &OpCode::Load);
    assert_eq!(b.ops[4].align, Some(4));
    assert_eq!(b.ops[11].align, Some(4));
    assert_eq!(b.ops[10].align, None, "a payload store claims no alignment");
}

#[test]
fn zero_sized_payload_is_neither_stored_nor_read() {
    let mut b = Builder::new();
    convert_construct_enum(&mut b, &vec![arg(0, record(vec![]))], Some(2), &mixed()).unwrap();
    assert_eq!(b.ops.len(), 3);
    let value = arg(1, record(vec![integer(32), LlvmType::Float]));
    let r = convert_enum_payload(&mut b, &vec![value], Some(2), None, &mixed()).unwrap();
    assert_eq!(r.ty, record(vec![]));
    assert_eq!(b.ops[3].code, OpCode::Undef);
}

#[test]
fn payload_reads_follow_the_slot() {
    let value = || vec![arg(0, record(vec![integer(32), LlvmType::Float]))];
    let mut b = Builder::new();
    convert_enum_payload(&mut b, &value(), None, None, &mixed()).unwrap();
    assert_eq!(b.ops[0].indices, vec![Index::Const(1)]);
    assert_eq!(b.ops[1].code, OpCode::Coerce(Coercion::PayloadStorage));
    let mut b = Builder::new();
    convert_enum_payload(&mut b, &value(), Some(1), Some(0), &mixed()).unwrap();
    assert_eq!(count(&b, OpCode::Load), 1);
    assert_eq!(constant(&b.ops[3]), (64, 4));
}

#[test]
fn enum_operations_that_cannot_be_lowered() {
    let mut b = Builder::new();
    let value = || vec![arg(0, record(vec![integer(32), LlvmType::Float]))];
    assert_eq!(
        convert_enum_payload(&mut b, &vec![], None, None, &mixed()),
        Err(LowerError::OperandCount)
    );
    assert_eq!(
        convert_enum_payload(&mut b, &value(), None, None, &None),
        Err(LowerError::WrongType)
    );
    assert_eq!(
        convert_enum_payload(&mut b, &value(), Some(2), Some(1), &mixed()),
        Err(LowerError::FieldIndex)
    );
    assert_eq!(
        convert_enum_payload(&mut b, &vec![arg(0, integer(32))], None, None, &mixed()),
        Err(LowerError::NoSuchMember)
    );
    assert_eq!(convert_get_discriminant(&mut b, &vec![], &mixed()), Err(LowerError::OperandCount));
    assert_eq!(convert_get_discriminant(&mut b, &value(), &None), Err(LowerError::WrongType));
    let float = Some(EnumInfo { discriminant: LlvmType::Float, ..direct(8, vec![0]) });
    assert_eq!(
        convert_get_discriminant(&mut b, &value(), &float),
        Err(LowerError::DiscriminantType)
    );
    let bare = Some(EnumInfo {
        slots: EnumSlotMap { carrier_slot: None, carrier_ty: None, ..mixed_slots() },
        ..direct(8, vec![0])
    });
    assert_eq!(convert_get_discriminant(&mut b, &value(), &bare), Err(LowerError::NoCarrier));
    let dead = Some(EnumInfo {
        layout_kind: EnumLayoutKind::Single,
        variant_inhabited: vec![false],
        ..direct(8, vec![0])
    });
    assert_eq!(convert_get_discriminant(&mut b, &value(), &dead), Err(LowerError::Uninhabited));
    assert_eq!(
        convert_construct_enum(&mut b, &vec![], None, &None),
        Err(LowerError::WrongType)
    );
    let ptr = arg(0, LlvmType::Pointer(0));
    let stamped = StampedType::Enum(direct(8, vec![0]));
    assert_eq!(
        convert_set_discriminant(&mut b, &ptr, None, &stamped),
        Err(LowerError::MissingAttribute)
    );
    assert_eq!(
        convert_set_discriminant(&mut b, &ptr, Some(0), &StampedType::Missing),
        Err(LowerError::MissingAttribute)
    );
    assert_eq!(
        convert_set_discriminant(&mut b, &ptr, Some(0), &StampedType::NotEnum),
        Err(LowerError::WrongType)
    );
    let float_carrier = StampedType::Enum(EnumInfo {
        slots: EnumSlotMap { carrier_ty: Some(LlvmType::Float), ..direct(8, vec![]).slots },
        ..direct(8, vec![0])
    });
    assert_eq!(
        convert_set_discriminant(&mut b, &ptr, Some(0), &float_carrier),
        Err(LowerError::IntConstant)
    );
    assert!(b.ops.is_empty(), "a refused operation emits nothing");
}

#[test]
fn too_many_payload_operands_are_refused() {
    let mut b = Builder::new();
    let operands = vec![
        arg(0, LlvmType::Float),
        arg(1, integer(32)),
        arg(2, integer(32)),
        arg(3, integer(32)),
    ];
    assert_eq!(
        convert_construct_enum(&mut b, &operands, Some(0), &mixed()),
        Err(LowerError::FieldIndex)
    );
}

#[test]
fn pointer_niche_variant_is_made_from_its_bits() {
    let info = EnumInfo {
        slots: EnumSlotMap {
            struct_ty: record(vec![LlvmType::Pointer(0)]),
            carrier_ty: Some(LlvmType::Pointer(0)),
            ..direct(64, vec![]).slots
        },
        ..niche(EnumCarrierKind::Pointer, 64, 0)
    };
    let mut b = Builder::new();
    convert_construct_enum(&mut b, &vec![], Some(0), &Some(info)).unwrap();
    assert_eq!(constant(&b.ops[1]), (64, 0));
    assert_eq!(b.ops[2].code, OpCode::Cast(CastKind::IntToPtr));
    assert_eq!(b.ops[3].code, OpCode::InsertValue);
}

/// A payload is read from the slot that it was built into.
#[test]
fn payload_round_trips_through_its_slot() {
    let mut b = Builder::new();
    let built =
        convert_construct_enum(&mut b, &vec![arg(0, LlvmType::Float)], Some(0), &mixed()).unwrap();
    let insert = b.ops.last().unwrap().indices[0] == Index::Const(1);
    let read = convert_enum_payload(&mut b, &vec![built.copy()], Some(0), Some(0), &mixed());
    assert!(insert);
    assert_eq!(read.unwrap().ty, LlvmType::Float);
    let extract = &b.ops[b.ops.len() - 2];
    assert_eq!(extract.operands, vec![built]);
    assert_eq!(extract.indices, vec![Index::Const(1)]);
    assert_eq!(b.ops.last().unwrap().code, OpCode::Coerce(Coercion::PayloadStorage));
}

/// The untagged variant of a niched enum writes no bits of its own: its payload
/// stands in the carrier.
#[test]
fn untagged_variant_is_left_to_its_payload() {
    let pointer = LlvmType::Pointer(0);
    let slots = EnumSlotMap {
        struct_ty: record(vec![LlvmType::Pointer(0)]),
        carrier_slot: Some(0),
        carrier_ty: Some(LlvmType::Pointer(0)),
        field_slots: vec![Some(0)],
        field_types: vec![LlvmType::Pointer(0)],
        storage_types: vec![Some(LlvmType::Pointer(0))],
        byte_types: vec![LlvmType::Pointer(0)],
        zero_sized: vec![false],
        field_offsets: vec![0],
    };
    let info = Some(with_payload(niche(EnumCarrierKind::Pointer, 64, 0), slots, vec![0, 1]));
    let mut b = Builder::new();
    let payload = arg(0, pointer);
    let built =
        convert_construct_enum(&mut b, &vec![payload.copy()], Some(1), &info).unwrap();
    assert_eq!(b.ops.len(), 3);
    assert_eq!(b.ops[0].code, OpCode::Undef);
    assert_eq!(b.ops[1].operands, vec![payload]);
    assert_eq!(b.ops[2].indices, vec![Index::Const(0)]);
    let read = convert_get_discriminant(&mut b, &vec![built.copy()], &info).unwrap();
    assert_eq!(b.ops[3].operands, vec![built]);
    assert_eq!(b.ops[3].indices, vec![Index::Const(0)]);
    assert_eq!(read.def, Def::Result(b.ops.len() - 1));
    assert_eq!(b.ops.last().unwrap().code, OpCode::Select);
}

/// A payload that shares bytes with another variant is written and read at the
/// same offset of the whole value.
#[test]
fn payload_round_trips_through_memory() {
    let mut b = Builder::new();
    let built =
        convert_construct_enum(&mut b, &vec![arg(0, integer(32))], Some(1), &mixed()).unwrap();
    assert_eq!(built.def, Def::Result(11));
    assert_eq!(constant(&b.ops[6]), (64, 4));
    assert_eq!(b.ops[10].code, OpCode::Store);
    assert_eq!(b.ops[10].operands[0].ty, integer(32));
    assert_eq!(b.ops[11].ty, mixed_slots().struct_ty);
    let read = convert_enum_payload(&mut b, &vec![built.copy()], Some(1), Some(0), &mixed());
    assert_eq!(b.ops[14].operands[0], built);
    assert_eq!(constant(&b.ops[15]), (64, 4));
    assert_eq!(b.ops[17].code, OpCode::Load);
    assert_eq!(b.ops[17].ty, integer(32));
    assert_eq!(b.ops[18].code, OpCode::Coerce(Coercion::PayloadStorage));
    assert_eq!(read.unwrap().ty, integer(32));
}

/// How many pointers of a value come into another address space between two
/// types.
fn moved_pointers(from: &LlvmType, to: &LlvmType) -> usize {
    match (from, to) {
        (LlvmType::Pointer(a), LlvmType::Pointer(b)) => usize::from(a != b),
        (LlvmType::Array(a, n), LlvmType::Array(b, m)) => {
            assert_eq!(n, m);
            *n as usize * moved_pointers(a, b)
        }
        (LlvmType::Struct(a, _), LlvmType::Struct(b, _)) => {
            let (mut a, mut b, mut moved) = (&**a, &**b, 0);
            while let (FieldTypes::Field(x, more_a), FieldTypes::Field(y, more_b)) = (a, b) {
                moved += moved_pointers(x, y);
                (a, b) = (&**more_a, &**more_b);
            }
            moved
        }
        _ => 0,
    }
}

/// The address space casts that the coercions of a function stand for.
fn space_casts(b: &Builder) -> usize {
    b.ops
        .iter()
        .filter(|op| matches!(op.code, OpCode::Coerce(_)))
        .map(|op| moved_pointers(&op.operands[0].ty, &op.ty))
        .sum()
}

fn bytes(n: u64) -> LlvmType {
    LlvmType::Array(Box::new(integer(8)), n)
}

/// A map with one payload field.
fn one_payload(
    members: Vec<LlvmType>,
    slot: Option<u32>,
    semantic: &LlvmType,
    byte_ty: &LlvmType,
    storage: &LlvmType,
    offset: u64,
) -> EnumSlotMap {
    EnumSlotMap {
        carrier_slot: Some(0),
        carrier_ty: Some(members[0].copy()),
        struct_ty: record(members),
        field_slots: vec![slot],
        field_types: vec![semantic.copy()],
        storage_types: vec![Some(storage.copy())],
        byte_types: vec![byte_ty.copy()],
        zero_sized: vec![false],
        field_offsets: vec![offset],
    }
}

#[test]
fn shared_pointer_niche_payload_round_trips_through_generic_storage() {
    let (shared, generic) = (LlvmType::Pointer(3), LlvmType::Pointer(0));
    let slots =
        one_payload(vec![LlvmType::Pointer(0)], Some(0), &shared, &shared, &generic, 0);
    let info = Some(with_payload(
        EnumInfo {
            discriminant: integer(64),
            abi_align: 8,
            ..niche(EnumCarrierKind::Pointer, 64, 0)
        },
        slots,
        vec![0, 1],
    ));
    let mut b = Builder::new();
    let option =
        convert_construct_enum(&mut b, &vec![arg(0, shared.copy())], Some(1), &info).unwrap();
    convert_get_discriminant(&mut b, &vec![option.copy()], &info).unwrap();
    let result = convert_enum_payload(&mut b, &vec![option], Some(1), Some(0), &info).unwrap();
    assert_eq!(result.ty, shared);
    assert_eq!(
        space_casts(&b),
        2,
        "construction must genericize the pointer and extraction must restore shared space"
    );
    assert_eq!(
        casts(&b, CastKind::PtrToInt),
        1,
        "niche discrimination must inspect the generic pointer carrier"
    );
}

#[test]
fn nested_shared_pointer_payload_round_trips_through_recursive_storage() {
    let outer = |space: u32| {
        let inner = record(vec![LlvmType::Pointer(space), integer(32), bytes(4)]);
        record(vec![inner, integer(32), bytes(4)])
    };
    let members = vec![integer(32), bytes(4), outer(0)];
    let slots = one_payload(members, Some(2), &outer(3), &outer(3), &outer(0), 8);
    let info = Some(with_payload(
        EnumInfo { abi_align: 8, ..direct(32, vec![0, 1]) },
        slots,
        vec![0, 1],
    ));
    let mut b = Builder::new();
    let option = convert_construct_enum(&mut b, &vec![arg(0, outer(3))], Some(1), &info).unwrap();
    let result = convert_enum_payload(&mut b, &vec![option], Some(1), Some(0), &info).unwrap();
    assert_eq!(result.ty, outer(3));
    assert_eq!(
        space_casts(&b),
        2,
        "construction and extraction must cast the nested shared pointer leaf"
    );
}

#[test]
fn bounded_shared_pointer_array_niche_payload_round_trips_through_recursive_storage() {
    let pointers = |space: u32| LlvmType::Array(Box::new(LlvmType::Pointer(space)), 2);
    let members = vec![LlvmType::Pointer(0), bytes(8)];
    let slots = one_payload(members, None, &pointers(3), &pointers(3), &pointers(0), 0);
    let info = Some(with_payload(
        EnumInfo {
            discriminant: integer(64),
            abi_align: 8,
            ..niche(EnumCarrierKind::Pointer, 64, 0)
        },
        slots,
        vec![0, 1],
    ));
    let mut b = Builder::new();
    let option =
        convert_construct_enum(&mut b, &vec![arg(0, pointers(3))], Some(1), &info).unwrap();
    convert_get_discriminant(&mut b, &vec![option.copy()], &info).unwrap();
    let result = convert_enum_payload(&mut b, &vec![option], Some(1), Some(0), &info).unwrap();
    assert_eq!(result.ty, pointers(3));
    assert_eq!(
        space_casts(&b),
        4,
        "construction and extraction must cast both shared-pointer array elements"
    );
    assert_eq!(
        casts(&b, CastKind::PtrToInt),
        1,
        "niche discrimination must inspect the generic first-pointer carrier"
    );
}

/// Whether a truth value is widened to a byte, and a byte is stored.
fn bool_is_stored_as_a_byte(b: &Builder) -> bool {
    let widened = b.ops.iter().any(|op| {
        matches!(op.code, OpCode::Coerce(_))
            && op.operands[0].ty == integer(1)
            && op.ty == integer(8)
    });
    let stored =
        b.ops.iter().any(|op| op.code == OpCode::Store && op.operands[0].ty == integer(8));
    widened && stored
}

#[test]
fn option_bool_uses_i8_carrier_and_spills_i1_payload() {
    let slots =
        one_payload(vec![integer(8)], None, &integer(1), &integer(8), &integer(8), 0);
    assert_eq!(
        slots.carrier_ty,
        Some(integer(8)),
        "Option<bool>'s memory carrier is i8, not bool's semantic i1"
    );
    assert_eq!(slots.field_slots, vec![None]);
    let info =
        Some(with_payload(niche(EnumCarrierKind::Integer, 8, 2), slots, vec![0, 1]));
    let mut b = Builder::new();
    convert_construct_enum(&mut b, &vec![arg(0, integer(1))], Some(1), &info).unwrap();
    assert_eq!(count(&b, OpCode::InsertValue), 0);
    assert!(bool_is_stored_as_a_byte(&b));
}

#[test]
fn direct_bool_uses_i8_storage_and_spills_i1_payload() {
    let members = vec![integer(32), integer(8), bytes(3)];
    let slots = one_payload(members, None, &integer(1), &integer(8), &integer(8), 4);
    assert_eq!(slots.field_slots, vec![None]);
    match &slots.struct_ty {
        LlvmType::Struct(fields, _) => assert_eq!(
            fields.get(1),
            Some(integer(8)),
            "the standalone Rust bool byte must use physical i8 storage"
        ),
        other => panic!("enum storage must be an LLVM struct: {other:?}"),
    }
    let info = Some(with_payload(
        EnumInfo { abi_align: 4, ..direct(32, vec![0, 1]) },
        slots,
        vec![1, 0],
    ));
    let mut b = Builder::new();
    convert_construct_enum(&mut b, &vec![arg(0, integer(1))], Some(0), &info).unwrap();
    assert_eq!(
        count(&b, OpCode::InsertValue),
        1,
        "only the direct tag should be inserted as an SSA struct field"
    );
    assert!(bool_is_stored_as_a_byte(&b));
}
