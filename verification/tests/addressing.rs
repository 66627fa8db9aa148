//! Addresses of fields and array elements.

use mir_lower::addressing::{
    convert_array_element_addr, convert_field_addr, ElementInfo, Pointee,
};
use mir_lower::carrier_field_addr;
use mir_lower::carrier_field_addr::StampedAggregate;
use mir_lower::intrinsics::common::create_i64_const;
use mir_lower::llvm::{FieldTypes, LlvmType, Signedness};
use mir_lower::lower::LowerError;
use mir_lower::memory::convert_load;
use mir_lower::ops::{Builder, Def, Index, Op, OpCode, Value};
use mir_lower::slots::{EnumSlotMap, StructInfo, StructSlotMap};

fn integer(width: u32) -> LlvmType {
    LlvmType::Integer(width, Signedness::Signless)
}

fn record(types: Vec<LlvmType>, packed: bool) -> LlvmType {
    LlvmType::Struct(Box::new(FieldTypes::of(types)), packed)
}

fn arg(n: u64, ty: LlvmType) -> Value {
    Value { def: Def::Argument(n), ty }
}

fn pointer() -> Value {
    arg(0, LlvmType::Pointer(0))
}

fn gep_source(op: &Op) -> &LlvmType {
    match &op.code {
        OpCode::Gep(ty, _) => ty,
        other => panic!("expected an address computation: {other:?}"),
    }
}

fn is_inbounds(op: &Op) -> bool {
    matches!(op.code, OpCode::Gep(_, true))
}

fn geps(b: &Builder) -> Vec<&Op> {
    b.ops.iter().filter(|op| matches!(op.code, OpCode::Gep(_, _))).collect()
}

/// `{ tag: u8, value: u32 }` and the like, where the compiler packs fields that
/// LLVM would place elsewhere.
fn packed_info(
    types: Vec<LlvmType>,
    offsets: Vec<u64>,
    natural: Vec<u64>,
    abi_align: u64,
) -> StructInfo {
    let count = types.len();
    StructInfo {
        mem_to_decl: (0..count).collect(),
        field_offsets: offsets,
        abi_align,
        map: StructSlotMap {
            struct_ty: record(types.iter().map(|t| t.copy()).collect(), true),
            decl_to_llvm: (0..count as u32).map(Some).collect(),
            field_types: types,
            natural_slot_offsets: Some(natural),
            layout_diverges: true,
        },
    }
}

fn assert_byte_addressed_field(b: &Builder, expected_offset: u128, expected_alignment: u32) {
    let geps = geps(b);
    assert_eq!(geps.len(), 1, "one field_addr must lower to one GEP");
    let gep = geps[0];
    assert_eq!(
        *gep_source(gep),
        integer(8),
        "a layout-mismatched field must be addressed in byte units"
    );
    let offset = match gep.indices.as_slice() {
        [Index::Dynamic(Value { def: Def::Result(at), .. })] => match &b.ops[*at].code {
            OpCode::ConstInt(c) => c.bits,
            other => panic!("byte offset must be constant: {other:?}"),
        },
        other => panic!("unexpected indices: {other:?}"),
    };
    assert_eq!(offset, expected_offset, "the byte GEP must use the exact field offset");
    assert_eq!(gep.align, Some(expected_alignment));
}

/// Sibling zero-sized field addresses off one base pointer each lower to their
/// own zero-offset `i8` GEP, never to the base value itself.
#[test]
fn sibling_zst_field_addrs_lower_to_distinct_zero_offset_geps() {
    let empty = record(vec![], false);
    // struct Composed { f: MapClosure (ZST), g: SumClosure (ZST), acc: i64 }
    let pointee = Some(Pointee::Aggregate(StructInfo {
        mem_to_decl: vec![0, 1, 2],
        field_offsets: vec![0, 0, 0],
        abi_align: 8,
        map: StructSlotMap {
            struct_ty: record(vec![integer(64)], false),
            decl_to_llvm: vec![None, None, Some(0)],
            field_types: vec![empty.copy(), empty, integer(64)],
            natural_slot_offsets: Some(vec![0]),
            layout_diverges: false,
        },
    }));
    let mut b = Builder::new();
    let base = pointer();
    let results: Vec<Value> = (0..3)
        .map(|field| convert_field_addr(&mut b, &base, Some(field), &pointee).unwrap())
        .collect();
    let geps = geps(&b);
    assert_eq!(geps.len(), 3, "each field_addr must lower to its own GEP");
    let zst_geps: Vec<&&Op> = geps
        .iter()
        .filter(|gep| *gep_source(gep) == integer(8) && gep.indices == vec![Index::Const(0)])
        .collect();
    assert_eq!(zst_geps.len(), 2, "both ZST field addresses must lower to zero-offset i8 GEPs");
    assert_eq!(zst_geps[0].operands[0], zst_geps[1].operands[0]);
    assert_ne!(results[0], base);
    assert_ne!(results[1], base);
    assert_ne!(results[0], results[1]);
    let acc_geps: Vec<&&Op> = geps
        .iter()
        .filter(|gep| gep.indices == vec![Index::Const(0), Index::Const(0)])
        .collect();
    assert_eq!(
        acc_geps.len(),
        1,
        "the non-ZST field address must index the struct's layout slot"
    );
}

/// `(u8, u32)` is laid out with the `u32` first, so declaration field 0 lives at
/// memory slot 1 and declaration field 1 at memory slot 0.
#[test]
fn field_addr_tuple_pointee_resolves_memory_order_gep_index() {
    let pointee = Some(Pointee::Aggregate(StructInfo {
        mem_to_decl: vec![1, 0],
        field_offsets: vec![4, 0],
        abi_align: 4,
        map: StructSlotMap {
            struct_ty: record(
                vec![integer(32), integer(8), LlvmType::Array(Box::new(integer(8)), 3)],
                false,
            ),
            decl_to_llvm: vec![Some(1), Some(0)],
            field_types: vec![integer(8), integer(32)],
            natural_slot_offsets: Some(vec![0, 4, 5]),
            layout_diverges: false,
        },
    }));
    let mut b = Builder::new();
    convert_field_addr(&mut b, &pointer(), Some(0), &pointee).unwrap();
    convert_field_addr(&mut b, &pointer(), Some(1), &pointee).unwrap();
    let geps = geps(&b);
    assert_eq!(geps.len(), 2, "each field_addr must lower to its own GEP");
    let at = |slot: u32| {
        geps.iter().filter(|gep| gep.indices == vec![Index::Const(0), Index::Const(slot)]).count()
    };
    assert_eq!(at(1), 1, "declaration field 0 (u8) must resolve to its memory slot 1, not slot 0");
    assert_eq!(at(0), 1, "declaration field 1 (u32) must resolve to its memory slot 0, not slot 1");
    assert_eq!(geps[0].indices[1], Index::Const(1));
    assert_eq!(geps[0].align, Some(4));
    assert_eq!(geps[1].align, Some(4));
}

#[test]
fn packed_field_addr_uses_rustc_byte_offset_and_alignment_one() {
    let info = packed_info(vec![integer(8), integer(32)], vec![0, 1], vec![0, 4], 1);
    let mut b = Builder::new();
    convert_field_addr(&mut b, &pointer(), Some(1), &Some(Pointee::Aggregate(info))).unwrap();
    assert_byte_addressed_field(&b, 1, 1);
}

#[test]
fn packed_two_field_addr_uses_rustc_byte_offset_and_alignment_two() {
    let info = packed_info(vec![integer(8), integer(32)], vec![0, 2], vec![0, 4], 2);
    let mut b = Builder::new();
    convert_field_addr(&mut b, &pointer(), Some(1), &Some(Pointee::Aggregate(info))).unwrap();
    assert_byte_addressed_field(&b, 2, 2);
}

#[test]
fn packed_trailing_byte_field_uses_accumulated_rustc_offset() {
    let info = packed_info(vec![integer(8), integer(32), integer(8)], vec![0, 1, 5], vec![0, 4, 8], 1);
    let mut b = Builder::new();
    convert_field_addr(&mut b, &pointer(), Some(2), &Some(Pointee::Aggregate(info))).unwrap();
    assert_byte_addressed_field(&b, 5, 1);
}

#[test]
fn packed_array_element_addressing_uses_packed_stride() {
    let element = Some(ElementInfo {
        ty: record(vec![integer(8), integer(32)], true),
        stride: Some(5),
        llvm_size: Some(5),
        abi_align: Some(1),
    });
    let mut b = Builder::new();
    convert_array_element_addr(&mut b, &pointer(), &arg(1, integer(64)), &element)
        .expect("packed element addressing must use the packed LLVM stride");
    assert_eq!(
        geps(&b).len(),
        1,
        "packed array element addressing should lower to one typed GEP"
    );
}

/// An enum with one payload field.
fn one_payload(
    semantic: LlvmType,
    storage: LlvmType,
    slot: Option<u32>,
    offset: u64,
) -> Option<Pointee> {
    Some(Pointee::Enum(EnumSlotMap {
        struct_ty: record(vec![integer(32), storage.copy()], false),
        carrier_slot: Some(0),
        carrier_ty: Some(integer(32)),
        field_slots: vec![slot],
        field_types: vec![semantic.copy()],
        storage_types: vec![Some(storage)],
        byte_types: vec![semantic],
        zero_sized: vec![false],
        field_offsets: vec![offset],
    }))
}

/// Taking the in-place address of a bool payload must fail: the payload's
/// storage is an i8 byte.
#[test]
fn bool_payload_field_addr_fails_closed() {
    let mut b = Builder::new();
    let pointee = one_payload(integer(1), integer(8), None, 4);
    assert_eq!(
        convert_field_addr(&mut b, &pointer(), Some(0), &pointee),
        Err(LowerError::PayloadStorage)
    );
    assert!(b.ops.is_empty());
}

/// Same gate where the payload has a slot: a shared-memory pointer is stored as
/// a generic one.
#[test]
fn shared_pointer_payload_field_addr_fails_closed() {
    let mut b = Builder::new();
    let pointee = one_payload(LlvmType::Pointer(3), LlvmType::Pointer(0), Some(0), 0);
    assert_eq!(
        convert_field_addr(&mut b, &pointer(), Some(0), &pointee),
        Err(LowerError::PayloadStorage)
    );
    assert!(b.ops.is_empty());
}

/// A payload with no slot of its own is addressed at its byte offset off the
/// original enum pointer.
#[test]
fn slotless_payload_field_addr_geps_original_storage_at_byte_offset() {
    let pointee = Some(Pointee::Enum(EnumSlotMap {
        struct_ty: record(vec![integer(32), LlvmType::Float], false),
        carrier_slot: Some(0),
        carrier_ty: Some(integer(32)),
        field_slots: vec![Some(1), None],
        field_types: vec![LlvmType::Float, integer(32)],
        storage_types: vec![Some(LlvmType::Float), Some(integer(32))],
        byte_types: vec![LlvmType::Float, integer(32)],
        zero_sized: vec![false, false],
        field_offsets: vec![4, 4],
    }));
    let mut b = Builder::new();
    let base = pointer();
    convert_field_addr(&mut b, &base, Some(1), &pointee).unwrap();
    assert!(
        !b.ops.iter().any(|op| matches!(op.code, OpCode::Alloca(_))),
        "an in-place payload address must not spill the enum to a stack copy"
    );
    let geps = geps(&b);
    assert_eq!(geps.len(), 1, "one field_addr lowers to one GEP");
    assert_eq!(geps[0].operands[0], base);
    assert_eq!(geps[0].indices, vec![Index::Const(4)]);
    assert_eq!(*gep_source(geps[0]), integer(8), "byte addressing must step in i8 units");
}

/// A payload whose storage is its semantic type is read by one load through its
/// address, without a copy.
#[test]
fn canonical_payload_shared_read_loads_through_gep_without_copy() {
    let pointee = one_payload(LlvmType::Float, LlvmType::Float, Some(1), 4);
    let mut b = Builder::new();
    let base = pointer();
    let addr = convert_field_addr(&mut b, &base, Some(0), &pointee).unwrap();
    let loaded = convert_load(&mut b, &addr, &LlvmType::Float, None);
    assert!(!b.ops.iter().any(|op| matches!(op.code, OpCode::Alloca(_))));
    let geps = geps(&b);
    assert_eq!(geps.len(), 1, "one field_addr lowers to one GEP");
    assert_eq!(geps[0].operands[0], base, "the GEP must address the ORIGINAL enum storage");
    assert_eq!(geps[0].indices, vec![Index::Const(0), Index::Const(1)]);
    let loads: Vec<&Op> = b.ops.iter().filter(|op| op.code == OpCode::Load).collect();
    assert_eq!(loads.len(), 1, "the read is a single load through the payload address");
    assert_eq!(loads[0].operands[0], addr, "the load must go through the GEP result, not a copy");
    assert_eq!(loaded.ty, LlvmType::Float);
}

#[test]
fn union_fields_share_the_address_of_the_union() {
    let pointee = Some(Pointee::Union(2));
    let mut b = Builder::new();
    convert_field_addr(&mut b, &pointer(), Some(1), &pointee).unwrap();
    assert_eq!(b.ops[0].indices, vec![Index::Const(0)]);
    assert!(is_inbounds(&b.ops[0]));
    let other = convert_field_addr(&mut b, &pointer(), Some(0), &pointee).unwrap();
    assert_eq!(b.ops[0], b.ops[1]);
    assert_ne!(other, pointer(), "a field address is a value of its own");
    assert_eq!(
        convert_field_addr(&mut b, &pointer(), Some(2), &pointee),
        Err(LowerError::FieldIndex)
    );
}

#[test]
fn field_addresses_that_cannot_be_formed() {
    let mut b = Builder::new();
    let ptr = pointer();
    let other = Some(Pointee::Other);
    assert_eq!(convert_field_addr(&mut b, &ptr, None, &other), Err(LowerError::MissingAttribute));
    assert_eq!(convert_field_addr(&mut b, &ptr, Some(0), &other), Err(LowerError::WrongType));
    assert_eq!(convert_field_addr(&mut b, &ptr, Some(0), &None), Err(LowerError::WrongType));
    let far = one_payload(integer(32), integer(32), None, 1 << 32);
    assert_eq!(convert_field_addr(&mut b, &ptr, Some(0), &far), Err(LowerError::OffsetTooLarge));
    assert_eq!(convert_field_addr(&mut b, &ptr, Some(1), &far), Err(LowerError::FieldIndex));
    let mut unstored = one_payload(integer(32), integer(32), None, 4);
    if let Some(Pointee::Enum(map)) = &mut unstored {
        map.storage_types = vec![None];
    }
    assert_eq!(convert_field_addr(&mut b, &ptr, Some(0), &unstored), Err(LowerError::NoStorageType));
    let mut unknown = packed_info(vec![integer(8), integer(32)], vec![0, 1], vec![0, 4], 1);
    unknown.map.natural_slot_offsets = None;
    let unknown = Some(Pointee::Aggregate(unknown));
    assert_eq!(convert_field_addr(&mut b, &ptr, Some(1), &unknown), Err(LowerError::NoSlotOffset));
    assert_eq!(convert_field_addr(&mut b, &ptr, Some(2), &unknown), Err(LowerError::FieldIndex));
    assert!(b.ops.is_empty());
}

#[test]
fn field_alignment_is_the_common_divisor_of_alignment_and_offset() {
    let aligned = |abi_align: u64, offset: u64| {
        let mut info = packed_info(vec![integer(32)], vec![offset], vec![offset], abi_align);
        info.map.layout_diverges = false;
        let mut b = Builder::new();
        convert_field_addr(&mut b, &pointer(), Some(0), &Some(Pointee::Aggregate(info))).unwrap();
        b.ops[0].align
    };
    assert_eq!(aligned(8, 0), Some(8));
    assert_eq!(aligned(8, 4), Some(4));
    assert_eq!(aligned(8, 12), Some(4));
    assert_eq!(aligned(16, 24), Some(8));
    assert_eq!(aligned(0, 4), None);
    assert_eq!(aligned(12, 0), None, "an alignment that is no power of two is not claimed");
    assert_eq!(aligned(1 << 32, 0), None);
}

#[test]
fn element_alignment_follows_base_stride_and_index() {
    let element = |stride: Option<u64>, abi_align: Option<u64>| {
        Some(ElementInfo { ty: integer(32), stride, llvm_size: stride, abi_align })
    };
    let mut b = Builder::new();
    let index = arg(1, integer(64));
    convert_array_element_addr(&mut b, &pointer(), &index, &element(Some(12), Some(8))).unwrap();
    assert_eq!(b.ops[0].align, Some(4), "every element of stride 12 is 4-aligned");
    let zero = create_i64_const(&mut b, 0);
    let first = convert_array_element_addr(&mut b, &pointer(), &zero, &element(Some(12), Some(8)))
        .unwrap();
    assert_eq!(b.ops[2].align, Some(8), "the first element has the alignment of the array");
    let two = create_i64_const(&mut b, 2);
    convert_array_element_addr(&mut b, &first, &two, &element(Some(4), Some(4))).unwrap();
    assert_eq!(b.ops[4].align, Some(8), "the base address has already proved more");
    convert_array_element_addr(&mut b, &pointer(), &index, &element(None, Some(8))).unwrap();
    assert_eq!(b.ops[5].align, None);
    convert_array_element_addr(&mut b, &pointer(), &index, &element(Some(4), None)).unwrap();
    assert_eq!(b.ops[6].align, None);
}

#[test]
fn elements_of_disputed_size_are_refused() {
    let element =
        Some(ElementInfo { ty: integer(32), stride: Some(5), llvm_size: Some(8), abi_align: None });
    let mut b = Builder::new();
    let index = arg(1, integer(64));
    assert_eq!(
        convert_array_element_addr(&mut b, &pointer(), &index, &element),
        Err(LowerError::StrideMismatch)
    );
    assert_eq!(
        convert_array_element_addr(&mut b, &pointer(), &index, &None),
        Err(LowerError::WrongType)
    );
}

#[test]
fn carrier_fields_are_addressed_by_slot_whatever_the_natural_layout() {
    let carrier = record(vec![integer(8), LlvmType::Pointer(0)], true);
    let info = || packed_info(vec![integer(8), LlvmType::Pointer(3)], vec![0, 1], vec![0, 8], 1);
    let stamped = StampedAggregate::Struct(info());
    let mut b = Builder::new();
    carrier_field_addr::convert_field_addr(
        &mut b,
        &pointer(),
        Some(1),
        &None,
        &stamped,
        &Some(carrier.copy()),
    )
    .unwrap();
    assert_eq!(b.ops.len(), 1);
    assert_eq!(b.ops[0].code, OpCode::Gep(carrier, false));
    assert_eq!(b.ops[0].indices, vec![Index::Const(0), Index::Const(1)]);
    assert_eq!(b.ops[0].align, Some(1));
    let loose = Some(record(vec![integer(8), LlvmType::Pointer(0)], false));
    assert_eq!(
        carrier_field_addr::convert_field_addr(
            &mut b,
            &pointer(),
            Some(1),
            &None,
            &stamped,
            &loose
        ),
        Err(LowerError::CarrierNotPacked)
    );
    let pointee = Some(Pointee::Aggregate(info()));
    carrier_field_addr::convert_field_addr(
        &mut b,
        &pointer(),
        Some(1),
        &pointee,
        &StampedAggregate::Missing,
        &None,
    )
    .unwrap();
    assert_eq!(*gep_source(&b.ops[2]), integer(8), "without a carrier the byte offset counts");
}
