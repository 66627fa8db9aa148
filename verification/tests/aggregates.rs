//! Structs, tuples, slices and arrays as values.

use mir_lower::aggregates::{
    convert_construct_array, convert_construct_slice, convert_construct_struct,
    convert_construct_tuple, convert_extract_field, convert_insert_field, recorded_mapped_type,
    resolve_aggregate_slots, AggregateSlots,
};
use mir_lower::array_extract::ArrayInfo;
use mir_lower::llvm::{FieldTypes, LlvmType, Signedness};
use mir_lower::lower::{LowerError, Operand};
use mir_lower::mir::{Layout, MirType};
use mir_lower::ops::{Builder, Def, Index, Op, OpCode, Value};
use mir_lower::slots::{StructInfo, StructSlotMap};

fn integer(width: u32) -> LlvmType {
    LlvmType::Integer(width, Signedness::Signless)
}

fn record(types: Vec<LlvmType>) -> LlvmType {
    LlvmType::Struct(Box::new(FieldTypes::of(types)), false)
}

fn arg(n: u64, ty: LlvmType) -> Value {
    Value { def: Def::Argument(n), ty }
}

fn struct_ty() -> LlvmType {
    record(vec![LlvmType::Double, integer(32)])
}

/// Three fields, stored as the third, then the first; the second has no size.
fn map() -> StructSlotMap {
    StructSlotMap {
        struct_ty: struct_ty(),
        decl_to_llvm: vec![Some(1), None, Some(0)],
        field_types: vec![integer(32), record(vec![]), LlvmType::Double],
        natural_slot_offsets: None,
        layout_diverges: false,
    }
}

fn info() -> StructInfo {
    StructInfo { mem_to_decl: vec![2, 0, 1], field_offsets: vec![], abi_align: 8, map: map() }
}

fn parts() -> Vec<Value> {
    vec![arg(0, integer(32)), arg(1, record(vec![])), arg(2, LlvmType::Double)]
}

fn mir_struct() -> MirType {
    MirType::Struct("S".to_string(), vec![], vec![], Layout::unknown())
}

fn structure() -> Operand {
    Operand { value: arg(9, struct_ty()), history: vec![mir_struct()] }
}

/// The members that a sequence of insertions leaves in an aggregate.
fn members(ops: &[Op]) -> Vec<(u32, Value)> {
    ops.iter()
        .filter(|op| op.code == OpCode::InsertValue)
        .map(|op| match op.indices.as_slice() {
            [Index::Const(slot)] => (*slot, op.operands[1].copy()),
            other => panic!("one constant index expected: {other:?}"),
        })
        .collect()
}

#[test]
fn structs_are_filled_in_memory_order() {
    let mut b = Builder::new();
    let r = convert_construct_struct(&mut b, &parts(), &Some(info())).unwrap();
    assert_eq!(b.ops[0].code, OpCode::Undef);
    assert_eq!(members(&b.ops), vec![(0, arg(2, LlvmType::Double)), (1, arg(0, integer(32)))]);
    assert_eq!(r, Value { def: Def::Result(2), ty: struct_ty() });
}

#[test]
fn tuples_are_filled_as_declared() {
    let mut b = Builder::new();
    convert_construct_tuple(&mut b, &parts(), &Some(info())).unwrap();
    assert_eq!(members(&b.ops), vec![(1, arg(0, integer(32))), (0, arg(2, LlvmType::Double))]);
}

#[test]
fn aggregates_that_cannot_be_built() {
    let mut b = Builder::new();
    assert_eq!(convert_construct_struct(&mut b, &parts(), &None), Err(LowerError::WrongType));
    assert_eq!(convert_construct_tuple(&mut b, &parts(), &None), Err(LowerError::WrongType));
    assert_eq!(
        convert_construct_struct(&mut b, &vec![], &Some(info())),
        Err(LowerError::OperandCount)
    );
    assert_eq!(
        convert_construct_tuple(&mut b, &vec![], &Some(info())),
        Err(LowerError::OperandCount)
    );
    assert_eq!(convert_construct_array(&mut b, &vec![], &None), Err(LowerError::WrongType));
    let (data, len) = (arg(0, LlvmType::Pointer(0)), arg(1, integer(64)));
    assert_eq!(convert_construct_slice(&mut b, &data, &len, false), Err(LowerError::WrongType));
    assert!(b.ops.is_empty());
}

#[test]
fn slices_hold_pointer_and_length() {
    let mut b = Builder::new();
    let (data, len) = (arg(0, LlvmType::Pointer(0)), arg(1, integer(64)));
    let r = convert_construct_slice(&mut b, &data, &len, true).unwrap();
    assert_eq!(members(&b.ops), vec![(0, data), (1, len)]);
    assert_eq!(r.ty, LlvmType::slice_struct());
}

#[test]
fn arrays_hold_their_elements_in_order() {
    let mut b = Builder::new();
    let elements: Vec<Value> = (0..3).map(|n| arg(n, integer(8))).collect();
    let array = Some(ArrayInfo { element: integer(8), size: 3, abi_align: Some(1) });
    let r = convert_construct_array(&mut b, &elements, &array).unwrap();
    assert_eq!(r.ty, LlvmType::Array(Box::new(integer(8)), 3));
    let expected: Vec<(u32, Value)> = (0..3).map(|n| (n, arg(n as u64, integer(8)))).collect();
    assert_eq!(members(&b.ops), expected);
}

/// A field that was inserted is the one that is read.
#[test]
fn fields_are_read_from_their_slots() {
    let mut b = Builder::new();
    let slots = vec![Some(map())];
    let r = convert_extract_field(&mut b, &structure(), Some(0), &slots).unwrap();
    assert_eq!(b.ops[0].indices, vec![Index::Const(1)]);
    assert_eq!(r, Value { def: Def::Result(0), ty: integer(32) });
    convert_insert_field(&mut b, &structure(), &arg(1, integer(32)), Some(0), &slots).unwrap();
    assert_eq!(b.ops[1].indices, vec![Index::Const(1)]);
    let empty = convert_extract_field(&mut b, &structure(), Some(1), &slots).unwrap();
    assert_eq!(empty.ty, record(vec![]));
    assert_eq!(b.ops[2].code, OpCode::Undef);
    let same =
        convert_insert_field(&mut b, &structure(), &arg(1, record(vec![])), Some(1), &slots);
    assert_eq!(same, Ok(arg(9, struct_ty())));
    assert_eq!(b.ops.len(), 3);
}

#[test]
fn integers_are_their_own_field() {
    let mut b = Builder::new();
    let wrapper = Operand { value: arg(0, integer(64)), history: vec![] };
    assert_eq!(convert_extract_field(&mut b, &wrapper, None, &vec![]), Ok(arg(0, integer(64))));
    assert!(b.ops.is_empty());
}

#[test]
fn fields_that_cannot_be_read() {
    let mut b = Builder::new();
    let slots = vec![Some(map())];
    assert_eq!(
        convert_extract_field(&mut b, &structure(), None, &slots),
        Err(LowerError::MissingAttribute)
    );
    assert_eq!(
        convert_insert_field(&mut b, &structure(), &arg(0, integer(8)), None, &slots),
        Err(LowerError::MissingAttribute)
    );
    assert_eq!(
        convert_extract_field(&mut b, &structure(), Some(3), &slots),
        Err(LowerError::FieldIndex)
    );
    let unknown = Operand { value: arg(0, struct_ty()), history: vec![] };
    assert_eq!(
        convert_extract_field(&mut b, &unknown, Some(0), &vec![]),
        Err(LowerError::NoFieldMapping)
    );
    let slice = Operand { value: arg(0, LlvmType::slice_struct()), history: vec![] };
    assert_eq!(
        convert_extract_field(&mut b, &slice, Some(2), &vec![]),
        Err(LowerError::NoSuchMember)
    );
    assert!(b.ops.is_empty());
}

#[test]
fn only_arrays_and_slices_take_the_index_as_it_stands() {
    let of = |ty: LlvmType, history: Vec<MirType>| {
        resolve_aggregate_slots(&Operand { value: arg(0, ty), history })
    };
    let elements = || MirType::Array(Box::new(MirType::Float), 2);
    assert_eq!(of(struct_ty(), vec![mir_struct()]), Ok(AggregateSlots::Mapped(0)));
    assert_eq!(of(struct_ty(), vec![elements(), mir_struct()]), Ok(AggregateSlots::Mapped(1)));
    assert_eq!(of(struct_ty(), vec![elements()]), Ok(AggregateSlots::Identity));
    assert_eq!(of(LlvmType::slice_struct(), vec![]), Ok(AggregateSlots::Identity));
    assert_eq!(
        of(LlvmType::Array(Box::new(integer(8)), 2), vec![]),
        Ok(AggregateSlots::Identity)
    );
    assert_eq!(of(struct_ty(), vec![MirType::Float]), Err(LowerError::NoFieldMapping));
}

/// The most recent struct counts, and a tuple only where there is no struct.
#[test]
fn structs_take_precedence_over_tuples() {
    let tuple = || MirType::Tuple(vec![], Layout::unknown());
    assert_eq!(recorded_mapped_type(&vec![mir_struct(), tuple()]), Some(0));
    assert_eq!(recorded_mapped_type(&vec![mir_struct(), mir_struct(), tuple()]), Some(1));
    assert_eq!(recorded_mapped_type(&vec![tuple(), MirType::Float, tuple()]), Some(2));
    assert_eq!(recorded_mapped_type(&vec![MirType::Float]), None);
    let other = StructSlotMap { decl_to_llvm: vec![Some(0)], field_types: vec![integer(8)], ..map() };
    let operand =
        Operand { value: arg(9, struct_ty()), history: vec![mir_struct(), tuple()] };
    let mut b = Builder::new();
    let maps = vec![Some(map()), Some(other)];
    convert_extract_field(&mut b, &operand, Some(0), &maps).unwrap();
    assert_eq!(b.ops[0].indices, vec![Index::Const(1)]);
}
