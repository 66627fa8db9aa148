//! Addresses of fields and array elements.

use crate::alignment::{
    element_address_alignment, element_alignment, field_address_alignment, field_alignment,
};
use crate::byte_access::{aligned_byte_offset_gep, byte_gep_ops};
use crate::ints::IntConst;
use crate::llvm::LlvmType;
use crate::lower::{emits, Emitted, LowerError};
use crate::ops::{one_index, Builder, Def, Index, OpCode, OpView, Value};
use crate::slots::{EnumSlotMap, StructInfo};
use vstd::prelude::*;

verus! {

/// What a pointer points to.
#[derive(PartialEq, Eq, Debug)]
pub enum Pointee {
    /// A union, by the number of its fields.
    Union(usize),
    Enum(EnumSlotMap),
    /// A struct or tuple.
    Aggregate(StructInfo),
    Other,
}

impl Pointee {
    pub open spec fn wf(self) -> bool {
        match self {
            Pointee::Enum(map) => map.wf(),
            Pointee::Aggregate(info) => info.wf(),
            _ => true,
        }
    }
}

/// The address of an aggregate itself, as a value of its own.
pub open spec fn zero_gep(ptr: Value, inbounds: bool) -> OpView {
    OpView::indexed(
        OpCode::Gep(LlvmType::spec_int(8), inbounds),
        ptr.ty,
        seq![ptr],
        seq![Index::Const(0)],
    )
}

/// The address of the member at `slot`.
pub open spec fn slot_gep(ptr: Value, ty: LlvmType, slot: u32, inbounds: bool) -> OpView {
    OpView::indexed(
        OpCode::Gep(ty, inbounds),
        ptr.ty,
        seq![ptr],
        seq![Index::Const(0), Index::Const(slot)],
    )
}

/// The address of a payload field. It is refused where the field is stored in
/// another type than it has as a value: accesses through an address that has
/// left are made with the type of the value.
pub open spec fn payload_addr_ops(ptr: Value, map: EnumSlotMap, field: nat) -> Emitted {
    if field >= map.field_slots@.len() {
        Err(LowerError::FieldIndex)
    } else {
        let at = field as int;
        match map.storage_types@[at] {
            None => Err(LowerError::NoStorageType),
            Some(storage) => if storage != map.field_types@[at] {
                Err(LowerError::PayloadStorage)
            } else {
                match map.field_slots@[at] {
                    Some(slot) => Ok(seq![slot_gep(ptr, map.struct_ty, slot, true)]),
                    None => if map.field_offsets@[at] > u32::MAX {
                        Err(LowerError::OffsetTooLarge)
                    } else {
                        Ok(
                            seq![
                                OpView::gep(
                                    ptr,
                                    LlvmType::spec_int(8),
                                    seq![Index::Const(map.field_offsets@[at] as u32)],
                                ),
                            ],
                        )
                    },
                }
            },
        }
    }
}

/// The recorded byte offset of a field.
pub open spec fn recorded_offset(info: StructInfo, field: nat) -> Option<u64> {
    if field < info.field_offsets@.len() {
        Some(info.field_offsets@[field as int])
    } else {
        None
    }
}

/// The byte offset of a slot under natural layout.
pub open spec fn natural_offset(info: StructInfo, slot: u32) -> Option<u64> {
    match info.map.natural_slot_offsets {
        Some(offsets) => if slot < offsets@.len() {
            Some(offsets@[slot as int])
        } else {
            None
        },
        None => None,
    }
}

/// The address of a field of a struct or tuple: by its slot, or by its byte
/// offset where the natural layout of the slots places it elsewhere. A field
/// that occupies no memory has the address of the aggregate.
pub open spec fn aggregate_addr_ops(n: nat, ptr: Value, info: StructInfo, field: nat) -> Emitted {
    if field >= info.map.decl_to_llvm@.len() {
        Err(LowerError::FieldIndex)
    } else {
        let offset = recorded_offset(info, field);
        let align = field_alignment(info.abi_align, offset);
        match info.map.decl_to_llvm@[field as int] {
            None => Ok(seq![zero_gep(ptr, true)]),
            Some(slot) => {
                let by_slot = seq![slot_gep(ptr, info.map.struct_ty, slot, true).aligned(align)];
                match offset {
                    None => Ok(by_slot),
                    Some(expected) => match natural_offset(info, slot) {
                        None => Err(LowerError::NoSlotOffset),
                        Some(actual) => if info.map.layout_diverges && actual != expected {
                            let bytes = byte_gep_ops(n, ptr, expected);
                            Ok(seq![bytes[0], bytes[1].aligned(align)])
                        } else {
                            Ok(by_slot)
                        },
                    },
                }
            },
        }
    }
}

/// The address of a field.
pub open spec fn field_addr_ops(
    n: nat,
    ptr: Value,
    field: Option<u32>,
    pointee: Option<Pointee>,
) -> Emitted {
    match (field, pointee) {
        (None, _) => Err(LowerError::MissingAttribute),
        (Some(_), None) => Err(LowerError::WrongType),
        (Some(i), Some(Pointee::Union(fields))) => if i >= fields {
            Err(LowerError::FieldIndex)
        } else {
            Ok(seq![zero_gep(ptr, true)])
        },
        (Some(i), Some(Pointee::Enum(map))) => payload_addr_ops(ptr, map, i as nat),
        (Some(i), Some(Pointee::Aggregate(info))) => aggregate_addr_ops(n, ptr, info, i as nat),
        (Some(_), Some(Pointee::Other)) => Err(LowerError::WrongType),
    }
}

/// Emits the address of an aggregate itself.
pub(crate) fn emit_zero_gep(b: &mut Builder, ptr: &Value, inbounds: bool) -> (r: Value)
    ensures
        final(b)@ == old(b)@.push(zero_gep(*ptr, inbounds)),
        r == Value::at(old(b)@.len(), ptr.ty),
{
    b.gep(ptr, &LlvmType::int_type(8), one_index(0), inbounds, None)
}

/// Emits the address of the member at `slot`.
pub(crate) fn emit_slot_gep(
    b: &mut Builder,
    ptr: &Value,
    ty: &LlvmType,
    slot: u32,
    inbounds: bool,
    align: Option<u32>,
) -> (r: Value)
    ensures
        final(b)@ == old(b)@.push(slot_gep(*ptr, *ty, slot, inbounds).aligned(align)),
        r == Value::at(old(b)@.len(), ptr.ty),
{
    let indices: Vec<Index> = vec![Index::Const(0), Index::Const(slot)];
    proof {
        assert(indices@ =~= seq![Index::Const(0), Index::Const(slot)]);
    }
    b.gep(ptr, ty, indices, inbounds, align)
}

fn convert_payload_addr(b: &mut Builder, ptr: &Value, map: &EnumSlotMap, field: usize) -> (r:
    Result<Value, LowerError>)
    requires
        map.wf(),
    ensures
        emits(old(b)@, final(b)@, r, payload_addr_ops(*ptr, *map, field as nat)),
{
    let ghost expected = payload_addr_ops(*ptr, *map, field as nat);
    if field >= map.field_slots.len() {
        return Err(LowerError::FieldIndex);
    }
    let storage = match &map.storage_types[field] {
        Some(storage) => storage,
        None => {
            return Err(LowerError::NoStorageType);
        },
    };
    if !storage.same(&map.field_types[field]) {
        return Err(LowerError::PayloadStorage);
    }
    let r = match map.field_slots[field] {
        Some(slot) => emit_slot_gep(b, ptr, &map.struct_ty, slot, true, None),
        None => {
            let offset: u64 = map.field_offsets[field];
            if offset > u32::MAX as u64 {
                return Err(LowerError::OffsetTooLarge);
            }
            b.gep(ptr, &LlvmType::int_type(8), one_index(offset as u32), true, None)
        },
    };
    proof {
        assert(b@ =~= old(b)@ + expected.unwrap());
    }
    Ok(r)
}

/// The recorded byte offset of a field.
pub(crate) fn field_offset(info: &StructInfo, field: usize) -> (r: Option<u64>)
    ensures
        r == recorded_offset(*info, field as nat),
{
    if field < info.field_offsets.len() {
        Some(info.field_offsets[field])
    } else {
        None
    }
}

fn natural_slot_offset(info: &StructInfo, slot: u32) -> (r: Option<u64>)
    ensures
        r == natural_offset(*info, slot),
{
    match &info.map.natural_slot_offsets {
        Some(offsets) => if (slot as usize) < offsets.len() {
            Some(offsets[slot as usize])
        } else {
            None
        },
        None => None,
    }
}

fn convert_aggregate_addr(b: &mut Builder, ptr: &Value, info: &StructInfo, field: usize) -> (r:
    Result<Value, LowerError>)
    requires
        info.wf(),
    ensures
        emits(
            old(b)@,
            final(b)@,
            r,
            aggregate_addr_ops(old(b)@.len(), *ptr, *info, field as nat),
        ),
{
    let ghost expected_ops = aggregate_addr_ops(old(b)@.len(), *ptr, *info, field as nat);
    if field >= info.map.decl_to_llvm.len() {
        return Err(LowerError::FieldIndex);
    }
    let offset = field_offset(info, field);
    let align = field_address_alignment(info.abi_align, offset);
    let slot: u32 = match info.map.decl_to_llvm[field] {
        Some(slot) => slot,
        None => {
            let r = emit_zero_gep(b, ptr, true);
            proof {
                assert(b@ =~= old(b)@ + expected_ops.unwrap());
            }
            return Ok(r);
        },
    };
    if let Some(expected) = offset {
        let actual: u64 = match natural_slot_offset(info, slot) {
            Some(actual) => actual,
            None => {
                return Err(LowerError::NoSlotOffset);
            },
        };
        if info.map.layout_diverges && actual != expected {
            let r = aligned_byte_offset_gep(b, ptr, expected, align);
            proof {
                assert(b@ =~= old(b)@ + expected_ops.unwrap());
            }
            return Ok(r);
        }
    }
    let r = emit_slot_gep(b, ptr, &info.map.struct_ty, slot, true, align);
    proof {
        assert(b@ =~= old(b)@ + expected_ops.unwrap());
    }
    Ok(r)
}

/// Lowers the address of a field. `pointee` is what the pointer was recorded to
/// point to, if a pointer type was recorded.
pub fn convert_field_addr(
    b: &mut Builder,
    ptr: &Value,
    field: Option<u32>,
    pointee: &Option<Pointee>,
) -> (r: Result<Value, LowerError>)
    requires
        pointee matches Some(p) ==> p.wf(),
    ensures
        emits(old(b)@, final(b)@, r, field_addr_ops(old(b)@.len(), *ptr, field, *pointee)),
{
    let ghost expected = field_addr_ops(old(b)@.len(), *ptr, field, *pointee);
    let index: usize = match field {
        Some(i) => i as usize,
        None => {
            return Err(LowerError::MissingAttribute);
        },
    };
    match pointee {
        None => Err(LowerError::WrongType),
        Some(Pointee::Union(fields)) => {
            if index >= *fields {
                return Err(LowerError::FieldIndex);
            }
            let r = emit_zero_gep(b, ptr, true);
            proof {
                assert(b@ =~= old(b)@ + expected.unwrap());
            }
            Ok(r)
        },
        Some(Pointee::Enum(map)) => convert_payload_addr(b, ptr, map, index),
        Some(Pointee::Aggregate(info)) => convert_aggregate_addr(b, ptr, info, index),
        Some(Pointee::Other) => Err(LowerError::WrongType),
    }
}

/// The operation that a value is the result of.
pub open spec fn defining_op(ops: Seq<OpView>, value: Value) -> Option<OpView> {
    match value.def {
        Def::Result(at) => if at < ops.len() {
            Some(ops[at as int])
        } else {
            None
        },
        Def::Argument(_) => None,
    }
}

/// The low 64 bits of a constant of at most 64 bits.
pub open spec fn constant_bits(c: IntConst) -> Option<u64> {
    if c.width <= 64 {
        Some((c.bits % 0x1_0000_0000_0000_0000) as u64)
    } else {
        None
    }
}

/// The integer constant that a value holds, if it is one of at most 64 bits.
pub open spec fn constant_value(ops: Seq<OpView>, value: Value) -> Option<u64> {
    match defining_op(ops, value) {
        Some(op) => match op.code {
            OpCode::ConstInt(c) => constant_bits(c),
            _ => None,
        },
        None => None,
    }
}

/// The integer constant that a value holds.
pub fn constant_index_value(b: &Builder, value: &Value) -> (r: Option<u64>)
    ensures
        r == constant_value(b@, *value),
{
    match value.def {
        Def::Result(at) => {
            if at >= b.ops.len() {
                return None;
            }
            proof {
                assert(b@[at as int] == b.ops@[at as int]@);
            }
            match &b.ops[at].code {
                OpCode::ConstInt(c) => if c.width <= 64 {
                    Some((c.bits % 0x1_0000_0000_0000_0000) as u64)
                } else {
                    None
                },
                _ => None,
            }
        },
        Def::Argument(_) => None,
    }
}

/// The alignment that an address computation has recorded for its result.
pub open spec fn address_alignment(ops: Seq<OpView>, value: Value) -> Option<u32> {
    match defining_op(ops, value) {
        Some(op) => match op.code {
            OpCode::Gep(_, _) => op.align,
            _ => None,
        },
        None => None,
    }
}

fn recorded_address_alignment(b: &Builder, value: &Value) -> (r: Option<u32>)
    ensures
        r == address_alignment(b@, *value),
{
    match value.def {
        Def::Result(at) => {
            if at >= b.ops.len() {
                return None;
            }
            proof {
                assert(b@[at as int] == b.ops@[at as int]@);
            }
            match &b.ops[at].code {
                OpCode::Gep(_, _) => b.ops[at].align,
                _ => None,
            }
        },
        Def::Argument(_) => None,
    }
}

/// The element type of an array, with what is known of its size.
#[derive(PartialEq, Eq, Debug)]
pub struct ElementInfo {
    pub ty: LlvmType,
    /// The distance of elements in the compiler's layout.
    pub stride: Option<u64>,
    /// The size that LLVM allocates for the type.
    pub llvm_size: Option<u64>,
    pub abi_align: Option<u64>,
}

/// The alignment of the array that an address starts: what the address has
/// recorded, else that of the element type.
pub open spec fn array_alignment(
    ops: Seq<OpView>,
    array: Value,
    element: ElementInfo,
) -> Option<u64> {
    match address_alignment(ops, array) {
        Some(align) => Some(align as u64),
        None => element.abi_align,
    }
}

/// The alignment that an element address provably has.
pub fn element_address_provable_alignment(
    b: &Builder,
    array: &Value,
    element: &ElementInfo,
    index: &Value,
) -> (r: Option<u32>)
    ensures
        r == element_alignment(
            array_alignment(b@, *array, *element),
            element.stride,
            constant_value(b@, *index),
        ),
{
    let base: Option<u64> = match recorded_address_alignment(b, array) {
        Some(align) => Some(align as u64),
        None => element.abi_align,
    };
    element_address_alignment(base, element.stride, constant_index_value(b, index))
}

/// The address of an array element.
pub open spec fn element_addr_ops(
    ops: Seq<OpView>,
    array: Value,
    index: Value,
    element: Option<ElementInfo>,
) -> Emitted {
    match element {
        None => Err(LowerError::WrongType),
        Some(info) => if info.stride is Some && info.llvm_size is Some && info.stride
            != info.llvm_size {
            Err(LowerError::StrideMismatch)
        } else {
            Ok(
                seq![
                    OpView::gep(array, info.ty, seq![Index::Dynamic(index)]).aligned(
                        element_alignment(
                            array_alignment(ops, array, info),
                            info.stride,
                            constant_value(ops, index),
                        ),
                    ),
                ],
            )
        },
    }
}

/// Lowers the address of an array element. `element` is what the result points
/// to, if it is a pointer.
pub fn convert_array_element_addr(
    b: &mut Builder,
    array: &Value,
    index: &Value,
    element: &Option<ElementInfo>,
) -> (r: Result<Value, LowerError>)
    ensures
        emits(old(b)@, final(b)@, r, element_addr_ops(old(b)@, *array, *index, *element)),
{
    let ghost expected = element_addr_ops(old(b)@, *array, *index, *element);
    let info = match element {
        Some(info) => info,
        None => {
            return Err(LowerError::WrongType);
        },
    };
    if let (Some(stride), Some(size)) = (info.stride, info.llvm_size) {
        if stride != size {
            return Err(LowerError::StrideMismatch);
        }
    }
    let align = element_address_provable_alignment(b, array, info, index);
    let mut indices: Vec<Index> = Vec::new();
    indices.push(Index::Dynamic(index.copy()));
    proof {
        assert(indices@ =~= seq![Index::Dynamic(*index)]);
    }
    let r = b.gep(array, &info.ty, indices, true, align);
    proof {
        assert(b@ =~= old(b)@ + expected.unwrap());
    }
    Ok(r)
}

/// A field address is a value of its own, never the pointer it starts from, and
/// stays in the address space of that pointer.
pub proof fn law_field_address(n: nat, ptr: Value, field: Option<u32>, pointee: Option<Pointee>)
    ensures
        field_addr_ops(n, ptr, field, pointee) matches Ok(ops) ==> ops.len() > 0
            && ops.last().code is Gep && ops.last().ty == ptr.ty && ops.last().operands == seq![
            ptr,
        ],
{
}

/// All fields of a union have one address.
pub proof fn law_union_fields(n: nat, ptr: Value, i: u32, j: u32, fields: usize)
    requires
        i < fields,
        j < fields,
    ensures
        field_addr_ops(n, ptr, Some(i), Some(Pointee::Union(fields))) == field_addr_ops(
            n,
            ptr,
            Some(j),
            Some(Pointee::Union(fields)),
        ),
        field_addr_ops(n, ptr, Some(i), Some(Pointee::Union(fields))) is Ok,
{
}

} // verus!
