//! Building structs, tuples, slices and arrays, and access to their fields.

use crate::array_extract::ArrayInfo;
use crate::call::Outcome;
use crate::llvm::LlvmType;
use crate::lower::{emits, Emitted, LowerError, Operand};
use crate::mir::MirType;
use crate::ops::{Builder, OpView, Value};
use crate::slots::{StructInfo, StructSlotMap};
use vstd::prelude::*;

verus! {

/// The most recent struct among the first `n` recorded types.
pub open spec fn last_struct(history: Seq<MirType>, n: nat) -> Option<int>
    decreases n,
{
    if n == 0 {
        None
    } else if history[n - 1] is Struct {
        Some(n - 1)
    } else {
        last_struct(history, (n - 1) as nat)
    }
}

/// The most recent tuple among the first `n` recorded types.
pub open spec fn last_tuple(history: Seq<MirType>, n: nat) -> Option<int>
    decreases n,
{
    if n == 0 {
        None
    } else if history[n - 1] is Tuple {
        Some(n - 1)
    } else {
        last_tuple(history, (n - 1) as nat)
    }
}

/// The recorded type whose slots count: the most recent struct, and only without
/// one the most recent tuple.
pub open spec fn mapped_type(history: Seq<MirType>) -> Option<int> {
    match last_struct(history, history.len()) {
        Some(at) => Some(at),
        None => last_tuple(history, history.len()),
    }
}

/// The recorded type whose slots count.
pub fn recorded_mapped_type(history: &Vec<MirType>) -> (r: Option<usize>)
    ensures
        match r {
            Some(at) => mapped_type(history@) == Some(at as int) && at < history@.len() && (
            history@[at as int] is Struct || history@[at as int] is Tuple),
            None => mapped_type(history@) is None,
        },
{
    let mut structure: Option<usize> = None;
    let mut tuple: Option<usize> = None;
    let mut i: usize = 0;
    while i < history.len()
        invariant
            i <= history.len(),
            match structure {
                Some(at) => last_struct(history@, i as nat) == Some(at as int) && at < i
                    && history@[at as int] is Struct,
                None => last_struct(history@, i as nat) is None,
            },
            match tuple {
                Some(at) => last_tuple(history@, i as nat) == Some(at as int) && at < i
                    && history@[at as int] is Tuple,
                None => last_tuple(history@, i as nat) is None,
            },
        decreases history.len() - i,
    {
        match &history[i] {
            MirType::Struct(_, _, _, _) => {
                structure = Some(i);
            },
            MirType::Tuple(_, _) => {
                tuple = Some(i);
            },
            _ => {},
        }
        i = i + 1;
    }
    match structure {
        Some(at) => Some(at),
        None => tuple,
    }
}

/// Whether an array or slice was recorded.
pub open spec fn recorded_elements(history: Seq<MirType>) -> bool {
    exists|i: int|
        0 <= i < history.len() && ((#[trigger] history[i]) is Array || history[i] is Slice
            || history[i] is DisjointSlice)
}

/// How field indices map to the members of the LLVM aggregate.
#[derive(Clone, Copy, PartialEq, Eq, Structural, Debug)]
pub enum AggregateSlots {
    /// By the slots of the recorded type at this position.
    Mapped(usize),
    /// The index is the member.
    Identity,
}

/// How field indices of an operand map to members. An index is only taken as it
/// stands where nothing is reordered, padded or left out: in arrays and in the
/// fat pointers of slices.
pub open spec fn aggregate_slots(aggregate: Operand) -> Result<AggregateSlots, LowerError> {
    match mapped_type(aggregate.history@) {
        Some(at) => Ok(AggregateSlots::Mapped(at as usize)),
        None => if recorded_elements(aggregate.history@) || aggregate.value.ty
            == LlvmType::spec_slice() || aggregate.value.ty is Array {
            Ok(AggregateSlots::Identity)
        } else {
            Err(LowerError::NoFieldMapping)
        },
    }
}

/// How field indices of an operand map to members.
pub fn resolve_aggregate_slots(aggregate: &Operand) -> (r: Result<AggregateSlots, LowerError>)
    ensures
        r == aggregate_slots(*aggregate),
        r matches Ok(AggregateSlots::Mapped(at)) ==> at < aggregate.history@.len() && (
        aggregate.history@[at as int] is Struct || aggregate.history@[at as int] is Tuple),
{
    let history = &aggregate.history;
    if let Some(at) = recorded_mapped_type(history) {
        return Ok(AggregateSlots::Mapped(at));
    }
    let mut elements: bool = false;
    let mut i: usize = 0;
    while i < history.len()
        invariant
            i <= history.len(),
            history@ == aggregate.history@,
            elements == exists|j: int|
                0 <= j < i && ((#[trigger] history@[j]) is Array || history@[j] is Slice
                    || history@[j] is DisjointSlice),
        decreases history.len() - i,
    {
        match &history[i] {
            MirType::Array(_, _) | MirType::Slice(_) | MirType::DisjointSlice(_, _) => {
                elements = true;
            },
            _ => {},
        }
        i = i + 1;
    }
    if elements || aggregate.value.ty.same(&LlvmType::slice_struct())
        || aggregate.value.ty.is_array() {
        Ok(AggregateSlots::Identity)
    } else {
        Err(LowerError::NoFieldMapping)
    }
}

/// There are slots for every recorded struct and tuple.
pub open spec fn slots_known(aggregate: Operand, maps: Seq<Option<StructSlotMap>>) -> bool {
    &&& maps.len() == aggregate.history@.len()
    &&& forall|i: int|
        0 <= i < maps.len() && (aggregate.history@[i] is Struct || aggregate.history@[i] is Tuple)
            ==> (#[trigger] maps[i]) is Some && maps[i].unwrap().wf()
}

/// The member for a field index; `None` for a field that occupies no memory.
/// `maps` holds the slots of each recorded type.
pub open spec fn member_of(
    aggregate: Operand,
    maps: Seq<Option<StructSlotMap>>,
    field: u32,
) -> Result<Option<u32>, LowerError> {
    match aggregate_slots(aggregate) {
        Err(e) => Err(e),
        Ok(AggregateSlots::Identity) => Ok(Some(field)),
        Ok(AggregateSlots::Mapped(at)) => {
            let slots = maps[at as int].unwrap().decl_to_llvm@;
            if field < slots.len() {
                Ok(slots[field as int])
            } else {
                Err(LowerError::FieldIndex)
            }
        },
    }
}

/// The type of a field of the recorded struct or tuple.
pub open spec fn field_type_of(
    aggregate: Operand,
    maps: Seq<Option<StructSlotMap>>,
    field: u32,
) -> LlvmType {
    maps[mapped_type(aggregate.history@).unwrap()].unwrap().field_types@[field as int]
}

fn member_index(aggregate: &Operand, maps: &Vec<Option<StructSlotMap>>, field: u32) -> (r: Result<
    Option<u32>,
    LowerError,
>)
    requires
        slots_known(*aggregate, maps@),
    ensures
        r == member_of(*aggregate, maps@, field),
{
    match resolve_aggregate_slots(aggregate) {
        Err(e) => Err(e),
        Ok(AggregateSlots::Identity) => Ok(Some(field)),
        Ok(AggregateSlots::Mapped(at)) => match &maps[at] {
            Some(slots) => if (field as usize) < slots.decl_to_llvm.len() {
                Ok(slots.decl_to_llvm[field as usize])
            } else {
                Err(LowerError::FieldIndex)
            },
            None => Err(LowerError::NoFieldMapping),
        },
    }
}

/// The read of a field. An integer is a wrapper that was lowered to what it
/// wraps, so it is its own field.
pub open spec fn extract_field(
    ops: Seq<OpView>,
    aggregate: Operand,
    field: Option<u32>,
    maps: Seq<Option<StructSlotMap>>,
) -> Outcome {
    let value = aggregate.value;
    let n = ops.len();
    if value.ty is Integer {
        Outcome { ops, result: Ok(Some(value)) }
    } else {
        match field {
            None => Outcome { ops, result: Err(LowerError::MissingAttribute) },
            Some(i) => match member_of(aggregate, maps, i) {
                Err(e) => Outcome { ops, result: Err(e) },
                Ok(None) => {
                    let ty = field_type_of(aggregate, maps, i);
                    Outcome {
                        ops: ops.push(OpView::undef(ty)),
                        result: Ok(Some(Value::at(n, ty))),
                    }
                },
                Ok(Some(slot)) => match value.ty.spec_member(slot) {
                    None => Outcome { ops, result: Err(LowerError::NoSuchMember) },
                    Some(member) => Outcome {
                        ops: ops.push(OpView::extract(value, slot, member)),
                        result: Ok(Some(Value::at(n, member))),
                    },
                },
            },
        }
    }
}

/// The outcome of an operation that always has a value.
pub open spec fn value_outcome(ops: Seq<OpView>, r: Result<Value, LowerError>) -> Outcome {
    Outcome {
        ops,
        result: match r {
            Ok(v) => Ok(Some(v)),
            Err(e) => Err(e),
        },
    }
}

/// Lowers the read of a field. `maps` holds the slots of each recorded struct
/// and tuple.
pub fn convert_extract_field(
    b: &mut Builder,
    aggregate: &Operand,
    field: Option<u32>,
    maps: &Vec<Option<StructSlotMap>>,
) -> (r: Result<Value, LowerError>)
    requires
        slots_known(*aggregate, maps@),
    ensures
        value_outcome(final(b)@, r) == extract_field(old(b)@, *aggregate, field, maps@),
{
    let value = &aggregate.value;
    if value.ty.int_width().is_some() {
        return Ok(value.copy());
    }
    let index: u32 = match field {
        Some(i) => i,
        None => {
            return Err(LowerError::MissingAttribute);
        },
    };
    match member_index(aggregate, maps, index) {
        Err(e) => Err(e),
        Ok(None) => match recorded_mapped_type(&aggregate.history) {
            Some(at) => match &maps[at] {
                Some(slots) => Ok(b.undef(&slots.field_types[index as usize])),
                None => Err(LowerError::NoFieldMapping),
            },
            None => Err(LowerError::NoFieldMapping),
        },
        Ok(Some(slot)) => match value.ty.member(slot) {
            None => Err(LowerError::NoSuchMember),
            Some(member) => Ok(b.extract(value, slot, member)),
        },
    }
}

/// The replacement of a field. One that occupies no memory changes nothing.
pub open spec fn insert_field(
    ops: Seq<OpView>,
    aggregate: Operand,
    new_value: Value,
    field: Option<u32>,
    maps: Seq<Option<StructSlotMap>>,
) -> Outcome {
    let value = aggregate.value;
    match field {
        None => Outcome { ops, result: Err(LowerError::MissingAttribute) },
        Some(i) => match member_of(aggregate, maps, i) {
            Err(e) => Outcome { ops, result: Err(e) },
            Ok(None) => Outcome { ops, result: Ok(Some(value)) },
            Ok(Some(slot)) => Outcome {
                ops: ops.push(OpView::insert(value, new_value, slot)),
                result: Ok(Some(Value::at(ops.len(), value.ty))),
            },
        },
    }
}

/// Lowers the replacement of a field.
pub fn convert_insert_field(
    b: &mut Builder,
    aggregate: &Operand,
    new_value: &Value,
    field: Option<u32>,
    maps: &Vec<Option<StructSlotMap>>,
) -> (r: Result<Value, LowerError>)
    requires
        slots_known(*aggregate, maps@),
    ensures
        value_outcome(final(b)@, r) == insert_field(
            old(b)@,
            *aggregate,
            *new_value,
            field,
            maps@,
        ),
{
    let value = &aggregate.value;
    let index: u32 = match field {
        Some(i) => i,
        None => {
            return Err(LowerError::MissingAttribute);
        },
    };
    match member_index(aggregate, maps, index) {
        Err(e) => Err(e),
        Ok(None) => Ok(value.copy()),
        Ok(Some(slot)) => Ok(b.insert(value, new_value, slot)),
    }
}

/// Inserts the operands of the first `n` fields of `order` at their slots.
pub open spec fn insert_fields(
    ops: Seq<OpView>,
    value: Value,
    operands: Seq<Value>,
    slots: Seq<Option<u32>>,
    order: Seq<usize>,
    n: nat,
) -> (Seq<OpView>, Value)
    decreases n,
{
    if n == 0 {
        (ops, value)
    } else {
        let (before, current) = insert_fields(ops, value, operands, slots, order, (n - 1) as nat);
        let field = order[n - 1] as int;
        match slots[field] {
            None => (before, current),
            Some(slot) => (
                before.push(OpView::insert(current, operands[field], slot)),
                Value::at(before.len(), value.ty),
            ),
        }
    }
}

/// The construction of a struct or tuple, field by field in the given order.
pub open spec fn construct_fields(
    ops: Seq<OpView>,
    operands: Seq<Value>,
    info: StructInfo,
    order: Seq<usize>,
) -> Outcome {
    if operands.len() != info.map.decl_to_llvm@.len() {
        Outcome { ops, result: Err(LowerError::OperandCount) }
    } else {
        let ty = info.map.struct_ty;
        let (built, value) = insert_fields(
            ops.push(OpView::undef(ty)),
            Value::at(ops.len(), ty),
            operands,
            info.map.decl_to_llvm@,
            order,
            order.len(),
        );
        Outcome { ops: built, result: Ok(Some(value)) }
    }
}

fn emit_fields(
    b: &mut Builder,
    operands: &Vec<Value>,
    info: &StructInfo,
    order: &Vec<usize>,
) -> (r: Result<Value, LowerError>)
    requires
        forall|i: int|
            0 <= i < order@.len() ==> (#[trigger] order@[i]) < info.map.decl_to_llvm@.len(),
    ensures
        value_outcome(final(b)@, r) == construct_fields(old(b)@, operands@, *info, order@),
{
    if operands.len() != info.map.decl_to_llvm.len() {
        return Err(LowerError::OperandCount);
    }
    let mut value = b.undef(&info.map.struct_ty);
    let ghost start = value;
    let ghost begun = b@;
    let mut i: usize = 0;
    while i < order.len()
        invariant
            i <= order.len(),
            operands@.len() == info.map.decl_to_llvm@.len(),
            forall|j: int|
                0 <= j < order@.len() ==> (#[trigger] order@[j]) < info.map.decl_to_llvm@.len(),
            value.ty == start.ty,
            (b@, value) == insert_fields(
                begun,
                start,
                operands@,
                info.map.decl_to_llvm@,
                order@,
                i as nat,
            ),
        decreases order.len() - i,
    {
        let field: usize = order[i];
        if let Some(slot) = info.map.decl_to_llvm[field] {
            value = b.insert(&value, &operands[field], slot);
        }
        i = i + 1;
    }
    Ok(value)
}

/// The construction of a struct: the fields in memory order, so that slots
/// ascend.
pub open spec fn construct_struct(
    ops: Seq<OpView>,
    operands: Seq<Value>,
    result: Option<StructInfo>,
) -> Outcome {
    match result {
        None => Outcome { ops, result: Err(LowerError::WrongType) },
        Some(info) => construct_fields(ops, operands, info, info.mem_to_decl@),
    }
}

/// Lowers the construction of a struct; `result` is its type, if it is one.
pub fn convert_construct_struct(
    b: &mut Builder,
    operands: &Vec<Value>,
    result: &Option<StructInfo>,
) -> (r: Result<Value, LowerError>)
    requires
        result matches Some(info) ==> info.wf(),
    ensures
        value_outcome(final(b)@, r) == construct_struct(old(b)@, operands@, *result),
{
    match result {
        None => Err(LowerError::WrongType),
        Some(info) => emit_fields(b, operands, info, &info.mem_to_decl),
    }
}

/// The order in which the fields are declared.
pub open spec fn declared_order(n: nat) -> Seq<usize> {
    Seq::new(n, |i: int| i as usize)
}

/// The construction of a tuple: the fields as declared.
pub open spec fn construct_tuple(
    ops: Seq<OpView>,
    operands: Seq<Value>,
    result: Option<StructInfo>,
) -> Outcome {
    match result {
        None => Outcome { ops, result: Err(LowerError::WrongType) },
        Some(info) => construct_fields(ops, operands, info, declared_order(operands.len())),
    }
}

/// Lowers the construction of a tuple; `result` is its type, if it is one.
pub fn convert_construct_tuple(
    b: &mut Builder,
    operands: &Vec<Value>,
    result: &Option<StructInfo>,
) -> (r: Result<Value, LowerError>)
    ensures
        value_outcome(final(b)@, r) == construct_tuple(old(b)@, operands@, *result),
{
    let info = match result {
        None => {
            return Err(LowerError::WrongType);
        },
        Some(info) => info,
    };
    if operands.len() != info.map.decl_to_llvm.len() {
        return Err(LowerError::OperandCount);
    }
    let mut order: Vec<usize> = Vec::new();
    let mut i: usize = 0;
    while i < operands.len()
        invariant
            i <= operands.len(),
            order@ == declared_order(i as nat),
        decreases operands.len() - i,
    {
        order.push(i);
        i = i + 1;
        proof {
            assert(order@ =~= declared_order(i as nat));
        }
    }
    emit_fields(b, operands, info, &order)
}

/// The construction of a slice from data pointer and length.
pub open spec fn slice_ops(n: nat, data: Value, len: Value, is_slice: bool) -> Emitted {
    let ty = LlvmType::spec_slice();
    if !is_slice {
        Err(LowerError::WrongType)
    } else {
        Ok(
            seq![
                OpView::undef(ty),
                OpView::insert(Value::at(n, ty), data, 0),
                OpView::insert(Value::at(n + 1, ty), len, 1),
            ],
        )
    }
}

/// Lowers the construction of a slice; `is_slice` tells whether the result is
/// one.
pub fn convert_construct_slice(b: &mut Builder, data: &Value, len: &Value, is_slice: bool) -> (r:
    Result<Value, LowerError>)
    ensures
        emits(old(b)@, final(b)@, r, slice_ops(old(b)@.len(), *data, *len, is_slice)),
{
    if !is_slice {
        return Err(LowerError::WrongType);
    }
    let empty = b.undef(&LlvmType::slice_struct());
    let with_data = b.insert(&empty, data, 0);
    let r = b.insert(&with_data, len, 1);
    proof {
        assert(b@ =~= old(b)@ + slice_ops(old(b)@.len(), *data, *len, is_slice).unwrap());
    }
    Ok(r)
}

/// The insertion of the first `n` elements of an array.
pub open spec fn element_inserts(
    ops: Seq<OpView>,
    value: Value,
    operands: Seq<Value>,
    n: nat,
) -> (Seq<OpView>, Value)
    decreases n,
{
    if n == 0 {
        (ops, value)
    } else {
        let (before, current) = element_inserts(ops, value, operands, (n - 1) as nat);
        (
            before.push(OpView::insert(current, operands[n - 1], (n - 1) as u32)),
            Value::at(before.len(), value.ty),
        )
    }
}

/// The construction of an array.
pub open spec fn construct_array(
    ops: Seq<OpView>,
    operands: Seq<Value>,
    result: Option<ArrayInfo>,
) -> Outcome {
    match result {
        None => Outcome { ops, result: Err(LowerError::WrongType) },
        Some(info) => {
            let ty = LlvmType::Array(Box::new(info.element), info.size);
            let (built, value) = element_inserts(
                ops.push(OpView::undef(ty)),
                Value::at(ops.len(), ty),
                operands,
                operands.len(),
            );
            Outcome { ops: built, result: Ok(Some(value)) }
        },
    }
}

/// Lowers the construction of an array; `result` is its type, if it is one.
pub fn convert_construct_array(
    b: &mut Builder,
    operands: &Vec<Value>,
    result: &Option<ArrayInfo>,
) -> (r: Result<Value, LowerError>)
    requires
        operands@.len() <= u32::MAX,
    ensures
        value_outcome(final(b)@, r) == construct_array(old(b)@, operands@, *result),
{
    let info = match result {
        None => {
            return Err(LowerError::WrongType);
        },
        Some(info) => info,
    };
    let ty = LlvmType::Array(Box::new(info.element.copy()), info.size);
    let mut value = b.undef(&ty);
    let ghost start = value;
    let ghost begun = b@;
    let mut i: usize = 0;
    while i < operands.len()
        invariant
            i <= operands.len() <= u32::MAX,
            value.ty == start.ty,
            (b@, value) == element_inserts(begun, start, operands@, i as nat),
        decreases operands.len() - i,
    {
        value = b.insert(&value, &operands[i], i as u32);
        i = i + 1;
    }
    Ok(value)
}

} // verus!
