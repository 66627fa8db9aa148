//! Laws: where fields and payloads stand, and how large types are.

use crate::addressing::{
    array_alignment, constant_value, element_addr_ops, field_addr_ops, ElementInfo, Pointee,
};
use crate::aggregate_laws::law_mapped_type;
use crate::aggregates::{extract_field, insert_field, mapped_type};
use crate::alignment::{
    divides, law_element_alignment, law_field_alignment, law_field_alignment_best,
};
use crate::array_extract::{candidate_count, extract_element, ArrayInfo};
use crate::byte_access::spill_ops;
use crate::call_laws::slot_of;
use crate::carrier_field_addr::{carrier_addr_ops, StampedAggregate};
use crate::cast::{abi_align, byte_size, end_of_fields, max_align};
use crate::enums::{field_base, finish_enum, payload_ops, EnumBuild, EnumInfo};
use crate::llvm::{FieldTypes, LlvmType};
use crate::lower::{LowerError, Operand};
use crate::mir::MirType;
use crate::operation_laws::gives;
use crate::ops::{OpView, Value};
use crate::semantics::{
    available, coerced, datum, lemma_datum_prefix, lemma_emitted, undefined, Datum,
};
use crate::slots::{StructInfo, StructSlotMap};
use crate::stack_memory::{
    alignment_of, fields_alignment, fields_laid_out, fields_size, laid_out, size_of,
};
use vstd::arithmetic::power2::pow2;
use vstd::prelude::*;

verus! {

/// Whether the slots at position `at` are those that count for an aggregate: of
/// the most recent struct, or of the most recent tuple where no struct was
/// recorded.
pub open spec fn mapped_by(history: Seq<MirType>, at: int) -> bool {
    &&& 0 <= at < history.len()
    &&& match history[at] {
        MirType::Struct(_, _, _, _) => forall|j: int|
            at < j < history.len() ==> (#[trigger] history[j]) !is Struct,
        MirType::Tuple(_, _) => forall|j: int|
            0 <= j < history.len() ==> (#[trigger] history[j]) !is Struct && (at < j ==> history[j]
                !is Tuple),
        _ => false,
    }
}

/// The slots that count are found.
pub(crate) proof fn lemma_mapped_by(history: Seq<MirType>, at: int)
    requires
        mapped_by(history, at),
    ensures
        mapped_type(history) == Some(at),
{
    law_mapped_type(history);
    assert(history[at] is Struct || history[at] is Tuple);
    if let Some(found) = mapped_type(history) {
        assert(history[found] is Struct || history[found] is Tuple);
        if found < at {
            assert(history[at] !is Struct || history[found] is Tuple);
        }
    }
}

/// A field of a struct or tuple is read from the slot that its declaration index
/// is mapped to. One that has no slot is arbitrary.
pub proof fn law_field_slot(
    ops: Seq<OpView>,
    env: spec_fn(u64) -> Datum,
    aggregate: Operand,
    field: u32,
    maps: Seq<Option<StructSlotMap>>,
    at: int,
)
    requires
        mapped_by(aggregate.history@, at),
        at <= usize::MAX,
        at < maps.len(),
        maps[at] is Some,
        field < maps[at].unwrap().decl_to_llvm@.len(),
        !(aggregate.value.ty is Integer),
        available(aggregate.value, ops.len()),
        ops.len() < usize::MAX,
    ensures
        ({
            let map = maps[at].unwrap();
            let made = extract_field(ops, aggregate, Some(field), maps);
            let whole = datum(ops, env, aggregate.value);
            match map.decl_to_llvm@[field as int] {
                Some(slot) => match aggregate.value.ty.spec_member(slot) {
                    Some(member) => {
                        &&& made.result == Ok::<Option<Value>, LowerError>(
                            Some(Value::at(ops.len(), member)),
                        )
                        &&& datum(made.ops, env, made.result.unwrap().unwrap()) == slot_of(
                            whole,
                            slot as int,
                        )
                    },
                    None => made.result is Err,
                },
                None => {
                    let ty = map.field_types@[field as int];
                    &&& made.result == Ok::<Option<Value>, LowerError>(
                        Some(Value::at(ops.len(), ty)),
                    )
                    &&& datum(made.ops, env, made.result.unwrap().unwrap()) == undefined(ty)
                },
            }
        }),
{
    lemma_mapped_by(aggregate.history@, at);
    let made = extract_field(ops, aggregate, Some(field), maps);
    if made.ops.len() > ops.len() {
        let emitted = seq![made.ops.last()];
        assert(made.ops =~= ops + emitted);
        lemma_datum_prefix(ops, emitted, env, aggregate.value);
        lemma_emitted(ops, emitted, env, 0);
    }
}

/// Replacing a field of a struct or tuple changes the slot that its declaration
/// index is mapped to, and no other. One that has no slot changes nothing.
pub proof fn law_replaced_slot(
    ops: Seq<OpView>,
    env: spec_fn(u64) -> Datum,
    aggregate: Operand,
    new_value: Value,
    field: u32,
    maps: Seq<Option<StructSlotMap>>,
    at: int,
    members: Seq<Datum>,
)
    requires
        mapped_by(aggregate.history@, at),
        at <= usize::MAX,
        at < maps.len(),
        maps[at] is Some,
        field < maps[at].unwrap().decl_to_llvm@.len(),
        available(aggregate.value, ops.len()),
        available(new_value, ops.len()),
        datum(ops, env, aggregate.value) == Datum::Aggregate(members),
        maps[at].unwrap().decl_to_llvm@[field as int] matches Some(slot) ==> slot < members.len(),
        ops.len() < usize::MAX,
    ensures
        ({
            let made = insert_field(ops, aggregate, new_value, Some(field), maps);
            &&& made.result matches Ok(Some(value))
            &&& value.ty == aggregate.value.ty
            &&& datum(made.ops, env, value) == Datum::Aggregate(
                match maps[at].unwrap().decl_to_llvm@[field as int] {
                    Some(slot) => members.update(slot as int, datum(ops, env, new_value)),
                    None => members,
                },
            )
        }),
{
    lemma_mapped_by(aggregate.history@, at);
    let made = insert_field(ops, aggregate, new_value, Some(field), maps);
    if made.ops.len() > ops.len() {
        let emitted = seq![made.ops.last()];
        assert(made.ops =~= ops + emitted);
        lemma_datum_prefix(ops, emitted, env, aggregate.value);
        lemma_datum_prefix(ops, emitted, env, new_value);
        lemma_emitted(ops, emitted, env, 0);
    }
}

/// The fields of the variants are numbered through: those of a variant begin
/// where those of the one before it end.
pub proof fn law_field_numbers(counts: Seq<u32>, variant: nat)
    requires
        variant < counts.len(),
    ensures
        field_base(counts, 0) == 0,
        field_base(counts, variant + 1) == field_base(counts, variant) + counts[variant as int],
{
}

/// A payload field that has a slot is read from it, in its own type.
pub proof fn law_payload_slot(
    ops: Seq<OpView>,
    env: spec_fn(u64) -> Datum,
    value: Value,
    variant: nat,
    field: nat,
    info: EnumInfo,
    slot: u32,
    member: LlvmType,
)
    requires
        available(value, ops.len()),
        field_base(info.variant_field_counts@, variant) + field < info.slots.field_slots@.len(),
        info.slots.field_slots@[(field_base(info.variant_field_counts@, variant) + field) as int]
            == Some(slot),
        value.ty.spec_member(slot) == Some(member),
        ops.len() + 2 <= usize::MAX,
    ensures
        ({
            let flat = (field_base(info.variant_field_counts@, variant) + field) as int;
            let ty = info.slots.field_types@[flat];
            gives(
                ops,
                env,
                payload_ops(ops.len(), seq![value], variant, field, Some(info)),
                ty,
                coerced(slot_of(datum(ops, env, value), slot as int), member, ty),
            )
        }),
{
    let emitted = payload_ops(ops.len(), seq![value], variant, field, Some(info)).unwrap();
    lemma_datum_prefix(ops, emitted, env, value);
    lemma_emitted(ops, emitted, env, 0);
    lemma_emitted(ops, emitted, env, 1);
}

/// The size that is computed of a type is that of its layout, and so is its
/// alignment at least.
pub proof fn law_byte_size(ty: LlvmType)
    requires
        laid_out(ty),
    ensures
        byte_size(ty) matches Some(size) ==> size == size_of(ty),
        abi_align(ty) >= alignment_of(ty),
    decreases ty,
{
    match ty {
        LlvmType::Array(element, n) => {
            law_byte_size(*element);
            if let Some(size) = byte_size(*element) {
                assert(size * n == n * size) by (nonlinear_arith);
            }
        },
        LlvmType::Struct(fields, _) => {
            lemma_fields_size(*fields, 0);
            lemma_max_align(*fields);
        },
        _ => {},
    }
}

proof fn lemma_max_align(fields: FieldTypes)
    ensures
        max_align(fields) >= 1,
    decreases fields,
{
    if let FieldTypes::Field(_, rest) = fields {
        lemma_max_align(*rest);
    }
}

proof fn lemma_fields_size(fields: FieldTypes, offset: nat)
    requires
        fields_laid_out(fields),
    ensures
        end_of_fields(fields, offset) matches Some(end) ==> end == offset + fields_size(fields),
        max_align(fields) >= fields_alignment(fields),
    decreases fields,
{
    if let FieldTypes::Field(first, rest) = fields {
        law_byte_size(first);
        lemma_fields_size(*rest, offset + size_of(first));
    }
}

/// A value is copied to the stack at the alignment that is known of its type; a
/// type of which none is known gets no claim.
pub proof fn law_spill_alignment(n: nat, value: Value, ty: LlvmType, abi_align: u64)
    requires
        abi_align <= u32::MAX,
    ensures
        ({
            let emitted = spill_ops(n, value, ty, abi_align);
            &&& emitted.len() == 3
            &&& abi_align == 0 ==> emitted[1].align is None && emitted[2].align is None
            &&& abi_align > 0 ==> {
                &&& emitted[1].align matches Some(align)
                &&& align == abi_align
                &&& emitted[2].align == Some(align)
            }
        }),
{
}

/// The address of a field that has a slot carries the best alignment that is
/// provable from that of the aggregate and the recorded offset.
pub proof fn law_field_address_alignment(
    n: nat,
    ptr: Value,
    info: StructInfo,
    field: u32,
    offset: u64,
    base: nat,
    d: nat,
    k: nat,
)
    requires
        field < info.map.decl_to_llvm@.len(),
        info.map.decl_to_llvm@[field as int] is Some,
        field < info.field_offsets@.len(),
        info.field_offsets@[field as int] == offset,
        info.abi_align == pow2(k),
        info.abi_align <= u32::MAX,
        divides(info.abi_align as nat, base),
        divides(d, info.abi_align as nat),
        divides(d, offset as nat),
    ensures
        field_addr_ops(n, ptr, Some(field), Some(Pointee::Aggregate(info))) matches Ok(emitted)
            ==> {
            &&& emitted.last().align matches Some(align)
            &&& divides(align as nat, base + offset as nat)
            &&& divides(d, align as nat)
        },
{
    law_field_alignment(info.abi_align, offset, base);
    law_field_alignment_best(info.abi_align, offset, d, k);
}

/// The address of an array element carries an alignment that holds wherever the
/// array lies: of the element at a constant index, else of every element.
pub proof fn law_element_address_alignment(
    ops: Seq<OpView>,
    array: Value,
    index: Value,
    info: ElementInfo,
    array_align: u64,
    stride: u64,
    base: nat,
    i: nat,
)
    requires
        array_alignment(ops, array, info) == Some(array_align),
        info.stride == Some(stride),
        divides(array_align as nat, base),
        constant_value(ops, index) matches Some(at) ==> at == i,
    ensures
        element_addr_ops(ops, array, index, Some(info)) matches Ok(emitted) ==> (
        emitted.last().align matches Some(align) ==> divides(
            align as nat,
            base + i * stride as nat,
        )),
{
    law_element_alignment(array_align, stride, constant_value(ops, index), base, i);
}

/// The same holds of a field of a packed carrier.
pub proof fn law_carrier_field_alignment(
    ptr: Value,
    info: StructInfo,
    field: u32,
    carrier: LlvmType,
    offset: u64,
    base: nat,
    d: nat,
    k: nat,
)
    requires
        field < info.map.decl_to_llvm@.len(),
        info.map.decl_to_llvm@[field as int] is Some,
        field < info.field_offsets@.len(),
        info.field_offsets@[field as int] == offset,
        info.abi_align == pow2(k),
        info.abi_align <= u32::MAX,
        divides(info.abi_align as nat, base),
        divides(d, info.abi_align as nat),
        divides(d, offset as nat),
    ensures
        carrier_addr_ops(
            ptr,
            Some(field),
            StampedAggregate::Struct(info),
            carrier,
        ) matches Ok(emitted) ==> {
            &&& emitted.last().align matches Some(align)
            &&& divides(align as nat, base + offset as nat)
            &&& divides(d, align as nat)
        },
{
    law_field_alignment(info.abi_align, offset, base);
    law_field_alignment_best(info.abi_align, offset, d, k);
}

/// An array that is indexed through memory stands there at its alignment, and
/// its elements are read at it.
pub proof fn law_extract_alignment(
    ops: Seq<OpView>,
    array: Value,
    index: Value,
    info: ArrayInfo,
    limit: u64,
)
    requires
        candidate_count(ops, index, info.size, limit) is None,
        info.abi_align matches Some(align) ==> align <= u32::MAX,
    ensures
        ({
            let made = extract_element(ops, array, index, Some(info), limit);
            let n = ops.len() as int;
            let kept = |op: OpView|
                match info.abi_align {
                    Some(align) => op.align matches Some(own) && own == align,
                    None => op.align is None,
                };
            &&& made.ops.len() == n + 5
            &&& kept(made.ops[n + 1])
            &&& kept(made.ops[n + 2])
            &&& kept(made.ops[n + 4])
        }),
{
}

/// An enum with payloads in memory is read back at its alignment.
pub proof fn law_enum_alignment(build: EnumBuild, info: EnumInfo)
    requires
        info.abi_align <= u32::MAX,
        finish_enum(build, info).result is Ok,
    ensures
        ({
            let last = finish_enum(build, info).ops.last();
            &&& last.code is Load
            &&& info.abi_align == 0 ==> last.align is None
            &&& info.abi_align > 0 ==> (last.align matches Some(align) && align == info.abi_align)
        }),
{
}

} // verus!
