//! Laws: what is read from an address in a stack slot.

use crate::addressing::{
    aggregate_addr_ops, element_addr_ops, natural_offset, payload_addr_ops, recorded_offset,
    ElementInfo,
};
use crate::byte_access::byte_gep_ops;
use crate::carrier_field_addr::{carrier_addr_ops, StampedAggregate};
use crate::ints::lemma_value_of_int;
use crate::llvm::LlvmType;
use crate::memory::{alloca_ops, offset_ops, store_ops};
use crate::ops::{Index, OpView, Value};
use crate::semantics::{
    available, datum, eval, holds_int, lemma_accessed, lemma_datum_prefix, lemma_emitted,
    lemma_prefix, lemma_spilled, stack_at, Datum,
};
use crate::slots::{EnumSlotMap, StructInfo};
use crate::stack_memory::{
    at_offset, byte, field_offset, fits, laid_out, lemma_byte_of_field, lemma_read_back, size_of,
};
use vstd::arithmetic::power2::pow2;
use vstd::prelude::*;

verus! {

/// What was stored at an address in a stack slot is what is loaded from there.
pub proof fn law_store_load(
    ops: Seq<OpView>,
    env: spec_fn(u64) -> Datum,
    ptr: Value,
    value: Value,
    store_align: Option<u32>,
    load_align: Option<u32>,
    slot: nat,
    at: int,
)
    requires
        available(ptr, ops.len()),
        available(value, ops.len()),
        datum(ops, env, ptr) == Datum::Slot(slot, at),
        laid_out(value.ty),
        fits(datum(ops, env, value), value.ty),
        ops.len() + 2 <= usize::MAX,
    ensures
        ({
            &&& store_ops(seq![ptr, value], store_align) matches Ok(stores)
            &&& eval(
                ops + stores + seq![OpView::load(ptr, value.ty).aligned(load_align)],
                env,
                ops.len() + 1,
            ) == datum(ops, env, value)
        }),
{
    let stores = store_ops(seq![ptr, value], store_align).unwrap();
    let load = seq![OpView::load(ptr, value.ty).aligned(load_align)];
    let stored = ops + stores;
    lemma_datum_prefix(ops, stores, env, ptr);
    lemma_datum_prefix(ops, stores, env, value);
    assert(stores[0].operands[0] == value && stores[0].operands[1] == ptr);
    lemma_accessed(ops, stores, env, 0);
    lemma_datum_prefix(stored, load, env, ptr);
    lemma_prefix(stored, load, env, stored.len());
    assert(load[0].operands[0] == ptr);
    lemma_accessed(stored, load, env, 0);
    let bytes = stack_at(stored, env, stored.len())(slot);
    assert forall|k: int| 0 <= k < size_of(value.ty) implies #[trigger] at_offset(bytes, at, k)
        == byte(datum(ops, env, value), value.ty, k) by {}
    lemma_read_back(bytes, at, value.ty, datum(ops, env, value));
}

/// A store leaves every other slot as it is, and every byte that it does not
/// write.
pub proof fn law_store_elsewhere(
    ops: Seq<OpView>,
    env: spec_fn(u64) -> Datum,
    ptr: Value,
    value: Value,
    align: Option<u32>,
    slot: nat,
    at: int,
    other: nat,
    k: int,
)
    requires
        available(ptr, ops.len()),
        available(value, ops.len()),
        datum(ops, env, ptr) == Datum::Slot(slot, at),
        laid_out(value.ty),
        slot != other || k < at || at + size_of(value.ty) <= k,
        ops.len() < usize::MAX,
    ensures
        ({
            &&& store_ops(seq![ptr, value], align) matches Ok(stores)
            &&& stack_at(ops + stores, env, ops.len() + 1)(other)(k) == stack_at(
                ops,
                env,
                ops.len(),
            )(other)(k)
        }),
{
    let stores = store_ops(seq![ptr, value], align).unwrap();
    lemma_datum_prefix(ops, stores, env, ptr);
    lemma_datum_prefix(ops, stores, env, value);
    lemma_prefix(ops, stores, env, ops.len());
    assert(stores[0].operands[0] == value && stores[0].operands[1] == ptr);
    lemma_accessed(ops, stores, env, 0);
}

/// The byte offset of a field that occupies memory: the recorded one, else that
/// of its slot.
pub open spec fn offset_of_field(info: StructInfo, field: nat, slot: u32) -> int {
    match recorded_offset(info, field) {
        Some(offset) => offset as int,
        None => field_offset(*info.map.struct_ty->Struct_0, slot as nat) as int,
    }
}

/// The layout that is recorded of a field is that of its slot, or the layout is
/// said to diverge.
pub open spec fn field_recorded(info: StructInfo, field: nat, slot: u32) -> bool {
    let natural = field_offset(*info.map.struct_ty->Struct_0, slot as nat);
    &&& info.map.struct_ty is Struct
    &&& laid_out(info.map.struct_ty)
    &&& slot < info.map.struct_ty->Struct_0.types().len()
    &&& field < info.map.decl_to_llvm@.len()
    &&& info.map.decl_to_llvm@[field as int] == Some(slot)
    &&& recorded_offset(info, field) matches Some(offset) ==> {
        &&& offset <= i64::MAX
        &&& natural_offset(info, slot) == Some(natural as u64)
        &&& natural <= u64::MAX
        &&& !info.map.layout_diverges ==> offset == natural
    }
}

/// The address of a field of a struct or tuple in a stack slot is its byte
/// offset behind that of the aggregate.
#[verifier::rlimit(40)]
pub proof fn law_field_address(
    ops: Seq<OpView>,
    env: spec_fn(u64) -> Datum,
    ptr: Value,
    info: StructInfo,
    field: nat,
    slot: u32,
    stack_slot: nat,
    from: int,
)
    requires
        field_recorded(info, field, slot),
        available(ptr, ops.len()),
        datum(ops, env, ptr) == Datum::Slot(stack_slot, from),
        ops.len() + 2 <= usize::MAX,
    ensures
        ({
            &&& aggregate_addr_ops(ops.len(), ptr, info, field) matches Ok(emitted)
            &&& 0 < emitted.len() <= 2
            &&& datum(
                ops + emitted,
                env,
                Value::at((ops.len() + emitted.len() - 1) as nat, ptr.ty),
            ) == Datum::Slot(stack_slot, from + offset_of_field(info, field, slot))
            &&& stack_at(ops + emitted, env, ops.len() + emitted.len()) == stack_at(
                ops,
                env,
                ops.len(),
            )
        }),
{
    let n = ops.len();
    let emitted = aggregate_addr_ops(n, ptr, info, field).unwrap();
    lemma_datum_prefix(ops, emitted, env, ptr);
    lemma_prefix(ops, emitted, env, n);
    if emitted.len() == 1 {
        assert(emitted[0].operands[0] == ptr);
        assert(emitted[0].indices[0] == Index::Const(0));
        assert(emitted[0].indices[1] == Index::Const(slot));
        lemma_accessed(ops, emitted, env, 0);
        assert(0 * size_of(info.map.struct_ty) == 0);
    } else {
        let offset = recorded_offset(info, field).unwrap();
        let bytes = byte_gep_ops(n, ptr, offset);
        lemma_value_of_int(offset as int, 64);
        vstd::arithmetic::power2::lemma2_to64();
        vstd::arithmetic::div_mod::lemma_small_mod(offset as nat, pow2(64));
        assert(emitted[0] == bytes[0]);
        lemma_emitted(ops, emitted, env, 0);
        lemma_accessed(ops, emitted, env, 0);
        assert(emitted[1].operands[0] == ptr);
        assert(emitted[1].indices[0] == Index::Dynamic(Value::at(n, LlvmType::spec_int(64))));
        lemma_accessed(ops, emitted, env, 1);
        assert(size_of(LlvmType::spec_int(8)) == 1);
    }
}

/// A field of a struct or tuple whose reference was taken is what is loaded from
/// the address of the field.
pub proof fn law_referenced_field(
    ops: Seq<OpView>,
    env: spec_fn(u64) -> Datum,
    operand: Value,
    align: Option<u32>,
    info: StructInfo,
    field: nat,
    slot: u32,
    parts: Seq<Datum>,
)
    requires
        field_recorded(info, field, slot),
        offset_of_field(info, field, slot) == field_offset(
            *info.map.struct_ty->Struct_0,
            slot as nat,
        ),
        operand.ty == info.map.struct_ty,
        available(operand, ops.len()),
        datum(ops, env, operand) == Datum::Aggregate(parts),
        parts.len() == info.map.struct_ty->Struct_0.types().len(),
        laid_out(info.map.struct_ty->Struct_0.types()[slot as int]),
        fits(parts[slot as int], info.map.struct_ty->Struct_0.types()[slot as int]),
        ops.len() + 6 <= usize::MAX,
    ensures
        ({
            let n = ops.len();
            let ptr = Value::at(n + 1, LlvmType::Pointer(0));
            let taken = (ops + alloca_ops(n, operand.ty, align)).push(
                OpView::store(operand, ptr).aligned(align),
            );
            let member = info.map.struct_ty->Struct_0.types()[slot as int];
            &&& aggregate_addr_ops(taken.len(), ptr, info, field) matches Ok(emitted)
            &&& ({
                let all = taken + emitted;
                let address = Value::at((all.len() - 1) as nat, ptr.ty);
                eval(all + seq![OpView::load(address, member)], env, all.len()) == parts[slot
                    as int]
            })
        }),
{
    let n = ops.len();
    let ptr = Value::at(n + 1, LlvmType::Pointer(0));
    let begun = alloca_ops(n, operand.ty, align);
    let store = OpView::store(operand, ptr).aligned(align);
    let spill = begun.push(store);
    let taken = (ops + begun).push(store);
    assert(taken =~= ops + spill);
    assert(spill[2] == store);
    assert(spill[0] == begun[0] && spill[1] == begun[1]);
    lemma_spilled(ops, spill, env, operand);
    law_field_address(taken, env, ptr, info, field, slot, (n + 1) as nat, 0);
    let emitted = aggregate_addr_ops(taken.len(), ptr, info, field).unwrap();
    let fields = *info.map.struct_ty->Struct_0;
    let member = fields.types()[slot as int];
    let all = taken + emitted;
    let address = Value::at((all.len() - 1) as nat, ptr.ty);
    let load = seq![OpView::load(address, member)];
    lemma_datum_prefix(all, load, env, address);
    lemma_prefix(all, load, env, all.len());
    assert(load[0].operands[0] == address);
    lemma_accessed(all, load, env, 0);
    let bytes = stack_at(taken, env, taken.len())((n + 1) as nat);
    let at = field_offset(fields, slot as nat) as int;
    assert forall|k: int| 0 <= k < size_of(member) implies #[trigger] at_offset(bytes, at, k)
        == byte(parts[slot as int], member, k) by {
        lemma_byte_of_field(fields, parts, slot as int, k);
        assert(at_offset(bytes, 0, at + k) == byte(Datum::Aggregate(parts), operand.ty, at + k));
    }
    lemma_read_back(bytes, at, member, parts[slot as int]);
}

/// The address of an array element in a stack slot is the index times the size
/// of the element behind that of the array; pointer arithmetic in units of the
/// element computes the same.
pub proof fn law_element_address(
    ops: Seq<OpView>,
    env: spec_fn(u64) -> Datum,
    array: Value,
    index: Value,
    info: ElementInfo,
    width: nat,
    i: int,
    stack_slot: nat,
    from: int,
)
    requires
        info.stride is Some && info.llvm_size is Some ==> info.stride == info.llvm_size,
        laid_out(info.ty),
        available(array, ops.len()),
        datum(ops, env, array) == Datum::Slot(stack_slot, from),
        holds_int(ops, env, index, width, i),
        2 * i < pow2(width),
        ops.len() < usize::MAX,
    ensures
        ({
            let address = Datum::Slot(stack_slot, from + i * size_of(info.ty));
            &&& element_addr_ops(ops, array, index, Some(info)) matches Ok(emitted)
            &&& eval(ops + emitted, env, ops.len()) == address
            &&& offset_ops(seq![array, index], Some(info.ty)) matches Ok(moved)
            &&& eval(ops + moved, env, ops.len()) == address
        }),
{
    let emitted = element_addr_ops(ops, array, index, Some(info)).unwrap();
    let moved = offset_ops(seq![array, index], Some(info.ty)).unwrap();
    lemma_datum_prefix(ops, emitted, env, array);
    lemma_datum_prefix(ops, emitted, env, index);
    lemma_datum_prefix(ops, moved, env, array);
    lemma_datum_prefix(ops, moved, env, index);
    assert(emitted[0].indices[0] == Index::Dynamic(index));
    assert(moved[0].indices[0] == Index::Dynamic(index));
    lemma_accessed(ops, emitted, env, 0);
    lemma_accessed(ops, moved, env, 0);
}

/// The address of a field in a packed carrier in a stack slot is where the slot
/// of the field begins, behind the carrier.
pub proof fn law_carrier_field_address(
    ops: Seq<OpView>,
    env: spec_fn(u64) -> Datum,
    ptr: Value,
    field: u32,
    info: StructInfo,
    carrier: LlvmType,
    slot: u32,
    stack_slot: nat,
    from: int,
)
    requires
        carrier matches LlvmType::Struct(fields, packed) && packed && slot < fields.types().len(),
        laid_out(carrier),
        field < info.map.decl_to_llvm@.len(),
        info.map.decl_to_llvm@[field as int] == Some(slot),
        available(ptr, ops.len()),
        datum(ops, env, ptr) == Datum::Slot(stack_slot, from),
        ops.len() < usize::MAX,
    ensures
        ({
            &&& carrier_addr_ops(
                ptr,
                Some(field),
                StampedAggregate::Struct(info),
                carrier,
            ) matches Ok(emitted)
            &&& eval(ops + emitted, env, ops.len()) == Datum::Slot(
                stack_slot,
                from + field_offset(*carrier->Struct_0, slot as nat),
            )
        }),
{
    let emitted = carrier_addr_ops(
        ptr,
        Some(field),
        StampedAggregate::Struct(info),
        carrier,
    ).unwrap();
    lemma_datum_prefix(ops, emitted, env, ptr);
    assert(emitted[0].operands[0] == ptr);
    assert(emitted[0].indices[0] == Index::Const(0));
    assert(emitted[0].indices[1] == Index::Const(slot));
    lemma_accessed(ops, emitted, env, 0);
    assert(0 * size_of(carrier) == 0);
}

/// The address of a payload field of an enum in a stack slot is where its slot
/// begins, or its byte offset where it has no slot.
pub proof fn law_payload_address(
    ops: Seq<OpView>,
    env: spec_fn(u64) -> Datum,
    ptr: Value,
    map: EnumSlotMap,
    field: nat,
    stack_slot: nat,
    from: int,
)
    requires
        payload_addr_ops(ptr, map, field) is Ok,
        map.field_slots@[field as int] matches Some(slot) ==> map.struct_ty is Struct && laid_out(
            map.struct_ty,
        ) && slot < map.struct_ty->Struct_0.types().len(),
        available(ptr, ops.len()),
        datum(ops, env, ptr) == Datum::Slot(stack_slot, from),
        ops.len() < usize::MAX,
    ensures
        eval(ops + payload_addr_ops(ptr, map, field).unwrap(), env, ops.len()) == Datum::Slot(
            stack_slot,
            from + match map.field_slots@[field as int] {
                Some(slot) => field_offset(*map.struct_ty->Struct_0, slot as nat) as int,
                None => map.field_offsets@[field as int] as int,
            },
        ),
{
    let emitted = payload_addr_ops(ptr, map, field).unwrap();
    lemma_datum_prefix(ops, emitted, env, ptr);
    assert(emitted[0].operands[0] == ptr);
    if let Some(slot) = map.field_slots@[field as int] {
        assert(emitted[0].indices[0] == Index::Const(0));
        assert(emitted[0].indices[1] == Index::Const(slot));
        assert(0 * size_of(map.struct_ty) == 0);
    } else {
        assert(emitted[0].indices[0] == Index::Const(map.field_offsets@[field as int] as u32));
        assert(size_of(LlvmType::spec_int(8)) == 1);
    }
    lemma_accessed(ops, emitted, env, 0);
}

} // verus!
