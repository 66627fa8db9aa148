//! What an enum value holds whose payload goes through memory.

use crate::byte_access::{byte_gep_ops, spill_ops};
use crate::enums::{
    add_payload, add_payloads, finish_enum, store_payloads, EnumBuild, EnumInfo,
};
use crate::ints::lemma_value_of_int;
use crate::llvm::LlvmType;
use crate::ops::{Coercion, OpView, Value};
use crate::semantics::{
    available, coerced, datum, eval, lemma_accessed, lemma_datum_prefix, lemma_emitted,
    lemma_prefix, lemma_spilled, member_count, member_type, overwritten, represented, same_value,
    stack_at, Datum,
};
use crate::slots::EnumSlotMap;
use crate::stack_memory::{
    at_offset, byte, field_offset, fits, laid_out, lemma_byte_of_field, lemma_read_back,
    lemma_read_member, read, size_of, Byte,
};
use vstd::arithmetic::power2::pow2;
use vstd::prelude::*;

verus! {

/// A payload field in its storage type, from the value that it was given.
pub open spec fn in_storage(slots: EnumSlotMap, flat: int, ty: LlvmType, d: Datum) -> Datum {
    coerced(
        coerced(d, ty, slots.byte_types@[flat]),
        slots.byte_types@[flat],
        slots.storage_types@[flat].unwrap(),
    )
}

/// A value that is put into storage form and back is the value.
pub proof fn lemma_coerced_back(d: Datum, own: LlvmType, mid: LlvmType, to: LlvmType)
    requires
        represented(d, own),
        same_value(own, mid, to),
    ensures
        coerced(coerced(coerced(d, own, mid), mid, to), to, own) == d,
        coerced(coerced(d, own, to), to, own) == d,
{
    if let Datum::Int(width, a) = d {
        vstd::arithmetic::power2::lemma2_to64();
        if width == 1 {
            vstd::arithmetic::div_mod::lemma_small_mod(a as nat, pow2(1));
        }
    }
}

/// A value that fits its type fits its storage type in storage form.
pub proof fn lemma_storage_fits(d: Datum, own: LlvmType, mid: LlvmType, to: LlvmType)
    requires
        represented(d, own),
        d matches Datum::Coerced(inner, from, _) ==> fits(*inner, from),
        fits(d, own),
        same_value(own, mid, to),
        size_of(to) > 0,
    ensures
        fits(coerced(coerced(d, own, mid), mid, to), to),
        fits(coerced(d, own, to), to),
{
    reveal_with_fuel(fits, 2);
}

/// Whether the bytes of payload field `flat` lie in the enum, and can be written
/// and read there.
pub open spec fn has_bytes(info: EnumInfo, flat: int) -> bool {
    &&& info.slots.storage_types@[flat] matches Some(storage)
    &&& laid_out(storage)
    &&& info.slots.field_offsets@[flat] + size_of(storage) <= size_of(info.slots.struct_ty)
}

/// Whether byte `p` belongs to payload field `flat`.
pub open spec fn covers(slots: EnumSlotMap, flat: int, p: int) -> bool {
    slots.field_offsets@[flat] <= p < slots.field_offsets@[flat] + size_of(
        slots.storage_types@[flat].unwrap(),
    )
}

/// The bytes of an enum after the first `m` payload fields were written over
/// them.
pub open spec fn layered(
    bytes: spec_fn(int) -> Byte,
    slots: EnumSlotMap,
    deferred: Seq<(usize, Value)>,
    data: Seq<Datum>,
    m: nat,
) -> spec_fn(int) -> Byte
    decreases m,
{
    if m == 0 {
        bytes
    } else {
        let flat = deferred[m - 1].0 as int;
        overwritten(
            layered(bytes, slots, deferred, data, (m - 1) as nat),
            slots.field_offsets@[flat] as int,
            data[m - 1],
            slots.storage_types@[flat].unwrap(),
        )
    }
}

/// A byte of no payload field stays as it is.
pub proof fn lemma_byte_untouched(
    bytes: spec_fn(int) -> Byte,
    slots: EnumSlotMap,
    deferred: Seq<(usize, Value)>,
    data: Seq<Datum>,
    m: nat,
    p: int,
)
    requires
        m <= deferred.len(),
        forall|j: int| 0 <= j < m ==> !covers(slots, (#[trigger] deferred[j]).0 as int, p),
    ensures
        layered(bytes, slots, deferred, data, m)(p) == bytes(p),
    decreases m,
{
    if m > 0 {
        assert(!covers(slots, deferred[m - 1].0 as int, p));
        lemma_byte_untouched(bytes, slots, deferred, data, (m - 1) as nat, p);
    }
}

/// A byte of one payload field alone is that of its value.
pub proof fn lemma_byte_written(
    bytes: spec_fn(int) -> Byte,
    slots: EnumSlotMap,
    deferred: Seq<(usize, Value)>,
    data: Seq<Datum>,
    m: nat,
    j: int,
    p: int,
)
    requires
        m <= deferred.len(),
        0 <= j < m,
        covers(slots, deferred[j].0 as int, p),
        forall|i: int|
            0 <= i < m && i != j ==> !covers(slots, (#[trigger] deferred[i]).0 as int, p),
    ensures
        layered(bytes, slots, deferred, data, m)(p) == byte(
            data[j],
            slots.storage_types@[deferred[j].0 as int].unwrap(),
            p - slots.field_offsets@[deferred[j].0 as int],
        ),
    decreases m,
{
    if j < m - 1 {
        assert(!covers(slots, deferred[m - 1].0 as int, p));
        lemma_byte_written(bytes, slots, deferred, data, (m - 1) as nat, j, p);
    }
}

/// Whether the deferred payload fields of a construction can be written.
pub open spec fn can_be_stored(
    ops: Seq<OpView>,
    env: spec_fn(u64) -> Datum,
    info: EnumInfo,
    deferred: Seq<(usize, Value)>,
    data: Seq<Datum>,
) -> bool {
    &&& data.len() == deferred.len()
    &&& size_of(info.slots.struct_ty) <= i64::MAX
    &&& forall|j: int|
        0 <= j < deferred.len() ==> {
            &&& has_bytes(info, (#[trigger] deferred[j]).0 as int)
            &&& available(deferred[j].1, ops.len())
            &&& data[j] == in_storage(
                info.slots,
                deferred[j].0 as int,
                deferred[j].1.ty,
                datum(ops, env, deferred[j].1),
            )
        }
}

/// The operations that store one payload field at `address`.
spec fn storing(
    at: nat,
    slots: EnumSlotMap,
    address: Value,
    flat: int,
    operand: Value,
) -> Seq<OpView> {
    let bytes_ty = slots.byte_types@[flat];
    let storage = slots.storage_types@[flat].unwrap();
    byte_gep_ops(at, address, slots.field_offsets@[flat]) + seq![
        OpView::coerce(Coercion::BoolBytes, operand, bytes_ty),
        OpView::coerce(Coercion::PayloadStorage, Value::at(at + 2, bytes_ty), storage),
        OpView::store(Value::at(at + 3, storage), Value::at(at + 1, address.ty)),
    ]
}

/// The store of one payload field writes over the bytes of the slot.
proof fn lemma_payload_stored(
    ops: Seq<OpView>,
    env: spec_fn(u64) -> Datum,
    info: EnumInfo,
    address: Value,
    slot: nat,
    flat: int,
    operand: Value,
)
    requires
        size_of(info.slots.struct_ty) <= i64::MAX,
        has_bytes(info, flat),
        available(operand, ops.len()),
        available(address, ops.len()),
        datum(ops, env, address) == Datum::Slot(slot, 0),
        ops.len() + 5 <= usize::MAX,
    ensures
        ({
            let all = ops + storing(ops.len(), info.slots, address, flat, operand);
            stack_at(all, env, all.len())(slot) == overwritten(
                stack_at(ops, env, ops.len())(slot),
                info.slots.field_offsets@[flat] as int,
                in_storage(info.slots, flat, operand.ty, datum(ops, env, operand)),
                info.slots.storage_types@[flat].unwrap(),
            )
        }),
{
    let slots = info.slots;
    let at = ops.len();
    let bytes_ty = slots.byte_types@[flat];
    let storage = slots.storage_types@[flat].unwrap();
    let offset = slots.field_offsets@[flat];
    let emitted = storing(at, slots, address, flat, operand);
    let all = ops + emitted;
    let place = byte_gep_ops(at, address, offset);
    assert(emitted[0] == place[0]);
    assert(emitted[1] == place[1]);
    assert(emitted[2] == OpView::coerce(Coercion::BoolBytes, operand, bytes_ty));
    assert(emitted[3] == OpView::coerce(
        Coercion::PayloadStorage,
        Value::at(at + 2, bytes_ty),
        storage,
    ));
    assert(emitted[4] == OpView::store(Value::at(at + 3, storage), Value::at(at + 1, address.ty)));
    lemma_datum_prefix(ops, emitted, env, address);
    lemma_datum_prefix(ops, emitted, env, operand);
    lemma_prefix(ops, emitted, env, at);
    lemma_byte_address(ops, emitted, env, address, offset, slot, 0, 0);
    let stack = stack_at(all, env, at + 2);
    assert(stack == stack_at(ops, env, at));
    assert(stack_at(all, env, at + 3) == stack && datum(all, env, Value::at(at + 2, bytes_ty))
        == coerced(datum(ops, env, operand), operand.ty, bytes_ty)) by {
        assert(emitted[2].operands[0] == operand);
        lemma_emitted(ops, emitted, env, 2);
        lemma_accessed(ops, emitted, env, 2);
    }
    let stored = in_storage(slots, flat, operand.ty, datum(ops, env, operand));
    assert(stack_at(all, env, at + 4) == stack && datum(all, env, Value::at(at + 3, storage))
        == stored) by {
        assert(emitted[3].operands[0] == Value::at(at + 2, bytes_ty));
        lemma_emitted(ops, emitted, env, 3);
        lemma_accessed(ops, emitted, env, 3);
    }
    assert(emitted[4].operands[0] == Value::at(at + 3, storage));
    assert(emitted[4].operands[1] == Value::at(at + 1, address.ty));
    lemma_accessed(ops, emitted, env, 4);
}

/// The stores of the first `m` payload fields write over the bytes of the slot.
proof fn lemma_payloads_stored(
    base: Seq<OpView>,
    env: spec_fn(u64) -> Datum,
    info: EnumInfo,
    address: Value,
    slot: nat,
    deferred: Seq<(usize, Value)>,
    data: Seq<Datum>,
    m: nat,
)
    requires
        m <= deferred.len(),
        can_be_stored(base, env, info, deferred, data),
        available(address, base.len()),
        datum(base, env, address) == Datum::Slot(slot, 0),
        base.len() + 5 * m <= usize::MAX,
    ensures
        ({
            let (all, error) = store_payloads(base, info.slots, address, deferred, m);
            &&& error is None
            &&& base.is_prefix_of(all)
            &&& all.len() == base.len() + 5 * m
            &&& stack_at(all, env, all.len())(slot) == layered(
                stack_at(base, env, base.len())(slot),
                info.slots,
                deferred,
                data,
                m,
            )
        }),
    decreases m,
{
    if m == 0 {
        assert(base + Seq::empty() =~= base);
    } else {
        let slots = info.slots;
        lemma_payloads_stored(
            base,
            env,
            info,
            address,
            slot,
            deferred,
            data,
            (m - 1) as nat,
        );
        let (before, _) = store_payloads(base, slots, address, deferred, (m - 1) as nat);
        let (flat, operand) = deferred[m - 1];
        assert(has_bytes(info, flat as int));
        let emitted = storing(before.len(), slots, address, flat as int, operand);
        let (all, _) = store_payloads(base, slots, address, deferred, m);
        assert(all =~= before + emitted);
        let earlier = before.skip(base.len() as int);
        assert(before =~= base + earlier);
        lemma_datum_prefix(base, earlier, env, address);
        lemma_datum_prefix(base, earlier, env, operand);
        lemma_payload_stored(before, env, info, address, slot, flat as int, operand);
        assert(all.take(base.len() as int) =~= base);
    }
}

/// The byte address that is computed by two operations at position `k`.
pub proof fn lemma_byte_address(
    ops: Seq<OpView>,
    emitted: Seq<OpView>,
    env: spec_fn(u64) -> Datum,
    base: Value,
    offset: u64,
    slot: nat,
    from: int,
    k: nat,
)
    requires
        k + 2 <= emitted.len(),
        ops.len() + k + 2 <= usize::MAX,
        emitted[k as int] == byte_gep_ops(ops.len() + k, base, offset)[0],
        emitted[k as int + 1] == byte_gep_ops(ops.len() + k, base, offset)[1],
        available(base, ops.len() + k),
        datum(ops + emitted, env, base) == Datum::Slot(slot, from),
        offset <= i64::MAX,
    ensures
        ({
            let all = ops + emitted;
            let at = ops.len() + k;
            &&& forall|ty: LlvmType|
                datum(all, env, #[trigger] Value::at(at + 1, ty)) == Datum::Slot(
                    slot,
                    from + offset,
                )
            &&& stack_at(all, env, at + 2) == stack_at(all, env, at)
        }),
{
    lemma_value_of_int(offset as int, 64);
    vstd::arithmetic::power2::lemma2_to64();
    vstd::arithmetic::div_mod::lemma_small_mod(offset as nat, pow2(64));
    lemma_emitted(ops, emitted, env, k);
    lemma_accessed(ops, emitted, env, k);
    lemma_accessed(ops, emitted, env, k + 1);
    assert(size_of(LlvmType::spec_int(8)) == 1);
}

/// A construction that writes payload fields through memory reads the value from
/// the bytes of the value before, with those of the payload fields over them.
pub proof fn lemma_finished(
    build: EnumBuild,
    env: spec_fn(u64) -> Datum,
    info: EnumInfo,
    data: Seq<Datum>,
) -> (bytes: spec_fn(int) -> Byte)
    requires
        build.value.ty == info.slots.struct_ty,
        available(build.value, build.ops.len()),
        laid_out(info.slots.struct_ty),
        can_be_stored(build.ops, env, info, build.deferred, data),
        build.ops.len() + 4 + 5 * build.deferred.len() <= usize::MAX,
    ensures
        ({
            let out = finish_enum(build, info);
            let ty = info.slots.struct_ty;
            &&& out.result matches Ok(Some(value))
            &&& value.ty == ty
            &&& available(value, out.ops.len())
            &&& build.ops.is_prefix_of(out.ops)
            &&& out.ops.len() == build.ops.len() + 4 + 5 * build.deferred.len()
            &&& datum(out.ops, env, value) == read(
                layered(bytes, info.slots, build.deferred, data, build.deferred.len()),
                0,
                ty,
            )
            &&& forall|k: int|
                0 <= k < size_of(ty) ==> #[trigger] at_offset(bytes, 0, k) == byte(
                    datum(build.ops, env, build.value),
                    ty,
                    k,
                )
        }),
{
    let n = build.ops.len();
    let ty = info.slots.struct_ty;
    let slot = (n + 1) as nat;
    let address = Value::at(n + 1, LlvmType::Pointer(0));
    let spill = spill_ops(n, build.value, ty, info.abi_align);
    let base = build.ops + spill;
    lemma_spilled(build.ops, spill, env, build.value);
    assert forall|j: int| 0 <= j < build.deferred.len() implies {
        &&& available((#[trigger] build.deferred[j]).1, base.len())
        &&& datum(base, env, build.deferred[j].1) == datum(build.ops, env, build.deferred[j].1)
    } by {
        lemma_datum_prefix(build.ops, spill, env, build.deferred[j].1);
    }
    assert(can_be_stored(base, env, info, build.deferred, data)) by {
        assert forall|j: int| 0 <= j < build.deferred.len() implies {
            &&& has_bytes(info, (#[trigger] build.deferred[j]).0 as int)
            &&& available(build.deferred[j].1, base.len())
            &&& data[j] == in_storage(
                info.slots,
                build.deferred[j].0 as int,
                build.deferred[j].1.ty,
                datum(base, env, build.deferred[j].1),
            )
        } by {}
    }
    lemma_payloads_stored(
        base,
        env,
        info,
        address,
        slot,
        build.deferred,
        data,
        build.deferred.len(),
    );
    let (all, _) = store_payloads(
        base,
        info.slots,
        address,
        build.deferred,
        build.deferred.len(),
    );
    let more = all.skip(base.len() as int);
    assert(all =~= base + more);
    lemma_datum_prefix(base, more, env, address);
    let out = finish_enum(build, info);
    let last = seq![out.ops.last()];
    assert(out.ops =~= all + last);
    lemma_datum_prefix(all, last, env, address);
    lemma_prefix(all, last, env, all.len());
    lemma_accessed(all, last, env, 0);
    assert(last[0].operands[0] == address);
    assert(build.ops.is_prefix_of(out.ops)) by {
        assert(base.take(n as int) =~= build.ops);
    }
    stack_at(base, env, base.len())(slot)
}

/// What is read of a payload field without a slot: its bytes in the enum value.
pub proof fn lemma_payload_loaded(
    ops: Seq<OpView>,
    emitted: Seq<OpView>,
    env: spec_fn(u64) -> Datum,
    value: Value,
    info: EnumInfo,
    offset: u64,
    storage: LlvmType,
    ty: LlvmType,
    stored: Datum,
)
    requires
        emitted == spill_ops(ops.len(), value, info.slots.struct_ty, info.abi_align)
            + byte_gep_ops(ops.len() + 3, Value::at(ops.len() + 1, LlvmType::Pointer(0)), offset)
            + seq![
            OpView::load(Value::at(ops.len() + 4, LlvmType::Pointer(0)), storage),
            OpView::coerce(
                Coercion::PayloadStorage,
                Value::at(ops.len() + 5, storage),
                ty,
            ),
        ],
        available(value, ops.len()),
        value.ty == info.slots.struct_ty,
        laid_out(value.ty),
        laid_out(storage),
        fits(stored, storage),
        size_of(value.ty) <= i64::MAX,
        offset + size_of(storage) <= size_of(value.ty),
        forall|k: int|
            0 <= k < size_of(storage) ==> #[trigger] byte(
                datum(ops, env, value),
                value.ty,
                offset + k,
            ) == byte(stored, storage, k),
        ops.len() + 7 <= usize::MAX,
    ensures
        eval(ops + emitted, env, ops.len() + 6) == coerced(stored, storage, ty),
{
    let n = ops.len();
    let slot = (n + 1) as nat;
    let all = ops + emitted;
    let base = Value::at(n + 1, LlvmType::Pointer(0));
    let place = byte_gep_ops(n + 3, base, offset);
    assert(emitted[3] == place[0]);
    assert(emitted[4] == place[1]);
    lemma_spilled(ops, emitted, env, value);
    lemma_byte_address(ops, emitted, env, base, offset, slot, 0, 3);
    assert(emitted[5].operands[0] == Value::at(n + 4, LlvmType::Pointer(0)));
    lemma_accessed(ops, emitted, env, 5);
    let bytes = stack_at(all, env, n + 3)(slot);
    assert forall|k: int| 0 <= k < size_of(storage) implies #[trigger] at_offset(
        bytes,
        offset as int,
        k,
    ) == byte(stored, storage, k) by {
        assert(at_offset(bytes, 0, offset + k) == byte(
            datum(ops, env, value),
            value.ty,
            offset + k,
        ));
    }
    lemma_read_back(bytes, offset as int, storage, stored);
    assert(emitted[6].operands[0] == Value::at(n + 5, storage));
    lemma_emitted(ops, emitted, env, 6);
}

/// Whether payload field `flat` goes through memory: it takes bytes, and has no
/// slot.
pub open spec fn in_memory(info: EnumInfo, flat: int) -> bool {
    info.slots.field_slots@[flat] is None && !info.slots.zero_sized@[flat]
}

/// Whether any of the payload fields from number `base` on, `n` of them, goes
/// through memory.
pub open spec fn through_memory(info: EnumInfo, base: nat, n: nat) -> bool {
    exists|f: int| base <= f < base + n && #[trigger] in_memory(info, f)
}

/// Whether two payload fields have no byte in common.
pub open spec fn apart(slots: EnumSlotMap, f: int, g: int) -> bool {
    slots.field_offsets@[f] + size_of(slots.storage_types@[f].unwrap()) <= slots.field_offsets@[g]
        || slots.field_offsets@[g] + size_of(slots.storage_types@[g].unwrap())
        <= slots.field_offsets@[f]
}

/// The enum has a known layout, and the payload fields of a variant that go
/// through memory have bytes of their own in it.
pub open spec fn memory_sound(info: EnumInfo, base: nat, n: nat) -> bool {
    &&& info.slots.struct_ty is Struct
    &&& laid_out(info.slots.struct_ty)
    &&& size_of(info.slots.struct_ty) <= i64::MAX
    &&& forall|f: int|
        base <= f < base + n && #[trigger] in_memory(info, f) ==> has_bytes(info, f)
    &&& forall|f: int, g: int|
        base <= f < g < base + n && #[trigger] in_memory(info, f) && #[trigger] in_memory(info, g)
            ==> apart(info.slots, f, g)
}

/// Whether the member in `slot` has no byte in common with a payload field of
/// the variant that goes through memory.
pub open spec fn member_apart(info: EnumInfo, base: nat, n: nat, slot: int) -> bool {
    let fields = *info.slots.struct_ty->Struct_0;
    let at = field_offset(fields, slot as nat);
    let size = size_of(fields.types()[slot]);
    &&& size > 0
    &&& forall|f: int|
        base <= f < base + n && #[trigger] in_memory(info, f) ==> at + size
            <= info.slots.field_offsets@[f] || info.slots.field_offsets@[f] + size_of(
            info.slots.storage_types@[f].unwrap(),
        ) <= at
}

/// The payload fields that are set aside: those that go through memory, in
/// order.
pub open spec fn defers(
    info: EnumInfo,
    base: nat,
    operands: Seq<Value>,
    n: nat,
    deferred: Seq<(usize, Value)>,
) -> bool {
    &&& deferred.len() <= n
    &&& forall|j: int|
        0 <= j < deferred.len() ==> {
            &&& base <= (#[trigger] deferred[j]).0 < base + n
            &&& in_memory(info, deferred[j].0 as int)
            &&& deferred[j].1 == operands[deferred[j].0 - base]
        }
    &&& forall|i: int, j: int|
        0 <= i < j < deferred.len() ==> (#[trigger] deferred[i]).0 < (#[trigger] deferred[j]).0
    &&& forall|f: int|
        base <= f < base + n && #[trigger] in_memory(info, f) ==> exists|j: int|
            0 <= j < deferred.len() && (#[trigger] deferred[j]).0 == f
}

/// Adding payload fields sets aside those that go through memory.
pub proof fn lemma_deferred(
    build: EnumBuild,
    info: EnumInfo,
    base: nat,
    operands: Seq<Value>,
    n: nat,
)
    requires
        build.deferred.len() == 0,
        n <= operands.len(),
        add_payloads(build, info.slots, base, operands, n).error is None,
        base + n <= usize::MAX,
    ensures
        defers(
            info,
            base,
            operands,
            n,
            add_payloads(build, info.slots, base, operands, n).deferred,
        ),
    decreases n,
{
    if n > 0 {
        let before = add_payloads(build, info.slots, base, operands, (n - 1) as nat);
        let flat = (base + n - 1) as nat;
        assert(add_payload(before, info.slots, flat, operands[n - 1]).error is None);
        lemma_deferred(build, info, base, operands, (n - 1) as nat);
        let old = before.deferred;
        let new = add_payloads(build, info.slots, base, operands, n).deferred;
        assert forall|f: int| base <= f < base + n && #[trigger] in_memory(info, f) implies exists|
            j: int,
        |
            0 <= j < new.len() && (#[trigger] new[j]).0 == f by {
            if f == flat {
                assert(new[new.len() - 1].0 == f);
            } else {
                let j = choose|j: int| 0 <= j < old.len() && (#[trigger] old[j]).0 == f;
                assert(new[j] == old[j]);
            }
        }
    }
}

/// The payload fields that were set aside, as they are stored.
spec fn deferred_data(build: EnumBuild, env: spec_fn(u64) -> Datum, info: EnumInfo) -> Seq<Datum> {
    Seq::new(
        build.deferred.len(),
        |j: int|
            in_storage(
                info.slots,
                build.deferred[j].0 as int,
                build.deferred[j].1.ty,
                datum(build.ops, env, build.deferred[j].1),
            ),
    )
}

/// The construction up to the payload fields that go through memory.
pub open spec fn set_aside(
    build: EnumBuild,
    info: EnumInfo,
    base: nat,
    operands: Seq<Value>,
) -> bool {
    &&& defers(info, base, operands, operands.len(), build.deferred)
    &&& memory_sound(info, base, operands.len())
    &&& build.value.ty == info.slots.struct_ty
    &&& available(build.value, build.ops.len())
    &&& forall|f: int|
        0 <= f < operands.len() ==> available(#[trigger] operands[f], build.ops.len())
    &&& build.ops.len() + 4 + 5 * operands.len() <= usize::MAX
}

proof fn lemma_can_be_stored(
    build: EnumBuild,
    env: spec_fn(u64) -> Datum,
    info: EnumInfo,
    base: nat,
    operands: Seq<Value>,
)
    requires
        set_aside(build, info, base, operands),
    ensures
        can_be_stored(build.ops, env, info, build.deferred, deferred_data(build, env, info)),
{
    let data = deferred_data(build, env, info);
    assert forall|j: int| 0 <= j < build.deferred.len() implies {
        &&& has_bytes(info, (#[trigger] build.deferred[j]).0 as int)
        &&& available(build.deferred[j].1, build.ops.len())
    } by {
        assert(in_memory(info, build.deferred[j].0 as int));
        assert(available(operands[build.deferred[j].0 - base], build.ops.len()));
    }
}

/// A member that has no byte in common with a payload field in memory is what
/// was put there.
pub proof fn lemma_kept_member(
    build: EnumBuild,
    env: spec_fn(u64) -> Datum,
    info: EnumInfo,
    base: nat,
    operands: Seq<Value>,
    slot: int,
    parts: Seq<Datum>,
) -> (after: Seq<Datum>)
    requires
        set_aside(build, info, base, operands),
        member_apart(info, base, operands.len(), slot),
        datum(build.ops, env, build.value) == Datum::Aggregate(parts),
        member_count(info.slots.struct_ty) == Some(parts.len()),
        0 <= slot < parts.len(),
        fits(parts[slot], member_type(info.slots.struct_ty, slot)),
    ensures
        ({
            let out = finish_enum(build, info);
            &&& out.result matches Ok(Some(value))
            &&& value.ty == info.slots.struct_ty
            &&& available(value, out.ops.len())
            &&& out.ops.len() <= build.ops.len() + 4 + 5 * operands.len()
            &&& datum(out.ops, env, value) == Datum::Aggregate(after)
            &&& after.len() == parts.len()
            &&& after[slot] == parts[slot]
        }),
{
    let ty = info.slots.struct_ty;
    let fields = *ty->Struct_0;
    let packed = ty->Struct_1;
    let member = fields.types()[slot];
    let at = field_offset(fields, slot as nat) as int;
    let data = deferred_data(build, env, info);
    lemma_can_be_stored(build, env, info, base, operands);
    let bytes = lemma_finished(build, env, info, data);
    let over = layered(bytes, info.slots, build.deferred, data, build.deferred.len());
    assert forall|k: int| 0 <= k < size_of(member) implies #[trigger] at_offset(over, 0 + at, k)
        == byte(parts[slot], member, k) by {
        assert forall|j: int| 0 <= j < build.deferred.len() implies !covers(
            info.slots,
            (#[trigger] build.deferred[j]).0 as int,
            at + k,
        ) by {
            assert(in_memory(info, build.deferred[j].0 as int));
        }
        lemma_byte_untouched(
            bytes,
            info.slots,
            build.deferred,
            data,
            build.deferred.len(),
            at + k,
        );
        lemma_byte_of_field(fields, parts, slot, k);
        assert(at_offset(bytes, 0, at + k) == byte(Datum::Aggregate(parts), ty, at + k));
    }
    lemma_read_member(over, 0, fields, packed, slot, parts[slot]);
    read(over, 0, ty)->Aggregate_0
}

/// A payload field that goes through memory has its bytes in the value.
pub proof fn lemma_kept_payload(
    build: EnumBuild,
    env: spec_fn(u64) -> Datum,
    info: EnumInfo,
    base: nat,
    operands: Seq<Value>,
    f: int,
) -> (over: spec_fn(int) -> Byte)
    requires
        set_aside(build, info, base, operands),
        base <= f < base + operands.len(),
        in_memory(info, f),
    ensures
        ({
            let out = finish_enum(build, info);
            let storage = info.slots.storage_types@[f].unwrap();
            let operand = operands[f - base];
            &&& out.result matches Ok(Some(value))
            &&& value.ty == info.slots.struct_ty
            &&& available(value, out.ops.len())
            &&& out.ops.len() <= build.ops.len() + 4 + 5 * operands.len()
            &&& datum(out.ops, env, value) == read(over, 0, value.ty)
            &&& forall|k: int|
                0 <= k < size_of(storage) ==> #[trigger] at_offset(
                    over,
                    info.slots.field_offsets@[f] as int,
                    k,
                ) == byte(
                    in_storage(info.slots, f, operand.ty, datum(build.ops, env, operand)),
                    storage,
                    k,
                )
        }),
{
    let data = deferred_data(build, env, info);
    let deferred = build.deferred;
    lemma_can_be_stored(build, env, info, base, operands);
    let bytes = lemma_finished(build, env, info, data);
    let over = layered(bytes, info.slots, deferred, data, deferred.len());
    let storage = info.slots.storage_types@[f].unwrap();
    let offset = info.slots.field_offsets@[f] as int;
    let j = choose|j: int| 0 <= j < deferred.len() && (#[trigger] deferred[j]).0 == f;
    assert(has_bytes(info, f));
    assert forall|k: int| 0 <= k < size_of(storage) implies #[trigger] at_offset(over, offset, k)
        == byte(data[j], storage, k) by {
        let p = offset + k;
        assert forall|i: int| 0 <= i < deferred.len() && i != j implies !covers(
            info.slots,
            (#[trigger] deferred[i]).0 as int,
            p,
        ) by {
            assert(in_memory(info, deferred[i].0 as int));
            assert(has_bytes(info, deferred[i].0 as int));
            if i < j {
                assert(deferred[i].0 < deferred[j].0);
            } else {
                assert(deferred[j].0 < deferred[i].0);
            }
        }
        lemma_byte_written(bytes, info.slots, deferred, data, deferred.len(), j, p);
    }
    over
}

} // verus!
