//! Laws: what is read back from an enum value, and from a scalar that encodes
//! one.

use crate::aggregate_laws::{
    carrier_datum, carrier_held, lemma_discriminant_of_variant, lemma_niche_discriminant,
    lemma_payloads_keep_carrier, lemma_start_variant, payloads_avoid,
};
use crate::byte_access::byte_gep_ops;
use crate::call::Outcome;
use crate::cast::{
    enum_discriminants, niche_pattern, only_field, rebuilt_enum, scalar_depth,
    scalar_to_niched_enum, zeros, NicheEncoding, MAX_NEWTYPE_DEPTH,
};
use crate::enum_memory::{
    has_bytes, in_memory, in_storage, lemma_byte_address, lemma_coerced_back, lemma_deferred,
    lemma_kept_member, lemma_kept_payload, lemma_payload_loaded, member_apart, memory_sound,
    set_aside, through_memory,
};
use crate::enums::{
    add_payload, add_payloads, carrier_bits, carrier_ops, construct_enum, field_base,
    get_discriminant_ops, payload_ops, set_discriminant_ops, start_variant, EnumBuild,
    EnumCarrierKind, EnumInfo, EnumLayoutKind, StampedType,
};
use crate::ints::{lemma_value_of_int, signed64, IntConst};
use crate::llvm::{LlvmType, Signedness};
use crate::lower::LowerError;
use crate::mir::MirType;
use crate::ops::{Coercion, Def, Index, IntPredicate, OpCode, OpView, Value};
use crate::semantics::{
    available, coerced, datum, eval, inserted, lemma_accessed, lemma_datum_prefix, lemma_emitted,
    lemma_prefix, lemma_undefined, member_count, member_type, overwritten, represented, same_value,
    stack_at, undefined, wrap, Datum,
};
use crate::stack_memory::{
    at_offset, byte, field_offset, fits, laid_out, lemma_bytes_of_read, lemma_read_member, read,
    size_of, Byte,
};
use vstd::arithmetic::power2::pow2;
use vstd::prelude::*;

verus! {

/// Carrier and payload slots are members of the LLVM struct.
pub open spec fn slots_within(info: EnumInfo, members: nat) -> bool {
    &&& member_count(info.slots.struct_ty) == Some(members)
    &&& info.slots.carrier_slot matches Some(slot) ==> slot < members
    &&& forall|f: int|
        0 <= f < info.slots.field_slots@.len() ==> (#[trigger] info.slots.field_slots@[f]
            matches Some(slot) ==> slot < members)
}

/// No two payload fields of one variant share a slot.
pub open spec fn payloads_separate(info: EnumInfo, base: nat, n: nat) -> bool {
    forall|i: int, j: int|
        #![trigger info.slots.field_slots@[base + i], info.slots.field_slots@[base + j]]
        0 <= i < j < n && base + j < info.slots.field_slots@.len()
            && info.slots.field_slots@[base + i] is Some ==> info.slots.field_slots@[base + i]
            != info.slots.field_slots@[base + j]
}

/// Before any payload there is an aggregate with all its members.
#[verifier::rlimit(40)]
proof fn lemma_begun(
    ops: Seq<OpView>,
    env: spec_fn(u64) -> Datum,
    info: EnumInfo,
    variant: nat,
    members: nat,
) -> (parts: Seq<Datum>)
    requires
        slots_within(info, members),
        start_variant(ops, info, variant).error is None,
        ops.len() + 4 <= usize::MAX,
    ensures
        ({
            let begun = start_variant(ops, info, variant);
            &&& begun.deferred.len() == 0
            &&& begun.value.ty == info.slots.struct_ty
            &&& ops.is_prefix_of(begun.ops)
            &&& begun.ops.len() <= ops.len() + 4
            &&& available(begun.value, begun.ops.len())
            &&& datum(begun.ops, env, begun.value) == Datum::Aggregate(parts)
            &&& parts.len() == members
        }),
{
    let struct_ty = info.slots.struct_ty;
    let begun = start_variant(ops, info, variant);
    let blank = undefined(struct_ty)->Aggregate_0;
    lemma_undefined(struct_ty);
    let undef = OpView::undef(struct_ty);
    match carrier_bits(info, variant as int).unwrap() {
        None => {
            let emitted = seq![undef];
            assert(begun.ops =~= ops + emitted);
            lemma_emitted(ops, emitted, env, 0);
            blank
        },
        Some(bits) => {
            let slot = info.slots.carrier_slot.unwrap();
            let ty = info.slots.carrier_ty.unwrap();
            let carrier = carrier_ops(ops.len() + 1, info, ty, bits).unwrap();
            let k = carrier.len();
            let insert = OpView::insert(
                Value::at(ops.len(), struct_ty),
                Value::at((ops.len() + k) as nat, ty),
                slot,
            );
            let emitted = seq![undef] + carrier + seq![insert];
            assert(begun.ops =~= ops + emitted);
            assert(emitted[0] == undef);
            lemma_emitted(ops, emitted, env, 0);
            assert(emitted[k as int + 1] == insert);
            lemma_emitted(ops, emitted, env, k + 1);
            blank.update(slot as int, datum(begun.ops, env, Value::at((ops.len() + k) as nat, ty)))
        },
    }
}

/// After `n` payload fields, field `k` stands in its slot in storage form.
#[verifier::rlimit(40)]
#[verifier::spinoff_prover]
proof fn lemma_payload_in_slot(
    build: EnumBuild,
    env: spec_fn(u64) -> Datum,
    info: EnumInfo,
    members: nat,
    base: nat,
    operands: Seq<Value>,
    n: nat,
    k: int,
    parts: Seq<Datum>,
) -> (after: Seq<Datum>)
    requires
        n <= operands.len(),
        0 <= k < operands.len(),
        slots_within(info, members),
        payloads_separate(info, base, operands.len()),
        add_payloads(build, info.slots, base, operands, n).error is None,
        available(build.value, build.ops.len()),
        available(operands[k], build.ops.len()),
        datum(build.ops, env, build.value) == Datum::Aggregate(parts),
        parts.len() == members,
        build.ops.len() + 2 * operands.len() <= usize::MAX,
    ensures
        ({
            let built = add_payloads(build, info.slots, base, operands, n);
            &&& build.ops.is_prefix_of(built.ops)
            &&& built.ops.len() <= build.ops.len() + 2 * n
            &&& built.value.ty == build.value.ty
            &&& available(built.value, built.ops.len())
            &&& datum(built.ops, env, built.value) == Datum::Aggregate(after)
            &&& after.len() == members
            &&& k < n ==> base + k < info.slots.field_slots@.len() && (
            info.slots.field_slots@[base + k] matches Some(slot) ==> {
                &&& info.slots.struct_ty.spec_member(slot) is Some
                &&& after[slot as int] == coerced(
                    datum(build.ops, env, operands[k]),
                    operands[k].ty,
                    info.slots.struct_ty.spec_member(slot).unwrap(),
                )
            })
        }),
    decreases n,
{
    if n == 0 {
        parts
    } else {
        let before = add_payloads(build, info.slots, base, operands, (n - 1) as nat);
        let flat = (base + n - 1) as nat;
        let operand = operands[n - 1];
        assert(add_payload(before, info.slots, flat, operand).error is None);
        let mid = lemma_payload_in_slot(
            build,
            env,
            info,
            members,
            base,
            operands,
            (n - 1) as nat,
            k,
            parts,
        );
        match info.slots.field_slots@[flat as int] {
            None => mid,
            Some(other) => {
                let storage = info.slots.struct_ty.spec_member(other).unwrap();
                let at = before.ops.len();
                let emitted = seq![
                    OpView::coerce(Coercion::PayloadStorage, operand, storage),
                    OpView::insert(before.value, Value::at(at, storage), other),
                ];
                let built = add_payload(before, info.slots, flat, operand);
                assert(built.ops =~= before.ops + emitted);
                lemma_datum_prefix(before.ops, emitted, env, before.value);
                lemma_emitted(before.ops, emitted, env, 1);
                let stored = datum(built.ops, env, Value::at(at, storage));
                if k == n - 1 {
                    let more = before.ops.skip(build.ops.len() as int) + emitted;
                    assert(built.ops =~= build.ops + more);
                    lemma_datum_prefix(build.ops, more, env, operand);
                    lemma_emitted(before.ops, emitted, env, 0);
                } else if k < n - 1 {
                    if let Some(slot) = info.slots.field_slots@[base + k] {
                        assert(info.slots.field_slots@[base + k] != info.slots.field_slots@[base
                            + (n - 1)]);
                        assert(slot != other);
                    }
                }
                mid.update(other as int, stored)
            },
        }
    }
}

/// The construction of a variant before any payload field goes through memory.
pub open spec fn filled(
    ops: Seq<OpView>,
    operands: Seq<Value>,
    variant: nat,
    info: EnumInfo,
) -> EnumBuild {
    add_payloads(
        start_variant(ops, info, variant),
        info.slots,
        field_base(info.variant_field_counts@, variant),
        operands,
        operands.len(),
    )
}

/// The construction of a variant from available values succeeds up to the
/// payload fields that go through memory, and these have bytes of their own.
pub open spec fn builds(
    ops: Seq<OpView>,
    operands: Seq<Value>,
    variant: nat,
    info: EnumInfo,
    members: nat,
) -> bool {
    let base = field_base(info.variant_field_counts@, variant);
    &&& info.slots.wf()
    &&& slots_within(info, members)
    &&& filled(ops, operands, variant, info).error is None
    &&& forall|f: int| 0 <= f < operands.len() ==> available(#[trigger] operands[f], ops.len())
    &&& base + operands.len() <= usize::MAX
    &&& through_memory(info, base, operands.len()) ==> memory_sound(info, base, operands.len())
    &&& ops.len() + 30 + 7 * operands.len() <= usize::MAX
}

/// The member in `slot` holds `d` after the construction: if any payload field
/// goes through memory, it has bytes apart from those, and `d` fits it.
pub open spec fn keeps_member(
    info: EnumInfo,
    base: nat,
    n: nat,
    slot: u32,
    d: Datum,
) -> bool {
    through_memory(info, base, n) ==> member_apart(info, base, n, slot as int) && fits(
        d,
        member_type(info.slots.struct_ty, slot as int),
    )
}

/// Once building has failed, it stays so.
proof fn lemma_failed_start(
    build: EnumBuild,
    info: EnumInfo,
    base: nat,
    operands: Seq<Value>,
    n: nat,
)
    requires
        build.error is Some,
    ensures
        add_payloads(build, info.slots, base, operands, n).error == build.error,
    decreases n,
{
    if n > 0 {
        lemma_failed_start(build, info, base, operands, (n - 1) as nat);
    }
}

/// The construction is ready for memory where a payload field goes there.
proof fn lemma_set_aside(
    ops: Seq<OpView>,
    operands: Seq<Value>,
    variant: nat,
    info: EnumInfo,
    members: nat,
)
    requires
        builds(ops, operands, variant, info, members),
        ops.is_prefix_of(filled(ops, operands, variant, info).ops),
        filled(ops, operands, variant, info).ops.len() <= ops.len() + 4 + 2 * operands.len(),
        filled(ops, operands, variant, info).value.ty == info.slots.struct_ty,
        available(
            filled(ops, operands, variant, info).value,
            filled(ops, operands, variant, info).ops.len(),
        ),
    ensures
        ({
            let base = field_base(info.variant_field_counts@, variant);
            let build = filled(ops, operands, variant, info);
            &&& through_memory(info, base, operands.len()) == (build.deferred.len() > 0)
            &&& build.deferred.len() > 0 ==> set_aside(build, info, base, operands)
        }),
{
    let base = field_base(info.variant_field_counts@, variant);
    let begun = start_variant(ops, info, variant);
    let build = filled(ops, operands, variant, info);
    if begun.error is Some {
        lemma_failed_start(begun, info, base, operands, operands.len());
    }
    lemma_deferred(begun, info, base, operands, operands.len());
    if build.deferred.len() > 0 {
        assert(in_memory(info, build.deferred[0].0 as int));
    }
}

/// What stands in a slot before memory stands there in the constructed value.
proof fn lemma_constructed_member(
    ops: Seq<OpView>,
    env: spec_fn(u64) -> Datum,
    operands: Seq<Value>,
    variant: nat,
    info: EnumInfo,
    members: nat,
    slot: u32,
    parts: Seq<Datum>,
) -> (after: Seq<Datum>)
    requires
        builds(ops, operands, variant, info, members),
        ops.is_prefix_of(filled(ops, operands, variant, info).ops),
        filled(ops, operands, variant, info).ops.len() <= ops.len() + 4 + 2 * operands.len(),
        filled(ops, operands, variant, info).value.ty == info.slots.struct_ty,
        available(
            filled(ops, operands, variant, info).value,
            filled(ops, operands, variant, info).ops.len(),
        ),
        datum(
            filled(ops, operands, variant, info).ops,
            env,
            filled(ops, operands, variant, info).value,
        ) == Datum::Aggregate(parts),
        parts.len() == members,
        slot < members,
        keeps_member(
            info,
            field_base(info.variant_field_counts@, variant),
            operands.len(),
            slot,
            parts[slot as int],
        ),
    ensures
        ({
            let out = construct_enum(ops, operands, variant, Some(info));
            &&& out.result matches Ok(Some(value))
            &&& value.ty == info.slots.struct_ty
            &&& available(value, out.ops.len())
            &&& out.ops.len() <= ops.len() + 8 + 7 * operands.len()
            &&& datum(out.ops, env, value) == Datum::Aggregate(after)
            &&& after.len() == members
            &&& after[slot as int] == parts[slot as int]
        }),
{
    let build = filled(ops, operands, variant, info);
    let base = field_base(info.variant_field_counts@, variant);
    lemma_set_aside(ops, operands, variant, info, members);
    if build.deferred.len() == 0 {
        parts
    } else {
        lemma_kept_member(build, env, info, base, operands, slot as int, parts)
    }
}

/// A payload field with a slot stands there in the constructed value.
proof fn lemma_constructed_slot(
    ops: Seq<OpView>,
    env: spec_fn(u64) -> Datum,
    operands: Seq<Value>,
    variant: nat,
    info: EnumInfo,
    members: nat,
    k: nat,
    slot: u32,
) -> (after: Seq<Datum>)
    requires
        payload_given(ops, env, operands, variant, info, members, k),
        info.slots.field_slots@[(field_base(info.variant_field_counts@, variant) + k) as int]
            == Some(slot),
    ensures
        ({
            let out = construct_enum(ops, operands, variant, Some(info));
            &&& out.result matches Ok(Some(value))
            &&& value.ty == info.slots.struct_ty
            &&& available(value, out.ops.len())
            &&& out.ops.len() <= ops.len() + 8 + 7 * operands.len()
            &&& datum(out.ops, env, value) == Datum::Aggregate(after)
            &&& after.len() == members
            &&& info.slots.struct_ty.spec_member(slot) is Some
            &&& after[slot as int] == coerced(
                datum(ops, env, operands[k as int]),
                operands[k as int].ty,
                info.slots.struct_ty.spec_member(slot).unwrap(),
            )
        }),
{
    let base = field_base(info.variant_field_counts@, variant);
    let begun = start_variant(ops, info, variant);
    if begun.error is Some {
        lemma_failed_start(begun, info, base, operands, operands.len());
    }
    let parts = lemma_begun(ops, env, info, variant, members);
    let head = begun.ops.skip(ops.len() as int);
    assert(begun.ops =~= ops + head);
    lemma_datum_prefix(ops, head, env, operands[k as int]);
    let inner = lemma_payload_in_slot(
        begun,
        env,
        info,
        members,
        base,
        operands,
        operands.len(),
        k as int,
        parts,
    );
    lemma_prefix_of(ops, begun.ops, filled(ops, operands, variant, info).ops);
    lemma_constructed_member(ops, env, operands, variant, info, members, slot, inner)
}

/// A payload field with a slot is read as it was built.
proof fn lemma_slot_round_trip(
    ops: Seq<OpView>,
    env: spec_fn(u64) -> Datum,
    operands: Seq<Value>,
    variant: nat,
    info: EnumInfo,
    members: nat,
    k: nat,
    slot: u32,
)
    requires
        payload_given(ops, env, operands, variant, info, members, k),
        info.slots.field_slots@[(field_base(info.variant_field_counts@, variant) + k) as int]
            == Some(slot),
    ensures
        payload_read(ops, env, operands, variant, info, k, datum(ops, env, operands[k as int])),
{
    let operand = operands[k as int];
    lemma_constructed_slot(ops, env, operands, variant, info, members, k, slot);
    let member = info.slots.struct_ty.spec_member(slot).unwrap();
    let out = construct_enum(ops, operands, variant, Some(info));
    let value = out.result.unwrap().unwrap();
    let read = payload_ops(out.ops.len(), seq![value], variant, k, Some(info)).unwrap();
    lemma_datum_prefix(out.ops, read, env, value);
    lemma_emitted(out.ops, read, env, 0);
    lemma_emitted(out.ops, read, env, 1);
    lemma_coerced_back(datum(ops, env, operand), operand.ty, member, member);
}

proof fn lemma_prefix_of(a: Seq<OpView>, b: Seq<OpView>, c: Seq<OpView>)
    requires
        a.is_prefix_of(b),
        b.is_prefix_of(c),
    ensures
        a.is_prefix_of(c),
{
    assert(c.take(a.len() as int) =~= b.take(a.len() as int));
}

/// A payload field without a slot has its bytes in the constructed value.
proof fn lemma_constructed_payload(
    ops: Seq<OpView>,
    env: spec_fn(u64) -> Datum,
    operands: Seq<Value>,
    variant: nat,
    info: EnumInfo,
    members: nat,
    k: nat,
) -> (over: spec_fn(int) -> Byte)
    requires
        builds(ops, operands, variant, info, members),
        k < operands.len(),
        in_memory(info, (field_base(info.variant_field_counts@, variant) + k) as int),
    ensures
        ({
            let flat = (field_base(info.variant_field_counts@, variant) + k) as int;
            let out = construct_enum(ops, operands, variant, Some(info));
            let storage = info.slots.storage_types@[flat].unwrap();
            let operand = operands[k as int];
            &&& has_bytes(info, flat)
            &&& laid_out(info.slots.struct_ty)
            &&& size_of(info.slots.struct_ty) <= i64::MAX
            &&& out.result matches Ok(Some(value))
            &&& value.ty == info.slots.struct_ty
            &&& available(value, out.ops.len())
            &&& out.ops.len() <= ops.len() + 8 + 7 * operands.len()
            &&& datum(out.ops, env, value) == read(over, 0, value.ty)
            &&& forall|j: int|
                0 <= j < size_of(storage) ==> #[trigger] at_offset(
                    over,
                    info.slots.field_offsets@[flat] as int,
                    j,
                ) == byte(
                    in_storage(info.slots, flat, operand.ty, datum(ops, env, operand)),
                    storage,
                    j,
                )
        }),
{
    let base = field_base(info.variant_field_counts@, variant);
    let flat = (base + k) as int;
    let begun = start_variant(ops, info, variant);
    let build = filled(ops, operands, variant, info);
    if begun.error is Some {
        lemma_failed_start(begun, info, base, operands, operands.len());
    }
    lemma_begun(ops, env, info, variant, members);
    lemma_built_shape(begun, info, base, operands, operands.len());
    lemma_prefix_of(ops, begun.ops, build.ops);
    lemma_set_aside(ops, operands, variant, info, members);
    assert(has_bytes(info, flat));
    let over = lemma_kept_payload(build, env, info, base, operands, flat);
    let more = build.ops.skip(ops.len() as int);
    assert(build.ops =~= ops + more);
    lemma_datum_prefix(ops, more, env, operands[k as int]);
    over
}

/// A payload field without a slot is read from memory as it was written there.
proof fn lemma_memory_round_trip(
    ops: Seq<OpView>,
    env: spec_fn(u64) -> Datum,
    operands: Seq<Value>,
    variant: nat,
    info: EnumInfo,
    members: nat,
    k: nat,
)
    requires
        payload_given(ops, env, operands, variant, info, members, k),
        in_memory(info, (field_base(info.variant_field_counts@, variant) + k) as int),
    ensures
        payload_read(ops, env, operands, variant, info, k, datum(ops, env, operands[k as int])),
{
    let flat = (field_base(info.variant_field_counts@, variant) + k) as int;
    let over = lemma_constructed_payload(ops, env, operands, variant, info, members, k);
    let operand = operands[k as int];
    let d = datum(ops, env, operand);
    let slots = info.slots;
    let storage = slots.storage_types@[flat].unwrap();
    let out = construct_enum(ops, operands, variant, Some(info));
    let value = out.result.unwrap().unwrap();
    let offset = slots.field_offsets@[flat] as int;
    assert forall|j: int| 0 <= j < size_of(storage) implies #[trigger] byte(
        datum(out.ops, env, value),
        value.ty,
        offset + j,
    ) == byte(in_storage(slots, flat, operand.ty, d), storage, j) by {
        lemma_bytes_of_read(over, 0, value.ty, offset + j);
        assert(at_offset(over, 0, offset + j) == at_offset(over, offset, j));
    }
    let read = payload_ops(out.ops.len(), seq![value], variant, k, Some(info)).unwrap();
    lemma_payload_loaded(
        out.ops,
        read,
        env,
        value,
        info,
        slots.field_offsets@[flat],
        storage,
        slots.field_types@[flat],
        in_storage(slots, flat, operand.ty, d),
    );
    lemma_coerced_back(d, operand.ty, slots.byte_types@[flat], storage);
}

/// A variant is built from values of which that of payload field `k` has the
/// type of the field, and payload fields with slots have different ones.
pub open spec fn payload_given(
    ops: Seq<OpView>,
    env: spec_fn(u64) -> Datum,
    operands: Seq<Value>,
    variant: nat,
    info: EnumInfo,
    members: nat,
    k: nat,
) -> bool {
    let base = field_base(info.variant_field_counts@, variant);
    let flat = (base + k) as int;
    let d = datum(ops, env, operands[k as int]);
    let ty = info.slots.field_types@[flat];
    &&& builds(ops, operands, variant, info, members)
    &&& payloads_separate(info, base, operands.len())
    &&& k < operands.len()
    &&& flat < info.slots.field_slots@.len()
    &&& operands[k as int].ty == ty
    &&& represented(d, ty)
    &&& match info.slots.field_slots@[flat] {
        Some(slot) => {
            let member = member_type(info.slots.struct_ty, slot as int);
            &&& same_value(ty, member, member)
            &&& keeps_member(info, base, operands.len(), slot, coerced(d, ty, member))
        },
        None => in_memory(info, flat) ==> {
            let storage = info.slots.storage_types@[flat].unwrap();
            &&& same_value(ty, info.slots.byte_types@[flat], storage)
            &&& fits(in_storage(info.slots, flat, ty, d), storage)
        },
    }
}

/// Reading payload field `k` of the variant that was built gives `expected`, in
/// the type of the field.
pub open spec fn payload_read(
    ops: Seq<OpView>,
    env: spec_fn(u64) -> Datum,
    operands: Seq<Value>,
    variant: nat,
    info: EnumInfo,
    k: nat,
    expected: Datum,
) -> bool {
    let out = construct_enum(ops, operands, variant, Some(info));
    &&& out.result matches Ok(Some(value))
    &&& payload_ops(out.ops.len(), seq![value], variant, k, Some(info)) matches Ok(read)
    &&& read.len() > 0
    &&& read.last().ty == info.slots.field_types@[(field_base(
        info.variant_field_counts@,
        variant,
    ) + k) as int]
    &&& eval(out.ops + read, env, (out.ops.len() + read.len() - 1) as nat) == expected
}

/// A payload field that was built is the one that is read, whether it has a slot
/// or goes through memory. A field that takes no bytes is read as an arbitrary
/// value.
pub proof fn lemma_payload_round_trip(
    ops: Seq<OpView>,
    env: spec_fn(u64) -> Datum,
    operands: Seq<Value>,
    variant: nat,
    info: EnumInfo,
    members: nat,
    k: nat,
)
    requires
        payload_given(ops, env, operands, variant, info, members, k),
    ensures
        ({
            let flat = (field_base(info.variant_field_counts@, variant) + k) as int;
            let bytes = info.slots.field_slots@[flat] is Some || in_memory(info, flat);
            payload_read(
                ops,
                env,
                operands,
                variant,
                info,
                k,
                if bytes {
                    datum(ops, env, operands[k as int])
                } else {
                    undefined(info.slots.field_types@[flat])
                },
            )
        }),
{
    let base = field_base(info.variant_field_counts@, variant);
    let flat = (base + k) as int;
    match info.slots.field_slots@[flat] {
        Some(slot) => {
            lemma_slot_round_trip(ops, env, operands, variant, info, members, k, slot);
        },
        None => {
            if in_memory(info, flat) {
                lemma_memory_round_trip(ops, env, operands, variant, info, members, k);
            } else {
                let out = lemma_constructed(ops, env, operands, variant, info, members);
                let value = out.result.unwrap().unwrap();
                let read = payload_ops(out.ops.len(), seq![value], variant, k, Some(info)).unwrap();
                lemma_emitted(out.ops, read, env, 0);
            }
        },
    }
}

/// A construction that builds has a value.
proof fn lemma_constructed(
    ops: Seq<OpView>,
    env: spec_fn(u64) -> Datum,
    operands: Seq<Value>,
    variant: nat,
    info: EnumInfo,
    members: nat,
) -> (out: Outcome)
    requires
        builds(ops, operands, variant, info, members),
    ensures
        out == construct_enum(ops, operands, variant, Some(info)),
        out.result matches Ok(Some(value)) && value.ty == info.slots.struct_ty && available(
            value,
            out.ops.len(),
        ),
        out.ops.len() <= ops.len() + 8 + 7 * operands.len(),
{
    let base = field_base(info.variant_field_counts@, variant);
    let begun = start_variant(ops, info, variant);
    let build = filled(ops, operands, variant, info);
    if begun.error is Some {
        lemma_failed_start(begun, info, base, operands, operands.len());
    }
    lemma_begun(ops, env, info, variant, members);
    lemma_built_shape(begun, info, base, operands, operands.len());
    lemma_prefix_of(ops, begun.ops, build.ops);
    lemma_set_aside(ops, operands, variant, info, members);
    if build.deferred.len() > 0 {
        assert(in_memory(info, build.deferred[0].0 as int));
        lemma_kept_payload(build, env, info, base, operands, build.deferred[0].0 as int);
    }
    construct_enum(ops, operands, variant, Some(info))
}

/// A constructed variant holds its bits in the carrier, whatever the payload.
pub proof fn lemma_construct_carrier(
    ops: Seq<OpView>,
    env: spec_fn(u64) -> Datum,
    operands: Seq<Value>,
    variant: nat,
    info: EnumInfo,
    slot: u32,
    ty: LlvmType,
    members: nat,
    bits: u128,
)
    requires
        builds(ops, operands, variant, info, members),
        carrier_held(info, slot, ty, members),
        payloads_avoid(
            info,
            field_base(info.variant_field_counts@, variant),
            operands.len(),
            slot,
            members,
        ),
        carrier_bits(info, variant as int) == Ok::<_, LowerError>(Some(bits)),
        keeps_member(
            info,
            field_base(info.variant_field_counts@, variant),
            operands.len(),
            slot,
            carrier_datum(info, ty, bits),
        ),
    ensures
        ({
            let out = construct_enum(ops, operands, variant, Some(info));
            &&& out.result matches Ok(Some(value))
            &&& value.ty == info.slots.struct_ty
            &&& available(value, out.ops.len())
            &&& out.ops.len() <= ops.len() + 8 + 7 * operands.len()
            &&& datum(out.ops, env, value) matches Datum::Aggregate(parts)
            &&& parts.len() == members
            &&& parts[slot as int] == carrier_datum(info, ty, bits)
        }),
{
    let base = field_base(info.variant_field_counts@, variant);
    let begun = start_variant(ops, info, variant);
    let parts = lemma_start_variant(ops, env, info, variant, slot, ty, members, bits);
    let inner = lemma_payloads_keep_carrier(
        begun,
        env,
        info,
        slot,
        members,
        base,
        operands,
        operands.len(),
        parts,
    );
    lemma_prefix_of(ops, begun.ops, filled(ops, operands, variant, info).ops);
    lemma_constructed_member(ops, env, operands, variant, info, members, slot, inner);
}

/// The discriminant that is read from the variant that was built is `expected`.
pub open spec fn discriminant_read(
    ops: Seq<OpView>,
    env: spec_fn(u64) -> Datum,
    operands: Seq<Value>,
    variant: nat,
    info: EnumInfo,
    expected: Datum,
) -> bool {
    let out = construct_enum(ops, operands, variant, Some(info));
    &&& out.result matches Ok(Some(value))
    &&& get_discriminant_ops(out.ops.len(), seq![value], Some(info)) matches Ok(read)
    &&& read.len() > 0
    &&& eval(out.ops + read, env, (out.ops.len() + read.len() - 1) as nat) == expected
}

/// The carrier of a niched enum can hold every variant of the niche range.
pub open spec fn niche_fits(info: EnumInfo, ty: LlvmType) -> bool {
    info.layout_kind == EnumLayoutKind::Niche ==> {
        &&& 0 < info.carrier_width <= 128
        &&& info.niche_variant_start <= info.niche_variant_end
        &&& info.niche_variant_end - info.niche_variant_start < pow2(info.carrier_width as nat)
        &&& info.carrier_kind == EnumCarrierKind::Integer ==> ty.spec_int_width() == Some(
            info.carrier_width,
        )
    }
}

/// The discriminant of a variant that was just built and has bits in the
/// carrier is the one declared for it, as the tag holds it, or the variant
/// itself under a niche layout.
pub proof fn lemma_constructed_discriminant(
    ops: Seq<OpView>,
    env: spec_fn(u64) -> Datum,
    operands: Seq<Value>,
    variant: nat,
    info: EnumInfo,
    slot: u32,
    ty: LlvmType,
    members: nat,
    bits: u128,
    logical_width: u32,
)
    requires
        builds(ops, operands, variant, info, members),
        carrier_held(info, slot, ty, members),
        info.slots.struct_ty.spec_member(slot) is Some,
        payloads_avoid(
            info,
            field_base(info.variant_field_counts@, variant),
            operands.len(),
            slot,
            members,
        ),
        carrier_bits(info, variant as int) == Ok::<_, LowerError>(Some(bits)),
        keeps_member(
            info,
            field_base(info.variant_field_counts@, variant),
            operands.len(),
            slot,
            carrier_datum(info, ty, bits),
        ),
        info.discriminant.spec_int_width() == Some(logical_width),
        0 < logical_width,
        niche_fits(info, ty),
    ensures
        info.layout_kind == EnumLayoutKind::Niche ==> discriminant_read(
            ops,
            env,
            operands,
            variant,
            info,
            Datum::Int(logical_width as nat, wrap(variant as int, logical_width as nat)),
        ),
        info.layout_kind == EnumLayoutKind::Direct ==> discriminant_read(
            ops,
            env,
            operands,
            variant,
            info,
            carrier_datum(info, ty, info.variant_discriminants@[variant as int] as u128),
        ),
        info.layout_kind == EnumLayoutKind::Direct && info.carrier_kind == EnumCarrierKind::Integer
            && ty.spec_int_width() == Some(logical_width) ==> discriminant_read(
            ops,
            env,
            operands,
            variant,
            info,
            Datum::Int(
                logical_width as nat,
                wrap(
                    info.variant_discriminants@[variant as int] as int,
                    logical_width as nat,
                ),
            ),
        ),
{
    lemma_construct_carrier(ops, env, operands, variant, info, slot, ty, members, bits);
    let out = construct_enum(ops, operands, variant, Some(info));
    let value = out.result.unwrap().unwrap();
    let parts = datum(out.ops, env, value)->Aggregate_0;
    lemma_discriminant_of_variant(
        out.ops,
        env,
        value,
        variant as int,
        info,
        slot,
        ty,
        members,
        parts,
        bits,
        logical_width,
    );
}

/// What the carrier of a niched enum holds for given bits.
pub open spec fn niche_datum(info: EnumInfo, bits: int) -> Datum {
    match info.carrier_kind {
        EnumCarrierKind::Pointer => Datum::Pointer(bits),
        EnumCarrierKind::Integer => Datum::Int(info.carrier_width as nat, bits),
    }
}

/// Whether bits in the carrier encode no variant of the niche range.
pub open spec fn outside_niche(info: EnumInfo, bits: int) -> bool {
    wrap(bits - info.niche_start, info.carrier_width as nat) > info.niche_variant_end
        - info.niche_variant_start
}

/// The discriminant of the untagged variant of a niched enum is the variant,
/// wherever the payload leaves bits outside the niche range in the carrier.
pub proof fn lemma_untagged_discriminant(
    ops: Seq<OpView>,
    env: spec_fn(u64) -> Datum,
    operands: Seq<Value>,
    variant: nat,
    info: EnumInfo,
    slot: u32,
    members: nat,
    parts: Seq<Datum>,
    bits: int,
    logical_width: u32,
)
    requires
        builds(ops, operands, variant, info, members),
        info.layout_kind == EnumLayoutKind::Niche,
        variant == info.untagged_variant,
        info.slots.carrier_slot == Some(slot),
        info.slots.struct_ty.spec_member(slot) is Some,
        0 < info.carrier_width <= 128,
        info.niche_variant_start <= info.niche_variant_end,
        info.niche_variant_end - info.niche_variant_start < pow2(info.carrier_width as nat),
        info.discriminant.spec_int_width() == Some(logical_width),
        0 < logical_width,
        construct_enum(ops, operands, variant, Some(info)).result matches Ok(Some(value)) && datum(
            construct_enum(ops, operands, variant, Some(info)).ops,
            env,
            value,
        ) == Datum::Aggregate(parts),
        slot < parts.len(),
        0 <= bits < pow2(info.carrier_width as nat),
        parts[slot as int] == niche_datum(info, bits),
        outside_niche(info, bits),
    ensures
        discriminant_read(
            ops,
            env,
            operands,
            variant,
            info,
            Datum::Int(logical_width as nat, wrap(variant as int, logical_width as nat)),
        ),
{
    let out = lemma_constructed(ops, env, operands, variant, info, members);
    let value = out.result.unwrap().unwrap();
    lemma_niche_discriminant(
        out.ops,
        env,
        value,
        slot,
        info.slots.struct_ty.spec_member(slot).unwrap(),
        info,
        logical_width,
        parts,
        bits,
    );
}

/// The discriminant of the untagged variant of a niched enum is the variant,
/// where payload field `k` stands in the carrier and its bits are outside the
/// niche range.
pub proof fn lemma_untagged_payload(
    ops: Seq<OpView>,
    env: spec_fn(u64) -> Datum,
    operands: Seq<Value>,
    variant: nat,
    info: EnumInfo,
    slot: u32,
    members: nat,
    k: nat,
    bits: int,
    logical_width: u32,
)
    requires
        payload_given(ops, env, operands, variant, info, members, k),
        info.slots.field_slots@[(field_base(info.variant_field_counts@, variant) + k) as int]
            == Some(slot),
        info.layout_kind == EnumLayoutKind::Niche,
        variant == info.untagged_variant,
        info.slots.carrier_slot == Some(slot),
        0 < info.carrier_width <= 128,
        info.niche_variant_start <= info.niche_variant_end,
        info.niche_variant_end - info.niche_variant_start < pow2(info.carrier_width as nat),
        info.discriminant.spec_int_width() == Some(logical_width),
        0 < logical_width,
        0 <= bits < pow2(info.carrier_width as nat),
        coerced(
            datum(ops, env, operands[k as int]),
            operands[k as int].ty,
            member_type(info.slots.struct_ty, slot as int),
        ) == niche_datum(info, bits),
        outside_niche(info, bits),
    ensures
        discriminant_read(
            ops,
            env,
            operands,
            variant,
            info,
            Datum::Int(logical_width as nat, wrap(variant as int, logical_width as nat)),
        ),
{
    let parts = lemma_constructed_slot(ops, env, operands, variant, info, members, k, slot);
    lemma_untagged_discriminant(
        ops,
        env,
        operands,
        variant,
        info,
        slot,
        members,
        parts,
        bits,
        logical_width,
    );
}

/// The discriminant of the untagged variant of a niched enum is the variant,
/// where payload field `k` goes through memory, the carrier lies in its bytes,
/// and the bits there are outside the niche range.
pub proof fn lemma_untagged_memory_payload(
    ops: Seq<OpView>,
    env: spec_fn(u64) -> Datum,
    operands: Seq<Value>,
    variant: nat,
    info: EnumInfo,
    slot: u32,
    members: nat,
    k: nat,
    bits: int,
    logical_width: u32,
)
    requires
        builds(ops, operands, variant, info, members),
        k < operands.len(),
        in_memory(info, (field_base(info.variant_field_counts@, variant) + k) as int),
        info.layout_kind == EnumLayoutKind::Niche,
        variant == info.untagged_variant,
        info.slots.carrier_slot == Some(slot),
        0 < info.carrier_width <= 128,
        info.niche_variant_start <= info.niche_variant_end,
        info.niche_variant_end - info.niche_variant_start < pow2(info.carrier_width as nat),
        info.discriminant.spec_int_width() == Some(logical_width),
        0 < logical_width,
        0 <= bits < pow2(info.carrier_width as nat),
        carrier_in_payload(
            info,
            (field_base(info.variant_field_counts@, variant) + k) as int,
            slot,
            in_storage(
                info.slots,
                (field_base(info.variant_field_counts@, variant) + k) as int,
                operands[k as int].ty,
                datum(ops, env, operands[k as int]),
            ),
            niche_datum(info, bits),
        ),
        outside_niche(info, bits),
    ensures
        discriminant_read(
            ops,
            env,
            operands,
            variant,
            info,
            Datum::Int(logical_width as nat, wrap(variant as int, logical_width as nat)),
        ),
{
    let flat = (field_base(info.variant_field_counts@, variant) + k) as int;
    let over = lemma_constructed_payload(ops, env, operands, variant, info, members, k);
    let d = niche_datum(info, bits);
    let fields = *info.slots.struct_ty->Struct_0;
    let packed = info.slots.struct_ty->Struct_1;
    let member = fields.types()[slot as int];
    let at = field_offset(fields, slot as nat) as int;
    let offset = info.slots.field_offsets@[flat] as int;
    let storage = info.slots.storage_types@[flat].unwrap();
    let operand = operands[k as int];
    let stored = in_storage(info.slots, flat, operand.ty, datum(ops, env, operand));
    assert forall|j: int| 0 <= j < size_of(member) implies #[trigger] at_offset(over, 0 + at, j)
        == byte(d, member, j) by {
        assert(at_offset(over, offset, at - offset + j) == byte(stored, storage, at - offset + j));
    }
    lemma_read_member(over, 0, fields, packed, slot as int, d);
    lemma_untagged_discriminant(
        ops,
        env,
        operands,
        variant,
        info,
        slot,
        members,
        read(over, 0, info.slots.struct_ty)->Aggregate_0,
        bits,
        logical_width,
    );
}

/// Whether the member in `slot` lies within the bytes of payload field `flat`,
/// and `d` there, if the payload field is `stored`.
pub open spec fn carrier_in_payload(
    info: EnumInfo,
    flat: int,
    slot: u32,
    stored: Datum,
    d: Datum,
) -> bool {
    let fields = *info.slots.struct_ty->Struct_0;
    let member = fields.types()[slot as int];
    let at = field_offset(fields, slot as nat);
    let offset = info.slots.field_offsets@[flat];
    let storage = info.slots.storage_types@[flat].unwrap();
    &&& slot < fields.types().len()
    &&& offset <= at
    &&& at + size_of(member) <= offset + size_of(storage)
    &&& size_of(member) > 0
    &&& fits(d, member)
    &&& forall|j: int|
        0 <= j < size_of(member) ==> byte(stored, storage, at - offset + j) == #[trigger] byte(
            d,
            member,
            j,
        )
}

/// The discriminant of an enum with one variant is the one declared for it,
/// whatever the value holds.
pub proof fn law_single_discriminant(
    ops: Seq<OpView>,
    env: spec_fn(u64) -> Datum,
    value: Value,
    info: EnumInfo,
    logical_width: u32,
)
    requires
        info.layout_kind == EnumLayoutKind::Single,
        info.inhabited(info.single_variant as int) == Some(true),
        info.single_variant < info.variant_discriminants@.len(),
        info.discriminant.spec_int_width() == Some(logical_width),
        0 < logical_width,
        ops.len() < usize::MAX,
    ensures
        ({
            &&& get_discriminant_ops(ops.len(), seq![value], Some(info)) matches Ok(read)
            &&& read.len() == 1
            &&& eval(ops + read, env, ops.len()) == Datum::Int(
                logical_width as nat,
                wrap(
                    info.variant_discriminants@[info.single_variant as int] as int,
                    logical_width as nat,
                ),
            )
        }),
{
    let read = get_discriminant_ops(ops.len(), seq![value], Some(info)).unwrap();
    lemma_value_of_int(
        info.variant_discriminants@[info.single_variant as int] as int,
        logical_width,
    );
    lemma_emitted(ops, read, env, 0);
}

/// The discriminant of the only variant is read from it where it was built.
pub proof fn lemma_single_read(
    ops: Seq<OpView>,
    env: spec_fn(u64) -> Datum,
    operands: Seq<Value>,
    variant: nat,
    info: EnumInfo,
    members: nat,
    logical_width: u32,
)
    requires
        builds(ops, operands, variant, info, members),
        info.layout_kind == EnumLayoutKind::Single,
        carrier_bits(info, variant as int) is Ok,
        variant < info.variant_discriminants@.len(),
        info.discriminant.spec_int_width() == Some(logical_width),
        0 < logical_width,
    ensures
        discriminant_read(
            ops,
            env,
            operands,
            variant,
            info,
            Datum::Int(
                logical_width as nat,
                wrap(
                    info.variant_discriminants@[variant as int] as int,
                    logical_width as nat,
                ),
            ),
        ),
{
    let out = lemma_constructed(ops, env, operands, variant, info, members);
    law_single_discriminant(out.ops, env, out.result.unwrap().unwrap(), info, logical_width);
}

/// A variant without an encoding cannot be built, and an enum without variants,
/// with one that cannot exist, or of unknown layout has no discriminant.
pub proof fn law_no_discriminant(
    ops: Seq<OpView>,
    operands: Seq<Value>,
    variant: nat,
    info: EnumInfo,
    value: Value,
)
    ensures
        carrier_bits(info, variant as int) matches Err(e) ==> construct_enum(
            ops,
            operands,
            variant,
            Some(info),
        ).result == Err::<Option<Value>, LowerError>(e),
        match info.layout_kind {
            EnumLayoutKind::Empty | EnumLayoutKind::Unknown => get_discriminant_ops(
                ops.len(),
                seq![value],
                Some(info),
            ) is Err && carrier_bits(info, variant as int) is Err,
            EnumLayoutKind::Single => info.inhabited(info.single_variant as int) != Some(true)
                ==> get_discriminant_ops(ops.len(), seq![value], Some(info)) is Err
                && carrier_bits(info, variant as int) is Err,
            _ => true,
        },
{
    if carrier_bits(info, variant as int) is Err {
        let begun = start_variant(ops, info, variant);
        lemma_failed_start(
            begun,
            info,
            field_base(info.variant_field_counts@, variant),
            operands,
            operands.len(),
        );
    }
}

/// Adding payload fields keeps what was emitted and the type of the value.
proof fn lemma_built_shape(
    build: EnumBuild,
    info: EnumInfo,
    base: nat,
    operands: Seq<Value>,
    n: nat,
)
    requires
        available(build.value, build.ops.len()),
        build.ops.len() + 2 * n <= usize::MAX,
    ensures
        ({
            let built = add_payloads(build, info.slots, base, operands, n);
            &&& build.ops.is_prefix_of(built.ops)
            &&& built.ops.len() <= build.ops.len() + 2 * n
            &&& built.value.ty == build.value.ty
            &&& available(built.value, built.ops.len())
        }),
    decreases n,
{
    if n > 0 {
        lemma_built_shape(build, info, base, operands, (n - 1) as nat);
        let before = add_payloads(build, info.slots, base, operands, (n - 1) as nat);
        let built = add_payloads(build, info.slots, base, operands, n);
        assert(built.ops.take(build.ops.len() as int) =~= before.ops.take(build.ops.len() as int));
    } else {
        assert(build.ops.take(build.ops.len() as int) =~= build.ops);
    }
}

/// `address` is computed as the byte `offset` behind `base`.
pub open spec fn is_byte_address(
    ops: Seq<OpView>,
    env: spec_fn(u64) -> Datum,
    address: Value,
    base: Value,
    offset: u64,
) -> bool {
    &&& address.def matches Def::Result(at)
    &&& at < ops.len()
    &&& ops[at as int].code == OpCode::Gep(LlvmType::spec_int(8), true)
    &&& ops[at as int].operands == seq![base]
    &&& ops[at as int].indices.len() == 1
    &&& ops[at as int].indices[0] matches Index::Dynamic(index)
    &&& datum(ops, env, index) == Datum::Int(64, offset as int)
}

/// Writing the discriminant of a variant stores, at the offset of the tag, what
/// building the variant puts into the carrier.
pub proof fn lemma_set_discriminant(
    ops: Seq<OpView>,
    env: spec_fn(u64) -> Datum,
    ptr: Value,
    variant: u32,
    info: EnumInfo,
    ty: LlvmType,
    bits: u128,
)
    requires
        carrier_bits(info, variant as int) == Ok::<_, LowerError>(Some(bits)),
        info.slots.carrier_ty == Some(ty),
        match info.carrier_kind {
            EnumCarrierKind::Integer => ty matches LlvmType::Integer(width, _) && 0 < width <= 128,
            EnumCarrierKind::Pointer => ty is Pointer && 0 < info.carrier_width <= 128,
        },
        ops.len() + 5 <= usize::MAX,
    ensures
        ({
            &&& set_discriminant_ops(
                ops.len(),
                ptr,
                Some(variant),
                StampedType::Enum(info),
            ) matches Ok(emitted)
            &&& emitted.len() > 0
            &&& emitted.last().code == OpCode::Store
            &&& datum(ops + emitted, env, emitted.last().operands[0]) == carrier_datum(
                info,
                ty,
                bits,
            )
            &&& is_byte_address(
                ops + emitted,
                env,
                emitted.last().operands[1],
                ptr,
                info.tag_offset,
            )
        }),
{
    let emitted = set_discriminant_ops(
        ops.len(),
        ptr,
        Some(variant),
        StampedType::Enum(info),
    ).unwrap();
    let carrier = carrier_ops(ops.len(), info, ty, bits).unwrap();
    let k = carrier.len();
    let address = byte_gep_ops(ops.len() + k, ptr, info.tag_offset);
    assert(emitted[0] == carrier[0]);
    match info.carrier_kind {
        EnumCarrierKind::Integer => {
            lemma_value_of_int(bits as int, ty->Integer_0);
            lemma_emitted(ops, emitted, env, 0);
        },
        EnumCarrierKind::Pointer => {
            lemma_value_of_int(bits as int, info.carrier_width);
            lemma_emitted(ops, emitted, env, 0);
            assert(emitted[1] == carrier[1]);
            lemma_emitted(ops, emitted, env, 1);
        },
    }
    assert(emitted[k as int] == address[0]);
    lemma_value_of_int(info.tag_offset as int, 64);
    vstd::arithmetic::power2::lemma2_to64();
    vstd::arithmetic::div_mod::lemma_small_mod(info.tag_offset as nat, pow2(64));
    lemma_emitted(ops, emitted, env, k);
    assert(emitted[k as int + 1] == address[1]);
}

/// Writing the discriminant of a variant to an enum in a stack slot puts the
/// bits of the variant over the bytes of the carrier.
#[verifier::rlimit(40)]
#[verifier::spinoff_prover]
proof fn lemma_discriminant_stored(
    ops: Seq<OpView>,
    env: spec_fn(u64) -> Datum,
    ptr: Value,
    variant: u32,
    info: EnumInfo,
    ty: LlvmType,
    bits: u128,
    stack_slot: nat,
    from: int,
)
    requires
        carrier_bits(info, variant as int) == Ok::<_, LowerError>(Some(bits)),
        info.slots.carrier_ty == Some(ty),
        match info.carrier_kind {
            EnumCarrierKind::Integer => ty matches LlvmType::Integer(width, _) && 0 < width <= 128,
            EnumCarrierKind::Pointer => ty is Pointer && 0 < info.carrier_width <= 128,
        },
        available(ptr, ops.len()),
        datum(ops, env, ptr) == Datum::Slot(stack_slot, from),
        laid_out(ty),
        info.tag_offset <= i64::MAX,
        ops.len() + 5 <= usize::MAX,
    ensures
        ({
            &&& set_discriminant_ops(
                ops.len(),
                ptr,
                Some(variant),
                StampedType::Enum(info),
            ) matches Ok(emitted)
            &&& emitted.len() <= 5
            &&& stack_at(ops + emitted, env, ops.len() + emitted.len())(stack_slot) == overwritten(
                stack_at(ops, env, ops.len())(stack_slot),
                from + info.tag_offset,
                carrier_datum(info, ty, bits),
                ty,
            )
        }),
{
    lemma_set_discriminant(ops, env, ptr, variant, info, ty, bits);
    let n = ops.len();
    let emitted = set_discriminant_ops(
        n,
        ptr,
        Some(variant),
        StampedType::Enum(info),
    ).unwrap();
    let all = ops + emitted;
    let carrier = carrier_ops(n, info, ty, bits).unwrap();
    let k = carrier.len();
    let address = byte_gep_ops(n + k, ptr, info.tag_offset);
    assert(emitted[0] == carrier[0]);
    assert(emitted[k as int] == address[0]);
    assert(emitted[k as int + 1] == address[1]);
    lemma_datum_prefix(ops, emitted, env, ptr);
    assert(stack_at(all, env, n + k) == stack_at(ops, env, n)) by {
        lemma_prefix(ops, emitted, env, n);
        lemma_accessed(ops, emitted, env, 0);
        if k == 2 {
            assert(emitted[1] == carrier[1]);
            lemma_accessed(ops, emitted, env, 1);
        }
    }
    lemma_byte_address(ops, emitted, env, ptr, info.tag_offset, stack_slot, from, k);
    let store = emitted[k as int + 2];
    assert(store == emitted.last());
    assert(store.operands[0] == Value::at((n + k - 1) as nat, ty));
    assert(store.operands[1] == Value::at(n + k + 1, ptr.ty));
    lemma_accessed(ops, emitted, env, k + 2);
}

/// The discriminant that was written to an enum in a stack slot is the one that
/// is read from the enum when it is loaded.
pub proof fn lemma_written_discriminant(
    ops: Seq<OpView>,
    env: spec_fn(u64) -> Datum,
    ptr: Value,
    variant: u32,
    info: EnumInfo,
    slot: u32,
    ty: LlvmType,
    members: nat,
    bits: u128,
    stack_slot: nat,
    from: int,
    logical_width: u32,
)
    requires
        carrier_bits(info, variant as int) == Ok::<_, LowerError>(Some(bits)),
        carrier_held(info, slot, ty, members),
        info.slots.struct_ty is Struct,
        laid_out(info.slots.struct_ty),
        info.slots.struct_ty.spec_member(slot) == Some(ty),
        laid_out(ty),
        info.tag_offset == field_offset(*info.slots.struct_ty->Struct_0, slot as nat),
        info.tag_offset <= i64::MAX,
        available(ptr, ops.len()),
        datum(ops, env, ptr) == Datum::Slot(stack_slot, from),
        info.discriminant.spec_int_width() == Some(logical_width),
        0 < logical_width,
        niche_fits(info, ty),
        ops.len() + 20 <= usize::MAX,
    ensures
        ({
            let struct_ty = info.slots.struct_ty;
            &&& set_discriminant_ops(
                ops.len(),
                ptr,
                Some(variant),
                StampedType::Enum(info),
            ) matches Ok(emitted)
            &&& ({
                let all = (ops + emitted).push(OpView::load(ptr, struct_ty));
                let value = Value::at((all.len() - 1) as nat, struct_ty);
                &&& get_discriminant_ops(all.len(), seq![value], Some(info)) matches Ok(read)
                &&& eval(all + read, env, (all.len() + read.len() - 1) as nat) == match
                    info.layout_kind {
                    EnumLayoutKind::Niche => Datum::Int(
                        logical_width as nat,
                        wrap(variant as int, logical_width as nat),
                    ),
                    _ => carrier_datum(
                        info,
                        ty,
                        info.variant_discriminants@[variant as int] as u128,
                    ),
                }
            })
        }),
{
    let n = ops.len();
    let struct_ty = info.slots.struct_ty;
    lemma_discriminant_stored(ops, env, ptr, variant, info, ty, bits, stack_slot, from);
    let emitted = set_discriminant_ops(
        n,
        ptr,
        Some(variant),
        StampedType::Enum(info),
    ).unwrap();
    let set = ops + emitted;
    let last = seq![OpView::load(ptr, struct_ty)];
    let all = set.push(last[0]);
    assert(all =~= set + last);
    lemma_datum_prefix(ops, emitted, env, ptr);
    lemma_datum_prefix(set, last, env, ptr);
    lemma_prefix(set, last, env, set.len());
    lemma_accessed(set, last, env, 0);
    let fields = *struct_ty->Struct_0;
    let packed = struct_ty->Struct_1;
    let d = carrier_datum(info, ty, bits);
    let over = stack_at(set, env, set.len())(stack_slot);
    let value = Value::at(set.len(), struct_ty);
    assert forall|k: int| 0 <= k < size_of(ty) implies #[trigger] at_offset(
        over,
        from + field_offset(fields, slot as nat),
        k,
    ) == byte(d, ty, k) by {}
    lemma_read_member(over, from, fields, packed, slot as int, d);
    lemma_discriminant_of_variant(
        all,
        env,
        value,
        variant as int,
        info,
        slot,
        ty,
        members,
        datum(all, env, value)->Aggregate_0,
        bits,
        logical_width,
    );
}

/// A scalar of the type `ty`: an integer below two to its width, or an address.
pub open spec fn scalar_datum(ty: LlvmType, bits: int) -> Datum {
    match ty {
        LlvmType::Integer(width, _) => Datum::Int(width as nat, bits),
        _ => Datum::Pointer(bits),
    }
}

/// The number of bits that a scalar is compared in.
pub open spec fn scalar_width(ty: LlvmType) -> nat {
    match ty {
        LlvmType::Integer(width, _) => width as nat,
        _ => 64,
    }
}

/// The niche pattern is emitted in the type of the scalar.
proof fn lemma_niche_pattern(
    ops: Seq<OpView>,
    env: spec_fn(u64) -> Datum,
    ty: LlvmType,
    niche: NicheEncoding,
)
    requires
        ty matches LlvmType::Integer(width, _) && width > 0 || ty is Pointer,
        ops.len() + 2 <= usize::MAX,
    ensures
        ({
            let pattern = niche_pattern(ops.len(), ty, niche);
            datum(
                ops + pattern,
                env,
                Value::at((ops.len() + pattern.len() - 1) as nat, ty),
            ) == scalar_datum(ty, wrap(signed64(niche.niche_start), scalar_width(ty)))
        }),
{
    let pattern = niche_pattern(ops.len(), ty, niche);
    match ty {
        LlvmType::Integer(width, _) => {
            lemma_value_of_int(signed64(niche.niche_start), width);
            lemma_emitted(ops, pattern, env, 0);
        },
        _ => {
            lemma_value_of_int(signed64(niche.niche_start), 64);
            lemma_emitted(ops, pattern, env, 0);
            lemma_emitted(ops, pattern, env, 1);
        },
    }
}

/// The operations that follow the niche pattern.
spec fn unpacking(
    m: nat,
    value: Value,
    ty: LlvmType,
    discriminants: (u64, u64),
    tag: (u32, Signedness),
    depth: nat,
) -> Seq<OpView> {
    let tag_ty = LlvmType::Integer(tag.0, tag.1);
    seq![
        OpView::int_compare(IntPredicate::EQ, value, Value::at((m - 1) as nat, value.ty)),
        OpView::signed_constant(IntConst::of_int(signed64(discriminants.0), tag.0), tag.1),
        OpView::signed_constant(IntConst::of_int(signed64(discriminants.1), tag.0), tag.1),
        OpView::select(
            Value::at(m, LlvmType::spec_bool()),
            Value::at(m + 1, tag_ty),
            Value::at(m + 2, tag_ty),
        ),
        OpView::undef(ty),
        OpView::insert(Value::at(m + 4, ty), Value::at(m + 3, tag_ty), 0),
        OpView::indexed(
            OpCode::InsertValue,
            ty,
            seq![Value::at(m + 5, ty), value],
            seq![Index::Const(1)] + zeros(depth),
        ),
    ]
}

/// The tag is chosen by comparison with the niche pattern.
proof fn lemma_unpacked_tag(
    ops: Seq<OpView>,
    env: spec_fn(u64) -> Datum,
    value: Value,
    ty: LlvmType,
    discriminants: (u64, u64),
    tag: (u32, Signedness),
    depth: nat,
    bits: int,
    pattern: int,
)
    requires
        value.ty is Integer || value.ty is Pointer,
        tag.0 > 0,
        0 < ops.len(),
        available(value, ops.len()),
        datum(ops, env, value) == scalar_datum(value.ty, bits),
        datum(ops, env, Value::at((ops.len() - 1) as nat, value.ty)) == scalar_datum(
            value.ty,
            pattern,
        ),
        ops.len() + 7 <= usize::MAX,
    ensures
        datum(
            ops + unpacking(ops.len(), value, ty, discriminants, tag, depth),
            env,
            Value::at(ops.len() + 3, LlvmType::Integer(tag.0, tag.1)),
        ) == Datum::Int(
            tag.0 as nat,
            wrap(
                signed64(
                    if bits == pattern {
                        discriminants.0
                    } else {
                        discriminants.1
                    },
                ),
                tag.0 as nat,
            ),
        ),
{
    let emitted = unpacking(ops.len(), value, ty, discriminants, tag, depth);
    lemma_datum_prefix(ops, emitted, env, value);
    lemma_datum_prefix(ops, emitted, env, Value::at((ops.len() - 1) as nat, value.ty));
    lemma_value_of_int(signed64(discriminants.0), tag.0);
    lemma_value_of_int(signed64(discriminants.1), tag.0);
    lemma_emitted(ops, emitted, env, 0);
    lemma_emitted(ops, emitted, env, 1);
    lemma_emitted(ops, emitted, env, 2);
    lemma_emitted(ops, emitted, env, 3);
}

/// What stands at the end of a path through the first members of `depth`
/// wrappers.
pub open spec fn innermost(d: Datum, depth: nat) -> Datum
    decreases depth,
{
    if depth == 0 {
        d
    } else {
        match d {
            Datum::Aggregate(members) => if members.len() > 0 {
                innermost(members[0], (depth - 1) as nat)
            } else {
                Datum::Unknown
            },
            _ => Datum::Unknown,
        }
    }
}

/// A scalar that is put into wrappers is what they hold inside.
proof fn lemma_wrapped_scalar(
    ty: LlvmType,
    scalar_ty: LlvmType,
    layers: nat,
    depth: nat,
    scalar: Datum,
)
    requires
        scalar_depth(ty, scalar_ty, layers) == Some(depth),
    ensures
        innermost(inserted(undefined(ty), zeros(depth), scalar), depth) == scalar,
    decreases depth,
{
    if depth > 0 {
        let inner = only_field(ty).unwrap();
        let rest = (depth - 1) as nat;
        lemma_wrapped_scalar(inner, scalar_ty, (layers - 1) as nat, rest, scalar);
        lemma_undefined(ty);
        assert(zeros(depth).skip(1) =~= zeros(rest));
    }
}

/// Tag and payload stand in the pair.
proof fn lemma_unpacked_pair(
    ops: Seq<OpView>,
    env: spec_fn(u64) -> Datum,
    value: Value,
    ty: LlvmType,
    discriminants: (u64, u64),
    tag: (u32, Signedness),
    depth: nat,
    layers: nat,
)
    requires
        member_count(ty) == Some(2nat),
        scalar_depth(member_type(ty, 1), value.ty, layers) == Some(depth),
        available(value, ops.len()),
        ops.len() + 7 <= usize::MAX,
    ensures
        ({
            let all = ops + unpacking(ops.len(), value, ty, discriminants, tag, depth);
            &&& eval(all, env, ops.len() + 6) matches Datum::Aggregate(parts)
            &&& parts.len() == 2
            &&& parts[0] == datum(
                all,
                env,
                Value::at(ops.len() + 3, LlvmType::Integer(tag.0, tag.1)),
            )
            &&& innermost(parts[1], depth) == datum(ops, env, value)
        }),
{
    let emitted = unpacking(ops.len(), value, ty, discriminants, tag, depth);
    lemma_datum_prefix(ops, emitted, env, value);
    lemma_emitted(ops, emitted, env, 4);
    lemma_emitted(ops, emitted, env, 5);
    lemma_emitted(ops, emitted, env, 6);
    lemma_undefined(ty);
    let path = seq![Index::Const(1)] + zeros(depth);
    if depth == 0 {
        assert(path =~= seq![Index::Const(1)]);
    } else {
        assert(path.len() > 1 && path[0] == Index::Const(1));
        assert(path.skip(1) =~= zeros(depth));
        lemma_wrapped_scalar(
            member_type(ty, 1),
            value.ty,
            layers,
            depth,
            datum(ops, env, value),
        );
    }
}

/// The pair that is made of a scalar.
proof fn lemma_niched_enum(
    ops: Seq<OpView>,
    env: spec_fn(u64) -> Datum,
    value: Value,
    ty: LlvmType,
    niche: NicheEncoding,
    discriminants: (u64, u64),
    tag: (u32, Signedness),
    depth: nat,
    layers: nat,
    bits: int,
)
    requires
        value.ty matches LlvmType::Integer(width, _) && width > 0 || value.ty is Pointer,
        tag.0 > 0,
        member_count(ty) == Some(2nat),
        scalar_depth(member_type(ty, 1), value.ty, layers) == Some(depth),
        available(value, ops.len()),
        datum(ops, env, value) == scalar_datum(value.ty, bits),
        ops.len() + 9 <= usize::MAX,
    ensures
        ({
            let emitted = rebuilt_enum(ops.len(), value, ty, niche, discriminants, tag, depth);
            let is_niche = bits == wrap(signed64(niche.niche_start), scalar_width(value.ty));
            let declared = if is_niche {
                discriminants.0
            } else {
                discriminants.1
            };
            &&& eval(ops + emitted, env, (ops.len() + emitted.len() - 1) as nat) matches
                Datum::Aggregate(parts)
            &&& parts.len() == 2
            &&& parts[0] == Datum::Int(tag.0 as nat, wrap(signed64(declared), tag.0 as nat))
            &&& innermost(parts[1], depth) == datum(ops, env, value)
        }),
{
    let emitted = rebuilt_enum(ops.len(), value, ty, niche, discriminants, tag, depth);
    let pattern = niche_pattern(ops.len(), value.ty, niche);
    let begun = ops + pattern;
    let rest = unpacking(begun.len(), value, ty, discriminants, tag, depth);
    assert(emitted =~= pattern + rest);
    assert(ops + emitted =~= begun + rest);
    lemma_niche_pattern(ops, env, value.ty, niche);
    lemma_datum_prefix(ops, pattern, env, value);
    lemma_unpacked_tag(
        begun,
        env,
        value,
        ty,
        discriminants,
        tag,
        depth,
        bits,
        wrap(signed64(niche.niche_start), scalar_width(value.ty)),
    );
    lemma_unpacked_pair(begun, env, value, ty, discriminants, tag, depth, layers);
}

/// A scalar that encodes a niched enum is unpacked: the tag is the declared
/// discriminant of the niche variant exactly where the scalar holds the niche
/// pattern, else that of the other variant, and the scalar is the payload,
/// inside the wrappers that the payload type has.
pub proof fn law_niched_enum(
    ops: Seq<OpView>,
    env: spec_fn(u64) -> Datum,
    value: Value,
    mir_result: MirType,
    ty: LlvmType,
    niche: NicheEncoding,
    bits: int,
)
    requires
        scalar_to_niched_enum(ops.len(), value, mir_result, ty, niche) is Ok,
        value.ty is Integer || value.ty is Pointer,
        available(value, ops.len()),
        datum(ops, env, value) == scalar_datum(value.ty, bits),
        ops.len() + 9 <= usize::MAX,
    ensures
        ({
            let emitted = scalar_to_niched_enum(ops.len(), value, mir_result, ty, niche).unwrap();
            let declared = enum_discriminants(mir_result).unwrap();
            let tag = member_type(ty, 0).spec_int_width().unwrap() as nat;
            let depth = scalar_depth(member_type(ty, 1), value.ty, MAX_NEWTYPE_DEPTH as nat);
            let is_niche = bits == wrap(signed64(niche.niche_start), scalar_width(value.ty));
            let chosen = if is_niche {
                declared[niche.niche_variant_idx as int]
            } else {
                declared[niche.untagged_variant_idx as int]
            };
            &&& eval(ops + emitted, env, (ops.len() + emitted.len() - 1) as nat) matches
                Datum::Aggregate(parts)
            &&& parts.len() == 2
            &&& parts[0] == Datum::Int(tag, wrap(signed64(chosen), tag))
            &&& depth is Some
            &&& innermost(parts[1], depth.unwrap()) == datum(ops, env, value)
        }),
{
    let declared = enum_discriminants(mir_result).unwrap();
    let fields = *ty->Struct_0;
    let first = fields.types()[0];
    lemma_niched_enum(
        ops,
        env,
        value,
        ty,
        niche,
        (
            declared[niche.niche_variant_idx as int],
            declared[niche.untagged_variant_idx as int],
        ),
        (first->Integer_0, first->Integer_1),
        scalar_depth(fields.types()[1], value.ty, MAX_NEWTYPE_DEPTH as nat).unwrap(),
        MAX_NEWTYPE_DEPTH as nat,
        bits,
    );
}

} // verus!
