//! When the description of an enum is sound, and what is read back of a value of
//! it.

use crate::aggregate_laws::{carrier_held, payloads_avoid};
use crate::enum_laws::{
    builds, carrier_in_payload, discriminant_read, keeps_member,
    lemma_constructed_discriminant, lemma_payload_round_trip, lemma_single_read,
    lemma_untagged_memory_payload, lemma_untagged_payload, lemma_written_discriminant,
    niche_datum, niche_fits, outside_niche, payload_given, payload_read, payloads_separate,
    slots_within,
};
use crate::enum_memory::{
    apart, has_bytes, in_memory, in_storage, lemma_storage_fits, member_apart, memory_sound,
};
use crate::enums::{
    add_payload, add_payloads, carrier_bits, field_base, get_discriminant_ops,
    set_discriminant_ops, start_variant, EnumBuild, EnumCarrierKind, EnumInfo, EnumLayoutKind,
    StampedType,
};
use crate::llvm::{FieldTypes, LlvmType};
use crate::ops::{OpView, Value};
use crate::semantics::{
    available, coerced, datum, eval, member_type, represented, same_value, undefined, wrap, Datum,
};
use crate::stack_memory::{field_offset, fields_laid_out, fits, laid_out, size_of};
use vstd::arithmetic::power2::pow2;
use vstd::prelude::*;

verus! {

impl EnumInfo {
    /// The number of the first payload field of a variant.
    pub open spec fn base(self, variant: nat) -> nat {
        field_base(self.variant_field_counts@, variant)
    }

    /// Whether payload field `f` is one of a variant, and takes bytes.
    pub open spec fn has_field(self, variant: nat, f: int) -> bool {
        &&& variant < self.variant_field_counts@.len()
        &&& self.base(variant) <= f < self.base(variant)
            + self.variant_field_counts@[variant as int]
        &&& !self.slots.zero_sized@[f]
    }

    /// The types that the LLVM struct of the enum is made of.
    pub open spec fn members(self) -> Seq<LlvmType> {
        self.slots.struct_ty->Struct_0.types()
    }

    /// Where the member in a slot begins.
    pub open spec fn member_offset(self, slot: u32) -> nat {
        field_offset(*self.slots.struct_ty->Struct_0, slot as nat)
    }

    /// The enum is an LLVM struct with explicit fillers, the carrier has a slot of
    /// it if any, and payload fields are numbered through all variants.
    pub open spec fn struct_sound(self) -> bool {
        &&& self.slots.struct_ty is Struct
        &&& laid_out(self.slots.struct_ty)
        &&& size_of(self.slots.struct_ty) <= i64::MAX
        &&& self.slots.carrier_slot matches Some(slot) ==> slot < self.members().len()
        &&& self.base(self.variant_field_counts@.len()) == self.slots.field_slots@.len()
    }

    /// A payload field without bytes has no slot. One with bytes has a storage
    /// type that can stand for its own, and lies within the enum; if it has a
    /// slot, the slot is of that type and at the offset of the field.
    pub open spec fn field_sound(self, f: int) -> bool {
        if self.slots.zero_sized@[f] {
            self.slots.field_slots@[f] is None
        } else {
            &&& has_bytes(self, f)
            &&& size_of(self.slots.storage_types@[f].unwrap()) > 0
            &&& same_value(
                self.slots.field_types@[f],
                self.slots.byte_types@[f],
                self.slots.storage_types@[f].unwrap(),
            )
            &&& self.slots.field_slots@[f] matches Some(slot) ==> {
                &&& slot < self.members().len()
                &&& Some(self.members()[slot as int]) == self.slots.storage_types@[f]
                &&& self.member_offset(slot) == self.slots.field_offsets@[f]
            }
        }
    }

    /// Payload fields of one variant have no byte in common.
    pub open spec fn fields_apart(self) -> bool {
        forall|variant: nat, f: int, g: int|
            #[trigger] self.has_field(variant, f) && #[trigger] self.has_field(variant, g) && f < g
                ==> apart(self.slots, f, g)
    }

    /// The carrier has a slot of its type at the offset of the tag.
    pub open spec fn carrier_placed(self) -> bool {
        &&& self.slots.carrier_slot matches Some(slot)
        &&& self.slots.carrier_ty matches Some(ty)
        &&& slot < self.members().len()
        &&& self.members()[slot as int] == ty
        &&& self.member_offset(slot) == self.tag_offset
        &&& size_of(ty) > 0
        &&& match self.carrier_kind {
            EnumCarrierKind::Integer => ty is Integer,
            EnumCarrierKind::Pointer => ty is Pointer,
        }
    }

    /// Whether a variant has bits in the carrier.
    pub open spec fn tagged(self, variant: nat) -> bool {
        carrier_bits(self, variant as int) matches Ok(Some(_))
    }

    /// A variant that has bits in the carrier has no payload there.
    pub open spec fn tagged_apart(self) -> bool {
        forall|variant: nat, f: int|
            #[trigger] self.has_field(variant, f) && self.tagged(variant) ==> {
                let offset = self.slots.field_offsets@[f];
                ||| self.tag_offset + size_of(self.slots.carrier_ty.unwrap()) <= offset
                ||| offset + size_of(self.slots.storage_types@[f].unwrap()) <= self.tag_offset
            }
    }

    /// The carrier is as the layout needs it: a direct tag is a discriminant, and
    /// a niche is as wide as said and can hold its range.
    pub open spec fn layout_sound(self) -> bool {
        match self.layout_kind {
            EnumLayoutKind::Direct => {
                &&& self.carrier_placed()
                &&& self.tagged_apart()
                &&& self.carrier_kind == EnumCarrierKind::Integer
                &&& self.slots.carrier_ty.unwrap().spec_int_width()
                    == self.discriminant.spec_int_width()
            },
            EnumLayoutKind::Niche => {
                &&& self.carrier_placed()
                &&& self.tagged_apart()
                &&& 0 < self.carrier_width <= 128
                &&& niche_fits(self, self.slots.carrier_ty.unwrap())
            },
            EnumLayoutKind::Single => self.single_variant < self.variant_discriminants@.len(),
            _ => true,
        }
    }

    /// The description of an enum fits together.
    pub open spec fn sound(self) -> bool {
        &&& self.wf()
        &&& self.discriminant.spec_int_width() is Some
        &&& self.struct_sound()
        &&& forall|f: int|
            0 <= f < self.slots.field_slots@.len() ==> #[trigger] self.field_sound(f)
        &&& self.fields_apart()
        &&& self.layout_sound()
    }
}

/// A value that a type can hold, and that can be told from its bytes.
pub open spec fn valid(d: Datum, ty: LlvmType) -> bool {
    &&& represented(d, ty)
    &&& fits(d, ty)
    &&& d matches Datum::Coerced(inner, from, _) ==> fits(*inner, from)
}

/// Values for the payload fields of a variant that can be built: one for each
/// field, of its type. `ops` leaves room for the operations to come.
pub open spec fn given(
    ops: Seq<OpView>,
    env: spec_fn(u64) -> Datum,
    operands: Seq<Value>,
    variant: nat,
    info: EnumInfo,
) -> bool {
    &&& variant < info.variant_field_counts@.len()
    &&& operands.len() == info.variant_field_counts@[variant as int]
    &&& carrier_bits(info, variant as int) is Ok
    &&& forall|k: int|
        0 <= k < operands.len() ==> {
            &&& available(#[trigger] operands[k], ops.len())
            &&& operands[k].ty == info.slots.field_types@[info.base(variant) + k]
            &&& valid(datum(ops, env, operands[k]), operands[k].ty)
        }
    &&& ops.len() + 40 + 7 * operands.len() <= usize::MAX
}

/// Payload fields are numbered one variant after the other.
proof fn lemma_base(counts: Seq<u32>, variant: nat, last: nat)
    requires
        variant < last <= counts.len(),
    ensures
        field_base(counts, variant) + counts[variant as int] <= field_base(counts, last),
    decreases last,
{
    if variant + 1 < last {
        lemma_base(counts, variant, (last - 1) as nat);
    }
}

/// Members of a struct of known layout have known layouts.
proof fn lemma_member_laid_out(fields: FieldTypes, i: int)
    requires
        fields_laid_out(fields),
        0 <= i < fields.types().len(),
    ensures
        laid_out(fields.types()[i]),
    decreases fields,
{
    if let FieldTypes::Field(first, rest) = fields {
        if i > 0 {
            assert(fields.types()[i] == rest.types()[i - 1]);
            lemma_member_laid_out(*rest, i - 1);
        }
    }
}

/// The payload fields of a sound enum lie among all its payload fields.
proof fn lemma_in_range(info: EnumInfo, variant: nat, f: int)
    requires
        info.sound(),
        variant < info.variant_field_counts@.len(),
        info.base(variant) <= f < info.base(variant) + info.variant_field_counts@[variant as int],
    ensures
        f < info.slots.field_slots@.len(),
        info.field_sound(f),
        !info.slots.zero_sized@[f] ==> info.has_field(variant, f),
{
    lemma_base(info.variant_field_counts@, variant, info.variant_field_counts@.len());
}

/// Building does not fail on payload fields of a sound enum.
proof fn lemma_no_error(
    build: EnumBuild,
    info: EnumInfo,
    variant: nat,
    operands: Seq<Value>,
    n: nat,
)
    requires
        info.sound(),
        variant < info.variant_field_counts@.len(),
        n <= operands.len(),
        operands.len() == info.variant_field_counts@[variant as int],
        build.error is None,
    ensures
        add_payloads(build, info.slots, info.base(variant), operands, n).error is None,
    decreases n,
{
    if n > 0 {
        let base = info.base(variant);
        lemma_no_error(build, info, variant, operands, (n - 1) as nat);
        lemma_in_range(info, variant, base + n - 1);
        let before = add_payloads(build, info.slots, base, operands, (n - 1) as nat);
        let flat = (base + n - 1) as nat;
        assert(info.field_sound(flat as int));
        assert(add_payload(before, info.slots, flat, operands[n - 1]).error is None);
    }
}

/// The payload fields of a variant of a sound enum can go through memory.
proof fn lemma_memory_sound(info: EnumInfo, variant: nat, n: nat)
    requires
        info.sound(),
        variant < info.variant_field_counts@.len(),
        n == info.variant_field_counts@[variant as int],
    ensures
        memory_sound(info, info.base(variant), n),
        payloads_separate(info, info.base(variant), n),
        slots_within(info, info.members().len()),
{
    let base = info.base(variant);
    assert forall|f: int| base <= f < base + n && #[trigger] in_memory(info, f) implies has_bytes(
        info,
        f,
    ) by {
        lemma_in_range(info, variant, f);
    }
    assert forall|f: int, g: int|
        base <= f < g < base + n && #[trigger] in_memory(info, f) && #[trigger] in_memory(
            info,
            g,
        ) implies apart(info.slots, f, g) by {
        lemma_in_range(info, variant, f);
        lemma_in_range(info, variant, g);
        assert(info.has_field(variant, f) && info.has_field(variant, g));
    }
    assert forall|i: int, j: int|
        #![trigger info.slots.field_slots@[base + i], info.slots.field_slots@[base + j]]
        0 <= i < j < n && base + j < info.slots.field_slots@.len()
            && info.slots.field_slots@[base + i] is Some implies info.slots.field_slots@[base + i]
        != info.slots.field_slots@[base + j] by {
        lemma_in_range(info, variant, base + i);
        lemma_in_range(info, variant, base + j);
        if info.slots.field_slots@[base + j] is Some {
            assert(info.has_field(variant, base + i) && info.has_field(variant, base + j));
            assert(apart(info.slots, base + i, base + j));
        }
    }
    assert forall|f: int| 0 <= f < info.slots.field_slots@.len() implies (
    #[trigger] info.slots.field_slots@[f] matches Some(slot) ==> slot < info.members().len()) by {
        assert(info.field_sound(f));
    }
}

/// A variant of a sound enum can be built from values of its payload types.
proof fn lemma_builds(
    ops: Seq<OpView>,
    env: spec_fn(u64) -> Datum,
    operands: Seq<Value>,
    variant: nat,
    info: EnumInfo,
)
    requires
        info.sound(),
        given(ops, env, operands, variant, info),
    ensures
        builds(ops, operands, variant, info, info.members().len()),
        payloads_separate(info, info.base(variant), operands.len()),
{
    lemma_memory_sound(info, variant, operands.len());
    let begun = start_variant(ops, info, variant);
    assert(begun.error is None);
    lemma_no_error(begun, info, variant, operands, operands.len());
    lemma_base(info.variant_field_counts@, variant, info.variant_field_counts@.len());
}

/// The member in the slot of a payload field is kept when other payload fields
/// go through memory.
proof fn lemma_field_kept(info: EnumInfo, variant: nat, f: int, slot: u32)
    requires
        info.sound(),
        info.has_field(variant, f),
        info.slots.field_slots@[f] == Some(slot),
    ensures
        member_apart(
            info,
            info.base(variant),
            info.variant_field_counts@[variant as int] as nat,
            slot as int,
        ),
        member_type(info.slots.struct_ty, slot as int) == info.slots.storage_types@[f].unwrap(),
{
    let base = info.base(variant);
    let n = info.variant_field_counts@[variant as int];
    lemma_in_range(info, variant, f);
    assert forall|g: int| base <= g < base + n && #[trigger] in_memory(info, g) implies {
        let at = info.member_offset(slot);
        let size = size_of(info.members()[slot as int]);
        at + size <= info.slots.field_offsets@[g] || info.slots.field_offsets@[g] + size_of(
            info.slots.storage_types@[g].unwrap(),
        ) <= at
    } by {
        lemma_in_range(info, variant, g);
        assert(info.has_field(variant, g));
        if f < g {
            assert(apart(info.slots, f, g));
        } else {
            assert(f != g);
            assert(apart(info.slots, g, f));
        }
    }
}

/// Values that are given for a variant of a sound enum are read back.
proof fn lemma_given(
    ops: Seq<OpView>,
    env: spec_fn(u64) -> Datum,
    operands: Seq<Value>,
    variant: nat,
    info: EnumInfo,
    k: nat,
)
    requires
        info.sound(),
        given(ops, env, operands, variant, info),
        k < operands.len(),
    ensures
        payload_given(ops, env, operands, variant, info, info.members().len(), k),
{
    let f = (info.base(variant) + k) as int;
    let ty = info.slots.field_types@[f];
    let d = datum(ops, env, operands[k as int]);
    lemma_builds(ops, env, operands, variant, info);
    lemma_in_range(info, variant, f);
    assert(available(operands[k as int], ops.len()) && valid(d, ty));
    if !info.slots.zero_sized@[f] {
        let storage = info.slots.storage_types@[f].unwrap();
        lemma_storage_fits(d, ty, info.slots.byte_types@[f], storage);
        if let Some(slot) = info.slots.field_slots@[f] {
            lemma_field_kept(info, variant, f, slot);
        }
    }
}

/// A payload field of a sound enum that was built is the one that is read, in its
/// own type, whether it has a slot, shares its bytes with other variants, or is
/// stored in another form. A field that takes no bytes is read as an arbitrary
/// value.
pub proof fn law_payload_round_trip(
    ops: Seq<OpView>,
    env: spec_fn(u64) -> Datum,
    operands: Seq<Value>,
    variant: nat,
    info: EnumInfo,
    k: nat,
)
    requires
        info.sound(),
        given(ops, env, operands, variant, info),
        k < operands.len(),
    ensures
        payload_read(
            ops,
            env,
            operands,
            variant,
            info,
            k,
            if info.slots.zero_sized@[(info.base(variant) + k) as int] {
                undefined(operands[k as int].ty)
            } else {
                datum(ops, env, operands[k as int])
            },
        ),
{
    let f = (info.base(variant) + k) as int;
    lemma_given(ops, env, operands, variant, info, k);
    lemma_in_range(info, variant, f);
    assert(available(operands[k as int], ops.len()));
    lemma_payload_round_trip(ops, env, operands, variant, info, info.members().len(), k);
}

/// Payload field `k` of a variant leaves `bits` in the carrier, and they are
/// outside the niche range: the field has the slot of the carrier, or the carrier
/// lies in its bytes.
pub open spec fn leaves_niche(
    ops: Seq<OpView>,
    env: spec_fn(u64) -> Datum,
    operands: Seq<Value>,
    variant: nat,
    info: EnumInfo,
    k: nat,
    bits: int,
) -> bool {
    let f = (info.base(variant) + k) as int;
    let d = datum(ops, env, operands[k as int]);
    let ty = info.slots.field_types@[f];
    &&& k < operands.len()
    &&& 0 <= bits < pow2(info.carrier_width as nat)
    &&& outside_niche(info, bits)
    &&& match info.slots.field_slots@[f] {
        Some(slot) => info.slots.carrier_slot == Some(slot) && coerced(
            d,
            ty,
            info.slots.storage_types@[f].unwrap(),
        ) == niche_datum(info, bits),
        None => in_memory(info, f) && carrier_in_payload(
            info,
            f,
            info.slots.carrier_slot.unwrap(),
            in_storage(info.slots, f, ty, d),
            niche_datum(info, bits),
        ),
    }
}

/// The discriminant of a variant: the variant itself under a niche layout, else
/// the one declared for it, at the width of discriminants.
pub open spec fn declared(info: EnumInfo, variant: nat) -> Datum {
    let width = info.discriminant.spec_int_width().unwrap() as nat;
    let number = match info.layout_kind {
        EnumLayoutKind::Niche => variant as int,
        _ => info.variant_discriminants@[variant as int] as int,
    };
    Datum::Int(width, wrap(number, width))
}

/// The payload of the untagged variant of a niched enum is no encoding of
/// another variant.
pub open spec fn payload_clear(
    ops: Seq<OpView>,
    env: spec_fn(u64) -> Datum,
    operands: Seq<Value>,
    variant: nat,
    info: EnumInfo,
) -> bool {
    info.layout_kind == EnumLayoutKind::Niche && variant == info.untagged_variant ==> exists|
        k: nat,
        bits: int,
    |
        #[trigger] leaves_niche(ops, env, operands, variant, info, k, bits)
}

/// The discriminant that is read from a variant of a sound enum that was built
/// is that of the variant, whatever slot holds the tag.
pub proof fn law_constructed_discriminant(
    ops: Seq<OpView>,
    env: spec_fn(u64) -> Datum,
    operands: Seq<Value>,
    variant: nat,
    info: EnumInfo,
)
    requires
        info.sound(),
        given(ops, env, operands, variant, info),
        payload_clear(ops, env, operands, variant, info),
    ensures
        discriminant_read(ops, env, operands, variant, info, declared(info, variant)),
{
    let members = info.members().len();
    let width = info.discriminant.spec_int_width().unwrap();
    lemma_builds(ops, env, operands, variant, info);
    match carrier_bits(info, variant as int).unwrap() {
        Some(encoded) => {
            let slot = info.slots.carrier_slot.unwrap();
            let ty = info.slots.carrier_ty.unwrap();
            lemma_carrier_kept(info, variant);
            lemma_constructed_discriminant(
                ops,
                env,
                operands,
                variant,
                info,
                slot,
                ty,
                members,
                encoded,
                width,
            );
        },
        None => {
            if info.layout_kind == EnumLayoutKind::Niche {
                let (k, bits): (nat, int) = choose|k: nat, bits: int|
                    #[trigger] leaves_niche(ops, env, operands, variant, info, k, bits);
                let f = (info.base(variant) + k) as int;
                let slot = info.slots.carrier_slot.unwrap();
                lemma_in_range(info, variant, f);
                if info.slots.field_slots@[f] is Some {
                    lemma_given(ops, env, operands, variant, info, k);
                    lemma_field_kept(info, variant, f, slot);
                    assert(available(operands[k as int], ops.len()));
                    lemma_untagged_payload(
                        ops,
                        env,
                        operands,
                        variant,
                        info,
                        slot,
                        members,
                        k,
                        bits,
                        width,
                    );
                } else {
                    assert(available(operands[k as int], ops.len()));
                    lemma_untagged_memory_payload(
                        ops,
                        env,
                        operands,
                        variant,
                        info,
                        slot,
                        members,
                        k,
                        bits,
                        width,
                    );
                }
            } else {
                lemma_single_read(ops, env, operands, variant, info, members, width);
            }
        },
    }
}

/// The carrier of a variant that has bits there is kept.
proof fn lemma_carrier_kept(info: EnumInfo, variant: nat)
    requires
        info.sound(),
        variant < info.variant_field_counts@.len(),
        info.tagged(variant),
    ensures
        ({
            let slot = info.slots.carrier_slot.unwrap();
            let ty = info.slots.carrier_ty.unwrap();
            let n = info.variant_field_counts@[variant as int] as nat;
            &&& carrier_held(info, slot, ty, info.members().len())
            &&& info.slots.struct_ty.spec_member(slot) == Some(ty)
            &&& payloads_avoid(info, info.base(variant), n, slot, info.members().len())
            &&& laid_out(ty)
            &&& member_apart(info, info.base(variant), n, slot as int)
            &&& niche_fits(info, ty)
            &&& forall|d: Datum|
                (d is Int || d is Pointer) ==> #[trigger] keeps_member(
                    info,
                    info.base(variant),
                    n,
                    slot,
                    d,
                )
        }),
{
    let slot = info.slots.carrier_slot.unwrap();
    let ty = info.slots.carrier_ty.unwrap();
    let base = info.base(variant);
    let n = info.variant_field_counts@[variant as int] as nat;
    lemma_member_laid_out(*info.slots.struct_ty->Struct_0, slot as int);
    assert forall|f: int| base <= f < base + n && f < info.slots.field_slots@.len() implies (
    #[trigger] info.slots.field_slots@[f] matches Some(other) ==> other != slot && other
        < info.members().len()) by {
        lemma_in_range(info, variant, f);
        if info.slots.field_slots@[f] is Some {
            assert(info.has_field(variant, f));
        }
    }
    assert forall|g: int| base <= g < base + n && #[trigger] in_memory(info, g) implies {
        let at = info.member_offset(slot);
        let size = size_of(info.members()[slot as int]);
        at + size <= info.slots.field_offsets@[g] || info.slots.field_offsets@[g] + size_of(
            info.slots.storage_types@[g].unwrap(),
        ) <= at
    } by {
        lemma_in_range(info, variant, g);
        assert(info.has_field(variant, g));
    }
}

/// The discriminant that was written to a sound enum in a stack slot is the one
/// that is read from the enum when it is loaded.
pub proof fn law_written_discriminant(
    ops: Seq<OpView>,
    env: spec_fn(u64) -> Datum,
    ptr: Value,
    variant: u32,
    info: EnumInfo,
    stack_slot: nat,
    from: int,
)
    requires
        info.sound(),
        variant < info.variant_field_counts@.len(),
        info.tagged(variant as nat),
        available(ptr, ops.len()),
        datum(ops, env, ptr) == Datum::Slot(stack_slot, from),
        ops.len() + 20 <= usize::MAX,
    ensures
        ({
            let struct_ty = info.slots.struct_ty;
            &&& set_discriminant_ops(
                ops.len(),
                ptr,
                Some(variant),
                StampedType::Enum(info),
            ) matches Ok(emitted)
            &&& ({
                let all = (ops + emitted).push(OpView::load(ptr, struct_ty));
                let value = Value::at((all.len() - 1) as nat, struct_ty);
                &&& get_discriminant_ops(all.len(), seq![value], Some(info)) matches Ok(read)
                &&& eval(all + read, env, (all.len() + read.len() - 1) as nat) == declared(
                    info,
                    variant as nat,
                )
            })
        }),
{
    let slot = info.slots.carrier_slot.unwrap();
    let ty = info.slots.carrier_ty.unwrap();
    lemma_carrier_kept(info, variant as nat);
    lemma_offset_bound(info, slot);
    lemma_written_discriminant(
        ops,
        env,
        ptr,
        variant,
        info,
        slot,
        ty,
        info.members().len(),
        carrier_bits(info, variant as int).unwrap().unwrap(),
        stack_slot,
        from,
        info.discriminant.spec_int_width().unwrap(),
    );
}

/// A member of a sound enum begins within it.
proof fn lemma_offset_bound(info: EnumInfo, slot: u32)
    requires
        info.struct_sound(),
        slot < info.members().len(),
    ensures
        info.member_offset(slot) <= i64::MAX,
{
    crate::stack_memory::lemma_offset_within(*info.slots.struct_ty->Struct_0, slot as int);
}

} // verus!
