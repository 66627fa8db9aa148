//! Lowering of enum values.
//!
//! Values keep the compiler's physical layout. A direct tag holds the declared
//! discriminant of the variant, not its position. A niche layout encodes
//! variants in unused bit patterns of a payload field, counted up from the first
//! one with wrap-around, and leaves one variant untagged.

use crate::byte_access::{
    align_attribute, alignment_attribute, byte_gep_ops, byte_offset_gep, emit_integer_constant,
    spill_enum_value, spill_ops,
};
use crate::call::Outcome;
use crate::ints::IntConst;
use crate::llvm::LlvmType;
use crate::lower::{emits, Emitted, LowerError};
use crate::ops::{Builder, CastKind, Coercion, IntBinary, IntPredicate, OpView, Value};
use crate::slots::EnumSlotMap;
use vstd::prelude::*;

verus! {

#[derive(Clone, Copy, PartialEq, Eq, Structural, Debug)]
pub enum EnumLayoutKind {
    /// A tag that holds the declared discriminant.
    Direct,
    /// Variants in unused bit patterns of a field.
    Niche,
    /// One variant, and no tag.
    Single,
    /// No variant.
    Empty,
    Unknown,
}

/// What the tag or niche is stored as.
#[derive(Clone, Copy, PartialEq, Eq, Structural, Debug)]
pub enum EnumCarrierKind {
    Integer,
    Pointer,
}

/// An enum: its encoding, and where its parts stand.
#[derive(PartialEq, Eq, Debug)]
pub struct EnumInfo {
    pub discriminant: LlvmType,
    pub variant_discriminants: Vec<u64>,
    pub variant_field_counts: Vec<u32>,
    pub variant_inhabited: Vec<bool>,
    pub layout_kind: EnumLayoutKind,
    pub carrier_kind: EnumCarrierKind,
    pub carrier_width: u32,
    pub niche_start: u128,
    pub niche_variant_start: u32,
    pub niche_variant_end: u32,
    pub untagged_variant: u32,
    pub single_variant: u32,
    /// Byte offset of the tag or niche.
    pub tag_offset: u64,
    /// Zero where unknown.
    pub abi_align: u64,
    pub slots: EnumSlotMap,
}

/// The number of payload fields of the first `n` variants.
pub open spec fn field_base(counts: Seq<u32>, n: nat) -> nat
    decreases n,
{
    if n == 0 {
        0
    } else {
        let before = field_base(counts, (n - 1) as nat);
        if n - 1 < counts.len() {
            before + counts[n - 1] as nat
        } else {
            before
        }
    }
}

impl EnumInfo {
    /// Carriers and discriminants have bits, the range of a niche is not empty,
    /// and the payload fields can be counted.
    pub open spec fn wf(self) -> bool {
        &&& self.slots.wf()
        &&& self.layout_kind == EnumLayoutKind::Niche || self.carrier_kind
            == EnumCarrierKind::Pointer ==> self.carrier_width > 0
        &&& self.discriminant.spec_int_width() != Some(0u32)
        &&& self.slots.carrier_ty matches Some(ty) ==> ty.spec_int_width() != Some(0u32)
        &&& self.layout_kind == EnumLayoutKind::Niche ==> self.niche_variant_start
            <= self.niche_variant_end
        &&& field_base(self.variant_field_counts@, self.variant_field_counts@.len()) <= usize::MAX
    }

    /// Whether a variant can exist; `None` for an index outside the enum.
    pub open spec fn inhabited(self, variant: int) -> Option<bool> {
        if 0 <= variant < self.variant_inhabited@.len() {
            Some(self.variant_inhabited@[variant])
        } else {
            None
        }
    }

    pub fn variant_is_inhabited(&self, variant: usize) -> (r: Option<bool>)
        ensures
            r == self.inhabited(variant as int),
    {
        if variant < self.variant_inhabited.len() {
            Some(self.variant_inhabited[variant])
        } else {
            None
        }
    }
}

/// The bits that the carrier holds for a variant; `None` where the variant
/// leaves the carrier alone.
pub open spec fn carrier_bits(info: EnumInfo, variant: int) -> Result<Option<u128>, LowerError> {
    match info.layout_kind {
        EnumLayoutKind::Direct => if 0 <= variant < info.variant_discriminants@.len() {
            Ok(Some(info.variant_discriminants@[variant] as u128))
        } else {
            Err(LowerError::NoDiscriminant)
        },
        EnumLayoutKind::Niche => if variant == info.untagged_variant {
            Ok(None)
        } else if info.niche_variant_start <= variant <= info.niche_variant_end {
            Ok(
                Some(
                    ((info.niche_start + (variant - info.niche_variant_start)) % (u128::MAX
                        + 1)) as u128,
                ),
            )
        } else {
            Err(LowerError::VariantIndex)
        },
        EnumLayoutKind::Single => if variant == info.single_variant && info.inhabited(variant)
            == Some(true) {
            Ok(None)
        } else {
            Err(LowerError::Uninhabited)
        },
        EnumLayoutKind::Empty => Err(LowerError::Uninhabited),
        EnumLayoutKind::Unknown => Err(LowerError::UnknownLayout),
    }
}

/// The bits that the carrier holds for a variant.
pub fn enum_carrier_bits_for_variant(info: &EnumInfo, variant: usize) -> (r: Result<
    Option<u128>,
    LowerError,
>)
    ensures
        r == carrier_bits(*info, variant as int),
{
    match info.layout_kind {
        EnumLayoutKind::Direct => if variant < info.variant_discriminants.len() {
            Ok(Some(info.variant_discriminants[variant] as u128))
        } else {
            Err(LowerError::NoDiscriminant)
        },
        EnumLayoutKind::Niche => {
            let index: u64 = variant as u64;
            if index == info.untagged_variant as u64 {
                Ok(None)
            } else if info.niche_variant_start as u64 <= index && index
                <= info.niche_variant_end as u64 {
                let offset: u64 = index - info.niche_variant_start as u64;
                Ok(Some(info.niche_start.wrapping_add(offset as u128)))
            } else {
                Err(LowerError::VariantIndex)
            }
        },
        EnumLayoutKind::Single => if variant as u64 == info.single_variant as u64
            && info.variant_is_inhabited(variant) == Some(true) {
            Ok(None)
        } else {
            Err(LowerError::Uninhabited)
        },
        EnumLayoutKind::Empty => Err(LowerError::Uninhabited),
        EnumLayoutKind::Unknown => Err(LowerError::UnknownLayout),
    }
}

/// The constant that a carrier holds. A pointer is made from its bits.
pub open spec fn carrier_ops(n: nat, info: EnumInfo, ty: LlvmType, bits: u128) -> Emitted {
    match info.carrier_kind {
        EnumCarrierKind::Integer => match ty {
            LlvmType::Integer(width, s) => Ok(
                seq![OpView::signed_constant(IntConst::of_int(bits as int, width), s)],
            ),
            _ => Err(LowerError::IntConstant),
        },
        EnumCarrierKind::Pointer => Ok(
            seq![
                OpView::int_of(bits as int, info.carrier_width),
                OpView::cast(
                    CastKind::IntToPtr,
                    Value::at(n, LlvmType::spec_int(info.carrier_width)),
                    ty,
                ),
            ],
        ),
    }
}

/// Emits the constant that a carrier holds.
pub fn emit_carrier_constant(b: &mut Builder, info: &EnumInfo, ty: &LlvmType, bits: u128) -> (r:
    Result<Value, LowerError>)
    requires
        info.carrier_kind == EnumCarrierKind::Pointer ==> info.carrier_width > 0,
        ty.spec_int_width() != Some(0u32),
    ensures
        emits(old(b)@, final(b)@, r, carrier_ops(old(b)@.len(), *info, *ty, bits)),
{
    let ghost expected = carrier_ops(old(b)@.len(), *info, *ty, bits);
    match info.carrier_kind {
        EnumCarrierKind::Integer => match ty {
            LlvmType::Integer(width, s) => {
                let r = b.signed_constant(IntConst::from_u128(bits, *width), *s);
                proof {
                    assert(b@ =~= old(b)@ + expected.unwrap());
                }
                Ok(r)
            },
            _ => Err(LowerError::IntConstant),
        },
        EnumCarrierKind::Pointer => {
            let address = emit_integer_constant(b, info.carrier_width, bits);
            let r = b.cast(CastKind::IntToPtr, &address, ty);
            proof {
                assert(b@ =~= old(b)@ + expected.unwrap());
            }
            Ok(r)
        },
    }
}

/// What a stamped type attribute says.
#[derive(PartialEq, Eq, Debug)]
pub enum StampedType {
    Missing,
    NotEnum,
    Enum(EnumInfo),
}

/// The write of a discriminant through a pointer: one write of the carrier, or
/// nothing where the variant leaves it alone.
pub open spec fn set_discriminant_ops(
    n: nat,
    ptr: Value,
    variant: Option<u32>,
    stamped: StampedType,
) -> Emitted {
    match (variant, stamped) {
        (None, _) | (_, StampedType::Missing) => Err(LowerError::MissingAttribute),
        (_, StampedType::NotEnum) => Err(LowerError::WrongType),
        (Some(v), StampedType::Enum(info)) => match carrier_bits(info, v as int) {
            Err(e) => Err(e),
            Ok(None) => Ok(Seq::empty()),
            Ok(Some(bits)) => match info.slots.carrier_ty {
                None => Err(LowerError::NoCarrier),
                Some(ty) => match carrier_ops(n, info, ty, bits) {
                    Err(e) => Err(e),
                    Ok(carrier) => {
                        let at = n + carrier.len();
                        Ok(
                            carrier + byte_gep_ops(at, ptr, info.tag_offset) + seq![
                                OpView::store(
                                    Value::at((at - 1) as nat, ty),
                                    Value::at(at + 1, ptr.ty),
                                ),
                            ],
                        )
                    },
                },
            },
        },
    }
}

/// Lowers the write of a discriminant through a pointer. The layout is that of
/// the type stamped on the operation.
pub fn convert_set_discriminant(
    b: &mut Builder,
    ptr: &Value,
    variant: Option<u32>,
    stamped: &StampedType,
) -> (r: Result<(), LowerError>)
    requires
        stamped matches StampedType::Enum(info) ==> info.wf(),
    ensures
        match set_discriminant_ops(old(b)@.len(), *ptr, variant, *stamped) {
            Ok(ops) => r is Ok && final(b)@ == old(b)@ + ops,
            Err(e) => r == Err::<(), LowerError>(e) && final(b)@ == old(b)@,
        },
{
    let ghost expected = set_discriminant_ops(old(b)@.len(), *ptr, variant, *stamped);
    let target: u32 = match variant {
        Some(v) => v,
        None => {
            return Err(LowerError::MissingAttribute);
        },
    };
    let info = match stamped {
        StampedType::Missing => {
            return Err(LowerError::MissingAttribute);
        },
        StampedType::NotEnum => {
            return Err(LowerError::WrongType);
        },
        StampedType::Enum(info) => info,
    };
    let bits: u128 = match enum_carrier_bits_for_variant(info, target as usize) {
        Err(e) => {
            return Err(e);
        },
        Ok(None) => {
            proof {
                assert(b@ =~= old(b)@ + Seq::empty());
            }
            return Ok(());
        },
        Ok(Some(bits)) => bits,
    };
    let ty = match &info.slots.carrier_ty {
        Some(ty) => ty,
        None => {
            return Err(LowerError::NoCarrier);
        },
    };
    let carrier = match emit_carrier_constant(b, info, ty, bits) {
        Ok(v) => v,
        Err(e) => {
            return Err(e);
        },
    };
    let address = byte_offset_gep(b, ptr, info.tag_offset);
    b.store(&carrier, &address, None);
    proof {
        let ops = carrier_ops(old(b)@.len(), *info, *ty, bits).unwrap();
        assert(ops.last().ty == *ty);
        assert(b@ =~= old(b)@ + expected.unwrap());
    }
    Ok(())
}

/// Decoding of a niche: the carrier relative to the first niche value, compared
/// with the size of the range at the width of the carrier, and the variant
/// computed at the width of the discriminant, which may need more bits.
pub open spec fn niche_ops(
    n: nat,
    value: Value,
    slot: u32,
    member: LlvmType,
    info: EnumInfo,
    logical_width: u32,
) -> Seq<OpView> {
    let width = info.carrier_width;
    let carrier_ty = LlvmType::spec_int(width);
    let logical_ty = info.discriminant;
    let is_pointer = info.carrier_kind == EnumCarrierKind::Pointer;
    let read = if is_pointer {
        seq![
            OpView::extract(value, slot, member),
            OpView::cast(CastKind::PtrToInt, Value::at(n, member), carrier_ty),
        ]
    } else {
        seq![OpView::extract(value, slot, member)]
    };
    let carrier = if is_pointer {
        Value::at(n + 1, carrier_ty)
    } else {
        Value::at(n, member)
    };
    let k = n + read.len();
    let relative = Value::at(k + 1, carrier.ty);
    let test = seq![
        OpView::int_of(info.niche_start as int, width),
        OpView::binary(IntBinary::Sub, carrier, Value::at(k, carrier_ty)),
        OpView::int_of(info.niche_variant_end - info.niche_variant_start, width),
        OpView::int_compare(IntPredicate::ULE, relative, Value::at(k + 2, carrier_ty)),
    ];
    let resize = if width == logical_width {
        Seq::empty()
    } else if width > logical_width {
        seq![OpView::cast(CastKind::Trunc, relative, logical_ty)]
    } else {
        seq![OpView::cast(CastKind::ZExt, relative, logical_ty)]
    };
    let logical = if width == logical_width {
        relative
    } else {
        Value::at(k + 4, logical_ty)
    };
    let j = k + 4 + resize.len();
    let constant_ty = LlvmType::spec_int(logical_width);
    read + test + resize + seq![
        OpView::int_of(info.niche_variant_start as int, logical_width),
        OpView::binary(IntBinary::Add, logical, Value::at(j, constant_ty)),
        OpView::int_of(info.untagged_variant as int, logical_width),
        OpView::select(
            Value::at(k + 3, LlvmType::spec_bool()),
            Value::at(j + 1, logical.ty),
            Value::at(j + 2, constant_ty),
        ),
    ]
}

/// The discriminant of an enum value.
pub open spec fn get_discriminant_ops(
    n: nat,
    operands: Seq<Value>,
    recorded: Option<EnumInfo>,
) -> Emitted {
    if operands.len() == 0 {
        Err(LowerError::OperandCount)
    } else {
        match recorded {
            None => Err(LowerError::WrongType),
            Some(info) => match info.discriminant.spec_int_width() {
                None => Err(LowerError::DiscriminantType),
                Some(logical_width) => match info.layout_kind {
                    EnumLayoutKind::Direct => match info.slots.carrier_slot {
                        None => Err(LowerError::NoCarrier),
                        Some(slot) => match operands[0].ty.spec_member(slot) {
                            None => Err(LowerError::NoSuchMember),
                            Some(member) => Ok(
                                seq![OpView::extract(operands[0], slot, member)],
                            ),
                        },
                    },
                    EnumLayoutKind::Single => if info.inhabited(info.single_variant as int)
                        != Some(true) {
                        Err(LowerError::Uninhabited)
                    } else if info.single_variant >= info.variant_discriminants@.len() {
                        Err(LowerError::NoDiscriminant)
                    } else {
                        Ok(
                            seq![
                                OpView::int_of(
                                    info.variant_discriminants@[info.single_variant as int] as int,
                                    logical_width,
                                ),
                            ],
                        )
                    },
                    EnumLayoutKind::Niche => match info.slots.carrier_slot {
                        None => Err(LowerError::NoCarrier),
                        Some(slot) => match operands[0].ty.spec_member(slot) {
                            None => Err(LowerError::NoSuchMember),
                            Some(member) => Ok(
                                niche_ops(n, operands[0], slot, member, info, logical_width),
                            ),
                        },
                    },
                    EnumLayoutKind::Empty => Err(LowerError::Uninhabited),
                    EnumLayoutKind::Unknown => Err(LowerError::UnknownLayout),
                },
            },
        }
    }
}

/// Emits the decoding of a niche.
fn emit_niche_discriminant(
    b: &mut Builder,
    value: &Value,
    slot: u32,
    member: LlvmType,
    info: &EnumInfo,
    logical_width: u32,
) -> (r: Value)
    requires
        info.wf(),
        info.layout_kind == EnumLayoutKind::Niche,
        info.discriminant.spec_int_width() == Some(logical_width),
    ensures
        ({
            let ops = niche_ops(old(b)@.len(), *value, slot, member, *info, logical_width);
            &&& final(b)@ == old(b)@ + ops
            &&& r == Value::at((old(b)@.len() + ops.len() - 1) as nat, ops.last().ty)
        }),
{
    let ghost ops = niche_ops(old(b)@.len(), *value, slot, member, *info, logical_width);
    let width: u32 = info.carrier_width;
    let carrier = b.extract(value, slot, member);
    let carrier_int = if info.carrier_kind == EnumCarrierKind::Pointer {
        b.cast(CastKind::PtrToInt, &carrier, &LlvmType::int_type(width))
    } else {
        carrier
    };
    let niche_start = emit_integer_constant(b, width, info.niche_start);
    let relative = b.binary(IntBinary::Sub, &carrier_int, &niche_start);
    let range: u32 = info.niche_variant_end - info.niche_variant_start;
    let max = emit_integer_constant(b, width, range as u128);
    let in_range = b.int_compare(IntPredicate::ULE, &relative, &max);
    let logical = if width == logical_width {
        relative
    } else if width > logical_width {
        b.cast(CastKind::Trunc, &relative, &info.discriminant)
    } else {
        b.cast(CastKind::ZExt, &relative, &info.discriminant)
    };
    let base = emit_integer_constant(b, logical_width, info.niche_variant_start as u128);
    let variant = b.binary(IntBinary::Add, &logical, &base);
    let untagged = emit_integer_constant(b, logical_width, info.untagged_variant as u128);
    let r = b.select(&in_range, &variant, &untagged);
    proof {
        assert(b@ =~= old(b)@ + ops);
    }
    r
}

/// Lowers the read of a discriminant. `recorded` is the enum type that the
/// operand had.
pub fn convert_get_discriminant(
    b: &mut Builder,
    operands: &Vec<Value>,
    recorded: &Option<EnumInfo>,
) -> (r: Result<Value, LowerError>)
    requires
        recorded matches Some(info) ==> info.wf(),
    ensures
        emits(old(b)@, final(b)@, r, get_discriminant_ops(old(b)@.len(), operands@, *recorded)),
{
    let ghost expected = get_discriminant_ops(old(b)@.len(), operands@, *recorded);
    if operands.len() == 0 {
        return Err(LowerError::OperandCount);
    }
    let value = &operands[0];
    let info = match recorded {
        Some(info) => info,
        None => {
            return Err(LowerError::WrongType);
        },
    };
    let logical_width: u32 = match info.discriminant.int_width() {
        Some(w) => w,
        None => {
            return Err(LowerError::DiscriminantType);
        },
    };
    match info.layout_kind {
        EnumLayoutKind::Direct => match info.slots.carrier_slot {
            None => Err(LowerError::NoCarrier),
            Some(slot) => match value.ty.member(slot) {
                None => Err(LowerError::NoSuchMember),
                Some(member) => {
                    let r = b.extract(value, slot, member);
                    proof {
                        assert(b@ =~= old(b)@ + expected.unwrap());
                    }
                    Ok(r)
                },
            },
        },
        EnumLayoutKind::Single => {
            let single: usize = info.single_variant as usize;
            if info.variant_is_inhabited(single) != Some(true) {
                return Err(LowerError::Uninhabited);
            }
            if single >= info.variant_discriminants.len() {
                return Err(LowerError::NoDiscriminant);
            }
            let r = emit_integer_constant(
                b,
                logical_width,
                info.variant_discriminants[single] as u128,
            );
            proof {
                assert(b@ =~= old(b)@ + expected.unwrap());
            }
            Ok(r)
        },
        EnumLayoutKind::Niche => match info.slots.carrier_slot {
            None => Err(LowerError::NoCarrier),
            Some(slot) => match value.ty.member(slot) {
                None => Err(LowerError::NoSuchMember),
                Some(member) => Ok(
                    emit_niche_discriminant(b, value, slot, member, info, logical_width),
                ),
            },
        },
        EnumLayoutKind::Empty => Err(LowerError::Uninhabited),
        EnumLayoutKind::Unknown => Err(LowerError::UnknownLayout),
    }
}

/// The number of payload fields before those of a variant.
fn payload_base(counts: &Vec<u32>, variant: usize) -> (r: usize)
    requires
        field_base(counts@, counts@.len()) <= usize::MAX,
    ensures
        r == field_base(counts@, variant as nat),
{
    let mut sum: usize = 0;
    let mut i: usize = 0;
    while i < counts.len() && i < variant
        invariant
            i <= counts.len(),
            i <= variant,
            sum == field_base(counts@, i as nat),
            field_base(counts@, counts@.len()) <= usize::MAX,
        decreases counts.len() - i,
    {
        proof {
            lemma_field_base_grows(counts@, (i + 1) as nat, counts@.len());
        }
        sum = sum + counts[i] as usize;
        i = i + 1;
    }
    proof {
        lemma_field_base_stops(counts@, i as nat, variant as nat);
    }
    sum
}

proof fn lemma_field_base_grows(counts: Seq<u32>, m: nat, n: nat)
    requires
        m <= n,
    ensures
        field_base(counts, m) <= field_base(counts, n),
    decreases n,
{
    if m < n {
        lemma_field_base_grows(counts, m, (n - 1) as nat);
    }
}

proof fn lemma_field_base_stops(counts: Seq<u32>, m: nat, n: nat)
    requires
        m <= n,
        m < n ==> m >= counts.len(),
    ensures
        field_base(counts, m) == field_base(counts, n),
    decreases n,
{
    if m < n {
        lemma_field_base_stops(counts, m, (n - 1) as nat);
    }
}

/// A payload field of an enum value. A field without a slot of its own is read
/// through memory, and one that occupies no memory is arbitrary.
pub open spec fn payload_ops(
    n: nat,
    operands: Seq<Value>,
    variant: nat,
    field: nat,
    recorded: Option<EnumInfo>,
) -> Emitted {
    if operands.len() == 0 {
        Err(LowerError::OperandCount)
    } else {
        match recorded {
            None => Err(LowerError::WrongType),
            Some(info) => {
                let slots = info.slots;
                let flat = field_base(info.variant_field_counts@, variant) + field;
                if flat >= slots.field_slots@.len() {
                    Err(LowerError::FieldIndex)
                } else {
                    let at = flat as int;
                    let ty = slots.field_types@[at];
                    match slots.field_slots@[at] {
                        Some(slot) => match operands[0].ty.spec_member(slot) {
                            None => Err(LowerError::NoSuchMember),
                            Some(member) => Ok(
                                seq![
                                    OpView::extract(operands[0], slot, member),
                                    OpView::coerce(
                                        Coercion::PayloadStorage,
                                        Value::at(n, member),
                                        ty,
                                    ),
                                ],
                            ),
                        },
                        None => if slots.zero_sized@[at] {
                            Ok(seq![OpView::undef(ty)])
                        } else {
                            match slots.storage_types@[at] {
                                None => Err(LowerError::NoStorageType),
                                Some(storage) => Ok(
                                    spill_ops(n, operands[0], slots.struct_ty, info.abi_align)
                                        + byte_gep_ops(
                                        n + 3,
                                        Value::at(n + 1, LlvmType::Pointer(0)),
                                        slots.field_offsets@[at],
                                    ) + seq![
                                        OpView::load(
                                            Value::at(n + 4, LlvmType::Pointer(0)),
                                            storage,
                                        ),
                                        OpView::coerce(
                                            Coercion::PayloadStorage,
                                            Value::at(n + 5, storage),
                                            ty,
                                        ),
                                    ],
                                ),
                            }
                        },
                    }
                }
            },
        }
    }
}

/// Lowers the read of a payload field. Absent indices are zero.
pub fn convert_enum_payload(
    b: &mut Builder,
    operands: &Vec<Value>,
    variant: Option<u32>,
    field: Option<u32>,
    recorded: &Option<EnumInfo>,
) -> (r: Result<Value, LowerError>)
    requires
        recorded matches Some(info) ==> info.wf(),
    ensures
        emits(
            old(b)@,
            final(b)@,
            r,
            payload_ops(
                old(b)@.len(),
                operands@,
                variant.unwrap_or(0) as nat,
                field.unwrap_or(0) as nat,
                *recorded,
            ),
        ),
{
    let ghost expected = payload_ops(
        old(b)@.len(),
        operands@,
        variant.unwrap_or(0) as nat,
        field.unwrap_or(0) as nat,
        *recorded,
    );
    if operands.len() == 0 {
        return Err(LowerError::OperandCount);
    }
    let value = &operands[0];
    let info = match recorded {
        Some(info) => info,
        None => {
            return Err(LowerError::WrongType);
        },
    };
    let slots = &info.slots;
    let fields: usize = slots.field_slots.len();
    let base: usize = payload_base(&info.variant_field_counts, variant.unwrap_or(0) as usize);
    let flat: usize = match base.checked_add(field.unwrap_or(0) as usize) {
        Some(flat) => flat,
        None => {
            return Err(LowerError::FieldIndex);
        },
    };
    if flat >= fields {
        return Err(LowerError::FieldIndex);
    }
    let ty = &slots.field_types[flat];
    match slots.field_slots[flat] {
        Some(slot) => match value.ty.member(slot) {
            None => Err(LowerError::NoSuchMember),
            Some(member) => {
                let stored = b.extract(value, slot, member);
                let r = b.coerce(Coercion::PayloadStorage, &stored, ty);
                proof {
                    assert(b@ =~= old(b)@ + expected.unwrap());
                }
                Ok(r)
            },
        },
        None => {
            if slots.zero_sized[flat] {
                let r = b.undef(ty);
                proof {
                    assert(b@ =~= old(b)@ + expected.unwrap());
                }
                return Ok(r);
            }
            match &slots.storage_types[flat] {
                None => Err(LowerError::NoStorageType),
                Some(storage) => {
                    let slot_ptr = spill_enum_value(b, value, &slots.struct_ty, info.abi_align);
                    let field_ptr = byte_offset_gep(b, &slot_ptr, slots.field_offsets[flat]);
                    let stored = b.load(&field_ptr, storage, None);
                    let r = b.coerce(Coercion::PayloadStorage, &stored, ty);
                    proof {
                        assert(b@ =~= old(b)@ + expected.unwrap());
                    }
                    Ok(r)
                },
            }
        },
    }
}

/// The state of building an enum value: all operations of the function so far,
/// the value built so far, the payload fields that have to go through memory,
/// and why building stopped. A payload field is given by its number and its
/// value.
pub struct EnumBuild {
    pub ops: Seq<OpView>,
    pub value: Value,
    pub deferred: Seq<(usize, Value)>,
    pub error: Option<LowerError>,
}

/// Puts the bits of the variant into an otherwise arbitrary value.
pub open spec fn start_variant(ops: Seq<OpView>, info: EnumInfo, variant: nat) -> EnumBuild {
    let slots = info.slots;
    let begun = EnumBuild {
        ops: ops.push(OpView::undef(slots.struct_ty)),
        value: Value::at(ops.len(), slots.struct_ty),
        deferred: Seq::empty(),
        error: None,
    };
    match carrier_bits(info, variant as int) {
        Err(e) => EnumBuild { error: Some(e), ..begun },
        Ok(None) => begun,
        Ok(Some(bits)) => match (slots.carrier_slot, slots.carrier_ty) {
            (Some(slot), Some(ty)) => match carrier_ops(ops.len() + 1, info, ty, bits) {
                Err(e) => EnumBuild { error: Some(e), ..begun },
                Ok(carrier) => {
                    let at = begun.ops.len() + carrier.len();
                    EnumBuild {
                        ops: (begun.ops + carrier).push(
                            OpView::insert(begun.value, Value::at((at - 1) as nat, ty), slot),
                        ),
                        value: Value::at(at, slots.struct_ty),
                        ..begun
                    }
                },
            },
            _ => EnumBuild { error: Some(LowerError::NoCarrier), ..begun },
        },
    }
}

/// Puts a payload field into its slot, or sets it aside.
pub open spec fn add_payload(
    build: EnumBuild,
    slots: EnumSlotMap,
    flat: nat,
    operand: Value,
) -> EnumBuild {
    if build.error is Some {
        build
    } else if flat >= slots.field_slots@.len() {
        EnumBuild { error: Some(LowerError::FieldIndex), ..build }
    } else {
        match slots.field_slots@[flat as int] {
            Some(slot) => if !(slots.struct_ty is Struct) {
                EnumBuild { error: Some(LowerError::WrongType), ..build }
            } else {
                match slots.struct_ty.spec_member(slot) {
                    None => EnumBuild { error: Some(LowerError::NoSuchMember), ..build },
                    Some(storage) => {
                        let at = build.ops.len();
                        EnumBuild {
                            ops: build.ops.push(
                                OpView::coerce(Coercion::PayloadStorage, operand, storage),
                            ).push(OpView::insert(build.value, Value::at(at, storage), slot)),
                            value: Value::at(at + 1, build.value.ty),
                            ..build
                        }
                    },
                }
            },
            None => if slots.zero_sized@[flat as int] {
                build
            } else {
                EnumBuild { deferred: build.deferred.push((flat as usize, operand)), ..build }
            },
        }
    }
}

/// Adds the first `n` payload fields of a variant.
pub open spec fn add_payloads(
    build: EnumBuild,
    slots: EnumSlotMap,
    base: nat,
    operands: Seq<Value>,
    n: nat,
) -> EnumBuild
    decreases n,
{
    if n == 0 {
        build
    } else {
        add_payload(
            add_payloads(build, slots, base, operands, (n - 1) as nat),
            slots,
            (base + n - 1) as nat,
            operands[n - 1],
        )
    }
}

/// Stores the first `n` deferred payload fields into the stack slot at
/// `address`, as whole bytes in their storage type.
pub open spec fn store_payloads(
    ops: Seq<OpView>,
    slots: EnumSlotMap,
    address: Value,
    deferred: Seq<(usize, Value)>,
    n: nat,
) -> (Seq<OpView>, Option<LowerError>)
    decreases n,
{
    if n == 0 {
        (ops, None)
    } else {
        let (before, error) = store_payloads(ops, slots, address, deferred, (n - 1) as nat);
        let (flat, operand) = deferred[n - 1];
        let at = before.len();
        let bytes = slots.byte_types@[flat as int];
        if error is Some {
            (before, error)
        } else {
            match slots.storage_types@[flat as int] {
                None => (before, Some(LowerError::NoStorageType)),
                Some(storage) => (
                    before + byte_gep_ops(at, address, slots.field_offsets@[flat as int]) + seq![
                        OpView::coerce(Coercion::BoolBytes, operand, bytes),
                        OpView::coerce(
                            Coercion::PayloadStorage,
                            Value::at(at + 2, bytes),
                            storage,
                        ),
                        OpView::store(Value::at(at + 3, storage), Value::at(at + 1, address.ty)),
                    ],
                    None,
                ),
            }
        }
    }
}

/// Writes the deferred payload fields through memory and reads the whole value
/// back.
pub open spec fn finish_enum(build: EnumBuild, info: EnumInfo) -> Outcome {
    let n = build.ops.len();
    let address = Value::at(n + 1, LlvmType::Pointer(0));
    let (ops, error) = store_payloads(
        build.ops + spill_ops(n, build.value, info.slots.struct_ty, info.abi_align),
        info.slots,
        address,
        build.deferred,
        build.deferred.len(),
    );
    match error {
        Some(e) => Outcome { ops, result: Err(e) },
        None => Outcome {
            ops: ops.push(
                OpView::load(address, info.slots.struct_ty).aligned(
                    align_attribute(info.abi_align),
                ),
            ),
            result: Ok(Some(Value::at(ops.len(), info.slots.struct_ty))),
        },
    }
}

/// The construction of a variant.
pub open spec fn construct_enum(
    ops: Seq<OpView>,
    operands: Seq<Value>,
    variant: nat,
    result: Option<EnumInfo>,
) -> Outcome {
    match result {
        None => Outcome { ops, result: Err(LowerError::WrongType) },
        Some(info) => {
            let begun = start_variant(ops, info, variant);
            let base = field_base(info.variant_field_counts@, variant);
            let build = add_payloads(begun, info.slots, base, operands, operands.len());
            match build.error {
                Some(e) => Outcome { ops: build.ops, result: Err(e) },
                None => if build.deferred.len() == 0 {
                    Outcome { ops: build.ops, result: Ok(Some(build.value)) }
                } else {
                    finish_enum(build, info)
                },
            }
        },
    }
}

/// Once building has failed, further payload fields change nothing.
proof fn lemma_payloads_stop(
    build: EnumBuild,
    slots: EnumSlotMap,
    base: nat,
    operands: Seq<Value>,
    m: nat,
    n: nat,
)
    requires
        m <= n,
        add_payloads(build, slots, base, operands, m).error is Some,
    ensures
        add_payloads(build, slots, base, operands, n) == add_payloads(
            build,
            slots,
            base,
            operands,
            m,
        ),
    decreases n,
{
    if m < n {
        lemma_payloads_stop(build, slots, base, operands, m, (n - 1) as nat);
    }
}

/// Once storing has failed, further payload fields change nothing.
proof fn lemma_stores_stop(
    ops: Seq<OpView>,
    slots: EnumSlotMap,
    address: Value,
    deferred: Seq<(usize, Value)>,
    m: nat,
    n: nat,
)
    requires
        m <= n,
        store_payloads(ops, slots, address, deferred, m).1 is Some,
    ensures
        store_payloads(ops, slots, address, deferred, n) == store_payloads(
            ops,
            slots,
            address,
            deferred,
            m,
        ),
    decreases n,
{
    if m < n {
        lemma_stores_stop(ops, slots, address, deferred, m, (n - 1) as nat);
    }
}

fn emit_variant(b: &mut Builder, info: &EnumInfo, variant: usize) -> (r: Result<
    Value,
    LowerError,
>)
    requires
        info.wf(),
    ensures
        ({
            let begun = start_variant(old(b)@, *info, variant as nat);
            &&& final(b)@ == begun.ops
            &&& begun.deferred.len() == 0
            &&& match r {
                Ok(v) => begun.error is None && v == begun.value,
                Err(e) => begun.error == Some(e),
            }
        }),
{
    let slots = &info.slots;
    let ghost begun = start_variant(old(b)@, *info, variant as nat);
    let empty = b.undef(&slots.struct_ty);
    let bits: u128 = match enum_carrier_bits_for_variant(info, variant) {
        Err(e) => {
            return Err(e);
        },
        Ok(None) => {
            return Ok(empty);
        },
        Ok(Some(bits)) => bits,
    };
    match (slots.carrier_slot, &slots.carrier_ty) {
        (Some(slot), Some(ty)) => {
            let ghost n = b@.len();
            match emit_carrier_constant(b, info, ty, bits) {
                Err(e) => Err(e),
                Ok(carrier) => {
                    proof {
                        let ops = carrier_ops(n, *info, *ty, bits).unwrap();
                        assert(ops.last().ty == *ty);
                    }
                    Ok(b.insert(&empty, &carrier, slot))
                },
            }
        },
        _ => Err(LowerError::NoCarrier),
    }
}

/// The member type of a struct that stores payload fields.
fn storage_member(ty: &LlvmType, slot: u32) -> (r: Result<LlvmType, LowerError>)
    ensures
        r == (if !(ty is Struct) {
            Err::<LlvmType, LowerError>(LowerError::WrongType)
        } else {
            match ty.spec_member(slot) {
                None => Err::<LlvmType, LowerError>(LowerError::NoSuchMember),
                Some(t) => Ok::<LlvmType, LowerError>(t),
            }
        }),
{
    match ty {
        LlvmType::Struct(_, _) => match ty.member(slot) {
            None => Err(LowerError::NoSuchMember),
            Some(t) => Ok(t),
        },
        _ => Err(LowerError::WrongType),
    }
}

/// The state that builder, value, deferred fields and outcome stand for.
spec fn build_state(
    b: Builder,
    value: Value,
    deferred: Seq<(usize, Value)>,
    error: Option<LowerError>,
) -> EnumBuild {
    EnumBuild { ops: b@, value, deferred, error }
}

/// Stores the deferred payload fields.
fn emit_payload_stores(
    b: &mut Builder,
    slots: &EnumSlotMap,
    address: &Value,
    deferred: &Vec<(usize, Value)>,
) -> (r: Result<(), LowerError>)
    requires
        slots.wf(),
        forall|i: int|
            0 <= i < deferred@.len() ==> (#[trigger] deferred@[i]).0 < slots.field_slots@.len(),
    ensures
        (
            final(b)@,
            match r {
                Ok(_) => None,
                Err(e) => Some(e),
            },
        ) == store_payloads(old(b)@, *slots, *address, deferred@, deferred@.len()),
{
    let mut i: usize = 0;
    while i < deferred.len()
        invariant
            i <= deferred.len(),
            slots.wf(),
            forall|j: int|
                0 <= j < deferred@.len() ==> (#[trigger] deferred@[j]).0 < slots.field_slots@.len(),
            (b@, None::<LowerError>) == store_payloads(
                old(b)@,
                *slots,
                *address,
                deferred@,
                i as nat,
            ),
        decreases deferred.len() - i,
    {
        let ghost before = b@;
        let flat: usize = deferred[i].0;
        let operand = &deferred[i].1;
        proof {
            assert(deferred@[i as int].0 < slots.field_slots@.len());
        }
        let storage = match &slots.storage_types[flat] {
            Some(storage) => storage,
            None => {
                proof {
                    lemma_stores_stop(
                        old(b)@,
                        *slots,
                        *address,
                        deferred@,
                        (i + 1) as nat,
                        deferred@.len(),
                    );
                }
                return Err(LowerError::NoStorageType);
            },
        };
        let field = byte_offset_gep(b, address, slots.field_offsets[flat]);
        let bytes = b.coerce(Coercion::BoolBytes, operand, &slots.byte_types[flat]);
        let stored = b.coerce(Coercion::PayloadStorage, &bytes, storage);
        b.store(&stored, &field, None);
        i = i + 1;
        proof {
            assert(b@ =~= store_payloads(
                old(b)@,
                *slots,
                *address,
                deferred@,
                i as nat,
            ).0);
        }
    }
    Ok(())
}

/// Lowers the construction of a variant: its bits first, each payload field that
/// has a slot, and the remaining ones through memory. An absent variant index is
/// zero. The operations emitted before an error stay.
pub fn convert_construct_enum(
    b: &mut Builder,
    operands: &Vec<Value>,
    variant: Option<u32>,
    result: &Option<EnumInfo>,
) -> (r: Result<Value, LowerError>)
    requires
        result matches Some(info) ==> info.wf(),
    ensures
        (Outcome {
            ops: final(b)@,
            result: match r {
                Ok(v) => Ok(Some(v)),
                Err(e) => Err(e),
            },
        }) == construct_enum(old(b)@, operands@, variant.unwrap_or(0) as nat, *result),
{
    let info = match result {
        Some(info) => info,
        None => {
            return Err(LowerError::WrongType);
        },
    };
    let slots = &info.slots;
    let index: usize = variant.unwrap_or(0) as usize;
    let ghost begun = start_variant(old(b)@, *info, index as nat);
    let base: usize = payload_base(&info.variant_field_counts, index);
    let fields: usize = slots.field_slots.len();
    let mut value = match emit_variant(b, info, index) {
        Ok(v) => v,
        Err(e) => {
            proof {
                lemma_payloads_stop(begun, *slots, base as nat, operands@, 0, operands@.len());
            }
            return Err(e);
        },
    };
    let mut deferred: Vec<(usize, Value)> = Vec::new();
    proof {
        assert(deferred@ =~= begun.deferred);
    }
    let mut i: usize = 0;
    while i < operands.len()
        invariant
            i <= operands.len(),
            slots.wf(),
            *slots == info.slots,
            fields == slots.field_slots@.len(),
            begun == start_variant(old(b)@, *info, index as nat),
            base == field_base(info.variant_field_counts@, index as nat),
            forall|j: int| 0 <= j < deferred@.len() ==> (#[trigger] deferred@[j]).0 < fields,
            build_state(*b, value, deferred@, None) == add_payloads(
                begun,
                *slots,
                base as nat,
                operands@,
                i as nat,
            ),
            *result == Some(*info),
            index == variant.unwrap_or(0),
        decreases operands.len() - i,
    {
        let ghost next = add_payloads(begun, *slots, base as nat, operands@, (i + 1) as nat);
        let operand = &operands[i];
        if base >= fields || i >= fields - base {
            proof {
                lemma_payloads_stop(
                    begun,
                    *slots,
                    base as nat,
                    operands@,
                    (i + 1) as nat,
                    operands@.len(),
                );
            }
            return Err(LowerError::FieldIndex);
        }
        let flat: usize = base + i;
        match slots.field_slots[flat] {
            Some(slot) => {
                let storage = match storage_member(&slots.struct_ty, slot) {
                    Ok(t) => t,
                    Err(e) => {
                        proof {
                            lemma_payloads_stop(
                                begun,
                                *slots,
                                base as nat,
                                operands@,
                                (i + 1) as nat,
                                operands@.len(),
                            );
                        }
                        return Err(e);
                    },
                };
                let stored = b.coerce(Coercion::PayloadStorage, operand, &storage);
                value = b.insert(&value, &stored, slot);
            },
            None => {
                if !slots.zero_sized[flat] {
                    deferred.push((flat, operand.copy()));
                }
            },
        }
        i = i + 1;
    }
    if deferred.len() == 0 {
        return Ok(value);
    }
    let address = spill_enum_value(b, &value, &slots.struct_ty, info.abi_align);
    match emit_payload_stores(b, slots, &address, &deferred) {
        Ok(_) => {},
        Err(e) => {
            return Err(e);
        },
    }
    Ok(b.load(&address, &slots.struct_ty, alignment_attribute(info.abi_align)))
}

} // verus!
