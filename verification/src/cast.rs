//! Lowering of casts.

use crate::ints::{signed64, to_signed, IntConst};
use crate::llvm::{FieldTypes, LlvmType, Signedness};
use crate::lower::{emits, Emitted, LowerError, Operand};
use crate::mir::MirType;
use crate::ops::{
    one_value, Builder, CastKind, Index, IntPredicate, OpCode, OpView, Value,
};
use crate::text;
use vstd::prelude::*;

verus! {

/// The kind of a MIR cast.
#[derive(Clone, Copy, PartialEq, Eq, Structural, Debug)]
pub enum MirCastKind {
    Transmute,
    IntToInt,
    IntToFloat,
    FloatToInt,
    FloatToFloat,
    PtrToPtr,
    FnPtrToPtr,
    PointerCoercionUnsize,
    PointerCoercionMutToConst,
    PointerCoercionReifyFnPointer,
    PointerCoercionUnsafeFnPointer,
    PointerCoercionClosureFnPointer,
    PointerCoercionArrayToPointer,
    Subtype,
    PointerExposeAddress,
    PointerWithExposedProvenance,
}

/// How a scalar encodes the two variants of a niched enum.
#[derive(Clone, Copy, PartialEq, Eq, Structural, Debug)]
pub struct NicheEncoding {
    /// The bit pattern that stands for the niche variant.
    pub niche_start: u64,
    pub niche_variant_idx: u32,
    pub untagged_variant_idx: u32,
}

/// How many layers of single-field structs are looked through.
pub const MAX_NEWTYPE_DEPTH: usize = 8;

/// The signedness of the operand's type before conversion, if that is an
/// integer. Without a history the live type counts.
pub open spec fn source_signedness(operand: Operand) -> Option<Signedness> {
    if operand.history@.len() > 0 {
        match operand.history@.last() {
            MirType::Integer(_, s) => Some(s),
            _ => None,
        }
    } else {
        match operand.value.ty {
            LlvmType::Integer(_, s) => Some(s),
            _ => None,
        }
    }
}

fn operand_signedness(operand: &Operand) -> (r: Option<Signedness>)
    ensures
        r == source_signedness(*operand),
{
    if operand.history.len() > 0 {
        match &operand.history[operand.history.len() - 1] {
            MirType::Integer(_, s) => Some(*s),
            _ => None,
        }
    } else {
        match &operand.value.ty {
            LlvmType::Integer(_, s) => Some(*s),
            _ => None,
        }
    }
}

/// An integer cast: extension by the source's signedness, truncation, or a
/// bitcast at equal width.
pub open spec fn int_to_int(operand: Operand, ty: LlvmType) -> Result<OpView, LowerError> {
    match (operand.value.ty.spec_int_width(), ty.spec_int_width()) {
        (Some(src), Some(dst)) => if dst > src {
            match source_signedness(operand) {
                Some(Signedness::Signed) => Ok(OpView::cast(CastKind::SExt, operand.value, ty)),
                Some(_) => Ok(OpView::cast(CastKind::ZExt, operand.value, ty)),
                None => Err(LowerError::IntCast),
            }
        } else if dst < src {
            Ok(OpView::cast(CastKind::Trunc, operand.value, ty))
        } else {
            Ok(OpView::cast(CastKind::Bitcast, operand.value, ty))
        },
        _ => Err(LowerError::IntCast),
    }
}

pub open spec fn single(op: Result<OpView, LowerError>) -> Emitted {
    match op {
        Ok(v) => Ok(seq![v]),
        Err(e) => Err(e),
    }
}

/// Emits an integer cast.
pub fn convert_int_to_int(b: &mut Builder, operand: &Operand, ty: &LlvmType) -> (r: Result<
    Value,
    LowerError,
>)
    ensures
        emits(old(b)@, final(b)@, r, single(int_to_int(*operand, *ty))),
{
    let (src, dst) = match (operand.value.ty.int_width(), ty.int_width()) {
        (Some(src), Some(dst)) => (src, dst),
        _ => {
            return Err(LowerError::IntCast);
        },
    };
    let kind = if dst > src {
        match operand_signedness(operand) {
            Some(s) => if s == Signedness::Signed {
                CastKind::SExt
            } else {
                CastKind::ZExt
            },
            None => {
                return Err(LowerError::IntCast);
            },
        }
    } else if dst < src {
        CastKind::Trunc
    } else {
        CastKind::Bitcast
    };
    let r = b.cast(kind, &operand.value, ty);
    proof {
        assert(b@ =~= old(b)@ + seq![OpView::cast(kind, operand.value, *ty)]);
    }
    Ok(r)
}

/// A conversion from integer to float by the source's signedness.
pub open spec fn int_to_float(operand: Operand, ty: LlvmType) -> Result<OpView, LowerError> {
    match source_signedness(operand) {
        Some(Signedness::Signed) => Ok(OpView::cast(CastKind::SIToFP, operand.value, ty)),
        Some(_) => Ok(OpView::cast(CastKind::UIToFP, operand.value, ty)),
        None => Err(LowerError::IntCast),
    }
}

/// Emits a conversion from integer to float.
pub fn convert_int_to_float(b: &mut Builder, operand: &Operand, ty: &LlvmType) -> (r: Result<
    Value,
    LowerError,
>)
    ensures
        emits(old(b)@, final(b)@, r, single(int_to_float(*operand, *ty))),
{
    let kind = match operand_signedness(operand) {
        Some(s) => if s == Signedness::Signed {
            CastKind::SIToFP
        } else {
            CastKind::UIToFP
        },
        None => {
            return Err(LowerError::IntCast);
        },
    };
    let r = b.cast(kind, &operand.value, ty);
    proof {
        assert(b@ =~= old(b)@ + seq![OpView::cast(kind, operand.value, *ty)]);
    }
    Ok(r)
}

/// A change of floating-point precision.
pub open spec fn float_to_float(value: Value, ty: LlvmType) -> Result<OpView, LowerError> {
    match (value.ty.spec_float_width(), ty.spec_float_width()) {
        (Some(src), Some(dst)) => Ok(
            OpView::cast(
                if src < dst {
                    CastKind::FPExt
                } else if src > dst {
                    CastKind::FPTrunc
                } else {
                    CastKind::Bitcast
                },
                value,
                ty,
            ),
        ),
        _ => Err(LowerError::FloatCast),
    }
}

/// The width of a floating-point type.
pub fn float_bit_width(ty: &LlvmType) -> (r: Result<u32, LowerError>)
    ensures
        r == match ty.spec_float_width() {
            Some(w) => Ok::<u32, LowerError>(w),
            None => Err::<u32, LowerError>(LowerError::FloatCast),
        },
{
    match ty.float_width() {
        Some(w) => Ok(w),
        None => Err(LowerError::FloatCast),
    }
}

/// Emits a change of floating-point precision.
pub fn convert_float_to_float(b: &mut Builder, value: &Value, ty: &LlvmType) -> (r: Result<
    Value,
    LowerError,
>)
    ensures
        emits(old(b)@, final(b)@, r, single(float_to_float(*value, *ty))),
{
    let src: u32 = match float_bit_width(&value.ty) {
        Ok(w) => w,
        Err(e) => {
            return Err(e);
        },
    };
    let dst: u32 = match float_bit_width(ty) {
        Ok(w) => w,
        Err(e) => {
            return Err(e);
        },
    };
    let kind = if src < dst {
        CastKind::FPExt
    } else if src > dst {
        CastKind::FPTrunc
    } else {
        CastKind::Bitcast
    };
    let r = b.cast(kind, value, ty);
    proof {
        assert(b@ =~= old(b)@ + seq![OpView::cast(kind, *value, *ty)]);
    }
    Ok(r)
}

/// The intrinsic that converts a float to an integer and saturates at the
/// bounds of the integer type.
pub open spec fn saturating_name(signed: bool, int_width: u32, float_width: u32) -> Seq<char> {
    (if signed {
        "llvm_fptosi_sat_i"@
    } else {
        "llvm_fptoui_sat_i"@
    }) + text::decimal(int_width as nat) + (if float_width == 16 {
        "_f16"@
    } else if float_width == 32 {
        "_f32"@
    } else {
        "_f64"@
    })
}

/// A saturating conversion from float to integer: the intrinsic is declared and
/// called. Signedness is that of the MIR result type.
pub open spec fn float_to_int(value: Value, mir_result: MirType, ty: LlvmType) -> Emitted {
    match mir_result {
        MirType::Integer(_, s) => match (ty.spec_int_width(), value.ty.spec_float_width()) {
            (None, _) => Err(LowerError::IntCast),
            (_, None) => Err(LowerError::FloatCast),
            (Some(iw), Some(fw)) => {
                let name = saturating_name(s == Signedness::Signed, iw, fw);
                Ok(
                    seq![
                        OpView::declare(name, seq![value.ty], ty),
                        OpView::call(name, seq![value.ty], ty, seq![value]),
                    ],
                )
            },
        },
        _ => Err(LowerError::IntCast),
    }
}

proof fn lemma_saturating_name(signed: bool, int_width: u32, float_width: u32)
    ensures
        text::is_identifier(saturating_name(signed, int_width, float_width)),
{
    reveal_strlit("llvm_fptosi_sat_i");
    reveal_strlit("llvm_fptoui_sat_i");
    reveal_strlit("_f16");
    reveal_strlit("_f32");
    reveal_strlit("_f64");
    text::lemma_decimal_chars(int_width as nat);
}

/// Emits a saturating conversion from float to integer.
pub fn convert_float_to_int(
    b: &mut Builder,
    value: &Value,
    mir_result: &MirType,
    ty: &LlvmType,
) -> (r: Result<Value, LowerError>)
    ensures
        emits(old(b)@, final(b)@, r, float_to_int(*value, *mir_result, *ty)),
{
    let signed: bool = match mir_result {
        MirType::Integer(_, s) => *s == Signedness::Signed,
        _ => {
            return Err(LowerError::IntCast);
        },
    };
    let int_width: u32 = match ty.int_width() {
        Some(w) => w,
        None => {
            return Err(LowerError::IntCast);
        },
    };
    let float_width: u32 = match float_bit_width(&value.ty) {
        Ok(w) => w,
        Err(e) => {
            return Err(e);
        },
    };
    let stem = if signed {
        "llvm_fptosi_sat_i"
    } else {
        "llvm_fptoui_sat_i"
    };
    let suffix = if float_width == 16 {
        "_f16"
    } else if float_width == 32 {
        "_f32"
    } else {
        "_f64"
    };
    let numbered = text::numbered(stem, int_width as u64);
    let name = text::joined(numbered.as_str(), suffix);
    proof {
        lemma_saturating_name(signed, int_width, float_width);
    }
    let symbol = match text::identifier(name.as_str()) {
        Some(symbol) => symbol,
        None => {
            return Err(LowerError::InvalidName);
        },
    };
    b.declare(symbol.as_str(), one_type(&value.ty), ty);
    let r = b.call(symbol.as_str(), one_type(&value.ty), ty, one_value(value));
    proof {
        let name = saturating_name(signed, int_width, float_width);
        assert(b@ =~= old(b)@ + seq![
            OpView::declare(name, seq![value.ty], *ty),
            OpView::call(name, seq![value.ty], *ty, seq![*value]),
        ]);
    }
    Ok(r)
}

/// The vector of one type.
pub(crate) fn one_type(ty: &LlvmType) -> (r: Vec<LlvmType>)
    ensures
        r@ == seq![*ty],
{
    let mut r: Vec<LlvmType> = Vec::new();
    r.push(ty.copy());
    proof {
        assert(r@ =~= seq![*ty]);
    }
    r
}

pub open spec fn larger(a: u32, b: u32) -> u32 {
    if a >= b {
        a
    } else {
        b
    }
}

/// Alignment of a type in bytes. An array aligns like its elements and a struct
/// like its most aligned field.
pub open spec fn abi_align(ty: LlvmType) -> u32
    decreases ty,
{
    match ty {
        LlvmType::Integer(w, _) => larger(1, w / 8),
        LlvmType::Half => 2,
        LlvmType::Float => 4,
        LlvmType::Double => 8,
        LlvmType::Pointer(_) => 8,
        LlvmType::Array(elem, _) => abi_align(*elem),
        LlvmType::Struct(fields, _) => max_align(*fields),
        LlvmType::OpaqueStruct(_) => 8,
        LlvmType::Void => 8,
    }
}

/// The largest alignment among fields, at least one.
pub open spec fn max_align(fields: FieldTypes) -> u32
    decreases fields,
{
    match fields {
        FieldTypes::End => 1,
        FieldTypes::Field(first, rest) => larger(abi_align(first), max_align(*rest)),
    }
}

/// Size of a type in bytes, where the bytes of its parts tile it without
/// padding and the size fits in 64 bits.
pub open spec fn byte_size(ty: LlvmType) -> Option<nat>
    decreases ty,
{
    match ty {
        LlvmType::Integer(w, _) => Some(((w + 7) / 8) as nat),
        LlvmType::Half => Some(2),
        LlvmType::Float => Some(4),
        LlvmType::Double => Some(8),
        LlvmType::Pointer(_) => Some(8),
        LlvmType::Array(elem, n) => match byte_size(*elem) {
            Some(size) => if size * n <= u64::MAX {
                Some(size * n as nat)
            } else {
                None
            },
            None => None,
        },
        LlvmType::Struct(fields, _) => match end_of_fields(*fields, 0) {
            Some(end) => if end % (max_align(*fields) as nat) == 0 {
                Some(end)
            } else {
                None
            },
            None => None,
        },
        LlvmType::OpaqueStruct(_) => None,
        LlvmType::Void => None,
    }
}

/// Where the last field ends when the first begins at `offset`, if every field
/// begins aligned where the one before it ends.
pub open spec fn end_of_fields(fields: FieldTypes, offset: nat) -> Option<nat>
    decreases fields,
{
    match fields {
        FieldTypes::End => Some(offset),
        FieldTypes::Field(first, rest) => if offset % (abi_align(first) as nat) != 0 {
            None
        } else {
            match byte_size(first) {
                Some(size) => if offset + size <= u64::MAX {
                    end_of_fields(*rest, offset + size)
                } else {
                    None
                },
                None => None,
            }
        },
    }
}

/// Alignments are positive.
pub proof fn lemma_abi_align_positive(ty: LlvmType)
    ensures
        abi_align(ty) >= 1,
    decreases ty,
{
    match ty {
        LlvmType::Array(elem, _) => lemma_abi_align_positive(*elem),
        LlvmType::Struct(fields, _) => lemma_max_align_positive(*fields),
        _ => {},
    }
}

/// The alignment of a field list is positive.
pub proof fn lemma_max_align_positive(fields: FieldTypes)
    ensures
        max_align(fields) >= 1,
    decreases fields,
{
    match fields {
        FieldTypes::Field(first, rest) => lemma_max_align_positive(*rest),
        FieldTypes::End => {},
    }
}

/// Alignment of a type in bytes.
pub fn abi_alignment_bytes(ty: &LlvmType) -> (r: u32)
    ensures
        r == abi_align(*ty),
    decreases *ty,
{
    match ty {
        LlvmType::Integer(w, _) => if *w / 8 > 1 {
            *w / 8
        } else {
            1
        },
        LlvmType::Half => 2,
        LlvmType::Float => 4,
        LlvmType::Double => 8,
        LlvmType::Pointer(_) => 8,
        LlvmType::Array(elem, _) => abi_alignment_bytes(elem),
        LlvmType::Struct(fields, _) => fields_alignment(fields),
        LlvmType::OpaqueStruct(_) => 8,
        LlvmType::Void => 8,
    }
}

fn fields_alignment(fields: &FieldTypes) -> (r: u32)
    ensures
        r == max_align(*fields),
    decreases *fields,
{
    match fields {
        FieldTypes::End => 1,
        FieldTypes::Field(first, rest) => {
            let a: u32 = abi_alignment_bytes(first);
            let m: u32 = fields_alignment(rest);
            if a >= m {
                a
            } else {
                m
            }
        },
    }
}

/// Size of a type in bytes, where it can be told without padding.
pub fn type_byte_size(ty: &LlvmType) -> (r: Option<u64>)
    ensures
        match r {
            Some(size) => byte_size(*ty) == Some(size as nat),
            None => byte_size(*ty) is None,
        },
    decreases *ty,
{
    match ty {
        LlvmType::Integer(w, _) => Some((*w as u64 + 7) / 8),
        LlvmType::Half => Some(2),
        LlvmType::Float => Some(4),
        LlvmType::Double => Some(8),
        LlvmType::Pointer(_) => Some(8),
        LlvmType::Array(elem, n) => match type_byte_size(elem) {
            Some(size) => size.checked_mul(*n),
            None => None,
        },
        LlvmType::Struct(fields, _) => {
            let align: u32 = fields_alignment(fields);
            proof {
                lemma_max_align_positive(**fields);
            }
            match fields_end(fields, 0) {
                Some(end) => if end % (align as u64) == 0 {
                    Some(end)
                } else {
                    None
                },
                None => None,
            }
        },
        LlvmType::OpaqueStruct(_) => None,
        LlvmType::Void => None,
    }
}

fn fields_end(fields: &FieldTypes, offset: u64) -> (r: Option<u64>)
    ensures
        match r {
            Some(end) => end_of_fields(*fields, offset as nat) == Some(end as nat),
            None => end_of_fields(*fields, offset as nat) is None,
        },
    decreases *fields,
{
    match fields {
        FieldTypes::End => Some(offset),
        FieldTypes::Field(first, rest) => {
            let align: u32 = abi_alignment_bytes(first);
            proof {
                lemma_abi_align_positive(*first);
            }
            if offset % (align as u64) != 0 {
                return None;
            }
            match type_byte_size(first) {
                Some(size) => match offset.checked_add(size) {
                    Some(next) => fields_end(rest, next),
                    None => None,
                },
                None => None,
            }
        },
    }
}

/// The type of the only field of a struct that has exactly one.
pub open spec fn only_field(ty: LlvmType) -> Option<LlvmType> {
    match ty {
        LlvmType::Struct(fields, _) => if fields.types().len() == 1 {
            Some(fields.types()[0])
        } else {
            None
        },
        _ => None,
    }
}

fn only_field_type(ty: &LlvmType) -> (r: Option<LlvmType>)
    ensures
        r == only_field(*ty),
{
    match ty {
        LlvmType::Struct(fields, _) => fields.single(),
        _ => None,
    }
}

/// Whether a slot of type `slot` can hold a scalar of type `scalar`: the types
/// are equal, or integers of equal width.
pub open spec fn holds_scalar(slot: LlvmType, scalar: LlvmType) -> bool {
    slot == scalar || (slot.spec_int_width() is Some && slot.spec_int_width()
        == scalar.spec_int_width())
}

/// How many single-field structs enclose the slot of `aggregate` that can hold
/// `scalar`, looking at no more than `layers` types.
pub open spec fn scalar_depth(aggregate: LlvmType, scalar: LlvmType, layers: nat) -> Option<nat>
    decreases layers,
{
    if layers == 0 {
        None
    } else if holds_scalar(aggregate, scalar) {
        Some(0)
    } else {
        match only_field(aggregate) {
            Some(inner) => match scalar_depth(inner, scalar, (layers - 1) as nat) {
                Some(d) => Some(d + 1),
                None => None,
            },
            None => None,
        }
    }
}

/// The index path through `depth` single-field structs.
pub open spec fn zeros(depth: nat) -> Seq<Index> {
    Seq::new(depth, |i: int| Index::Const(0))
}

/// The index path to the slot of `aggregate` that can hold `scalar`.
pub fn deep_scalar_index_path(aggregate: &LlvmType, scalar: &LlvmType) -> (r: Option<Vec<Index>>)
    ensures
        match r {
            Some(path) => scalar_depth(*aggregate, *scalar, MAX_NEWTYPE_DEPTH as nat) == Some(
                path@.len(),
            ) && path@ == zeros(path@.len()),
            None => scalar_depth(*aggregate, *scalar, MAX_NEWTYPE_DEPTH as nat) is None,
        },
{
    let mut path: Vec<Index> = Vec::new();
    let mut current = aggregate.copy();
    let mut left: usize = MAX_NEWTYPE_DEPTH;
    while left > 0
        invariant
            left <= MAX_NEWTYPE_DEPTH,
            path@.len() == MAX_NEWTYPE_DEPTH - left,
            path@ == zeros(path@.len()),
            match scalar_depth(current, *scalar, left as nat) {
                Some(d) => scalar_depth(*aggregate, *scalar, MAX_NEWTYPE_DEPTH as nat) == Some(
                    (path@.len() + d) as nat,
                ),
                None => scalar_depth(*aggregate, *scalar, MAX_NEWTYPE_DEPTH as nat) is None,
            },
        decreases left,
    {
        let same_width: bool = match (current.int_width(), scalar.int_width()) {
            (Some(c), Some(t)) => c == t,
            _ => false,
        };
        if current.same(scalar) || same_width {
            return Some(path);
        }
        match only_field_type(&current) {
            Some(inner) => {
                path.push(Index::Const(0));
                proof {
                    assert(path@ =~= zeros(path@.len()));
                }
                current = inner;
            },
            None => {
                return None;
            },
        }
        left = left - 1;
    }
    None
}

/// The width of the scalar that single-field structs wrap, looking at no more
/// than `layers` types: an integer, a float, or a pointer of 64 bits.
pub open spec fn wrapped_width(ty: LlvmType, layers: nat) -> Option<u32>
    decreases layers,
{
    if layers == 0 {
        None
    } else {
        match ty {
            LlvmType::Integer(w, _) => Some(w),
            LlvmType::Half => Some(16),
            LlvmType::Float => Some(32),
            LlvmType::Double => Some(64),
            LlvmType::Pointer(_) => Some(64),
            _ => match only_field(ty) {
                Some(inner) => wrapped_width(inner, (layers - 1) as nat),
                None => None,
            },
        }
    }
}

/// The width of the scalar that single-field structs wrap.
pub fn single_scalar_struct_width(ty: &LlvmType) -> (r: Option<u32>)
    ensures
        r == wrapped_width(*ty, MAX_NEWTYPE_DEPTH as nat),
{
    let mut current = ty.copy();
    let mut left: usize = MAX_NEWTYPE_DEPTH;
    while left > 0
        invariant
            wrapped_width(current, left as nat) == wrapped_width(*ty, MAX_NEWTYPE_DEPTH as nat),
        decreases left,
    {
        match &current {
            LlvmType::Integer(w, _) => {
                return Some(*w);
            },
            LlvmType::Half => {
                return Some(16);
            },
            LlvmType::Float => {
                return Some(32);
            },
            LlvmType::Double | LlvmType::Pointer(_) => {
                return Some(64);
            },
            _ => {},
        }
        match only_field_type(&current) {
            Some(inner) => {
                current = inner;
            },
            None => {
                return None;
            },
        }
        left = left - 1;
    }
    None
}

/// A round trip through a stack slot: one element, allocated for the source
/// type, stored, and loaded with the destination type. `n` operations precede.
pub open spec fn through_memory(n: nat, value: Value, ty: LlvmType, align: Option<u32>) -> Seq<
    OpView,
> {
    let one = Value::at(n, LlvmType::spec_int(64));
    let slot = Value::at(n + 1, LlvmType::Pointer(0));
    seq![
        OpView::int_of(1, 64),
        OpView::alloca(value.ty, one).aligned(align),
        OpView::store(value, slot).aligned(align),
        OpView::load(slot, ty).aligned(align),
    ]
}

fn emit_through_memory(
    b: &mut Builder,
    value: &Value,
    ty: &LlvmType,
    align: Option<u32>,
) -> (r: Value)
    ensures
        emits(
            old(b)@,
            final(b)@,
            Ok(r),
            Ok(through_memory(old(b)@.len(), *value, *ty, align)),
        ),
{
    let one = b.one();
    let slot = b.alloca(&value.ty, &one, align);
    b.store(value, &slot, align);
    let r = b.load(&slot, ty, align);
    proof {
        assert(b@ =~= old(b)@ + through_memory(old(b)@.len(), *value, *ty, align));
    }
    r
}

/// A struct that wraps one scalar is read as an integer of the same width,
/// through memory.
pub open spec fn struct_to_scalar(n: nat, value: Value, ty: LlvmType) -> Emitted {
    match ty.spec_int_width() {
        None => Err(LowerError::ExpectedInteger),
        Some(dst) => match wrapped_width(value.ty, MAX_NEWTYPE_DEPTH as nat) {
            None => Err(LowerError::NotScalarWrapper),
            Some(src) => if src != dst {
                Err(LowerError::SizeMismatch)
            } else {
                Ok(through_memory(n, value, ty, None))
            },
        },
    }
}

/// Emits the conversion of a wrapper struct to an integer.
pub fn emit_struct_to_scalar(b: &mut Builder, value: &Value, ty: &LlvmType) -> (r: Result<
    Value,
    LowerError,
>)
    ensures
        emits(old(b)@, final(b)@, r, struct_to_scalar(old(b)@.len(), *value, *ty)),
{
    let dst: u32 = match ty.int_width() {
        Some(w) => w,
        None => {
            return Err(LowerError::ExpectedInteger);
        },
    };
    match single_scalar_struct_width(&value.ty) {
        Some(src) => if src != dst {
            return Err(LowerError::SizeMismatch);
        },
        None => {
            return Err(LowerError::NotScalarWrapper);
        },
    }
    Ok(emit_through_memory(b, value, ty, None))
}

/// A transmutation between types of equal size, through a stack slot that is
/// aligned for both.
pub open spec fn transmute_via_memory(n: nat, value: Value, ty: LlvmType) -> Emitted {
    match (byte_size(value.ty), byte_size(ty)) {
        (Some(src), Some(dst)) => if src != dst {
            Err(LowerError::SizeMismatch)
        } else {
            Ok(
                through_memory(
                    n,
                    value,
                    ty,
                    Some(larger(abi_align(value.ty), abi_align(ty))),
                ),
            )
        },
        _ => Err(LowerError::UnknownSize),
    }
}

/// Emits a transmutation through memory.
pub fn emit_transmute_via_memory(b: &mut Builder, value: &Value, ty: &LlvmType) -> (r: Result<
    Value,
    LowerError,
>)
    ensures
        emits(old(b)@, final(b)@, r, transmute_via_memory(old(b)@.len(), *value, *ty)),
{
    let src: u64 = match type_byte_size(&value.ty) {
        Some(size) => size,
        None => {
            return Err(LowerError::UnknownSize);
        },
    };
    let dst: u64 = match type_byte_size(ty) {
        Some(size) => size,
        None => {
            return Err(LowerError::UnknownSize);
        },
    };
    if src != dst {
        return Err(LowerError::SizeMismatch);
    }
    let src_align: u32 = abi_alignment_bytes(&value.ty);
    let dst_align: u32 = abi_alignment_bytes(ty);
    let align: u32 = if src_align >= dst_align {
        src_align
    } else {
        dst_align
    };
    Ok(emit_through_memory(b, value, ty, Some(align)))
}

/// The discriminants of an enum type.
pub open spec fn enum_discriminants(ty: MirType) -> Option<Seq<u64>> {
    match ty {
        MirType::Enum(e) => Some(e.variant_discriminants@),
        _ => None,
    }
}

/// What the scalar is compared with: the niche bit pattern, as an integer of
/// the scalar's type or as a pointer made from a 64-bit integer.
pub open spec fn niche_pattern(n: nat, ty: LlvmType, niche: NicheEncoding) -> Seq<OpView> {
    match ty {
        LlvmType::Integer(w, s) => seq![
            OpView::signed_constant(IntConst::of_int(signed64(niche.niche_start), w), s),
        ],
        _ => seq![
            OpView::int_of(signed64(niche.niche_start), 64),
            OpView::cast(CastKind::IntToPtr, Value::at(n, LlvmType::spec_int(64)), ty),
        ],
    }
}

/// A pair of discriminant and payload rebuilt from the scalar that encodes it.
/// The scalar equals the niche pattern exactly in the niche variant; the tag is
/// the declared discriminant of the variant.
pub open spec fn rebuilt_enum(
    n: nat,
    value: Value,
    ty: LlvmType,
    niche: NicheEncoding,
    discriminants: (u64, u64),
    tag: (u32, Signedness),
    depth: nat,
) -> Seq<OpView> {
    let tag_ty = LlvmType::Integer(tag.0, tag.1);
    let pattern = niche_pattern(n, value.ty, niche);
    let m = (n + pattern.len()) as nat;
    let is_niche = Value::at(m, LlvmType::spec_bool());
    let niche_tag = Value::at(m + 1, tag_ty);
    let untagged_tag = Value::at(m + 2, tag_ty);
    let selected = Value::at(m + 3, tag_ty);
    let empty = Value::at(m + 4, ty);
    let tagged = Value::at(m + 5, ty);
    pattern + seq![
        OpView::int_compare(IntPredicate::EQ, value, Value::at((m - 1) as nat, value.ty)),
        OpView::signed_constant(IntConst::of_int(signed64(discriminants.0), tag.0), tag.1),
        OpView::signed_constant(IntConst::of_int(signed64(discriminants.1), tag.0), tag.1),
        OpView::select(is_niche, niche_tag, untagged_tag),
        OpView::undef(ty),
        OpView::insert(empty, selected, 0),
        OpView::indexed(
            OpCode::InsertValue,
            ty,
            seq![tagged, value],
            seq![Index::Const(1)] + zeros(depth),
        ),
    ]
}

/// The conversion of a scalar to the niched enum that it encodes.
pub open spec fn scalar_to_niched_enum(
    n: nat,
    value: Value,
    mir_result: MirType,
    ty: LlvmType,
    niche: NicheEncoding,
) -> Emitted {
    match ty {
        LlvmType::Struct(fields, _) => if fields.types().len() != 2 {
            Err(LowerError::NicheShape)
        } else {
            match enum_discriminants(mir_result) {
                None => Err(LowerError::NicheResult),
                Some(ds) => if niche.niche_variant_idx >= ds.len() || niche.untagged_variant_idx
                    >= ds.len() {
                    Err(LowerError::NoDiscriminant)
                } else if value.ty.spec_int_width() == Some(0u32) {
                    Err(LowerError::IntConstant)
                } else {
                    match fields.types()[0] {
                        LlvmType::Integer(w, s) => if w == 0 {
                            Err(LowerError::IntConstant)
                        } else {
                            match scalar_depth(
                                fields.types()[1],
                                value.ty,
                                MAX_NEWTYPE_DEPTH as nat,
                            ) {
                                None => Err(LowerError::NoScalarSlot),
                                Some(depth) => Ok(
                                    rebuilt_enum(
                                        n,
                                        value,
                                        ty,
                                        niche,
                                        (
                                            ds[niche.niche_variant_idx as int],
                                            ds[niche.untagged_variant_idx as int],
                                        ),
                                        (w, s),
                                        depth,
                                    ),
                                ),
                            }
                        },
                        _ => Err(LowerError::IntConstant),
                    }
                },
            }
        },
        _ => Err(LowerError::NicheShape),
    }
}

/// Emits the niche pattern in the type of the scalar.
fn emit_niche_pattern(b: &mut Builder, ty: &LlvmType, niche: NicheEncoding) -> (r: Value)
    requires
        ty is Integer || ty is Pointer,
        ty.spec_int_width() != Some(0u32),
    ensures
        final(b)@ == old(b)@ + niche_pattern(old(b)@.len(), *ty, niche),
        r == Value::at(
            (old(b)@.len() + niche_pattern(old(b)@.len(), *ty, niche).len() - 1) as nat,
            *ty,
        ),
{
    let start: i64 = to_signed(niche.niche_start);
    match ty {
        LlvmType::Integer(w, s) => {
            let r = b.signed_constant(IntConst::from_i64(start, *w), *s);
            proof {
                assert(b@ =~= old(b)@ + niche_pattern(old(b)@.len(), *ty, niche));
            }
            r
        },
        _ => {
            let bits = b.constant(IntConst::from_i64(start, 64));
            let r = b.cast(CastKind::IntToPtr, &bits, ty);
            proof {
                assert(b@ =~= old(b)@ + niche_pattern(old(b)@.len(), *ty, niche));
            }
            r
        },
    }
}

/// Emits the conversion of a scalar to the niched enum that it encodes.
pub fn emit_scalar_to_niched_enum(
    b: &mut Builder,
    value: &Value,
    mir_result: &MirType,
    ty: &LlvmType,
    niche: NicheEncoding,
) -> (r: Result<Value, LowerError>)
    requires
        value.ty is Integer || value.ty is Pointer,
    ensures
        emits(
            old(b)@,
            final(b)@,
            r,
            scalar_to_niched_enum(old(b)@.len(), *value, *mir_result, *ty, niche),
        ),
{
    let (tag_ty, payload_ty) = match ty {
        LlvmType::Struct(fields, _) => match fields.pair() {
            Some(pair) => pair,
            None => {
                return Err(LowerError::NicheShape);
            },
        },
        _ => {
            return Err(LowerError::NicheShape);
        },
    };
    let (niche_value, untagged_value): (u64, u64) = match mir_result {
        MirType::Enum(e) => {
            let ds = &e.variant_discriminants;
            let niche_idx: usize = niche.niche_variant_idx as usize;
            let untagged_idx: usize = niche.untagged_variant_idx as usize;
            if niche_idx >= ds.len() || untagged_idx >= ds.len() {
                return Err(LowerError::NoDiscriminant);
            }
            (ds[niche_idx], ds[untagged_idx])
        },
        _ => {
            return Err(LowerError::NicheResult);
        },
    };
    if let Some(w) = value.ty.int_width() {
        if w == 0 {
            return Err(LowerError::IntConstant);
        }
    }
    let (tag_width, tag_sign): (u32, Signedness) = match tag_ty {
        LlvmType::Integer(w, s) => (w, s),
        _ => {
            return Err(LowerError::IntConstant);
        },
    };
    if tag_width == 0 {
        return Err(LowerError::IntConstant);
    }
    let mut rest = match deep_scalar_index_path(&payload_ty, &value.ty) {
        Some(path) => path,
        None => {
            return Err(LowerError::NoScalarSlot);
        },
    };
    let ghost depth = rest@.len();
    let pattern = emit_niche_pattern(b, &value.ty, niche);
    let is_niche = b.int_compare(IntPredicate::EQ, value, &pattern);
    let niche_tag = b.signed_constant(
        IntConst::from_i64(to_signed(niche_value), tag_width),
        tag_sign,
    );
    let untagged_tag = b.signed_constant(
        IntConst::from_i64(to_signed(untagged_value), tag_width),
        tag_sign,
    );
    let selected = b.select(&is_niche, &niche_tag, &untagged_tag);
    let empty = b.undef(ty);
    let tagged = b.insert(&empty, &selected, 0);
    let mut path: Vec<Index> = crate::ops::one_index(1);
    path.append(&mut rest);
    let r = b.insert_at(&tagged, value, path);
    proof {
        assert(b@ =~= old(b)@ + rebuilt_enum(
            old(b)@.len(),
            *value,
            *ty,
            niche,
            (niche_value, untagged_value),
            (tag_width, tag_sign),
            depth,
        ));
    }
    Ok(r)
}

/// A cast between pointer-like types, by the shapes of source and destination.
pub open spec fn pointer_cast(
    n: nat,
    value: Value,
    niche: Option<NicheEncoding>,
    mir_result: MirType,
    ty: LlvmType,
) -> Emitted {
    let src = value.ty;
    if ty.spec_is_struct() && niche is Some && (src is Integer || src is Pointer) {
        scalar_to_niched_enum(n, value, mir_result, ty, niche.unwrap())
    } else if src.spec_is_struct() && ty is Pointer {
        match src.spec_member(0) {
            Some(member) => Ok(seq![OpView::extract(value, 0, member)]),
            None => Err(LowerError::NoSuchMember),
        }
    } else if src is Pointer && ty.spec_is_struct() {
        Ok(seq![OpView::undef(ty), OpView::insert(Value::at(n, ty), value, 0)])
    } else if src is Pointer && ty is Integer {
        Ok(seq![OpView::cast(CastKind::PtrToInt, value, ty)])
    } else if src is Integer && ty is Pointer {
        Ok(seq![OpView::cast(CastKind::IntToPtr, value, ty)])
    } else if src.spec_is_struct() && ty.spec_is_struct() {
        Ok(through_memory(n, value, ty, None))
    } else if src is Pointer && ty is Pointer {
        Ok(
            seq![
                OpView::cast(
                    if src != ty {
                        CastKind::AddrSpaceCast
                    } else {
                        CastKind::Bitcast
                    },
                    value,
                    ty,
                ),
            ],
        )
    } else if src is Integer && ty.spec_is_struct() {
        Err(LowerError::ScalarToAggregate)
    } else if src.spec_is_struct() && ty is Integer {
        struct_to_scalar(n, value, ty)
    } else if src is Array || ty is Array {
        transmute_via_memory(n, value, ty)
    } else {
        Ok(seq![OpView::cast(CastKind::Bitcast, value, ty)])
    }
}

fn emit_single_cast(b: &mut Builder, kind: CastKind, value: &Value, ty: &LlvmType) -> (r: Value)
    ensures
        emits(old(b)@, final(b)@, Ok(r), Ok(seq![OpView::cast(kind, *value, *ty)])),
{
    let r = b.cast(kind, value, ty);
    proof {
        assert(b@ =~= old(b)@ + seq![OpView::cast(kind, *value, *ty)]);
    }
    r
}

/// Emits a cast between pointer-like types.
pub fn emit_pointer_cast(
    b: &mut Builder,
    value: &Value,
    niche: Option<NicheEncoding>,
    mir_result: &MirType,
    ty: &LlvmType,
) -> (r: Result<Value, LowerError>)
    ensures
        emits(
            old(b)@,
            final(b)@,
            r,
            pointer_cast(old(b)@.len(), *value, niche, *mir_result, *ty),
        ),
{
    let src_is_struct = value.ty.is_struct();
    let dst_is_struct = ty.is_struct();
    let src_as = value.ty.addrspace();
    let dst_as = ty.addrspace();
    let src_is_ptr = src_as.is_some();
    let dst_is_ptr = dst_as.is_some();
    let src_is_int = value.ty.int_width().is_some();
    let dst_is_int = ty.int_width().is_some();
    if dst_is_struct && (src_is_int || src_is_ptr) {
        if let Some(encoding) = niche {
            return emit_scalar_to_niched_enum(b, value, mir_result, ty, encoding);
        }
    }
    if src_is_struct && dst_is_ptr {
        match value.ty.member(0) {
            Some(member) => {
                let r = b.extract(value, 0, member);
                proof {
                    assert(b@ =~= old(b)@ + seq![OpView::extract(*value, 0, member)]);
                }
                Ok(r)
            },
            None => Err(LowerError::NoSuchMember),
        }
    } else if src_is_ptr && dst_is_struct {
        let empty = b.undef(ty);
        let r = b.insert(&empty, value, 0);
        proof {
            assert(b@ =~= old(b)@ + seq![
                OpView::undef(*ty),
                OpView::insert(Value::at(old(b)@.len(), *ty), *value, 0),
            ]);
        }
        Ok(r)
    } else if src_is_ptr && dst_is_int {
        Ok(emit_single_cast(b, CastKind::PtrToInt, value, ty))
    } else if src_is_int && dst_is_ptr {
        Ok(emit_single_cast(b, CastKind::IntToPtr, value, ty))
    } else if src_is_struct && dst_is_struct {
        Ok(emit_through_memory(b, value, ty, None))
    } else if src_is_ptr && dst_is_ptr {
        if src_as != dst_as {
            Ok(emit_single_cast(b, CastKind::AddrSpaceCast, value, ty))
        } else {
            Ok(emit_single_cast(b, CastKind::Bitcast, value, ty))
        }
    } else if src_is_int && dst_is_struct {
        Err(LowerError::ScalarToAggregate)
    } else if src_is_struct && dst_is_int {
        emit_struct_to_scalar(b, value, ty)
    } else if value.ty.is_array() || ty.is_array() {
        emit_transmute_via_memory(b, value, ty)
    } else {
        Ok(emit_single_cast(b, CastKind::Bitcast, value, ty))
    }
}

/// The length of the array that a pointer to an array, or to a struct whose
/// last field in memory is an array, loses when it is unsized.
pub open spec fn unsized_length(ty: MirType) -> Option<u64> {
    match ty {
        MirType::Pointer(pointee, _, _) => match *pointee {
            MirType::Array(_, n) => Some(n),
            MirType::Struct(_, _, types, layout) => {
                let last: int = if layout.mem_to_decl@.len() > 0 {
                    layout.mem_to_decl@.last() as int
                } else {
                    types@.len() - 1
                };
                if 0 <= last < types@.len() {
                    match types@[last] {
                        MirType::Array(_, n) => Some(n),
                        _ => None,
                    }
                } else {
                    None
                }
            },
            _ => None,
        },
        _ => None,
    }
}

fn unsized_array_length(ty: &MirType) -> (r: Option<u64>)
    ensures
        r == unsized_length(*ty),
{
    if let MirType::Pointer(pointee, _, _) = ty {
        match &**pointee {
            MirType::Array(_, n) => {
                return Some(*n);
            },
            MirType::Struct(_, _, types, layout) => {
                let order = &layout.mem_to_decl;
                if order.len() == 0 && types.len() == 0 {
                    return None;
                }
                let last: usize = if order.len() > 0 {
                    order[order.len() - 1]
                } else {
                    types.len() - 1
                };
                if last < types.len() {
                    if let MirType::Array(_, n) = &types[last] {
                        return Some(*n);
                    }
                }
                return None;
            },
            _ => {
                return None;
            },
        }
    }
    None
}

/// An unsizing coercion: a fat pointer of data pointer and array length, or
/// the plain pointer cast where there is no array or no fat pointer.
pub open spec fn unsize_cast(
    n: nat,
    operand: Operand,
    niche: Option<NicheEncoding>,
    mir_result: MirType,
    ty: LlvmType,
) -> Emitted {
    let length = if operand.history@.len() > 0 {
        unsized_length(operand.history@.last())
    } else {
        None
    };
    match length {
        Some(len) if ty.spec_is_struct() => Ok(
            seq![
                OpView::undef(ty),
                OpView::insert(Value::at(n, ty), operand.value, 0),
                OpView::int_of(len as int, 64),
                OpView::insert(Value::at(n + 1, ty), Value::at(n + 2, LlvmType::spec_int(64)), 1),
            ],
        ),
        _ => pointer_cast(n, operand.value, niche, mir_result, ty),
    }
}

/// Emits an unsizing coercion.
pub fn emit_unsize_cast(
    b: &mut Builder,
    operand: &Operand,
    niche: Option<NicheEncoding>,
    mir_result: &MirType,
    ty: &LlvmType,
) -> (r: Result<Value, LowerError>)
    ensures
        emits(
            old(b)@,
            final(b)@,
            r,
            unsize_cast(old(b)@.len(), *operand, niche, *mir_result, *ty),
        ),
{
    let length: Option<u64> = if operand.history.len() > 0 {
        unsized_array_length(&operand.history[operand.history.len() - 1])
    } else {
        None
    };
    if let Some(len) = length {
        if ty.is_struct() {
            let empty = b.undef(ty);
            let with_ptr = b.insert(&empty, &operand.value, 0);
            let count = b.constant(IntConst::from_u64(len, 64));
            let r = b.insert(&with_ptr, &count, 1);
            proof {
                let n = old(b)@.len();
                assert(b@ =~= old(b)@ + seq![
                    OpView::undef(*ty),
                    OpView::insert(Value::at(n, *ty), operand.value, 0),
                    OpView::int_of(len as int, 64),
                    OpView::insert(
                        Value::at(n + 1, *ty),
                        Value::at(n + 2, LlvmType::spec_int(64)),
                        1,
                    ),
                ]);
            }
            return Ok(r);
        }
    }
    emit_pointer_cast(b, &operand.value, niche, mir_result, ty)
}

/// What a MIR cast is lowered to.
pub open spec fn cast_ops(
    n: nat,
    operand: Operand,
    kind: MirCastKind,
    niche: Option<NicheEncoding>,
    mir_result: MirType,
    ty: LlvmType,
) -> Emitted {
    match kind {
        MirCastKind::IntToInt => single(int_to_int(operand, ty)),
        MirCastKind::IntToFloat => single(int_to_float(operand, ty)),
        MirCastKind::FloatToInt => float_to_int(operand.value, mir_result, ty),
        MirCastKind::FloatToFloat => single(float_to_float(operand.value, ty)),
        MirCastKind::PointerCoercionUnsize => unsize_cast(n, operand, niche, mir_result, ty),
        MirCastKind::PointerExposeAddress => Ok(
            seq![OpView::cast(CastKind::PtrToInt, operand.value, ty)],
        ),
        MirCastKind::PointerWithExposedProvenance => Ok(
            seq![OpView::cast(CastKind::IntToPtr, operand.value, ty)],
        ),
        _ => pointer_cast(n, operand.value, niche, mir_result, ty),
    }
}

/// Lowers a MIR cast. `mir_result` is the MIR type of the result and `ty` the
/// LLVM type that it converts to.
pub fn convert(
    b: &mut Builder,
    operands: &Vec<Operand>,
    kind: Option<MirCastKind>,
    niche: Option<NicheEncoding>,
    mir_result: &MirType,
    ty: &LlvmType,
) -> (r: Result<Value, LowerError>)
    ensures
        emits(
            old(b)@,
            final(b)@,
            r,
            if operands@.len() != 1 {
                Err(LowerError::OperandCount)
            } else if kind is None {
                Err(LowerError::CastKindMissing)
            } else {
                cast_ops(old(b)@.len(), operands@[0], kind.unwrap(), niche, *mir_result, *ty)
            },
        ),
{
    if operands.len() != 1 {
        return Err(LowerError::OperandCount);
    }
    let operand = &operands[0];
    let kind = match kind {
        Some(kind) => kind,
        None => {
            return Err(LowerError::CastKindMissing);
        },
    };
    match kind {
        MirCastKind::IntToInt => convert_int_to_int(b, operand, ty),
        MirCastKind::IntToFloat => convert_int_to_float(b, operand, ty),
        MirCastKind::FloatToInt => convert_float_to_int(b, &operand.value, mir_result, ty),
        MirCastKind::FloatToFloat => convert_float_to_float(b, &operand.value, ty),
        MirCastKind::PointerCoercionUnsize => emit_unsize_cast(
            b,
            operand,
            niche,
            mir_result,
            ty,
        ),
        MirCastKind::PointerExposeAddress => Ok(
            emit_single_cast(b, CastKind::PtrToInt, &operand.value, ty),
        ),
        MirCastKind::PointerWithExposedProvenance => Ok(
            emit_single_cast(b, CastKind::IntToPtr, &operand.value, ty),
        ),
        _ => emit_pointer_cast(b, &operand.value, niche, mir_result, ty),
    }
}

} // verus!
