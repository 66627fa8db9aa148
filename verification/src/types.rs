//! Translation of Rust types to MIR types.

use crate::llvm::Signedness;
use crate::mir::{EnumType, EnumVariant, Layout, LayoutModel, MirType, TypeModel, VariantModel};
use crate::rust_types::{
    Adt, ArrayLen, Closure, Field, FloatTy, GenericArg, IntTy, RustType, Shape, UintTy, Variant,
    VariantsShape,
};
use crate::text;
use vstd::prelude::*;

verus! {

/// Why a type has no translation.
#[derive(Clone, Copy, PartialEq, Eq, Structural, Debug)]
pub enum TranslateError {
    /// Quad precision is not supported.
    F128,
    /// An array length of fewer than eight bytes.
    ArrayLengthSize,
    /// An array length that is not a value constant.
    ArrayLengthNotValue,
    /// `DisjointSlice` or `SharedArray` without a type argument.
    MissingElementType,
    /// The layout of an enum cannot be computed.
    EnumLayout,
    /// A direct tag that is not an integer.
    TagNotInteger,
    /// The layout does not place the tag.
    TagOffset,
    /// A discriminant of more than 64 bits.
    DiscriminantTooWide,
    /// The layout does not place the fields of a variant.
    VariantOffsets,
    /// An associated type that is not resolved.
    Alias,
    /// A type with no counterpart.
    Unsupported,
    /// The place of a call's result has no type.
    Destination,
}

pub type TypeResult = Result<TypeModel, TranslateError>;

pub open spec fn int_bits(t: IntTy) -> u32 {
    match t {
        IntTy::I8 => 8,
        IntTy::I16 => 16,
        IntTy::I32 => 32,
        IntTy::I64 => 64,
        IntTy::I128 => 128,
        IntTy::Isize => 64,
    }
}

pub open spec fn uint_bits(t: UintTy) -> u32 {
    match t {
        UintTy::U8 => 8,
        UintTy::U16 => 16,
        UintTy::U32 => 32,
        UintTy::U64 => 64,
        UintTy::U128 => 128,
        UintTy::Usize => 64,
    }
}

pub open spec fn unsigned(bits: u32) -> TypeModel {
    TypeModel::Integer(bits, Signedness::Unsigned)
}

/// The empty tuple.
pub open spec fn unit_model() -> TypeModel {
    TypeModel::Tuple(Seq::empty(), LayoutModel::unknown())
}

/// A struct without fields and without a known layout.
pub open spec fn marker_model(name: Seq<char>) -> TypeModel {
    TypeModel::Struct(name, Seq::empty(), Seq::empty(), LayoutModel::unknown())
}

/// The slice type whose elements are `t`, or the error in place of `t`.
pub open spec fn slice_of(t: TypeResult) -> TypeResult {
    match t {
        Ok(m) => Ok(TypeModel::Slice(Box::new(m))),
        Err(e) => Err(e),
    }
}

/// A pointer to `t`, or the error in place of `t`.
pub open spec fn pointer_to(t: TypeResult, mutable: bool, addrspace: u32) -> TypeResult {
    match t {
        Ok(m) => Ok(TypeModel::Pointer(Box::new(m), mutable, addrspace)),
        Err(e) => Err(e),
    }
}

/// The number that the first `n` little-endian bytes hold, uninitialised bytes
/// counting as zero.
pub open spec fn le_value(bytes: Seq<Option<u8>>, n: nat) -> nat
    decreases n,
{
    if n == 0 {
        0
    } else {
        le_value(bytes, (n - 1) as nat) + (match bytes[n - 1] {
            Some(b) => b as nat,
            None => 0,
        }) * vstd::arithmetic::power2::pow2(8 * (n - 1) as nat)
    }
}

/// The length of an array type, where it is a constant of at least eight bytes.
pub open spec fn array_length(len: ArrayLen) -> Result<u64, TranslateError> {
    match len {
        ArrayLen::Bytes(bytes) => if bytes@.len() >= 8 {
            Ok(le_value(bytes@, 8) as u64)
        } else {
            Err(TranslateError::ArrayLengthSize)
        },
        ArrayLen::Unevaluated => Err(TranslateError::ArrayLengthNotValue),
    }
}

/// The layout that a shape records for a struct; unknown where there is none.
pub open spec fn struct_layout(shape: Option<Shape>) -> LayoutModel {
    match shape {
        Some(s) => LayoutModel {
            mem_to_decl: s.memory_order@,
            field_offsets: match s.offsets {
                Some(o) => o@,
                None => Seq::empty(),
            },
            total_size: s.size,
            abi_align: s.abi_align,
        },
        None => LayoutModel::unknown(),
    }
}

pub open spec fn field_names(fields: Seq<Field>) -> Seq<Seq<char>> {
    Seq::new(fields.len(), |i: int| fields[i].name@)
}

/// The names of `n` captured variables.
pub open spec fn capture_names(n: nat) -> Seq<Seq<char>> {
    Seq::new(n, |i: int| "capture_"@ + text::decimal(i as nat))
}

/// The width of a tag that numbers `n` variants.
pub open spec fn variant_count_bits(n: nat) -> u32 {
    if n <= 256 {
        8
    } else if n <= 65536 {
        16
    } else {
        32
    }
}

/// Tag type, tag offset, size and alignment of an enum.
pub struct TagModel {
    pub tag: TypeModel,
    pub tag_offset: u64,
    pub total_size: u64,
    pub abi_align: u64,
}

/// The tag of an enum. Only a direct tag comes from the layout; otherwise an
/// explicit tag numbers the variants and the layout stays unrecorded.
pub open spec fn tag_model(shape: Shape, variants: nat) -> Result<TagModel, TranslateError> {
    match shape.variants {
        VariantsShape::Direct { tag, tag_offset } => match tag {
            None => Err(TranslateError::TagNotInteger),
            Some((bits, signed)) => match tag_offset {
                None => Err(TranslateError::TagOffset),
                Some(offset) => Ok(
                    TagModel {
                        tag: TypeModel::Integer(
                            bits,
                            if signed {
                                Signedness::Signed
                            } else {
                                Signedness::Unsigned
                            },
                        ),
                        tag_offset: offset,
                        total_size: shape.size,
                        abi_align: shape.abi_align,
                    },
                ),
            },
        },
        _ => Ok(
            TagModel {
                tag: unsigned(variant_count_bits(variants)),
                tag_offset: 0,
                total_size: 0,
                abi_align: 0,
            },
        ),
    }
}

/// The declared discriminants, if all of them fit in 64 bits.
pub open spec fn discriminants(variants: Seq<Variant>) -> Result<Seq<u64>, TranslateError> {
    if forall|i: int|
        0 <= i < variants.len() ==> (#[trigger] variants[i]).discriminant <= u64::MAX {
        Ok(Seq::new(variants.len(), |i: int| variants[i].discriminant as u64))
    } else {
        Err(TranslateError::DiscriminantTooWide)
    }
}

/// The element type of a struct whose last field is, at any depth of nesting, a
/// slice.
pub open spec fn slice_tail(ty: RustType) -> Option<RustType>
    decreases ty,
{
    match ty {
        RustType::Adt(a) => if a.variants@.len() == 1 && a.variants@[0].fields@.len() > 0 {
            let fields = a.variants@[0].fields@;
            match fields[fields.len() - 1].ty {
                RustType::Slice(e) => Some(*e),
                RustType::Adt(_) => slice_tail(fields[fields.len() - 1].ty),
                _ => None,
            }
        } else {
            None
        },
        _ => None,
    }
}

/// The translation of the first type argument, if there is one.
pub open spec fn first_type_arg(args: Seq<GenericArg>, from: nat) -> Option<TypeResult>
    decreases args, args.len() - from,
{
    if from >= args.len() {
        None
    } else {
        match args[from as int] {
            GenericArg::Type(t) => Some(translated(t)),
            GenericArg::Other => first_type_arg(args, from + 1),
        }
    }
}

/// The translation of the first type argument, or the error that there is none.
pub open spec fn element_type(args: Seq<GenericArg>) -> TypeResult
    decreases args, args.len() + 1,
{
    match first_type_arg(args, 0) {
        Some(r) => r,
        None => Err(TranslateError::MissingElementType),
    }
}

/// The translations of the first `n` types, or the first error among them.
pub open spec fn translated_types(types: Seq<RustType>, n: nat) -> Result<
    Seq<TypeModel>,
    TranslateError,
>
    decreases types, n,
{
    if n == 0 || n > types.len() {
        Ok(Seq::empty())
    } else {
        match translated_types(types, (n - 1) as nat) {
            Err(e) => Err(e),
            Ok(done) => match translated(types[n - 1]) {
                Err(e) => Err(e),
                Ok(t) => Ok(done.push(t)),
            },
        }
    }
}

/// The translations of the first `n` struct fields. An unsized tail is recorded
/// by its element type.
pub open spec fn translated_struct_fields(fields: Seq<Field>, n: nat) -> Result<
    Seq<TypeModel>,
    TranslateError,
>
    decreases fields, n,
{
    if n == 0 || n > fields.len() {
        Ok(Seq::empty())
    } else {
        match translated_struct_fields(fields, (n - 1) as nat) {
            Err(e) => Err(e),
            Ok(done) => match (match fields[n - 1].ty {
                RustType::Slice(elem) => translated(*elem),
                _ => translated(fields[n - 1].ty),
            }) {
                Err(e) => Err(e),
                Ok(t) => Ok(done.push(t)),
            },
        }
    }
}

/// The translations of the first `n` fields of an enum variant.
pub open spec fn translated_fields(fields: Seq<Field>, n: nat) -> Result<
    Seq<TypeModel>,
    TranslateError,
>
    decreases fields, n,
{
    if n == 0 || n > fields.len() {
        Ok(Seq::empty())
    } else {
        match translated_fields(fields, (n - 1) as nat) {
            Err(e) => Err(e),
            Ok(done) => match translated(fields[n - 1].ty) {
                Err(e) => Err(e),
                Ok(t) => Ok(done.push(t)),
            },
        }
    }
}

/// The byte offsets recorded for the fields of variant `i`.
pub open spec fn offsets_of_variant(offsets: Seq<Option<Vec<u64>>>, i: int) -> Option<Seq<u64>> {
    if 0 <= i < offsets.len() {
        match offsets[i] {
            Some(o) => Some(o@),
            None => None,
        }
    } else {
        None
    }
}

/// The first `n` variants, with field offsets where the layout is recorded.
pub open spec fn translated_variants(
    variants: Seq<Variant>,
    offsets: Seq<Option<Vec<u64>>>,
    recorded: bool,
    n: nat,
) -> Result<Seq<VariantModel>, TranslateError>
    decreases variants, n,
{
    if n == 0 || n > variants.len() {
        Ok(Seq::empty())
    } else {
        let v = variants[n - 1];
        match translated_variants(variants, offsets, recorded, (n - 1) as nat) {
            Err(e) => Err(e),
            Ok(done) => match translated_fields(v.fields@, v.fields@.len()) {
                Err(e) => Err(e),
                Ok(types) => if recorded {
                    match offsets_of_variant(offsets, n - 1) {
                        None => Err(TranslateError::VariantOffsets),
                        Some(o) => Ok(
                            done.push(
                                VariantModel {
                                    name: v.name@,
                                    field_types: types,
                                    field_offsets: o,
                                },
                            ),
                        ),
                    }
                } else {
                    Ok(
                        done.push(
                            VariantModel {
                                name: v.name@,
                                field_types: types,
                                field_offsets: Seq::empty(),
                            },
                        ),
                    )
                },
            },
        }
    }
}

/// The translation of a pointer or reference to `pointee`.
pub open spec fn translated_pointer(pointee: RustType, mutable: bool) -> TypeResult
    decreases pointee, 1nat,
{
    match pointee {
        RustType::Slice(elem) => slice_of(translated(*elem)),
        RustType::Str => Ok(TypeModel::Slice(Box::new(unsigned(8)))),
        RustType::Adt(a) => if a.name@ == "SharedArray"@ {
            pointer_to(element_type(a.args@), mutable, 3)
        } else if a.name@ == "Barrier"@ {
            Ok(TypeModel::Pointer(Box::new(unsigned(64)), mutable, 3))
        } else if slice_tail(pointee) is Some {
            slice_of(translated(pointee))
        } else {
            pointer_to(translated(pointee), mutable, 0)
        },
        _ => pointer_to(translated(pointee), mutable, 0),
    }
}

/// The types of captured variables, from the generic arguments of a closure.
pub open spec fn captured(args: Seq<GenericArg>) -> Option<Seq<RustType>> {
    if args.len() >= 3 {
        match args[2] {
            GenericArg::Type(RustType::Tuple(types)) => Some(types@),
            _ => None,
        }
    } else {
        None
    }
}

/// The translation of a user-defined struct or enum.
pub open spec fn translated_adt(a: Adt) -> TypeResult
    decreases a, 0nat,
{
    if a.variants@.len() == 1 {
        let fields = a.variants@[0].fields@;
        match translated_struct_fields(fields, fields.len()) {
            Err(e) => Err(e),
            Ok(types) => Ok(
                TypeModel::Struct(a.name@, field_names(fields), types, struct_layout(a.layout)),
            ),
        }
    } else {
        match a.layout {
            None => Err(TranslateError::EnumLayout),
            Some(shape) => match tag_model(shape, a.variants@.len()) {
                Err(e) => Err(e),
                Ok(tag) => match discriminants(a.variants@) {
                    Err(e) => Err(e),
                    Ok(values) => match translated_variants(
                        a.variants@,
                        shape.variant_offsets@,
                        tag.total_size > 0,
                        a.variants@.len(),
                    ) {
                        Err(e) => Err(e),
                        Ok(variants) => Ok(
                            TypeModel::Enum {
                                name: a.name@,
                                discriminant: Box::new(tag.tag),
                                variant_discriminants: values,
                                variants,
                                tag_offset: tag.tag_offset,
                                total_size: tag.total_size,
                                abi_align: tag.abi_align,
                            },
                        ),
                    },
                },
            },
        }
    }
}

/// The return type of a callable type.
pub open spec fn translated_output(ty: RustType) -> Option<TypeResult>
    decreases ty, 1nat,
{
    match ty {
        RustType::Closure(c) => Some(translated(c.output)),
        RustType::FnPtr(output) => Some(translated(*output)),
        RustType::FnDef(_, output) => Some(translated(*output)),
        _ => None,
    }
}

/// The translation of an associated type: the output of a callable, or of
/// indexing a shared array.
pub open spec fn translated_projection(def: Seq<char>, args: Seq<GenericArg>) -> TypeResult
    decreases args, args.len() + 2,
{
    let output = text::spec_contains(def, "Output"@);
    if args.len() > 0 {
        match args[0] {
            GenericArg::Type(t) => if text::spec_contains(def, "Fn"@) && output
                && translated_output(t) is Some {
                translated_output(t).unwrap()
            } else if text::spec_contains(def, "Index"@) && output {
                match t {
                    RustType::Adt(a) => if a.name@ == "SharedArray"@ {
                        element_type(a.args@)
                    } else {
                        Err(TranslateError::Alias)
                    },
                    _ => Err(TranslateError::Alias),
                }
            } else {
                Err(TranslateError::Alias)
            },
            GenericArg::Other => Err(TranslateError::Alias),
        }
    } else {
        Err(TranslateError::Alias)
    }
}

/// The translation of a struct, union or enum. Some device types have a
/// translation of their own.
pub open spec fn translated_named(a: Adt) -> TypeResult
    decreases a, 1nat,
{
    if a.name@ == "DisjointSlice"@ {
        match element_type(a.args@) {
            Ok(t) => Ok(TypeModel::DisjointSlice(Box::new(t), Seq::empty())),
            Err(e) => Err(e),
        }
    } else if a.name@ == "ThreadIndex"@ {
        Ok(unsigned(64))
    } else if a.name@ == "SharedArray"@ {
        Ok(unit_model())
    } else if a.name@ == "Barrier"@ {
        Ok(unsigned(64))
    } else if a.name@ == "TmaDescriptor"@ {
        Ok(TypeModel::RawArray(Box::new(unsigned(64)), 16))
    } else {
        translated_adt(a)
    }
}

/// The translation of a closure: the struct of the variables it captures.
pub open spec fn translated_closure(c: Closure) -> TypeResult
    decreases c, 0nat,
{
    if captured(c.args@) is Some {
        match c.args@[2] {
            GenericArg::Type(RustType::Tuple(types)) => match translated_types(
                types@,
                types@.len(),
            ) {
                Err(e) => Err(e),
                Ok(done) => Ok(
                    TypeModel::Struct(
                        c.name@,
                        capture_names(types@.len()),
                        done,
                        struct_layout(c.layout),
                    ),
                ),
            },
            _ => Err(TranslateError::Unsupported),
        }
    } else {
        Ok(TypeModel::Struct(c.name@, Seq::empty(), Seq::empty(), struct_layout(c.layout)))
    }
}

/// The MIR type that stands for a Rust type.
pub open spec fn translated(ty: RustType) -> TypeResult
    decreases ty, 0nat,
{
    match ty {
        RustType::Int(t) => Ok(TypeModel::Integer(int_bits(t), Signedness::Signed)),
        RustType::Uint(t) => Ok(unsigned(uint_bits(t))),
        RustType::Bool => Ok(TypeModel::Integer(1, Signedness::Signless)),
        RustType::Char => Ok(unsigned(32)),
        RustType::Never => Ok(unit_model()),
        RustType::Float(FloatTy::F16) => Ok(TypeModel::Half),
        RustType::Float(FloatTy::F32) => Ok(TypeModel::Float),
        RustType::Float(FloatTy::F64) => Ok(TypeModel::Double),
        RustType::Float(FloatTy::F128) => Err(TranslateError::F128),
        RustType::Tuple(types) => match translated_types(types@, types@.len()) {
            Ok(done) => Ok(TypeModel::Tuple(done, LayoutModel::unknown())),
            Err(e) => Err(e),
        },
        RustType::Array(elem, len) => match translated(*elem) {
            Err(e) => Err(e),
            Ok(t) => match array_length(len) {
                Err(e) => Err(e),
                Ok(n) => Ok(TypeModel::Array(Box::new(t), n)),
            },
        },
        RustType::Slice(elem) => slice_of(translated(*elem)),
        RustType::Str => Ok(TypeModel::Slice(Box::new(unsigned(8)))),
        RustType::RawPtr(pointee, mutable) => translated_pointer(*pointee, mutable),
        RustType::Ref(pointee, mutable) => translated_pointer(*pointee, mutable),
        RustType::Adt(a) => translated_named(*a),
        RustType::Closure(c) => translated_closure(*c),
        RustType::Projection(def, args) => translated_projection(def@, args@),
        RustType::Pat(base) => translated(*base),
        RustType::FnPtr(_) => Ok(
            TypeModel::Pointer(Box::new(marker_model("FnPtrTarget"@)), false, 0),
        ),
        RustType::FnDef(name, _) => Ok(marker_model("FnDef_"@ + name@)),
        RustType::Other => Err(TranslateError::Unsupported),
    }
}

/// What a translation returns, against the model of the type.
pub open spec fn agrees(r: Result<MirType, TranslateError>, model: TypeResult) -> bool {
    match r {
        Ok(t) => model == Ok::<TypeModel, TranslateError>(t.model()),
        Err(e) => model == Err::<TypeModel, TranslateError>(e),
    }
}

/// The signed 32-bit integer type.
pub fn get_i32_type() -> (t: MirType)
    ensures
        t == MirType::Integer(32, Signedness::Signed),
{
    MirType::Integer(32, Signedness::Signed)
}

/// The boolean type: one bit, signless.
pub fn get_bool_type() -> (t: MirType)
    ensures
        t == MirType::Integer(1, Signedness::Signless),
{
    MirType::Integer(1, Signedness::Signless)
}

/// The `usize` type of the target, which has 64 bits.
pub fn get_usize_type() -> (t: MirType)
    ensures
        t == MirType::Integer(64, Signedness::Unsigned),
{
    MirType::Integer(64, Signedness::Unsigned)
}

/// The 32-bit floating-point type.
pub fn get_f32_type() -> (t: MirType)
    ensures
        t == MirType::Float,
{
    MirType::Float
}

/// Whether values of a MIR type occupy no memory: a tuple or struct all of whose
/// fields occupy none, or an array without elements or of elements that occupy
/// none.
pub open spec fn zero_sized(ty: TypeModel) -> bool
    decreases ty, 0nat,
{
    match ty {
        TypeModel::Tuple(types, _) => zero_sized_fields(types, types.len()),
        TypeModel::Struct(_, _, types, _) => zero_sized_fields(types, types.len()),
        TypeModel::Array(element, n) => n == 0 || zero_sized(*element),
        _ => false,
    }
}

/// Whether values of the first `n` types occupy no memory.
pub open spec fn zero_sized_fields(types: Seq<TypeModel>, n: nat) -> bool
    decreases types, n,
{
    n == 0 || n > types.len() || (zero_sized_fields(types, (n - 1) as nat) && zero_sized(
        types[n - 1],
    ))
}

proof fn lemma_models(types: Seq<MirType>)
    ensures
        MirType::models(types).len() == types.len(),
        forall|i: int|
            0 <= i < types.len() ==> #[trigger] MirType::models(types)[i] == types[i].model(),
    decreases types.len(),
{
    if types.len() > 0 {
        lemma_models(types.drop_last());
    }
}

proof fn lemma_sized_field(types: Seq<TypeModel>, i: nat)
    requires
        i <= types.len(),
        !zero_sized_fields(types, i),
    ensures
        !zero_sized_fields(types, types.len()),
    decreases types.len() - i,
{
    if i < types.len() {
        lemma_sized_field(types, i + 1);
    }
}

/// Whether values of a MIR type occupy no memory.
pub fn is_zst_type(ty: &MirType) -> (b: bool)
    ensures
        b == zero_sized(ty.model()),
    decreases *ty, 1nat,
{
    match ty {
        MirType::Tuple(types, _) => all_zst_types(types),
        MirType::Struct(_, _, types, _) => all_zst_types(types),
        MirType::Array(element, n) => *n == 0 || is_zst_type(element),
        _ => false,
    }
}

fn all_zst_types(types: &Vec<MirType>) -> (b: bool)
    ensures
        b == zero_sized_fields(MirType::models(types@), MirType::models(types@).len()),
    decreases types@, 0nat,
{
    let ghost models = MirType::models(types@);
    proof {
        lemma_models(types@);
    }
    let mut i: usize = 0;
    while i < types.len()
        invariant
            i <= types.len(),
            models == MirType::models(types@),
            models.len() == types@.len(),
            forall|j: int| 0 <= j < types@.len() ==> #[trigger] models[j] == types@[j].model(),
            zero_sized_fields(models, i as nat),
        decreases types.len() - i,
    {
        if !is_zst_type(&types[i]) {
            proof {
                assert(models[i as int] == types@[i as int].model());
                lemma_sized_field(models, (i + 1) as nat);
            }
            return false;
        }
        i = i + 1;
    }
    true
}

/// Whether a Rust type is zero-sized by its shape alone: the empty tuple, a type
/// with one variant and no fields, or a closure that captures nothing.
pub open spec fn zero_sized_shape(ty: RustType) -> bool {
    match ty {
        RustType::Tuple(types) => types@.len() == 0,
        RustType::Adt(a) => a.variants@.len() == 1 && a.variants@[0].fields@.len() == 0,
        RustType::Closure(c) => match captured(c.args@) {
            Some(types) => types.len() == 0,
            None => true,
        },
        _ => false,
    }
}

/// Whether a Rust type is zero-sized by its shape alone.
pub fn is_rust_type_zst(ty: &RustType) -> (b: bool)
    ensures
        b == zero_sized_shape(*ty),
{
    match ty {
        RustType::Tuple(types) => types.len() == 0,
        RustType::Adt(a) => a.variants.len() == 1 && a.variants[0].fields.len() == 0,
        RustType::Closure(c) => {
            if c.args.len() >= 3 {
                match &c.args[2] {
                    GenericArg::Type(RustType::Tuple(types)) => types.len() == 0,
                    _ => true,
                }
            } else {
                true
            }
        },
        _ => false,
    }
}

/// The element type of a struct made unsized by a trailing slice.
pub fn slice_tail_element_ty(ty: &RustType) -> (r: Option<&RustType>)
    ensures
        match r {
            Some(e) => slice_tail(*ty) == Some(*e),
            None => slice_tail(*ty) is None,
        },
    decreases *ty,
{
    match ty {
        RustType::Adt(a) => {
            if a.variants.len() != 1 {
                return None;
            }
            let fields = &a.variants[0].fields;
            if fields.len() == 0 {
                return None;
            }
            let last = &fields[fields.len() - 1];
            match &last.ty {
                RustType::Slice(e) => Some(e),
                RustType::Adt(_) => slice_tail_element_ty(&last.ty),
                _ => None,
            }
        },
        _ => None,
    }
}

/// Translates a raw pointer or reference.
pub fn translate_pointer_like(pointee: &RustType, is_mutable: bool) -> (r: Result<
    MirType,
    TranslateError,
>)
    ensures
        agrees(r, translated_pointer(*pointee, is_mutable)),
    decreases *pointee, 1nat,
{
    proof {
        reveal_with_fuel(MirType::model, 3);
        reveal_with_fuel(MirType::models, 3);
    }
    match pointee {
        RustType::Slice(elem) => match translate_type(elem) {
            Ok(t) => Ok(MirType::Slice(Box::new(t))),
            Err(e) => Err(e),
        },
        RustType::Str => Ok(
            MirType::Slice(Box::new(MirType::Integer(8, Signedness::Unsigned))),
        ),
        RustType::Adt(a) => {
            if text::is_named(&a.name, "SharedArray") {
                match shared_array_element_type(&a.args) {
                    Ok(t) => Ok(MirType::Pointer(Box::new(t), is_mutable, 3)),
                    Err(e) => Err(e),
                }
            } else if text::is_named(&a.name, "Barrier") {
                Ok(
                    MirType::Pointer(
                        Box::new(MirType::Integer(64, Signedness::Unsigned)),
                        is_mutable,
                        3,
                    ),
                )
            } else if slice_tail_element_ty(pointee).is_some() {
                match translate_type(pointee) {
                    Ok(t) => Ok(MirType::Slice(Box::new(t))),
                    Err(e) => Err(e),
                }
            } else {
                match translate_type(pointee) {
                    Ok(t) => Ok(MirType::Pointer(Box::new(t), is_mutable, 0)),
                    Err(e) => Err(e),
                }
            }
        },
        _ => match translate_type(pointee) {
            Ok(t) => Ok(MirType::Pointer(Box::new(t), is_mutable, 0)),
            Err(e) => Err(e),
        },
    }
}

/// Translates the first type among generic arguments.
pub fn shared_array_element_type(args: &Vec<GenericArg>) -> (r: Result<MirType, TranslateError>)
    ensures
        agrees(r, element_type(args@)),
    decreases args@, 0nat,
{
    let mut i: usize = 0;
    while i < args.len()
        invariant
            i <= args.len(),
            first_type_arg(args@, 0) == first_type_arg(args@, i as nat),
        decreases args.len() - i,
    {
        match &args[i] {
            GenericArg::Type(t) => {
                return translate_type(t);
            },
            GenericArg::Other => {},
        }
        i = i + 1;
    }
    Err(TranslateError::MissingElementType)
}

/// Translates the type of the place that receives a call's result, which is
/// `None` where the place has no type.
pub fn translate_destination_type(destination: Option<&RustType>) -> (r: Result<
    MirType,
    TranslateError,
>)
    ensures
        match destination {
            Some(ty) => agrees(r, translated(*ty)),
            None => r == Err::<MirType, TranslateError>(TranslateError::Destination),
        },
{
    match destination {
        Some(ty) => translate_type(ty),
        None => Err(TranslateError::Destination),
    }
}

/// The number that eight little-endian bytes hold.
fn le_bytes(bytes: &Vec<Option<u8>>) -> (n: u64)
    requires
        bytes@.len() >= 8,
    ensures
        n == le_value(bytes@, 8),
{
    let mut n: u64 = 0;
    let mut i: u64 = 0;
    let mut scale: u64 = 1;
    proof {
        vstd::arithmetic::power2::lemma2_to64();
    }
    while i < 8
        invariant
            i <= 8,
            bytes@.len() >= 8,
            n == le_value(bytes@, i as nat),
            n < vstd::arithmetic::power2::pow2(8 * i as nat),
            i < 8 ==> scale == vstd::arithmetic::power2::pow2(8 * i as nat),
        decreases 8 - i,
    {
        let b: u64 = match bytes[i as usize] {
            Some(b) => b as u64,
            None => 0,
        };
        proof {
            vstd::arithmetic::power2::lemma2_to64();
            vstd::arithmetic::power2::lemma2_to64_rest();
            vstd::arithmetic::power2::lemma_pow2_adds(8 * i as nat, 8);
            let s = vstd::arithmetic::power2::pow2(8 * i as nat) as int;
            assert(b * s <= 255 * s) by (nonlinear_arith)
                requires
                    b <= 255,
                    s >= 0,
            ;
            assert(s * 256 == 256 * s) by (nonlinear_arith);
            if i < 7 {
                vstd::arithmetic::power2::lemma_pow2_strictly_increases(8 * i as nat + 8, 64);
            }
            assert(8 * (i + 1) == 8 * i + 8);
        }
        n = n + b * scale;
        if i < 7 {
            scale = scale * 256;
        }
        i = i + 1;
    }
    n
}

/// Translates a list of types.
fn translate_types(types: &Vec<RustType>) -> (r: Result<Vec<MirType>, TranslateError>)
    ensures
        match r {
            Ok(v) => translated_types(types@, types@.len()) == Ok::<
                Seq<TypeModel>,
                TranslateError,
            >(MirType::models(v@)),
            Err(e) => translated_types(types@, types@.len()) == Err::<
                Seq<TypeModel>,
                TranslateError,
            >(e),
        },
        r matches Ok(v) ==> v@.len() == types@.len(),
    decreases types@, 0nat,
{
    let mut done: Vec<MirType> = Vec::new();
    let mut i: usize = 0;
    while i < types.len()
        invariant
            i <= types.len(),
            done@.len() == i,
            translated_types(types@, i as nat) == Ok::<Seq<TypeModel>, TranslateError>(
                MirType::models(done@),
            ),
        decreases types.len() - i,
    {
        let ghost before = done@;
        match translate_type(&types[i]) {
            Ok(t) => {
                done.push(t);
                proof {
                    assert(done@.drop_last() =~= before);
                }
            },
            Err(e) => {
                proof {
                    lemma_types_error(types@, (i + 1) as nat, e);
                }
                return Err(e);
            },
        }
        i = i + 1;
    }
    Ok(done)
}

proof fn lemma_types_error(types: Seq<RustType>, i: nat, e: TranslateError)
    requires
        i <= types.len(),
        translated_types(types, i) == Err::<Seq<TypeModel>, TranslateError>(e),
    ensures
        translated_types(types, types.len()) == Err::<Seq<TypeModel>, TranslateError>(e),
    decreases types.len() - i,
{
    if i < types.len() {
        lemma_types_error(types, i + 1, e);
    }
}

proof fn lemma_struct_fields_error(fields: Seq<Field>, i: nat, e: TranslateError)
    requires
        i <= fields.len(),
        translated_struct_fields(fields, i) == Err::<Seq<TypeModel>, TranslateError>(e),
    ensures
        translated_struct_fields(fields, fields.len()) == Err::<Seq<TypeModel>, TranslateError>(e),
    decreases fields.len() - i,
{
    if i < fields.len() {
        lemma_struct_fields_error(fields, i + 1, e);
    }
}

proof fn lemma_fields_error(fields: Seq<Field>, i: nat, e: TranslateError)
    requires
        i <= fields.len(),
        translated_fields(fields, i) == Err::<Seq<TypeModel>, TranslateError>(e),
    ensures
        translated_fields(fields, fields.len()) == Err::<Seq<TypeModel>, TranslateError>(e),
    decreases fields.len() - i,
{
    if i < fields.len() {
        lemma_fields_error(fields, i + 1, e);
    }
}

proof fn lemma_variants_error(
    variants: Seq<Variant>,
    offsets: Seq<Option<Vec<u64>>>,
    recorded: bool,
    i: nat,
    e: TranslateError,
)
    requires
        i <= variants.len(),
        translated_variants(variants, offsets, recorded, i) == Err::<
            Seq<VariantModel>,
            TranslateError,
        >(e),
    ensures
        translated_variants(variants, offsets, recorded, variants.len()) == Err::<
            Seq<VariantModel>,
            TranslateError,
        >(e),
    decreases variants.len() - i,
{
    if i < variants.len() {
        lemma_variants_error(variants, offsets, recorded, i + 1, e);
    }
}

/// Translates the fields of a struct.
fn translate_struct_fields(fields: &Vec<Field>) -> (r: Result<Vec<MirType>, TranslateError>)
    ensures
        match r {
            Ok(v) => translated_struct_fields(fields@, fields@.len()) == Ok::<
                Seq<TypeModel>,
                TranslateError,
            >(MirType::models(v@)),
            Err(e) => translated_struct_fields(fields@, fields@.len()) == Err::<
                Seq<TypeModel>,
                TranslateError,
            >(e),
        },
    decreases fields@, 0nat,
{
    let mut done: Vec<MirType> = Vec::new();
    let mut i: usize = 0;
    while i < fields.len()
        invariant
            i <= fields.len(),
            translated_struct_fields(fields@, i as nat) == Ok::<Seq<TypeModel>, TranslateError>(
                MirType::models(done@),
            ),
        decreases fields.len() - i,
    {
        let ghost before = done@;
        let field = &fields[i];
        let translation = match &field.ty {
            RustType::Slice(elem) => translate_type(elem),
            _ => translate_type(&field.ty),
        };
        match translation {
            Ok(t) => {
                done.push(t);
                proof {
                    assert(done@.drop_last() =~= before);
                }
            },
            Err(e) => {
                proof {
                    lemma_struct_fields_error(fields@, (i + 1) as nat, e);
                }
                return Err(e);
            },
        }
        i = i + 1;
    }
    Ok(done)
}

/// Translates the fields of an enum variant.
fn translate_fields(fields: &Vec<Field>) -> (r: Result<Vec<MirType>, TranslateError>)
    ensures
        match r {
            Ok(v) => translated_fields(fields@, fields@.len()) == Ok::<
                Seq<TypeModel>,
                TranslateError,
            >(MirType::models(v@)),
            Err(e) => translated_fields(fields@, fields@.len()) == Err::<
                Seq<TypeModel>,
                TranslateError,
            >(e),
        },
    decreases fields@, 0nat,
{
    let mut done: Vec<MirType> = Vec::new();
    let mut i: usize = 0;
    while i < fields.len()
        invariant
            i <= fields.len(),
            translated_fields(fields@, i as nat) == Ok::<Seq<TypeModel>, TranslateError>(
                MirType::models(done@),
            ),
        decreases fields.len() - i,
    {
        let ghost before = done@;
        match translate_type(&fields[i].ty) {
            Ok(t) => {
                done.push(t);
                proof {
                    assert(done@.drop_last() =~= before);
                }
            },
            Err(e) => {
                proof {
                    lemma_fields_error(fields@, (i + 1) as nat, e);
                }
                return Err(e);
            },
        }
        i = i + 1;
    }
    Ok(done)
}

fn copy_numbers(numbers: &Vec<u64>) -> (r: Vec<u64>)
    ensures
        r@ == numbers@,
{
    let r = numbers.clone();
    proof {
        assert(r@ =~= numbers@);
    }
    r
}

/// The layout that a shape records for a struct.
fn layout_of(shape: &Option<Shape>) -> (l: Layout)
    ensures
        l@ == struct_layout(*shape),
{
    match shape {
        Some(s) => {
            let mem_to_decl = s.memory_order.clone();
            proof {
                assert(mem_to_decl@ =~= s.memory_order@);
            }
            Layout {
                mem_to_decl,
                field_offsets: match &s.offsets {
                    Some(o) => copy_numbers(o),
                    None => Vec::new(),
                },
                total_size: s.size,
                abi_align: s.abi_align,
            }
        },
        None => Layout::unknown(),
    }
}

/// The names of struct fields.
fn names_of(fields: &Vec<Field>) -> (r: Vec<String>)
    ensures
        crate::mir::texts(r@) == field_names(fields@),
{
    let mut names: Vec<String> = Vec::new();
    let mut i: usize = 0;
    while i < fields.len()
        invariant
            i <= fields.len(),
            names@.len() == i,
            forall|j: int| 0 <= j < i ==> names@[j]@ == fields@[j].name@,
        decreases fields.len() - i,
    {
        names.push(fields[i].name.clone());
        i = i + 1;
    }
    proof {
        assert(crate::mir::texts(names@) =~= field_names(fields@));
    }
    names
}

/// The names of captured variables.
fn capture_name_list(n: usize) -> (r: Vec<String>)
    ensures
        crate::mir::texts(r@) == capture_names(n as nat),
{
    let mut names: Vec<String> = Vec::new();
    let mut i: usize = 0;
    while i < n
        invariant
            i <= n,
            names@.len() == i,
            forall|j: int| 0 <= j < i ==> names@[j]@ == "capture_"@ + text::decimal(j as nat),
        decreases n - i,
    {
        names.push(text::numbered("capture_", i as u64));
        i = i + 1;
    }
    proof {
        assert(crate::mir::texts(names@) =~= capture_names(n as nat));
    }
    names
}

/// Translates a struct: a type with exactly one variant.
fn translate_struct(a: &Adt) -> (r: Result<MirType, TranslateError>)
    requires
        a.variants@.len() == 1,
    ensures
        agrees(r, translated_adt(*a)),
    decreases *a, 0nat,
{
    let fields = &a.variants[0].fields;
    match translate_struct_fields(fields) {
        Err(e) => Err(e),
        Ok(types) => Ok(
            MirType::Struct(a.name.clone(), names_of(fields), types, layout_of(&a.layout)),
        ),
    }
}

/// The declared discriminants of an enum.
fn discriminant_list(variants: &Vec<Variant>) -> (r: Result<Vec<u64>, TranslateError>)
    ensures
        match r {
            Ok(v) => discriminants(variants@) == Ok::<Seq<u64>, TranslateError>(v@),
            Err(e) => discriminants(variants@) == Err::<Seq<u64>, TranslateError>(e),
        },
{
    let mut values: Vec<u64> = Vec::new();
    let mut i: usize = 0;
    while i < variants.len()
        invariant
            i <= variants.len(),
            values@.len() == i,
            forall|j: int|
                0 <= j < i ==> (#[trigger] variants@[j]).discriminant <= u64::MAX && values@[j]
                    == variants@[j].discriminant,
        decreases variants.len() - i,
    {
        let value = variants[i].discriminant;
        if value > u64::MAX as u128 {
            return Err(TranslateError::DiscriminantTooWide);
        }
        values.push(value as u64);
        i = i + 1;
    }
    proof {
        assert(values@ =~= Seq::new(variants@.len(), |i: int| variants@[i].discriminant as u64));
    }
    Ok(values)
}

/// Translates the variants of an enum.
fn translate_variants(
    variants: &Vec<Variant>,
    offsets: &Vec<Option<Vec<u64>>>,
    recorded: bool,
) -> (r: Result<Vec<EnumVariant>, TranslateError>)
    ensures
        match r {
            Ok(v) => translated_variants(variants@, offsets@, recorded, variants@.len()) == Ok::<
                Seq<VariantModel>,
                TranslateError,
            >(EnumVariant::models(v@)),
            Err(e) => translated_variants(variants@, offsets@, recorded, variants@.len()) == Err::<
                Seq<VariantModel>,
                TranslateError,
            >(e),
        },
    decreases variants@, 0nat,
{
    let mut done: Vec<EnumVariant> = Vec::new();
    let mut i: usize = 0;
    while i < variants.len()
        invariant
            i <= variants.len(),
            translated_variants(variants@, offsets@, recorded, i as nat) == Ok::<
                Seq<VariantModel>,
                TranslateError,
            >(EnumVariant::models(done@)),
        decreases variants.len() - i,
    {
        let ghost before = done@;
        let variant = &variants[i];
        let field_types = match translate_fields(&variant.fields) {
            Ok(types) => types,
            Err(e) => {
                proof {
                    lemma_variants_error(variants@, offsets@, recorded, (i + 1) as nat, e);
                }
                return Err(e);
            },
        };
        let field_offsets: Vec<u64> = if recorded {
            let found: Option<&Vec<u64>> = if i < offsets.len() {
                match &offsets[i] {
                    Some(o) => Some(o),
                    None => None,
                }
            } else {
                None
            };
            match found {
                Some(o) => copy_numbers(o),
                None => {
                    proof {
                        lemma_variants_error(
                            variants@,
                            offsets@,
                            recorded,
                            (i + 1) as nat,
                            TranslateError::VariantOffsets,
                        );
                    }
                    return Err(TranslateError::VariantOffsets);
                },
            }
        } else {
            Vec::new()
        };
        done.push(EnumVariant { name: variant.name.clone(), field_types, field_offsets });
        proof {
            reveal_with_fuel(EnumVariant::model, 2);
            reveal_with_fuel(EnumVariant::models, 2);
            reveal_with_fuel(translated_variants, 2);
            let added = done@.last();
            assert(done@.drop_last() =~= before);
            assert(EnumVariant::models(done@) == EnumVariant::models(before).push(added.model()));
            assert(added.model() == VariantModel {
                name: variant.name@,
                field_types: MirType::models(added.field_types@),
                field_offsets: added.field_offsets@,
            });
        }
        i = i + 1;
    }
    Ok(done)
}

/// The tag of an enum: type, byte offset, total size and alignment.
fn enum_tag(shape: &Shape, variant_count: usize) -> (r: Result<
    (MirType, u64, u64, u64),
    TranslateError,
>)
    ensures
        match r {
            Ok((tag, tag_offset, total_size, abi_align)) => tag_model(
                *shape,
                variant_count as nat,
            ) == Ok::<TagModel, TranslateError>(
                TagModel { tag: tag.model(), tag_offset, total_size, abi_align },
            ),
            Err(e) => tag_model(*shape, variant_count as nat) == Err::<TagModel, TranslateError>(e),
        },
{
    match &shape.variants {
        VariantsShape::Direct { tag, tag_offset } => match tag {
            None => Err(TranslateError::TagNotInteger),
            Some((bits, signed)) => match tag_offset {
                None => Err(TranslateError::TagOffset),
                Some(offset) => Ok(
                    (
                        MirType::Integer(
                            *bits,
                            if *signed {
                                Signedness::Signed
                            } else {
                                Signedness::Unsigned
                            },
                        ),
                        *offset,
                        shape.size,
                        shape.abi_align,
                    ),
                ),
            },
        },
        _ => {
            let bits: u32 = if variant_count <= 256 {
                8
            } else if variant_count <= 65536 {
                16
            } else {
                32
            };
            Ok((MirType::Integer(bits, Signedness::Unsigned), 0, 0, 0))
        },
    }
}

/// Translates an enum: a type with any number of variants but one.
fn translate_enum(a: &Adt) -> (r: Result<MirType, TranslateError>)
    requires
        a.variants@.len() != 1,
    ensures
        agrees(r, translated_adt(*a)),
    decreases *a, 0nat,
{
    let shape = match &a.layout {
        Some(shape) => shape,
        None => {
            return Err(TranslateError::EnumLayout);
        },
    };
    let (discriminant, tag_offset, total_size, abi_align) = match enum_tag(
        shape,
        a.variants.len(),
    ) {
        Ok(tag) => tag,
        Err(e) => {
            return Err(e);
        },
    };
    let variant_discriminants = match discriminant_list(&a.variants) {
        Ok(values) => values,
        Err(e) => {
            return Err(e);
        },
    };
    let variants = match translate_variants(&a.variants, &shape.variant_offsets, total_size > 0) {
        Ok(variants) => variants,
        Err(e) => {
            return Err(e);
        },
    };
    Ok(
        MirType::Enum(
            Box::new(
                EnumType {
                    name: a.name.clone(),
                    discriminant,
                    variant_discriminants,
                    variants,
                    tag_offset,
                    total_size,
                    abi_align,
                },
            ),
        ),
    )
}

/// Translates a closure to the struct of its captured variables.
fn translate_closure(c: &Closure) -> (r: Result<MirType, TranslateError>)
    ensures
        agrees(r, translated_closure(*c)),
    decreases *c, 0nat,
{
    proof {
        reveal_with_fuel(MirType::model, 3);
        reveal_with_fuel(MirType::models, 3);
    }
    let captures: Option<&Vec<RustType>> = if c.args.len() >= 3 {
        match &c.args[2] {
            GenericArg::Type(RustType::Tuple(types)) => Some(types),
            _ => None,
        }
    } else {
        None
    };
    match captures {
        Some(types) => match translate_types(types) {
            Ok(done) => Ok(
                MirType::Struct(
                    c.name.clone(),
                    capture_name_list(types.len()),
                    done,
                    layout_of(&c.layout),
                ),
            ),
            Err(e) => Err(e),
        },
        None => {
            let names: Vec<String> = Vec::new();
            let types: Vec<MirType> = Vec::new();
            proof {
                assert(crate::mir::texts(names@) =~= Seq::empty());
            }
            Ok(MirType::Struct(c.name.clone(), names, types, layout_of(&c.layout)))
        },
    }
}

/// Translates an associated type.
fn translate_projection(def: &String, args: &Vec<GenericArg>) -> (r: Result<
    MirType,
    TranslateError,
>)
    ensures
        agrees(r, translated_projection(def@, args@)),
    decreases args@, 1nat,
{
    if args.len() == 0 {
        return Err(TranslateError::Alias);
    }
    let self_ty = match &args[0] {
        GenericArg::Type(t) => t,
        GenericArg::Other => {
            return Err(TranslateError::Alias);
        },
    };
    let output = text::contains(def.as_str(), "Output");
    if text::contains(def.as_str(), "Fn") && output {
        match self_ty {
            RustType::Closure(c) => {
                return translate_type(&c.output);
            },
            RustType::FnPtr(o) => {
                return translate_type(o);
            },
            RustType::FnDef(_, o) => {
                return translate_type(o);
            },
            _ => {},
        }
    }
    if text::contains(def.as_str(), "Index") && output {
        if let RustType::Adt(a) = self_ty {
            if text::is_named(&a.name, "SharedArray") {
                return shared_array_element_type(&a.args);
            }
        }
    }
    Err(TranslateError::Alias)
}

/// A struct without fields and without a known layout.
fn marker_struct(name: String) -> (t: MirType)
    ensures
        t.model() == marker_model(name@),
{
    proof {
        reveal_with_fuel(MirType::model, 3);
        reveal_with_fuel(MirType::models, 3);
    }
    let names: Vec<String> = Vec::new();
    let types: Vec<MirType> = Vec::new();
    proof {
        assert(crate::mir::texts(names@) =~= Seq::empty());
    }
    MirType::Struct(name, names, types, Layout::unknown())
}

/// The empty tuple.
fn unit_type() -> (t: MirType)
    ensures
        t.model() == unit_model(),
{
    proof {
        reveal_with_fuel(MirType::model, 3);
        reveal_with_fuel(MirType::models, 3);
    }
    let types: Vec<MirType> = Vec::new();
    MirType::Tuple(types, Layout::unknown())
}

/// Translates a struct, union or enum.
fn translate_named(a: &Adt) -> (r: Result<MirType, TranslateError>)
    ensures
        agrees(r, translated_named(*a)),
    decreases *a, 1nat,
{
    proof {
        reveal_with_fuel(MirType::model, 3);
        reveal_with_fuel(MirType::models, 3);
    }
    if text::is_named(&a.name, "DisjointSlice") {
        match shared_array_element_type(&a.args) {
            Ok(t) => {
                let spaces: Vec<MirType> = Vec::new();
                Ok(MirType::DisjointSlice(Box::new(t), spaces))
            },
            Err(e) => Err(e),
        }
    } else if text::is_named(&a.name, "ThreadIndex") {
        Ok(get_usize_type())
    } else if text::is_named(&a.name, "SharedArray") {
        Ok(unit_type())
    } else if text::is_named(&a.name, "Barrier") {
        Ok(MirType::Integer(64, Signedness::Unsigned))
    } else if text::is_named(&a.name, "TmaDescriptor") {
        Ok(MirType::RawArray(Box::new(MirType::Integer(64, Signedness::Unsigned)), 16))
    } else if a.variants.len() == 1 {
        translate_struct(a)
    } else {
        translate_enum(a)
    }
}

/// Translates a Rust type.
pub fn translate_type(ty: &RustType) -> (r: Result<MirType, TranslateError>)
    ensures
        agrees(r, translated(*ty)),
    decreases *ty, 0nat,
{
    proof {
        reveal_with_fuel(MirType::model, 3);
        reveal_with_fuel(MirType::models, 3);
    }
    match ty {
        RustType::Int(t) => {
            let bits: u32 = match t {
                IntTy::I8 => 8,
                IntTy::I16 => 16,
                IntTy::I32 => 32,
                IntTy::I64 => 64,
                IntTy::I128 => 128,
                IntTy::Isize => 64,
            };
            Ok(MirType::Integer(bits, Signedness::Signed))
        },
        RustType::Uint(t) => {
            let bits: u32 = match t {
                UintTy::U8 => 8,
                UintTy::U16 => 16,
                UintTy::U32 => 32,
                UintTy::U64 => 64,
                UintTy::U128 => 128,
                UintTy::Usize => 64,
            };
            Ok(MirType::Integer(bits, Signedness::Unsigned))
        },
        RustType::Bool => Ok(get_bool_type()),
        RustType::Char => Ok(MirType::Integer(32, Signedness::Unsigned)),
        RustType::Never => Ok(unit_type()),
        RustType::Float(t) => match t {
            FloatTy::F16 => Ok(MirType::Half),
            FloatTy::F32 => Ok(MirType::Float),
            FloatTy::F64 => Ok(MirType::Double),
            FloatTy::F128 => Err(TranslateError::F128),
        },
        RustType::Tuple(types) => match translate_types(types) {
            Ok(done) => Ok(MirType::Tuple(done, Layout::unknown())),
            Err(e) => Err(e),
        },
        RustType::Array(elem, len) => match translate_type(elem) {
            Err(e) => Err(e),
            Ok(t) => match len {
                ArrayLen::Bytes(bytes) => if bytes.len() >= 8 {
                    Ok(MirType::Array(Box::new(t), le_bytes(bytes)))
                } else {
                    Err(TranslateError::ArrayLengthSize)
                },
                ArrayLen::Unevaluated => Err(TranslateError::ArrayLengthNotValue),
            },
        },
        RustType::Slice(elem) => match translate_type(elem) {
            Ok(t) => Ok(MirType::Slice(Box::new(t))),
            Err(e) => Err(e),
        },
        RustType::Str => Ok(
            MirType::Slice(Box::new(MirType::Integer(8, Signedness::Unsigned))),
        ),
        RustType::RawPtr(pointee, mutable) => translate_pointer_like(pointee, *mutable),
        RustType::Ref(pointee, mutable) => translate_pointer_like(pointee, *mutable),
        RustType::Adt(a) => translate_named(a),
        RustType::Closure(c) => translate_closure(c),
        RustType::Projection(def, args) => translate_projection(def, args),
        RustType::Pat(base) => translate_type(base),
        RustType::FnPtr(_) => Ok(
            MirType::Pointer(Box::new(marker_struct("FnPtrTarget".to_owned())), false, 0),
        ),
        RustType::FnDef(name, _) => Ok(marker_struct(text::joined("FnDef_", name.as_str()))),
        RustType::Other => Err(TranslateError::Unsupported),
    }
}

} // verus!
