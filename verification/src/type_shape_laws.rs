//! Laws: what the translation of a type is made of.

use crate::llvm::Signedness;
use crate::mir::{LayoutModel, TypeModel};
use crate::rust_types::{
    Adt, ArrayLen, Closure, FloatTy, GenericArg, IntTy, RustType, Shape, UintTy, Variant,
    VariantsShape,
};
use crate::text;
use crate::type_laws::{field_translation, law_struct_fields, law_variant_fields};
use crate::types::{
    array_length, captured, element_type, first_type_arg, slice_tail, translated, translated_adt,
    translated_closure, translated_named, translated_pointer, translated_projection,
    translated_types, translated_variants, TranslateError, TypeResult,
};
use vstd::prelude::*;

verus! {

/// Integers keep their width and sign, and pointer-sized ones take 64 bits; a
/// character is its 32-bit number, a truth value one bit.
pub proof fn law_scalars()
    ensures
        ({
            let with_sign = |t: IntTy| translated(RustType::Int(t));
            let without_sign = |t: UintTy| translated(RustType::Uint(t));
            let float = |t: FloatTy| translated(RustType::Float(t));
            let integer = |bits: u32, s: Signedness|
                Ok::<TypeModel, TranslateError>(TypeModel::Integer(bits, s));
            &&& with_sign(IntTy::I8) == integer(8, Signedness::Signed)
            &&& with_sign(IntTy::I16) == integer(16, Signedness::Signed)
            &&& with_sign(IntTy::I32) == integer(32, Signedness::Signed)
            &&& with_sign(IntTy::I64) == integer(64, Signedness::Signed)
            &&& with_sign(IntTy::I128) == integer(128, Signedness::Signed)
            &&& with_sign(IntTy::Isize) == integer(64, Signedness::Signed)
            &&& without_sign(UintTy::U8) == integer(8, Signedness::Unsigned)
            &&& without_sign(UintTy::U16) == integer(16, Signedness::Unsigned)
            &&& without_sign(UintTy::U32) == integer(32, Signedness::Unsigned)
            &&& without_sign(UintTy::U64) == integer(64, Signedness::Unsigned)
            &&& without_sign(UintTy::U128) == integer(128, Signedness::Unsigned)
            &&& without_sign(UintTy::Usize) == integer(64, Signedness::Unsigned)
            &&& translated(RustType::Char) == integer(32, Signedness::Unsigned)
            &&& translated(RustType::Bool) == integer(1, Signedness::Signless)
            &&& float(FloatTy::F16) == Ok::<TypeModel, TranslateError>(TypeModel::Half)
            &&& float(FloatTy::F32) == Ok::<TypeModel, TranslateError>(TypeModel::Float)
            &&& float(FloatTy::F64) == Ok::<TypeModel, TranslateError>(TypeModel::Double)
            &&& float(FloatTy::F128) is Err
        }),
{
}

/// The translation of a list of types holds that of each type at its position,
/// and fails where one of them has none.
proof fn lemma_types(types: Seq<RustType>, n: nat)
    requires
        n <= types.len(),
    ensures
        match translated_types(types, n) {
            Ok(done) => done.len() == n && forall|i: int|
                0 <= i < n ==> translated(#[trigger] types[i]) == Ok::<TypeModel, TranslateError>(
                    done[i],
                ),
            Err(e) => exists|i: int|
                0 <= i < n && translated(#[trigger] types[i]) == Err::<TypeModel, TranslateError>(
                    e,
                ),
        },
    decreases n,
{
    if n > 0 {
        lemma_types(types, (n - 1) as nat);
        assert(translated(types[n - 1]) is Ok || translated(types[n - 1]) is Err);
    }
}

/// A tuple has the translation of each of its types, in their order.
pub proof fn law_tuple_types(types: Vec<RustType>)
    ensures
        match translated(RustType::Tuple(types)) {
            Ok(t) => t matches TypeModel::Tuple(done, layout) && done.len() == types@.len()
                && layout == LayoutModel::unknown() && forall|i: int|
                0 <= i < types@.len() ==> translated(#[trigger] types@[i]) == Ok::<
                    TypeModel,
                    TranslateError,
                >(done[i]),
            Err(e) => exists|i: int|
                0 <= i < types@.len() && translated(#[trigger] types@[i]) == Err::<
                    TypeModel,
                    TranslateError,
                >(e),
        },
{
    lemma_types(types@, types@.len());
}

/// An array has the translation of its element, and its length.
pub proof fn law_array_type(elem: RustType, len: ArrayLen)
    ensures
        match translated(RustType::Array(Box::new(elem), len)) {
            Ok(t) => t matches TypeModel::Array(done, n) && translated(elem) == Ok::<
                TypeModel,
                TranslateError,
            >(*done) && array_length(len) == Ok::<u64, TranslateError>(n),
            Err(e) => translated(elem) == Err::<TypeModel, TranslateError>(e) || array_length(len)
                == Err::<u64, TranslateError>(e),
        },
{
}

/// Whether a layout is the recorded one: memory order, offsets in declaration
/// order, size and alignment.
pub open spec fn keeps_layout(layout: LayoutModel, shape: Option<Shape>) -> bool {
    match shape {
        Some(s) => {
            &&& layout.mem_to_decl == s.memory_order@
            &&& s.offsets matches Some(offsets) ==> layout.field_offsets == offsets@
            &&& s.offsets is None ==> layout.field_offsets.len() == 0
            &&& layout.total_size == s.size
            &&& layout.abi_align == s.abi_align
        },
        None => layout == LayoutModel::unknown(),
    }
}

/// A struct has its name, and the name and the translation of each field in
/// declaration order, with the recorded layout.
pub proof fn law_struct_type(a: Adt)
    requires
        a.variants@.len() == 1,
    ensures
        match translated_adt(a) {
            Ok(t) => t matches TypeModel::Struct(name, names, types, layout) && {
                let fields = a.variants@[0].fields@;
                &&& name == a.name@
                &&& names.len() == fields.len()
                &&& types.len() == fields.len()
                &&& forall|i: int|
                    0 <= i < fields.len() ==> names[i] == (#[trigger] fields[i]).name@
                &&& forall|i: int|
                    0 <= i < fields.len() ==> field_translation((#[trigger] fields[i]).ty) == Ok::<
                        TypeModel,
                        TranslateError,
                    >(types[i])
                &&& keeps_layout(layout, a.layout)
            },
            Err(e) => exists|i: int|
                0 <= i < a.variants@[0].fields@.len() && field_translation(
                    (#[trigger] a.variants@[0].fields@[i]).ty,
                ) == Err::<TypeModel, TranslateError>(e),
        },
{
    let fields = a.variants@[0].fields@;
    law_struct_fields(fields, fields.len());
}

/// The fields of each variant of an enum have their translations, in declaration
/// order.
pub proof fn law_variant_types(
    variants: Seq<Variant>,
    offsets: Seq<Option<Vec<u64>>>,
    recorded: bool,
    n: nat,
    i: int,
    j: int,
)
    requires
        0 <= i < n <= variants.len(),
        0 <= j < variants[i].fields@.len(),
    ensures
        translated_variants(variants, offsets, recorded, n) matches Ok(done) ==> done.len() == n
            && done[i].field_types.len() == variants[i].fields@.len() && translated(
            variants[i].fields@[j].ty,
        ) == Ok::<TypeModel, TranslateError>(done[i].field_types[j]),
    decreases n,
{
    lemma_variants_length(variants, offsets, recorded, (n - 1) as nat);
    if i == n - 1 {
        let fields = variants[i].fields@;
        law_variant_fields(fields, fields.len());
        if translated_variants(variants, offsets, recorded, n) is Ok {
            assert(translated(fields[j].ty) is Ok);
        }
    } else {
        law_variant_types(variants, offsets, recorded, (n - 1) as nat, i, j);
    }
}

/// There are as many translated variants as variants.
proof fn lemma_variants_length(
    variants: Seq<Variant>,
    offsets: Seq<Option<Vec<u64>>>,
    recorded: bool,
    n: nat,
)
    requires
        n <= variants.len(),
    ensures
        translated_variants(variants, offsets, recorded, n) matches Ok(done) ==> done.len() == n,
    decreases n,
{
    if n > 0 {
        lemma_variants_length(variants, offsets, recorded, (n - 1) as nat);
    }
}

/// An enum with a direct tag has the tag of its layout, with its sign, and the
/// offset of the tag, size and alignment. Any other enum is tagged by an unsigned
/// number at its beginning, and its layout stays unknown.
pub proof fn law_enum_tag(a: Adt, shape: Shape)
    requires
        a.variants@.len() != 1,
        a.layout == Some(shape),
    ensures
        translated_adt(a) matches Ok(t) ==> {
            &&& t is Enum
            &&& t->Enum_name == a.name@
            &&& match shape.variants {
                VariantsShape::Direct { tag, tag_offset } => {
                    &&& tag matches Some((bits, is_signed))
                    &&& tag_offset matches Some(offset)
                    &&& *t->discriminant == TypeModel::Integer(
                        bits,
                        if is_signed {
                            Signedness::Signed
                        } else {
                            Signedness::Unsigned
                        },
                    )
                    &&& t->tag_offset == offset
                    &&& t->total_size == shape.size
                    &&& t->Enum_abi_align == shape.abi_align
                },
                _ => {
                    &&& *t->discriminant matches TypeModel::Integer(_, s)
                    &&& s == Signedness::Unsigned
                    &&& t->tag_offset == 0
                    &&& t->total_size == 0
                },
            }
        },
{
}

/// A thin pointer leads to the translation of its pointee in generic memory. One
/// to shared memory leads to the element there, and one to a barrier to its
/// 64-bit state in shared memory.
pub proof fn law_pointees(pointee: RustType, mutable: bool)
    ensures
        ({
            let t = translated_pointer(pointee, mutable);
            let to = |target: TypeResult, space: u32|
                match target {
                    Ok(m) => t == Ok::<TypeModel, TranslateError>(
                        TypeModel::Pointer(Box::new(m), mutable, space),
                    ),
                    Err(e) => t == Err::<TypeModel, TranslateError>(e),
                };
            match pointee {
                RustType::Slice(elem) => match translated(*elem) {
                    Ok(m) => t == Ok::<TypeModel, TranslateError>(TypeModel::Slice(Box::new(m))),
                    Err(e) => t == Err::<TypeModel, TranslateError>(e),
                },
                RustType::Str => true,
                RustType::Adt(a) => if a.name@ == "SharedArray"@ {
                    to(element_type(a.args@), 3)
                } else if a.name@ == "Barrier"@ {
                    to(Ok(TypeModel::Integer(64, Signedness::Unsigned)), 3)
                } else {
                    slice_tail(pointee) is None ==> to(translated(pointee), 0)
                },
                _ => to(translated(pointee), 0),
            }
        }),
{
}

/// The element of a generic device type is the translation of its first type
/// argument.
pub proof fn law_element_type(args: Seq<GenericArg>, from: nat, i: int)
    requires
        from <= i < args.len(),
        args[i] is Type,
        forall|j: int| from <= j < i ==> (#[trigger] args[j]) is Other,
    ensures
        first_type_arg(args, from) == Some(translated(args[i]->Type_0)),
        from == 0 ==> element_type(args) == translated(args[i]->Type_0),
    decreases i - from,
{
    if from < i {
        assert(args[from as int] is Other);
        law_element_type(args, from + 1, i);
    }
}

/// A closure is a struct of its captures, numbered in their order, with the
/// recorded layout.
pub proof fn law_closure_type(c: Closure)
    ensures
        match translated_closure(c) {
            Ok(t) => t matches TypeModel::Struct(name, names, types, layout) && {
                let taken = match captured(c.args@) {
                    Some(list) => list,
                    None => Seq::empty(),
                };
                &&& name == c.name@
                &&& names.len() == taken.len()
                &&& types.len() == taken.len()
                &&& forall|i: int|
                    0 <= i < taken.len() ==> #[trigger] names[i] == "capture_"@ + text::decimal(
                        i as nat,
                    )
                &&& forall|i: int|
                    0 <= i < taken.len() ==> translated(#[trigger] taken[i]) == Ok::<
                        TypeModel,
                        TranslateError,
                    >(types[i])
                &&& keeps_layout(layout, c.layout)
            },
            Err(e) => captured(c.args@) matches Some(list) && exists|i: int|
                0 <= i < list.len() && translated(#[trigger] list[i]) == Err::<
                    TypeModel,
                    TranslateError,
                >(e),
        },
{
    if let Some(list) = captured(c.args@) {
        lemma_types(list, list.len());
    }
}

/// Device types have translations of their own: a disjoint slice over its
/// element, a thread index and a barrier as 64-bit numbers, shared memory as
/// nothing, and a tensor map as sixteen words.
pub proof fn law_device_types(a: Adt)
    ensures
        ({
            let t = translated_named(a);
            let word = TypeModel::Integer(64, Signedness::Unsigned);
            &&& a.name@ == "DisjointSlice"@ ==> match element_type(a.args@) {
                Ok(m) => t == Ok::<TypeModel, TranslateError>(
                    TypeModel::DisjointSlice(Box::new(m), Seq::empty()),
                ),
                Err(e) => t == Err::<TypeModel, TranslateError>(e),
            }
            &&& a.name@ == "ThreadIndex"@ ==> t == Ok::<TypeModel, TranslateError>(word)
            &&& a.name@ == "Barrier"@ ==> t == Ok::<TypeModel, TranslateError>(word)
            &&& a.name@ == "SharedArray"@ ==> t == Ok::<TypeModel, TranslateError>(
                TypeModel::Tuple(Seq::empty(), LayoutModel::unknown()),
            )
            &&& a.name@ == "TmaDescriptor"@ ==> t == Ok::<TypeModel, TranslateError>(
                TypeModel::RawArray(Box::new(word), 16),
            )
        }),
{
    reveal_strlit("DisjointSlice");
    reveal_strlit("ThreadIndex");
    reveal_strlit("SharedArray");
    reveal_strlit("Barrier");
    reveal_strlit("TmaDescriptor");
    assert("DisjointSlice"@.len() == 13 && "DisjointSlice"@[0] == 'D');
    assert("TmaDescriptor"@.len() == 13 && "TmaDescriptor"@[0] == 'T');
    assert("ThreadIndex"@.len() == 11 && "ThreadIndex"@[0] == 'T');
    assert("SharedArray"@.len() == 11 && "SharedArray"@[0] == 'S');
    assert("Barrier"@.len() == 7);
}

/// The output of a function trait is what the callable returns, and what an index
/// into shared memory gives is its element.
pub proof fn law_outputs(def: Seq<char>, args: Seq<GenericArg>, t: RustType)
    requires
        args.len() > 0,
        args[0] == GenericArg::Type(t),
        text::spec_contains(def, "Output"@),
    ensures
        text::spec_contains(def, "Fn"@) ==> match t {
            RustType::Closure(c) => translated_projection(def, args) == translated(c.output),
            RustType::FnPtr(output) => translated_projection(def, args) == translated(*output),
            RustType::FnDef(_, output) => translated_projection(def, args) == translated(*output),
            _ => true,
        },
        text::spec_contains(def, "Index"@) ==> match t {
            RustType::Adt(a) => a.name@ == "SharedArray"@ ==> translated_projection(def, args)
                == element_type(a.args@),
            _ => true,
        },
{
    reveal_with_fuel(translated_projection, 2);
}

} // verus!
