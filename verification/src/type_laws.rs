//! What holds of the translation of types as a whole.

use crate::mir::TypeModel;
use crate::rust_types::{Adt, ArrayLen, Field, RustType, Variant};
use crate::types::{
    array_length, captured, discriminants, le_value, slice_of, slice_tail, translated,
    translated_adt, translated_closure, translated_fields, translated_named, translated_pointer,
    translated_struct_fields, translated_types, translated_variants, unit_model,
    variant_count_bits, zero_sized, zero_sized_fields, zero_sized_shape, TranslateError, TypeResult,
};
use vstd::arithmetic::power2::{lemma2_to64, lemma_pow2_adds, pow2};
use vstd::prelude::*;

verus! {

/// Raw pointers and references translate alike.
pub proof fn law_pointer_kinds(pointee: RustType, mutable: bool)
    ensures
        translated(RustType::RawPtr(Box::new(pointee), mutable)) == translated(
            RustType::Ref(Box::new(pointee), mutable),
        ),
{
}

/// A pointer to a slice, mutable or not, is the slice itself: the pair of data
/// pointer and length.
pub proof fn law_slice_pointers(elem: RustType, mutable: bool)
    ensures
        translated(RustType::Ref(Box::new(RustType::Slice(Box::new(elem))), mutable))
            == translated(RustType::Slice(Box::new(elem))),
{
    reveal_with_fuel(translated, 3);
    reveal_with_fuel(translated_pointer, 2);
}

/// A string reference translates as a reference to a slice of bytes.
pub proof fn law_str_is_bytes(mutable: bool)
    ensures
        translated(RustType::Ref(Box::new(RustType::Str), mutable)) == translated(
            RustType::Ref(
                Box::new(
                    RustType::Slice(Box::new(RustType::Uint(crate::rust_types::UintTy::U8))),
                ),
                mutable,
            ),
        ),
{
    reveal_with_fuel(translated, 3);
}

/// Whether a pointer to the type carries a length: a slice, a string, or a
/// struct that ends in a slice. Shared memory is always pointed to thinly.
pub open spec fn carries_length(pointee: RustType) -> bool {
    match pointee {
        RustType::Slice(_) | RustType::Str => true,
        RustType::Adt(a) => a.name@ != "SharedArray"@ && a.name@ != "Barrier"@ && slice_tail(
            pointee,
        ) is Some,
        _ => false,
    }
}

/// A pointer becomes a pair with a length exactly where its pointee is unsized,
/// and a thin pointer of the same mutability everywhere else.
pub proof fn law_fat_pointers(pointee: RustType, mutable: bool)
    ensures
        translated_pointer(pointee, mutable) matches Ok(t) ==> if carries_length(pointee) {
            t is Slice
        } else {
            t matches TypeModel::Pointer(_, m, _) && m == mutable
        },
{
}

/// The pair for a struct that ends in a slice points to the struct.
pub proof fn law_unsized_tail(a: Adt, mutable: bool)
    requires
        carries_length(RustType::Adt(Box::new(a))),
    ensures
        translated_pointer(RustType::Adt(Box::new(a)), mutable) == slice_of(
            translated(RustType::Adt(Box::new(a))),
        ),
{
}

/// A tuple or struct occupies no memory exactly where none of its fields does.
pub proof fn law_zero_sized_fields(types: Seq<TypeModel>, n: nat)
    requires
        n <= types.len(),
    ensures
        zero_sized_fields(types, n) <==> forall|i: int|
            0 <= i < n ==> zero_sized(#[trigger] types[i]),
    decreases n,
{
    if n > 0 {
        law_zero_sized_fields(types, (n - 1) as nat);
        assert(zero_sized_fields(types, n) == (zero_sized_fields(types, (n - 1) as nat)
            && zero_sized(types[n - 1])));
    }
}

/// Whether a type of this name has a translation that does not follow its
/// fields.
pub open spec fn own_translation(ty: RustType) -> bool {
    ty matches RustType::Adt(a) && (a.name@ == "DisjointSlice"@ || a.name@ == "ThreadIndex"@
        || a.name@ == "Barrier"@ || a.name@ == "TmaDescriptor"@)
}

/// A type that is zero-sized by its shape has a translation, and that is
/// zero-sized.
pub proof fn law_zero_sized(ty: RustType)
    requires
        zero_sized_shape(ty),
        !own_translation(ty),
    ensures
        translated(ty) matches Ok(t) && zero_sized(t),
{
    reveal_with_fuel(zero_sized, 2);
    reveal_with_fuel(zero_sized_fields, 2);
    match ty {
        RustType::Tuple(types) => {
            assert(translated_types(types@, 0) == Ok::<Seq<TypeModel>, TranslateError>(
                Seq::empty(),
            ));
        },
        RustType::Adt(a) => {
            if a.name@ != "SharedArray"@ {
                let fields = a.variants@[0].fields@;
                assert(translated_struct_fields(fields, 0) == Ok::<Seq<TypeModel>, TranslateError>(
                    Seq::empty(),
                ));
                assert(translated_named(*a) == translated_adt(*a));
            } else {
                reveal_strlit("SharedArray");
                reveal_strlit("DisjointSlice");
                reveal_strlit("ThreadIndex");
                assert("SharedArray"@.len() != "DisjointSlice"@.len());
                assert("SharedArray"@[0] != "ThreadIndex"@[0]);
                assert(translated_named(*a) == Ok::<TypeModel, TranslateError>(unit_model()));
            }
        },
        RustType::Closure(c) => {
            if captured(c.args@) is Some {
                assert(translated_types(captured(c.args@).unwrap(), 0) == Ok::<
                    Seq<TypeModel>,
                    TranslateError,
                >(Seq::empty()));
            }
            assert(translated_closure(*c) is Ok);
        },
        _ => {},
    }
}

/// The translation of a field of a struct: an unsized tail counts by its
/// elements.
pub open spec fn field_translation(ty: RustType) -> TypeResult {
    match ty {
        RustType::Slice(elem) => translated(*elem),
        _ => translated(ty),
    }
}

/// A struct keeps its fields: as many names and types as fields, in declaration
/// order, each with its translation.
pub proof fn law_struct_fields(fields: Seq<Field>, n: nat)
    requires
        n <= fields.len(),
    ensures
        match translated_struct_fields(fields, n) {
            Ok(types) => types.len() == n && forall|i: int|
                0 <= i < n ==> field_translation((#[trigger] fields[i]).ty) == Ok::<
                    TypeModel,
                    TranslateError,
                >(types[i]),
            Err(e) => exists|i: int|
                0 <= i < n && field_translation((#[trigger] fields[i]).ty) == Err::<
                    TypeModel,
                    TranslateError,
                >(e),
        },
    decreases n,
{
    if n > 0 {
        law_struct_fields(fields, (n - 1) as nat);
        let last = fields[n - 1];
        assert(field_translation(last.ty) == match last.ty {
            RustType::Slice(elem) => translated(*elem),
            _ => translated(last.ty),
        });
    }
}

/// The fields of an enum variant have as many types as there are fields, each
/// the translation of its field.
pub proof fn law_variant_fields(fields: Seq<Field>, n: nat)
    requires
        n <= fields.len(),
    ensures
        translated_fields(fields, n) matches Ok(types) ==> types.len() == n && forall|i: int|
            0 <= i < n ==> translated((#[trigger] fields[i]).ty) == Ok::<TypeModel, TranslateError>(
                types[i],
            ),
    decreases n,
{
    if n > 0 {
        law_variant_fields(fields, (n - 1) as nat);
    }
}

/// An enum keeps its variants, with their names, field types and, where the
/// layout is recorded, field offsets.
pub proof fn law_variants(
    variants: Seq<Variant>,
    offsets: Seq<Option<Vec<u64>>>,
    recorded: bool,
    n: nat,
)
    requires
        n <= variants.len(),
    ensures
        translated_variants(variants, offsets, recorded, n) matches Ok(done) ==> {
            &&& done.len() == n
            &&& forall|i: int|
                0 <= i < n ==> {
                    &&& (#[trigger] done[i]).name == variants[i].name@
                    &&& done[i].field_types.len() == variants[i].fields@.len()
                    &&& recorded ==> i < offsets.len() && offsets[i] is Some
                        && done[i].field_offsets == offsets[i].unwrap()@
                    &&& !recorded ==> done[i].field_offsets.len() == 0
                }
        },
    decreases n,
{
    if n > 0 {
        law_variants(variants, offsets, recorded, (n - 1) as nat);
        let v = variants[n - 1];
        law_variant_fields(v.fields@, v.fields@.len());
    }
}

/// An enum has one declared discriminant per variant.
pub proof fn law_discriminants(a: Adt)
    requires
        a.variants@.len() != 1,
    ensures
        translated_adt(a) matches Ok(t) ==> {
            &&& t is Enum
            &&& t->variants.len() == a.variants@.len()
            &&& t->variant_discriminants.len() == a.variants@.len()
            &&& forall|i: int|
                0 <= i < a.variants@.len() ==> #[trigger] t->variant_discriminants[i]
                    == a.variants@[i].discriminant
        },
{
    if translated_adt(a) is Ok {
        let shape = a.layout.unwrap();
        let tag = crate::types::tag_model(shape, a.variants@.len()).unwrap();
        law_variants(
            a.variants@,
            shape.variant_offsets@,
            tag.total_size > 0,
            a.variants@.len(),
        );
        assert(discriminants(a.variants@) is Ok);
    }
}

/// The tag that numbers the variants has a value for each of them.
pub proof fn law_tag_width(n: nat)
    requires
        n <= pow2(32),
    ensures
        n <= pow2(variant_count_bits(n) as nat),
{
    lemma2_to64();
}

/// An array length is read back from its little-endian bytes.
pub proof fn law_array_length(n: u64, bytes: Vec<Option<u8>>)
    requires
        bytes@.len() >= 8,
        forall|i: int|
            0 <= i < 8 ==> #[trigger] bytes@[i] == Some(
                ((n as nat / pow2(8 * i as nat)) % 256) as u8,
            ),
    ensures
        array_length(ArrayLen::Bytes(bytes)) == Ok::<u64, TranslateError>(n),
{
    lemma_low_bytes(n as nat, bytes@, 8);
    lemma2_to64();
    vstd::arithmetic::div_mod::lemma_small_mod(n as nat, pow2(64));
}

proof fn lemma_low_bytes(n: nat, bytes: Seq<Option<u8>>, k: nat)
    requires
        k <= 8,
        bytes.len() >= 8,
        forall|i: int|
            0 <= i < 8 ==> #[trigger] bytes[i] == Some(((n / pow2(8 * i as nat)) % 256) as u8),
    ensures
        le_value(bytes, k) == n % pow2(8 * k),
    decreases k,
{
    lemma2_to64();
    if k > 0 {
        let low = (k - 1) as nat;
        lemma_low_bytes(n, bytes, low);
        let m = pow2(8 * low);
        vstd::arithmetic::power2::lemma_pow2_pos(8 * low);
        lemma_pow2_adds(8 * low, 8);
        assert(8 * low + 8 == 8 * k);
        vstd::arithmetic::div_mod::lemma_mod_breakdown(n as int, m as int, 256);
        assert(bytes[low as int] == Some(((n / m) % 256) as u8));
        assert(m * ((n / m) % 256) == ((n / m) % 256) * m) by (nonlinear_arith);
    } else {
        assert(n % 1 == 0);
    }
}

} // verus!
