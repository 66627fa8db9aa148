//! Values as bytes in a stack slot.

use crate::llvm::{FieldTypes, LlvmType};
use crate::semantics::{member_count, Datum};
use vstd::arithmetic::div_mod::{lemma_fundamental_div_mod, lemma_fundamental_div_mod_converse};
use vstd::prelude::*;

verus! {

/// One byte in memory.
pub enum Byte {
    /// Byte `2` of value `0`, which was written with type `1`.
    Part(Box<Datum>, LlvmType, int),
    /// Never written.
    Undefined,
}

/// How many bytes a value of a type takes. The fields of a struct stand one
/// behind the other.
pub open spec fn size_of(ty: LlvmType) -> nat
    decreases ty,
{
    match ty {
        LlvmType::Integer(width, _) => if width == 1 {
            1
        } else {
            width as nat / 8
        },
        LlvmType::Half => 2,
        LlvmType::Float => 4,
        LlvmType::Double => 8,
        LlvmType::Pointer(_) => 8,
        LlvmType::Array(element, n) => n as nat * size_of(*element),
        LlvmType::Struct(fields, _) => fields_size(*fields),
        _ => 0,
    }
}

/// How many bytes the fields of a struct take.
pub open spec fn fields_size(fields: FieldTypes) -> nat
    decreases fields,
{
    match fields {
        FieldTypes::End => 0,
        FieldTypes::Field(first, rest) => size_of(first) + fields_size(*rest),
    }
}

/// The alignment of a type in bytes.
pub open spec fn alignment_of(ty: LlvmType) -> nat
    decreases ty,
{
    match ty {
        LlvmType::Array(element, _) => alignment_of(*element),
        LlvmType::Struct(fields, packed) => if packed {
            1
        } else {
            fields_alignment(*fields)
        },
        _ => size_of(ty),
    }
}

/// The alignment that the fields of a struct ask for.
pub open spec fn fields_alignment(fields: FieldTypes) -> nat
    decreases fields,
{
    match fields {
        FieldTypes::End => 1,
        FieldTypes::Field(first, rest) => {
            let more = fields_alignment(*rest);
            if alignment_of(first) > more {
                alignment_of(first)
            } else {
                more
            }
        },
    }
}

/// Whether `size_of` tells how a type is laid out: its scalars take whole bytes
/// on every target, and its structs need no padding between or behind their
/// fields. Pointers outside the generic and the global space have a size that
/// goes by the target.
pub open spec fn laid_out(ty: LlvmType) -> bool
    decreases ty,
{
    match ty {
        LlvmType::Integer(width, _) => width == 1 || width == 8 || width == 16 || width == 32
            || width == 64 || width == 128,
        LlvmType::Half | LlvmType::Float | LlvmType::Double => true,
        LlvmType::Pointer(space) => space <= 1,
        LlvmType::Array(element, _) => laid_out(*element),
        LlvmType::Struct(fields, packed) => fields_laid_out(*fields) && (packed || (unpadded(
            *fields,
            0,
        ) && fields_size(*fields) % fields_alignment(*fields) == 0)),
        _ => false,
    }
}

/// Whether the fields of a struct have a known layout each.
pub open spec fn fields_laid_out(fields: FieldTypes) -> bool
    decreases fields,
{
    match fields {
        FieldTypes::End => true,
        FieldTypes::Field(first, rest) => laid_out(first) && fields_laid_out(*rest),
    }
}

/// Whether fields that begin at byte `at` are aligned as they stand.
pub open spec fn unpadded(fields: FieldTypes, at: nat) -> bool
    decreases fields,
{
    match fields {
        FieldTypes::End => true,
        FieldTypes::Field(first, rest) => at % alignment_of(first) == 0 && unpadded(
            *rest,
            at + size_of(first),
        ),
    }
}

/// Where field `i` of a struct begins.
pub open spec fn field_offset(fields: FieldTypes, i: nat) -> nat
    decreases fields,
{
    match fields {
        FieldTypes::End => 0,
        FieldTypes::Field(first, rest) => if i == 0 {
            0
        } else {
            size_of(first) + field_offset(*rest, (i - 1) as nat)
        },
    }
}

/// Whether a value is made of members as its type says.
pub open spec fn splits(d: Datum, ty: LlvmType) -> bool {
    d matches Datum::Aggregate(parts) && member_count(ty) == Some(parts.len())
}

/// Byte `k` of a value of a type.
pub open spec fn byte(d: Datum, ty: LlvmType, k: int) -> Byte
    decreases ty,
{
    if splits(d, ty) {
        let parts = d->Aggregate_0;
        match ty {
            LlvmType::Struct(fields, _) => fields_byte(*fields, parts, k),
            LlvmType::Array(element, _) => byte(
                parts[k / (size_of(*element) as int)],
                *element,
                k % (size_of(*element) as int),
            ),
            _ => Byte::Undefined,
        }
    } else {
        match d {
            Datum::Raw(bytes) => if 0 <= k < bytes.len() {
                bytes[k]
            } else {
                Byte::Undefined
            },
            _ => Byte::Part(Box::new(d), ty, k),
        }
    }
}

/// Byte `k` of the fields of a struct.
pub open spec fn fields_byte(fields: FieldTypes, parts: Seq<Datum>, k: int) -> Byte
    decreases fields,
{
    match fields {
        FieldTypes::End => Byte::Undefined,
        FieldTypes::Field(first, rest) => if k < size_of(first) {
            byte(parts[0], first, k)
        } else {
            fields_byte(*rest, parts.skip(1), k - size_of(first))
        },
    }
}

/// The byte `k` behind `at`.
pub open spec fn at_offset(bytes: spec_fn(int) -> Byte, at: int, k: int) -> Byte {
    bytes(at + k)
}

/// Whether the bytes at `at` are those of one value that was written with type
/// `ty`, and not member by member.
pub open spec fn whole(bytes: spec_fn(int) -> Byte, at: int, ty: LlvmType) -> bool {
    &&& size_of(ty) > 0
    &&& at_offset(bytes, at, 0) matches Byte::Part(d, _, _)
    &&& *d !is Raw
    &&& !splits(*d, ty)
    &&& forall|k: int|
        0 <= k < size_of(ty) ==> #[trigger] at_offset(bytes, at, k) == Byte::Part(d, ty, k)
}

/// What is read at `at` with type `ty`: the value that was written there, else
/// its members, else the bytes as they are.
pub open spec fn read(bytes: spec_fn(int) -> Byte, at: int, ty: LlvmType) -> Datum
    decreases ty,
{
    if whole(bytes, at, ty) {
        *at_offset(bytes, at, 0)->Part_0
    } else {
        match ty {
            LlvmType::Struct(fields, _) => Datum::Aggregate(read_fields(bytes, at, *fields)),
            LlvmType::Array(element, n) => Datum::Aggregate(
                Seq::new(
                    n as nat,
                    |i: int| read(bytes, at + i * size_of(*element), *element),
                ),
            ),
            _ => Datum::Raw(Seq::new(size_of(ty), |k: int| at_offset(bytes, at, k))),
        }
    }
}

/// What is read at `at` as the fields of a struct.
pub open spec fn read_fields(bytes: spec_fn(int) -> Byte, at: int, fields: FieldTypes) -> Seq<
    Datum,
>
    decreases fields,
{
    match fields {
        FieldTypes::End => Seq::empty(),
        FieldTypes::Field(first, rest) => seq![read(bytes, at, first)] + read_fields(
            bytes,
            at + size_of(first),
            *rest,
        ),
    }
}

/// Whether a value can be written with a type and told apart afterwards: it is
/// no bare bytes, its members fit theirs, and without members it takes space.
pub open spec fn fits(d: Datum, ty: LlvmType) -> bool
    decreases ty,
{
    if splits(d, ty) {
        let parts = d->Aggregate_0;
        match ty {
            LlvmType::Struct(fields, _) => fields_fit(parts, *fields),
            LlvmType::Array(element, _) => forall|i: int|
                0 <= i < parts.len() ==> fits(#[trigger] parts[i], *element),
            _ => false,
        }
    } else {
        d !is Raw && size_of(ty) > 0
    }
}

/// Whether values fit the fields of a struct.
pub open spec fn fields_fit(parts: Seq<Datum>, fields: FieldTypes) -> bool
    decreases fields,
{
    match fields {
        FieldTypes::End => true,
        FieldTypes::Field(first, rest) => fits(parts[0], first) && fields_fit(
            parts.skip(1),
            *rest,
        ),
    }
}

/// How deep a type nests.
spec fn depth(ty: LlvmType) -> nat
    decreases ty,
{
    match ty {
        LlvmType::Array(element, _) => depth(*element) + 1,
        LlvmType::Struct(fields, _) => fields_depth(*fields) + 1,
        _ => 0,
    }
}

spec fn fields_depth(fields: FieldTypes) -> nat
    decreases fields,
{
    match fields {
        FieldTypes::End => 0,
        FieldTypes::Field(first, rest) => {
            let more = fields_depth(*rest);
            if depth(first) > more {
                depth(first)
            } else {
                more
            }
        },
    }
}

/// A byte within `n` items of `size` bytes belongs to one of them.
proof fn lemma_item_of_byte(k: int, size: int, n: int)
    requires
        0 <= k < n * size,
        0 <= size,
    ensures
        size > 0,
        0 <= k / size < n,
        0 <= k % size < size,
        (k / size) * size + k % size == k,
{
    assert(size > 0) by (nonlinear_arith)
        requires
            0 <= k < n * size,
            0 <= size,
    ;
    lemma_fundamental_div_mod(k, size);
    assert(0 <= k / size < n && (k / size) * size + k % size == k) by (nonlinear_arith)
        requires
            0 <= k < n * size,
            size > 0,
            k == size * (k / size) + k % size,
            0 <= k % size < size,
    ;
}

/// Byte `k` of item `i`.
pub proof fn lemma_byte_of_item(i: int, k: int, size: int, n: int)
    requires
        0 <= i < n,
        0 <= k < size,
    ensures
        0 <= i * size + k < n * size,
        (i * size + k) / size == i,
        (i * size + k) % size == k,
{
    assert(0 <= i * size + k < n * size) by (nonlinear_arith)
        requires
            0 <= i < n,
            0 <= k < size,
    ;
    lemma_fundamental_div_mod_converse(i * size + k, size, i, k);
}

/// A value that was read has the bytes that it was read from.
pub proof fn lemma_bytes_of_read(bytes: spec_fn(int) -> Byte, at: int, ty: LlvmType, k: int)
    requires
        0 <= k < size_of(ty),
    ensures
        byte(read(bytes, at, ty), ty, k) == at_offset(bytes, at, k),
    decreases ty,
{
    if !whole(bytes, at, ty) {
        match ty {
            LlvmType::Struct(fields, _) => {
                lemma_read_fields(bytes, at, *fields);
                lemma_bytes_of_read_fields(bytes, at, *fields, k);
            },
            LlvmType::Array(element, n) => {
                let size = size_of(*element) as int;
                assert(size_of(ty) == n as nat * size_of(*element));
                lemma_item_of_byte(k, size, n as int);
                let i = k / size;
                lemma_bytes_of_read(bytes, at + i * size, *element, k % size);
                assert(at_offset(bytes, at + i * size, k % size) == at_offset(bytes, at, k));
                let parts = read(bytes, at, ty)->Aggregate_0;
                assert(parts.len() == n);
                assert(parts[i] == read(bytes, at + i * size_of(*element), *element));
            },
            _ => {},
        }
    }
}

proof fn lemma_bytes_of_read_fields(
    bytes: spec_fn(int) -> Byte,
    at: int,
    fields: FieldTypes,
    k: int,
)
    requires
        0 <= k < fields_size(fields),
    ensures
        fields_byte(fields, read_fields(bytes, at, fields), k) == at_offset(bytes, at, k),
    decreases fields,
{
    match fields {
        FieldTypes::End => {},
        FieldTypes::Field(first, rest) => {
            let parts = read_fields(bytes, at, fields);
            let size = size_of(first) as int;
            if k < size {
                lemma_bytes_of_read(bytes, at, first, k);
            } else {
                lemma_bytes_of_read_fields(bytes, at + size, *rest, k - size);
                assert(parts.skip(1) =~= read_fields(bytes, at + size, *rest));
                assert(at_offset(bytes, at + size, k - size) == at_offset(bytes, at, k));
            }
        },
    }
}

/// One value is read for each field, each at its offset.
pub proof fn lemma_read_fields(bytes: spec_fn(int) -> Byte, at: int, fields: FieldTypes)
    ensures
        read_fields(bytes, at, fields).len() == fields.types().len(),
        forall|i: int|
            0 <= i < fields.types().len() ==> #[trigger] read_fields(bytes, at, fields)[i] == read(
                bytes,
                at + field_offset(fields, i as nat),
                fields.types()[i],
            ),
    decreases fields,
{
    match fields {
        FieldTypes::End => {},
        FieldTypes::Field(first, rest) => {
            let size = size_of(first) as int;
            lemma_read_fields(bytes, at + size, *rest);
            let parts = read_fields(bytes, at, fields);
            assert forall|i: int| 0 <= i < fields.types().len() implies #[trigger] parts[i] == read(
                bytes,
                at + field_offset(fields, i as nat),
                fields.types()[i],
            ) by {
                if i > 0 {
                    assert(parts[i] == read_fields(bytes, at + size, *rest)[i - 1]);
                    assert(fields.types()[i] == rest.types()[i - 1]);
                }
            }
        },
    }
}

/// The bytes of field `i` are those of its value.
pub proof fn lemma_byte_of_field(fields: FieldTypes, parts: Seq<Datum>, i: int, k: int)
    requires
        parts.len() == fields.types().len(),
        0 <= i < parts.len(),
        0 <= k < size_of(fields.types()[i]),
    ensures
        fields_byte(fields, parts, field_offset(fields, i as nat) + k) == byte(
            parts[i],
            fields.types()[i],
            k,
        ),
        field_offset(fields, i as nat) + k < fields_size(fields),
    decreases fields,
{
    match fields {
        FieldTypes::End => {},
        FieldTypes::Field(first, rest) => {
            if i > 0 {
                assert(fields.types()[i] == rest.types()[i - 1]);
                lemma_byte_of_field(*rest, parts.skip(1), i - 1, k);
            }
        },
    }
}

/// The bytes of a value that fits name types that nest no deeper than its own,
/// and less deep where it splits into members.
proof fn lemma_named_type(d: Datum, ty: LlvmType, k: int)
    requires
        fits(d, ty),
        0 <= k < size_of(ty),
    ensures
        byte(d, ty, k) matches Byte::Part(_, t, _) && depth(t) <= depth(ty) && (splits(d, ty)
            ==> depth(t) < depth(ty)),
    decreases ty,
{
    if splits(d, ty) {
        let parts = d->Aggregate_0;
        match ty {
            LlvmType::Struct(fields, _) => {
                lemma_named_field_type(parts, *fields, k);
            },
            LlvmType::Array(element, n) => {
                assert(size_of(ty) == n as nat * size_of(*element));
                lemma_item_of_byte(k, size_of(*element) as int, n as int);
                let i = k / (size_of(*element) as int);
                assert(fits(parts[i], *element));
                lemma_named_type(parts[i], *element, k % (size_of(*element) as int));
            },
            _ => {},
        }
    }
}

proof fn lemma_named_field_type(parts: Seq<Datum>, fields: FieldTypes, k: int)
    requires
        fields_fit(parts, fields),
        0 <= k < fields_size(fields),
    ensures
        fields_byte(fields, parts, k) matches Byte::Part(_, t, _) && depth(t) <= fields_depth(
            fields,
        ),
    decreases fields,
{
    match fields {
        FieldTypes::End => {},
        FieldTypes::Field(first, rest) => {
            if k < size_of(first) {
                lemma_named_type(parts[0], first, k);
            } else {
                lemma_named_field_type(parts.skip(1), *rest, k - size_of(first));
            }
        },
    }
}

/// A value that fits is read back from its bytes.
pub proof fn lemma_read_back(bytes: spec_fn(int) -> Byte, at: int, ty: LlvmType, d: Datum)
    requires
        fits(d, ty),
        forall|k: int|
            0 <= k < size_of(ty) ==> #[trigger] at_offset(bytes, at, k) == byte(d, ty, k),
    ensures
        read(bytes, at, ty) == d,
    decreases ty,
{
    if size_of(ty) > 0 {
        assert(at_offset(bytes, at, 0) == byte(d, ty, 0));
    }
    if splits(d, ty) {
        let parts = d->Aggregate_0;
        if whole(bytes, at, ty) {
            lemma_named_type(d, ty, 0);
        }
        match ty {
            LlvmType::Struct(fields, _) => {
                lemma_read_fields_back(bytes, at, *fields, parts);
            },
            LlvmType::Array(element, n) => {
                let size = size_of(*element) as int;
                let found = read(bytes, at, ty)->Aggregate_0;
                assert(size_of(ty) == n as nat * size_of(*element));
                assert forall|i: int| 0 <= i < n implies #[trigger] found[i] == parts[i] by {
                    assert(fits(parts[i], *element));
                    assert forall|k: int| 0 <= k < size implies #[trigger] at_offset(
                        bytes,
                        at + i * size,
                        k,
                    ) == byte(parts[i], *element, k) by {
                        lemma_byte_of_item(i, k, size, n as int);
                        assert(at_offset(bytes, at, i * size + k) == byte(d, ty, i * size + k));
                    }
                    lemma_read_back(bytes, at + i * size, *element, parts[i]);
                    assert(found[i] == read(bytes, at + i * size_of(*element), *element));
                }
                assert(found =~= parts);
            },
            _ => {},
        }
    }
}

proof fn lemma_read_fields_back(
    bytes: spec_fn(int) -> Byte,
    at: int,
    fields: FieldTypes,
    parts: Seq<Datum>,
)
    requires
        parts.len() == fields.types().len(),
        fields_fit(parts, fields),
        forall|k: int|
            0 <= k < fields_size(fields) ==> #[trigger] at_offset(bytes, at, k) == fields_byte(
                fields,
                parts,
                k,
            ),
    ensures
        read_fields(bytes, at, fields) == parts,
    decreases fields,
{
    match fields {
        FieldTypes::End => {
            assert(read_fields(bytes, at, fields) =~= parts);
        },
        FieldTypes::Field(first, rest) => {
            let size = size_of(first) as int;
            assert forall|k: int| 0 <= k < size implies #[trigger] at_offset(bytes, at, k) == byte(
                parts[0],
                first,
                k,
            ) by {}
            lemma_read_back(bytes, at, first, parts[0]);
            let others = parts.skip(1);
            assert forall|k: int| 0 <= k < fields_size(*rest) implies #[trigger] at_offset(
                bytes,
                at + size,
                k,
            ) == fields_byte(*rest, others, k) by {
                assert(at_offset(bytes, at, size + k) == fields_byte(fields, parts, size + k));
            }
            assert(others.len() == rest.types().len());
            lemma_read_fields_back(bytes, at + size, *rest, others);
            assert(read_fields(bytes, at, fields) =~= parts);
        },
    }
}

/// A field nests no deeper than its struct allows.
proof fn lemma_field_depth(fields: FieldTypes, i: int)
    requires
        0 <= i < fields.types().len(),
    ensures
        depth(fields.types()[i]) <= fields_depth(fields),
    decreases fields,
{
    if let FieldTypes::Field(first, rest) = fields {
        if i > 0 {
            assert(fields.types()[i] == rest.types()[i - 1]);
            lemma_field_depth(*rest, i - 1);
        }
    }
}

/// A struct that is read where one field has the bytes of a value that fits it
/// has that value as its member.
pub proof fn lemma_read_member(
    bytes: spec_fn(int) -> Byte,
    at: int,
    fields: FieldTypes,
    packed: bool,
    i: int,
    d: Datum,
)
    requires
        0 <= i < fields.types().len(),
        size_of(fields.types()[i]) > 0,
        fits(d, fields.types()[i]),
        forall|k: int|
            0 <= k < size_of(fields.types()[i]) ==> #[trigger] at_offset(
                bytes,
                at + field_offset(fields, i as nat),
                k,
            ) == byte(d, fields.types()[i], k),
    ensures
        ({
            &&& read(bytes, at, LlvmType::Struct(Box::new(fields), packed)) matches
                Datum::Aggregate(parts)
            &&& parts.len() == fields.types().len()
            &&& parts[i] == d
        }),
{
    let ty = LlvmType::Struct(Box::new(fields), packed);
    let member = fields.types()[i];
    let offset = field_offset(fields, i as nat) as int;
    assert(at_offset(bytes, at + offset, 0) == byte(d, member, 0));
    if whole(bytes, at, ty) {
        lemma_named_type(d, member, 0);
        lemma_field_depth(fields, i);
        lemma_offset_within(fields, i);
        assert(at_offset(bytes, at, offset) == at_offset(bytes, at + offset, 0));
    }
    lemma_read_fields(bytes, at, fields);
    lemma_read_back(bytes, at + offset, member, d);
}

/// A field lies within its struct.
pub proof fn lemma_offset_within(fields: FieldTypes, i: int)
    requires
        0 <= i < fields.types().len(),
    ensures
        field_offset(fields, i as nat) + size_of(fields.types()[i]) <= fields_size(fields),
    decreases fields,
{
    if let FieldTypes::Field(first, rest) = fields {
        if i > 0 {
            assert(fields.types()[i] == rest.types()[i - 1]);
            lemma_offset_within(*rest, i - 1);
        }
    }
}

} // verus!
