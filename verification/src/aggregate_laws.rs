//! Laws: what is read back from a built aggregate.

use crate::addressing::{constant_bits, defining_op};
use crate::aggregates::{
    construct_fields, construct_struct, construct_tuple, declared_order, extract_field,
    insert_field, insert_fields, last_struct, last_tuple, mapped_type, member_of,
};
use crate::array_extract::{
    bounded_extract, candidate, candidate_count, element_op, extract_element, memory_extract,
    select_chain, ArrayInfo,
};
use crate::call::{rewrap, unwrap_layers, Flat, ScalarLayer};
use crate::enums::{
    add_payload, add_payloads, carrier_bits, carrier_ops, get_discriminant_ops, niche_ops,
    start_variant, EnumBuild, EnumCarrierKind, EnumInfo, EnumLayoutKind,
};
use crate::ints::{kept_bits, lemma_pow2_128, lemma_value_of_int};
use crate::llvm::LlvmType;
use crate::lower::{LowerError, Operand};
use crate::mir::MirType;
use crate::ops::{CastKind, Coercion, Index, IntBinary, IntPredicate, OpCode, OpView, Value};
use crate::semantics::{
    available, datum, eval, holds_int, lemma_accessed, lemma_datum_prefix, lemma_emitted,
    lemma_spilled, lemma_undefined, member_count, operand, stack_at, truth, undefined, wrap, Datum,
};
use crate::slots::{StructInfo, StructSlotMap};
use crate::stack_memory::{
    at_offset, byte, fits, laid_out, lemma_byte_of_item, lemma_read_back, size_of,
};
use vstd::arithmetic::div_mod::{
    lemma_add_mod_noop, lemma_mod_bound, lemma_mod_mod, lemma_small_mod, lemma_sub_mod_noop,
};
use vstd::arithmetic::power2::{
    lemma_pow2_adds, lemma_pow2_pos, lemma_pow2_strictly_increases, pow2,
};
use vstd::prelude::*;

verus! {

/// The choice among candidates yields the element at the index.
proof fn lemma_select_chain(
    ops: Seq<OpView>,
    env: spec_fn(u64) -> Datum,
    n: nat,
    array: Value,
    index: Value,
    width: u32,
    selected: Value,
    k: nat,
    elements: Seq<Datum>,
    i: int,
)
    requires
        width > 0,
        k <= u32::MAX,
        ops.len() + 3 * k <= usize::MAX,
        holds_int(ops, env, index, width as nat, i),
        available(selected, ops.len()),
        k <= i ==> datum(ops, env, selected) == elements[i],
        forall|c: int|
            0 <= c < k ==> available(#[trigger] candidate(n, array, c), ops.len()) && datum(
                ops,
                env,
                candidate(n, array, c),
            ) == elements[c],
    ensures
        ({
            let (all, value) = select_chain(ops, n, array, index, width, selected, k);
            datum(all, env, value) == elements[i]
        }),
    decreases k,
{
    if k > 0 {
        let at = ops.len();
        let position = Value::at(at, LlvmType::spec_int(width));
        let chosen = candidate(n, array, k - 1);
        let condition = Value::at(at + 1, LlvmType::spec_bool());
        let emitted = seq![
            OpView::int_of(k - 1, width),
            OpView::int_compare(IntPredicate::EQ, index, position),
            OpView::select(condition, chosen, selected),
        ];
        let next = ops + emitted;
        let value = Value::at(at + 2, chosen.ty);
        assert(next =~= ops.push(emitted[0]).push(emitted[1]).push(emitted[2]));
        lemma_datum_prefix(ops, emitted, env, index);
        lemma_datum_prefix(ops, emitted, env, chosen);
        lemma_datum_prefix(ops, emitted, env, selected);
        lemma_value_of_int(k - 1, width);
        lemma_emitted(ops, emitted, env, 0);
        lemma_emitted(ops, emitted, env, 1);
        lemma_emitted(ops, emitted, env, 2);
        lemma_pow2_pos(width as nat);
        if k - 1 <= i {
            lemma_small_mod((k - 1) as nat, pow2(width as nat));
        }
        assert forall|c: int| 0 <= c < k - 1 implies available(
            #[trigger] candidate(n, array, c),
            next.len(),
        ) && datum(next, env, candidate(n, array, c)) == elements[c] by {
            lemma_datum_prefix(ops, emitted, env, candidate(n, array, c));
        }
        lemma_select_chain(
            next,
            env,
            n,
            array,
            index,
            width,
            value,
            (k - 1) as nat,
            elements,
            i,
        );
    }
}

/// Resolving a bounded index among the elements it can reach gives the element
/// at the index.
pub proof fn law_bounded_extract(
    ops: Seq<OpView>,
    env: spec_fn(u64) -> Datum,
    array: Value,
    index: Value,
    count: u64,
    width: u32,
    elements: Seq<Datum>,
    i: int,
)
    requires
        0 < count <= u32::MAX,
        count <= elements.len(),
        available(array, ops.len()),
        datum(ops, env, array) == Datum::Aggregate(elements),
        array.ty.spec_member((count - 1) as u32) is Some,
        index.ty.spec_int_width() == Some(width),
        width > 0,
        holds_int(ops, env, index, width as nat, i),
        i < count,
        ops.len() + 4 * count <= usize::MAX,
    ensures
        ({
            let out = bounded_extract(ops, array, index, count);
            &&& out.result matches Ok(Some(value))
            &&& datum(out.ops, env, value) == elements[i]
        }),
{
    let n = ops.len();
    let reads = Seq::new(count as nat, |c: int| element_op(array, c));
    let read = ops + reads;
    lemma_datum_prefix(ops, reads, env, array);
    lemma_datum_prefix(ops, reads, env, index);
    assert forall|c: int| 0 <= c < count implies available(
        #[trigger] candidate(n, array, c),
        read.len(),
    ) && datum(read, env, candidate(n, array, c)) == elements[c] by {
        assert(reads[c] == element_op(array, c));
        lemma_emitted(ops, reads, env, c as nat);
    }
    assert(candidate(n, array, count - 1) == candidate(n, array, count as int - 1));
    lemma_select_chain(
        read,
        env,
        n,
        array,
        index,
        width,
        candidate(n, array, count - 1),
        (count - 1) as nat,
        elements,
        i,
    );
}

/// Every constant holds no more bits than its width has, as those that the
/// constructors of [`IntConst`] make.
pub open spec fn normal_constants(ops: Seq<OpView>) -> bool {
    forall|at: int|
        0 <= at < ops.len() ==> ((#[trigger] ops[at]).code matches OpCode::ConstInt(c)
            ==> c.bits < pow2(kept_bits(c.width)))
}

/// An index that was found bounded is below its bound.
pub proof fn law_candidates_cover(
    ops: Seq<OpView>,
    env: spec_fn(u64) -> Datum,
    index: Value,
    size: u64,
    limit: u64,
    width: nat,
    i: int,
)
    requires
        holds_int(ops, env, index, width, i),
        normal_constants(ops),
    ensures
        candidate_count(ops, index, size, limit) matches Some(count) ==> i < count && count <= size,
{
    if let Some(count) = candidate_count(ops, index, size, limit) {
        let at = index.def->Result_0;
        let op = ops[at as int];
        assert(defining_op(ops, index) == Some(op));
        reveal_with_fuel(eval, 2);
        reveal_with_fuel(operand, 2);
        assert(eval(ops, env, at as nat) == Datum::Int(width, i));
        let divisor = op.operands[1];
        let j = divisor.def->Result_0;
        assert(defining_op(ops, divisor) == Some(ops[j as int]));
        if let OpCode::ConstInt(c) = ops[j as int].code {
            assert(constant_bits(c) == Some(count));
            if c.width < 64 {
                lemma_pow2_strictly_increases(c.width as nat, 64);
            }
            vstd::arithmetic::power2::lemma2_to64();
            assert(c.value() == count);
            if j < at {
                assert(operand(ops, env, at as nat, 1) == eval(ops, env, j as nat));
                assert(eval(ops, env, j as nat) == Datum::Int(c.width as nat, count as int));
                if let Datum::Int(_, a) = operand(ops, env, at as nat, 0) {
                    lemma_mod_bound(a, count as int);
                }
            }
        }
    }
}

/// The discriminant that a niche carrier stands for.
pub open spec fn decoded_variant(info: EnumInfo, bits: int) -> int {
    let relative = wrap(bits - info.niche_start, info.carrier_width as nat);
    if relative <= info.niche_variant_end - info.niche_variant_start {
        info.niche_variant_start + relative
    } else {
        info.untagged_variant as int
    }
}

/// Every variant of the niche range is found again from the bits that encode it.
pub proof fn law_niche_round_trip(info: EnumInfo, variant: int)
    requires
        info.layout_kind == EnumLayoutKind::Niche,
        0 < info.carrier_width <= 128,
        info.niche_variant_end - info.niche_variant_start < pow2(info.carrier_width as nat),
        info.niche_variant_start <= variant <= info.niche_variant_end,
        variant != info.untagged_variant,
    ensures
        carrier_bits(info, variant) matches Ok(Some(bits)) && decoded_variant(
            info,
            wrap(bits as int, info.carrier_width as nat),
        ) == variant,
{
    let w = info.carrier_width as nat;
    let m = pow2(w) as int;
    let offset = variant - info.niche_variant_start;
    let raw = info.niche_start + offset;
    let bits = (raw % (u128::MAX + 1)) as int;
    lemma_pow2_pos(w);
    lemma_pow2_128();
    lemma_pow2_adds(w, (128 - w) as nat);
    lemma_pow2_pos((128 - w) as nat);
    lemma_mod_mod(raw, m, pow2((128 - w) as nat) as int);
    assert(wrap(bits, w) == raw % m);
    lemma_sub_mod_noop(raw, info.niche_start as int, m);
    lemma_sub_mod_noop(raw % m, info.niche_start as int, m);
    lemma_small_mod(offset as nat, pow2(w));
    vstd::arithmetic::div_mod::lemma_mod_twice(raw, m);
    assert((raw % m - info.niche_start) % m == (raw - info.niche_start) % m);
}

/// The operations of a niche decoding at their positions: `r` of them read the
/// carrier, and `c` resize it.
spec fn niche_shape(
    emitted: Seq<OpView>,
    n: nat,
    value: Value,
    slot: u32,
    member: LlvmType,
    info: EnumInfo,
    logical_width: u32,
    r: nat,
    c: nat,
    carrier: Value,
    logical: Value,
) -> bool {
    let width = info.carrier_width;
    let carrier_ty = LlvmType::spec_int(width);
    let constant_ty = LlvmType::spec_int(logical_width);
    let relative = Value::at(n + r + 1, carrier.ty);
    let j = r + 4 + c;
    &&& emitted.len() == j + 4
    &&& emitted[0] == OpView::extract(value, slot, member)
    &&& if info.carrier_kind == EnumCarrierKind::Pointer {
        &&& r == 2
        &&& carrier == Value::at(n + 1, carrier_ty)
        &&& emitted[1] == OpView::cast(CastKind::PtrToInt, Value::at(n, member), carrier_ty)
    } else {
        r == 1 && carrier == Value::at(n, member)
    }
    &&& emitted[r as int] == OpView::int_of(info.niche_start as int, width)
    &&& emitted[r as int + 1] == OpView::binary(
        IntBinary::Sub,
        carrier,
        Value::at(n + r, carrier_ty),
    )
    &&& emitted[r as int + 2] == OpView::int_of(
        info.niche_variant_end - info.niche_variant_start,
        width,
    )
    &&& emitted[r as int + 3] == OpView::int_compare(
        IntPredicate::ULE,
        relative,
        Value::at(n + r + 2, carrier_ty),
    )
    &&& if width == logical_width {
        c == 0 && logical == relative
    } else {
        &&& c == 1
        &&& logical == Value::at(n + r + 4, info.discriminant)
        &&& emitted[r as int + 4] == OpView::cast(
            if width > logical_width {
                CastKind::Trunc
            } else {
                CastKind::ZExt
            },
            relative,
            info.discriminant,
        )
    }
    &&& emitted[j as int] == OpView::int_of(info.niche_variant_start as int, logical_width)
    &&& emitted[j as int + 1] == OpView::binary(
        IntBinary::Add,
        logical,
        Value::at(n + j, constant_ty),
    )
    &&& emitted[j as int + 2] == OpView::int_of(info.untagged_variant as int, logical_width)
    &&& emitted[j as int + 3] == OpView::select(
        Value::at(n + r + 3, LlvmType::spec_bool()),
        Value::at(n + j + 1, logical.ty),
        Value::at(n + j + 2, constant_ty),
    )
}

#[verifier::rlimit(40)]
#[verifier::spinoff_prover]
proof fn lemma_niche_shape(
    n: nat,
    value: Value,
    slot: u32,
    member: LlvmType,
    info: EnumInfo,
    logical_width: u32,
) -> (shape: (nat, nat, Value, Value))
    ensures
        niche_shape(
            niche_ops(n, value, slot, member, info, logical_width),
            n,
            value,
            slot,
            member,
            info,
            logical_width,
            shape.0,
            shape.1,
            shape.2,
            shape.3,
        ),
{
    let width = info.carrier_width;
    let carrier_ty = LlvmType::spec_int(width);
    let is_pointer = info.carrier_kind == EnumCarrierKind::Pointer;
    let r: nat = if is_pointer {
        2
    } else {
        1
    };
    let carrier = if is_pointer {
        Value::at(n + 1, carrier_ty)
    } else {
        Value::at(n, member)
    };
    let c: nat = if width == logical_width {
        0
    } else {
        1
    };
    let logical = if width == logical_width {
        Value::at(n + r + 1, carrier.ty)
    } else {
        Value::at(n + r + 4, info.discriminant)
    };
    (r, c, carrier, logical)
}

/// The carrier relative to the first niche value, and whether it is in range.
#[verifier::rlimit(40)]
#[verifier::spinoff_prover]
proof fn lemma_niche_test(
    ops: Seq<OpView>,
    emitted: Seq<OpView>,
    env: spec_fn(u64) -> Datum,
    value: Value,
    slot: u32,
    member: LlvmType,
    info: EnumInfo,
    logical_width: u32,
    r: nat,
    c: nat,
    carrier: Value,
    logical: Value,
    parts: Seq<Datum>,
    bits: int,
)
    requires
        niche_shape(
            emitted,
            ops.len(),
            value,
            slot,
            member,
            info,
            logical_width,
            r,
            c,
            carrier,
            logical,
        ),
        0 < info.carrier_width <= 128,
        info.niche_variant_start <= info.niche_variant_end,
        info.niche_variant_end - info.niche_variant_start < pow2(info.carrier_width as nat),
        available(value, ops.len()),
        datum(ops, env, value) == Datum::Aggregate(parts),
        slot < parts.len(),
        0 <= bits < pow2(info.carrier_width as nat),
        parts[slot as int] == (match info.carrier_kind {
            EnumCarrierKind::Pointer => Datum::Pointer(bits),
            EnumCarrierKind::Integer => Datum::Int(info.carrier_width as nat, bits),
        }),
        ops.len() + 11 <= usize::MAX,
    ensures
        ({
            let all = ops + emitted;
            let n = ops.len();
            let w = info.carrier_width as nat;
            let relative = wrap(bits - info.niche_start, w);
            &&& datum(all, env, Value::at(n + r + 1, carrier.ty)) == Datum::Int(w, relative)
            &&& datum(all, env, Value::at(n + r + 3, LlvmType::spec_bool())) == truth(
                relative <= info.niche_variant_end - info.niche_variant_start,
            )
        }),
{
    let n = ops.len();
    let width = info.carrier_width;
    let w = width as nat;
    let all = ops + emitted;
    let range = info.niche_variant_end - info.niche_variant_start;
    lemma_pow2_pos(w);
    lemma_datum_prefix(ops, emitted, env, value);
    lemma_small_mod(bits as nat, pow2(w));
    assert(datum(all, env, carrier) == Datum::Int(w, bits)) by {
        lemma_emitted(ops, emitted, env, 0);
        if info.carrier_kind == EnumCarrierKind::Pointer {
            lemma_emitted(ops, emitted, env, 1);
        }
    }
    let relative = Value::at(n + r + 1, carrier.ty);
    assert(datum(all, env, relative) == Datum::Int(w, wrap(bits - info.niche_start, w))) by {
        lemma_value_of_int(info.niche_start as int, width);
        lemma_emitted(ops, emitted, env, r);
        lemma_emitted(ops, emitted, env, r + 1);
        lemma_sub_mod_noop(bits, info.niche_start as int, pow2(w) as int);
    }
    lemma_value_of_int(range, width);
    lemma_small_mod(range as nat, pow2(w));
    lemma_emitted(ops, emitted, env, r + 2);
    lemma_emitted(ops, emitted, env, r + 3);
}

/// The variant index at the width of the discriminant, and the choice between
/// it and the untagged variant.
#[verifier::rlimit(40)]
#[verifier::spinoff_prover]
proof fn lemma_niche_choice(
    ops: Seq<OpView>,
    emitted: Seq<OpView>,
    env: spec_fn(u64) -> Datum,
    value: Value,
    slot: u32,
    member: LlvmType,
    info: EnumInfo,
    logical_width: u32,
    r: nat,
    c: nat,
    carrier: Value,
    logical: Value,
    relative: int,
    in_range: bool,
)
    requires
        niche_shape(
            emitted,
            ops.len(),
            value,
            slot,
            member,
            info,
            logical_width,
            r,
            c,
            carrier,
            logical,
        ),
        0 < logical_width,
        info.discriminant.spec_int_width() == Some(logical_width),
        0 <= relative < pow2(info.carrier_width as nat),
        datum(ops + emitted, env, Value::at(ops.len() + r + 1, carrier.ty)) == Datum::Int(
            info.carrier_width as nat,
            relative,
        ),
        datum(ops + emitted, env, Value::at(ops.len() + r + 3, LlvmType::spec_bool())) == truth(
            in_range,
        ),
        ops.len() + 11 <= usize::MAX,
    ensures
        eval(ops + emitted, env, (ops.len() + emitted.len() - 1) as nat) == Datum::Int(
            logical_width as nat,
            wrap(
                if in_range {
                    info.niche_variant_start + relative
                } else {
                    info.untagged_variant as int
                },
                logical_width as nat,
            ),
        ),
{
    let n = ops.len();
    let w = info.carrier_width as nat;
    let lw = logical_width as nat;
    let all = ops + emitted;
    let j = r + 4 + c;
    lemma_pow2_pos(lw);
    assert(datum(all, env, logical) == Datum::Int(lw, wrap(relative, lw))) by {
        if info.carrier_width == logical_width {
            lemma_small_mod(relative as nat, pow2(lw));
        } else {
            lemma_emitted(ops, emitted, env, r + 4);
            if info.carrier_width < logical_width {
                lemma_pow2_strictly_increases(w, lw);
                lemma_small_mod(relative as nat, pow2(lw));
            }
        }
    }
    assert(datum(all, env, Value::at(n + j + 1, logical.ty)) == Datum::Int(
        lw,
        wrap(info.niche_variant_start + relative, lw),
    )) by {
        lemma_value_of_int(info.niche_variant_start as int, logical_width);
        lemma_emitted(ops, emitted, env, j);
        lemma_emitted(ops, emitted, env, j + 1);
        lemma_add_mod_noop(relative, info.niche_variant_start as int, pow2(lw) as int);
    }
    lemma_value_of_int(info.untagged_variant as int, logical_width);
    lemma_emitted(ops, emitted, env, j + 2);
    lemma_emitted(ops, emitted, env, j + 3);
}

/// Reading the discriminant of a niched enum decodes its carrier.
pub proof fn lemma_niche_discriminant(
    ops: Seq<OpView>,
    env: spec_fn(u64) -> Datum,
    value: Value,
    slot: u32,
    member: LlvmType,
    info: EnumInfo,
    logical_width: u32,
    parts: Seq<Datum>,
    bits: int,
)
    requires
        0 < info.carrier_width <= 128,
        0 < logical_width,
        info.discriminant.spec_int_width() == Some(logical_width),
        info.niche_variant_start <= info.niche_variant_end,
        info.niche_variant_end - info.niche_variant_start < pow2(info.carrier_width as nat),
        available(value, ops.len()),
        datum(ops, env, value) == Datum::Aggregate(parts),
        slot < parts.len(),
        0 <= bits < pow2(info.carrier_width as nat),
        parts[slot as int] == (match info.carrier_kind {
            EnumCarrierKind::Pointer => Datum::Pointer(bits),
            EnumCarrierKind::Integer => Datum::Int(info.carrier_width as nat, bits),
        }),
        ops.len() + 11 <= usize::MAX,
    ensures
        ({
            let emitted = niche_ops(ops.len(), value, slot, member, info, logical_width);
            eval(ops + emitted, env, (ops.len() + emitted.len() - 1) as nat) == Datum::Int(
                logical_width as nat,
                wrap(decoded_variant(info, bits), logical_width as nat),
            )
        }),
{
    let emitted = niche_ops(ops.len(), value, slot, member, info, logical_width);
    let (r, c, carrier, logical) = lemma_niche_shape(
        ops.len(),
        value,
        slot,
        member,
        info,
        logical_width,
    );
    lemma_niche_test(
        ops,
        emitted,
        env,
        value,
        slot,
        member,
        info,
        logical_width,
        r,
        c,
        carrier,
        logical,
        parts,
        bits,
    );
    let relative = wrap(bits - info.niche_start, info.carrier_width as nat);
    lemma_pow2_pos(info.carrier_width as nat);
    lemma_mod_bound(bits - info.niche_start, pow2(info.carrier_width as nat) as int);
    lemma_niche_choice(
        ops,
        emitted,
        env,
        value,
        slot,
        member,
        info,
        logical_width,
        r,
        c,
        carrier,
        logical,
        relative,
        relative <= info.niche_variant_end - info.niche_variant_start,
    );
}

/// An array that is copied to a stack slot has its element at the index there.
proof fn lemma_memory_extract(
    ops: Seq<OpView>,
    env: spec_fn(u64) -> Datum,
    array: Value,
    index: Value,
    info: ArrayInfo,
    width: nat,
    elements: Seq<Datum>,
    i: int,
)
    requires
        available(array, ops.len()),
        array.ty == LlvmType::Array(Box::new(info.element), info.size),
        datum(ops, env, array) == Datum::Aggregate(elements),
        elements.len() == info.size,
        holds_int(ops, env, index, width, i),
        2 * i < pow2(width),
        0 <= i < info.size,
        laid_out(info.element),
        fits(elements[i], info.element),
        ops.len() + 5 <= usize::MAX,
    ensures
        ({
            let out = memory_extract(ops, array, index, info);
            &&& out.result matches Ok(Some(value))
            &&& datum(out.ops, env, value) == elements[i]
        }),
{
    let n = ops.len();
    let out = memory_extract(ops, array, index, info);
    let emitted = out.ops.skip(n as int);
    assert(out.ops =~= ops + emitted);
    lemma_spilled(ops, emitted, env, array);
    lemma_datum_prefix(ops, emitted, env, index);
    assert(emitted[3].operands[0] == Value::at(n + 1, LlvmType::Pointer(0)));
    assert(emitted[3].indices[0] == Index::Const(0));
    assert(emitted[3].indices[1] == Index::Dynamic(index));
    lemma_accessed(ops, emitted, env, 3);
    assert(emitted[4].operands[0] == Value::at(n + 3, LlvmType::Pointer(0)));
    lemma_accessed(ops, emitted, env, 4);
    let element = info.element;
    let size = size_of(element) as int;
    let bytes = stack_at(out.ops, env, n + 4)((n + 1) as nat);
    let at = i * size;
    assert(size_of(array.ty) == info.size as nat * size_of(element));
    assert forall|k: int| 0 <= k < size implies #[trigger] at_offset(bytes, at, k) == byte(
        elements[i],
        element,
        k,
    ) by {
        lemma_byte_of_item(i, k, size, info.size as int);
        assert(at_offset(bytes, 0, at + k) == byte(datum(ops, env, array), array.ty, at + k));
    }
    lemma_read_back(bytes, at, element, elements[i]);
    assert(0 * size_of(array.ty) + i * size_of(element) == at);
}

/// The element of an array at an index is the one that is read: without memory
/// where the index is provably bounded, else from a stack slot that the array is
/// copied to.
pub proof fn law_extract_element(
    ops: Seq<OpView>,
    env: spec_fn(u64) -> Datum,
    array: Value,
    index: Value,
    info: ArrayInfo,
    limit: u64,
    width: u32,
    elements: Seq<Datum>,
    i: int,
)
    requires
        limit <= u32::MAX,
        normal_constants(ops),
        available(array, ops.len()),
        array.ty == LlvmType::Array(Box::new(info.element), info.size),
        datum(ops, env, array) == Datum::Aggregate(elements),
        elements.len() == info.size,
        index.ty.spec_int_width() == Some(width),
        width > 0,
        holds_int(ops, env, index, width as nat, i),
        candidate_count(ops, index, info.size, limit) is None ==> {
            &&& i < info.size
            &&& 2 * i < pow2(width as nat)
            &&& laid_out(info.element)
            &&& fits(elements[i], info.element)
        },
        ops.len() + 5 + 4 * limit <= usize::MAX,
    ensures
        ({
            let out = extract_element(ops, array, index, Some(info), limit);
            &&& out.result matches Ok(Some(value))
            &&& datum(out.ops, env, value) == elements[i]
        }),
{
    match candidate_count(ops, index, info.size, limit) {
        Some(count) => {
            law_candidates_cover(ops, env, index, info.size, limit, width as nat, i);
            law_bounded_extract(ops, env, array, index, count, width, elements, i);
        },
        None => {
            lemma_memory_extract(ops, env, array, index, info, width as nat, elements, i);
        },
    }
}

/// The slot of the `p`-th field in an order of fields.
pub open spec fn ordered_slot(slots: Seq<Option<u32>>, order: Seq<usize>, p: int) -> Option<u32> {
    slots[order[p] as int]
}

/// The fields of `order` have different slots, all within the aggregate.
pub open spec fn separate_slots(
    slots: Seq<Option<u32>>,
    order: Seq<usize>,
    members: nat,
) -> bool {
    &&& forall|p: int|
        0 <= p < order.len() ==> order[p] < slots.len() && (#[trigger] ordered_slot(
            slots,
            order,
            p,
        ) matches Some(slot) ==> slot < members)
    &&& forall|p: int, q: int|
        0 <= p < q < order.len() && #[trigger] ordered_slot(slots, order, p) is Some
            ==> ordered_slot(slots, order, p) != #[trigger] ordered_slot(slots, order, q)
}

/// What a chain of insertions has built after `n` fields.
proof fn lemma_insert_fields(
    before: Seq<OpView>,
    begun: Seq<OpView>,
    env: spec_fn(u64) -> Datum,
    start: Value,
    operands: Seq<Value>,
    slots: Seq<Option<u32>>,
    order: Seq<usize>,
    members: nat,
    n: nat,
    blank: Seq<Datum>,
) -> (parts: Seq<Datum>)
    requires
        n <= order.len(),
        before.is_prefix_of(begun),
        separate_slots(slots, order, members),
        operands.len() == slots.len(),
        forall|f: int|
            0 <= f < operands.len() ==> available(#[trigger] operands[f], before.len()),
        available(start, begun.len()),
        datum(begun, env, start) == Datum::Aggregate(blank),
        blank.len() == members,
        begun.len() + order.len() <= usize::MAX,
    ensures
        ({
            let (built, value) = insert_fields(begun, start, operands, slots, order, n);
            &&& begun.is_prefix_of(built)
            &&& built.len() <= begun.len() + n
            &&& value.ty == start.ty
            &&& available(value, built.len())
            &&& datum(built, env, value) == Datum::Aggregate(parts)
            &&& parts.len() == members
            &&& forall|p: int|
                0 <= p < n ==> (#[trigger] ordered_slot(slots, order, p) matches Some(slot)
                    ==> parts[slot as int] == datum(before, env, operands[order[p] as int]))
        }),
    decreases n,
{
    if n == 0 {
        assert(begun + Seq::empty() =~= begun);
        blank
    } else {
        let parts = lemma_insert_fields(
            before,
            begun,
            env,
            start,
            operands,
            slots,
            order,
            members,
            (n - 1) as nat,
            blank,
        );
        let (mid, current) = insert_fields(
            begun,
            start,
            operands,
            slots,
            order,
            (n - 1) as nat,
        );
        let p = n - 1;
        let field = order[p] as int;
        match ordered_slot(slots, order, p) {
            None => parts,
            Some(slot) => {
                let emitted = seq![OpView::insert(current, operands[field], slot)];
                assert(mid.push(emitted[0]) =~= mid + emitted);
                assert(available(operands[field], before.len()));
                assert(before + mid.skip(before.len() as int) =~= mid);
                lemma_datum_prefix(before, mid.skip(before.len() as int), env, operands[field]);
                lemma_datum_prefix(mid, emitted, env, operands[field]);
                lemma_datum_prefix(mid, emitted, env, current);
                lemma_emitted(mid, emitted, env, 0);
                let next = parts.update(
                    slot as int,
                    datum(before, env, operands[field]),
                );
                assert forall|q: int| 0 <= q < n implies (#[trigger] ordered_slot(
                    slots,
                    order,
                    q,
                ) matches Some(other) ==> next[other as int] == datum(
                    before,
                    env,
                    operands[order[q] as int],
                )) by {
                    if q < p && ordered_slot(slots, order, q) is Some {
                        assert(ordered_slot(slots, order, q) != ordered_slot(slots, order, p));
                    }
                }
                next
            },
        }
    }
}

proof fn lemma_last_struct(history: Seq<MirType>, n: nat)
    ensures
        match last_struct(history, n) {
            Some(at) => 0 <= at < n && history[at] is Struct && forall|j: int|
                at < j < n ==> (#[trigger] history[j]) !is Struct,
            None => forall|j: int| 0 <= j < n ==> (#[trigger] history[j]) !is Struct,
        },
    decreases n,
{
    if n > 0 {
        lemma_last_struct(history, (n - 1) as nat);
    }
}

proof fn lemma_last_tuple(history: Seq<MirType>, n: nat)
    ensures
        match last_tuple(history, n) {
            Some(at) => 0 <= at < n && history[at] is Tuple && forall|j: int|
                at < j < n ==> (#[trigger] history[j]) !is Tuple,
            None => forall|j: int| 0 <= j < n ==> (#[trigger] history[j]) !is Tuple,
        },
    decreases n,
{
    if n > 0 {
        lemma_last_tuple(history, (n - 1) as nat);
    }
}

/// The slots that count are those of the most recent struct; a tuple counts only
/// where no struct was recorded, and then the most recent one.
pub proof fn law_mapped_type(history: Seq<MirType>)
    ensures
        match mapped_type(history) {
            Some(at) => 0 <= at < history.len() && match history[at] {
                MirType::Struct(_, _, _, _) => forall|j: int|
                    at < j < history.len() ==> (#[trigger] history[j]) !is Struct,
                MirType::Tuple(_, _) => forall|j: int|
                    0 <= j < history.len() ==> (#[trigger] history[j]) !is Struct && (at < j
                        ==> history[j] !is Tuple),
                _ => false,
            },
            None => forall|j: int|
                0 <= j < history.len() ==> (#[trigger] history[j]) !is Struct && history[j]
                    !is Tuple,
        },
{
    lemma_last_struct(history, history.len());
    lemma_last_tuple(history, history.len());
}

impl StructInfo {
    /// The description of a struct or tuple fits together: the fields that occupy
    /// memory have slots of their own in the LLVM struct, and the memory order
    /// names each field once.
    pub open spec fn sound(self) -> bool {
        let slots = self.map.decl_to_llvm@;
        let order = self.mem_to_decl@;
        &&& self.wf()
        &&& self.map.struct_ty is Struct
        &&& forall|f: int|
            0 <= f < slots.len() ==> (#[trigger] slots[f] matches Some(slot) ==> slot
                < self.map.struct_ty->Struct_0.types().len())
        &&& forall|f: int, g: int|
            0 <= f < g < slots.len() && #[trigger] slots[f] is Some ==> slots[f]
                != #[trigger] slots[g]
        &&& forall|p: int, q: int|
            0 <= p < q < order.len() ==> #[trigger] order[p] != #[trigger] order[q]
        &&& forall|f: usize| f < slots.len() ==> #[trigger] order.contains(f)
    }
}

/// An order of the fields: each once.
spec fn orders(order: Seq<usize>, n: nat) -> bool {
    &&& forall|p: int| 0 <= p < order.len() ==> #[trigger] order[p] < n
    &&& forall|p: int, q: int|
        0 <= p < q < order.len() ==> #[trigger] order[p] != #[trigger] order[q]
    &&& forall|f: usize| f < n ==> #[trigger] order.contains(f)
    &&& order.len() <= n
}

/// A field that was built in some order of the fields is the one that is read.
proof fn lemma_ordered_field(
    ops: Seq<OpView>,
    env: spec_fn(u64) -> Datum,
    operands: Seq<Value>,
    info: StructInfo,
    order: Seq<usize>,
    field: u32,
    aggregate: Operand,
    maps: Seq<Option<StructSlotMap>>,
    at: int,
)
    requires
        info.sound(),
        operands.len() == info.map.decl_to_llvm@.len(),
        orders(order, operands.len()),
        forall|f: int| 0 <= f < operands.len() ==> available(#[trigger] operands[f], ops.len()),
        field < operands.len(),
        construct_fields(ops, operands, info, order).result == Ok::<_, LowerError>(
            Some(aggregate.value),
        ),
        mapped_type(aggregate.history@) == Some(at),
        0 <= at <= usize::MAX,
        at < maps.len(),
        maps[at] == Some(info.map),
        ops.len() + 2 + operands.len() <= usize::MAX,
    ensures
        field_read(
            construct_fields(ops, operands, info, order).ops,
            env,
            aggregate,
            field,
            maps,
            field_given(ops, env, operands, info, field),
        ),
{
    let slots = info.map.decl_to_llvm@;
    let ty = info.map.struct_ty;
    let members = ty->Struct_0.types().len();
    let emitted = seq![OpView::undef(ty)];
    let begun = ops.push(OpView::undef(ty));
    assert(begun =~= ops + emitted);
    lemma_emitted(ops, emitted, env, 0);
    lemma_undefined(ty);
    assert(separate_slots(slots, order, members)) by {
        assert forall|p: int| 0 <= p < order.len() implies order[p] < slots.len() && (
        #[trigger] ordered_slot(slots, order, p) matches Some(slot) ==> slot < members) by {
            assert(order[p] < operands.len());
            assert(slots[order[p] as int] == ordered_slot(slots, order, p));
        }
        assert forall|p: int, q: int|
            0 <= p < q < order.len() && #[trigger] ordered_slot(slots, order, p) is Some implies
            ordered_slot(slots, order, p) != #[trigger] ordered_slot(slots, order, q) by {
            assert(order[p] != order[q]);
            let (f, g) = (order[p] as int, order[q] as int);
            assert(slots[f] == ordered_slot(slots, order, p));
            assert(slots[g] == ordered_slot(slots, order, q));
        }
    }
    lemma_insert_fields(
        ops,
        begun,
        env,
        Value::at(ops.len(), ty),
        operands,
        slots,
        order,
        members,
        order.len(),
        undefined(ty)->Aggregate_0,
    );
    let built = construct_fields(ops, operands, info, order).ops;
    match slots[field as int] {
        Some(slot) => {
            assert(order.contains(field as usize));
            let p = choose|p: int| 0 <= p < order.len() && order[p] == field as usize;
            assert(ordered_slot(slots, order, p) == Some(slot));
            lemma_read_slot(built, env, aggregate, field, maps, slot);
        },
        None => {
            let empty = seq![OpView::undef(info.map.field_types@[field as int])];
            assert(built.push(empty[0]) =~= built + empty);
            lemma_emitted(built, empty, env, 0);
        },
    }
}

/// Reading a field of an aggregate gives `expected`.
pub open spec fn field_read(
    ops: Seq<OpView>,
    env: spec_fn(u64) -> Datum,
    aggregate: Operand,
    field: u32,
    maps: Seq<Option<StructSlotMap>>,
    expected: Datum,
) -> bool {
    let out = extract_field(ops, aggregate, Some(field), maps);
    &&& out.result matches Ok(Some(read))
    &&& datum(out.ops, env, read) == expected
}

/// What was given for a field; an arbitrary value of one that occupies no
/// memory.
pub open spec fn field_given(
    ops: Seq<OpView>,
    env: spec_fn(u64) -> Datum,
    operands: Seq<Value>,
    info: StructInfo,
    field: u32,
) -> Datum {
    if info.map.decl_to_llvm@[field as int] is Some {
        datum(ops, env, operands[field as int])
    } else {
        undefined(info.map.field_types@[field as int])
    }
}

/// A field of a sound struct or tuple that was built is the one that is read. A
/// field that occupies no memory is read as an arbitrary value.
pub proof fn law_constructed_field(
    ops: Seq<OpView>,
    env: spec_fn(u64) -> Datum,
    operands: Seq<Value>,
    info: StructInfo,
    is_tuple: bool,
    field: u32,
    aggregate: Operand,
    maps: Seq<Option<StructSlotMap>>,
    at: int,
)
    requires
        info.sound(),
        operands.len() == info.map.decl_to_llvm@.len(),
        forall|f: int| 0 <= f < operands.len() ==> available(#[trigger] operands[f], ops.len()),
        field < operands.len(),
        ({
            let built = if is_tuple {
                construct_tuple(ops, operands, Some(info))
            } else {
                construct_struct(ops, operands, Some(info))
            };
            built.result == Ok::<_, LowerError>(Some(aggregate.value))
        }),
        mapped_type(aggregate.history@) == Some(at),
        0 <= at <= usize::MAX,
        at < maps.len(),
        maps[at] == Some(info.map),
        ops.len() + 2 + operands.len() <= usize::MAX,
    ensures
        ({
            let built = if is_tuple {
                construct_tuple(ops, operands, Some(info))
            } else {
                construct_struct(ops, operands, Some(info))
            };
            field_read(
                built.ops,
                env,
                aggregate,
                field,
                maps,
                field_given(ops, env, operands, info, field),
            )
        }),
{
    let n = operands.len();
    let order = if is_tuple {
        declared_order(n)
    } else {
        info.mem_to_decl@
    };
    if is_tuple {
        assert forall|f: usize| f < n implies #[trigger] order.contains(f) by {
            assert(order[f as int] == f);
        }
    } else {
        lemma_order_length(order, n);
    }
    assert(orders(order, n));
    lemma_ordered_field(ops, env, operands, info, order, field, aggregate, maps, at);
}

/// Different numbers below `n` are at most `n` many.
proof fn lemma_order_length(order: Seq<usize>, n: nat)
    requires
        forall|p: int| 0 <= p < order.len() ==> #[trigger] order[p] < n,
        forall|p: int, q: int|
            0 <= p < q < order.len() ==> #[trigger] order[p] != #[trigger] order[q],
    ensures
        order.len() <= n,
{
    let numbers = order.map_values(|f: usize| f as int);
    assert(numbers.no_duplicates());
    let all = vstd::set_lib::set_int_range(0, n as int);
    vstd::set_lib::lemma_int_range(0, n as int);
    numbers.unique_seq_to_set();
    assert(numbers.to_set().subset_of(all));
    vstd::set_lib::lemma_len_subset(numbers.to_set(), all);
}

/// Reading a field extracts the member in its slot.
proof fn lemma_read_slot(
    ops: Seq<OpView>,
    env: spec_fn(u64) -> Datum,
    aggregate: Operand,
    field: u32,
    maps: Seq<Option<StructSlotMap>>,
    slot: u32,
)
    requires
        member_of(aggregate, maps, field) == Ok::<_, LowerError>(Some(slot)),
        available(aggregate.value, ops.len()),
        datum(ops, env, aggregate.value) is Aggregate,
        member_count(aggregate.value.ty) == Some(
            datum(ops, env, aggregate.value)->Aggregate_0.len(),
        ),
        slot < datum(ops, env, aggregate.value)->Aggregate_0.len(),
        ops.len() < usize::MAX,
    ensures
        ({
            let out = extract_field(ops, aggregate, Some(field), maps);
            &&& out.result matches Ok(Some(read))
            &&& datum(out.ops, env, read) == datum(ops, env, aggregate.value)->Aggregate_0[slot
                as int]
        }),
{
    let member = aggregate.value.ty.spec_member(slot).unwrap();
    let emitted = seq![OpView::extract(aggregate.value, slot, member)];
    assert(ops.push(emitted[0]) =~= ops + emitted);
    lemma_datum_prefix(ops, emitted, env, aggregate.value);
    lemma_emitted(ops, emitted, env, 0);
}

/// A field that was replaced is the new value, and a field in another slot is
/// what it was.
pub proof fn law_replaced_field(
    ops: Seq<OpView>,
    env: spec_fn(u64) -> Datum,
    aggregate: Operand,
    new_value: Value,
    field: u32,
    replaced: Operand,
    other: u32,
    maps: Seq<Option<StructSlotMap>>,
    slot: u32,
    other_slot: u32,
    parts: Seq<Datum>,
)
    requires
        member_of(aggregate, maps, field) == Ok::<_, LowerError>(Some(slot)),
        member_of(aggregate, maps, other) == Ok::<_, LowerError>(Some(other_slot)),
        available(aggregate.value, ops.len()),
        available(new_value, ops.len()),
        datum(ops, env, aggregate.value) == Datum::Aggregate(parts),
        member_count(aggregate.value.ty) == Some(parts.len()),
        slot < parts.len(),
        other_slot < parts.len(),
        insert_field(ops, aggregate, new_value, Some(field), maps).result == Ok::<_, LowerError>(
            Some(replaced.value),
        ),
        replaced.history@ == aggregate.history@,
        ops.len() + 2 <= usize::MAX,
    ensures
        ({
            let built = insert_field(ops, aggregate, new_value, Some(field), maps).ops;
            let out = extract_field(built, replaced, Some(other), maps);
            &&& out.result matches Ok(Some(read))
            &&& datum(out.ops, env, read) == if other_slot == slot {
                datum(ops, env, new_value)
            } else {
                parts[other_slot as int]
            }
        }),
{
    let emitted = seq![OpView::insert(aggregate.value, new_value, slot)];
    let built = insert_field(ops, aggregate, new_value, Some(field), maps).ops;
    assert(built =~= ops + emitted);
    lemma_datum_prefix(ops, emitted, env, aggregate.value);
    lemma_datum_prefix(ops, emitted, env, new_value);
    lemma_emitted(ops, emitted, env, 0);
    lemma_read_slot(built, env, replaced, other, maps, other_slot);
}

/// What a carrier holds for given bits.
pub open spec fn carrier_datum(info: EnumInfo, ty: LlvmType, bits: u128) -> Datum {
    match info.carrier_kind {
        EnumCarrierKind::Integer => {
            let width = ty.spec_int_width().unwrap() as nat;
            Datum::Int(width, wrap(bits as int, width))
        },
        EnumCarrierKind::Pointer => Datum::Pointer(wrap(bits as int, info.carrier_width as nat)),
    }
}

/// The carrier has a slot, of a type that can hold it.
pub open spec fn carrier_held(info: EnumInfo, slot: u32, ty: LlvmType, members: nat) -> bool {
    &&& info.slots.carrier_slot == Some(slot)
    &&& info.slots.carrier_ty == Some(ty)
    &&& slot < members
    &&& member_count(info.slots.struct_ty) == Some(members)
    &&& match info.carrier_kind {
        EnumCarrierKind::Integer => ty matches LlvmType::Integer(width, _) && 0 < width <= 128,
        EnumCarrierKind::Pointer => ty is Pointer && 0 < info.carrier_width <= 128,
    }
}

/// The payload fields from number `base` on, `n` of them, have slots other than
/// `slot`.
pub open spec fn payloads_avoid(
    info: EnumInfo,
    base: nat,
    n: nat,
    slot: u32,
    members: nat,
) -> bool {
    forall|f: int|
        base <= f < base + n && f < info.slots.field_slots@.len() ==> (
        #[trigger] info.slots.field_slots@[f] matches Some(other) ==> other != slot && other
            < members)
}

/// The bits of the variant stand in the carrier before any payload.
pub proof fn lemma_start_variant(
    ops: Seq<OpView>,
    env: spec_fn(u64) -> Datum,
    info: EnumInfo,
    variant: nat,
    slot: u32,
    ty: LlvmType,
    members: nat,
    bits: u128,
) -> (parts: Seq<Datum>)
    requires
        carrier_held(info, slot, ty, members),
        carrier_bits(info, variant as int) == Ok::<_, LowerError>(Some(bits)),
        ops.len() + 4 <= usize::MAX,
    ensures
        ({
            let begun = start_variant(ops, info, variant);
            &&& begun.error is None
            &&& begun.deferred.len() == 0
            &&& ops.is_prefix_of(begun.ops)
            &&& begun.ops.len() <= ops.len() + 4
            &&& begun.value.ty == info.slots.struct_ty
            &&& available(begun.value, begun.ops.len())
            &&& datum(begun.ops, env, begun.value) == Datum::Aggregate(parts)
            &&& parts.len() == members
            &&& parts[slot as int] == carrier_datum(info, ty, bits)
        }),
{
    let struct_ty = info.slots.struct_ty;
    let begun = start_variant(ops, info, variant);
    let carrier = carrier_ops(ops.len() + 1, info, ty, bits).unwrap();
    let k = carrier.len();
    let insert = OpView::insert(
        Value::at(ops.len(), struct_ty),
        Value::at((ops.len() + k) as nat, ty),
        slot,
    );
    let emitted = seq![OpView::undef(struct_ty)] + carrier + seq![insert];
    let all = ops + emitted;
    assert(begun.ops =~= all);
    let blank = undefined(struct_ty)->Aggregate_0;
    let undef = Value::at(ops.len(), struct_ty);
    let held = Value::at((ops.len() + k) as nat, ty);
    assert(datum(all, env, undef) == Datum::Aggregate(blank) && blank.len() == members) by {
        lemma_undefined(struct_ty);
        assert(emitted[0] == OpView::undef(struct_ty));
        lemma_emitted(ops, emitted, env, 0);
    }
    assert(datum(all, env, held) == carrier_datum(info, ty, bits)) by {
        assert(emitted[1] == carrier[0]);
        match info.carrier_kind {
            EnumCarrierKind::Integer => {
                lemma_value_of_int(bits as int, ty->Integer_0);
                lemma_emitted(ops, emitted, env, 1);
            },
            EnumCarrierKind::Pointer => {
                lemma_value_of_int(bits as int, info.carrier_width);
                lemma_emitted(ops, emitted, env, 1);
                assert(emitted[2] == carrier[1]);
                lemma_emitted(ops, emitted, env, 2);
            },
        }
    }
    assert(emitted[k as int + 1] == insert);
    assert(insert.operands[0] == undef && insert.operands[1] == held);
    lemma_emitted(ops, emitted, env, k + 1);
    blank.update(slot as int, carrier_datum(info, ty, bits))
}

/// Payload fields with slots of their own leave the carrier alone.
pub proof fn lemma_payloads_keep_carrier(
    build: EnumBuild,
    env: spec_fn(u64) -> Datum,
    info: EnumInfo,
    slot: u32,
    members: nat,
    base: nat,
    operands: Seq<Value>,
    n: nat,
    parts: Seq<Datum>,
) -> (after: Seq<Datum>)
    requires
        n <= operands.len(),
        payloads_avoid(info, base, operands.len(), slot, members),
        slot < members,
        add_payloads(build, info.slots, base, operands, n).error is None,
        available(build.value, build.ops.len()),
        datum(build.ops, env, build.value) == Datum::Aggregate(parts),
        parts.len() == members,
        build.ops.len() + 2 * operands.len() <= usize::MAX,
    ensures
        ({
            let built = add_payloads(build, info.slots, base, operands, n);
            &&& build.ops.is_prefix_of(built.ops)
            &&& built.ops.len() <= build.ops.len() + 2 * n
            &&& built.value.ty == build.value.ty
            &&& available(built.value, built.ops.len())
            &&& datum(built.ops, env, built.value) == Datum::Aggregate(after)
            &&& after.len() == members
            &&& after[slot as int] == parts[slot as int]
        }),
    decreases n,
{
    if n == 0 {
        parts
    } else {
        let before = add_payloads(build, info.slots, base, operands, (n - 1) as nat);
        let flat = (base + n - 1) as nat;
        let operand = operands[n - 1];
        assert(add_payload(before, info.slots, flat, operand).error is None);
        let mid = lemma_payloads_keep_carrier(
            build,
            env,
            info,
            slot,
            members,
            base,
            operands,
            (n - 1) as nat,
            parts,
        );
        match info.slots.field_slots@[flat as int] {
            None => mid,
            Some(other) => {
                let storage = info.slots.struct_ty.spec_member(other).unwrap();
                let at = before.ops.len();
                let emitted = seq![
                    OpView::coerce(Coercion::PayloadStorage, operand, storage),
                    OpView::insert(before.value, Value::at(at, storage), other),
                ];
                let built = add_payload(before, info.slots, flat, operand);
                assert(built.ops =~= before.ops + emitted);
                lemma_datum_prefix(before.ops, emitted, env, before.value);
                lemma_emitted(before.ops, emitted, env, 1);
                mid.update(
                    other as int,
                    datum(built.ops, env, Value::at(at, storage)),
                )
            },
        }
    }
}

/// The discriminant read from an enum value whose carrier holds the bits of a
/// variant is the one declared for the variant, or the variant itself under a
/// niche layout. `value` is any value that a construction of the variant may
/// have left.
pub proof fn lemma_discriminant_of_variant(
    ops: Seq<OpView>,
    env: spec_fn(u64) -> Datum,
    value: Value,
    variant: int,
    info: EnumInfo,
    slot: u32,
    ty: LlvmType,
    members: nat,
    parts: Seq<Datum>,
    bits: u128,
    logical_width: u32,
)
    requires
        carrier_held(info, slot, ty, members),
        carrier_bits(info, variant) == Ok::<_, LowerError>(Some(bits)),
        value.ty.spec_member(slot) is Some,
        available(value, ops.len()),
        datum(ops, env, value) == Datum::Aggregate(parts),
        parts.len() == members,
        parts[slot as int] == carrier_datum(info, ty, bits),
        info.discriminant.spec_int_width() == Some(logical_width),
        0 < logical_width,
        info.layout_kind == EnumLayoutKind::Niche ==> {
            &&& 0 < info.carrier_width <= 128
            &&& info.niche_variant_start <= info.niche_variant_end
            &&& info.niche_variant_end - info.niche_variant_start < pow2(
                info.carrier_width as nat,
            )
            &&& info.carrier_kind == EnumCarrierKind::Integer ==> ty.spec_int_width() == Some(
                info.carrier_width,
            )
        },
        ops.len() + 11 <= usize::MAX,
    ensures
        ({
            let emitted = get_discriminant_ops(ops.len(), seq![value], Some(info));
            &&& emitted is Ok
            &&& ({
                let read = eval(
                    ops + emitted.unwrap(),
                    env,
                    (ops.len() + emitted.unwrap().len() - 1) as nat,
                );
                match info.layout_kind {
                    EnumLayoutKind::Niche => read == Datum::Int(
                        logical_width as nat,
                        wrap(variant, logical_width as nat),
                    ),
                    _ => read == carrier_datum(info, ty, bits),
                }
            })
        }),
{
    let emitted = get_discriminant_ops(ops.len(), seq![value], Some(info)).unwrap();
    let member = value.ty.spec_member(slot).unwrap();
    lemma_datum_prefix(ops, emitted, env, value);
    match info.layout_kind {
        EnumLayoutKind::Niche => {
            let w = info.carrier_width as nat;
            lemma_pow2_pos(w);
            lemma_mod_bound(bits as int, pow2(w) as int);
            law_niche_round_trip(info, variant);
            lemma_niche_discriminant(
                ops,
                env,
                value,
                slot,
                member,
                info,
                logical_width,
                parts,
                wrap(bits as int, w),
            );
        },
        _ => {
            lemma_emitted(ops, emitted, env, 0);
        },
    }
}

/// What is found inside the outermost `n` wrappers.
pub open spec fn peeled(whole: Datum, layers: Seq<ScalarLayer>, n: nat) -> Datum
    decreases n,
{
    if n == 0 {
        whole
    } else {
        match peeled(whole, layers, (n - 1) as nat) {
            Datum::Aggregate(parts) => if layers[n - 1].field_slot < parts.len() {
                parts[layers[n - 1].field_slot as int]
            } else {
                Datum::Unknown
            },
            _ => Datum::Unknown,
        }
    }
}

/// An argument that crosses a call as a scalar is read from inside its wrappers.
pub proof fn law_unwrap_layers(
    f: Flat,
    env: spec_fn(u64) -> Datum,
    value: Value,
    layers: Seq<ScalarLayer>,
    n: nat,
)
    requires
        n <= layers.len(),
        f.error is None,
        available(value, f.ops.len()),
        unwrap_layers(f, value, layers, n).0.error is None,
        f.ops.len() + n <= usize::MAX,
    ensures
        ({
            let (read, scalar) = unwrap_layers(f, value, layers, n);
            &&& f.ops.len() <= read.ops.len() <= f.ops.len() + n
            &&& available(scalar, read.ops.len())
            &&& datum(read.ops, env, scalar) == peeled(datum(f.ops, env, value), layers, n)
        }),
    decreases n,
{
    if n > 0 {
        let (before, inner) = unwrap_layers(f, value, layers, (n - 1) as nat);
        let slot = layers[n - 1].field_slot;
        assert(before.error is None);
        law_unwrap_layers(f, env, value, layers, (n - 1) as nat);
        let member = inner.ty.spec_member(slot).unwrap();
        let emitted = seq![OpView::extract(inner, slot, member)];
        assert(before.ops.push(emitted[0]) =~= before.ops + emitted);
        lemma_datum_prefix(before.ops, emitted, env, inner);
        lemma_emitted(before.ops, emitted, env, 0);
    }
}

/// Each wrapper has the slot that its scalar stands in.
pub open spec fn layers_hold(layers: Seq<ScalarLayer>) -> bool {
    forall|i: int|
        0 <= i < layers.len() ==> (member_count((#[trigger] layers[i]).struct_ty) matches Some(n)
            && layers[i].field_slot < n)
}

/// What has been put into the innermost `n` wrappers.
proof fn lemma_rewrap(
    ops: Seq<OpView>,
    env: spec_fn(u64) -> Datum,
    scalar: Value,
    layers: Seq<ScalarLayer>,
    n: nat,
)
    requires
        n <= layers.len(),
        layers_hold(layers),
        available(scalar, ops.len()),
        ops.len() + 2 * n <= usize::MAX,
    ensures
        ({
            let (all, whole) = rewrap(ops, scalar, layers, n);
            &&& all.len() == ops.len() + 2 * n
            &&& available(whole, all.len())
            &&& peeled(datum(all, env, whole), layers.skip(layers.len() - n), n) == datum(
                ops,
                env,
                scalar,
            )
        }),
    decreases n,
{
    if n > 0 {
        lemma_rewrap(ops, env, scalar, layers, (n - 1) as nat);
        let (before, inner) = rewrap(ops, scalar, layers, (n - 1) as nat);
        let layer = layers[layers.len() - n];
        let at = before.len();
        let emitted = seq![
            OpView::undef(layer.struct_ty),
            OpView::insert(Value::at(at, layer.struct_ty), inner, layer.field_slot),
        ];
        lemma_undefined(layer.struct_ty);
        let (all, whole) = rewrap(ops, scalar, layers, n);
        assert(all =~= before + emitted);
        lemma_datum_prefix(before, emitted, env, inner);
        lemma_emitted(before, emitted, env, 0);
        lemma_emitted(before, emitted, env, 1);
        let outer = layers.skip(layers.len() - n);
        let inner_layers = layers.skip(layers.len() - n + 1);
        assert(inner_layers =~= outer.skip(1));
        assert(outer[0] == layer);
        assert(peeled(datum(all, env, whole), outer, 1) == datum(before, env, inner)) by {
            reveal_with_fuel(peeled, 2);
        }
        lemma_peel_first(datum(all, env, whole), outer, inner_layers, (n - 1) as nat);
    }
}

/// Peeling can begin with the outermost wrapper.
proof fn lemma_peel_first(
    whole: Datum,
    layers: Seq<ScalarLayer>,
    rest: Seq<ScalarLayer>,
    n: nat,
)
    requires
        n < layers.len(),
        rest == layers.skip(1),
    ensures
        peeled(whole, layers, n + 1) == peeled(peeled(whole, layers, 1), rest, n),
    decreases n,
{
    reveal_with_fuel(peeled, 2);
    if n > 0 {
        lemma_peel_first(whole, layers, rest, (n - 1) as nat);
        assert(rest[n - 1] == layers[n as int]);
    }
}

/// A result that crosses a call as a scalar is found again inside the wrappers
/// that are put around it.
pub proof fn law_rewrap(
    ops: Seq<OpView>,
    env: spec_fn(u64) -> Datum,
    scalar: Value,
    layers: Seq<ScalarLayer>,
)
    requires
        layers_hold(layers),
        available(scalar, ops.len()),
        ops.len() + 2 * layers.len() <= usize::MAX,
    ensures
        ({
            let (all, whole) = rewrap(ops, scalar, layers, layers.len());
            peeled(datum(all, env, whole), layers, layers.len()) == datum(ops, env, scalar)
        }),
{
    lemma_rewrap(ops, env, scalar, layers, layers.len());
    assert(layers.skip(0) =~= layers);
}

} // verus!
