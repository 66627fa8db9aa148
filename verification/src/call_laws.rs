//! Laws: what a call hands over, and in which order.

use crate::aggregate_laws::{law_rewrap, law_unwrap_layers, layers_hold, peeled};
use crate::call::{
    best_abi, call_result, call_type, declared_types, expected_at, expected_signature,
    first_lowered, flat_start, flatten, function_call, last_pending, law_best_abi,
    lemma_call_arg_length, matching_abi, push_arg, push_call_arg, push_fields, push_member,
    push_scalar, push_slice, push_spaces, resolved_symbol, rewrap, signature_of, unwrap_layers,
    ArgShape, Declaration, Flat, MirCall, ResultAbi, ScalarLayer, SpaceField, ADDRSPACE_GENERIC,
};
use crate::llvm::LlvmType;
use crate::lower::{LowerError, Operand};
use crate::mir::MirType;
use crate::ops::{CastKind, Coercion, OpCode, OpView, Value};
use crate::semantics::{available, datum, lemma_datum_prefix, lemma_emitted, Datum};
use crate::slots::StructInfo;
use crate::text;
use vstd::prelude::*;

verus! {

/// One of the pieces that an argument is handed over in.
pub struct Piece {
    pub holds: Datum,
    pub ty: LlvmType,
}

/// What an aggregate holds in a slot.
pub open spec fn slot_of(whole: Datum, slot: int) -> Datum {
    match whole {
        Datum::Aggregate(members) => if slot < members.len() {
            members[slot]
        } else {
            Datum::Unknown
        },
        _ => Datum::Unknown,
    }
}

/// The layout fields of a slice that occupy memory, in their order, from field
/// `i` on. They stand behind pointer and length.
pub open spec fn space_pieces(whole: Datum, spaces: Seq<SpaceField>, i: int) -> Seq<Piece>
    decreases spaces.len() - i,
{
    if i < 0 || i >= spaces.len() {
        Seq::empty()
    } else if spaces[i].zero_sized {
        space_pieces(whole, spaces, i + 1)
    } else {
        seq![Piece { holds: slot_of(whole, i + 2), ty: spaces[i].ty }] + space_pieces(
            whole,
            spaces,
            i + 1,
        )
    }
}

/// The fields of a struct that have a slot, in memory order, from position `i`
/// on.
pub open spec fn field_pieces(whole: Datum, info: StructInfo, i: int) -> Seq<Piece>
    decreases info.mem_to_decl@.len() - i,
{
    if i < 0 || i >= info.mem_to_decl@.len() {
        Seq::empty()
    } else {
        let field = info.mem_to_decl@[i] as int;
        match info.map.decl_to_llvm@[field] {
            None => field_pieces(whole, info, i + 1),
            Some(slot) => seq![
                Piece { holds: slot_of(whole, slot as int), ty: info.map.field_types@[field] },
            ] + field_pieces(whole, info, i + 1),
        }
    }
}

/// Whether a type of the history is a transparent wrapper of the parameter.
pub open spec fn wraps_parameter(shape: ArgShape, parameter: Option<LlvmType>) -> bool {
    exists|i: int|
        0 <= i < shape.transparent@.len() && (#[trigger] shape.transparent@[i]) is Some
            && parameter == Some(shape.transparent@[i].unwrap().scalar_ty)
}

/// The pieces of an argument that holds `whole`: the scalar inside a transparent
/// wrapper of the parameter; pointer, length and layout fields of a slice; the
/// fields of a struct; nothing where no memory is occupied; else the value.
pub open spec fn pieces(
    whole: Datum,
    arg: Operand,
    shape: ArgShape,
    parameter: Option<LlvmType>,
) -> Seq<Piece> {
    let history = arg.history@;
    let recorded = history.len() > 0;
    if wraps_parameter(shape, parameter) {
        let at = best_abi(shape.transparent@, parameter.unwrap(), shape.transparent@.len());
        let layers = shape.transparent@[at.unwrap()].unwrap().layers@;
        seq![Piece { holds: peeled(whole, layers, layers.len()), ty: parameter.unwrap() }]
    } else if recorded && (history.last() is Slice || history.last() is DisjointSlice) {
        seq![
            Piece { holds: slot_of(whole, 0), ty: LlvmType::Pointer(0) },
            Piece { holds: slot_of(whole, 1), ty: LlvmType::spec_int(64) },
        ] + (if history.last() is DisjointSlice {
            space_pieces(whole, shape.spaces@, 0)
        } else {
            Seq::empty()
        })
    } else if recorded && history.last() is Struct {
        field_pieces(whole, shape.structure.unwrap(), 0)
    } else if shape.zero_sized {
        Seq::empty()
    } else {
        seq![Piece { holds: whole, ty: arg.value.ty }]
    }
}

/// Whether argument `i` is handed over as the given piece, a pointer possibly
/// brought to another address space.
pub open spec fn hands_over(f: Flat, env: spec_fn(u64) -> Datum, i: int, piece: Piece) -> bool {
    let held = datum(f.ops, env, f.values[i]);
    ||| held == piece.holds && f.types[i] == piece.ty
    ||| {
        &&& piece.ty is Pointer
        &&& f.types[i] is Pointer
        &&& f.types[i] != piece.ty
        &&& held == Datum::Converted(
            CastKind::AddrSpaceCast,
            Box::new(piece.holds),
            f.types[i],
        )
    }
}

/// Whether every argument of the call is available, and has a type.
spec fn ready(f: Flat) -> bool {
    &&& f.values.len() == f.types.len()
    &&& forall|i: int| 0 <= i < f.values.len() ==> available(#[trigger] f.values[i], f.ops.len())
}

/// `g` continues `f` with the given pieces.
spec fn grown(f: Flat, g: Flat, env: spec_fn(u64) -> Datum, parts: Seq<Piece>) -> bool {
    &&& f.ops.is_prefix_of(g.ops)
    &&& f.values.is_prefix_of(g.values)
    &&& f.types.is_prefix_of(g.types)
    &&& ready(g)
    &&& g.values.len() == f.values.len() + parts.len()
    &&& forall|k: int|
        0 <= k < parts.len() ==> hands_over(g, env, f.values.len() + k, #[trigger] parts[k])
}

proof fn lemma_later(f: Flat, g: Flat, env: spec_fn(u64) -> Datum, value: Value)
    requires
        f.ops.is_prefix_of(g.ops),
        available(value, f.ops.len()),
    ensures
        available(value, g.ops.len()),
        datum(g.ops, env, value) == datum(f.ops, env, value),
{
    let more = g.ops.skip(f.ops.len() as int);
    assert(g.ops =~= f.ops + more);
    lemma_datum_prefix(f.ops, more, env, value);
}

proof fn lemma_grown_on(
    f: Flat,
    g: Flat,
    h: Flat,
    env: spec_fn(u64) -> Datum,
    first: Seq<Piece>,
    second: Seq<Piece>,
)
    requires
        ready(f),
        grown(f, g, env, first),
        grown(g, h, env, second),
    ensures
        grown(f, h, env, first + second),
{
    let parts = first + second;
    assert(f.ops.is_prefix_of(h.ops)) by {
        assert(f.ops =~= h.ops.take(f.ops.len() as int));
    }
    assert(f.values =~= h.values.take(f.values.len() as int));
    assert(f.types =~= h.types.take(f.types.len() as int));
    assert forall|k: int| 0 <= k < parts.len() implies hands_over(
        h,
        env,
        f.values.len() + k,
        #[trigger] parts[k],
    ) by {
        if k < first.len() {
            let i = f.values.len() + k;
            assert(parts[k] == first[k]);
            assert(hands_over(g, env, i, first[k]));
            assert(g.values[i] == h.values[i]);
            assert(g.types[i] == h.types[i]);
            lemma_later(g, h, env, g.values[i]);
        } else {
            assert(parts[k] == second[k - first.len()]);
            assert(hands_over(
                h,
                env,
                g.values.len() + (k - first.len()),
                second[k - first.len()],
            ));
        }
    }
}

proof fn lemma_read_grown(f: Flat, g: Flat, env: spec_fn(u64) -> Datum)
    requires
        ready(f),
        f.ops.is_prefix_of(g.ops),
        g.values == f.values,
        g.types == f.types,
    ensures
        grown(f, g, env, Seq::empty()),
{
    assert forall|i: int| 0 <= i < g.values.len() implies available(
        #[trigger] g.values[i],
        g.ops.len(),
    ) by {
        lemma_later(f, g, env, f.values[i]);
    }
}

proof fn lemma_arg_grown(
    f: Flat,
    env: spec_fn(u64) -> Datum,
    value: Value,
    ty: LlvmType,
    expected: Option<Seq<LlvmType>>,
)
    requires
        ready(f),
        available(value, f.ops.len()),
        push_arg(f, value, ty, expected).ops.len() <= usize::MAX,
    ensures
        grown(
            f,
            push_arg(f, value, ty, expected),
            env,
            seq![Piece { holds: datum(f.ops, env, value), ty }],
        ),
{
    let g = push_arg(f, value, ty, expected);
    let piece = Piece { holds: datum(f.ops, env, value), ty };
    let at = f.values.len() as int;
    assert(f.values =~= g.values.take(at));
    assert(f.types =~= g.types.take(at));
    if g.ops.len() > f.ops.len() {
        let emitted = seq![g.ops.last()];
        assert(g.ops =~= f.ops + emitted);
        lemma_datum_prefix(f.ops, emitted, env, value);
        lemma_emitted(f.ops, emitted, env, 0);
    }
    assert forall|i: int| 0 <= i < g.values.len() implies available(
        #[trigger] g.values[i],
        g.ops.len(),
    ) by {
        if i < at {
            assert(g.values[i] == f.values[i]);
        }
    }
    assert(hands_over(g, env, at, piece));
}

/// Reading a slot of an available aggregate.
proof fn lemma_read_slot(
    f: Flat,
    env: spec_fn(u64) -> Datum,
    aggregate: Value,
    slot: u32,
    ty: LlvmType,
)
    requires
        available(aggregate, f.ops.len()),
        f.ops.len() < usize::MAX,
    ensures
        ({
            let ops = f.ops.push(OpView::extract(aggregate, slot, ty));
            &&& f.ops.is_prefix_of(ops)
            &&& available(Value::at(f.ops.len(), ty), ops.len())
            &&& datum(ops, env, Value::at(f.ops.len(), ty)) == slot_of(
                datum(f.ops, env, aggregate),
                slot as int,
            )
        }),
{
    let emitted = seq![OpView::extract(aggregate, slot, ty)];
    assert(f.ops.push(emitted[0]) =~= f.ops + emitted);
    lemma_datum_prefix(f.ops, emitted, env, aggregate);
    lemma_emitted(f.ops, emitted, env, 0);
}

proof fn lemma_member_grown(
    f: Flat,
    env: spec_fn(u64) -> Datum,
    aggregate: Value,
    slot: u32,
    ty: LlvmType,
    expected: Option<Seq<LlvmType>>,
)
    requires
        ready(f),
        available(aggregate, f.ops.len()),
        push_member(f, aggregate, slot, ty, expected).error is None,
        push_member(f, aggregate, slot, ty, expected).ops.len() <= usize::MAX,
    ensures
        grown(
            f,
            push_member(f, aggregate, slot, ty, expected),
            env,
            seq![Piece { holds: slot_of(datum(f.ops, env, aggregate), slot as int), ty }],
        ),
{
    let member = aggregate.ty.spec_member(slot).unwrap();
    let read = Flat { ops: f.ops.push(OpView::extract(aggregate, slot, member)), ..f };
    let value = Value::at(f.ops.len(), member);
    lemma_read_slot(f, env, aggregate, slot, member);
    lemma_read_grown(f, read, env);
    lemma_arg_grown(read, env, value, ty, expected);
    let part = seq![Piece { holds: datum(read.ops, env, value), ty }];
    lemma_grown_on(f, read, push_arg(read, value, ty, expected), env, Seq::empty(), part);
    assert(Seq::<Piece>::empty() + part =~= part);
}

/// The layout fields before position `n`.
spec fn spaces_before(whole: Datum, spaces: Seq<SpaceField>, n: nat) -> Seq<Piece>
    decreases n,
{
    if n == 0 {
        Seq::empty()
    } else if spaces[n - 1].zero_sized {
        spaces_before(whole, spaces, (n - 1) as nat)
    } else {
        spaces_before(whole, spaces, (n - 1) as nat).push(
            Piece { holds: slot_of(whole, n as int + 1), ty: spaces[n - 1].ty },
        )
    }
}

proof fn lemma_spaces_before(whole: Datum, spaces: Seq<SpaceField>, n: nat)
    requires
        n <= spaces.len(),
    ensures
        spaces_before(whole, spaces, n) + space_pieces(whole, spaces, n as int) == space_pieces(
            whole,
            spaces,
            0,
        ),
    decreases n,
{
    if n > 0 {
        lemma_spaces_before(whole, spaces, (n - 1) as nat);
    }
    assert(spaces_before(whole, spaces, n) + space_pieces(whole, spaces, n as int)
        =~= space_pieces(whole, spaces, 0));
}

/// The fields before position `n` in memory.
spec fn fields_before(whole: Datum, info: StructInfo, n: nat) -> Seq<Piece>
    decreases n,
{
    if n == 0 {
        Seq::empty()
    } else {
        let field = info.mem_to_decl@[n - 1] as int;
        let before = fields_before(whole, info, (n - 1) as nat);
        match info.map.decl_to_llvm@[field] {
            None => before,
            Some(slot) => before.push(
                Piece { holds: slot_of(whole, slot as int), ty: info.map.field_types@[field] },
            ),
        }
    }
}

proof fn lemma_fields_before(whole: Datum, info: StructInfo, n: nat)
    requires
        n <= info.mem_to_decl@.len(),
    ensures
        fields_before(whole, info, n) + field_pieces(whole, info, n as int) == field_pieces(
            whole,
            info,
            0,
        ),
    decreases n,
{
    if n > 0 {
        lemma_fields_before(whole, info, (n - 1) as nat);
    }
    assert(fields_before(whole, info, n) + field_pieces(whole, info, n as int) =~= field_pieces(
        whole,
        info,
        0,
    ));
}

proof fn lemma_spaces_grown(
    f: Flat,
    env: spec_fn(u64) -> Datum,
    aggregate: Value,
    spaces: Seq<SpaceField>,
    n: nat,
    expected: Option<Seq<LlvmType>>,
)
    requires
        ready(f),
        available(aggregate, f.ops.len()),
        n <= spaces.len(),
        spaces.len() + 2 <= u32::MAX,
        push_spaces(f, aggregate, spaces, n, expected).error is None,
        push_spaces(f, aggregate, spaces, n, expected).ops.len() <= usize::MAX,
    ensures
        f.error is None,
        grown(
            f,
            push_spaces(f, aggregate, spaces, n, expected),
            env,
            spaces_before(datum(f.ops, env, aggregate), spaces, n),
        ),
    decreases n,
{
    if n == 0 {
        lemma_read_grown(f, f, env);
    } else {
        let before = push_spaces(f, aggregate, spaces, (n - 1) as nat, expected);
        lemma_spaces_grown(f, env, aggregate, spaces, (n - 1) as nat, expected);
        if !spaces[n - 1].zero_sized {
            let whole = datum(f.ops, env, aggregate);
            let parts = spaces_before(whole, spaces, (n - 1) as nat);
            let slot = (n + 1) as u32;
            let ty = spaces[n - 1].ty;
            lemma_later(f, before, env, aggregate);
            lemma_member_grown(before, env, aggregate, slot, ty, expected);
            let part = seq![Piece { holds: slot_of(whole, slot as int), ty }];
            lemma_grown_on(
                f,
                before,
                push_member(before, aggregate, slot, ty, expected),
                env,
                parts,
                part,
            );
            assert(parts + part =~= parts.push(part[0]));
        }
    }
}

proof fn lemma_fields_grown(
    f: Flat,
    env: spec_fn(u64) -> Datum,
    value: Value,
    info: StructInfo,
    n: nat,
    expected: Option<Seq<LlvmType>>,
)
    requires
        ready(f),
        available(value, f.ops.len()),
        n <= info.mem_to_decl@.len(),
        push_fields(f, value, info, n, expected).error is None,
        push_fields(f, value, info, n, expected).ops.len() <= usize::MAX,
    ensures
        f.error is None,
        grown(
            f,
            push_fields(f, value, info, n, expected),
            env,
            fields_before(datum(f.ops, env, value), info, n),
        ),
    decreases n,
{
    if n == 0 {
        lemma_read_grown(f, f, env);
    } else {
        let before = push_fields(f, value, info, (n - 1) as nat, expected);
        lemma_fields_grown(f, env, value, info, (n - 1) as nat, expected);
        let field = info.mem_to_decl@[n - 1] as int;
        if let Some(slot) = info.map.decl_to_llvm@[field] {
            let whole = datum(f.ops, env, value);
            let parts = fields_before(whole, info, (n - 1) as nat);
            let ty = info.map.field_types@[field];
            lemma_later(f, before, env, value);
            lemma_member_grown(before, env, value, slot, ty, expected);
            let part = seq![Piece { holds: slot_of(whole, slot as int), ty }];
            lemma_grown_on(
                f,
                before,
                push_member(before, value, slot, ty, expected),
                env,
                parts,
                part,
            );
            assert(parts + part =~= parts.push(part[0]));
        }
    }
}

proof fn lemma_slice_grown(
    f: Flat,
    env: spec_fn(u64) -> Datum,
    slice: Value,
    spaces: Seq<SpaceField>,
    expected: Option<Seq<LlvmType>>,
)
    requires
        ready(f),
        available(slice, f.ops.len()),
        spaces.len() + 2 <= u32::MAX,
        push_slice(f, slice, spaces, expected).error is None,
        push_slice(f, slice, spaces, expected).ops.len() <= usize::MAX,
    ensures
        f.error is None,
        ({
            let whole = datum(f.ops, env, slice);
            grown(
                f,
                push_slice(f, slice, spaces, expected),
                env,
                seq![
                    Piece { holds: slot_of(whole, 0), ty: LlvmType::Pointer(0) },
                    Piece { holds: slot_of(whole, 1), ty: LlvmType::spec_int(64) },
                ] + space_pieces(whole, spaces, 0),
            )
        }),
{
    let whole = datum(f.ops, env, slice);
    let (ptr, len) = (slice.ty.spec_member(0).unwrap(), slice.ty.spec_member(1).unwrap());
    let n = f.ops.len();
    let half = Flat { ops: f.ops.push(OpView::extract(slice, 0, ptr)), ..f };
    let read = Flat { ops: half.ops.push(OpView::extract(slice, 1, len)), ..f };
    let int_ty = LlvmType::spec_int(64);
    let with_ptr = push_arg(read, Value::at(n, ptr), LlvmType::Pointer(0), expected);
    let with_len = push_arg(with_ptr, Value::at(n + 1, len), int_ty, expected);
    let done = push_spaces(with_len, slice, spaces, spaces.len(), expected);
    assert(done == push_slice(f, slice, spaces, expected));
    lemma_spaces_length(with_len, slice, spaces, spaces.len(), expected);
    assert(with_ptr.ops.len() <= with_len.ops.len());
    assert(read.ops.len() <= with_ptr.ops.len());
    lemma_read_slot(f, env, slice, 0, ptr);
    lemma_later(f, half, env, slice);
    lemma_read_slot(half, env, slice, 1, len);
    lemma_later(half, read, env, Value::at(n, ptr));
    lemma_later(half, read, env, slice);
    assert(f.ops.is_prefix_of(read.ops)) by {
        assert(f.ops =~= read.ops.take(f.ops.len() as int));
    }
    lemma_read_grown(f, read, env);
    lemma_arg_grown(read, env, Value::at(n, ptr), LlvmType::Pointer(0), expected);
    let first = seq![Piece { holds: slot_of(whole, 0), ty: LlvmType::Pointer(0) }];
    let second = seq![Piece { holds: slot_of(whole, 1), ty: int_ty }];
    lemma_later(read, with_ptr, env, Value::at(n + 1, len));
    lemma_arg_grown(with_ptr, env, Value::at(n + 1, len), int_ty, expected);
    lemma_grown_on(f, read, with_ptr, env, Seq::empty(), first);
    assert(Seq::<Piece>::empty() + first =~= first);
    lemma_grown_on(f, with_ptr, with_len, env, first, second);
    lemma_later(f, with_len, env, slice);
    lemma_spaces_grown(with_len, env, slice, spaces, spaces.len(), expected);
    lemma_spaces_before(whole, spaces, spaces.len());
    let rest = spaces_before(whole, spaces, spaces.len());
    assert(rest + space_pieces(whole, spaces, spaces.len() as int) =~= rest);
    lemma_grown_on(f, with_len, done, env, first + second, rest);
    assert(first + second + rest =~= seq![first[0], second[0]] + space_pieces(whole, spaces, 0));
}

/// Layout fields only add operations.
proof fn lemma_spaces_length(
    f: Flat,
    aggregate: Value,
    spaces: Seq<SpaceField>,
    n: nat,
    expected: Option<Seq<LlvmType>>,
)
    ensures
        f.ops.len() <= push_spaces(f, aggregate, spaces, n, expected).ops.len(),
        f.error is Some ==> push_spaces(f, aggregate, spaces, n, expected).error is Some,
    decreases n,
{
    if n > 0 {
        lemma_spaces_length(f, aggregate, spaces, (n - 1) as nat, expected);
    }
}

/// Which wrapper is chosen, if the parameter is the scalar of one.
proof fn lemma_wrapped(shape: ArgShape, parameter: Option<LlvmType>)
    ensures
        wraps_parameter(shape, parameter) == (matching_abi(shape.transparent@, parameter) is Some),
{
    if let Some(ty) = parameter {
        law_best_abi(shape.transparent@, ty, shape.transparent@.len());
    }
}

/// Reading through wrappers keeps the arguments, and only adds operations.
proof fn lemma_layers_kept(
    f: Flat,
    value: Value,
    layers: Seq<ScalarLayer>,
    n: nat,
)
    ensures
        f.ops.is_prefix_of(unwrap_layers(f, value, layers, n).0.ops),
        unwrap_layers(f, value, layers, n).0.values == f.values,
        unwrap_layers(f, value, layers, n).0.types == f.types,
        unwrap_layers(f, value, layers, n).0.error is None ==> unwrap_layers(
            f,
            value,
            layers,
            n,
        ).0.ops.len() == f.ops.len() + n,
    decreases n,
{
    if n > 0 {
        lemma_layers_kept(f, value, layers, (n - 1) as nat);
    }
}

proof fn lemma_call_arg_grown(
    f: Flat,
    env: spec_fn(u64) -> Datum,
    arg: Operand,
    shape: ArgShape,
    expected: Option<Seq<LlvmType>>,
)
    requires
        ready(f),
        f.error is None,
        shape.fits(arg),
        available(arg.value, f.ops.len()),
        push_call_arg(f, arg, shape, expected).error is None,
        push_call_arg(f, arg, shape, expected).ops.len() <= usize::MAX,
    ensures
        grown(
            f,
            push_call_arg(f, arg, shape, expected),
            env,
            pieces(
                datum(f.ops, env, arg.value),
                arg,
                shape,
                expected_at(expected, f.types.len()),
            ),
        ),
{
    let value = arg.value;
    let whole = datum(f.ops, env, value);
    let history = arg.history@;
    let parameter = expected_at(expected, f.types.len());
    lemma_wrapped(shape, parameter);
    if wraps_parameter(shape, parameter) {
        let at = matching_abi(shape.transparent@, parameter).unwrap();
        law_best_abi(shape.transparent@, parameter.unwrap(), shape.transparent@.len());
        let abi = shape.transparent@[at].unwrap();
        let layers = abi.layers@;
        let (read, scalar) = unwrap_layers(f, value, layers, layers.len());
        lemma_layers_kept(f, value, layers, layers.len());
        assert(push_call_arg(f, arg, shape, expected) == push_scalar(f, value, abi, expected));
        assert(read.error is None);
        law_unwrap_layers(f, env, value, layers, layers.len());
        lemma_read_grown(f, read, env);
        lemma_arg_grown(read, env, scalar, abi.scalar_ty, expected);
        let part = seq![Piece { holds: peeled(whole, layers, layers.len()), ty: abi.scalar_ty }];
        lemma_grown_on(
            f,
            read,
            push_arg(read, scalar, abi.scalar_ty, expected),
            env,
            Seq::empty(),
            part,
        );
        assert(Seq::<Piece>::empty() + part =~= part);
    } else if history.len() > 0 && history.last() is Slice {
        lemma_slice_grown(f, env, value, Seq::empty(), expected);
        let head = seq![
            Piece { holds: slot_of(whole, 0), ty: LlvmType::Pointer(0) },
            Piece { holds: slot_of(whole, 1), ty: LlvmType::spec_int(64) },
        ];
        assert(space_pieces(whole, Seq::empty(), 0) =~= Seq::empty());
    } else if history.len() > 0 && history.last() is DisjointSlice {
        lemma_slice_grown(f, env, value, shape.spaces@, expected);
    } else if history.len() > 0 && history.last() is Struct {
        let info = shape.structure.unwrap();
        let n = info.mem_to_decl@.len();
        lemma_fields_grown(f, env, value, info, n, expected);
        lemma_fields_before(whole, info, n);
        assert(fields_before(whole, info, n) + field_pieces(whole, info, n as int)
            =~= fields_before(whole, info, n));
    } else if shape.zero_sized {
        lemma_read_grown(f, f, env);
    } else {
        lemma_arg_grown(f, env, value, value.ty, expected);
    }
}

/// Whether the pieces of each of the first `n` arguments, in the order of the
/// arguments, are the values from one mark to the next.
pub open spec fn in_order(
    ops: Seq<OpView>,
    env: spec_fn(u64) -> Datum,
    args: Seq<Operand>,
    shapes: Seq<ArgShape>,
    expected: Option<Seq<LlvmType>>,
    f: Flat,
    marks: Seq<nat>,
    n: nat,
) -> bool {
    &&& marks.len() == n + 1
    &&& marks[0] == 0
    &&& marks[n as int] == f.values.len()
    &&& f.types.len() == f.values.len()
    &&& forall|i: int| 0 <= i < n ==> marks[i] <= #[trigger] marks[i + 1] <= f.values.len()
    &&& forall|i: int|
        0 <= i < n ==> {
            let parts = pieces(
                datum(ops, env, args[i].value),
                args[i],
                shapes[i],
                expected_at(expected, marks[i]),
            );
            &&& #[trigger] marks[i + 1] == marks[i] + parts.len()
            &&& forall|k: int|
                0 <= k < parts.len() ==> hands_over(f, env, marks[i] + k, #[trigger] parts[k])
        }
}

/// Flattening keeps the order of arguments: the flattened values are the pieces
/// of the first argument, then those of the second, and so on to the last, and
/// nothing else.
pub proof fn law_flatten_order(
    ops: Seq<OpView>,
    env: spec_fn(u64) -> Datum,
    args: Seq<Operand>,
    shapes: Seq<ArgShape>,
    expected: Option<Seq<LlvmType>>,
)
    requires
        shapes.len() == args.len(),
        forall|i: int| 0 <= i < args.len() ==> (#[trigger] shapes[i]).fits(args[i]),
        forall|i: int|
            0 <= i < args.len() ==> available((#[trigger] args[i]).value, ops.len()),
        flatten(flat_start(ops), args, shapes, args.len(), expected).error is None,
        flatten(flat_start(ops), args, shapes, args.len(), expected).ops.len() <= usize::MAX,
    ensures
        exists|marks: Seq<nat>| #[trigger]
            in_order(
                ops,
                env,
                args,
                shapes,
                expected,
                flatten(flat_start(ops), args, shapes, args.len(), expected),
                marks,
                args.len(),
            ),
{
    lemma_flatten_grown(ops, env, args, shapes, args.len(), expected);
}

proof fn lemma_flatten_grown(
    ops: Seq<OpView>,
    env: spec_fn(u64) -> Datum,
    args: Seq<Operand>,
    shapes: Seq<ArgShape>,
    n: nat,
    expected: Option<Seq<LlvmType>>,
)
    requires
        shapes.len() == args.len(),
        n <= args.len(),
        forall|i: int| 0 <= i < args.len() ==> (#[trigger] shapes[i]).fits(args[i]),
        forall|i: int|
            0 <= i < args.len() ==> available((#[trigger] args[i]).value, ops.len()),
        flatten(flat_start(ops), args, shapes, n, expected).error is None,
        flatten(flat_start(ops), args, shapes, n, expected).ops.len() <= usize::MAX,
    ensures
        ready(flatten(flat_start(ops), args, shapes, n, expected)),
        ops.is_prefix_of(flatten(flat_start(ops), args, shapes, n, expected).ops),
        exists|marks: Seq<nat>| #[trigger]
            in_order(
                ops,
                env,
                args,
                shapes,
                expected,
                flatten(flat_start(ops), args, shapes, n, expected),
                marks,
                n,
            ),
    decreases n,
{
    let start = flat_start(ops);
    let g = flatten(start, args, shapes, n, expected);
    if n == 0 {
        assert(in_order(ops, env, args, shapes, expected, g, seq![0nat], 0));
    } else {
        let m = (n - 1) as nat;
        let f = flatten(start, args, shapes, m, expected);
        let (arg, shape) = (args[m as int], shapes[m as int]);
        assert(f.error is None);
        assert(f.ops.len() <= g.ops.len()) by {
            lemma_call_arg_length(f, arg, shape, expected);
        }
        lemma_flatten_grown(ops, env, args, shapes, m, expected);
        lemma_later(start, f, env, arg.value);
        lemma_call_arg_grown(f, env, arg, shape, expected);
        let marks = choose|marks: Seq<nat>| #[trigger]
            in_order(ops, env, args, shapes, expected, f, marks, m);
        let next = marks.push(g.values.len());
        let parts = pieces(
            datum(ops, env, arg.value),
            arg,
            shape,
            expected_at(expected, f.types.len()),
        );
        assert(marks[m as int] == f.values.len());
        assert forall|i: int| 0 <= i < n implies next[i] <= #[trigger] next[i + 1]
            <= g.values.len() by {
            if i < m {
                assert(next[i + 1] == marks[i + 1]);
            }
        }
        assert forall|i: int| 0 <= i < n implies {
            let own = pieces(
                datum(ops, env, args[i].value),
                args[i],
                shapes[i],
                expected_at(expected, next[i]),
            );
            &&& #[trigger] next[i + 1] == next[i] + own.len()
            &&& forall|k: int|
                0 <= k < own.len() ==> hands_over(g, env, next[i] + k, #[trigger] own[k])
        } by {
            let own = pieces(
                datum(ops, env, args[i].value),
                args[i],
                shapes[i],
                expected_at(expected, next[i]),
            );
            if i < m {
                assert(next[i + 1] == marks[i + 1]);
                assert forall|k: int| 0 <= k < own.len() implies hands_over(
                    g,
                    env,
                    next[i] + k,
                    #[trigger] own[k],
                ) by {
                    let at = marks[i] + k;
                    assert(marks[i + 1] == marks[i] + own.len());
                    assert(hands_over(f, env, marks[i] + k, own[k]));
                    assert(f.values[at] == g.values[at]);
                    assert(f.types[at] == g.types[at]);
                    lemma_later(f, g, env, f.values[at]);
                }
            } else {
                assert(own == parts);
            }
        }
        assert(in_order(ops, env, args, shapes, expected, g, next, n));
        assert(ops =~= g.ops.take(ops.len() as int));
    }
}

/// Whether a value goes to a parameter as it is: one that is not a pointer, a
/// pointer in the address space of a pointer parameter or to a parameter that is
/// none, and a generic pointer where no parameter is known.
pub open spec fn fits_parameter(ty: LlvmType, parameter: Option<LlvmType>) -> bool {
    match (ty, parameter) {
        (LlvmType::Pointer(space), Some(LlvmType::Pointer(wanted))) => space == wanted,
        (LlvmType::Pointer(space), None) => space == ADDRSPACE_GENERIC,
        _ => true,
    }
}

/// Scalars that occupy memory, wrap no parameter and fit their parameters are
/// handed over as they are, each at its own position.
pub proof fn law_flatten_scalars(
    ops: Seq<OpView>,
    args: Seq<Operand>,
    shapes: Seq<ArgShape>,
    expected: Option<Seq<LlvmType>>,
    n: nat,
)
    requires
        shapes.len() == args.len(),
        n <= args.len(),
        forall|i: int|
            0 <= i < args.len() ==> {
                let history = (#[trigger] args[i]).history@;
                &&& !shapes[i].zero_sized
                &&& !wraps_parameter(shapes[i], expected_at(expected, i as nat))
                &&& fits_parameter(args[i].value.ty, expected_at(expected, i as nat))
                &&& history.len() > 0 ==> !(history.last() is Slice) && !(
                history.last() is DisjointSlice) && !(history.last() is Struct)
            },
    ensures
        ({
            let f = flatten(flat_start(ops), args, shapes, n, expected);
            &&& f.error is None
            &&& f.ops == ops
            &&& f.values == Seq::new(n, |i: int| args[i].value)
            &&& f.types == Seq::new(n, |i: int| args[i].value.ty)
        }),
    decreases n,
{
    let f = flatten(flat_start(ops), args, shapes, n, expected);
    if n > 0 {
        law_flatten_scalars(ops, args, shapes, expected, (n - 1) as nat);
        let arg = args[n - 1];
        assert(!shapes[n - 1].zero_sized);
        lemma_wrapped(shapes[n - 1], expected_at(expected, (n - 1) as nat));
    }
    assert(f.values =~= Seq::new(n, |i: int| args[i].value));
    assert(f.types =~= Seq::new(n, |i: int| args[i].value.ty));
}

/// The operation that calls: it names the function, with each `::` as `__`, and
/// hands over the flattened arguments with their types.
pub open spec fn calls(
    op: OpView,
    name: Seq<char>,
    values: Seq<Value>,
    types: Seq<LlvmType>,
    ty: LlvmType,
) -> bool {
    &&& op.code == OpCode::Call
    &&& op.symbol == name
    &&& op.operands == values
    &&& op.signature == types
    &&& op.ty == ty
}

/// A call of a function is emitted behind its flattened arguments; a function of
/// the device library is declared just before it. The call returns nothing where
/// the result is missing or occupies no memory, else the type that the result
/// crosses the call as; and what replaces the result is what the call returned,
/// put back into its wrappers or its ordinary form where it crossed in another.
pub proof fn law_function_call(
    ops: Seq<OpView>,
    env: spec_fn(u64) -> Datum,
    call: MirCall,
    resolved: Seq<char>,
    decls: Seq<Declaration>,
)
    requires
        flatten(
            flat_start(ops),
            call.args@,
            call.shapes@,
            call.args@.len(),
            expected_signature(decls, text::mangled(resolved)),
        ).error is None,
    ensures
        ({
            let name = text::mangled(resolved);
            let f = flatten(
                flat_start(ops),
                call.args@,
                call.shapes@,
                call.args@.len(),
                expected_signature(decls, name),
            );
            let library = text::spec_starts_with(resolved, "__nv_"@);
            let made = function_call(ops, call, resolved, decls);
            let at = if library {
                f.ops.len() + 1
            } else {
                f.ops.len()
            };
            let results = call.results@;
            let ty = if results.len() == 0 || results[0].zero_sized || (results[0].mir
                matches MirType::Tuple(types, _) && types@.len() == 0) {
                LlvmType::Void
            } else {
                match results[0].abi {
                    ResultAbi::Transparent(abi) => abi.scalar_ty,
                    ResultAbi::PackedShared(storage, _) => storage,
                    ResultAbi::Direct => results[0].converted,
                }
            };
            &&& f.ops.is_prefix_of(made.ops)
            &&& at < made.ops.len()
            &&& calls(made.ops[at as int], name, f.values, f.types, ty)
            &&& library ==> made.ops[at - 1] == OpView::declare(name, f.types, ty)
            &&& ty != LlvmType::Void && results[0].abi is Direct ==> made.result == Ok::<
                Option<Value>,
                LowerError,
            >(Some(Value::at(at, ty)))
            &&& ty != LlvmType::Void && results[0].abi is PackedShared ==> {
                let semantic = results[0].abi->PackedShared_1;
                &&& made.result == Ok::<Option<Value>, LowerError>(
                    Some(Value::at(at + 1, semantic)),
                )
                &&& made.ops.last() == OpView::coerce(
                    Coercion::TargetStable,
                    Value::at(at, ty),
                    semantic,
                )
                &&& made.ops.len() == at + 2
            }
            &&& ty != LlvmType::Void && results[0].abi is Transparent ==> {
                let layers = results[0].abi->Transparent_0.layers@;
                layers_hold(layers) && at + 1 + 2 * layers.len() <= usize::MAX ==> {
                    &&& made.result matches Ok(Some(whole))
                    &&& peeled(datum(made.ops, env, whole), layers, layers.len()) == datum(
                        made.ops.take(at as int + 1),
                        env,
                        Value::at(at, ty),
                    )
                }
            }
            &&& ty == LlvmType::Void && call.used && (results.len() == 0 || !results[0].erased())
                ==> made.result == Err::<Option<Value>, LowerError>(LowerError::LiveVoidResult)
            &&& ty == LlvmType::Void && !call.used ==> made.result == Ok::<
                Option<Value>,
                LowerError,
            >(None) && made.ops.len() == at + 1
        }),
{
    let name = text::mangled(resolved);
    let f = flatten(
        flat_start(ops),
        call.args@,
        call.shapes@,
        call.args@.len(),
        expected_signature(decls, name),
    );
    let ty = call_type(call.results@);
    let declared = if text::spec_starts_with(resolved, "__nv_"@) {
        f.ops.push(OpView::declare(name, f.types, ty))
    } else {
        f.ops
    };
    let called = declared.push(OpView::call(name, f.types, ty, f.values));
    let made = function_call(ops, call, resolved, decls);
    let results = call.results@;
    assert(made == call_result(called, results, call.used));
    assert(f.ops =~= called.take(f.ops.len() as int));
    let value = Value::at((called.len() - 1) as nat, ty);
    if results.len() > 0 && results[0].abi is Transparent && ty != LlvmType::Void {
        let layers = results[0].abi->Transparent_0.layers@;
        lemma_rewrap_adds(called, value, layers, layers.len());
        assert(made.ops.take(called.len() as int) =~= called);
        if layers_hold(layers) && called.len() + 2 * layers.len() <= usize::MAX {
            law_rewrap(called, env, value, layers);
        }
    }
    assert(called.is_prefix_of(made.ops));
    assert(f.ops =~= made.ops.take(f.ops.len() as int));
    assert(made.ops[called.len() - 1] == called.last());
    if declared.len() > f.ops.len() {
        assert(made.ops[called.len() - 2] == called[called.len() - 2]);
    }
    assert(made.ops.take(called.len() as int) =~= called);
}

/// Wrapping only adds operations.
proof fn lemma_rewrap_adds(ops: Seq<OpView>, scalar: Value, layers: Seq<ScalarLayer>, n: nat)
    ensures
        ops.is_prefix_of(rewrap(ops, scalar, layers, n).0),
    decreases n,
{
    if n > 0 {
        lemma_rewrap_adds(ops, scalar, layers, (n - 1) as nat);
    }
}

/// Whether a declaration has the given name, and is lowered already or not yet.
pub open spec fn declares(decl: Declaration, name: Seq<char>, lowered: bool) -> bool {
    decl.name@ == name && (lowered <==> decl.parameters is Lowered)
}

/// The parameters of a function are those of its first lowered declaration, or
/// those of its last pending one where none is lowered; a function that is not
/// declared has none.
pub proof fn law_declared_types(decls: Seq<Declaration>, name: Seq<char>)
    ensures
        forall|i: int|
            0 <= i < decls.len() && declares(#[trigger] decls[i], name, true) && (forall|j: int|
                0 <= j < i ==> !declares(#[trigger] decls[j], name, true)) ==> declared_types(
                decls,
                name,
            ) == Some(decls[i].parameters->Lowered_0@),
        forall|i: int|
            0 <= i < decls.len() && declares(#[trigger] decls[i], name, false) && (forall|j: int|
                0 <= j < decls.len() ==> !declares(#[trigger] decls[j], name, true)) && (forall|
                j: int,
            |
                i < j < decls.len() ==> !declares(#[trigger] decls[j], name, false))
                ==> declared_types(decls, name) == signature_of(decls[i].parameters->Pending_0),
        (forall|j: int| 0 <= j < decls.len() ==> (#[trigger] decls[j]).name@ != name)
            ==> declared_types(decls, name) is None,
{
    lemma_first_lowered(decls, name, 0);
    lemma_last_pending(decls, name, decls.len());
    match first_lowered(decls, name, 0) {
        Some(i) => {
            assert(declares(decls[i], name, true));
            assert forall|k: int|
                0 <= k < decls.len() && declares(#[trigger] decls[k], name, true) && (forall|j: int|
                    0 <= j < k ==> !declares(#[trigger] decls[j], name, true)) implies k == i by {
                if k < i {
                    assert(!declares(decls[k], name, true));
                }
                if i < k {
                    assert(!declares(decls[i], name, true));
                }
            }
        },
        None => {
            if let Some(i) = last_pending(decls, name, decls.len()) {
                assert(declares(decls[i], name, false));
                assert forall|k: int|
                    0 <= k < decls.len() && declares(#[trigger] decls[k], name, false) && (forall|
                        j: int,
                    |
                        k < j < decls.len() ==> !declares(#[trigger] decls[j], name, false))
                    implies k == i by {
                    if k < i {
                        assert(!declares(decls[i], name, false));
                    }
                    if i < k {
                        assert(!declares(decls[k], name, false));
                    }
                }
            }
        },
    }
}

proof fn lemma_first_lowered(decls: Seq<Declaration>, name: Seq<char>, from: int)
    requires
        0 <= from <= decls.len(),
    ensures
        match first_lowered(decls, name, from) {
            Some(i) => from <= i < decls.len() && declares(decls[i], name, true) && forall|j: int|
                from <= j < i ==> !declares(#[trigger] decls[j], name, true),
            None => forall|j: int|
                from <= j < decls.len() ==> !declares(#[trigger] decls[j], name, true),
        },
    decreases decls.len() - from,
{
    if from < decls.len() && !declares(decls[from], name, true) {
        lemma_first_lowered(decls, name, from + 1);
    }
}

proof fn lemma_last_pending(decls: Seq<Declaration>, name: Seq<char>, n: nat)
    requires
        n <= decls.len(),
    ensures
        match last_pending(decls, name, n) {
            Some(i) => 0 <= i < n && declares(decls[i], name, false) && forall|j: int|
                i < j < n ==> !declares(#[trigger] decls[j], name, false),
            None => forall|j: int| 0 <= j < n ==> !declares(#[trigger] decls[j], name, false),
        },
    decreases n,
{
    if n > 0 && !declares(decls[n - 1], name, false) {
        lemma_last_pending(decls, name, (n - 1) as nat);
    }
}

/// Arguments are coerced to the declared parameters, but not to a declaration
/// without any.
pub proof fn law_expected_signature(decls: Seq<Declaration>, name: Seq<char>)
    ensures
        match declared_types(decls, name) {
            Some(types) => types.len() > 0 ==> expected_signature(decls, name) == Some(types),
            None => expected_signature(decls, name) is None,
        },
        expected_signature(decls, name) matches Some(types) ==> types.len() > 0,
{
}

/// A device function that is declared elsewhere goes by its base name, every
/// other function by its own.
pub proof fn law_resolved_symbol(name: Seq<char>, base: String)
    ensures
        resolved_symbol(name, Some(base)) == base@,
        resolved_symbol(name, None) == name,
{
}

} // verus!
