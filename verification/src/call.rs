//! Lowering of calls: arguments are flattened to what the callee's signature
//! holds, and the result is put back together.

use crate::call_intrinsics::{
    bit_ops, carrying_mul_add, convert_rust_bit_intrinsic, convert_rust_carrying_mul_add,
    convert_rust_exact_div, convert_rust_float_math_intrinsic, convert_rust_saturating_intrinsic,
    convert_rust_select_unpredictable, exact_div_ops, float_math_ops, operand_values,
    saturating_ops, select_ops, values_of,
};
use crate::llvm::LlvmType;
use crate::lower::{emits, Emitted, LowerError, Operand};
use crate::mir::MirType;
use crate::ops::{copy_types, Builder, CastKind, Coercion, OpView, Value};
use crate::rust_intrinsics::{
    law_placeholders_disjoint, Callee, LoweringOptions, Placeholder, RustBigIntIntrinsic,
    RustBitIntrinsic, RustExactDivIntrinsic, RustFloatMathIntrinsic, RustSaturatingIntrinsic,
};
use crate::slots::StructInfo;
use crate::text;
use vstd::prelude::*;

verus! {

/// The generic address space.
pub const ADDRSPACE_GENERIC: u32 = 0;

/// One wrapper of a scalar: the struct type, and the slot of its only field.
#[derive(PartialEq, Eq, Debug)]
pub struct ScalarLayer {
    pub struct_ty: LlvmType,
    pub field_slot: u32,
}

/// A struct that crosses a call as the scalar it wraps. Layers are recorded
/// from the outermost inwards.
#[derive(PartialEq, Eq, Debug)]
pub struct ScalarAbi {
    pub scalar_ty: LlvmType,
    pub layers: Vec<ScalarLayer>,
}

/// A layout field of the index space of a slice.
#[derive(PartialEq, Eq, Debug)]
pub struct SpaceField {
    pub ty: LlvmType,
    pub zero_sized: bool,
}

/// What the type layer knows of an argument.
#[derive(PartialEq, Eq, Debug)]
pub struct ArgShape {
    /// For each type of the history: how it crosses a call, if it is a struct
    /// that wraps a scalar transparently.
    pub transparent: Vec<Option<ScalarAbi>>,
    /// The layout fields of a slice over an index space.
    pub spaces: Vec<SpaceField>,
    /// Layout and slots of a struct.
    pub structure: Option<StructInfo>,
    /// Whether the type of the value occupies no memory.
    pub zero_sized: bool,
}

impl ArgShape {
    /// What the type layer knows fits the history of the argument.
    pub open spec fn fits(self, arg: Operand) -> bool {
        let history = arg.history@;
        &&& self.transparent@.len() == history.len()
        &&& self.spaces@.len() + 2 <= u32::MAX
        &&& history.len() > 0 ==> match history.last() {
            MirType::DisjointSlice(_, spaces) => self.spaces@.len() == spaces@.len(),
            MirType::Struct(_, _, _, layout) => self.structure is Some
                && self.structure.unwrap().wf()
                && self.structure.unwrap().mem_to_decl@ == layout.mem_to_decl@,
            _ => true,
        }
    }
}

/// How a result crosses the call.
#[derive(PartialEq, Eq, Debug)]
pub enum ResultAbi {
    /// As the scalar that it wraps.
    Transparent(ScalarAbi),
    /// In packed form: the type that crosses the call, and the ordinary one.
    PackedShared(LlvmType, LlvmType),
    /// As itself.
    Direct,
}

/// The result of a call.
#[derive(PartialEq, Eq, Debug)]
pub struct CallResult {
    pub mir: MirType,
    pub converted: LlvmType,
    pub abi: ResultAbi,
    /// Whether the type that crosses the call occupies no memory.
    pub zero_sized: bool,
}

/// Parameter types of a declared function: lowered already, or computed from
/// the signature that is still to be lowered, where that succeeds.
#[derive(PartialEq, Eq, Debug)]
pub enum Parameters {
    Lowered(Vec<LlvmType>),
    Pending(Option<Vec<LlvmType>>),
}

/// A function of the module.
#[derive(PartialEq, Eq, Debug)]
pub struct Declaration {
    pub name: String,
    pub parameters: Parameters,
}

/// A call to lower.
#[derive(PartialEq, Eq, Debug)]
pub struct MirCall {
    pub callee: Option<Callee>,
    pub args: Vec<Operand>,
    pub shapes: Vec<ArgShape>,
    pub results: Vec<CallResult>,
    /// Whether a result has a use.
    pub used: bool,
}

/// The name that a function is called by.
pub open spec fn resolved_symbol(name: Seq<char>, base_name: Option<String>) -> Seq<char> {
    match base_name {
        Some(base) => base@,
        None => name,
    }
}

/// The name that a function is called by: the base name of a device function
/// that is declared elsewhere, else the name itself.
pub fn resolve_device_extern_symbol(name: &String, base_name: &Option<String>) -> (r: String)
    ensures
        r@ == resolved_symbol(name@, *base_name),
{
    match base_name {
        Some(base) => base.clone(),
        None => name.clone(),
    }
}

/// The position of the transparent type with the given scalar that has the most
/// layers, among the first `n`. The first such position where several have as
/// many.
pub open spec fn best_abi(
    candidates: Seq<Option<ScalarAbi>>,
    scalar_ty: LlvmType,
    n: nat,
) -> Option<int>
    decreases n,
{
    if n == 0 {
        None
    } else {
        let before = best_abi(candidates, scalar_ty, (n - 1) as nat);
        match candidates[n - 1] {
            Some(abi) => if abi.scalar_ty != scalar_ty {
                before
            } else {
                match before {
                    Some(best) => if abi.layers@.len()
                        > candidates[best].unwrap().layers@.len() {
                        Some(n - 1)
                    } else {
                        before
                    },
                    None => Some(n - 1),
                }
            },
            None => before,
        }
    }
}

/// [`best_abi`] is the first of the matching candidates with the most layers,
/// and exists wherever one matches.
pub proof fn law_best_abi(candidates: Seq<Option<ScalarAbi>>, scalar_ty: LlvmType, n: nat)
    requires
        n <= candidates.len(),
    ensures
        match best_abi(candidates, scalar_ty, n) {
            Some(best) => {
                &&& 0 <= best < n
                &&& candidates[best] is Some
                &&& candidates[best].unwrap().scalar_ty == scalar_ty
                &&& forall|i: int|
                    0 <= i < n && (#[trigger] candidates[i]) is Some
                        && candidates[i].unwrap().scalar_ty == scalar_ty ==> {
                        let (layers, most) = (
                            candidates[i].unwrap().layers@.len(),
                            candidates[best].unwrap().layers@.len(),
                        );
                        layers < most || (layers == most && best <= i)
                    }
            },
            None => forall|i: int|
                0 <= i < n && (#[trigger] candidates[i]) is Some
                    ==> candidates[i].unwrap().scalar_ty != scalar_ty,
        },
    decreases n,
{
    if n > 0 {
        law_best_abi(candidates, scalar_ty, (n - 1) as nat);
    }
}

/// The position of the transparent type that the expected parameter asks for.
pub open spec fn matching_abi(
    candidates: Seq<Option<ScalarAbi>>,
    expected: Option<LlvmType>,
) -> Option<int> {
    match expected {
        Some(ty) => best_abi(candidates, ty, candidates.len()),
        None => None,
    }
}

/// The position of the transparent type that the expected parameter asks for.
pub fn transparent_scalar_abi_matching_param(
    candidates: &Vec<Option<ScalarAbi>>,
    expected: &Option<LlvmType>,
) -> (r: Option<usize>)
    ensures
        match r {
            Some(i) => matching_abi(candidates@, *expected) == Some(i as int)
                && i < candidates@.len() && candidates@[i as int] is Some,
            None => matching_abi(candidates@, *expected) is None,
        },
{
    let expected_ty = match expected {
        Some(ty) => ty,
        None => {
            return None;
        },
    };
    let mut best: Option<usize> = None;
    let mut i: usize = 0;
    while i < candidates.len()
        invariant
            i <= candidates.len(),
            match best {
                Some(at) => best_abi(candidates@, *expected_ty, i as nat) == Some(at as int)
                    && at < i && candidates@[at as int] is Some,
                None => best_abi(candidates@, *expected_ty, i as nat) is None,
            },
        decreases candidates.len() - i,
    {
        if let Some(abi) = &candidates[i] {
            if abi.scalar_ty.same(expected_ty) {
                let replace: bool = match best {
                    Some(at) => match &candidates[at] {
                        Some(current) => abi.layers.len() > current.layers.len(),
                        None => true,
                    },
                    None => true,
                };
                if replace {
                    best = Some(i);
                }
            }
        }
        i = i + 1;
    }
    best
}

/// The state of flattening: all operations of the function so far, the
/// flattened arguments and their types, and why flattening stopped.
#[verifier::ext_equal]
pub struct Flat {
    pub ops: Seq<OpView>,
    pub values: Seq<Value>,
    pub types: Seq<LlvmType>,
    pub error: Option<LowerError>,
}

/// Before the first argument.
pub open spec fn flat_start(ops: Seq<OpView>) -> Flat {
    Flat { ops, values: Seq::empty(), types: Seq::empty(), error: None }
}

/// The parameter at a position of the expected signature.
pub open spec fn expected_at(expected: Option<Seq<LlvmType>>, i: nat) -> Option<LlvmType> {
    match expected {
        Some(types) => if i < types.len() {
            Some(types[i as int])
        } else {
            None
        },
        None => None,
    }
}

/// The address space that an argument is cast to. A pointer goes to the space
/// of the parameter, or to the generic one where no parameter is known.
pub open spec fn coercion_space(ty: LlvmType, expected: Option<LlvmType>) -> Option<u32> {
    match (ty.spec_addrspace(), expected) {
        (Some(from), Some(param)) => match param.spec_addrspace() {
            Some(to) => if from != to {
                Some(to)
            } else {
                None
            },
            None => None,
        },
        (Some(from), None) => if from != ADDRSPACE_GENERIC {
            Some(ADDRSPACE_GENERIC)
        } else {
            None
        },
        (None, _) => None,
    }
}

/// Appends a value of type `ty` as the next argument.
pub open spec fn push_arg(
    f: Flat,
    value: Value,
    ty: LlvmType,
    expected: Option<Seq<LlvmType>>,
) -> Flat {
    match coercion_space(ty, expected_at(expected, f.types.len())) {
        Some(space) => Flat {
            ops: f.ops.push(
                OpView::cast(CastKind::AddrSpaceCast, value, LlvmType::Pointer(space)),
            ),
            values: f.values.push(Value::at(f.ops.len(), LlvmType::Pointer(space))),
            types: f.types.push(LlvmType::Pointer(space)),
            error: f.error,
        },
        None => Flat { values: f.values.push(value), types: f.types.push(ty), ..f },
    }
}

/// Appends the member at `slot`, which has type `ty` in the signature.
pub open spec fn push_member(
    f: Flat,
    aggregate: Value,
    slot: u32,
    ty: LlvmType,
    expected: Option<Seq<LlvmType>>,
) -> Flat {
    if f.error is Some {
        f
    } else {
        match aggregate.ty.spec_member(slot) {
            None => Flat { error: Some(LowerError::NoSuchMember), ..f },
            Some(member) => push_arg(
                Flat { ops: f.ops.push(OpView::extract(aggregate, slot, member)), ..f },
                Value::at(f.ops.len(), member),
                ty,
                expected,
            ),
        }
    }
}

/// Appends the first `n` layout fields of an index space.
pub open spec fn push_spaces(
    f: Flat,
    aggregate: Value,
    spaces: Seq<SpaceField>,
    n: nat,
    expected: Option<Seq<LlvmType>>,
) -> Flat
    decreases n,
{
    if n == 0 {
        f
    } else {
        let before = push_spaces(f, aggregate, spaces, (n - 1) as nat, expected);
        let space = spaces[n - 1];
        if space.zero_sized {
            before
        } else {
            push_member(before, aggregate, (n + 1) as u32, space.ty, expected)
        }
    }
}

/// Appends data pointer, length and layout fields of a slice.
pub open spec fn push_slice(
    f: Flat,
    slice: Value,
    spaces: Seq<SpaceField>,
    expected: Option<Seq<LlvmType>>,
) -> Flat {
    match (slice.ty.spec_member(0), slice.ty.spec_member(1)) {
        (None, _) => Flat { error: Some(LowerError::NoSuchMember), ..f },
        (Some(ptr), None) => Flat {
            ops: f.ops.push(OpView::extract(slice, 0, ptr)),
            error: Some(LowerError::NoSuchMember),
            ..f
        },
        (Some(ptr), Some(len)) => {
            let n = f.ops.len();
            let read = Flat {
                ops: f.ops.push(OpView::extract(slice, 0, ptr)).push(
                    OpView::extract(slice, 1, len),
                ),
                ..f
            };
            let with_ptr = push_arg(read, Value::at(n, ptr), LlvmType::Pointer(0), expected);
            let with_len = push_arg(
                with_ptr,
                Value::at(n + 1, len),
                LlvmType::spec_int(64),
                expected,
            );
            push_spaces(with_len, slice, spaces, spaces.len(), expected)
        },
    }
}

/// Reads through the first `n` layers of a transparent wrapper.
pub open spec fn unwrap_layers(
    f: Flat,
    value: Value,
    layers: Seq<ScalarLayer>,
    n: nat,
) -> (Flat, Value)
    decreases n,
{
    if n == 0 {
        (f, value)
    } else {
        let (before, inner) = unwrap_layers(f, value, layers, (n - 1) as nat);
        let slot = layers[n - 1].field_slot;
        if before.error is Some {
            (before, inner)
        } else {
            match inner.ty.spec_member(slot) {
                None => (Flat { error: Some(LowerError::NoSuchMember), ..before }, inner),
                Some(member) => (
                    Flat { ops: before.ops.push(OpView::extract(inner, slot, member)), ..before },
                    Value::at(before.ops.len(), member),
                ),
            }
        }
    }
}

/// Appends the scalar inside a transparent wrapper.
pub open spec fn push_scalar(
    f: Flat,
    value: Value,
    abi: ScalarAbi,
    expected: Option<Seq<LlvmType>>,
) -> Flat {
    let (read, scalar) = unwrap_layers(f, value, abi.layers@, abi.layers@.len());
    if read.error is Some {
        read
    } else {
        push_arg(read, scalar, abi.scalar_ty, expected)
    }
}

/// Appends the first `n` fields of a struct in memory order, without those that
/// have no slot.
pub open spec fn push_fields(
    f: Flat,
    value: Value,
    info: StructInfo,
    n: nat,
    expected: Option<Seq<LlvmType>>,
) -> Flat
    decreases n,
{
    if n == 0 {
        f
    } else {
        let before = push_fields(f, value, info, (n - 1) as nat, expected);
        let field = info.mem_to_decl@[n - 1] as int;
        match info.map.decl_to_llvm@[field] {
            None => before,
            Some(slot) => push_member(before, value, slot, info.map.field_types@[field], expected),
        }
    }
}

/// Appends one argument of the call.
pub open spec fn push_call_arg(
    f: Flat,
    arg: Operand,
    shape: ArgShape,
    expected: Option<Seq<LlvmType>>,
) -> Flat {
    let value = arg.value;
    let history = arg.history@;
    if f.error is Some {
        f
    } else if matching_abi(shape.transparent@, expected_at(expected, f.types.len())) is Some {
        let at = matching_abi(shape.transparent@, expected_at(expected, f.types.len())).unwrap();
        push_scalar(f, value, shape.transparent@[at].unwrap(), expected)
    } else if history.len() > 0 && history.last() is Slice {
        push_slice(f, value, Seq::empty(), expected)
    } else if history.len() > 0 && history.last() is DisjointSlice {
        push_slice(f, value, shape.spaces@, expected)
    } else if history.len() > 0 && history.last() is Struct {
        let info = shape.structure.unwrap();
        push_fields(f, value, info, info.mem_to_decl@.len(), expected)
    } else if shape.zero_sized {
        f
    } else {
        push_arg(f, value, value.ty, expected)
    }
}

/// Appends the first `n` arguments of the call.
pub open spec fn flatten(
    f: Flat,
    args: Seq<Operand>,
    shapes: Seq<ArgShape>,
    n: nat,
    expected: Option<Seq<LlvmType>>,
) -> Flat
    decreases n,
{
    if n == 0 {
        f
    } else {
        push_call_arg(
            flatten(f, args, shapes, (n - 1) as nat, expected),
            args[n - 1],
            shapes[n - 1],
            expected,
        )
    }
}

/// Flattened arguments and their types.
#[derive(PartialEq, Eq, Debug)]
pub struct Flattened {
    pub values: Vec<Value>,
    pub types: Vec<LlvmType>,
}

/// The state that builder, arguments and outcome stand for.
pub open spec fn flat_state(b: Builder, out: Flattened, r: Result<(), LowerError>) -> Flat {
    Flat {
        ops: b@,
        values: out.values@,
        types: out.types@,
        error: match r {
            Ok(_) => None,
            Err(e) => Some(e),
        },
    }
}

/// The parameter types of an expected signature.
pub open spec fn signature_of(expected: Option<Vec<LlvmType>>) -> Option<Seq<LlvmType>> {
    match expected {
        Some(types) => Some(types@),
        None => None,
    }
}

fn take_expected(expected: &Option<Vec<LlvmType>>, i: usize) -> (r: Option<LlvmType>)
    ensures
        r == expected_at(signature_of(*expected), i as nat),
{
    match expected {
        Some(types) => if i < types.len() {
            Some(types[i].copy())
        } else {
            None
        },
        None => None,
    }
}

/// Brings one argument to the address space of its parameter, and returns it
/// with its type.
pub fn coerce_arg_to_param_ty(
    b: &mut Builder,
    arg: Value,
    ty: LlvmType,
    expected: Option<LlvmType>,
) -> (r: (Value, LlvmType))
    ensures
        match coercion_space(ty, expected) {
            Some(space) => {
                &&& final(b)@ == old(b)@.push(
                    OpView::cast(CastKind::AddrSpaceCast, arg, LlvmType::Pointer(space)),
                )
                &&& r == (
                    Value::at(old(b)@.len(), LlvmType::Pointer(space)),
                    LlvmType::Pointer(space),
                )
            },
            None => final(b)@ == old(b)@ && r == (arg, ty),
        },
{
    match expected {
        Some(param) => {
            if ty.same(&param) {
                return (arg, ty);
            }
            if let (Some(from), Some(to)) = (ty.addrspace(), param.addrspace()) {
                if from != to {
                    let cast_ty = LlvmType::Pointer(to);
                    let cast = b.cast(CastKind::AddrSpaceCast, &arg, &cast_ty);
                    return (cast, param);
                }
            }
            (arg, ty)
        },
        None => {
            if let Some(space) = ty.addrspace() {
                if space != ADDRSPACE_GENERIC {
                    let cast_ty = LlvmType::Pointer(ADDRSPACE_GENERIC);
                    let cast = b.cast(CastKind::AddrSpaceCast, &arg, &cast_ty);
                    return (cast, cast_ty);
                }
            }
            (arg, ty)
        },
    }
}

/// Appends a value as the next argument.
fn append_arg(
    b: &mut Builder,
    out: &mut Flattened,
    value: Value,
    ty: LlvmType,
    expected: &Option<Vec<LlvmType>>,
)
    ensures
        flat_state(*final(b), *final(out), Ok(())) == push_arg(
            flat_state(*old(b), *old(out), Ok(())),
            value,
            ty,
            signature_of(*expected),
        ),
{
    let param = take_expected(expected, out.types.len());
    let (value, ty) = coerce_arg_to_param_ty(b, value, ty, param);
    out.values.push(value);
    out.types.push(ty);
}

/// Reads a member of an aggregate.
fn read_member(b: &mut Builder, aggregate: &Value, slot: u32) -> (r: Result<Value, LowerError>)
    ensures
        match aggregate.ty.spec_member(slot) {
            None => final(b)@ == old(b)@ && r == Err::<Value, LowerError>(LowerError::NoSuchMember),
            Some(member) => final(b)@ == old(b)@.push(OpView::extract(*aggregate, slot, member))
                && r == Ok::<Value, LowerError>(Value::at(old(b)@.len(), member)),
        },
{
    match aggregate.ty.member(slot) {
        None => Err(LowerError::NoSuchMember),
        Some(member) => Ok(b.extract(aggregate, slot, member)),
    }
}

fn append_member(
    b: &mut Builder,
    out: &mut Flattened,
    aggregate: &Value,
    slot: u32,
    ty: LlvmType,
    expected: &Option<Vec<LlvmType>>,
) -> (r: Result<(), LowerError>)
    ensures
        flat_state(*final(b), *final(out), r) == push_member(
            flat_state(*old(b), *old(out), Ok(())),
            *aggregate,
            slot,
            ty,
            signature_of(*expected),
        ),
{
    let member = match read_member(b, aggregate, slot) {
        Ok(v) => v,
        Err(e) => {
            return Err(e);
        },
    };
    append_arg(b, out, member, ty, expected);
    Ok(())
}

/// Once flattening has failed, further layout fields change nothing.
proof fn lemma_spaces_stop(
    f: Flat,
    aggregate: Value,
    spaces: Seq<SpaceField>,
    m: nat,
    n: nat,
    expected: Option<Seq<LlvmType>>,
)
    requires
        m <= n,
        push_spaces(f, aggregate, spaces, m, expected).error is Some,
    ensures
        push_spaces(f, aggregate, spaces, n, expected) == push_spaces(
            f,
            aggregate,
            spaces,
            m,
            expected,
        ),
    decreases n,
{
    if m < n {
        lemma_spaces_stop(f, aggregate, spaces, m, (n - 1) as nat, expected);
    }
}

/// Once flattening has failed, further fields change nothing.
proof fn lemma_fields_stop(
    f: Flat,
    value: Value,
    info: StructInfo,
    m: nat,
    n: nat,
    expected: Option<Seq<LlvmType>>,
)
    requires
        m <= n,
        push_fields(f, value, info, m, expected).error is Some,
    ensures
        push_fields(f, value, info, n, expected) == push_fields(f, value, info, m, expected),
    decreases n,
{
    if m < n {
        lemma_fields_stop(f, value, info, m, (n - 1) as nat, expected);
    }
}

/// Once flattening has failed, further layers change nothing.
proof fn lemma_layers_stop(f: Flat, value: Value, layers: Seq<ScalarLayer>, m: nat, n: nat)
    requires
        m <= n,
        unwrap_layers(f, value, layers, m).0.error is Some,
    ensures
        unwrap_layers(f, value, layers, n) == unwrap_layers(f, value, layers, m),
    decreases n,
{
    if m < n {
        lemma_layers_stop(f, value, layers, m, (n - 1) as nat);
    }
}

/// Once flattening has failed, further arguments change nothing.
proof fn lemma_flatten_stop(
    f: Flat,
    args: Seq<Operand>,
    shapes: Seq<ArgShape>,
    m: nat,
    n: nat,
    expected: Option<Seq<LlvmType>>,
)
    requires
        m <= n,
        flatten(f, args, shapes, m, expected).error is Some,
    ensures
        flatten(f, args, shapes, n, expected) == flatten(f, args, shapes, m, expected),
    decreases n,
{
    if m < n {
        lemma_flatten_stop(f, args, shapes, m, (n - 1) as nat, expected);
    }
}

fn append_slice(
    b: &mut Builder,
    out: &mut Flattened,
    slice: &Value,
    spaces: &Vec<SpaceField>,
    expected: &Option<Vec<LlvmType>>,
) -> (r: Result<(), LowerError>)
    requires
        spaces@.len() + 2 <= u32::MAX,
    ensures
        flat_state(*final(b), *final(out), r) == push_slice(
            flat_state(*old(b), *old(out), Ok(())),
            *slice,
            spaces@,
            signature_of(*expected),
        ),
{
    let ptr = match read_member(b, slice, 0) {
        Ok(v) => v,
        Err(e) => {
            return Err(e);
        },
    };
    let len = match read_member(b, slice, 1) {
        Ok(v) => v,
        Err(e) => {
            return Err(e);
        },
    };
    append_arg(b, out, ptr, LlvmType::Pointer(0), expected);
    append_arg(b, out, len, LlvmType::int_type(64), expected);
    let ghost start = flat_state(*b, *out, Ok(()));
    let ghost signature = signature_of(*expected);
    let mut i: usize = 0;
    while i < spaces.len()
        invariant
            i <= spaces.len(),
            spaces@.len() + 2 <= u32::MAX,
            signature == signature_of(*expected),
            flat_state(*b, *out, Ok(())) == push_spaces(
                start,
                *slice,
                spaces@,
                i as nat,
                signature,
            ),
            push_slice(
                flat_state(*old(b), *old(out), Ok(())),
                *slice,
                spaces@,
                signature,
            ) == push_spaces(start, *slice, spaces@, spaces@.len(), signature),
        decreases spaces.len() - i,
    {
        let space = &spaces[i];
        if !space.zero_sized {
            let slot: u32 = i as u32 + 2;
            if let Err(e) = append_member(b, out, slice, slot, space.ty.copy(), expected) {
                proof {
                    lemma_spaces_stop(
                        start,
                        *slice,
                        spaces@,
                        (i + 1) as nat,
                        spaces@.len(),
                        signature,
                    );
                }
                return Err(e);
            }
        }
        i = i + 1;
    }
    Ok(())
}

fn append_scalar(
    b: &mut Builder,
    out: &mut Flattened,
    value: &Value,
    abi: &ScalarAbi,
    expected: &Option<Vec<LlvmType>>,
) -> (r: Result<(), LowerError>)
    ensures
        flat_state(*final(b), *final(out), r) == push_scalar(
            flat_state(*old(b), *old(out), Ok(())),
            *value,
            *abi,
            signature_of(*expected),
        ),
{
    let ghost start = flat_state(*b, *out, Ok(()));
    let mut scalar = value.copy();
    let mut i: usize = 0;
    while i < abi.layers.len()
        invariant
            i <= abi.layers.len(),
            start == flat_state(*old(b), *old(out), Ok(())),
            *out == *old(out),
            (flat_state(*b, *out, Ok(())), scalar) == unwrap_layers(
                start,
                *value,
                abi.layers@,
                i as nat,
            ),
        decreases abi.layers.len() - i,
    {
        match read_member(b, &scalar, abi.layers[i].field_slot) {
            Ok(v) => {
                scalar = v;
            },
            Err(e) => {
                proof {
                    lemma_layers_stop(
                        start,
                        *value,
                        abi.layers@,
                        (i + 1) as nat,
                        abi.layers@.len(),
                    );
                }
                return Err(e);
            },
        }
        i = i + 1;
    }
    append_arg(b, out, scalar, abi.scalar_ty.copy(), expected);
    Ok(())
}

fn append_fields(
    b: &mut Builder,
    out: &mut Flattened,
    value: &Value,
    info: &StructInfo,
    expected: &Option<Vec<LlvmType>>,
) -> (r: Result<(), LowerError>)
    requires
        info.wf(),
    ensures
        flat_state(*final(b), *final(out), r) == push_fields(
            flat_state(*old(b), *old(out), Ok(())),
            *value,
            *info,
            info.mem_to_decl@.len(),
            signature_of(*expected),
        ),
{
    let ghost start = flat_state(*b, *out, Ok(()));
    let ghost signature = signature_of(*expected);
    let mut i: usize = 0;
    while i < info.mem_to_decl.len()
        invariant
            i <= info.mem_to_decl.len(),
            info.wf(),
            start == flat_state(*old(b), *old(out), Ok(())),
            signature == signature_of(*expected),
            flat_state(*b, *out, Ok(())) == push_fields(start, *value, *info, i as nat, signature),
        decreases info.mem_to_decl.len() - i,
    {
        let field: usize = info.mem_to_decl[i];
        proof {
            assert(info.mem_to_decl@[i as int] < info.map.decl_to_llvm@.len());
        }
        if let Some(slot) = info.map.decl_to_llvm[field] {
            let ty = info.map.field_types[field].copy();
            if let Err(e) = append_member(b, out, value, slot, ty, expected) {
                proof {
                    lemma_fields_stop(
                        start,
                        *value,
                        *info,
                        (i + 1) as nat,
                        info.mem_to_decl@.len(),
                        signature,
                    );
                }
                return Err(e);
            }
        }
        i = i + 1;
    }
    Ok(())
}

fn append_call_arg(
    b: &mut Builder,
    out: &mut Flattened,
    arg: &Operand,
    shape: &ArgShape,
    expected: &Option<Vec<LlvmType>>,
) -> (r: Result<(), LowerError>)
    requires
        shape.fits(*arg),
    ensures
        flat_state(*final(b), *final(out), r) == push_call_arg(
            flat_state(*old(b), *old(out), Ok(())),
            *arg,
            *shape,
            signature_of(*expected),
        ),
{
    let param = take_expected(expected, out.types.len());
    let value = &arg.value;
    if let Some(at) = transparent_scalar_abi_matching_param(&shape.transparent, &param) {
        if let Some(abi) = &shape.transparent[at] {
            return append_scalar(b, out, value, abi, expected);
        }
    }
    let history = &arg.history;
    if history.len() > 0 {
        match &history[history.len() - 1] {
            MirType::Slice(_) => {
                let none: Vec<SpaceField> = Vec::new();
                return append_slice(b, out, value, &none, expected);
            },
            MirType::DisjointSlice(_, _) => {
                return append_slice(b, out, value, &shape.spaces, expected);
            },
            MirType::Struct(_, _, _, _) => {
                if let Some(info) = &shape.structure {
                    return append_fields(b, out, value, info, expected);
                }
            },
            _ => {},
        }
    }
    if shape.zero_sized {
        return Ok(());
    }
    append_arg(b, out, value.copy(), value.ty.copy(), expected);
    Ok(())
}

/// Flattens the arguments of a call. A slice becomes pointer, length and layout
/// fields; a struct becomes its fields in memory order; a transparent wrapper
/// becomes its scalar where the parameter is that scalar; what occupies no
/// memory is left out; and each pointer is cast to the address space of its
/// parameter. The operations emitted before an error stay.
pub fn flatten_arguments(
    b: &mut Builder,
    args: &Vec<Operand>,
    shapes: &Vec<ArgShape>,
    expected: &Option<Vec<LlvmType>>,
) -> (r: Result<Flattened, LowerError>)
    requires
        shapes@.len() == args@.len(),
        forall|i: int| 0 <= i < args@.len() ==> (#[trigger] shapes@[i]).fits(args@[i]),
    ensures
        ({
            let f = flatten(
                flat_start(old(b)@),
                args@,
                shapes@,
                args@.len(),
                signature_of(*expected),
            );
            &&& final(b)@ == f.ops
            &&& match r {
                Ok(out) => f.error is None && out.values@ == f.values && out.types@ == f.types,
                Err(e) => f.error == Some(e),
            }
        }),
{
    let mut out = Flattened { values: Vec::new(), types: Vec::new() };
    let ghost start = flat_start(old(b)@);
    let ghost signature = signature_of(*expected);
    proof {
        assert(flat_state(*b, out, Ok(())) =~= start);
    }
    let mut i: usize = 0;
    while i < args.len()
        invariant
            i <= args.len(),
            shapes@.len() == args@.len(),
            forall|j: int| 0 <= j < args@.len() ==> (#[trigger] shapes@[j]).fits(args@[j]),
            start == flat_start(old(b)@),
            signature == signature_of(*expected),
            flat_state(*b, out, Ok(())) == flatten(start, args@, shapes@, i as nat, signature),
        decreases args.len() - i,
    {
        if let Err(e) = append_call_arg(b, &mut out, &args[i], &shapes[i], expected) {
            proof {
                lemma_flatten_stop(start, args@, shapes@, (i + 1) as nat, args@.len(), signature);
            }
            return Err(e);
        }
        i = i + 1;
    }
    Ok(out)
}

/// The first lowered declaration with the given name, at or after `i`.
pub open spec fn first_lowered(decls: Seq<Declaration>, name: Seq<char>, i: int) -> Option<int>
    decreases decls.len() - i,
{
    if i < 0 || i >= decls.len() {
        None
    } else if decls[i].name@ == name && decls[i].parameters is Lowered {
        Some(i)
    } else {
        first_lowered(decls, name, i + 1)
    }
}

/// The last pending declaration with the given name among the first `n`.
pub open spec fn last_pending(decls: Seq<Declaration>, name: Seq<char>, n: nat) -> Option<int>
    decreases n,
{
    if n == 0 {
        None
    } else if decls[n - 1].name@ == name && decls[n - 1].parameters is Pending {
        Some(n - 1)
    } else {
        last_pending(decls, name, (n - 1) as nat)
    }
}

/// The parameter types that a module declares for a name. A lowered function
/// takes precedence over one that is still to be lowered.
pub open spec fn declared_types(decls: Seq<Declaration>, name: Seq<char>) -> Option<
    Seq<LlvmType>,
> {
    match first_lowered(decls, name, 0) {
        Some(i) => match decls[i].parameters {
            Parameters::Lowered(types) => Some(types@),
            Parameters::Pending(_) => None,
        },
        None => match last_pending(decls, name, decls.len()) {
            Some(i) => match decls[i].parameters {
                Parameters::Pending(types) => signature_of(types),
                Parameters::Lowered(_) => None,
            },
            None => None,
        },
    }
}

/// The parameter types that the module declares for a name.
pub fn find_callee_arg_types(decls: &Vec<Declaration>, name: &str) -> (r: Option<Vec<LlvmType>>)
    ensures
        signature_of(r) == declared_types(decls@, name@),
{
    let mut pending: Option<usize> = None;
    let mut i: usize = 0;
    while i < decls.len()
        invariant
            i <= decls.len(),
            first_lowered(decls@, name@, 0) == first_lowered(decls@, name@, i as int),
            match pending {
                Some(at) => last_pending(decls@, name@, i as nat) == Some(at as int) && at < i
                    && decls@[at as int].parameters is Pending,
                None => last_pending(decls@, name@, i as nat) is None,
            },
        decreases decls.len() - i,
    {
        let decl = &decls[i];
        if text::is_named(&decl.name, name) {
            match &decl.parameters {
                Parameters::Lowered(types) => {
                    return Some(copy_types(types));
                },
                Parameters::Pending(_) => {
                    pending = Some(i);
                },
            }
        }
        i = i + 1;
    }
    match pending {
        Some(at) => match &decls[at].parameters {
            Parameters::Pending(Some(types)) => Some(copy_types(types)),
            _ => None,
        },
        None => None,
    }
}

/// The signature that arguments are coerced to: that of the declaration, unless
/// it has no parameter.
pub open spec fn expected_signature(decls: Seq<Declaration>, name: Seq<char>) -> Option<
    Seq<LlvmType>,
> {
    match declared_types(decls, name) {
        Some(types) => if types.len() == 0 {
            None
        } else {
            Some(types)
        },
        None => None,
    }
}

impl CallResult {
    /// The type that crosses the call, if the result occupies memory.
    pub open spec fn carried(self) -> LlvmType {
        match self.abi {
            ResultAbi::Transparent(abi) => abi.scalar_ty,
            ResultAbi::PackedShared(storage, _) => storage,
            ResultAbi::Direct => self.converted,
        }
    }

    /// Whether the call returns nothing for this result.
    pub open spec fn erased(self) -> bool {
        self.zero_sized || (self.mir matches MirType::Tuple(types, _) && types@.len() == 0)
    }

    fn is_erased(&self) -> (b: bool)
        ensures
            b == self.erased(),
    {
        if self.zero_sized {
            return true;
        }
        match &self.mir {
            MirType::Tuple(types, _) => types.len() == 0,
            _ => false,
        }
    }

    fn carried_type(&self) -> (t: LlvmType)
        ensures
            t == self.carried(),
    {
        match &self.abi {
            ResultAbi::Transparent(abi) => abi.scalar_ty.copy(),
            ResultAbi::PackedShared(storage, _) => storage.copy(),
            ResultAbi::Direct => self.converted.copy(),
        }
    }
}

/// The result type of the emitted call.
pub open spec fn call_type(results: Seq<CallResult>) -> LlvmType {
    if results.len() == 0 || results[0].erased() {
        LlvmType::Void
    } else {
        results[0].carried()
    }
}

/// Puts a scalar back into the innermost `n` of its wrappers.
pub open spec fn rewrap(ops: Seq<OpView>, scalar: Value, layers: Seq<ScalarLayer>, n: nat) -> (
    Seq<OpView>,
    Value,
)
    decreases n,
{
    if n == 0 {
        (ops, scalar)
    } else {
        let (before, inner) = rewrap(ops, scalar, layers, (n - 1) as nat);
        let layer = layers[layers.len() - n];
        let at = before.len();
        let empty = Value::at(at, layer.struct_ty);
        (
            before.push(OpView::undef(layer.struct_ty)).push(
                OpView::insert(empty, inner, layer.field_slot),
            ),
            Value::at(at + 1, layer.struct_ty),
        )
    }
}

/// All operations of the function after a call was lowered, and the value that
/// replaces its result.
pub struct Outcome {
    pub ops: Seq<OpView>,
    pub result: Result<Option<Value>, LowerError>,
}

/// What becomes of the result of the call at the end of `called`.
pub open spec fn call_result(
    called: Seq<OpView>,
    results: Seq<CallResult>,
    used: bool,
) -> Outcome {
    let ty = call_type(results);
    let value = Value::at((called.len() - 1) as nat, ty);
    if results.len() > 0 && ty != LlvmType::Void {
        match results[0].abi {
            ResultAbi::Transparent(abi) => {
                let (ops, whole) = rewrap(called, value, abi.layers@, abi.layers@.len());
                Outcome { ops, result: Ok(Some(whole)) }
            },
            ResultAbi::PackedShared(_, semantic) => Outcome {
                ops: called.push(OpView::coerce(Coercion::TargetStable, value, semantic)),
                result: Ok(Some(Value::at(called.len(), semantic))),
            },
            ResultAbi::Direct => Outcome { ops: called, result: Ok(Some(value)) },
        }
    } else if used && results.len() > 0 && results[0].erased() {
        let ty = results[0].carried();
        Outcome {
            ops: called.push(OpView::undef(ty)),
            result: Ok(Some(Value::at(called.len(), ty))),
        }
    } else if used {
        Outcome { ops: called, result: Err(LowerError::LiveVoidResult) }
    } else {
        Outcome { ops: called, result: Ok(None) }
    }
}

/// A call of the function `resolved`, by its mangled name. Device library
/// functions are declared first.
pub open spec fn function_call(
    ops: Seq<OpView>,
    call: MirCall,
    resolved: Seq<char>,
    decls: Seq<Declaration>,
) -> Outcome {
    let name = text::mangled(resolved);
    let f = flatten(
        flat_start(ops),
        call.args@,
        call.shapes@,
        call.args@.len(),
        expected_signature(decls, name),
    );
    match f.error {
        Some(e) => Outcome { ops: f.ops, result: Err(e) },
        None => {
            let ty = call_type(call.results@);
            let declared = if text::spec_starts_with(resolved, "__nv_"@) {
                f.ops.push(OpView::declare(name, f.types, ty))
            } else {
                f.ops
            };
            call_result(
                declared.push(OpView::call(name, f.types, ty, f.values)),
                call.results@,
                call.used,
            )
        },
    }
}

/// The type of the first result.
pub open spec fn result_type(results: Seq<CallResult>) -> LlvmType {
    if results.len() > 0 {
        results[0].converted
    } else {
        LlvmType::Void
    }
}

/// A call that stands for an intrinsic. `n` operations precede it.
pub open spec fn intrinsic_ops(
    n: nat,
    call: MirCall,
    options: LoweringOptions,
    p: Placeholder,
) -> Emitted {
    let args = values_of(call.args@);
    let results = call.results@.len();
    let ty = result_type(call.results@);
    match RustBitIntrinsic::of_placeholder(p) {
        Some(i) => bit_ops(n, args, results, ty, i),
        None => match RustSaturatingIntrinsic::of_placeholder(p) {
            Some(i) => saturating_ops(n, call.args@, results, ty, i),
            None => match RustFloatMathIntrinsic::of_placeholder(p) {
                Some(i) => float_math_ops(n, args, results, ty, options, i),
                None => if p == Placeholder::ExactDiv {
                    exact_div_ops(n, call.args@, results)
                } else if p == Placeholder::CarryingMulAdd {
                    carrying_mul_add(n, call.args@, results, ty)
                } else {
                    select_ops(args, results)
                },
            },
        },
    }
}

/// [`emits`] for an operation that is replaced by a value.
pub open spec fn replaces(
    before: Seq<OpView>,
    after: Seq<OpView>,
    r: Result<Option<Value>, LowerError>,
    expected: Emitted,
) -> bool {
    match r {
        Ok(Some(v)) => emits(before, after, Ok(v), expected),
        Ok(None) => false,
        Err(e) => emits(before, after, Err(e), expected),
    }
}

fn replacement(r: Result<Value, LowerError>) -> (s: Result<Option<Value>, LowerError>)
    ensures
        s == match r {
            Ok(v) => Ok::<Option<Value>, LowerError>(Some(v)),
            Err(e) => Err::<Option<Value>, LowerError>(e),
        },
{
    match r {
        Ok(v) => Ok(Some(v)),
        Err(e) => Err(e),
    }
}

/// Puts the scalar that a call returned back into its wrappers.
fn rewrap_scalar(b: &mut Builder, scalar: Value, layers: &Vec<ScalarLayer>) -> (r: Value)
    ensures
        (final(b)@, r) == rewrap(old(b)@, scalar, layers@, layers@.len()),
{
    let mut value = scalar;
    let mut n: usize = 0;
    while n < layers.len()
        invariant
            n <= layers.len(),
            (b@, value) == rewrap(old(b)@, scalar, layers@, n as nat),
        decreases layers.len() - n,
    {
        n = n + 1;
        let layer = &layers[layers.len() - n];
        let empty = b.undef(&layer.struct_ty);
        value = b.insert(&empty, &value, layer.field_slot);
    }
    value
}

/// Lowers a call of a function by name.
fn convert_function_call(
    b: &mut Builder,
    call: &MirCall,
    name: &String,
    base_name: &Option<String>,
    decls: &Vec<Declaration>,
) -> (r: Result<Option<Value>, LowerError>)
    requires
        text::is_identifier(text::mangled(resolved_symbol(name@, *base_name))),
        call.shapes@.len() == call.args@.len(),
        forall|i: int|
            0 <= i < call.args@.len() ==> (#[trigger] call.shapes@[i]).fits(call.args@[i]),
    ensures
        (Outcome { ops: final(b)@, result: r }) == function_call(
            old(b)@,
            *call,
            resolved_symbol(name@, *base_name),
            decls@,
        ),
{
    let resolved = resolve_device_extern_symbol(name, base_name);
    let mangled = text::mangle(resolved.as_str());
    let symbol = match text::identifier(mangled.as_str()) {
        Some(symbol) => symbol,
        None => String::new(),
    };
    let ty = if call.results.len() == 0 || call.results[0].is_erased() {
        LlvmType::Void
    } else {
        call.results[0].carried_type()
    };
    let declared = find_callee_arg_types(decls, symbol.as_str());
    let expected: Option<Vec<LlvmType>> = match declared {
        Some(types) => if types.len() == 0 {
            None
        } else {
            Some(types)
        },
        None => None,
    };
    let flat = match flatten_arguments(b, &call.args, &call.shapes, &expected) {
        Ok(flat) => flat,
        Err(e) => {
            return Err(e);
        },
    };
    if text::starts_with(resolved.as_str(), "__nv_") {
        b.declare(symbol.as_str(), copy_types(&flat.types), &ty);
    }
    let value = b.call(symbol.as_str(), flat.types, &ty, flat.values);
    if call.results.len() > 0 && !ty.same(&LlvmType::Void) {
        match &call.results[0].abi {
            ResultAbi::Transparent(abi) => {
                let whole = rewrap_scalar(b, value, &abi.layers);
                Ok(Some(whole))
            },
            ResultAbi::PackedShared(_, semantic) => {
                Ok(Some(b.coerce(Coercion::TargetStable, &value, semantic)))
            },
            ResultAbi::Direct => Ok(Some(value)),
        }
    } else if call.used && call.results.len() > 0 && call.results[0].is_erased() {
        let empty = call.results[0].carried_type();
        Ok(Some(b.undef(&empty)))
    } else if call.used {
        Err(LowerError::LiveVoidResult)
    } else {
        Ok(None)
    }
}

/// Lowers a call. A function is called by its resolved name, with each `::`
/// mangled to `__`. The value returned replaces the result; there is none where
/// the call is only erased.
pub fn convert(
    b: &mut Builder,
    call: &MirCall,
    decls: &Vec<Declaration>,
    options: LoweringOptions,
) -> (r: Result<Option<Value>, LowerError>)
    requires
        call.callee matches Some(Callee::Function { name, base_name }) ==> text::is_identifier(
            text::mangled(resolved_symbol(name@, base_name)),
        ),
        call.callee == Some(Callee::Intrinsic(Placeholder::CarryingMulAdd)) && call.args@.len() > 0
            ==> call.args@[0].value.ty.spec_int_width() != Some(0u32),
        call.shapes@.len() == call.args@.len(),
        forall|i: int|
            0 <= i < call.args@.len() ==> (#[trigger] call.shapes@[i]).fits(call.args@[i]),
    ensures
        call.callee is None ==> r == Err::<Option<Value>, LowerError>(LowerError::MissingAttribute)
            && final(b)@ == old(b)@,
        call.callee matches Some(Callee::Function { name, base_name }) ==> (Outcome {
            ops: final(b)@,
            result: r,
        }) == function_call(old(b)@, *call, resolved_symbol(name@, base_name), decls@),
        call.callee matches Some(Callee::Intrinsic(p)) ==> replaces(
            old(b)@,
            final(b)@,
            r,
            intrinsic_ops(old(b)@.len(), *call, options, p),
        ),
{
    let callee = match &call.callee {
        Some(callee) => callee,
        None => {
            return Err(LowerError::MissingAttribute);
        },
    };
    proof {
        if let Callee::Intrinsic(p) = callee {
            law_placeholders_disjoint(*p);
        }
    }
    let results: usize = call.results.len();
    let ty = if results > 0 {
        call.results[0].converted.copy()
    } else {
        LlvmType::Void
    };
    if let Some(intrinsic) = RustBitIntrinsic::from_placeholder_callee(callee) {
        let args = operand_values(&call.args);
        return replacement(convert_rust_bit_intrinsic(b, &args, results, &ty, intrinsic));
    }
    if let Some(intrinsic) = RustSaturatingIntrinsic::from_placeholder_callee(callee) {
        return replacement(
            convert_rust_saturating_intrinsic(b, &call.args, results, &ty, intrinsic),
        );
    }
    if RustExactDivIntrinsic::from_placeholder_callee(callee).is_some() {
        return replacement(convert_rust_exact_div(b, &call.args, results));
    }
    if RustBigIntIntrinsic::from_placeholder_callee(callee).is_some() {
        return replacement(convert_rust_carrying_mul_add(b, &call.args, results, &ty));
    }
    if let Some(intrinsic) = RustFloatMathIntrinsic::from_placeholder_callee(callee) {
        let args = operand_values(&call.args);
        return replacement(
            convert_rust_float_math_intrinsic(b, &args, results, &ty, options, intrinsic),
        );
    }
    match callee {
        Callee::Intrinsic(_) => {
            let args = operand_values(&call.args);
            replacement(convert_rust_select_unpredictable(b, &args, results))
        },
        Callee::Function { name, base_name } => {
            convert_function_call(b, call, name, base_name, decls)
        },
    }
}

/// Each argument has a type, a pointer that meets a pointer parameter is in its
/// address space, and a pointer that meets no parameter is generic.
pub open spec fn fits_signature(f: Flat, expected: Option<Seq<LlvmType>>) -> bool {
    &&& f.values.len() == f.types.len()
    &&& forall|i: int|
        0 <= i < f.types.len() && (#[trigger] f.types[i]) is Pointer ==> match expected_at(
            expected,
            i as nat,
        ) {
            Some(LlvmType::Pointer(space)) => f.types[i] == LlvmType::Pointer(space),
            Some(_) => true,
            None => f.types[i] == LlvmType::Pointer(ADDRSPACE_GENERIC),
        }
}

/// `g` continues `f`: operations, arguments and types were only added, and what
/// fitted the signature still does.
spec fn continues(f: Flat, g: Flat, expected: Option<Seq<LlvmType>>) -> bool {
    &&& f.ops.is_prefix_of(g.ops)
    &&& f.values.is_prefix_of(g.values)
    &&& f.types.is_prefix_of(g.types)
    &&& fits_signature(f, expected) ==> fits_signature(g, expected)
}

proof fn lemma_arg_continues(
    f: Flat,
    value: Value,
    ty: LlvmType,
    expected: Option<Seq<LlvmType>>,
)
    ensures
        continues(f, push_arg(f, value, ty, expected), expected),
{
    let g = push_arg(f, value, ty, expected);
    assert(f.types =~= g.types.drop_last());
    if fits_signature(f, expected) {
        assert forall|i: int|
            0 <= i < g.types.len() && (#[trigger] g.types[i]) is Pointer implies match expected_at(
            expected,
            i as nat,
        ) {
            Some(LlvmType::Pointer(space)) => g.types[i] == LlvmType::Pointer(space),
            Some(_) => true,
            None => g.types[i] == LlvmType::Pointer(ADDRSPACE_GENERIC),
        } by {
            if i < f.types.len() {
                assert(g.types[i] == f.types[i]);
            }
        }
    }
}

proof fn lemma_member_continues(
    f: Flat,
    aggregate: Value,
    slot: u32,
    ty: LlvmType,
    expected: Option<Seq<LlvmType>>,
)
    ensures
        continues(f, push_member(f, aggregate, slot, ty, expected), expected),
{
    if f.error is None && aggregate.ty.spec_member(slot) is Some {
        let member = aggregate.ty.spec_member(slot).unwrap();
        let read = Flat { ops: f.ops.push(OpView::extract(aggregate, slot, member)), ..f };
        lemma_arg_continues(read, Value::at(f.ops.len(), member), ty, expected);
    }
}

proof fn lemma_spaces_continue(
    f: Flat,
    aggregate: Value,
    spaces: Seq<SpaceField>,
    n: nat,
    expected: Option<Seq<LlvmType>>,
)
    ensures
        continues(f, push_spaces(f, aggregate, spaces, n, expected), expected),
    decreases n,
{
    if n > 0 {
        lemma_spaces_continue(f, aggregate, spaces, (n - 1) as nat, expected);
        let before = push_spaces(f, aggregate, spaces, (n - 1) as nat, expected);
        lemma_member_continues(before, aggregate, (n + 1) as u32, spaces[n - 1].ty, expected);
    }
}

proof fn lemma_slice_continues(
    f: Flat,
    slice: Value,
    spaces: Seq<SpaceField>,
    expected: Option<Seq<LlvmType>>,
)
    ensures
        continues(f, push_slice(f, slice, spaces, expected), expected),
{
    if let (Some(ptr), Some(len)) = (slice.ty.spec_member(0), slice.ty.spec_member(1)) {
        let n = f.ops.len();
        let read = Flat {
            ops: f.ops.push(OpView::extract(slice, 0, ptr)).push(OpView::extract(slice, 1, len)),
            ..f
        };
        lemma_arg_continues(read, Value::at(n, ptr), LlvmType::Pointer(0), expected);
        let with_ptr = push_arg(read, Value::at(n, ptr), LlvmType::Pointer(0), expected);
        lemma_arg_continues(with_ptr, Value::at(n + 1, len), LlvmType::spec_int(64), expected);
        let with_len = push_arg(
            with_ptr,
            Value::at(n + 1, len),
            LlvmType::spec_int(64),
            expected,
        );
        lemma_spaces_continue(with_len, slice, spaces, spaces.len(), expected);
    }
}

proof fn lemma_layers_continue(f: Flat, value: Value, layers: Seq<ScalarLayer>, n: nat)
    ensures
        f.ops.is_prefix_of(unwrap_layers(f, value, layers, n).0.ops),
        unwrap_layers(f, value, layers, n).0.values == f.values,
        unwrap_layers(f, value, layers, n).0.types == f.types,
    decreases n,
{
    if n > 0 {
        lemma_layers_continue(f, value, layers, (n - 1) as nat);
    }
}

proof fn lemma_fields_continue(
    f: Flat,
    value: Value,
    info: StructInfo,
    n: nat,
    expected: Option<Seq<LlvmType>>,
)
    ensures
        continues(f, push_fields(f, value, info, n, expected), expected),
    decreases n,
{
    if n > 0 {
        lemma_fields_continue(f, value, info, (n - 1) as nat, expected);
        let before = push_fields(f, value, info, (n - 1) as nat, expected);
        let field = info.mem_to_decl@[n - 1] as int;
        if let Some(slot) = info.map.decl_to_llvm@[field] {
            lemma_member_continues(before, value, slot, info.map.field_types@[field], expected);
        }
    }
}

proof fn lemma_call_arg_continues(
    f: Flat,
    arg: Operand,
    shape: ArgShape,
    expected: Option<Seq<LlvmType>>,
)
    ensures
        continues(f, push_call_arg(f, arg, shape, expected), expected),
{
    let value = arg.value;
    match matching_abi(shape.transparent@, expected_at(expected, f.types.len())) {
        Some(at) => {
            let abi = shape.transparent@[at].unwrap();
            let (read, scalar) = unwrap_layers(f, value, abi.layers@, abi.layers@.len());
            lemma_layers_continue(f, value, abi.layers@, abi.layers@.len());
            lemma_arg_continues(read, scalar, abi.scalar_ty, expected);
        },
        None => {
            lemma_slice_continues(f, value, Seq::empty(), expected);
            lemma_slice_continues(f, value, shape.spaces@, expected);
            let info = shape.structure.unwrap();
            lemma_fields_continue(f, value, info, info.mem_to_decl@.len(), expected);
            lemma_arg_continues(f, value, value.ty, expected);
        },
    }
}

/// An argument only adds operations.
pub(crate) proof fn lemma_call_arg_length(
    f: Flat,
    arg: Operand,
    shape: ArgShape,
    expected: Option<Seq<LlvmType>>,
)
    ensures
        f.ops.len() <= push_call_arg(f, arg, shape, expected).ops.len(),
{
    lemma_call_arg_continues(f, arg, shape, expected);
}

/// Flattening only adds operations, gives each argument a type, and leaves
/// every pointer in the address space that the signature asks for.
pub proof fn law_flatten(
    ops: Seq<OpView>,
    args: Seq<Operand>,
    shapes: Seq<ArgShape>,
    n: nat,
    expected: Option<Seq<LlvmType>>,
)
    ensures
        ops.is_prefix_of(flatten(flat_start(ops), args, shapes, n, expected).ops),
        fits_signature(flatten(flat_start(ops), args, shapes, n, expected), expected),
    decreases n,
{
    if n > 0 {
        law_flatten(ops, args, shapes, (n - 1) as nat, expected);
        let before = flatten(flat_start(ops), args, shapes, (n - 1) as nat, expected);
        lemma_call_arg_continues(before, args[n - 1], shapes[n - 1], expected);
    }
}

} // verus!
