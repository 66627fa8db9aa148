//! Helpers shared by the intrinsic lowerings.

use crate::ints::IntConst;
use crate::llvm::LlvmType;
use crate::ops::{copy_types, AsmKind, Builder, CastKind, OpView, Value};
use crate::text;
use vstd::prelude::*;

verus! {

/// Emits a one-bit constant.
pub fn create_i1_const(b: &mut Builder, value: bool) -> (r: Value)
    ensures
        final(b)@ == old(b)@.push(
            OpView::int_of(
                if value {
                    1
                } else {
                    0
                },
                1,
            ),
        ),
        r == Value::at(old(b)@.len(), LlvmType::spec_int(1)),
{
    let bit: i64 = if value {
        1
    } else {
        0
    };
    b.constant(IntConst::from_i64(bit, 1))
}

/// Emits a 32-bit constant.
pub fn create_i32_const(b: &mut Builder, value: i32) -> (r: Value)
    ensures
        final(b)@ == old(b)@.push(OpView::int_of(value as int, 32)),
        r == Value::at(old(b)@.len(), LlvmType::spec_int(32)),
{
    b.constant(IntConst::from_i64(value as i64, 32))
}

/// Emits a 64-bit constant.
pub fn create_i64_const(b: &mut Builder, value: i64) -> (r: Value)
    ensures
        final(b)@ == old(b)@.push(OpView::int_of(value as int, 64)),
        r == Value::at(old(b)@.len(), LlvmType::spec_int(64)),
{
    b.constant(IntConst::from_i64(value, 64))
}

/// The address space of a value: that of its pointer type, else the generic
/// one.
pub open spec fn space_of(ty: LlvmType) -> u32 {
    match ty {
        LlvmType::Pointer(a) => a,
        _ => 0,
    }
}

/// What brings a pointer into an address space, and the pointer there. One that
/// is there already stays as it is.
pub open spec fn space_cast(n: nat, ptr: Value, space: u32) -> (Seq<OpView>, Value) {
    if space_of(ptr.ty) == space {
        (Seq::empty(), ptr)
    } else {
        (
            seq![OpView::cast(CastKind::AddrSpaceCast, ptr, LlvmType::Pointer(space))],
            Value::at(n, LlvmType::Pointer(space)),
        )
    }
}

fn cast_to_space(b: &mut Builder, ptr: &Value, space: u32) -> (r: Value)
    ensures
        final(b)@ == old(b)@ + space_cast(old(b)@.len(), *ptr, space).0,
        r == space_cast(old(b)@.len(), *ptr, space).1,
{
    let current: u32 = match ptr.ty.addrspace() {
        Some(a) => a,
        None => 0,
    };
    if current != space {
        b.cast(CastKind::AddrSpaceCast, ptr, &LlvmType::Pointer(space))
    } else {
        ptr.copy()
    }
}

/// Brings a pointer into shared memory, address space 3.
pub fn cast_to_shared_addrspace(b: &mut Builder, ptr: &Value) -> (r: Value)
    ensures
        final(b)@ == old(b)@ + space_cast(old(b)@.len(), *ptr, 3).0,
        r == space_cast(old(b)@.len(), *ptr, 3).1,
{
    cast_to_space(b, ptr, 3)
}

/// Brings a pointer into the shared memory of a cluster, address space 7.
pub fn cast_to_cluster_shared_addrspace(b: &mut Builder, ptr: &Value) -> (r: Value)
    ensures
        final(b)@ == old(b)@ + space_cast(old(b)@.len(), *ptr, 7).0,
        r == space_cast(old(b)@.len(), *ptr, 7).1,
{
    cast_to_space(b, ptr, 7)
}

/// A declaration of an intrinsic followed by a call of it.
pub open spec fn intrinsic_call(
    name: Seq<char>,
    signature: Seq<LlvmType>,
    ty: LlvmType,
    args: Seq<Value>,
) -> Seq<OpView> {
    seq![OpView::declare(name, signature, ty), OpView::call(name, signature, ty, args)]
}

/// Declares an intrinsic and calls it.
pub fn call_intrinsic(
    b: &mut Builder,
    name: &str,
    signature: Vec<LlvmType>,
    ty: &LlvmType,
    args: Vec<Value>,
) -> (r: Value)
    requires
        text::is_identifier(name@),
    ensures
        final(b)@ == old(b)@ + intrinsic_call(name@, signature@, *ty, args@),
        r == Value::at(old(b)@.len() + 1, *ty),
{
    let symbol = match text::identifier(name) {
        Some(symbol) => symbol,
        None => String::new(),
    };
    b.declare(symbol.as_str(), copy_types(&signature), ty);
    let r = b.call(symbol.as_str(), signature, ty, args);
    proof {
        assert(b@ =~= old(b)@ + intrinsic_call(name@, signature@, *ty, args@));
    }
    r
}

/// Emits inline assembly that must not move across divergent control flow.
pub fn inline_asm_convergent(
    b: &mut Builder,
    ty: &LlvmType,
    inputs: Vec<Value>,
    template: &str,
    constraints: &str,
) -> (r: Value)
    ensures
        final(b)@ == old(b)@.push(
            OpView::inline_asm(AsmKind::Convergent, template@, constraints@, *ty, inputs@),
        ),
        r == Value::at(old(b)@.len(), *ty),
{
    b.inline_assembly(AsmKind::Convergent, template, constraints, ty, inputs)
}

/// Emits inline assembly with side effects that is not convergent.
pub fn inline_asm_sideeffect(
    b: &mut Builder,
    ty: &LlvmType,
    inputs: Vec<Value>,
    template: &str,
    constraints: &str,
) -> (r: Value)
    ensures
        final(b)@ == old(b)@.push(
            OpView::inline_asm(AsmKind::SideEffect, template@, constraints@, *ty, inputs@),
        ),
        r == Value::at(old(b)@.len(), *ty),
{
    b.inline_assembly(AsmKind::SideEffect, template, constraints, ty, inputs)
}

/// Truncates a value to one bit.
pub fn trunc_to_i1(b: &mut Builder, value: &Value) -> (r: Value)
    ensures
        final(b)@ == old(b)@.push(
            OpView::cast(CastKind::Trunc, *value, LlvmType::spec_int(1)),
        ),
        r == Value::at(old(b)@.len(), LlvmType::spec_int(1)),
{
    b.cast(CastKind::Trunc, value, &LlvmType::int_type(1))
}

/// A pointer that was brought into an address space is there: to bring it there
/// again emits nothing and changes nothing.
pub proof fn law_space_cast_idempotent(n: nat, m: nat, ptr: Value, space: u32)
    ensures
        space_of(space_cast(n, ptr, space).1.ty) == space,
        space_cast(m, space_cast(n, ptr, space).1, space) == (
            Seq::<OpView>::empty(),
            space_cast(n, ptr, space).1,
        ),
{
}

} // verus!
