//! Stack slots and byte addresses.

use crate::ints::IntConst;
use crate::llvm::LlvmType;
use crate::ops::{Builder, Index, OpView, Value};
use vstd::prelude::*;

verus! {

/// The alignment attribute for a type; none where its alignment is unknown.
pub open spec fn align_attribute(abi_align: u64) -> Option<u32> {
    if abi_align > 0 {
        Some(abi_align as u32)
    } else {
        None
    }
}

pub fn alignment_attribute(abi_align: u64) -> (r: Option<u32>)
    ensures
        r == align_attribute(abi_align),
{
    if abi_align > 0 {
        Some(
            #[verifier::truncate]
            (abi_align as u32),
        )
    } else {
        None
    }
}

/// Copying a value to a fresh stack slot.
pub open spec fn spill_ops(n: nat, value: Value, ty: LlvmType, abi_align: u64) -> Seq<OpView> {
    let align = align_attribute(abi_align);
    seq![
        OpView::int_of(1, 64),
        OpView::alloca(ty, Value::at(n, LlvmType::spec_int(64))).aligned(align),
        OpView::store(value, Value::at(n + 1, LlvmType::Pointer(0))).aligned(align),
    ]
}

/// Copies an enum value to a fresh stack slot and returns its address. The slot
/// has the alignment of the enum, which its fields alone may not show.
pub fn spill_enum_value(b: &mut Builder, value: &Value, ty: &LlvmType, abi_align: u64) -> (r:
    Value)
    ensures
        final(b)@ == old(b)@ + spill_ops(old(b)@.len(), *value, *ty, abi_align),
        r == Value::at(old(b)@.len() + 1, LlvmType::Pointer(0)),
{
    let align = alignment_attribute(abi_align);
    let one = b.one();
    let slot = b.alloca(ty, &one, align);
    b.store(value, &slot, align);
    proof {
        assert(b@ =~= old(b)@ + spill_ops(old(b)@.len(), *value, *ty, abi_align));
    }
    slot
}

/// The address `offset` bytes behind `base`.
pub open spec fn byte_gep_ops(n: nat, base: Value, offset: u64) -> Seq<OpView> {
    seq![
        OpView::int_of(offset as int, 64),
        OpView::gep(
            base,
            LlvmType::spec_int(8),
            seq![Index::Dynamic(Value::at(n, LlvmType::spec_int(64)))],
        ),
    ]
}

/// Emits the address `offset` bytes behind `base`.
pub fn byte_offset_gep(b: &mut Builder, base: &Value, offset: u64) -> (r: Value)
    ensures
        final(b)@ == old(b)@ + byte_gep_ops(old(b)@.len(), *base, offset),
        r == Value::at(old(b)@.len() + 1, base.ty),
{
    let r = aligned_byte_offset_gep(b, base, offset, None);
    proof {
        assert(b@ =~= old(b)@ + byte_gep_ops(old(b)@.len(), *base, offset));
    }
    r
}

/// Emits the address `offset` bytes behind `base`, with a known alignment.
pub fn aligned_byte_offset_gep(
    b: &mut Builder,
    base: &Value,
    offset: u64,
    align: Option<u32>,
) -> (r: Value)
    ensures
        ({
            let ops = byte_gep_ops(old(b)@.len(), *base, offset);
            final(b)@ == old(b)@.push(ops[0]).push(ops[1].aligned(align))
        }),
        r == Value::at(old(b)@.len() + 1, base.ty),
{
    let bytes = emit_integer_constant(b, 64, offset as u128);
    let mut indices: Vec<Index> = Vec::new();
    indices.push(Index::Dynamic(bytes));
    proof {
        assert(indices@ =~= seq![Index::Dynamic(bytes)]);
    }
    b.gep(base, &LlvmType::int_type(8), indices, true, align)
}

/// Emits an integer constant.
pub fn emit_integer_constant(b: &mut Builder, width: u32, bits: u128) -> (r: Value)
    requires
        width > 0,
    ensures
        final(b)@ == old(b)@.push(OpView::int_of(bits as int, width)),
        r == Value::at(old(b)@.len(), LlvmType::spec_int(width)),
{
    b.constant(IntConst::from_u128(bits, width))
}

} // verus!
