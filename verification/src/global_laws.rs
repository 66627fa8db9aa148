//! Laws: which globals an allocation adds, and what addresses lead to.

use crate::ints::lemma_value_of_int;
use crate::llvm::LlvmType;
use crate::memory::{
    add_dynamic, alloca_ops, dynamic_addr_ops, dynamic_key, dynamic_shared, global_alloc,
    offset_ops, shared_alloc, Attribute, DynamicShared, GlobalAlloc, GlobalView, GlobalsView,
    SharedAlloc,
};
use crate::operation_laws::gives;
use crate::ops::{Index, OpCode, OpView, Value};
use crate::semantics::{
    available, datum, holds_int, lemma_accessed, lemma_datum_prefix, lemma_emitted, signed, Datum,
};
use crate::stack_memory::{laid_out, size_of};
use crate::text;
use vstd::arithmetic::div_mod::lemma_small_mod;
use vstd::arithmetic::power2::{lemma2_to64, pow2};
use vstd::prelude::*;

verus! {

/// Whether exactly one global was added, in front of all others.
pub open spec fn adds(before: GlobalsView, after: GlobalsView, global: GlobalView) -> bool {
    &&& after.list.len() == before.list.len() + 1
    &&& after.list[0] == global
    &&& forall|i: int| 0 <= i < before.list.len() ==> #[trigger] before.list[i] == after.list[i + 1]
}

/// The alignment that an allocation asks for; zero asks for none.
pub open spec fn asked_align(align: Option<u64>) -> Option<u64> {
    if align == Some(0u64) {
        None
    } else {
        align
    }
}

/// Shared memory under a new key, or under none, is a new array of the asked
/// elements in shared memory; under a known key it is the array of that key. A
/// key is remembered with the name; other keys and device globals stay.
pub proof fn law_shared_added(globals: GlobalsView, alloc: SharedAlloc, elem: LlvmType, size: u64)
    requires
        alloc.elem == Attribute::Value(elem),
        alloc.size == Attribute::Value(size),
    ensures
        shared_alloc(globals, alloc) matches Ok((after, name)) && {
            let known = alloc.key is Some && globals.shared.contains_key(alloc.key.unwrap()@);
            &&& known ==> after == globals && name == globals.shared[alloc.key.unwrap()@]
            &&& !known ==> adds(
                globals,
                after,
                GlobalView {
                    name,
                    ty: LlvmType::Array(Box::new(elem), size),
                    align: asked_align(alloc.align),
                    addrspace: 3,
                    external: false,
                },
            )
            &&& alloc.key matches Some(key) ==> after.shared.contains_key(key@)
                && after.shared[key@] == name
            &&& forall|other: Seq<char>|
                (alloc.key matches Some(key) ==> other != key@) ==> (
                #[trigger] after.shared.contains_key(other) <==> globals.shared.contains_key(
                    other,
                )) && after.shared[other] == globals.shared[other]
            &&& after.device == globals.device
            &&& after.device_count == globals.device_count
        },
{
}

/// A static under a new key is a new global of the asked type, in constant memory
/// and under its own name where that is asked for, else in global memory; under a
/// known key it is the global of that key.
pub proof fn law_static_added(
    globals: GlobalsView,
    alloc: GlobalAlloc,
    key: String,
    ty: LlvmType,
    asked: u32,
)
    requires
        alloc.key == Attribute::Value(key),
        alloc.ty == Attribute::Value(ty),
        alloc.addrspace == Some(asked),
        asked == 4 ==> text::is_identifier(key@),
    ensures
        global_alloc(globals, alloc) matches Ok((after, name, space)) && {
            let known = globals.device.contains_key(key@);
            &&& space == if asked == 4 {
                4u32
            } else {
                1u32
            }
            &&& known ==> after == globals && name == globals.device[key@]
            &&& !known ==> adds(
                globals,
                after,
                GlobalView {
                    name,
                    ty,
                    align: asked_align(alloc.align),
                    addrspace: space,
                    external: false,
                },
            )
            &&& !known && asked == 4 ==> name == key@
            &&& after.device.contains_key(key@) && after.device[key@] == name
            &&& forall|other: Seq<char>|
                other != key@ ==> (#[trigger] after.device.contains_key(other)
                    <==> globals.device.contains_key(other)) && after.device[other]
                    == globals.device[other]
            &&& after.shared == globals.shared
            &&& after.shared_count == globals.shared_count
        },
{
}

/// The dynamic shared memory of a kernel is that of the first entry for it, and
/// there is none where there is no entry.
pub proof fn law_dynamic_entry(entries: Seq<DynamicShared>, kernel: Seq<char>, from: int)
    requires
        0 <= from <= entries.len(),
    ensures
        match dynamic_shared(entries, kernel, from) {
            Some((symbol, align)) => exists|i: int|
                {
                    &&& from <= i < entries.len()
                    &&& (#[trigger] entries[i]).kernel@ == kernel
                    &&& entries[i].symbol@ == symbol
                    &&& entries[i].align == align
                    &&& forall|j: int|
                        from <= j < i ==> (#[trigger] entries[j]).kernel@ != kernel
                },
            None => forall|j: int|
                from <= j < entries.len() ==> (#[trigger] entries[j]).kernel@ != kernel,
        },
    decreases entries.len() - from,
{
    if from < entries.len() && entries[from].kernel@ != kernel {
        law_dynamic_entry(entries, kernel, from + 1);
    }
}

/// The dynamic shared memory of a kernel is one external global of unknown size
/// in shared memory. It is added once, and that of one kernel is none of
/// another's.
pub proof fn law_dynamic_added(
    globals: GlobalsView,
    kernel: Seq<char>,
    other: Seq<char>,
    symbol: Seq<char>,
    align: u64,
)
    ensures
        ({
            let after = add_dynamic(globals, kernel, symbol, align);
            &&& !globals.shared.contains_key("__dynamic_smem_global_created_"@ + kernel) ==> adds(
                globals,
                after,
                GlobalView {
                    name: symbol,
                    ty: LlvmType::Array(Box::new(LlvmType::spec_int(8)), 0),
                    align: Some(align),
                    addrspace: 3,
                    external: true,
                },
            )
            &&& add_dynamic(after, kernel, symbol, align) == after
            &&& other != kernel ==> (after.shared.contains_key(dynamic_key(other))
                <==> globals.shared.contains_key(dynamic_key(other)))
        }),
{
    let prefix = "__dynamic_smem_global_created_"@;
    if other != kernel && dynamic_key(other) == dynamic_key(kernel) {
        assert(dynamic_key(other).skip(prefix.len() as int) =~= other);
        assert(dynamic_key(kernel).skip(prefix.len() as int) =~= kernel);
    }
}

/// The address inside dynamic shared memory is the asked number of bytes behind
/// its symbol.
pub proof fn law_dynamic_address(
    ops: Seq<OpView>,
    env: spec_fn(u64) -> Datum,
    symbol: Seq<char>,
    offset: u64,
)
    requires
        offset <= i64::MAX,
        ops.len() + 3 <= usize::MAX,
    ensures
        gives(
            ops,
            env,
            Ok(dynamic_addr_ops(ops.len(), symbol, offset)),
            LlvmType::Pointer(3),
            Datum::Global(symbol, offset as int),
        ),
{
    let emitted = dynamic_addr_ops(ops.len(), symbol, offset);
    lemma_emitted(ops, emitted, env, 0);
    if offset > 0 {
        lemma2_to64();
        lemma_value_of_int(offset as int, 64);
        lemma_small_mod(offset as nat, pow2(64));
        lemma_emitted(ops, emitted, env, 1);
        let index = Value::at(ops.len() + 1, LlvmType::spec_int(64));
        assert(emitted[2].indices[0] == Index::Dynamic(index));
        assert(emitted[2].operands[0] == Value::at(ops.len(), LlvmType::Pointer(3)));
        lemma_byte();
        lemma_accessed(ops, emitted, env, 2);
    }
}

/// A byte takes one byte.
proof fn lemma_byte()
    ensures
        laid_out(LlvmType::spec_int(8)),
        size_of(LlvmType::spec_int(8)) == 1,
{
}

/// An allocation reserves one value of the asked type, and gives the address of
/// its first byte.
pub proof fn law_allocated(
    ops: Seq<OpView>,
    env: spec_fn(u64) -> Datum,
    ty: LlvmType,
    align: Option<u32>,
)
    requires
        ops.len() + 2 <= usize::MAX,
    ensures
        ({
            let emitted = alloca_ops(ops.len(), ty, align);
            let reserved = emitted.last();
            &&& gives(
                ops,
                env,
                Ok(emitted),
                LlvmType::Pointer(0),
                Datum::Slot(ops.len() + 1, 0),
            )
            &&& reserved.code == OpCode::Alloca(ty)
            &&& reserved.align == align
            &&& reserved.operands.len() == 1
            &&& datum(ops + emitted, env, reserved.operands[0]) == Datum::Int(32, 1)
        }),
{
    let emitted = alloca_ops(ops.len(), ty, align);
    lemma2_to64();
    lemma_value_of_int(1, 32);
    lemma_small_mod(1, pow2(32));
    lemma_emitted(ops, emitted, env, 0);
    lemma_accessed(ops, emitted, env, 1);
}

/// Pointer arithmetic moves by a signed number of elements, or of bytes where
/// the element is not known.
pub proof fn law_offset(
    ops: Seq<OpView>,
    env: spec_fn(u64) -> Datum,
    ptr: Value,
    index: Value,
    pointee: Option<LlvmType>,
    width: nat,
    i: int,
    slot: nat,
    at: int,
)
    requires
        pointee matches Some(ty) ==> laid_out(ty),
        available(ptr, ops.len()),
        datum(ops, env, ptr) == Datum::Slot(slot, at),
        holds_int(ops, env, index, width, i),
        ops.len() < usize::MAX,
    ensures
        gives(
            ops,
            env,
            offset_ops(seq![ptr, index], pointee),
            ptr.ty,
            Datum::Slot(
                slot,
                match pointee {
                    Some(ty) => at + signed(i, width) * size_of(ty),
                    None => at + signed(i, width),
                },
            ),
        ),
{
    let emitted = offset_ops(seq![ptr, index], pointee).unwrap();
    lemma_byte();
    lemma_datum_prefix(ops, emitted, env, ptr);
    lemma_datum_prefix(ops, emitted, env, index);
    assert(emitted[0].indices[0] == Index::Dynamic(index));
    lemma_accessed(ops, emitted, env, 0);
}

} // verus!
