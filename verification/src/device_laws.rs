//! Laws: which values reach device intrinsics and assembly, and in which order.

use crate::intrinsics::common::space_cast;
use crate::intrinsics::convert::cvt_f16x2_ops;
use crate::intrinsics::dotprod::ternary_asm;
use crate::intrinsics::warp::{
    bar_warp_sync_ops, match_all_ops, pair_ops, redux_ops, shuffle_ops, vote_type,
};
use crate::ints::lemma_value_of_int;
use crate::llvm::LlvmType;
use crate::lower::Emitted;
use crate::ops::{AsmKind, CastKind, OpCode, OpView, Value};
use crate::semantics::{available, datum, lemma_datum_prefix, lemma_emitted, wrap, Datum};
use crate::text;
use vstd::prelude::*;

verus! {

/// Whether the operation at position `k` calls `name` with the given arguments,
/// behind its declaration, and returns `ty`.
pub open spec fn calls_at(
    emitted: Emitted,
    k: int,
    name: Seq<char>,
    args: Seq<Value>,
    ty: LlvmType,
) -> bool {
    &&& emitted is Ok
    &&& 0 < k < emitted.unwrap().len()
    &&& emitted.unwrap()[k].code == OpCode::Call
    &&& emitted.unwrap()[k].symbol == name
    &&& emitted.unwrap()[k].operands == args
    &&& emitted.unwrap()[k].ty == ty
    &&& emitted.unwrap()[k].signature.len() == args.len()
    &&& emitted.unwrap()[k - 1] == OpView::declare(name, emitted.unwrap()[k].signature, ty)
}

/// A shuffle hands over mask, value and lane in this order, and the clamp last.
pub proof fn law_shuffle(
    ops: Seq<OpView>,
    env: spec_fn(u64) -> Datum,
    operands: Seq<Value>,
    name: Seq<char>,
    clamp: i32,
    ty: LlvmType,
)
    requires
        operands.len() == 3,
        ops.len() + 3 <= usize::MAX,
    ensures
        ({
            let made = shuffle_ops(ops.len(), operands, name, clamp, ty);
            let last = Value::at(ops.len(), LlvmType::spec_int(32));
            let (mask, value, lane) = (operands[0], operands[1], operands[2]);
            &&& calls_at(made, 2, name, seq![mask, value, lane, last], ty)
            &&& made.unwrap().len() == 3
            &&& made.unwrap()[2].signature == seq![
                LlvmType::spec_int(32),
                ty,
                LlvmType::spec_int(32),
                LlvmType::spec_int(32),
            ]
            &&& datum(ops + made.unwrap(), env, last) == Datum::Int(32, wrap(clamp as int, 32))
        }),
{
    let emitted = shuffle_ops(ops.len(), operands, name, clamp, ty).unwrap();
    let last = Value::at(ops.len(), LlvmType::spec_int(32));
    assert(operands.push(last) =~= seq![operands[0], operands[1], operands[2], last]);
    lemma_value_of_int(clamp as int, 32);
    lemma_emitted(ops, emitted, env, 0);
}

/// A vote hands over mask and predicate in this order. A ballot gives a mask of
/// lanes, every other vote a truth value.
pub proof fn law_vote(operands: Seq<Value>, name: Seq<char>)
    requires
        operands.len() == 2,
    ensures
        ({
            let made = pair_ops(operands, name, LlvmType::spec_int(1), vote_type(name));
            let is_ballot = exists|i: int|
                0 <= i && i + 6 <= name.len() && #[trigger] name.subrange(i, i + 6) == "ballot"@;
            &&& calls_at(
                made,
                1,
                name,
                seq![operands[0], operands[1]],
                if is_ballot {
                    LlvmType::spec_int(32)
                } else {
                    LlvmType::spec_int(1)
                },
            )
            &&& made.unwrap().len() == 2
            &&& made.unwrap()[1].signature == seq![LlvmType::spec_int(32), LlvmType::spec_int(1)]
        }),
{
    reveal_strlit("ballot");
    assert(operands =~= seq![operands[0], operands[1]]);
    if text::spec_contains(name, "ballot"@) {
        let i = choose|i: int|
            0 <= i && i + "ballot"@.len() <= name.len() && #[trigger] name.subrange(
                i,
                i + "ballot"@.len(),
            ) == "ballot"@;
        assert(name.subrange(i, i + 6) == "ballot"@);
    } else {
        assert forall|i: int| 0 <= i && i + 6 <= name.len() implies #[trigger] name.subrange(
            i,
            i + 6,
        ) != "ballot"@ by {
            assert(name.subrange(i, i + "ballot"@.len()) == name.subrange(i, i + 6));
        }
    }
}

/// A match hands over mask and value in this order. Of the pair that a match of
/// all lanes returns, the mask is kept.
pub proof fn law_match(n: nat, operands: Seq<Value>, name: Seq<char>, value_ty: LlvmType)
    requires
        operands.len() == 2,
        n + 3 <= usize::MAX,
    ensures
        ({
            let mask_ty = LlvmType::spec_int(32);
            let any = pair_ops(operands, name, value_ty, mask_ty);
            let all = match_all_ops(n, operands, name, value_ty);
            let pair_ty = LlvmType::spec_pair(mask_ty, LlvmType::spec_int(1));
            &&& calls_at(any, 1, name, seq![operands[0], operands[1]], mask_ty)
            &&& any.unwrap().len() == 2
            &&& any.unwrap()[1].signature == seq![mask_ty, value_ty]
            &&& calls_at(all, 1, name, seq![operands[0], operands[1]], pair_ty)
            &&& all.unwrap()[1].signature == seq![mask_ty, value_ty]
            &&& all.unwrap().len() == 3
            &&& all.unwrap()[2] == OpView::extract(Value::at(n + 1, pair_ty), 0, mask_ty)
        }),
{
    assert(operands =~= seq![operands[0], operands[1]]);
}

/// A reduction takes mask and value, and hands over the value first.
pub proof fn law_redux(operands: Seq<Value>, name: Seq<char>)
    requires
        operands.len() == 2,
    ensures
        ({
            let made = redux_ops(operands, name);
            let (mask, value) = (operands[0], operands[1]);
            &&& calls_at(made, 1, name, seq![value, mask], LlvmType::spec_int(32))
            &&& made.unwrap().len() == 2
        }),
{
}

/// A warp barrier hands over its mask and returns nothing.
pub proof fn law_warp_barrier(operands: Seq<Value>)
    requires
        operands.len() == 1,
    ensures
        calls_at(
            bar_warp_sync_ops(operands),
            1,
            "llvm_nvvm_bar_warp_sync"@,
            seq![operands[0]],
            LlvmType::Void,
        ),
        bar_warp_sync_ops(operands).unwrap().len() == 2,
{
    assert(operands =~= seq![operands[0]]);
}

/// Whether a single piece of pure assembly is emitted, with the given inputs and
/// a 32-bit result.
pub open spec fn assembles(
    emitted: Emitted,
    template: Seq<char>,
    constraints: Seq<char>,
    inputs: Seq<Value>,
) -> bool {
    &&& emitted is Ok
    &&& emitted.unwrap().len() == 1
    &&& emitted.unwrap()[0].code == OpCode::InlineAsm(AsmKind::Pure)
    &&& emitted.unwrap()[0].symbol == template
    &&& emitted.unwrap()[0].constraints == constraints
    &&& emitted.unwrap()[0].operands == inputs
    &&& emitted.unwrap()[0].ty == LlvmType::spec_int(32)
}

/// Dot products and packed multiplication take both factors and the addend, in
/// this order.
pub proof fn law_ternary(operands: Seq<Value>, template: Seq<char>)
    requires
        operands.len() >= 3,
    ensures
        assembles(
            ternary_asm(operands, template),
            template,
            "=r,r,r,r"@,
            seq![operands[0], operands[1], operands[2]],
        ),
{
    assert(operands.take(3) =~= seq![operands[0], operands[1], operands[2]]);
}

/// Of two packed floats the first operand becomes the low half: the conversion
/// names the high half first, which is its second input.
pub proof fn law_packed_halves(operands: Seq<Value>)
    requires
        operands.len() >= 2,
    ensures
        assembles(
            cvt_f16x2_ops(operands),
            "cvt.rn.f16x2.f32 $0, $2, $1;"@,
            "=r,f,f"@,
            seq![operands[0], operands[1]],
        ),
{
    assert(operands.take(2) =~= seq![operands[0], operands[1]]);
}

/// A pointer that is brought into an address space is there, and is the same
/// pointer: itself where it was there already, else converted.
pub proof fn law_space_cast(ops: Seq<OpView>, env: spec_fn(u64) -> Datum, ptr: Value, space: u32)
    requires
        ptr.ty is Pointer,
        available(ptr, ops.len()),
        ops.len() < usize::MAX,
    ensures
        ({
            let (emitted, moved) = space_cast(ops.len(), ptr, space);
            let held = datum(ops, env, ptr);
            &&& moved.ty == LlvmType::Pointer(space)
            &&& datum(ops + emitted, env, moved) == if ptr.ty == LlvmType::Pointer(space) {
                held
            } else {
                Datum::Converted(
                    CastKind::AddrSpaceCast,
                    Box::new(held),
                    LlvmType::Pointer(space),
                )
            }
            &&& ptr.ty == LlvmType::Pointer(space) ==> emitted.len() == 0
        }),
{
    let (emitted, moved) = space_cast(ops.len(), ptr, space);
    lemma_datum_prefix(ops, emitted, env, ptr);
    if emitted.len() > 0 {
        lemma_emitted(ops, emitted, env, 0);
    }
}

} // verus!
