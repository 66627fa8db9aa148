//! Laws: what lowered bit intrinsics and saturating arithmetic compute.

use crate::call_intrinsics::{
    bit_ops, resize_ops, resized, resized_call, saturating_ops, types_of,
};
use crate::correctness::{counted, law_resize};
use crate::ints::lemma_value_of_int;
use crate::llvm::{LlvmType, Signedness};
use crate::lower::Operand;
use crate::operation_laws::{gives, latest_integer, lemma_latest};
use crate::ops::{CastKind, OpView, Value};
use crate::rust_intrinsics::{RustBitIntrinsic, RustSaturatingIntrinsic};
use crate::semantics::{
    available, bit_length, called, count_ones, datum, funnel_left, funnel_right, holds_int,
    intrinsic_result, lemma_accessed, lemma_datum_prefix, lemma_emitted, reversed_digits,
    saturated, trailing_zeros, wrap, Datum,
};
use crate::text::decimal;
use vstd::arithmetic::div_mod::{lemma_mod_bound, lemma_mod_mod, lemma_small_mod};
use vstd::arithmetic::power2::{
    is_pow2, is_pow2_equiv, lemma2_to64, lemma_pow2_adds, lemma_pow2_pos, pow2,
};
use vstd::prelude::*;

verus! {

/// A number of `width` bits as a result of `to` bits: a narrower one has the low
/// bits.
pub open spec fn as_result(number: int, width: nat, to: nat) -> Datum {
    Datum::Int(
        to,
        if to < width {
            wrap(number, to)
        } else {
            number
        },
    )
}

/// The type of the result: that of the operand where the result type has its
/// width.
pub open spec fn result_type(own: LlvmType, ty: LlvmType) -> LlvmType {
    if own.spec_int_width() == ty.spec_int_width() {
        own
    } else {
        ty
    }
}

/// The intrinsics have distinct names.
proof fn lemma_stems(width: nat, a: int, y: Datum, z: Datum)
    ensures
        intrinsic_result("llvm_ctpop_i"@, width, a, y, z) == Some(count_ones(a as nat) as int),
        intrinsic_result("llvm_bitreverse_i"@, width, a, y, z) == Some(
            reversed_digits(a as nat, 2, width) as int,
        ),
        width % 8 == 0 ==> intrinsic_result("llvm_bswap_i"@, width, a, y, z) == Some(
            reversed_digits(a as nat, 256, width / 8) as int,
        ),
        y matches Datum::Int(_, b) ==> (z matches Datum::Int(_, amount) ==> width > 0 ==> {
            &&& intrinsic_result("llvm_fshl_i"@, width, a, y, z) == Some(
                funnel_left(a, b, amount, width),
            )
            &&& intrinsic_result("llvm_fshr_i"@, width, a, y, z) == Some(
                funnel_right(a, b, amount, width),
            )
        }),
        y matches Datum::Int(_, b) ==> !(z is Int) ==> {
            &&& !(a == 0 && b == 1) ==> intrinsic_result("llvm_ctlz_i"@, width, a, y, z) == Some(
                width - bit_length(a as nat),
            )
            &&& !(a == 0 && b == 1) ==> intrinsic_result("llvm_cttz_i"@, width, a, y, z) == Some(
                trailing_zeros(a as nat, width) as int,
            )
            &&& intrinsic_result("llvm_sadd_sat_i"@, width, a, y, z) == Some(
                saturated(counted(a, width, true) + counted(b, width, true), width, true),
            )
            &&& intrinsic_result("llvm_ssub_sat_i"@, width, a, y, z) == Some(
                saturated(counted(a, width, true) - counted(b, width, true), width, true),
            )
            &&& intrinsic_result("llvm_uadd_sat_i"@, width, a, y, z) == Some(
                saturated(a + b, width, false),
            )
            &&& intrinsic_result("llvm_usub_sat_i"@, width, a, y, z) == Some(
                saturated(a - b, width, false),
            )
        },
{
    reveal(intrinsic_result);
    reveal_strlit("llvm_ctpop_i");
    reveal_strlit("llvm_bitreverse_i");
    reveal_strlit("llvm_bswap_i");
    reveal_strlit("llvm_fshl_i");
    reveal_strlit("llvm_fshr_i");
    reveal_strlit("llvm_ctlz_i");
    reveal_strlit("llvm_cttz_i");
    reveal_strlit("llvm_sadd_sat_i");
    reveal_strlit("llvm_ssub_sat_i");
    reveal_strlit("llvm_uadd_sat_i");
    reveal_strlit("llvm_usub_sat_i");
    assert("llvm_ctpop_i"@.len() == 12 && "llvm_ctpop_i"@[6] == 't' && "llvm_ctpop_i"@[7] == 'p');
    assert("llvm_bswap_i"@.len() == 12 && "llvm_bswap_i"@[5] == 'b');
    assert("llvm_fshl_i"@.len() == 11 && "llvm_fshl_i"@[8] == 'l' && "llvm_fshl_i"@[5] == 'f');
    assert("llvm_fshr_i"@.len() == 11 && "llvm_fshr_i"@[8] == 'r' && "llvm_fshr_i"@[5] == 'f');
    assert("llvm_ctlz_i"@.len() == 11 && "llvm_ctlz_i"@[7] == 'l' && "llvm_ctlz_i"@[5] == 'c');
    assert("llvm_cttz_i"@.len() == 11 && "llvm_cttz_i"@[7] == 't' && "llvm_cttz_i"@[5] == 'c');
    assert("llvm_sadd_sat_i"@.len() == 15 && "llvm_sadd_sat_i"@[5] == 's'
        && "llvm_sadd_sat_i"@[6] == 'a');
    assert("llvm_ssub_sat_i"@.len() == 15 && "llvm_ssub_sat_i"@[5] == 's'
        && "llvm_ssub_sat_i"@[6] == 's');
    assert("llvm_uadd_sat_i"@.len() == 15 && "llvm_uadd_sat_i"@[5] == 'u'
        && "llvm_uadd_sat_i"@[6] == 'a');
    assert("llvm_usub_sat_i"@.len() == 15 && "llvm_usub_sat_i"@[5] == 'u'
        && "llvm_usub_sat_i"@[6] == 's');
    assert("llvm_bitreverse_i"@.len() == 17);
}

/// What the operand at position `k` of a call holds.
spec fn held(ops: Seq<OpView>, env: spec_fn(u64) -> Datum, args: Seq<Value>, k: int) -> Datum {
    if k < args.len() {
        datum(ops, env, args[k])
    } else {
        Datum::Unknown
    }
}

/// A declared and called intrinsic, with its result brought to a type.
proof fn lemma_resized_call(
    ops: Seq<OpView>,
    env: spec_fn(u64) -> Datum,
    stem: Seq<char>,
    signature: Seq<LlvmType>,
    own: LlvmType,
    args: Seq<Value>,
    ty: LlvmType,
    width: u32,
    to: u32,
    a: int,
    number: int,
)
    requires
        own.spec_int_width() == Some(width),
        ty.spec_int_width() == Some(to),
        args.len() > 0,
        stem.len() > 0,
        forall|i: int| 0 <= i < args.len() ==> available(#[trigger] args[i], ops.len()),
        datum(ops, env, args[0]) == Datum::Int(width as nat, a),
        intrinsic_result(
            stem,
            width as nat,
            a,
            held(ops, env, args, 1),
            held(ops, env, args, 2),
        ) == Some(number),
        ops.len() + 3 <= usize::MAX,
    ensures
        ({
            let made = resized_call(
                ops.len(),
                stem + decimal(width as nat),
                signature,
                own,
                args,
                ty,
            );
            gives(
                ops,
                env,
                made,
                result_type(own, ty),
                as_result(number, width as nat, to as nat),
            )
        }),
{
    let w = width as nat;
    let name = stem + decimal(w);
    let n = ops.len();
    let emitted = resized_call(n, name, signature, own, args, ty).unwrap();
    let all = ops + emitted;
    assert(emitted[1] == OpView::call(name, signature, own, args));
    assert forall|i: int| 0 <= i < args.len() implies available(#[trigger] args[i], n + 1)
        && datum(all, env, args[i]) == datum(ops, env, args[i]) by {
        lemma_datum_prefix(ops, emitted, env, args[i]);
    }
    lemma_accessed(ops, emitted, env, 1);
    assert(name.take(name.len() - decimal(w).len()) =~= stem);
    reveal(called);
    assert(datum(all, env, Value::at(n + 1, own)) == Datum::Int(w, number));
    if width != to {
        let kind = if width < to {
            CastKind::ZExt
        } else {
            CastKind::Trunc
        };
        assert(emitted[2] == OpView::cast(kind, Value::at(n + 1, own), ty));
        lemma_emitted(ops, emitted, env, 2);
    }
}

/// What precedes a call can be counted to the operations before it.
proof fn lemma_prelude(
    ops: Seq<OpView>,
    env: spec_fn(u64) -> Datum,
    prelude: Seq<OpView>,
    call: Seq<OpView>,
    ty: LlvmType,
    result: Datum,
)
    requires
        gives(ops + prelude, env, Ok(call), ty, result),
    ensures
        gives(ops, env, Ok(prelude + call), ty, result),
{
    assert(ops + (prelude + call) =~= (ops + prelude) + call);
    assert((prelude + call).last() == call.last());
}

/// A rotation by an amount moves the bits that leave on one side to the other.
/// The amount counts modulo the width, where that is a power of two.
pub proof fn law_rotation(
    ops: Seq<OpView>,
    env: spec_fn(u64) -> Datum,
    args: Seq<Value>,
    ty: LlvmType,
    width: u32,
    amount_width: u32,
    to: u32,
    a: int,
    amount: int,
)
    requires
        args.len() == 2,
        args[0].ty.spec_int_width() == Some(width),
        args[1].ty.spec_int_width() == Some(amount_width),
        ty.spec_int_width() == Some(to),
        width > 0,
        holds_int(ops, env, args[0], width as nat, a),
        holds_int(ops, env, args[1], amount_width as nat, amount),
        ops.len() + 4 <= usize::MAX,
    ensures
        ({
            let w = width as nat;
            let k = (wrap(amount, w) % (width as int)) as nat;
            let left = wrap(a * pow2(k), w) + a / (pow2((w - k) as nat) as int);
            let right = wrap(a * pow2((w - k) as nat), w) + a / (pow2(k) as int);
            let own = result_type(args[0].ty, ty);
            &&& k < w
            &&& is_pow2(width as int) ==> k == amount % (width as int)
            &&& gives(
                ops,
                env,
                bit_ops(ops.len(), args, 1, ty, RustBitIntrinsic::RotateLeft),
                own,
                as_result(left, w, to as nat),
            )
            &&& gives(
                ops,
                env,
                bit_ops(ops.len(), args, 1, ty, RustBitIntrinsic::RotateRight),
                own,
                as_result(right, w, to as nat),
            )
        }),
{
    let w = width as nat;
    let own = args[0].ty;
    let prelude = resize_ops(args[1], own).unwrap();
    let shift = resized(ops.len(), args[1], own);
    let begun = ops + prelude;
    let call_args = seq![args[0], args[0], shift];
    law_resize(ops, env, args[1], own, amount_width, width, amount);
    lemma_datum_prefix(ops, prelude, env, args[0]);
    lemma_pow2_pos(w);
    lemma_mod_bound(amount, pow2(w) as int);
    lemma_mod_bound(wrap(amount, w), width as int);
    if is_pow2(width as int) {
        is_pow2_equiv(width as int);
        let k = choose|k: nat| vstd::arithmetic::power::pow(2, k) == width;
        assert(pow2(k) == width);
        crate::correctness::lemma_below_pow2(k);
        lemma_pow2_adds(k, (w - k) as nat);
        lemma_pow2_pos((w - k) as nat);
        lemma_mod_mod(amount, width as int, pow2((w - k) as nat) as int);
    }
    let (y, z) = (Datum::Int(w, a), Datum::Int(w, wrap(amount, w)));
    lemma_stems(w, a, y, z);
    reveal_strlit("llvm_fshl_i");
    reveal_strlit("llvm_fshr_i");
    let types = types_of(call_args);
    let left = funnel_left(a, a, wrap(amount, w), w);
    let right = funnel_right(a, a, wrap(amount, w), w);
    lemma_resized_call(begun, env, "llvm_fshl_i"@, types, own, call_args, ty, width, to, a, left);
    lemma_resized_call(begun, env, "llvm_fshr_i"@, types, own, call_args, ty, width, to, a, right);
    let called = |stem: Seq<char>|
        resized_call(begun.len(), stem + decimal(w), types, own, call_args, ty).unwrap();
    let kept = result_type(own, ty);
    lemma_prelude(
        ops,
        env,
        prelude,
        called("llvm_fshl_i"@),
        kept,
        as_result(left, w, to as nat),
    );
    lemma_prelude(
        ops,
        env,
        prelude,
        called("llvm_fshr_i"@),
        kept,
        as_result(right, w, to as nat),
    );
}

/// The intrinsics on one operand count its ones, or reverse its bits, or its
/// bytes.
pub proof fn law_bits(
    ops: Seq<OpView>,
    env: spec_fn(u64) -> Datum,
    args: Seq<Value>,
    ty: LlvmType,
    width: u32,
    to: u32,
    a: int,
)
    requires
        args.len() == 1,
        args[0].ty.spec_int_width() == Some(width),
        ty.spec_int_width() == Some(to),
        width > 0,
        holds_int(ops, env, args[0], width as nat, a),
        ops.len() + 3 <= usize::MAX,
    ensures
        ({
            let w = width as nat;
            let own = result_type(args[0].ty, ty);
            let made = |i: RustBitIntrinsic| bit_ops(ops.len(), args, 1, ty, i);
            &&& gives(
                ops,
                env,
                made(RustBitIntrinsic::Ctpop),
                own,
                as_result(count_ones(a as nat) as int, w, to as nat),
            )
            &&& gives(
                ops,
                env,
                made(RustBitIntrinsic::Bitreverse),
                own,
                as_result(reversed_digits(a as nat, 2, w) as int, w, to as nat),
            )
            &&& width % 8 == 0 && width > 8 ==> gives(
                ops,
                env,
                made(RustBitIntrinsic::Bswap),
                own,
                as_result(reversed_digits(a as nat, 256, w / 8) as int, w, to as nat),
            )
            &&& width == 8 && to == 8 ==> gives(
                ops,
                env,
                made(RustBitIntrinsic::Bswap),
                ty,
                Datum::Int(8, a),
            )
        }),
{
    let w = width as nat;
    let own = args[0].ty;
    let call_args = seq![args[0]];
    let types = types_of(call_args);
    lemma_stems(w, a, Datum::Unknown, Datum::Unknown);
    reveal_strlit("llvm_ctpop_i");
    reveal_strlit("llvm_bitreverse_i");
    reveal_strlit("llvm_bswap_i");
    let ones = count_ones(a as nat) as int;
    let bits = reversed_digits(a as nat, 2, w) as int;
    let bytes = reversed_digits(a as nat, 256, w / 8) as int;
    lemma_resized_call(ops, env, "llvm_ctpop_i"@, types, own, call_args, ty, width, to, a, ones);
    lemma_resized_call(
        ops,
        env,
        "llvm_bitreverse_i"@,
        types,
        own,
        call_args,
        ty,
        width,
        to,
        a,
        bits,
    );
    assert(ops + Seq::<OpView>::empty() =~= ops);
    let called = |stem: Seq<char>|
        resized_call(ops.len(), stem + decimal(w), types, own, call_args, ty).unwrap();
    let kept = result_type(own, ty);
    let none = Seq::<OpView>::empty();
    lemma_prelude(ops, env, none, called("llvm_ctpop_i"@), kept, as_result(ones, w, to as nat));
    lemma_prelude(
        ops,
        env,
        none,
        called("llvm_bitreverse_i"@),
        kept,
        as_result(bits, w, to as nat),
    );
    if width % 8 == 0 {
        lemma_resized_call(
            ops,
            env,
            "llvm_bswap_i"@,
            types,
            own,
            call_args,
            ty,
            width,
            to,
            a,
            bytes,
        );
        lemma_prelude(
            ops,
            env,
            none,
            called("llvm_bswap_i"@),
            kept,
            as_result(bytes, w, to as nat),
        );
    }
    if width == 8 && to == 8 {
        let emitted = seq![OpView::cast(CastKind::Bitcast, args[0], ty)];
        lemma_datum_prefix(ops, emitted, env, args[0]);
        lemma_emitted(ops, emitted, env, 0);
    }
}

/// Leading and trailing zeros are counted within the width. Where zero is ruled
/// out, nothing is said of it; else all its bits count.
pub proof fn law_zeros(
    ops: Seq<OpView>,
    env: spec_fn(u64) -> Datum,
    args: Seq<Value>,
    ty: LlvmType,
    width: u32,
    to: u32,
    a: int,
    zero_undef: bool,
)
    requires
        args.len() == 1,
        args[0].ty.spec_int_width() == Some(width),
        ty.spec_int_width() == Some(to),
        holds_int(ops, env, args[0], width as nat, a),
        !(zero_undef && a == 0),
        ops.len() + 4 <= usize::MAX,
    ensures
        ({
            let w = width as nat;
            let own = result_type(args[0].ty, ty);
            &&& gives(
                ops,
                env,
                bit_ops(ops.len(), args, 1, ty, RustBitIntrinsic::Ctlz { zero_undef }),
                own,
                as_result(w - bit_length(a as nat), w, to as nat),
            )
            &&& gives(
                ops,
                env,
                bit_ops(ops.len(), args, 1, ty, RustBitIntrinsic::Cttz { zero_undef }),
                own,
                as_result(trailing_zeros(a as nat, w) as int, w, to as nat),
            )
        }),
{
    let w = width as nat;
    let own = args[0].ty;
    let flag: int = if zero_undef {
        1
    } else {
        0
    };
    let prelude = seq![OpView::int_of(flag, 1)];
    let begun = ops + prelude;
    let call_args = seq![args[0], Value::at(ops.len(), LlvmType::spec_int(1))];
    let types = types_of(call_args);
    lemma_datum_prefix(ops, prelude, env, args[0]);
    lemma_value_of_int(flag, 1);
    lemma2_to64();
    lemma_small_mod(flag as nat, pow2(1));
    lemma_emitted(ops, prelude, env, 0);
    assert(datum(begun, env, call_args[1]) == Datum::Int(1, flag));
    lemma_stems(w, a, Datum::Int(1, flag), Datum::Unknown);
    reveal_strlit("llvm_ctlz_i");
    reveal_strlit("llvm_cttz_i");
    let leading = w - bit_length(a as nat);
    let trailing = trailing_zeros(a as nat, w) as int;
    lemma_resized_call(
        begun,
        env,
        "llvm_ctlz_i"@,
        types,
        own,
        call_args,
        ty,
        width,
        to,
        a,
        leading,
    );
    lemma_resized_call(
        begun,
        env,
        "llvm_cttz_i"@,
        types,
        own,
        call_args,
        ty,
        width,
        to,
        a,
        trailing,
    );
    let called = |stem: Seq<char>|
        resized_call(begun.len(), stem + decimal(w), types, own, call_args, ty).unwrap();
    let kept = result_type(own, ty);
    lemma_prelude(
        ops,
        env,
        prelude,
        called("llvm_ctlz_i"@),
        kept,
        as_result(leading, w, to as nat),
    );
    lemma_prelude(
        ops,
        env,
        prelude,
        called("llvm_cttz_i"@),
        kept,
        as_result(trailing, w, to as nat),
    );
}

/// Saturating arithmetic gives the number nearest to the sum, or to the
/// difference, that the width can hold under the recorded signedness of the
/// first operand.
pub proof fn law_saturating(
    ops: Seq<OpView>,
    env: spec_fn(u64) -> Datum,
    operands: Seq<Operand>,
    ty: LlvmType,
    width: u32,
    to: u32,
    a: int,
    b: int,
    is_signed: bool,
)
    requires
        operands.len() == 2,
        operands[0].value.ty.spec_int_width() == Some(width),
        operands[1].value.ty.spec_int_width() == Some(width),
        ty.spec_int_width() == Some(to),
        holds_int(ops, env, operands[0].value, width as nat, a),
        holds_int(ops, env, operands[1].value, width as nat, b),
        exists|i: int| #[trigger]
            latest_integer(operands[0].history@, i) && (is_signed
                <==> operands[0].history@[i]->Integer_1 == Signedness::Signed),
        ops.len() + 3 <= usize::MAX,
    ensures
        ({
            let w = width as nat;
            let (x, y) = (counted(a, w, is_signed), counted(b, w, is_signed));
            let own = result_type(operands[0].value.ty, ty);
            &&& gives(
                ops,
                env,
                saturating_ops(ops.len(), operands, 1, ty, RustSaturatingIntrinsic::Add),
                own,
                as_result(saturated(x + y, w, is_signed), w, to as nat),
            )
            &&& gives(
                ops,
                env,
                saturating_ops(ops.len(), operands, 1, ty, RustSaturatingIntrinsic::Sub),
                own,
                as_result(saturated(x - y, w, is_signed), w, to as nat),
            )
        }),
{
    let w = width as nat;
    let i = choose|i: int| #[trigger]
        latest_integer(operands[0].history@, i) && (is_signed
            <==> operands[0].history@[i]->Integer_1 == Signedness::Signed);
    lemma_latest(operands[0].history@, i);
    let own = operands[0].value.ty;
    let args = seq![operands[0].value, operands[1].value];
    let types = seq![own, own];
    lemma_stems(w, a, Datum::Int(w, b), Datum::Unknown);
    reveal_strlit("llvm_sadd_sat_i");
    reveal_strlit("llvm_ssub_sat_i");
    reveal_strlit("llvm_uadd_sat_i");
    reveal_strlit("llvm_usub_sat_i");
    let (x, y) = (counted(a, w, is_signed), counted(b, w, is_signed));
    let sum = saturated(x + y, w, is_signed);
    let difference = saturated(x - y, w, is_signed);
    let (plus, minus) = if is_signed {
        ("llvm_sadd_sat_i"@, "llvm_ssub_sat_i"@)
    } else {
        ("llvm_uadd_sat_i"@, "llvm_usub_sat_i"@)
    };
    lemma_resized_call(ops, env, plus, types, own, args, ty, width, to, a, sum);
    lemma_resized_call(ops, env, minus, types, own, args, ty, width, to, a, difference);
    let none = Seq::<OpView>::empty();
    assert(ops + none =~= ops);
    let called = |stem: Seq<char>|
        resized_call(ops.len(), stem + decimal(w), types, own, args, ty).unwrap();
    let kept = result_type(own, ty);
    lemma_prelude(ops, env, none, called(plus), kept, as_result(sum, w, to as nat));
    lemma_prelude(ops, env, none, called(minus), kept, as_result(difference, w, to as nat));
}

} // verus!
