//! Laws: what lowered operations mean.

use crate::arithmetic::{
    amount_cast, checked_binary, neg_ops, not_ops, shift_ops, three_way_ops, OrderEnum,
};
use crate::call_intrinsics::{carrying_ops, resize_ops, resized};
use crate::cast::{int_to_int, source_signedness};
use crate::dispatch::Comparison;
use crate::ints::lemma_value_of_int;
use crate::llvm::{LlvmType, Signedness};
use crate::lower::{emits, LowerError, Operand};
use crate::ops::{IntBinary, OpCode, OpView, Value};
use crate::semantics::{
    available, bit_and, bit_xor, datum, eval, holds, holds_int, int_result, lemma_datum_prefix,
    lemma_emitted, lemma_step, lemma_undefined, member_count, signed, truth, undefined, wrap,
    Datum,
};
use vstd::arithmetic::div_mod::{
    lemma_add_mod_noop, lemma_fundamental_div_mod, lemma_fundamental_div_mod_converse,
    lemma_mod_add_multiples_vanish, lemma_mod_bound, lemma_mod_mod, lemma_mul_mod_noop,
    lemma_small_mod,
};
use vstd::arithmetic::power2::{
    is_pow2, is_pow2_equiv, lemma_pow2_adds, lemma_pow2_pos, lemma_pow2_strictly_increases,
    lemma_pow2_unfold, pow2,
};
use vstd::prelude::*;

verus! {

/// A conjunction is at most as large as either number.
proof fn lemma_bit_and_bound(a: nat, b: nat)
    ensures
        bit_and(a, b) <= a,
        bit_and(a, b) <= b,
    decreases a,
{
    if a > 0 && b > 0 {
        lemma_bit_and_bound(a / 2, b / 2);
    }
}

/// The remainder by an even number, by halves.
proof fn lemma_double_mod(a: nat, m: nat)
    requires
        m > 0,
    ensures
        a % (2 * m) == 2 * ((a / 2) % m) + a % 2,
{
    let h = a as int / 2;
    let (q, r) = (h / m as int, h % m as int);
    lemma_fundamental_div_mod(h, m as int);
    lemma_mod_bound(h, m as int);
    assert(q * (2 * m) == 2 * (m * q)) by (nonlinear_arith);
    lemma_fundamental_div_mod_converse(a as int, 2 * m as int, q, 2 * r + a as int % 2);
}

/// The conjunction with `2^k - 1` keeps the low `k` bits.
proof fn lemma_bit_and_mask(a: nat, k: nat)
    ensures
        bit_and(a, (pow2(k) - 1) as nat) == a % pow2(k),
    decreases k,
{
    lemma_pow2_pos(k);
    if k == 0 {
        vstd::arithmetic::power2::lemma2_to64();
        assert(a % 1 == 0);
    } else {
        let m = pow2((k - 1) as nat);
        lemma_pow2_pos((k - 1) as nat);
        lemma_pow2_unfold(k);
        assert(pow2(k) == 2 * m);
        let mask = (pow2(k) - 1) as nat;
        assert(mask / 2 == m - 1);
        assert(mask % 2 == 1);
        lemma_bit_and_mask(a / 2, (k - 1) as nat);
        lemma_double_mod(a, m);
        if a == 0 {
            assert(0nat % pow2(k) == 0) by (nonlinear_arith)
                requires
                    pow2(k) > 0,
            ;
        }
    }
}

/// Every number is less than its power of two.
pub(crate) proof fn lemma_below_pow2(n: nat)
    ensures
        n < pow2(n),
    decreases n,
{
    lemma_pow2_pos(n);
    if n > 0 {
        lemma_below_pow2((n - 1) as nat);
        lemma_pow2_unfold(n);
    }
}

/// The shift amount after reduction to the width of the value.
pub open spec fn reduced_amount(amount: int, width: nat) -> int {
    bit_and(wrap(amount, width) as nat, (width - 1) as nat) as int
}

/// A reduced shift amount is below the width; where the width is a power of two,
/// it is the amount modulo the width.
pub proof fn law_reduced_amount(amount: nat, width: nat)
    requires
        width > 0,
    ensures
        0 <= reduced_amount(amount as int, width) < width,
        is_pow2(width as int) ==> reduced_amount(amount as int, width) == amount % width,
{
    lemma_pow2_pos(width);
    lemma_mod_bound(amount as int, pow2(width) as int);
    let x = wrap(amount as int, width) as nat;
    lemma_bit_and_bound(x, (width - 1) as nat);
    if is_pow2(width as int) {
        is_pow2_equiv(width as int);
        let k = choose|k: nat| vstd::arithmetic::power::pow(2, k) == width;
        assert(pow2(k) == width);
        lemma_bit_and_mask(x, k);
        lemma_below_pow2(k);
        lemma_pow2_adds(k, (width - k) as nat);
        lemma_pow2_pos((width - k) as nat);
        lemma_mod_mod(amount as int, width as int, pow2((width - k) as nat) as int);
    }
}

/// A lowered shift shifts by an amount below the width of the value, whatever
/// the amount was: the operation is always defined.
pub proof fn law_shift_defined(
    ops: Seq<OpView>,
    env: spec_fn(u64) -> Datum,
    operands: Seq<Operand>,
    op: IntBinary,
    width: u32,
    amount_width: u32,
    amount: int,
)
    requires
        operands.len() == 2,
        operands[0].value.ty.spec_int_width() == Some(width),
        operands[1].value.ty.spec_int_width() == Some(amount_width),
        width > 0,
        available(operands[0].value, ops.len()),
        holds_int(ops, env, operands[1].value, amount_width as nat, amount),
        ops.len() + 4 <= usize::MAX,
    ensures
        ({
            let all = ops + shift_ops(ops.len(), operands, op).unwrap();
            let shift = all.last();
            &&& shift_ops(ops.len(), operands, op) is Ok
            &&& shift.code == OpCode::Int(op)
            &&& shift.operands[0] == operands[0].value
            &&& datum(all, env, shift.operands[1]) == Datum::Int(
                width as nat,
                reduced_amount(amount, width as nat),
            )
            &&& 0 <= reduced_amount(amount, width as nat) < width
        }),
{
    let (lhs, rhs) = (operands[0].value, operands[1].value);
    let n = ops.len();
    let w = width as nat;
    let emitted = shift_ops(n, operands, op).unwrap();
    let all = ops + emitted;
    lemma_datum_prefix(ops, emitted, env, rhs);
    law_reduced_amount(amount as nat, w);
    lemma_below_pow2((w - 1) as nat);
    lemma_value_of_int(width - 1, width);
    lemma_pow2_pos(w);
    lemma_pow2_strictly_increases((w - 1) as nat, w);
    lemma_small_mod((width - 1) as nat, pow2(w));
    let cast = amount_cast(lhs, rhs).unwrap();
    let m: nat = if cast is Some {
        n + 1
    } else {
        n
    };
    let reduced = if cast is Some {
        Value::at(n, lhs.ty)
    } else {
        rhs
    };
    if cast is Some {
        assert(all[n as int] == emitted[0]);
        assert(emitted[0] == OpView::cast(cast.unwrap(), rhs, lhs.ty));
        lemma_step(all, env, n);
        if width > amount_width {
            lemma_pow2_strictly_increases(amount_width as nat, w);
            lemma_small_mod(amount as nat, pow2(w));
        }
    } else {
        lemma_small_mod(amount as nat, pow2(w));
    }
    assert(datum(all, env, reduced) == Datum::Int(w, wrap(amount, w)));
    assert(all[m as int] == OpView::int_of(width - 1, width));
    lemma_step(all, env, m);
    let mask = Value::at(m, LlvmType::spec_int(width));
    assert(datum(all, env, mask) == Datum::Int(w, width - 1));
    assert(all[(m + 1) as int] == OpView::binary(IntBinary::And, reduced, mask));
    lemma_step(all, env, m + 1);
    assert(all.last() == OpView::binary(op, lhs, Value::at(m + 1, reduced.ty)));
}

/// Comparisons come in complementary pairs, for every signedness, and less or
/// equal is what it says.
pub proof fn law_comparisons(width: nat, a: int, b: int, is_signed: bool)
    requires
        0 <= a < pow2(width),
        0 <= b < pow2(width),
    ensures
        ({
            let says = |c: Comparison|
                holds(
                    if is_signed {
                        c.spec_predicates().signed
                    } else {
                        c.spec_predicates().unsigned
                    },
                    width,
                    a,
                    b,
                );
            &&& says(Comparison::Ne) == !says(Comparison::Eq)
            &&& says(Comparison::Ge) == !says(Comparison::Lt)
            &&& says(Comparison::Le) == !says(Comparison::Gt)
            &&& says(Comparison::Le) == (says(Comparison::Lt) || says(Comparison::Eq))
        }),
{
}

/// An integer brought to another width keeps its value modulo that width.
pub proof fn law_resize(
    ops: Seq<OpView>,
    env: spec_fn(u64) -> Datum,
    value: Value,
    ty: LlvmType,
    width: u32,
    to: u32,
    number: int,
)
    requires
        value.ty.spec_int_width() == Some(width),
        ty.spec_int_width() == Some(to),
        holds_int(ops, env, value, width as nat, number),
        ops.len() + 1 <= usize::MAX,
    ensures
        resize_ops(value, ty) is Ok,
        datum(ops + resize_ops(value, ty).unwrap(), env, resized(ops.len(), value, ty))
            == Datum::Int(to as nat, wrap(number, to as nat)),
{
    let emitted = resize_ops(value, ty).unwrap();
    let all = ops + emitted;
    lemma_datum_prefix(ops, emitted, env, value);
    lemma_pow2_pos(to as nat);
    if width == to {
        lemma_small_mod(number as nat, pow2(to as nat));
    } else {
        assert(all[ops.len() as int] == emitted[0]);
        lemma_step(all, env, ops.len());
        if width < to {
            lemma_pow2_strictly_increases(width as nat, to as nat);
            lemma_small_mod(number as nat, pow2(to as nat));
        }
    }
}

/// A three-way comparison builds the enum value whose tag holds the declared
/// discriminant of less, equal or greater, as the operands compare.
pub proof fn law_three_way(
    ops: Seq<OpView>,
    env: spec_fn(u64) -> Datum,
    lhs: Value,
    rhs: Value,
    is_signed: bool,
    ds: Seq<u64>,
    width: u32,
    result: OrderEnum,
    operand_width: nat,
    a: int,
    b: int,
    members: nat,
)
    requires
        holds_int(ops, env, lhs, operand_width, a),
        holds_int(ops, env, rhs, operand_width, b),
        width > 0,
        ds.len() == 3,
        member_count(result.ty) == Some(members),
        result.tag_slot < members,
        ops.len() + 9 <= usize::MAX,
    ensures
        ({
            let all = ops + three_way_ops(
                ops.len(),
                lhs,
                rhs,
                is_signed,
                ds,
                width,
                result,
            );
            let (x, y) = if is_signed {
                (signed(a, operand_width), signed(b, operand_width))
            } else {
                (a, b)
            };
            let declared = if x < y {
                ds[0]
            } else if x > y {
                ds[2]
            } else {
                ds[1]
            };
            &&& eval(all, env, ops.len() + 8) matches Datum::Aggregate(parts)
            &&& parts[result.tag_slot as int] == Datum::Int(
                width as nat,
                wrap(declared as int, width as nat),
            )
        }),
{
    let n = ops.len();
    let emitted = three_way_ops(n, lhs, rhs, is_signed, ds, width, result);
    lemma_undefined(result.ty);
    let all = ops + emitted;
    lemma_datum_prefix(ops, emitted, env, lhs);
    lemma_datum_prefix(ops, emitted, env, rhs);
    lemma_value_of_int(ds[0] as int, width);
    lemma_value_of_int(ds[1] as int, width);
    lemma_value_of_int(ds[2] as int, width);
    lemma_emitted(ops, emitted, env, 0);
    lemma_emitted(ops, emitted, env, 1);
    lemma_emitted(ops, emitted, env, 2);
    lemma_emitted(ops, emitted, env, 3);
    lemma_emitted(ops, emitted, env, 4);
    lemma_emitted(ops, emitted, env, 5);
    lemma_emitted(ops, emitted, env, 6);
    lemma_emitted(ops, emitted, env, 7);
    lemma_emitted(ops, emitted, env, 8);
}

/// What an operand counts as: itself, or its signed reading.
pub open spec fn counted(value: int, width: nat, is_signed: bool) -> int {
    if is_signed {
        signed(value, width)
    } else {
        value
    }
}

/// Reduction before adding or multiplying makes no difference.
proof fn lemma_wrap_through(a: int, b: int, width: nat)
    ensures
        wrap(wrap(a, width) + wrap(b, width), width) == wrap(a + b, width),
        wrap(wrap(a, width) * wrap(b, width), width) == wrap(a * b, width),
{
    lemma_pow2_pos(width);
    let m = pow2(width) as int;
    lemma_add_mod_noop(a, b, m);
    lemma_mul_mod_noop(a, b, m);
}

/// A number of twice the width splits into two halves.
proof fn lemma_halves(t: int, width: nat)
    requires
        0 <= t < pow2(2 * width),
    ensures
        0 <= t / (pow2(width) as int) < pow2(width),
        wrap(t, width) + pow2(width) * (t / (pow2(width) as int)) == t,
{
    let m = pow2(width) as int;
    lemma_pow2_pos(width);
    lemma_pow2_adds(width, width);
    lemma_fundamental_div_mod(t, m);
    assert(t / m < m) by (nonlinear_arith)
        requires
            0 <= t < m * m,
            m > 0,
    ;
    assert(0 <= t / m) by (nonlinear_arith)
        requires
            0 <= t,
            m > 0,
    ;
}

/// What a multiplication with addend and carry adds up to, at twice the width.
pub open spec fn carried_total(
    a: int,
    b: int,
    c: int,
    d: int,
    w: nat,
    is_signed: bool,
) -> int {
    counted(a, w, is_signed) * counted(b, w, is_signed) + counted(c, w, is_signed) + counted(
        d,
        w,
        is_signed,
    )
}

/// The sum is computed at twice the width.
#[verifier::rlimit(40)]
#[verifier::spinoff_prover]
proof fn lemma_carried_sum(
    ops: Seq<OpView>,
    env: spec_fn(u64) -> Datum,
    args: Seq<Value>,
    is_signed: bool,
    width: u32,
    ty: LlvmType,
    a: int,
    b: int,
    c: int,
    d: int,
)
    requires
        args.len() == 4,
        0 < width <= 64,
        args[0].ty.spec_int_width() == Some(width),
        holds_int(ops, env, args[0], width as nat, a),
        holds_int(ops, env, args[1], width as nat, b),
        holds_int(ops, env, args[2], width as nat, c),
        holds_int(ops, env, args[3], width as nat, d),
        ops.len() + 14 <= usize::MAX,
    ensures
        ({
            let all = ops + carrying_ops(ops.len(), args, is_signed, width, ty);
            let ww = (2 * width) as nat;
            datum(
                all,
                env,
                Value::at(ops.len() + 6, LlvmType::spec_int((2 * width) as u32)),
            ) == Datum::Int(ww, wrap(carried_total(a, b, c, d, width as nat, is_signed), ww))
        }),
{
    let n = ops.len();
    let w = width as nat;
    let wide_width = (2 * width) as u32;
    let ww = wide_width as nat;
    let emitted = carrying_ops(n, args, is_signed, width, ty);
    let all = ops + emitted;
    let wide = LlvmType::spec_int(wide_width);
    let (x, y, z, t) = (
        counted(a, w, is_signed),
        counted(b, w, is_signed),
        counted(c, w, is_signed),
        counted(d, w, is_signed),
    );
    let total = x * y + z + t;
    lemma_pow2_pos(w);
    lemma_pow2_pos(ww);
    lemma_pow2_strictly_increases(w, ww);
    lemma_datum_prefix(ops, emitted, env, args[0]);
    lemma_datum_prefix(ops, emitted, env, args[1]);
    lemma_datum_prefix(ops, emitted, env, args[2]);
    lemma_datum_prefix(ops, emitted, env, args[3]);
    lemma_small_mod(a as nat, pow2(ww));
    lemma_small_mod(b as nat, pow2(ww));
    lemma_small_mod(c as nat, pow2(ww));
    lemma_small_mod(d as nat, pow2(ww));
    assert(datum(all, env, Value::at(n, wide)) == Datum::Int(ww, wrap(x, ww))) by {
        lemma_emitted(ops, emitted, env, 0);
    }
    assert(datum(all, env, Value::at(n + 1, wide)) == Datum::Int(ww, wrap(y, ww))) by {
        lemma_emitted(ops, emitted, env, 1);
    }
    assert(datum(all, env, Value::at(n + 2, wide)) == Datum::Int(ww, wrap(z, ww))) by {
        lemma_emitted(ops, emitted, env, 2);
    }
    assert(datum(all, env, Value::at(n + 3, wide)) == Datum::Int(ww, wrap(t, ww))) by {
        lemma_emitted(ops, emitted, env, 3);
    }
    assert(datum(all, env, Value::at(n + 4, wide)) == Datum::Int(ww, wrap(x * y, ww))) by {
        lemma_emitted(ops, emitted, env, 4);
        lemma_wrap_through(x, y, ww);
    }
    assert(datum(all, env, Value::at(n + 5, wide)) == Datum::Int(ww, wrap(x * y + z, ww))) by {
        lemma_emitted(ops, emitted, env, 5);
        lemma_wrap_through(x * y, z, ww);
    }
    assert(datum(all, env, Value::at(n + 6, wide)) == Datum::Int(ww, wrap(total, ww))) by {
        lemma_emitted(ops, emitted, env, 6);
        lemma_wrap_through(x * y + z, t, ww);
    }
}

/// The halves of the sum stand in the pair.
#[verifier::rlimit(40)]
#[verifier::spinoff_prover]
proof fn lemma_carried_halves(
    ops: Seq<OpView>,
    env: spec_fn(u64) -> Datum,
    args: Seq<Value>,
    is_signed: bool,
    width: u32,
    ty: LlvmType,
    members: nat,
    sum: int,
)
    requires
        args.len() == 4,
        0 < width <= 64,
        args[0].ty.spec_int_width() == Some(width),
        member_count(ty) == Some(members),
        members >= 2,
        0 <= sum < pow2((2 * width) as nat),
        datum(
            ops + carrying_ops(ops.len(), args, is_signed, width, ty),
            env,
            Value::at(ops.len() + 6, LlvmType::spec_int((2 * width) as u32)),
        ) == Datum::Int((2 * width) as nat, sum),
        ops.len() + 14 <= usize::MAX,
    ensures
        ({
            let all = ops + carrying_ops(ops.len(), args, is_signed, width, ty);
            let w = width as nat;
            &&& eval(all, env, ops.len() + 13) matches Datum::Aggregate(parts)
            &&& parts[0] == Datum::Int(w, wrap(sum, w))
            &&& parts[1] == Datum::Int(w, sum / (pow2(w) as int))
            &&& 0 <= sum / (pow2(w) as int) < pow2(w)
        }),
{
    let n = ops.len();
    let w = width as nat;
    let wide_width = (2 * width) as u32;
    let ww = wide_width as nat;
    let emitted = carrying_ops(n, args, is_signed, width, ty);
    let all = ops + emitted;
    let wide = LlvmType::spec_int(wide_width);
    lemma_pow2_pos(w);
    lemma_pow2_pos(ww);
    lemma_pow2_strictly_increases(w, ww);
    lemma_halves(sum, w);
    lemma_mod_bound(sum, pow2(w) as int);
    let elem = args[0].ty;
    let high = sum / (pow2(w) as int);
    assert(datum(all, env, Value::at(n + 7, elem)) == Datum::Int(w, wrap(sum, w))) by {
        lemma_emitted(ops, emitted, env, 7);
    }
    assert(datum(all, env, Value::at(n + 8, wide)) == Datum::Int(ww, width as int)) by {
        lemma_value_of_int(width as int, wide_width);
        lemma_below_pow2(w);
        lemma_small_mod(w, pow2(ww));
        lemma_emitted(ops, emitted, env, 8);
    }
    assert(datum(all, env, Value::at(n + 9, wide)) == Datum::Int(ww, high)) by {
        lemma_emitted(ops, emitted, env, 9);
    }
    assert(datum(all, env, Value::at(n + 10, elem)) == Datum::Int(w, high)) by {
        lemma_small_mod(high as nat, pow2(w));
        lemma_emitted(ops, emitted, env, 10);
    }
    let blank = undefined(ty)->Aggregate_0;
    assert(datum(all, env, Value::at(n + 11, ty)) == Datum::Aggregate(blank) && blank.len()
        == members) by {
        lemma_undefined(ty);
        lemma_emitted(ops, emitted, env, 11);
    }
    let with_low = blank.update(0, Datum::Int(w, wrap(sum, w)));
    assert(datum(all, env, Value::at(n + 12, ty)) == Datum::Aggregate(with_low)) by {
        lemma_emitted(ops, emitted, env, 12);
    }
    assert(eval(all, env, n + 13) == Datum::Aggregate(with_low.update(1, Datum::Int(w, high))))
        by {
        lemma_emitted(ops, emitted, env, 13);
    }
}

/// Multiplication with addend and carry loses nothing: low and high half together
/// are `a * b + c + d`, exactly for unsigned operands and modulo twice the width
/// for signed ones.
pub proof fn law_carrying_mul_add(
    ops: Seq<OpView>,
    env: spec_fn(u64) -> Datum,
    args: Seq<Value>,
    is_signed: bool,
    width: u32,
    ty: LlvmType,
    a: int,
    b: int,
    c: int,
    d: int,
    members: nat,
)
    requires
        args.len() == 4,
        0 < width <= 64,
        args[0].ty.spec_int_width() == Some(width),
        holds_int(ops, env, args[0], width as nat, a),
        holds_int(ops, env, args[1], width as nat, b),
        holds_int(ops, env, args[2], width as nat, c),
        holds_int(ops, env, args[3], width as nat, d),
        member_count(ty) == Some(members),
        members >= 2,
        ops.len() + 14 <= usize::MAX,
    ensures
        ({
            let all = ops + carrying_ops(ops.len(), args, is_signed, width, ty);
            let w = width as nat;
            let total = counted(a, w, is_signed) * counted(b, w, is_signed) + counted(
                c,
                w,
                is_signed,
            ) + counted(d, w, is_signed);
            &&& eval(all, env, ops.len() + 13) matches Datum::Aggregate(parts)
            &&& parts[0] matches Datum::Int(low_width, low)
            &&& parts[1] matches Datum::Int(high_width, high)
            &&& low_width == w && high_width == w
            &&& 0 <= low < pow2(w) && 0 <= high < pow2(w)
            &&& low + pow2(w) * high == wrap(total, 2 * w)
            &&& !is_signed ==> low + pow2(w) * high == a * b + c + d
        }),
{
    let w = width as nat;
    let ww = (2 * width) as nat;
    let total = carried_total(a, b, c, d, w, is_signed);
    let sum = wrap(total, ww);
    lemma_pow2_pos(w);
    lemma_pow2_pos(ww);
    lemma_mod_bound(total, pow2(ww) as int);
    lemma_carried_sum(ops, env, args, is_signed, width, ty, a, b, c, d);
    lemma_carried_halves(ops, env, args, is_signed, width, ty, members, sum);
    lemma_halves(sum, w);
    lemma_mod_bound(sum, pow2(w) as int);
    if !is_signed {
        let m = pow2(w) as int;
        lemma_pow2_adds(w, w);
        assert(a * b + c + d < m * m) by (nonlinear_arith)
            requires
                0 <= a < m,
                0 <= b < m,
                0 <= c < m,
                0 <= d < m,
        ;
        assert(0 <= a * b) by (nonlinear_arith)
            requires
                0 <= a,
                0 <= b,
        ;
        lemma_small_mod(total as nat, pow2(ww));
    }
}

/// An integer cast extends by the sign of the source where it widens, and keeps
/// the low bits where it narrows.
pub proof fn law_int_cast(
    ops: Seq<OpView>,
    env: spec_fn(u64) -> Datum,
    operand: Operand,
    ty: LlvmType,
    from: u32,
    to: u32,
    number: int,
)
    requires
        operand.value.ty.spec_int_width() == Some(from),
        ty.spec_int_width() == Some(to),
        holds_int(ops, env, operand.value, from as nat, number),
        int_to_int(operand, ty) is Ok,
        ops.len() + 1 <= usize::MAX,
    ensures
        eval(ops.push(int_to_int(operand, ty).unwrap()), env, ops.len()) == Datum::Int(
            to as nat,
            wrap(
                counted(
                    number,
                    from as nat,
                    to > from && source_signedness(operand) == Some(Signedness::Signed),
                ),
                to as nat,
            ),
        ),
{
    let emitted = seq![int_to_int(operand, ty).unwrap()];
    assert(ops.push(emitted[0]) =~= ops + emitted);
    lemma_datum_prefix(ops, emitted, env, operand.value);
    lemma_emitted(ops, emitted, env, 0);
    lemma_pow2_pos(to as nat);
    if to > from {
        lemma_pow2_strictly_increases(from as nat, to as nat);
    }
    if to >= from {
        lemma_small_mod(number as nat, pow2(to as nat));
    }
}

/// Negation of an integer is its complement to a power of two.
pub proof fn law_neg(
    ops: Seq<OpView>,
    env: spec_fn(u64) -> Datum,
    operand: Value,
    width: u32,
    number: int,
)
    requires
        operand.ty.spec_int_width() == Some(width),
        width > 0,
        holds_int(ops, env, operand, width as nat, number),
        ops.len() + 2 <= usize::MAX,
    ensures
        neg_ops(ops.len(), operand) is Ok,
        eval(ops + neg_ops(ops.len(), operand).unwrap(), env, ops.len() + 1) == Datum::Int(
            width as nat,
            wrap(-number, width as nat),
        ),
{
    let emitted = neg_ops(ops.len(), operand).unwrap();
    lemma_datum_prefix(ops, emitted, env, operand);
    lemma_value_of_int(0, width);
    lemma_pow2_pos(width as nat);
    lemma_small_mod(0, pow2(width as nat));
    lemma_emitted(ops, emitted, env, 0);
    lemma_emitted(ops, emitted, env, 1);
}

/// A checked operation pairs the wrapped result with a flag that says no
/// overflow.
pub proof fn law_checked(
    ops: Seq<OpView>,
    env: spec_fn(u64) -> Datum,
    operands: Seq<Operand>,
    op: IntBinary,
    ty: LlvmType,
    width: nat,
    a: int,
    b: int,
    members: nat,
)
    requires
        operands.len() == 2,
        holds_int(ops, env, operands[0].value, width, a),
        holds_int(ops, env, operands[1].value, width, b),
        member_count(ty) == Some(members),
        members >= 2,
        ops.len() + 5 <= usize::MAX,
    ensures
        ({
            let emitted = checked_binary(ops.len(), operands, op, ty);
            &&& emitted is Ok
            &&& eval(ops + emitted.unwrap(), env, ops.len() + 4) matches Datum::Aggregate(parts)
            &&& parts[0] == int_result(op, width, a, b)
            &&& parts[1] == truth(false)
        }),
{
    let emitted = checked_binary(ops.len(), operands, op, ty).unwrap();
    lemma_undefined(ty);
    lemma_datum_prefix(ops, emitted, env, operands[0].value);
    lemma_datum_prefix(ops, emitted, env, operands[1].value);
    lemma_value_of_int(0, 1);
    lemma_pow2_pos(1);
    lemma_small_mod(0, pow2(1));
    lemma_emitted(ops, emitted, env, 0);
    lemma_emitted(ops, emitted, env, 1);
    lemma_emitted(ops, emitted, env, 2);
    lemma_emitted(ops, emitted, env, 3);
    lemma_emitted(ops, emitted, env, 4);
}

/// Whether a checked operation gives the pair of a number, reduced to the width
/// of its operands, and a flag that says no overflow, whatever integers the
/// operands hold.
pub open spec fn gives_pair(
    before: Seq<OpView>,
    after: Seq<OpView>,
    operands: Seq<Operand>,
    ty: LlvmType,
    r: Result<Value, LowerError>,
    number: spec_fn(int, int) -> int,
) -> bool {
    operands.len() == 2 && (member_count(ty) matches Some(members) && members >= 2) && before.len()
        + 5 <= usize::MAX ==> forall|
        env: spec_fn(u64) -> Datum,
        width: nat,
        a: int,
        b: int,
    | #[trigger]
        holds_int(before, env, operands[0].value, width, a) && #[trigger] holds_int(
            before,
            env,
            operands[1].value,
            width,
            b,
        ) ==> {
            &&& r matches Ok(pair)
            &&& pair.ty == ty
            &&& datum(after, env, pair) matches Datum::Aggregate(parts)
            &&& parts[0] == Datum::Int(width, wrap(number(a, b), width))
            &&& parts[1] == truth(false)
        }
}

/// A checked addition, subtraction or multiplication gives the pair of its
/// number.
pub(crate) proof fn lemma_gives_pair(
    ops: Seq<OpView>,
    operands: Seq<Operand>,
    op: IntBinary,
    ty: LlvmType,
    r: Result<Value, LowerError>,
    number: spec_fn(int, int) -> int,
)
    requires
        r is Ok ==> checked_binary(ops.len(), operands, op, ty) is Ok,
        emits(
            ops,
            match checked_binary(ops.len(), operands, op, ty) {
                Ok(emitted) => ops + emitted,
                Err(_) => ops,
            },
            r,
            checked_binary(ops.len(), operands, op, ty),
        ),
        forall|width: nat, a: int, b: int| #[trigger]
            int_result(op, width, a, b) == Datum::Int(width, wrap(number(a, b), width)),
    ensures
        gives_pair(
            ops,
            match checked_binary(ops.len(), operands, op, ty) {
                Ok(emitted) => ops + emitted,
                Err(_) => ops,
            },
            operands,
            ty,
            r,
            number,
        ),
{
    if operands.len() == 2 && (member_count(ty) matches Some(members) && members >= 2) && ops.len()
        + 5 <= usize::MAX {
        let members = member_count(ty).unwrap();
        let all = ops + checked_binary(ops.len(), operands, op, ty).unwrap();
        assert forall|env: spec_fn(u64) -> Datum, width: nat, a: int, b: int| #[trigger]
            holds_int(ops, env, operands[0].value, width, a) && #[trigger] holds_int(
                ops,
                env,
                operands[1].value,
                width,
                b,
            ) implies {
            &&& r matches Ok(pair)
            &&& pair.ty == ty
            &&& datum(all, env, pair) matches Datum::Aggregate(parts)
            &&& parts[0] == Datum::Int(width, wrap(number(a, b), width))
            &&& parts[1] == truth(false)
        } by {
            law_checked(ops, env, operands, op, ty, width, a, b, members);
        }
    }
}

/// Exclusive disjunction with all ones flips every bit.
proof fn lemma_xor_ones(a: nat, width: nat)
    requires
        a < pow2(width),
    ensures
        bit_xor(a, (pow2(width) - 1) as nat) == pow2(width) - 1 - a,
    decreases width,
{
    lemma_pow2_pos(width);
    if width == 0 {
        vstd::arithmetic::power2::lemma2_to64();
    } else {
        let low = (width - 1) as nat;
        lemma_pow2_unfold(width);
        lemma_pow2_pos(low);
        let ones = (pow2(width) - 1) as nat;
        assert(ones / 2 == pow2(low) - 1);
        assert(ones % 2 == 1);
        lemma_xor_ones(a / 2, low);
    }
}

/// A bitwise complement has the bits that the operand lacks: both add up to all
/// ones.
pub proof fn law_not(
    ops: Seq<OpView>,
    env: spec_fn(u64) -> Datum,
    value: Value,
    width: u32,
    a: int,
)
    requires
        width > 0,
        value.ty.spec_int_width() == Some(width),
        holds_int(ops, env, value, width as nat, a),
        ops.len() + 2 <= usize::MAX,
    ensures
        ({
            let emitted = not_ops(ops.len(), value);
            &&& emitted is Ok
            &&& eval(ops + emitted.unwrap(), env, ops.len() + 1) == Datum::Int(
                width as nat,
                pow2(width as nat) - 1 - a,
            )
        }),
{
    let emitted = not_ops(ops.len(), value).unwrap();
    lemma_value_of_int(-1, width);
    lemma_pow2_pos(width as nat);
    lemma_mod_add_multiples_vanish(-1, pow2(width as nat) as int);
    lemma_small_mod((pow2(width as nat) - 1) as nat, pow2(width as nat));
    lemma_xor_ones(a as nat, width as nat);
    lemma_datum_prefix(ops, emitted, env, value);
    lemma_emitted(ops, emitted, env, 0);
    lemma_emitted(ops, emitted, env, 1);
}

} // verus!
