//! Laws: what arithmetic, comparisons and selections compute.

use crate::arithmetic::{
    amount_cast, is_float, neg_ops, shift_ops, signed_operand, three_way, OrderEnum,
};
use crate::call_intrinsics::{
    carrying_mul_add, exact_div_ops, float_math_ops, resize_ops, resized, select_ops, values_of,
};
use crate::correctness::{
    counted, law_carrying_mul_add, law_reduced_amount, law_resize, law_shift_defined,
    law_three_way, reduced_amount,
};
use crate::dispatch::{binary_ops, Comparison, MirBinary};
use crate::llvm::{LlvmType, Signedness};
use crate::lower::{recorded_pointer, recorded_signedness, Emitted, LowerError, Operand};
use crate::mir::MirType;
use crate::ops::{FastMath, FloatBinary, IntBinary, IntPredicate, OpView, Value};
use crate::rust_intrinsics::{fast_flags, LoweringOptions, RustFloatMathIntrinsic};
use crate::semantics::{
    available, bit_and, bit_or, bit_xor, datum, holds_int, int_result, is_access, is_placed,
    lemma_datum_prefix, lemma_emitted, magnitude, member_count, op_result, place, signed,
    truncated, truth, wrap, Datum,
};
use vstd::arithmetic::div_mod::{lemma_fundamental_div_mod, lemma_mod_bound, lemma_small_mod};
use vstd::arithmetic::power2::{is_pow2, lemma_pow2_pos, pow2};
use vstd::prelude::*;

verus! {

/// Whether operations are emitted after `ops`, and the last of them computes
/// `result`, of type `ty`.
pub open spec fn gives(
    ops: Seq<OpView>,
    env: spec_fn(u64) -> Datum,
    emitted: Emitted,
    ty: LlvmType,
    result: Datum,
) -> bool {
    &&& emitted is Ok
    &&& emitted.unwrap().len() > 0
    &&& emitted.unwrap().last().ty == ty
    &&& datum(
        ops + emitted.unwrap(),
        env,
        Value::at((ops.len() + emitted.unwrap().len() - 1) as nat, ty),
    ) == result
}

/// Whether the latest integer type of a history is at position `i`.
pub open spec fn latest_integer(history: Seq<MirType>, i: int) -> bool {
    &&& 0 <= i < history.len()
    &&& history[i] is Integer
    &&& forall|j: int| i < j < history.len() ==> !((#[trigger] history[j]) is Integer)
}

/// Whether an operand with this history counts as signed, or as unsigned. The
/// latest integer type decides; where there is none, a pointer is unsigned.
pub open spec fn recorded_as(history: Seq<MirType>, is_signed: bool) -> bool {
    ||| exists|i: int| #[trigger]
        latest_integer(history, i) && (is_signed <==> history[i]->Integer_1 == Signedness::Signed)
    ||| {
        &&& !is_signed
        &&& forall|j: int| 0 <= j < history.len() ==> !((#[trigger] history[j]) is Integer)
        &&& exists|j: int| 0 <= j < history.len() && (#[trigger] history[j]) is Pointer
    }
}

pub(crate) proof fn lemma_latest(history: Seq<MirType>, i: int)
    requires
        latest_integer(history, i),
    ensures
        recorded_signedness(history) == Some(history[i]->Integer_1),
    decreases history.len(),
{
    if i < history.len() - 1 {
        assert(!(history.last() is Integer));
        assert forall|j: int| i < j < history.drop_last().len() implies !((
        #[trigger] history.drop_last()[j]) is Integer) by {
            assert(history.drop_last()[j] == history[j]);
        }
        lemma_latest(history.drop_last(), i);
    }
}

proof fn lemma_no_integer(history: Seq<MirType>)
    requires
        forall|j: int| 0 <= j < history.len() ==> !((#[trigger] history[j]) is Integer),
    ensures
        recorded_signedness(history) is None,
    decreases history.len(),
{
    if history.len() > 0 {
        assert(!(history.last() is Integer));
        assert forall|j: int| 0 <= j < history.drop_last().len() implies !((
        #[trigger] history.drop_last()[j]) is Integer) by {
            assert(history.drop_last()[j] == history[j]);
        }
        lemma_no_integer(history.drop_last());
    }
}

proof fn lemma_recorded(operand: Operand, is_signed: bool)
    requires
        recorded_as(operand.history@, is_signed),
    ensures
        signed_operand(operand) == Ok::<bool, LowerError>(is_signed),
{
    let history = operand.history@;
    if exists|i: int| #[trigger] latest_integer(history, i) {
        let i = choose|i: int| #[trigger]
            latest_integer(history, i) && (is_signed <==> history[i]->Integer_1
                == Signedness::Signed);
        let k = choose|i: int| #[trigger] latest_integer(history, i);
        assert(i == k || !latest_integer(history, i)) by {
            if latest_integer(history, i) && i < k {
                assert(!(history[k] is Integer));
            }
            if latest_integer(history, i) && k < i {
                assert(!(history[i] is Integer));
            }
        }
        if !latest_integer(history, i) {
            assert(!(history[k] is Integer));
        }
        lemma_latest(history, i);
    } else {
        lemma_no_integer(history);
        assert(recorded_pointer(history));
    }
}

/// Two values that hold integers of the same width, of which the first is not a
/// float, and room for the operations.
pub open spec fn integers(
    ops: Seq<OpView>,
    env: spec_fn(u64) -> Datum,
    operands: Seq<Operand>,
    width: nat,
    a: int,
    b: int,
) -> bool {
    &&& operands.len() == 2
    &&& !is_float(operands[0].value.ty)
    &&& holds_int(ops, env, operands[0].value, width, a)
    &&& holds_int(ops, env, operands[1].value, width, b)
    &&& ops.len() < usize::MAX
}

/// A single operation on two values computes from what they hold.
proof fn lemma_single(
    ops: Seq<OpView>,
    env: spec_fn(u64) -> Datum,
    op: OpView,
    x: Value,
    y: Value,
)
    requires
        op.operands == seq![x, y],
        available(x, ops.len()),
        available(y, ops.len()),
        ops.len() < usize::MAX,
        !is_access(op.code),
    ensures
        gives(
            ops,
            env,
            Ok(seq![op]),
            op.ty,
            op_result(
                op,
                datum(ops, env, x),
                datum(ops, env, y),
                Datum::Unknown,
            ),
        ),
{
    let emitted = seq![op];
    lemma_datum_prefix(ops, emitted, env, x);
    lemma_datum_prefix(ops, emitted, env, y);
    lemma_emitted(ops, emitted, env, 0);
    assert(emitted[0].operands[0] == x && emitted[0].operands[1] == y);
}

/// Addition, subtraction and multiplication of integers are those of numbers,
/// reduced to the width.
pub proof fn law_wrapping(
    ops: Seq<OpView>,
    env: spec_fn(u64) -> Datum,
    operands: Seq<Operand>,
    width: nat,
    a: int,
    b: int,
)
    requires
        integers(ops, env, operands, width, a, b),
    ensures
        ({
            let ty = operands[0].value.ty;
            let made = |op: MirBinary| binary_ops(ops.len(), op, operands);
            &&& gives(ops, env, made(MirBinary::Add), ty, Datum::Int(width, wrap(a + b, width)))
            &&& gives(ops, env, made(MirBinary::Sub), ty, Datum::Int(width, wrap(a - b, width)))
            &&& gives(ops, env, made(MirBinary::Mul), ty, Datum::Int(width, wrap(a * b, width)))
        }),
{
    let (x, y) = (operands[0].value, operands[1].value);
    lemma_single(ops, env, OpView::binary(IntBinary::Add, x, y), x, y);
    lemma_single(ops, env, OpView::binary(IntBinary::Sub, x, y), x, y);
    lemma_single(ops, env, OpView::binary(IntBinary::Mul, x, y), x, y);
}

/// Bitwise operations combine the operands bit by bit.
pub proof fn law_bitwise(
    ops: Seq<OpView>,
    env: spec_fn(u64) -> Datum,
    operands: Seq<Operand>,
    width: nat,
    a: int,
    b: int,
)
    requires
        integers(ops, env, operands, width, a, b),
    ensures
        ({
            let ty = operands[0].value.ty;
            let made = |op: MirBinary| binary_ops(ops.len(), op, operands);
            let (x, y) = (a as nat, b as nat);
            &&& gives(
                ops,
                env,
                made(MirBinary::BitAnd),
                ty,
                Datum::Int(width, bit_and(x, y) as int),
            )
            &&& gives(ops, env, made(MirBinary::BitOr), ty, Datum::Int(width, bit_or(x, y) as int))
            &&& gives(
                ops,
                env,
                made(MirBinary::BitXor),
                ty,
                Datum::Int(width, bit_xor(x, y) as int),
            )
        }),
{
    let (x, y) = (operands[0].value, operands[1].value);
    lemma_single(ops, env, OpView::binary(IntBinary::And, x, y), x, y);
    lemma_single(ops, env, OpView::binary(IntBinary::Or, x, y), x, y);
    lemma_single(ops, env, OpView::binary(IntBinary::Xor, x, y), x, y);
}

/// A signed reading is zero only for zero.
proof fn lemma_signed_zero(a: int, width: nat)
    requires
        0 <= a < pow2(width),
    ensures
        signed(a, width) == 0 <==> a == 0,
        -pow2(width) <= 2 * signed(a, width) < pow2(width),
{
    lemma_pow2_pos(width);
}

/// Division of natural numbers, in the terms of signed division.
proof fn lemma_natural_division(a: int, b: int, width: nat)
    requires
        0 <= a < pow2(width),
        0 < b,
    ensures
        wrap(truncated(a, b), width) == a / b,
        wrap(a - truncated(a, b) * b, width) == a % b,
{
    assert(truncated(a, b) == a / b);
    lemma_fundamental_div_mod(a, b);
    lemma_mod_bound(a, b);
    assert(0 <= a / b <= a) by (nonlinear_arith)
        requires
            0 <= a,
            0 < b,
    ;
    assert(b * (a / b) == (a / b) * b) by (nonlinear_arith);
    assert(0 <= (a / b) * b) by (nonlinear_arith)
        requires
            0 <= a / b,
            0 < b,
    ;
    assert(a % b <= a);
    lemma_small_mod((a / b) as nat, pow2(width));
    lemma_small_mod((a % b) as nat, pow2(width));
}

/// Division gives the quotient of the first operand by the second without its
/// fraction, and remainder what that quotient leaves of the first operand. Both
/// go by the recorded signedness of the first operand. The only signed division
/// by a number other than zero that has no result is the one whose quotient does
/// not fit.
pub proof fn law_division(
    ops: Seq<OpView>,
    env: spec_fn(u64) -> Datum,
    operands: Seq<Operand>,
    width: nat,
    a: int,
    b: int,
    is_signed: bool,
)
    requires
        integers(ops, env, operands, width, a, b),
        recorded_as(operands[0].history@, is_signed),
        b != 0,
        is_signed ==> 2 * truncated(signed(a, width), signed(b, width)) < pow2(width),
    ensures
        ({
            let ty = operands[0].value.ty;
            let (x, y) = (counted(a, width, is_signed), counted(b, width, is_signed));
            &&& gives(
                ops,
                env,
                binary_ops(ops.len(), MirBinary::Div, operands),
                ty,
                Datum::Int(width, wrap(truncated(x, y), width)),
            )
            &&& gives(
                ops,
                env,
                binary_ops(ops.len(), MirBinary::Rem, operands),
                ty,
                Datum::Int(width, wrap(x - truncated(x, y) * y, width)),
            )
        }),
{
    let (x, y) = (operands[0].value, operands[1].value);
    lemma_recorded(operands[0], is_signed);
    lemma_signed_zero(b, width);
    if !is_signed {
        lemma_natural_division(a, b, width);
    }
    lemma_single(ops, env, OpView::binary(IntBinary::SDiv, x, y), x, y);
    lemma_single(ops, env, OpView::binary(IntBinary::UDiv, x, y), x, y);
    lemma_single(ops, env, OpView::binary(IntBinary::SRem, x, y), x, y);
    lemma_single(ops, env, OpView::binary(IntBinary::URem, x, y), x, y);
}

/// What [`truncated`] is: times the divisor it comes as close to the dividend as
/// a multiple can without passing it.
pub proof fn law_truncated(a: int, b: int)
    requires
        b != 0,
    ensures
        magnitude(a - truncated(a, b) * b) < magnitude(b),
        a >= 0 ==> a - truncated(a, b) * b >= 0,
        a <= 0 ==> a - truncated(a, b) * b <= 0,
{
    let (m, d) = (magnitude(a), magnitude(b));
    lemma_fundamental_div_mod(m, d);
    lemma_mod_bound(m, d);
    let q = m / d;
    assert(d * q == q * d) by (nonlinear_arith);
    assert((-q) * b == -(q * b)) by (nonlinear_arith);
    assert(q * (-b) == -(q * b)) by (nonlinear_arith);
}

/// A shift by an amount of another or the same width shifts by the amount
/// reduced to the width of the value; where that width is a power of two, by the
/// amount modulo the width. To the left it multiplies; to the right it divides
/// and rounds down, the number with its sign where that is recorded.
pub proof fn law_shift(
    ops: Seq<OpView>,
    env: spec_fn(u64) -> Datum,
    operands: Seq<Operand>,
    width: u32,
    amount_width: u32,
    a: int,
    amount: int,
    is_signed: bool,
)
    requires
        operands.len() == 2,
        operands[0].value.ty.spec_int_width() == Some(width),
        operands[1].value.ty.spec_int_width() == Some(amount_width),
        width > 0,
        holds_int(ops, env, operands[0].value, width as nat, a),
        holds_int(ops, env, operands[1].value, amount_width as nat, amount),
        recorded_as(operands[0].history@, is_signed),
        ops.len() + 4 <= usize::MAX,
    ensures
        ({
            let ty = operands[0].value.ty;
            let w = width as nat;
            let k = reduced_amount(amount, w) as nat;
            &&& is_pow2(width as int) ==> k == amount % (width as int)
            &&& k < w
            &&& gives(
                ops,
                env,
                binary_ops(ops.len(), MirBinary::Shl, operands),
                ty,
                Datum::Int(w, wrap(a * pow2(k), w)),
            )
            &&& gives(
                ops,
                env,
                binary_ops(ops.len(), MirBinary::Shr, operands),
                ty,
                Datum::Int(w, wrap(counted(a, w, is_signed) / (pow2(k) as int), w)),
            )
        }),
{
    let w = width as nat;
    let k = reduced_amount(amount, w) as nat;
    law_reduced_amount(amount as nat, w);
    lemma_recorded(operands[0], is_signed);
    lemma_pow2_pos(k);
    assert(0 <= a / (pow2(k) as int) <= a) by (nonlinear_arith)
        requires
            0 <= a,
            pow2(k) > 0,
    ;
    lemma_small_mod((a / (pow2(k) as int)) as nat, pow2(w));
    lemma_shifted(ops, env, operands, IntBinary::Shl, width, amount_width, a, amount);
    lemma_shifted(ops, env, operands, IntBinary::AShr, width, amount_width, a, amount);
    lemma_shifted(ops, env, operands, IntBinary::LShr, width, amount_width, a, amount);
}

#[verifier::rlimit(40)]
proof fn lemma_shifted(
    ops: Seq<OpView>,
    env: spec_fn(u64) -> Datum,
    operands: Seq<Operand>,
    op: IntBinary,
    width: u32,
    amount_width: u32,
    a: int,
    amount: int,
)
    requires
        operands.len() == 2,
        operands[0].value.ty.spec_int_width() == Some(width),
        operands[1].value.ty.spec_int_width() == Some(amount_width),
        width > 0,
        holds_int(ops, env, operands[0].value, width as nat, a),
        holds_int(ops, env, operands[1].value, amount_width as nat, amount),
        ops.len() + 4 <= usize::MAX,
    ensures
        gives(
            ops,
            env,
            shift_ops(ops.len(), operands, op),
            operands[0].value.ty,
            int_result(
                op,
                width as nat,
                a,
                reduced_amount(amount, width as nat),
            ),
        ),
{
    law_shift_defined(ops, env, operands, op, width, amount_width, amount);
    let (lhs, rhs) = (operands[0].value, operands[1].value);
    let emitted = shift_ops(ops.len(), operands, op).unwrap();
    let all = ops + emitted;
    lemma_datum_prefix(ops, emitted, env, lhs);
    let cast = amount_cast(lhs, rhs).unwrap();
    let (m, ty): (nat, LlvmType) = if cast is Some {
        (ops.len() + 1, lhs.ty)
    } else {
        (ops.len(), rhs.ty)
    };
    let shift = OpView::binary(op, lhs, Value::at(m + 1, ty));
    assert(all.last() == shift);
    assert(all[(m + 2) as int] == shift);
    let w = width as nat;
    let amount_at = Value::at(m + 1, ty);
    assert(shift.operands[1] == amount_at);
    assert(emitted.last() == shift);
    assert(shift_ops(ops.len(), operands, op) == Ok::<Seq<OpView>, LowerError>(emitted));
    lemma_last(ops, emitted, env, op, lhs, amount_at, w, a, reduced_amount(amount, w));
}

/// The last of the emitted operations computes from the integers that its
/// operands hold.
proof fn lemma_last(
    ops: Seq<OpView>,
    emitted: Seq<OpView>,
    env: spec_fn(u64) -> Datum,
    op: IntBinary,
    x: Value,
    y: Value,
    width: nat,
    a: int,
    b: int,
)
    requires
        datum(ops + emitted, env, x) == Datum::Int(width, a),
        datum(ops + emitted, env, y) == Datum::Int(width, b),
        emitted.len() > 0,
        emitted.last() == OpView::binary(op, x, y),
        available(x, ops.len()),
        available(y, (ops.len() + emitted.len() - 1) as nat),
        ops.len() + emitted.len() <= usize::MAX,
    ensures
        gives(
            ops,
            env,
            Ok(emitted),
            x.ty,
            int_result(op, width, a, b),
        ),
{
    let last = (emitted.len() - 1) as nat;
    assert(emitted[last as int].operands == seq![x, y]);
    lemma_emitted(ops, emitted, env, last);
}

/// Whether two numbers compare as asked.
pub open spec fn compares(c: Comparison, x: int, y: int) -> bool {
    match c {
        Comparison::Lt => x < y,
        Comparison::Le => x <= y,
        Comparison::Gt => x > y,
        Comparison::Ge => x >= y,
        Comparison::Eq => x == y,
        Comparison::Ne => x != y,
    }
}

/// A comparison of integers gives the truth about the numbers that they stand
/// for under the recorded signedness of the first operand.
pub proof fn law_compared_integers(
    ops: Seq<OpView>,
    env: spec_fn(u64) -> Datum,
    operands: Seq<Operand>,
    c: Comparison,
    width: nat,
    a: int,
    b: int,
    is_signed: bool,
)
    requires
        integers(ops, env, operands, width, a, b),
        recorded_as(operands[0].history@, is_signed),
    ensures
        gives(
            ops,
            env,
            binary_ops(ops.len(), MirBinary::Compare(c), operands),
            LlvmType::spec_int(1),
            truth(compares(c, counted(a, width, is_signed), counted(b, width, is_signed))),
        ),
{
    let (x, y) = (operands[0].value, operands[1].value);
    lemma_recorded(operands[0], is_signed);
    let preds = c.spec_predicates();
    lemma_single(ops, env, OpView::int_compare(preds.signed, x, y), x, y);
    lemma_single(ops, env, OpView::int_compare(preds.unsigned, x, y), x, y);
}

/// Pointers are equal where their addresses are.
pub proof fn law_compared_pointers(
    ops: Seq<OpView>,
    env: spec_fn(u64) -> Datum,
    operands: Seq<Operand>,
    is_signed: bool,
    a: int,
    b: int,
)
    requires
        operands.len() == 2,
        !is_float(operands[0].value.ty),
        recorded_as(operands[0].history@, is_signed),
        available(operands[0].value, ops.len()),
        available(operands[1].value, ops.len()),
        datum(ops, env, operands[0].value) == Datum::Pointer(a),
        datum(ops, env, operands[1].value) == Datum::Pointer(b),
        ops.len() < usize::MAX,
    ensures
        gives(
            ops,
            env,
            binary_ops(ops.len(), MirBinary::Compare(Comparison::Eq), operands),
            LlvmType::spec_int(1),
            truth(a == b),
        ),
        gives(
            ops,
            env,
            binary_ops(ops.len(), MirBinary::Compare(Comparison::Ne), operands),
            LlvmType::spec_int(1),
            truth(a != b),
        ),
{
    let (x, y) = (operands[0].value, operands[1].value);
    lemma_recorded(operands[0], is_signed);
    lemma_single(ops, env, OpView::int_compare(IntPredicate::EQ, x, y), x, y);
    lemma_single(ops, env, OpView::int_compare(IntPredicate::NE, x, y), x, y);
}

/// A comparison of floats gives the truth about their places in the order of
/// numbers. Where an operand is not a number, they are unequal, and no other
/// comparison holds.
pub proof fn law_compared_floats(
    ops: Seq<OpView>,
    env: spec_fn(u64) -> Datum,
    operands: Seq<Operand>,
    c: Comparison,
)
    requires
        operands.len() == 2,
        is_float(operands[0].value.ty),
        available(operands[0].value, ops.len()),
        available(operands[1].value, ops.len()),
        is_placed(datum(ops, env, operands[0].value)),
        is_placed(datum(ops, env, operands[1].value)),
        ops.len() < usize::MAX,
    ensures
        gives(
            ops,
            env,
            binary_ops(ops.len(), MirBinary::Compare(c), operands),
            LlvmType::spec_int(1),
            truth(
                match (datum(ops, env, operands[0].value), datum(ops, env, operands[1].value)) {
                    (Datum::Number(x), Datum::Number(y)) => compares(c, x, y),
                    _ => c == Comparison::Ne,
                },
            ),
        ),
{
    let (x, y) = (operands[0].value, operands[1].value);
    lemma_single(ops, env, OpView::float_compare(c.spec_predicates().float, x, y), x, y);
}

/// Arithmetic on floats is that of the operands in their order, with no
/// relaxation.
pub proof fn law_float_arithmetic(
    ops: Seq<OpView>,
    env: spec_fn(u64) -> Datum,
    operands: Seq<Operand>,
)
    requires
        operands.len() == 2,
        is_float(operands[0].value.ty),
        available(operands[0].value, ops.len()),
        available(operands[1].value, ops.len()),
        ops.len() < usize::MAX,
    ensures
        ({
            let ty = operands[0].value.ty;
            let (x, y) = (datum(ops, env, operands[0].value), datum(ops, env, operands[1].value));
            let computed = |op: FloatBinary|
                Datum::Computed(op, FastMath::none(), Box::new(x), Box::new(y));
            let made = |op: MirBinary| binary_ops(ops.len(), op, operands);
            &&& gives(ops, env, made(MirBinary::Add), ty, computed(FloatBinary::FAdd))
            &&& gives(ops, env, made(MirBinary::Sub), ty, computed(FloatBinary::FSub))
            &&& gives(ops, env, made(MirBinary::Mul), ty, computed(FloatBinary::FMul))
            &&& gives(ops, env, made(MirBinary::Div), ty, computed(FloatBinary::FDiv))
            &&& gives(ops, env, made(MirBinary::Rem), ty, computed(FloatBinary::FRem))
        }),
{
    let (x, y) = (operands[0].value, operands[1].value);
    let none = FastMath::none();
    lemma_single(ops, env, OpView::float_binary(FloatBinary::FAdd, none, x, y), x, y);
    lemma_single(ops, env, OpView::float_binary(FloatBinary::FSub, none, x, y), x, y);
    lemma_single(ops, env, OpView::float_binary(FloatBinary::FMul, none, x, y), x, y);
    lemma_single(ops, env, OpView::float_binary(FloatBinary::FDiv, none, x, y), x, y);
    lemma_single(ops, env, OpView::float_binary(FloatBinary::FRem, none, x, y), x, y);
}

/// The negation of a float is at the opposite place; what is not a number stays
/// so.
pub proof fn law_float_neg(ops: Seq<OpView>, env: spec_fn(u64) -> Datum, operand: Value)
    requires
        is_float(operand.ty),
        available(operand, ops.len()),
        is_placed(datum(ops, env, operand)),
        ops.len() < usize::MAX,
    ensures
        gives(
            ops,
            env,
            neg_ops(ops.len(), operand),
            operand.ty,
            match datum(ops, env, operand) {
                Datum::Number(at) => Datum::Number(-at),
                _ => Datum::NotANumber,
            },
        ),
{
    let emitted = neg_ops(ops.len(), operand).unwrap();
    lemma_datum_prefix(ops, emitted, env, operand);
    lemma_emitted(ops, emitted, env, 0);
}

/// A selection gives its second argument where the condition holds and its third
/// where it does not.
pub proof fn law_select(
    ops: Seq<OpView>,
    env: spec_fn(u64) -> Datum,
    args: Seq<Value>,
    condition: bool,
)
    requires
        args.len() == 3,
        forall|i: int| 0 <= i < 3 ==> available(#[trigger] args[i], ops.len()),
        datum(ops, env, args[0]) == truth(condition),
        ops.len() < usize::MAX,
    ensures
        gives(
            ops,
            env,
            select_ops(args, 1),
            args[1].ty,
            if condition {
                datum(ops, env, args[1])
            } else {
                datum(ops, env, args[2])
            },
        ),
{
    let emitted = select_ops(args, 1).unwrap();
    assert(available(args[0], ops.len()) && available(args[1], ops.len()) && available(
        args[2],
        ops.len(),
    ));
    lemma_datum_prefix(ops, emitted, env, args[0]);
    lemma_datum_prefix(ops, emitted, env, args[1]);
    lemma_datum_prefix(ops, emitted, env, args[2]);
    lemma_emitted(ops, emitted, env, 0);
}

/// Whether an intrinsic asks for the maximum, or for the minimum, of two floats.
pub open spec fn asks_extreme(intrinsic: RustFloatMathIntrinsic, greatest: bool) -> bool {
    if greatest {
        intrinsic == RustFloatMathIntrinsic::MaxNumNszF32 || intrinsic
            == RustFloatMathIntrinsic::MaxNumNszF64
    } else {
        intrinsic == RustFloatMathIntrinsic::MinNumNszF32 || intrinsic
            == RustFloatMathIntrinsic::MinNumNszF64
    }
}

/// Whether `r` is the maximum, or the minimum, of two floating-point values: one
/// of them that the other does not exceed, or the number where one of them is
/// none.
pub open spec fn is_extreme(x: Datum, y: Datum, r: Datum, greatest: bool) -> bool {
    &&& r == x || r == y
    &&& x is Number || y is Number ==> r is Number
    &&& forall|other: Datum|
        (other == x || other == y) && (#[trigger] place(other)) is Some ==> if greatest {
            place(r).unwrap() >= place(other).unwrap()
        } else {
            place(r).unwrap() <= place(other).unwrap()
        }
}

/// The maximum of two numbers is one of them and not less than either, and the
/// minimum is one of them and not greater than either. Where exactly one value
/// is a number, both give that number.
pub proof fn law_extremes(
    ops: Seq<OpView>,
    env: spec_fn(u64) -> Datum,
    args: Seq<Value>,
    ty: LlvmType,
    options: LoweringOptions,
    intrinsic: RustFloatMathIntrinsic,
    greatest: bool,
)
    requires
        asks_extreme(intrinsic, greatest),
        args.len() == 2,
        available(args[0], ops.len()),
        available(args[1], ops.len()),
        is_placed(datum(ops, env, args[0])),
        is_placed(datum(ops, env, args[1])),
        ops.len() + 4 <= usize::MAX,
    ensures
        exists|r: Datum|
            is_extreme(datum(ops, env, args[0]), datum(ops, env, args[1]), r, greatest) && gives(
                ops,
                env,
                float_math_ops(ops.len(), args, 1, ty, options, intrinsic),
                args[1].ty,
                r,
            ),
{
    let made = float_math_ops(ops.len(), args, 1, ty, options, intrinsic);
    let emitted = made.unwrap();
    lemma_datum_prefix(ops, emitted, env, args[0]);
    lemma_datum_prefix(ops, emitted, env, args[1]);
    lemma_emitted(ops, emitted, env, 0);
    lemma_emitted(ops, emitted, env, 1);
    lemma_emitted(ops, emitted, env, 2);
    lemma_emitted(ops, emitted, env, 3);
    let r = datum(ops + emitted, env, Value::at(ops.len() + 3, args[1].ty));
    assert(is_extreme(datum(ops, env, args[0]), datum(ops, env, args[1]), r, greatest));
}

/// All relaxations of floating-point arithmetic, contraction only where it is
/// allowed.
pub open spec fn relaxed(contraction: bool) -> FastMath {
    FastMath {
        reassoc: true,
        nnan: true,
        ninf: true,
        nsz: true,
        arcp: true,
        contract: contraction,
        afn: true,
    }
}

/// Arithmetic with relaxations is that of the arguments in their order.
pub proof fn law_fast_arithmetic(
    ops: Seq<OpView>,
    env: spec_fn(u64) -> Datum,
    args: Seq<Value>,
    ty: LlvmType,
    options: LoweringOptions,
)
    requires
        args.len() == 2,
        available(args[0], ops.len()),
        available(args[1], ops.len()),
        ops.len() < usize::MAX,
    ensures
        ({
            let (x, y) = (datum(ops, env, args[0]), datum(ops, env, args[1]));
            let flags = relaxed(options.allow_fma_contraction);
            let computed = |op: FloatBinary|
                Datum::Computed(op, flags, Box::new(x), Box::new(y));
            let made = |i: RustFloatMathIntrinsic|
                float_math_ops(ops.len(), args, 1, ty, options, i);
            let own = args[0].ty;
            &&& gives(
                ops,
                env,
                made(RustFloatMathIntrinsic::FaddFast),
                own,
                computed(FloatBinary::FAdd),
            )
            &&& gives(
                ops,
                env,
                made(RustFloatMathIntrinsic::FsubFast),
                own,
                computed(FloatBinary::FSub),
            )
            &&& gives(
                ops,
                env,
                made(RustFloatMathIntrinsic::FmulFast),
                own,
                computed(FloatBinary::FMul),
            )
            &&& gives(
                ops,
                env,
                made(RustFloatMathIntrinsic::FdivFast),
                own,
                computed(FloatBinary::FDiv),
            )
            &&& gives(
                ops,
                env,
                made(RustFloatMathIntrinsic::FremFast),
                own,
                computed(FloatBinary::FRem),
            )
        }),
{
    let (x, y) = (args[0], args[1]);
    let flags = fast_flags(options);
    lemma_single(ops, env, OpView::float_binary(FloatBinary::FAdd, flags, x, y), x, y);
    lemma_single(ops, env, OpView::float_binary(FloatBinary::FSub, flags, x, y), x, y);
    lemma_single(ops, env, OpView::float_binary(FloatBinary::FMul, flags, x, y), x, y);
    lemma_single(ops, env, OpView::float_binary(FloatBinary::FDiv, flags, x, y), x, y);
    lemma_single(ops, env, OpView::float_binary(FloatBinary::FRem, flags, x, y), x, y);
}

/// A three-way comparison gives an enum value whose tag is the discriminant that
/// is declared for less, equal or greater, as the numbers compare under the
/// recorded signedness of the first operand.
pub proof fn law_compared_three_ways(
    ops: Seq<OpView>,
    env: spec_fn(u64) -> Datum,
    operands: Seq<Operand>,
    result: OrderEnum,
    width: nat,
    a: int,
    b: int,
    is_signed: bool,
    tag_width: u32,
    members: nat,
)
    requires
        integers(ops, env, operands, width, a, b),
        recorded_as(operands[0].history@, is_signed),
        result.mir matches MirType::Enum(e) && e.variant_discriminants@.len() == 3,
        result.discriminant.spec_int_width() == Some(tag_width),
        tag_width > 0,
        member_count(result.ty) == Some(members),
        result.tag_slot < members,
        ops.len() + 9 <= usize::MAX,
    ensures
        ({
            let made = three_way(ops.len(), operands, result);
            let (x, y) = (counted(a, width, is_signed), counted(b, width, is_signed));
            let ds = result.mir->Enum_0.variant_discriminants@;
            let declared = if x < y {
                ds[0]
            } else if x == y {
                ds[1]
            } else {
                ds[2]
            };
            exists|parts: Seq<Datum>|
                gives(ops, env, made, result.ty, Datum::Aggregate(parts))
                    && #[trigger] parts[result.tag_slot as int] == Datum::Int(
                    tag_width as nat,
                    wrap(declared as int, tag_width as nat),
                )
        }),
{
    lemma_recorded(operands[0], is_signed);
    let ds = result.mir->Enum_0.variant_discriminants@;
    law_three_way(
        ops,
        env,
        operands[0].value,
        operands[1].value,
        is_signed,
        ds,
        tag_width,
        result,
        width,
        a,
        b,
        members,
    );
    let emitted = three_way(ops.len(), operands, result).unwrap();
    let whole = datum(ops + emitted, env, Value::at(ops.len() + 8, result.ty));
    assert(whole is Aggregate);
    let parts = whole->Aggregate_0;
    assert(gives(
        ops,
        env,
        three_way(ops.len(), operands, result),
        result.ty,
        Datum::Aggregate(parts),
    ));
    assert(parts[result.tag_slot as int] is Int);
}

/// Multiplication with addend and carry gives the low and the high half of
/// `a * b + c + d`, of the numbers that the operands stand for under the
/// recorded signedness of the first one.
pub proof fn law_carried(
    ops: Seq<OpView>,
    env: spec_fn(u64) -> Datum,
    operands: Seq<Operand>,
    ty: LlvmType,
    width: u32,
    numbers: Seq<int>,
    is_signed: bool,
    members: nat,
)
    requires
        operands.len() == 4,
        numbers.len() == 4,
        0 < width <= 64,
        operands[0].value.ty.spec_int_width() == Some(width),
        forall|i: int|
            0 <= i < 4 ==> holds_int(
                ops,
                env,
                (#[trigger] operands[i]).value,
                width as nat,
                numbers[i],
            ),
        exists|i: int| #[trigger]
            latest_integer(operands[0].history@, i) && (is_signed
                <==> operands[0].history@[i]->Integer_1 == Signedness::Signed),
        member_count(ty) == Some(members),
        members >= 2,
        ops.len() + 14 <= usize::MAX,
    ensures
        ({
            let w = width as nat;
            let own = |i: int| counted(numbers[i], w, is_signed);
            exists|parts: Seq<Datum>, low: int, high: int|
                {
                    &&& gives(
                        ops,
                        env,
                        carrying_mul_add(ops.len(), operands, 1, ty),
                        ty,
                        Datum::Aggregate(parts),
                    )
                    &&& #[trigger] halves(parts, w, low, high)
                    &&& low + pow2(w) * high == wrap(own(0) * own(1) + own(2) + own(3), 2 * w)
                }
        }),
{
    lemma_recorded(operands[0], is_signed);
    let i = choose|i: int| #[trigger]
        latest_integer(operands[0].history@, i) && (is_signed
            <==> operands[0].history@[i]->Integer_1 == Signedness::Signed);
    lemma_latest(operands[0].history@, i);
    let args = values_of(operands);
    assert(forall|i: int| 0 <= i < 4 ==> #[trigger] args[i] == operands[i].value);
    law_carrying_mul_add(
        ops,
        env,
        args,
        is_signed,
        width,
        ty,
        numbers[0],
        numbers[1],
        numbers[2],
        numbers[3],
        members,
    );
    let w = width as nat;
    let emitted = carrying_mul_add(ops.len(), operands, 1, ty).unwrap();
    let whole = datum(ops + emitted, env, Value::at(ops.len() + 13, ty));
    let parts = whole->Aggregate_0;
    let (low, high) = (parts[0]->Int_1, parts[1]->Int_1);
    assert(gives(
        ops,
        env,
        carrying_mul_add(ops.len(), operands, 1, ty),
        ty,
        Datum::Aggregate(parts),
    ));
    assert(halves(parts, w, low, high));
}

/// Whether the first two parts are integers of `width` bits.
pub open spec fn halves(parts: Seq<Datum>, width: nat, low: int, high: int) -> bool {
    &&& parts[0] == Datum::Int(width, low)
    &&& parts[1] == Datum::Int(width, high)
    &&& 0 <= low < pow2(width)
    &&& 0 <= high < pow2(width)
}

/// A division without remainder gives the quotient, under the recorded
/// signedness of the dividend. The divisor is brought to the width of the
/// dividend first.
pub proof fn law_exact_division(
    ops: Seq<OpView>,
    env: spec_fn(u64) -> Datum,
    operands: Seq<Operand>,
    width: u32,
    divisor_width: u32,
    a: int,
    b: int,
    is_signed: bool,
)
    requires
        operands.len() == 2,
        operands[0].value.ty.spec_int_width() == Some(width),
        operands[1].value.ty.spec_int_width() == Some(divisor_width),
        holds_int(ops, env, operands[0].value, width as nat, a),
        holds_int(ops, env, operands[1].value, divisor_width as nat, b),
        exists|i: int| #[trigger]
            latest_integer(operands[0].history@, i) && (is_signed
                <==> operands[0].history@[i]->Integer_1 == Signedness::Signed),
        wrap(b, width as nat) != 0,
        is_signed ==> 2 * truncated(
            signed(a, width as nat),
            signed(wrap(b, width as nat), width as nat),
        ) < pow2(width as nat),
        ops.len() + 2 <= usize::MAX,
    ensures
        ({
            let w = width as nat;
            gives(
                ops,
                env,
                exact_div_ops(ops.len(), operands, 1),
                operands[0].value.ty,
                Datum::Int(
                    w,
                    wrap(
                        truncated(
                            counted(a, w, is_signed),
                            counted(wrap(b, w), w, is_signed),
                        ),
                        w,
                    ),
                ),
            )
        }),
{
    let w = width as nat;
    let (x, y) = (operands[0].value, operands[1].value);
    let i = choose|i: int| #[trigger]
        latest_integer(operands[0].history@, i) && (is_signed
            <==> operands[0].history@[i]->Integer_1 == Signedness::Signed);
    lemma_latest(operands[0].history@, i);
    let emitted = exact_div_ops(ops.len(), operands, 1).unwrap();
    let prelude = resize_ops(y, x.ty).unwrap();
    let divisor = resized(ops.len(), y, x.ty);
    lemma_datum_prefix(ops, emitted, env, x);
    lemma_datum_prefix(ops, emitted, env, y);
    lemma_pow2_pos(w);
    lemma_mod_bound(b, pow2(w) as int);
    lemma_signed_zero(wrap(b, w), w);
    if !is_signed {
        lemma_natural_division(a, wrap(b, w), w);
    }
    law_resize(ops, env, y, x.ty, divisor_width, width, b);
    assert(ops + emitted =~= (ops + prelude) + emitted.skip(prelude.len() as int));
    lemma_datum_prefix(ops + prelude, emitted.skip(prelude.len() as int), env, divisor);
    lemma_last(
        ops,
        emitted,
        env,
        if is_signed {
            IntBinary::SDiv
        } else {
            IntBinary::UDiv
        },
        x,
        divisor,
        w,
        a,
        wrap(b, w),
    );
}

} // verus!
