//! Lowering of arithmetic, bitwise and comparison operations.

use crate::correctness::{gives_pair, lemma_gives_pair};
use crate::ints::IntConst;
use crate::llvm::{LlvmType, Signedness};
use crate::lower::{
    emits, has_pointer, most_recent_signedness, recorded_pointer, recorded_signedness, Emitted,
    LowerError, Operand,
};
use crate::mir::MirType;
use crate::ops::{
    Builder, CastKind, FastMath, FloatBinary, FloatPredicate, IntBinary, IntPredicate, OpCode,
    OpView, Value,
};
use vstd::prelude::*;

verus! {

pub open spec fn is_float(ty: LlvmType) -> bool {
    ty is Half || ty is Float || ty is Double
}

fn is_float_type(ty: &LlvmType) -> (b: bool)
    ensures
        b == is_float(*ty),
{
    match ty {
        LlvmType::Half => true,
        LlvmType::Float => true,
        LlvmType::Double => true,
        _ => false,
    }
}

/// Whether the operand was a signed integer before conversion. A pointer counts
/// as unsigned.
pub open spec fn signed_operand(operand: Operand) -> Result<bool, LowerError> {
    match recorded_signedness(operand.history@) {
        Some(s) => Ok(s == Signedness::Signed),
        None => if recorded_pointer(operand.history@) {
            Ok(false)
        } else {
            Err(LowerError::NotIntegerOrPointer)
        },
    }
}

fn is_signed_int_op(operand: &Operand) -> (r: Result<bool, LowerError>)
    ensures
        r == signed_operand(*operand),
{
    match most_recent_signedness(&operand.history) {
        Some(s) => Ok(s == Signedness::Signed),
        None => if has_pointer(&operand.history) {
            Ok(false)
        } else {
            Err(LowerError::NotIntegerOrPointer)
        },
    }
}

/// A binary operation that only differs between floats and integers.
pub open spec fn plain_binary(
    operands: Seq<Operand>,
    float: FloatBinary,
    integer: IntBinary,
) -> Emitted {
    if operands.len() != 2 {
        Err(LowerError::OperandCount)
    } else {
        let (lhs, rhs) = (operands[0].value, operands[1].value);
        Ok(
            seq![
                if is_float(lhs.ty) {
                    OpView::float_binary(float, FastMath::none(), lhs, rhs)
                } else {
                    OpView::binary(integer, lhs, rhs)
                },
            ],
        )
    }
}

/// A binary operation that also depends on the signedness of integers.
pub open spec fn signed_binary(
    operands: Seq<Operand>,
    float: FloatBinary,
    signed: IntBinary,
    unsigned: IntBinary,
) -> Emitted {
    if operands.len() != 2 {
        Err(LowerError::OperandCount)
    } else {
        let (lhs, rhs) = (operands[0].value, operands[1].value);
        if is_float(lhs.ty) {
            Ok(seq![OpView::float_binary(float, FastMath::none(), lhs, rhs)])
        } else {
            match signed_operand(operands[0]) {
                Ok(true) => Ok(seq![OpView::binary(signed, lhs, rhs)]),
                Ok(false) => Ok(seq![OpView::binary(unsigned, lhs, rhs)]),
                Err(e) => Err(e),
            }
        }
    }
}

fn emit_plain_binary(
    b: &mut Builder,
    operands: &Vec<Operand>,
    float: FloatBinary,
    integer: IntBinary,
) -> (r: Result<Value, LowerError>)
    ensures
        emits(old(b)@, final(b)@, r, plain_binary(operands@, float, integer)),
{
    if operands.len() != 2 {
        return Err(LowerError::OperandCount);
    }
    let lhs = &operands[0].value;
    let rhs = &operands[1].value;
    let r = if is_float_type(&lhs.ty) {
        b.float_binary(float, FastMath::empty(), lhs, rhs)
    } else {
        b.binary(integer, lhs, rhs)
    };
    proof {
        assert(b@ =~= old(b)@ + plain_binary(operands@, float, integer).unwrap());
    }
    Ok(r)
}

fn emit_signed_binary(
    b: &mut Builder,
    operands: &Vec<Operand>,
    float: FloatBinary,
    signed: IntBinary,
    unsigned: IntBinary,
) -> (r: Result<Value, LowerError>)
    ensures
        emits(old(b)@, final(b)@, r, signed_binary(operands@, float, signed, unsigned)),
{
    if operands.len() != 2 {
        return Err(LowerError::OperandCount);
    }
    let lhs = &operands[0].value;
    let rhs = &operands[1].value;
    let r = if is_float_type(&lhs.ty) {
        b.float_binary(float, FastMath::empty(), lhs, rhs)
    } else {
        match is_signed_int_op(&operands[0]) {
            Ok(true) => b.binary(signed, lhs, rhs),
            Ok(false) => b.binary(unsigned, lhs, rhs),
            Err(e) => {
                return Err(e);
            },
        }
    };
    proof {
        assert(b@ =~= old(b)@ + signed_binary(operands@, float, signed, unsigned).unwrap());
    }
    Ok(r)
}

/// Lowers an addition.
pub fn convert_add(b: &mut Builder, operands: &Vec<Operand>) -> (r: Result<Value, LowerError>)
    ensures
        emits(
            old(b)@,
            final(b)@,
            r,
            plain_binary(operands@, FloatBinary::FAdd, IntBinary::Add),
        ),
{
    emit_plain_binary(b, operands, FloatBinary::FAdd, IntBinary::Add)
}

/// Lowers a subtraction.
pub fn convert_sub(b: &mut Builder, operands: &Vec<Operand>) -> (r: Result<Value, LowerError>)
    ensures
        emits(
            old(b)@,
            final(b)@,
            r,
            plain_binary(operands@, FloatBinary::FSub, IntBinary::Sub),
        ),
{
    emit_plain_binary(b, operands, FloatBinary::FSub, IntBinary::Sub)
}

/// Lowers a multiplication.
pub fn convert_mul(b: &mut Builder, operands: &Vec<Operand>) -> (r: Result<Value, LowerError>)
    ensures
        emits(
            old(b)@,
            final(b)@,
            r,
            plain_binary(operands@, FloatBinary::FMul, IntBinary::Mul),
        ),
{
    emit_plain_binary(b, operands, FloatBinary::FMul, IntBinary::Mul)
}

/// Lowers a division.
pub fn convert_div(b: &mut Builder, operands: &Vec<Operand>) -> (r: Result<Value, LowerError>)
    ensures
        emits(
            old(b)@,
            final(b)@,
            r,
            signed_binary(operands@, FloatBinary::FDiv, IntBinary::SDiv, IntBinary::UDiv),
        ),
{
    emit_signed_binary(b, operands, FloatBinary::FDiv, IntBinary::SDiv, IntBinary::UDiv)
}

/// Lowers a remainder.
pub fn convert_rem(b: &mut Builder, operands: &Vec<Operand>) -> (r: Result<Value, LowerError>)
    ensures
        emits(
            old(b)@,
            final(b)@,
            r,
            signed_binary(operands@, FloatBinary::FRem, IntBinary::SRem, IntBinary::URem),
        ),
{
    emit_signed_binary(b, operands, FloatBinary::FRem, IntBinary::SRem, IntBinary::URem)
}

/// A checked operation: the wrapping result paired with an overflow flag that
/// is always false.
pub open spec fn checked_binary(
    n: nat,
    operands: Seq<Operand>,
    op: IntBinary,
    ty: LlvmType,
) -> Emitted {
    if operands.len() != 2 {
        Err(LowerError::OperandCount)
    } else {
        let (lhs, rhs) = (operands[0].value, operands[1].value);
        Ok(
            seq![
                OpView::binary(op, lhs, rhs),
                OpView::int_of(0, 1),
                OpView::undef(ty),
                OpView::insert(Value::at(n + 2, ty), Value::at(n, lhs.ty), 0),
                OpView::insert(Value::at(n + 3, ty), Value::at(n + 1, LlvmType::spec_bool()), 1),
            ],
        )
    }
}

fn convert_checked_binop(
    b: &mut Builder,
    operands: &Vec<Operand>,
    op: IntBinary,
    ty: &LlvmType,
) -> (r: Result<Value, LowerError>)
    ensures
        emits(
            old(b)@,
            final(b)@,
            r,
            checked_binary(old(b)@.len(), operands@, op, *ty),
        ),
{
    if operands.len() != 2 {
        return Err(LowerError::OperandCount);
    }
    let value = b.binary(op, &operands[0].value, &operands[1].value);
    let overflow = b.constant(IntConst::from_u64(0, 1));
    let empty = b.undef(ty);
    let with_value = b.insert(&empty, &value, 0);
    let r = b.insert(&with_value, &overflow, 1);
    proof {
        assert(b@ =~= old(b)@ + checked_binary(old(b)@.len(), operands@, op, *ty).unwrap());
    }
    Ok(r)
}

/// Lowers a checked addition to a pair of type `ty`.
pub fn convert_checked_add(b: &mut Builder, operands: &Vec<Operand>, ty: &LlvmType) -> (r: Result<
    Value,
    LowerError,
>)
    ensures
        emits(
            old(b)@,
            final(b)@,
            r,
            checked_binary(old(b)@.len(), operands@, IntBinary::Add, *ty),
        ),
        gives_pair(old(b)@, final(b)@, operands@, *ty, r, |x: int, y: int| x + y),
{
    let r = convert_checked_binop(b, operands, IntBinary::Add, ty);
    proof {
        lemma_gives_pair(old(b)@, operands@, IntBinary::Add, *ty, r, |x: int, y: int| x + y);
    }
    r
}

/// Lowers a checked multiplication to a pair of type `ty`.
pub fn convert_checked_mul(b: &mut Builder, operands: &Vec<Operand>, ty: &LlvmType) -> (r: Result<
    Value,
    LowerError,
>)
    ensures
        emits(
            old(b)@,
            final(b)@,
            r,
            checked_binary(old(b)@.len(), operands@, IntBinary::Mul, *ty),
        ),
        gives_pair(old(b)@, final(b)@, operands@, *ty, r, |x: int, y: int| x * y),
{
    let r = convert_checked_binop(b, operands, IntBinary::Mul, ty);
    proof {
        lemma_gives_pair(old(b)@, operands@, IntBinary::Mul, *ty, r, |x: int, y: int| x * y);
    }
    r
}

/// Lowers a checked subtraction to a pair of type `ty`.
pub fn convert_checked_sub(b: &mut Builder, operands: &Vec<Operand>, ty: &LlvmType) -> (r: Result<
    Value,
    LowerError,
>)
    ensures
        emits(
            old(b)@,
            final(b)@,
            r,
            checked_binary(old(b)@.len(), operands@, IntBinary::Sub, *ty),
        ),
        gives_pair(old(b)@, final(b)@, operands@, *ty, r, |x: int, y: int| x - y),
{
    let r = convert_checked_binop(b, operands, IntBinary::Sub, ty);
    proof {
        lemma_gives_pair(old(b)@, operands@, IntBinary::Sub, *ty, r, |x: int, y: int| x - y);
    }
    r
}

/// A shift amount brought to the type of the shifted value: extended with
/// zeros or truncated where the types differ.
pub open spec fn amount_cast(lhs: Value, rhs: Value) -> Result<Option<CastKind>, LowerError> {
    match lhs.ty.spec_int_width() {
        None => Err(LowerError::ShiftValue),
        Some(width) => if lhs.ty == rhs.ty {
            Ok(None)
        } else {
            match rhs.ty.spec_int_width() {
                None => Err(LowerError::ShiftAmount),
                Some(amount_width) => Ok(
                    Some(
                        if width > amount_width {
                            CastKind::ZExt
                        } else {
                            CastKind::Trunc
                        },
                    ),
                ),
            }
        },
    }
}

/// A shift whose amount is reduced to the width of the value by a mask of
/// `width - 1`.
pub open spec fn shift_ops(n: nat, operands: Seq<Operand>, op: IntBinary) -> Emitted {
    if operands.len() != 2 {
        Err(LowerError::OperandCount)
    } else {
        let (lhs, rhs) = (operands[0].value, operands[1].value);
        match amount_cast(lhs, rhs) {
            Err(e) => Err(e),
            Ok(cast) => {
                let width = lhs.ty.spec_int_width().unwrap();
                let casts: Seq<OpView> = match cast {
                    Some(kind) => seq![OpView::cast(kind, rhs, lhs.ty)],
                    None => Seq::empty(),
                };
                let m = (n + casts.len()) as nat;
                let amount = match cast {
                    Some(_) => Value::at(n, lhs.ty),
                    None => rhs,
                };
                Ok(
                    casts + seq![
                        OpView::int_of(width - 1, width),
                        OpView::binary(
                            IntBinary::And,
                            amount,
                            Value::at(m, LlvmType::spec_int(width)),
                        ),
                        OpView::binary(op, lhs, Value::at(m + 1, amount.ty)),
                    ],
                )
            },
        }
    }
}

/// Masks a shift amount with `width - 1`.
fn mask_shift_amount(b: &mut Builder, amount: &Value, width: u32) -> (r: Value)
    requires
        width > 0,
    ensures
        final(b)@ == old(b)@.push(OpView::int_of(width - 1, width)).push(
            OpView::binary(
                IntBinary::And,
                *amount,
                Value::at(old(b)@.len(), LlvmType::spec_int(width)),
            ),
        ),
        r == Value::at(old(b)@.len() + 1, amount.ty),
{
    let mask = b.constant(IntConst::from_u128((width - 1) as u128, width));
    b.binary(IntBinary::And, amount, &mask)
}

/// Lowers a shift by a given operation.
fn convert_shift(b: &mut Builder, operands: &Vec<Operand>, op: IntBinary) -> (r: Result<
    Value,
    LowerError,
>)
    requires
        operands@.len() > 0 ==> operands@[0].value.ty.spec_int_width() != Some(0u32),
    ensures
        emits(old(b)@, final(b)@, r, shift_ops(old(b)@.len(), operands@, op)),
{
    if operands.len() != 2 {
        return Err(LowerError::OperandCount);
    }
    let lhs = &operands[0].value;
    let rhs = &operands[1].value;
    let width: u32 = match lhs.ty.int_width() {
        Some(w) => w,
        None => {
            return Err(LowerError::ShiftValue);
        },
    };
    let amount = if !lhs.ty.same(&rhs.ty) {
        let amount_width: u32 = match rhs.ty.int_width() {
            Some(w) => w,
            None => {
                return Err(LowerError::ShiftAmount);
            },
        };
        if width > amount_width {
            b.cast(CastKind::ZExt, rhs, &lhs.ty)
        } else {
            b.cast(CastKind::Trunc, rhs, &lhs.ty)
        }
    } else {
        rhs.copy()
    };
    let masked = mask_shift_amount(b, &amount, width);
    let r = b.binary(op, lhs, &masked);
    proof {
        assert(b@ =~= old(b)@ + shift_ops(old(b)@.len(), operands@, op).unwrap());
    }
    Ok(r)
}

/// A right shift: arithmetic for signed values, else logical.
pub open spec fn shr_ops(n: nat, operands: Seq<Operand>) -> Emitted {
    match signed_operand(operands[0]) {
        Err(e) => Err(e),
        Ok(true) => shift_ops(n, operands, IntBinary::AShr),
        Ok(false) => shift_ops(n, operands, IntBinary::LShr),
    }
}

/// Lowers a right shift.
pub fn convert_shr(b: &mut Builder, operands: &Vec<Operand>) -> (r: Result<Value, LowerError>)
    requires
        operands@.len() > 0,
        operands@[0].value.ty.spec_int_width() != Some(0u32),
    ensures
        emits(old(b)@, final(b)@, r, shr_ops(old(b)@.len(), operands@)),
{
    match is_signed_int_op(&operands[0]) {
        Ok(true) => convert_shift(b, operands, IntBinary::AShr),
        Ok(false) => convert_shift(b, operands, IntBinary::LShr),
        Err(e) => Err(e),
    }
}

/// Lowers a left shift.
pub fn convert_shl(b: &mut Builder, operands: &Vec<Operand>) -> (r: Result<Value, LowerError>)
    requires
        operands@.len() > 0 ==> operands@[0].value.ty.spec_int_width() != Some(0u32),
    ensures
        emits(old(b)@, final(b)@, r, shift_ops(old(b)@.len(), operands@, IntBinary::Shl)),
{
    convert_shift(b, operands, IntBinary::Shl)
}

/// A bitwise operation on two values.
pub open spec fn bitwise(operands: Seq<Operand>, op: IntBinary) -> Emitted {
    if operands.len() != 2 {
        Err(LowerError::OperandCount)
    } else {
        Ok(seq![OpView::binary(op, operands[0].value, operands[1].value)])
    }
}

fn emit_bitwise(b: &mut Builder, operands: &Vec<Operand>, op: IntBinary) -> (r: Result<
    Value,
    LowerError,
>)
    ensures
        emits(old(b)@, final(b)@, r, bitwise(operands@, op)),
{
    if operands.len() != 2 {
        return Err(LowerError::OperandCount);
    }
    let r = b.binary(op, &operands[0].value, &operands[1].value);
    proof {
        assert(b@ =~= old(b)@ + bitwise(operands@, op).unwrap());
    }
    Ok(r)
}

/// Lowers a bitwise conjunction.
pub fn convert_bitand(b: &mut Builder, operands: &Vec<Operand>) -> (r: Result<Value, LowerError>)
    ensures
        emits(old(b)@, final(b)@, r, bitwise(operands@, IntBinary::And)),
{
    emit_bitwise(b, operands, IntBinary::And)
}

/// Lowers a bitwise disjunction.
pub fn convert_bitor(b: &mut Builder, operands: &Vec<Operand>) -> (r: Result<Value, LowerError>)
    ensures
        emits(old(b)@, final(b)@, r, bitwise(operands@, IntBinary::Or)),
{
    emit_bitwise(b, operands, IntBinary::Or)
}

/// Lowers an exclusive disjunction.
pub fn convert_bitxor(b: &mut Builder, operands: &Vec<Operand>) -> (r: Result<Value, LowerError>)
    ensures
        emits(old(b)@, final(b)@, r, bitwise(operands@, IntBinary::Xor)),
{
    emit_bitwise(b, operands, IntBinary::Xor)
}

/// A negation: the dedicated operation for floats, subtraction from zero for
/// integers.
pub open spec fn neg_ops(n: nat, operand: Value) -> Emitted {
    if is_float(operand.ty) {
        Ok(seq![OpView::plain(OpCode::FNeg(FastMath::none()), operand.ty, seq![operand])])
    } else {
        match operand.ty.spec_int_width() {
            None => Err(LowerError::NegOperand),
            Some(width) => Ok(
                seq![
                    OpView::int_of(0, width),
                    OpView::binary(
                        IntBinary::Sub,
                        Value::at(n, LlvmType::spec_int(width)),
                        operand,
                    ),
                ],
            ),
        }
    }
}

/// Lowers a negation.
pub fn convert_neg(b: &mut Builder, operand: &Value) -> (r: Result<Value, LowerError>)
    requires
        operand.ty.spec_int_width() != Some(0u32),
    ensures
        emits(old(b)@, final(b)@, r, neg_ops(old(b)@.len(), *operand)),
{
    let r = if is_float_type(&operand.ty) {
        b.float_neg(operand)
    } else {
        let width: u32 = match operand.ty.int_width() {
            Some(w) => w,
            None => {
                return Err(LowerError::NegOperand);
            },
        };
        let zero = b.constant(IntConst::from_u128(0, width));
        b.binary(IntBinary::Sub, &zero, operand)
    };
    proof {
        assert(b@ =~= old(b)@ + neg_ops(old(b)@.len(), *operand).unwrap());
    }
    Ok(r)
}

/// A bitwise complement: exclusive disjunction with all ones.
pub open spec fn not_ops(n: nat, operand: Value) -> Emitted {
    match operand.ty.spec_int_width() {
        None => Err(LowerError::NotOperand),
        Some(width) => Ok(
            seq![
                OpView::int_of(-1, width),
                OpView::binary(IntBinary::Xor, operand, Value::at(n, LlvmType::spec_int(width))),
            ],
        ),
    }
}

/// Lowers a bitwise complement.
pub fn convert_not(b: &mut Builder, operand: &Value) -> (r: Result<Value, LowerError>)
    requires
        operand.ty.spec_int_width() != Some(0u32),
    ensures
        emits(old(b)@, final(b)@, r, not_ops(old(b)@.len(), *operand)),
{
    let width: u32 = match operand.ty.int_width() {
        Some(w) => w,
        None => {
            return Err(LowerError::NotOperand);
        },
    };
    let ones = b.constant(IntConst::from_i64(-1, width));
    let r = b.binary(IntBinary::Xor, operand, &ones);
    proof {
        assert(b@ =~= old(b)@ + not_ops(old(b)@.len(), *operand).unwrap());
    }
    Ok(r)
}

/// The predicates of a comparison for signed integers, unsigned integers and
/// floats.
#[derive(Clone, Copy, PartialEq, Eq, Structural, Debug)]
pub struct Predicates {
    pub signed: IntPredicate,
    pub unsigned: IntPredicate,
    pub float: FloatPredicate,
}

/// A comparison of two values.
pub open spec fn comparison(operands: Seq<Operand>, preds: Predicates) -> Emitted {
    if operands.len() != 2 {
        Err(LowerError::OperandCount)
    } else {
        let (lhs, rhs) = (operands[0].value, operands[1].value);
        if is_float(lhs.ty) {
            Ok(seq![OpView::float_compare(preds.float, lhs, rhs)])
        } else {
            match signed_operand(operands[0]) {
                Ok(true) => Ok(seq![OpView::int_compare(preds.signed, lhs, rhs)]),
                Ok(false) => Ok(seq![OpView::int_compare(preds.unsigned, lhs, rhs)]),
                Err(e) => Err(e),
            }
        }
    }
}

/// Lowers a comparison.
pub fn convert_cmp(b: &mut Builder, operands: &Vec<Operand>, preds: Predicates) -> (r: Result<
    Value,
    LowerError,
>)
    ensures
        emits(old(b)@, final(b)@, r, comparison(operands@, preds)),
{
    if operands.len() != 2 {
        return Err(LowerError::OperandCount);
    }
    let lhs = &operands[0].value;
    let rhs = &operands[1].value;
    let r = if is_float_type(&lhs.ty) {
        b.float_compare(preds.float, lhs, rhs)
    } else {
        match is_signed_int_op(&operands[0]) {
            Ok(true) => b.int_compare(preds.signed, lhs, rhs),
            Ok(false) => b.int_compare(preds.unsigned, lhs, rhs),
            Err(e) => {
                return Err(e);
            },
        }
    };
    proof {
        assert(b@ =~= old(b)@ + comparison(operands@, preds).unwrap());
    }
    Ok(r)
}

/// The enum that a three-way comparison produces: its MIR type, its LLVM type,
/// the LLVM type of its discriminant, and the slot of its tag.
#[derive(PartialEq, Eq, Debug)]
pub struct OrderEnum {
    pub mir: MirType,
    pub ty: LlvmType,
    pub discriminant: LlvmType,
    pub tag_slot: u32,
}

/// The operations of a three-way comparison. The discriminants are those of
/// less, equal and greater.
pub open spec fn three_way_ops(
    n: nat,
    lhs: Value,
    rhs: Value,
    signed: bool,
    ds: Seq<u64>,
    width: u32,
    result: OrderEnum,
) -> Seq<OpView> {
    let bool_ty = LlvmType::spec_bool();
    let tag_ty = LlvmType::spec_int(width);
    let is_less = Value::at(n, bool_ty);
    let is_greater = Value::at(n + 1, bool_ty);
    let less = Value::at(n + 2, tag_ty);
    let equal = Value::at(n + 3, tag_ty);
    let greater = Value::at(n + 4, tag_ty);
    seq![
        OpView::int_compare(
            if signed {
                IntPredicate::SLT
            } else {
                IntPredicate::ULT
            },
            lhs,
            rhs,
        ),
        OpView::int_compare(
            if signed {
                IntPredicate::SGT
            } else {
                IntPredicate::UGT
            },
            lhs,
            rhs,
        ),
        OpView::int_of(ds[0] as int, width),
        OpView::int_of(ds[1] as int, width),
        OpView::int_of(ds[2] as int, width),
        OpView::select(is_greater, greater, equal),
        OpView::select(is_less, less, Value::at(n + 5, tag_ty)),
        OpView::undef(result.ty),
        OpView::insert(Value::at(n + 7, result.ty), Value::at(n + 6, tag_ty), result.tag_slot),
    ]
}

/// A three-way comparison of integers.
pub open spec fn three_way(n: nat, operands: Seq<Operand>, result: OrderEnum) -> Emitted {
    if operands.len() != 2 {
        Err(LowerError::OperandCount)
    } else if is_float(operands[0].value.ty) {
        Err(LowerError::FloatThreeWay)
    } else {
        match signed_operand(operands[0]) {
            Err(e) => Err(e),
            Ok(signed) => match crate::cast::enum_discriminants(result.mir) {
                None => Err(LowerError::ThreeWayResult),
                Some(ds) => if ds.len() != 3 {
                    Err(LowerError::ThreeWayResult)
                } else {
                    match result.discriminant.spec_int_width() {
                        None => Err(LowerError::DiscriminantType),
                        Some(width) => Ok(
                            three_way_ops(
                                n,
                                operands[0].value,
                                operands[1].value,
                                signed,
                                ds,
                                width,
                                result,
                            ),
                        ),
                    }
                },
            },
        }
    }
}

/// One leg of a three-way comparison.
fn emit_cmp_value(b: &mut Builder, lhs: &Value, rhs: &Value, signed: bool, less: bool) -> (r: Value)
    ensures
        final(b)@ == old(b)@.push(
            OpView::int_compare(
                match (less, signed) {
                    (true, true) => IntPredicate::SLT,
                    (true, false) => IntPredicate::ULT,
                    (false, true) => IntPredicate::SGT,
                    (false, false) => IntPredicate::UGT,
                },
                *lhs,
                *rhs,
            ),
        ),
        r == Value::at(old(b)@.len(), LlvmType::spec_bool()),
{
    let pred = match (less, signed) {
        (true, true) => IntPredicate::SLT,
        (true, false) => IntPredicate::ULT,
        (false, true) => IntPredicate::SGT,
        (false, false) => IntPredicate::UGT,
    };
    b.int_compare(pred, lhs, rhs)
}

/// Lowers a three-way comparison.
pub fn convert_three_way_cmp(b: &mut Builder, operands: &Vec<Operand>, result: &OrderEnum) -> (r:
    Result<Value, LowerError>)
    requires
        result.discriminant.spec_int_width() != Some(0u32),
    ensures
        emits(old(b)@, final(b)@, r, three_way(old(b)@.len(), operands@, *result)),
{
    if operands.len() != 2 {
        return Err(LowerError::OperandCount);
    }
    let lhs = &operands[0].value;
    let rhs = &operands[1].value;
    if is_float_type(&lhs.ty) {
        return Err(LowerError::FloatThreeWay);
    }
    let signed: bool = match is_signed_int_op(&operands[0]) {
        Ok(s) => s,
        Err(e) => {
            return Err(e);
        },
    };
    let ds = match &result.mir {
        MirType::Enum(e) => &e.variant_discriminants,
        _ => {
            return Err(LowerError::ThreeWayResult);
        },
    };
    if ds.len() != 3 {
        return Err(LowerError::ThreeWayResult);
    }
    let width: u32 = match result.discriminant.int_width() {
        Some(w) => w,
        None => {
            return Err(LowerError::DiscriminantType);
        },
    };
    let is_less = emit_cmp_value(b, lhs, rhs, signed, true);
    let is_greater = emit_cmp_value(b, lhs, rhs, signed, false);
    let less = b.constant(IntConst::from_u64(ds[0], width));
    let equal = b.constant(IntConst::from_u64(ds[1], width));
    let greater = b.constant(IntConst::from_u64(ds[2], width));
    let not_less = b.select(&is_greater, &greater, &equal);
    let tag = b.select(&is_less, &less, &not_less);
    let empty = b.undef(&result.ty);
    let r = b.insert(&empty, &tag, result.tag_slot);
    proof {
        assert(b@ =~= old(b)@ + three_way_ops(
            old(b)@.len(),
            *lhs,
            *rhs,
            signed,
            ds@,
            width,
            *result,
        ));
    }
    Ok(r)
}

} // verus!
