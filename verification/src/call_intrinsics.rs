//! Lowering of calls that stand for Rust intrinsics.

use crate::intrinsics::common::{call_intrinsic, intrinsic_call};
use crate::ints::IntConst;
use crate::llvm::{LlvmType, Signedness};
use crate::lower::{
    emits, most_recent_signedness, recorded_signedness, Emitted, LowerError, Operand,
};
use crate::ops::{
    copy_values, one_value, Builder, CastKind, FloatBinary, FloatPredicate, IntBinary, OpView,
    Value,
};
use crate::rust_intrinsics::{
    fast_flags, fast_float_intrinsic_flags, float_math_intrinsic_symbol, law_math_symbols,
    math_symbol, FastFloatBinop, LoweringOptions, RustBitIntrinsic, RustFloatMathIntrinsic,
    RustSaturatingIntrinsic,
};
use crate::text;
use vstd::prelude::*;

verus! {

/// The values of operands.
pub open spec fn values_of(operands: Seq<Operand>) -> Seq<Value> {
    Seq::new(operands.len(), |i: int| operands[i].value)
}

/// The types of values.
pub open spec fn types_of(values: Seq<Value>) -> Seq<LlvmType> {
    Seq::new(values.len(), |i: int| values[i].ty)
}

/// The values of operands.
pub fn operand_values(operands: &Vec<Operand>) -> (r: Vec<Value>)
    ensures
        r@ == values_of(operands@),
{
    let mut r: Vec<Value> = Vec::new();
    let mut i: usize = 0;
    while i < operands.len()
        invariant
            i <= operands.len(),
            r@.len() == i,
            forall|j: int| 0 <= j < i ==> r@[j] == operands@[j].value,
        decreases operands.len() - i,
    {
        r.push(operands[i].value.copy());
        i = i + 1;
    }
    proof {
        assert(r@ =~= values_of(operands@));
    }
    r
}

/// The types of values.
pub fn value_types(values: &Vec<Value>) -> (r: Vec<LlvmType>)
    ensures
        r@ == types_of(values@),
{
    let mut r: Vec<LlvmType> = Vec::new();
    let mut i: usize = 0;
    while i < values.len()
        invariant
            i <= values.len(),
            r@.len() == i,
            forall|j: int| 0 <= j < i ==> r@[j] == values@[j].ty,
        decreases values.len() - i,
    {
        r.push(values[i].ty.copy());
        i = i + 1;
    }
    proof {
        assert(r@ =~= types_of(values@));
    }
    r
}

/// The width of an integer type, or an error.
pub fn integer_bit_width(ty: &LlvmType) -> (r: Result<u32, LowerError>)
    ensures
        r == match ty.spec_int_width() {
            Some(w) => Ok::<u32, LowerError>(w),
            None => Err::<u32, LowerError>(LowerError::ExpectedInteger),
        },
{
    match ty.int_width() {
        Some(w) => Ok(w),
        None => Err(LowerError::ExpectedInteger),
    }
}

/// What brings an integer to the width of another type: nothing at equal width,
/// else an extension with zeros or a truncation.
pub open spec fn resize_ops(value: Value, ty: LlvmType) -> Emitted {
    match (value.ty.spec_int_width(), ty.spec_int_width()) {
        (Some(src), Some(dst)) => Ok(
            if src == dst {
                Seq::empty()
            } else if src < dst {
                seq![OpView::cast(CastKind::ZExt, value, ty)]
            } else {
                seq![OpView::cast(CastKind::Trunc, value, ty)]
            },
        ),
        _ => Err(LowerError::ExpectedInteger),
    }
}

/// The integer after [`resize_ops`].
pub open spec fn resized(n: nat, value: Value, ty: LlvmType) -> Value {
    if value.ty.spec_int_width() == ty.spec_int_width() {
        value
    } else {
        Value::at(n, ty)
    }
}

/// Brings an integer to the width of another type.
pub fn cast_integer_value_to_type(b: &mut Builder, value: &Value, ty: &LlvmType) -> (r: Result<
    Value,
    LowerError,
>)
    ensures
        match resize_ops(*value, *ty) {
            Ok(ops) => final(b)@ == old(b)@ + ops && r == Ok::<Value, LowerError>(
                resized(old(b)@.len(), *value, *ty),
            ),
            Err(e) => final(b)@ == old(b)@ && r == Err::<Value, LowerError>(e),
        },
{
    let src: u32 = match integer_bit_width(&value.ty) {
        Ok(w) => w,
        Err(e) => {
            return Err(e);
        },
    };
    let dst: u32 = match integer_bit_width(ty) {
        Ok(w) => w,
        Err(e) => {
            return Err(e);
        },
    };
    if src == dst {
        return Ok(value.copy());
    }
    let kind = if src < dst {
        CastKind::ZExt
    } else {
        CastKind::Trunc
    };
    Ok(b.cast(kind, value, ty))
}

/// A choice between two values.
pub open spec fn select_ops(args: Seq<Value>, results: nat) -> Emitted {
    if results != 1 {
        Err(LowerError::ResultCount)
    } else if args.len() != 3 {
        Err(LowerError::OperandCount)
    } else {
        Ok(seq![OpView::select(args[0], args[1], args[2])])
    }
}

/// Lowers a choice between two values; the operands are condition and values.
pub fn convert_rust_select_unpredictable(
    b: &mut Builder,
    args: &Vec<Value>,
    results: usize,
) -> (r: Result<Value, LowerError>)
    ensures
        emits(old(b)@, final(b)@, r, select_ops(args@, results as nat)),
{
    if results != 1 {
        return Err(LowerError::ResultCount);
    }
    if args.len() != 3 {
        return Err(LowerError::OperandCount);
    }
    let r = b.select(&args[0], &args[1], &args[2]);
    proof {
        assert(b@ =~= old(b)@ + select_ops(args@, results as nat).unwrap());
    }
    Ok(r)
}

/// The name of an intrinsic on integers, without the width.
pub open spec fn bit_stem(intrinsic: RustBitIntrinsic) -> Seq<char> {
    match intrinsic {
        RustBitIntrinsic::RotateLeft => "llvm_fshl_i"@,
        RustBitIntrinsic::RotateRight => "llvm_fshr_i"@,
        RustBitIntrinsic::Ctpop => "llvm_ctpop_i"@,
        RustBitIntrinsic::Ctlz { .. } => "llvm_ctlz_i"@,
        RustBitIntrinsic::Cttz { .. } => "llvm_cttz_i"@,
        RustBitIntrinsic::Bswap => "llvm_bswap_i"@,
        RustBitIntrinsic::Bitreverse => "llvm_bitreverse_i"@,
    }
}

fn bit_stem_str(intrinsic: RustBitIntrinsic) -> (s: &'static str)
    ensures
        s@ == bit_stem(intrinsic),
        text::is_identifier(s@),
{
    proof {
        reveal_strlit("llvm_fshl_i");
        reveal_strlit("llvm_fshr_i");
        reveal_strlit("llvm_ctpop_i");
        reveal_strlit("llvm_ctlz_i");
        reveal_strlit("llvm_cttz_i");
        reveal_strlit("llvm_bswap_i");
        reveal_strlit("llvm_bitreverse_i");
    }
    match intrinsic {
        RustBitIntrinsic::RotateLeft => "llvm_fshl_i",
        RustBitIntrinsic::RotateRight => "llvm_fshr_i",
        RustBitIntrinsic::Ctpop => "llvm_ctpop_i",
        RustBitIntrinsic::Ctlz { .. } => "llvm_ctlz_i",
        RustBitIntrinsic::Cttz { .. } => "llvm_cttz_i",
        RustBitIntrinsic::Bswap => "llvm_bswap_i",
        RustBitIntrinsic::Bitreverse => "llvm_bitreverse_i",
    }
}

/// What precedes the call of a bit intrinsic: a rotation resizes its amount, and
/// counting zeros takes a flag.
pub open spec fn bit_prelude(args: Seq<Value>, intrinsic: RustBitIntrinsic) -> Emitted {
    match intrinsic {
        RustBitIntrinsic::RotateLeft | RustBitIntrinsic::RotateRight => if args.len() != 2 {
            Err(LowerError::OperandCount)
        } else {
            resize_ops(args[1], args[0].ty)
        },
        RustBitIntrinsic::Ctlz { zero_undef } | RustBitIntrinsic::Cttz { zero_undef } => Ok(
            seq![
                OpView::int_of(
                    if zero_undef {
                        1
                    } else {
                        0
                    },
                    1,
                ),
            ],
        ),
        _ => Ok(Seq::empty()),
    }
}

/// The arguments of the call of a bit intrinsic.
pub open spec fn bit_args(n: nat, args: Seq<Value>, intrinsic: RustBitIntrinsic) -> Seq<Value> {
    match intrinsic {
        RustBitIntrinsic::RotateLeft | RustBitIntrinsic::RotateRight => seq![
            args[0],
            args[0],
            resized(n, args[1], args[0].ty),
        ],
        RustBitIntrinsic::Ctlz { .. } | RustBitIntrinsic::Cttz { .. } => seq![
            args[0],
            Value::at(n, LlvmType::spec_int(1)),
        ],
        _ => seq![args[0]],
    }
}

/// A call whose integer result is brought to the width of `ty`. `n` operations
/// precede it.
pub open spec fn resized_call(
    n: nat,
    name: Seq<char>,
    signature: Seq<LlvmType>,
    call_ty: LlvmType,
    args: Seq<Value>,
    ty: LlvmType,
) -> Emitted {
    match resize_ops(Value::at(n + 1, call_ty), ty) {
        Ok(resize) => Ok(intrinsic_call(name, signature, call_ty, args) + resize),
        Err(e) => Err(e),
    }
}

/// An integer intrinsic on bits. A byte swap of one byte is the byte itself.
pub open spec fn bit_ops(
    n: nat,
    args: Seq<Value>,
    results: nat,
    ty: LlvmType,
    intrinsic: RustBitIntrinsic,
) -> Emitted {
    if results != 1 {
        Err(LowerError::ResultCount)
    } else if args.len() == 0 {
        Err(LowerError::OperandCount)
    } else {
        match args[0].ty.spec_int_width() {
            None => Err(LowerError::ExpectedInteger),
            Some(width) => if intrinsic == RustBitIntrinsic::Bswap && width == 8 {
                match ty.spec_int_width() {
                    None => Err(LowerError::ExpectedInteger),
                    Some(result_width) => if result_width != 8 {
                        Err(LowerError::ByteSwapWidth)
                    } else {
                        Ok(seq![OpView::cast(CastKind::Bitcast, args[0], ty)])
                    },
                }
            } else {
                match bit_prelude(args, intrinsic) {
                    Err(e) => Err(e),
                    Ok(prelude) => {
                        let call_args = bit_args(n, args, intrinsic);
                        match resized_call(
                            (n + prelude.len()) as nat,
                            bit_stem(intrinsic) + text::decimal(width as nat),
                            types_of(call_args),
                            args[0].ty,
                            call_args,
                            ty,
                        ) {
                            Ok(call) => Ok(prelude + call),
                            Err(e) => Err(e),
                        }
                    },
                }
            },
        }
    }
}

/// Emits a call and brings its result to the width of `ty`, where both types
/// are known to be integers.
fn emit_resized_call(
    b: &mut Builder,
    name: &str,
    signature: Vec<LlvmType>,
    call_ty: &LlvmType,
    args: Vec<Value>,
    ty: &LlvmType,
) -> (r: Result<Value, LowerError>)
    requires
        text::is_identifier(name@),
        call_ty.spec_int_width() is Some,
        ty.spec_int_width() is Some,
    ensures
        emits(
            old(b)@,
            final(b)@,
            r,
            resized_call(old(b)@.len(), name@, signature@, *call_ty, args@, *ty),
        ),
{
    let call = call_intrinsic(b, name, signature, call_ty, args);
    let ghost mid = b@;
    let r = cast_integer_value_to_type(b, &call, ty);
    proof {
        let resize = resize_ops(call, *ty).unwrap();
        assert(b@ =~= old(b)@ + (intrinsic_call(name@, signature@, *call_ty, args@) + resize));
    }
    r
}

/// Lowers an integer intrinsic on bits; `ty` is the type of the result.
pub fn convert_rust_bit_intrinsic(
    b: &mut Builder,
    args: &Vec<Value>,
    results: usize,
    ty: &LlvmType,
    intrinsic: RustBitIntrinsic,
) -> (r: Result<Value, LowerError>)
    ensures
        emits(
            old(b)@,
            final(b)@,
            r,
            bit_ops(old(b)@.len(), args@, results as nat, *ty, intrinsic),
        ),
{
    if results != 1 {
        return Err(LowerError::ResultCount);
    }
    if args.len() == 0 {
        return Err(LowerError::OperandCount);
    }
    let value = &args[0];
    let width: u32 = match integer_bit_width(&value.ty) {
        Ok(w) => w,
        Err(e) => {
            return Err(e);
        },
    };
    let rotates: bool = intrinsic == RustBitIntrinsic::RotateLeft || intrinsic
        == RustBitIntrinsic::RotateRight;
    if rotates {
        if args.len() != 2 {
            return Err(LowerError::OperandCount);
        }
        if let Err(e) = integer_bit_width(&args[1].ty) {
            return Err(e);
        }
    }
    let result_width: u32 = match integer_bit_width(ty) {
        Ok(w) => w,
        Err(e) => {
            return Err(e);
        },
    };
    if intrinsic == RustBitIntrinsic::Bswap && width == 8 {
        if result_width != 8 {
            return Err(LowerError::ByteSwapWidth);
        }
        let r = b.cast(CastKind::Bitcast, value, ty);
        proof {
            assert(b@ =~= old(b)@ + seq![OpView::cast(CastKind::Bitcast, *value, *ty)]);
        }
        return Ok(r);
    }
    let stem = bit_stem_str(intrinsic);
    let name = text::numbered(stem, width as u64);
    proof {
        text::lemma_numbered_identifier(stem@, width as nat);
    }
    let call_args: Vec<Value> = match intrinsic {
        RustBitIntrinsic::RotateLeft | RustBitIntrinsic::RotateRight => {
            let amount = match cast_integer_value_to_type(b, &args[1], &value.ty) {
                Ok(v) => v,
                Err(e) => {
                    return Err(e);
                },
            };
            vec![value.copy(), value.copy(), amount]
        },
        RustBitIntrinsic::Ctlz { zero_undef } | RustBitIntrinsic::Cttz { zero_undef } => {
            let flag = create_i1_constant(b, zero_undef);
            vec![value.copy(), flag]
        },
        _ => one_value(value),
    };
    let ghost prelude = bit_prelude(args@, intrinsic).unwrap();
    proof {
        assert(b@ =~= old(b)@ + prelude);
        assert(call_args@ =~= bit_args(old(b)@.len(), args@, intrinsic));
    }
    let ghost mid = b@;
    let signature = value_types(&call_args);
    let r = emit_resized_call(b, name.as_str(), signature, &value.ty, call_args, ty);
    proof {
        let call = resized_call(
            mid.len(),
            name@,
            signature@,
            value.ty,
            call_args@,
            *ty,
        ).unwrap();
        assert(b@ =~= old(b)@ + (prelude + call));
        assert((prelude + call).last() == call.last());
    }
    r
}

/// Emits the flag that tells whether a count of zeros may ignore zero.
fn create_i1_constant(b: &mut Builder, value: bool) -> (r: Value)
    ensures
        final(b)@ == old(b)@.push(
            OpView::int_of(
                if value {
                    1
                } else {
                    0
                },
                1,
            ),
        ),
        r == Value::at(old(b)@.len(), LlvmType::spec_int(1)),
{
    let bit: u64 = if value {
        1
    } else {
        0
    };
    b.constant(IntConst::from_u64(bit, 1))
}

/// The name of a saturating intrinsic, without the width.
pub open spec fn saturating_stem(signed: bool, intrinsic: RustSaturatingIntrinsic) -> Seq<char> {
    match (signed, intrinsic) {
        (true, RustSaturatingIntrinsic::Add) => "llvm_sadd_sat_i"@,
        (false, RustSaturatingIntrinsic::Add) => "llvm_uadd_sat_i"@,
        (true, RustSaturatingIntrinsic::Sub) => "llvm_ssub_sat_i"@,
        (false, RustSaturatingIntrinsic::Sub) => "llvm_usub_sat_i"@,
    }
}

fn saturating_stem_str(signed: bool, intrinsic: RustSaturatingIntrinsic) -> (s: &'static str)
    ensures
        s@ == saturating_stem(signed, intrinsic),
        text::is_identifier(s@),
{
    proof {
        reveal_strlit("llvm_sadd_sat_i");
        reveal_strlit("llvm_uadd_sat_i");
        reveal_strlit("llvm_ssub_sat_i");
        reveal_strlit("llvm_usub_sat_i");
    }
    match (signed, intrinsic) {
        (true, RustSaturatingIntrinsic::Add) => "llvm_sadd_sat_i",
        (false, RustSaturatingIntrinsic::Add) => "llvm_uadd_sat_i",
        (true, RustSaturatingIntrinsic::Sub) => "llvm_ssub_sat_i",
        (false, RustSaturatingIntrinsic::Sub) => "llvm_usub_sat_i",
    }
}

/// A saturating addition or subtraction. The second operand is brought to the
/// type of the first.
pub open spec fn saturating_ops(
    n: nat,
    operands: Seq<Operand>,
    results: nat,
    ty: LlvmType,
    intrinsic: RustSaturatingIntrinsic,
) -> Emitted {
    if results != 1 {
        Err(LowerError::ResultCount)
    } else if operands.len() != 2 {
        Err(LowerError::OperandCount)
    } else {
        let (lhs, rhs) = (operands[0].value, operands[1].value);
        match (
            lhs.ty.spec_int_width(),
            recorded_signedness(operands[0].history@),
            resize_ops(rhs, lhs.ty),
        ) {
            (Some(width), Some(s), Ok(prelude)) => match resized_call(
                (n + prelude.len()) as nat,
                saturating_stem(s == Signedness::Signed, intrinsic) + text::decimal(width as nat),
                seq![lhs.ty, lhs.ty],
                lhs.ty,
                seq![lhs, resized(n, rhs, lhs.ty)],
                ty,
            ) {
                Ok(call) => Ok(prelude + call),
                Err(e) => Err(e),
            },
            _ => Err(LowerError::ExpectedInteger),
        }
    }
}

/// Lowers a saturating addition or subtraction.
pub fn convert_rust_saturating_intrinsic(
    b: &mut Builder,
    operands: &Vec<Operand>,
    results: usize,
    ty: &LlvmType,
    intrinsic: RustSaturatingIntrinsic,
) -> (r: Result<Value, LowerError>)
    ensures
        emits(
            old(b)@,
            final(b)@,
            r,
            saturating_ops(old(b)@.len(), operands@, results as nat, *ty, intrinsic),
        ),
{
    if results != 1 {
        return Err(LowerError::ResultCount);
    }
    if operands.len() != 2 {
        return Err(LowerError::OperandCount);
    }
    let lhs = &operands[0].value;
    let rhs = &operands[1].value;
    let width: u32 = match integer_bit_width(&lhs.ty) {
        Ok(w) => w,
        Err(e) => {
            return Err(e);
        },
    };
    let signed: bool = match most_recent_signedness(&operands[0].history) {
        Some(s) => s == Signedness::Signed,
        None => {
            return Err(LowerError::ExpectedInteger);
        },
    };
    if rhs.ty.int_width().is_none() || ty.int_width().is_none() {
        return Err(LowerError::ExpectedInteger);
    }
    let second = match cast_integer_value_to_type(b, rhs, &lhs.ty) {
        Ok(v) => v,
        Err(e) => {
            return Err(e);
        },
    };
    let ghost prelude = resize_ops(*rhs, lhs.ty).unwrap();
    let ghost mid = b@;
    let stem = saturating_stem_str(signed, intrinsic);
    let name = text::numbered(stem, width as u64);
    proof {
        text::lemma_numbered_identifier(stem@, width as nat);
    }
    let signature: Vec<LlvmType> = vec![lhs.ty.copy(), lhs.ty.copy()];
    let args: Vec<Value> = vec![lhs.copy(), second];
    proof {
        assert(signature@ =~= seq![lhs.ty, lhs.ty]);
        assert(args@ =~= seq![*lhs, resized(old(b)@.len(), *rhs, lhs.ty)]);
    }
    let r = emit_resized_call(b, name.as_str(), signature, &lhs.ty, args, ty);
    proof {
        let call = resized_call(
            mid.len(),
            name@,
            seq![lhs.ty, lhs.ty],
            lhs.ty,
            args@,
            *ty,
        ).unwrap();
        assert(b@ =~= old(b)@ + (prelude + call));
        assert((prelude + call).last() == call.last());
    }
    r
}

/// Signedness of an exact division: that of the recorded integer type, else of
/// the live one.
pub open spec fn division_signedness(operand: Operand) -> Option<Signedness> {
    match recorded_signedness(operand.history@) {
        Some(s) => Some(s),
        None => match operand.value.ty {
            LlvmType::Integer(_, s) => Some(s),
            _ => None,
        },
    }
}

/// An exact division: a plain division by a divisor brought to the type of the
/// dividend.
pub open spec fn exact_div_ops(n: nat, operands: Seq<Operand>, results: nat) -> Emitted {
    if results != 1 {
        Err(LowerError::ResultCount)
    } else if operands.len() != 2 {
        Err(LowerError::OperandCount)
    } else {
        let (dividend, divisor) = (operands[0].value, operands[1].value);
        match (division_signedness(operands[0]), resize_ops(divisor, dividend.ty)) {
            (Some(s), Ok(prelude)) => Ok(
                prelude + seq![
                    OpView::binary(
                        if s == Signedness::Signed {
                            IntBinary::SDiv
                        } else {
                            IntBinary::UDiv
                        },
                        dividend,
                        resized(n, divisor, dividend.ty),
                    ),
                ],
            ),
            _ => Err(LowerError::ExpectedInteger),
        }
    }
}

/// Lowers an exact division.
pub fn convert_rust_exact_div(b: &mut Builder, operands: &Vec<Operand>, results: usize) -> (r:
    Result<Value, LowerError>)
    ensures
        emits(old(b)@, final(b)@, r, exact_div_ops(old(b)@.len(), operands@, results as nat)),
{
    if results != 1 {
        return Err(LowerError::ResultCount);
    }
    if operands.len() != 2 {
        return Err(LowerError::OperandCount);
    }
    let dividend = &operands[0].value;
    let divisor = &operands[1].value;
    let signed: bool = match most_recent_signedness(&operands[0].history) {
        Some(s) => s == Signedness::Signed,
        None => match &dividend.ty {
            LlvmType::Integer(_, s) => *s == Signedness::Signed,
            _ => {
                return Err(LowerError::ExpectedInteger);
            },
        },
    };
    let second = match cast_integer_value_to_type(b, divisor, &dividend.ty) {
        Ok(v) => v,
        Err(e) => {
            return Err(e);
        },
    };
    let op = if signed {
        IntBinary::SDiv
    } else {
        IntBinary::UDiv
    };
    let r = b.binary(op, dividend, &second);
    proof {
        assert(b@ =~= old(b)@ + exact_div_ops(
            old(b)@.len(),
            operands@,
            results as nat,
        ).unwrap());
    }
    Ok(r)
}

/// `a * b + c + d` in twice the width, split into a low and a high half.
pub open spec fn carrying_ops(
    n: nat,
    args: Seq<Value>,
    signed: bool,
    width: u32,
    ty: LlvmType,
) -> Seq<OpView> {
    let ext = if signed {
        CastKind::SExt
    } else {
        CastKind::ZExt
    };
    let elem = args[0].ty;
    let wide_width = (2 * width) as u32;
    let wide = LlvmType::spec_int(wide_width);
    let sum = Value::at(n + 6, wide);
    seq![
        OpView::cast(ext, args[0], wide),
        OpView::cast(ext, args[1], wide),
        OpView::cast(ext, args[2], wide),
        OpView::cast(ext, args[3], wide),
        OpView::binary(IntBinary::Mul, Value::at(n, wide), Value::at(n + 1, wide)),
        OpView::binary(IntBinary::Add, Value::at(n + 4, wide), Value::at(n + 2, wide)),
        OpView::binary(IntBinary::Add, Value::at(n + 5, wide), Value::at(n + 3, wide)),
        OpView::cast(CastKind::Trunc, sum, elem),
        OpView::int_of(width as int, wide_width),
        OpView::binary(IntBinary::LShr, sum, Value::at(n + 8, wide)),
        OpView::cast(CastKind::Trunc, Value::at(n + 9, wide), elem),
        OpView::undef(ty),
        OpView::insert(Value::at(n + 11, ty), Value::at(n + 7, elem), 0),
        OpView::insert(Value::at(n + 12, ty), Value::at(n + 10, elem), 1),
    ]
}

/// A multiplication with addend and carry.
pub open spec fn carrying_mul_add(
    n: nat,
    operands: Seq<Operand>,
    results: nat,
    ty: LlvmType,
) -> Emitted {
    if results != 1 {
        Err(LowerError::ResultCount)
    } else if operands.len() != 4 {
        Err(LowerError::OperandCount)
    } else {
        match operands[0].value.ty.spec_int_width() {
            None => Err(LowerError::ExpectedInteger),
            Some(width) => if width > 64 {
                Err(LowerError::WideCarryingMul)
            } else {
                match recorded_signedness(operands[0].history@) {
                    None => Err(LowerError::ExpectedInteger),
                    Some(s) => Ok(
                        carrying_ops(
                            n,
                            values_of(operands),
                            s == Signedness::Signed,
                            width,
                            ty,
                        ),
                    ),
                }
            },
        }
    }
}

/// Lowers a multiplication with addend and carry; the operands are multiplier,
/// multiplicand, addend and carry.
pub fn convert_rust_carrying_mul_add(
    b: &mut Builder,
    operands: &Vec<Operand>,
    results: usize,
    ty: &LlvmType,
) -> (r: Result<Value, LowerError>)
    requires
        operands@.len() > 0 ==> operands@[0].value.ty.spec_int_width() != Some(0u32),
    ensures
        emits(
            old(b)@,
            final(b)@,
            r,
            carrying_mul_add(old(b)@.len(), operands@, results as nat, *ty),
        ),
{
    if results != 1 {
        return Err(LowerError::ResultCount);
    }
    if operands.len() != 4 {
        return Err(LowerError::OperandCount);
    }
    let elem = &operands[0].value.ty;
    let width: u32 = match integer_bit_width(elem) {
        Ok(w) => w,
        Err(e) => {
            return Err(e);
        },
    };
    if width > 64 {
        return Err(LowerError::WideCarryingMul);
    }
    let signed: bool = match most_recent_signedness(&operands[0].history) {
        Some(s) => s == Signedness::Signed,
        None => {
            return Err(LowerError::ExpectedInteger);
        },
    };
    let ext = if signed {
        CastKind::SExt
    } else {
        CastKind::ZExt
    };
    let wide = LlvmType::int_type(2 * width);
    let wide_a = b.cast(ext, &operands[0].value, &wide);
    let wide_b = b.cast(ext, &operands[1].value, &wide);
    let wide_c = b.cast(ext, &operands[2].value, &wide);
    let wide_d = b.cast(ext, &operands[3].value, &wide);
    let product = b.binary(IntBinary::Mul, &wide_a, &wide_b);
    let sum_c = b.binary(IntBinary::Add, &product, &wide_c);
    let sum = b.binary(IntBinary::Add, &sum_c, &wide_d);
    let low = b.cast(CastKind::Trunc, &sum, elem);
    let amount = b.constant(IntConst::from_u64(width as u64, 2 * width));
    let shifted = b.binary(IntBinary::LShr, &sum, &amount);
    let high = b.cast(CastKind::Trunc, &shifted, elem);
    let empty = b.undef(ty);
    let with_low = b.insert(&empty, &low, 0);
    let r = b.insert(&with_low, &high, 1);
    proof {
        assert(b@ =~= old(b)@ + carrying_ops(
            old(b)@.len(),
            values_of(operands@),
            signed,
            width,
            *ty,
        ));
    }
    Ok(r)
}

pub open spec fn fast_binary(op: FastFloatBinop) -> FloatBinary {
    match op {
        FastFloatBinop::Add => FloatBinary::FAdd,
        FastFloatBinop::Sub => FloatBinary::FSub,
        FastFloatBinop::Mul => FloatBinary::FMul,
        FastFloatBinop::Div => FloatBinary::FDiv,
        FastFloatBinop::Rem => FloatBinary::FRem,
    }
}

/// Fast-math arithmetic.
pub open spec fn fast_ops(
    args: Seq<Value>,
    options: LoweringOptions,
    op: FastFloatBinop,
) -> Emitted {
    if args.len() != 2 {
        Err(LowerError::OperandCount)
    } else {
        Ok(seq![OpView::float_binary(fast_binary(op), fast_flags(options), args[0], args[1])])
    }
}

/// Lowers fast-math arithmetic.
pub fn lower_fast_binop(
    b: &mut Builder,
    args: &Vec<Value>,
    options: LoweringOptions,
    op: FastFloatBinop,
) -> (r: Result<Value, LowerError>)
    ensures
        emits(old(b)@, final(b)@, r, fast_ops(args@, options, op)),
{
    if args.len() != 2 {
        return Err(LowerError::OperandCount);
    }
    let float = match op {
        FastFloatBinop::Add => FloatBinary::FAdd,
        FastFloatBinop::Sub => FloatBinary::FSub,
        FastFloatBinop::Mul => FloatBinary::FMul,
        FastFloatBinop::Div => FloatBinary::FDiv,
        FastFloatBinop::Rem => FloatBinary::FRem,
    };
    let r = b.float_binary(float, fast_float_intrinsic_flags(options), &args[0], &args[1]);
    proof {
        assert(b@ =~= old(b)@ + fast_ops(args@, options, op).unwrap());
    }
    Ok(r)
}

/// A maximum or minimum that ignores a value that is not a number: the second
/// operand where the first is none or where it compares as asked, else the
/// first.
pub open spec fn minmax_ops(n: nat, args: Seq<Value>, pred: FloatPredicate) -> Emitted {
    if args.len() != 2 {
        Err(LowerError::OperandCount)
    } else {
        let (x, y) = (args[0], args[1]);
        let bool_ty = LlvmType::spec_bool();
        Ok(
            seq![
                OpView::float_compare(FloatPredicate::UNO, x, x),
                OpView::float_compare(pred, y, x),
                OpView::select(Value::at(n + 1, bool_ty), y, x),
                OpView::select(Value::at(n, bool_ty), y, Value::at(n + 2, y.ty)),
            ],
        )
    }
}

/// Lowers a maximum or minimum.
pub fn lower_float_minmax_nsz(b: &mut Builder, args: &Vec<Value>, pred: FloatPredicate) -> (r:
    Result<Value, LowerError>)
    ensures
        emits(old(b)@, final(b)@, r, minmax_ops(old(b)@.len(), args@, pred)),
{
    if args.len() != 2 {
        return Err(LowerError::OperandCount);
    }
    let x = &args[0];
    let y = &args[1];
    let x_is_nan = b.float_compare(FloatPredicate::UNO, x, x);
    let y_chosen = b.float_compare(pred, y, x);
    let ordered = b.select(&y_chosen, y, x);
    let r = b.select(&x_is_nan, y, &ordered);
    proof {
        assert(b@ =~= old(b)@ + minmax_ops(old(b)@.len(), args@, pred).unwrap());
    }
    Ok(r)
}

/// A floating-point intrinsic.
pub open spec fn float_math_ops(
    n: nat,
    args: Seq<Value>,
    results: nat,
    ty: LlvmType,
    options: LoweringOptions,
    intrinsic: RustFloatMathIntrinsic,
) -> Emitted {
    if results != 1 {
        Err(LowerError::ResultCount)
    } else if args.len() != intrinsic.spec_arg_count() {
        Err(LowerError::OperandCount)
    } else if intrinsic.spec_fast_binop() is Some {
        fast_ops(args, options, intrinsic.spec_fast_binop().unwrap())
    } else if intrinsic.spec_minmax_predicate() is Some {
        minmax_ops(n, args, intrinsic.spec_minmax_predicate().unwrap())
    } else {
        match math_symbol(options.intrinsic_backend, intrinsic, ty) {
            Ok(name) => Ok(intrinsic_call(name, types_of(args), ty, args)),
            Err(e) => Err(e),
        }
    }
}

/// Lowers a floating-point intrinsic; `ty` is the type of the result.
pub fn convert_rust_float_math_intrinsic(
    b: &mut Builder,
    args: &Vec<Value>,
    results: usize,
    ty: &LlvmType,
    options: LoweringOptions,
    intrinsic: RustFloatMathIntrinsic,
) -> (r: Result<Value, LowerError>)
    ensures
        emits(
            old(b)@,
            final(b)@,
            r,
            float_math_ops(old(b)@.len(), args@, results as nat, *ty, options, intrinsic),
        ),
{
    if results != 1 {
        return Err(LowerError::ResultCount);
    }
    if args.len() != intrinsic.arg_count() {
        return Err(LowerError::OperandCount);
    }
    if let Some(op) = intrinsic.fast_binop() {
        return lower_fast_binop(b, args, options, op);
    }
    if let Some(pred) = intrinsic.minmax_nsz_predicate() {
        return lower_float_minmax_nsz(b, args, pred);
    }
    let symbol = match float_math_intrinsic_symbol(options, intrinsic, ty) {
        Ok(s) => s,
        Err(e) => {
            return Err(e);
        },
    };
    proof {
        law_math_symbols(options.intrinsic_backend, intrinsic, *ty);
    }
    Ok(call_intrinsic(b, symbol, value_types(args), ty, copy_values(args)))
}

} // verus!
