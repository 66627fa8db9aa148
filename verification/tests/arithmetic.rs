//! Arithmetic, bitwise operations and comparisons.

use mir_lower::arithmetic::{
    convert_bitxor, convert_checked_add, convert_checked_mul, convert_checked_sub, convert_cmp,
    convert_div, convert_neg, convert_not, convert_rem, convert_shl, convert_shr,
    convert_three_way_cmp, OrderEnum,
};
use mir_lower::dispatch::{convert_binary, Comparison, MirBinary};
use mir_lower::ints::IntConst;
use mir_lower::llvm::{FieldTypes, LlvmType, Signedness};
use mir_lower::lower::{has_pointer, most_recent_signedness, LowerError, Operand};
use mir_lower::mir::{EnumType, MirType};
use mir_lower::ops::{
    Builder, CastKind, Def, FastMath, FloatBinary, FloatPredicate, IntBinary, IntPredicate,
    OpCode, Value,
};

fn integer(width: u32) -> LlvmType {
    LlvmType::Integer(width, Signedness::Signless)
}

fn record(types: Vec<LlvmType>) -> LlvmType {
    LlvmType::Struct(Box::new(FieldTypes::of(types)), false)
}

fn arg(n: u64, ty: LlvmType) -> Value {
    Value { def: Def::Argument(n), ty }
}

fn operand(n: u64, width: u32, signedness: Signedness) -> Operand {
    Operand { value: arg(n, integer(width)), history: vec![MirType::Integer(width, signedness)] }
}

fn pair(width: u32, signedness: Signedness) -> Vec<Operand> {
    vec![operand(0, width, signedness), operand(1, width, signedness)]
}

fn floats() -> Vec<Operand> {
    (0..2).map(|n| Operand { value: arg(n, LlvmType::Float), history: vec![] }).collect()
}

fn mask(v: u128, width: u32) -> u128 {
    if width < 128 { v & ((1 << width) - 1) } else { v }
}

fn sign_extended(v: u128, width: u32) -> i128 {
    ((v << (128 - width)) as i128) >> (128 - width)
}

fn width_of(ty: &LlvmType) -> u32 {
    match ty {
        LlvmType::Integer(width, _) => *width,
        other => panic!("integer expected: {other:?}"),
    }
}

/// Runs integer operations on the given arguments, and returns the last result.
fn run(b: &Builder, arguments: &[u128]) -> u128 {
    let mut data: Vec<u128> = Vec::new();
    for op in &b.ops {
        let at = |i: usize| match op.operands[i].def {
            Def::Argument(n) => arguments[n as usize],
            Def::Result(n) => data[n],
        };
        let signed_at = |i: usize| sign_extended(at(i), width_of(&op.operands[i].ty));
        let computed = match &op.code {
            OpCode::ConstInt(c) => c.bits,
            OpCode::Int(kind) => {
                let width = width_of(&op.ty);
                let full = match kind {
                    IntBinary::Add => at(0).wrapping_add(at(1)),
                    IntBinary::Sub => at(0).wrapping_sub(at(1)),
                    IntBinary::Mul => at(0).wrapping_mul(at(1)),
                    IntBinary::UDiv => at(0) / at(1),
                    IntBinary::URem => at(0) % at(1),
                    IntBinary::SDiv => (signed_at(0) / signed_at(1)) as u128,
                    IntBinary::SRem => (signed_at(0) % signed_at(1)) as u128,
                    IntBinary::Shl => at(0) << at(1),
                    IntBinary::LShr => at(0) >> at(1),
                    IntBinary::AShr => (signed_at(0) >> at(1)) as u128,
                    IntBinary::And => at(0) & at(1),
                    IntBinary::Or => at(0) | at(1),
                    IntBinary::Xor => at(0) ^ at(1),
                };
                mask(full, width)
            }
            OpCode::IntCompare(pred) => u128::from(match pred {
                IntPredicate::EQ => at(0) == at(1),
                IntPredicate::NE => at(0) != at(1),
                IntPredicate::ULT => at(0) < at(1),
                IntPredicate::ULE => at(0) <= at(1),
                IntPredicate::UGT => at(0) > at(1),
                IntPredicate::UGE => at(0) >= at(1),
                IntPredicate::SLT => signed_at(0) < signed_at(1),
                IntPredicate::SLE => signed_at(0) <= signed_at(1),
                IntPredicate::SGT => signed_at(0) > signed_at(1),
                IntPredicate::SGE => signed_at(0) >= signed_at(1),
            }),
            OpCode::Cast(CastKind::Trunc) => mask(at(0), width_of(&op.ty)),
            OpCode::Cast(CastKind::ZExt) => at(0),
            OpCode::Cast(CastKind::SExt) => mask(signed_at(0) as u128, width_of(&op.ty)),
            OpCode::Select => at(if at(0) == 1 { 1 } else { 2 }),
            OpCode::Undef => 0,
            OpCode::InsertValue => at(1),
            other => panic!("unexpected operation: {other:?}"),
        };
        data.push(computed);
    }
    *data.last().unwrap()
}

fn lowered(op: MirBinary, operands: &Vec<Operand>) -> Builder {
    let mut b = Builder::new();
    convert_binary(&mut b, op, operands).unwrap();
    b
}

#[test]
fn floats_and_integers_take_their_own_operations() {
    for (op, float, int_op) in [
        (MirBinary::Add, FloatBinary::FAdd, IntBinary::Add),
        (MirBinary::Sub, FloatBinary::FSub, IntBinary::Sub),
        (MirBinary::Mul, FloatBinary::FMul, IntBinary::Mul),
        (MirBinary::Div, FloatBinary::FDiv, IntBinary::SDiv),
        (MirBinary::Rem, FloatBinary::FRem, IntBinary::SRem),
    ] {
        let b = lowered(op, &floats());
        assert_eq!(b.ops[0].code, OpCode::Float(float, FastMath::empty()));
        let b = lowered(op, &pair(32, Signedness::Signed));
        assert_eq!(b.ops[0].code, OpCode::Int(int_op));
        assert_eq!(b.ops.len(), 1);
    }
}

#[test]
fn division_follows_the_signedness() {
    let mut b = Builder::new();
    convert_div(&mut b, &pair(32, Signedness::Unsigned)).unwrap();
    convert_rem(&mut b, &pair(32, Signedness::Unsigned)).unwrap();
    assert_eq!(b.ops[0].code, OpCode::Int(IntBinary::UDiv));
    assert_eq!(b.ops[1].code, OpCode::Int(IntBinary::URem));
    let pointer = || Operand {
        value: arg(0, integer(64)),
        history: vec![MirType::Pointer(Box::new(MirType::Float), false, 0)],
    };
    convert_div(&mut b, &vec![pointer(), pointer()]).unwrap();
    assert_eq!(b.ops[2].code, OpCode::Int(IntBinary::UDiv));
    let unknown = || Operand { value: arg(0, integer(64)), history: vec![] };
    assert_eq!(
        convert_div(&mut b, &vec![unknown(), unknown()]),
        Err(LowerError::NotIntegerOrPointer)
    );
    assert_eq!(convert_div(&mut b, &vec![]), Err(LowerError::OperandCount));
    assert_eq!(b.ops.len(), 3);
}

#[test]
fn signedness_is_that_of_the_most_recent_integer() {
    let history = vec![
        MirType::Integer(8, Signedness::Signed),
        MirType::Integer(8, Signedness::Unsigned),
        MirType::Float,
    ];
    assert_eq!(most_recent_signedness(&history), Some(Signedness::Unsigned));
    assert_eq!(most_recent_signedness(&vec![MirType::Float]), None);
    assert!(!has_pointer(&history));
    assert!(has_pointer(&vec![MirType::Pointer(Box::new(MirType::Half), true, 3)]));
}

/// A shift takes its amount modulo the width.
#[test]
fn shift_amounts_wrap_at_the_width() {
    for (width, amount_width) in [(8u32, 32u32), (32, 32), (64, 32), (16, 64)] {
        let operands =
            vec![operand(0, width, Signedness::Unsigned), operand(1, amount_width, Signedness::Unsigned)];
        let mut left = Builder::new();
        convert_shl(&mut left, &operands).unwrap();
        let mut right = Builder::new();
        convert_shr(&mut right, &operands).unwrap();
        for amount in [0u128, 1, u128::from(width) - 1, u128::from(width), u128::from(width) + 3] {
            let reduced = amount % u128::from(width);
            let value = mask(0xdead_beef_cafe_f00d, width);
            assert_eq!(run(&left, &[value, amount]), mask(value << reduced, width));
            assert_eq!(run(&right, &[value, amount]), value >> reduced);
        }
    }
    let mut b = Builder::new();
    convert_shr(&mut b, &pair(8, Signedness::Signed)).unwrap();
    assert_eq!(run(&b, &[0x80, 9]), 0xc0);
    assert_eq!(b.ops[0].code, OpCode::ConstInt(IntConst::from_u128(7, 8)));
}

#[test]
fn shifts_need_integers() {
    let mut b = Builder::new();
    let mixed = |value: LlvmType, amount: LlvmType| {
        vec![
            Operand {
                value: arg(0, value),
                history: vec![MirType::Integer(32, Signedness::Signed)],
            },
            Operand { value: arg(1, amount), history: vec![] },
        ]
    };
    assert_eq!(
        convert_shl(&mut b, &mixed(LlvmType::Float, integer(32))),
        Err(LowerError::ShiftValue)
    );
    assert_eq!(
        convert_shr(&mut b, &mixed(integer(32), LlvmType::Float)),
        Err(LowerError::ShiftAmount)
    );
    assert_eq!(convert_shl(&mut b, &vec![]), Err(LowerError::OperandCount));
    assert!(b.ops.is_empty());
}

#[test]
fn negation_and_complement() {
    let mut b = Builder::new();
    convert_neg(&mut b, &arg(0, integer(16))).unwrap();
    assert_eq!(run(&b, &[1]), 0xffff);
    assert_eq!(run(&b, &[0x8000]), 0x8000);
    let mut b = Builder::new();
    convert_not(&mut b, &arg(0, integer(8))).unwrap();
    assert_eq!(run(&b, &[0b1010_0101]), 0b0101_1010);
    let mut b = Builder::new();
    convert_not(&mut b, &arg(0, integer(1))).unwrap();
    assert_eq!((run(&b, &[0]), run(&b, &[1])), (1, 0));
    let mut b = Builder::new();
    convert_neg(&mut b, &arg(0, LlvmType::Double)).unwrap();
    assert_eq!(b.ops[0].code, OpCode::FNeg(FastMath::empty()));
    assert_eq!(convert_neg(&mut b, &arg(0, LlvmType::Pointer(0))), Err(LowerError::NegOperand));
    assert_eq!(convert_not(&mut b, &arg(0, LlvmType::Float)), Err(LowerError::NotOperand));
}

#[test]
fn bitwise_operations_keep_their_operands() {
    let values = pair(8, Signedness::Unsigned);
    for (op, expected) in
        [(MirBinary::BitAnd, 0x30), (MirBinary::BitOr, 0xfc), (MirBinary::BitXor, 0xcc)]
    {
        assert_eq!(run(&lowered(op, &values), &[0xf0, 0x3c]), expected);
    }
    let mut b = Builder::new();
    assert_eq!(convert_bitxor(&mut b, &vec![]), Err(LowerError::OperandCount));
}

/// Each comparison of integers tells what it says it tells.
#[test]
fn comparisons_compare() {
    let cases = [
        (Comparison::Lt, FloatPredicate::OLT),
        (Comparison::Le, FloatPredicate::OLE),
        (Comparison::Gt, FloatPredicate::OGT),
        (Comparison::Ge, FloatPredicate::OGE),
        (Comparison::Eq, FloatPredicate::OEQ),
        (Comparison::Ne, FloatPredicate::UNE),
    ];
    for (comparison, float) in cases {
        let b = lowered(MirBinary::Compare(comparison), &floats());
        assert_eq!(b.ops[0].code, OpCode::FloatCompare(float, FastMath::empty()));
        for signedness in [Signedness::Signed, Signedness::Unsigned] {
            let b = lowered(MirBinary::Compare(comparison), &pair(8, signedness));
            for (x, y) in [(0u128, 0u128), (1, 2), (2, 1), (255, 1), (1, 255), (128, 127)] {
                let read = |v: u128| {
                    if signedness == Signedness::Signed { sign_extended(v, 8) } else { v as i128 }
                };
                let expected = match comparison {
                    Comparison::Lt => read(x) < read(y),
                    Comparison::Le => read(x) <= read(y),
                    Comparison::Gt => read(x) > read(y),
                    Comparison::Ge => read(x) >= read(y),
                    Comparison::Eq => x == y,
                    Comparison::Ne => x != y,
                };
                assert_eq!(run(&b, &[x, y]), u128::from(expected));
            }
        }
    }
    let mut b = Builder::new();
    assert_eq!(
        convert_cmp(&mut b, &vec![], Comparison::Lt.predicates()),
        Err(LowerError::OperandCount)
    );
}

fn order_enum(discriminants: Vec<u64>) -> OrderEnum {
    OrderEnum {
        mir: MirType::Enum(Box::new(EnumType {
            name: "Ordering".to_string(),
            discriminant: MirType::Integer(8, Signedness::Signed),
            variant_discriminants: discriminants,
            variants: vec![],
            tag_offset: 0,
            total_size: 1,
            abi_align: 1,
        })),
        ty: record(vec![integer(8)]),
        discriminant: integer(8),
        tag_slot: 0,
    }
}

/// The tag is the declared discriminant of less, equal or greater.
#[test]
fn three_way_comparison_selects_the_discriminant() {
    let result = order_enum(vec![255, 0, 1]);
    let mut signed = Builder::new();
    convert_three_way_cmp(&mut signed, &pair(8, Signedness::Signed), &result).unwrap();
    let mut unsigned = Builder::new();
    convert_three_way_cmp(&mut unsigned, &pair(8, Signedness::Unsigned), &result).unwrap();
    assert_eq!(run(&signed, &[255, 1]), 255);
    assert_eq!(run(&unsigned, &[255, 1]), 1);
    assert_eq!(run(&signed, &[7, 7]), 0);
    assert_eq!(run(&unsigned, &[1, 2]), 255);
    assert_eq!(unsigned.ops.last().unwrap().ty, record(vec![integer(8)]));
}

#[test]
fn three_way_comparison_needs_an_enum_of_three() {
    let mut b = Builder::new();
    let signed = pair(8, Signedness::Signed);
    let mut compare = |operands: &Vec<Operand>, result: OrderEnum| {
        convert_three_way_cmp(&mut b, operands, &result)
    };
    let good = || order_enum(vec![255, 0, 1]);
    assert_eq!(compare(&floats(), good()), Err(LowerError::FloatThreeWay));
    assert_eq!(compare(&vec![], good()), Err(LowerError::OperandCount));
    assert_eq!(compare(&signed, order_enum(vec![0, 1])), Err(LowerError::ThreeWayResult));
    let not_enum = OrderEnum { mir: MirType::Float, ..good() };
    assert_eq!(compare(&signed, not_enum), Err(LowerError::ThreeWayResult));
    let float_tag = OrderEnum { discriminant: LlvmType::Float, ..good() };
    assert_eq!(compare(&signed, float_tag), Err(LowerError::DiscriminantType));
    assert!(b.ops.is_empty());
}

/// Checked arithmetic pairs the wrapped result with a flag that is never set.
#[test]
fn checked_arithmetic_never_reports_overflow() {
    let result = record(vec![integer(8), integer(1)]);
    let operands = pair(8, Signedness::Unsigned);
    for (code, expected) in
        [(IntBinary::Add, 44u128), (IntBinary::Sub, 100), (IntBinary::Mul, 32)]
    {
        let mut b = Builder::new();
        let r = match code {
            IntBinary::Add => convert_checked_add(&mut b, &operands, &result),
            IntBinary::Sub => convert_checked_sub(&mut b, &operands, &result),
            _ => convert_checked_mul(&mut b, &operands, &result),
        };
        assert_eq!(r.unwrap().ty, record(vec![integer(8), integer(1)]));
        assert_eq!(b.ops[0].code, OpCode::Int(code));
        assert_eq!(b.ops[1].code, OpCode::ConstInt(IntConst::from_u128(0, 1)));
        assert_eq!(run(&b, &[200, 100]), 0, "the flag is inserted last");
        b.ops.truncate(1);
        assert_eq!(run(&b, &[200, 100]), expected);
    }
    let mut b = Builder::new();
    assert_eq!(
        convert_checked_add(&mut b, &vec![], &result),
        Err(LowerError::OperandCount)
    );
}
