//! Constants.

use mir_lower::constants::{
    convert_builtin_constant, convert_float, convert_integer, convert_undef, ConstantValue,
    TypedInt,
};
use mir_lower::ints::IntConst;
use mir_lower::llvm::{LlvmType, Signedness};
use mir_lower::lower::LowerError;
use mir_lower::ops::{Builder, OpCode};
use pliron::utils::apint::APInt;
use std::num::NonZeroUsize;

fn assert_i32_constant_lowers_to_signless(signedness: Signedness, value: IntConst) {
    let mut b = Builder::new();
    let r = convert_integer(&mut b, Some(TypedInt { value, signedness })).unwrap();
    assert_eq!(b.ops.len(), 1, "expected exactly one lowered constant");
    assert_eq!(r.ty, LlvmType::Integer(32, Signedness::Signless));
    assert_eq!(b.ops[0].ty, LlvmType::Integer(32, Signedness::Signless));
    assert_eq!(b.ops[0].code, OpCode::ConstInt(value));
}

#[test]
fn convert_integer_preserves_bits_and_makes_type_signless() {
    assert_i32_constant_lowers_to_signless(Signedness::Signed, IntConst::from_i64(-7, 32));
    assert_i32_constant_lowers_to_signless(Signedness::Unsigned, IntConst::from_u64(42, 32));
}

#[test]
fn convert_float_preserves_f32_attr() {
    let value = 1.25_f32;
    let mut b = Builder::new();
    let r = convert_float(&mut b, None, Some(value.to_bits()), None).unwrap();
    assert_eq!(b.ops.len(), 1, "expected exactly one lowered constant");
    assert_eq!(r.ty, LlvmType::Float);
    assert_eq!(b.ops[0].code, OpCode::ConstFloat(u64::from(value.to_bits())));
}

#[test]
fn convert_float_preserves_f64_attr() {
    let value = -2.5_f64;
    let mut b = Builder::new();
    let r = convert_float(&mut b, None, None, Some(value.to_bits())).unwrap();
    assert_eq!(b.ops.len(), 1, "expected exactly one lowered constant");
    assert_eq!(r.ty, LlvmType::Double);
    assert_eq!(b.ops[0].code, OpCode::ConstFloat(value.to_bits()));
}

#[test]
fn convert_f16_constant_rewrites_mir_attr_to_builtin_half_attr() {
    let bits = 0x3c00;
    let mut b = Builder::new();
    let r = convert_float(&mut b, Some(bits), None, None).unwrap();
    assert_eq!(b.ops.len(), 1, "expected exactly one lowered constant");
    assert_eq!(r.ty, LlvmType::Half);
    assert_eq!(b.ops[0].code, OpCode::ConstFloat(u64::from(bits)));
}

#[test]
fn constants_without_a_value_are_refused() {
    let mut b = Builder::new();
    assert_eq!(convert_integer(&mut b, None), Err(LowerError::MissingAttribute));
    assert_eq!(convert_float(&mut b, None, None, None), Err(LowerError::MissingAttribute));
    assert_eq!(
        convert_builtin_constant(&mut b, ConstantValue::Other),
        Err(LowerError::WrongType)
    );
    assert!(b.ops.is_empty());
}

#[test]
fn optimised_constants_lose_their_signedness() {
    let mut b = Builder::new();
    let value = IntConst::from_i64(-1, 16);
    let typed = TypedInt { value, signedness: Signedness::Signed };
    let r = convert_builtin_constant(&mut b, ConstantValue::Integer(typed)).unwrap();
    assert_eq!(r.ty, LlvmType::Integer(16, Signedness::Signless));
    assert_eq!(b.ops[0].code, OpCode::ConstInt(IntConst::from_u128(0xffff, 16)));
    let undef = convert_undef(&mut b, &LlvmType::Double);
    assert_eq!(undef.ty, LlvmType::Double);
    assert_eq!(b.ops[1].code, OpCode::Undef);
}

/// Constants hold the bits that arbitrary-precision integers hold.
#[test]
fn constants_agree_with_arbitrary_precision_integers() {
    for width in [1u32, 7, 8, 31, 32, 63, 64, 65, 127, 128] {
        let bw = NonZeroUsize::new(width as usize).unwrap();
        for value in [0i64, 1, -1, 2, -128, i64::MAX, i64::MIN] {
            assert_eq!(
                IntConst::from_i64(value, width).bits,
                APInt::from_i64(value, bw).to_u128()
            );
        }
        for value in [0u64, 1, 255, u64::MAX] {
            assert_eq!(
                IntConst::from_u64(value, width).bits,
                APInt::from_u64(value, bw).to_u128()
            );
        }
        for value in [0u128, 1, 1 << 100, u128::MAX] {
            assert_eq!(
                IntConst::from_u128(value, width).bits,
                APInt::from_u128(value, bw).to_u128()
            );
        }
    }
    assert_eq!(IntConst::from_i64(-1, 8).bits, 255);
    assert_eq!(IntConst::from_u64(256, 8).bits, 0);
    assert_eq!(IntConst::from_i64(-1, 200).bits, u128::MAX);
}

/// Above 128 bits a signed number fills up with its sign, an unsigned one with
/// zeros.
#[test]
fn wide_constants_are_extended() {
    assert!(IntConst::from_i64(-1, 200).ones_above);
    assert!(!IntConst::from_i64(1, 200).ones_above);
    assert!(!IntConst::from_i64(-1, 128).ones_above);
    for width in [129u32, 160, 192, 256] {
        let bw = NonZeroUsize::new(width as usize).unwrap();
        for value in [0, 1, 1 << 127, u128::MAX] {
            let c = IntConst::from_u128(value, width);
            assert_eq!((c.bits, c.ones_above), (value, false));
            assert_eq!(APInt::from_u128(value, bw).to_u128(), value);
        }
        assert_eq!(IntConst::from_u64(u64::MAX, width).bits, u128::from(u64::MAX));
    }
}
