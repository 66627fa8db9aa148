//! Constants.

use crate::ints::IntConst;
use crate::llvm::{LlvmType, Signedness};
use crate::lower::{emits, Emitted, LowerError};
use crate::ops::{Builder, Op, OpCode, OpView, Value};
use vstd::prelude::*;

verus! {

/// An integer constant with its MIR type.
#[derive(Clone, Copy, PartialEq, Eq, Structural, Debug)]
pub struct TypedInt {
    pub value: IntConst,
    pub signedness: Signedness,
}

/// The value attribute of a constant.
#[derive(Clone, Copy, PartialEq, Eq, Structural, Debug)]
pub enum ConstantValue {
    Integer(TypedInt),
    Other,
}

/// A floating-point constant, by width and bit pattern.
#[derive(Clone, Copy, PartialEq, Eq, Structural, Debug)]
pub enum FloatBits {
    F16(u16),
    F32(u32),
    F64(u64),
}

/// An integer constant: bits and width stay, the signedness goes.
pub open spec fn integer_ops(value: Option<TypedInt>) -> Emitted {
    match value {
        None => Err(LowerError::MissingAttribute),
        Some(c) => Ok(seq![OpView::constant(c.value)]),
    }
}

/// Lowers an integer constant.
pub fn convert_integer(b: &mut Builder, value: Option<TypedInt>) -> (r: Result<Value, LowerError>)
    ensures
        emits(old(b)@, final(b)@, r, integer_ops(value)),
{
    match value {
        None => Err(LowerError::MissingAttribute),
        Some(c) => {
            let r = b.constant(c.value);
            proof {
                assert(b@ =~= old(b)@ + integer_ops(value).unwrap());
            }
            Ok(r)
        },
    }
}

/// A constant that an optimisation made: an integer as in [`integer_ops`].
pub open spec fn builtin_ops(value: ConstantValue) -> Emitted {
    match value {
        ConstantValue::Integer(c) => Ok(seq![OpView::constant(c.value)]),
        ConstantValue::Other => Err(LowerError::WrongType),
    }
}

/// Lowers a constant that an optimisation made.
pub fn convert_builtin_constant(b: &mut Builder, value: ConstantValue) -> (r: Result<
    Value,
    LowerError,
>)
    ensures
        emits(old(b)@, final(b)@, r, builtin_ops(value)),
{
    match value {
        ConstantValue::Integer(c) => {
            let r = b.constant(c.value);
            proof {
                assert(b@ =~= old(b)@ + builtin_ops(value).unwrap());
            }
            Ok(r)
        },
        ConstantValue::Other => Err(LowerError::WrongType),
    }
}

/// Type and bits of a float.
pub open spec fn float_parts(value: FloatBits) -> (LlvmType, u64) {
    match value {
        FloatBits::F16(bits) => (LlvmType::Half, bits as u64),
        FloatBits::F32(bits) => (LlvmType::Float, bits as u64),
        FloatBits::F64(bits) => (LlvmType::Double, bits),
    }
}

/// A floating-point constant: the half-precision attribute counts first, the
/// double-precision one last.
pub open spec fn float_ops(half: Option<u16>, single: Option<u32>, double: Option<u64>) -> Emitted {
    let value = match (half, single, double) {
        (Some(bits), _, _) => Some(FloatBits::F16(bits)),
        (None, Some(bits), _) => Some(FloatBits::F32(bits)),
        (None, None, Some(bits)) => Some(FloatBits::F64(bits)),
        (None, None, None) => None,
    };
    match value {
        None => Err(LowerError::MissingAttribute),
        Some(v) => {
            let (ty, bits) = float_parts(v);
            Ok(seq![OpView::plain(OpCode::ConstFloat(bits), ty, Seq::empty())])
        },
    }
}

/// Lowers a floating-point constant, given by the attributes that it has.
pub fn convert_float(
    b: &mut Builder,
    half: Option<u16>,
    single: Option<u32>,
    double: Option<u64>,
) -> (r: Result<Value, LowerError>)
    ensures
        emits(old(b)@, final(b)@, r, float_ops(half, single, double)),
{
    let value: FloatBits = if let Some(bits) = half {
        FloatBits::F16(bits)
    } else if let Some(bits) = single {
        FloatBits::F32(bits)
    } else if let Some(bits) = double {
        FloatBits::F64(bits)
    } else {
        return Err(LowerError::MissingAttribute);
    };
    let (ty, bits): (LlvmType, u64) = match value {
        FloatBits::F16(bits) => (LlvmType::Half, bits as u64),
        FloatBits::F32(bits) => (LlvmType::Float, bits as u64),
        FloatBits::F64(bits) => (LlvmType::Double, bits),
    };
    let r = b.emit(
        Op {
            code: OpCode::ConstFloat(bits),
            ty,
            operands: Vec::new(),
            indices: Vec::new(),
            symbol: String::new(),
            constraints: String::new(),
            signature: Vec::new(),
            align: None,
        },
    );
    proof {
        assert(b@ =~= old(b)@ + float_ops(half, single, double).unwrap());
    }
    Ok(r)
}

/// Lowers an arbitrary value of the converted type.
pub fn convert_undef(b: &mut Builder, ty: &LlvmType) -> (r: Value)
    ensures
        final(b)@ == old(b)@.push(OpView::undef(*ty)),
        r == Value::at(old(b)@.len(), *ty),
{
    b.undef(ty)
}

} // verus!
