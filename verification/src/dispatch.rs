//! Which lowering belongs to which binary operation.

use crate::arithmetic::{
    bitwise, comparison, convert_add, convert_bitand, convert_bitor, convert_bitxor, convert_cmp,
    convert_div, convert_mul, convert_rem, convert_shl, convert_shr, convert_sub, plain_binary,
    shift_ops, shr_ops, signed_binary, Predicates,
};
use crate::lower::{emits, Emitted, LowerError, Operand};
use crate::ops::{Builder, FloatBinary, FloatPredicate, IntBinary, IntPredicate, Value};
use vstd::prelude::*;

verus! {

/// A comparison of two values.
#[derive(Clone, Copy, PartialEq, Eq, Structural, Debug)]
pub enum Comparison {
    Lt,
    Le,
    Gt,
    Ge,
    Eq,
    Ne,
}

impl Comparison {
    /// The predicates for signed integers, unsigned integers and floats. A
    /// value that is not a number is unequal to everything, and neither less
    /// nor greater than anything.
    pub open spec fn spec_predicates(self) -> Predicates {
        match self {
            Comparison::Lt => Predicates {
                signed: IntPredicate::SLT,
                unsigned: IntPredicate::ULT,
                float: FloatPredicate::OLT,
            },
            Comparison::Le => Predicates {
                signed: IntPredicate::SLE,
                unsigned: IntPredicate::ULE,
                float: FloatPredicate::OLE,
            },
            Comparison::Gt => Predicates {
                signed: IntPredicate::SGT,
                unsigned: IntPredicate::UGT,
                float: FloatPredicate::OGT,
            },
            Comparison::Ge => Predicates {
                signed: IntPredicate::SGE,
                unsigned: IntPredicate::UGE,
                float: FloatPredicate::OGE,
            },
            Comparison::Eq => Predicates {
                signed: IntPredicate::EQ,
                unsigned: IntPredicate::EQ,
                float: FloatPredicate::OEQ,
            },
            Comparison::Ne => Predicates {
                signed: IntPredicate::NE,
                unsigned: IntPredicate::NE,
                float: FloatPredicate::UNE,
            },
        }
    }

    pub fn predicates(self) -> (p: Predicates)
        ensures
            p == self.spec_predicates(),
    {
        match self {
            Comparison::Lt => Predicates {
                signed: IntPredicate::SLT,
                unsigned: IntPredicate::ULT,
                float: FloatPredicate::OLT,
            },
            Comparison::Le => Predicates {
                signed: IntPredicate::SLE,
                unsigned: IntPredicate::ULE,
                float: FloatPredicate::OLE,
            },
            Comparison::Gt => Predicates {
                signed: IntPredicate::SGT,
                unsigned: IntPredicate::UGT,
                float: FloatPredicate::OGT,
            },
            Comparison::Ge => Predicates {
                signed: IntPredicate::SGE,
                unsigned: IntPredicate::UGE,
                float: FloatPredicate::OGE,
            },
            Comparison::Eq => Predicates {
                signed: IntPredicate::EQ,
                unsigned: IntPredicate::EQ,
                float: FloatPredicate::OEQ,
            },
            Comparison::Ne => Predicates {
                signed: IntPredicate::NE,
                unsigned: IntPredicate::NE,
                float: FloatPredicate::UNE,
            },
        }
    }
}

/// A binary operation.
#[derive(Clone, Copy, PartialEq, Eq, Structural, Debug)]
pub enum MirBinary {
    Add,
    Sub,
    Mul,
    Div,
    Rem,
    Shr,
    Shl,
    BitAnd,
    BitOr,
    BitXor,
    Compare(Comparison),
}

/// What a binary operation is lowered to.
pub open spec fn binary_ops(n: nat, op: MirBinary, operands: Seq<Operand>) -> Emitted {
    match op {
        MirBinary::Add => plain_binary(operands, FloatBinary::FAdd, IntBinary::Add),
        MirBinary::Sub => plain_binary(operands, FloatBinary::FSub, IntBinary::Sub),
        MirBinary::Mul => plain_binary(operands, FloatBinary::FMul, IntBinary::Mul),
        MirBinary::Div => signed_binary(
            operands,
            FloatBinary::FDiv,
            IntBinary::SDiv,
            IntBinary::UDiv,
        ),
        MirBinary::Rem => signed_binary(
            operands,
            FloatBinary::FRem,
            IntBinary::SRem,
            IntBinary::URem,
        ),
        MirBinary::Shr => shr_ops(n, operands),
        MirBinary::Shl => shift_ops(n, operands, IntBinary::Shl),
        MirBinary::BitAnd => bitwise(operands, IntBinary::And),
        MirBinary::BitOr => bitwise(operands, IntBinary::Or),
        MirBinary::BitXor => bitwise(operands, IntBinary::Xor),
        MirBinary::Compare(c) => comparison(operands, c.spec_predicates()),
    }
}

/// Lowers a binary operation.
pub fn convert_binary(b: &mut Builder, op: MirBinary, operands: &Vec<Operand>) -> (r: Result<
    Value,
    LowerError,
>)
    requires
        op == MirBinary::Shr ==> operands@.len() > 0,
        op == MirBinary::Shr || op == MirBinary::Shl ==> operands@.len() > 0
            ==> operands@[0].value.ty.spec_int_width() != Some(0u32),
    ensures
        emits(old(b)@, final(b)@, r, binary_ops(old(b)@.len(), op, operands@)),
{
    match op {
        MirBinary::Add => convert_add(b, operands),
        MirBinary::Sub => convert_sub(b, operands),
        MirBinary::Mul => convert_mul(b, operands),
        MirBinary::Div => convert_div(b, operands),
        MirBinary::Rem => convert_rem(b, operands),
        MirBinary::Shr => convert_shr(b, operands),
        MirBinary::Shl => convert_shl(b, operands),
        MirBinary::BitAnd => convert_bitand(b, operands),
        MirBinary::BitOr => convert_bitor(b, operands),
        MirBinary::BitXor => convert_bitxor(b, operands),
        MirBinary::Compare(c) => convert_cmp(b, operands, c.predicates()),
    }
}

} // verus!
