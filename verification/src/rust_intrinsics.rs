//! The Rust intrinsics that calls stand in for, and the symbols they lower to.

use crate::llvm::LlvmType;
use crate::lower::LowerError;
use crate::ops::{FastMath, FloatPredicate};
use crate::text;
use vstd::prelude::*;

verus! {

/// A call that stands for a Rust intrinsic.
#[derive(Clone, Copy, PartialEq, Eq, Structural, Debug)]
pub enum Placeholder {
    RotateLeft,
    RotateRight,
    Ctpop,
    Ctlz,
    CtlzNonzero,
    Cttz,
    CttzNonzero,
    Bswap,
    Bitreverse,
    SaturatingAdd,
    SaturatingSub,
    ExactDiv,
    CarryingMulAdd,
    SelectUnpredictable,
    SqrtF32,
    SqrtF64,
    PowiF32,
    PowiF64,
    SinF32,
    SinF64,
    CosF32,
    CosF64,
    TanF32,
    TanF64,
    PowfF32,
    PowfF64,
    ExpF32,
    ExpF64,
    Exp2F32,
    Exp2F64,
    LogF32,
    LogF64,
    Log2F32,
    Log2F64,
    Log10F32,
    Log10F64,
    FmaF32,
    FmaF64,
    FmuladdF32,
    FmuladdF64,
    FloorF32,
    FloorF64,
    CeilF32,
    CeilF64,
    TruncF32,
    TruncF64,
    RoundF32,
    RoundF64,
    RoundevenF32,
    RoundevenF64,
    Fabs,
    CopysignF32,
    CopysignF64,
    MaxNumNszF32,
    MaxNumNszF64,
    MinNumNszF32,
    MinNumNszF64,
    AsinF32,
    AsinF64,
    AcosF32,
    AcosF64,
    Atan2F32,
    Atan2F64,
    AtanF32,
    AtanF64,
    CbrtF32,
    CbrtF64,
    SinhF32,
    SinhF64,
    CoshF32,
    CoshF64,
    TanhF32,
    TanhF64,
    AsinhF32,
    AsinhF64,
    AcoshF32,
    AcoshF64,
    AtanhF32,
    AtanhF64,
    Expm1F32,
    Expm1F64,
    Log1pF32,
    Log1pF64,
    HypotF32,
    HypotF64,
    FaddFast,
    FsubFast,
    FmulFast,
    FdivFast,
    FremFast,
}

/// What a call names: a placeholder, or a function. A device function declared
/// elsewhere carries the symbol that it has there.
#[derive(PartialEq, Eq, Debug)]
pub enum Callee {
    Intrinsic(Placeholder),
    Function { name: String, base_name: Option<String> },
}

/// An integer intrinsic on bits.
#[derive(Clone, Copy, PartialEq, Eq, Structural, Debug)]
pub enum RustBitIntrinsic {
    RotateLeft,
    RotateRight,
    Ctpop,
    Ctlz { zero_undef: bool },
    Cttz { zero_undef: bool },
    Bswap,
    Bitreverse,
}

impl RustBitIntrinsic {
    /// The placeholder that stands for the intrinsic.
    pub open spec fn placeholder(self) -> Placeholder {
        match self {
            RustBitIntrinsic::RotateLeft => Placeholder::RotateLeft,
            RustBitIntrinsic::RotateRight => Placeholder::RotateRight,
            RustBitIntrinsic::Ctpop => Placeholder::Ctpop,
            RustBitIntrinsic::Ctlz { zero_undef } => if zero_undef {
                Placeholder::CtlzNonzero
            } else {
                Placeholder::Ctlz
            },
            RustBitIntrinsic::Cttz { zero_undef } => if zero_undef {
                Placeholder::CttzNonzero
            } else {
                Placeholder::Cttz
            },
            RustBitIntrinsic::Bswap => Placeholder::Bswap,
            RustBitIntrinsic::Bitreverse => Placeholder::Bitreverse,
        }
    }

    /// The intrinsic that a placeholder stands for.
    pub open spec fn of_placeholder(p: Placeholder) -> Option<RustBitIntrinsic> {
        match p {
            Placeholder::RotateLeft => Some(RustBitIntrinsic::RotateLeft),
            Placeholder::RotateRight => Some(RustBitIntrinsic::RotateRight),
            Placeholder::Ctpop => Some(RustBitIntrinsic::Ctpop),
            Placeholder::Ctlz => Some(RustBitIntrinsic::Ctlz { zero_undef: false }),
            Placeholder::CtlzNonzero => Some(RustBitIntrinsic::Ctlz { zero_undef: true }),
            Placeholder::Cttz => Some(RustBitIntrinsic::Cttz { zero_undef: false }),
            Placeholder::CttzNonzero => Some(RustBitIntrinsic::Cttz { zero_undef: true }),
            Placeholder::Bswap => Some(RustBitIntrinsic::Bswap),
            Placeholder::Bitreverse => Some(RustBitIntrinsic::Bitreverse),
            _ => None,
        }
    }

    /// The intrinsic that a callee stands for.
    pub fn from_placeholder_callee(callee: &Callee) -> (r: Option<RustBitIntrinsic>)
        ensures
            r == match *callee {
                Callee::Intrinsic(p) => RustBitIntrinsic::of_placeholder(p),
                Callee::Function { .. } => None,
            },
    {
        match callee {
            Callee::Intrinsic(p) => match p {
                Placeholder::RotateLeft => Some(RustBitIntrinsic::RotateLeft),
                Placeholder::RotateRight => Some(RustBitIntrinsic::RotateRight),
                Placeholder::Ctpop => Some(RustBitIntrinsic::Ctpop),
                Placeholder::Ctlz => Some(RustBitIntrinsic::Ctlz { zero_undef: false }),
                Placeholder::CtlzNonzero => Some(RustBitIntrinsic::Ctlz { zero_undef: true }),
                Placeholder::Cttz => Some(RustBitIntrinsic::Cttz { zero_undef: false }),
                Placeholder::CttzNonzero => Some(RustBitIntrinsic::Cttz { zero_undef: true }),
                Placeholder::Bswap => Some(RustBitIntrinsic::Bswap),
                Placeholder::Bitreverse => Some(RustBitIntrinsic::Bitreverse),
                _ => None,
            },
            Callee::Function { .. } => None,
        }
    }
}

/// A saturating integer intrinsic.
#[derive(Clone, Copy, PartialEq, Eq, Structural, Debug)]
pub enum RustSaturatingIntrinsic {
    Add,
    Sub,
}

impl RustSaturatingIntrinsic {
    /// The placeholder that stands for the intrinsic.
    pub open spec fn placeholder(self) -> Placeholder {
        match self {
            RustSaturatingIntrinsic::Add => Placeholder::SaturatingAdd,
            RustSaturatingIntrinsic::Sub => Placeholder::SaturatingSub,
        }
    }

    /// The intrinsic that a placeholder stands for.
    pub open spec fn of_placeholder(p: Placeholder) -> Option<RustSaturatingIntrinsic> {
        match p {
            Placeholder::SaturatingAdd => Some(RustSaturatingIntrinsic::Add),
            Placeholder::SaturatingSub => Some(RustSaturatingIntrinsic::Sub),
            _ => None,
        }
    }

    /// The intrinsic that a callee stands for.
    pub fn from_placeholder_callee(callee: &Callee) -> (r: Option<RustSaturatingIntrinsic>)
        ensures
            r == match *callee {
                Callee::Intrinsic(p) => RustSaturatingIntrinsic::of_placeholder(p),
                Callee::Function { .. } => None,
            },
    {
        match callee {
            Callee::Intrinsic(p) => match p {
                Placeholder::SaturatingAdd => Some(RustSaturatingIntrinsic::Add),
                Placeholder::SaturatingSub => Some(RustSaturatingIntrinsic::Sub),
                _ => None,
            },
            Callee::Function { .. } => None,
        }
    }
}

/// Division that the caller promises to be exact.
#[derive(Clone, Copy, PartialEq, Eq, Structural, Debug)]
pub struct RustExactDivIntrinsic;

impl RustExactDivIntrinsic {
    /// The intrinsic that a callee stands for.
    pub fn from_placeholder_callee(callee: &Callee) -> (r: Option<RustExactDivIntrinsic>)
        ensures
            r is Some <==> *callee == Callee::Intrinsic(Placeholder::ExactDiv),
    {
        match callee {
            Callee::Intrinsic(p) => match p {
                Placeholder::ExactDiv => Some(RustExactDivIntrinsic),
                _ => None,
            },
            Callee::Function { .. } => None,
        }
    }
}

/// An intrinsic for integers of many words.
#[derive(Clone, Copy, PartialEq, Eq, Structural, Debug)]
pub enum RustBigIntIntrinsic {
    CarryingMulAdd,
}

impl RustBigIntIntrinsic {
    /// The intrinsic that a callee stands for.
    pub fn from_placeholder_callee(callee: &Callee) -> (r: Option<RustBigIntIntrinsic>)
        ensures
            r is Some <==> *callee == Callee::Intrinsic(Placeholder::CarryingMulAdd),
    {
        match callee {
            Callee::Intrinsic(p) => match p {
                Placeholder::CarryingMulAdd => Some(RustBigIntIntrinsic::CarryingMulAdd),
                _ => None,
            },
            Callee::Function { .. } => None,
        }
    }
}

/// A floating-point intrinsic.
#[derive(Clone, Copy, PartialEq, Eq, Structural, Debug)]
pub enum RustFloatMathIntrinsic {
    SqrtF32,
    SqrtF64,
    PowiF32,
    PowiF64,
    SinF32,
    SinF64,
    CosF32,
    CosF64,
    TanF32,
    TanF64,
    PowfF32,
    PowfF64,
    ExpF32,
    ExpF64,
    Exp2F32,
    Exp2F64,
    LogF32,
    LogF64,
    Log2F32,
    Log2F64,
    Log10F32,
    Log10F64,
    FmaF32,
    FmaF64,
    FmuladdF32,
    FmuladdF64,
    FloorF32,
    FloorF64,
    CeilF32,
    CeilF64,
    TruncF32,
    TruncF64,
    RoundF32,
    RoundF64,
    RoundevenF32,
    RoundevenF64,
    Fabs,
    CopysignF32,
    CopysignF64,
    MaxNumNszF32,
    MaxNumNszF64,
    MinNumNszF32,
    MinNumNszF64,
    AsinF32,
    AsinF64,
    AcosF32,
    AcosF64,
    Atan2F32,
    Atan2F64,
    AtanF32,
    AtanF64,
    CbrtF32,
    CbrtF64,
    SinhF32,
    SinhF64,
    CoshF32,
    CoshF64,
    TanhF32,
    TanhF64,
    AsinhF32,
    AsinhF64,
    AcoshF32,
    AcoshF64,
    AtanhF32,
    AtanhF64,
    Expm1F32,
    Expm1F64,
    Log1pF32,
    Log1pF64,
    HypotF32,
    HypotF64,
    FaddFast,
    FsubFast,
    FmulFast,
    FdivFast,
    FremFast,
}

/// Which arithmetic a fast-math intrinsic performs.
#[derive(Clone, Copy, PartialEq, Eq, Structural, Debug)]
pub enum FastFloatBinop {
    Add,
    Sub,
    Mul,
    Div,
    Rem,
}

/// Which code generator the intrinsics are chosen for.
#[derive(Clone, Copy, PartialEq, Eq, Structural, Debug)]
pub enum IntrinsicBackend {
    LlvmNvptx,
    LibNvvm,
}

#[derive(Clone, Copy, PartialEq, Eq, Structural, Debug)]
pub struct LoweringOptions {
    pub allow_fma_contraction: bool,
    pub intrinsic_backend: IntrinsicBackend,
}

impl RustFloatMathIntrinsic {
    /// The placeholder that stands for the intrinsic.
    pub open spec fn placeholder(self) -> Placeholder {
        match self {
            RustFloatMathIntrinsic::SqrtF32 => Placeholder::SqrtF32,
            RustFloatMathIntrinsic::SqrtF64 => Placeholder::SqrtF64,
            RustFloatMathIntrinsic::PowiF32 => Placeholder::PowiF32,
            RustFloatMathIntrinsic::PowiF64 => Placeholder::PowiF64,
            RustFloatMathIntrinsic::SinF32 => Placeholder::SinF32,
            RustFloatMathIntrinsic::SinF64 => Placeholder::SinF64,
            RustFloatMathIntrinsic::CosF32 => Placeholder::CosF32,
            RustFloatMathIntrinsic::CosF64 => Placeholder::CosF64,
            RustFloatMathIntrinsic::TanF32 => Placeholder::TanF32,
            RustFloatMathIntrinsic::TanF64 => Placeholder::TanF64,
            RustFloatMathIntrinsic::PowfF32 => Placeholder::PowfF32,
            RustFloatMathIntrinsic::PowfF64 => Placeholder::PowfF64,
            RustFloatMathIntrinsic::ExpF32 => Placeholder::ExpF32,
            RustFloatMathIntrinsic::ExpF64 => Placeholder::ExpF64,
            RustFloatMathIntrinsic::Exp2F32 => Placeholder::Exp2F32,
            RustFloatMathIntrinsic::Exp2F64 => Placeholder::Exp2F64,
            RustFloatMathIntrinsic::LogF32 => Placeholder::LogF32,
            RustFloatMathIntrinsic::LogF64 => Placeholder::LogF64,
            RustFloatMathIntrinsic::Log2F32 => Placeholder::Log2F32,
            RustFloatMathIntrinsic::Log2F64 => Placeholder::Log2F64,
            RustFloatMathIntrinsic::Log10F32 => Placeholder::Log10F32,
            RustFloatMathIntrinsic::Log10F64 => Placeholder::Log10F64,
            RustFloatMathIntrinsic::FmaF32 => Placeholder::FmaF32,
            RustFloatMathIntrinsic::FmaF64 => Placeholder::FmaF64,
            RustFloatMathIntrinsic::FmuladdF32 => Placeholder::FmuladdF32,
            RustFloatMathIntrinsic::FmuladdF64 => Placeholder::FmuladdF64,
            RustFloatMathIntrinsic::FloorF32 => Placeholder::FloorF32,
            RustFloatMathIntrinsic::FloorF64 => Placeholder::FloorF64,
            RustFloatMathIntrinsic::CeilF32 => Placeholder::CeilF32,
            RustFloatMathIntrinsic::CeilF64 => Placeholder::CeilF64,
            RustFloatMathIntrinsic::TruncF32 => Placeholder::TruncF32,
            RustFloatMathIntrinsic::TruncF64 => Placeholder::TruncF64,
            RustFloatMathIntrinsic::RoundF32 => Placeholder::RoundF32,
            RustFloatMathIntrinsic::RoundF64 => Placeholder::RoundF64,
            RustFloatMathIntrinsic::RoundevenF32 => Placeholder::RoundevenF32,
            RustFloatMathIntrinsic::RoundevenF64 => Placeholder::RoundevenF64,
            RustFloatMathIntrinsic::Fabs => Placeholder::Fabs,
            RustFloatMathIntrinsic::CopysignF32 => Placeholder::CopysignF32,
            RustFloatMathIntrinsic::CopysignF64 => Placeholder::CopysignF64,
            RustFloatMathIntrinsic::MaxNumNszF32 => Placeholder::MaxNumNszF32,
            RustFloatMathIntrinsic::MaxNumNszF64 => Placeholder::MaxNumNszF64,
            RustFloatMathIntrinsic::MinNumNszF32 => Placeholder::MinNumNszF32,
            RustFloatMathIntrinsic::MinNumNszF64 => Placeholder::MinNumNszF64,
            RustFloatMathIntrinsic::AsinF32 => Placeholder::AsinF32,
            RustFloatMathIntrinsic::AsinF64 => Placeholder::AsinF64,
            RustFloatMathIntrinsic::AcosF32 => Placeholder::AcosF32,
            RustFloatMathIntrinsic::AcosF64 => Placeholder::AcosF64,
            RustFloatMathIntrinsic::Atan2F32 => Placeholder::Atan2F32,
            RustFloatMathIntrinsic::Atan2F64 => Placeholder::Atan2F64,
            RustFloatMathIntrinsic::AtanF32 => Placeholder::AtanF32,
            RustFloatMathIntrinsic::AtanF64 => Placeholder::AtanF64,
            RustFloatMathIntrinsic::CbrtF32 => Placeholder::CbrtF32,
            RustFloatMathIntrinsic::CbrtF64 => Placeholder::CbrtF64,
            RustFloatMathIntrinsic::SinhF32 => Placeholder::SinhF32,
            RustFloatMathIntrinsic::SinhF64 => Placeholder::SinhF64,
            RustFloatMathIntrinsic::CoshF32 => Placeholder::CoshF32,
            RustFloatMathIntrinsic::CoshF64 => Placeholder::CoshF64,
            RustFloatMathIntrinsic::TanhF32 => Placeholder::TanhF32,
            RustFloatMathIntrinsic::TanhF64 => Placeholder::TanhF64,
            RustFloatMathIntrinsic::AsinhF32 => Placeholder::AsinhF32,
            RustFloatMathIntrinsic::AsinhF64 => Placeholder::AsinhF64,
            RustFloatMathIntrinsic::AcoshF32 => Placeholder::AcoshF32,
            RustFloatMathIntrinsic::AcoshF64 => Placeholder::AcoshF64,
            RustFloatMathIntrinsic::AtanhF32 => Placeholder::AtanhF32,
            RustFloatMathIntrinsic::AtanhF64 => Placeholder::AtanhF64,
            RustFloatMathIntrinsic::Expm1F32 => Placeholder::Expm1F32,
            RustFloatMathIntrinsic::Expm1F64 => Placeholder::Expm1F64,
            RustFloatMathIntrinsic::Log1pF32 => Placeholder::Log1pF32,
            RustFloatMathIntrinsic::Log1pF64 => Placeholder::Log1pF64,
            RustFloatMathIntrinsic::HypotF32 => Placeholder::HypotF32,
            RustFloatMathIntrinsic::HypotF64 => Placeholder::HypotF64,
            RustFloatMathIntrinsic::FaddFast => Placeholder::FaddFast,
            RustFloatMathIntrinsic::FsubFast => Placeholder::FsubFast,
            RustFloatMathIntrinsic::FmulFast => Placeholder::FmulFast,
            RustFloatMathIntrinsic::FdivFast => Placeholder::FdivFast,
            RustFloatMathIntrinsic::FremFast => Placeholder::FremFast,
        }
    }

    /// The intrinsic that a placeholder stands for.
    pub open spec fn of_placeholder(p: Placeholder) -> Option<RustFloatMathIntrinsic> {
        match p {
            Placeholder::SqrtF32 => Some(RustFloatMathIntrinsic::SqrtF32),
            Placeholder::SqrtF64 => Some(RustFloatMathIntrinsic::SqrtF64),
            Placeholder::PowiF32 => Some(RustFloatMathIntrinsic::PowiF32),
            Placeholder::PowiF64 => Some(RustFloatMathIntrinsic::PowiF64),
            Placeholder::SinF32 => Some(RustFloatMathIntrinsic::SinF32),
            Placeholder::SinF64 => Some(RustFloatMathIntrinsic::SinF64),
            Placeholder::CosF32 => Some(RustFloatMathIntrinsic::CosF32),
            Placeholder::CosF64 => Some(RustFloatMathIntrinsic::CosF64),
            Placeholder::TanF32 => Some(RustFloatMathIntrinsic::TanF32),
            Placeholder::TanF64 => Some(RustFloatMathIntrinsic::TanF64),
            Placeholder::PowfF32 => Some(RustFloatMathIntrinsic::PowfF32),
            Placeholder::PowfF64 => Some(RustFloatMathIntrinsic::PowfF64),
            Placeholder::ExpF32 => Some(RustFloatMathIntrinsic::ExpF32),
            Placeholder::ExpF64 => Some(RustFloatMathIntrinsic::ExpF64),
            Placeholder::Exp2F32 => Some(RustFloatMathIntrinsic::Exp2F32),
            Placeholder::Exp2F64 => Some(RustFloatMathIntrinsic::Exp2F64),
            Placeholder::LogF32 => Some(RustFloatMathIntrinsic::LogF32),
            Placeholder::LogF64 => Some(RustFloatMathIntrinsic::LogF64),
            Placeholder::Log2F32 => Some(RustFloatMathIntrinsic::Log2F32),
            Placeholder::Log2F64 => Some(RustFloatMathIntrinsic::Log2F64),
            Placeholder::Log10F32 => Some(RustFloatMathIntrinsic::Log10F32),
            Placeholder::Log10F64 => Some(RustFloatMathIntrinsic::Log10F64),
            Placeholder::FmaF32 => Some(RustFloatMathIntrinsic::FmaF32),
            Placeholder::FmaF64 => Some(RustFloatMathIntrinsic::FmaF64),
            Placeholder::FmuladdF32 => Some(RustFloatMathIntrinsic::FmuladdF32),
            Placeholder::FmuladdF64 => Some(RustFloatMathIntrinsic::FmuladdF64),
            Placeholder::FloorF32 => Some(RustFloatMathIntrinsic::FloorF32),
            Placeholder::FloorF64 => Some(RustFloatMathIntrinsic::FloorF64),
            Placeholder::CeilF32 => Some(RustFloatMathIntrinsic::CeilF32),
            Placeholder::CeilF64 => Some(RustFloatMathIntrinsic::CeilF64),
            Placeholder::TruncF32 => Some(RustFloatMathIntrinsic::TruncF32),
            Placeholder::TruncF64 => Some(RustFloatMathIntrinsic::TruncF64),
            Placeholder::RoundF32 => Some(RustFloatMathIntrinsic::RoundF32),
            Placeholder::RoundF64 => Some(RustFloatMathIntrinsic::RoundF64),
            Placeholder::RoundevenF32 => Some(RustFloatMathIntrinsic::RoundevenF32),
            Placeholder::RoundevenF64 => Some(RustFloatMathIntrinsic::RoundevenF64),
            Placeholder::Fabs => Some(RustFloatMathIntrinsic::Fabs),
            Placeholder::CopysignF32 => Some(RustFloatMathIntrinsic::CopysignF32),
            Placeholder::CopysignF64 => Some(RustFloatMathIntrinsic::CopysignF64),
            Placeholder::MaxNumNszF32 => Some(RustFloatMathIntrinsic::MaxNumNszF32),
            Placeholder::MaxNumNszF64 => Some(RustFloatMathIntrinsic::MaxNumNszF64),
            Placeholder::MinNumNszF32 => Some(RustFloatMathIntrinsic::MinNumNszF32),
            Placeholder::MinNumNszF64 => Some(RustFloatMathIntrinsic::MinNumNszF64),
            Placeholder::AsinF32 => Some(RustFloatMathIntrinsic::AsinF32),
            Placeholder::AsinF64 => Some(RustFloatMathIntrinsic::AsinF64),
            Placeholder::AcosF32 => Some(RustFloatMathIntrinsic::AcosF32),
            Placeholder::AcosF64 => Some(RustFloatMathIntrinsic::AcosF64),
            Placeholder::Atan2F32 => Some(RustFloatMathIntrinsic::Atan2F32),
            Placeholder::Atan2F64 => Some(RustFloatMathIntrinsic::Atan2F64),
            Placeholder::AtanF32 => Some(RustFloatMathIntrinsic::AtanF32),
            Placeholder::AtanF64 => Some(RustFloatMathIntrinsic::AtanF64),
            Placeholder::CbrtF32 => Some(RustFloatMathIntrinsic::CbrtF32),
            Placeholder::CbrtF64 => Some(RustFloatMathIntrinsic::CbrtF64),
            Placeholder::SinhF32 => Some(RustFloatMathIntrinsic::SinhF32),
            Placeholder::SinhF64 => Some(RustFloatMathIntrinsic::SinhF64),
            Placeholder::CoshF32 => Some(RustFloatMathIntrinsic::CoshF32),
            Placeholder::CoshF64 => Some(RustFloatMathIntrinsic::CoshF64),
            Placeholder::TanhF32 => Some(RustFloatMathIntrinsic::TanhF32),
            Placeholder::TanhF64 => Some(RustFloatMathIntrinsic::TanhF64),
            Placeholder::AsinhF32 => Some(RustFloatMathIntrinsic::AsinhF32),
            Placeholder::AsinhF64 => Some(RustFloatMathIntrinsic::AsinhF64),
            Placeholder::AcoshF32 => Some(RustFloatMathIntrinsic::AcoshF32),
            Placeholder::AcoshF64 => Some(RustFloatMathIntrinsic::AcoshF64),
            Placeholder::AtanhF32 => Some(RustFloatMathIntrinsic::AtanhF32),
            Placeholder::AtanhF64 => Some(RustFloatMathIntrinsic::AtanhF64),
            Placeholder::Expm1F32 => Some(RustFloatMathIntrinsic::Expm1F32),
            Placeholder::Expm1F64 => Some(RustFloatMathIntrinsic::Expm1F64),
            Placeholder::Log1pF32 => Some(RustFloatMathIntrinsic::Log1pF32),
            Placeholder::Log1pF64 => Some(RustFloatMathIntrinsic::Log1pF64),
            Placeholder::HypotF32 => Some(RustFloatMathIntrinsic::HypotF32),
            Placeholder::HypotF64 => Some(RustFloatMathIntrinsic::HypotF64),
            Placeholder::FaddFast => Some(RustFloatMathIntrinsic::FaddFast),
            Placeholder::FsubFast => Some(RustFloatMathIntrinsic::FsubFast),
            Placeholder::FmulFast => Some(RustFloatMathIntrinsic::FmulFast),
            Placeholder::FdivFast => Some(RustFloatMathIntrinsic::FdivFast),
            Placeholder::FremFast => Some(RustFloatMathIntrinsic::FremFast),
            _ => None,
        }
    }

    /// The intrinsic that a callee stands for.
    pub fn from_placeholder_callee(callee: &Callee) -> (r: Option<RustFloatMathIntrinsic>)
        ensures
            r == match *callee {
                Callee::Intrinsic(p) => RustFloatMathIntrinsic::of_placeholder(p),
                Callee::Function { .. } => None,
            },
    {
        match callee {
            Callee::Intrinsic(p) => match p {
                Placeholder::SqrtF32 => Some(RustFloatMathIntrinsic::SqrtF32),
                Placeholder::SqrtF64 => Some(RustFloatMathIntrinsic::SqrtF64),
                Placeholder::PowiF32 => Some(RustFloatMathIntrinsic::PowiF32),
                Placeholder::PowiF64 => Some(RustFloatMathIntrinsic::PowiF64),
                Placeholder::SinF32 => Some(RustFloatMathIntrinsic::SinF32),
                Placeholder::SinF64 => Some(RustFloatMathIntrinsic::SinF64),
                Placeholder::CosF32 => Some(RustFloatMathIntrinsic::CosF32),
                Placeholder::CosF64 => Some(RustFloatMathIntrinsic::CosF64),
                Placeholder::TanF32 => Some(RustFloatMathIntrinsic::TanF32),
                Placeholder::TanF64 => Some(RustFloatMathIntrinsic::TanF64),
                Placeholder::PowfF32 => Some(RustFloatMathIntrinsic::PowfF32),
                Placeholder::PowfF64 => Some(RustFloatMathIntrinsic::PowfF64),
                Placeholder::ExpF32 => Some(RustFloatMathIntrinsic::ExpF32),
                Placeholder::ExpF64 => Some(RustFloatMathIntrinsic::ExpF64),
                Placeholder::Exp2F32 => Some(RustFloatMathIntrinsic::Exp2F32),
                Placeholder::Exp2F64 => Some(RustFloatMathIntrinsic::Exp2F64),
                Placeholder::LogF32 => Some(RustFloatMathIntrinsic::LogF32),
                Placeholder::LogF64 => Some(RustFloatMathIntrinsic::LogF64),
                Placeholder::Log2F32 => Some(RustFloatMathIntrinsic::Log2F32),
                Placeholder::Log2F64 => Some(RustFloatMathIntrinsic::Log2F64),
                Placeholder::Log10F32 => Some(RustFloatMathIntrinsic::Log10F32),
                Placeholder::Log10F64 => Some(RustFloatMathIntrinsic::Log10F64),
                Placeholder::FmaF32 => Some(RustFloatMathIntrinsic::FmaF32),
                Placeholder::FmaF64 => Some(RustFloatMathIntrinsic::FmaF64),
                Placeholder::FmuladdF32 => Some(RustFloatMathIntrinsic::FmuladdF32),
                Placeholder::FmuladdF64 => Some(RustFloatMathIntrinsic::FmuladdF64),
                Placeholder::FloorF32 => Some(RustFloatMathIntrinsic::FloorF32),
                Placeholder::FloorF64 => Some(RustFloatMathIntrinsic::FloorF64),
                Placeholder::CeilF32 => Some(RustFloatMathIntrinsic::CeilF32),
                Placeholder::CeilF64 => Some(RustFloatMathIntrinsic::CeilF64),
                Placeholder::TruncF32 => Some(RustFloatMathIntrinsic::TruncF32),
                Placeholder::TruncF64 => Some(RustFloatMathIntrinsic::TruncF64),
                Placeholder::RoundF32 => Some(RustFloatMathIntrinsic::RoundF32),
                Placeholder::RoundF64 => Some(RustFloatMathIntrinsic::RoundF64),
                Placeholder::RoundevenF32 => Some(RustFloatMathIntrinsic::RoundevenF32),
                Placeholder::RoundevenF64 => Some(RustFloatMathIntrinsic::RoundevenF64),
                Placeholder::Fabs => Some(RustFloatMathIntrinsic::Fabs),
                Placeholder::CopysignF32 => Some(RustFloatMathIntrinsic::CopysignF32),
                Placeholder::CopysignF64 => Some(RustFloatMathIntrinsic::CopysignF64),
                Placeholder::MaxNumNszF32 => Some(RustFloatMathIntrinsic::MaxNumNszF32),
                Placeholder::MaxNumNszF64 => Some(RustFloatMathIntrinsic::MaxNumNszF64),
                Placeholder::MinNumNszF32 => Some(RustFloatMathIntrinsic::MinNumNszF32),
                Placeholder::MinNumNszF64 => Some(RustFloatMathIntrinsic::MinNumNszF64),
                Placeholder::AsinF32 => Some(RustFloatMathIntrinsic::AsinF32),
                Placeholder::AsinF64 => Some(RustFloatMathIntrinsic::AsinF64),
                Placeholder::AcosF32 => Some(RustFloatMathIntrinsic::AcosF32),
                Placeholder::AcosF64 => Some(RustFloatMathIntrinsic::AcosF64),
                Placeholder::Atan2F32 => Some(RustFloatMathIntrinsic::Atan2F32),
                Placeholder::Atan2F64 => Some(RustFloatMathIntrinsic::Atan2F64),
                Placeholder::AtanF32 => Some(RustFloatMathIntrinsic::AtanF32),
                Placeholder::AtanF64 => Some(RustFloatMathIntrinsic::AtanF64),
                Placeholder::CbrtF32 => Some(RustFloatMathIntrinsic::CbrtF32),
                Placeholder::CbrtF64 => Some(RustFloatMathIntrinsic::CbrtF64),
                Placeholder::SinhF32 => Some(RustFloatMathIntrinsic::SinhF32),
                Placeholder::SinhF64 => Some(RustFloatMathIntrinsic::SinhF64),
                Placeholder::CoshF32 => Some(RustFloatMathIntrinsic::CoshF32),
                Placeholder::CoshF64 => Some(RustFloatMathIntrinsic::CoshF64),
                Placeholder::TanhF32 => Some(RustFloatMathIntrinsic::TanhF32),
                Placeholder::TanhF64 => Some(RustFloatMathIntrinsic::TanhF64),
                Placeholder::AsinhF32 => Some(RustFloatMathIntrinsic::AsinhF32),
                Placeholder::AsinhF64 => Some(RustFloatMathIntrinsic::AsinhF64),
                Placeholder::AcoshF32 => Some(RustFloatMathIntrinsic::AcoshF32),
                Placeholder::AcoshF64 => Some(RustFloatMathIntrinsic::AcoshF64),
                Placeholder::AtanhF32 => Some(RustFloatMathIntrinsic::AtanhF32),
                Placeholder::AtanhF64 => Some(RustFloatMathIntrinsic::AtanhF64),
                Placeholder::Expm1F32 => Some(RustFloatMathIntrinsic::Expm1F32),
                Placeholder::Expm1F64 => Some(RustFloatMathIntrinsic::Expm1F64),
                Placeholder::Log1pF32 => Some(RustFloatMathIntrinsic::Log1pF32),
                Placeholder::Log1pF64 => Some(RustFloatMathIntrinsic::Log1pF64),
                Placeholder::HypotF32 => Some(RustFloatMathIntrinsic::HypotF32),
                Placeholder::HypotF64 => Some(RustFloatMathIntrinsic::HypotF64),
                Placeholder::FaddFast => Some(RustFloatMathIntrinsic::FaddFast),
                Placeholder::FsubFast => Some(RustFloatMathIntrinsic::FsubFast),
                Placeholder::FmulFast => Some(RustFloatMathIntrinsic::FmulFast),
                Placeholder::FdivFast => Some(RustFloatMathIntrinsic::FdivFast),
                Placeholder::FremFast => Some(RustFloatMathIntrinsic::FremFast),
                _ => None,
            },
            Callee::Function { .. } => None,
        }
    }

    /// The ordered comparison by which a maximum or minimum is chosen.
    pub open spec fn spec_minmax_predicate(self) -> Option<FloatPredicate> {
        match self {
            RustFloatMathIntrinsic::MaxNumNszF32 | RustFloatMathIntrinsic::MaxNumNszF64 => Some(
                FloatPredicate::OGE,
            ),
            RustFloatMathIntrinsic::MinNumNszF32 | RustFloatMathIntrinsic::MinNumNszF64 => Some(
                FloatPredicate::OLE,
            ),
            _ => None,
        }
    }

    /// The ordered comparison by which a maximum or minimum is chosen.
    pub fn minmax_nsz_predicate(self) -> (r: Option<FloatPredicate>)
        ensures
            r == self.spec_minmax_predicate(),
    {
        match self {
            RustFloatMathIntrinsic::MaxNumNszF32 | RustFloatMathIntrinsic::MaxNumNszF64 => Some(
                FloatPredicate::OGE,
            ),
            RustFloatMathIntrinsic::MinNumNszF32 | RustFloatMathIntrinsic::MinNumNszF64 => Some(
                FloatPredicate::OLE,
            ),
            _ => None,
        }
    }

    /// The function of the device math library. Maximum, minimum and fast-math
    /// arithmetic have none.
    pub open spec fn library_symbol(self, ty: LlvmType) -> Result<Seq<char>, LowerError> {
        match self {
            RustFloatMathIntrinsic::SqrtF32 => Ok("__nv_sqrtf"@),
            RustFloatMathIntrinsic::SqrtF64 => Ok("__nv_sqrt"@),
            RustFloatMathIntrinsic::PowiF32 => Ok("__nv_powif"@),
            RustFloatMathIntrinsic::PowiF64 => Ok("__nv_powi"@),
            RustFloatMathIntrinsic::SinF32 => Ok("__nv_sinf"@),
            RustFloatMathIntrinsic::SinF64 => Ok("__nv_sin"@),
            RustFloatMathIntrinsic::CosF32 => Ok("__nv_cosf"@),
            RustFloatMathIntrinsic::CosF64 => Ok("__nv_cos"@),
            RustFloatMathIntrinsic::TanF32 => Ok("__nv_tanf"@),
            RustFloatMathIntrinsic::TanF64 => Ok("__nv_tan"@),
            RustFloatMathIntrinsic::PowfF32 => Ok("__nv_powf"@),
            RustFloatMathIntrinsic::PowfF64 => Ok("__nv_pow"@),
            RustFloatMathIntrinsic::ExpF32 => Ok("__nv_expf"@),
            RustFloatMathIntrinsic::ExpF64 => Ok("__nv_exp"@),
            RustFloatMathIntrinsic::Exp2F32 => Ok("__nv_exp2f"@),
            RustFloatMathIntrinsic::Exp2F64 => Ok("__nv_exp2"@),
            RustFloatMathIntrinsic::LogF32 => Ok("__nv_logf"@),
            RustFloatMathIntrinsic::LogF64 => Ok("__nv_log"@),
            RustFloatMathIntrinsic::Log2F32 => Ok("__nv_log2f"@),
            RustFloatMathIntrinsic::Log2F64 => Ok("__nv_log2"@),
            RustFloatMathIntrinsic::Log10F32 => Ok("__nv_log10f"@),
            RustFloatMathIntrinsic::Log10F64 => Ok("__nv_log10"@),
            RustFloatMathIntrinsic::FmaF32 => Ok("__nv_fmaf"@),
            RustFloatMathIntrinsic::FmuladdF32 => Ok("__nv_fmaf"@),
            RustFloatMathIntrinsic::FmaF64 => Ok("__nv_fma"@),
            RustFloatMathIntrinsic::FmuladdF64 => Ok("__nv_fma"@),
            RustFloatMathIntrinsic::FloorF32 => Ok("__nv_floorf"@),
            RustFloatMathIntrinsic::FloorF64 => Ok("__nv_floor"@),
            RustFloatMathIntrinsic::CeilF32 => Ok("__nv_ceilf"@),
            RustFloatMathIntrinsic::CeilF64 => Ok("__nv_ceil"@),
            RustFloatMathIntrinsic::TruncF32 => Ok("__nv_truncf"@),
            RustFloatMathIntrinsic::TruncF64 => Ok("__nv_trunc"@),
            RustFloatMathIntrinsic::RoundF32 => Ok("__nv_roundf"@),
            RustFloatMathIntrinsic::RoundF64 => Ok("__nv_round"@),
            RustFloatMathIntrinsic::RoundevenF32 => Ok("__nv_rintf"@),
            RustFloatMathIntrinsic::RoundevenF64 => Ok("__nv_rint"@),
            RustFloatMathIntrinsic::CopysignF32 => Ok("__nv_copysignf"@),
            RustFloatMathIntrinsic::CopysignF64 => Ok("__nv_copysign"@),
            RustFloatMathIntrinsic::AsinF32 => Ok("__nv_asinf"@),
            RustFloatMathIntrinsic::AsinF64 => Ok("__nv_asin"@),
            RustFloatMathIntrinsic::AcosF32 => Ok("__nv_acosf"@),
            RustFloatMathIntrinsic::AcosF64 => Ok("__nv_acos"@),
            RustFloatMathIntrinsic::Atan2F32 => Ok("__nv_atan2f"@),
            RustFloatMathIntrinsic::Atan2F64 => Ok("__nv_atan2"@),
            RustFloatMathIntrinsic::AtanF32 => Ok("__nv_atanf"@),
            RustFloatMathIntrinsic::AtanF64 => Ok("__nv_atan"@),
            RustFloatMathIntrinsic::CbrtF32 => Ok("__nv_cbrtf"@),
            RustFloatMathIntrinsic::CbrtF64 => Ok("__nv_cbrt"@),
            RustFloatMathIntrinsic::SinhF32 => Ok("__nv_sinhf"@),
            RustFloatMathIntrinsic::SinhF64 => Ok("__nv_sinh"@),
            RustFloatMathIntrinsic::CoshF32 => Ok("__nv_coshf"@),
            RustFloatMathIntrinsic::CoshF64 => Ok("__nv_cosh"@),
            RustFloatMathIntrinsic::TanhF32 => Ok("__nv_tanhf"@),
            RustFloatMathIntrinsic::TanhF64 => Ok("__nv_tanh"@),
            RustFloatMathIntrinsic::AsinhF32 => Ok("__nv_asinhf"@),
            RustFloatMathIntrinsic::AsinhF64 => Ok("__nv_asinh"@),
            RustFloatMathIntrinsic::AcoshF32 => Ok("__nv_acoshf"@),
            RustFloatMathIntrinsic::AcoshF64 => Ok("__nv_acosh"@),
            RustFloatMathIntrinsic::AtanhF32 => Ok("__nv_atanhf"@),
            RustFloatMathIntrinsic::AtanhF64 => Ok("__nv_atanh"@),
            RustFloatMathIntrinsic::Expm1F32 => Ok("__nv_expm1f"@),
            RustFloatMathIntrinsic::Expm1F64 => Ok("__nv_expm1"@),
            RustFloatMathIntrinsic::Log1pF32 => Ok("__nv_log1pf"@),
            RustFloatMathIntrinsic::Log1pF64 => Ok("__nv_log1p"@),
            RustFloatMathIntrinsic::HypotF32 => Ok("__nv_hypotf"@),
            RustFloatMathIntrinsic::HypotF64 => Ok("__nv_hypot"@),
            RustFloatMathIntrinsic::Fabs => by_float(ty, "__nv_fabsf"@, "__nv_fabs"@),
            _ => Err(LowerError::NoLibraryFunction),
        }
    }

    /// The function of the device math library.
    pub fn libdevice_name(self, result_ty: &LlvmType) -> (r: Result<&'static str, LowerError>)
        ensures
            same_text(r, self.library_symbol(*result_ty)),
    {
        match self {
            RustFloatMathIntrinsic::SqrtF32 => Ok("__nv_sqrtf"),
            RustFloatMathIntrinsic::SqrtF64 => Ok("__nv_sqrt"),
            RustFloatMathIntrinsic::PowiF32 => Ok("__nv_powif"),
            RustFloatMathIntrinsic::PowiF64 => Ok("__nv_powi"),
            RustFloatMathIntrinsic::SinF32 => Ok("__nv_sinf"),
            RustFloatMathIntrinsic::SinF64 => Ok("__nv_sin"),
            RustFloatMathIntrinsic::CosF32 => Ok("__nv_cosf"),
            RustFloatMathIntrinsic::CosF64 => Ok("__nv_cos"),
            RustFloatMathIntrinsic::TanF32 => Ok("__nv_tanf"),
            RustFloatMathIntrinsic::TanF64 => Ok("__nv_tan"),
            RustFloatMathIntrinsic::PowfF32 => Ok("__nv_powf"),
            RustFloatMathIntrinsic::PowfF64 => Ok("__nv_pow"),
            RustFloatMathIntrinsic::ExpF32 => Ok("__nv_expf"),
            RustFloatMathIntrinsic::ExpF64 => Ok("__nv_exp"),
            RustFloatMathIntrinsic::Exp2F32 => Ok("__nv_exp2f"),
            RustFloatMathIntrinsic::Exp2F64 => Ok("__nv_exp2"),
            RustFloatMathIntrinsic::LogF32 => Ok("__nv_logf"),
            RustFloatMathIntrinsic::LogF64 => Ok("__nv_log"),
            RustFloatMathIntrinsic::Log2F32 => Ok("__nv_log2f"),
            RustFloatMathIntrinsic::Log2F64 => Ok("__nv_log2"),
            RustFloatMathIntrinsic::Log10F32 => Ok("__nv_log10f"),
            RustFloatMathIntrinsic::Log10F64 => Ok("__nv_log10"),
            RustFloatMathIntrinsic::FmaF32 => Ok("__nv_fmaf"),
            RustFloatMathIntrinsic::FmuladdF32 => Ok("__nv_fmaf"),
            RustFloatMathIntrinsic::FmaF64 => Ok("__nv_fma"),
            RustFloatMathIntrinsic::FmuladdF64 => Ok("__nv_fma"),
            RustFloatMathIntrinsic::FloorF32 => Ok("__nv_floorf"),
            RustFloatMathIntrinsic::FloorF64 => Ok("__nv_floor"),
            RustFloatMathIntrinsic::CeilF32 => Ok("__nv_ceilf"),
            RustFloatMathIntrinsic::CeilF64 => Ok("__nv_ceil"),
            RustFloatMathIntrinsic::TruncF32 => Ok("__nv_truncf"),
            RustFloatMathIntrinsic::TruncF64 => Ok("__nv_trunc"),
            RustFloatMathIntrinsic::RoundF32 => Ok("__nv_roundf"),
            RustFloatMathIntrinsic::RoundF64 => Ok("__nv_round"),
            RustFloatMathIntrinsic::RoundevenF32 => Ok("__nv_rintf"),
            RustFloatMathIntrinsic::RoundevenF64 => Ok("__nv_rint"),
            RustFloatMathIntrinsic::CopysignF32 => Ok("__nv_copysignf"),
            RustFloatMathIntrinsic::CopysignF64 => Ok("__nv_copysign"),
            RustFloatMathIntrinsic::AsinF32 => Ok("__nv_asinf"),
            RustFloatMathIntrinsic::AsinF64 => Ok("__nv_asin"),
            RustFloatMathIntrinsic::AcosF32 => Ok("__nv_acosf"),
            RustFloatMathIntrinsic::AcosF64 => Ok("__nv_acos"),
            RustFloatMathIntrinsic::Atan2F32 => Ok("__nv_atan2f"),
            RustFloatMathIntrinsic::Atan2F64 => Ok("__nv_atan2"),
            RustFloatMathIntrinsic::AtanF32 => Ok("__nv_atanf"),
            RustFloatMathIntrinsic::AtanF64 => Ok("__nv_atan"),
            RustFloatMathIntrinsic::CbrtF32 => Ok("__nv_cbrtf"),
            RustFloatMathIntrinsic::CbrtF64 => Ok("__nv_cbrt"),
            RustFloatMathIntrinsic::SinhF32 => Ok("__nv_sinhf"),
            RustFloatMathIntrinsic::SinhF64 => Ok("__nv_sinh"),
            RustFloatMathIntrinsic::CoshF32 => Ok("__nv_coshf"),
            RustFloatMathIntrinsic::CoshF64 => Ok("__nv_cosh"),
            RustFloatMathIntrinsic::TanhF32 => Ok("__nv_tanhf"),
            RustFloatMathIntrinsic::TanhF64 => Ok("__nv_tanh"),
            RustFloatMathIntrinsic::AsinhF32 => Ok("__nv_asinhf"),
            RustFloatMathIntrinsic::AsinhF64 => Ok("__nv_asinh"),
            RustFloatMathIntrinsic::AcoshF32 => Ok("__nv_acoshf"),
            RustFloatMathIntrinsic::AcoshF64 => Ok("__nv_acosh"),
            RustFloatMathIntrinsic::AtanhF32 => Ok("__nv_atanhf"),
            RustFloatMathIntrinsic::AtanhF64 => Ok("__nv_atanh"),
            RustFloatMathIntrinsic::Expm1F32 => Ok("__nv_expm1f"),
            RustFloatMathIntrinsic::Expm1F64 => Ok("__nv_expm1"),
            RustFloatMathIntrinsic::Log1pF32 => Ok("__nv_log1pf"),
            RustFloatMathIntrinsic::Log1pF64 => Ok("__nv_log1p"),
            RustFloatMathIntrinsic::HypotF32 => Ok("__nv_hypotf"),
            RustFloatMathIntrinsic::HypotF64 => Ok("__nv_hypot"),
            RustFloatMathIntrinsic::Fabs => fabs_libdevice_name(result_ty),
            _ => Err(LowerError::NoLibraryFunction),
        }
    }

    /// How many operands the intrinsic takes.
    pub open spec fn spec_arg_count(self) -> nat {
        match self {
            RustFloatMathIntrinsic::PowiF32
            | RustFloatMathIntrinsic::PowiF64
            | RustFloatMathIntrinsic::PowfF32
            | RustFloatMathIntrinsic::PowfF64
            | RustFloatMathIntrinsic::CopysignF32
            | RustFloatMathIntrinsic::CopysignF64
            | RustFloatMathIntrinsic::MaxNumNszF32
            | RustFloatMathIntrinsic::MaxNumNszF64
            | RustFloatMathIntrinsic::MinNumNszF32
            | RustFloatMathIntrinsic::MinNumNszF64
            | RustFloatMathIntrinsic::Atan2F32
            | RustFloatMathIntrinsic::Atan2F64
            | RustFloatMathIntrinsic::HypotF32
            | RustFloatMathIntrinsic::HypotF64
            | RustFloatMathIntrinsic::FaddFast
            | RustFloatMathIntrinsic::FsubFast
            | RustFloatMathIntrinsic::FmulFast
            | RustFloatMathIntrinsic::FdivFast
            | RustFloatMathIntrinsic::FremFast => 2,
            RustFloatMathIntrinsic::FmaF32
            | RustFloatMathIntrinsic::FmaF64
            | RustFloatMathIntrinsic::FmuladdF32
            | RustFloatMathIntrinsic::FmuladdF64 => 3,
            _ => 1,
        }
    }

    /// How many operands the intrinsic takes.
    pub fn arg_count(self) -> (r: usize)
        ensures
            r == self.spec_arg_count(),
    {
        match self {
            RustFloatMathIntrinsic::PowiF32
            | RustFloatMathIntrinsic::PowiF64
            | RustFloatMathIntrinsic::PowfF32
            | RustFloatMathIntrinsic::PowfF64
            | RustFloatMathIntrinsic::CopysignF32
            | RustFloatMathIntrinsic::CopysignF64
            | RustFloatMathIntrinsic::MaxNumNszF32
            | RustFloatMathIntrinsic::MaxNumNszF64
            | RustFloatMathIntrinsic::MinNumNszF32
            | RustFloatMathIntrinsic::MinNumNszF64
            | RustFloatMathIntrinsic::Atan2F32
            | RustFloatMathIntrinsic::Atan2F64
            | RustFloatMathIntrinsic::HypotF32
            | RustFloatMathIntrinsic::HypotF64
            | RustFloatMathIntrinsic::FaddFast
            | RustFloatMathIntrinsic::FsubFast
            | RustFloatMathIntrinsic::FmulFast
            | RustFloatMathIntrinsic::FdivFast
            | RustFloatMathIntrinsic::FremFast => 2,
            RustFloatMathIntrinsic::FmaF32
            | RustFloatMathIntrinsic::FmaF64
            | RustFloatMathIntrinsic::FmuladdF32
            | RustFloatMathIntrinsic::FmuladdF64 => 3,
            _ => 1,
        }
    }

    /// The LLVM intrinsic, for the roundings and sign operations that need no
    /// library.
    pub open spec fn native_symbol(self, ty: LlvmType) -> Result<Option<Seq<char>>, LowerError> {
        match self {
            RustFloatMathIntrinsic::FloorF32 => Ok(Some("llvm_floor_f32"@)),
            RustFloatMathIntrinsic::FloorF64 => Ok(Some("llvm_floor_f64"@)),
            RustFloatMathIntrinsic::CeilF32 => Ok(Some("llvm_ceil_f32"@)),
            RustFloatMathIntrinsic::CeilF64 => Ok(Some("llvm_ceil_f64"@)),
            RustFloatMathIntrinsic::TruncF32 => Ok(Some("llvm_trunc_f32"@)),
            RustFloatMathIntrinsic::TruncF64 => Ok(Some("llvm_trunc_f64"@)),
            RustFloatMathIntrinsic::RoundF32 => Ok(Some("llvm_round_f32"@)),
            RustFloatMathIntrinsic::RoundF64 => Ok(Some("llvm_round_f64"@)),
            RustFloatMathIntrinsic::RoundevenF32 => Ok(Some("llvm_roundeven_f32"@)),
            RustFloatMathIntrinsic::RoundevenF64 => Ok(Some("llvm_roundeven_f64"@)),
            RustFloatMathIntrinsic::CopysignF32 => Ok(Some("llvm_copysign_f32"@)),
            RustFloatMathIntrinsic::CopysignF64 => Ok(Some("llvm_copysign_f64"@)),
            RustFloatMathIntrinsic::Fabs => match by_float(
                ty,
                "llvm_fabs_f32"@,
                "llvm_fabs_f64"@,
            ) {
                Ok(name) => Ok(Some(name)),
                Err(e) => Err(e),
            },
            _ => Ok(None),
        }
    }

    /// The LLVM intrinsic, for the roundings and sign operations that need no
    /// library.
    pub fn llvm_intrinsic_name(self, result_ty: &LlvmType) -> (r: Result<
        Option<&'static str>,
        LowerError,
    >)
        ensures
            match (r, self.native_symbol(*result_ty)) {
                (Ok(Some(s)), Ok(Some(name))) => s@ == name,
                (Ok(None), Ok(None)) => true,
                (Err(e), Err(f)) => e == f,
                _ => false,
            },
    {
        match self {
            RustFloatMathIntrinsic::FloorF32 => Ok(Some("llvm_floor_f32")),
            RustFloatMathIntrinsic::FloorF64 => Ok(Some("llvm_floor_f64")),
            RustFloatMathIntrinsic::CeilF32 => Ok(Some("llvm_ceil_f32")),
            RustFloatMathIntrinsic::CeilF64 => Ok(Some("llvm_ceil_f64")),
            RustFloatMathIntrinsic::TruncF32 => Ok(Some("llvm_trunc_f32")),
            RustFloatMathIntrinsic::TruncF64 => Ok(Some("llvm_trunc_f64")),
            RustFloatMathIntrinsic::RoundF32 => Ok(Some("llvm_round_f32")),
            RustFloatMathIntrinsic::RoundF64 => Ok(Some("llvm_round_f64")),
            RustFloatMathIntrinsic::RoundevenF32 => Ok(Some("llvm_roundeven_f32")),
            RustFloatMathIntrinsic::RoundevenF64 => Ok(Some("llvm_roundeven_f64")),
            RustFloatMathIntrinsic::CopysignF32 => Ok(Some("llvm_copysign_f32")),
            RustFloatMathIntrinsic::CopysignF64 => Ok(Some("llvm_copysign_f64")),
            RustFloatMathIntrinsic::Fabs => match fabs_llvm_intrinsic_name(result_ty) {
                Ok(name) => Ok(Some(name)),
                Err(e) => Err(e),
            },
            _ => Ok(None),
        }
    }

    /// The arithmetic of a fast-math intrinsic.
    pub open spec fn spec_fast_binop(self) -> Option<FastFloatBinop> {
        match self {
            RustFloatMathIntrinsic::FaddFast => Some(FastFloatBinop::Add),
            RustFloatMathIntrinsic::FsubFast => Some(FastFloatBinop::Sub),
            RustFloatMathIntrinsic::FmulFast => Some(FastFloatBinop::Mul),
            RustFloatMathIntrinsic::FdivFast => Some(FastFloatBinop::Div),
            RustFloatMathIntrinsic::FremFast => Some(FastFloatBinop::Rem),
            _ => None,
        }
    }

    /// The arithmetic of a fast-math intrinsic.
    pub fn fast_binop(self) -> (r: Option<FastFloatBinop>)
        ensures
            r == self.spec_fast_binop(),
    {
        match self {
            RustFloatMathIntrinsic::FaddFast => Some(FastFloatBinop::Add),
            RustFloatMathIntrinsic::FsubFast => Some(FastFloatBinop::Sub),
            RustFloatMathIntrinsic::FmulFast => Some(FastFloatBinop::Mul),
            RustFloatMathIntrinsic::FdivFast => Some(FastFloatBinop::Div),
            RustFloatMathIntrinsic::FremFast => Some(FastFloatBinop::Rem),
            _ => None,
        }
    }
}

/// One name for 32-bit floats and another for 64-bit floats.
pub open spec fn by_float(ty: LlvmType, single: Seq<char>, double: Seq<char>) -> Result<
    Seq<char>,
    LowerError,
> {
    match ty {
        LlvmType::Float => Ok(single),
        LlvmType::Double => Ok(double),
        _ => Err(LowerError::ExpectedFloat),
    }
}

/// A text, or the same error.
pub open spec fn same_text(
    r: Result<&'static str, LowerError>,
    expected: Result<Seq<char>, LowerError>,
) -> bool {
    match (r, expected) {
        (Ok(s), Ok(name)) => s@ == name,
        (Err(e), Err(f)) => e == f,
        _ => false,
    }
}

/// The LLVM intrinsic for the absolute value.
pub fn fabs_llvm_intrinsic_name(ty: &LlvmType) -> (r: Result<&'static str, LowerError>)
    ensures
        same_text(r, by_float(*ty, "llvm_fabs_f32"@, "llvm_fabs_f64"@)),
{
    match ty {
        LlvmType::Float => Ok("llvm_fabs_f32"),
        LlvmType::Double => Ok("llvm_fabs_f64"),
        _ => Err(LowerError::ExpectedFloat),
    }
}

/// The library function for the absolute value.
pub fn fabs_libdevice_name(ty: &LlvmType) -> (r: Result<&'static str, LowerError>)
    ensures
        same_text(r, by_float(*ty, "__nv_fabsf"@, "__nv_fabs"@)),
{
    match ty {
        LlvmType::Float => Ok("__nv_fabsf"),
        LlvmType::Double => Ok("__nv_fabs"),
        _ => Err(LowerError::ExpectedFloat),
    }
}

/// The symbol that an intrinsic lowers to: the LLVM intrinsic where the backend
/// has one, else the library function.
pub open spec fn math_symbol(
    backend: IntrinsicBackend,
    intrinsic: RustFloatMathIntrinsic,
    ty: LlvmType,
) -> Result<Seq<char>, LowerError> {
    match backend {
        IntrinsicBackend::LlvmNvptx => match intrinsic.native_symbol(ty) {
            Ok(Some(name)) => Ok(name),
            Ok(None) => intrinsic.library_symbol(ty),
            Err(e) => Err(e),
        },
        IntrinsicBackend::LibNvvm => intrinsic.library_symbol(ty),
    }
}

/// The symbol that an intrinsic lowers to.
pub fn float_math_intrinsic_symbol(
    options: LoweringOptions,
    intrinsic: RustFloatMathIntrinsic,
    result_ty: &LlvmType,
) -> (r: Result<&'static str, LowerError>)
    ensures
        same_text(r, math_symbol(options.intrinsic_backend, intrinsic, *result_ty)),
{
    match options.intrinsic_backend {
        IntrinsicBackend::LlvmNvptx => match intrinsic.llvm_intrinsic_name(result_ty) {
            Ok(Some(name)) => Ok(name),
            Ok(None) => intrinsic.libdevice_name(result_ty),
            Err(e) => Err(e),
        },
        IntrinsicBackend::LibNvvm => intrinsic.libdevice_name(result_ty),
    }
}

/// The relaxations of fast-math arithmetic: all of them, without contraction
/// where that is not allowed.
pub open spec fn fast_flags(options: LoweringOptions) -> FastMath {
    FastMath {
        reassoc: true,
        nnan: true,
        ninf: true,
        nsz: true,
        arcp: true,
        contract: options.allow_fma_contraction,
        afn: true,
    }
}

/// The relaxations of fast-math arithmetic.
pub fn fast_float_intrinsic_flags(options: LoweringOptions) -> (r: FastMath)
    ensures
        r == fast_flags(options),
{
    FastMath {
        reassoc: true,
        nnan: true,
        ninf: true,
        nsz: true,
        arcp: true,
        contract: options.allow_fma_contraction,
        afn: true,
    }
}

/// Every symbol of a math intrinsic is an identifier. With the library backend
/// all of them are library functions; with the LLVM backend exactly those are
/// that have no LLVM intrinsic.
#[verifier::rlimit(60)]
pub proof fn law_math_symbols(
    backend: IntrinsicBackend,
    intrinsic: RustFloatMathIntrinsic,
    ty: LlvmType,
)
    ensures
        math_symbol(backend, intrinsic, ty) matches Ok(name) ==> text::is_identifier(name) && (
        text::spec_starts_with(name, "__nv_"@) <==> (backend == IntrinsicBackend::LibNvvm
            || intrinsic.native_symbol(ty) == Ok::<Option<Seq<char>>, LowerError>(None))),
{
    reveal_strlit("__nv_");
    match intrinsic {
        RustFloatMathIntrinsic::SqrtF32 => {
            reveal_strlit("__nv_sqrtf");
            assert("__nv_sqrtf"@.subrange(0, 5) =~= "__nv_"@);
        },
        RustFloatMathIntrinsic::SqrtF64 => {
            reveal_strlit("__nv_sqrt");
            assert("__nv_sqrt"@.subrange(0, 5) =~= "__nv_"@);
        },
        RustFloatMathIntrinsic::PowiF32 => {
            reveal_strlit("__nv_powif");
            assert("__nv_powif"@.subrange(0, 5) =~= "__nv_"@);
        },
        RustFloatMathIntrinsic::PowiF64 => {
            reveal_strlit("__nv_powi");
            assert("__nv_powi"@.subrange(0, 5) =~= "__nv_"@);
        },
        RustFloatMathIntrinsic::SinF32 => {
            reveal_strlit("__nv_sinf");
            assert("__nv_sinf"@.subrange(0, 5) =~= "__nv_"@);
        },
        RustFloatMathIntrinsic::SinF64 => {
            reveal_strlit("__nv_sin");
            assert("__nv_sin"@.subrange(0, 5) =~= "__nv_"@);
        },
        RustFloatMathIntrinsic::CosF32 => {
            reveal_strlit("__nv_cosf");
            assert("__nv_cosf"@.subrange(0, 5) =~= "__nv_"@);
        },
        RustFloatMathIntrinsic::CosF64 => {
            reveal_strlit("__nv_cos");
            assert("__nv_cos"@.subrange(0, 5) =~= "__nv_"@);
        },
        RustFloatMathIntrinsic::TanF32 => {
            reveal_strlit("__nv_tanf");
            assert("__nv_tanf"@.subrange(0, 5) =~= "__nv_"@);
        },
        RustFloatMathIntrinsic::TanF64 => {
            reveal_strlit("__nv_tan");
            assert("__nv_tan"@.subrange(0, 5) =~= "__nv_"@);
        },
        RustFloatMathIntrinsic::PowfF32 => {
            reveal_strlit("__nv_powf");
            assert("__nv_powf"@.subrange(0, 5) =~= "__nv_"@);
        },
        RustFloatMathIntrinsic::PowfF64 => {
            reveal_strlit("__nv_pow");
            assert("__nv_pow"@.subrange(0, 5) =~= "__nv_"@);
        },
        RustFloatMathIntrinsic::ExpF32 => {
            reveal_strlit("__nv_expf");
            assert("__nv_expf"@.subrange(0, 5) =~= "__nv_"@);
        },
        RustFloatMathIntrinsic::ExpF64 => {
            reveal_strlit("__nv_exp");
            assert("__nv_exp"@.subrange(0, 5) =~= "__nv_"@);
        },
        RustFloatMathIntrinsic::Exp2F32 => {
            reveal_strlit("__nv_exp2f");
            assert("__nv_exp2f"@.subrange(0, 5) =~= "__nv_"@);
        },
        RustFloatMathIntrinsic::Exp2F64 => {
            reveal_strlit("__nv_exp2");
            assert("__nv_exp2"@.subrange(0, 5) =~= "__nv_"@);
        },
        RustFloatMathIntrinsic::LogF32 => {
            reveal_strlit("__nv_logf");
            assert("__nv_logf"@.subrange(0, 5) =~= "__nv_"@);
        },
        RustFloatMathIntrinsic::LogF64 => {
            reveal_strlit("__nv_log");
            assert("__nv_log"@.subrange(0, 5) =~= "__nv_"@);
        },
        RustFloatMathIntrinsic::Log2F32 => {
            reveal_strlit("__nv_log2f");
            assert("__nv_log2f"@.subrange(0, 5) =~= "__nv_"@);
        },
        RustFloatMathIntrinsic::Log2F64 => {
            reveal_strlit("__nv_log2");
            assert("__nv_log2"@.subrange(0, 5) =~= "__nv_"@);
        },
        RustFloatMathIntrinsic::Log10F32 => {
            reveal_strlit("__nv_log10f");
            assert("__nv_log10f"@.subrange(0, 5) =~= "__nv_"@);
        },
        RustFloatMathIntrinsic::Log10F64 => {
            reveal_strlit("__nv_log10");
            assert("__nv_log10"@.subrange(0, 5) =~= "__nv_"@);
        },
        RustFloatMathIntrinsic::FmaF32 => {
            reveal_strlit("__nv_fmaf");
            assert("__nv_fmaf"@.subrange(0, 5) =~= "__nv_"@);
        },
        RustFloatMathIntrinsic::FmaF64 => {
            reveal_strlit("__nv_fma");
            assert("__nv_fma"@.subrange(0, 5) =~= "__nv_"@);
        },
        RustFloatMathIntrinsic::FmuladdF32 => {
            reveal_strlit("__nv_fmaf");
            assert("__nv_fmaf"@.subrange(0, 5) =~= "__nv_"@);
        },
        RustFloatMathIntrinsic::FmuladdF64 => {
            reveal_strlit("__nv_fma");
            assert("__nv_fma"@.subrange(0, 5) =~= "__nv_"@);
        },
        RustFloatMathIntrinsic::FloorF32 => {
            reveal_strlit("__nv_floorf");
            assert("__nv_floorf"@.subrange(0, 5) =~= "__nv_"@);
            reveal_strlit("llvm_floor_f32");
            assert("llvm_floor_f32"@[0] != '_' && "__nv_"@[0] == '_');
            assert("llvm_floor_f32"@.subrange(0, 5)[0] == "llvm_floor_f32"@[0]);
        },
        RustFloatMathIntrinsic::FloorF64 => {
            reveal_strlit("__nv_floor");
            assert("__nv_floor"@.subrange(0, 5) =~= "__nv_"@);
            reveal_strlit("llvm_floor_f64");
            assert("llvm_floor_f64"@[0] != '_' && "__nv_"@[0] == '_');
            assert("llvm_floor_f64"@.subrange(0, 5)[0] == "llvm_floor_f64"@[0]);
        },
        RustFloatMathIntrinsic::CeilF32 => {
            reveal_strlit("__nv_ceilf");
            assert("__nv_ceilf"@.subrange(0, 5) =~= "__nv_"@);
            reveal_strlit("llvm_ceil_f32");
            assert("llvm_ceil_f32"@[0] != '_' && "__nv_"@[0] == '_');
            assert("llvm_ceil_f32"@.subrange(0, 5)[0] == "llvm_ceil_f32"@[0]);
        },
        RustFloatMathIntrinsic::CeilF64 => {
            reveal_strlit("__nv_ceil");
            assert("__nv_ceil"@.subrange(0, 5) =~= "__nv_"@);
            reveal_strlit("llvm_ceil_f64");
            assert("llvm_ceil_f64"@[0] != '_' && "__nv_"@[0] == '_');
            assert("llvm_ceil_f64"@.subrange(0, 5)[0] == "llvm_ceil_f64"@[0]);
        },
        RustFloatMathIntrinsic::TruncF32 => {
            reveal_strlit("__nv_truncf");
            assert("__nv_truncf"@.subrange(0, 5) =~= "__nv_"@);
            reveal_strlit("llvm_trunc_f32");
            assert("llvm_trunc_f32"@[0] != '_' && "__nv_"@[0] == '_');
            assert("llvm_trunc_f32"@.subrange(0, 5)[0] == "llvm_trunc_f32"@[0]);
        },
        RustFloatMathIntrinsic::TruncF64 => {
            reveal_strlit("__nv_trunc");
            assert("__nv_trunc"@.subrange(0, 5) =~= "__nv_"@);
            reveal_strlit("llvm_trunc_f64");
            assert("llvm_trunc_f64"@[0] != '_' && "__nv_"@[0] == '_');
            assert("llvm_trunc_f64"@.subrange(0, 5)[0] == "llvm_trunc_f64"@[0]);
        },
        RustFloatMathIntrinsic::RoundF32 => {
            reveal_strlit("__nv_roundf");
            assert("__nv_roundf"@.subrange(0, 5) =~= "__nv_"@);
            reveal_strlit("llvm_round_f32");
            assert("llvm_round_f32"@[0] != '_' && "__nv_"@[0] == '_');
            assert("llvm_round_f32"@.subrange(0, 5)[0] == "llvm_round_f32"@[0]);
        },
        RustFloatMathIntrinsic::RoundF64 => {
            reveal_strlit("__nv_round");
            assert("__nv_round"@.subrange(0, 5) =~= "__nv_"@);
            reveal_strlit("llvm_round_f64");
            assert("llvm_round_f64"@[0] != '_' && "__nv_"@[0] == '_');
            assert("llvm_round_f64"@.subrange(0, 5)[0] == "llvm_round_f64"@[0]);
        },
        RustFloatMathIntrinsic::RoundevenF32 => {
            reveal_strlit("__nv_rintf");
            assert("__nv_rintf"@.subrange(0, 5) =~= "__nv_"@);
            reveal_strlit("llvm_roundeven_f32");
            assert("llvm_roundeven_f32"@[0] != '_' && "__nv_"@[0] == '_');
            assert("llvm_roundeven_f32"@.subrange(0, 5)[0] == "llvm_roundeven_f32"@[0]);
        },
        RustFloatMathIntrinsic::RoundevenF64 => {
            reveal_strlit("__nv_rint");
            assert("__nv_rint"@.subrange(0, 5) =~= "__nv_"@);
            reveal_strlit("llvm_roundeven_f64");
            assert("llvm_roundeven_f64"@[0] != '_' && "__nv_"@[0] == '_');
            assert("llvm_roundeven_f64"@.subrange(0, 5)[0] == "llvm_roundeven_f64"@[0]);
        },
        RustFloatMathIntrinsic::Fabs => {
            reveal_strlit("__nv_fabsf");
            assert("__nv_fabsf"@.subrange(0, 5) =~= "__nv_"@);
            reveal_strlit("__nv_fabs");
            assert("__nv_fabs"@.subrange(0, 5) =~= "__nv_"@);
            reveal_strlit("llvm_fabs_f32");
            assert("llvm_fabs_f32"@[0] != '_' && "__nv_"@[0] == '_');
            assert("llvm_fabs_f32"@.subrange(0, 5)[0] == "llvm_fabs_f32"@[0]);
            reveal_strlit("llvm_fabs_f64");
            assert("llvm_fabs_f64"@[0] != '_' && "__nv_"@[0] == '_');
            assert("llvm_fabs_f64"@.subrange(0, 5)[0] == "llvm_fabs_f64"@[0]);
        },
        RustFloatMathIntrinsic::CopysignF32 => {
            reveal_strlit("__nv_copysignf");
            assert("__nv_copysignf"@.subrange(0, 5) =~= "__nv_"@);
            reveal_strlit("llvm_copysign_f32");
            assert("llvm_copysign_f32"@[0] != '_' && "__nv_"@[0] == '_');
            assert("llvm_copysign_f32"@.subrange(0, 5)[0] == "llvm_copysign_f32"@[0]);
        },
        RustFloatMathIntrinsic::CopysignF64 => {
            reveal_strlit("__nv_copysign");
            assert("__nv_copysign"@.subrange(0, 5) =~= "__nv_"@);
            reveal_strlit("llvm_copysign_f64");
            assert("llvm_copysign_f64"@[0] != '_' && "__nv_"@[0] == '_');
            assert("llvm_copysign_f64"@.subrange(0, 5)[0] == "llvm_copysign_f64"@[0]);
        },
        RustFloatMathIntrinsic::AsinF32 => {
            reveal_strlit("__nv_asinf");
            assert("__nv_asinf"@.subrange(0, 5) =~= "__nv_"@);
        },
        RustFloatMathIntrinsic::AsinF64 => {
            reveal_strlit("__nv_asin");
            assert("__nv_asin"@.subrange(0, 5) =~= "__nv_"@);
        },
        RustFloatMathIntrinsic::AcosF32 => {
            reveal_strlit("__nv_acosf");
            assert("__nv_acosf"@.subrange(0, 5) =~= "__nv_"@);
        },
        RustFloatMathIntrinsic::AcosF64 => {
            reveal_strlit("__nv_acos");
            assert("__nv_acos"@.subrange(0, 5) =~= "__nv_"@);
        },
        RustFloatMathIntrinsic::Atan2F32 => {
            reveal_strlit("__nv_atan2f");
            assert("__nv_atan2f"@.subrange(0, 5) =~= "__nv_"@);
        },
        RustFloatMathIntrinsic::Atan2F64 => {
            reveal_strlit("__nv_atan2");
            assert("__nv_atan2"@.subrange(0, 5) =~= "__nv_"@);
        },
        RustFloatMathIntrinsic::AtanF32 => {
            reveal_strlit("__nv_atanf");
            assert("__nv_atanf"@.subrange(0, 5) =~= "__nv_"@);
        },
        RustFloatMathIntrinsic::AtanF64 => {
            reveal_strlit("__nv_atan");
            assert("__nv_atan"@.subrange(0, 5) =~= "__nv_"@);
        },
        RustFloatMathIntrinsic::CbrtF32 => {
            reveal_strlit("__nv_cbrtf");
            assert("__nv_cbrtf"@.subrange(0, 5) =~= "__nv_"@);
        },
        RustFloatMathIntrinsic::CbrtF64 => {
            reveal_strlit("__nv_cbrt");
            assert("__nv_cbrt"@.subrange(0, 5) =~= "__nv_"@);
        },
        RustFloatMathIntrinsic::SinhF32 => {
            reveal_strlit("__nv_sinhf");
            assert("__nv_sinhf"@.subrange(0, 5) =~= "__nv_"@);
        },
        RustFloatMathIntrinsic::SinhF64 => {
            reveal_strlit("__nv_sinh");
            assert("__nv_sinh"@.subrange(0, 5) =~= "__nv_"@);
        },
        RustFloatMathIntrinsic::CoshF32 => {
            reveal_strlit("__nv_coshf");
            assert("__nv_coshf"@.subrange(0, 5) =~= "__nv_"@);
        },
        RustFloatMathIntrinsic::CoshF64 => {
            reveal_strlit("__nv_cosh");
            assert("__nv_cosh"@.subrange(0, 5) =~= "__nv_"@);
        },
        RustFloatMathIntrinsic::TanhF32 => {
            reveal_strlit("__nv_tanhf");
            assert("__nv_tanhf"@.subrange(0, 5) =~= "__nv_"@);
        },
        RustFloatMathIntrinsic::TanhF64 => {
            reveal_strlit("__nv_tanh");
            assert("__nv_tanh"@.subrange(0, 5) =~= "__nv_"@);
        },
        RustFloatMathIntrinsic::AsinhF32 => {
            reveal_strlit("__nv_asinhf");
            assert("__nv_asinhf"@.subrange(0, 5) =~= "__nv_"@);
        },
        RustFloatMathIntrinsic::AsinhF64 => {
            reveal_strlit("__nv_asinh");
            assert("__nv_asinh"@.subrange(0, 5) =~= "__nv_"@);
        },
        RustFloatMathIntrinsic::AcoshF32 => {
            reveal_strlit("__nv_acoshf");
            assert("__nv_acoshf"@.subrange(0, 5) =~= "__nv_"@);
        },
        RustFloatMathIntrinsic::AcoshF64 => {
            reveal_strlit("__nv_acosh");
            assert("__nv_acosh"@.subrange(0, 5) =~= "__nv_"@);
        },
        RustFloatMathIntrinsic::AtanhF32 => {
            reveal_strlit("__nv_atanhf");
            assert("__nv_atanhf"@.subrange(0, 5) =~= "__nv_"@);
        },
        RustFloatMathIntrinsic::AtanhF64 => {
            reveal_strlit("__nv_atanh");
            assert("__nv_atanh"@.subrange(0, 5) =~= "__nv_"@);
        },
        RustFloatMathIntrinsic::Expm1F32 => {
            reveal_strlit("__nv_expm1f");
            assert("__nv_expm1f"@.subrange(0, 5) =~= "__nv_"@);
        },
        RustFloatMathIntrinsic::Expm1F64 => {
            reveal_strlit("__nv_expm1");
            assert("__nv_expm1"@.subrange(0, 5) =~= "__nv_"@);
        },
        RustFloatMathIntrinsic::Log1pF32 => {
            reveal_strlit("__nv_log1pf");
            assert("__nv_log1pf"@.subrange(0, 5) =~= "__nv_"@);
        },
        RustFloatMathIntrinsic::Log1pF64 => {
            reveal_strlit("__nv_log1p");
            assert("__nv_log1p"@.subrange(0, 5) =~= "__nv_"@);
        },
        RustFloatMathIntrinsic::HypotF32 => {
            reveal_strlit("__nv_hypotf");
            assert("__nv_hypotf"@.subrange(0, 5) =~= "__nv_"@);
        },
        RustFloatMathIntrinsic::HypotF64 => {
            reveal_strlit("__nv_hypot");
            assert("__nv_hypot"@.subrange(0, 5) =~= "__nv_"@);
        },
        _ => {},
    }
}

/// Every bit intrinsic is found again from its placeholder, and stands for no
/// other one.
pub proof fn law_bit_placeholders(i: RustBitIntrinsic, p: Placeholder)
    ensures
        RustBitIntrinsic::of_placeholder(p) == Some(i) <==> p == i.placeholder(),
{
}

/// Every saturating intrinsic is found again from its placeholder, and stands
/// for no other one.
pub proof fn law_saturating_placeholders(i: RustSaturatingIntrinsic, p: Placeholder)
    ensures
        RustSaturatingIntrinsic::of_placeholder(p) == Some(i) <==> p == i.placeholder(),
{
}

/// Every floating-point intrinsic is found again from its placeholder, and
/// stands for no other one.
pub proof fn law_float_placeholders(i: RustFloatMathIntrinsic, p: Placeholder)
    ensures
        RustFloatMathIntrinsic::of_placeholder(p) == Some(i) <==> p == i.placeholder(),
{
}

/// A placeholder stands for one intrinsic only.
pub proof fn law_placeholders_disjoint(p: Placeholder)
    ensures
        RustBitIntrinsic::of_placeholder(p) is Some ==> RustSaturatingIntrinsic::of_placeholder(
            p,
        ) is None && RustFloatMathIntrinsic::of_placeholder(p) is None,
        RustSaturatingIntrinsic::of_placeholder(p) is Some
            ==> RustFloatMathIntrinsic::of_placeholder(p) is None,
        p == Placeholder::ExactDiv || p == Placeholder::CarryingMulAdd || p
            == Placeholder::SelectUnpredictable <==> RustBitIntrinsic::of_placeholder(p) is None
            && RustSaturatingIntrinsic::of_placeholder(p) is None
            && RustFloatMathIntrinsic::of_placeholder(p) is None,
{
}

} // verus!
