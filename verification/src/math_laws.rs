//! Laws: what the placeholder of an intrinsic is lowered to.

use crate::call::{intrinsic_ops, MirCall};
use crate::call_intrinsics::{
    bit_ops, carrying_mul_add, exact_div_ops, float_math_ops, saturating_ops, select_ops, values_of,
};
use crate::device_laws::calls_at;
use crate::library_names::{law_fabs_names, law_library_name_pairs};
use crate::llvm::LlvmType;
use crate::rust_intrinsics::{
    IntrinsicBackend, LoweringOptions, Placeholder, RustBitIntrinsic, RustFloatMathIntrinsic,
    RustSaturatingIntrinsic,
};
use vstd::prelude::*;

verus! {

/// A placeholder is lowered as the intrinsic that it is named after, on the
/// arguments of the call, to the type of its result.
pub proof fn law_placeholder(n: nat, call: MirCall, options: LoweringOptions, ty: LlvmType)
    requires
        call.results@.len() == 1,
        call.results@[0].converted == ty,
    ensures
        ({
            let made = |p: Placeholder| intrinsic_ops(n, call, options, p);
            let args = values_of(call.args@);
            let bits = |i: RustBitIntrinsic| bit_ops(n, args, 1, ty, i);
            let saturating = |i: RustSaturatingIntrinsic|
                saturating_ops(n, call.args@, 1, ty, i);
            let floats = |i: RustFloatMathIntrinsic| float_math_ops(n, args, 1, ty, options, i);
            &&& made(Placeholder::RotateLeft) == bits(RustBitIntrinsic::RotateLeft)
            &&& made(Placeholder::RotateRight) == bits(RustBitIntrinsic::RotateRight)
            &&& made(Placeholder::Ctpop) == bits(RustBitIntrinsic::Ctpop)
            &&& made(Placeholder::Ctlz) == bits(RustBitIntrinsic::Ctlz { zero_undef: false })
            &&& made(Placeholder::CtlzNonzero) == bits(RustBitIntrinsic::Ctlz { zero_undef: true })
            &&& made(Placeholder::Cttz) == bits(RustBitIntrinsic::Cttz { zero_undef: false })
            &&& made(Placeholder::CttzNonzero) == bits(RustBitIntrinsic::Cttz { zero_undef: true })
            &&& made(Placeholder::Bswap) == bits(RustBitIntrinsic::Bswap)
            &&& made(Placeholder::Bitreverse) == bits(RustBitIntrinsic::Bitreverse)
            &&& made(Placeholder::SaturatingAdd) == saturating(RustSaturatingIntrinsic::Add)
            &&& made(Placeholder::SaturatingSub) == saturating(RustSaturatingIntrinsic::Sub)
            &&& made(Placeholder::ExactDiv) == exact_div_ops(n, call.args@, 1)
            &&& made(Placeholder::CarryingMulAdd) == carrying_mul_add(n, call.args@, 1, ty)
            &&& made(Placeholder::SelectUnpredictable) == select_ops(args, 1)
            &&& made(Placeholder::MaxNumNszF32) == floats(RustFloatMathIntrinsic::MaxNumNszF32)
            &&& made(Placeholder::MaxNumNszF64) == floats(RustFloatMathIntrinsic::MaxNumNszF64)
            &&& made(Placeholder::MinNumNszF32) == floats(RustFloatMathIntrinsic::MinNumNszF32)
            &&& made(Placeholder::MinNumNszF64) == floats(RustFloatMathIntrinsic::MinNumNszF64)
            &&& made(Placeholder::FaddFast) == floats(RustFloatMathIntrinsic::FaddFast)
            &&& made(Placeholder::FsubFast) == floats(RustFloatMathIntrinsic::FsubFast)
            &&& made(Placeholder::FmulFast) == floats(RustFloatMathIntrinsic::FmulFast)
            &&& made(Placeholder::FdivFast) == floats(RustFloatMathIntrinsic::FdivFast)
            &&& made(Placeholder::FremFast) == floats(RustFloatMathIntrinsic::FremFast)
        }),
{
}

/// The function of the device library that computes an operation on
/// double-precision numbers.
pub open spec fn library_function(p: Placeholder) -> Option<Seq<char>> {
    match p {
        Placeholder::SqrtF32 | Placeholder::SqrtF64 => Some("__nv_sqrt"@),
        Placeholder::SinF32 | Placeholder::SinF64 => Some("__nv_sin"@),
        Placeholder::CosF32 | Placeholder::CosF64 => Some("__nv_cos"@),
        Placeholder::TanF32 | Placeholder::TanF64 => Some("__nv_tan"@),
        Placeholder::ExpF32 | Placeholder::ExpF64 => Some("__nv_exp"@),
        Placeholder::Exp2F32 | Placeholder::Exp2F64 => Some("__nv_exp2"@),
        Placeholder::LogF32 | Placeholder::LogF64 => Some("__nv_log"@),
        Placeholder::Log2F32 | Placeholder::Log2F64 => Some("__nv_log2"@),
        Placeholder::Log10F32 | Placeholder::Log10F64 => Some("__nv_log10"@),
        Placeholder::FloorF32 | Placeholder::FloorF64 => Some("__nv_floor"@),
        Placeholder::CeilF32 | Placeholder::CeilF64 => Some("__nv_ceil"@),
        Placeholder::TruncF32 | Placeholder::TruncF64 => Some("__nv_trunc"@),
        Placeholder::RoundF32 | Placeholder::RoundF64 => Some("__nv_round"@),
        Placeholder::RoundevenF32 | Placeholder::RoundevenF64 => Some("__nv_rint"@),
        Placeholder::AsinF32 | Placeholder::AsinF64 => Some("__nv_asin"@),
        Placeholder::AcosF32 | Placeholder::AcosF64 => Some("__nv_acos"@),
        Placeholder::AtanF32 | Placeholder::AtanF64 => Some("__nv_atan"@),
        Placeholder::CbrtF32 | Placeholder::CbrtF64 => Some("__nv_cbrt"@),
        Placeholder::SinhF32 | Placeholder::SinhF64 => Some("__nv_sinh"@),
        Placeholder::CoshF32 | Placeholder::CoshF64 => Some("__nv_cosh"@),
        Placeholder::TanhF32 | Placeholder::TanhF64 => Some("__nv_tanh"@),
        Placeholder::AsinhF32 | Placeholder::AsinhF64 => Some("__nv_asinh"@),
        Placeholder::AcoshF32 | Placeholder::AcoshF64 => Some("__nv_acosh"@),
        Placeholder::AtanhF32 | Placeholder::AtanhF64 => Some("__nv_atanh"@),
        Placeholder::Expm1F32 | Placeholder::Expm1F64 => Some("__nv_expm1"@),
        Placeholder::Log1pF32 | Placeholder::Log1pF64 => Some("__nv_log1p"@),
        Placeholder::PowiF32 | Placeholder::PowiF64 => Some("__nv_powi"@),
        Placeholder::PowfF32 | Placeholder::PowfF64 => Some("__nv_pow"@),
        Placeholder::CopysignF32 | Placeholder::CopysignF64 => Some("__nv_copysign"@),
        Placeholder::Atan2F32 | Placeholder::Atan2F64 => Some("__nv_atan2"@),
        Placeholder::HypotF32 | Placeholder::HypotF64 => Some("__nv_hypot"@),
        Placeholder::FmaF32 | Placeholder::FmaF64 => Some("__nv_fma"@),
        Placeholder::FmuladdF32 | Placeholder::FmuladdF64 => Some("__nv_fma"@),
        _ => None,
    }
}

/// Whether an operation is on single-precision numbers.
pub open spec fn is_single(p: Placeholder) -> bool {
    match p {
        Placeholder::SqrtF32
        | Placeholder::SinF32
        | Placeholder::CosF32
        | Placeholder::TanF32
        | Placeholder::ExpF32
        | Placeholder::Exp2F32
        | Placeholder::LogF32
        | Placeholder::Log2F32
        | Placeholder::Log10F32
        | Placeholder::FloorF32
        | Placeholder::CeilF32
        | Placeholder::TruncF32
        | Placeholder::RoundF32
        | Placeholder::RoundevenF32
        | Placeholder::AsinF32
        | Placeholder::AcosF32
        | Placeholder::AtanF32
        | Placeholder::CbrtF32
        | Placeholder::SinhF32
        | Placeholder::CoshF32
        | Placeholder::TanhF32
        | Placeholder::AsinhF32
        | Placeholder::AcoshF32
        | Placeholder::AtanhF32
        | Placeholder::Expm1F32
        | Placeholder::Log1pF32
        | Placeholder::PowiF32
        | Placeholder::PowfF32
        | Placeholder::CopysignF32
        | Placeholder::Atan2F32
        | Placeholder::HypotF32
        | Placeholder::FmaF32
        | Placeholder::FmuladdF32 => true,
        _ => false,
    }
}

/// How many numbers an operation takes.
pub open spec fn number_count(p: Placeholder) -> nat {
    match p {
        Placeholder::PowiF32
        | Placeholder::PowiF64
        | Placeholder::PowfF32
        | Placeholder::PowfF64
        | Placeholder::CopysignF32
        | Placeholder::CopysignF64
        | Placeholder::Atan2F32
        | Placeholder::Atan2F64
        | Placeholder::HypotF32
        | Placeholder::HypotF64 => 2,
        Placeholder::FmaF32
        | Placeholder::FmaF64
        | Placeholder::FmuladdF32
        | Placeholder::FmuladdF64 => 3,
        _ => 1,
    }
}

/// The LLVM intrinsic that rounds, or that combines magnitude and sign.
pub open spec fn native_function(p: Placeholder) -> Option<Seq<char>> {
    match p {
        Placeholder::FloorF32 => Some("llvm_floor_f32"@),
        Placeholder::FloorF64 => Some("llvm_floor_f64"@),
        Placeholder::CeilF32 => Some("llvm_ceil_f32"@),
        Placeholder::CeilF64 => Some("llvm_ceil_f64"@),
        Placeholder::TruncF32 => Some("llvm_trunc_f32"@),
        Placeholder::TruncF64 => Some("llvm_trunc_f64"@),
        Placeholder::RoundF32 => Some("llvm_round_f32"@),
        Placeholder::RoundF64 => Some("llvm_round_f64"@),
        Placeholder::RoundevenF32 => Some("llvm_roundeven_f32"@),
        Placeholder::RoundevenF64 => Some("llvm_roundeven_f64"@),
        Placeholder::CopysignF32 => Some("llvm_copysign_f32"@),
        Placeholder::CopysignF64 => Some("llvm_copysign_f64"@),
        _ => None,
    }
}

/// An operation on floats calls the function that computes it, with the
/// arguments in their order: the LLVM intrinsic where there is one and the
/// backend has it, else the function of the device library, whose name has an
/// `f` behind it for single-precision numbers.
#[verifier::rlimit(80)]
#[verifier::spinoff_prover]
pub proof fn law_math_call(n: nat, call: MirCall, options: LoweringOptions, p: Placeholder)
    requires
        library_function(p) is Some,
        call.results@.len() == 1,
        call.args@.len() == number_count(p),
    ensures
        ({
            let made = intrinsic_ops(n, call, options, p);
            let name = if options.intrinsic_backend == IntrinsicBackend::LlvmNvptx
                && native_function(p) is Some {
                native_function(p).unwrap()
            } else if is_single(p) {
                library_function(p).unwrap() + "f"@
            } else {
                library_function(p).unwrap()
            };
            &&& calls_at(made, 1, name, values_of(call.args@), call.results@[0].converted)
            &&& made.unwrap().len() == 2
        }),
{
    let i = RustFloatMathIntrinsic::of_placeholder(p).unwrap();
    law_library_name_pairs(i, call.results@[0].converted);
}

/// The absolute value of a float is that of its precision.
pub proof fn law_absolute_call(n: nat, call: MirCall, options: LoweringOptions)
    requires
        call.results@.len() == 1,
        call.args@.len() == 1,
        call.results@[0].converted is Float || call.results@[0].converted is Double,
    ensures
        ({
            let ty = call.results@[0].converted;
            let native = options.intrinsic_backend == IntrinsicBackend::LlvmNvptx;
            calls_at(
                intrinsic_ops(n, call, options, Placeholder::Fabs),
                1,
                if native && ty is Float {
                    "llvm_fabs_f32"@
                } else if native {
                    "llvm_fabs_f64"@
                } else if ty is Float {
                    "__nv_fabs"@ + "f"@
                } else {
                    "__nv_fabs"@
                },
                values_of(call.args@),
                ty,
            )
        }),
{
    law_fabs_names();
}

} // verus!
