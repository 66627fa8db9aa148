//! Which functions of the device math library the math intrinsics name.

use crate::llvm::LlvmType;
use crate::lower::LowerError;
use crate::rust_intrinsics::RustFloatMathIntrinsic;
use crate::text;
use vstd::prelude::*;

verus! {

impl RustFloatMathIntrinsic {
    /// The same operation on double-precision numbers. Absolute value is one
    /// operation for both, and fast-math arithmetic, maximum and minimum have no
    /// library function.
    pub open spec fn in_double(self) -> Option<RustFloatMathIntrinsic> {
        match self {
            RustFloatMathIntrinsic::SqrtF32 => Some(RustFloatMathIntrinsic::SqrtF64),
            RustFloatMathIntrinsic::PowiF32 => Some(RustFloatMathIntrinsic::PowiF64),
            RustFloatMathIntrinsic::SinF32 => Some(RustFloatMathIntrinsic::SinF64),
            RustFloatMathIntrinsic::CosF32 => Some(RustFloatMathIntrinsic::CosF64),
            RustFloatMathIntrinsic::TanF32 => Some(RustFloatMathIntrinsic::TanF64),
            RustFloatMathIntrinsic::PowfF32 => Some(RustFloatMathIntrinsic::PowfF64),
            RustFloatMathIntrinsic::ExpF32 => Some(RustFloatMathIntrinsic::ExpF64),
            RustFloatMathIntrinsic::Exp2F32 => Some(RustFloatMathIntrinsic::Exp2F64),
            RustFloatMathIntrinsic::LogF32 => Some(RustFloatMathIntrinsic::LogF64),
            RustFloatMathIntrinsic::Log2F32 => Some(RustFloatMathIntrinsic::Log2F64),
            RustFloatMathIntrinsic::Log10F32 => Some(RustFloatMathIntrinsic::Log10F64),
            RustFloatMathIntrinsic::FmaF32 => Some(RustFloatMathIntrinsic::FmaF64),
            RustFloatMathIntrinsic::FmuladdF32 => Some(RustFloatMathIntrinsic::FmuladdF64),
            RustFloatMathIntrinsic::FloorF32 => Some(RustFloatMathIntrinsic::FloorF64),
            RustFloatMathIntrinsic::CeilF32 => Some(RustFloatMathIntrinsic::CeilF64),
            RustFloatMathIntrinsic::TruncF32 => Some(RustFloatMathIntrinsic::TruncF64),
            RustFloatMathIntrinsic::RoundF32 => Some(RustFloatMathIntrinsic::RoundF64),
            RustFloatMathIntrinsic::RoundevenF32 => Some(RustFloatMathIntrinsic::RoundevenF64),
            RustFloatMathIntrinsic::CopysignF32 => Some(RustFloatMathIntrinsic::CopysignF64),
            RustFloatMathIntrinsic::AsinF32 => Some(RustFloatMathIntrinsic::AsinF64),
            RustFloatMathIntrinsic::AcosF32 => Some(RustFloatMathIntrinsic::AcosF64),
            RustFloatMathIntrinsic::Atan2F32 => Some(RustFloatMathIntrinsic::Atan2F64),
            RustFloatMathIntrinsic::AtanF32 => Some(RustFloatMathIntrinsic::AtanF64),
            RustFloatMathIntrinsic::CbrtF32 => Some(RustFloatMathIntrinsic::CbrtF64),
            RustFloatMathIntrinsic::SinhF32 => Some(RustFloatMathIntrinsic::SinhF64),
            RustFloatMathIntrinsic::CoshF32 => Some(RustFloatMathIntrinsic::CoshF64),
            RustFloatMathIntrinsic::TanhF32 => Some(RustFloatMathIntrinsic::TanhF64),
            RustFloatMathIntrinsic::AsinhF32 => Some(RustFloatMathIntrinsic::AsinhF64),
            RustFloatMathIntrinsic::AcoshF32 => Some(RustFloatMathIntrinsic::AcoshF64),
            RustFloatMathIntrinsic::AtanhF32 => Some(RustFloatMathIntrinsic::AtanhF64),
            RustFloatMathIntrinsic::Expm1F32 => Some(RustFloatMathIntrinsic::Expm1F64),
            RustFloatMathIntrinsic::Log1pF32 => Some(RustFloatMathIntrinsic::Log1pF64),
            RustFloatMathIntrinsic::HypotF32 => Some(RustFloatMathIntrinsic::HypotF64),
            _ => None,
        }
    }

    /// The operation itself, with multiply-add standing for its fused form.
    pub open spec fn fused(self) -> RustFloatMathIntrinsic {
        match self {
            RustFloatMathIntrinsic::FmuladdF32 => RustFloatMathIntrinsic::FmaF32,
            RustFloatMathIntrinsic::FmuladdF64 => RustFloatMathIntrinsic::FmaF64,
            _ => self,
        }
    }
}

/// The operation that a library function computes.
spec fn operation_named(name: Seq<char>) -> RustFloatMathIntrinsic {
    if name[7] == 'a' {
        if name.len() == 8 {
            RustFloatMathIntrinsic::FmaF64
        } else if name.len() == 9 {
            if name[5] == 'a' {
                RustFloatMathIntrinsic::AtanF64
            } else {
                RustFloatMathIntrinsic::FmaF32
            }
        } else if name.len() == 10 {
            if name[9] == '2' {
                RustFloatMathIntrinsic::Atan2F64
            } else if name[9] == 'f' {
                RustFloatMathIntrinsic::AtanF32
            } else {
                RustFloatMathIntrinsic::AtanhF64
            }
        } else {
            if name[9] == '2' {
                RustFloatMathIntrinsic::Atan2F32
            } else {
                RustFloatMathIntrinsic::AtanhF32
            }
        }
    } else if name[7] == 'b' {
        RustFloatMathIntrinsic::Fabs
    } else if name[7] == 'g' {
        if name.len() == 8 {
            RustFloatMathIntrinsic::LogF64
        } else if name.len() == 9 {
            if name[8] == '2' {
                RustFloatMathIntrinsic::Log2F64
            } else {
                RustFloatMathIntrinsic::LogF32
            }
        } else if name.len() == 10 {
            if name[9] == '0' {
                RustFloatMathIntrinsic::Log10F64
            } else if name[9] == 'f' {
                RustFloatMathIntrinsic::Log2F32
            } else {
                RustFloatMathIntrinsic::Log1pF64
            }
        } else {
            if name[9] == '0' {
                RustFloatMathIntrinsic::Log10F32
            } else {
                RustFloatMathIntrinsic::Log1pF32
            }
        }
    } else if name[7] == 'i' {
        if name.len() == 9 {
            if name[5] == 'a' {
                RustFloatMathIntrinsic::AsinF64
            } else {
                RustFloatMathIntrinsic::CeilF64
            }
        } else if name.len() == 10 {
            if name[5] == 'a' {
                if name[9] == 'f' {
                    RustFloatMathIntrinsic::AsinF32
                } else {
                    RustFloatMathIntrinsic::AsinhF64
                }
            } else {
                RustFloatMathIntrinsic::CeilF32
            }
        } else {
            RustFloatMathIntrinsic::AsinhF32
        }
    } else if name[7] == 'n' {
        if name[5] == 'r' {
            if name.len() == 9 {
                RustFloatMathIntrinsic::RoundevenF64
            } else {
                RustFloatMathIntrinsic::RoundevenF32
            }
        } else if name[5] == 's' {
            if name.len() == 8 {
                RustFloatMathIntrinsic::SinF64
            } else if name.len() == 9 {
                if name[8] == 'f' {
                    RustFloatMathIntrinsic::SinF32
                } else {
                    RustFloatMathIntrinsic::SinhF64
                }
            } else {
                RustFloatMathIntrinsic::SinhF32
            }
        } else {
            if name.len() == 8 {
                RustFloatMathIntrinsic::TanF64
            } else if name.len() == 9 {
                if name[8] == 'f' {
                    RustFloatMathIntrinsic::TanF32
                } else {
                    RustFloatMathIntrinsic::TanhF64
                }
            } else {
                RustFloatMathIntrinsic::TanhF32
            }
        }
    } else if name[7] == 'o' {
        if name.len() == 9 {
            RustFloatMathIntrinsic::AcosF64
        } else if name.len() == 10 {
            if name[9] == 'f' {
                RustFloatMathIntrinsic::AcosF32
            } else if name[9] == 'h' {
                RustFloatMathIntrinsic::AcoshF64
            } else {
                RustFloatMathIntrinsic::FloorF64
            }
        } else {
            if name[5] == 'a' {
                RustFloatMathIntrinsic::AcoshF32
            } else {
                RustFloatMathIntrinsic::FloorF32
            }
        }
    } else if name[7] == 'p' {
        if name.len() == 8 {
            RustFloatMathIntrinsic::ExpF64
        } else if name.len() == 9 {
            if name[8] == '2' {
                RustFloatMathIntrinsic::Exp2F64
            } else {
                RustFloatMathIntrinsic::ExpF32
            }
        } else if name.len() == 10 {
            if name[8] == '2' {
                RustFloatMathIntrinsic::Exp2F32
            } else if name[8] == 'm' {
                RustFloatMathIntrinsic::Expm1F64
            } else {
                RustFloatMathIntrinsic::HypotF64
            }
        } else if name.len() == 11 {
            if name[5] == 'e' {
                RustFloatMathIntrinsic::Expm1F32
            } else {
                RustFloatMathIntrinsic::HypotF32
            }
        } else if name.len() == 13 {
            RustFloatMathIntrinsic::CopysignF64
        } else {
            RustFloatMathIntrinsic::CopysignF32
        }
    } else if name[7] == 'r' {
        if name[5] == 'c' {
            if name.len() == 9 {
                RustFloatMathIntrinsic::CbrtF64
            } else {
                RustFloatMathIntrinsic::CbrtF32
            }
        } else {
            if name.len() == 9 {
                RustFloatMathIntrinsic::SqrtF64
            } else {
                RustFloatMathIntrinsic::SqrtF32
            }
        }
    } else if name[7] == 's' {
        if name.len() == 8 {
            RustFloatMathIntrinsic::CosF64
        } else if name.len() == 9 {
            if name[8] == 'f' {
                RustFloatMathIntrinsic::CosF32
            } else {
                RustFloatMathIntrinsic::CoshF64
            }
        } else {
            RustFloatMathIntrinsic::CoshF32
        }
    } else if name[7] == 'u' {
        if name[5] == 'r' {
            if name.len() == 10 {
                RustFloatMathIntrinsic::RoundF64
            } else {
                RustFloatMathIntrinsic::RoundF32
            }
        } else {
            if name.len() == 10 {
                RustFloatMathIntrinsic::TruncF64
            } else {
                RustFloatMathIntrinsic::TruncF32
            }
        }
    } else {
        if name.len() == 8 {
            RustFloatMathIntrinsic::PowfF64
        } else if name.len() == 9 {
            if name[8] == 'f' {
                RustFloatMathIntrinsic::PowfF32
            } else {
                RustFloatMathIntrinsic::PowiF64
            }
        } else {
            RustFloatMathIntrinsic::PowiF32
        }
    }
}

/// The library function of an operation names it.
#[verifier::rlimit(60)]
#[verifier::spinoff_prover]
proof fn lemma_named(intrinsic: RustFloatMathIntrinsic, ty: LlvmType, name: Seq<char>)
    requires
        intrinsic.library_symbol(ty) == Ok::<Seq<char>, LowerError>(name),
    ensures
        operation_named(name) == intrinsic.fused(),
{
    match intrinsic {
        RustFloatMathIntrinsic::SqrtF32 => {
            reveal_strlit("__nv_sqrtf");
        },
        RustFloatMathIntrinsic::SqrtF64 => {
            reveal_strlit("__nv_sqrt");
        },
        RustFloatMathIntrinsic::PowiF32 => {
            reveal_strlit("__nv_powif");
        },
        RustFloatMathIntrinsic::PowiF64 => {
            reveal_strlit("__nv_powi");
        },
        RustFloatMathIntrinsic::SinF32 => {
            reveal_strlit("__nv_sinf");
        },
        RustFloatMathIntrinsic::SinF64 => {
            reveal_strlit("__nv_sin");
        },
        RustFloatMathIntrinsic::CosF32 => {
            reveal_strlit("__nv_cosf");
        },
        RustFloatMathIntrinsic::CosF64 => {
            reveal_strlit("__nv_cos");
        },
        RustFloatMathIntrinsic::TanF32 => {
            reveal_strlit("__nv_tanf");
        },
        RustFloatMathIntrinsic::TanF64 => {
            reveal_strlit("__nv_tan");
        },
        RustFloatMathIntrinsic::PowfF32 => {
            reveal_strlit("__nv_powf");
        },
        RustFloatMathIntrinsic::PowfF64 => {
            reveal_strlit("__nv_pow");
        },
        RustFloatMathIntrinsic::ExpF32 => {
            reveal_strlit("__nv_expf");
        },
        RustFloatMathIntrinsic::ExpF64 => {
            reveal_strlit("__nv_exp");
        },
        RustFloatMathIntrinsic::Exp2F32 => {
            reveal_strlit("__nv_exp2f");
        },
        RustFloatMathIntrinsic::Exp2F64 => {
            reveal_strlit("__nv_exp2");
        },
        RustFloatMathIntrinsic::LogF32 => {
            reveal_strlit("__nv_logf");
        },
        RustFloatMathIntrinsic::LogF64 => {
            reveal_strlit("__nv_log");
        },
        RustFloatMathIntrinsic::Log2F32 => {
            reveal_strlit("__nv_log2f");
        },
        RustFloatMathIntrinsic::Log2F64 => {
            reveal_strlit("__nv_log2");
        },
        RustFloatMathIntrinsic::Log10F32 => {
            reveal_strlit("__nv_log10f");
        },
        RustFloatMathIntrinsic::Log10F64 => {
            reveal_strlit("__nv_log10");
        },
        RustFloatMathIntrinsic::FmaF32 => {
            reveal_strlit("__nv_fmaf");
        },
        RustFloatMathIntrinsic::FmuladdF32 => {
            reveal_strlit("__nv_fmaf");
        },
        RustFloatMathIntrinsic::FmaF64 => {
            reveal_strlit("__nv_fma");
        },
        RustFloatMathIntrinsic::FmuladdF64 => {
            reveal_strlit("__nv_fma");
        },
        RustFloatMathIntrinsic::FloorF32 => {
            reveal_strlit("__nv_floorf");
        },
        RustFloatMathIntrinsic::FloorF64 => {
            reveal_strlit("__nv_floor");
        },
        RustFloatMathIntrinsic::CeilF32 => {
            reveal_strlit("__nv_ceilf");
        },
        RustFloatMathIntrinsic::CeilF64 => {
            reveal_strlit("__nv_ceil");
        },
        RustFloatMathIntrinsic::TruncF32 => {
            reveal_strlit("__nv_truncf");
        },
        RustFloatMathIntrinsic::TruncF64 => {
            reveal_strlit("__nv_trunc");
        },
        RustFloatMathIntrinsic::RoundF32 => {
            reveal_strlit("__nv_roundf");
        },
        RustFloatMathIntrinsic::RoundF64 => {
            reveal_strlit("__nv_round");
        },
        RustFloatMathIntrinsic::RoundevenF32 => {
            reveal_strlit("__nv_rintf");
        },
        RustFloatMathIntrinsic::RoundevenF64 => {
            reveal_strlit("__nv_rint");
        },
        RustFloatMathIntrinsic::CopysignF32 => {
            reveal_strlit("__nv_copysignf");
        },
        RustFloatMathIntrinsic::CopysignF64 => {
            reveal_strlit("__nv_copysign");
        },
        RustFloatMathIntrinsic::AsinF32 => {
            reveal_strlit("__nv_asinf");
        },
        RustFloatMathIntrinsic::AsinF64 => {
            reveal_strlit("__nv_asin");
        },
        RustFloatMathIntrinsic::AcosF32 => {
            reveal_strlit("__nv_acosf");
        },
        RustFloatMathIntrinsic::AcosF64 => {
            reveal_strlit("__nv_acos");
        },
        RustFloatMathIntrinsic::Atan2F32 => {
            reveal_strlit("__nv_atan2f");
        },
        RustFloatMathIntrinsic::Atan2F64 => {
            reveal_strlit("__nv_atan2");
        },
        RustFloatMathIntrinsic::AtanF32 => {
            reveal_strlit("__nv_atanf");
        },
        RustFloatMathIntrinsic::AtanF64 => {
            reveal_strlit("__nv_atan");
        },
        RustFloatMathIntrinsic::CbrtF32 => {
            reveal_strlit("__nv_cbrtf");
        },
        RustFloatMathIntrinsic::CbrtF64 => {
            reveal_strlit("__nv_cbrt");
        },
        RustFloatMathIntrinsic::SinhF32 => {
            reveal_strlit("__nv_sinhf");
        },
        RustFloatMathIntrinsic::SinhF64 => {
            reveal_strlit("__nv_sinh");
        },
        RustFloatMathIntrinsic::CoshF32 => {
            reveal_strlit("__nv_coshf");
        },
        RustFloatMathIntrinsic::CoshF64 => {
            reveal_strlit("__nv_cosh");
        },
        RustFloatMathIntrinsic::TanhF32 => {
            reveal_strlit("__nv_tanhf");
        },
        RustFloatMathIntrinsic::TanhF64 => {
            reveal_strlit("__nv_tanh");
        },
        RustFloatMathIntrinsic::AsinhF32 => {
            reveal_strlit("__nv_asinhf");
        },
        RustFloatMathIntrinsic::AsinhF64 => {
            reveal_strlit("__nv_asinh");
        },
        RustFloatMathIntrinsic::AcoshF32 => {
            reveal_strlit("__nv_acoshf");
        },
        RustFloatMathIntrinsic::AcoshF64 => {
            reveal_strlit("__nv_acosh");
        },
        RustFloatMathIntrinsic::AtanhF32 => {
            reveal_strlit("__nv_atanhf");
        },
        RustFloatMathIntrinsic::AtanhF64 => {
            reveal_strlit("__nv_atanh");
        },
        RustFloatMathIntrinsic::Expm1F32 => {
            reveal_strlit("__nv_expm1f");
        },
        RustFloatMathIntrinsic::Expm1F64 => {
            reveal_strlit("__nv_expm1");
        },
        RustFloatMathIntrinsic::Log1pF32 => {
            reveal_strlit("__nv_log1pf");
        },
        RustFloatMathIntrinsic::Log1pF64 => {
            reveal_strlit("__nv_log1p");
        },
        RustFloatMathIntrinsic::HypotF32 => {
            reveal_strlit("__nv_hypotf");
        },
        RustFloatMathIntrinsic::HypotF64 => {
            reveal_strlit("__nv_hypot");
        },
        RustFloatMathIntrinsic::Fabs => {
            reveal_strlit("__nv_fabsf");
            reveal_strlit("__nv_fabs");
        },
        _ => {},
    }
}

/// Two intrinsics share a library function only where they are the same
/// operation, or fused multiply-add and multiply-add of one precision; these two
/// always share one.
pub proof fn law_library_names_distinct(
    a: RustFloatMathIntrinsic,
    a_ty: LlvmType,
    b: RustFloatMathIntrinsic,
    b_ty: LlvmType,
)
    ensures
        a.library_symbol(a_ty) is Ok && a.library_symbol(a_ty) == b.library_symbol(b_ty)
            ==> a.fused() == b.fused(),
        a.fused() == b.fused() && a != b ==> a.library_symbol(a_ty) == b.library_symbol(b_ty),
{
    if a.library_symbol(a_ty) is Ok && a.library_symbol(a_ty) == b.library_symbol(b_ty) {
        let name = a.library_symbol(a_ty).unwrap();
        lemma_named(a, a_ty, name);
        lemma_named(b, b_ty, name);
    }
}

/// The library function of an operation on single-precision numbers is named as
/// the one on double-precision numbers, with an `f` behind it.
#[verifier::rlimit(60)]
#[verifier::spinoff_prover]
pub proof fn law_library_name_pairs(intrinsic: RustFloatMathIntrinsic, ty: LlvmType)
    ensures
        intrinsic.in_double() matches Some(double) ==> intrinsic.library_symbol(ty) is Ok
            && double.library_symbol(ty) is Ok && intrinsic.library_symbol(ty).unwrap()
            == double.library_symbol(ty).unwrap() + "f"@ && text::spec_starts_with(
            double.library_symbol(ty).unwrap(),
            "__nv_"@,
        ),
{
    reveal_strlit("f");
    reveal_strlit("__nv_");
    match intrinsic {
        RustFloatMathIntrinsic::SqrtF32 => {
            reveal_strlit("__nv_sqrtf");
            reveal_strlit("__nv_sqrt");
            assert("__nv_sqrtf"@ =~= "__nv_sqrt"@ + "f"@);
            assert("__nv_sqrt"@.subrange(0, 5) =~= "__nv_"@);
        },
        RustFloatMathIntrinsic::PowiF32 => {
            reveal_strlit("__nv_powif");
            reveal_strlit("__nv_powi");
            assert("__nv_powif"@ =~= "__nv_powi"@ + "f"@);
            assert("__nv_powi"@.subrange(0, 5) =~= "__nv_"@);
        },
        RustFloatMathIntrinsic::SinF32 => {
            reveal_strlit("__nv_sinf");
            reveal_strlit("__nv_sin");
            assert("__nv_sinf"@ =~= "__nv_sin"@ + "f"@);
            assert("__nv_sin"@.subrange(0, 5) =~= "__nv_"@);
        },
        RustFloatMathIntrinsic::CosF32 => {
            reveal_strlit("__nv_cosf");
            reveal_strlit("__nv_cos");
            assert("__nv_cosf"@ =~= "__nv_cos"@ + "f"@);
            assert("__nv_cos"@.subrange(0, 5) =~= "__nv_"@);
        },
        RustFloatMathIntrinsic::TanF32 => {
            reveal_strlit("__nv_tanf");
            reveal_strlit("__nv_tan");
            assert("__nv_tanf"@ =~= "__nv_tan"@ + "f"@);
            assert("__nv_tan"@.subrange(0, 5) =~= "__nv_"@);
        },
        RustFloatMathIntrinsic::PowfF32 => {
            reveal_strlit("__nv_powf");
            reveal_strlit("__nv_pow");
            assert("__nv_powf"@ =~= "__nv_pow"@ + "f"@);
            assert("__nv_pow"@.subrange(0, 5) =~= "__nv_"@);
        },
        RustFloatMathIntrinsic::ExpF32 => {
            reveal_strlit("__nv_expf");
            reveal_strlit("__nv_exp");
            assert("__nv_expf"@ =~= "__nv_exp"@ + "f"@);
            assert("__nv_exp"@.subrange(0, 5) =~= "__nv_"@);
        },
        RustFloatMathIntrinsic::Exp2F32 => {
            reveal_strlit("__nv_exp2f");
            reveal_strlit("__nv_exp2");
            assert("__nv_exp2f"@ =~= "__nv_exp2"@ + "f"@);
            assert("__nv_exp2"@.subrange(0, 5) =~= "__nv_"@);
        },
        RustFloatMathIntrinsic::LogF32 => {
            reveal_strlit("__nv_logf");
            reveal_strlit("__nv_log");
            assert("__nv_logf"@ =~= "__nv_log"@ + "f"@);
            assert("__nv_log"@.subrange(0, 5) =~= "__nv_"@);
        },
        RustFloatMathIntrinsic::Log2F32 => {
            reveal_strlit("__nv_log2f");
            reveal_strlit("__nv_log2");
            assert("__nv_log2f"@ =~= "__nv_log2"@ + "f"@);
            assert("__nv_log2"@.subrange(0, 5) =~= "__nv_"@);
        },
        RustFloatMathIntrinsic::Log10F32 => {
            reveal_strlit("__nv_log10f");
            reveal_strlit("__nv_log10");
            assert("__nv_log10f"@ =~= "__nv_log10"@ + "f"@);
            assert("__nv_log10"@.subrange(0, 5) =~= "__nv_"@);
        },
        RustFloatMathIntrinsic::FmaF32 => {
            reveal_strlit("__nv_fmaf");
            reveal_strlit("__nv_fma");
            assert("__nv_fmaf"@ =~= "__nv_fma"@ + "f"@);
            assert("__nv_fma"@.subrange(0, 5) =~= "__nv_"@);
        },
        RustFloatMathIntrinsic::FmuladdF32 => {
            reveal_strlit("__nv_fmaf");
            reveal_strlit("__nv_fma");
            assert("__nv_fmaf"@ =~= "__nv_fma"@ + "f"@);
            assert("__nv_fma"@.subrange(0, 5) =~= "__nv_"@);
        },
        RustFloatMathIntrinsic::FloorF32 => {
            reveal_strlit("__nv_floorf");
            reveal_strlit("__nv_floor");
            assert("__nv_floorf"@ =~= "__nv_floor"@ + "f"@);
            assert("__nv_floor"@.subrange(0, 5) =~= "__nv_"@);
        },
        RustFloatMathIntrinsic::CeilF32 => {
            reveal_strlit("__nv_ceilf");
            reveal_strlit("__nv_ceil");
            assert("__nv_ceilf"@ =~= "__nv_ceil"@ + "f"@);
            assert("__nv_ceil"@.subrange(0, 5) =~= "__nv_"@);
        },
        RustFloatMathIntrinsic::TruncF32 => {
            reveal_strlit("__nv_truncf");
            reveal_strlit("__nv_trunc");
            assert("__nv_truncf"@ =~= "__nv_trunc"@ + "f"@);
            assert("__nv_trunc"@.subrange(0, 5) =~= "__nv_"@);
        },
        RustFloatMathIntrinsic::RoundF32 => {
            reveal_strlit("__nv_roundf");
            reveal_strlit("__nv_round");
            assert("__nv_roundf"@ =~= "__nv_round"@ + "f"@);
            assert("__nv_round"@.subrange(0, 5) =~= "__nv_"@);
        },
        RustFloatMathIntrinsic::RoundevenF32 => {
            reveal_strlit("__nv_rintf");
            reveal_strlit("__nv_rint");
            assert("__nv_rintf"@ =~= "__nv_rint"@ + "f"@);
            assert("__nv_rint"@.subrange(0, 5) =~= "__nv_"@);
        },
        RustFloatMathIntrinsic::CopysignF32 => {
            reveal_strlit("__nv_copysignf");
            reveal_strlit("__nv_copysign");
            assert("__nv_copysignf"@ =~= "__nv_copysign"@ + "f"@);
            assert("__nv_copysign"@.subrange(0, 5) =~= "__nv_"@);
        },
        RustFloatMathIntrinsic::AsinF32 => {
            reveal_strlit("__nv_asinf");
            reveal_strlit("__nv_asin");
            assert("__nv_asinf"@ =~= "__nv_asin"@ + "f"@);
            assert("__nv_asin"@.subrange(0, 5) =~= "__nv_"@);
        },
        RustFloatMathIntrinsic::AcosF32 => {
            reveal_strlit("__nv_acosf");
            reveal_strlit("__nv_acos");
            assert("__nv_acosf"@ =~= "__nv_acos"@ + "f"@);
            assert("__nv_acos"@.subrange(0, 5) =~= "__nv_"@);
        },
        RustFloatMathIntrinsic::Atan2F32 => {
            reveal_strlit("__nv_atan2f");
            reveal_strlit("__nv_atan2");
            assert("__nv_atan2f"@ =~= "__nv_atan2"@ + "f"@);
            assert("__nv_atan2"@.subrange(0, 5) =~= "__nv_"@);
        },
        RustFloatMathIntrinsic::AtanF32 => {
            reveal_strlit("__nv_atanf");
            reveal_strlit("__nv_atan");
            assert("__nv_atanf"@ =~= "__nv_atan"@ + "f"@);
            assert("__nv_atan"@.subrange(0, 5) =~= "__nv_"@);
        },
        RustFloatMathIntrinsic::CbrtF32 => {
            reveal_strlit("__nv_cbrtf");
            reveal_strlit("__nv_cbrt");
            assert("__nv_cbrtf"@ =~= "__nv_cbrt"@ + "f"@);
            assert("__nv_cbrt"@.subrange(0, 5) =~= "__nv_"@);
        },
        RustFloatMathIntrinsic::SinhF32 => {
            reveal_strlit("__nv_sinhf");
            reveal_strlit("__nv_sinh");
            assert("__nv_sinhf"@ =~= "__nv_sinh"@ + "f"@);
            assert("__nv_sinh"@.subrange(0, 5) =~= "__nv_"@);
        },
        RustFloatMathIntrinsic::CoshF32 => {
            reveal_strlit("__nv_coshf");
            reveal_strlit("__nv_cosh");
            assert("__nv_coshf"@ =~= "__nv_cosh"@ + "f"@);
            assert("__nv_cosh"@.subrange(0, 5) =~= "__nv_"@);
        },
        RustFloatMathIntrinsic::TanhF32 => {
            reveal_strlit("__nv_tanhf");
            reveal_strlit("__nv_tanh");
            assert("__nv_tanhf"@ =~= "__nv_tanh"@ + "f"@);
            assert("__nv_tanh"@.subrange(0, 5) =~= "__nv_"@);
        },
        RustFloatMathIntrinsic::AsinhF32 => {
            reveal_strlit("__nv_asinhf");
            reveal_strlit("__nv_asinh");
            assert("__nv_asinhf"@ =~= "__nv_asinh"@ + "f"@);
            assert("__nv_asinh"@.subrange(0, 5) =~= "__nv_"@);
        },
        RustFloatMathIntrinsic::AcoshF32 => {
            reveal_strlit("__nv_acoshf");
            reveal_strlit("__nv_acosh");
            assert("__nv_acoshf"@ =~= "__nv_acosh"@ + "f"@);
            assert("__nv_acosh"@.subrange(0, 5) =~= "__nv_"@);
        },
        RustFloatMathIntrinsic::AtanhF32 => {
            reveal_strlit("__nv_atanhf");
            reveal_strlit("__nv_atanh");
            assert("__nv_atanhf"@ =~= "__nv_atanh"@ + "f"@);
            assert("__nv_atanh"@.subrange(0, 5) =~= "__nv_"@);
        },
        RustFloatMathIntrinsic::Expm1F32 => {
            reveal_strlit("__nv_expm1f");
            reveal_strlit("__nv_expm1");
            assert("__nv_expm1f"@ =~= "__nv_expm1"@ + "f"@);
            assert("__nv_expm1"@.subrange(0, 5) =~= "__nv_"@);
        },
        RustFloatMathIntrinsic::Log1pF32 => {
            reveal_strlit("__nv_log1pf");
            reveal_strlit("__nv_log1p");
            assert("__nv_log1pf"@ =~= "__nv_log1p"@ + "f"@);
            assert("__nv_log1p"@.subrange(0, 5) =~= "__nv_"@);
        },
        RustFloatMathIntrinsic::HypotF32 => {
            reveal_strlit("__nv_hypotf");
            reveal_strlit("__nv_hypot");
            assert("__nv_hypotf"@ =~= "__nv_hypot"@ + "f"@);
            assert("__nv_hypot"@.subrange(0, 5) =~= "__nv_"@);
        },
        _ => {},
    }
}

/// The library function of an absolute value goes by the type of the result.
pub proof fn law_fabs_names()
    ensures
        ({
            let fabs = RustFloatMathIntrinsic::Fabs;
            &&& fabs.library_symbol(LlvmType::Double) == Ok::<Seq<char>, LowerError>("__nv_fabs"@)
            &&& fabs.library_symbol(LlvmType::Float) == Ok::<Seq<char>, LowerError>(
                "__nv_fabs"@ + "f"@,
            )
            &&& forall|ty: LlvmType|
                ty !is Float && ty !is Double ==> (#[trigger] fabs.library_symbol(ty)) is Err
        }),
{
    reveal_strlit("f");
    reveal_strlit("__nv_fabs");
    reveal_strlit("__nv_fabsf");
    assert("__nv_fabsf"@ =~= "__nv_fabs"@ + "f"@);
}

} // verus!
