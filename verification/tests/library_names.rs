//! Functions of the device math library.

use mir_lower::llvm::LlvmType;
use mir_lower::lower::LowerError;
use mir_lower::rust_intrinsics::RustFloatMathIntrinsic as M;

/// The operations on single-precision and double-precision numbers.
fn pairs() -> Vec<(M, M)> {
    vec![
        (M::SqrtF32, M::SqrtF64),
        (M::PowiF32, M::PowiF64),
        (M::SinF32, M::SinF64),
        (M::CosF32, M::CosF64),
        (M::TanF32, M::TanF64),
        (M::PowfF32, M::PowfF64),
        (M::ExpF32, M::ExpF64),
        (M::Exp2F32, M::Exp2F64),
        (M::LogF32, M::LogF64),
        (M::Log2F32, M::Log2F64),
        (M::Log10F32, M::Log10F64),
        (M::FmaF32, M::FmaF64),
        (M::FmuladdF32, M::FmuladdF64),
        (M::FloorF32, M::FloorF64),
        (M::CeilF32, M::CeilF64),
        (M::TruncF32, M::TruncF64),
        (M::RoundF32, M::RoundF64),
        (M::RoundevenF32, M::RoundevenF64),
        (M::CopysignF32, M::CopysignF64),
        (M::AsinF32, M::AsinF64),
        (M::AcosF32, M::AcosF64),
        (M::Atan2F32, M::Atan2F64),
        (M::AtanF32, M::AtanF64),
        (M::CbrtF32, M::CbrtF64),
        (M::SinhF32, M::SinhF64),
        (M::CoshF32, M::CoshF64),
        (M::TanhF32, M::TanhF64),
        (M::AsinhF32, M::AsinhF64),
        (M::AcoshF32, M::AcoshF64),
        (M::AtanhF32, M::AtanhF64),
        (M::Expm1F32, M::Expm1F64),
        (M::Log1pF32, M::Log1pF64),
        (M::HypotF32, M::HypotF64),
    ]
}

/// The single-precision function is named as the double-precision one, with an
/// `f` behind it.
#[test]
fn single_precision_names_end_in_f() {
    for (single, double) in pairs() {
        let short = double.libdevice_name(&LlvmType::Double).unwrap();
        let long = single.libdevice_name(&LlvmType::Float).unwrap();
        assert_eq!(long, format!("{short}f"));
        assert!(short.starts_with("__nv_"));
    }
    assert_eq!(M::PowfF32.libdevice_name(&LlvmType::Float), Ok("__nv_powf"));
    assert_eq!(M::PowfF64.libdevice_name(&LlvmType::Double), Ok("__nv_pow"));
}

/// Different operations have different functions, but for multiply-add, which
/// is the fused one.
#[test]
fn library_names_are_distinct() {
    let mut names: Vec<(String, M)> = Vec::new();
    for (single, double) in pairs() {
        for (operation, ty) in [(single, LlvmType::Float), (double, LlvmType::Double)] {
            names.push((operation.libdevice_name(&ty).unwrap().to_string(), operation));
        }
    }
    for ty in [LlvmType::Float, LlvmType::Double] {
        names.push((M::Fabs.libdevice_name(&ty).unwrap().to_string(), M::Fabs));
    }
    let mut shared = 0;
    for i in 0..names.len() {
        for j in 0..i {
            if names[i].0 == names[j].0 {
                let both = (names[j].1, names[i].1);
                assert!(
                    both == (M::FmaF32, M::FmuladdF32) || both == (M::FmaF64, M::FmuladdF64),
                    "{:?}",
                    both
                );
                shared += 1;
            }
        }
    }
    assert_eq!(shared, 2);
}

/// The absolute value goes by the result type.
#[test]
fn fabs_goes_by_the_result_type() {
    assert_eq!(M::Fabs.libdevice_name(&LlvmType::Float), Ok("__nv_fabsf"));
    assert_eq!(M::Fabs.libdevice_name(&LlvmType::Double), Ok("__nv_fabs"));
    assert_eq!(M::Fabs.libdevice_name(&LlvmType::Half), Err(LowerError::ExpectedFloat));
}
