//! Calls and the intrinsics that they stand for.

use mir_lower::call::{
    coerce_arg_to_param_ty, convert, find_callee_arg_types, flatten_arguments,
    resolve_device_extern_symbol, transparent_scalar_abi_matching_param, ArgShape, CallResult,
    Declaration, MirCall, Parameters, ResultAbi, ScalarAbi, ScalarLayer, SpaceField,
};
use mir_lower::call_intrinsics::{cast_integer_value_to_type, integer_bit_width};
use mir_lower::llvm::{FieldTypes, LlvmType, Signedness};
use mir_lower::lower::{LowerError, Operand};
use mir_lower::mir::{Layout, MirType};
use mir_lower::ops::{
    Builder, CastKind, Coercion, Def, FloatBinary, FloatPredicate, Index, IntBinary, OpCode, Value,
};
use mir_lower::rust_intrinsics::{
    fabs_libdevice_name, fabs_llvm_intrinsic_name, fast_float_intrinsic_flags,
    float_math_intrinsic_symbol, Callee, FastFloatBinop, IntrinsicBackend, LoweringOptions,
    Placeholder, RustBigIntIntrinsic, RustBitIntrinsic, RustExactDivIntrinsic,
    RustFloatMathIntrinsic, RustSaturatingIntrinsic,
};
use mir_lower::slots::{StructInfo, StructSlotMap};
use mir_lower::text::mangle;

fn integer(width: u32) -> LlvmType {
    LlvmType::Integer(width, Signedness::Signless)
}

fn record(types: Vec<LlvmType>) -> LlvmType {
    LlvmType::Struct(Box::new(FieldTypes::of(types)), false)
}

fn arg(n: u64, ty: LlvmType) -> Value {
    Value { def: Def::Argument(n), ty }
}

fn result_of(at: usize, ty: LlvmType) -> Value {
    Value { def: Def::Result(at), ty }
}

fn options() -> LoweringOptions {
    LoweringOptions { allow_fma_contraction: true, intrinsic_backend: IntrinsicBackend::LlvmNvptx }
}

fn function(name: &str) -> Callee {
    Callee::Function { name: name.to_string(), base_name: None }
}

/// An operand of which nothing but its type is known.
fn plain(n: u64, ty: LlvmType) -> Operand {
    Operand { value: arg(n, ty), history: vec![] }
}

fn signed(n: u64, width: u32, signedness: Signedness) -> Operand {
    Operand { value: arg(n, integer(width)), history: vec![MirType::Integer(width, signedness)] }
}

fn no_shape() -> ArgShape {
    ArgShape { transparent: vec![], spaces: vec![], structure: None, zero_sized: false }
}

fn shape_of(operand: &Operand) -> ArgShape {
    ArgShape { transparent: operand.history.iter().map(|_| None).collect(), ..no_shape() }
}

fn direct(ty: LlvmType) -> CallResult {
    CallResult {
        mir: MirType::Float,
        converted: ty,
        abi: ResultAbi::Direct,
        zero_sized: false,
    }
}

fn call_of(callee: Callee, args: Vec<Operand>, results: Vec<CallResult>) -> MirCall {
    MirCall {
        callee: Some(callee),
        shapes: args.iter().map(shape_of).collect(),
        args,
        results,
        used: true,
    }
}

fn intrinsic(p: Placeholder, args: Vec<Operand>, ty: LlvmType) -> MirCall {
    call_of(Callee::Intrinsic(p), args, vec![direct(ty)])
}

fn lower(call: &MirCall) -> (Builder, Result<Option<Value>, LowerError>) {
    let mut b = Builder::new();
    let r = convert(&mut b, call, &vec![], options());
    (b, r)
}

fn symbols(b: &Builder) -> Vec<&str> {
    b.ops.iter().filter(|op| op.code == OpCode::Call).map(|op| op.symbol.as_str()).collect()
}

#[test]
fn no_fma_policy_removes_only_contract_from_fast_float_intrinsics() {
    let flags = fast_float_intrinsic_flags(LoweringOptions {
        allow_fma_contraction: false,
        intrinsic_backend: IntrinsicBackend::LlvmNvptx,
    });
    assert!(!flags.contract);
    assert!(flags.reassoc);
    assert!(flags.nnan);
    assert!(flags.ninf);
    let fast = fast_float_intrinsic_flags(options());
    assert!(fast.contract && fast.reassoc && fast.nnan && fast.ninf);
    assert!(fast.nsz && fast.arcp && fast.afn);
}

fn nested_wrapper() -> (LlvmType, Vec<Option<ScalarAbi>>) {
    let inner_ty = record(vec![integer(32)]);
    let outer_ty = record(vec![inner_ty.copy()]);
    let candidates = vec![
        Some(ScalarAbi {
            scalar_ty: integer(32),
            layers: vec![
                ScalarLayer { struct_ty: outer_ty.copy(), field_slot: 0 },
                ScalarLayer { struct_ty: inner_ty.copy(), field_slot: 0 },
            ],
        }),
        Some(ScalarAbi {
            scalar_ty: integer(32),
            layers: vec![ScalarLayer { struct_ty: inner_ty, field_slot: 0 }],
        }),
    ];
    (outer_ty, candidates)
}

#[test]
fn nested_transparent_arg_uses_scalar_when_callee_param_is_scalar() {
    let (_, history) = nested_wrapper();
    let at = transparent_scalar_abi_matching_param(&history, &Some(integer(32)))
        .expect("scalar callee parameter must select the outer transparent ABI");
    let selected = history[at].as_ref().unwrap();
    assert_eq!(selected.layers.len(), 2);
    assert_eq!(selected.scalar_ty, integer(32));
    let inner_aggregate_ty = record(vec![integer(32)]);
    assert!(
        transparent_scalar_abi_matching_param(&history, &Some(inner_aggregate_ty)).is_none()
    );
    assert!(transparent_scalar_abi_matching_param(&history, &None).is_none());
}

#[test]
fn test_resolve_device_extern_symbol() {
    let resolve = |name: &str, base: Option<&str>| {
        resolve_device_extern_symbol(&name.to_string(), &base.map(str::to_string))
    };
    assert_eq!(resolve("prefixed_dot_product", Some("dot_product")), "dot_product");
    assert_eq!(resolve("device_ffi_test::prefixed_foo", Some("foo")), "foo");
    assert_eq!(resolve("my_module::regular_function", None), "my_module::regular_function");
    let kernel_name = "kernel_my_kernel";
    assert_eq!(resolve(kernel_name, None), kernel_name);
}

#[test]
fn test_exact_div_placeholder_round_trip() {
    let found = |callee: &Callee| RustExactDivIntrinsic::from_placeholder_callee(callee);
    assert!(found(&Callee::Intrinsic(Placeholder::ExactDiv)).is_some());
    for other in [
        Placeholder::SaturatingAdd,
        Placeholder::SaturatingSub,
        Placeholder::CarryingMulAdd,
        Placeholder::SqrtF32,
    ] {
        assert!(
            found(&Callee::Intrinsic(other)).is_none(),
            "`{other:?}` must not be treated as exact_div"
        );
    }
    assert!(found(&function("core::intrinsics::unchecked_div")).is_none());
}

#[test]
fn test_float_math_placeholder_round_trip() {
    let cases = [
        (Placeholder::SqrtF32, RustFloatMathIntrinsic::SqrtF32),
        (Placeholder::SqrtF64, RustFloatMathIntrinsic::SqrtF64),
        (Placeholder::PowiF32, RustFloatMathIntrinsic::PowiF32),
        (Placeholder::PowiF64, RustFloatMathIntrinsic::PowiF64),
        (Placeholder::FmaF32, RustFloatMathIntrinsic::FmaF32),
        (Placeholder::FmuladdF64, RustFloatMathIntrinsic::FmuladdF64),
        (Placeholder::Fabs, RustFloatMathIntrinsic::Fabs),
        (Placeholder::CopysignF32, RustFloatMathIntrinsic::CopysignF32),
        (Placeholder::Log2F64, RustFloatMathIntrinsic::Log2F64),
        (Placeholder::MaxNumNszF32, RustFloatMathIntrinsic::MaxNumNszF32),
        (Placeholder::MaxNumNszF64, RustFloatMathIntrinsic::MaxNumNszF64),
        (Placeholder::MinNumNszF32, RustFloatMathIntrinsic::MinNumNszF32),
        (Placeholder::MinNumNszF64, RustFloatMathIntrinsic::MinNumNszF64),
        (Placeholder::AsinF32, RustFloatMathIntrinsic::AsinF32),
        (Placeholder::AsinF64, RustFloatMathIntrinsic::AsinF64),
        (Placeholder::AcosF32, RustFloatMathIntrinsic::AcosF32),
        (Placeholder::AcosF64, RustFloatMathIntrinsic::AcosF64),
        (Placeholder::Atan2F32, RustFloatMathIntrinsic::Atan2F32),
        (Placeholder::Atan2F64, RustFloatMathIntrinsic::Atan2F64),
        (Placeholder::AtanF32, RustFloatMathIntrinsic::AtanF32),
        (Placeholder::AtanF64, RustFloatMathIntrinsic::AtanF64),
        (Placeholder::CbrtF32, RustFloatMathIntrinsic::CbrtF32),
        (Placeholder::CbrtF64, RustFloatMathIntrinsic::CbrtF64),
    ];
    for (name, expected) in cases {
        assert_eq!(
            RustFloatMathIntrinsic::from_placeholder_callee(&Callee::Intrinsic(name)),
            Some(expected),
            "placeholder `{name:?}` did not round-trip"
        );
    }
    assert_eq!(
        RustFloatMathIntrinsic::from_placeholder_callee(&function("not_a_placeholder")),
        None,
    );
}

#[test]
fn test_float_math_arg_count() {
    assert_eq!(RustFloatMathIntrinsic::SqrtF32.arg_count(), 1);
    assert_eq!(RustFloatMathIntrinsic::Fabs.arg_count(), 1);
    assert_eq!(RustFloatMathIntrinsic::FloorF64.arg_count(), 1);
    assert_eq!(RustFloatMathIntrinsic::PowiF32.arg_count(), 2);
    assert_eq!(RustFloatMathIntrinsic::PowfF64.arg_count(), 2);
    assert_eq!(RustFloatMathIntrinsic::CopysignF32.arg_count(), 2);
    assert_eq!(RustFloatMathIntrinsic::AsinF32.arg_count(), 1);
    assert_eq!(RustFloatMathIntrinsic::AsinF64.arg_count(), 1);
    assert_eq!(RustFloatMathIntrinsic::AcosF32.arg_count(), 1);
    assert_eq!(RustFloatMathIntrinsic::AcosF64.arg_count(), 1);
    assert_eq!(RustFloatMathIntrinsic::Atan2F32.arg_count(), 2);
    assert_eq!(RustFloatMathIntrinsic::Atan2F64.arg_count(), 2);
    assert_eq!(RustFloatMathIntrinsic::AtanF32.arg_count(), 1);
    assert_eq!(RustFloatMathIntrinsic::AtanF64.arg_count(), 1);
    assert_eq!(RustFloatMathIntrinsic::CbrtF32.arg_count(), 1);
    assert_eq!(RustFloatMathIntrinsic::CbrtF64.arg_count(), 1);
    assert_eq!(RustFloatMathIntrinsic::FmaF32.arg_count(), 3);
    assert_eq!(RustFloatMathIntrinsic::FmuladdF64.arg_count(), 3);
    assert_eq!(RustFloatMathIntrinsic::MaxNumNszF32.arg_count(), 2);
    assert_eq!(RustFloatMathIntrinsic::MaxNumNszF64.arg_count(), 2);
    assert_eq!(RustFloatMathIntrinsic::MinNumNszF32.arg_count(), 2);
    assert_eq!(RustFloatMathIntrinsic::MinNumNszF64.arg_count(), 2);
}

#[test]
fn test_float_math_minmax_nsz_predicates() {
    let pred = |i: RustFloatMathIntrinsic| i.minmax_nsz_predicate();
    assert_eq!(pred(RustFloatMathIntrinsic::MaxNumNszF32), Some(FloatPredicate::OGE));
    assert_eq!(pred(RustFloatMathIntrinsic::MaxNumNszF64), Some(FloatPredicate::OGE));
    assert_eq!(pred(RustFloatMathIntrinsic::MinNumNszF32), Some(FloatPredicate::OLE));
    assert_eq!(pred(RustFloatMathIntrinsic::MinNumNszF64), Some(FloatPredicate::OLE));
    assert_eq!(pred(RustFloatMathIntrinsic::Fabs), None);
}

fn name_in(i: RustFloatMathIntrinsic, ty: LlvmType) -> Option<&'static str> {
    i.llvm_intrinsic_name(&ty).unwrap()
}

#[test]
fn test_float_math_copysign_uses_llvm_and_transcendentals_use_libdevice() {
    let (single, double) = (|| LlvmType::Float, || LlvmType::Double);
    assert_eq!(
        name_in(RustFloatMathIntrinsic::CopysignF32, single()),
        Some("llvm_copysign_f32")
    );
    assert_eq!(
        name_in(RustFloatMathIntrinsic::CopysignF64, double()),
        Some("llvm_copysign_f64")
    );
    assert_eq!(name_in(RustFloatMathIntrinsic::SinF32, single()), None);
}

#[test]
fn test_fabs_llvm_intrinsic_name_dispatches_on_float_width() {
    assert_eq!(fabs_llvm_intrinsic_name(&LlvmType::Float), Ok("llvm_fabs_f32"));
    assert_eq!(fabs_llvm_intrinsic_name(&LlvmType::Double), Ok("llvm_fabs_f64"));
    assert_eq!(fabs_llvm_intrinsic_name(&integer(32)), Err(LowerError::ExpectedFloat));
    assert_eq!(fabs_libdevice_name(&LlvmType::Float), Ok("__nv_fabsf"));
    assert_eq!(fabs_libdevice_name(&LlvmType::Double), Ok("__nv_fabs"));
    assert_eq!(fabs_libdevice_name(&LlvmType::Half), Err(LowerError::ExpectedFloat));
}

#[test]
fn test_llvm_intrinsic_name_routing() {
    let single = |i: RustFloatMathIntrinsic| name_in(i, LlvmType::Float);
    let double = |i: RustFloatMathIntrinsic| name_in(i, LlvmType::Double);
    assert_eq!(single(RustFloatMathIntrinsic::Fabs), Some("llvm_fabs_f32"));
    assert_eq!(double(RustFloatMathIntrinsic::Fabs), Some("llvm_fabs_f64"));
    assert_eq!(single(RustFloatMathIntrinsic::CopysignF32), Some("llvm_copysign_f32"));
    assert_eq!(single(RustFloatMathIntrinsic::FloorF32), Some("llvm_floor_f32"));
    assert_eq!(double(RustFloatMathIntrinsic::FloorF64), Some("llvm_floor_f64"));
    assert_eq!(single(RustFloatMathIntrinsic::CeilF32), Some("llvm_ceil_f32"));
    assert_eq!(double(RustFloatMathIntrinsic::CeilF64), Some("llvm_ceil_f64"));
    assert_eq!(single(RustFloatMathIntrinsic::TruncF32), Some("llvm_trunc_f32"));
    assert_eq!(double(RustFloatMathIntrinsic::TruncF64), Some("llvm_trunc_f64"));
    assert_eq!(single(RustFloatMathIntrinsic::RoundF32), Some("llvm_round_f32"));
    assert_eq!(double(RustFloatMathIntrinsic::RoundF64), Some("llvm_round_f64"));
    assert_eq!(single(RustFloatMathIntrinsic::RoundevenF32), Some("llvm_roundeven_f32"));
    assert_eq!(double(RustFloatMathIntrinsic::RoundevenF64), Some("llvm_roundeven_f64"));
    assert_eq!(single(RustFloatMathIntrinsic::MaxNumNszF32), None);
    assert_eq!(double(RustFloatMathIntrinsic::MinNumNszF64), None);
    assert_eq!(single(RustFloatMathIntrinsic::SinF32), None);
    assert_eq!(double(RustFloatMathIntrinsic::SqrtF64), None);
}

#[test]
fn float_math_symbol_dispatches_on_intrinsic_backend() {
    let symbol = |backend: IntrinsicBackend, i: RustFloatMathIntrinsic| {
        let options = LoweringOptions { allow_fma_contraction: true, intrinsic_backend: backend };
        float_math_intrinsic_symbol(options, i, &LlvmType::Float).unwrap()
    };
    let native = |i: RustFloatMathIntrinsic| symbol(IntrinsicBackend::LlvmNvptx, i);
    assert_eq!(native(RustFloatMathIntrinsic::FloorF32), "llvm_floor_f32");
    assert_eq!(native(RustFloatMathIntrinsic::RoundevenF32), "llvm_roundeven_f32");
    assert_eq!(native(RustFloatMathIntrinsic::Fabs), "llvm_fabs_f32");
    assert_eq!(native(RustFloatMathIntrinsic::CopysignF32), "llvm_copysign_f32");
    assert_eq!(native(RustFloatMathIntrinsic::SinF32), "__nv_sinf");
    let legacy = |i: RustFloatMathIntrinsic| symbol(IntrinsicBackend::LibNvvm, i);
    assert_eq!(legacy(RustFloatMathIntrinsic::FloorF32), "__nv_floorf");
    assert_eq!(legacy(RustFloatMathIntrinsic::RoundevenF32), "__nv_rintf");
    assert_eq!(legacy(RustFloatMathIntrinsic::Fabs), "__nv_fabsf");
    assert_eq!(legacy(RustFloatMathIntrinsic::CopysignF32), "__nv_copysignf");
    assert_eq!(legacy(RustFloatMathIntrinsic::SinF32), "__nv_sinf");
}

#[test]
fn placeholders_name_one_intrinsic_each() {
    let callee = Callee::Intrinsic(Placeholder::CttzNonzero);
    assert_eq!(
        RustBitIntrinsic::from_placeholder_callee(&callee),
        Some(RustBitIntrinsic::Cttz { zero_undef: true })
    );
    assert_eq!(RustSaturatingIntrinsic::from_placeholder_callee(&callee), None);
    assert_eq!(RustFloatMathIntrinsic::from_placeholder_callee(&callee), None);
    assert_eq!(RustBigIntIntrinsic::from_placeholder_callee(&callee), None);
    let callee = Callee::Intrinsic(Placeholder::FaddFast);
    let fast = RustFloatMathIntrinsic::from_placeholder_callee(&callee).unwrap();
    assert_eq!(fast.fast_binop(), Some(FastFloatBinop::Add));
    assert_eq!(RustBitIntrinsic::from_placeholder_callee(&callee), None);
    assert_eq!(RustFloatMathIntrinsic::SqrtF32.fast_binop(), None);
}

#[test]
fn fast_and_minmax_intrinsics_name_no_library_function() {
    for i in [
        RustFloatMathIntrinsic::MaxNumNszF32,
        RustFloatMathIntrinsic::MinNumNszF64,
        RustFloatMathIntrinsic::from_placeholder_callee(&Callee::Intrinsic(Placeholder::FaddFast))
            .unwrap(),
    ] {
        assert_eq!(i.libdevice_name(&LlvmType::Float), Err(LowerError::NoLibraryFunction));
    }
}

#[test]
fn rotation_amount_is_resized() {
    let args = vec![plain(0, integer(64)), plain(1, integer(32))];
    let (b, r) = lower(&intrinsic(Placeholder::RotateLeft, args, integer(64)));
    assert_eq!(b.ops[0].code, OpCode::Cast(CastKind::ZExt));
    assert_eq!(symbols(&b), vec!["llvm_fshl_i64"]);
    let call = b.ops.last().unwrap();
    assert_eq!(
        call.operands,
        vec![arg(0, integer(64)), arg(0, integer(64)), result_of(0, integer(64))]
    );
    assert_eq!(r, Ok(Some(result_of(2, integer(64)))));
}

#[test]
fn bit_counts_are_narrowed_to_the_result() {
    let (b, r) =
        lower(&intrinsic(Placeholder::Ctlz, vec![plain(0, integer(64))], integer(32)));
    assert!(matches!(&b.ops[0].code, OpCode::ConstInt(c) if c.width == 1 && c.bits == 0));
    assert_eq!(b.ops[1].code, OpCode::Declare);
    assert_eq!(b.ops[1].signature, vec![integer(64), integer(1)]);
    assert_eq!(symbols(&b), vec!["llvm_ctlz_i64"]);
    assert_eq!(b.ops[3].code, OpCode::Cast(CastKind::Trunc));
    assert_eq!(r, Ok(Some(result_of(3, integer(32)))));
    let (b, _) =
        lower(&intrinsic(Placeholder::CtlzNonzero, vec![plain(0, integer(64))], integer(32)));
    assert!(matches!(&b.ops[0].code, OpCode::ConstInt(c) if c.width == 1 && c.bits == 1));
}

#[test]
fn swapping_one_byte_changes_nothing() {
    let (b, _) = lower(&intrinsic(Placeholder::Bswap, vec![plain(0, integer(8))], integer(8)));
    assert_eq!(b.ops[0].code, OpCode::Cast(CastKind::Bitcast));
    let (b, r) = lower(&intrinsic(Placeholder::Bswap, vec![plain(0, integer(8))], integer(16)));
    assert_eq!(r, Err(LowerError::ByteSwapWidth));
    assert!(b.ops.is_empty());
    let (b, _) = lower(&intrinsic(Placeholder::Bswap, vec![plain(0, integer(32))], integer(32)));
    assert_eq!(symbols(&b), vec!["llvm_bswap_i32"]);
}

#[test]
fn saturation_follows_the_signedness() {
    for (p, signedness, symbol) in [
        (Placeholder::SaturatingAdd, Signedness::Signed, "llvm_sadd_sat_i32"),
        (Placeholder::SaturatingAdd, Signedness::Unsigned, "llvm_uadd_sat_i32"),
        (Placeholder::SaturatingSub, Signedness::Signed, "llvm_ssub_sat_i32"),
        (Placeholder::SaturatingSub, Signedness::Unsigned, "llvm_usub_sat_i32"),
    ] {
        let args = vec![signed(0, 32, signedness), signed(1, 32, signedness)];
        let (b, _) = lower(&intrinsic(p, args, integer(32)));
        assert_eq!(symbols(&b), vec![symbol]);
    }
    let args = vec![plain(0, integer(32)), plain(1, integer(32))];
    let (_, r) = lower(&intrinsic(Placeholder::SaturatingAdd, args, integer(32)));
    assert_eq!(r, Err(LowerError::ExpectedInteger));
}

#[test]
fn exact_division_divides() {
    for (signedness, op) in
        [(Signedness::Signed, IntBinary::SDiv), (Signedness::Unsigned, IntBinary::UDiv)]
    {
        let args = vec![signed(0, 32, signedness), signed(1, 32, signedness)];
        let (b, r) = lower(&intrinsic(Placeholder::ExactDiv, args, integer(32)));
        assert_eq!(b.ops.len(), 1);
        assert_eq!(b.ops[0].code, OpCode::Int(op));
        assert_eq!(r, Ok(Some(result_of(0, integer(32)))));
    }
    let args = vec![plain(0, LlvmType::Float), plain(1, integer(32))];
    let (_, r) = lower(&intrinsic(Placeholder::ExactDiv, args, integer(32)));
    assert_eq!(r, Err(LowerError::ExpectedInteger));
}

/// Runs the emitted operations of a multiplication with carry.
fn carrying(a: u64, b: u64, c: u64, d: u64, signedness: Signedness) -> (u64, u64) {
    let args: Vec<Operand> = (0..4).map(|n| signed(n, 64, signedness)).collect();
    let pair = record(vec![integer(64), integer(64)]);
    let (builder, _) = lower(&intrinsic(Placeholder::CarryingMulAdd, args, pair));
    let inputs = [a, b, c, d];
    let mut data: Vec<u128> = Vec::new();
    let mut members = Vec::new();
    for op in &builder.ops {
        let at = |i: usize| match op.operands[i].def {
            Def::Argument(n) => u128::from(inputs[n as usize]),
            Def::Result(n) => data[n],
        };
        let computed = match &op.code {
            OpCode::ConstInt(k) => k.bits,
            OpCode::Cast(CastKind::SExt) => at(0) as u64 as i64 as i128 as u128,
            OpCode::Cast(CastKind::ZExt) => at(0),
            OpCode::Cast(CastKind::Trunc) => u128::from(at(0) as u64),
            OpCode::Int(IntBinary::Mul) => at(0).wrapping_mul(at(1)),
            OpCode::Int(IntBinary::Add) => at(0).wrapping_add(at(1)),
            OpCode::Int(IntBinary::LShr) => at(0) >> at(1),
            OpCode::Undef => 0,
            OpCode::InsertValue => {
                members.push(at(1) as u64);
                0
            }
            other => panic!("unexpected operation: {other:?}"),
        };
        data.push(computed);
    }
    (members[0], members[1])
}

/// Low and high half together are the product plus both addends.
#[test]
fn carrying_mul_add_computes_the_double_width_sum() {
    let unsigned = |a, b, c, d| carrying(a, b, c, d, Signedness::Unsigned);
    assert_eq!(unsigned(3, 5, 7, 11), (33, 0));
    assert_eq!(unsigned(u64::MAX, u64::MAX, u64::MAX, u64::MAX), (u64::MAX, u64::MAX));
    assert_eq!(unsigned(1 << 63, 4, 0, 1), (1, 2));
    let minus_six = carrying(3, (-2i64) as u64, 0, 0, Signedness::Signed);
    assert_eq!(minus_six, ((-6i64) as u64, u64::MAX));
}

#[test]
fn carrying_mul_add_is_limited_to_machine_words() {
    let args: Vec<Operand> = (0..4).map(|n| signed(n, 128, Signedness::Unsigned)).collect();
    let (b, r) = lower(&intrinsic(Placeholder::CarryingMulAdd, args, record(vec![])));
    assert_eq!(r, Err(LowerError::WideCarryingMul));
    assert!(b.ops.is_empty());
}

#[test]
fn unpredictable_selection_is_a_select() {
    let args =
        vec![plain(0, integer(1)), plain(1, LlvmType::Float), plain(2, LlvmType::Float)];
    let (b, r) = lower(&intrinsic(Placeholder::SelectUnpredictable, args, LlvmType::Float));
    assert_eq!(b.ops[0].code, OpCode::Select);
    assert_eq!(r, Ok(Some(result_of(0, LlvmType::Float))));
    let (_, r) = lower(&intrinsic(Placeholder::SelectUnpredictable, vec![], LlvmType::Float));
    assert_eq!(r, Err(LowerError::OperandCount));
    let none = call_of(Callee::Intrinsic(Placeholder::SelectUnpredictable), vec![], vec![]);
    assert_eq!(lower(&none).1, Err(LowerError::ResultCount));
}

#[test]
fn float_math_calls_the_device_library() {
    let args = vec![plain(0, LlvmType::Double), plain(1, integer(32))];
    let (b, r) = lower(&intrinsic(Placeholder::PowiF64, args, LlvmType::Double));
    assert_eq!(b.ops[0].code, OpCode::Declare);
    assert_eq!(b.ops[0].signature, vec![LlvmType::Double, integer(32)]);
    assert_eq!(symbols(&b), vec!["__nv_powi"]);
    assert_eq!(r, Ok(Some(result_of(1, LlvmType::Double))));
    let (b, r) = lower(&intrinsic(Placeholder::SinF32, vec![], LlvmType::Float));
    assert_eq!(r, Err(LowerError::OperandCount));
    assert!(b.ops.is_empty());
}

#[test]
fn fast_arithmetic_is_inlined() {
    let args = vec![plain(0, LlvmType::Float), plain(1, LlvmType::Float)];
    let (b, _) = lower(&intrinsic(Placeholder::FremFast, args, LlvmType::Float));
    assert_eq!(b.ops.len(), 1);
    assert_eq!(
        b.ops[0].code,
        OpCode::Float(FloatBinary::FRem, fast_float_intrinsic_flags(options()))
    );
}

#[test]
fn number_maximum_prefers_numbers() {
    let args = vec![plain(0, LlvmType::Float), plain(1, LlvmType::Float)];
    let (b, _) = lower(&intrinsic(Placeholder::MaxNumNszF32, args, LlvmType::Float));
    let codes: Vec<&OpCode> = b.ops.iter().map(|op| &op.code).collect();
    assert!(codes.iter().any(|c| matches!(c, OpCode::FloatCompare(FloatPredicate::OGE, _))));
    assert!(codes.iter().any(|c| matches!(c, OpCode::FloatCompare(FloatPredicate::UNO, _))));
    assert_eq!(codes.iter().filter(|c| ***c == OpCode::Select).count(), 2);
    assert!(symbols(&b).is_empty());
}

#[test]
fn functions_are_called_with_their_result() {
    let mut call = call_of(
        function("callee"),
        vec![plain(0, integer(32))],
        vec![direct(LlvmType::Float)],
    );
    let (b, r) = lower(&call);
    assert_eq!(symbols(&b), vec!["callee"]);
    assert_eq!(b.ops[0].signature, vec![integer(32)]);
    assert_eq!(r, Ok(Some(result_of(0, LlvmType::Float))));
    call.results = vec![];
    assert_eq!(lower(&call).1, Err(LowerError::LiveVoidResult));
    call.used = false;
    let (b, r) = lower(&call);
    assert_eq!(r, Ok(None));
    assert_eq!(b.ops[0].ty, LlvmType::Void);
    call.callee = None;
    assert_eq!(lower(&call).1, Err(LowerError::MissingAttribute));
}

#[test]
fn library_functions_are_declared() {
    let call = call_of(
        function("__nv_rsqrtf"),
        vec![plain(0, LlvmType::Float)],
        vec![direct(LlvmType::Float)],
    );
    let (b, _) = lower(&call);
    assert_eq!(b.ops[0].code, OpCode::Declare);
    assert_eq!(b.ops[0].symbol, "__nv_rsqrtf");
    assert_eq!(b.ops[1].code, OpCode::Call);
}

#[test]
fn paths_are_mangled_in_calls() {
    let mut call = call_of(function("my_module::regular_function"), vec![], vec![]);
    call.used = false;
    let (b, r) = lower(&call);
    assert_eq!(r, Ok(None));
    assert_eq!(symbols(&b), vec!["my_module__regular_function"]);
    assert_eq!(mangle("a::b::c"), "a__b__c");
    assert_eq!(mangle("::"), "__");
    assert_eq!(mangle(":::"), "__:");
    assert_eq!(mangle("plain_name:"), "plain_name:");
    let decls = vec![Declaration {
        name: "m__f".to_string(),
        parameters: Parameters::Lowered(vec![LlvmType::Pointer(3)]),
    }];
    let mut call = call_of(function("m::f"), vec![plain(0, LlvmType::Pointer(3))], vec![]);
    call.used = false;
    let mut b = Builder::new();
    convert(&mut b, &call, &decls, options()).unwrap();
    assert_eq!(b.ops[0].signature, vec![LlvmType::Pointer(3)]);
}

#[test]
fn device_externals_are_called_by_their_base_name() {
    let callee = Callee::Function {
        name: "prefixed_dot".to_string(),
        base_name: Some("dot".to_string()),
    };
    let (b, _) = lower(&call_of(callee, vec![], vec![direct(integer(32))]));
    assert_eq!(symbols(&b), vec!["dot"]);
}

#[test]
fn results_of_zero_size_are_undefined_values() {
    let empty = CallResult { zero_sized: true, ..direct(record(vec![])) };
    let mut call = call_of(function("callee"), vec![], vec![empty]);
    let (b, r) = lower(&call);
    assert_eq!(b.ops[0].ty, LlvmType::Void);
    assert_eq!(b.ops[1].code, OpCode::Undef);
    assert_eq!(r, Ok(Some(result_of(1, record(vec![])))));
    call.used = false;
    assert_eq!(lower(&call).1, Ok(None));
    let unit = CallResult { mir: MirType::Tuple(vec![], Layout::unknown()), ..direct(integer(8)) };
    let call = call_of(function("callee"), vec![], vec![unit]);
    assert_eq!(lower(&call).0.ops[0].ty, LlvmType::Void);
}

#[test]
fn transparent_results_are_wrapped_again() {
    let (outer_ty, candidates) = nested_wrapper();
    let abi = candidates.into_iter().next().unwrap().unwrap();
    let result = CallResult {
        mir: MirType::Float,
        converted: outer_ty.copy(),
        abi: ResultAbi::Transparent(abi),
        zero_sized: false,
    };
    let (b, r) = lower(&call_of(function("callee"), vec![], vec![result]));
    assert_eq!(b.ops[0].ty, integer(32));
    let codes: Vec<&OpCode> = b.ops[1..].iter().map(|op| &op.code).collect();
    assert_eq!(
        codes,
        vec![&OpCode::Undef, &OpCode::InsertValue, &OpCode::Undef, &OpCode::InsertValue]
    );
    assert_eq!(b.ops[2].ty, record(vec![integer(32)]));
    assert_eq!(b.ops[2].operands[1], result_of(0, integer(32)));
    assert_eq!(r, Ok(Some(result_of(4, outer_ty))));
}

#[test]
fn packed_results_are_unpacked() {
    let result = CallResult {
        abi: ResultAbi::PackedShared(integer(64), integer(32)),
        ..direct(integer(32))
    };
    let (b, r) = lower(&call_of(function("callee"), vec![], vec![result]));
    assert_eq!(b.ops[0].ty, integer(64));
    assert_eq!(b.ops[1].code, OpCode::Coerce(Coercion::TargetStable));
    assert_eq!(r, Ok(Some(result_of(1, integer(32)))));
}

#[test]
fn transparent_arguments_are_unwrapped_for_a_scalar_parameter() {
    let (outer_ty, candidates) = nested_wrapper();
    let operand = Operand {
        value: arg(0, outer_ty),
        history: vec![MirType::Float, MirType::Float],
    };
    let shapes = vec![ArgShape { transparent: candidates, ..no_shape() }];
    let mut b = Builder::new();
    let flat =
        flatten_arguments(&mut b, &vec![operand], &shapes, &Some(vec![integer(32)])).unwrap();
    assert_eq!(b.ops.len(), 2);
    assert!(b.ops.iter().all(|op| op.code == OpCode::ExtractValue));
    assert_eq!(flat.values, vec![result_of(1, integer(32))]);
    assert_eq!(flat.types, vec![integer(32)]);
}

fn slice_ty() -> LlvmType {
    LlvmType::slice_struct()
}

#[test]
fn slices_become_pointer_and_length() {
    let operand = Operand {
        value: arg(0, slice_ty()),
        history: vec![MirType::Slice(Box::new(MirType::Float))],
    };
    let shapes = vec![shape_of(&operand)];
    let mut b = Builder::new();
    let flat = flatten_arguments(&mut b, &vec![operand], &shapes, &None).unwrap();
    assert_eq!(flat.types, vec![LlvmType::Pointer(0), integer(64)]);
    assert_eq!(b.ops[0].indices, vec![Index::Const(0)]);
    assert_eq!(b.ops[1].indices, vec![Index::Const(1)]);
}

#[test]
fn index_spaces_follow_the_length() {
    let ty = record(vec![LlvmType::Pointer(0), integer(64), record(vec![]), integer(32)]);
    let operand = Operand {
        value: arg(0, ty),
        history: vec![MirType::DisjointSlice(
            Box::new(MirType::Float),
            vec![MirType::Float, MirType::Float],
        )],
    };
    let shapes = vec![ArgShape {
        spaces: vec![
            SpaceField { ty: record(vec![]), zero_sized: true },
            SpaceField { ty: integer(32), zero_sized: false },
        ],
        ..shape_of(&operand)
    }];
    let mut b = Builder::new();
    let flat = flatten_arguments(&mut b, &vec![operand], &shapes, &None).unwrap();
    assert_eq!(flat.types, vec![LlvmType::Pointer(0), integer(64), integer(32)]);
    assert_eq!(b.ops[2].indices, vec![Index::Const(3)]);
}

#[test]
fn struct_fields_are_passed_in_memory_order() {
    let ty = record(vec![LlvmType::Pointer(3), LlvmType::Float]);
    let layout = Layout { mem_to_decl: vec![2, 1, 0], ..Layout::unknown() };
    let operand = Operand {
        value: arg(0, ty.copy()),
        history: vec![MirType::Struct("Pair".to_string(), vec![], vec![], layout)],
    };
    let info = StructInfo {
        mem_to_decl: vec![2, 1, 0],
        field_offsets: vec![],
        abi_align: 8,
        map: StructSlotMap {
            struct_ty: ty,
            decl_to_llvm: vec![Some(1), None, Some(0)],
            field_types: vec![LlvmType::Float, record(vec![]), LlvmType::Pointer(3)],
            natural_slot_offsets: None,
            layout_diverges: false,
        },
    };
    let shapes = vec![ArgShape { structure: Some(info), ..shape_of(&operand) }];
    let mut b = Builder::new();
    let flat = flatten_arguments(&mut b, &vec![operand], &shapes, &None).unwrap();
    assert_eq!(flat.types, vec![LlvmType::Pointer(0), LlvmType::Float]);
    assert_eq!(b.ops[1].code, OpCode::Cast(CastKind::AddrSpaceCast));
    assert_eq!(flat.values[0], result_of(1, LlvmType::Pointer(0)));
}

#[test]
fn arguments_of_zero_size_are_dropped() {
    let operand = plain(0, record(vec![]));
    let shapes = vec![ArgShape { zero_sized: true, ..shape_of(&operand) }];
    let mut b = Builder::new();
    let flat = flatten_arguments(&mut b, &vec![operand], &shapes, &None).unwrap();
    assert!(flat.values.is_empty() && flat.types.is_empty() && b.ops.is_empty());
}

#[test]
fn flattening_stops_at_a_member_that_is_not_there() {
    let operand = Operand {
        value: arg(0, integer(32)),
        history: vec![MirType::Slice(Box::new(MirType::Float))],
    };
    let shapes = vec![shape_of(&operand)];
    let mut b = Builder::new();
    assert_eq!(
        flatten_arguments(&mut b, &vec![operand], &shapes, &None),
        Err(LowerError::NoSuchMember)
    );
}

#[test]
fn pointers_are_cast_to_the_space_of_the_parameter() {
    let mut b = Builder::new();
    let shared = LlvmType::Pointer(3);
    let mut coerce =
        |ty: LlvmType, param: Option<LlvmType>| {
            coerce_arg_to_param_ty(&mut b, arg(0, ty.copy()), ty, param).1
        };
    assert_eq!(coerce(shared.copy(), Some(LlvmType::Pointer(3))), shared);
    assert_eq!(coerce(shared.copy(), Some(LlvmType::Pointer(1))), LlvmType::Pointer(1));
    assert_eq!(coerce(shared.copy(), None), LlvmType::Pointer(0));
    assert_eq!(coerce(LlvmType::Pointer(0), None), LlvmType::Pointer(0));
    assert_eq!(coerce(shared.copy(), Some(integer(64))), shared);
    assert_eq!(coerce(integer(32), Some(LlvmType::Pointer(0))), integer(32));
    assert_eq!(b.ops.len(), 2);
}

#[test]
fn declared_parameters_are_found_by_name() {
    let decl = |name: &str, parameters: Parameters| Declaration {
        name: name.to_string(),
        parameters,
    };
    let decls = vec![
        decl("f", Parameters::Pending(Some(vec![integer(8)]))),
        decl("g", Parameters::Pending(None)),
        decl("f", Parameters::Pending(Some(vec![integer(16)]))),
        decl("f", Parameters::Lowered(vec![integer(32)])),
        decl("f", Parameters::Lowered(vec![integer(64)])),
    ];
    assert_eq!(find_callee_arg_types(&decls, "f"), Some(vec![integer(32)]));
    assert_eq!(find_callee_arg_types(&decls, "g"), None);
    assert_eq!(find_callee_arg_types(&decls, "h"), None);
    let pending = vec![
        decl("f", Parameters::Pending(Some(vec![integer(8)]))),
        decl("f", Parameters::Pending(Some(vec![integer(16)]))),
    ];
    assert_eq!(find_callee_arg_types(&pending, "f"), Some(vec![integer(16)]));
}

#[test]
fn declared_parameters_decide_the_address_space() {
    let decls = vec![Declaration {
        name: "callee".to_string(),
        parameters: Parameters::Lowered(vec![LlvmType::Pointer(3)]),
    }];
    let call = call_of(
        function("callee"),
        vec![plain(0, LlvmType::Pointer(3))],
        vec![direct(integer(32))],
    );
    let mut b = Builder::new();
    convert(&mut b, &call, &decls, options()).unwrap();
    assert_eq!(b.ops[0].signature, vec![LlvmType::Pointer(3)]);
    let (b, _) = lower(&call);
    assert_eq!(b.ops[1].signature, vec![LlvmType::Pointer(0)]);
}

#[test]
fn integers_are_resized_by_zeros() {
    let mut b = Builder::new();
    let same = cast_integer_value_to_type(&mut b, &arg(0, integer(32)), &integer(32));
    assert_eq!(same, Ok(arg(0, integer(32))));
    assert!(b.ops.is_empty());
    cast_integer_value_to_type(&mut b, &arg(0, integer(32)), &integer(64)).unwrap();
    cast_integer_value_to_type(&mut b, &arg(0, integer(32)), &integer(8)).unwrap();
    assert_eq!(b.ops[0].code, OpCode::Cast(CastKind::ZExt));
    assert_eq!(b.ops[1].code, OpCode::Cast(CastKind::Trunc));
    assert_eq!(integer_bit_width(&integer(7)), Ok(7));
    assert_eq!(integer_bit_width(&LlvmType::Half), Err(LowerError::ExpectedInteger));
}
