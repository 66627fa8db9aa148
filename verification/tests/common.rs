//! Helpers shared by the intrinsic lowerings.

use mir_lower::intrinsics::bf16x2::convert_fma_bf16x2;
use mir_lower::intrinsics::common::{
    call_intrinsic, cast_to_cluster_shared_addrspace, cast_to_shared_addrspace, create_i1_const,
    create_i32_const, create_i64_const, inline_asm_convergent, inline_asm_sideeffect, trunc_to_i1,
};
use mir_lower::intrinsics::convert::convert_cvt_f16x2_f32;
use mir_lower::intrinsics::dotprod::{
    convert_dp2a_s32, convert_dp2a_u32, convert_dp4a_s32, convert_dp4a_u32,
};
use mir_lower::intrinsics::warp::{
    convert_active_mask, convert_bar_warp_sync, convert_match_all, convert_match_any,
    convert_redux, convert_shuffle_f32, convert_shuffle_i32, convert_vote,
};
use mir_lower::llvm::{LlvmType, Signedness};
use mir_lower::lower::LowerError;
use mir_lower::ops::{AsmKind, Builder, CastKind, Def, Op, OpCode, Value};

const TEST_INTRINSIC_NAME: &str = "llvm_test_intrinsic";

fn integer(width: u32) -> LlvmType {
    LlvmType::Integer(width, Signedness::Signless)
}

fn arg(n: u64, ty: LlvmType) -> Value {
    Value { def: Def::Argument(n), ty }
}

fn result_of(at: usize, ty: LlvmType) -> Value {
    Value { def: Def::Result(at), ty }
}

fn constant_signature(op: &Op) -> (Signedness, u32, u64) {
    match (&op.code, &op.ty) {
        (OpCode::ConstInt(c), LlvmType::Integer(width, signedness)) => {
            assert_eq!(c.width, *width, "result and attribute types must match");
            (*signedness, *width, c.bits as u64)
        }
        other => panic!("constant value must be an integer: {other:?}"),
    }
}

#[test]
fn create_integer_constants_emit_expected_types_and_bit_patterns() {
    let mut b = Builder::new();
    create_i1_const(&mut b, false);
    create_i1_const(&mut b, true);
    create_i32_const(&mut b, -7);
    create_i64_const(&mut b, 42);
    let constants: Vec<(Signedness, u32, u64)> = b.ops.iter().map(constant_signature).collect();
    assert_eq!(
        constants,
        vec![
            (Signedness::Signless, 1, 0),
            (Signedness::Signless, 1, 1),
            (Signedness::Signless, 32, (-7_i32) as u32 as u64),
            (Signedness::Signless, 64, 42),
        ]
    );
}

#[test]
fn cast_to_shared_addr_space_inserts_cast_to_addr_space_3() {
    let mut b = Builder::new();
    let returned = cast_to_shared_addrspace(&mut b, &arg(0, LlvmType::Pointer(0)));
    assert_eq!(b.ops.len(), 1);
    assert_eq!(b.ops[0].code, OpCode::Cast(CastKind::AddrSpaceCast));
    assert_eq!(returned, result_of(0, LlvmType::Pointer(3)));
    assert_eq!(b.ops[0].ty, LlvmType::Pointer(3));
}

#[test]
fn cast_to_shared_addr_space_skips_cast_when_already_shared() {
    let mut b = Builder::new();
    let input = arg(0, LlvmType::Pointer(3));
    let returned = cast_to_shared_addrspace(&mut b, &input);
    assert!(b.ops.is_empty());
    assert_eq!(returned, input);
}

#[test]
fn cast_to_cluster_shared_addr_space_inserts_cast_to_addr_space_7() {
    let mut b = Builder::new();
    let returned = cast_to_cluster_shared_addrspace(&mut b, &arg(0, LlvmType::Pointer(0)));
    assert_eq!(b.ops.len(), 1);
    assert_eq!(b.ops[0].code, OpCode::Cast(CastKind::AddrSpaceCast));
    assert_eq!(returned, result_of(0, LlvmType::Pointer(7)));
    assert_eq!(b.ops[0].ty, LlvmType::Pointer(7));
}

#[test]
fn cast_to_cluster_shared_addr_space_skips_cast_when_already_cluster_shared() {
    let mut b = Builder::new();
    let input = arg(0, LlvmType::Pointer(7));
    let returned = cast_to_cluster_shared_addrspace(&mut b, &input);
    assert!(b.ops.is_empty());
    assert_eq!(returned, input);
}

/// Bringing a pointer into an address space twice is the same as once.
#[test]
fn space_casts_are_idempotent() {
    let mut b = Builder::new();
    let once = cast_to_shared_addrspace(&mut b, &arg(0, LlvmType::Pointer(1)));
    let twice = cast_to_shared_addrspace(&mut b, &once);
    assert_eq!(b.ops.len(), 1);
    assert_eq!(once, twice);
}

#[test]
fn call_intrinsic_declares_and_calls_direct_intrinsic() {
    let mut b = Builder::new();
    call_intrinsic(&mut b, TEST_INTRINSIC_NAME, vec![], &integer(32), vec![]);
    let found_decl = b
        .ops
        .iter()
        .any(|op| op.code == OpCode::Declare && op.symbol == TEST_INTRINSIC_NAME);
    let found_call = b
        .ops
        .iter()
        .any(|op| op.code == OpCode::Call && op.symbol == TEST_INTRINSIC_NAME);
    assert!(found_decl, "expected intrinsic declaration");
    assert!(found_call, "expected direct intrinsic call");
}

#[test]
fn inline_asm_convergent_sets_template_constraints_and_convergent_attr() {
    let mut b = Builder::new();
    inline_asm_convergent(&mut b, &LlvmType::Void, vec![], "bar.sync 0;", "~{memory}");
    assert_eq!(b.ops.len(), 1);
    let inline = &b.ops[0];
    assert_eq!(inline.symbol, "bar.sync 0;");
    assert_eq!(inline.constraints, "~{memory}");
    assert_eq!(inline.code, OpCode::InlineAsm(AsmKind::Convergent));
}

#[test]
fn inline_asm_sideeffect_sets_template_constraints_and_sideeffect_kind() {
    let mut b = Builder::new();
    let dst = arg(0, LlvmType::Pointer(1));
    let value = arg(1, integer(32));
    inline_asm_sideeffect(
        &mut b,
        &LlvmType::Void,
        vec![dst.copy(), value.copy()],
        "st.global.u32 [$0], $1;",
        "l,r,~{memory}",
    );
    assert_eq!(b.ops.len(), 1);
    let inline = &b.ops[0];
    assert_eq!(inline.symbol, "st.global.u32 [$0], $1;");
    assert_eq!(inline.constraints, "l,r,~{memory}");
    assert_eq!(inline.operands, vec![dst, value]);
    assert_eq!(inline.code, OpCode::InlineAsm(AsmKind::SideEffect));
}

#[test]
fn trunc_to_i1_emits_i1_trunc_result() {
    let mut b = Builder::new();
    let returned = trunc_to_i1(&mut b, &arg(0, integer(32)));
    assert_eq!(b.ops.len(), 1);
    assert_eq!(b.ops[0].code, OpCode::Cast(CastKind::Trunc));
    assert_eq!(returned, result_of(0, integer(1)));
    assert_eq!(b.ops[0].ty, integer(1));
}

#[test]
fn shuffles_take_the_clamp_as_last_argument() {
    let mut b = Builder::new();
    let operands = vec![arg(0, integer(32)), arg(1, integer(32)), arg(2, integer(32))];
    let r = convert_shuffle_i32(&mut b, &operands, "llvm_nvvm_shfl_sync_down_i32", 31).unwrap();
    assert_eq!(r, result_of(2, integer(32)));
    assert_eq!(constant_signature(&b.ops[0]), (Signedness::Signless, 32, 31));
    assert_eq!(b.ops[1].code, OpCode::Declare);
    assert_eq!(b.ops[2].operands.len(), 4);
    assert_eq!(b.ops[2].operands[3], result_of(0, integer(32)));
    let mut b = Builder::new();
    let operands = vec![arg(0, integer(32)), arg(1, LlvmType::Float), arg(2, integer(32))];
    let r = convert_shuffle_f32(&mut b, &operands, "llvm_nvvm_shfl_sync_bfly_f32", 31).unwrap();
    assert_eq!(r.ty, LlvmType::Float);
    assert_eq!(b.ops[2].signature, vec![integer(32), LlvmType::Float, integer(32), integer(32)]);
    assert_eq!(
        convert_shuffle_i32(&mut b, &vec![], "llvm_nvvm_shfl_sync_up_i32", 0),
        Err(LowerError::OperandCount)
    );
}

#[test]
fn ballots_return_a_mask_and_other_votes_a_bit() {
    let operands = vec![arg(0, integer(32)), arg(1, integer(1))];
    let mut b = Builder::new();
    let ballot = convert_vote(&mut b, &operands, "llvm_nvvm_vote_ballot_sync").unwrap();
    assert_eq!(ballot.ty, integer(32));
    let all = convert_vote(&mut b, &operands, "llvm_nvvm_vote_all_sync").unwrap();
    assert_eq!(all.ty, integer(1));
    let any = convert_match_any(&mut b, &operands, "llvm_nvvm_match_any_sync_i64", &integer(64));
    assert_eq!(any.unwrap().ty, integer(32));
    assert_eq!(b.ops[5].signature, vec![integer(32), integer(64)]);
}

#[test]
fn redux_passes_the_value_before_the_mask() {
    let (mask, value) = (arg(0, integer(32)), arg(1, integer(32)));
    let mut b = Builder::new();
    convert_redux(&mut b, &vec![mask.copy(), value.copy()], "llvm_nvvm_redux_sync_add").unwrap();
    assert_eq!(b.ops[1].operands, vec![value, mask]);
}

#[test]
fn match_all_keeps_the_mask_of_the_pair() {
    let operands = vec![arg(0, integer(32)), arg(1, integer(32))];
    let mut b = Builder::new();
    let r = convert_match_all(&mut b, &operands, "llvm_nvvm_match_all_sync_i32p", &integer(32));
    assert_eq!(r.unwrap(), result_of(2, integer(32)));
    assert_eq!(b.ops[1].ty, LlvmType::pair(integer(32), integer(1)));
    assert_eq!(b.ops[2].code, OpCode::ExtractValue);
}

#[test]
fn mask_reads_and_barriers() {
    let mut b = Builder::new();
    let mask = convert_active_mask(&mut b);
    assert_eq!(mask, result_of(1, integer(32)));
    assert_eq!(b.ops[1].symbol, "llvm_nvvm_activemask");
    assert_eq!(convert_bar_warp_sync(&mut b, &vec![mask]), Ok(()));
    assert_eq!(b.ops[3].ty, LlvmType::Void);
    assert_eq!(convert_bar_warp_sync(&mut b, &vec![]), Err(LowerError::OperandCount));
}

#[test]
fn packed_arithmetic_is_pure_assembly() {
    let operands = vec![arg(0, integer(32)), arg(1, integer(32)), arg(2, integer(32))];
    let mut b = Builder::new();
    convert_dp4a_s32(&mut b, &operands).unwrap();
    convert_dp4a_u32(&mut b, &operands).unwrap();
    convert_dp2a_s32(&mut b, &operands).unwrap();
    convert_dp2a_u32(&mut b, &operands).unwrap();
    convert_fma_bf16x2(&mut b, &operands).unwrap();
    let templates: Vec<&str> = b.ops.iter().map(|op| op.symbol.as_str()).collect();
    assert_eq!(
        templates,
        vec![
            "dp4a.s32.s32 $0, $1, $2, $3;",
            "dp4a.u32.u32 $0, $1, $2, $3;",
            "dp2a.lo.s32.s32 $0, $1, $2, $3;",
            "dp2a.lo.u32.u32 $0, $1, $2, $3;",
            "fma.rn.bf16x2 $0, $1, $2, $3;",
        ]
    );
    assert!(b.ops.iter().all(|op| op.code == OpCode::InlineAsm(AsmKind::Pure)));
    assert_eq!(convert_dp4a_s32(&mut b, &vec![]), Err(LowerError::OperandCount));
}

#[test]
fn packing_halves_puts_the_first_operand_low() {
    let operands = vec![arg(0, LlvmType::Float), arg(1, LlvmType::Float)];
    let mut b = Builder::new();
    convert_cvt_f16x2_f32(&mut b, &operands).unwrap();
    assert_eq!(b.ops[0].symbol, "cvt.rn.f16x2.f32 $0, $2, $1;");
    assert_eq!(b.ops[0].constraints, "=r,f,f");
    assert_eq!(b.ops[0].operands, operands);
}
