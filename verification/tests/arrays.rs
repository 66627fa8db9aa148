//! Reading and building arrays.

use mir_lower::aggregates::convert_construct_array;
use mir_lower::array_extract::{convert_extract_array_element, ArrayInfo};
use mir_lower::intrinsics::common::create_i64_const;
use mir_lower::llvm::{FieldTypes, LlvmType, Signedness};
use mir_lower::lower::LowerError;
use mir_lower::ops::{Builder, Def, Index, IntBinary, IntPredicate, OpCode, Value};

const LIMIT: u64 = 16;

fn integer(width: u32) -> LlvmType {
    LlvmType::Integer(width, Signedness::Signless)
}

fn arg(n: u64, ty: LlvmType) -> Value {
    Value { def: Def::Argument(n), ty }
}

fn count(b: &Builder, wanted: fn(&OpCode) -> bool) -> usize {
    b.ops.iter().filter(|op| wanted(&op.code)).count()
}

fn extracts(b: &Builder) -> usize {
    count(b, |c| *c == OpCode::ExtractValue)
}

fn compares(b: &Builder) -> usize {
    count(b, |c| *c == OpCode::IntCompare(IntPredicate::EQ))
}

fn selects(b: &Builder) -> usize {
    count(b, |c| *c == OpCode::Select)
}

fn allocas(b: &Builder) -> usize {
    count(b, |c| matches!(c, OpCode::Alloca(_)))
}

fn stores(b: &Builder) -> usize {
    count(b, |c| *c == OpCode::Store)
}

fn geps(b: &Builder) -> usize {
    count(b, |c| matches!(c, OpCode::Gep(_, _)))
}

fn loads(b: &Builder) -> usize {
    count(b, |c| *c == OpCode::Load)
}

fn lower_array_extract_case(size: u64, divisor: Option<i64>) -> Builder {
    let array_ty = LlvmType::Array(Box::new(integer(32)), size);
    let mut b = Builder::new();
    let raw = arg(0, integer(64));
    let array = b.undef(&array_ty);
    let index = match divisor {
        Some(divisor) => {
            let divisor = create_i64_const(&mut b, divisor);
            b.binary(IntBinary::URem, &raw, &divisor)
        }
        None => raw,
    };
    let recorded = Some(ArrayInfo { element: integer(32), size, abi_align: None });
    convert_extract_array_element(&mut b, &array, &index, &recorded, LIMIT)
        .expect("lowering failed");
    b
}

fn assert_array_extract_memory_fallback(b: &Builder) {
    assert_eq!(allocas(b), 1);
    assert_eq!(stores(b), 1);
    assert_eq!(geps(b), 1);
    assert_eq!(loads(b), 1);
    assert_eq!(selects(b), 0);
}

#[test]
fn bounded_urem_array_extract_stays_in_ssa() {
    let b = lower_array_extract_case(3, Some(3));
    assert_eq!(extracts(&b), 3);
    assert_eq!(compares(&b), 2);
    assert_eq!(selects(&b), 2);
    assert_eq!(allocas(&b), 0);
    assert_eq!(stores(&b), 0);
    assert_eq!(geps(&b), 0);
    assert_eq!(loads(&b), 0);
}

#[test]
fn unbounded_array_extract_keeps_memory_fallback() {
    assert_array_extract_memory_fallback(&lower_array_extract_case(3, None));
}

#[test]
fn oversized_urem_array_extract_keeps_memory_fallback() {
    assert_array_extract_memory_fallback(&lower_array_extract_case(17, Some(17)));
}

#[test]
fn dynamic_array_extract_preserves_recursive_element_alignment() {
    let tuple_ty = LlvmType::Struct(Box::new(FieldTypes::of(vec![integer(8)])), false);
    let inner = LlvmType::Array(Box::new(tuple_ty), 2);
    let outer = LlvmType::Array(Box::new(inner.copy()), 3);
    let mut b = Builder::new();
    let array = b.undef(&outer);
    let recorded = Some(ArrayInfo { element: inner, size: 3, abi_align: Some(32) });
    convert_extract_array_element(&mut b, &array, &arg(0, integer(64)), &recorded, LIMIT).unwrap();
    for op in &b.ops {
        if matches!(op.code, OpCode::Alloca(_) | OpCode::Store | OpCode::Load) {
            assert_eq!(op.align, Some(32));
        }
    }
    assert_eq!((allocas(&b), stores(&b), loads(&b)), (1, 1, 1));
}

/// The candidates are compared from the last but one down to the first.
#[test]
fn bounded_extract_selects_each_candidate_by_position() {
    let b = lower_array_extract_case(4, Some(3));
    // undef, constant, urem, three extracts, then constant/compare/select twice
    let positions: Vec<u128> = b.ops[6..]
        .iter()
        .filter_map(|op| match &op.code {
            OpCode::ConstInt(c) => Some(c.bits),
            _ => None,
        })
        .collect();
    assert_eq!(positions, vec![1, 0]);
    let read: Vec<&Vec<Index>> = b.ops[3..6].iter().map(|op| &op.indices).collect();
    assert_eq!(
        read,
        vec![&vec![Index::Const(0)], &vec![Index::Const(1)], &vec![Index::Const(2)]]
    );
    assert_eq!(b.ops[8].operands[1].def, Def::Result(4));
    assert_eq!(b.ops[8].operands[2].def, Def::Result(5));
    assert_eq!(b.ops[11].operands[1].def, Def::Result(3));
    assert_eq!(b.ops[11].operands[2].def, Def::Result(8));
}

#[test]
fn a_bound_of_one_reads_the_first_element() {
    let b = lower_array_extract_case(3, Some(1));
    assert_eq!((extracts(&b), selects(&b), allocas(&b)), (1, 0, 0));
}

#[test]
fn a_bound_beyond_the_array_is_no_bound() {
    assert_array_extract_memory_fallback(&lower_array_extract_case(3, Some(4)));
    assert_array_extract_memory_fallback(&lower_array_extract_case(3, Some(0)));
}

#[test]
fn elements_of_no_array_are_refused() {
    let mut b = Builder::new();
    let array = arg(0, LlvmType::Array(Box::new(integer(32)), 3));
    assert_eq!(
        convert_extract_array_element(&mut b, &array, &arg(1, integer(64)), &None, LIMIT),
        Err(LowerError::WrongType)
    );
    let divisor = create_i64_const(&mut b, 3);
    let index = b.binary(IntBinary::URem, &arg(1, integer(64)), &divisor);
    let recorded = Some(ArrayInfo { element: integer(32), size: 3, abi_align: None });
    let scalar = arg(2, integer(32));
    assert_eq!(
        convert_extract_array_element(&mut b, &scalar, &index, &recorded, LIMIT),
        Err(LowerError::NoSuchMember)
    );
}

#[test]
fn arrays_are_built_element_by_element() {
    let recorded = Some(ArrayInfo { element: integer(32), size: 2, abi_align: None });
    let mut b = Builder::new();
    let elements = vec![arg(0, integer(32)), arg(1, integer(32))];
    let r = convert_construct_array(&mut b, &elements, &recorded).unwrap();
    assert_eq!(r.def, Def::Result(2));
    assert_eq!(b.ops[0].code, OpCode::Undef);
    assert_eq!(b.ops[1].indices, vec![Index::Const(0)]);
    assert_eq!(b.ops[2].indices, vec![Index::Const(1)]);
    assert_eq!(convert_construct_array(&mut b, &elements, &None), Err(LowerError::WrongType));
}

#[test]
fn candidates_are_chosen_by_an_integer_index() {
    let mut b = Builder::new();
    let array = b.undef(&LlvmType::Array(Box::new(integer(32)), 3));
    let divisor = create_i64_const(&mut b, 3);
    let index = b.binary(IntBinary::URem, &arg(0, LlvmType::Float), &divisor);
    let recorded = Some(ArrayInfo { element: integer(32), size: 3, abi_align: None });
    assert_eq!(
        convert_extract_array_element(&mut b, &array, &index, &recorded, LIMIT),
        Err(LowerError::IndexType)
    );
    assert_eq!(b.ops.len(), 3);
}
