//! Reading an element of an array value.

use crate::addressing::{constant_index_value, constant_value, defining_op};
use crate::byte_access::emit_integer_constant;
use crate::call::Outcome;
use crate::llvm::LlvmType;
use crate::lower::LowerError;
use crate::ops::{Builder, Def, Index, IntBinary, IntPredicate, OpCode, OpView, Value};
use vstd::prelude::*;

verus! {

/// The array type of an operand, with its element type.
#[derive(PartialEq, Eq, Debug)]
pub struct ArrayInfo {
    pub element: LlvmType,
    pub size: u64,
    /// The alignment of the element type.
    pub abi_align: Option<u64>,
}

/// How many elements an index can reach, where it is a remainder by a constant
/// within the array and within `limit`.
pub open spec fn candidate_count(
    ops: Seq<OpView>,
    index: Value,
    size: u64,
    limit: u64,
) -> Option<u64> {
    match defining_op(ops, index) {
        Some(op) => if op.code == OpCode::Int(IntBinary::URem) && op.operands.len() == 2 {
            match constant_value(ops, op.operands[1]) {
                Some(count) => if 0 < count <= size && count <= limit {
                    Some(count)
                } else {
                    None
                },
                None => None,
            }
        } else {
            None
        },
        None => None,
    }
}

/// How many elements an index can reach.
pub fn bounded_urem_candidate_count(b: &Builder, index: &Value, size: u64, limit: u64) -> (r:
    Option<u64>)
    ensures
        r == candidate_count(b@, *index, size, limit),
{
    let at: usize = match index.def {
        Def::Result(at) => at,
        Def::Argument(_) => {
            return None;
        },
    };
    if at >= b.ops.len() {
        return None;
    }
    proof {
        assert(b@[at as int] == b.ops@[at as int]@);
    }
    let op = &b.ops[at];
    let is_rem: bool = match &op.code {
        OpCode::Int(IntBinary::URem) => true,
        _ => false,
    };
    if !is_rem || op.operands.len() != 2 {
        return None;
    }
    match constant_index_value(b, &op.operands[1]) {
        Some(count) => if count > 0 && count <= size && count <= limit {
            Some(count)
        } else {
            None
        },
        None => None,
    }
}

/// The element at a constant position.
pub open spec fn element_op(array: Value, i: int) -> OpView {
    OpView::extract(array, i as u32, array.ty.spec_member(i as u32).unwrap())
}

/// The value of the `i`-th candidate, where reading starts after `n` operations.
pub open spec fn candidate(n: nat, array: Value, i: int) -> Value {
    Value::at((n + i) as nat, array.ty.spec_member(i as u32).unwrap())
}

/// Chooses among the candidates below `k` by comparing the index with each
/// position, the highest first; `selected` stands for all from `k` on.
pub open spec fn select_chain(
    ops: Seq<OpView>,
    n: nat,
    array: Value,
    index: Value,
    width: u32,
    selected: Value,
    k: nat,
) -> (Seq<OpView>, Value)
    decreases k,
{
    if k == 0 {
        (ops, selected)
    } else {
        let at = ops.len();
        let position = Value::at(at, LlvmType::spec_int(width));
        let chosen = candidate(n, array, k - 1);
        select_chain(
            ops.push(OpView::int_of(k - 1, width)).push(
                OpView::int_compare(IntPredicate::EQ, index, position),
            ).push(
                OpView::select(Value::at(at + 1, LlvmType::spec_bool()), chosen, selected),
            ),
            n,
            array,
            index,
            width,
            Value::at(at + 2, chosen.ty),
            (k - 1) as nat,
        )
    }
}

/// Reads every candidate and chooses among them.
pub open spec fn bounded_extract(
    ops: Seq<OpView>,
    array: Value,
    index: Value,
    count: u64,
) -> Outcome {
    if array.ty.spec_member((count - 1) as u32) is None {
        Outcome { ops, result: Err(LowerError::NoSuchMember) }
    } else if count > 1 && index.ty.spec_int_width() is None {
        Outcome { ops, result: Err(LowerError::IndexType) }
    } else {
        let n = ops.len();
        let read = ops + Seq::new(count as nat, |i: int| element_op(array, i));
        let width = match index.ty.spec_int_width() {
            Some(w) => w,
            None => 0,
        };
        let (chosen, value) = select_chain(
            read,
            n,
            array,
            index,
            width,
            candidate(n, array, count - 1),
            (count - 1) as nat,
        );
        Outcome { ops: chosen, result: Ok(Some(value)) }
    }
}

/// Stores the array and loads the element.
pub open spec fn memory_extract(
    ops: Seq<OpView>,
    array: Value,
    index: Value,
    info: ArrayInfo,
) -> Outcome {
    let n = ops.len();
    let align = match info.abi_align {
        Some(a) => Some(a as u32),
        None => None,
    };
    let array_ty = LlvmType::Array(Box::new(info.element), info.size);
    let slot = Value::at(n + 1, LlvmType::Pointer(0));
    Outcome {
        ops: ops + seq![
            OpView::int_of(1, 64),
            OpView::alloca(array_ty, Value::at(n, LlvmType::spec_int(64))).aligned(align),
            OpView::store(array, slot).aligned(align),
            OpView::gep(slot, array_ty, seq![Index::Const(0), Index::Dynamic(index)]),
            OpView::load(Value::at(n + 3, LlvmType::Pointer(0)), info.element).aligned(align),
        ],
        result: Ok(Some(Value::at(n + 4, info.element))),
    }
}

/// The element of an array at an index that is not constant.
pub open spec fn extract_element(
    ops: Seq<OpView>,
    array: Value,
    index: Value,
    recorded: Option<ArrayInfo>,
    limit: u64,
) -> Outcome {
    match recorded {
        None => Outcome { ops, result: Err(LowerError::WrongType) },
        Some(info) => match candidate_count(ops, index, info.size, limit) {
            Some(count) => bounded_extract(ops, array, index, count),
            None => memory_extract(ops, array, index, info),
        },
    }
}

/// Reads the candidates and chooses among them.
fn emit_bounded_extract(b: &mut Builder, array: &Value, index: &Value, count: u64) -> (r: Result<
    Value,
    LowerError,
>)
    requires
        0 < count <= u32::MAX,
        index.ty.spec_int_width() != Some(0u32),
    ensures
        (Outcome {
            ops: final(b)@,
            result: match r {
                Ok(v) => Ok(Some(v)),
                Err(e) => Err(e),
            },
        }) == bounded_extract(old(b)@, *array, *index, count),
{
    if array.ty.member(count as u32 - 1).is_none() {
        return Err(LowerError::NoSuchMember);
    }
    let width: u32 = match index.ty.int_width() {
        Some(w) => w,
        None => {
            if count > 1 {
                return Err(LowerError::IndexType);
            }
            0
        },
    };
    let ghost n = old(b)@.len();
    let ghost elements = Seq::new(count as nat, |i: int| element_op(*array, i));
    let mut candidates: Vec<Value> = Vec::new();
    let mut i: u32 = 0;
    proof {
        assert(b@ =~= old(b)@ + elements.take(0));
    }
    while (i as u64) < count
        invariant
            i <= count <= u32::MAX,
            array.ty.spec_member((count - 1) as u32) is Some,
            n == old(b)@.len(),
            elements == Seq::new(count as nat, |i: int| element_op(*array, i)),
            b@ == old(b)@ + elements.take(i as int),
            candidates@.len() == i,
            forall|j: int| 0 <= j < i ==> candidates@[j] == candidate(n, *array, j),
        decreases count - i,
    {
        match array.ty.member(i) {
            Some(member) => {
                let value = b.extract(array, i, member);
                candidates.push(value);
            },
            None => {
                return Err(LowerError::NoSuchMember);
            },
        }
        i = i + 1;
        proof {
            assert(b@ =~= old(b)@ + elements.take(i as int));
        }
    }
    proof {
        assert(elements.take(count as int) =~= elements);
    }
    let ghost read = b@;
    let mut k: usize = candidates.len() - 1;
    let mut selected = candidates[k].copy();
    let ghost last = candidate(n, *array, count - 1);
    while k > 0
        invariant
            k < candidates.len(),
            candidates@.len() == count,
            k > 0 ==> width > 0,
            forall|j: int| 0 <= j < count ==> candidates@[j] == candidate(n, *array, j),
            select_chain(read, n, *array, *index, width, last, (count - 1) as nat) == select_chain(
                b@,
                n,
                *array,
                *index,
                width,
                selected,
                k as nat,
            ),
        decreases k,
    {
        k = k - 1;
        let position = emit_integer_constant(b, width, k as u128);
        let condition = b.int_compare(IntPredicate::EQ, index, &position);
        selected = b.select(&condition, &candidates[k], &selected);
    }
    Ok(selected)
}

/// Lowers the read of an array element at a runtime index. An index that is
/// provably below a small constant is resolved among the elements it can reach,
/// which keeps the array out of memory; `limit` is the most elements for which
/// that is done. `recorded` is the array type that the operand had.
pub fn convert_extract_array_element(
    b: &mut Builder,
    array: &Value,
    index: &Value,
    recorded: &Option<ArrayInfo>,
    limit: u64,
) -> (r: Result<Value, LowerError>)
    requires
        limit <= u32::MAX,
        index.ty.spec_int_width() != Some(0u32),
    ensures
        (Outcome {
            ops: final(b)@,
            result: match r {
                Ok(v) => Ok(Some(v)),
                Err(e) => Err(e),
            },
        }) == extract_element(old(b)@, *array, *index, *recorded, limit),
{
    let info = match recorded {
        Some(info) => info,
        None => {
            return Err(LowerError::WrongType);
        },
    };
    if let Some(count) = bounded_urem_candidate_count(b, index, info.size, limit) {
        return emit_bounded_extract(b, array, index, count);
    }
    let align: Option<u32> = match info.abi_align {
        Some(a) => Some(
            #[verifier::truncate]
            (a as u32),
        ),
        None => None,
    };
    let array_ty = LlvmType::Array(Box::new(info.element.copy()), info.size);
    let one = b.one();
    let slot = b.alloca(&array_ty, &one, align);
    b.store(array, &slot, align);
    let indices: Vec<Index> = vec![Index::Const(0), Index::Dynamic(index.copy())];
    proof {
        assert(indices@ =~= seq![Index::Const(0), Index::Dynamic(*index)]);
    }
    let element = b.gep(&slot, &array_ty, indices, true, None);
    let r = b.load(&element, &info.element, align);
    proof {
        assert(b@ =~= memory_extract(old(b)@, *array, *index, *info).ops);
    }
    Ok(r)
}

} // verus!
