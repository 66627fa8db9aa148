//! LLVM operations and the builder that emits them.

use crate::ints::IntConst;
use crate::llvm::LlvmType;
use vstd::prelude::*;

verus! {

/// Where a value comes from: a block argument, or the result of the operation
/// at a position of the emitted sequence.
#[derive(Clone, Copy, PartialEq, Eq, Structural, Debug)]
pub enum Def {
    Argument(u64),
    Result(usize),
}

/// A typed SSA value.
#[derive(PartialEq, Eq, Debug)]
pub struct Value {
    pub def: Def,
    pub ty: LlvmType,
}

#[derive(Clone, Copy, PartialEq, Eq, Structural, Debug)]
pub enum IntBinary {
    Add,
    Sub,
    Mul,
    SDiv,
    UDiv,
    SRem,
    URem,
    Shl,
    LShr,
    AShr,
    And,
    Or,
    Xor,
}

#[derive(Clone, Copy, PartialEq, Eq, Structural, Debug)]
pub enum FloatBinary {
    FAdd,
    FSub,
    FMul,
    FDiv,
    FRem,
}

#[derive(Clone, Copy, PartialEq, Eq, Structural, Debug)]
pub enum IntPredicate {
    EQ,
    NE,
    SLT,
    SLE,
    SGT,
    SGE,
    ULT,
    ULE,
    UGT,
    UGE,
}

#[derive(Clone, Copy, PartialEq, Eq, Structural, Debug)]
pub enum FloatPredicate {
    OEQ,
    OLT,
    OLE,
    OGT,
    OGE,
    UNE,
    UNO,
}

/// Fast-math relaxations of a floating-point operation.
#[derive(Clone, Copy, PartialEq, Eq, Structural, Debug)]
pub struct FastMath {
    pub reassoc: bool,
    pub nnan: bool,
    pub ninf: bool,
    pub nsz: bool,
    pub arcp: bool,
    pub contract: bool,
    pub afn: bool,
}

impl FastMath {
    /// No relaxation.
    pub open spec fn none() -> FastMath {
        FastMath {
            reassoc: false,
            nnan: false,
            ninf: false,
            nsz: false,
            arcp: false,
            contract: false,
            afn: false,
        }
    }

    /// No relaxation.
    pub fn empty() -> (f: FastMath)
        ensures
            f == FastMath::none(),
    {
        FastMath {
            reassoc: false,
            nnan: false,
            ninf: false,
            nsz: false,
            arcp: false,
            contract: false,
            afn: false,
        }
    }
}

/// Casts. `ZExt` and `UIToFP` never claim a non-negative operand; `FPTrunc` and
/// `FPExt` carry no fast-math relaxation.
#[derive(Clone, Copy, PartialEq, Eq, Structural, Debug)]
pub enum CastKind {
    Trunc,
    ZExt,
    SExt,
    FPTrunc,
    FPExt,
    SIToFP,
    UIToFP,
    PtrToInt,
    IntToPtr,
    Bitcast,
    AddrSpaceCast,
}

#[derive(Clone, Copy, PartialEq, Eq, Structural, Debug)]
pub enum AsmKind {
    /// Neither convergent nor side-effecting.
    Pure,
    Convergent,
    SideEffect,
}

/// Representations of one value that the type layer tells apart.
#[derive(Clone, Copy, PartialEq, Eq, Structural, Debug)]
pub enum Coercion {
    /// A payload field between its own type and the type it is stored as.
    PayloadStorage,
    /// Every truth value as a whole byte.
    BoolBytes,
    /// Between the packed form that crosses a call and the ordinary one.
    TargetStable,
}

/// An index of a `getelementptr`, `extractvalue` or `insertvalue`.
#[derive(PartialEq, Eq, Debug)]
pub enum Index {
    Const(u32),
    Dynamic(Value),
}

/// What an operation does, with its static attributes. Integer arithmetic
/// carries no overflow flag.
#[derive(PartialEq, Eq, Debug)]
pub enum OpCode {
    ConstInt(IntConst),
    /// A floating-point constant, by its bit pattern.
    ConstFloat(u64),
    Undef,
    Int(IntBinary),
    Float(FloatBinary, FastMath),
    FNeg(FastMath),
    IntCompare(IntPredicate),
    FloatCompare(FloatPredicate, FastMath),
    Select,
    Cast(CastKind),
    ExtractValue,
    InsertValue,
    /// Source element type, and whether the address stays in bounds.
    Gep(LlvmType, bool),
    Alloca(LlvmType),
    Load,
    Store,
    Call,
    InlineAsm(AsmKind),
    AddressOf,
    /// Turns a value into another representation of it, as the type layer
    /// defines.
    Coerce(Coercion),
    /// Asks that the module declare `symbol` with `signature` and result type
    /// `ty`; inserts no instruction.
    Declare,
}

/// One emitted operation.
#[derive(PartialEq, Eq, Debug)]
pub struct Op {
    pub code: OpCode,
    /// Result type; `Void` for an operation without a result.
    pub ty: LlvmType,
    pub operands: Vec<Value>,
    pub indices: Vec<Index>,
    /// Callee, global, or assembly template.
    pub symbol: String,
    /// Constraints of inline assembly.
    pub constraints: String,
    /// Parameter types of a callee.
    pub signature: Vec<LlvmType>,
    pub align: Option<u32>,
}

/// An operation as contracts speak of it.
pub struct OpView {
    pub code: OpCode,
    pub ty: LlvmType,
    pub operands: Seq<Value>,
    pub indices: Seq<Index>,
    pub symbol: Seq<char>,
    pub constraints: Seq<char>,
    pub signature: Seq<LlvmType>,
    pub align: Option<u32>,
}

impl View for Op {
    type V = OpView;

    open spec fn view(&self) -> OpView {
        OpView {
            code: self.code,
            ty: self.ty,
            operands: self.operands@,
            indices: self.indices@,
            symbol: self.symbol@,
            constraints: self.constraints@,
            signature: self.signature@,
            align: self.align,
        }
    }
}

impl OpView {
    /// An operation with operands only.
    pub open spec fn plain(code: OpCode, ty: LlvmType, operands: Seq<Value>) -> OpView {
        OpView {
            code,
            ty,
            operands,
            indices: Seq::empty(),
            symbol: Seq::empty(),
            constraints: Seq::empty(),
            signature: Seq::empty(),
            align: None,
        }
    }

    /// An operation with operands and indices.
    pub open spec fn indexed(
        code: OpCode,
        ty: LlvmType,
        operands: Seq<Value>,
        indices: Seq<Index>,
    ) -> OpView {
        OpView { indices, ..OpView::plain(code, ty, operands) }
    }

    /// The same operation with an alignment attribute.
    pub open spec fn aligned(self, align: Option<u32>) -> OpView {
        OpView { align, ..self }
    }

    pub open spec fn constant(c: IntConst) -> OpView {
        OpView::plain(
            OpCode::ConstInt(c),
            LlvmType::spec_int(c.width),
            Seq::empty(),
        )
    }

    /// A constant whose type keeps a signedness.
    pub open spec fn signed_constant(c: IntConst, s: crate::llvm::Signedness) -> OpView {
        OpView::plain(OpCode::ConstInt(c), LlvmType::Integer(c.width, s), Seq::empty())
    }

    /// The signless constant of `width` bits that holds `value`.
    pub open spec fn int_of(value: int, width: u32) -> OpView {
        OpView::constant(IntConst::of_int(value, width))
    }

    pub open spec fn undef(ty: LlvmType) -> OpView {
        OpView::plain(OpCode::Undef, ty, Seq::empty())
    }

    pub open spec fn binary(op: IntBinary, lhs: Value, rhs: Value) -> OpView {
        OpView::plain(OpCode::Int(op), lhs.ty, seq![lhs, rhs])
    }

    pub open spec fn float_binary(
        op: FloatBinary,
        flags: FastMath,
        lhs: Value,
        rhs: Value,
    ) -> OpView {
        OpView::plain(OpCode::Float(op, flags), lhs.ty, seq![lhs, rhs])
    }

    pub open spec fn int_compare(pred: IntPredicate, lhs: Value, rhs: Value) -> OpView {
        OpView::plain(OpCode::IntCompare(pred), LlvmType::spec_bool(), seq![lhs, rhs])
    }

    pub open spec fn float_compare(pred: FloatPredicate, lhs: Value, rhs: Value) -> OpView {
        OpView::plain(
            OpCode::FloatCompare(pred, FastMath::none()),
            LlvmType::spec_bool(),
            seq![lhs, rhs],
        )
    }

    pub open spec fn select(cond: Value, on_true: Value, on_false: Value) -> OpView {
        OpView::plain(OpCode::Select, on_true.ty, seq![cond, on_true, on_false])
    }

    pub open spec fn cast(kind: CastKind, value: Value, ty: LlvmType) -> OpView {
        OpView::plain(OpCode::Cast(kind), ty, seq![value])
    }

    pub open spec fn coerce(kind: Coercion, value: Value, ty: LlvmType) -> OpView {
        OpView::plain(OpCode::Coerce(kind), ty, seq![value])
    }

    pub open spec fn extract(aggregate: Value, slot: u32, ty: LlvmType) -> OpView {
        OpView::indexed(OpCode::ExtractValue, ty, seq![aggregate], seq![Index::Const(slot)])
    }

    pub open spec fn insert(aggregate: Value, value: Value, slot: u32) -> OpView {
        OpView::indexed(
            OpCode::InsertValue,
            aggregate.ty,
            seq![aggregate, value],
            seq![Index::Const(slot)],
        )
    }

    /// An in-bounds `getelementptr`; the address space is that of `base`.
    pub open spec fn gep(base: Value, elem: LlvmType, indices: Seq<Index>) -> OpView {
        OpView::indexed(OpCode::Gep(elem, true), base.ty, seq![base], indices)
    }

    pub open spec fn alloca(elem: LlvmType, count: Value) -> OpView {
        OpView::plain(OpCode::Alloca(elem), LlvmType::Pointer(0), seq![count])
    }

    pub open spec fn load(ptr: Value, ty: LlvmType) -> OpView {
        OpView::plain(OpCode::Load, ty, seq![ptr])
    }

    pub open spec fn store(value: Value, ptr: Value) -> OpView {
        OpView::plain(OpCode::Store, LlvmType::Void, seq![value, ptr])
    }

    pub open spec fn call(
        symbol: Seq<char>,
        signature: Seq<LlvmType>,
        ty: LlvmType,
        args: Seq<Value>,
    ) -> OpView {
        OpView { symbol, signature, ..OpView::plain(OpCode::Call, ty, args) }
    }

    pub open spec fn declare(
        symbol: Seq<char>,
        signature: Seq<LlvmType>,
        ty: LlvmType,
    ) -> OpView {
        OpView { symbol, signature, ..OpView::plain(OpCode::Declare, ty, Seq::empty()) }
    }

    pub open spec fn inline_asm(
        kind: AsmKind,
        template: Seq<char>,
        constraints: Seq<char>,
        ty: LlvmType,
        inputs: Seq<Value>,
    ) -> OpView {
        OpView {
            symbol: template,
            constraints,
            ..OpView::plain(OpCode::InlineAsm(kind), ty, inputs)
        }
    }

    pub open spec fn address_of(symbol: Seq<char>, addrspace: u32) -> OpView {
        OpView {
            symbol,
            ..OpView::plain(OpCode::AddressOf, LlvmType::Pointer(addrspace), Seq::empty())
        }
    }
}

impl Value {
    /// The result of the operation at position `at`.
    pub open spec fn at(at: nat, ty: LlvmType) -> Value {
        Value { def: Def::Result(at as usize), ty }
    }

    pub fn copy(&self) -> (r: Value)
        ensures
            r == *self,
    {
        Value { def: self.def, ty: self.ty.copy() }
    }

    pub fn same(&self, other: &Value) -> (b: bool)
        ensures
            b == (*self == *other),
    {
        self.def == other.def && self.ty.same(&other.ty)
    }
}

/// The vector of one value.
pub fn one_value(value: &Value) -> (r: Vec<Value>)
    ensures
        r@ == seq![*value],
{
    let mut r: Vec<Value> = Vec::new();
    r.push(value.copy());
    proof {
        assert(r@ =~= seq![*value]);
    }
    r
}

/// The vector of one constant index.
pub fn one_index(slot: u32) -> (r: Vec<Index>)
    ensures
        r@ == seq![Index::Const(slot)],
{
    let mut r: Vec<Index> = Vec::new();
    r.push(Index::Const(slot));
    proof {
        assert(r@ =~= seq![Index::Const(slot)]);
    }
    r
}

/// Copies a vector of values.
pub fn copy_values(values: &Vec<Value>) -> (r: Vec<Value>)
    ensures
        r@ == values@,
{
    let mut r: Vec<Value> = Vec::new();
    let mut i: usize = 0;
    while i < values.len()
        invariant
            i <= values.len(),
            r@ == values@.take(i as int),
        decreases values.len() - i,
    {
        r.push(values[i].copy());
        i = i + 1;
        proof {
            assert(r@ =~= values@.take(i as int));
        }
    }
    proof {
        assert(values@.take(values@.len() as int) =~= values@);
    }
    r
}

/// Copies a vector of types.
pub fn copy_types(types: &Vec<LlvmType>) -> (r: Vec<LlvmType>)
    ensures
        r@ == types@,
{
    let mut r: Vec<LlvmType> = Vec::new();
    let mut i: usize = 0;
    while i < types.len()
        invariant
            i <= types.len(),
            r@ == types@.take(i as int),
        decreases types.len() - i,
    {
        r.push(types[i].copy());
        i = i + 1;
        proof {
            assert(r@ =~= types@.take(i as int));
        }
    }
    proof {
        assert(types@.take(types@.len() as int) =~= types@);
    }
    r
}

/// The sequence of operations emitted so far.
pub struct Builder {
    pub ops: Vec<Op>,
}

impl View for Builder {
    type V = Seq<OpView>;

    open spec fn view(&self) -> Seq<OpView> {
        Seq::new(self.ops@.len(), |i: int| self.ops@[i]@)
    }
}

impl Builder {
    pub fn new() -> (b: Builder)
        ensures
            b@ == Seq::<OpView>::empty(),
    {
        Builder { ops: Vec::new() }
    }

    /// Appends an operation and returns its result.
    pub fn emit(&mut self, op: Op) -> (r: Value)
        ensures
            final(self)@ == old(self)@.push(op@),
            r == Value::at(old(self)@.len(), op.ty),
    {
        let r = Value { def: Def::Result(self.ops.len()), ty: op.ty.copy() };
        self.ops.push(op);
        proof {
            assert(self@ =~= old(self)@.push(op@));
        }
        r
    }

    fn emit_plain(&mut self, code: OpCode, ty: LlvmType, operands: Vec<Value>) -> (r: Value)
        ensures
            final(self)@ == old(self)@.push(OpView::plain(code, ty, operands@)),
            r == Value::at(old(self)@.len(), ty),
    {
        self.emit(
            Op {
                code,
                ty,
                operands,
                indices: Vec::new(),
                symbol: String::new(),
                constraints: String::new(),
                signature: Vec::new(),
                align: None,
            },
        )
    }

    pub fn constant(&mut self, c: IntConst) -> (r: Value)
        ensures
            final(self)@ == old(self)@.push(OpView::constant(c)),
            r == Value::at(old(self)@.len(), LlvmType::spec_int(c.width)),
    {
        self.emit_plain(OpCode::ConstInt(c), LlvmType::int_type(c.width), Vec::new())
    }

    /// A constant whose type keeps a signedness.
    pub fn signed_constant(&mut self, c: IntConst, s: crate::llvm::Signedness) -> (r: Value)
        ensures
            final(self)@ == old(self)@.push(OpView::signed_constant(c, s)),
            r == Value::at(old(self)@.len(), LlvmType::Integer(c.width, s)),
    {
        self.emit_plain(OpCode::ConstInt(c), LlvmType::Integer(c.width, s), Vec::new())
    }

    /// The 64-bit constant one, the element count of a single stack slot.
    pub fn one(&mut self) -> (r: Value)
        ensures
            final(self)@ == old(self)@.push(OpView::int_of(1, 64)),
            r == Value::at(old(self)@.len(), LlvmType::spec_int(64)),
    {
        self.constant(IntConst::from_i64(1, 64))
    }

    pub fn undef(&mut self, ty: &LlvmType) -> (r: Value)
        ensures
            final(self)@ == old(self)@.push(OpView::undef(*ty)),
            r == Value::at(old(self)@.len(), *ty),
    {
        self.emit_plain(OpCode::Undef, ty.copy(), Vec::new())
    }

    pub fn binary(&mut self, op: IntBinary, lhs: &Value, rhs: &Value) -> (r: Value)
        ensures
            final(self)@ == old(self)@.push(OpView::binary(op, *lhs, *rhs)),
            r == Value::at(old(self)@.len(), lhs.ty),
    {
        self.emit_plain(OpCode::Int(op), lhs.ty.copy(), vec![lhs.copy(), rhs.copy()])
    }

    pub fn float_binary(
        &mut self,
        op: FloatBinary,
        flags: FastMath,
        lhs: &Value,
        rhs: &Value,
    ) -> (r: Value)
        ensures
            final(self)@ == old(self)@.push(OpView::float_binary(op, flags, *lhs, *rhs)),
            r == Value::at(old(self)@.len(), lhs.ty),
    {
        self.emit_plain(OpCode::Float(op, flags), lhs.ty.copy(), vec![lhs.copy(), rhs.copy()])
    }

    pub fn float_neg(&mut self, value: &Value) -> (r: Value)
        ensures
            final(self)@ == old(self)@.push(
                OpView::plain(OpCode::FNeg(FastMath::none()), value.ty, seq![*value]),
            ),
            r == Value::at(old(self)@.len(), value.ty),
    {
        self.emit_plain(OpCode::FNeg(FastMath::empty()), value.ty.copy(), one_value(value))
    }

    pub fn int_compare(&mut self, pred: IntPredicate, lhs: &Value, rhs: &Value) -> (r: Value)
        ensures
            final(self)@ == old(self)@.push(OpView::int_compare(pred, *lhs, *rhs)),
            r == Value::at(old(self)@.len(), LlvmType::spec_bool()),
    {
        self.emit_plain(
            OpCode::IntCompare(pred),
            LlvmType::int_type(1),
            vec![lhs.copy(), rhs.copy()],
        )
    }

    pub fn float_compare(&mut self, pred: FloatPredicate, lhs: &Value, rhs: &Value) -> (r: Value)
        ensures
            final(self)@ == old(self)@.push(OpView::float_compare(pred, *lhs, *rhs)),
            r == Value::at(old(self)@.len(), LlvmType::spec_bool()),
    {
        self.emit_plain(
            OpCode::FloatCompare(pred, FastMath::empty()),
            LlvmType::int_type(1),
            vec![lhs.copy(), rhs.copy()],
        )
    }

    pub fn select(&mut self, cond: &Value, on_true: &Value, on_false: &Value) -> (r: Value)
        ensures
            final(self)@ == old(self)@.push(OpView::select(*cond, *on_true, *on_false)),
            r == Value::at(old(self)@.len(), on_true.ty),
    {
        self.emit_plain(
            OpCode::Select,
            on_true.ty.copy(),
            vec![cond.copy(), on_true.copy(), on_false.copy()],
        )
    }

    pub fn cast(&mut self, kind: CastKind, value: &Value, ty: &LlvmType) -> (r: Value)
        ensures
            final(self)@ == old(self)@.push(OpView::cast(kind, *value, *ty)),
            r == Value::at(old(self)@.len(), *ty),
    {
        self.emit_plain(OpCode::Cast(kind), ty.copy(), one_value(value))
    }

    pub fn coerce(&mut self, kind: Coercion, value: &Value, ty: &LlvmType) -> (r: Value)
        ensures
            final(self)@ == old(self)@.push(OpView::coerce(kind, *value, *ty)),
            r == Value::at(old(self)@.len(), *ty),
    {
        self.emit_plain(OpCode::Coerce(kind), ty.copy(), one_value(value))
    }

    /// Reads the member at `slot`, whose type the caller has looked up.
    pub fn extract(&mut self, aggregate: &Value, slot: u32, ty: LlvmType) -> (r: Value)
        ensures
            final(self)@ == old(self)@.push(OpView::extract(*aggregate, slot, ty)),
            r == Value::at(old(self)@.len(), ty),
    {
        self.emit(
            Op {
                code: OpCode::ExtractValue,
                ty,
                operands: one_value(aggregate),
                indices: one_index(slot),
                symbol: String::new(),
                constraints: String::new(),
                signature: Vec::new(),
                align: None,
            },
        )
    }

    /// Writes `value` into the member that `path` leads to.
    pub fn insert_at(&mut self, aggregate: &Value, value: &Value, path: Vec<Index>) -> (r: Value)
        ensures
            final(self)@ == old(self)@.push(
                OpView::indexed(
                    OpCode::InsertValue,
                    aggregate.ty,
                    seq![*aggregate, *value],
                    path@,
                ),
            ),
            r == Value::at(old(self)@.len(), aggregate.ty),
    {
        self.emit(
            Op {
                code: OpCode::InsertValue,
                ty: aggregate.ty.copy(),
                operands: vec![aggregate.copy(), value.copy()],
                indices: path,
                symbol: String::new(),
                constraints: String::new(),
                signature: Vec::new(),
                align: None,
            },
        )
    }

    pub fn insert(&mut self, aggregate: &Value, value: &Value, slot: u32) -> (r: Value)
        ensures
            final(self)@ == old(self)@.push(OpView::insert(*aggregate, *value, slot)),
            r == Value::at(old(self)@.len(), aggregate.ty),
    {
        self.insert_at(aggregate, value, one_index(slot))
    }

    /// An address computation.
    pub fn gep(
        &mut self,
        base: &Value,
        elem: &LlvmType,
        indices: Vec<Index>,
        inbounds: bool,
        align: Option<u32>,
    ) -> (r: Value)
        ensures
            final(self)@ == old(self)@.push(
                OpView::indexed(OpCode::Gep(*elem, inbounds), base.ty, seq![*base], indices@).aligned(
                    align,
                ),
            ),
            r == Value::at(old(self)@.len(), base.ty),
    {
        self.emit(
            Op {
                code: OpCode::Gep(elem.copy(), inbounds),
                ty: base.ty.copy(),
                operands: one_value(base),
                indices,
                symbol: String::new(),
                constraints: String::new(),
                signature: Vec::new(),
                align,
            },
        )
    }

    pub fn alloca(&mut self, elem: &LlvmType, count: &Value, align: Option<u32>) -> (r: Value)
        ensures
            final(self)@ == old(self)@.push(OpView::alloca(*elem, *count).aligned(align)),
            r == Value::at(old(self)@.len(), LlvmType::Pointer(0)),
    {
        self.emit_memory(
            OpCode::Alloca(elem.copy()),
            LlvmType::Pointer(0),
            one_value(count),
            align,
        )
    }

    pub fn load(&mut self, ptr: &Value, ty: &LlvmType, align: Option<u32>) -> (r: Value)
        ensures
            final(self)@ == old(self)@.push(OpView::load(*ptr, *ty).aligned(align)),
            r == Value::at(old(self)@.len(), *ty),
    {
        self.emit_memory(OpCode::Load, ty.copy(), one_value(ptr), align)
    }

    pub fn store(&mut self, value: &Value, ptr: &Value, align: Option<u32>)
        ensures
            final(self)@ == old(self)@.push(OpView::store(*value, *ptr).aligned(align)),
    {
        self.emit_memory(OpCode::Store, LlvmType::Void, vec![value.copy(), ptr.copy()], align);
    }

    fn emit_memory(
        &mut self,
        code: OpCode,
        ty: LlvmType,
        operands: Vec<Value>,
        align: Option<u32>,
    ) -> (r: Value)
        ensures
            final(self)@ == old(self)@.push(OpView::plain(code, ty, operands@).aligned(align)),
            r == Value::at(old(self)@.len(), ty),
    {
        self.emit(
            Op {
                code,
                ty,
                operands,
                indices: Vec::new(),
                symbol: String::new(),
                constraints: String::new(),
                signature: Vec::new(),
                align,
            },
        )
    }

    pub fn call(
        &mut self,
        symbol: &str,
        signature: Vec<LlvmType>,
        ty: &LlvmType,
        args: Vec<Value>,
    ) -> (r: Value)
        ensures
            final(self)@ == old(self)@.push(OpView::call(symbol@, signature@, *ty, args@)),
            r == Value::at(old(self)@.len(), *ty),
    {
        self.emit(
            Op {
                code: OpCode::Call,
                ty: ty.copy(),
                operands: args,
                indices: Vec::new(),
                symbol: symbol.to_owned(),
                constraints: String::new(),
                signature,
                align: None,
            },
        )
    }

    /// Asks that the module declare a symbol.
    pub fn declare(&mut self, symbol: &str, signature: Vec<LlvmType>, ty: &LlvmType)
        ensures
            final(self)@ == old(self)@.push(OpView::declare(symbol@, signature@, *ty)),
    {
        self.emit(
            Op {
                code: OpCode::Declare,
                ty: ty.copy(),
                operands: Vec::new(),
                indices: Vec::new(),
                symbol: symbol.to_owned(),
                constraints: String::new(),
                signature,
                align: None,
            },
        );
    }

    pub fn inline_assembly(
        &mut self,
        kind: AsmKind,
        template: &str,
        constraints: &str,
        ty: &LlvmType,
        inputs: Vec<Value>,
    ) -> (r: Value)
        ensures
            final(self)@ == old(self)@.push(
                OpView::inline_asm(kind, template@, constraints@, *ty, inputs@),
            ),
            r == Value::at(old(self)@.len(), *ty),
    {
        self.emit(
            Op {
                code: OpCode::InlineAsm(kind),
                ty: ty.copy(),
                operands: inputs,
                indices: Vec::new(),
                symbol: template.to_owned(),
                constraints: constraints.to_owned(),
                signature: Vec::new(),
                align: None,
            },
        )
    }

    pub fn address_of(&mut self, symbol: &str, addrspace: u32) -> (r: Value)
        ensures
            final(self)@ == old(self)@.push(OpView::address_of(symbol@, addrspace)),
            r == Value::at(old(self)@.len(), LlvmType::Pointer(addrspace)),
    {
        self.emit(
            Op {
                code: OpCode::AddressOf,
                ty: LlvmType::Pointer(addrspace),
                operands: Vec::new(),
                indices: Vec::new(),
                symbol: symbol.to_owned(),
                constraints: String::new(),
                signature: Vec::new(),
                align: None,
            },
        )
    }
}

} // verus!
