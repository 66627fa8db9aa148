//! What the lowering functions share: operands, errors, and how contracts
//! speak of emitted operations.

use crate::llvm::Signedness;
use crate::mir::MirType;
use crate::ops::{OpView, Value};
use vstd::prelude::*;

verus! {

/// Why an operation cannot be lowered.
#[derive(Clone, Copy, PartialEq, Eq, Structural, Debug)]
pub enum LowerError {
    /// The operation has the wrong number of operands.
    OperandCount,
    /// The operation does not have exactly one result.
    ResultCount,
    /// Neither an integer nor a pointer was recorded for the operand.
    NotIntegerOrPointer,
    /// The value to shift is not an integer.
    ShiftValue,
    /// The shift amount is not an integer.
    ShiftAmount,
    /// Negation of a value that is neither an integer nor a float.
    NegOperand,
    /// Bitwise complement of a value that is not an integer.
    NotOperand,
    /// A three-way comparison of floats.
    FloatThreeWay,
    /// The result of a three-way comparison is not an enum of three variants.
    ThreeWayResult,
    /// A discriminant that is not an integer.
    DiscriminantType,
    /// A member that the aggregate does not have.
    NoSuchMember,
    /// A cast without a cast kind.
    CastKindMissing,
    /// An integer cast from or to something that is not an integer.
    IntCast,
    /// A float cast from or to something that is not a float.
    FloatCast,
    /// A scalar cannot become an aggregate without a niche encoding.
    ScalarToAggregate,
    /// A niched enum that is not a pair of discriminant and payload.
    NicheShape,
    /// A niched cast whose result is not an enum.
    NicheResult,
    /// A variant without a declared discriminant.
    NoDiscriminant,
    /// No member of the payload can hold the scalar.
    NoScalarSlot,
    /// An integer constant of a type that is not an integer, or of zero width.
    IntConstant,
    /// An aggregate that wraps no single scalar.
    NotScalarWrapper,
    /// Source and destination of a transmutation differ in size.
    SizeMismatch,
    /// The size of a type is not known.
    UnknownSize,
    /// An integer was expected.
    ExpectedInteger,
    /// A byte swap of one byte with a result of another width.
    ByteSwapWidth,
    /// Multiplication with carry on more than 64 bits.
    WideCarryingMul,
    /// A 32-bit or 64-bit float was expected.
    ExpectedFloat,
    /// The operation has no device library function.
    NoLibraryFunction,
    /// A call without a result type whose result is used.
    LiveVoidResult,
    /// A field index beyond the fields of the aggregate.
    FieldIndex,
    /// The aggregate records no mapping of its fields.
    NoFieldMapping,
    /// The type is not the one that the operation builds or reads.
    WrongType,
    /// The operation lacks an attribute.
    MissingAttribute,
    /// The payload has no storage type.
    NoStorageType,
    /// The address of a payload whose storage differs from its type.
    PayloadStorage,
    /// A byte offset of more than 32 bits.
    OffsetTooLarge,
    /// The byte offset of a struct slot is not known.
    NoSlotOffset,
    /// The carrier struct is not packed.
    CarrierNotPacked,
    /// Elements of which the compilers disagree on the size.
    StrideMismatch,
    /// The enum has no slot or type for its carrier.
    NoCarrier,
    /// A variant that cannot be selected.
    Uninhabited,
    /// A variant index outside the enum, or outside its niche range.
    VariantIndex,
    /// An enum of which the physical layout is unknown.
    UnknownLayout,
    /// An index that is not an integer.
    IndexType,
    /// A name that is not an identifier.
    InvalidName,
    /// The alignment of dynamic shared memory was not computed.
    NoSharedAlignment,
}

/// An operand: the converted value, and the types that it had before, oldest
/// first.
#[derive(PartialEq, Eq, Debug)]
pub struct Operand {
    pub value: Value,
    pub history: Vec<MirType>,
}

pub type Emitted = Result<Seq<OpView>, LowerError>;

/// `ops` were emitted and the result is that of the last one; or nothing was
/// emitted, and the error is returned.
pub open spec fn emits(
    before: Seq<OpView>,
    after: Seq<OpView>,
    r: Result<Value, LowerError>,
    expected: Emitted,
) -> bool {
    match expected {
        Ok(ops) => after == before + ops && r == Ok::<Value, LowerError>(
            Value::at((before.len() + ops.len() - 1) as nat, ops.last().ty),
        ),
        Err(e) => after == before && r == Err::<Value, LowerError>(e),
    }
}

/// The signedness of the most recent integer type in a history.
pub open spec fn recorded_signedness(history: Seq<MirType>) -> Option<Signedness>
    decreases history.len(),
{
    if history.len() == 0 {
        None
    } else {
        match history.last() {
            MirType::Integer(_, s) => Some(s),
            _ => recorded_signedness(history.drop_last()),
        }
    }
}

/// Whether a pointer type was recorded.
pub open spec fn recorded_pointer(history: Seq<MirType>) -> bool {
    exists|i: int| 0 <= i < history.len() && (#[trigger] history[i]) is Pointer
}

/// The signedness of the most recent integer type in a history.
pub fn most_recent_signedness(history: &Vec<MirType>) -> (r: Option<Signedness>)
    ensures
        r == recorded_signedness(history@),
{
    let mut i: usize = history.len();
    proof {
        assert(history@.take(i as int) =~= history@);
    }
    while i > 0
        invariant
            i <= history.len(),
            recorded_signedness(history@) == recorded_signedness(history@.take(i as int)),
        decreases i,
    {
        proof {
            assert(history@.take(i as int).drop_last() =~= history@.take(i - 1));
        }
        i = i - 1;
        if let MirType::Integer(_, s) = &history[i] {
            return Some(*s);
        }
    }
    None
}

/// Whether a pointer type was recorded.
pub fn has_pointer(history: &Vec<MirType>) -> (b: bool)
    ensures
        b == recorded_pointer(history@),
{
    let mut i: usize = 0;
    while i < history.len()
        invariant
            i <= history.len(),
            forall|j: int| 0 <= j < i ==> !((#[trigger] history@[j]) is Pointer),
        decreases history.len() - i,
    {
        if let MirType::Pointer(_, _, _) = &history[i] {
            return true;
        }
        i = i + 1;
    }
    false
}

} // verus!
