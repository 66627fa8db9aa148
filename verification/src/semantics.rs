//! What emitted operations compute, as far as integers, the order of floating-point
//! numbers, aggregates and stack slots go.

use crate::llvm::{FieldTypes, LlvmType};
use crate::ops::{
    CastKind, Def, FastMath, FloatBinary, FloatPredicate, Index, IntBinary, IntPredicate, OpCode,
    OpView, Value,
};
use crate::stack_memory::{at_offset, byte, field_offset, laid_out, read, size_of, Byte};
use crate::text::decimal;
use vstd::arithmetic::power2::pow2;
use vstd::prelude::*;

verus! {

/// What a value holds at run time.
pub enum Datum {
    /// An integer: its width, and the number its bits stand for without sign.
    Int(nat, int),
    /// An address.
    Pointer(int),
    /// A floating-point number, by its place in the order of the numbers of its
    /// type. Both zeros have place zero, and a number and its negation have
    /// opposite places.
    Number(int),
    /// A floating-point value that is not a number.
    NotANumber,
    /// A floating-point value, by its bit pattern.
    Pattern(u64),
    /// What floating-point arithmetic under relaxations `1` gives for `2` and `3`.
    Computed(FloatBinary, FastMath, Box<Datum>, Box<Datum>),
    /// The floating-point number of type `1` nearest to an integer.
    Nearest(int, LlvmType),
    /// What the conversion `0` of `1` to type `2` gives.
    Converted(CastKind, Box<Datum>, LlvmType),
    Aggregate(Seq<Datum>),
    /// Value `0` of type `1`, represented in type `2`.
    Coerced(Box<Datum>, LlvmType, LlvmType),
    /// The address of byte `1` of the stack slot that the operation at position
    /// `0` reserves.
    Slot(nat, int),
    /// The address of byte `1` of the global of name `0`.
    Global(Seq<char>, int),
    /// Bytes that were read and are not those of one value.
    Raw(Seq<Byte>),
    /// What the call at a position returned, where that is not computed here.
    Returned(nat),
    /// Anything else, such as what is undefined.
    Unknown,
}

/// A number reduced to `width` bits.
pub open spec fn wrap(value: int, width: nat) -> int {
    value % (pow2(width) as int)
}

/// `width` bits read as a signed number.
pub open spec fn signed(value: int, width: nat) -> int {
    if 2 * value >= pow2(width) {
        value - pow2(width)
    } else {
        value
    }
}

/// Bitwise conjunction of natural numbers.
pub open spec fn bit_and(a: nat, b: nat) -> nat
    decreases a,
{
    if a == 0 || b == 0 {
        0
    } else {
        2 * bit_and(a / 2, b / 2) + (if a % 2 == 1 && b % 2 == 1 {
            1nat
        } else {
            0
        })
    }
}

/// Exclusive disjunction of natural numbers, bit by bit.
pub open spec fn bit_xor(a: nat, b: nat) -> nat
    decreases a + b,
{
    if a == 0 && b == 0 {
        0
    } else {
        2 * bit_xor(a / 2, b / 2) + (if a % 2 != b % 2 {
            1nat
        } else {
            0
        })
    }
}

/// Disjunction of natural numbers, bit by bit.
pub open spec fn bit_or(a: nat, b: nat) -> nat
    decreases a + b,
{
    if a == 0 && b == 0 {
        0
    } else {
        2 * bit_or(a / 2, b / 2) + (if a % 2 == 1 || b % 2 == 1 {
            1nat
        } else {
            0
        })
    }
}

/// The quotient of two numbers without its fraction.
pub open spec fn truncated(a: int, b: int) -> int {
    if (a < 0) == (b < 0) {
        magnitude(a) / magnitude(b)
    } else {
        -(magnitude(a) / magnitude(b))
    }
}

/// A number without its sign.
pub open spec fn magnitude(a: int) -> int {
    if a < 0 {
        -a
    } else {
        a
    }
}

/// The truth value as one bit.
pub open spec fn truth(b: bool) -> Datum {
    Datum::Int(
        1,
        if b {
            1
        } else {
            0
        },
    )
}

/// Integer arithmetic on `width` bits.
pub open spec fn int_result(op: IntBinary, width: nat, a: int, b: int) -> Datum {
    match op {
        IntBinary::Add => Datum::Int(width, wrap(a + b, width)),
        IntBinary::Sub => Datum::Int(width, wrap(a - b, width)),
        IntBinary::Mul => Datum::Int(width, wrap(a * b, width)),
        IntBinary::UDiv => if b > 0 {
            Datum::Int(width, a / b)
        } else {
            Datum::Unknown
        },
        IntBinary::URem => if b > 0 {
            Datum::Int(width, a % b)
        } else {
            Datum::Unknown
        },
        IntBinary::SDiv => {
            let (x, y) = (signed(a, width), signed(b, width));
            if y != 0 && 2 * truncated(x, y) < pow2(width) {
                Datum::Int(width, wrap(truncated(x, y), width))
            } else {
                Datum::Unknown
            }
        },
        IntBinary::SRem => {
            let (x, y) = (signed(a, width), signed(b, width));
            if y != 0 && 2 * truncated(x, y) < pow2(width) {
                Datum::Int(width, wrap(x - truncated(x, y) * y, width))
            } else {
                Datum::Unknown
            }
        },
        IntBinary::Shl => if 0 <= b < width {
            Datum::Int(width, wrap(a * pow2(b as nat), width))
        } else {
            Datum::Unknown
        },
        IntBinary::LShr => if 0 <= b < width {
            Datum::Int(width, a / (pow2(b as nat) as int))
        } else {
            Datum::Unknown
        },
        IntBinary::AShr => if 0 <= b < width {
            Datum::Int(width, wrap(signed(a, width) / (pow2(b as nat) as int), width))
        } else {
            Datum::Unknown
        },
        IntBinary::And => Datum::Int(width, bit_and(a as nat, b as nat) as int),
        IntBinary::Or => Datum::Int(width, bit_or(a as nat, b as nat) as int),
        IntBinary::Xor => Datum::Int(width, bit_xor(a as nat, b as nat) as int),
    }
}

/// Whether a comparison of two floating-point values holds, each given by its
/// place if it is a number. An ordered comparison holds of numbers only.
pub open spec fn float_holds(pred: FloatPredicate, x: Option<int>, y: Option<int>) -> bool {
    match (x, y) {
        (Some(a), Some(b)) => match pred {
            FloatPredicate::OEQ => a == b,
            FloatPredicate::OLT => a < b,
            FloatPredicate::OLE => a <= b,
            FloatPredicate::OGT => a > b,
            FloatPredicate::OGE => a >= b,
            FloatPredicate::UNE => a != b,
            FloatPredicate::UNO => false,
        },
        _ => pred == FloatPredicate::UNE || pred == FloatPredicate::UNO,
    }
}

/// Whether the place of a floating-point value is known, or known not to exist.
pub open spec fn is_placed(d: Datum) -> bool {
    d is Number || d is NotANumber
}

/// The place of a floating-point value, if it is a number.
pub open spec fn place(d: Datum) -> Option<int> {
    match d {
        Datum::Number(at) => Some(at),
        _ => None,
    }
}

/// Whether a comparison of two integers of `width` bits holds.
pub open spec fn holds(pred: IntPredicate, width: nat, a: int, b: int) -> bool {
    match pred {
        IntPredicate::EQ => a == b,
        IntPredicate::NE => a != b,
        IntPredicate::ULT => a < b,
        IntPredicate::ULE => a <= b,
        IntPredicate::UGT => a > b,
        IntPredicate::UGE => a >= b,
        IntPredicate::SLT => signed(a, width) < signed(b, width),
        IntPredicate::SLE => signed(a, width) <= signed(b, width),
        IntPredicate::SGT => signed(a, width) > signed(b, width),
        IntPredicate::SGE => signed(a, width) >= signed(b, width),
    }
}

/// A cast to type `ty`.
pub open spec fn cast_result(kind: CastKind, ty: LlvmType, value: Datum) -> Datum {
    match (kind, value, ty) {
        (CastKind::Trunc, Datum::Int(_, a), LlvmType::Integer(w, _)) => Datum::Int(
            w as nat,
            wrap(a, w as nat),
        ),
        (CastKind::ZExt, Datum::Int(_, a), LlvmType::Integer(w, _)) => Datum::Int(w as nat, a),
        (CastKind::SExt, Datum::Int(v, a), LlvmType::Integer(w, _)) => Datum::Int(
            w as nat,
            wrap(signed(a, v), w as nat),
        ),
        (CastKind::Bitcast, Datum::Int(v, a), LlvmType::Integer(w, _)) => if v == w {
            value
        } else {
            Datum::Unknown
        },
        (CastKind::PtrToInt, Datum::Pointer(a), LlvmType::Integer(w, _)) => Datum::Int(
            w as nat,
            wrap(a, w as nat),
        ),
        (CastKind::IntToPtr, Datum::Int(_, a), LlvmType::Pointer(_)) => Datum::Pointer(a),
        (CastKind::Bitcast, Datum::Pointer(_), LlvmType::Pointer(_)) => value,
        (CastKind::Bitcast, Datum::Number(_), LlvmType::Half)
        | (CastKind::Bitcast, Datum::Number(_), LlvmType::Float)
        | (CastKind::Bitcast, Datum::Number(_), LlvmType::Double) => value,
        (CastKind::Bitcast, Datum::NotANumber, LlvmType::Half)
        | (CastKind::Bitcast, Datum::NotANumber, LlvmType::Float)
        | (CastKind::Bitcast, Datum::NotANumber, LlvmType::Double) => value,
        (CastKind::SIToFP, Datum::Int(v, a), _) => Datum::Nearest(signed(a, v), ty),
        (CastKind::UIToFP, Datum::Int(_, a), _) => Datum::Nearest(a, ty),
        (CastKind::FPExt, _, _) | (CastKind::FPTrunc, _, _) | (CastKind::AddrSpaceCast, _, _)
            => Datum::Converted(kind, Box::new(value), ty),
        _ => Datum::Unknown,
    }
}

/// How many members an aggregate type has.
pub open spec fn member_count(ty: LlvmType) -> Option<nat> {
    match ty {
        LlvmType::Struct(fields, _) => Some(fields.types().len()),
        LlvmType::Array(_, n) => Some(n as nat),
        _ => None,
    }
}

/// An arbitrary value of a type.
pub open spec fn undefined(ty: LlvmType) -> Datum
    decreases ty,
{
    match ty {
        LlvmType::Struct(fields, _) => Datum::Aggregate(undefined_fields(*fields)),
        LlvmType::Array(element, n) => Datum::Aggregate(
            Seq::new(n as nat, |i: int| undefined(*element)),
        ),
        _ => Datum::Unknown,
    }
}

/// Arbitrary values of the fields of a struct.
pub open spec fn undefined_fields(fields: FieldTypes) -> Seq<Datum>
    decreases fields,
{
    match fields {
        FieldTypes::End => Seq::empty(),
        FieldTypes::Field(first, rest) => seq![undefined(first)] + undefined_fields(*rest),
    }
}

/// The type of member `i` of an aggregate type.
pub open spec fn member_type(ty: LlvmType, i: int) -> LlvmType {
    match ty {
        LlvmType::Struct(fields, _) => fields.types()[i],
        LlvmType::Array(element, _) => *element,
        _ => ty,
    }
}

proof fn lemma_undefined_fields(fields: FieldTypes)
    ensures
        undefined_fields(fields).len() == fields.types().len(),
        forall|i: int|
            0 <= i < fields.types().len() ==> #[trigger] undefined_fields(fields)[i] == undefined(
                fields.types()[i],
            ),
    decreases fields,
{
    if let FieldTypes::Field(first, rest) = fields {
        lemma_undefined_fields(*rest);
    }
}

/// An arbitrary aggregate has arbitrary members.
pub proof fn lemma_undefined(ty: LlvmType)
    requires
        member_count(ty) is Some,
    ensures
        undefined(ty) matches Datum::Aggregate(parts) && parts.len() == member_count(ty).unwrap()
            && forall|i: int|
            0 <= i < parts.len() ==> #[trigger] parts[i] == undefined(member_type(ty, i)),
{
    if let LlvmType::Struct(fields, _) = ty {
        lemma_undefined_fields(*fields);
    }
}

/// A value of type `from` in a representation of type `to`. A truth value as a
/// byte is the number of its bit; of other representations nothing is known but
/// that a value that is put into one and back is the value.
pub open spec fn coerced(d: Datum, from: LlvmType, to: LlvmType) -> Datum {
    if from == to {
        d
    } else {
        match d {
            Datum::Coerced(inner, own, _) => if own == to {
                *inner
            } else {
                Datum::Coerced(inner, own, to)
            },
            Datum::Int(_, a) => if from.spec_int_width() == Some(1u32) && to.spec_int_width()
                == Some(8u32) {
                Datum::Int(8, a)
            } else if from.spec_int_width() == Some(8u32) && to.spec_int_width() == Some(1u32) {
                Datum::Int(1, wrap(a, 1))
            } else {
                Datum::Coerced(Box::new(d), from, to)
            },
            _ => Datum::Coerced(Box::new(d), from, to),
        }
    }
}

/// The member that a constant index names.
pub open spec fn member_at(indices: Seq<Index>) -> Option<int> {
    if indices.len() == 1 {
        match indices[0] {
            Index::Const(i) => Some(i as int),
            Index::Dynamic(_) => None,
        }
    } else {
        None
    }
}

/// An aggregate with `part` at the end of a path of constant indices.
pub open spec fn inserted(whole: Datum, path: Seq<Index>, part: Datum) -> Datum
    decreases path.len(),
{
    if path.len() == 0 {
        part
    } else {
        match (whole, path[0]) {
            (Datum::Aggregate(members), Index::Const(i)) => if i < members.len() {
                Datum::Aggregate(
                    members.update(i as int, inserted(members[i as int], path.skip(1), part)),
                )
            } else {
                Datum::Unknown
            },
            _ => Datum::Unknown,
        }
    }
}

/// Whether a value of type `ty` is one by itself, an integer one that the type
/// can hold, or a value of another type that was put into this representation.
pub open spec fn represented(d: Datum, ty: LlvmType) -> bool {
    match d {
        Datum::Coerced(inner, own, now) => {
            &&& now == ty
            &&& own != ty
            &&& *inner !is Coerced
            &&& *inner !is Int
            &&& ty !is Integer
        },
        Datum::Int(width, a) => ty matches LlvmType::Integer(w, _) && w == width && 0 <= a < pow2(
            width,
        ),
        _ => true,
    }
}

/// Whether a type, its form with truth values as bytes, and its storage type can
/// stand for each other: an integer is stored as it is, or as a byte where it is
/// a truth value.
pub open spec fn same_value(own: LlvmType, bytes: LlvmType, storage: LlvmType) -> bool {
    if own is Integer || bytes is Integer || storage is Integer {
        bytes == storage && (own == storage || (own.spec_int_width() == Some(1u32)
            && storage.spec_int_width() == Some(8u32)))
    } else {
        true
    }
}

/// What an operation computes from its first three operands.
pub open spec fn op_result(op: OpView, x: Datum, y: Datum, z: Datum) -> Datum {
    match op.code {
        OpCode::ConstInt(c) => Datum::Int(c.width as nat, c.value()),
        OpCode::ConstFloat(bits) => Datum::Pattern(bits),
        OpCode::Undef => undefined(op.ty),
        OpCode::Int(code) => match (x, y) {
            (Datum::Int(w, a), Datum::Int(_, b)) => int_result(code, w, a, b),
            _ => Datum::Unknown,
        },
        OpCode::IntCompare(pred) => match (x, y) {
            (Datum::Int(w, a), Datum::Int(_, b)) => truth(holds(pred, w, a, b)),
            (Datum::Pointer(a), Datum::Pointer(b)) => match pred {
                IntPredicate::EQ => truth(a == b),
                IntPredicate::NE => truth(a != b),
                _ => Datum::Unknown,
            },
            _ => Datum::Unknown,
        },
        OpCode::Float(code, flags) => Datum::Computed(code, flags, Box::new(x), Box::new(y)),
        OpCode::FNeg(flags) => if flags != FastMath::none() {
            Datum::Unknown
        } else {
            match x {
                Datum::Number(at) => Datum::Number(-at),
                Datum::NotANumber => Datum::NotANumber,
                _ => Datum::Unknown,
            }
        },
        OpCode::FloatCompare(pred, flags) => if flags == FastMath::none() && is_placed(x)
            && is_placed(y) {
            truth(float_holds(pred, place(x), place(y)))
        } else {
            Datum::Unknown
        },
        OpCode::Select => match x {
            Datum::Int(_, c) => if c == 1 {
                y
            } else {
                z
            },
            _ => Datum::Unknown,
        },
        OpCode::Cast(kind) => cast_result(kind, op.ty, x),
        OpCode::ExtractValue => match (x, member_at(op.indices)) {
            (Datum::Aggregate(members), Some(i)) => if i < members.len() {
                members[i]
            } else {
                Datum::Unknown
            },
            _ => Datum::Unknown,
        },
        OpCode::InsertValue => match member_at(op.indices) {
            Some(i) => match x {
                Datum::Aggregate(members) => if i < members.len() {
                    Datum::Aggregate(members.update(i, y))
                } else {
                    Datum::Unknown
                },
                _ => Datum::Unknown,
            },
            None => inserted(x, op.indices, y),
        },
        OpCode::Coerce(_) => coerced(x, op.operands[0].ty, op.ty),
        OpCode::AddressOf => Datum::Global(op.symbol, 0),
        _ => Datum::Unknown,
    }
}

/// How many bits of a number are ones.
pub open spec fn count_ones(a: nat) -> nat
    decreases a,
{
    if a == 0 {
        0
    } else {
        a % 2 + count_ones(a / 2)
    }
}

/// How many bits a number takes.
pub open spec fn bit_length(a: nat) -> nat
    decreases a,
{
    if a == 0 {
        0
    } else {
        1 + bit_length(a / 2)
    }
}

/// How many zeros stand below the lowest one of a number of `width` bits.
pub open spec fn trailing_zeros(a: nat, width: nat) -> nat
    decreases width,
{
    if width == 0 || a % 2 == 1 {
        0
    } else {
        1 + trailing_zeros(a / 2, (width - 1) as nat)
    }
}

/// `count` digits to base `base` in opposite order.
pub open spec fn reversed_digits(a: nat, base: nat, count: nat) -> nat
    decreases count,
{
    if count == 0 || base == 0 {
        0
    } else {
        (a % base) * vstd::arithmetic::power::pow(base as int, (count - 1) as nat) as nat
            + reversed_digits(a / base, base, (count - 1) as nat)
    }
}

/// The high half of `a` and `b` side by side, shifted to the left by `amount`
/// modulo the width.
pub open spec fn funnel_left(a: int, b: int, amount: int, width: nat) -> int {
    let k = (amount % (width as int)) as nat;
    wrap(a * pow2(k), width) + b / (pow2((width - k) as nat) as int)
}

/// The low half of `a` and `b` side by side, shifted to the right by `amount`
/// modulo the width.
pub open spec fn funnel_right(a: int, b: int, amount: int, width: nat) -> int {
    let k = (amount % (width as int)) as nat;
    wrap(a * pow2((width - k) as nat), width) + b / (pow2(k) as int)
}

/// The number in a range that is nearest to `value`.
pub open spec fn clamped(value: int, low: int, high: int) -> int {
    if value < low {
        low
    } else if value > high {
        high
    } else {
        value
    }
}

/// The number of `width` bits nearest to `value`, with or without sign.
pub open spec fn saturated(value: int, width: nat, is_signed: bool) -> int {
    let m = pow2(width) as int;
    if is_signed {
        wrap(clamped(value, -(m / 2), m / 2 - 1), width)
    } else {
        clamped(value, 0, m - 1)
    }
}

/// What the integer intrinsic `stem` of LLVM, for `width` bits, computes.
#[verifier::opaque]
pub open spec fn intrinsic_result(
    stem: Seq<char>,
    width: nat,
    a: int,
    y: Datum,
    z: Datum,
) -> Option<int> {
    if stem == "llvm_ctpop_i"@ {
        Some(count_ones(a as nat) as int)
    } else if stem == "llvm_bitreverse_i"@ {
        Some(reversed_digits(a as nat, 2, width) as int)
    } else if stem == "llvm_bswap_i"@ && width % 8 == 0 {
        Some(reversed_digits(a as nat, 256, width / 8) as int)
    } else {
        match (y, z) {
            (Datum::Int(_, b), Datum::Int(_, amount)) => if width == 0 {
                None
            } else if stem == "llvm_fshl_i"@ {
                Some(funnel_left(a, b, amount, width))
            } else if stem == "llvm_fshr_i"@ {
                Some(funnel_right(a, b, amount, width))
            } else {
                None
            },
            (Datum::Int(_, b), _) => if stem == "llvm_ctlz_i"@ {
                if a == 0 && b == 1 {
                    None
                } else {
                    Some(width - bit_length(a as nat))
                }
            } else if stem == "llvm_cttz_i"@ {
                if a == 0 && b == 1 {
                    None
                } else {
                    Some(trailing_zeros(a as nat, width) as int)
                }
            } else if stem == "llvm_sadd_sat_i"@ {
                Some(saturated(signed(a, width) + signed(b, width), width, true))
            } else if stem == "llvm_ssub_sat_i"@ {
                Some(saturated(signed(a, width) - signed(b, width), width, true))
            } else if stem == "llvm_uadd_sat_i"@ {
                Some(saturated(a + b, width, false))
            } else if stem == "llvm_usub_sat_i"@ {
                Some(saturated(a - b, width, false))
            } else {
                None
            },
            _ => None,
        }
    }
}

/// What the call at position `at` returns. An integer intrinsic is named by its
/// stem and the width of its operands.
#[verifier::opaque]
pub open spec fn called(op: OpView, at: nat, x: Datum, y: Datum, z: Datum) -> Datum {
    match x {
        Datum::Int(width, a) => {
            let digits = decimal(width);
            if op.symbol.len() > digits.len() {
                let stem = op.symbol.take(op.symbol.len() - digits.len());
                match intrinsic_result(stem, width, a, y, z) {
                    Some(number) => if op.symbol == stem + digits && op.ty.spec_int_width()
                        == Some(width as u32) {
                        Datum::Int(width, number)
                    } else {
                        Datum::Returned(at)
                    },
                    None => Datum::Returned(at),
                }
            } else {
                Datum::Returned(at)
            }
        },
        _ => Datum::Returned(at),
    }
}

/// What the stack slots hold, byte by byte.
pub type Stack = spec_fn(nat) -> spec_fn(int) -> Byte;

/// Whether an operation computes an address, reads memory, or calls.
pub open spec fn is_access(code: OpCode) -> bool {
    code is Alloca || code is Gep || code is Load || code is Call || code is InlineAsm
}

/// An index of an address computation, as a signed number.
pub open spec fn index_number(d: Datum) -> Option<int> {
    match d {
        Datum::Int(width, a) => Some(signed(a, width)),
        _ => None,
    }
}

/// The address that `count` indices lead to from `base`: over values of the
/// source element type, and from there to an element of an array or a field of a
/// struct.
pub open spec fn address(
    base: Datum,
    source: LlvmType,
    count: nat,
    first: Option<int>,
    second: Option<int>,
) -> Datum {
    match (base, first) {
        (Datum::Global(name, at), Some(a)) => if laid_out(source) && count == 1 {
            Datum::Global(name, at + a * size_of(source))
        } else {
            Datum::Unknown
        },
        (Datum::Slot(slot, at), Some(a)) => if !laid_out(source) {
            Datum::Unknown
        } else if count == 1 {
            Datum::Slot(slot, at + a * size_of(source))
        } else {
            match (source, second) {
                (LlvmType::Array(element, _), Some(b)) => if count == 2 {
                    Datum::Slot(slot, at + a * size_of(source) + b * size_of(*element))
                } else {
                    Datum::Unknown
                },
                (LlvmType::Struct(fields, _), Some(b)) => if count == 2 && 0 <= b
                    < fields.types().len() {
                    Datum::Slot(
                        slot,
                        at + a * size_of(source) + field_offset(*fields, b as nat),
                    )
                } else {
                    Datum::Unknown
                },
                _ => Datum::Unknown,
            }
        },
        _ => Datum::Unknown,
    }
}

/// What is loaded from an address.
pub open spec fn loaded(stack: Stack, from: Datum, ty: LlvmType) -> Datum {
    match from {
        Datum::Slot(slot, at) => if laid_out(ty) {
            read(stack(slot), at, ty)
        } else {
            Datum::Unknown
        },
        _ => Datum::Unknown,
    }
}

/// A slot with the bytes of a value at `at`.
pub open spec fn overwritten(
    bytes: spec_fn(int) -> Byte,
    at: int,
    d: Datum,
    ty: LlvmType,
) -> spec_fn(int) -> Byte {
    |k: int|
        if at <= k < at + size_of(ty) {
            byte(d, ty, k - at)
        } else {
            bytes(k)
        }
}

/// The stack after a value was stored. A store to an address that is not known
/// to be in a stack slot may have overwritten any of them.
pub open spec fn stored(stack: Stack, to: Datum, d: Datum, ty: LlvmType) -> Stack {
    match to {
        Datum::Slot(slot, at) => if laid_out(ty) {
            |s: nat|
                if s == slot {
                    overwritten(stack(slot), at, d, ty)
                } else {
                    stack(s)
                }
        } else {
            |s: nat| |k: int| Byte::Undefined
        },
        _ => |s: nat| |k: int| Byte::Undefined,
    }
}

/// The stack after an operation. Calls and assembly may overwrite any slot.
pub open spec fn stack_after(op: OpView, stack: Stack, x: Datum, y: Datum) -> Stack {
    match op.code {
        OpCode::Store => stored(stack, y, x, op.operands[0].ty),
        OpCode::Call | OpCode::InlineAsm(_) => |s: nat| |k: int| Byte::Undefined,
        _ => stack,
    }
}

/// The stack before the operation at position `i`.
#[verifier::opaque]
pub open spec fn stack_at(ops: Seq<OpView>, env: spec_fn(u64) -> Datum, i: nat) -> Stack
    decreases i, 0nat,
{
    if i == 0 {
        |s: nat| |k: int| Byte::Undefined
    } else {
        stack_after(
            ops[i - 1],
            stack_at(ops, env, (i - 1) as nat),
            operand(ops, env, (i - 1) as nat, 0),
            operand(ops, env, (i - 1) as nat, 1),
        )
    }
}

/// What the operation at position `i` has as index `k`.
pub open spec fn index_at(ops: Seq<OpView>, env: spec_fn(u64) -> Datum, i: nat, k: int) -> Option<
    int,
>
    decreases i, 0nat,
{
    if 0 <= k < ops[i as int].indices.len() {
        match ops[i as int].indices[k] {
            Index::Const(c) => Some(c as int),
            Index::Dynamic(value) => match value.def {
                Def::Argument(a) => index_number(env(a)),
                Def::Result(j) => if j < i {
                    index_number(eval(ops, env, j as nat))
                } else {
                    None
                },
            },
        }
    } else {
        None
    }
}

/// Which address the operation at position `i` computes, or what it loads or
/// gets from a call or from assembly.
#[verifier::opaque]
pub open spec fn accessed(ops: Seq<OpView>, env: spec_fn(u64) -> Datum, i: nat) -> Datum
    decreases i, 1nat,
{
    match ops[i as int].code {
        OpCode::Alloca(_) => Datum::Slot(i, 0),
        OpCode::Gep(source, _) => address(
            operand(ops, env, i, 0),
            source,
            ops[i as int].indices.len(),
            index_at(ops, env, i, 0),
            index_at(ops, env, i, 1),
        ),
        OpCode::Load => loaded(stack_at(ops, env, i), operand(ops, env, i, 0), ops[i as int].ty),
        OpCode::Call => called(
            ops[i as int],
            i,
            operand(ops, env, i, 0),
            operand(ops, env, i, 1),
            operand(ops, env, i, 2),
        ),
        _ => Datum::Returned(i),
    }
}

/// What the operation at position `i` computes. `env` gives the arguments of the
/// function.
pub open spec fn eval(ops: Seq<OpView>, env: spec_fn(u64) -> Datum, i: nat) -> Datum
    decreases i, 2nat,
{
    if is_access(ops[i as int].code) {
        accessed(ops, env, i)
    } else {
        op_result(
            ops[i as int],
            operand(ops, env, i, 0),
            operand(ops, env, i, 1),
            operand(ops, env, i, 2),
        )
    }
}

/// What the operation at position `i` has as operand `k`.
pub open spec fn operand(ops: Seq<OpView>, env: spec_fn(u64) -> Datum, i: nat, k: int) -> Datum
    decreases i, 0nat,
{
    if 0 <= k < ops[i as int].operands.len() {
        match ops[i as int].operands[k].def {
            Def::Argument(a) => env(a),
            Def::Result(j) => if j < i {
                eval(ops, env, j as nat)
            } else {
                Datum::Unknown
            },
        }
    } else {
        Datum::Unknown
    }
}

/// What a value holds after `ops`.
pub open spec fn datum(ops: Seq<OpView>, env: spec_fn(u64) -> Datum, value: Value) -> Datum {
    match value.def {
        Def::Argument(a) => env(a),
        Def::Result(j) => if j < ops.len() {
            eval(ops, env, j as nat)
        } else {
            Datum::Unknown
        },
    }
}

/// Whether a value is available to an operation at position `i`.
pub open spec fn available(value: Value, i: nat) -> bool {
    match value.def {
        Def::Argument(_) => true,
        Def::Result(j) => j < i,
    }
}

/// Whether a value holds an integer of `width` bits.
pub open spec fn holds_int(
    ops: Seq<OpView>,
    env: spec_fn(u64) -> Datum,
    value: Value,
    width: nat,
    number: int,
) -> bool {
    &&& available(value, ops.len())
    &&& datum(ops, env, value) == Datum::Int(width, number)
    &&& 0 <= number < pow2(width)
}

/// Operations that follow do not change what a value holds, nor what the stack
/// held before them.
pub proof fn lemma_prefix(
    ops: Seq<OpView>,
    more: Seq<OpView>,
    env: spec_fn(u64) -> Datum,
    i: nat,
)
    ensures
        i < ops.len() ==> eval(ops + more, env, i) == eval(ops, env, i),
        i <= ops.len() ==> stack_at(ops + more, env, i) == stack_at(ops, env, i),
    decreases i, 1nat,
{
    reveal_with_fuel(eval, 2);
    reveal_with_fuel(accessed, 2);
    reveal_with_fuel(stack_at, 2);
    let all = ops + more;
    if 0 < i <= ops.len() {
        assert(all[i - 1] == ops[i - 1]);
        lemma_prefix(ops, more, env, (i - 1) as nat);
        lemma_operand_prefix(ops, more, env, (i - 1) as nat, 0);
        lemma_operand_prefix(ops, more, env, (i - 1) as nat, 1);
    }
    if i < ops.len() {
        assert(all[i as int] == ops[i as int]);
        lemma_operand_prefix(ops, more, env, i, 0);
        lemma_operand_prefix(ops, more, env, i, 1);
        lemma_operand_prefix(ops, more, env, i, 2);
    }
}

/// Operations that follow do not change operands and indices.
proof fn lemma_operand_prefix(
    ops: Seq<OpView>,
    more: Seq<OpView>,
    env: spec_fn(u64) -> Datum,
    i: nat,
    k: int,
)
    requires
        i < ops.len(),
    ensures
        operand(ops + more, env, i, k) == operand(ops, env, i, k),
        index_at(ops + more, env, i, k) == index_at(ops, env, i, k),
    decreases i, 0nat,
{
    let all = ops + more;
    assert(all[i as int] == ops[i as int]);
    if 0 <= k < ops[i as int].operands.len() {
        if let Def::Result(j) = ops[i as int].operands[k].def {
            if j < i {
                lemma_prefix(ops, more, env, j as nat);
            }
        }
    }
    if 0 <= k < ops[i as int].indices.len() {
        if let Index::Dynamic(value) = ops[i as int].indices[k] {
            if let Def::Result(j) = value.def {
                if j < i {
                    lemma_prefix(ops, more, env, j as nat);
                }
            }
        }
    }
}

/// Operations that follow do not change what an available value holds.
pub proof fn lemma_datum_prefix(
    ops: Seq<OpView>,
    more: Seq<OpView>,
    env: spec_fn(u64) -> Datum,
    value: Value,
)
    requires
        available(value, ops.len()),
    ensures
        datum(ops + more, env, value) == datum(ops, env, value),
{
    if let Def::Result(j) = value.def {
        lemma_prefix(ops, more, env, j as nat);
    }
}

/// An operation whose operands are available computes from what they hold.
pub proof fn lemma_step(ops: Seq<OpView>, env: spec_fn(u64) -> Datum, i: nat)
    requires
        i < ops.len(),
        i <= usize::MAX,
        forall|k: int|
            0 <= k < ops[i as int].operands.len() ==> available(
                #[trigger] ops[i as int].operands[k],
                i,
            ),
    ensures
        ({
            let args = ops[i as int].operands;
            let result = op_result(
                ops[i as int],
                if args.len() > 0 {
                    datum(ops, env, args[0])
                } else {
                    Datum::Unknown
                },
                if args.len() > 1 {
                    datum(ops, env, args[1])
                } else {
                    Datum::Unknown
                },
                if args.len() > 2 {
                    datum(ops, env, args[2])
                } else {
                    Datum::Unknown
                },
            );
            !is_access(ops[i as int].code) ==> {
                &&& eval(ops, env, i) == result
                &&& forall|ty: LlvmType|
                    datum(ops, env, #[trigger] Value::at(i, ty)) == result
            }
        }),
{
    let args = ops[i as int].operands;
    if args.len() > 0 {
        assert(available(args[0], i));
    }
    if args.len() > 1 {
        assert(available(args[1], i));
    }
    if args.len() > 2 {
        assert(available(args[2], i));
    }
    reveal_with_fuel(eval, 2);
    reveal_with_fuel(operand, 2);
}

/// What the operation at position `k` of a sequence emitted after `ops`
/// computes.
pub proof fn lemma_emitted(
    ops: Seq<OpView>,
    emitted: Seq<OpView>,
    env: spec_fn(u64) -> Datum,
    k: nat,
)
    requires
        k < emitted.len(),
        ops.len() + k <= usize::MAX,
        forall|j: int|
            0 <= j < emitted[k as int].operands.len() ==> available(
                #[trigger] emitted[k as int].operands[j],
                ops.len() + k,
            ),
    ensures
        ({
            let all = ops + emitted;
            let args = emitted[k as int].operands;
            let result = op_result(
                emitted[k as int],
                if args.len() > 0 {
                    datum(all, env, args[0])
                } else {
                    Datum::Unknown
                },
                if args.len() > 1 {
                    datum(all, env, args[1])
                } else {
                    Datum::Unknown
                },
                if args.len() > 2 {
                    datum(all, env, args[2])
                } else {
                    Datum::Unknown
                },
            );
            !is_access(emitted[k as int].code) ==> {
                &&& eval(all, env, ops.len() + k) == result
                &&& forall|ty: LlvmType|
                    datum(all, env, #[trigger] Value::at(ops.len() + k, ty)) == result
            }
        }),
{
    let all = ops + emitted;
    assert(all[ops.len() + k as int] == emitted[k as int]);
    lemma_step(all, env, ops.len() + k);
}

/// What an index holds after `ops`.
pub open spec fn index_held(ops: Seq<OpView>, env: spec_fn(u64) -> Datum, index: Index) -> Option<
    int,
> {
    match index {
        Index::Const(c) => Some(c as int),
        Index::Dynamic(value) => index_number(datum(ops, env, value)),
    }
}

/// Whether an index is available to an operation at position `i`.
pub open spec fn index_available(index: Index, i: nat) -> bool {
    index matches Index::Dynamic(value) ==> available(value, i)
}

/// What the operation at position `k` of a sequence emitted after `ops` does to
/// the stack, and which address it computes or what it loads or gets.
pub proof fn lemma_accessed(
    ops: Seq<OpView>,
    emitted: Seq<OpView>,
    env: spec_fn(u64) -> Datum,
    k: nat,
)
    requires
        k < emitted.len(),
        ops.len() + k <= usize::MAX,
        forall|j: int|
            0 <= j < emitted[k as int].operands.len() ==> available(
                #[trigger] emitted[k as int].operands[j],
                ops.len() + k,
            ),
        forall|j: int|
            0 <= j < emitted[k as int].indices.len() ==> index_available(
                #[trigger] emitted[k as int].indices[j],
                ops.len() + k,
            ),
    ensures
        ({
            let all = ops + emitted;
            let op = emitted[k as int];
            let at = ops.len() + k;
            let x = if op.operands.len() > 0 {
                datum(all, env, op.operands[0])
            } else {
                Datum::Unknown
            };
            let y = if op.operands.len() > 1 {
                datum(all, env, op.operands[1])
            } else {
                Datum::Unknown
            };
            let z = if op.operands.len() > 2 {
                datum(all, env, op.operands[2])
            } else {
                Datum::Unknown
            };
            let first = if op.indices.len() > 0 {
                index_held(all, env, op.indices[0])
            } else {
                None
            };
            let second = if op.indices.len() > 1 {
                index_held(all, env, op.indices[1])
            } else {
                None
            };
            &&& stack_at(all, env, at + 1) == stack_after(op, stack_at(all, env, at), x, y)
            &&& op.code is Alloca ==> eval(all, env, at) == Datum::Slot(at, 0)
            &&& op.code matches OpCode::Gep(source, _) ==> eval(all, env, at) == address(
                x,
                source,
                op.indices.len(),
                first,
                second,
            )
            &&& op.code is Load ==> eval(all, env, at) == loaded(stack_at(all, env, at), x, op.ty)
            &&& op.code is Call ==> eval(all, env, at) == called(op, at, x, y, z)
            &&& op.code is InlineAsm ==> eval(all, env, at) == Datum::Returned(at)
            &&& forall|ty: LlvmType|
                datum(all, env, #[trigger] Value::at(at, ty)) == eval(all, env, at)
        }),
{
    let all = ops + emitted;
    let op = emitted[k as int];
    let at = ops.len() + k;
    assert(all[at as int] == op);
    if op.operands.len() > 0 {
        assert(available(op.operands[0], at));
    }
    if op.operands.len() > 1 {
        assert(available(op.operands[1], at));
    }
    if op.operands.len() > 2 {
        assert(available(op.operands[2], at));
    }
    if op.indices.len() > 0 {
        assert(index_available(op.indices[0], at));
    }
    if op.indices.len() > 1 {
        assert(index_available(op.indices[1], at));
    }
    reveal_with_fuel(eval, 2);
    reveal_with_fuel(operand, 2);
    reveal_with_fuel(index_at, 2);
    reveal_with_fuel(accessed, 2);
    reveal_with_fuel(stack_at, 2);
}

/// A value that is copied to a fresh stack slot has its bytes there.
pub proof fn lemma_spilled(
    ops: Seq<OpView>,
    emitted: Seq<OpView>,
    env: spec_fn(u64) -> Datum,
    value: Value,
)
    requires
        emitted.len() >= 3,
        ops.len() + 3 <= usize::MAX,
        emitted[0].code is ConstInt,
        emitted[0].operands.len() == 0,
        emitted[0].indices.len() == 0,
        emitted[1].code is Alloca,
        emitted[1].operands.len() == 1,
        available(emitted[1].operands[0], ops.len() + 1),
        emitted[1].indices.len() == 0,
        emitted[2].code == OpCode::Store,
        emitted[2].operands == seq![value, Value::at(ops.len() + 1, LlvmType::Pointer(0))],
        emitted[2].indices.len() == 0,
        available(value, ops.len()),
        laid_out(value.ty),
    ensures
        ({
            let all = ops + emitted;
            let slot = ops.len() + 1;
            &&& forall|ty: LlvmType|
                datum(all, env, #[trigger] Value::at(slot, ty)) == Datum::Slot(slot, 0)
            &&& forall|k: int|
                0 <= k < size_of(value.ty) ==> #[trigger] at_offset(
                    stack_at(all, env, ops.len() + 3)(slot),
                    0,
                    k,
                ) == byte(datum(ops, env, value), value.ty, k)
        }),
{
    lemma_datum_prefix(ops, emitted, env, value);
    lemma_accessed(ops, emitted, env, 0);
    lemma_accessed(ops, emitted, env, 1);
    lemma_accessed(ops, emitted, env, 2);
    assert(emitted[2].operands[0] == value);
    assert(emitted[2].operands[1] == Value::at(ops.len() + 1, LlvmType::Pointer(0)));
}

} // verus!
