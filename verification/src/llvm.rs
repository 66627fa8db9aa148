//! LLVM types.

use vstd::prelude::*;

verus! {

#[derive(Clone, Copy, PartialEq, Eq, Structural, Debug)]
pub enum Signedness {
    Signed,
    Unsigned,
    Signless,
}

/// An LLVM type. Integers carry the signedness that the dialect records.
#[derive(PartialEq, Eq, Debug)]
pub enum LlvmType {
    Integer(u32, Signedness),
    Half,
    Float,
    Double,
    /// A pointer into the given address space.
    Pointer(u32),
    Array(Box<LlvmType>, u64),
    /// Field types, and whether the fields are packed without padding.
    Struct(Box<FieldTypes>, bool),
    /// A struct whose body is not known, told apart by a number.
    OpaqueStruct(u64),
    Void,
}

/// The field types of a struct, in memory order.
#[derive(PartialEq, Eq, Debug)]
pub enum FieldTypes {
    End,
    Field(LlvmType, Box<FieldTypes>),
}

impl FieldTypes {
    /// The field types as a sequence.
    pub open spec fn types(self) -> Seq<LlvmType>
        decreases self,
    {
        match self {
            FieldTypes::End => Seq::empty(),
            FieldTypes::Field(first, rest) => seq![first] + rest.types(),
        }
    }

    /// The field type at index `i`, if there is one.
    pub fn get(&self, i: u32) -> (r: Option<LlvmType>)
        ensures
            r == (if i < self.types().len() {
                Some(self.types()[i as int])
            } else {
                None
            }),
        decreases self,
    {
        match self {
            FieldTypes::End => None,
            FieldTypes::Field(first, rest) => {
                if i == 0 {
                    Some(first.copy())
                } else {
                    rest.get(i - 1)
                }
            },
        }
    }

    /// The type of the only field, if there is exactly one.
    pub fn single(&self) -> (r: Option<LlvmType>)
        ensures
            r == (if self.types().len() == 1 {
                Some(self.types()[0])
            } else {
                None
            }),
    {
        match self {
            FieldTypes::End => None,
            FieldTypes::Field(first, rest) => match &**rest {
                FieldTypes::End => {
                    proof {
                        assert(rest.types() =~= Seq::empty());
                    }
                    Some(first.copy())
                },
                FieldTypes::Field(second, more) => {
                    proof {
                        assert(rest.types() == seq![*second] + more.types());
                    }
                    None
                },
            },
        }
    }

    /// Both field types, if there are exactly two.
    pub fn pair(&self) -> (r: Option<(LlvmType, LlvmType)>)
        ensures
            r == (if self.types().len() == 2 {
                Some((self.types()[0], self.types()[1]))
            } else {
                None
            }),
    {
        match self {
            FieldTypes::End => None,
            FieldTypes::Field(first, rest) => match rest.single() {
                Some(second) => Some((first.copy(), second)),
                None => None,
            },
        }
    }

    /// The field list of the given types.
    pub fn of(types: Vec<LlvmType>) -> (r: FieldTypes)
        ensures
            r.types() == types@,
    {
        let mut r = FieldTypes::End;
        let mut i: usize = types.len();
        proof {
            assert(types@.skip(i as int) =~= Seq::empty());
        }
        while i > 0
            invariant
                i <= types.len(),
                r.types() == types@.skip(i as int),
            decreases i,
        {
            i = i - 1;
            r = FieldTypes::Field(types[i].copy(), Box::new(r));
            proof {
                assert(r.types() =~= types@.skip(i as int));
            }
        }
        proof {
            assert(types@.skip(0) =~= types@);
        }
        r
    }

    /// The field list of two types.
    pub open spec fn spec_pair(first: LlvmType, second: LlvmType) -> FieldTypes {
        FieldTypes::Field(
            first,
            Box::new(FieldTypes::Field(second, Box::new(FieldTypes::End))),
        )
    }

    pub fn same(&self, other: &FieldTypes) -> (b: bool)
        ensures
            b == (*self == *other),
        decreases self,
    {
        match (self, other) {
            (FieldTypes::End, FieldTypes::End) => true,
            (FieldTypes::Field(a, ra), FieldTypes::Field(b, rb)) => a.same(b) && ra.same(rb),
            _ => false,
        }
    }

    pub fn copy(&self) -> (r: FieldTypes)
        ensures
            r == *self,
        decreases self,
    {
        match self {
            FieldTypes::End => FieldTypes::End,
            FieldTypes::Field(a, rest) => FieldTypes::Field(a.copy(), Box::new(rest.copy())),
        }
    }
}

impl LlvmType {
    /// The type of a truth value.
    pub open spec fn spec_bool() -> LlvmType {
        LlvmType::spec_int(1)
    }

    /// The signless integer type of `width` bits.
    pub open spec fn spec_int(width: u32) -> LlvmType {
        LlvmType::Integer(width, Signedness::Signless)
    }

    /// The struct of two fields.
    pub open spec fn spec_pair(first: LlvmType, second: LlvmType) -> LlvmType {
        LlvmType::Struct(Box::new(FieldTypes::spec_pair(first, second)), false)
    }

    /// The fat pointer of a slice: data pointer and element count.
    pub open spec fn spec_slice() -> LlvmType {
        LlvmType::spec_pair(LlvmType::Pointer(0), LlvmType::spec_int(64))
    }

    /// Whether values of this type are structs.
    pub open spec fn spec_is_struct(self) -> bool {
        self is Struct || self is OpaqueStruct
    }

    /// The width of an integer type.
    pub open spec fn spec_int_width(self) -> Option<u32> {
        match self {
            LlvmType::Integer(w, _) => Some(w),
            _ => None,
        }
    }

    /// The address space of a pointer type.
    pub open spec fn spec_addrspace(self) -> Option<u32> {
        match self {
            LlvmType::Pointer(a) => Some(a),
            _ => None,
        }
    }

    /// The width of a floating-point type.
    pub open spec fn spec_float_width(self) -> Option<u32> {
        match self {
            LlvmType::Half => Some(16),
            LlvmType::Float => Some(32),
            LlvmType::Double => Some(64),
            _ => None,
        }
    }

    /// The type of the member that `extractvalue` with index `i` reads.
    pub open spec fn spec_member(self, i: u32) -> Option<LlvmType> {
        match self {
            LlvmType::Struct(fields, _) => if i < fields.types().len() {
                Some(fields.types()[i as int])
            } else {
                None
            },
            LlvmType::Array(elem, n) => if (i as int) < n {
                Some(*elem)
            } else {
                None
            },
            _ => None,
        }
    }

    /// The signless integer type of `width` bits.
    pub fn int_type(width: u32) -> (t: LlvmType)
        ensures
            t == LlvmType::spec_int(width),
    {
        LlvmType::Integer(width, Signedness::Signless)
    }

    /// The struct of two fields.
    pub fn pair(first: LlvmType, second: LlvmType) -> (t: LlvmType)
        ensures
            t == LlvmType::spec_pair(first, second),
    {
        LlvmType::Struct(
            Box::new(
                FieldTypes::Field(
                    first,
                    Box::new(FieldTypes::Field(second, Box::new(FieldTypes::End))),
                ),
            ),
            false,
        )
    }

    /// The fat pointer of a slice: data pointer and element count.
    pub fn slice_struct() -> (t: LlvmType)
        ensures
            t == LlvmType::spec_slice(),
    {
        LlvmType::pair(LlvmType::Pointer(0), LlvmType::int_type(64))
    }

    pub fn is_struct(&self) -> (b: bool)
        ensures
            b == self.spec_is_struct(),
    {
        match self {
            LlvmType::Struct(_, _) => true,
            LlvmType::OpaqueStruct(_) => true,
            _ => false,
        }
    }

    pub fn is_array(&self) -> (b: bool)
        ensures
            b == (self is Array),
    {
        match self {
            LlvmType::Array(_, _) => true,
            _ => false,
        }
    }

    pub fn int_width(&self) -> (w: Option<u32>)
        ensures
            w == self.spec_int_width(),
    {
        match self {
            LlvmType::Integer(w, _) => Some(*w),
            _ => None,
        }
    }

    pub fn addrspace(&self) -> (a: Option<u32>)
        ensures
            a == self.spec_addrspace(),
    {
        match self {
            LlvmType::Pointer(a) => Some(*a),
            _ => None,
        }
    }

    pub fn float_width(&self) -> (w: Option<u32>)
        ensures
            w == self.spec_float_width(),
    {
        match self {
            LlvmType::Half => Some(16),
            LlvmType::Float => Some(32),
            LlvmType::Double => Some(64),
            _ => None,
        }
    }

    /// The type of the member that `extractvalue` with index `i` reads.
    pub fn member(&self, i: u32) -> (t: Option<LlvmType>)
        ensures
            t == self.spec_member(i),
    {
        match self {
            LlvmType::Struct(fields, _) => fields.get(i),
            LlvmType::Array(elem, n) => if (i as u64) < *n {
                Some(elem.copy())
            } else {
                None
            },
            _ => None,
        }
    }

    /// Type equality.
    pub fn same(&self, other: &LlvmType) -> (b: bool)
        ensures
            b == (*self == *other),
        decreases self,
    {
        match (self, other) {
            (LlvmType::Integer(w, s), LlvmType::Integer(v, t)) => *w == *v && *s == *t,
            (LlvmType::Half, LlvmType::Half) => true,
            (LlvmType::Float, LlvmType::Float) => true,
            (LlvmType::Double, LlvmType::Double) => true,
            (LlvmType::Pointer(a), LlvmType::Pointer(b)) => *a == *b,
            (LlvmType::Array(a, n), LlvmType::Array(b, m)) => *n == *m && a.same(b),
            (LlvmType::Struct(a, p), LlvmType::Struct(b, q)) => *p == *q && a.same(b),
            (LlvmType::OpaqueStruct(a), LlvmType::OpaqueStruct(b)) => *a == *b,
            (LlvmType::Void, LlvmType::Void) => true,
            _ => false,
        }
    }

    pub fn copy(&self) -> (r: LlvmType)
        ensures
            r == *self,
        decreases self,
    {
        match self {
            LlvmType::Integer(w, s) => LlvmType::Integer(*w, *s),
            LlvmType::Half => LlvmType::Half,
            LlvmType::Float => LlvmType::Float,
            LlvmType::Double => LlvmType::Double,
            LlvmType::Pointer(a) => LlvmType::Pointer(*a),
            LlvmType::Array(e, n) => LlvmType::Array(Box::new(e.copy()), *n),
            LlvmType::Struct(f, p) => LlvmType::Struct(Box::new(f.copy()), *p),
            LlvmType::OpaqueStruct(n) => LlvmType::OpaqueStruct(*n),
            LlvmType::Void => LlvmType::Void,
        }
    }
}

} // verus!
