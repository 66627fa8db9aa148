//! Rust types as the compiler reports them, before translation.

use vstd::prelude::*;

verus! {

#[derive(Clone, Copy, PartialEq, Eq, Structural, Debug)]
pub enum IntTy {
    Isize,
    I8,
    I16,
    I32,
    I64,
    I128,
}

#[derive(Clone, Copy, PartialEq, Eq, Structural, Debug)]
pub enum UintTy {
    Usize,
    U8,
    U16,
    U32,
    U64,
    U128,
}

#[derive(Clone, Copy, PartialEq, Eq, Structural, Debug)]
pub enum FloatTy {
    F16,
    F32,
    F64,
    F128,
}

/// The length of an array type.
#[derive(PartialEq, Eq, Debug)]
pub enum ArrayLen {
    /// A constant, by its little-endian bytes; `None` is an uninitialised byte.
    Bytes(Vec<Option<u8>>),
    /// A length that is not a value constant.
    Unevaluated,
}

/// A generic argument.
#[derive(PartialEq, Eq, Debug)]
pub enum GenericArg {
    Type(RustType),
    /// A lifetime or a constant.
    Other,
}

#[derive(PartialEq, Eq, Debug)]
pub struct Field {
    pub name: String,
    /// The field type with the generic arguments of the type filled in.
    pub ty: RustType,
}

#[derive(PartialEq, Eq, Debug)]
pub struct Variant {
    pub name: String,
    pub fields: Vec<Field>,
    /// The declared discriminant, truncated to the tag width.
    pub discriminant: u128,
}

/// How the compiler tells the variants of an enum apart in memory.
#[derive(PartialEq, Eq, Debug)]
pub enum VariantsShape {
    /// A tag holds the discriminant.
    Direct {
        /// Width and signedness of the tag; `None` if it is not an integer.
        tag: Option<(u32, bool)>,
        /// Byte offset of the tag; `None` if the layout does not give it.
        tag_offset: Option<u64>,
    },
    Niche,
    Single,
    Empty,
}

/// The layout of a type.
#[derive(PartialEq, Eq, Debug)]
pub struct Shape {
    /// Declaration indices in order of increasing offset.
    pub memory_order: Vec<usize>,
    /// Byte offset of each field, where fields are placed individually.
    pub offsets: Option<Vec<u64>>,
    pub size: u64,
    pub abi_align: u64,
    pub variants: VariantsShape,
    /// For each variant of an enum, the byte offsets of its fields.
    pub variant_offsets: Vec<Option<Vec<u64>>>,
}

/// A struct, union or enum.
#[derive(PartialEq, Eq, Debug)]
pub struct Adt {
    /// The name without its path.
    pub name: String,
    pub args: Vec<GenericArg>,
    pub variants: Vec<Variant>,
    /// `None` if the compiler cannot compute a layout.
    pub layout: Option<Shape>,
}

#[derive(PartialEq, Eq, Debug)]
pub struct Closure {
    pub name: String,
    pub args: Vec<GenericArg>,
    pub output: RustType,
    pub layout: Option<Shape>,
}

#[derive(PartialEq, Eq, Debug)]
pub enum RustType {
    Int(IntTy),
    Uint(UintTy),
    Bool,
    Char,
    Never,
    Float(FloatTy),
    Tuple(Vec<RustType>),
    Array(Box<RustType>, ArrayLen),
    Slice(Box<RustType>),
    Str,
    /// Pointee and mutability.
    RawPtr(Box<RustType>, bool),
    /// Referent and mutability.
    Ref(Box<RustType>, bool),
    Adt(Box<Adt>),
    Closure(Box<Closure>),
    /// An associated type: the name of its definition and its arguments.
    Projection(String, Vec<GenericArg>),
    /// A pattern type, by its base type.
    Pat(Box<RustType>),
    /// A function pointer, by its return type.
    FnPtr(Box<RustType>),
    /// A function item: its name and its return type.
    FnDef(String, Box<RustType>),
    /// Any other type.
    Other,
}

} // verus!
