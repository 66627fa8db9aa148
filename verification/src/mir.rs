//! MIR types: the types that operands have before lowering.

use crate::llvm::Signedness;
use vstd::prelude::*;

verus! {

/// Memory layout of a struct or tuple. All-zero and empty where unknown.
#[derive(PartialEq, Eq, Debug)]
pub struct Layout {
    /// Declaration index of the field at each position in memory order.
    pub mem_to_decl: Vec<usize>,
    /// Byte offset of each field, in declaration order.
    pub field_offsets: Vec<u64>,
    pub total_size: u64,
    pub abi_align: u64,
}

/// A [`Layout`] as contracts speak of it.
pub struct LayoutModel {
    pub mem_to_decl: Seq<usize>,
    pub field_offsets: Seq<u64>,
    pub total_size: u64,
    pub abi_align: u64,
}

#[derive(PartialEq, Eq, Debug)]
pub struct EnumVariant {
    pub name: String,
    pub field_types: Vec<MirType>,
    /// Byte offset of each field; empty where not recorded.
    pub field_offsets: Vec<u64>,
}

/// An [`EnumVariant`] as contracts speak of it.
pub struct VariantModel {
    pub name: Seq<char>,
    pub field_types: Seq<TypeModel>,
    pub field_offsets: Seq<u64>,
}

#[derive(PartialEq, Eq, Debug)]
pub struct EnumType {
    pub name: String,
    pub discriminant: MirType,
    pub variant_discriminants: Vec<u64>,
    pub variants: Vec<EnumVariant>,
    pub tag_offset: u64,
    /// Zero where the layout is not recorded.
    pub total_size: u64,
    pub abi_align: u64,
}

/// A type of the MIR dialect.
#[derive(PartialEq, Eq, Debug)]
pub enum MirType {
    Integer(u32, Signedness),
    Half,
    Float,
    Double,
    Tuple(Vec<MirType>, Layout),
    /// Name, field names, field types and layout.
    Struct(String, Vec<String>, Vec<MirType>, Layout),
    /// A union, by the number of its fields.
    Union(usize),
    Enum(Box<EnumType>),
    Array(Box<MirType>, u64),
    /// An array that is already an LLVM type.
    RawArray(Box<MirType>, u64),
    Slice(Box<MirType>),
    /// Element type, and the types of the index-space layout fields.
    DisjointSlice(Box<MirType>, Vec<MirType>),
    /// Pointee, mutability and address space.
    Pointer(Box<MirType>, bool, u32),
}

/// A [`MirType`] as contracts speak of it.
pub enum TypeModel {
    Integer(u32, Signedness),
    Half,
    Float,
    Double,
    Tuple(Seq<TypeModel>, LayoutModel),
    Struct(Seq<char>, Seq<Seq<char>>, Seq<TypeModel>, LayoutModel),
    Union(usize),
    Enum {
        name: Seq<char>,
        discriminant: Box<TypeModel>,
        variant_discriminants: Seq<u64>,
        variants: Seq<VariantModel>,
        tag_offset: u64,
        total_size: u64,
        abi_align: u64,
    },
    Array(Box<TypeModel>, u64),
    RawArray(Box<TypeModel>, u64),
    Slice(Box<TypeModel>),
    DisjointSlice(Box<TypeModel>, Seq<TypeModel>),
    Pointer(Box<TypeModel>, bool, u32),
}

/// The texts of a list of strings.
pub open spec fn texts(names: Seq<String>) -> Seq<Seq<char>> {
    Seq::new(names.len(), |i: int| names[i]@)
}

impl View for Layout {
    type V = LayoutModel;

    open spec fn view(&self) -> LayoutModel {
        LayoutModel {
            mem_to_decl: self.mem_to_decl@,
            field_offsets: self.field_offsets@,
            total_size: self.total_size,
            abi_align: self.abi_align,
        }
    }
}

impl LayoutModel {
    /// The layout of which nothing is known.
    pub open spec fn unknown() -> LayoutModel {
        LayoutModel {
            mem_to_decl: Seq::empty(),
            field_offsets: Seq::empty(),
            total_size: 0,
            abi_align: 0,
        }
    }
}

impl Layout {
    /// The layout of which nothing is known.
    pub fn unknown() -> (l: Layout)
        ensures
            l@ == LayoutModel::unknown(),
    {
        Layout {
            mem_to_decl: Vec::new(),
            field_offsets: Vec::new(),
            total_size: 0,
            abi_align: 0,
        }
    }
}

impl EnumVariant {
    pub open spec fn model(self) -> VariantModel
        decreases self, 0nat,
    {
        VariantModel {
            name: self.name@,
            field_types: MirType::models(self.field_types@),
            field_offsets: self.field_offsets@,
        }
    }

    pub open spec fn models(variants: Seq<EnumVariant>) -> Seq<VariantModel>
        decreases variants, 1nat,
    {
        if variants.len() == 0 {
            Seq::empty()
        } else {
            EnumVariant::models(variants.drop_last()).push(variants.last().model())
        }
    }
}

impl MirType {
    pub open spec fn model(self) -> TypeModel
        decreases self, 0nat,
    {
        match self {
            MirType::Integer(w, s) => TypeModel::Integer(w, s),
            MirType::Half => TypeModel::Half,
            MirType::Float => TypeModel::Float,
            MirType::Double => TypeModel::Double,
            MirType::Tuple(types, layout) => TypeModel::Tuple(MirType::models(types@), layout@),
            MirType::Struct(name, field_names, types, layout) => TypeModel::Struct(
                name@,
                texts(field_names@),
                MirType::models(types@),
                layout@,
            ),
            MirType::Union(n) => TypeModel::Union(n),
            MirType::Enum(e) => TypeModel::Enum {
                name: e.name@,
                discriminant: Box::new(e.discriminant.model()),
                variant_discriminants: e.variant_discriminants@,
                variants: EnumVariant::models(e.variants@),
                tag_offset: e.tag_offset,
                total_size: e.total_size,
                abi_align: e.abi_align,
            },
            MirType::Array(e, n) => TypeModel::Array(Box::new(e.model()), n),
            MirType::RawArray(e, n) => TypeModel::RawArray(Box::new(e.model()), n),
            MirType::Slice(e) => TypeModel::Slice(Box::new(e.model())),
            MirType::DisjointSlice(e, spaces) => TypeModel::DisjointSlice(
                Box::new(e.model()),
                MirType::models(spaces@),
            ),
            MirType::Pointer(p, m, a) => TypeModel::Pointer(Box::new(p.model()), m, a),
        }
    }

    pub open spec fn models(types: Seq<MirType>) -> Seq<TypeModel>
        decreases types, 1nat,
    {
        if types.len() == 0 {
            Seq::empty()
        } else {
            MirType::models(types.drop_last()).push(types.last().model())
        }
    }
}

} // verus!
