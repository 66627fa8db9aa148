//! Where the fields of an aggregate stand in the LLVM type that it converts to.

use crate::llvm::LlvmType;
use vstd::prelude::*;

verus! {

/// The slots of a struct or tuple, by declaration index.
#[derive(PartialEq, Eq, Debug)]
pub struct StructSlotMap {
    pub struct_ty: LlvmType,
    /// The LLVM slot of each field; `None` for a zero-sized field.
    pub decl_to_llvm: Vec<Option<u32>>,
    /// The LLVM type of each field.
    pub field_types: Vec<LlvmType>,
    /// Byte offset of each slot under natural layout, where it can be computed.
    pub natural_slot_offsets: Option<Vec<u64>>,
    /// Whether the natural layout differs from the compiler's.
    pub layout_diverges: bool,
}

impl StructSlotMap {
    /// Every field has a type.
    pub open spec fn wf(self) -> bool {
        self.field_types@.len() == self.decl_to_llvm@.len()
    }
}

/// A struct or tuple: its layout and its slots.
#[derive(PartialEq, Eq, Debug)]
pub struct StructInfo {
    /// Declaration index of the field at each position in memory order.
    pub mem_to_decl: Vec<usize>,
    /// Byte offset of each field in declaration order, as far as recorded.
    pub field_offsets: Vec<u64>,
    pub abi_align: u64,
    pub map: StructSlotMap,
}

impl StructInfo {
    /// The memory order names fields only.
    pub open spec fn wf(self) -> bool {
        &&& self.map.wf()
        &&& forall|i: int|
            0 <= i < self.mem_to_decl@.len() ==> (#[trigger] self.mem_to_decl@[i])
                < self.map.decl_to_llvm@.len()
    }
}

/// The slots of an enum. Fields are numbered through all variants.
#[derive(PartialEq, Eq, Debug)]
pub struct EnumSlotMap {
    pub struct_ty: LlvmType,
    pub carrier_slot: Option<u32>,
    pub carrier_ty: Option<LlvmType>,
    /// The LLVM slot of each payload field; `None` where its bytes belong to a
    /// field of another variant or where it has none.
    pub field_slots: Vec<Option<u32>>,
    /// The type of each payload field as a value.
    pub field_types: Vec<LlvmType>,
    /// The type of each payload field in memory, if it has one.
    pub storage_types: Vec<Option<LlvmType>>,
    /// The type of each payload field with every truth value widened to a byte.
    pub byte_types: Vec<LlvmType>,
    pub zero_sized: Vec<bool>,
    pub field_offsets: Vec<u64>,
}

impl EnumSlotMap {
    /// Every payload field is described.
    pub open spec fn wf(self) -> bool {
        let n = self.field_slots@.len();
        &&& self.field_types@.len() == n
        &&& self.storage_types@.len() == n
        &&& self.byte_types@.len() == n
        &&& self.zero_sized@.len() == n
        &&& self.field_offsets@.len() == n
    }
}

} // verus!
