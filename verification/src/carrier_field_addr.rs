//! Field addresses inside a physical carrier struct.

use crate::addressing;
use crate::addressing::{
    emit_slot_gep, emit_zero_gep, field_addr_ops, field_offset, recorded_offset, slot_gep,
    zero_gep, Pointee,
};
use crate::alignment::{field_address_alignment, field_alignment};
use crate::llvm::LlvmType;
use crate::lower::{emits, Emitted, LowerError};
use crate::ops::{Builder, Value};
use crate::slots::StructInfo;
use vstd::prelude::*;

verus! {

/// The aggregate type stamped on a field address.
#[derive(PartialEq, Eq, Debug)]
pub enum StampedAggregate {
    Missing,
    NotStruct,
    Struct(StructInfo),
}

/// The address of a field in a packed carrier: the slot is the exact storage
/// address, whatever the natural layout says.
pub open spec fn carrier_addr_ops(
    ptr: Value,
    field: Option<u32>,
    stamped: StampedAggregate,
    carrier: LlvmType,
) -> Emitted {
    match (field, stamped) {
        (None, _) | (_, StampedAggregate::Missing) => Err(LowerError::MissingAttribute),
        (_, StampedAggregate::NotStruct) => Err(LowerError::WrongType),
        (Some(i), StampedAggregate::Struct(info)) => if !(carrier matches LlvmType::Struct(
            _,
            packed,
        ) && packed) {
            Err(LowerError::CarrierNotPacked)
        } else if i >= info.map.decl_to_llvm@.len() {
            Err(LowerError::FieldIndex)
        } else {
            match info.map.decl_to_llvm@[i as int] {
                None => Ok(seq![zero_gep(ptr, false)]),
                Some(slot) => Ok(
                    seq![
                        slot_gep(ptr, carrier, slot, false).aligned(
                            field_alignment(info.abi_align, recorded_offset(info, i as nat)),
                        ),
                    ],
                ),
            }
        },
    }
}

fn is_packed(ty: &LlvmType) -> (b: bool)
    ensures
        b == (*ty matches LlvmType::Struct(_, packed) && packed),
{
    match ty {
        LlvmType::Struct(_, packed) => *packed,
        _ => false,
    }
}

/// Lowers the address of a field: inside the carrier struct where one was
/// stamped on the operation, else inside the aggregate that the pointer was
/// recorded to point to.
pub fn convert_field_addr(
    b: &mut Builder,
    ptr: &Value,
    field: Option<u32>,
    pointee: &Option<Pointee>,
    stamped: &StampedAggregate,
    carrier: &Option<LlvmType>,
) -> (r: Result<Value, LowerError>)
    requires
        pointee matches Some(p) ==> p.wf(),
        stamped matches StampedAggregate::Struct(info) ==> info.wf(),
    ensures
        emits(
            old(b)@,
            final(b)@,
            r,
            match *carrier {
                None => field_addr_ops(old(b)@.len(), *ptr, field, *pointee),
                Some(ty) => carrier_addr_ops(*ptr, field, *stamped, ty),
            },
        ),
{
    let ty = match carrier {
        Some(ty) => ty,
        None => {
            return addressing::convert_field_addr(b, ptr, field, pointee);
        },
    };
    let ghost expected = carrier_addr_ops(*ptr, field, *stamped, *ty);
    let index: usize = match field {
        Some(i) => i as usize,
        None => {
            return Err(LowerError::MissingAttribute);
        },
    };
    let info = match stamped {
        StampedAggregate::Missing => {
            return Err(LowerError::MissingAttribute);
        },
        StampedAggregate::NotStruct => {
            return Err(LowerError::WrongType);
        },
        StampedAggregate::Struct(info) => info,
    };
    if !is_packed(ty) {
        return Err(LowerError::CarrierNotPacked);
    }
    if index >= info.map.decl_to_llvm.len() {
        return Err(LowerError::FieldIndex);
    }
    let r = match info.map.decl_to_llvm[index] {
        None => emit_zero_gep(b, ptr, false),
        Some(slot) => {
            let align = field_address_alignment(info.abi_align, field_offset(info, index));
            emit_slot_gep(b, ptr, ty, slot, false, align)
        },
    };
    proof {
        assert(b@ =~= old(b)@ + expected.unwrap());
    }
    Ok(r)
}

} // verus!
