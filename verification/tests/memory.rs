//! Memory operations and global variables.

use mir_lower::llvm::{FieldTypes, LlvmType, Signedness};
use mir_lower::lower::LowerError;
use mir_lower::memory::{
    convert_alloca, convert_extern_shared_dc, convert_global_alloc_dc, convert_load,
    convert_ptr_offset, convert_ref, convert_shared_alloc_dc, convert_store, Attribute,
    DynamicShared, GlobalAlloc, Globals, NameMap, SharedAlloc,
};
use mir_lower::ops::{Builder, Def, Index, OpCode, Value};

fn integer(width: u32) -> LlvmType {
    LlvmType::Integer(width, Signedness::Signless)
}

fn arg(n: u64, ty: LlvmType) -> Value {
    Value { def: Def::Argument(n), ty }
}

fn pointer() -> Value {
    arg(0, LlvmType::Pointer(0))
}

#[test]
fn convert_alloca_lowers_to_llvm_alloca() {
    let mut b = Builder::new();
    let r = convert_alloca(&mut b, &Some(integer(32)), None).unwrap();
    let allocas: Vec<_> =
        b.ops.iter().filter(|op| matches!(op.code, OpCode::Alloca(_))).collect();
    assert_eq!(allocas.len(), 1, "expected exactly one llvm.alloca");
    assert_eq!(allocas[0].code, OpCode::Alloca(integer(32)));
    assert_eq!(r, Value { def: Def::Result(1), ty: LlvmType::Pointer(0) });
    assert_eq!(convert_alloca(&mut b, &None, None), Err(LowerError::WrongType));
}

#[test]
fn convert_store_lowers_to_llvm_store() {
    let mut b = Builder::new();
    let (ptr, value) = (pointer(), arg(1, integer(32)));
    convert_store(&mut b, &vec![ptr.copy(), value.copy()], Some(4)).unwrap();
    assert_eq!(b.ops.len(), 1, "expected one llvm.store");
    assert_eq!(b.ops[0].code, OpCode::Store);
    assert_eq!(b.ops[0].operands, vec![value, ptr], "operand 1 is ptr");
    assert_eq!(b.ops[0].align, Some(4));
    assert_eq!(convert_store(&mut b, &vec![], None), Err(LowerError::OperandCount));
}

#[test]
fn convert_load_lowers_to_llvm_load() {
    let mut b = Builder::new();
    let r = convert_load(&mut b, &pointer(), &integer(32), None);
    assert_eq!(b.ops.len(), 1);
    assert_eq!(b.ops[0].code, OpCode::Load);
    assert_eq!(r.ty, integer(32));
}

#[test]
fn convert_ref_lowers_to_alloca_then_store() {
    let mut b = Builder::new();
    let value = arg(0, integer(32));
    let r = convert_ref(&mut b, &value, Some(4));
    let allocas = b.ops.iter().filter(|op| matches!(op.code, OpCode::Alloca(_))).count();
    let stores = b.ops.iter().filter(|op| op.code == OpCode::Store).count();
    assert_eq!(allocas, 1, "ref must materialize via alloca");
    assert_eq!(stores, 1, "ref must store the value into the alloca");
    assert_eq!(b.ops[2].operands, vec![value, r]);
    assert_eq!((b.ops[1].align, b.ops[2].align), (Some(4), Some(4)));
}

#[test]
fn convert_ptr_offset_lowers_to_gep_with_pointee_elem_type() {
    let mut b = Builder::new();
    let operands = vec![pointer(), arg(1, integer(64))];
    convert_ptr_offset(&mut b, &operands, &Some(integer(32))).unwrap();
    assert_eq!(
        b.ops[0].code,
        OpCode::Gep(integer(32), false),
        "gep elem type must be i32 (pointee)"
    );
    assert_eq!(b.ops[0].indices, vec![Index::Dynamic(arg(1, integer(64)))]);
    convert_ptr_offset(&mut b, &operands, &None).unwrap();
    assert_eq!(b.ops[1].code, OpCode::Gep(integer(8), false), "bytes where the pointee is unknown");
    assert_eq!(convert_ptr_offset(&mut b, &vec![], &None), Err(LowerError::OperandCount));
}

#[test]
fn device_local_multi_payload_enum_gep_and_load_lower() {
    let enum_ty = LlvmType::Struct(Box::new(FieldTypes::of(vec![integer(32), integer(32)])), false);
    let mut b = Builder::new();
    let operands = vec![pointer(), arg(1, integer(64))];
    let element = convert_ptr_offset(&mut b, &operands, &Some(enum_ty.copy()))
        .expect("device-local divergent enum GEP + load must lower");
    let loaded = convert_load(&mut b, &element, &enum_ty, None);
    assert_eq!(loaded.ty, enum_ty);
}

fn shared(key: Option<&str>, size: u64) -> SharedAlloc {
    SharedAlloc {
        key: key.map(str::to_string),
        elem: Attribute::Value(integer(32)),
        size: Attribute::Value(size),
        align: None,
    }
}

#[test]
fn convert_shared_alloc_creates_global_in_addrspace_3() {
    let mut b = Builder::new();
    let mut globals = Globals::new();
    let r = convert_shared_alloc_dc(&mut b, &mut globals, &shared(Some("k1"), 64)).unwrap();
    assert_eq!(globals.list.len(), 1);
    let global = &globals.list[0];
    assert_eq!(global.addrspace, 3, "shared_alloc global must live in addrspace 3");
    assert!(
        global.name.starts_with("__shared_mem_"),
        "shared global should have __shared_mem_ prefix"
    );
    assert_eq!(global.ty, LlvmType::Array(Box::new(integer(32)), 64));
    assert_eq!(b.ops[0].code, OpCode::AddressOf);
    assert_eq!(b.ops[0].symbol, global.name);
    assert_eq!(r.ty, LlvmType::Pointer(3));
}

#[test]
fn convert_shared_alloc_deduplicates_by_alloc_key() {
    let mut b = Builder::new();
    let mut globals = Globals::new();
    for alloc in [
        shared(Some("same-key"), 64),
        shared(Some("same-key"), 64),
        shared(Some("other-key"), 32),
    ] {
        convert_shared_alloc_dc(&mut b, &mut globals, &alloc).unwrap();
    }
    let shared_globals = globals.list.iter().filter(|g| g.addrspace == 3).count();
    assert_eq!(shared_globals, 2, "two distinct alloc_keys must produce two globals");
    let addresses = b.ops.iter().filter(|op| op.code == OpCode::AddressOf).count();
    assert_eq!(addresses, 3);
    assert_eq!(b.ops[0].symbol, b.ops[1].symbol);
    assert_ne!(b.ops[0].symbol, b.ops[2].symbol);
}

fn device(key: &str, constant: bool) -> GlobalAlloc {
    GlobalAlloc {
        key: Attribute::Value(key.to_string()),
        ty: Attribute::Value(integer(32)),
        align: Some(16),
        addrspace: Some(if constant { 4 } else { 1 }),
    }
}

#[test]
fn convert_global_alloc_places_in_global_or_constant_addrspace() {
    let mut b = Builder::new();
    let mut globals = Globals::new();
    convert_global_alloc_dc(&mut b, &mut globals, &device("ordinary_static", false)).unwrap();
    convert_global_alloc_dc(&mut b, &mut globals, &device("_ZN7my_mod3KEYE", true)).unwrap();
    let ordinary = globals
        .list
        .iter()
        .find(|g| g.addrspace == 1)
        .expect("expected one global in addrspace(1)");
    let constant = globals
        .list
        .iter()
        .find(|g| g.addrspace == 4)
        .expect("expected one global in addrspace(4)");
    assert_eq!(
        constant.name, "_ZN7my_mod3KEYE",
        "constant globals must keep the mangled global_key as symbol name"
    );
    assert!(
        ordinary.name.starts_with("__device_global_"),
        "ordinary device globals get the __device_global_ prefix"
    );
    assert_eq!(ordinary.align, Some(16));
}

#[test]
fn unkeyed_allocations_never_share() {
    let mut b = Builder::new();
    let mut globals = Globals::new();
    convert_shared_alloc_dc(&mut b, &mut globals, &shared(None, 8)).unwrap();
    convert_shared_alloc_dc(&mut b, &mut globals, &shared(None, 8)).unwrap();
    assert_eq!(b.ops[0].symbol, "__shared_mem_0");
    assert_eq!(b.ops[1].symbol, "__shared_mem_1");
    assert_eq!(globals.list[0].name, "__shared_mem_1", "the most recent global comes first");
    assert_eq!(globals.shared_count, 2);
}

#[test]
fn device_statics_are_created_once() {
    let mut b = Builder::new();
    let mut globals = Globals::new();
    convert_global_alloc_dc(&mut b, &mut globals, &device("a", false)).unwrap();
    convert_global_alloc_dc(&mut b, &mut globals, &device("a", false)).unwrap();
    convert_global_alloc_dc(&mut b, &mut globals, &device("b", false)).unwrap();
    let symbols: Vec<&str> = b.ops.iter().map(|op| op.symbol.as_str()).collect();
    assert_eq!(symbols, vec!["__device_global_0", "__device_global_0", "__device_global_1"]);
    assert_eq!(globals.list.len(), 2);
}

#[test]
fn allocations_with_bad_attributes_are_refused() {
    let mut b = Builder::new();
    let mut globals = Globals::new();
    let no_elem = SharedAlloc { elem: Attribute::Missing, ..shared(None, 1) };
    assert_eq!(
        convert_shared_alloc_dc(&mut b, &mut globals, &no_elem),
        Err(LowerError::MissingAttribute)
    );
    let odd_size = SharedAlloc { size: Attribute::Mistyped, ..shared(None, 1) };
    assert_eq!(
        convert_shared_alloc_dc(&mut b, &mut globals, &odd_size),
        Err(LowerError::WrongType)
    );
    let no_key = GlobalAlloc { key: Attribute::Missing, ..device("a", false) };
    assert_eq!(
        convert_global_alloc_dc(&mut b, &mut globals, &no_key),
        Err(LowerError::MissingAttribute)
    );
    let no_pointer = GlobalAlloc { addrspace: None, ..device("a", false) };
    assert_eq!(
        convert_global_alloc_dc(&mut b, &mut globals, &no_pointer),
        Err(LowerError::WrongType)
    );
    assert_eq!(
        convert_global_alloc_dc(&mut b, &mut globals, &device("my mod::KEY", true)),
        Err(LowerError::InvalidName)
    );
    assert!(b.ops.is_empty());
    assert_eq!(globals, Globals::new());
}

fn dynamic() -> Vec<DynamicShared> {
    vec![
        DynamicShared {
            kernel: "my_kernel".to_string(),
            symbol: "__dynamic_smem_my_kernel".to_string(),
            align: 128,
        },
        DynamicShared {
            kernel: "other_kernel".to_string(),
            symbol: "__dynamic_smem_other_kernel".to_string(),
            align: 16,
        },
    ]
}

#[test]
fn dynamic_shared_memory_is_one_global_per_kernel() {
    let mut b = Builder::new();
    let mut globals = Globals::new();
    let entries = dynamic();
    convert_extern_shared_dc(&mut b, &mut globals, "my_kernel", 0, &entries).unwrap();
    convert_extern_shared_dc(&mut b, &mut globals, "my_kernel", 0, &entries).unwrap();
    convert_extern_shared_dc(&mut b, &mut globals, "other_kernel", 0, &entries).unwrap();
    assert_eq!(globals.list.len(), 2);
    let first = &globals.list[1];
    assert_eq!(first.name, "__dynamic_smem_my_kernel");
    assert_eq!(first.ty, LlvmType::Array(Box::new(integer(8)), 0));
    assert_eq!(first.align, Some(128));
    assert_eq!(first.addrspace, 3);
    assert!(first.external);
    assert_eq!(globals.list[0].align, Some(16));
    assert_eq!(
        globals.shared.get("__dynamic_smem_global_created_my_kernel"),
        Some("__dynamic_smem_my_kernel".to_string())
    );
}

#[test]
fn dynamic_shared_memory_is_offset_in_bytes() {
    let mut b = Builder::new();
    let mut globals = Globals::new();
    let entries = dynamic();
    let r = convert_extern_shared_dc(&mut b, &mut globals, "my_kernel", 1024, &entries).unwrap();
    assert_eq!(r, Value { def: Def::Result(2), ty: LlvmType::Pointer(3) });
    assert!(matches!(&b.ops[1].code, OpCode::ConstInt(c) if c.bits == 1024 && c.width == 64));
    assert_eq!(b.ops[2].code, OpCode::Gep(integer(8), false));
    assert_eq!(
        convert_extern_shared_dc(&mut b, &mut globals, "third", 0, &entries),
        Err(LowerError::NoSharedAlignment)
    );
}

#[test]
fn names_are_looked_up_by_key() {
    let mut names = NameMap::new();
    assert_eq!(names.get("a"), None);
    names.insert("a".to_string(), "x".to_string());
    names.insert("b".to_string(), "y".to_string());
    names.insert("a".to_string(), "z".to_string());
    assert_eq!(names.get("a"), Some("z".to_string()));
    assert_eq!(names.get("b"), Some("y".to_string()));
}
