//! Runs emitted operations on concrete values.

use mir_lower::addressing::{
    convert_array_element_addr, convert_field_addr, ElementInfo, Pointee,
};
use mir_lower::aggregates::{convert_construct_struct, convert_extract_field, convert_insert_field};
use mir_lower::array_extract::{convert_extract_array_element, ArrayInfo};
use mir_lower::carrier_field_addr;
use mir_lower::carrier_field_addr::StampedAggregate;
use mir_lower::cast::{emit_pointer_cast, NicheEncoding};
use mir_lower::enums::{
    convert_construct_enum, convert_enum_payload, convert_get_discriminant,
    convert_set_discriminant, EnumCarrierKind, EnumInfo, EnumLayoutKind, StampedType,
};
use mir_lower::ints::IntConst;
use mir_lower::llvm::{FieldTypes, LlvmType, Signedness};
use mir_lower::lower::Operand;
use mir_lower::memory::{convert_load, convert_ptr_offset, convert_ref, convert_store};
use mir_lower::mir::{EnumType, Layout, MirType};
use mir_lower::ops::{
    Builder, CastKind, Def, Index, IntBinary, IntPredicate, Op, OpCode, Value,
};
use mir_lower::slots::{EnumSlotMap, StructInfo, StructSlotMap};

/// What a value holds. Addresses are a slot and an offset, or a number.
#[derive(Clone, PartialEq, Debug)]
enum Data {
    Number(u128),
    Slot(usize, usize),
    Members(Vec<Data>),
}

fn integer(width: u32) -> LlvmType {
    LlvmType::Integer(width, Signedness::Signless)
}

fn record(types: Vec<LlvmType>) -> LlvmType {
    LlvmType::Struct(Box::new(FieldTypes::of(types)), false)
}

fn arg(n: u64, ty: LlvmType) -> Value {
    Value { def: Def::Argument(n), ty }
}

fn members(ty: &LlvmType) -> Option<Vec<LlvmType>> {
    match ty {
        LlvmType::Struct(fields, _) => {
            let mut types = Vec::new();
            let mut rest = &**fields;
            while let FieldTypes::Field(first, more) = rest {
                types.push(first.copy());
                rest = &**more;
            }
            Some(types)
        }
        LlvmType::Array(element, n) => Some((0..*n).map(|_| element.copy()).collect()),
        _ => None,
    }
}

fn size(ty: &LlvmType) -> usize {
    match (members(ty), ty) {
        (Some(types), _) => types.iter().map(size).sum(),
        (None, LlvmType::Integer(1, _)) => 1,
        (None, LlvmType::Integer(width, _)) => *width as usize / 8,
        (None, LlvmType::Float) => 4,
        (None, _) => 8,
    }
}

fn mask(value: u128, width: u32) -> u128 {
    if width >= 128 {
        value
    } else {
        value & ((1 << width) - 1)
    }
}

fn undefined(ty: &LlvmType) -> Data {
    match members(ty) {
        Some(types) => Data::Members(types.iter().map(undefined).collect()),
        None => Data::Number(mask(0xaaaa_aaaa_aaaa_aaaa, 8 * size(ty) as u32)),
    }
}

fn write(memory: &mut [u8], at: usize, d: &Data, ty: &LlvmType) {
    match (d, members(ty)) {
        (Data::Members(parts), Some(types)) => {
            let mut at = at;
            for (part, part_ty) in parts.iter().zip(&types) {
                write(memory, at, part, part_ty);
                at += size(part_ty);
            }
        }
        (Data::Number(bits), None) => {
            let n = size(ty);
            memory[at..at + n].copy_from_slice(&bits.to_le_bytes()[..n]);
        }
        other => panic!("cannot be stored: {other:?}"),
    }
}

fn read(memory: &[u8], at: usize, ty: &LlvmType) -> Data {
    match members(ty) {
        Some(types) => {
            let mut at = at;
            let mut parts = Vec::new();
            for part_ty in &types {
                parts.push(read(memory, at, part_ty));
                at += size(part_ty);
            }
            Data::Members(parts)
        }
        None => {
            let mut bytes = [0u8; 16];
            bytes[..size(ty)].copy_from_slice(&memory[at..at + size(ty)]);
            Data::Number(u128::from_le_bytes(bytes))
        }
    }
}

fn number(d: &Data) -> u128 {
    match d {
        Data::Number(bits) => *bits,
        other => panic!("no number: {other:?}"),
    }
}

fn width(ty: &LlvmType) -> u32 {
    match ty {
        LlvmType::Integer(width, _) => *width,
        _ => 64,
    }
}

fn inserted(whole: &Data, path: &[Index], part: &Data) -> Data {
    match (whole, path) {
        (_, []) => part.clone(),
        (Data::Members(parts), [Index::Const(i), rest @ ..]) => {
            let mut parts = parts.clone();
            parts[*i as usize] = inserted(&parts[*i as usize], rest, part);
            Data::Members(parts)
        }
        other => panic!("no member: {other:?}"),
    }
}

/// Runs operations, and returns what the last one computes.
fn run(ops: &[Op], arguments: &[Data]) -> Data {
    let mut results: Vec<Data> = Vec::new();
    let mut slots: Vec<(usize, Vec<u8>)> = Vec::new();
    for (at, op) in ops.iter().enumerate() {
        let of = |v: &Value| match v.def {
            Def::Argument(n) => arguments[n as usize].clone(),
            Def::Result(j) => results[j].clone(),
        };
        let x = op.operands.first().map(&of);
        let y = op.operands.get(1).map(&of);
        let z = op.operands.get(2).map(&of);
        let index = |i: &Index| match i {
            Index::Const(c) => *c as usize,
            Index::Dynamic(v) => number(&of(v)) as usize,
        };
        let result = match &op.code {
            OpCode::ConstInt(c) => Data::Number(c.bits),
            OpCode::Undef => undefined(&op.ty),
            OpCode::Int(code) => {
                let (a, b) = (number(&x.unwrap()), number(&y.unwrap()));
                let r = match code {
                    IntBinary::Add => a.wrapping_add(b),
                    IntBinary::Sub => a.wrapping_sub(b),
                    IntBinary::URem => a % b,
                    other => panic!("not run here: {other:?}"),
                };
                Data::Number(mask(r, width(&op.ty)))
            }
            OpCode::IntCompare(pred) => {
                let (a, b) = (number(&x.unwrap()), number(&y.unwrap()));
                Data::Number(match pred {
                    IntPredicate::EQ => (a == b) as u128,
                    IntPredicate::ULE => (a <= b) as u128,
                    other => panic!("not run here: {other:?}"),
                })
            }
            OpCode::Select => {
                if number(&x.unwrap()) == 1 {
                    y.unwrap()
                } else {
                    z.unwrap()
                }
            }
            OpCode::Cast(CastKind::Trunc) => {
                Data::Number(mask(number(&x.unwrap()), width(&op.ty)))
            }
            OpCode::Cast(_) | OpCode::Coerce(_) => x.unwrap(),
            OpCode::ExtractValue => match x.unwrap() {
                Data::Members(parts) => parts[index(&op.indices[0])].clone(),
                other => panic!("no members: {other:?}"),
            },
            OpCode::InsertValue => inserted(&x.unwrap(), &op.indices, &y.unwrap()),
            OpCode::Alloca(ty) => {
                slots.push((at, vec![0xcc; size(ty)]));
                Data::Slot(at, 0)
            }
            OpCode::Gep(ty, _) => match x.unwrap() {
                Data::Slot(slot, base) => {
                    let mut offset = base + index(&op.indices[0]) * size(ty);
                    if op.indices.len() > 1 {
                        let passed = index(&op.indices[1]);
                        offset += members(ty).unwrap()[..passed].iter().map(size).sum::<usize>();
                    }
                    Data::Slot(slot, offset)
                }
                other => panic!("no address: {other:?}"),
            },
            OpCode::Store => match y.unwrap() {
                Data::Slot(slot, offset) => {
                    let bytes = &mut slots.iter_mut().find(|s| s.0 == slot).unwrap().1;
                    write(bytes, offset, &x.unwrap(), &op.operands[0].ty);
                    Data::Members(vec![])
                }
                other => panic!("no address: {other:?}"),
            },
            OpCode::Load => match x.unwrap() {
                Data::Slot(slot, offset) => {
                    let bytes = &slots.iter().find(|s| s.0 == slot).unwrap().1;
                    read(bytes, offset, &op.ty)
                }
                other => panic!("no address: {other:?}"),
            },
            other => panic!("not run here: {other:?}"),
        };
        results.push(result);
    }
    results.pop().unwrap()
}

/// A tag, and bytes that the payloads of three variants share: a float in its
/// slot, a number, and a truth value.
fn shared() -> EnumInfo {
    EnumInfo {
        discriminant: integer(32),
        variant_discriminants: vec![10, 20, 30],
        variant_field_counts: vec![1, 1, 2],
        variant_inhabited: vec![true; 3],
        layout_kind: EnumLayoutKind::Direct,
        carrier_kind: EnumCarrierKind::Integer,
        carrier_width: 32,
        niche_start: 0,
        niche_variant_start: 0,
        niche_variant_end: 0,
        untagged_variant: 0,
        single_variant: 0,
        tag_offset: 0,
        abi_align: 4,
        slots: EnumSlotMap {
            struct_ty: record(vec![integer(32), LlvmType::Float, integer(32)]),
            carrier_slot: Some(0),
            carrier_ty: Some(integer(32)),
            field_slots: vec![Some(1), None, None, Some(2)],
            field_types: vec![LlvmType::Float, integer(64), integer(1), integer(32)],
            storage_types: vec![
                Some(LlvmType::Float),
                Some(integer(64)),
                Some(integer(8)),
                Some(integer(32)),
            ],
            byte_types: vec![LlvmType::Float, integer(64), integer(8), integer(32)],
            zero_sized: vec![false; 4],
            field_offsets: vec![4, 4, 5, 8],
        },
    }
}

/// Every variant that is built has its declared discriminant and its payload,
/// with slots and through memory.
#[test]
fn built_variants_are_read_back() {
    let cases: [(u32, Vec<LlvmType>, Vec<u128>, u128); 3] = [
        (0, vec![LlvmType::Float], vec![0x3f80_0000], 10),
        (1, vec![integer(64)], vec![0x1122_3344_5566_7788], 20),
        (2, vec![integer(1), integer(32)], vec![1, 77], 30),
    ];
    for (variant, types, payload, declared) in cases {
        let info = Some(shared());
        let arguments: Vec<Data> = payload.iter().map(|p| Data::Number(*p)).collect();
        let operands: Vec<Value> =
            types.iter().enumerate().map(|(n, ty)| arg(n as u64, ty.copy())).collect();
        let mut b = Builder::new();
        let built = convert_construct_enum(&mut b, &operands, Some(variant), &info).unwrap();
        convert_get_discriminant(&mut b, &vec![built.copy()], &info).unwrap();
        assert_eq!(run(&b.ops, &arguments), Data::Number(declared));
        for (k, expected) in payload.iter().enumerate() {
            let field = Some(k as u32);
            convert_enum_payload(&mut b, &vec![built.copy()], Some(variant), field, &info)
                .unwrap();
            assert_eq!(run(&b.ops, &arguments), Data::Number(*expected));
        }
    }
}

/// A niche in the second half of a pair that goes through memory: the pair is
/// the untagged variant wherever its pointer is not null.
#[test]
fn niched_variants_are_told_apart() {
    let pair = || record(vec![integer(64), LlvmType::Pointer(0)]);
    let info = Some(EnumInfo {
        discriminant: integer(64),
        variant_discriminants: vec![0, 1],
        variant_field_counts: vec![0, 1],
        variant_inhabited: vec![true; 2],
        layout_kind: EnumLayoutKind::Niche,
        carrier_kind: EnumCarrierKind::Pointer,
        carrier_width: 64,
        untagged_variant: 1,
        tag_offset: 8,
        abi_align: 8,
        slots: EnumSlotMap {
            struct_ty: record(vec![integer(64), LlvmType::Pointer(0)]),
            carrier_slot: Some(1),
            carrier_ty: Some(LlvmType::Pointer(0)),
            field_slots: vec![None],
            field_types: vec![pair()],
            storage_types: vec![Some(pair())],
            byte_types: vec![pair()],
            zero_sized: vec![false],
            field_offsets: vec![0],
        },
        ..shared()
    });
    let mut b = Builder::new();
    let none = convert_construct_enum(&mut b, &vec![], Some(0), &info).unwrap();
    convert_get_discriminant(&mut b, &vec![none], &info).unwrap();
    assert_eq!(run(&b.ops, &[]), Data::Number(0));
    let mut b = Builder::new();
    let some = convert_construct_enum(&mut b, &vec![arg(0, pair())], Some(1), &info).unwrap();
    let payload = Data::Members(vec![Data::Number(5), Data::Number(0x1000)]);
    convert_get_discriminant(&mut b, &vec![some.copy()], &info).unwrap();
    assert_eq!(run(&b.ops, &[payload.clone()]), Data::Number(1));
    convert_enum_payload(&mut b, &vec![some], Some(1), Some(0), &info).unwrap();
    assert_eq!(run(&b.ops, &[payload.clone()]), payload);
}

/// The byte of a truth value holds two, and no truth value, where there is none.
#[test]
fn optional_truth_values_are_told_apart() {
    let info = Some(EnumInfo {
        discriminant: integer(8),
        variant_discriminants: vec![0, 1],
        variant_field_counts: vec![0, 1],
        variant_inhabited: vec![true; 2],
        layout_kind: EnumLayoutKind::Niche,
        carrier_width: 8,
        niche_start: 2,
        untagged_variant: 1,
        abi_align: 1,
        slots: EnumSlotMap {
            struct_ty: record(vec![integer(8)]),
            carrier_slot: Some(0),
            carrier_ty: Some(integer(8)),
            field_slots: vec![None],
            field_types: vec![integer(1)],
            storage_types: vec![Some(integer(8))],
            byte_types: vec![integer(8)],
            zero_sized: vec![false],
            field_offsets: vec![0],
        },
        ..shared()
    });
    let mut b = Builder::new();
    let none = convert_construct_enum(&mut b, &vec![], Some(0), &info).unwrap();
    assert_eq!(run(&b.ops, &[]), Data::Members(vec![Data::Number(2)]));
    convert_get_discriminant(&mut b, &vec![none], &info).unwrap();
    assert_eq!(run(&b.ops, &[]), Data::Number(0));
    for truth in [0, 1] {
        let mut b = Builder::new();
        let some =
            convert_construct_enum(&mut b, &vec![arg(0, integer(1))], Some(1), &info).unwrap();
        convert_get_discriminant(&mut b, &vec![some.copy()], &info).unwrap();
        assert_eq!(run(&b.ops, &[Data::Number(truth)]), Data::Number(1));
        convert_enum_payload(&mut b, &vec![some], Some(1), Some(0), &info).unwrap();
        assert_eq!(run(&b.ops, &[Data::Number(truth)]), Data::Number(truth));
    }
}

/// The only variant has its discriminant whatever the value holds.
#[test]
fn the_only_variant_has_its_discriminant() {
    let info =
        Some(EnumInfo { layout_kind: EnumLayoutKind::Single, single_variant: 2, ..shared() });
    let mut b = Builder::new();
    let value = arg(0, shared().slots.struct_ty);
    convert_get_discriminant(&mut b, &vec![value], &info).unwrap();
    assert_eq!(run(&b.ops, &[Data::Number(99)]), Data::Number(30));
}

/// The element at an index comes from memory, or from a choice among the
/// candidates.
#[test]
fn elements_are_read_at_their_index() {
    let element = || record(vec![integer(8), integer(8)]);
    let of = |a: u128, b: u128| Data::Members(vec![Data::Number(a), Data::Number(b)]);
    let elements = vec![of(1, 2), of(3, 4), of(5, 6), of(7, 8)];
    let ty = LlvmType::Array(Box::new(element()), 4);
    for i in 0..4usize {
        let arguments = [Data::Members(elements.clone()), Data::Number(i as u128)];
        let recorded = Some(ArrayInfo { element: element(), size: 4, abi_align: Some(1) });
        let (array, index) = (arg(0, ty.copy()), arg(1, integer(64)));
        let mut b = Builder::new();
        convert_extract_array_element(&mut b, &array, &index, &recorded, 8).unwrap();
        assert_eq!(b.ops.last().unwrap().code, OpCode::Load);
        assert_eq!(run(&b.ops, &arguments), elements[i]);
        let mut b = Builder::new();
        let four = b.constant(IntConst::from_u128(4, 64));
        let bounded = b.binary(IntBinary::URem, &index, &four);
        convert_extract_array_element(&mut b, &array, &bounded, &recorded, 8).unwrap();
        assert_eq!(run(&b.ops, &arguments), elements[i]);
    }
}

/// A field that was built or replaced is the one that is read.
#[test]
fn fields_are_read_back() {
    let map = || StructSlotMap {
        struct_ty: record(vec![integer(64), integer(32)]),
        decl_to_llvm: vec![Some(1), Some(0)],
        field_types: vec![integer(32), integer(64)],
        natural_slot_offsets: None,
        layout_diverges: false,
    };
    let info = Some(StructInfo {
        mem_to_decl: vec![1, 0],
        field_offsets: vec![],
        abi_align: 8,
        map: map(),
    });
    let arguments = [Data::Number(7), Data::Number(8), Data::Number(9)];
    let history =
        || vec![MirType::Struct("S".to_string(), vec![], vec![], Layout::unknown())];
    let maps = vec![Some(map())];
    let mut b = Builder::new();
    let operands = vec![arg(0, integer(32)), arg(1, integer(64))];
    let built = convert_construct_struct(&mut b, &operands, &info).unwrap();
    let whole = Operand { value: built, history: history() };
    for (field, expected) in [(0, 7), (1, 8)] {
        convert_extract_field(&mut b, &whole, Some(field), &maps).unwrap();
        assert_eq!(run(&b.ops, &arguments), Data::Number(expected));
    }
    let changed =
        convert_insert_field(&mut b, &whole, &arg(2, integer(64)), Some(1), &maps).unwrap();
    let whole = Operand { value: changed, history: history() };
    for (field, expected) in [(0, 7), (1, 9)] {
        convert_extract_field(&mut b, &whole, Some(field), &maps).unwrap();
        assert_eq!(run(&b.ops, &arguments), Data::Number(expected));
    }
}

/// A scalar that encodes a niched enum is unpacked into tag and wrapped payload.
#[test]
fn niched_scalars_are_unpacked() {
    let ty = record(vec![integer(8), record(vec![record(vec![integer(64)])])]);
    let niche = NicheEncoding { niche_start: 0, niche_variant_idx: 0, untagged_variant_idx: 1 };
    let result = MirType::Enum(Box::new(EnumType {
        name: "Option".to_string(),
        discriminant: MirType::Integer(8, Signedness::Unsigned),
        variant_discriminants: vec![5, 9],
        variants: vec![],
        tag_offset: 0,
        total_size: 0,
        abi_align: 0,
    }));
    for (bits, tag) in [(0u128, 5u128), (6, 9)] {
        let mut b = Builder::new();
        emit_pointer_cast(&mut b, &arg(0, integer(64)), Some(niche), &result, &ty).unwrap();
        let inner = Data::Members(vec![Data::Members(vec![Data::Number(bits)])]);
        assert_eq!(
            run(&b.ops, &[Data::Number(bits)]),
            Data::Members(vec![Data::Number(tag), inner])
        );
    }
}

/// What is stored at an address is what is loaded from there, and other slots
/// stay as they are.
#[test]
fn stored_values_are_loaded() {
    let mut b = Builder::new();
    let first = convert_ref(&mut b, &arg(0, integer(32)), None);
    let second = convert_ref(&mut b, &arg(1, integer(32)), None);
    convert_store(&mut b, &vec![second.copy(), arg(2, integer(32))], None).unwrap();
    let arguments = [Data::Number(5), Data::Number(6), Data::Number(7)];
    convert_load(&mut b, &second, &integer(32), None);
    assert_eq!(run(&b.ops, &arguments), Data::Number(7));
    convert_load(&mut b, &first, &integer(32), None);
    assert_eq!(run(&b.ops, &arguments), Data::Number(5));
}

/// A field is loaded from its address, by slot or by byte offset.
#[test]
fn fields_are_loaded_from_their_addresses() {
    for layout_diverges in [false, true] {
        let info = || {
            Some(Pointee::Aggregate(StructInfo {
                mem_to_decl: vec![1, 0],
                field_offsets: vec![8, if layout_diverges { 4 } else { 0 }],
                abi_align: 8,
                map: StructSlotMap {
                    struct_ty: record(vec![integer(64), integer(32)]),
                    decl_to_llvm: vec![Some(1), Some(0)],
                    field_types: vec![integer(32), integer(64)],
                    natural_slot_offsets: Some(vec![0, 8]),
                    layout_diverges,
                },
            }))
        };
        let ty = record(vec![integer(64), integer(32)]);
        let whole = Data::Members(vec![Data::Number(0x1_0000_0002), Data::Number(9)]);
        let mut b = Builder::new();
        let ptr = convert_ref(&mut b, &arg(0, ty), None);
        let address = convert_field_addr(&mut b, &ptr, Some(0), &info()).unwrap();
        convert_load(&mut b, &address, &integer(32), None);
        assert_eq!(run(&b.ops, &[whole.clone()]), Data::Number(9));
        let address = convert_field_addr(&mut b, &ptr, Some(1), &info()).unwrap();
        convert_load(&mut b, &address, &integer(32), None);
        let expected = if layout_diverges { 1 } else { 2 };
        assert_eq!(run(&b.ops, &[whole.clone()]), Data::Number(expected));
    }
}

/// An element is loaded from its address, which pointer arithmetic finds too.
#[test]
fn elements_are_loaded_from_their_addresses() {
    let ty = LlvmType::Array(Box::new(integer(16)), 3);
    let elements = Data::Members(vec![Data::Number(1), Data::Number(2), Data::Number(3)]);
    let element = Some(ElementInfo {
        ty: integer(16),
        stride: Some(2),
        llvm_size: Some(2),
        abi_align: Some(2),
    });
    for i in 0..3u128 {
        let arguments = [elements.clone(), Data::Number(i)];
        let mut b = Builder::new();
        let ptr = convert_ref(&mut b, &arg(0, ty.copy()), None);
        let index = arg(1, integer(64));
        let address = convert_array_element_addr(&mut b, &ptr, &index, &element).unwrap();
        convert_load(&mut b, &address, &integer(16), None);
        assert_eq!(run(&b.ops, &arguments), Data::Number(i + 1));
        let moved = convert_ptr_offset(&mut b, &vec![ptr, index], &Some(integer(16))).unwrap();
        convert_load(&mut b, &moved, &integer(16), None);
        assert_eq!(run(&b.ops, &arguments), Data::Number(i + 1));
    }
}

/// A discriminant that is written through a pointer is read from the enum.
#[test]
fn written_discriminants_are_read_back() {
    for (variant, declared) in [(0, 10), (1, 20), (2, 30)] {
        let info = Some(shared());
        let ty = shared().slots.struct_ty;
        let whole =
            Data::Members(vec![Data::Number(99), Data::Number(1), Data::Number(2)]);
        let mut b = Builder::new();
        let ptr = convert_ref(&mut b, &arg(0, ty.copy()), None);
        convert_set_discriminant(&mut b, &ptr, Some(variant), &StampedType::Enum(shared()))
            .unwrap();
        let value = convert_load(&mut b, &ptr, &ty, None);
        convert_get_discriminant(&mut b, &vec![value], &info).unwrap();
        assert_eq!(run(&b.ops, &[whole]), Data::Number(declared));
    }
}

/// A payload field is loaded from its address, by slot or by byte offset.
#[test]
fn payloads_are_loaded_from_their_addresses() {
    let pointee = || Some(Pointee::Enum(shared().slots));
    let whole =
        Data::Members(vec![Data::Number(20), Data::Number(0x5566_7788), Data::Number(0x1122_3344)]);
    let mut b = Builder::new();
    let ptr = convert_ref(&mut b, &arg(0, shared().slots.struct_ty), None);
    let address = convert_field_addr(&mut b, &ptr, Some(1), &pointee()).unwrap();
    convert_load(&mut b, &address, &integer(64), None);
    assert_eq!(run(&b.ops, &[whole.clone()]), Data::Number(0x1122_3344_5566_7788));
    let address = convert_field_addr(&mut b, &ptr, Some(3), &pointee()).unwrap();
    convert_load(&mut b, &address, &integer(32), None);
    assert_eq!(run(&b.ops, &[whole]), Data::Number(0x1122_3344));
}

/// A field of a packed carrier is loaded from where its slot begins.
#[test]
fn packed_fields_are_loaded_from_their_addresses() {
    let carrier = || {
        LlvmType::Struct(Box::new(FieldTypes::of(vec![integer(8), integer(32)])), true)
    };
    let info = StructInfo {
        mem_to_decl: vec![0, 1],
        field_offsets: vec![],
        abi_align: 1,
        map: StructSlotMap {
            struct_ty: carrier(),
            decl_to_llvm: vec![Some(0), Some(1)],
            field_types: vec![integer(8), integer(32)],
            natural_slot_offsets: None,
            layout_diverges: false,
        },
    };
    let whole = Data::Members(vec![Data::Number(7), Data::Number(0x0102_0304)]);
    let mut b = Builder::new();
    let ptr = convert_ref(&mut b, &arg(0, carrier()), None);
    let address = carrier_field_addr::convert_field_addr(
        &mut b,
        &ptr,
        Some(1),
        &None,
        &StampedAggregate::Struct(info),
        &Some(carrier()),
    )
    .unwrap();
    convert_load(&mut b, &address, &integer(32), None);
    assert_eq!(run(&b.ops, &[whole]), Data::Number(0x0102_0304));
}
