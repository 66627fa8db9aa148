//! Translation of Rust types.

use mir_lower::llvm::Signedness;
use mir_lower::mir::{Layout, MirType};
use mir_lower::rust_types::{
    Adt, ArrayLen, Closure, Field, FloatTy, GenericArg, IntTy, RustType, Shape, UintTy, Variant,
    VariantsShape,
};
use mir_lower::types::{
    get_bool_type, get_f32_type, get_i32_type, get_usize_type, is_rust_type_zst, is_zst_type,
    shared_array_element_type, slice_tail_element_ty, translate_destination_type,
    translate_pointer_like, translate_type, TranslateError,
};

fn unsigned(width: u32) -> MirType {
    MirType::Integer(width, Signedness::Unsigned)
}

fn signed(width: u32) -> MirType {
    MirType::Integer(width, Signedness::Signed)
}

fn unit() -> MirType {
    MirType::Tuple(vec![], Layout::unknown())
}

fn float() -> RustType {
    RustType::Float(FloatTy::F32)
}

fn field(name: &str, ty: RustType) -> Field {
    Field { name: name.to_string(), ty }
}

fn shape(variants: VariantsShape) -> Shape {
    Shape {
        memory_order: vec![1, 0],
        offsets: Some(vec![8, 0]),
        size: 16,
        abi_align: 8,
        variants,
        variant_offsets: vec![],
    }
}

fn variant(name: &str, fields: Vec<Field>, discriminant: u128) -> Variant {
    Variant { name: name.to_string(), fields, discriminant }
}

fn adt(name: &str, args: Vec<GenericArg>, variants: Vec<Variant>) -> Adt {
    Adt { name: name.to_string(), args, variants, layout: None }
}

fn named(name: &str, args: Vec<GenericArg>) -> RustType {
    RustType::Adt(Box::new(adt(name, args, vec![])))
}

fn structure(name: &str, fields: Vec<Field>) -> RustType {
    RustType::Adt(Box::new(adt(name, vec![], vec![variant(name, fields, 0)])))
}

#[test]
fn scalars_keep_width_and_signedness() {
    for (ty, expected) in [
        (RustType::Int(IntTy::I8), signed(8)),
        (RustType::Int(IntTy::I128), signed(128)),
        (RustType::Int(IntTy::Isize), signed(64)),
        (RustType::Uint(UintTy::U16), unsigned(16)),
        (RustType::Uint(UintTy::Usize), unsigned(64)),
        (RustType::Bool, MirType::Integer(1, Signedness::Signless)),
        (RustType::Char, unsigned(32)),
        (RustType::Never, unit()),
        (RustType::Float(FloatTy::F16), MirType::Half),
        (RustType::Float(FloatTy::F32), MirType::Float),
        (RustType::Float(FloatTy::F64), MirType::Double),
    ] {
        assert_eq!(translate_type(&ty), Ok(expected));
    }
    assert_eq!(translate_type(&RustType::Float(FloatTy::F128)), Err(TranslateError::F128));
    assert_eq!(translate_type(&RustType::Other), Err(TranslateError::Unsupported));
    assert_eq!(get_i32_type(), signed(32));
    assert_eq!(get_bool_type(), MirType::Integer(1, Signedness::Signless));
    assert_eq!(get_usize_type(), unsigned(64));
    assert_eq!(get_f32_type(), MirType::Float);
}

fn length(n: u64) -> ArrayLen {
    ArrayLen::Bytes(n.to_le_bytes().iter().map(|b| Some(*b)).collect())
}

#[test]
fn array_lengths_are_read_from_their_bytes() {
    let of = |len: ArrayLen| translate_type(&RustType::Array(Box::new(float()), len));
    assert_eq!(of(length(258)), Ok(MirType::Array(Box::new(MirType::Float), 258)));
    assert_eq!(of(length(u64::MAX)), Ok(MirType::Array(Box::new(MirType::Float), u64::MAX)));
    let partly = ArrayLen::Bytes(vec![Some(3), None, Some(1), None, None, None, None, None]);
    assert_eq!(of(partly), Ok(MirType::Array(Box::new(MirType::Float), 65_539)));
    assert_eq!(of(ArrayLen::Bytes(vec![Some(1); 4])), Err(TranslateError::ArrayLengthSize));
    assert_eq!(of(ArrayLen::Unevaluated), Err(TranslateError::ArrayLengthNotValue));
}

#[test]
fn pointers_to_slices_are_slices() {
    let bytes = MirType::Slice(Box::new(unsigned(8)));
    assert_eq!(translate_pointer_like(&RustType::Str, false), Ok(bytes));
    let floats = RustType::Slice(Box::new(float()));
    let expected = MirType::Slice(Box::new(MirType::Float));
    assert_eq!(translate_type(&RustType::Ref(Box::new(floats), true)), Ok(expected));
    let to_float = RustType::RawPtr(Box::new(float()), true);
    assert_eq!(
        translate_type(&to_float),
        Ok(MirType::Pointer(Box::new(MirType::Float), true, 0))
    );
}

#[test]
fn device_types_have_translations_of_their_own() {
    let args = || vec![GenericArg::Other, GenericArg::Type(float())];
    assert_eq!(
        translate_type(&named("DisjointSlice", args())),
        Ok(MirType::DisjointSlice(Box::new(MirType::Float), vec![]))
    );
    assert_eq!(
        translate_type(&named("DisjointSlice", vec![])),
        Err(TranslateError::MissingElementType)
    );
    assert_eq!(translate_type(&named("ThreadIndex", vec![])), Ok(unsigned(64)));
    assert_eq!(translate_type(&named("SharedArray", args())), Ok(unit()));
    assert_eq!(translate_type(&named("Barrier", vec![])), Ok(unsigned(64)));
    assert_eq!(
        translate_type(&named("TmaDescriptor", vec![])),
        Ok(MirType::RawArray(Box::new(unsigned(64)), 16))
    );
    assert_eq!(
        translate_pointer_like(&named("SharedArray", args()), true),
        Ok(MirType::Pointer(Box::new(MirType::Float), true, 3))
    );
    assert_eq!(
        translate_pointer_like(&named("Barrier", vec![]), false),
        Ok(MirType::Pointer(Box::new(unsigned(64)), false, 3))
    );
    assert_eq!(shared_array_element_type(&args()), Ok(MirType::Float));
    assert_eq!(
        shared_array_element_type(&vec![GenericArg::Other]),
        Err(TranslateError::MissingElementType)
    );
}

#[test]
fn structs_keep_names_types_and_layout() {
    let mut pair = adt(
        "Pair",
        vec![],
        vec![variant("Pair", vec![field("a", float()), field("b", RustType::Bool)], 0)],
    );
    pair.layout = Some(shape(VariantsShape::Single));
    assert_eq!(
        translate_type(&RustType::Adt(Box::new(pair))),
        Ok(MirType::Struct(
            "Pair".to_string(),
            vec!["a".to_string(), "b".to_string()],
            vec![MirType::Float, get_bool_type()],
            Layout {
                mem_to_decl: vec![1, 0],
                field_offsets: vec![8, 0],
                total_size: 16,
                abi_align: 8,
            },
        ))
    );
    let failing = structure("Bad", vec![field("a", RustType::Float(FloatTy::F128))]);
    assert_eq!(translate_type(&failing), Err(TranslateError::F128));
}

#[test]
fn unsized_tails_are_found_at_any_depth() {
    let inner = || structure("Inner", vec![field("tail", RustType::Slice(Box::new(float())))]);
    let outer = structure("Outer", vec![field("head", RustType::Bool), field("inner", inner())]);
    assert_eq!(slice_tail_element_ty(&outer), Some(&float()));
    assert_eq!(slice_tail_element_ty(&float()), None);
    assert_eq!(slice_tail_element_ty(&structure("Empty", vec![])), None);
    let translated = translate_pointer_like(&inner(), false).unwrap();
    match translated {
        MirType::Slice(elem) => assert_eq!(
            *elem,
            MirType::Struct(
                "Inner".to_string(),
                vec!["tail".to_string()],
                vec![MirType::Float],
                Layout::unknown(),
            )
        ),
        other => panic!("a slice was expected: {other:?}"),
    }
}

fn enumeration(layout: Option<Shape>, variants: Vec<Variant>) -> RustType {
    RustType::Adt(Box::new(Adt { layout, ..adt("Choice", vec![], variants) }))
}

fn two() -> Vec<Variant> {
    vec![variant("A", vec![], 3), variant("B", vec![field("x", float())], 255)]
}

#[test]
fn direct_tags_come_from_the_layout() {
    let direct = || VariantsShape::Direct { tag: Some((8, true)), tag_offset: Some(4) };
    let layout =
        Shape { variant_offsets: vec![Some(vec![]), Some(vec![8])], ..shape(direct()) };
    match translate_type(&enumeration(Some(layout), two())).unwrap() {
        MirType::Enum(e) => {
            assert_eq!(e.discriminant, signed(8));
            assert_eq!(e.variant_discriminants, vec![3, 255]);
            assert_eq!((e.tag_offset, e.total_size, e.abi_align), (4, 16, 8));
            assert_eq!(e.variants[1].name, "B");
            assert_eq!(e.variants[1].field_types, vec![MirType::Float]);
            assert_eq!(e.variants[1].field_offsets, vec![8]);
        }
        other => panic!("an enum was expected: {other:?}"),
    }
    let missing = Shape { variant_offsets: vec![Some(vec![]), None], ..shape(direct()) };
    assert_eq!(
        translate_type(&enumeration(Some(missing), two())),
        Err(TranslateError::VariantOffsets)
    );
}

#[test]
fn other_tags_number_the_variants() {
    match translate_type(&enumeration(Some(shape(VariantsShape::Niche)), two())).unwrap() {
        MirType::Enum(e) => {
            assert_eq!(e.discriminant, unsigned(8));
            assert_eq!((e.tag_offset, e.total_size, e.abi_align), (0, 0, 0));
            assert!(e.variants[1].field_offsets.is_empty());
        }
        other => panic!("an enum was expected: {other:?}"),
    }
    let many = (0..257).map(|i| variant("V", vec![], i)).collect();
    match translate_type(&enumeration(Some(shape(VariantsShape::Niche)), many)).unwrap() {
        MirType::Enum(e) => assert_eq!(e.discriminant, unsigned(16)),
        other => panic!("an enum was expected: {other:?}"),
    }
}

#[test]
fn enums_that_cannot_be_translated() {
    let error = |layout: Option<Shape>, variants: Vec<Variant>| {
        translate_type(&enumeration(layout, variants)).unwrap_err()
    };
    assert_eq!(error(None, two()), TranslateError::EnumLayout);
    let direct = |tag: Option<(u32, bool)>, tag_offset: Option<u64>| {
        Some(shape(VariantsShape::Direct { tag, tag_offset }))
    };
    assert_eq!(error(direct(None, Some(0)), two()), TranslateError::TagNotInteger);
    assert_eq!(error(direct(Some((8, false)), None), two()), TranslateError::TagOffset);
    let wide = vec![variant("A", vec![], 0), variant("B", vec![], 1 << 64)];
    assert_eq!(
        error(direct(Some((8, false)), Some(0)), wide),
        TranslateError::DiscriminantTooWide
    );
}

fn closure(captures: Option<Vec<RustType>>) -> Closure {
    let args = match captures {
        Some(types) => vec![
            GenericArg::Other,
            GenericArg::Other,
            GenericArg::Type(RustType::Tuple(types)),
        ],
        None => vec![],
    };
    Closure { name: "closure_0".to_string(), args, output: RustType::Char, layout: None }
}

#[test]
fn closures_are_structs_of_what_they_capture() {
    let capturing = RustType::Closure(Box::new(closure(Some(vec![float(), RustType::Bool]))));
    assert_eq!(
        translate_type(&capturing),
        Ok(MirType::Struct(
            "closure_0".to_string(),
            vec!["capture_0".to_string(), "capture_1".to_string()],
            vec![MirType::Float, get_bool_type()],
            Layout::unknown(),
        ))
    );
    assert!(!is_rust_type_zst(&capturing));
    assert!(is_rust_type_zst(&RustType::Closure(Box::new(closure(None)))));
    assert!(is_rust_type_zst(&RustType::Closure(Box::new(closure(Some(vec![]))))));
}

#[test]
fn associated_types_are_resolved_for_calls_and_indexing() {
    let projection = |def: &str, args: Vec<GenericArg>| {
        translate_type(&RustType::Projection(def.to_string(), args))
    };
    let callable = RustType::Closure(Box::new(closure(None)));
    assert_eq!(
        projection("core::ops::FnOnce::Output", vec![GenericArg::Type(callable)]),
        Ok(unsigned(32))
    );
    let item = RustType::FnDef("f".to_string(), Box::new(float()));
    assert_eq!(
        projection("core::ops::FnOnce::Output", vec![GenericArg::Type(item)]),
        Ok(MirType::Float)
    );
    let array = || GenericArg::Type(named("SharedArray", vec![GenericArg::Type(float())]));
    assert_eq!(projection("core::ops::Index::Output", vec![array()]), Ok(MirType::Float));
    assert_eq!(
        projection("core::ops::Index::Output", vec![GenericArg::Type(float())]),
        Err(TranslateError::Alias)
    );
    assert_eq!(projection("core::iter::Iterator::Item", vec![array()]), Err(TranslateError::Alias));
    assert_eq!(projection("core::ops::FnOnce::Output", vec![]), Err(TranslateError::Alias));
}

#[test]
fn functions_are_markers() {
    let pointer = RustType::FnPtr(Box::new(float()));
    let marker = |name: &str| {
        MirType::Struct(name.to_string(), vec![], vec![], Layout::unknown())
    };
    assert_eq!(
        translate_type(&pointer),
        Ok(MirType::Pointer(Box::new(marker("FnPtrTarget")), false, 0))
    );
    let item = RustType::FnDef("f".to_string(), Box::new(float()));
    assert_eq!(translate_type(&item), Ok(marker("FnDef_f")));
    assert_eq!(translate_type(&RustType::Pat(Box::new(RustType::Char))), Ok(unsigned(32)));
}

#[test]
fn zero_sized_types_are_recognised_by_shape() {
    assert!(is_zst_type(&unit()));
    assert!(!is_zst_type(&MirType::Tuple(vec![MirType::Float], Layout::unknown())));
    let pair = |first: MirType, second: MirType| {
        MirType::Tuple(vec![first, second], Layout::unknown())
    };
    assert!(is_zst_type(&pair(unit(), unit())));
    assert!(is_zst_type(&pair(unit(), pair(unit(), unit()))));
    assert!(!is_zst_type(&pair(unit(), MirType::Float)));
    let marker = MirType::Struct(
        "Marker".to_string(),
        vec!["unit".to_string()],
        vec![unit()],
        Layout::unknown(),
    );
    assert!(is_zst_type(&marker));
    let array = |element: MirType, n: u64| MirType::Array(Box::new(element), n);
    assert!(is_zst_type(&array(unit(), 0)));
    assert!(is_zst_type(&array(unit(), 4)));
    assert!(is_zst_type(&array(MirType::Float, 0)));
    assert!(is_zst_type(&array(array(pair(unit(), unit()), 3), 2)));
    assert!(!is_zst_type(&array(MirType::Float, 1)));
    assert!(!is_zst_type(&MirType::Float));
    assert!(is_rust_type_zst(&RustType::Tuple(vec![])));
    assert!(is_rust_type_zst(&structure("Marker", vec![])));
    assert!(!is_rust_type_zst(&structure("One", vec![field("a", float())])));
    assert!(!is_rust_type_zst(&float()));
}

#[test]
fn destinations_are_translated() {
    assert_eq!(translate_destination_type(Some(&float())), Ok(MirType::Float));
    assert_eq!(translate_destination_type(None), Err(TranslateError::Destination));
}

#[test]
fn raw_pointers_and_references_are_alike() {
    let slice = || RustType::Slice(Box::new(RustType::Uint(UintTy::U8)));
    for pointee in [|| float(), || RustType::Str, || RustType::Slice(Box::new(float()))] {
        for mutable in [false, true] {
            assert_eq!(
                translate_type(&RustType::RawPtr(Box::new(pointee()), mutable)),
                translate_type(&RustType::Ref(Box::new(pointee()), mutable))
            );
        }
    }
    assert_eq!(
        translate_type(&RustType::Ref(Box::new(RustType::Str), false)),
        translate_type(&RustType::Ref(Box::new(slice()), true))
    );
    assert_eq!(
        translate_type(&RustType::Ref(Box::new(slice()), false)),
        translate_type(&slice())
    );
}

#[test]
fn shapes_without_size_translate_to_types_without_size() {
    for ty in [
        RustType::Tuple(vec![]),
        structure("Marker", vec![]),
        structure("SharedArray", vec![]),
        RustType::Closure(Box::new(closure(None))),
    ] {
        assert!(is_rust_type_zst(&ty));
        assert!(is_zst_type(&translate_type(&ty).unwrap()));
    }
}
