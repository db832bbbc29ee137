use vct_reflect::info::{
    ArrayInfo, ConstParamInfo, EnumInfo, GenericInfo, Generics, ListInfo, NamedField, OpaqueInfo,
    ReflectKind, ReflectKindError, StructInfo, StructVariantInfo, TupleInfo, TupleStructInfo,
    TupleVariantInfo, Type, TypeInfo, TypeParamInfo, UnitVariantInfo, UnnamedField,
    VariantInfo, VariantKind, VariantKindError,
};

fn record_info() -> StructInfo {
    StructInfo::new::<String>(&[NamedField::new::<u8>("x"), NamedField::new::<String>("y")])
}

#[test]
fn named_and_unnamed_fields() {
    let f = NamedField::new::<u8>("x");
    assert_eq!(f.name(), "x");
    assert!(f.is::<u8>());
    assert_eq!(f.type_path(), "u8");
    assert_eq!(f.type_id(), std::any::TypeId::of::<u8>());
    assert_eq!(*f.ty(), Type::of::<u8>());
    assert_eq!(f.docs(), None);
    let g = f.with_docs(Some("the x coordinate"));
    assert_eq!(g.docs(), Some("the x coordinate"));
    assert_eq!(g.name(), "x");
    let u = UnnamedField::new::<String>(3);
    assert_eq!(u.index(), 3);
    assert!(u.is::<String>());
    assert_eq!(u.type_path_table().name(), "String");
    assert_eq!(u.with_docs(Some("d")).docs(), Some("d"));
}

#[test]
fn struct_info_lookups() {
    let info = record_info();
    assert_eq!(info.field_len(), 2);
    assert_eq!(info.field_names(), &["x", "y"]);
    assert_eq!(info.index_of("y"), Some(1));
    assert_eq!(info.index_of("z"), None);
    assert!(info.field("x").expect("field x").is::<u8>());
    assert!(info.field("z").is_none());
    assert_eq!(info.field_at(1).expect("field 1").name(), "y");
    assert!(info.field_at(2).is_none());
    let names: Vec<&str> = info.iter().map(|f| f.name()).collect();
    assert_eq!(names, vec!["x", "y"]);
    assert_eq!(info.type_path(), "alloc::string::String");
    assert!(info.is::<String>());
    assert_eq!(info.docs(), None);
    assert_eq!(info.generics().len(), 0);
}

#[test]
fn struct_info_repeated_name_keeps_last() {
    let info = StructInfo::new::<String>(&[
        NamedField::new::<u8>("a"),
        NamedField::new::<String>("a"),
    ]);
    assert_eq!(info.index_of("a"), Some(1));
    assert!(info.field("a").expect("field a").is::<String>());
}

#[test]
fn struct_info_builders() {
    let info = record_info()
        .with_docs(Some("a point"))
        .with_generics(Generics::new().with(GenericInfo::from(TypeParamInfo::new::<u8>("T"))));
    assert_eq!(info.docs(), Some("a point"));
    assert_eq!(info.generics().len(), 1);
    assert_eq!(info.generics()[0].name(), "T");
    let copy = info.clone();
    assert_eq!(copy.field_len(), 2);
    assert_eq!(copy.docs(), Some("a point"));
}

#[test]
fn generics_lookup_and_const_params() {
    let g = Generics::new()
        .with(GenericInfo::from(TypeParamInfo::new::<u8>("T")))
        .with(GenericInfo::from(ConstParamInfo::new::<u8>("N")))
        .with(GenericInfo::from(TypeParamInfo::new::<String>("T")));
    assert_eq!(g.len(), 3);
    let t = g.get("T").expect("parameter T");
    assert!(t.is::<u8>());
    assert!(!t.is_const());
    let n = g.get("N").expect("parameter N");
    assert!(n.is_const());
    assert_eq!(n.type_path(), "u8");
    assert!(g.get("M").is_none());
    let c = ConstParamInfo::new::<u8>("N");
    assert_eq!(c.name(), "N");
    assert_eq!(c.type_id(), std::any::TypeId::of::<u8>());
}

#[test]
fn tuple_struct_and_tuple_info() {
    let ts = TupleStructInfo::new::<String>(&[UnnamedField::new::<u8>(0), UnnamedField::new::<u8>(1)]);
    assert_eq!(ts.field_len(), 2);
    assert_eq!(ts.field_at(1).expect("field 1").index(), 1);
    assert!(ts.field_at(2).is_none());
    assert_eq!(ts.iter().count(), 2);
    let t = TupleInfo::new::<()>(&[]);
    assert_eq!(t.field_len(), 0);
    assert!(t.field_at(0).is_none());
    assert_eq!(t.type_path(), "()");
    assert_eq!(t.with_docs(Some("unit")).docs(), Some("unit"));
}

#[test]
fn list_array_opaque_info() {
    let l = ListInfo::new::<String, u8>();
    assert!(l.item_ty().is::<u8>());
    assert!(l.is::<String>());
    assert!(!l.is::<u8>());
    let a = ArrayInfo::new::<String, String>(4);
    assert_eq!(a.capacity(), 4);
    assert_eq!(a.item_ty().path(), "alloc::string::String");
    let o = OpaqueInfo::new::<String>();
    assert_eq!(o.type_path(), "alloc::string::String");
    assert_eq!(o.generics().len(), 0);
}

fn shape_enum() -> EnumInfo {
    EnumInfo::new::<String>(&[
        VariantInfo::Unit(UnitVariantInfo::new("Empty")),
        VariantInfo::Tuple(TupleVariantInfo::new("Pair", &[UnnamedField::new::<u8>(0), UnnamedField::new::<u8>(1)])),
        VariantInfo::Struct(StructVariantInfo::new("Named", &[NamedField::new::<String>("label")])),
    ])
}

#[test]
fn enum_info_lookups() {
    let e = shape_enum();
    assert_eq!(e.variant_len(), 3);
    assert_eq!(e.variant_names(), &["Empty", "Pair", "Named"]);
    assert_eq!(e.index_of("Pair"), Some(1));
    assert_eq!(e.index_of("Other"), None);
    assert!(e.contains_variant("Named"));
    assert!(!e.contains_variant("Other"));
    assert_eq!(e.variant("Pair").expect("variant Pair").variant_type(), VariantKind::Tuple);
    assert!(e.variant("Other").is_none());
    assert_eq!(e.variant_at(0).expect("variant 0").name(), "Empty");
    assert!(e.variant_at(3).is_none());
    assert_eq!(e.variant_path("Pair"), "alloc::string::String::Pair");
    assert_eq!(e.iter().count(), 3);
    let c = e.clone();
    assert_eq!(c.variant_names(), &["Empty", "Pair", "Named"]);
}

#[test]
fn variant_info_casts() {
    let e = shape_enum();
    let named = e.variant("Named").expect("variant Named");
    let s = named.as_struct_variant().expect("struct variant");
    assert_eq!(s.field_names(), &["label"]);
    assert_eq!(s.index_of("label"), Some(0));
    assert!(s.field("label").expect("field label").is::<String>());
    assert_eq!(
        named.as_tuple_variant().unwrap_err(),
        VariantKindError { expected: VariantKind::Tuple, received: VariantKind::Struct }
    );
    let pair = e.variant("Pair").expect("variant Pair");
    assert_eq!(pair.as_tuple_variant().expect("tuple variant").field_len(), 2);
    assert_eq!(
        pair.as_unit_variant().unwrap_err().to_string(),
        "variant type mismatch: expected Unit, received Tuple"
    );
    let empty = e.variant("Empty").expect("variant Empty");
    assert_eq!(empty.as_unit_variant().expect("unit variant").name(), "Empty");
    assert_eq!(
        empty.as_struct_variant().unwrap_err(),
        VariantKindError { expected: VariantKind::Struct, received: VariantKind::Unit }
    );
    let documented = VariantInfo::Unit(UnitVariantInfo::new("A").with_docs(Some("first")));
    assert_eq!(documented.docs(), Some("first"));
}

#[test]
fn type_info_kinds_and_casts() {
    let info = TypeInfo::Struct(record_info());
    assert_eq!(info.kind(), ReflectKind::Struct);
    assert_eq!(info.type_path(), "alloc::string::String");
    assert!(info.is::<String>());
    assert_eq!(info.type_id(), std::any::TypeId::of::<String>());
    assert_eq!(info.type_path_table().name(), "String");
    assert_eq!(info.as_struct().expect("struct info").field_len(), 2);
    assert_eq!(
        info.as_enum().unwrap_err(),
        ReflectKindError { expected: ReflectKind::Enum, received: ReflectKind::Struct }
    );
    let opaque = TypeInfo::Opaque(OpaqueInfo::new::<u8>());
    assert_eq!(opaque.kind(), ReflectKind::Opaque);
    assert_eq!(
        opaque.as_list().unwrap_err().to_string(),
        "kind mismatch: expected List, received Opaque"
    );
    assert!(opaque.as_opaque().is_ok());
    assert_eq!(TypeInfo::Enum(shape_enum()).kind(), ReflectKind::Enum);
    assert_eq!(TypeInfo::List(ListInfo::new::<String, u8>()).kind(), ReflectKind::List);
    assert_eq!(TypeInfo::Array(ArrayInfo::new::<String, u8>(2)).as_array().expect("array").capacity(), 2);
    assert_eq!(TypeInfo::Tuple(TupleInfo::new::<()>(&[])).kind(), ReflectKind::Tuple);
    assert_eq!(
        TypeInfo::TupleStruct(TupleStructInfo::new::<String>(&[])).as_tuple_struct().expect("tuple struct").field_len(),
        0
    );
    assert_eq!(info.docs(), None);
    assert_eq!(info.generics().len(), 0);
}
