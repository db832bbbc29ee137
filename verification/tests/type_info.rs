use vct_reflect::info::{
    FieldId, ReflectKind, ReflectKindError, Type, TypeParamInfo, TypePath, TypePathTable, VariantKind,
    VariantKindError, DynamicTypePath,
};
use vct_reflect::ops::{ApplyError, ReflectCloneError};
use vct_reflect::access::{AccessError, AccessErrorKind, Accessor, PathAccessError};

#[test]
fn type_path_table_of_string() {
    let t = TypePathTable::of::<String>();
    assert_eq!(t.path(), "alloc::string::String");
    assert_eq!(t.name(), "String");
    assert_eq!(t.ident(), Some("String"));
    assert_eq!(t.crate_name(), Some("alloc"));
    assert_eq!(t.module(), Some("alloc::string"));
}

#[test]
fn type_path_table_of_u8_and_unit() {
    let t = TypePathTable::of::<u8>();
    assert_eq!(t.path(), "u8");
    assert_eq!(t.name(), "u8");
    assert_eq!(t.ident(), None);
    assert_eq!(t.crate_name(), None);
    assert_eq!(t.module(), None);
    let u = TypePathTable::of::<()>();
    assert_eq!(u.path(), "()");
    assert_eq!(u.ident(), Some("()"));
}

#[test]
fn dynamic_type_path_matches_static() {
    let s = String::new();
    assert_eq!(s.reflect_type_path(), <String as TypePath>::type_path());
    assert_eq!(s.reflect_type_name(), "String");
    assert_eq!(7u8.reflect_type_ident(), None);
    assert_eq!(s.reflect_crate_name(), Some("alloc"));
    assert_eq!(s.reflect_module_path(), Some("alloc::string"));
}

#[test]
fn type_compares_by_id() {
    let a = Type::of::<u8>();
    let b = Type::of::<u8>();
    let c = Type::of::<String>();
    assert!(a == b);
    assert!(a != c);
    assert!(a.is::<u8>());
    assert!(!a.is::<String>());
    assert!(c.is_id(&std::any::TypeId::of::<String>()));
    assert_eq!(c.id(), std::any::TypeId::of::<String>());
    assert_eq!(c.path(), "alloc::string::String");
    assert_eq!(c.short_path(), "String");
    assert_eq!(c.ident(), Some("String"));
    assert_eq!(c.crate_name(), Some("alloc"));
    assert_eq!(c.module(), Some("alloc::string"));
    assert_eq!(c.type_path_table().path(), "alloc::string::String");
}

#[test]
fn type_param_info() {
    let p = TypeParamInfo::new::<u8>("T");
    assert_eq!(p.name(), "T");
    assert!(p.default().is_none());
    assert!(p.is::<u8>());
    assert_eq!(p.type_path(), "u8");
    assert_eq!(p.type_id(), std::any::TypeId::of::<u8>());
    assert_eq!(p.type_path_table().name(), "u8");
    assert_eq!(*p.ty(), Type::of::<u8>());
    let q = p.with_default::<String>();
    assert_eq!(q.name(), "T");
    assert!(q.is::<u8>());
    let d = q.default().expect("default type");
    assert!(d.is::<String>());
    assert_eq!(d.path(), "alloc::string::String");
}

#[test]
fn field_id_display() {
    assert_eq!(FieldId::Named("x".to_string()).to_string(), "x");
    assert_eq!(FieldId::Unnamed(12).to_string(), "12");
}

#[test]
fn kind_display() {
    assert_eq!(ReflectKind::TupleStruct.to_string(), "tuple struct");
    assert_eq!(ReflectKind::MapLike.to_string(), "map");
    assert_eq!(ReflectKind::SetLike.name(), "set");
    assert_eq!(ReflectKind::Opaque.name(), "opaque");
    let e = ReflectKindError { expected: ReflectKind::List, received: ReflectKind::MapLike };
    assert_eq!(e.to_string(), "kind mismatch: expected List, received Map");
    let v = VariantKindError { expected: VariantKind::Unit, received: VariantKind::Struct };
    assert_eq!(v.to_string(), "variant type mismatch: expected Unit, received Struct");
}

#[test]
fn apply_error_display() {
    let e = ApplyError::MismatchedKinds { from_kind: ReflectKind::Struct, to_kind: ReflectKind::Enum };
    assert_eq!(e.to_string(), "attempted to apply `struct` to `enum`");
    let e = ApplyError::MissingEnumField { variant_name: "A".to_string(), field_name: "f".to_string() };
    assert_eq!(e.to_string(), "enum variant `A` doesn't have a field named `f`");
    let e = ApplyError::MismatchedTypes { from_type: "u8".to_string(), to_type: "u16".to_string() };
    assert_eq!(e.to_string(), "`u8` is not `u16`");
    let e = ApplyError::DifferentSize { from_size: 4, to_size: 3 };
    assert_eq!(e.to_string(), "attempted to apply type with 4 size to a type with 3 size");
    let e = ApplyError::UnknownVariant { enum_name: "E".to_string(), variant_name: "Z".to_string() };
    assert_eq!(e.to_string(), "variant with name `Z` does not exist on enum `E`");
}

#[test]
fn apply_error_from_kind_error_swaps_roles() {
    let k = ReflectKindError { expected: ReflectKind::List, received: ReflectKind::Array };
    let a: ApplyError = k.into();
    assert_eq!(a, ApplyError::MismatchedKinds { from_kind: ReflectKind::Array, to_kind: ReflectKind::List });
}

#[test]
fn clone_error_display() {
    let e = ReflectCloneError::NotImplemented { type_path: "my::T".to_string() };
    assert_eq!(e.to_string(), "`reflect_clone` not implemented for `my::T`");
    let e = ReflectCloneError::FieldNotCloneable {
        type_path: "my::E".to_string(),
        field: FieldId::Unnamed(0),
        variant: Some("V".to_string()),
    };
    assert_eq!(e.to_string(), "field `my::E::V::0` cannot be made cloneable for `reflect_clone`");
    let e = ReflectCloneError::FieldNotCloneable {
        type_path: "my::S".to_string(),
        field: FieldId::Named("f".to_string()),
        variant: None,
    };
    assert_eq!(e.to_string(), "field `my::S::f` cannot be made cloneable for `reflect_clone`");
}

#[test]
fn access_error_display() {
    let e = AccessError {
        kind: AccessErrorKind::MissingField(ReflectKind::Struct),
        accessor: Accessor::FieldName("x".to_string()),
        offset: Some(1),
    };
    assert_eq!(
        e.to_string(),
        "error accessing element with `.x` accessor: the struct accessed doesn't have the requested field"
    );
    let k = AccessErrorKind::IncompatibleTypes { expected: ReflectKind::List, actual: ReflectKind::Tuple };
    assert_eq!(k.to_string(), "expected list access to access a tuple");
    let k = AccessErrorKind::IncompatibleEnumVariantTypes { expected: VariantKind::Tuple, actual: VariantKind::Unit };
    assert_eq!(k.to_string(), "expected variant Tuple access to access a Unit variant");
    let pe: PathAccessError = e.clone().into();
    assert_eq!(pe.to_string(), e.to_string());
}

#[test]
fn type_as_hash_key() {
    let mut set = std::collections::HashSet::new();
    set.insert(Type::of::<u8>());
    set.insert(Type::of::<u8>());
    set.insert(Type::of::<String>());
    assert_eq!(set.len(), 2);
    assert!(set.contains(&Type::of::<String>()));
}

#[test]
fn integer_type_paths() {
    assert_eq!(<u16 as TypePath>::type_path(), "u16");
    assert_eq!(<i128 as TypePath>::short_type_path(), "i128");
    assert_eq!(<usize as TypePath>::type_ident(), None);
    assert_eq!(TypePathTable::of::<isize>().path(), "isize");
    assert_eq!(Type::of::<i32>().path(), "i32");
    assert!(Type::of::<u64>() != Type::of::<i64>());
}
