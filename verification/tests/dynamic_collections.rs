use vct_reflect::info::{ArrayInfo, ListInfo, ReflectKind, StructInfo, TupleInfo, TypeInfo};
use vct_reflect::ops::{
    ApplyError, DynamicArray, DynamicEnum, DynamicList, DynamicMap, DynamicStruct, DynamicTuple, DynamicTupleStruct,
    DynamicVariant,
    FieldValue,
};
use vct_reflect::ops::ApplyValue;

fn list_of(values: &[u32]) -> DynamicList<u32> {
    let mut l = DynamicList::new();
    for v in values {
        l.push(*v);
    }
    l
}

fn items(l: &DynamicList<u32>) -> Vec<u32> {
    let mut out = Vec::new();
    let mut i = 0;
    while let Some(v) = l.get(i) {
        out.push(*v);
        i += 1;
    }
    out
}

#[test]
fn dynamic_list_push_pop_insert_remove() {
    let mut l = list_of(&[1, 2, 3]);
    assert_eq!(l.len(), 3);
    assert!(!l.is_empty());
    assert_eq!(l.pop(), Some(3));
    l.insert(0, 9);
    assert_eq!(items(&l), vec![9, 1, 2]);
    assert_eq!(l.remove(1), 1);
    assert_eq!(items(&l), vec![9, 2]);
    assert_eq!(l.get(5), None);
    let drained = l.drain();
    assert_eq!(drained, vec![9, 2]);
    assert!(l.is_empty());
    assert_eq!(l.pop(), None);
}

#[test]
fn dynamic_list_apply_shorter_keeps_tail() {
    let mut l = list_of(&[1, 2, 3]);
    assert_eq!(l.try_apply(&list_of(&[7])), Ok(()));
    assert_eq!(items(&l), vec![7, 2, 3]);
}

#[test]
fn dynamic_list_apply_longer_appends() {
    let mut l = list_of(&[1]);
    assert_eq!(l.try_apply(&list_of(&[5, 6, 7])), Ok(()));
    assert_eq!(items(&l), vec![5, 6, 7]);
}

#[test]
fn dynamic_list_partial_eq() {
    let l = list_of(&[1, 2]);
    assert_eq!(l.reflect_partial_eq(&list_of(&[1, 2])), Some(true));
    assert_eq!(l.reflect_partial_eq(&list_of(&[1, 3])), Some(false));
    assert_eq!(l.reflect_partial_eq(&list_of(&[1])), Some(false));
    assert_eq!(list_of(&[]).reflect_partial_eq(&list_of(&[])), Some(true));
}

fn point(x: u32, y: u32) -> DynamicStruct<u32> {
    let mut s = DynamicStruct::new();
    s.insert("x", x);
    s.insert("y", y);
    s
}

#[test]
fn dynamic_struct_insert_replaces_by_name() {
    let mut s = point(1, 2);
    assert_eq!(s.field_len(), 2);
    s.insert("x", 10);
    assert_eq!(s.field_len(), 2);
    assert_eq!(s.field("x"), Some(&10));
    assert_eq!(s.index_of("y"), Some(1));
    s.insert("z", 3);
    assert_eq!(s.field_len(), 3);
    assert_eq!(s.name_at(2), Some("z"));
    assert_eq!(s.field_at(2), Some(&3));
    assert_eq!(s.field("w"), None);
    assert_eq!(s.index_of("w"), None);
    assert_eq!(s.name_at(3), None);
    assert_eq!(s.field_at(3), None);
}

#[test]
fn dynamic_struct_apply_by_name() {
    let mut s = point(1, 2);
    let mut other = DynamicStruct::new();
    other.insert("y", 20);
    other.insert("q", 99);
    assert_eq!(s.try_apply(&other), Ok(()));
    assert_eq!(s.field("x"), Some(&1));
    assert_eq!(s.field("y"), Some(&20));
    assert_eq!(s.field("q"), None);
    assert_eq!(s.field_len(), 2);
}

#[test]
fn dynamic_struct_apply_into_list_field() {
    let mut s: DynamicStruct<Vec<u8>> = DynamicStruct::new();
    s.insert("bytes", vec![1, 2, 3]);
    let mut other = DynamicStruct::new();
    other.insert("bytes", vec![9]);
    assert_eq!(s.try_apply(&other), Ok(()));
    assert_eq!(s.field("bytes"), Some(&vec![9, 2, 3]));
}

#[test]
fn dynamic_struct_partial_eq() {
    let s = point(1, 2);
    let mut swapped = DynamicStruct::new();
    swapped.insert("y", 2);
    swapped.insert("x", 1);
    assert_eq!(s.reflect_partial_eq(&swapped), Some(true));
    assert_eq!(s.reflect_partial_eq(&point(1, 3)), Some(false));
    let mut renamed = DynamicStruct::new();
    renamed.insert("x", 1);
    renamed.insert("z", 2);
    assert_eq!(s.reflect_partial_eq(&renamed), Some(false));
    let mut short = DynamicStruct::new();
    short.insert("x", 1);
    assert_eq!(s.reflect_partial_eq(&short), Some(false));
}

#[test]
fn dynamic_list_and_struct_type_info() {
    let list_info: &'static TypeInfo = Box::leak(Box::new(TypeInfo::List(ListInfo::new::<String, u8>())));
    let mut l = list_of(&[1, 2]);
    assert!(l.represented_type_info().is_none());
    l.set_type_info(Some(list_info));
    l.push(3);
    assert!(l.represented_type_info().is_some());
    assert_eq!(items(&l), vec![1, 2, 3]);
    l.set_type_info(None);
    assert!(l.represented_type_info().is_none());

    let struct_info: &'static TypeInfo = Box::leak(Box::new(TypeInfo::Struct(StructInfo::new::<u8>(&[]))));
    let mut s = point(1, 2);
    assert!(s.represented_type_info().is_none());
    s.set_type_info(Some(struct_info));
    s.insert("x", 5);
    assert!(s.represented_type_info().is_some());
    assert_eq!(s.field("x"), Some(&5));
}

fn array_items(a: &DynamicArray<u32>) -> Vec<u32> {
    let mut out = Vec::new();
    let mut i = 0;
    while let Some(v) = a.get(i) {
        out.push(*v);
        i += 1;
    }
    out
}

#[test]
fn dynamic_array_apply_same_length() {
    let mut a = DynamicArray::new(vec![1u32, 2, 3]);
    assert_eq!(a.len(), 3);
    assert_eq!(a.try_apply(&DynamicArray::new(vec![7, 8, 9])), Ok(()));
    assert_eq!(array_items(&a), vec![7, 8, 9]);
}

#[test]
fn dynamic_array_apply_different_size() {
    let mut a = DynamicArray::new(vec![1u32, 2, 3]);
    assert_eq!(
        a.try_apply(&DynamicArray::new(vec![7, 8])),
        Err(ApplyError::DifferentSize { from_size: 2, to_size: 3 })
    );
    assert_eq!(array_items(&a), vec![1, 2, 3]);
    let e = a.try_apply(&DynamicArray::new(vec![7, 8, 9, 10])).unwrap_err();
    assert_eq!(e.to_string(), "attempted to apply type with 4 size to a type with 3 size");
}

#[test]
fn dynamic_array_partial_eq_and_drain() {
    let a = DynamicArray::new(vec![1u32, 2]);
    assert_eq!(a.reflect_partial_eq(&DynamicArray::new(vec![1, 2])), Some(true));
    assert_eq!(a.reflect_partial_eq(&DynamicArray::new(vec![2, 1])), Some(false));
    assert_eq!(a.reflect_partial_eq(&DynamicArray::new(vec![1, 2, 3])), Some(false));
    assert!(a.get_target_type_info().is_none());
    assert_eq!(a.drain(), vec![1, 2]);
}

fn tuple_of(values: &[u32]) -> DynamicTuple<u32> {
    let mut t = DynamicTuple::new();
    for v in values {
        t.insert(*v);
    }
    t
}

#[test]
fn dynamic_tuple_apply_by_position() {
    let mut t = tuple_of(&[1, 2, 3]);
    assert_eq!(t.try_apply(&tuple_of(&[7])), Ok(()));
    assert_eq!(t.field(0), Some(&7));
    assert_eq!(t.field(1), Some(&2));
    assert_eq!(t.field_len(), 3);
    assert_eq!(t.try_apply(&tuple_of(&[4, 5, 6, 7, 8])), Ok(()));
    assert_eq!(t.field(2), Some(&6));
    assert_eq!(t.field(3), None);
    assert_eq!(t.field_len(), 3);
}

#[test]
fn dynamic_tuple_partial_eq() {
    let t = tuple_of(&[1, 2]);
    assert_eq!(t.reflect_partial_eq(&tuple_of(&[1, 2])), Some(true));
    assert_eq!(t.reflect_partial_eq(&tuple_of(&[1, 9])), Some(false));
    assert_eq!(t.reflect_partial_eq(&tuple_of(&[1])), Some(false));
    assert!(t.represented_type_info().is_none());
}

fn map_of(entries: &[(&str, u32)]) -> DynamicMap<String, u32> {
    let mut m = DynamicMap::new();
    for (k, v) in entries {
        m.insert(k.to_string(), *v);
    }
    m
}

#[test]
fn dynamic_map_insert_get_remove() {
    let mut m = map_of(&[("a", 1), ("b", 2)]);
    assert_eq!(m.len(), 2);
    assert_eq!(m.insert("a".to_string(), 10), Some(1));
    assert_eq!(m.len(), 2);
    assert_eq!(m.get(&"a".to_string()), Some(&10));
    assert_eq!(m.insert("c".to_string(), 3), None);
    assert_eq!(m.len(), 3);
    assert!(m.contains_key(&"c".to_string()));
    assert_eq!(m.remove(&"b".to_string()), Some(2));
    assert_eq!(m.remove(&"b".to_string()), None);
    assert_eq!(m.get(&"b".to_string()), None);
    assert_eq!(m.len(), 2);
    assert!(!m.is_empty());
}

#[test]
fn dynamic_map_apply_updates_adds_and_drops() {
    let mut m = map_of(&[("a", 1), ("b", 2)]);
    let other = map_of(&[("b", 20), ("c", 30)]);
    assert_eq!(m.try_apply(&other), Ok(()));
    assert_eq!(m.get(&"a".to_string()), None);
    assert_eq!(m.get(&"b".to_string()), Some(&20));
    assert_eq!(m.get(&"c".to_string()), Some(&30));
    assert_eq!(m.len(), 2);
    assert_eq!(m.reflect_partial_eq(&other), Some(true));
}

#[test]
fn dynamic_map_partial_eq() {
    let m = map_of(&[("a", 1), ("b", 2)]);
    assert_eq!(m.reflect_partial_eq(&map_of(&[("b", 2), ("a", 1)])), Some(true));
    assert_eq!(m.reflect_partial_eq(&map_of(&[("a", 1), ("b", 3)])), Some(false));
    assert_eq!(m.reflect_partial_eq(&map_of(&[("a", 1), ("c", 2)])), Some(false));
    assert_eq!(m.reflect_partial_eq(&map_of(&[("a", 1)])), Some(false));
    let empty: DynamicMap<String, u32> = DynamicMap::new();
    assert!(empty.is_empty());
}

#[test]
fn dynamic_tuple_and_array_type_info() {
    let tuple_info: &'static TypeInfo = Box::leak(Box::new(TypeInfo::Tuple(TupleInfo::new::<()>(&[]))));
    let mut t = tuple_of(&[1]);
    assert!(t.represented_type_info().is_none());
    t.set_type_info(Some(tuple_info));
    assert!(t.represented_type_info().is_some());
    t.insert(2);
    assert!(t.represented_type_info().is_none());
    assert_eq!(t.field_len(), 2);

    let array_info: &'static TypeInfo = Box::leak(Box::new(TypeInfo::Array(ArrayInfo::new::<String, u8>(2))));
    let mut a = DynamicArray::new(vec![1u32, 2]);
    a.set_target_type_info(Some(array_info));
    assert!(a.get_target_type_info().is_some());
    assert_eq!(a.try_apply(&DynamicArray::new(vec![3, 4])), Ok(()));
    assert!(a.get_target_type_info().is_some());
}

#[test]
fn dynamic_struct_apply_stops_at_first_error() {
    let mut s: DynamicStruct<FieldValue> = DynamicStruct::new();
    s.insert("a", FieldValue::Opaque(1));
    s.insert("b", FieldValue::List(vec![1, 2, 3]));
    s.insert("c", FieldValue::Opaque(5));
    let mut other = DynamicStruct::new();
    other.insert("a", FieldValue::Opaque(10));
    other.insert("b", FieldValue::Opaque(7));
    other.insert("c", FieldValue::Opaque(50));
    assert_eq!(
        s.try_apply(&other),
        Err(ApplyError::MismatchedKinds { from_kind: ReflectKind::Opaque, to_kind: ReflectKind::List })
    );
    assert_eq!(s.field("a"), Some(&FieldValue::Opaque(10)));
    assert_eq!(s.field("b"), Some(&FieldValue::List(vec![1, 2, 3])));
    assert_eq!(s.field("c"), Some(&FieldValue::Opaque(5)));
}

#[test]
fn field_value_apply_rules() {
    let mut v = FieldValue::List(vec![1, 2, 3]);
    assert_eq!(v.kind(), ReflectKind::List);
    assert_eq!(v.try_apply(&FieldValue::List(vec![9])), Ok(()));
    assert_eq!(v, FieldValue::List(vec![9, 2, 3]));
    assert_eq!(
        v.try_apply(&FieldValue::Opaque(4)),
        Err(ApplyError::MismatchedKinds { from_kind: ReflectKind::Opaque, to_kind: ReflectKind::List })
    );
    let mut n = FieldValue::Opaque(1);
    assert_eq!(
        n.try_apply(&FieldValue::List(vec![])),
        Err(ApplyError::MismatchedKinds { from_kind: ReflectKind::List, to_kind: ReflectKind::Opaque })
    );
    assert_eq!(n.try_apply(&FieldValue::Opaque(8)), Ok(()));
    assert_eq!(n, FieldValue::Opaque(8));
}

#[test]
fn dynamic_list_and_map_apply_errors() {
    let mut l = DynamicList::new();
    l.push(FieldValue::Opaque(1));
    l.push(FieldValue::Opaque(2));
    let mut o = DynamicList::new();
    o.push(FieldValue::Opaque(3));
    o.push(FieldValue::List(vec![4]));
    o.push(FieldValue::Opaque(5));
    assert_eq!(
        l.try_apply(&o),
        Err(ApplyError::MismatchedKinds { from_kind: ReflectKind::List, to_kind: ReflectKind::Opaque })
    );
    assert_eq!(l.len(), 2);
    assert_eq!(l.get(0), Some(&FieldValue::Opaque(3)));

    let mut m: DynamicMap<String, FieldValue> = DynamicMap::new();
    m.insert("k".to_string(), FieldValue::List(vec![1]));
    m.insert("gone".to_string(), FieldValue::Opaque(0));
    let mut mo = DynamicMap::new();
    mo.insert("k".to_string(), FieldValue::Opaque(2));
    assert!(m.try_apply(&mo).is_err());
    assert_eq!(m.len(), 2);
    assert!(m.contains_key(&"gone".to_string()));

    let mut e = DynamicEnum::new("V", DynamicVariant::Tuple(vec![FieldValue::Opaque(1), FieldValue::List(vec![1])]));
    let f = DynamicEnum::new("V", DynamicVariant::Tuple(vec![FieldValue::Opaque(2), FieldValue::Opaque(3)]));
    assert_eq!(
        e.try_apply(&f),
        Err(ApplyError::MismatchedKinds { from_kind: ReflectKind::Opaque, to_kind: ReflectKind::List })
    );
    assert_eq!(e.field_at(0), Some(&FieldValue::Opaque(2)));
}

#[test]
fn dynamic_tuple_struct_apply_and_compare() {
    let mut t: DynamicTupleStruct<u32> = DynamicTupleStruct::new();
    t.insert(1);
    t.insert(2);
    let mut o = DynamicTupleStruct::new();
    o.insert(5);
    assert_eq!(t.try_apply(&o), Ok(()));
    assert_eq!(t.field(0), Some(&5));
    assert_eq!(t.field(1), Some(&2));
    assert_eq!(t.field_len(), 2);
    assert_eq!(t.reflect_partial_eq(&o), Some(false));
    o.insert(2);
    assert_eq!(t.reflect_partial_eq(&o), Some(true));
    assert!(t.get_target_type_info().is_none());
}
