use vct_reflect::info::{EnumInfo, ReflectKind, TypeInfo, UnitVariantInfo, VariantInfo};
use vct_reflect::ops::{
    ApplyError, DynamicEnum, DynamicSet, DynamicStruct, DynamicVariant, EnumApplyPlan, VariantShape,
    enum_apply_plan, enum_partial_eq_outcome, unhashable_message,
};

fn names(v: &[&str]) -> Vec<String> {
    v.iter().map(|s| s.to_string()).collect()
}

#[test]
fn partial_eq_outcome_rules() {
    let t2 = VariantShape::Tuple(2);
    let t1 = VariantShape::Tuple(1);
    assert_eq!(enum_partial_eq_outcome("A", &t2, None, &vec![None, None]), Some(false));
    assert_eq!(enum_partial_eq_outcome("A", &t2, Some(("B", &t2)), &vec![Some(true), Some(true)]), Some(false));
    assert_eq!(enum_partial_eq_outcome("A", &t2, Some(("A", &t2)), &vec![Some(true), Some(true)]), Some(true));
    assert_eq!(enum_partial_eq_outcome("A", &t2, Some(("A", &t2)), &vec![Some(true), None]), Some(false));
    assert_eq!(enum_partial_eq_outcome("A", &t2, Some(("A", &t1)), &vec![Some(true), Some(true)]), Some(false));
    let u = VariantShape::Unit;
    assert_eq!(enum_partial_eq_outcome("U", &u, Some(("U", &u)), &vec![]), Some(true));
    assert_eq!(enum_partial_eq_outcome("U", &u, Some(("U", &t1)), &vec![]), Some(false));
    let s = VariantShape::Struct(names(&["x", "y"]));
    let s2 = VariantShape::Struct(names(&["y", "x"]));
    let s3 = VariantShape::Struct(names(&["x"]));
    assert_eq!(enum_partial_eq_outcome("S", &s, Some(("S", &s2)), &vec![Some(true), Some(true)]), Some(true));
    assert_eq!(enum_partial_eq_outcome("S", &s, Some(("S", &s3)), &vec![Some(true), Some(true)]), Some(false));
}

#[test]
fn apply_plan_rules() {
    let s = VariantShape::Struct(names(&["a", "b"]));
    let o = VariantShape::Struct(names(&["b", "c", "a"]));
    match enum_apply_plan("V", &s, Ok(("V", &o))) {
        Ok(EnumApplyPlan::ApplyFields(pairs)) => assert_eq!(pairs, vec![(0, 1), (2, 0)]),
        other => panic!("unexpected plan {:?}", other),
    }
    let t3 = VariantShape::Tuple(3);
    let t2 = VariantShape::Tuple(2);
    match enum_apply_plan("V", &t2, Ok(("V", &t3))) {
        Ok(EnumApplyPlan::ApplyFields(pairs)) => assert_eq!(pairs, vec![(0, 0), (1, 1)]),
        other => panic!("unexpected plan {:?}", other),
    }
    match enum_apply_plan("V", &t2, Ok(("W", &t3))) {
        Ok(EnumApplyPlan::ReplaceVariant(VariantShape::Tuple(3))) => {},
        other => panic!("unexpected plan {:?}", other),
    }
    match enum_apply_plan("V", &t2, Err(ReflectKind::Struct)) {
        Err(e) => assert_eq!(e, ApplyError::MismatchedKinds { from_kind: ReflectKind::Struct, to_kind: ReflectKind::Enum }),
        other => panic!("unexpected plan {:?}", other),
    }
}

fn fields(entries: &[(&str, u32)]) -> DynamicVariant<u32> {
    let mut s = DynamicStruct::new();
    for (name, value) in entries {
        s.insert(name, *value);
    }
    DynamicVariant::Struct(s)
}

fn point(x: u32, y: u32) -> DynamicEnum<u32> {
    DynamicEnum::new("Point", fields(&[("x", x), ("y", y)]))
}

#[test]
fn dynamic_enum_apply_same_variant() {
    let mut a = point(1, 2);
    let b = DynamicEnum::new("Point", fields(&[("y", 20), ("z", 30)]));
    assert!(a.try_apply(&b).is_ok());
    assert_eq!(a.field("x"), Some(&1));
    assert_eq!(a.field("y"), Some(&20));
    assert_eq!(a.field("z"), None);
    assert_eq!(a.field_len(), 2);
}

#[test]
fn dynamic_enum_apply_other_variant() {
    let mut a = DynamicEnum::new_with_index(3, "Point", DynamicVariant::Tuple(vec![1u32, 2]));
    let b = DynamicEnum::new_with_index(7, "Pair", DynamicVariant::Tuple(vec![5u32, 6, 7]));
    assert!(a.try_apply(&b).is_ok());
    assert_eq!(a.variant_name(), "Pair");
    assert_eq!(a.variant_index(), 3);
    assert_eq!(a.field_len(), 3);
    assert_eq!(a.field_at(2), Some(&7));
    let mut c = DynamicEnum::new("Pair", DynamicVariant::Tuple(vec![0u32]));
    assert!(c.try_apply(&b).is_ok());
    assert_eq!(c.field_len(), 1);
    assert_eq!(c.field_at(0), Some(&5));
}

#[test]
fn dynamic_enum_from_ref_and_compare() {
    let a = point(1, 2);
    let b = DynamicEnum::from_ref(&a);
    assert_eq!(b.variant_name(), "Point");
    assert_eq!(b.field("y"), Some(&2));
    assert_eq!(a.reflect_partial_eq(&b), Some(true));
    let c = point(1, 3);
    assert_eq!(a.reflect_partial_eq(&c), Some(false));
    let d = DynamicEnum::new("Other", fields(&[("x", 1), ("y", 2)]));
    assert_eq!(a.reflect_partial_eq(&d), Some(false));
    let u: DynamicEnum<u32> = DynamicEnum::new("None", DynamicVariant::Unit);
    assert_eq!(u.reflect_partial_eq(&DynamicEnum::from_ref(&u)), Some(true));
}

#[test]
fn dynamic_set_holds_each_value_once() {
    let mut s: DynamicSet<String> = DynamicSet::new();
    assert!(s.is_empty());
    assert!(s.insert("a".to_string()));
    assert!(s.insert("b".to_string()));
    assert!(!s.insert("a".to_string()));
    assert_eq!(s.len(), 2);
    assert!(s.contains(&"b".to_string()));
    assert_eq!(s.get(&"a".to_string()), Some(&"a".to_string()));
    assert!(!s.remove(&"a".to_string()));
    assert!(s.remove(&"a".to_string()));
    assert!(!s.contains(&"a".to_string()));
    assert_eq!(s.len(), 1);
}

#[test]
fn dynamic_enum_applies_into_list_fields() {
    let mut a: DynamicEnum<Vec<u8>> = DynamicEnum::new("Bytes", DynamicVariant::Tuple(vec![vec![1, 2, 3], vec![4]]));
    let b = DynamicEnum::new("Bytes", DynamicVariant::Tuple(vec![vec![9], vec![5, 6]]));
    assert!(a.try_apply(&b).is_ok());
    assert_eq!(a.field_at(0), Some(&vec![9, 2, 3]));
    assert_eq!(a.field_at(1), Some(&vec![5, 6]));
}

#[test]
fn dynamic_enum_target_and_variant_setters() {
    let info: &'static TypeInfo = Box::leak(Box::new(TypeInfo::Enum(EnumInfo::new::<u8>(&[
        VariantInfo::Unit(UnitVariantInfo::new("A")),
    ]))));
    let mut e: DynamicEnum<u32> = DynamicEnum::new_with_index(2, "A", DynamicVariant::Unit);
    assert!(e.get_target_type_info().is_none());
    e.set_target_type_info(Some(info));
    let copy = DynamicEnum::from_ref(&e);
    assert!(copy.get_target_type_info().is_some());
    assert_eq!(copy.variant_index(), 2);
    e.set_variant("B", DynamicVariant::Tuple(vec![1]));
    assert_eq!(e.variant_name(), "B");
    assert_eq!(e.variant_index(), 2);
    e.set_variant_with_index(5, "C", DynamicVariant::Unit);
    assert_eq!(e.variant_index(), 5);
    if let DynamicVariant::Unit = e.variant_mut() {
    } else {
        panic!("expected a unit variant");
    }
}

#[test]
fn enum_partial_eq_on_non_enum() {
    let a = point(1, 2);
    assert_eq!(vct_reflect::ops::enum_partial_eq(&a, None), Some(false));
    assert_eq!(vct_reflect::ops::enum_partial_eq(&a, Some(&point(1, 2))), Some(true));
}

#[test]
fn unhashable_messages() {
    assert_eq!(unhashable_message("a::B", false, None), "the given value of type `a::B` does not support hashing");
    assert_eq!(unhashable_message("D", true, None), "the dynamic type `D` does not support hashing");
    assert_eq!(unhashable_message("D", true, Some("a::B")), "the dynamic type `D` (target: `a::B`) does not support hashing");
}

#[test]
fn dynamic_set_apply_takes_other_values() {
    let mut s: DynamicSet<u32> = DynamicSet::new();
    s.insert(1);
    s.insert(2);
    let mut t: DynamicSet<u32> = DynamicSet::new();
    t.insert(2);
    t.insert(3);
    assert!(s.try_apply(&t).is_ok());
    assert!(!s.contains(&1));
    assert!(s.contains(&2) && s.contains(&3));
    assert_eq!(s.len(), 2);
}

#[test]
fn dynamic_enum_struct_variant_names_once() {
    let e = DynamicEnum::new("Point", fields(&[("x", 1), ("x", 2), ("y", 3)]));
    assert_eq!(e.field_len(), 2);
    assert_eq!(e.field("x"), Some(&2));
    assert_eq!(e.field_at(1), Some(&3));
    match e.shape() {
        VariantShape::Struct(names) => assert_eq!(names, vec!["x".to_string(), "y".to_string()]),
        other => panic!("unexpected shape {:?}", other),
    }
}
