use std::any::TypeId;
use vct_reflect::registry::TypeRegistry;

fn ids() -> (TypeId, TypeId, TypeId) {
    (TypeId::of::<u8>(), TypeId::of::<u16>(), TypeId::of::<String>())
}

#[test]
fn empty_registry_knows_nothing() {
    let reg: TypeRegistry<&str> = TypeRegistry::empty();
    let (a, _, _) = ids();
    assert!(!reg.contains(a));
    assert!(reg.get(a).is_none());
    assert!(reg.get_with_type_path("u8").is_none());
    assert!(reg.get_with_type_name("u8").is_none());
    assert!(!reg.is_ambiguous("u8"));
    assert_eq!(reg.iter().count(), 0);
}

#[test]
fn try_add_registers_once() {
    let mut reg = TypeRegistry::empty();
    let (a, _, _) = ids();
    assert!(reg.try_add_type_traits(a, "u8", "u8", "first"));
    assert!(!reg.try_add_type_traits(a, "other::u8", "u8x", "second"));
    assert!(reg.contains(a));
    assert_eq!(reg.get(a), Some(&"first"));
    assert_eq!(reg.get_with_type_path("u8"), Some(&"first"));
    assert!(reg.get_with_type_path("other::u8").is_none());
    assert_eq!(reg.get_with_type_name("u8"), Some(&"first"));
    assert!(reg.get_with_type_name("u8x").is_none());
}

#[test]
fn insert_overwrites_value_but_keeps_names() {
    let mut reg = TypeRegistry::empty();
    let (a, b, _) = ids();
    reg.insert_type_traits(a, "core::u8", "u8", "one");
    reg.insert_type_traits(a, "elsewhere::u8", "byte", "two");
    assert_eq!(reg.get(a), Some(&"two"));
    assert_eq!(reg.get_with_type_path("core::u8"), Some(&"two"));
    assert!(reg.get_with_type_path("elsewhere::u8").is_none());
    assert!(reg.get_with_type_name("byte").is_none());
    reg.insert_type_traits(b, "core::u16", "u16", "three");
    assert_eq!(reg.get_with_type_name("u16"), Some(&"three"));
}

#[test]
fn shared_short_name_is_ambiguous() {
    let mut reg = TypeRegistry::empty();
    let (a, b, c) = ids();
    assert!(reg.try_add_type_traits(a, "first::Foo", "Foo", "a"));
    assert!(!reg.is_ambiguous("Foo"));
    assert_eq!(reg.get_with_type_name("Foo"), Some(&"a"));
    assert!(reg.try_add_type_traits(b, "second::Foo", "Foo", "b"));
    assert!(reg.is_ambiguous("Foo"));
    assert!(reg.get_with_type_name("Foo").is_none());
    assert!(reg.try_add_type_traits(c, "third::Foo", "Foo", "c"));
    assert!(reg.is_ambiguous("Foo"));
    assert!(reg.get_with_type_name("Foo").is_none());
    assert_eq!(reg.get_with_type_path("first::Foo"), Some(&"a"));
    assert_eq!(reg.get_with_type_path("second::Foo"), Some(&"b"));
    assert_eq!(reg.get_with_type_path("third::Foo"), Some(&"c"));
}

#[test]
fn newest_type_under_a_path_wins() {
    let mut reg = TypeRegistry::empty();
    let (a, b, _) = ids();
    assert!(reg.try_add_type_traits(a, "same::Path", "A", "a"));
    assert!(reg.try_add_type_traits(b, "same::Path", "B", "b"));
    assert_eq!(reg.get_with_type_path("same::Path"), Some(&"b"));
    assert_eq!(reg.get_with_type_name("A"), Some(&"a"));
    assert_eq!(reg.get_with_type_name("B"), Some(&"b"));
}

#[test]
fn values_change_in_place() {
    let mut reg = TypeRegistry::empty();
    let (a, b, c) = ids();
    assert!(reg.try_add_type_traits(a, "u8", "u8", 1u32));
    assert!(reg.try_add_type_traits(b, "u16", "u16", 2u32));
    *reg.get_mut(a).expect("registered") += 10;
    *reg.get_with_type_path_mut("u16").expect("registered") += 20;
    *reg.get_with_type_name_mut("u8").expect("registered") += 100;
    assert!(reg.get_mut(c).is_none());
    assert!(reg.get_with_type_path_mut("nowhere").is_none());
    assert!(reg.get_with_type_name_mut("nowhere").is_none());
    assert_eq!(reg.get(a), Some(&111));
    assert_eq!(reg.get(b), Some(&22));
    let values: Vec<u32> = reg.iter().copied().collect();
    assert_eq!(values, vec![111, 22]);
}

#[test]
fn every_registered_type_is_found() {
    let mut reg = TypeRegistry::empty();
    let (a, b, c) = ids();
    assert!(reg.try_add_type_traits(a, "m::A", "A", 1u8));
    assert!(reg.try_add_type_traits(b, "m::B", "Shared", 2u8));
    assert!(reg.try_add_type_traits(c, "n::C", "Shared", 3u8));
    assert_eq!(reg.get_with_type_path("m::A"), Some(&1));
    assert_eq!(reg.get_with_type_path("m::B"), Some(&2));
    assert_eq!(reg.get_with_type_path("n::C"), Some(&3));
    assert_eq!(reg.get_with_type_name("A"), Some(&1));
    assert!(!reg.is_ambiguous("A"));
    assert!(reg.is_ambiguous("Shared"));
}
