use std::collections::hash_map::DefaultHasher;
use std::hash::Hasher;

use tsclient::types::builder::{GlobalTypeRegistry, HasIndexed};
use tsclient::types::model::{Component, Type};
use tsclient::types::{GetDefinition, TypeHolder, TypeHolderStrict, TypescriptType};
use tsclient::T1;

fn simple_component(name: &str, ts: &str, hash: u64) -> Component {
    Component {
        name: name.to_string(),
        generics: String::new(),
        typ: Type::SimpleType(ts.to_string()),
        hash,
    }
}

#[test]
fn test1() {
    let t1 = DefaultHasher::new().finish();
    let t2 = DefaultHasher::new().finish();
    let t3 = DefaultHasher::new().finish();

    println!("{} - {} - {}", t1, t2, t3);
}

#[test]
fn test() {
    let mut builder = GlobalTypeRegistry::new();

    let d1 = (&mut &TypeHolder::<String>::new()).get_definition(&mut builder);
    let d2 = (&mut &TypeHolder::<T1>::new()).get_definition(&mut builder);

    println!("{:?}", d1);
    println!("{:?}", d2);
}

#[test]
fn holders_of_described_types_give_the_handles_of_the_types() {
    let mut registry = GlobalTypeRegistry::new();
    let d1 = (&mut &TypeHolder::<String>::new()).get_definition(&mut registry);
    let d2 = (&mut &TypeHolder::<T1>::new()).get_definition(&mut registry);
    assert_eq!(d1, HasIndexed::Build(0));
    assert_eq!(d2, HasIndexed::Build(1));
    assert_eq!(registry.get_indexed(&d1).name, "String");
    assert_eq!(registry.get_indexed(&d2).name, "T1");
    let strict = (&TypeHolderStrict::<String>::new()).get_definition(&mut registry);
    assert_eq!(strict, HasIndexed::Build(0));
    assert_eq!((&mut &TypeHolder::<T1>::new()).name(), "T1");
    assert_eq!((&mut &TypeHolder::<T1>::new()).ts_name(), "T1");
}

#[test]
fn a_holder_without_a_description_is_any() {
    struct Unknown;
    let mut registry = GlobalTypeRegistry::new();
    let first = (&TypeHolder::<Unknown>::new()).get_definition(&mut registry);
    let second = (&TypeHolder::<Unknown>::new()).get_definition(&mut registry);
    assert_eq!(first, HasIndexed::Build(0));
    assert_eq!(second, first);
    assert_eq!(registry.components().len(), 1);
    assert!(matches!(registry.get_indexed(&first).typ, Type::Any));
    assert_eq!((&TypeHolder::<Unknown>::new()).name(), "any");
    assert_eq!((&TypeHolder::<Unknown>::new()).ts_name(), "any");
    assert_eq!((&TypeHolder::<Unknown>::new()).hash(&mut registry), Component::any().hash);
}

#[test]
fn a_new_registry_is_empty() {
    let registry = GlobalTypeRegistry::new();
    assert_eq!(registry.components().len(), 0);
    assert!(!registry.has(7));
    assert_eq!(registry.return_existing(7), None);
    assert!(registry.find(&HasIndexed::Build(0)).is_none());
    assert!(registry.find(&HasIndexed::Prebuild(7)).is_none());
}

#[test]
fn finalize_appends_and_records_the_index() {
    let mut registry = GlobalTypeRegistry::new();
    let a = registry.finalize(10, simple_component("A", "a", 1));
    let b = registry.finalize(20, simple_component("B", "b", 2));
    assert_eq!(a, HasIndexed::Build(0));
    assert_eq!(b, HasIndexed::Build(1));
    assert_eq!(registry.components().len(), 2);
    assert_eq!(registry.get_indexed(&a).name, "A");
    assert_eq!(registry.get_indexed(&b).name, "B");
    assert!(registry.has(10));
    assert_eq!(registry.return_existing(20), Some(HasIndexed::Build(1)));
}

#[test]
fn identity_is_stable_across_repeated_finalize() {
    let mut registry = GlobalTypeRegistry::new();
    let first = registry.finalize(10, simple_component("A", "a", 1));
    let other = registry.finalize(20, simple_component("B", "b", 2));
    let again = registry.finalize(10, simple_component("Changed", "c", 3));
    assert_eq!(first, again);
    assert_ne!(first, other);
    assert_eq!(registry.components().len(), 2);
    assert_eq!(registry.get_indexed(&again).name, "A");
    assert_eq!(registry.get_indexed(&again).hash, 1);
}

#[test]
fn get_definition_twice_gives_the_same_index() {
    let mut registry = GlobalTypeRegistry::new();
    let first = <String as TypescriptType>::get_definition(&mut registry);
    let between = <u64 as TypescriptType>::get_definition(&mut registry);
    let second = <String as TypescriptType>::get_definition(&mut registry);
    assert_eq!(first, HasIndexed::Build(0));
    assert_eq!(between, HasIndexed::Build(1));
    assert_eq!(second, first);
    assert_eq!(registry.components().len(), 2);
}

#[test]
fn a_started_key_is_spoken_of_by_its_key_until_it_is_finished() {
    let mut registry = GlobalTypeRegistry::new();
    registry.start(5);
    registry.start(5);
    assert!(registry.has(5));
    assert_eq!(registry.return_existing(5), Some(HasIndexed::Prebuild(5)));
    assert!(registry.find(&HasIndexed::Prebuild(5)).is_none());
    let other = registry.finalize(6, simple_component("Other", "o", 1));
    let done = registry.finalize(5, simple_component("Node", "n", 2));
    assert_eq!(other, HasIndexed::Build(0));
    assert_eq!(done, HasIndexed::Build(1));
    assert_eq!(registry.return_existing(5), Some(HasIndexed::Build(1)));
    assert_eq!(registry.find(&HasIndexed::Prebuild(5)).unwrap().name, "Node");
    assert_eq!(registry.get_indexed(&HasIndexed::Prebuild(5)).name, "Node");
}

#[test]
fn the_hash_guard_answers_zero_while_the_hash_is_computed() {
    let mut registry = GlobalTypeRegistry::new();
    assert_eq!(registry.start_hash(9), None);
    assert_eq!(registry.start_hash(9), Some(0));
    registry.finalize_hash(9, 1234);
    assert_eq!(registry.start_hash(9), Some(1234));
    registry.finalize_hash(9, 99);
    assert_eq!(registry.start_hash(9), Some(1234));
    assert_eq!(registry.start_hash(8), None);
    assert_eq!(registry.components().len(), 0);
}

#[test]
fn reset_forgets_everything() {
    let mut registry = GlobalTypeRegistry::new();
    registry.start(1);
    registry.finalize(1, simple_component("A", "a", 1));
    assert_eq!(registry.start_hash(1), None);
    registry.finalize_hash(1, 5);
    registry.reset();
    assert_eq!(registry.components().len(), 0);
    assert!(!registry.has(1));
    assert_eq!(registry.return_existing(1), None);
    assert_eq!(registry.start_hash(1), None);
    assert_eq!(registry.finalize(2, simple_component("B", "b", 2)), HasIndexed::Build(0));
}

#[test]
fn an_index_past_the_end_finds_nothing() {
    let mut registry = GlobalTypeRegistry::new();
    registry.finalize(1, simple_component("A", "a", 1));
    assert!(registry.find(&HasIndexed::Build(0)).is_some());
    assert!(registry.find(&HasIndexed::Build(1)).is_none());
}
