use std::collections::hash_map::DefaultHasher;
use std::hash::{Hash, Hasher};

use tsclient::types::hashing::{hash_name, hash_structure};
use tsclient::types::model::Component;

fn std_hash_of_texts_and_numbers(texts: &[&str], pairs: &[(&str, u64)]) -> u64 {
    let mut hasher = DefaultHasher::new();
    for text in texts {
        text.hash(&mut hasher);
    }
    for (name, hash) in pairs {
        name.hash(&mut hasher);
        hash.hash(&mut hasher);
    }
    hasher.finish()
}

#[test]
fn the_hash_of_a_name_is_the_standard_hash_of_the_text() {
    assert_eq!(hash_name("any"), std_hash_of_texts_and_numbers(&["any"], &[]));
    assert_eq!(hash_name(""), std_hash_of_texts_and_numbers(&[""], &[]));
    assert_eq!(hash_name("Überraschung"), std_hash_of_texts_and_numbers(&["Überraschung"], &[]));
    assert_ne!(hash_name("any"), hash_name("anz"));
    assert_ne!(hash_name("any"), DefaultHasher::new().finish());
}

#[test]
fn the_any_component_is_hashed_from_its_name() {
    let any = Component::any();
    assert_eq!(any.name, "any");
    assert_eq!(any.generics, "");
    assert_eq!(any.hash, hash_name("any"));
}

#[test]
fn a_structure_is_hashed_from_kind_name_and_children_in_order() {
    let children = vec![("String".to_string(), 11u64), ("u64".to_string(), 22u64)];
    let expected = std_hash_of_texts_and_numbers(
        &["enum", "Result"],
        &[("String", 11), ("u64", 22)],
    );
    let low_byte_first = u16::from_ne_bytes([1, 0]) == 1;
    if low_byte_first {
        assert_eq!(hash_structure("enum", "Result", &children), expected);
    }
    assert_eq!(
        hash_structure("enum", "Result", &Vec::new()),
        std_hash_of_texts_and_numbers(&["enum", "Result"], &[])
    );
}

#[test]
fn equal_structures_have_equal_hashes() {
    let first = vec![("a".to_string(), 1u64), ("b".to_string(), 2u64)];
    let second = vec![("a".to_string(), 1u64), ("b".to_string(), 2u64)];
    assert_eq!(
        hash_structure("Struct", "Point", &first),
        hash_structure("Struct", "Point", &second)
    );
}

#[test]
fn the_order_of_the_fields_changes_the_hash() {
    let first = vec![("a".to_string(), 1u64), ("b".to_string(), 2u64)];
    let swapped = vec![("b".to_string(), 2u64), ("a".to_string(), 1u64)];
    assert_ne!(
        hash_structure("Struct", "Point", &first),
        hash_structure("Struct", "Point", &swapped)
    );
}

#[test]
fn kind_name_and_children_each_change_the_hash() {
    let children = vec![("a".to_string(), 1u64)];
    let base = hash_structure("Struct", "Point", &children);
    assert_ne!(base, hash_structure("Enum", "Point", &children));
    assert_ne!(base, hash_structure("Struct", "Line", &children));
    assert_ne!(base, hash_structure("Struct", "Point", &vec![("a".to_string(), 2u64)]));
    assert_ne!(base, hash_structure("Struct", "Point", &vec![("b".to_string(), 1u64)]));
    assert_ne!(base, hash_structure("Struct", "Point", &Vec::new()));
    assert_ne!(hash_structure("ab", "c", &Vec::new()), hash_structure("a", "bc", &Vec::new()));
}
