use tsclient::types::builder::{ComponentFileBuilder, TypeBuilder};

#[test]
fn a_new_file_is_empty() {
    let file = ComponentFileBuilder::new("Foo".to_string(), 7);
    assert_eq!(file.name, "Foo");
    assert_eq!(file.hash, 7);
    assert!(file.imports.is_empty());
    assert!(file.type_defs.is_empty());
    assert_eq!(file.content, "");
    assert!(file.exports.is_empty());
}

#[test]
fn the_first_request_starts_the_file() {
    let mut builder = TypeBuilder::new();
    assert_eq!(builder.start_file("Foo", 1), Some(0));
    assert_eq!(builder.start_file("Bar", 2), Some(1));
    assert_eq!(builder.file_map.len(), 2);
    assert_eq!(builder.file_map[0].name, "Foo");
    assert_eq!(builder.file_map[0].hash, 1);
    assert_eq!(builder.file_map[1].name, "Bar");
    assert!(builder.rename_map.is_empty());
    assert_eq!(builder.find_file("Bar"), Some(1));
    assert_eq!(builder.find_file("Baz"), None);
}

#[test]
fn the_same_name_and_hash_start_nothing() {
    let mut builder = TypeBuilder::new();
    assert_eq!(builder.start_file("Foo", 1), Some(0));
    assert_eq!(builder.start_file("Foo", 1), None);
    assert_eq!(builder.file_map.len(), 1);
    assert!(builder.rename_map.is_empty());
}

#[test]
fn another_hash_under_a_taken_name_gets_the_lowest_free_number() {
    let mut builder = TypeBuilder::new();
    assert_eq!(builder.start_file("Foo", 1), Some(0));
    assert_eq!(builder.start_file("Foo", 2), Some(1));
    assert_eq!(builder.file_map[1].name, "Foo1");
    assert_eq!(builder.file_map[1].hash, 2);
    assert_eq!(builder.rename_map.get(&2), Some(&"Foo1".to_string()));
    assert_eq!(builder.start_file("Foo", 3), Some(2));
    assert_eq!(builder.file_map[2].name, "Foo2");
    assert_eq!(builder.start_file("Foo", 2), None);
    assert_eq!(builder.start_file("Foo", 3), None);
    assert_eq!(builder.start_file("Foo", 1), None);
    assert_eq!(builder.start_file("Other", 2), None);
    assert_eq!(builder.file_map.len(), 3);
    assert_eq!(builder.emitted_name("Foo", 1), "Foo");
    assert_eq!(builder.emitted_name("Foo", 2), "Foo1");
    assert_eq!(builder.emitted_name("Foo", 3), "Foo2");
    assert_eq!(builder.emitted_name("Foo", 4), "Foo");
}

#[test]
fn a_number_that_is_taken_is_passed_over() {
    let mut builder = TypeBuilder::new();
    assert_eq!(builder.start_file("Foo1", 10), Some(0));
    assert_eq!(builder.start_file("Foo", 1), Some(1));
    assert_eq!(builder.start_file("Foo3", 30), Some(2));
    assert_eq!(builder.start_file("Foo", 2), Some(3));
    assert_eq!(builder.file_map[3].name, "Foo2");
    assert_eq!(builder.start_file("Foo", 3), Some(4));
    assert_eq!(builder.file_map[4].name, "Foo4");
}

#[test]
fn numbers_go_past_nine() {
    let mut builder = TypeBuilder::new();
    for hash in 0..12u64 {
        assert_eq!(builder.start_file("N", hash), Some(hash as usize));
    }
    let names: Vec<&str> = builder.file_map.iter().map(|f| f.name.as_str()).collect();
    assert_eq!(
        names,
        vec!["N", "N1", "N2", "N3", "N4", "N5", "N6", "N7", "N8", "N9", "N10", "N11"]
    );
}

#[test]
fn a_file_is_found_by_name_and_hash() {
    let mut builder = TypeBuilder::new();
    builder.start_file("Foo", 1);
    builder.start_file("Foo", 2);
    assert_eq!(builder.get_file("Foo", 1).unwrap().name, "Foo");
    assert_eq!(builder.get_file("Foo", 2).unwrap().name, "Foo1");
    assert_eq!(builder.get_file("Bar", 2).unwrap().name, "Foo1");
    assert!(builder.get_file("Foo", 3).is_none());
    assert!(builder.get_file("Bar", 1).is_none());
    assert!(builder.get_file("Foo1", 5).is_none());
}

#[test]
fn the_import_line_climbs_to_the_output_root() {
    let mut builder = TypeBuilder::new();
    builder.start_file("Foo", 1);
    assert_eq!(
        builder.get_type_and_import("Foo", 1, 1),
        ("Foo".to_string(), "import { type Foo } from \"../dto/Foo\";".to_string())
    );
    assert_eq!(
        builder.get_type_and_import("Foo", 1, 3),
        ("Foo".to_string(), "import { type Foo } from \"../../../dto/Foo\";".to_string())
    );
    assert_eq!(
        builder.get_type_and_import("Foo", 1, 0),
        ("Foo".to_string(), "import { type Foo } from \"/dto/Foo\";".to_string())
    );
    assert_eq!(builder.get_type_and_import("string", 9, 1), ("string".to_string(), String::new()));
    assert_eq!(
        builder.get_type_and_import("Foo", 9, 2),
        ("Foo".to_string(), "import { type Foo } from \"../../dto/Foo\";".to_string())
    );
}
