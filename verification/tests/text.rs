use tsclient::text::{
    capitalize_first_letter, clean_var_name, decimal_string, is_blank, join, replace_braces,
    same_text, split_segments, strip_field_marks, strip_prefix, strip_suffix,
};

#[test]
fn numbers_are_written_in_decimal() {
    assert_eq!(decimal_string(0), "0");
    assert_eq!(decimal_string(7), "7");
    assert_eq!(decimal_string(10), "10");
    assert_eq!(decimal_string(12345), "12345");
    assert_eq!(decimal_string(1009), "1009");
    assert_eq!(decimal_string(usize::MAX), usize::MAX.to_string());
}

#[test]
fn join_puts_the_separator_between_neighbours() {
    let none: Vec<String> = Vec::new();
    assert_eq!(join(&none, ", "), "");
    assert_eq!(join(&vec!["a".to_string()], ", "), "a");
    assert_eq!(join(&vec!["a".to_string(), "b".to_string(), "c".to_string()], ", "), "a, b, c");
    assert_eq!(join(&vec!["".to_string(), "".to_string()], "/"), "/");
}

#[test]
fn a_clean_name_keeps_only_word_characters() {
    assert_eq!(clean_var_name("Test3"), "Test3");
    assert_eq!(clean_var_name("Array<Test>"), "ArrayTest");
    assert_eq!(clean_var_name("post[id]"), "postid");
    assert_eq!(clean_var_name("a_b c-d"), "a_bcd");
    assert_eq!(clean_var_name("<>"), "");
    assert_eq!(clean_var_name("größe"), "gre");
}

#[test]
fn the_first_letter_is_capitalised() {
    assert_eq!(capitalize_first_letter("test"), "Test");
    assert_eq!(capitalize_first_letter("Test"), "Test");
    assert_eq!(capitalize_first_letter("z"), "Z");
    assert_eq!(capitalize_first_letter(""), "");
    assert_eq!(capitalize_first_letter("[id]"), "[id]");
    assert_eq!(capitalize_first_letter("1a"), "1a");
    assert_eq!(capitalize_first_letter("élan"), "élan");
}

#[test]
fn field_marks_are_dropped() {
    assert_eq!(strip_field_marks(".field"), "field");
    assert_eq!(strip_field_marks("[12]"), "12");
    assert_eq!(strip_field_marks(".a[0].b"), "a0b");
    assert_eq!(strip_field_marks(""), "");
}

#[test]
fn braces_become_square_brackets() {
    assert_eq!(replace_braces("/items/{id}"), "/items/[id]");
    assert_eq!(replace_braces("{a}{b}"), "[a][b]");
    assert_eq!(replace_braces("/plain"), "/plain");
}

#[test]
fn prefixes_and_suffixes_are_removed_where_present() {
    assert_eq!(strip_prefix("/api/test", "/api"), "/test");
    assert_eq!(strip_prefix("/other/test", "/api"), "/other/test");
    assert_eq!(strip_prefix("/api", "/api"), "");
    assert_eq!(strip_prefix("/a", "/api"), "/a");
    assert_eq!(strip_prefix("abc", ""), "abc");
    assert_eq!(strip_suffix("test.ts", ".ts"), "test");
    assert_eq!(strip_suffix("test.js", ".ts"), "test.js");
    assert_eq!(strip_suffix(".ts", ".ts"), "");
    assert_eq!(strip_suffix("ts", ".ts"), "ts");
}

#[test]
fn blank_texts_hold_only_white_space() {
    assert!(is_blank(""));
    assert!(is_blank("  \t\n"));
    assert!(is_blank("\u{a0}\u{3000}"));
    assert!(!is_blank(" a "));
    assert!(!is_blank("\u{200b}"));
}

#[test]
fn a_path_is_split_at_its_slashes() {
    let none: Vec<String> = Vec::new();
    assert_eq!(split_segments(""), none);
    assert_eq!(split_segments("/"), none);
    assert_eq!(split_segments("/api/test"), vec!["api", "test"]);
    assert_eq!(split_segments("api//test/"), vec!["api", "test"]);
    assert_eq!(split_segments("/test/deep/and/nested"), vec!["test", "deep", "and", "nested"]);
    assert_eq!(split_segments("/ /x"), vec![" ", "x"]);
}

#[test]
fn texts_are_compared_by_their_characters() {
    assert!(same_text("Ok", "Ok"));
    assert!(!same_text("Ok", "ok"));
    assert!(!same_text("Ok", "Ok "));
    assert!(same_text("", ""));
}
