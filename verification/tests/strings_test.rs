use hyperview::strings::{chars_of, same_text};

#[test]
fn chars_in_order() {
    assert_eq!(chars_of("Würfel"), vec!['W', 'ü', 'r', 'f', 'e', 'l']);
    assert_eq!(chars_of(""), Vec::<char>::new());
}

#[test]
fn same_text_compares_characters() {
    assert!(same_text("Top View", "Top View"));
    assert!(!same_text("Top View", "Top view"));
    assert!(!same_text("Top", "Top View"));
    assert!(same_text("", ""));
    assert!(!same_text("ä", "a"));
}
