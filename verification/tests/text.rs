use reqly::text::same_text;

#[test]
fn equal_text_is_the_same() {
    assert!(same_text("", ""));
    assert!(same_text("GET", "GET"));
    assert!(same_text("café ✓", "café ✓"));
}

#[test]
fn text_of_another_length_is_not_the_same() {
    assert!(!same_text("GET", "GETS"));
    assert!(!same_text("GET", "GE"));
    assert!(!same_text("", " "));
}

#[test]
fn text_that_differs_in_one_place_is_not_the_same() {
    assert!(!same_text("GET", "GEt"));
    assert!(!same_text("PUT", "GET"));
    assert!(!same_text("é", "e\u{301}"));
    assert!(!same_text("a\0", "a "));
}
