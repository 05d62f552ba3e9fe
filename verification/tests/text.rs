use kaomoji_widget::text::{decimal_text, join_texts, same_text, sort_texts, text_at_most};

#[test]
fn decimal_numerals() {
    assert_eq!(decimal_text(0), "0");
    assert_eq!(decimal_text(7), "7");
    assert_eq!(decimal_text(10), "10");
    assert_eq!(decimal_text(1000), "1000");
    assert_eq!(decimal_text(u64::MAX), u64::MAX.to_string());
}

#[test]
fn sorting_matches_string_order() {
    let names: Vec<String> = ["é.png", "b", "a", "B", "ab", "", "a", "z"]
        .iter()
        .map(|s| s.to_string())
        .collect();
    let mut expected = names.clone();
    expected.sort();
    assert_eq!(sort_texts(&names), expected);
}

#[test]
fn joining_lines() {
    let lines = vec!["a".to_string(), "b".to_string(), "c".to_string()];
    assert_eq!(join_texts(&lines, "\n"), "a\nb\nc");
    assert_eq!(join_texts(&vec!["only".to_string()], ", "), "only");
    assert_eq!(join_texts(&vec![], ", "), "");
}

#[test]
fn comparing_texts() {
    assert!(text_at_most("a", "b"));
    assert!(text_at_most("a", "ab"));
    assert!(!text_at_most("ab", "a"));
    assert!(text_at_most("", ""));
    assert!(text_at_most("Z", "a"));
    assert!(same_text("kaomoji", "kaomoji"));
    assert!(!same_text("kaomoji", "kaomoj"));
}

