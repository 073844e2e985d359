use test_helpers_end_to_end::rows::{owned_rows, rows_equal, rows_match, sort_rows};
use test_helpers_end_to_end::text::{chars_le, chars_of, chars_occur_at, text_contains};

fn chars(s: &str) -> Vec<char> {
    s.chars().collect()
}

fn owned(rows: &[&str]) -> Vec<String> {
    rows.iter().map(|row| row.to_string()).collect()
}

#[test]
fn chars_of_gives_the_characters_in_order() {
    assert_eq!(chars_of("abc"), vec!['a', 'b', 'c']);
    assert_eq!(chars_of(""), Vec::<char>::new());
    assert_eq!(chars_of("née €"), vec!['n', 'é', 'e', ' ', '€']);
}

#[test]
fn text_occurs_at_a_position() {
    assert!(chars_occur_at(&chars("hello world"), &chars("world"), 6));
    assert!(!chars_occur_at(&chars("hello world"), &chars("world"), 5));
    assert!(chars_occur_at(&chars("hello"), &chars(""), 5));
}

#[test]
fn text_contains_finds_text_anywhere() {
    assert!(text_contains("table not found: foo", "table not found"));
    assert!(text_contains("error: table not found", "table not found"));
    assert!(text_contains("an error: table not found, sorry", "table not found"));
    assert!(text_contains("same", "same"));
}

#[test]
fn text_contains_refuses_what_is_not_there() {
    assert!(!text_contains("table not found", "column not found"));
    assert!(!text_contains("short", "much longer than that"));
    assert!(!text_contains("abcab", "abd"));
    assert!(!text_contains("", "a"));
}

#[test]
fn empty_text_is_in_every_text() {
    assert!(text_contains("anything", ""));
    assert!(text_contains("", ""));
}

#[test]
fn text_contains_handles_repeats_and_other_scripts() {
    assert!(text_contains("aaab", "aab"));
    assert!(text_contains("prix: 5 €, née", "€, n"));
    assert!(!text_contains("Table", "table"));
}

#[test]
fn rows_are_ordered_character_by_character() {
    assert!(chars_le(&chars("a"), &chars("b")));
    assert!(!chars_le(&chars("b"), &chars("a")));
    assert!(chars_le(&chars("ab"), &chars("ab")));
    assert!(chars_le(&chars("abc"), &chars("abd")));
    assert!(!chars_le(&chars("abd"), &chars("abc")));
    assert!(chars_le(&chars("+---+"), &chars("| a |")));
}

#[test]
fn prefix_comes_before_what_it_begins() {
    assert!(chars_le(&chars(""), &chars("")));
    assert!(chars_le(&chars(""), &chars("a")));
    assert!(!chars_le(&chars("a"), &chars("")));
    assert!(chars_le(&chars("ab"), &chars("abc")));
    assert!(!chars_le(&chars("abc"), &chars("ab")));
}

#[test]
fn owned_rows_copies_the_literals() {
    assert_eq!(owned_rows(&vec!["b", "a"]), owned(&["b", "a"]));
    assert_eq!(owned_rows(&vec![]), Vec::<String>::new());
}

#[test]
fn sort_rows_puts_rows_in_canonical_order() {
    assert_eq!(
        sort_rows(&owned(&["| b | 2 |", "| a | 1 |", "+---+---+", "| a | 0 |"])),
        owned(&["+---+---+", "| a | 0 |", "| a | 1 |", "| b | 2 |"])
    );
    assert_eq!(sort_rows(&owned(&[])), Vec::<String>::new());
    assert_eq!(sort_rows(&owned(&["x"])), owned(&["x"]));
}

#[test]
fn sort_rows_keeps_repeated_rows() {
    assert_eq!(sort_rows(&owned(&["b", "a", "b", "a", "b"])), owned(&["a", "a", "b", "b", "b"]));
}

#[test]
fn sort_rows_agrees_with_the_order_of_strings() {
    let rows = owned(&["tag=b value=2", "tag=a value=10", "", "tag=a value=1", "étage", "z", "Z"]);
    let mut expected = rows.clone();
    expected.sort();
    assert_eq!(sort_rows(&rows), expected);
}

#[test]
fn rows_equal_compares_place_by_place() {
    assert!(rows_equal(&owned(&["a", "b"]), &owned(&["a", "b"])));
    assert!(!rows_equal(&owned(&["a", "b"]), &owned(&["b", "a"])));
    assert!(!rows_equal(&owned(&["a"]), &owned(&["a", "a"])));
    assert!(rows_equal(&owned(&[]), &owned(&[])));
}

#[test]
fn rows_match_in_any_order() {
    let actual = owned(&["tag=a value=1 time=100", "tag=b value=2 time=200", "tag=c value=3 time=300"]);
    let one = vec!["tag=a value=1 time=100", "tag=b value=2 time=200", "tag=c value=3 time=300"];
    let two = vec!["tag=c value=3 time=300", "tag=a value=1 time=100", "tag=b value=2 time=200"];
    let three = vec!["tag=b value=2 time=200", "tag=c value=3 time=300", "tag=a value=1 time=100"];
    assert!(rows_match(&one, &actual));
    assert!(rows_match(&two, &actual));
    assert!(rows_match(&three, &actual));
}

#[test]
fn rows_match_counts_repeated_rows() {
    assert!(rows_match(&vec!["a", "b", "a"], &owned(&["a", "a", "b"])));
    assert!(!rows_match(&vec!["a", "b"], &owned(&["a", "a", "b"])));
    assert!(!rows_match(&vec!["a", "b", "b"], &owned(&["a", "a", "b"])));
}

#[test]
fn rows_match_refuses_other_rows() {
    assert!(!rows_match(&vec!["a"], &owned(&["b"])));
    assert!(!rows_match(&vec!["a"], &owned(&[])));
    assert!(!rows_match(&vec![], &owned(&["a"])));
    assert!(!rows_match(&vec!["tag=a value=1"], &owned(&["tag=a  value=1"])));
    assert!(rows_match(&vec![], &owned(&[])));
}
