use spider_node::text::{
    chars_of, decimal_chars, has_char, remove_all, same_text, signed_decimal_chars, string_of,
};

fn removed(text: &str, pattern: &str) -> String {
    string_of(&remove_all(&chars_of(text), &chars_of(pattern)))
}

#[test]
fn strings_and_characters_convert_both_ways() {
    assert_eq!(chars_of("aé🦄"), vec!['a', 'é', '🦄']);
    assert_eq!(string_of(&vec!['a', 'é', '🦄']), "aé🦄");
    assert_eq!(chars_of(""), Vec::<char>::new());
}

#[test]
fn finds_characters_and_compares_texts() {
    assert!(has_char(&chars_of("a.b"), '.'));
    assert!(!has_char(&chars_of("ab"), '.'));
    assert!(same_text(&chars_of("ab"), &chars_of("ab")));
    assert!(!same_text(&chars_of("ab"), &chars_of("abc")));
    assert!(!same_text(&chars_of("ab"), &chars_of("aB")));
}

#[test]
fn removes_every_occurrence_from_left_to_right() {
    assert_eq!(removed("http://a/http://b", "http://"), "a/b");
    assert_eq!(removed("aaa", "aa"), "a");
    assert_eq!(removed("abc", "x"), "abc");
    assert_eq!(removed("hthttp://tp://", "http://"), "http://");
}

#[test]
fn writes_numbers_in_decimal() {
    for n in [0, 7, 10, 905, u32::MAX] {
        assert_eq!(string_of(&decimal_chars(n)), n.to_string());
    }
    for n in [0, 7, -1, -120, i32::MIN, i32::MAX] {
        assert_eq!(string_of(&signed_decimal_chars(n)), n.to_string());
    }
}
