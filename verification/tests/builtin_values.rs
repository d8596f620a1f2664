use mers_libs::lang::builtin_values::{
    string_concat, contains, ends_with, index_of, int_div, int_mod, int_pow, list_get, list_insert, list_pop, list_push,
    list_remove, regex, replace, starts_with, string_get, string_len, substring,
};

#[test]
fn index_of_counts_characters() {
    assert_eq!(index_of("hello", "l"), Some(2));
    assert_eq!(index_of("héllo", "l"), Some(2));
    assert_eq!(index_of("abc", ""), Some(0));
    assert_eq!(index_of("", ""), None);
    assert_eq!(index_of("abc", "x"), None);
    assert_eq!(index_of("ab", "abc"), None);
}

#[test]
fn contains_starts_and_ends() {
    assert!(contains("abc", "bc"));
    assert!(contains("abc", ""));
    assert!(!contains("abc", "cb"));
    assert!(starts_with("abc", "ab"));
    assert!(!starts_with("abc", "b"));
    assert!(ends_with("abc", "bc"));
    assert!(!ends_with("abc", "abcd"));
    assert!(ends_with("abc", ""));
}

#[test]
fn replace_agrees_with_str_replace() {
    let cases = [
        ("a-b-c", "-", "+"),
        ("aaa", "aa", "b"),
        ("ab", "", "x"),
        ("", "", "x"),
        ("héllo wörld", "ö", "oe"),
        ("abc", "abcd", "z"),
        ("xyz", "y", ""),
    ];
    for (s, p, w) in cases {
        assert_eq!(replace(s, p, w), s.replace(p, w));
    }
    assert_eq!(replace("ab", "", "x"), "xaxbx");
}

#[test]
fn substring_start_and_end() {
    assert_eq!(substring("hello", 1, Some(3)), "el");
    assert_eq!(substring("hello", -2, None), "llo");
    assert_eq!(substring("hello", 0, Some(-2)), "he");
    assert_eq!(substring("hello", 4, Some(2)), "");
    assert_eq!(substring("hello", 10, None), "");
    assert_eq!(substring("hello", 2, Some(100)), "llo");
}

#[test]
fn integer_mod_and_pow() {
    assert_eq!(int_mod(-7, 2), -1);
    assert_eq!(int_mod(7, -2), 1);
    assert_eq!(int_mod(9, 3), 0);
    assert_eq!(int_pow(2, 10), 1024);
    assert_eq!(int_pow(-3, 3), -27);
    assert_eq!(int_pow(5, 0), 1);
    assert_eq!(int_pow(5, -1), 0);
    assert_eq!(int_pow(2, 4294967296), 1);
    assert_eq!(int_pow(-1, 1001), -1);
}

#[test]
fn list_operations() {
    let mut v = vec![1, 2, 3];
    assert_eq!(list_get(&v, 1), Some(&2));
    assert_eq!(list_get(&v, -1), None);
    assert_eq!(list_get(&v, 3), None);
    assert_eq!(list_remove(&mut v, 0), Some(1));
    assert_eq!(list_remove(&mut v, 5), None);
    assert_eq!(v, vec![2, 3]);
    list_insert(&mut v, 1, 9);
    assert_eq!(v, vec![2, 9, 3]);
    list_push(&mut v, 4);
    assert_eq!(list_pop(&mut v), Some(4));
    assert_eq!(v, vec![2, 9, 3]);
    let mut e: Vec<i32> = vec![];
    assert_eq!(list_pop(&mut e), None);
}

#[test]
fn strings_as_containers() {
    assert_eq!(string_get("héllo", 1), Some("é".to_string()));
    assert_eq!(string_get("abc", 3), None);
    assert_eq!(string_get("abc", -1), None);
    assert_eq!(string_len("é"), 2);
}

#[test]
fn regex_matches_or_reports_the_pattern_error() {
    assert_eq!(regex("a1b22c333", "[0-9]+"), Ok(vec!["1".to_string(), "22".to_string(), "333".to_string()]));
    assert_eq!(regex("abc", "x"), Ok(vec![]));
    assert!(regex("abc", "(").is_err());
}

#[test]
fn integer_division_rounds_toward_zero() {
    assert_eq!(int_div(7, 2), 3);
    assert_eq!(int_div(-7, 2), -3);
    assert_eq!(int_div(7, -2), -3);
    assert_eq!(int_div(-7, -2), 3);
    assert_eq!(int_div(isize::MIN, 1), isize::MIN);
}

#[test]
fn strings_are_added_by_joining() {
    assert_eq!(string_concat("ab", "cd"), "abcd");
    assert_eq!(string_concat("", "é"), "é");
}
