use edna_server::decimal::{decimal, push_decimal};
use edna_server::text::{chars_of, contains_text, join};

#[test]
fn decimal_of_zero() {
    assert_eq!(decimal(0), "0");
}

#[test]
fn decimal_of_numbers() {
    assert_eq!(decimal(7), "7");
    assert_eq!(decimal(10), "10");
    assert_eq!(decimal(1234567), "1234567");
    assert_eq!(decimal(u128::MAX), u128::MAX.to_string());
}

#[test]
fn push_decimal_appends() {
    let mut s = String::from("n=");
    push_decimal(&mut s, 305);
    assert_eq!(s, "n=305");
}

#[test]
fn distinct_numbers_distinct_numerals() {
    let all: Vec<String> = (0..1000u128).map(decimal).collect();
    let mut sorted = all.clone();
    sorted.sort();
    sorted.dedup();
    assert_eq!(sorted.len(), all.len());
}

#[test]
fn join_several() {
    let parts = vec!["a".to_string(), "bc".to_string(), "d".to_string()];
    assert_eq!(join(&parts, ", "), "a, bc, d");
}

#[test]
fn join_one_and_none() {
    assert_eq!(join(&vec!["only".to_string()], ","), "only");
    assert_eq!(join(&vec![], ","), "");
    assert_eq!(join(&vec!["".to_string(), "".to_string()], ","), ",");
}

#[test]
fn chars_of_unicode() {
    assert_eq!(chars_of("comté"), vec!['c', 'o', 'm', 't', 'é']);
    assert_eq!(chars_of(""), Vec::<char>::new());
}

#[test]
fn contains_text_found() {
    assert!(contains_text("hello", "ll"));
    assert!(contains_text("hello", "hello"));
    assert!(contains_text("hello", "o"));
    assert!(contains_text("hello", ""));
    assert!(contains_text("lec0q0new_answer_user_1", "new_answer"));
}

#[test]
fn contains_text_not_found() {
    assert!(!contains_text("hello", "lo!"));
    assert!(!contains_text("ab", "abc"));
    assert!(!contains_text("", "a"));
    assert!(!contains_text("new_answe", "new_answer"));
}
