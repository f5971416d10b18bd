use esruntime::text::{contains_separator, decimal, make_tag, text_eq, text_less};

#[test]
fn text_order_is_lexicographic() {
    assert!(text_less("a", "b"));
    assert!(!text_less("b", "a"));
    assert!(text_less("bet_id", "user_id"));
    assert!(text_less("ab", "abc"));
    assert!(!text_less("abc", "ab"));
    assert!(!text_less("abc", "abc"));
    assert!(text_less("", "a"));
    assert!(!text_less("", ""));
    assert!(text_less("B", "a"));
}

#[test]
fn text_order_agrees_with_str_order() {
    let samples = ["", "a", "ab", "abc", "b", "account_id", "user_id", "Z", "é", "z"];
    for x in samples {
        for y in samples {
            assert_eq!(text_less(x, y), x < y, "{x:?} < {y:?}");
        }
    }
}

#[test]
fn tag_joins_field_and_value_with_a_colon() {
    assert_eq!(make_tag("account_id", "alice"), "account_id:alice");
    assert_eq!(make_tag("f", ""), "f:");
    assert_eq!(make_tag("f", "a:b"), "f:a:b");
}

#[test]
fn separator_is_found_anywhere() {
    assert!(contains_separator("a:b"));
    assert!(contains_separator(":"));
    assert!(contains_separator("ab:"));
    assert!(!contains_separator("account_id"));
    assert!(!contains_separator(""));
}

#[test]
fn decimal_writes_numbers_without_leading_zeros() {
    assert_eq!(decimal(0), "0");
    assert_eq!(decimal(7), "7");
    assert_eq!(decimal(10), "10");
    assert_eq!(decimal(1234567890), "1234567890");
    assert_eq!(decimal(u64::MAX), "18446744073709551615");
}

#[test]
fn texts_are_equal_when_their_characters_are() {
    assert!(text_eq("", ""));
    assert!(text_eq("account_id", "account_id"));
    assert!(text_eq("é", "é"));
    assert!(!text_eq("account_id", "account_ip"));
    assert!(!text_eq("a", "ab"));
    assert!(!text_eq("ab", "a"));
    assert!(!text_eq("", "a"));
    assert!(!text_eq("e", "é"));
}
