use pr_hub::text::{append_decimal, decimal_text, same_text, text_before};

#[test]
fn zero_is_written_as_one_digit() {
    assert_eq!(decimal_text(0), "0");
}

#[test]
fn single_digits_are_written_as_themselves() {
    let expected = ["0", "1", "2", "3", "4", "5", "6", "7", "8", "9"];
    for (number, text) in expected.iter().enumerate() {
        assert_eq!(decimal_text(number as i32), *text);
    }
}

#[test]
fn numbers_are_written_most_significant_digit_first() {
    assert_eq!(decimal_text(10), "10");
    assert_eq!(decimal_text(42), "42");
    assert_eq!(decimal_text(100), "100");
    assert_eq!(decimal_text(12345), "12345");
    assert_eq!(decimal_text(1_000_000_007), "1000000007");
}

#[test]
fn negative_numbers_carry_a_minus_sign() {
    assert_eq!(decimal_text(-1), "-1");
    assert_eq!(decimal_text(-10), "-10");
    assert_eq!(decimal_text(-987), "-987");
}

#[test]
fn the_limits_of_the_range_are_written_in_full() {
    assert_eq!(decimal_text(i32::MAX), "2147483647");
    assert_eq!(decimal_text(i32::MIN), "-2147483648");
}

#[test]
fn decimal_text_agrees_with_the_standard_notation() {
    let numbers = [0, 1, 9, 10, 11, 99, 100, 101, 4711, 65535, -1, -9, -10, -4711, i32::MAX, i32::MIN];
    for number in numbers {
        assert_eq!(decimal_text(number), number.to_string());
    }
}

#[test]
fn append_decimal_keeps_what_was_there() {
    let mut text = String::from("pullrequest/");
    append_decimal(&mut text, 17);
    assert_eq!(text, "pullrequest/17");
    append_decimal(&mut text, -3);
    assert_eq!(text, "pullrequest/17-3");
}

#[test]
fn same_text_compares_characters() {
    assert!(same_text("text", "text"));
    assert!(same_text("", ""));
    assert!(!same_text("text", "Text"));
    assert!(!same_text("text", "tex"));
    assert!(!same_text("", "x"));
}

#[test]
fn text_before_ends_at_the_first_mark() {
    assert_eq!(text_before("a/b/c", '/'), "a");
    assert_eq!(text_before("abc", '/'), "abc");
    assert_eq!(text_before("/abc", '/'), "");
    assert_eq!(text_before("abc/", '/'), "abc");
    assert_eq!(text_before("", '/'), "");
    assert_eq!(text_before("key=value=more", '='), "key");
    assert_eq!(text_before("äö/ü", '/'), "äö");
}
