use brewinget::text::{decimal_string, same_text, two_digit_string};
use brewinget::order::str_le_exec;

#[test]
fn numbers() {
    assert_eq!(decimal_string(0), "0");
    assert_eq!(decimal_string(1203), "1203");
    assert_eq!(decimal_string(usize::MAX), usize::MAX.to_string());
    assert_eq!(two_digit_string(5), "05");
    assert_eq!(two_digit_string(0), "00");
    assert_eq!(two_digit_string(12), "12");
    assert_eq!(two_digit_string(255), "255");
}

#[test]
fn text_helpers() {
    assert!(same_text("x", "x"));
    assert!(!same_text("x", "xy"));
}

#[test]
fn string_order_matches_std() {
    let words = ["", "a", "ab", "b", "B", "é", "z", "aé", "ä"];
    for a in words.iter() {
        for b in words.iter() {
            assert_eq!(str_le_exec(a, b), a <= b, "{a} <= {b}");
        }
    }
}
