use dhe::text::chars_of;
use dhe::text::decimal_text;
use dhe::text::same_text;
use dhe::text::signed_decimal_text;

#[test]
fn decimal_text_is_the_usual_notation() {
    for n in [0u64, 1, 9, 10, 11, 99, 100, 255, 256, 1000, 65535, 4294967296, u64::MAX] {
        assert_eq!(decimal_text(n), n.to_string());
    }
    assert_eq!(decimal_text(7), "7");
    assert_eq!(decimal_text(1203), "1203");
}

#[test]
fn signed_decimal_text_puts_a_minus_sign() {
    for n in [0i64, 1, -1, 10, -10, 2147483647, -2147483648, i64::MAX, i64::MIN] {
        assert_eq!(signed_decimal_text(n), n.to_string());
    }
    assert_eq!(signed_decimal_text(-42), "-42");
    assert_eq!(signed_decimal_text(i64::MIN), "-9223372036854775808");
}

#[test]
fn chars_of_gives_each_character() {
    assert_eq!(chars_of(""), Vec::<char>::new());
    assert_eq!(chars_of("a*b"), vec!['a', '*', 'b']);
    assert_eq!(chars_of("дх"), vec!['д', 'х']);
}

#[test]
fn same_text_compares_letter_for_letter() {
    assert!(same_text(&[], ""));
    assert!(same_text(&['a', 'b'], "ab"));
    assert!(!same_text(&['a', 'b'], "abc"));
    assert!(!same_text(&['a', 'b', 'c'], "ab"));
    assert!(!same_text(&['a', 'b'], "aB"));
    assert!(!same_text(&[], "a"));
    assert!(!same_text(&['a'], ""));
    assert!(same_text(&['д'], "д"));
}
