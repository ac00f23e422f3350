use pack_pipeline::text::{
    chars_of, decimal_of, find_first, find_past_last, same_text, trim_text,
};

#[test]
fn chars_of_keeps_every_character() {
    assert_eq!(chars_of("héllo"), vec!['h', 'é', 'l', 'l', 'o']);
    assert_eq!(chars_of(""), Vec::<char>::new());
}

#[test]
fn same_text_compares_contents() {
    assert!(same_text("abc", "abc"));
    assert!(!same_text("abc", "abd"));
    assert!(!same_text("abc", "ab"));
    assert!(same_text("", ""));
}

#[test]
fn find_first_gives_position_or_length() {
    let v = chars_of("a?b?c");
    assert_eq!(find_first(&v, '?'), 1);
    assert_eq!(find_first(&v, 'a'), 0);
    assert_eq!(find_first(&v, 'z'), 5);
    assert_eq!(find_first(&Vec::new(), 'z'), 0);
}

#[test]
fn find_past_last_gives_position_or_zero() {
    let v = chars_of("a/b/c");
    assert_eq!(find_past_last(&v, '/'), 4);
    assert_eq!(find_past_last(&v, 'c'), 5);
    assert_eq!(find_past_last(&v, 'z'), 0);
    assert_eq!(find_past_last(&Vec::new(), 'z'), 0);
}

#[test]
fn trim_takes_white_space_from_both_ends_only() {
    assert_eq!(trim_text("  a b \n"), "a b");
    assert_eq!(trim_text("a b"), "a b");
    assert_eq!(trim_text(" \t\r\n "), "");
    assert_eq!(trim_text(""), "");
    assert_eq!(trim_text("\u{3000}x\u{00a0}"), "x");
    assert_eq!(trim_text("x "), "x");
    assert_eq!(trim_text(" x"), "x");
}

#[test]
fn decimal_writes_numbers_without_leading_zeros() {
    assert_eq!(decimal_of(0), "0");
    assert_eq!(decimal_of(7), "7");
    assert_eq!(decimal_of(10), "10");
    assert_eq!(decimal_of(404), "404");
    assert_eq!(decimal_of(1234567890), "1234567890");
    assert_eq!(decimal_of(u64::MAX), "18446744073709551615");
}

#[test]
fn decimal_agrees_with_the_standard_formatting() {
    for n in [1u64, 9, 11, 99, 100, 101, 999, 1000, 65535, 102_400, 4_294_967_296] {
        assert_eq!(decimal_of(n), format!("{}", n));
    }
}
