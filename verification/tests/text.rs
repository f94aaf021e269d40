use imgdl::text::{
    alphanumeric, equal, equal_ignoring_case, find_first, find_last, from_chars, hex, join,
    lower, parse_decimal, push_decimal, to_chars,
};

#[test]
fn numbers_are_written_and_read_in_decimal() {
    for n in [0u64, 7, 10, 99, 100, 12345, u64::MAX] {
        let mut s = String::from("n=");
        push_decimal(&mut s, n as u128);
        assert_eq!(s, format!("n={n}"));
        assert_eq!(parse_decimal(&s[2..], u64::MAX), Some(n));
    }
    assert_eq!(parse_decimal("", 9), None);
    assert_eq!(parse_decimal("+", 9), None);
    assert_eq!(parse_decimal("+5", 9), Some(5));
    assert_eq!(parse_decimal("++5", 9), None);
    assert_eq!(parse_decimal("10", 9), None);
    assert_eq!(parse_decimal("1a", 99), None);
    assert_eq!(parse_decimal("\u{0665}", 99), None);
}

#[test]
fn characters_are_found_from_both_ends() {
    let chars = to_chars("a.b.c");
    assert_eq!(find_first(&chars, '.'), 1);
    assert_eq!(find_last(&chars, '.'), Some(3));
    assert_eq!(find_first(&chars, 'x'), 5);
    assert_eq!(find_last(&chars, 'x'), None);
    assert_eq!(from_chars(&chars[2..]), "b.c");
}

#[test]
fn texts_are_compared() {
    assert!(equal("abc", "abc"));
    assert!(!equal("abc", "abd"));
    assert!(!equal("abc", "ab"));
    assert!(equal_ignoring_case("Example.COM", "eXAMPLE.com"));
    assert!(!equal_ignoring_case("\u{c9}", "\u{e9}"));
    assert!(!equal_ignoring_case("a", "ab"));
}

#[test]
fn bytes_are_written_in_hexadecimal() {
    assert_eq!(hex(&[0, 9, 10, 15, 16, 255]), "00090a0f10ff");
    assert_eq!(hex(&[]), "");
}

#[test]
fn characters_are_classified() {
    assert!(alphanumeric('a') && alphanumeric('Z') && alphanumeric('0'));
    assert!(!alphanumeric('_') && !alphanumeric('\u{e9}'));
    assert_eq!(lower('A'), 'a');
    assert_eq!(lower('\u{c9}'), '\u{c9}');
    assert_eq!(join("a", "b"), "ab");
}
