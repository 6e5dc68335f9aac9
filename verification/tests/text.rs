use starlight::text::{
    is_all_digits, is_ascii_digit, same_text, strip_non_digits_keep_plus, to_ascii_upper,
    trim_and_upper,
};

#[test]
fn sanitizer_keeps_digits_only() {
    assert_eq!(strip_non_digits_keep_plus("0912 345 678"), "0912345678");
    assert_eq!(strip_non_digits_keep_plus("(415) 555-2671"), "4155552671");
    assert_eq!(strip_non_digits_keep_plus("abc-xyz"), "");
    assert_eq!(strip_non_digits_keep_plus(""), "");
    assert_eq!(strip_non_digits_keep_plus("12\u{0663}4\u{ff15}6"), "1246");
}

#[test]
fn sanitizer_keeps_a_plus_in_first_place_only() {
    assert_eq!(strip_non_digits_keep_plus("+84 912-345-678"), "+84912345678");
    assert_eq!(strip_non_digits_keep_plus("+"), "+");
    assert_eq!(strip_non_digits_keep_plus("++1"), "+1");
    assert_eq!(strip_non_digits_keep_plus(" +84"), "84");
    assert_eq!(strip_non_digits_keep_plus("84+912"), "84912");
    assert_eq!(strip_non_digits_keep_plus("(+84)"), "84");
}

#[test]
fn sanitizing_twice_changes_nothing_more() {
    for input in ["+84 912-345-678", "0912 345 678", "++1", "a+b", "", "00 84"] {
        let once = strip_non_digits_keep_plus(input);
        assert_eq!(strip_non_digits_keep_plus(&once), once);
    }
}

#[test]
fn digits_are_told_from_other_characters() {
    for c in '0'..='9' {
        assert!(is_ascii_digit(c));
    }
    for c in ['/', ':', '+', ' ', 'a', '\u{0660}', '\u{ff10}'] {
        assert!(!is_ascii_digit(c));
    }
    assert!(is_all_digits(""));
    assert!(is_all_digits("0123456789"));
    assert!(!is_all_digits("+84"));
    assert!(!is_all_digits("84 "));
}

#[test]
fn texts_are_compared_character_by_character() {
    assert!(same_text("", ""));
    assert!(same_text("84", "84"));
    assert!(!same_text("84", "8"));
    assert!(!same_text("8", "84"));
    assert!(!same_text("84", "85"));
    assert!(!same_text("", "1"));
    assert!(same_text("Vi\u{1ec7}t", "Vi\u{1ec7}t"));
    assert!(!same_text("Vi\u{1ec7}t", "Viet"));
}

#[test]
fn upper_case_touches_ascii_letters_only() {
    assert_eq!(to_ascii_upper('a'), 'A');
    assert_eq!(to_ascii_upper('z'), 'Z');
    assert_eq!(to_ascii_upper('m'), 'M');
    assert_eq!(to_ascii_upper('A'), 'A');
    assert_eq!(to_ascii_upper('`'), '`');
    assert_eq!(to_ascii_upper('{'), '{');
    assert_eq!(to_ascii_upper('5'), '5');
    assert_eq!(to_ascii_upper('\u{e9}'), '\u{e9}');
    for c in ['a', 'q', 'Z', '1', '\u{df}', '\u{3b1}'] {
        assert_eq!(to_ascii_upper(c), c.to_ascii_uppercase());
    }
}

#[test]
fn white_space_is_trimmed_at_both_ends_only() {
    assert_eq!(trim_and_upper("  vn  "), "VN");
    assert_eq!(trim_and_upper("\t+84\r\n"), "+84");
    assert_eq!(trim_and_upper("v n"), "V N");
    assert_eq!(trim_and_upper(""), "");
    assert_eq!(trim_and_upper(" \u{a0}\u{3000} "), "");
    assert_eq!(trim_and_upper("\u{a0}sg\u{2003}"), "SG");
    assert_eq!(trim_and_upper("x"), "X");
}

#[test]
fn trimming_agrees_with_the_standard_library() {
    for s in ["  vn  ", "\u{b}us\u{c}", "\u{85}gb\u{1680}", " a b ", "\u{200b}vn", "de\u{feff}"] {
        assert_eq!(trim_and_upper(s), s.trim().to_ascii_uppercase());
    }
}
