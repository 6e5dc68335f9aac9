use starlight::e164::{is_valid_e164, MAX_DIGITS, MIN_DIGITS};

#[test]
fn plus_alone_is_not_valid() {
    assert_eq!(is_valid_e164("+"), false);
}

#[test]
fn seven_digits_are_the_fewest() {
    assert_eq!(is_valid_e164("+1234567"), true);
    assert_eq!(is_valid_e164("+123456"), false);
    assert_eq!(MIN_DIGITS, 7);
}

#[test]
fn fifteen_digits_are_the_most() {
    assert_eq!(is_valid_e164("+123456789012345"), true);
    assert_eq!(is_valid_e164("+1234567890123456"), false);
    assert_eq!(is_valid_e164("+12345678901234567890"), false);
    assert_eq!(MAX_DIGITS, 15);
}

#[test]
fn text_without_leading_plus_is_not_valid() {
    assert_eq!(is_valid_e164(""), false);
    assert_eq!(is_valid_e164("1234567"), false);
    assert_eq!(is_valid_e164("84912345678"), false);
    assert_eq!(is_valid_e164(" +84912345678"), false);
    assert_eq!(is_valid_e164("0084912345678"), false);
}

#[test]
fn anything_but_digits_after_the_plus_is_not_valid() {
    assert_eq!(is_valid_e164("+84-912345678"), false);
    assert_eq!(is_valid_e164("+84 912345678"), false);
    assert_eq!(is_valid_e164("+84912345678 "), false);
    assert_eq!(is_valid_e164("++84912345678"), false);
    assert_eq!(is_valid_e164("+8491234567a"), false);
    assert_eq!(is_valid_e164("+849123\u{0664}5678"), false);
    assert_eq!(is_valid_e164("+84912345\u{ff16}78"), false);
}

#[test]
fn validity_is_a_matter_of_syntax_only() {
    // No calling code begins with 0, and none is 999.
    assert_eq!(is_valid_e164("+0000000"), true);
    assert_eq!(is_valid_e164("+99912345678"), true);
}
