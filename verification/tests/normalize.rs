use starlight::{
    detect_country, is_valid_e164, normalize_phone, normalize_vn_phone, PhoneNumber,
};

#[test]
fn normalize_vietnamese_numbers() {
    let vn1 = normalize_vn_phone("0912 345 678").unwrap();
    assert_eq!(vn1, "+84912345678");

    let vn2 = normalize_vn_phone("+84 912-345-678").unwrap();
    assert_eq!(vn2, "+84912345678");

    let vn3 = normalize_vn_phone("0084 912 345 678").unwrap();
    assert_eq!(vn3, "+84912345678");

    // Landline-like patterns should also normalize (lengths may vary by area code)
    let vn4 = normalize_vn_phone("028 3822 8899").unwrap();
    assert!(is_valid_e164(&vn4));
    assert!(vn4.starts_with("+84"));
}

#[test]
fn normalize_other_countries() {
    // US
    let us = normalize_phone("(415) 555-2671", "US").unwrap();
    assert_eq!(us.e164, "+14155552671");
    assert_eq!(detect_country(&us.e164).unwrap(), "US");

    // Singapore
    let sg = normalize_phone("9123 4567", "SG").unwrap();
    assert_eq!(sg.e164, "+6591234567");
    assert_eq!(detect_country(&sg.e164).unwrap(), "SG");

    // Using international '00' prefix should ignore default country
    let intl = normalize_phone("0084 912 345 678", "US").unwrap();
    assert_eq!(intl.e164, "+84912345678");
    assert_eq!(detect_country(&intl.e164).unwrap(), "VN");
}

#[test]
fn rejects_invalid_numbers() {
    // Not a number
    assert!(normalize_phone("abc-xyz", "VN").is_none());
    // Invalid E.164 characters
    assert!(!is_valid_e164("+84-912345678"));
}

fn number(raw: &str, e164: &str, code: &str, national: &str, iso: Option<&'static str>) -> PhoneNumber {
    PhoneNumber {
        raw: raw.to_string(),
        e164: e164.to_string(),
        country_code: code.to_string(),
        national_number: national.to_string(),
        iso_country: iso,
    }
}

#[test]
fn vietnamese_national_number_in_full() {
    assert_eq!(
        normalize_phone("0912 345 678", "VN"),
        Some(number("0912 345 678", "+84912345678", "84", "912345678", Some("VN")))
    );
}

#[test]
fn plus_form_gives_same_number_as_national_form() {
    let national = normalize_phone("0912 345 678", "VN").unwrap();
    let plus = normalize_phone("+84 912-345-678", "VN").unwrap();
    assert_eq!(plus.e164, national.e164);
    assert_eq!(plus.country_code, "84");
    assert_eq!(plus.national_number, "912345678");
    assert_eq!(plus.iso_country, Some("VN"));
    assert_eq!(plus.raw, "+84 912-345-678");
}

#[test]
fn double_zero_prefix_gives_same_number_as_national_form() {
    let national = normalize_phone("0912 345 678", "VN").unwrap();
    let prefixed = normalize_phone("0084 912 345 678", "VN").unwrap();
    assert_eq!(prefixed.e164, national.e164);
    assert_eq!(prefixed.country_code, "84");
    assert_eq!(prefixed.national_number, "912345678");
    assert_eq!(prefixed.iso_country, Some("VN"));
}

#[test]
fn double_zero_prefix_keeps_the_input_as_raw() {
    let prefixed = normalize_phone("0084 912 345 678", "VN").unwrap();
    assert_eq!(prefixed.raw, "0084 912 345 678");
}

#[test]
fn us_number_in_full() {
    assert_eq!(
        normalize_phone("(415) 555-2671", "US"),
        Some(number("(415) 555-2671", "+14155552671", "1", "4155552671", Some("US")))
    );
}

#[test]
fn singapore_number_in_full() {
    assert_eq!(
        normalize_phone("9123 4567", "SG"),
        Some(number("9123 4567", "+6591234567", "65", "91234567", Some("SG")))
    );
}

#[test]
fn input_without_digits_gives_nothing() {
    assert_eq!(normalize_phone("abc-xyz", "VN"), None);
    assert_eq!(normalize_phone("", "VN"), None);
    assert_eq!(normalize_phone("+", "VN"), None);
    assert_eq!(normalize_phone("   ", "US"), None);
}

#[test]
fn double_zero_input_drops_no_further_zero() {
    // "00" is the international prefix, "91" the calling code of India, which
    // uses no trunk zero: every other digit stays.
    let p = normalize_phone("00912345678", "VN").unwrap();
    assert_eq!(p.e164, "+912345678");
    assert_eq!(p.country_code, "91");
    assert_eq!(p.national_number, "2345678");
    assert_eq!(p.iso_country, Some("IN"));
}

#[test]
fn only_one_trunk_zero_is_dropped_after_calling_code() {
    let one = normalize_phone("+84 0912 345 678", "VN").unwrap();
    assert_eq!(one.e164, "+84912345678");
    assert_eq!(one.national_number, "912345678");

    let two = normalize_phone("+84 00912 345 678", "VN").unwrap();
    assert_eq!(two.e164, "+840912345678");
    assert_eq!(two.national_number, "0912345678");
}

#[test]
fn only_one_trunk_zero_is_dropped_in_national_form() {
    // Great Britain uses a trunk zero; the digits do not begin with "00".
    let p = normalize_phone("020 7946 0958", "GB").unwrap();
    assert_eq!(p.e164, "+442079460958");
    assert_eq!(p.national_number, "2079460958");
}

#[test]
fn trunk_zero_stays_for_country_without_one() {
    // The United States dial no trunk zero: a leading zero is part of the number.
    let p = normalize_phone("0415 555 2671", "US").unwrap();
    assert_eq!(p.e164, "+104155552671");
    assert_eq!(p.national_number, "04155552671");

    let q = normalize_phone("+1 0415 555 2671", "VN").unwrap();
    assert_eq!(q.e164, "+104155552671");
}

#[test]
fn valid_e164_is_returned_unchanged_whatever_the_hint() {
    for hint in ["VN", "US", "", "??", "+65", "886"] {
        for x in ["+84912345678", "+14155552671", "+6591234567", "+85212345678", "+79161234567"] {
            let p = normalize_phone(x, hint).unwrap();
            assert_eq!(p.e164, x);
            assert_eq!(p.raw, x);
        }
    }
}

#[test]
fn valid_e164_with_unknown_calling_code_gives_nothing() {
    assert!(is_valid_e164("+0123456"));
    assert_eq!(normalize_phone("+0123456", "VN"), None);
    assert!(is_valid_e164("+2125551234"));
    assert_eq!(normalize_phone("+2125551234", "US"), None);
}

#[test]
fn plus_elsewhere_than_in_first_place_is_dropped() {
    let p = normalize_phone("0912+345+678", "VN").unwrap();
    assert_eq!(p.e164, "+84912345678");
    // A plus sign after a space is not in first place: the national form it is.
    let q = normalize_phone(" +84912345678", "VN").unwrap();
    assert_eq!(q.e164, "+8484912345678");
}

#[test]
fn hint_forms_are_understood() {
    for hint in ["VN", "vn", " Vn ", "84", "+84", "\t+84\n"] {
        let p = normalize_phone("0912 345 678", hint).unwrap();
        assert_eq!(p.e164, "+84912345678");
        assert_eq!(p.country_code, "84");
        assert_eq!(p.iso_country, Some("VN"));
    }
}

#[test]
fn hint_keeps_the_country_it_names() {
    let ca = normalize_phone("(416) 555-0123", "CA").unwrap();
    assert_eq!(ca.e164, "+14165550123");
    assert_eq!(ca.country_code, "1");
    assert_eq!(ca.iso_country, Some("CA"));

    let by_code = normalize_phone("(416) 555-0123", "1").unwrap();
    assert_eq!(by_code.iso_country, Some("US"));
    assert_eq!(detect_country(&ca.e164), Some("US"));
}

#[test]
fn unknown_hint_gives_nothing() {
    for hint in ["", "XX", "V N", "840", "+", "+8400", "2", "+2", "VNM", "0084"] {
        assert_eq!(normalize_phone("0912 345 678", hint), None);
    }
}

#[test]
fn result_that_is_not_valid_e164_gives_nothing() {
    // Too few digits.
    assert_eq!(normalize_phone("1234", "VN"), None);
    assert_eq!(normalize_phone("+84123", "VN"), None);
    // Too many digits.
    assert_eq!(normalize_phone("1234567890123456", "SG"), None);
    assert_eq!(normalize_phone("+841234567890123456", "SG"), None);
    // Nothing but the trunk zero.
    assert_eq!(normalize_phone("0", "VN"), None);
}

#[test]
fn shortest_and_longest_numbers_pass() {
    // 7 digits in all: calling code 1 and six more.
    let short = normalize_phone("234567", "US").unwrap();
    assert_eq!(short.e164, "+1234567");
    // 15 digits in all.
    let long = normalize_phone("12345678901234", "US").unwrap();
    assert_eq!(long.e164, "+112345678901234");
    assert_eq!(normalize_phone("123456789012345", "US"), None);
}

#[test]
fn longest_calling_code_wins() {
    let hk = normalize_phone("+852 1234 5678", "VN").unwrap();
    assert_eq!(hk.country_code, "852");
    assert_eq!(hk.national_number, "12345678");
    assert_eq!(hk.iso_country, Some("HK"));

    let tw = normalize_phone("+886 912 345 678", "VN").unwrap();
    assert_eq!(tw.country_code, "886");
    assert_eq!(tw.iso_country, Some("TW"));

    let jp = normalize_phone("+81 90 1234 5678", "VN").unwrap();
    assert_eq!(jp.country_code, "81");
    assert_eq!(jp.iso_country, Some("JP"));
}

#[test]
fn vn_shorthand_gives_the_e164_of_the_full_result() {
    for input in ["0912 345 678", "+84 912-345-678", "0084 912 345 678", "+1 415 555 2671", "abc", "12"] {
        assert_eq!(
            normalize_vn_phone(input),
            normalize_phone(input, "VN").map(|p| p.e164)
        );
    }
}

#[test]
fn every_result_is_made_of_code_and_national_number() {
    let inputs = ["0912 345 678", "+84 0912 345 678", "0065 9123 4567", "(415) 555-2671", "+44 020 7946 0958"];
    for input in inputs {
        for hint in ["VN", "US", "GB", "852"] {
            if let Some(p) = normalize_phone(input, hint) {
                assert!(is_valid_e164(&p.e164));
                assert_eq!(p.e164, format!("+{}{}", p.country_code, p.national_number));
                assert!(!p.national_number.is_empty());
                assert!((1..=3).contains(&p.country_code.len()));
                assert_eq!(p.raw, input);
            }
        }
    }
}

#[test]
fn international_input_ignores_the_default_country() {
    for input in ["+84 912-345-678", "0084 912 345 678", "+44 020 7946 0958", "00 1 415 555 2671", "+999", "00"] {
        let expected = normalize_phone(input, "VN");
        for hint in ["US", "sg", "+852", "", "nowhere"] {
            assert_eq!(normalize_phone(input, hint), expected);
        }
    }
}
