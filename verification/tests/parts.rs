use starlight::i18n::{binding_of, copy_names, find_i18n, push_decimal, var_ident, Attribute, Binding, Fields};
use starlight::phone::{
    assemble, normalize_for_country, normalize_international, normalize_national,
    strip_trunk_zero,
};
use starlight::text::keep_digits;

#[test]
fn digits_are_kept_in_their_order() {
    assert_eq!(keep_digits("0912 345 678"), "0912345678");
    assert_eq!(keep_digits("+84-(9)"), "849");
    assert_eq!(keep_digits("none"), "");
    assert_eq!(keep_digits(""), "");
}

#[test]
fn trunk_zero_is_dropped_once_for_countries_that_use_it() {
    assert_eq!(strip_trunk_zero(Some("VN"), "0912345678"), "912345678");
    assert_eq!(strip_trunk_zero(Some("VN"), "00912345678"), "0912345678");
    assert_eq!(strip_trunk_zero(Some("VN"), "912345678"), "912345678");
    assert_eq!(strip_trunk_zero(Some("VN"), "0"), "");
    assert_eq!(strip_trunk_zero(Some("VN"), ""), "");
    assert_eq!(strip_trunk_zero(Some("US"), "0415"), "0415");
    assert_eq!(strip_trunk_zero(Some("vn"), "0912"), "0912");
    assert_eq!(strip_trunk_zero(None, "0912"), "0912");
}

#[test]
fn number_is_assembled_from_code_and_national_number() {
    let p = assemble("typed", "84", Some("VN"), "912345678").unwrap();
    assert_eq!(p.raw, "typed");
    assert_eq!(p.e164, "+84912345678");
    assert_eq!(p.country_code, "84");
    assert_eq!(p.national_number, "912345678");
    assert_eq!(p.iso_country, Some("VN"));

    let q = assemble("", "7", None, "123456").unwrap();
    assert_eq!(q.e164, "+7123456");
    assert_eq!(q.iso_country, None);
}

#[test]
fn number_is_not_assembled_unless_valid() {
    assert_eq!(assemble("x", "84", Some("VN"), "1234"), None);
    assert_eq!(assemble("x", "84", Some("VN"), ""), None);
    assert_eq!(assemble("x", "84", Some("VN"), "12345678901234"), None);
    assert_eq!(assemble("x", "84", Some("VN"), "912 345 678"), None);
    assert_eq!(assemble("x", "+84", Some("VN"), "912345678"), None);
    assert_eq!(assemble("x", "", None, "+912345678"), None);
}

#[test]
fn international_digits_begin_with_the_calling_code() {
    let p = normalize_international("raw", "84912345678").unwrap();
    assert_eq!(p.raw, "raw");
    assert_eq!(p.e164, "+84912345678");
    assert_eq!(p.country_code, "84");
    assert_eq!(p.national_number, "912345678");
    assert_eq!(p.iso_country, Some("VN"));

    let q = normalize_international("raw", "440207946095").unwrap();
    assert_eq!(q.e164, "+44207946095");

    assert_eq!(normalize_international("raw", ""), None);
    assert_eq!(normalize_international("raw", "84"), None);
    assert_eq!(normalize_international("raw", "2125551234"), None);
    assert_eq!(normalize_international("raw", "84 912345678"), None);
    assert_eq!(normalize_international("raw", "+84912345678"), None);
}

#[test]
fn national_digits_follow_the_calling_code_of_the_country() {
    let p = normalize_for_country("raw", "0912 345 678", "84", Some("VN")).unwrap();
    assert_eq!(p.e164, "+84912345678");
    assert_eq!(p.national_number, "912345678");
    assert_eq!(p.raw, "raw");

    let q = normalize_for_country("raw", "0912 345 678", "84", None).unwrap();
    assert_eq!(q.e164, "+840912345678");
    assert_eq!(q.iso_country, None);

    assert_eq!(normalize_for_country("raw", "0", "84", Some("VN")), None);
    assert_eq!(normalize_for_country("raw", "", "1", Some("US")), None);
    assert_eq!(normalize_for_country("raw", "no digits", "1", Some("US")), None);
}

#[test]
fn national_form_needs_a_known_default_country() {
    let p = normalize_national("raw", "(415) 555-2671", " us ").unwrap();
    assert_eq!(p.e164, "+14155552671");
    assert_eq!(p.iso_country, Some("US"));
    assert_eq!(normalize_national("raw", "(415) 555-2671", "USA"), None);
    assert_eq!(normalize_national("raw", "(415) 555-2671", ""), None);
}

fn decimal(n: usize) -> String {
    let mut out = String::from("n=");
    push_decimal(&mut out, n);
    out
}

#[test]
fn numbers_are_written_in_decimal() {
    assert_eq!(decimal(0), "n=0");
    assert_eq!(decimal(7), "n=7");
    assert_eq!(decimal(10), "n=10");
    assert_eq!(decimal(909), "n=909");
    assert_eq!(decimal(1234567890), "n=1234567890");
    assert_eq!(decimal(usize::MAX), format!("n={}", usize::MAX));
}

#[test]
fn variables_are_named_by_position() {
    assert_eq!(var_ident(0), "v0");
    assert_eq!(var_ident(1), "v1");
    assert_eq!(var_ident(10), "v10");
    assert_eq!(var_ident(255), "v255");
}

#[test]
fn binding_follows_the_kind_of_fields() {
    assert_eq!(binding_of(&Fields::Unit), Binding::Unit);
    assert_eq!(
        binding_of(&Fields::Unnamed(3)),
        Binding::Tuple(vec!["v0".to_string(), "v1".to_string(), "v2".to_string()])
    );
    let names = vec!["field".to_string(), "message".to_string()];
    assert_eq!(binding_of(&Fields::Named(names.clone())), Binding::Struct(names.clone()));
    assert_eq!(copy_names(&names), names);
    assert_eq!(binding_of(&Fields::Named(vec![])), Binding::Struct(vec![]));
}

#[test]
fn first_attribute_of_the_name_is_found() {
    let attr = |name: Option<&str>| Attribute { name: name.map(|n| n.to_string()), literal: None };
    assert_eq!(find_i18n(&vec![]), None);
    assert_eq!(find_i18n(&vec![attr(Some("doc")), attr(None), attr(Some("I18N"))]), None);
    assert_eq!(find_i18n(&vec![attr(Some("i18n"))]), Some(0));
    assert_eq!(
        find_i18n(&vec![attr(Some("doc")), attr(Some("i18n")), attr(Some("i18n"))]),
        Some(1)
    );
}
