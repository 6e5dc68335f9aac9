//! The normalizer: from what a user typed, and a default country, to a
//! telephone number in E.164 with its calling code, national number and
//! country.

use vstd::prelude::*;
use crate::country::{
    code_of_iso, code_to_iso, hint_target, is_trunk_zero_country, iso_of_code, known_code,
    lemma_code_shape, lemma_known_iff_mapped, lemma_table_agrees, match_country_code_prefix,
    prefix_match, resolve_country_hint, text_of, trunk_zero,
};
use crate::e164::{is_valid_e164, valid_e164};
use crate::text::{
    all_digits, digits_of, is_all_digits, keep_digits, sanitized, strip_non_digits_keep_plus,
};

verus! {

/// A telephone number that was normalized with success.
#[derive(Debug, Clone, PartialEq, Eq)]
pub struct PhoneNumber {
    /// The input as it was given.
    pub raw: String,
    /// The number in E.164, such as `+84912345678`.
    pub e164: String,
    /// The calling code, such as `84`.
    pub country_code: String,
    /// The national significant number: what follows the calling code.
    pub national_number: String,
    /// The ISO 3166-1 alpha-2 identifier of the country, where the table has one.
    pub iso_country: Option<&'static str>,
}

/// What a `PhoneNumber` holds, as plain text.
pub struct PhoneParts {
    pub raw: Seq<char>,
    pub e164: Seq<char>,
    pub country_code: Seq<char>,
    pub national_number: Seq<char>,
    pub iso_country: Option<Seq<char>>,
}

impl View for PhoneNumber {
    type V = PhoneParts;

    open spec fn view(&self) -> PhoneParts {
        PhoneParts {
            raw: self.raw@,
            e164: self.e164@,
            country_code: self.country_code@,
            national_number: self.national_number@,
            iso_country: text_of(self.iso_country),
        }
    }
}

impl PhoneParts {
    /// What holds of every number that the normalizer gives out: the number is
    /// valid E.164 and is made of the plus sign, the calling code and the
    /// national number; the calling code is one of the table; the national
    /// number is not empty; the country, where there is one, is a country of
    /// the table with that calling code, and is missing only where the table
    /// maps the calling code to no country.
    pub open spec fn well_formed(self) -> bool {
        &&& valid_e164(self.e164)
        &&& self.e164 == seq!['+'] + self.country_code + self.national_number
        &&& 1 <= self.country_code.len() <= 3
        &&& all_digits(self.country_code)
        &&& known_code(self.country_code)
        &&& self.national_number.len() > 0
        &&& match self.iso_country {
            Some(iso) => code_of_iso(iso) == Some(self.country_code),
            None => iso_of_code(self.country_code) is None,
        }
    }
}

/// What an optional `PhoneNumber` holds, as plain text.
pub open spec fn parts_of(p: Option<PhoneNumber>) -> Option<PhoneParts> {
    match p {
        Some(number) => Some(number@),
        None => None,
    }
}

/// Whether national numbers of the country are dialled with a trunk `0`.
/// Without a country there is no trunk digit to expect.
pub open spec fn expects_trunk_zero(iso: Option<Seq<char>>) -> bool {
    match iso {
        Some(id) => trunk_zero(id),
        None => false,
    }
}

/// The national number without its trunk `0`, for a country that uses one.
/// Exactly one leading `0` is dropped; a second one stays.
pub open spec fn without_trunk_zero(iso: Option<Seq<char>>, national: Seq<char>) -> Seq<char> {
    if expects_trunk_zero(iso) && national.len() > 0 && national[0] == '0' {
        national.skip(1)
    } else {
        national
    }
}

/// The number that a calling code and a national number make, if it is valid
/// E.164.
pub open spec fn assembled(
    raw: Seq<char>,
    code: Seq<char>,
    iso: Option<Seq<char>>,
    national: Seq<char>,
) -> Option<PhoneParts> {
    let e164 = seq!['+'] + code + national;
    if valid_e164(e164) {
        Some(
            PhoneParts {
                raw,
                e164,
                country_code: code,
                national_number: national,
                iso_country: iso,
            },
        )
    } else {
        None
    }
}

/// The number that `digits` stand for when they follow a plus sign: they begin
/// with the calling code, and the rest is the national number, less one trunk
/// `0` where the country uses one.
pub open spec fn international(raw: Seq<char>, digits: Seq<char>) -> Option<PhoneParts> {
    if !all_digits(digits) {
        None
    } else {
        match prefix_match(digits) {
            Some((code, iso)) => assembled(
                raw,
                code,
                iso,
                without_trunk_zero(iso, digits.skip(code.len() as int)),
            ),
            None => None,
        }
    }
}

/// The number that `typed` stands for when it is a national number of the
/// country with this calling code: its digits, less one trunk `0` where the
/// country uses one, after the calling code.
pub open spec fn national_of(
    raw: Seq<char>,
    typed: Seq<char>,
    code: Seq<char>,
    iso: Option<Seq<char>>,
) -> Option<PhoneParts> {
    let number = without_trunk_zero(iso, digits_of(typed));
    if number.len() == 0 {
        None
    } else {
        assembled(raw, code, iso, number)
    }
}

/// The number that `typed` stands for when it is a national number of the
/// country that `hint` names.
pub open spec fn national(raw: Seq<char>, typed: Seq<char>, hint: Seq<char>) -> Option<
    PhoneParts,
> {
    match hint_target(hint) {
        Some((code, iso)) => national_of(raw, typed, code, iso),
        None => None,
    }
}

/// The number that `input` stands for. Input that begins with a plus sign, or
/// whose digits begin with `00`, names its own calling code; any other input is
/// a national number of the country that `hint` names.
pub open spec fn normalized(input: Seq<char>, hint: Seq<char>) -> Option<PhoneParts> {
    let s = sanitized(input);
    if s.len() == 0 {
        None
    } else if s[0] == '+' {
        international(input, s.skip(1))
    } else if s.len() >= 2 && s[0] == '0' && s[1] == '0' {
        international(input, s.skip(2))
    } else {
        national(input, s, hint)
    }
}

/// The country of a number in E.164: that of the longest calling code that
/// its digits begin with.
pub open spec fn detected(e164: Seq<char>) -> Option<Seq<char>> {
    if !valid_e164(e164) {
        None
    } else {
        match prefix_match(e164.skip(1)) {
            Some((code, Some(iso))) => Some(iso),
            Some((code, None)) => iso_of_code(code),
            None => None,
        }
    }
}

/// Every number that can be assembled from a calling code of the table, with
/// the country that the table or the caller's hint gave for it, is well formed.
pub proof fn lemma_assembled_well_formed(
    raw: Seq<char>,
    code: Seq<char>,
    iso: Option<Seq<char>>,
    national: Seq<char>,
)
    requires
        known_code(code),
        match iso {
            Some(id) => code_of_iso(id) == Some(code),
            None => iso_of_code(code) is None,
        },
    ensures
        assembled(raw, code, iso, national) matches Some(p) ==> p.well_formed() && p.raw == raw,
{
    lemma_code_shape(code);
}

/// The calling code that `digits` begin with is a code of the table, and the
/// country found with it is the one that the table maps the code to.
pub proof fn lemma_prefix_match_sound(digits: Seq<char>)
    ensures
        prefix_match(digits) matches Some((code, iso)) ==> {
            &&& known_code(code)
            &&& code.len() <= digits.len()
            &&& code == digits.take(code.len() as int)
            &&& iso == iso_of_code(code)
        },
{
    lemma_known_iff_mapped(digits.take(3));
    lemma_known_iff_mapped(digits.take(2));
    lemma_known_iff_mapped(digits.take(1));
    if prefix_match(digits) is Some {
        lemma_code_shape(prefix_match(digits).unwrap().0);
    }
}

/// Every number that the normalizer gives out is well formed and keeps the
/// input as it was given.
pub proof fn lemma_normalized_well_formed(input: Seq<char>, hint: Seq<char>)
    ensures
        normalized(input, hint) matches Some(p) ==> p.well_formed() && p.raw == input,
{
    let s = sanitized(input);
    if normalized(input, hint) is Some {
        if s[0] == '+' || (s.len() >= 2 && s[0] == '0' && s[1] == '0') {
            let digits = if s[0] == '+' {
                s.skip(1)
            } else {
                s.skip(2)
            };
            lemma_prefix_match_sound(digits);
            let (code, iso) = prefix_match(digits).unwrap();
            if iso is Some {
                lemma_table_agrees(code, iso.unwrap());
            }
            lemma_assembled_well_formed(
                input,
                code,
                iso,
                without_trunk_zero(iso, digits.skip(code.len() as int)),
            );
        } else {
            let (code, iso) = hint_target(hint).unwrap();
            lemma_hint_target_sound(hint);
            lemma_assembled_well_formed(
                input,
                code,
                iso,
                without_trunk_zero(iso, digits_of(s)),
            );
        }
    }
}

/// What a hint resolves to is a calling code of the table, with a country
/// that has this calling code.
pub proof fn lemma_hint_target_sound(hint: Seq<char>)
    ensures
        hint_target(hint) matches Some((code, iso)) ==> {
            &&& known_code(code)
            &&& match iso {
                Some(id) => code_of_iso(id) == Some(code),
                None => iso_of_code(code) is None,
            }
        },
{
    if hint_target(hint) is Some {
        let (code, iso) = hint_target(hint).unwrap();
        if iso is Some {
            lemma_table_agrees(code, iso.unwrap());
        }
    }
}

/// Drops the trunk `0` that a national number begins with, where the country
/// uses one: one `0` at most, whatever follows it.
pub fn strip_trunk_zero<'a>(iso: Option<&str>, national: &'a str) -> (rest: &'a str)
    ensures
        rest@ == without_trunk_zero(text_of(iso), national@),
{
    let expected = match iso {
        Some(id) => is_trunk_zero_country(id),
        None => false,
    };
    let n = national.unicode_len();
    if expected && n > 0 && national.get_char(0) == '0' {
        national.substring_char(1, n)
    } else {
        national
    }
}

/// Puts a calling code and a national number together and checks that the
/// result is valid E.164.
pub fn assemble(
    raw: &str,
    code: &str,
    iso: Option<&'static str>,
    national: &str,
) -> (found: Option<PhoneNumber>)
    ensures
        parts_of(found) == assembled(raw@, code@, text_of(iso), national@),
{
    let mut e164 = String::new();
    e164.push('+');
    e164.append(code);
    e164.append(national);
    assert(e164@ =~= seq!['+'] + code@ + national@);
    if !is_valid_e164(e164.as_str()) {
        return None;
    }
    Some(
        PhoneNumber {
            raw: raw.to_owned(),
            e164,
            country_code: code.to_owned(),
            national_number: national.to_owned(),
            iso_country: iso,
        },
    )
}

/// Normalizes the digits that follow a plus sign, or the international prefix
/// `00`. They must begin with a calling code of the table.
pub fn normalize_international(raw: &str, digits: &str) -> (found: Option<PhoneNumber>)
    ensures
        parts_of(found) == international(raw@, digits@),
{
    if !is_all_digits(digits) {
        return None;
    }
    match match_country_code_prefix(digits) {
        Some((code, iso)) => {
            proof {
                lemma_prefix_match_sound(digits@);
            }
            let rest = digits.substring_char(code.unicode_len(), digits.unicode_len());
            assemble(raw, code, iso, strip_trunk_zero(iso, rest))
        },
        None => None,
    }
}

/// Normalizes a number that was typed in its national form, for the country
/// with the calling code `code`.
pub fn normalize_for_country(
    raw: &str,
    typed: &str,
    code: &str,
    iso: Option<&'static str>,
) -> (found: Option<PhoneNumber>)
    ensures
        parts_of(found) == national_of(raw@, typed@, code@, text_of(iso)),
{
    let digits = keep_digits(typed);
    let number = strip_trunk_zero(iso, digits.as_str());
    if number.unicode_len() == 0 {
        return None;
    }
    assemble(raw, code, iso, number)
}

/// Normalizes a number that was typed in its national form, for the country
/// that `default_country` names.
pub fn normalize_national(raw: &str, typed: &str, default_country: &str) -> (found: Option<
    PhoneNumber,
>)
    ensures
        parts_of(found) == national(raw@, typed@, default_country@),
{
    match resolve_country_hint(default_country) {
        Some((code, iso)) => normalize_for_country(raw, typed, code, iso),
        None => None,
    }
}

/// Normalizes a telephone number as a user typed it, with spaces, dashes or
/// brackets, into E.164.
///
/// Input that begins with `+`, or whose digits begin with `00`, is read as an
/// international number. Any other input is read as a national number of
/// `default_country`, which may be an ISO identifier (`"VN"`), a calling code
/// (`"84"`) or a calling code after a plus sign (`"+84"`).
///
/// Gives nothing where no digit is left of the input, the calling code or the
/// default country is not in the table, or the result is not valid E.164.
pub fn normalize_phone(input: &str, default_country: &str) -> (found: Option<PhoneNumber>)
    ensures
        parts_of(found) == normalized(input@, default_country@),
        found matches Some(p) ==> p@.well_formed() && p@.raw == input@,
{
    proof {
        lemma_normalized_well_formed(input@, default_country@);
    }
    let s = strip_non_digits_keep_plus(input);
    let n = s.as_str().unicode_len();
    if n == 0 {
        return None;
    }
    let first = s.as_str().get_char(0);
    if first == '+' {
        return normalize_international(input, s.as_str().substring_char(1, n));
    }
    if n >= 2 && first == '0' && s.as_str().get_char(1) == '0' {
        return normalize_international(input, s.as_str().substring_char(2, n));
    }
    normalize_national(input, s.as_str(), default_country)
}

/// Normalizes a telephone number with Vietnam as the default country, and
/// gives the number in E.164 only.
pub fn normalize_vn_phone(input: &str) -> (found: Option<String>)
    ensures
        match found {
            Some(e164) => normalized(input@, "VN"@) matches Some(p) && p.e164 == e164@,
            None => normalized(input@, "VN"@) is None,
        },
{
    match normalize_phone(input, "VN") {
        Some(p) => Some(p.e164),
        None => None,
    }
}

/// Tells the country of a number in E.164, as far as its calling code shows
/// it. Gives nothing for text that is not valid E.164 and for a calling code
/// that the table does not map to a country.
pub fn detect_country(e164: &str) -> (iso: Option<&'static str>)
    ensures
        text_of(iso) == detected(e164@),
{
    if !is_valid_e164(e164) {
        return None;
    }
    let digits = e164.substring_char(1, e164.unicode_len());
    match match_country_code_prefix(digits) {
        Some((code, iso)) => {
            if iso.is_some() {
                iso
            } else {
                code_to_iso(code)
            }
        },
        None => None,
    }
}

} // verus!
