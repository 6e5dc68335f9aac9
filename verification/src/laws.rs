//! What holds of the normalizer and the country detection on every input.

use vstd::prelude::*;
use crate::country::{
    iso_of_code, known_code, lemma_code_shape, lemma_codes_prefix_free, lemma_known_iff_mapped,
    match_of_length, prefix_match,
};
use crate::e164::valid_e164;
use crate::phone::{
    detected, international, lemma_normalized_well_formed, lemma_prefix_match_sound, normalized,
    without_trunk_zero, PhoneParts,
};
use crate::text::{all_digits, digits_of, is_digit, lemma_sanitized_shape, sanitized};

verus! {

/// Text made of digits only is left as it is when its digits are kept.
pub proof fn lemma_digits_of_digits(s: Seq<char>)
    requires
        all_digits(s),
    ensures
        digits_of(s) == s,
    decreases s.len(),
{
    let pred = |c: char| is_digit(c);
    if s.len() == 0 {
        s.lemma_filter_len(pred);
        assert(digits_of(s) =~= s);
    } else {
        let front = s.drop_last();
        lemma_digits_of_digits(front);
        front.lemma_filter_push(s.last(), pred);
        assert(front.push(s.last()) =~= s);
    }
}

/// Sanitizing changes nothing in a plus sign followed by digits, nor in digits
/// alone.
pub proof fn lemma_sanitized_fixed(s: Seq<char>)
    requires
        all_digits(s) || (s.len() > 0 && s[0] == '+' && all_digits(s.skip(1))),
    ensures
        sanitized(s) == s,
{
    let pred = |c: char| is_digit(c);
    if s.len() > 0 && s[0] == '+' {
        let plus = seq!['+'];
        assert(s =~= plus + s.skip(1));
        Seq::filter_distributes_over_add(plus, s.skip(1), pred);
        assert(plus =~= Seq::<char>::empty().push('+'));
        Seq::<char>::empty().lemma_filter_push('+', pred);
        Seq::<char>::empty().lemma_filter_len(pred);
        lemma_digits_of_digits(s.skip(1));
        assert(digits_of(s) =~= s.skip(1));
        assert(sanitized(s) =~= s);
    } else {
        lemma_digits_of_digits(s);
        assert(sanitized(s) =~= s);
    }
}

/// Sanitizing twice gives what sanitizing once gives.
pub proof fn lemma_sanitized_twice(s: Seq<char>)
    ensures
        sanitized(sanitized(s)) == sanitized(s),
{
    let once = sanitized(s);
    lemma_sanitized_shape(s);
    if once.len() > 0 && once[0] == '+' {
        assert(all_digits(once.skip(1))) by {
            assert forall|i: int| 0 <= i < once.skip(1).len() implies is_digit(
                #[trigger] once.skip(1)[i],
            ) by {
                assert(once.skip(1)[i] == once[i + 1]);
            }
        }
    } else if once.len() > 0 {
        assert(all_digits(once));
    }
    lemma_sanitized_fixed(once);
}

/// Digits that begin with a calling code of the table are matched to that
/// code, however the national number goes on: no longer and no shorter code
/// takes its place.
pub proof fn lemma_prefix_match_finds_code(code: Seq<char>, rest: Seq<char>)
    requires
        known_code(code),
    ensures
        prefix_match(code + rest) == Some((code, iso_of_code(code))),
        iso_of_code(code) is Some,
{
    let digits = code + rest;
    lemma_code_shape(code);
    lemma_known_iff_mapped(code);
    assert(digits.take(code.len() as int) =~= code);
    assert forall|len: int| code.len() < len <= 3 implies match_of_length(digits, len) is None by {
        if digits.len() >= len {
            let longer = digits.take(len);
            lemma_known_iff_mapped(longer);
            if known_code(longer) {
                assert(longer.take(code.len() as int) =~= code);
                lemma_codes_prefix_free(code, longer);
            }
        }
    }
}

/// Text is made of its first character, the next `n` characters and the rest.
pub proof fn lemma_split_after_first(x: Seq<char>, n: int)
    requires
        0 <= n < x.len(),
    ensures
        x == seq![x[0]] + x.skip(1).take(n) + x.skip(1).skip(n),
{
    assert(x =~= seq![x[0]] + x.skip(1).take(n) + x.skip(1).skip(n));
}

/// A valid E.164 number that begins with a calling code of the table is made
/// of the plus sign, the code and what follows the code.
pub proof fn lemma_valid_e164_parts(x: Seq<char>)
    requires
        valid_e164(x),
        prefix_match(x.skip(1)) is Some,
    ensures
        x == seq!['+'] + prefix_match(x.skip(1)).unwrap().0 + x.skip(1).skip(
            prefix_match(x.skip(1)).unwrap().0.len() as int,
        ),
{
    let digits = x.skip(1);
    let code = prefix_match(digits).unwrap().0;
    assert(code.len() <= digits.len() && code == digits.take(code.len() as int)) by {
        lemma_prefix_match_sound(digits);
    }
    lemma_split_after_first(x, code.len() as int);
}

/// Idempotence: a valid E.164 number normalizes to itself, whatever the
/// default country is, provided that it begins with a calling code of the
/// table and that no trunk `0` follows that code.
pub proof fn lemma_valid_e164_is_kept(x: Seq<char>, hint: Seq<char>)
    requires
        valid_e164(x),
        prefix_match(x.skip(1)) matches Some((code, iso)) && without_trunk_zero(
            iso,
            x.skip(1).skip(code.len() as int),
        ) == x.skip(1).skip(code.len() as int),
    ensures
        normalized(x, hint) matches Some(p) && p.e164 == x && p.raw == x,
        prefix_match(x.skip(1)) matches Some((code, iso)) && normalized(x, hint) == Some(
            PhoneParts {
                raw: x,
                e164: x,
                country_code: code,
                national_number: x.skip(1).skip(code.len() as int),
                iso_country: iso,
            },
        ),
{
    assert(sanitized(x) == x) by {
        lemma_sanitized_fixed(x);
    }
    lemma_valid_e164_parts(x);
}

/// A valid E.164 number is read as an international number: what follows its
/// plus sign is what counts.
pub proof fn lemma_valid_e164_is_international(x: Seq<char>, hint: Seq<char>)
    requires
        valid_e164(x),
    ensures
        normalized(x, hint) == international(x, x.skip(1)),
        all_digits(x.skip(1)),
{
    lemma_sanitized_fixed(x);
}

/// Idempotence holds of no other valid E.164 number: where a number
/// normalizes to itself, it begins with a calling code of the table and no
/// trunk `0` was dropped after that code.
pub proof fn lemma_kept_only_then(x: Seq<char>, hint: Seq<char>)
    requires
        valid_e164(x),
        normalized(x, hint) matches Some(p) && p.e164 == x,
    ensures
        prefix_match(x.skip(1)) matches Some((code, iso)) && without_trunk_zero(
            iso,
            x.skip(1).skip(code.len() as int),
        ) == x.skip(1).skip(code.len() as int),
{
    lemma_valid_e164_is_international(x, hint);
    let digits = x.skip(1);
    assert(prefix_match(digits) is Some);
    let (code, iso) = prefix_match(digits).unwrap();
    let rest = digits.skip(code.len() as int);
    let kept = without_trunk_zero(iso, rest);
    assert(x == seq!['+'] + code + kept);
    assert(x.len() == 1 + code.len() + kept.len());
    assert(code.len() <= digits.len()) by {
        lemma_prefix_match_sound(digits);
    }
    assert(kept.len() == rest.len());
}

/// Input that names its own calling code, by a plus sign in first place or by
/// digits that begin with `00`, is normalized without regard to the default
/// country.
pub proof fn lemma_international_ignores_hint(input: Seq<char>, hint: Seq<char>, other: Seq<char>)
    requires
        sanitized(input).len() > 0,
        sanitized(input)[0] == '+' || (sanitized(input).len() >= 2 && sanitized(input)[0] == '0'
            && sanitized(input)[1] == '0'),
    ensures
        normalized(input, hint) == normalized(input, other),
{
}

/// Round trip: the country detected in a valid E.164 number that was made of
/// a calling code of the table and a national number is the country that the
/// table maps that calling code to.
pub proof fn lemma_detects_country_of_code(code: Seq<char>, national: Seq<char>)
    requires
        known_code(code),
        valid_e164(seq!['+'] + code + national),
    ensures
        iso_of_code(code) is Some,
        detected(seq!['+'] + code + national) == iso_of_code(code),
{
    let x = seq!['+'] + code + national;
    assert(x.skip(1) =~= code + national);
    lemma_prefix_match_finds_code(code, national);
}

/// The country detected in a number that the normalizer gave out is the
/// country that the table maps the number's calling code to.
pub proof fn lemma_detects_normalized(input: Seq<char>, hint: Seq<char>)
    requires
        normalized(input, hint) is Some,
    ensures
        detected(normalized(input, hint).unwrap().e164) == iso_of_code(
            normalized(input, hint).unwrap().country_code,
        ),
{
    let p = normalized(input, hint).unwrap();
    lemma_normalized_well_formed(input, hint);
    lemma_detects_country_of_code(p.country_code, p.national_number);
}

/// Whether `kept` is `typed`, or `typed` without one `0` in first place.
pub open spec fn one_zero_at_most(typed: Seq<char>, kept: Seq<char>) -> bool {
    kept == typed || (typed.len() > 0 && typed[0] == '0' && kept == typed.skip(1))
}

/// Single strip: what is left of a national number once its trunk `0` is
/// dropped is the number itself or the number without its first character,
/// a `0`. No second `0` is ever dropped.
pub proof fn lemma_trunk_zero_dropped_once(iso: Option<Seq<char>>, national: Seq<char>)
    ensures
        one_zero_at_most(national, without_trunk_zero(iso, national)),
        national.len() <= without_trunk_zero(iso, national).len() + 1,
{
}

/// Single strip, of the normalizer as a whole: the number given out holds
/// every digit of the input in its order, but for the international prefix
/// `00` and for at most one `0` between the calling code and the national
/// number. In the national form the calling code comes from the default
/// country, and the digits of the input are the national number but for at
/// most one `0` in first place.
pub proof fn lemma_digits_are_kept(input: Seq<char>, hint: Seq<char>)
    requires
        normalized(input, hint) is Some,
    ensures
        ({
            let p = normalized(input, hint).unwrap();
            let typed = digits_of(input);
            let s = sanitized(input);
            if s[0] == '+' {
                typed.len() >= p.country_code.len() && typed.take(p.country_code.len() as int)
                    == p.country_code && one_zero_at_most(
                    typed.skip(p.country_code.len() as int),
                    p.national_number,
                )
            } else if s.len() >= 2 && s[0] == '0' && s[1] == '0' {
                typed.len() >= 2 + p.country_code.len() && typed.subrange(
                    2,
                    2 + p.country_code.len() as int,
                ) == p.country_code && one_zero_at_most(
                    typed.skip(2 + p.country_code.len() as int),
                    p.national_number,
                )
            } else {
                one_zero_at_most(typed, p.national_number)
            }
        }),
{
    let p = normalized(input, hint).unwrap();
    let typed = digits_of(input);
    let s = sanitized(input);
    lemma_sanitized_shape(input);
    if s[0] == '+' {
        assert(s.skip(1) =~= typed);
        lemma_prefix_match_sound(typed);
    } else {
        assert(s == typed);
        if s.len() >= 2 && s[0] == '0' && s[1] == '0' {
            let digits = typed.skip(2);
            lemma_prefix_match_sound(digits);
            let code = p.country_code;
            assert(digits.take(code.len() as int) =~= typed.subrange(2, 2 + code.len() as int));
            assert(digits.skip(code.len() as int) =~= typed.skip(2 + code.len() as int));
        } else {
            lemma_digits_of_digits(typed);
        }
    }
}

} // verus!
