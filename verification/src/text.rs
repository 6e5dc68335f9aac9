//! Character classes and the input sanitizer.
//!
//! Everything here is stated over `Seq<char>`, the view of `str` and `String`.

use vstd::prelude::*;
use vstd::std_specs::iter::IteratorSpec;

verus! {

/// Whether `c` is one of the ASCII digits `0` to `9`.
pub open spec fn is_digit(c: char) -> bool {
    '0' <= c && c <= '9'
}

/// Whether every character of `s` is an ASCII digit.
pub open spec fn all_digits(s: Seq<char>) -> bool {
    forall|i: int| 0 <= i < s.len() ==> is_digit(#[trigger] s[i])
}

/// The ASCII digits of `s`, in the order in which they occur.
pub open spec fn digits_of(s: Seq<char>) -> Seq<char> {
    s.filter(|c: char| is_digit(c))
}

/// `"+"` if `s` begins with a plus sign, the empty text otherwise.
pub open spec fn leading_plus(s: Seq<char>) -> Seq<char> {
    if s.len() > 0 && s[0] == '+' {
        seq!['+']
    } else {
        Seq::empty()
    }
}

/// What is left of typed input once everything but its digits has been dropped.
/// A plus sign survives only as the very first character of the input.
pub open spec fn sanitized(s: Seq<char>) -> Seq<char> {
    leading_plus(s) + digits_of(s)
}

/// Assumed of `String::push`, not proved: it appends the character to the end
/// of the string and changes nothing else.
pub assume_specification[ String::push ](s: &mut String, c: char)
    ensures
        final(s)@ == old(s)@.push(c),
;

/// Sanitizing one character more either appends that character or changes nothing.
pub proof fn lemma_sanitized_push(s: Seq<char>, c: char)
    ensures
        sanitized(s.push(c)) == if is_digit(c) || (c == '+' && s.len() == 0) {
            sanitized(s).push(c)
        } else {
            sanitized(s)
        },
{
    s.lemma_filter_push(c, |c: char| is_digit(c));
    if s.len() == 0 {
        assert(s.filter(|c: char| is_digit(c)).len() == 0) by {
            s.lemma_filter_len(|c: char| is_digit(c));
        }
        if c == '+' {
            assert(sanitized(s.push(c)) =~= sanitized(s).push(c));
        } else if is_digit(c) {
            assert(sanitized(s.push(c)) =~= sanitized(s).push(c));
        } else {
            assert(sanitized(s.push(c)) =~= sanitized(s));
        }
    } else {
        assert(s.push(c)[0] == s[0]);
        if is_digit(c) {
            assert(sanitized(s.push(c)) =~= sanitized(s).push(c));
        } else {
            assert(sanitized(s.push(c)) =~= sanitized(s));
        }
    }
}

/// Every kept character is a digit, except for a plus sign in first place.
pub proof fn lemma_sanitized_shape(s: Seq<char>)
    ensures
        sanitized(s).len() <= s.len(),
        all_digits(digits_of(s)),
        sanitized(s).len() > 0 && sanitized(s)[0] == '+' <==> s.len() > 0 && s[0] == '+',
        forall|i: int| 1 <= i < sanitized(s).len() ==> is_digit(#[trigger] sanitized(s)[i]),
        sanitized(s).len() > 0 && sanitized(s)[0] != '+' ==> sanitized(s) == digits_of(s),
{
    let pred = |c: char| is_digit(c);
    let d = s.filter(pred);
    s.lemma_filter_len(pred);
    assert forall|i: int| 0 <= i < d.len() implies is_digit(#[trigger] d[i]) by {
        s.lemma_filter_pred(pred, i);
    }
    if s.len() > 0 && s[0] == '+' {
        assert(s =~= seq!['+'] + s.skip(1));
        Seq::filter_distributes_over_add(seq!['+'], s.skip(1), pred);
        assert(seq!['+'] =~= Seq::<char>::empty().push('+'));
        Seq::<char>::empty().lemma_filter_push('+', pred);
        Seq::<char>::empty().lemma_filter_len(pred);
        s.skip(1).lemma_filter_len(pred);
        assert(d.len() <= s.len() - 1);
    } else {
        assert(sanitized(s) =~= d);
    }
}

/// Tells whether `c` is an ASCII digit.
pub fn is_ascii_digit(c: char) -> (b: bool)
    ensures
        b == is_digit(c),
{
    '0' <= c && c <= '9'
}

/// Drops every character of `input` that is not an ASCII digit, except for a plus
/// sign that is the very first character. Never fails: input without digits
/// gives the empty string.
pub fn strip_non_digits_keep_plus(input: &str) -> (out: String)
    ensures
        out@ == sanitized(input@),
{
    let mut out = String::new();
    let mut first = true;
    assert(input@.take(0) =~= Seq::<char>::empty());
    assert(sanitized(Seq::<char>::empty()) =~= Seq::<char>::empty()) by {
        Seq::<char>::empty().lemma_filter_len(|c: char| is_digit(c));
    }
    for c in it: input.chars()
        invariant
            it.seq() == input@,
            first == (it.index() == 0),
            out@ == sanitized(input@.take(it.index() as int)),
    {
        proof {
            let seen = input@.take(it.index() as int);
            assert(input@.take(it.index() + 1) =~= seen.push(c));
            lemma_sanitized_push(seen, c);
        }
        if is_ascii_digit(c) {
            out.push(c);
        } else if c == '+' && first {
            out.push(c);
        }
        first = false;
    }
    assert(input@.take(input@.len() as int) =~= input@);
    out
}

/// Keeps the ASCII digits of `typed`, in their order.
pub fn keep_digits(typed: &str) -> (out: String)
    ensures
        out@ == digits_of(typed@),
{
    let mut out = String::new();
    assert(typed@.take(0) =~= Seq::<char>::empty());
    assert(digits_of(Seq::<char>::empty()) =~= Seq::<char>::empty()) by {
        Seq::<char>::empty().lemma_filter_len(|c: char| is_digit(c));
    }
    for c in it: typed.chars()
        invariant
            it.seq() == typed@,
            out@ == digits_of(typed@.take(it.index() as int)),
    {
        proof {
            let seen = typed@.take(it.index() as int);
            assert(typed@.take(it.index() + 1) =~= seen.push(c));
            seen.lemma_filter_push(c, |c: char| is_digit(c));
        }
        if is_ascii_digit(c) {
            out.push(c);
        }
    }
    assert(typed@.take(typed@.len() as int) =~= typed@);
    out
}

/// Whether `c` has the Unicode property White_Space: what `char::is_whitespace`
/// returns for `c`. The property's table is not restated here, so nothing is
/// known of this function on any given character.
pub uninterp spec fn white_space(c: char) -> bool;

/// Assumed of `char::is_whitespace`, not proved: what it returns depends on
/// the character alone, and is the property that `white_space` names.
pub assume_specification[ char::is_whitespace ](c: char) -> (b: bool)
    ensures
        b == white_space(c),
;

/// `s` without the white space that it begins with.
pub open spec fn trim_start(s: Seq<char>) -> Seq<char>
    decreases s.len(),
{
    if s.len() > 0 && white_space(s[0]) {
        trim_start(s.skip(1))
    } else {
        s
    }
}

/// `s` without the white space that it ends with.
pub open spec fn trim_end(s: Seq<char>) -> Seq<char>
    decreases s.len(),
{
    if s.len() > 0 && white_space(s.last()) {
        trim_end(s.drop_last())
    } else {
        s
    }
}

/// `s` without the white space at either end.
pub open spec fn trimmed(s: Seq<char>) -> Seq<char> {
    trim_end(trim_start(s))
}

/// The upper-case form of an ASCII letter; any other character unchanged.
pub open spec fn ascii_upper(c: char) -> char {
    if 'a' <= c && c <= 'z' {
        ((c as u8) - 32) as char
    } else {
        c
    }
}

/// `s` with each ASCII lower-case letter replaced by its upper-case form.
pub open spec fn upper_text(s: Seq<char>) -> Seq<char> {
    s.map_values(|c: char| ascii_upper(c))
}

/// Gives the upper-case form of an ASCII letter, and any other character back.
pub fn to_ascii_upper(c: char) -> (up: char)
    ensures
        up == ascii_upper(c),
{
    if 'a' <= c && c <= 'z' {
        ((c as u8) - 32) as char
    } else {
        c
    }
}

/// Removes the white space at both ends of `s` and puts what is left in upper
/// case, as far as it is made of ASCII letters.
pub fn trim_and_upper(s: &str) -> (out: String)
    ensures
        out@ == upper_text(trimmed(s@)),
{
    let mut chars: Vec<char> = Vec::new();
    for c in it: s.chars()
        invariant
            it.seq() == s@,
            chars@ == s@.take(it.index() as int),
    {
        chars.push(c);
        assert(s@.take(it.index() + 1) =~= s@.take(it.index() as int).push(c));
    }
    assert(s@.take(s@.len() as int) =~= s@);
    let mut start: usize = 0;
    assert(s@.skip(0) =~= s@);
    while start < chars.len() && chars[start].is_whitespace()
        invariant
            chars@ == s@,
            start <= chars.len(),
            trim_start(s@) == trim_start(s@.skip(start as int)),
        decreases chars.len() - start,
    {
        assert(s@.skip(start as int).skip(1) =~= s@.skip(start + 1));
        start = start + 1;
    }
    let ghost rest = s@.skip(start as int);
    assert(trim_start(s@) == rest);
    let mut end: usize = chars.len();
    assert(s@.subrange(start as int, end as int) =~= rest);
    while end > start && chars[end - 1].is_whitespace()
        invariant
            chars@ == s@,
            start <= end <= chars.len(),
            trim_end(rest) == trim_end(s@.subrange(start as int, end as int)),
        decreases end,
    {
        assert(s@.subrange(start as int, end as int).drop_last() =~= s@.subrange(
            start as int,
            end - 1,
        ));
        end = end - 1;
    }
    let ghost kept = s@.subrange(start as int, end as int);
    assert(trimmed(s@) == kept);
    let mut out = String::new();
    let mut i: usize = start;
    while i < end
        invariant
            chars@ == s@,
            start <= i <= end <= chars.len(),
            kept == s@.subrange(start as int, end as int),
            out@ == upper_text(kept.take(i - start)),
        decreases end - i,
    {
        out.push(to_ascii_upper(chars[i]));
        assert(upper_text(kept.take(i + 1 - start)) =~= upper_text(kept.take(i - start)).push(
            ascii_upper(s@[i as int]),
        ));
        i = i + 1;
    }
    assert(kept.take(end - start) =~= kept);
    out
}

/// Tells whether every character of `s` is an ASCII digit.
pub fn is_all_digits(s: &str) -> (b: bool)
    ensures
        b == all_digits(s@),
{
    for c in it: s.chars()
        invariant
            it.seq() == s@,
            forall|j: int| 0 <= j < it.index() ==> is_digit(#[trigger] s@[j]),
    {
        if !is_ascii_digit(c) {
            return false;
        }
    }
    true
}

/// Tells whether two texts hold the same characters.
pub fn same_text(a: &str, b: &str) -> (same: bool)
    ensures
        same == (a@ == b@),
{
    let mut left = a.chars();
    let mut right = b.chars();
    let ghost mut k: int = 0;
    loop
        invariant
            0 <= k <= a@.len(),
            k <= b@.len(),
            left.remaining() == a@.skip(k),
            right.remaining() == b@.skip(k),
            forall|j: int| 0 <= j < k ==> a@[j] == b@[j],
        decreases a@.len() - k,
    {
        let x = left.next();
        let y = right.next();
        match (x, y) {
            (Some(p), Some(q)) => {
                if p != q {
                    return false;
                }
                proof {
                    assert(a@.skip(k).drop_first() =~= a@.skip(k + 1));
                    assert(b@.skip(k).drop_first() =~= b@.skip(k + 1));
                    k = k + 1;
                }
            },
            (None, None) => {
                assert(a@ =~= b@);
                return true;
            },
            _ => {
                return false;
            },
        }
    }
}

} // verus!
