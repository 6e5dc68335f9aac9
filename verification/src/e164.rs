//! The syntax of an E.164 number: a plus sign followed by 7 to 15 digits.

use vstd::prelude::*;
use crate::text::{all_digits, is_ascii_digit, is_digit};

verus! {

/// The fewest digits an E.164 number may have.
pub const MIN_DIGITS: usize = 7;

/// The most digits an E.164 number may have.
pub const MAX_DIGITS: usize = 15;

/// Whether `s` is a plus sign followed by at least `MIN_DIGITS` and at most
/// `MAX_DIGITS` ASCII digits, and nothing else. No numbering plan is consulted.
pub open spec fn valid_e164(s: Seq<char>) -> bool {
    &&& s.len() > 0
    &&& s[0] == '+'
    &&& all_digits(s.skip(1))
    &&& MIN_DIGITS <= s.len() - 1 <= MAX_DIGITS
}

/// Text that lacks the leading plus sign is never a valid E.164 number.
pub proof fn lemma_invalid_without_plus(s: Seq<char>)
    requires
        s.len() == 0 || s[0] != '+',
    ensures
        !valid_e164(s),
{
}

/// Text that holds anything but a digit after its first character is never
/// a valid E.164 number.
pub proof fn lemma_invalid_with_non_digit(s: Seq<char>, i: int)
    requires
        1 <= i < s.len(),
        !is_digit(s[i]),
    ensures
        !valid_e164(s),
{
    assert(s.skip(1)[i - 1] == s[i]);
}

/// Text with fewer than `MIN_DIGITS` or more than `MAX_DIGITS` characters after
/// the first is never a valid E.164 number.
pub proof fn lemma_invalid_by_length(s: Seq<char>)
    requires
        s.len() < 1 + MIN_DIGITS || s.len() > 1 + MAX_DIGITS,
    ensures
        !valid_e164(s),
{
}

/// Checks whether `s` is a valid E.164 number, by its syntax only.
pub fn is_valid_e164(s: &str) -> (ok: bool)
    ensures
        ok == valid_e164(s@),
{
    let mut seen: usize = 0;
    for c in it: s.chars()
        invariant
            it.seq() == s@,
            seen == it.index(),
            seen <= 1 + MAX_DIGITS,
            seen > 0 ==> s@[0] == '+',
            forall|j: int| 1 <= j < seen ==> is_digit(#[trigger] s@[j]),
    {
        if seen == 0 {
            if c != '+' {
                return false;
            }
        } else {
            if !is_ascii_digit(c) {
                proof {
                    lemma_invalid_with_non_digit(s@, seen as int);
                }
                return false;
            }
            if seen > MAX_DIGITS {
                return false;
            }
        }
        seen = seen + 1;
    }
    seen > MIN_DIGITS
}

} // verus!
