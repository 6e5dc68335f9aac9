//! The country table: calling codes, ISO 3166-1 alpha-2 identifiers, and the
//! countries whose national numbers are dialled with a leading trunk `0`.
//!
//! The table is constant data, one row for each country. Each lookup is by the
//! exact text of its key, and takes the first row that holds the key.

use vstd::prelude::*;
use crate::text::{all_digits, is_all_digits, same_text, trim_and_upper, trimmed, upper_text};

verus! {

/// One country of the table.
#[derive(Debug, Clone, Copy, PartialEq, Eq)]
pub struct Country {
    /// The ISO 3166-1 alpha-2 identifier, such as `VN`.
    pub iso: &'static str,
    /// The calling code, such as `84`.
    pub code: &'static str,
    /// Whether national numbers are dialled with a leading trunk `0`, which
    /// has no place in the international form.
    pub trunk_zero: bool,
}

/// What a row of the table holds, as plain text.
pub struct Row {
    pub iso: Seq<char>,
    pub code: Seq<char>,
    pub trunk_zero: bool,
}

impl View for Country {
    type V = Row;

    open spec fn view(&self) -> Row {
        Row { iso: self.iso@, code: self.code@, trunk_zero: self.trunk_zero }
    }
}

/// The number of rows in the table.
pub const ROWS: usize = 25;

/// The table. Where several countries share a calling code, the one that
/// comes first stands for the code.
#[verifier::opaque]
pub open spec fn table() -> Seq<Row> {
    seq![
        Row { iso: "VN"@, code: "84"@, trunk_zero: true },
        Row { iso: "US"@, code: "1"@, trunk_zero: false },
        Row { iso: "CA"@, code: "1"@, trunk_zero: false },
        Row { iso: "SG"@, code: "65"@, trunk_zero: false },
        Row { iso: "TH"@, code: "66"@, trunk_zero: true },
        Row { iso: "CN"@, code: "86"@, trunk_zero: false },
        Row { iso: "JP"@, code: "81"@, trunk_zero: true },
        Row { iso: "KR"@, code: "82"@, trunk_zero: true },
        Row { iso: "GB"@, code: "44"@, trunk_zero: true },
        Row { iso: "DE"@, code: "49"@, trunk_zero: true },
        Row { iso: "FR"@, code: "33"@, trunk_zero: true },
        Row { iso: "AU"@, code: "61"@, trunk_zero: false },
        Row { iso: "NZ"@, code: "64"@, trunk_zero: false },
        Row { iso: "MY"@, code: "60"@, trunk_zero: true },
        Row { iso: "ID"@, code: "62"@, trunk_zero: true },
        Row { iso: "PH"@, code: "63"@, trunk_zero: false },
        Row { iso: "ES"@, code: "34"@, trunk_zero: false },
        Row { iso: "IT"@, code: "39"@, trunk_zero: true },
        Row { iso: "RU"@, code: "7"@, trunk_zero: false },
        Row { iso: "BR"@, code: "55"@, trunk_zero: false },
        Row { iso: "MX"@, code: "52"@, trunk_zero: false },
        Row { iso: "IN"@, code: "91"@, trunk_zero: false },
        Row { iso: "HK"@, code: "852"@, trunk_zero: false },
        Row { iso: "MO"@, code: "853"@, trunk_zero: false },
        Row { iso: "TW"@, code: "886"@, trunk_zero: false },
    ]
}

/// Whether the row at position `i` is the first one with the calling code
/// `code`.
pub open spec fn first_with_code(code: Seq<char>, i: int) -> bool {
    &&& 0 <= i < table().len()
    &&& table()[i].code == code
    &&& forall|j: int| 0 <= j < i ==> (#[trigger] table()[j]).code != code
}

/// Whether the row at position `i` is the first one with the ISO identifier
/// `iso`.
pub open spec fn first_with_iso(iso: Seq<char>, i: int) -> bool {
    &&& 0 <= i < table().len()
    &&& table()[i].iso == iso
    &&& forall|j: int| 0 <= j < i ==> (#[trigger] table()[j]).iso != iso
}

/// Whether `code` is a calling code of the table.
pub open spec fn known_code(code: Seq<char>) -> bool {
    exists|i: int| 0 <= i < table().len() && (#[trigger] table()[i]).code == code
}

/// Whether `iso` is an ISO identifier of the table.
pub open spec fn known_iso(iso: Seq<char>) -> bool {
    exists|i: int| 0 <= i < table().len() && (#[trigger] table()[i]).iso == iso
}

/// The ISO identifier that the table gives for a calling code: that of the
/// first row with the code.
pub open spec fn iso_of_code(code: Seq<char>) -> Option<Seq<char>> {
    if known_code(code) {
        Some(table()[choose|i: int| first_with_code(code, i)].iso)
    } else {
        None
    }
}

/// The calling code of the country that an ISO identifier names.
pub open spec fn code_of_iso(iso: Seq<char>) -> Option<Seq<char>> {
    if known_iso(iso) {
        Some(table()[choose|i: int| first_with_iso(iso, i)].code)
    } else {
        None
    }
}

/// Whether the country that `iso` names dials national numbers with a leading
/// trunk `0`.
pub open spec fn trunk_zero(iso: Seq<char>) -> bool {
    known_iso(iso) && table()[choose|i: int| first_with_iso(iso, i)].trunk_zero
}

/// The text that an optional string slice holds.
pub open spec fn text_of(s: Option<&str>) -> Option<Seq<char>> {
    match s {
        Some(t) => Some(t@),
        None => None,
    }
}

/// The texts that a calling code and its optional ISO identifier hold.
pub open spec fn pair_text(p: Option<(&str, Option<&str>)>) -> Option<(Seq<char>, Option<Seq<char>>)> {
    match p {
        Some((code, iso)) => Some((code@, text_of(iso))),
        None => None,
    }
}

/// The calling code that `digits` begins with, if its first `len` digits are
/// one: with the ISO identifier that the table gives for the code, and without
/// one for a code that the table would hold without a country. The table as it
/// stands holds no such code: see `lemma_known_iff_mapped`.
pub open spec fn match_of_length(digits: Seq<char>, len: int) -> Option<
    (Seq<char>, Option<Seq<char>>),
> {
    let candidate = digits.take(len);
    if digits.len() < len {
        None
    } else if iso_of_code(candidate) is Some {
        Some((candidate, iso_of_code(candidate)))
    } else if known_code(candidate) {
        Some((candidate, None))
    } else {
        None
    }
}

/// The longest calling code that `digits` begins with: three digits are tried
/// first, then two, then one.
pub open spec fn prefix_match(digits: Seq<char>) -> Option<(Seq<char>, Option<Seq<char>>)> {
    if match_of_length(digits, 3) is Some {
        match_of_length(digits, 3)
    } else if match_of_length(digits, 2) is Some {
        match_of_length(digits, 2)
    } else {
        match_of_length(digits, 1)
    }
}

/// What a default-country hint stands for, once white space has been trimmed
/// from it and its letters put in upper case. Three forms are understood, in
/// this order: a plus sign and a calling code, a bare calling code, and an ISO
/// identifier. An ISO identifier is kept as it was given, also where its
/// calling code is shared with another country.
pub open spec fn folded_hint_target(up: Seq<char>) -> Option<(Seq<char>, Option<Seq<char>>)> {
    if up.len() > 0 && up[0] == '+' && all_digits(up.skip(1)) {
        let code = up.skip(1);
        if 1 <= code.len() <= 3 && known_code(code) {
            Some((code, iso_of_code(code)))
        } else {
            None
        }
    } else if all_digits(up) && 1 <= up.len() <= 3 {
        if known_code(up) {
            Some((up, iso_of_code(up)))
        } else {
            None
        }
    } else {
        match code_of_iso(up) {
            Some(code) => Some((code, Some(up))),
            None => None,
        }
    }
}

/// What a default-country hint stands for, as the caller gave it.
pub open spec fn hint_target(hint: Seq<char>) -> Option<(Seq<char>, Option<Seq<char>>)> {
    folded_hint_target(upper_text(trimmed(hint)))
}

/// Spells out the rows of the table, character by character.
pub proof fn lemma_table_texts()
    ensures
        table().len() == ROWS,
        table()[0].iso == seq!['V', 'N'] && table()[0].code == seq!['8', '4'],
        table()[1].iso == seq!['U', 'S'] && table()[1].code == seq!['1'],
        table()[2].iso == seq!['C', 'A'] && table()[2].code == seq!['1'],
        table()[3].iso == seq!['S', 'G'] && table()[3].code == seq!['6', '5'],
        table()[4].iso == seq!['T', 'H'] && table()[4].code == seq!['6', '6'],
        table()[5].iso == seq!['C', 'N'] && table()[5].code == seq!['8', '6'],
        table()[6].iso == seq!['J', 'P'] && table()[6].code == seq!['8', '1'],
        table()[7].iso == seq!['K', 'R'] && table()[7].code == seq!['8', '2'],
        table()[8].iso == seq!['G', 'B'] && table()[8].code == seq!['4', '4'],
        table()[9].iso == seq!['D', 'E'] && table()[9].code == seq!['4', '9'],
        table()[10].iso == seq!['F', 'R'] && table()[10].code == seq!['3', '3'],
        table()[11].iso == seq!['A', 'U'] && table()[11].code == seq!['6', '1'],
        table()[12].iso == seq!['N', 'Z'] && table()[12].code == seq!['6', '4'],
        table()[13].iso == seq!['M', 'Y'] && table()[13].code == seq!['6', '0'],
        table()[14].iso == seq!['I', 'D'] && table()[14].code == seq!['6', '2'],
        table()[15].iso == seq!['P', 'H'] && table()[15].code == seq!['6', '3'],
        table()[16].iso == seq!['E', 'S'] && table()[16].code == seq!['3', '4'],
        table()[17].iso == seq!['I', 'T'] && table()[17].code == seq!['3', '9'],
        table()[18].iso == seq!['R', 'U'] && table()[18].code == seq!['7'],
        table()[19].iso == seq!['B', 'R'] && table()[19].code == seq!['5', '5'],
        table()[20].iso == seq!['M', 'X'] && table()[20].code == seq!['5', '2'],
        table()[21].iso == seq!['I', 'N'] && table()[21].code == seq!['9', '1'],
        table()[22].iso == seq!['H', 'K'] && table()[22].code == seq!['8', '5', '2'],
        table()[23].iso == seq!['M', 'O'] && table()[23].code == seq!['8', '5', '3'],
        table()[24].iso == seq!['T', 'W'] && table()[24].code == seq!['8', '8', '6'],
{
    reveal(table);
    reveal_strlit("VN");
    reveal_strlit("84");
    reveal_strlit("US");
    reveal_strlit("1");
    reveal_strlit("CA");
    reveal_strlit("SG");
    reveal_strlit("65");
    reveal_strlit("TH");
    reveal_strlit("66");
    reveal_strlit("CN");
    reveal_strlit("86");
    reveal_strlit("JP");
    reveal_strlit("81");
    reveal_strlit("KR");
    reveal_strlit("82");
    reveal_strlit("GB");
    reveal_strlit("44");
    reveal_strlit("DE");
    reveal_strlit("49");
    reveal_strlit("FR");
    reveal_strlit("33");
    reveal_strlit("AU");
    reveal_strlit("61");
    reveal_strlit("NZ");
    reveal_strlit("64");
    reveal_strlit("MY");
    reveal_strlit("60");
    reveal_strlit("ID");
    reveal_strlit("62");
    reveal_strlit("PH");
    reveal_strlit("63");
    reveal_strlit("ES");
    reveal_strlit("34");
    reveal_strlit("IT");
    reveal_strlit("39");
    reveal_strlit("RU");
    reveal_strlit("7");
    reveal_strlit("BR");
    reveal_strlit("55");
    reveal_strlit("MX");
    reveal_strlit("52");
    reveal_strlit("IN");
    reveal_strlit("91");
    reveal_strlit("HK");
    reveal_strlit("852");
    reveal_strlit("MO");
    reveal_strlit("853");
    reveal_strlit("TW");
    reveal_strlit("886");
    assert(table()[0].iso =~= seq!['V', 'N'] && table()[0].code =~= seq!['8', '4']);
    assert(table()[1].iso =~= seq!['U', 'S'] && table()[1].code =~= seq!['1']);
    assert(table()[2].iso =~= seq!['C', 'A'] && table()[2].code =~= seq!['1']);
    assert(table()[3].iso =~= seq!['S', 'G'] && table()[3].code =~= seq!['6', '5']);
    assert(table()[4].iso =~= seq!['T', 'H'] && table()[4].code =~= seq!['6', '6']);
    assert(table()[5].iso =~= seq!['C', 'N'] && table()[5].code =~= seq!['8', '6']);
    assert(table()[6].iso =~= seq!['J', 'P'] && table()[6].code =~= seq!['8', '1']);
    assert(table()[7].iso =~= seq!['K', 'R'] && table()[7].code =~= seq!['8', '2']);
    assert(table()[8].iso =~= seq!['G', 'B'] && table()[8].code =~= seq!['4', '4']);
    assert(table()[9].iso =~= seq!['D', 'E'] && table()[9].code =~= seq!['4', '9']);
    assert(table()[10].iso =~= seq!['F', 'R'] && table()[10].code =~= seq!['3', '3']);
    assert(table()[11].iso =~= seq!['A', 'U'] && table()[11].code =~= seq!['6', '1']);
    assert(table()[12].iso =~= seq!['N', 'Z'] && table()[12].code =~= seq!['6', '4']);
    assert(table()[13].iso =~= seq!['M', 'Y'] && table()[13].code =~= seq!['6', '0']);
    assert(table()[14].iso =~= seq!['I', 'D'] && table()[14].code =~= seq!['6', '2']);
    assert(table()[15].iso =~= seq!['P', 'H'] && table()[15].code =~= seq!['6', '3']);
    assert(table()[16].iso =~= seq!['E', 'S'] && table()[16].code =~= seq!['3', '4']);
    assert(table()[17].iso =~= seq!['I', 'T'] && table()[17].code =~= seq!['3', '9']);
    assert(table()[18].iso =~= seq!['R', 'U'] && table()[18].code =~= seq!['7']);
    assert(table()[19].iso =~= seq!['B', 'R'] && table()[19].code =~= seq!['5', '5']);
    assert(table()[20].iso =~= seq!['M', 'X'] && table()[20].code =~= seq!['5', '2']);
    assert(table()[21].iso =~= seq!['I', 'N'] && table()[21].code =~= seq!['9', '1']);
    assert(table()[22].iso =~= seq!['H', 'K'] && table()[22].code =~= seq!['8', '5', '2']);
    assert(table()[23].iso =~= seq!['M', 'O'] && table()[23].code =~= seq!['8', '5', '3']);
    assert(table()[24].iso =~= seq!['T', 'W'] && table()[24].code =~= seq!['8', '8', '6']);
}

/// No two rows of the table hold the same ISO identifier.
pub proof fn lemma_iso_unique(i: int, j: int)
    requires
        0 <= i < table().len(),
        0 <= j < table().len(),
        table()[i].iso == table()[j].iso,
    ensures
        i == j,
{
    lemma_table_texts();
    assert(table()[i].iso[0] == table()[j].iso[0]);
    assert(table()[i].iso[1] == table()[j].iso[1]);
}

/// The table maps every calling code that it holds to a country.
pub proof fn lemma_known_iff_mapped(code: Seq<char>)
    ensures
        known_code(code) <==> iso_of_code(code) is Some,
{
}

/// A calling code of the table has one to three digits, the first of them
/// not `0`.
pub proof fn lemma_code_shape(code: Seq<char>)
    requires
        known_code(code),
    ensures
        1 <= code.len() <= 3,
        all_digits(code),
        code[0] != '0',
{
    lemma_table_texts();
}

/// No calling code of the table begins with another one: whichever code a
/// number begins with, it begins with no other.
pub proof fn lemma_codes_prefix_free(a: Seq<char>, b: Seq<char>)
    requires
        known_code(a),
        known_code(b),
        a.len() <= b.len(),
        b.take(a.len() as int) == a,
    ensures
        a == b,
{
    lemma_table_texts();
    assert(a.len() > 0);
    assert(b.take(a.len() as int)[0] == b[0]);
    if a.len() >= 2 {
        assert(b.take(a.len() as int)[1] == b[1]);
    }
    if a.len() < b.len() {
        assert(a[0] == b[0]);
        if a.len() == 2 {
            assert(a[1] == b[1]);
        }
    } else {
        assert(b.take(a.len() as int) =~= b);
    }
}

/// The two directions of the table agree: the country that a calling code is
/// mapped to has that calling code, and every ISO identifier of the table has
/// two letters and a calling code of the table. Only countries of the table
/// are known to use a trunk `0`.
pub proof fn lemma_table_agrees(code: Seq<char>, iso: Seq<char>)
    ensures
        iso_of_code(code) == Some(iso) ==> code_of_iso(iso) == Some(code),
        code_of_iso(iso) == Some(code) ==> known_code(code) && iso.len() == 2,
        trunk_zero(iso) ==> code_of_iso(iso) is Some,
{
    if iso_of_code(code) == Some(iso) {
        lemma_first_with_code(code);
        let i = choose|i: int| first_with_code(code, i);
        assert(table()[i].iso == iso);
        lemma_first_with_iso(iso);
        lemma_iso_unique(i, choose|j: int| first_with_iso(iso, j));
    }
    if code_of_iso(iso) == Some(code) {
        lemma_first_with_iso(iso);
        let j = choose|j: int| first_with_iso(iso, j);
        assert(table()[j].code == code);
        lemma_table_texts();
    }
}

/// A calling code of the table has a first row that holds it.
pub proof fn lemma_first_with_code(code: Seq<char>)
    requires
        known_code(code),
    ensures
        first_with_code(code, choose|i: int| first_with_code(code, i)),
{
    let some = choose|i: int| 0 <= i < table().len() && (#[trigger] table()[i]).code == code;
    lemma_first_below(code, some);
}

/// Among the rows up to position `upto`, where the code stands, one is the
/// first with the code.
proof fn lemma_first_below(code: Seq<char>, upto: int)
    requires
        0 <= upto < table().len(),
        table()[upto].code == code,
    ensures
        exists|i: int| first_with_code(code, i),
    decreases upto,
{
    if exists|j: int| 0 <= j < upto && (#[trigger] table()[j]).code == code {
        let j = choose|j: int| 0 <= j < upto && (#[trigger] table()[j]).code == code;
        lemma_first_below(code, j);
    } else {
        assert(first_with_code(code, upto));
    }
}

/// An ISO identifier of the table has a first row that holds it.
pub proof fn lemma_first_with_iso(iso: Seq<char>)
    requires
        known_iso(iso),
    ensures
        first_with_iso(iso, choose|i: int| first_with_iso(iso, i)),
{
    let some = choose|i: int| 0 <= i < table().len() && (#[trigger] table()[i]).iso == iso;
    assert(first_with_iso(iso, some)) by {
        assert forall|j: int| 0 <= j < some implies (#[trigger] table()[j]).iso != iso by {
            if table()[j].iso == iso {
                lemma_iso_unique(j, some);
            }
        }
    }
}

/// Each row is found again by its keys: by its ISO identifier, which gives
/// its calling code and its trunk `0`, and by its calling code, which gives
/// its ISO identifier unless a row before it holds the same code.
pub proof fn lemma_row_is_found(i: int)
    requires
        0 <= i < table().len(),
    ensures
        code_of_iso(table()[i].iso) == Some(table()[i].code),
        trunk_zero(table()[i].iso) == table()[i].trunk_zero,
        known_code(table()[i].code),
        (forall|j: int| 0 <= j < i ==> (#[trigger] table()[j]).code != table()[i].code)
            ==> iso_of_code(table()[i].code) == Some(table()[i].iso),
{
    let row = table()[i];
    lemma_first_with_iso(row.iso);
    lemma_iso_unique(i, choose|j: int| first_with_iso(row.iso, j));
    if forall|j: int| 0 <= j < i ==> (#[trigger] table()[j]).code != row.code {
        assert(first_with_code(row.code, i));
        let first = choose|j: int| first_with_code(row.code, j);
        assert(first == i);
    }
}

/// The rows of the table.
pub fn countries() -> (rows: [Country; ROWS])
    ensures
        rows@.len() == table().len(),
        forall|i: int| 0 <= i < table().len() ==> (#[trigger] rows@[i])@ == table()[i],
{
    proof {
        reveal(table);
    }
    [
        Country { iso: "VN", code: "84", trunk_zero: true },
        Country { iso: "US", code: "1", trunk_zero: false },
        Country { iso: "CA", code: "1", trunk_zero: false },
        Country { iso: "SG", code: "65", trunk_zero: false },
        Country { iso: "TH", code: "66", trunk_zero: true },
        Country { iso: "CN", code: "86", trunk_zero: false },
        Country { iso: "JP", code: "81", trunk_zero: true },
        Country { iso: "KR", code: "82", trunk_zero: true },
        Country { iso: "GB", code: "44", trunk_zero: true },
        Country { iso: "DE", code: "49", trunk_zero: true },
        Country { iso: "FR", code: "33", trunk_zero: true },
        Country { iso: "AU", code: "61", trunk_zero: false },
        Country { iso: "NZ", code: "64", trunk_zero: false },
        Country { iso: "MY", code: "60", trunk_zero: true },
        Country { iso: "ID", code: "62", trunk_zero: true },
        Country { iso: "PH", code: "63", trunk_zero: false },
        Country { iso: "ES", code: "34", trunk_zero: false },
        Country { iso: "IT", code: "39", trunk_zero: true },
        Country { iso: "RU", code: "7", trunk_zero: false },
        Country { iso: "BR", code: "55", trunk_zero: false },
        Country { iso: "MX", code: "52", trunk_zero: false },
        Country { iso: "IN", code: "91", trunk_zero: false },
        Country { iso: "HK", code: "852", trunk_zero: false },
        Country { iso: "MO", code: "853", trunk_zero: false },
        Country { iso: "TW", code: "886", trunk_zero: false },
    ]
}

/// Finds the first row with the calling code `code`.
pub fn find_code(code: &str) -> (found: Option<Country>)
    ensures
        match found {
            Some(row) => exists|i: int| first_with_code(code@, i) && row@ == table()[i],
            None => !known_code(code@),
        },
{
    let rows = countries();
    let mut i: usize = 0;
    while i < rows.len()
        invariant
            i <= rows@.len() == table().len(),
            forall|k: int| 0 <= k < table().len() ==> (#[trigger] rows@[k])@ == table()[k],
            forall|j: int| 0 <= j < i ==> (#[trigger] table()[j]).code != code@,
        decreases rows@.len() - i,
    {
        if same_text(code, rows[i].code) {
            assert(first_with_code(code@, i as int));
            return Some(rows[i]);
        }
        i = i + 1;
    }
    None
}

/// Finds the first row with the ISO identifier `iso`.
pub fn find_iso(iso: &str) -> (found: Option<Country>)
    ensures
        match found {
            Some(row) => exists|i: int| first_with_iso(iso@, i) && row@ == table()[i],
            None => !known_iso(iso@),
        },
{
    let rows = countries();
    let mut i: usize = 0;
    while i < rows.len()
        invariant
            i <= rows@.len() == table().len(),
            forall|k: int| 0 <= k < table().len() ==> (#[trigger] rows@[k])@ == table()[k],
            forall|j: int| 0 <= j < i ==> (#[trigger] table()[j]).iso != iso@,
        decreases rows@.len() - i,
    {
        if same_text(iso, rows[i].iso) {
            assert(first_with_iso(iso@, i as int));
            return Some(rows[i]);
        }
        i = i + 1;
    }
    None
}

/// Looks a calling code up and gives the ISO identifier of its country.
pub fn code_to_iso(code: &str) -> (iso: Option<&'static str>)
    ensures
        text_of(iso) == iso_of_code(code@),
{
    match find_code(code) {
        Some(row) => Some(row.iso),
        None => None,
    }
}

/// Tells whether `code` is a calling code that the table accepts.
pub fn is_known_code(code: &str) -> (known: bool)
    ensures
        known == known_code(code@),
{
    find_code(code).is_some()
}

/// Gives the table's own copy of a calling code, which outlives the caller's
/// text; nothing for a code that the table does not accept.
pub fn code_to_cow_static(code: &str) -> (held: Option<&'static str>)
    ensures
        text_of(held) == if known_code(code@) {
            Some(code@)
        } else {
            None
        },
{
    match find_code(code) {
        Some(row) => Some(row.code),
        None => None,
    }
}

/// Tells whether the country that `iso` names uses a leading trunk `0`.
pub fn is_trunk_zero_country(iso: &str) -> (trunk: bool)
    ensures
        trunk == trunk_zero(iso@),
{
    match find_iso(iso) {
        Some(row) => row.trunk_zero,
        None => false,
    }
}

/// Looks an ISO identifier up and gives its calling code together with the
/// table's own copy of the identifier.
pub fn iso_to_code(iso: &str) -> (found: Option<(&'static str, Option<&'static str>)>)
    ensures
        pair_text(found) == match code_of_iso(iso@) {
            Some(code) => Some((code, Some(iso@))),
            None => None,
        },
{
    match find_iso(iso) {
        Some(row) => Some((row.code, Some(row.iso))),
        None => None,
    }
}

/// Tries the first `len` digits of `digits` as a calling code.
pub fn match_code_of_length(digits: &str, len: usize) -> (found: Option<
    (&'static str, Option<&'static str>),
>)
    ensures
        pair_text(found) == match_of_length(digits@, len as int),
{
    let n = digits.unicode_len();
    if n < len {
        return None;
    }
    let candidate = digits.substring_char(0, len);
    let iso = code_to_iso(candidate);
    if iso.is_some() || is_known_code(candidate) {
        match code_to_cow_static(candidate) {
            Some(code) => Some((code, iso)),
            None => None,
        }
    } else {
        None
    }
}

/// Finds the longest calling code that `digits_after_plus` begins with, and the
/// ISO identifier of its country where the table knows one.
pub fn match_country_code_prefix(digits_after_plus: &str) -> (found: Option<
    (&'static str, Option<&'static str>),
>)
    ensures
        pair_text(found) == prefix_match(digits_after_plus@),
{
    let mut len: usize = 3;
    while len > 0
        invariant
            len <= 3,
            forall|l: int| len < l <= 3 ==> match_of_length(digits_after_plus@, l) is None,
        decreases len,
    {
        let found = match_code_of_length(digits_after_plus, len);
        if found.is_some() {
            return found;
        }
        len = len - 1;
    }
    assert(match_of_length(digits_after_plus@, 1) is None);
    None
}

/// Resolves a hint that has already been trimmed and put in upper case.
pub fn resolve_folded_hint(up: &str) -> (found: Option<(&'static str, Option<&'static str>)>)
    ensures
        pair_text(found) == folded_hint_target(up@),
{
    let n = up.unicode_len();
    if n > 0 && up.get_char(0) == '+' {
        let code = up.substring_char(1, n);
        assert(code@ == up@.skip(1));
        if is_all_digits(code) {
            if n >= 2 && n <= 4 {
                return match code_to_cow_static(code) {
                    Some(held) => Some((held, code_to_iso(code))),
                    None => None,
                };
            }
            return None;
        }
    }
    if n >= 1 && n <= 3 && is_all_digits(up) {
        return match code_to_cow_static(up) {
            Some(held) => Some((held, code_to_iso(up))),
            None => None,
        };
    }
    iso_to_code(up)
}

/// Resolves a default-country hint: an ISO identifier such as `"VN"`, a calling
/// code such as `"84"`, or a calling code after a plus sign such as `"+84"`.
/// White space around the hint and the case of its letters do not matter.
pub fn resolve_country_hint(hint: &str) -> (found: Option<(&'static str, Option<&'static str>)>)
    ensures
        pair_text(found) == hint_target(hint@),
{
    let up = trim_and_upper(hint);
    resolve_folded_hint(up.as_str())
}

} // verus!
