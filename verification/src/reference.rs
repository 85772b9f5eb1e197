//! Cell references such as `AB17`, and ranges such as `A1:D9`.

use crate::column::{all_capitals, capitals_of, column_letters, column_of_letters, is_letter,
    lemma_letters_of_number, lemma_number_of_letters, letters_to_column};
use crate::number::{all_digits, bounded_number, decimal_text, lemma_decimal_text,
    lemma_digits_are_decimal_text, parse_number};
use crate::text::{chars_of, push_char, string_of};
use vstd::prelude::*;
use vstd::string::StringExecFns;

verus! {

/// How many characters at the start of `s` are letters.
pub open spec fn letters_len(s: Seq<char>) -> int
    decreases s.len(),
{
    if s.len() > 0 && is_letter(s[0]) {
        1 + letters_len(s.skip(1))
    } else {
        0
    }
}

/// Where the first `:` of `s` stands; the length of `s` if it has none.
pub open spec fn colon_index(s: Seq<char>) -> int
    decreases s.len(),
{
    if s.len() > 0 && s[0] != ':' {
        1 + colon_index(s.skip(1))
    } else {
        0
    }
}

/// The column and the row that the reference `s` names: its leading letters
/// read as a column in either case, the rest read as a row number.
pub open spec fn reference_coordinates(s: Seq<char>) -> Option<(u16, u32)> {
    let k = letters_len(s);
    let col = column_of_letters(capitals_of(s.take(k)));
    let row = bounded_number(s.skip(k), u32::MAX as int);
    if col is Some && row is Some {
        Some((col->0, row->0 as u32))
    } else {
        None
    }
}

/// The last row and the last column of the range `s`: those of the reference
/// behind its first `:`. A text without `:` gives `(0, 0)`, which stands for
/// an area that is not known.
pub open spec fn used_area_of(s: Seq<char>) -> Option<(u32, u16)> {
    let c = colon_index(s);
    if c == s.len() {
        Some((0u32, 0u16))
    } else {
        match reference_coordinates(s.skip(c + 1)) {
            Some((col, row)) => Some((row, col)),
            None => None,
        }
    }
}

/// The reference of the cell in column `col` of row `row`.
pub open spec fn reference_text(col: int, row: int) -> Seq<char> {
    column_letters(col) + decimal_text(row)
}

/// The leading letters of `s` end at `k` if all before `k` are letters and
/// the character at `k`, if there is one, is none.
pub proof fn lemma_letters_len(s: Seq<char>, k: int)
    requires
        0 <= k <= s.len(),
        forall|i: int| 0 <= i < k ==> is_letter(#[trigger] s[i]),
        k < s.len() ==> !is_letter(s[k]),
    ensures
        letters_len(s) == k,
    decreases k,
{
    if k > 0 {
        let t = s.skip(1);
        lemma_letters_len(t, k - 1);
    }
}

/// The first `:` of `s` stands at `k` if none stands before `k` and one
/// stands at `k`, or `k` is the end.
pub proof fn lemma_colon_index(s: Seq<char>, k: int)
    requires
        0 <= k <= s.len(),
        forall|i: int| 0 <= i < k ==> #[trigger] s[i] != ':',
        k < s.len() ==> s[k] == ':',
    ensures
        colon_index(s) == k,
    decreases k,
{
    if k > 0 {
        let t = s.skip(1);
        lemma_colon_index(t, k - 1);
    }
}

/// The reference written for a column and a row names that column and row.
pub proof fn lemma_reference_round_trip(col: int, row: int)
    requires
        1 <= col <= 16384,
        0 <= row <= u32::MAX,
    ensures
        reference_coordinates(reference_text(col, row)) == Some((col as u16, row as u32)),
{
    let letters = column_letters(col);
    let digits = decimal_text(row);
    let s = reference_text(col, row);
    lemma_letters_of_number(col);
    lemma_decimal_text(row);
    let k = letters.len() as int;
    lemma_letters_len(s, k);
    assert(s.take(k) == letters);
    assert(s.skip(k) == digits);
    assert(capitals_of(letters) =~= letters);
}

/// The leading letters of a text are no more than the text.
pub proof fn lemma_letters_len_bound(s: Seq<char>)
    ensures
        0 <= letters_len(s) <= s.len(),
    decreases s.len(),
{
    if s.len() > 0 && is_letter(s[0]) {
        lemma_letters_len_bound(s.skip(1));
    }
}

/// The reference is written the one way in which references are written
/// out: capital letters, then digits with no sign and no zero before them.
pub open spec fn is_canonical(s: Seq<char>) -> bool {
    let k = letters_len(s);
    &&& all_capitals(s.take(k))
    &&& s.skip(k).len() > 0
    &&& all_digits(s.skip(k))
    &&& s.skip(k)[0] != '0' || s.skip(k).len() == 1
}

/// A reference that is written the one way names a column and a row whose
/// reference, written out, is that reference letter for letter.
pub proof fn lemma_canonical_reference(s: Seq<char>)
    requires
        is_canonical(s),
        reference_coordinates(s) is Some,
    ensures
        reference_coordinates(s) matches Some((col, row)) && s == reference_text(
            col as int,
            row as int,
        ),
{
    let k = letters_len(s);
    lemma_letters_len_bound(s);
    let letters = s.take(k);
    let digits = s.skip(k);
    assert(capitals_of(letters) =~= letters);
    lemma_number_of_letters(letters);
    lemma_digits_are_decimal_text(digits);
    let row = bounded_number(digits, u32::MAX as int)->0;
    assert(0 <= row <= u32::MAX) by {
        crate::number::lemma_digits_nonnegative(digits);
    }
}

/// Whether `c` is a letter of the Latin alphabet.
fn is_letter_char(c: char) -> (b: bool)
    ensures
        b == is_letter(c),
{
    (c >= 'A' && c <= 'Z') || (c >= 'a' && c <= 'z')
}

/// Where the letters that begin at `from` end.
fn letters_end(chars: &[char], from: usize) -> (k: usize)
    requires
        from <= chars@.len(),
    ensures
        from <= k <= chars@.len(),
        k - from == letters_len(chars@.skip(from as int)),
{
    let mut k: usize = from;
    while k < chars.len() && is_letter_char(chars[k])
        invariant
            from <= k <= chars@.len(),
            forall|i: int| from <= i < k ==> is_letter(#[trigger] chars@[i]),
        decreases chars@.len() - k,
    {
        k = k + 1;
    }
    proof {
        let t = chars@.skip(from as int);
        lemma_letters_len(t, k - from);
    }
    k
}

/// The capitals of the letters `chars[from..to]`.
fn capitals(chars: &[char], from: usize, to: usize) -> (s: String)
    requires
        from <= to <= chars@.len(),
    ensures
        s@ == capitals_of(chars@.subrange(from as int, to as int)),
{
    let mut s = String::new();
    let mut i: usize = from;
    while i < to
        invariant
            from <= i <= to <= chars@.len(),
            s@ == capitals_of(chars@.subrange(from as int, i as int)),
        decreases to - i,
    {
        let c = chars[i];
        let up = if c >= 'a' && c <= 'z' {
            ((c as u32 - 32) as u8) as char
        } else {
            c
        };
        push_char(&mut s, up);
        i = i + 1;
    }
    s
}

/// The column and the row that `chars[from..]` names, if it is a reference.
fn coordinates_from(chars: &[char], from: usize) -> (r: Option<(u16, u32)>)
    requires
        from <= chars@.len(),
    ensures
        r == reference_coordinates(chars@.skip(from as int)),
{
    let ghost s = chars@.skip(from as int);
    let k = letters_end(chars, from);
    let letters = capitals(chars, from, k);
    let col = letters_to_column(letters.as_str());
    let row = parse_number(chars, k, chars.len(), 0xffff_ffff);
    proof {
        assert(chars@.subrange(from as int, k as int) == s.take(k - from));
        assert(chars@.subrange(k as int, chars@.len() as int) == s.skip(k - from));
    }
    match (col, row) {
        (Some(c), Some(n)) => Some((c, n as u32)),
        _ => None,
    }
}

/// Splits a reference into its column letters and its row digits, at the
/// first character that is no letter.
pub fn split(reference: &str) -> (r: (String, String))
    ensures
        r.0@ == reference@.take(letters_len(reference@)),
        r.1@ == reference@.skip(letters_len(reference@)),
{
    let chars = chars_of(reference);
    let k = letters_end(&chars, 0);
    proof {
        assert(chars@.skip(0) == chars@);
    }
    (string_of(&chars, 0, k), string_of(&chars, k, chars.len()))
}

/// The column and the row that the reference names, if it names any.
pub fn parse_reference(reference: &str) -> (r: Option<(u16, u32)>)
    ensures
        r == reference_coordinates(reference@),
{
    let chars = chars_of(reference);
    proof {
        assert(chars@.skip(0) == chars@);
    }
    coordinates_from(&chars, 0)
}

/// Return the column and row coordinates of the reference `r`.
pub fn coordinates(r: String) -> (c: (u16, u32))
    requires
        reference_coordinates(r@) is Some,
    ensures
        Some(c) == reference_coordinates(r@),
{
    match parse_reference(r.as_str()) {
        Some(c) => c,
        None => (0, 0),
    }
}

/// The last row and column of a range, if the text behind its `:` is a
/// reference; `(0, 0)` for a text without `:`.
pub fn parse_used_area(range: &str) -> (r: Option<(u32, u16)>)
    ensures
        r == used_area_of(range@),
{
    let chars = chars_of(range);
    let mut c: usize = 0;
    while c < chars.len() && chars[c] != ':'
        invariant
            c <= chars@.len(),
            forall|i: int| 0 <= i < c ==> #[trigger] chars@[i] != ':',
        decreases chars@.len() - c,
    {
        c = c + 1;
    }
    proof {
        lemma_colon_index(chars@, c as int);
    }
    if c == chars.len() {
        return Some((0, 0));
    }
    match coordinates_from(&chars, c + 1) {
        Some((col, row)) => Some((row, col)),
        None => None,
    }
}

/// Find the number of rows and columns used in a worksheet from the range
/// of its used area. Returns a tuple of (rows, columns).
pub fn used_area(used_area_range: &str) -> (r: (u32, u16))
    requires
        used_area_of(used_area_range@) is Some,
    ensures
        Some(r) == used_area_of(used_area_range@),
{
    match parse_used_area(used_area_range) {
        Some(area) => area,
        None => (0, 0),
    }
}

/// Appends to `s` the reference of the cell in column `col` of row `row`.
pub fn push_reference(s: &mut String, col: u16, row: u64)
    requires
        1 <= col <= 16384,
    ensures
        final(s)@ == old(s)@ + reference_text(col as int, row as int),
{
    match crate::column::col_num_to_letter(col) {
        Some(letters) => {
            s.append(letters.as_str());
        },
        None => {},
    }
    crate::number::push_number(s, row);
}

} // verus!
