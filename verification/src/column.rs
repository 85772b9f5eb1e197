//! Column codes: the letters `A` to `XFD` and the numbers 1 to 16384.

use crate::text::{chars_of, push_char};
use regex::Regex;
use vstd::prelude::*;

verus! {

/// The last column of a sheet, `XFD`.
pub const XL_MAX_COL: u16 = 16384;

/// The first column of a sheet, `A`.
pub const XL_MIN_COL: u16 = 1;

/// `c` is one of the capital letters `A` to `Z`.
pub open spec fn is_capital(c: char) -> bool {
    65 <= c as int <= 90
}

/// Every character of `s` is a capital letter.
pub open spec fn all_capitals(s: Seq<char>) -> bool {
    forall|i: int| 0 <= i < s.len() ==> is_capital(#[trigger] s[i])
}

/// `c` is a letter of the Latin alphabet, of either case.
pub open spec fn is_letter(c: char) -> bool {
    is_capital(c) || 97 <= c as int <= 122
}

/// The capital of a small Latin letter; any other character as it is.
pub open spec fn capital_of(c: char) -> char {
    if 97 <= c as int <= 122 {
        ((c as int - 32) as u8) as char
    } else {
        c
    }
}

/// The text `s` with its small Latin letters made capitals.
pub open spec fn capitals_of(s: Seq<char>) -> Seq<char> {
    Seq::new(s.len(), |i: int| capital_of(s[i]))
}

/// Every character of `s` is one of ASCII.
pub open spec fn all_ascii(s: Seq<char>) -> bool {
    forall|i: int| 0 <= i < s.len() ==> (#[trigger] s[i]) as int <= 127
}

/// Every character of `s` is a letter of the Latin alphabet.
pub open spec fn all_letters(s: Seq<char>) -> bool {
    forall|i: int| 0 <= i < s.len() ==> is_letter(#[trigger] s[i])
}

/// The digit, 1 to 26, that the capital letter `c` stands for.
pub open spec fn digit_of_letter(c: char) -> int {
    c as int - 64
}

/// The capital letter that stands for the digit `d`, 1 to 26.
pub open spec fn letter_of_digit(d: int) -> char {
    ((64 + d) as u8) as char
}

/// The number that the letters `s` write: a numeral in base 26 whose digits
/// run from 1 to 26, the most significant first.
pub open spec fn letters_value(s: Seq<char>) -> int
    decreases s.len(),
{
    if s.len() == 0 {
        0
    } else {
        letters_value(s.drop_last()) * 26 + digit_of_letter(s.last())
    }
}

/// The letters that write the number `n`; none for a number below 1.
pub open spec fn column_letters(n: int) -> Seq<char>
    decreases n,
{
    if n <= 0 {
        Seq::empty()
    } else {
        column_letters((n - 1) / 26).push(letter_of_digit((n - 1) % 26 + 1))
    }
}

/// The column number of the letters `s`, where they are capitals that write
/// a number from 1 to 16384.
pub open spec fn column_of_letters(s: Seq<char>) -> Option<u16> {
    if all_capitals(s) && 1 <= letters_value(s) <= 16384 {
        Some(letters_value(s) as u16)
    } else {
        None
    }
}

/// At least one character of `s` is a capital letter.
pub open spec fn has_capital(s: Seq<char>) -> bool {
    exists|i: int| 0 <= i < s.len() && is_capital(#[trigger] s[i])
}

/// What `str::to_uppercase` of std makes of the text `s`.
pub uninterp spec fn uppercase_text(s: Seq<char>) -> Seq<char>;

/// `str::to_uppercase` of std: the upper-case form of `s` by the rules of
/// Unicode, which depends on the characters of `s` alone. Of a text of
/// ASCII it is the text with its small Latin letters made capitals.
#[verifier::external_body]
fn to_uppercase(s: &str) -> (r: String)
    ensures
        r@ == uppercase_text(s@),
        all_ascii(s@) ==> r@ == capitals_of(s@),
{
    s.to_uppercase()
}

/// `Regex::new` and `Regex::is_match` of the regex crate, for the one
/// pattern `[A-Z]+`: it matches anywhere in `text`, so the answer is whether
/// `text` holds at least one capital letter.
#[verifier::external_body]
fn pattern_is_match(pattern: &str, text: &str) -> (r: bool)
    requires
        pattern@ == "[A-Z]+"@,
    ensures
        r == has_capital(text@),
{
    match Regex::new(pattern) {
        Ok(re) => re.is_match(text),
        Err(_) => false,
    }
}

/// The letters of a capital numeral are worth at least as much as any of
/// its prefixes.
pub proof fn lemma_value_grows(s: Seq<char>, k: int)
    requires
        all_capitals(s),
        0 <= k <= s.len(),
    ensures
        0 <= letters_value(s.take(k)) <= letters_value(s),
        k >= 1 ==> letters_value(s.take(k)) >= 1,
    decreases s.len() - k,
{
    if k == s.len() {
        assert(s.take(k) == s);
        lemma_value_positive(s);
    } else {
        lemma_value_grows(s, k + 1);
        let t = s.take(k + 1);
        assert(t.drop_last() == s.take(k));
        lemma_value_positive(s.take(k));
    }
}

/// A capital numeral is worth at least as much as it has letters.
pub proof fn lemma_value_positive(s: Seq<char>)
    requires
        all_capitals(s),
    ensures
        letters_value(s) >= s.len(),
    decreases s.len(),
{
    if s.len() > 0 {
        lemma_value_positive(s.drop_last());
    }
}

/// Return column letter for column number `n`.
pub fn col_num_to_letter(n: u16) -> (r: Option<String>)
    ensures
        r is Some <==> 1 <= n <= 16384,
        r matches Some(s) ==> s@ == column_letters(n as int),
{
    if n > XL_MAX_COL || n < XL_MIN_COL {
        return None;
    }
    let mut digits: Vec<char> = Vec::new();
    let mut m: u16 = n;
    while m > 0
        invariant
            column_letters(n as int) == column_letters(m as int) + digits@.reverse(),
        decreases m,
    {
        let d: u8 = ((m - 1) % 26) as u8;
        digits.push((65 + d) as char);
        m = (m - 1) / 26;
    }
    let mut s = String::new();
    let mut i: usize = digits.len();
    while i > 0
        invariant
            i <= digits@.len(),
            s@ == digits@.reverse().take(digits@.len() - i),
        decreases i,
    {
        i = i - 1;
        push_char(&mut s, digits[i]);
    }
    Some(s)
}

/// The column number that the capital letters `letters` write, if they
/// write one from 1 to 16384.
pub fn letters_to_column(letters: &str) -> (r: Option<u16>)
    ensures
        r == column_of_letters(letters@),
{
    let chars = chars_of(letters);
    let mut num: u16 = 0;
    let mut i: usize = 0;
    while i < chars.len()
        invariant
            i <= chars@.len(),
            chars@ == letters@,
            all_capitals(chars@.take(i as int)),
            num == letters_value(chars@.take(i as int)),
            num <= 16384,
        decreases chars@.len() - i,
    {
        let c = chars[i];
        if c < 'A' || c > 'Z' {
            return None;
        }
        let d: u16 = (c as u32 - 64) as u16;
        proof {
            let t = chars@.take(i as int + 1);
            assert(t.drop_last() == chars@.take(i as int));
        }
        if num > 630 {
            proof {
                if all_capitals(chars@) {
                    lemma_value_grows(chars@, i as int + 1);
                }
            }
            return None;
        }
        num = num * 26 + d;
        if num > XL_MAX_COL {
            proof {
                if all_capitals(chars@) {
                    lemma_value_grows(chars@, i as int + 1);
                }
            }
            return None;
        }
        i = i + 1;
    }
    proof {
        assert(chars@.take(i as int) == chars@);
    }
    if num < XL_MIN_COL {
        return None;
    }
    Some(num)
}

/// Return column number for column letter `letter`, in either case.
pub fn col_letter_to_num(letter: &str) -> (r: Option<u16>)
    ensures
        r == column_of_letters(uppercase_text(letter@)),
        all_ascii(letter@) ==> r == column_of_letters(capitals_of(letter@)),
{
    let upper = to_uppercase(letter);
    if !pattern_is_match("[A-Z]+", upper.as_str()) {
        return None;
    }
    letters_to_column(upper.as_str())
}

/// Writing a column number in letters and reading the letters gives the
/// number back: the letters of a column are Latin letters, and read in either
/// case they write the number of the column.
pub proof fn lemma_number_round_trip(n: int)
    requires
        1 <= n <= 16384,
    ensures
        all_letters(column_letters(n)),
        all_ascii(column_letters(n)),
        column_of_letters(capitals_of(column_letters(n))) == Some(n as u16),
{
    lemma_letters_of_number(n);
    let s = column_letters(n);
    lemma_capitals_of_capitals(s);
}

/// Capital letters are their own capitals.
pub proof fn lemma_capitals_of_capitals(s: Seq<char>)
    requires
        all_capitals(s),
    ensures
        capitals_of(s) == s,
{
}

/// The letters of any number from 0 up are capitals that write that number.
pub proof fn lemma_letters_of_number(n: int)
    requires
        0 <= n,
    ensures
        all_capitals(column_letters(n)),
        letters_value(column_letters(n)) == n,
    decreases n,
{
    if n > 0 {
        let q = (n - 1) / 26;
        lemma_letters_of_number(q);
        let s = column_letters(n);
        assert(s.drop_last() == column_letters(q));
    }
}

/// Capital letters that write a number are the letters of that number.
pub proof fn lemma_number_of_letters(s: Seq<char>)
    requires
        all_capitals(s),
    ensures
        column_letters(letters_value(s)) == s,
    decreases s.len(),
{
    if s.len() > 0 {
        let p = s.drop_last();
        lemma_number_of_letters(p);
    }
}

/// Reading letters of either case that write a column, and writing the
/// number found in letters, gives the letters back as capitals.
pub proof fn lemma_letters_round_trip(s: Seq<char>)
    requires
        all_letters(s),
        column_of_letters(capitals_of(s)) is Some,
    ensures
        column_letters(column_of_letters(capitals_of(s))->0 as int) == capitals_of(s),
{
    lemma_number_of_letters(capitals_of(s));
}

} // verus!
