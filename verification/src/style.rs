//! Format codes, and which of them stand for dates and times.

use crate::text::chars_of;
use vstd::prelude::*;

verus! {

/// The word `Red` stands somewhere in `s`.
pub open spec fn has_red(s: Seq<char>) -> bool {
    exists|i: int| 0 <= i && i + 3 <= s.len() && red_at(s, i)
}

/// The word `Red` stands in `s` at `i`.
pub open spec fn red_at(s: Seq<char>, i: int) -> bool {
    s[i] == 'R' && s[i + 1] == 'e' && s[i + 2] == 'd'
}

/// The format code `s` is taken for one of a date or a time: it is `d`, or
/// holds a `d` and not the colour `Red`, or holds an `m` or a `y`.
pub open spec fn style_is_date(s: Seq<char>) -> bool {
    s == seq!['d'] || (s.contains('d') && !has_red(s)) || s.contains('m') || s.contains('y')
}

/// Whether the character `c` stands in `chars`.
fn holds_char(chars: &[char], c: char) -> (r: bool)
    ensures
        r == chars@.contains(c),
{
    let mut i: usize = 0;
    while i < chars.len()
        invariant
            i <= chars@.len(),
            forall|j: int| 0 <= j < i ==> chars@[j] != c,
        decreases chars@.len() - i,
    {
        if chars[i] == c {
            return true;
        }
        i = i + 1;
    }
    false
}

/// Whether the word `Red` stands in `chars`.
fn holds_red(chars: &[char]) -> (r: bool)
    ensures
        r == has_red(chars@),
{
    if chars.len() < 3 {
        return false;
    }
    let last: usize = chars.len() - 3;
    let mut i: usize = 0;
    while i <= last
        invariant
            last + 3 == chars@.len(),
            i <= last + 1,
            forall|j: int| 0 <= j < i ==> !red_at(chars@, j),
        decreases last + 1 - i,
    {
        if chars[i] == 'R' && chars[i + 1] == 'e' && chars[i + 2] == 'd' {
            assert(red_at(chars@, i as int));
            return true;
        }
        i = i + 1;
    }
    false
}

/// Whether the format code `style` stands for a date or a time.
pub fn is_date(style: &String) -> (r: bool)
    ensures
        r == style_is_date(style@),
{
    let chars = chars_of(style.as_str());
    let is_d = chars.len() == 1 && chars[0] == 'd';
    assert(is_d == (chars@ == seq!['d'])) by {
        if is_d {
            assert(chars@ =~= seq!['d']);
        }
    }
    let is_like_d_and_not_like_red = holds_char(&chars, 'd') && !holds_red(&chars);
    let is_like_m = holds_char(&chars, 'm');
    if is_d || is_like_d_and_not_like_red || is_like_m {
        true
    } else {
        holds_char(&chars, 'y')
    }
}

} // verus!
