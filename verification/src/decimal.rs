//! Numbers written in decimal digits, with a point and an exponent.

use crate::column::is_capital;
use crate::number::{all_digits, digits_value, is_digit, parse_number};
use crate::text::chars_of;
use vstd::prelude::*;

verus! {

/// How many characters at the start of `s` are digits.
pub open spec fn digits_len(s: Seq<char>) -> int
    decreases s.len(),
{
    if s.len() > 0 && is_digit(s[0]) {
        1 + digits_len(s.skip(1))
    } else {
        0
    }
}

/// The text has a sign before it.
pub open spec fn has_sign(s: Seq<char>) -> bool {
    s.len() > 0 && (s[0] == '+' || s[0] == '-')
}

/// The text without the sign that may stand before it.
pub open spec fn signless(s: Seq<char>) -> Seq<char> {
    if has_sign(s) {
        s.skip(1)
    } else {
        s
    }
}

/// The small letter of a capital; any other character as it is.
pub open spec fn small_of(c: char) -> char {
    if is_capital(c) {
        ((c as int + 32) as u8) as char
    } else {
        c
    }
}

/// The text `s` is the word `w`, whatever the case of its letters.
pub open spec fn is_word(s: Seq<char>, w: Seq<char>) -> bool {
    s.len() == w.len() && forall|i: int| 0 <= i < s.len() ==> small_of(#[trigger] s[i]) == w[i]
}

/// The text names an infinity or no number at all.
pub open spec fn is_special(s: Seq<char>) -> bool {
    is_word(s, "inf"@) || is_word(s, "nan"@) || is_word(s, "infinity"@)
}

/// The text is an exponent: `e` or `E`, a sign or none, and digits.
pub open spec fn is_exponent(s: Seq<char>) -> bool {
    s.len() > 0 && (s[0] == 'e' || s[0] == 'E') && signless(s.skip(1)).len() > 0 && all_digits(
        signless(s.skip(1)),
    )
}

/// Where the digits and the point of the unsigned text `b` end.
pub open spec fn mantissa_end(b: Seq<char>) -> int {
    let w = digits_len(b);
    if w < b.len() && b[w] == '.' {
        w + 1 + digits_len(b.skip(w + 1))
    } else {
        w
    }
}

/// How many digits the unsigned text `b` has before its exponent.
pub open spec fn mantissa_digits(b: Seq<char>) -> int {
    let w = digits_len(b);
    if w < b.len() && b[w] == '.' {
        w + digits_len(b.skip(w + 1))
    } else {
        w
    }
}

/// The text writes a floating-point number as Rust reads one: a sign or
/// none, then `inf`, `infinity` or `nan` in any case, or digits with a point
/// among them or none, one digit at the least, and an exponent or none.
pub open spec fn is_float_text(s: Seq<char>) -> bool {
    let b = signless(s);
    is_special(b) || (mantissa_digits(b) > 0 && (mantissa_end(b) == b.len() || is_exponent(
        b.skip(mantissa_end(b)),
    )))
}

/// The digits of the unsigned text `b` before its point.
pub open spec fn mantissa_whole(b: Seq<char>) -> Seq<char> {
    b.take(digits_len(b))
}

/// The digits of the unsigned text `b` between its point and its exponent.
pub open spec fn mantissa_fraction(b: Seq<char>) -> Seq<char> {
    let w = digits_len(b);
    if w < b.len() && b[w] == '.' {
        b.subrange(w + 1, mantissa_end(b))
    } else {
        Seq::empty()
    }
}

/// The number that the exponent `x` writes, 0 where there is no exponent
/// at all. None where the text is no exponent, or one beyond 1000 either
/// way.
pub open spec fn exponent_of(x: Seq<char>) -> Option<int> {
    if x.len() == 0 {
        Some(0)
    } else if is_exponent(x) && digits_value(signless(x.skip(1))) <= 1000 {
        if x[1] == '-' {
            Some(-digits_value(signless(x.skip(1))))
        } else {
            Some(digits_value(signless(x.skip(1))))
        }
    } else {
        None
    }
}

/// The leading digits of `s` end at `k` if all before `k` are digits and
/// the character at `k`, if there is one, is none.
pub proof fn lemma_digits_len(s: Seq<char>, k: int)
    requires
        0 <= k <= s.len(),
        forall|i: int| 0 <= i < k ==> is_digit(#[trigger] s[i]),
        k < s.len() ==> !is_digit(s[k]),
    ensures
        digits_len(s) == k,
    decreases k,
{
    if k > 0 {
        let t = s.skip(1);
        lemma_digits_len(t, k - 1);
    }
}

/// Whether `chars[from..to]` is the word `word`, written in small letters,
/// whatever the case of its own letters.
fn word_at(chars: &[char], from: usize, word: &str) -> (r: bool)
    requires
        from <= chars@.len(),
    ensures
        r == is_word(chars@.skip(from as int), word@),
{
    let w = chars_of(word);
    let ghost s = chars@.skip(from as int);
    let n = chars.len();
    if n - from != w.len() {
        return false;
    }
    let mut i: usize = 0;
    while i < w.len()
        invariant
            i <= w@.len(),
            from <= chars@.len(),
            from + w@.len() == chars@.len(),
            n == chars@.len(),
            s == chars@.skip(from as int),
            w@ == word@,
            forall|j: int| 0 <= j < i ==> small_of(#[trigger] s[j]) == w@[j],
        decreases w@.len() - i,
    {
        let c = chars[from + i];
        let small = if c >= 'A' && c <= 'Z' {
            ((c as u32 + 32) as u8) as char
        } else {
            c
        };
        assert(small == small_of(s[i as int]));
        if small != w[i] {
            return false;
        }
        i = i + 1;
    }
    true
}

/// Where the digits that begin at `from` end.
pub(crate) fn digits_run(chars: &[char], from: usize) -> (k: usize)
    requires
        from <= chars@.len(),
    ensures
        from <= k <= chars@.len(),
        k - from == digits_len(chars@.skip(from as int)),
        all_digits(chars@.subrange(from as int, k as int)),
        k < chars@.len() ==> !is_digit(chars@[k as int]),
{
    let mut k: usize = from;
    while k < chars.len() && chars[k] >= '0' && chars[k] <= '9'
        invariant
            from <= k <= chars@.len(),
            forall|i: int| from <= i < k ==> is_digit(#[trigger] chars@[i]),
        decreases chars@.len() - k,
    {
        k = k + 1;
    }
    proof {
        let t = chars@.skip(from as int);
        lemma_digits_len(t, k - from);
    }
    k
}

/// Whether an exponent, and nothing else, stands from `from` on.
fn exponent_at(chars: &[char], from: usize) -> (r: bool)
    requires
        from <= chars@.len(),
    ensures
        r == is_exponent(chars@.skip(from as int)),
{
    let n = chars.len();
    let ghost s = chars@;
    let ghost e = s.skip(from as int);
    if from == n {
        return false;
    }
    if chars[from] != 'e' && chars[from] != 'E' {
        return false;
    }
    let mut at: usize = from + 1;
    if at < n && (chars[at] == '+' || chars[at] == '-') {
        at = at + 1;
    }
    proof {
        let t = e.skip(1);
        assert(signless(t) == s.skip(at as int));
    }
    if at == n {
        return false;
    }
    let k = digits_run(chars, at);
    proof {
        let d = s.skip(at as int);
        if k < n {
            assert(d[k - at] == s[k as int]);
        }
    }
    k == n
}

/// Whether the text writes a floating-point number.
pub fn is_float(text: &str) -> (r: bool)
    ensures
        r == is_float_text(text@),
{
    let chars = chars_of(text);
    let n = chars.len();
    let mut start: usize = 0;
    if n > 0 && (chars[0] == '+' || chars[0] == '-') {
        start = 1;
    }
    assert(signless(chars@) == chars@.skip(start as int));
    if word_at(&chars, start, "inf") || word_at(&chars, start, "nan") || word_at(
        &chars,
        start,
        "infinity",
    ) {
        return true;
    }
    let (whole_end, end) = scan_parts(&chars, start);
    if end - start == 0 || (end - start == 1 && whole_end == start) {
        return false;
    }
    if end == n {
        return true;
    }
    assert(chars@.skip(start as int).skip(end - start) == chars@.skip(end as int));
    exponent_at(&chars, end)
}

/// The ends of the digits before the point and of the digits behind it,
/// for the digits and the point that begin at `from`.
pub(crate) fn scan_parts(chars: &[char], from: usize) -> (r: (usize, usize))
    requires
        from <= chars@.len(),
    ensures
        from <= r.0 <= r.1 <= chars@.len(),
        r.0 - from == digits_len(chars@.skip(from as int)),
        r.1 - from == mantissa_end(chars@.skip(from as int)),
        chars@.subrange(from as int, r.0 as int) == mantissa_whole(chars@.skip(from as int)),
        all_digits(mantissa_whole(chars@.skip(from as int))),
        all_digits(mantissa_fraction(chars@.skip(from as int))),
        r.1 > r.0 ==> chars@.subrange(r.0 as int + 1, r.1 as int) == mantissa_fraction(
            chars@.skip(from as int),
        ),
        r.1 == r.0 ==> mantissa_fraction(chars@.skip(from as int)).len() == 0,
        mantissa_digits(chars@.skip(from as int)) == if r.1 > r.0 {
            r.1 - from - 1
        } else {
            r.1 - from
        },
{
    let n = chars.len();
    let ghost s = chars@;
    let ghost b = s.skip(from as int);
    let w = digits_run(chars, from);
    if w < n && chars[w] == '.' {
        let f = digits_run(chars, w + 1);
        proof {
            assert(b.skip(w - from + 1) == s.skip(w as int + 1));
        }
        (w, f)
    } else {
        (w, w)
    }
}

/// The number of the exponent that stands from `from` on.
pub(crate) fn exponent_value(chars: &[char], from: usize) -> (r: Option<i32>)
    requires
        from <= chars@.len(),
    ensures
        r is Some <==> exponent_of(chars@.skip(from as int)) is Some,
        r matches Some(e) ==> exponent_of(chars@.skip(from as int)) == Some(e as int) && -1000
            <= e <= 1000,
{
    let n = chars.len();
    let ghost s = chars@;
    let ghost x = s.skip(from as int);
    if from == n {
        return Some(0);
    }
    if !exponent_at(chars, from) {
        return None;
    }
    let mut at: usize = from + 1;
    let mut negative = false;
    if chars[at] == '+' || chars[at] == '-' {
        negative = chars[at] == '-';
        at = at + 1;
    }
    let ghost d = signless(x.skip(1));
    assert(d == s.skip(at as int));
    match parse_number(chars, at, n, 1000) {
        Some(v) => if negative {
            Some(-(v as i32))
        } else {
            Some(v as i32)
        },
        None => None,
    }
}

} // verus!
