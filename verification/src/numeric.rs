//! The written form of a number, as a field of numeric data has to have it.
//!
//! A field is a number when it is an optional sign followed by `inf`,
//! `infinity` or `nan` in any mix of upper and lower case, or by decimal
//! digits with at most one point among them and at least one digit, and then
//! an optional exponent: `e` or `E`, an optional sign, and at least one digit.
//! Nothing may stand before or after.

use crate::text::trimmed;
use vstd::prelude::*;

verus! {

/// A decimal digit.
pub open spec fn is_digit(c: char) -> bool {
    '0' <= c <= '9'
}

/// A sign.
pub open spec fn is_sign(c: char) -> bool {
    c == '+' || c == '-'
}

/// An ASCII capital as its small letter; every other character as itself.
pub open spec fn lower(c: char) -> char {
    if 'A' <= c <= 'Z' {
        ((c as u8) + 32) as char
    } else {
        c
    }
}

/// How many digits stand in `s` from position `from` on, up to the first
/// character that is no digit.
pub open spec fn digit_run(s: Seq<char>, from: int) -> int
    decreases s.len() - from,
{
    if 0 <= from < s.len() && is_digit(s[from]) {
        1 + digit_run(s, from + 1)
    } else {
        0
    }
}

/// Whether `s` from `from` on spells `word`, capitals counting as small
/// letters, and ends there.
pub open spec fn spells(s: Seq<char>, from: int, word: Seq<char>) -> bool {
    &&& s.len() - from == word.len()
    &&& forall|i: int| 0 <= i < word.len() ==> lower(#[trigger] s[from + i]) == word[i]
}

/// Whether `s` from `from` on is an exponent and ends with it.
pub open spec fn is_exponent(s: Seq<char>, from: int) -> bool {
    &&& from + 1 < s.len()
    &&& lower(s[from]) == 'e'
    &&& {
        let digits = if is_sign(s[from + 1]) {
            from + 2
        } else {
            from + 1
        };
        digits < s.len() && digits + digit_run(s, digits) == s.len()
    }
}

/// Whether `s` from `from` on is digits with at most one point and an
/// optional exponent, and ends there.
pub open spec fn is_decimal(s: Seq<char>, from: int) -> bool {
    let whole = digit_run(s, from);
    let point = from + whole;
    let fraction = if point < s.len() && s[point] == '.' {
        digit_run(s, point + 1)
    } else {
        0
    };
    let rest = if point < s.len() && s[point] == '.' {
        point + 1 + fraction
    } else {
        point
    };
    whole + fraction >= 1 && (rest == s.len() || is_exponent(s, rest))
}

/// Whether `s` is the written form of a number.
pub open spec fn is_number(s: Seq<char>) -> bool {
    let from: int = if s.len() > 0 && is_sign(s[0]) {
        1
    } else {
        0
    };
    ||| spells(s, from, seq!['i', 'n', 'f'])
    ||| spells(s, from, seq!['i', 'n', 'f', 'i', 'n', 'i', 't', 'y'])
    ||| spells(s, from, seq!['n', 'a', 'n'])
    ||| is_decimal(s, from)
}

fn lower_of(c: char) -> (small: char)
    ensures
        small == lower(c),
{
    if 'A' <= c && c <= 'Z' {
        ((c as u8) + 32) as char
    } else {
        c
    }
}

fn is_digit_char(c: char) -> (digit: bool)
    ensures
        digit == is_digit(c),
{
    '0' <= c && c <= '9'
}

/// The position after the digits that start at `from`.
fn skip_digits(s: &[char], from: usize) -> (end: usize)
    requires
        from <= s@.len(),
    ensures
        end == from + digit_run(s@, from as int),
        from <= end <= s@.len(),
{
    let mut end: usize = from;
    while end < s.len() && is_digit_char(s[end])
        invariant
            from <= end <= s@.len(),
            digit_run(s@, from as int) == (end - from) + digit_run(s@, end as int),
        decreases s@.len() - end,
    {
        end = end + 1;
    }
    end
}

fn spells_word(s: &[char], from: usize, word: &[char]) -> (same: bool)
    requires
        from <= s@.len(),
    ensures
        same == spells(s@, from as int, word@),
{
    if s.len() - from != word.len() {
        return false;
    }
    let n = s.len();
    let mut i: usize = 0;
    while i < word.len()
        invariant
            i <= word@.len(),
            n == s@.len(),
            from <= s@.len(),
            s@.len() - from == word@.len(),
            forall|j: int| 0 <= j < i ==> lower(#[trigger] s@[from + j]) == word@[j],
        decreases word@.len() - i,
    {
        if lower_of(s[from + i]) != word[i] {
            return false;
        }
        i = i + 1;
    }
    true
}

fn exponent_at(s: &[char], from: usize) -> (found: bool)
    requires
        from <= s@.len(),
    ensures
        found == is_exponent(s@, from as int),
{
    if s.len() - from < 2 {
        return false;
    }
    if lower_of(s[from]) != 'e' {
        return false;
    }
    let sign = s[from + 1];
    let digits: usize = if sign == '+' || sign == '-' {
        from + 2
    } else {
        from + 1
    };
    if digits >= s.len() {
        return false;
    }
    skip_digits(s, digits) == s.len()
}

fn decimal_at(s: &[char], from: usize) -> (found: bool)
    requires
        from <= s@.len(),
    ensures
        found == is_decimal(s@, from as int),
{
    let point = skip_digits(s, from);
    let whole: usize = point - from;
    if point < s.len() && s[point] == '.' {
        let rest = skip_digits(s, point + 1);
        let fraction: usize = rest - (point + 1);
        if whole == 0 && fraction == 0 {
            return false;
        }
        rest == s.len() || exponent_at(s, rest)
    } else {
        if whole == 0 {
            return false;
        }
        point == s.len() || exponent_at(s, point)
    }
}

/// Whether the characters are the written form of a number.
pub fn is_numeric(s: &[char]) -> (numeric: bool)
    ensures
        numeric == is_number(s@),
{
    let from: usize = if s.len() > 0 && (s[0] == '+' || s[0] == '-') {
        1
    } else {
        0
    };
    let inf: [char; 3] = ['i', 'n', 'f'];
    let infinity: [char; 8] = ['i', 'n', 'f', 'i', 'n', 'i', 't', 'y'];
    let nan: [char; 3] = ['n', 'a', 'n'];
    assert(inf@ =~= seq!['i', 'n', 'f']);
    assert(infinity@ =~= seq!['i', 'n', 'f', 'i', 'n', 'i', 't', 'y']);
    assert(nan@ =~= seq!['n', 'a', 'n']);
    spells_word(s, from, inf.as_slice()) || spells_word(s, from, infinity.as_slice()) || spells_word(
        s,
        from,
        nan.as_slice(),
    ) || decimal_at(s, from)
}

/// The number of fields that are numbers once trimmed.
pub open spec fn numeric_count(parts: Seq<Seq<char>>) -> nat
    decreases parts.len(),
{
    if parts.len() == 0 {
        0
    } else {
        numeric_count(parts.drop_last()) + if is_number(trimmed(parts.last())) {
            1nat
        } else {
            0nat
        }
    }
}

} // verus!
