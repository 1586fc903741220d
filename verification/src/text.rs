//! Characters and strings: classes of characters, trimming, splitting into
//! fields, and writing numbers.

use unicode_segmentation::UnicodeSegmentation;
use vstd::prelude::*;

verus! {

/// `String::push`: the string with `c` added at its end.
#[verifier::external_body]
pub(crate) fn string_push(text: &mut String, c: char)
    ensures
        final(text)@ == old(text)@.push(c),
{
    text.push(c)
}

/// The characters of a string, in order.
pub fn chars_of(text: &str) -> (chars: Vec<char>)
    ensures
        chars@ == text@,
{
    let mut chars: Vec<char> = Vec::new();
    for c in it: text.chars()
        invariant
            it.seq() == text@,
            chars@ == it.seq().take(it.index()),
    {
        chars.push(c);
    }
    chars
}

/// Whether `char::is_whitespace` holds of a character: whether Unicode gives
/// it the property `White_Space`.
pub uninterp spec fn is_whitespace(c: char) -> bool;

/// `char::is_whitespace`.
#[verifier::external_body]
pub(crate) fn char_is_whitespace(c: char) -> (white: bool)
    ensures
        white == is_whitespace(c),
{
    c.is_whitespace()
}

/// Whether `char::is_alphanumeric` holds of a character: whether Unicode
/// counts it as a letter or a number.
pub uninterp spec fn is_alphanumeric(c: char) -> bool;

/// `char::is_alphanumeric`.
#[verifier::external_body]
pub(crate) fn char_is_alphanumeric(c: char) -> (letter: bool)
    ensures
        letter == is_alphanumeric(c),
{
    c.is_alphanumeric()
}

/// Whether `char::is_control` holds of a character: whether Unicode puts it
/// in the general category of control codes.
pub uninterp spec fn is_control(c: char) -> bool;

/// `char::is_control`.
#[verifier::external_body]
pub(crate) fn char_is_control(c: char) -> (control: bool)
    ensures
        control == is_control(c),
{
    c.is_control()
}

/// A string of the given characters.
pub fn string_of(chars: &[char]) -> (text: String)
    ensures
        text@ == chars@,
{
    let mut text = String::new();
    let mut i: usize = 0;
    while i < chars.len()
        invariant
            i <= chars@.len(),
            text@ == chars@.take(i as int),
        decreases chars@.len() - i,
    {
        string_push(&mut text, chars[i]);
        assert(chars@.take(i + 1) =~= chars@.take(i as int).push(chars@[i as int]));
        i = i + 1;
    }
    assert(chars@.take(i as int) =~= chars@);
    text
}

/// The lower-case hexadecimal digit for a number below sixteen.
pub open spec fn hex_digit(nibble: u8) -> char {
    if nibble < 10 {
        (48 + nibble) as char
    } else {
        (87 + nibble) as char
    }
}

/// The hexadecimal digit for a number below sixteen.
pub fn hex_digit_of(nibble: u8) -> (digit: char)
    requires
        nibble < 16,
    ensures
        digit == hex_digit(nibble),
{
    if nibble < 10 {
        (48 + nibble) as char
    } else {
        (87 + nibble) as char
    }
}

/// A number written in lower-case hexadecimal, without leading zeros.
pub open spec fn lower_hex(n: nat) -> Seq<char>
    decreases n,
{
    if n < 16 {
        seq![hex_digit(n as u8)]
    } else {
        lower_hex(n / 16).push(hex_digit((n % 16) as u8))
    }
}

/// Writes `n` in lower-case hexadecimal at the end of `text`.
pub fn push_lower_hex(text: &mut String, n: u64)
    ensures
        final(text)@ == old(text)@ + lower_hex(n as nat),
    decreases n,
{
    if n >= 16 {
        push_lower_hex(text, n / 16);
    }
    string_push(text, hex_digit_of((n % 16) as u8));
    assert(text@ =~= old(text)@ + lower_hex(n as nat));
}

/// The decimal digit for a number below ten.
pub open spec fn decimal_digit(n: nat) -> char {
    (48 + n) as u8 as char
}

/// A number written in decimal, without leading zeros.
pub open spec fn decimal(n: nat) -> Seq<char>
    decreases n,
{
    if n < 10 {
        seq![decimal_digit(n)]
    } else {
        decimal(n / 10).push(decimal_digit(n % 10))
    }
}

/// Writes `n` in decimal at the end of `text`.
pub fn push_decimal(text: &mut String, n: u64)
    ensures
        final(text)@ == old(text)@ + decimal(n as nat),
    decreases n,
{
    if n >= 10 {
        push_decimal(text, n / 10);
    }
    let digit: u8 = 48 + (n % 10) as u8;
    string_push(text, digit as char);
    assert(text@ =~= old(text)@ + decimal(n as nat));
}

/// Whether two texts are the same.
pub fn same_text(a: &str, b: &str) -> (same: bool)
    ensures
        same == (a@ == b@),
{
    let left = chars_of(a);
    let right = chars_of(b);
    if left.len() != right.len() {
        return false;
    }
    let mut i: usize = 0;
    while i < left.len()
        invariant
            i <= left@.len(),
            left@ == a@,
            right@ == b@,
            left@.len() == right@.len(),
            forall|j: int| 0 <= j < i ==> left@[j] == right@[j],
        decreases left@.len() - i,
    {
        if left[i] != right[i] {
            assert(a@[i as int] != b@[i as int]);
            return false;
        }
        i = i + 1;
    }
    assert(left@ =~= right@);
    true
}

/// How many whitespace characters stand in `s` from `from` on, up to the
/// first character that is none.
pub open spec fn whitespace_run(s: Seq<char>, from: int) -> int
    decreases s.len() - from,
{
    if 0 <= from < s.len() && is_whitespace(s[from]) {
        1 + whitespace_run(s, from + 1)
    } else {
        0
    }
}

/// How many whitespace characters stand in `s` before `to`, back to the last
/// character that is none.
pub open spec fn whitespace_run_back(s: Seq<char>, to: int) -> int
    decreases to,
{
    if 0 < to <= s.len() && is_whitespace(s[to - 1]) {
        1 + whitespace_run_back(s, to - 1)
    } else {
        0
    }
}

/// Where the text without its leading whitespace starts.
pub open spec fn trim_start(s: Seq<char>) -> int {
    whitespace_run(s, 0)
}

/// Where the text without its trailing whitespace ends. A text of whitespace
/// alone ends where it starts.
pub open spec fn trim_end(s: Seq<char>) -> int {
    if trim_start(s) == s.len() {
        s.len() as int
    } else {
        s.len() - whitespace_run_back(s, s.len() as int)
    }
}

/// The text without its leading and trailing whitespace.
pub open spec fn trimmed(s: Seq<char>) -> Seq<char> {
    s.subrange(trim_start(s), trim_end(s))
}

/// The bounds of the text without its leading and trailing whitespace.
pub fn trim_bounds(s: &[char]) -> (bounds: (usize, usize))
    ensures
        bounds.0 == trim_start(s@),
        bounds.1 == trim_end(s@),
        bounds.0 <= bounds.1 <= s@.len(),
{
    let n = s.len();
    let mut start: usize = 0;
    while start < n && char_is_whitespace(s[start])
        invariant
            n == s@.len(),
            start <= n,
            whitespace_run(s@, 0) == start + whitespace_run(s@, start as int),
        decreases n - start,
    {
        start = start + 1;
    }
    if start == n {
        return (start, n);
    }
    let mut end: usize = n;
    while end > start && char_is_whitespace(s[end - 1])
        invariant
            n == s@.len(),
            start < end <= n,
            !is_whitespace(s@[start as int]),
            whitespace_run_back(s@, n as int) == (n - end) + whitespace_run_back(s@, end as int),
        decreases end,
    {
        end = end - 1;
    }
    (start, end)
}

/// The characters of `s` from `from` up to `to`.
pub fn slice_of(s: &[char], from: usize, to: usize) -> (part: Vec<char>)
    requires
        from <= to <= s@.len(),
    ensures
        part@ == s@.subrange(from as int, to as int),
{
    let mut part: Vec<char> = Vec::new();
    let mut i: usize = from;
    while i < to
        invariant
            from <= i <= to <= s@.len(),
            part@ == s@.subrange(from as int, i as int),
        decreases to - i,
    {
        part.push(s[i]);
        assert(s@.subrange(from as int, i + 1) =~= s@.subrange(from as int, i as int).push(s@[i as int]));
        i = i + 1;
    }
    part
}

/// The bytes of `s` from `from` up to `to`.
pub fn slice_of_bytes(s: &[u8], from: usize, to: usize) -> (part: Vec<u8>)
    requires
        from <= to <= s@.len(),
    ensures
        part@ == s@.subrange(from as int, to as int),
{
    let mut part: Vec<u8> = Vec::new();
    let mut i: usize = from;
    while i < to
        invariant
            from <= i <= to <= s@.len(),
            part@ == s@.subrange(from as int, i as int),
        decreases to - i,
    {
        part.push(s[i]);
        assert(s@.subrange(from as int, i + 1) =~= s@.subrange(from as int, i as int).push(s@[i as int]));
        i = i + 1;
    }
    part
}

/// The text without its leading and trailing whitespace.
pub fn trim(s: &[char]) -> (inner: Vec<char>)
    ensures
        inner@ == trimmed(s@),
{
    let bounds = trim_bounds(s);
    slice_of(s, bounds.0, bounds.1)
}

/// The pieces of a text: the runs of characters between separators. A text
/// with `n` separators has `n + 1` pieces, some of which may be empty.
pub open spec fn pieces(s: Seq<char>, separators: Seq<char>) -> Seq<Seq<char>>
    decreases s.len(),
{
    if s.len() == 0 {
        seq![Seq::<char>::empty()]
    } else if separators.contains(s.last()) {
        pieces(s.drop_last(), separators).push(Seq::<char>::empty())
    } else {
        let before = pieces(s.drop_last(), separators);
        before.drop_last().push(before.last().push(s.last()))
    }
}

/// The views of the vectors in `parts`.
pub open spec fn views(parts: Seq<Vec<char>>) -> Seq<Seq<char>> {
    Seq::new(parts.len(), |i: int| parts[i]@)
}

/// Splits a text into its pieces.
pub fn split_on(s: &[char], separators: &[char]) -> (parts: Vec<Vec<char>>)
    ensures
        views(parts@) == pieces(s@, separators@),
        parts@.len() >= 1,
{
    let mut parts: Vec<Vec<char>> = Vec::new();
    let mut current: Vec<char> = Vec::new();
    let mut i: usize = 0;
    while i < s.len()
        invariant
            i <= s@.len(),
            views(parts@).push(current@) == pieces(s@.take(i as int), separators@),
        decreases s@.len() - i,
    {
        let c = s[i];
        proof {
            assert(s@.take(i + 1).drop_last() =~= s@.take(i as int));
            assert(s@.take(i + 1).last() == c);
            assert(views(parts@).push(current@).drop_last() =~= views(parts@));
        }
        if holds_char(separators, c) {
            let ghost before = views(parts@);
            parts.push(current);
            current = Vec::new();
            assert(views(parts@) =~= before.push(parts@.last()@));
        } else {
            current.push(c);
        }
        i = i + 1;
    }
    assert(s@.take(i as int) =~= s@);
    let ghost before = views(parts@);
    parts.push(current);
    assert(views(parts@) =~= before.push(current@));
    parts
}

/// The characters that part the fields of numeric data: comma, space, line
/// feed and tab.
pub open spec fn field_separators() -> Seq<char> {
    seq![',', ' ', '\n', '\t']
}

/// The fields of numeric data.
pub open spec fn fields(s: Seq<char>) -> Seq<Seq<char>> {
    pieces(s, field_separators())
}

/// Splits numeric data into its fields.
pub fn split_fields(s: &[char]) -> (parts: Vec<Vec<char>>)
    ensures
        views(parts@) == fields(s@),
        parts@.len() >= 1,
{
    let separators: [char; 4] = [',', ' ', '\n', '\t'];
    assert(separators@ =~= field_separators());
    split_on(s, separators.as_slice())
}

/// An optional text as an optional sequence of characters.
pub open spec fn text_view(text: Option<String>) -> Option<Seq<char>> {
    match text {
        Some(t) => Some(t@),
        None => None,
    }
}

/// A copy of an optional text.
pub fn copy_text(text: &Option<String>) -> (copy: Option<String>)
    ensures
        text_view(copy) == text_view(*text),
{
    match text {
        Some(t) => Some(t.clone()),
        None => None,
    }
}

/// The views of the strings in `texts`.
pub open spec fn string_views(texts: Seq<String>) -> Seq<Seq<char>> {
    Seq::new(texts.len(), |i: int| texts[i]@)
}

/// What `str::to_lowercase` makes of a text: its lower-case form by the
/// rules of Unicode.
pub uninterp spec fn lowercased(s: Seq<char>) -> Seq<char>;

/// `str::to_lowercase`.
#[verifier::external_body]
pub(crate) fn to_lowercase(text: &str) -> (lower: String)
    ensures
        lower@ == lowercased(text@),
{
    text.to_lowercase()
}

/// The words of a text that are complete before its end, and the word that
/// the text ends in, which is empty where it ends in whitespace.
pub open spec fn words_and_rest(s: Seq<char>) -> (Seq<Seq<char>>, Seq<char>)
    decreases s.len(),
{
    if s.len() == 0 {
        (Seq::empty(), Seq::empty())
    } else {
        let (done, current) = words_and_rest(s.drop_last());
        if is_whitespace(s.last()) {
            if current.len() > 0 {
                (done.push(current), Seq::empty())
            } else {
                (done, Seq::empty())
            }
        } else {
            (done, current.push(s.last()))
        }
    }
}

/// The words of a text: its longest runs of characters that are not
/// whitespace.
pub open spec fn words(s: Seq<char>) -> Seq<Seq<char>> {
    let (done, current) = words_and_rest(s);
    if current.len() > 0 {
        done.push(current)
    } else {
        done
    }
}

/// Splits a text into its words.
pub fn split_words(s: &[char]) -> (parts: Vec<Vec<char>>)
    ensures
        views(parts@) == words(s@),
{
    let mut parts: Vec<Vec<char>> = Vec::new();
    let mut current: Vec<char> = Vec::new();
    let mut i: usize = 0;
    assert(views(parts@) =~= Seq::<Seq<char>>::empty());
    while i < s.len()
        invariant
            i <= s@.len(),
            (views(parts@), current@) == words_and_rest(s@.take(i as int)),
        decreases s@.len() - i,
    {
        let c = s[i];
        proof {
            assert(s@.take(i + 1).drop_last() =~= s@.take(i as int));
            assert(s@.take(i + 1).last() == c);
        }
        if char_is_whitespace(c) {
            if current.len() > 0 {
                let ghost before = views(parts@);
                parts.push(current);
                current = Vec::new();
                assert(views(parts@) =~= before.push(parts@.last()@));
            }
            assert(current@ =~= Seq::<char>::empty());
        } else {
            current.push(c);
        }
        i = i + 1;
    }
    assert(s@.take(i as int) =~= s@);
    if current.len() > 0 {
        let ghost before = views(parts@);
        parts.push(current);
        assert(views(parts@) =~= before.push(current@));
    }
    parts
}

/// Whether two runs of characters are the same.
pub fn same_chars(a: &[char], b: &[char]) -> (same: bool)
    ensures
        same == (a@ == b@),
{
    if a.len() != b.len() {
        return false;
    }
    let mut i: usize = 0;
    while i < a.len()
        invariant
            i <= a@.len(),
            a@.len() == b@.len(),
            forall|j: int| 0 <= j < i ==> a@[j] == b@[j],
        decreases a@.len() - i,
    {
        if a[i] != b[i] {
            return false;
        }
        i = i + 1;
    }
    assert(a@ =~= b@);
    true
}

/// Whether the text holds the character.
pub fn holds_char(s: &[char], c: char) -> (found: bool)
    ensures
        found == s@.contains(c),
{
    let mut i: usize = 0;
    while i < s.len()
        invariant
            i <= s@.len(),
            forall|j: int| 0 <= j < i ==> s@[j] != c,
        decreases s@.len() - i,
    {
        if s[i] == c {
            return true;
        }
        i = i + 1;
    }
    false
}

/// The words of a text by the rules of Unicode: the pieces between word
/// boundaries that hold a letter or a digit, as
/// `UnicodeSegmentation::unicode_words` gives them.
pub uninterp spec fn unicode_word_list(text: Seq<char>) -> Seq<Seq<char>>;

/// `UnicodeSegmentation::unicode_words`.
#[verifier::external_body]
pub(crate) fn unicode_words(text: &str) -> (found: Vec<String>)
    ensures
        string_views(found@) == unicode_word_list(text@),
{
    let mut found = Vec::new();
    for word in text.unicode_words() {
        found.push(word.to_owned());
    }
    found
}

/// Whether `part` stands somewhere in `s`.
pub open spec fn holds_text(s: Seq<char>, part: Seq<char>) -> bool {
    exists|i: int| 0 <= i && i + part.len() <= s.len() && #[trigger] s.subrange(i, i + part.len()) == part
}

/// Whether `part` stands in `s` at the position `at`.
fn stands_at(s: &[char], part: &[char], at: usize) -> (found: bool)
    requires
        at + part@.len() <= s@.len(),
    ensures
        found == (s@.subrange(at as int, at + part@.len()) == part@),
{
    let n = s.len();
    let mut j: usize = 0;
    while j < part.len()
        invariant
            j <= part@.len(),
            n == s@.len(),
            at + part@.len() <= s@.len(),
            forall|k: int| 0 <= k < j ==> s@[at + k] == part@[k],
        decreases part@.len() - j,
    {
        if s[at + j] != part[j] {
            assert(s@.subrange(at as int, at + part@.len())[j as int] != part@[j as int]);
            return false;
        }
        j = j + 1;
    }
    assert(s@.subrange(at as int, at + part@.len()) =~= part@);
    true
}

/// Whether `part` stands somewhere in `s`.
pub fn contains_text(s: &[char], part: &[char]) -> (found: bool)
    ensures
        found == holds_text(s@, part@),
{
    if part.len() > s.len() {
        return false;
    }
    let last: usize = s.len() - part.len();
    let mut i: usize = 0;
    loop
        invariant
            i <= last,
            last + part@.len() == s@.len(),
            forall|k: int| 0 <= k < i ==> #[trigger] s@.subrange(k, k + part@.len()) != part@,
        decreases last - i,
    {
        if stands_at(s, part, i) {
            return true;
        }
        if i == last {
            return false;
        }
        i = i + 1;
    }
}

/// The words that `keep` holds of, in their order.
pub open spec fn select(words: Seq<Seq<char>>, keep: spec_fn(Seq<char>) -> bool) -> Seq<Seq<char>>
    decreases words.len(),
{
    if words.len() == 0 {
        Seq::empty()
    } else if keep(words.last()) {
        select(words.drop_last(), keep).push(words.last())
    } else {
        select(words.drop_last(), keep)
    }
}

/// A copy of a list of texts.
pub fn copy_strings(texts: &Vec<String>) -> (copy: Vec<String>)
    ensures
        string_views(copy@) == string_views(texts@),
{
    let mut copy: Vec<String> = Vec::new();
    let mut i: usize = 0;
    while i < texts.len()
        invariant
            i <= texts@.len(),
            copy@.len() == i,
            forall|j: int| 0 <= j < i ==> (#[trigger] copy@[j])@ == texts@[j]@,
        decreases texts@.len() - i,
    {
        copy.push(texts[i].clone());
        i = i + 1;
    }
    assert(string_views(copy@) =~= string_views(texts@));
    copy
}

/// The views of the pairs of texts in a list.
pub open spec fn pair_views(pairs: Seq<(String, String)>) -> Seq<(Seq<char>, Seq<char>)> {
    Seq::new(pairs.len(), |i: int| (pairs[i].0@, pairs[i].1@))
}

/// A copy of a list of pairs of texts.
pub fn copy_pairs(pairs: &Vec<(String, String)>) -> (copy: Vec<(String, String)>)
    ensures
        pair_views(copy@) == pair_views(pairs@),
{
    let mut copy: Vec<(String, String)> = Vec::new();
    let mut i: usize = 0;
    while i < pairs.len()
        invariant
            i <= pairs@.len(),
            copy@.len() == i,
            forall|j: int|
                0 <= j < i ==> (#[trigger] copy@[j]).0@ == pairs@[j].0@ && copy@[j].1@ == pairs@[j].1@,
        decreases pairs@.len() - i,
    {
        copy.push((pairs[i].0.clone(), pairs[i].1.clone()));
        i = i + 1;
    }
    assert(pair_views(copy@) =~= pair_views(pairs@));
    copy
}

} // verus!
