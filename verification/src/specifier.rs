//! Which specifier texts the range parser can be given.
//!
//! The parser reads a text piece by piece; a piece starts at the beginning
//! of the text, behind a blank, or behind `|`. On a piece in which `=` or
//! `~` stands before a wildcard it does not return, so such a text is
//! refused before the parser is called.

use vstd::prelude::*;

verus! {

/// A space or a tab.
pub open spec fn is_blank(c: char) -> bool {
    c == ' ' || c == '\t'
}

/// One of the three characters that stand for any number.
pub open spec fn is_wildcard_char(c: char) -> bool {
    c == 'x' || c == 'X' || c == '*'
}

/// One of the ten decimal digits.
pub open spec fn is_digit_char(c: char) -> bool {
    48 <= c as int <= 57
}

/// Whether the character `c` stands at position `i`.
pub open spec fn char_at(s: Seq<char>, i: int, c: char) -> bool {
    0 <= i < s.len() && s[i] == c
}

/// Whether a wildcard stands at position `i`.
pub open spec fn wildcard_at(s: Seq<char>, i: int) -> bool {
    0 <= i < s.len() && is_wildcard_char(s[i])
}

/// Whether a digit stands at position `i`.
pub open spec fn digit_at(s: Seq<char>, i: int) -> bool {
    0 <= i < s.len() && is_digit_char(s[i])
}

/// The first position from `i` on that holds no blank.
pub open spec fn skip_blanks(s: Seq<char>, i: int) -> int
    decreases s.len() - i,
{
    if 0 <= i < s.len() && is_blank(s[i]) {
        skip_blanks(s, i + 1)
    } else {
        i
    }
}

/// The first position from `i` on that holds no digit.
pub open spec fn skip_digits(s: Seq<char>, i: int) -> int
    decreases s.len() - i,
{
    if 0 <= i < s.len() && is_digit_char(s[i]) {
        skip_digits(s, i + 1)
    } else {
        i
    }
}

/// Where the numbers of a version begin, for a version that is written
/// from `i` on: behind blanks, an optional `v`, and blanks again.
pub open spec fn version_start(s: Seq<char>, i: int) -> int {
    let j = skip_blanks(s, i);
    skip_blanks(
        s,
        if char_at(s, j, 'v') {
            j + 1
        } else {
            j
        },
    )
}

/// Whether a piece can start at position `p`: at the beginning, behind a
/// blank, or behind `|`.
pub open spec fn piece_starts_at(s: Seq<char>, p: int) -> bool {
    p == 0 || (0 < p <= s.len() && (is_blank(s[p - 1]) || s[p - 1] == '|'))
}

/// `=` at position `p`, before a version whose first number is a wildcard.
pub open spec fn exact_wildcard_at(s: Seq<char>, p: int) -> bool {
    char_at(s, p, '=') && wildcard_at(s, version_start(s, p + 1))
}

/// Where the version behind `~` at position `p` begins: `~` may be followed
/// by blanks, an optional `>`, and blanks again.
pub open spec fn tilde_version_start(s: Seq<char>, p: int) -> int {
    let j = skip_blanks(s, p + 1);
    version_start(
        s,
        if char_at(s, j, '>') {
            j + 1
        } else {
            j
        },
    )
}

/// A version from position `m` on whose first number is a wildcard, or
/// whose second number is a wildcard while a digit begins the third.
pub open spec fn wildcard_before_number(s: Seq<char>, m: int) -> bool {
    wildcard_at(s, m) || (digit_at(s, m) && {
        let e = skip_digits(s, m);
        char_at(s, e, '.') && wildcard_at(s, e + 1) && char_at(s, e + 2, '.') && digit_at(s, e + 3)
    })
}

/// `~` at position `p`, before such a version.
pub open spec fn tilde_wildcard_at(s: Seq<char>, p: int) -> bool {
    char_at(s, p, '~') && wildcard_before_number(s, tilde_version_start(s, p))
}

/// Whether the range parser can be given the text: no piece of it starts
/// with `=` or `~` before a wildcard.
pub open spec fn is_parsable(s: Seq<char>) -> bool {
    forall|p: int|
        0 <= p < s.len() && piece_starts_at(s, p) ==> !exact_wildcard_at(s, p)
            && !tilde_wildcard_at(s, p)
}

/// The characters of a text, one by one.
fn characters(text: &str) -> (chars: Vec<char>)
    ensures
        chars@ == text@,
{
    let n = text.unicode_len();
    let mut chars: Vec<char> = Vec::new();
    let mut i: usize = 0;
    while i < n
        invariant
            n == text@.len(),
            i <= n,
            chars@ == text@.take(i as int),
        decreases n - i,
    {
        chars.push(text.get_char(i));
        i += 1;
        assert(text@.take(i as int) =~= text@.take(i - 1).push(text@[i - 1]));
    }
    assert(text@.take(n as int) =~= text@);
    chars
}

fn blank(c: char) -> (r: bool)
    ensures
        r == is_blank(c),
{
    c == ' ' || c == '\t'
}

fn wildcard_char(c: char) -> (r: bool)
    ensures
        r == is_wildcard_char(c),
{
    c == 'x' || c == 'X' || c == '*'
}

fn digit_char(c: char) -> (r: bool)
    ensures
        r == is_digit_char(c),
{
    let code = c as u32;
    48 <= code && code <= 57
}

fn holds(chars: &Vec<char>, i: usize, c: char) -> (r: bool)
    ensures
        r == char_at(chars@, i as int, c),
{
    i < chars.len() && chars[i] == c
}

fn holds_wildcard(chars: &Vec<char>, i: usize) -> (r: bool)
    ensures
        r == wildcard_at(chars@, i as int),
{
    i < chars.len() && wildcard_char(chars[i])
}

fn holds_digit(chars: &Vec<char>, i: usize) -> (r: bool)
    ensures
        r == digit_at(chars@, i as int),
{
    i < chars.len() && digit_char(chars[i])
}

fn past_blanks(chars: &Vec<char>, i: usize) -> (j: usize)
    requires
        i <= chars.len(),
    ensures
        j == skip_blanks(chars@, i as int),
        i <= j <= chars.len(),
{
    let mut j = i;
    while j < chars.len() && blank(chars[j])
        invariant
            i <= j <= chars.len(),
            skip_blanks(chars@, i as int) == skip_blanks(chars@, j as int),
        decreases chars.len() - j,
    {
        j += 1;
    }
    j
}

fn past_digits(chars: &Vec<char>, i: usize) -> (j: usize)
    requires
        i <= chars.len(),
    ensures
        j == skip_digits(chars@, i as int),
        i <= j <= chars.len(),
{
    let mut j = i;
    while j < chars.len() && digit_char(chars[j])
        invariant
            i <= j <= chars.len(),
            skip_digits(chars@, i as int) == skip_digits(chars@, j as int),
        decreases chars.len() - j,
    {
        j += 1;
    }
    j
}

fn start_of_version(chars: &Vec<char>, i: usize) -> (m: usize)
    requires
        i <= chars.len(),
    ensures
        m == version_start(chars@, i as int),
        i <= m <= chars.len(),
{
    let j = past_blanks(chars, i);
    if holds(chars, j, 'v') {
        past_blanks(chars, j + 1)
    } else {
        past_blanks(chars, j)
    }
}

fn exact_wildcard(chars: &Vec<char>, p: usize) -> (r: bool)
    requires
        p < chars.len(),
    ensures
        r == exact_wildcard_at(chars@, p as int),
{
    if chars[p] != '=' {
        return false;
    }
    let m = start_of_version(chars, p + 1);
    holds_wildcard(chars, m)
}

fn tilde_wildcard(chars: &Vec<char>, p: usize) -> (r: bool)
    requires
        p < chars.len(),
    ensures
        r == tilde_wildcard_at(chars@, p as int),
{
    if chars[p] != '~' {
        return false;
    }
    let j = past_blanks(chars, p + 1);
    let m = if holds(chars, j, '>') {
        start_of_version(chars, j + 1)
    } else {
        start_of_version(chars, j)
    };
    if holds_wildcard(chars, m) {
        return true;
    }
    if !holds_digit(chars, m) {
        return false;
    }
    let e = past_digits(chars, m);
    if !holds(chars, e, '.') {
        return false;
    }
    // `e` holds a character, so the three positions behind it can be named.
    if chars.len() - e <= 3 {
        return false;
    }
    holds_wildcard(chars, e + 1) && holds(chars, e + 2, '.') && holds_digit(chars, e + 3)
}

/// Whether the range parser can be given the text.
pub fn parsable(text: &str) -> (r: bool)
    ensures
        r == is_parsable(text@),
{
    let chars = characters(text);
    let mut p: usize = 0;
    while p < chars.len()
        invariant
            p <= chars.len(),
            chars@ == text@,
            forall|q: int|
                0 <= q < p && piece_starts_at(chars@, q) ==> !exact_wildcard_at(chars@, q)
                    && !tilde_wildcard_at(chars@, q),
        decreases chars.len() - p,
    {
        let starts = p == 0 || blank(chars[p - 1]) || chars[p - 1] == '|';
        if starts && (exact_wildcard(&chars, p) || tilde_wildcard(&chars, p)) {
            assert(piece_starts_at(chars@, p as int));
            return false;
        }
        p += 1;
    }
    true
}

} // verus!
