//! Character classes and string building used by the tokenizer and the parser.

use vstd::prelude::*;

verus! {

broadcast use vstd::string::group_string_axioms;

/// Whether `c` has Unicode's `White_Space` property, which `char::is_whitespace`
/// tests: the ASCII tab, line feed, vertical tab, form feed, carriage return
/// and space, and `U+0085`, `U+00A0`, `U+1680`, `U+2000`–`U+200A`, `U+2028`,
/// `U+2029`, `U+202F`, `U+205F` and `U+3000`.
pub open spec fn spec_is_whitespace(c: char) -> bool {
    ||| ('\u{9}' <= c && c <= '\u{d}')
    ||| c == ' '
    ||| c == '\u{85}'
    ||| c == '\u{a0}'
    ||| c == '\u{1680}'
    ||| ('\u{2000}' <= c && c <= '\u{200a}')
    ||| c == '\u{2028}'
    ||| c == '\u{2029}'
    ||| c == '\u{202f}'
    ||| c == '\u{205f}'
    ||| c == '\u{3000}'
}

/// An ASCII letter, `'a'..='z'` or `'A'..='Z'`.
pub open spec fn spec_is_ascii_letter(c: char) -> bool {
    ('a' <= c && c <= 'z') || ('A' <= c && c <= 'Z')
}

/// What `char::is_alphabetic` returns for a character beyond ASCII: whether it
/// has Unicode's `Alphabetic` property.
pub uninterp spec fn spec_alphabetic_beyond_ascii(c: char) -> bool;

/// What `char::is_numeric` returns for a character beyond ASCII: whether it is
/// in one of Unicode's numeric general categories (`Nd`, `Nl`, `No`).
pub uninterp spec fn spec_numeric_beyond_ascii(c: char) -> bool;

/// What `char::is_alphabetic` returns for `c`: within ASCII, exactly the
/// letters `a-z` and `A-Z` have Unicode's `Alphabetic` property; beyond ASCII
/// the property is named, not spelled out.
pub open spec fn spec_is_alphabetic(c: char) -> bool {
    if '\u{7f}' >= c {
        spec_is_ascii_letter(c)
    } else {
        spec_alphabetic_beyond_ascii(c)
    }
}

/// What `char::is_numeric` returns for `c`: within ASCII, exactly the digits
/// `0-9` are numeric; beyond ASCII the categories are named, not spelled out.
pub open spec fn spec_is_numeric(c: char) -> bool {
    if '\u{7f}' >= c {
        spec_is_digit(c)
    } else {
        spec_numeric_beyond_ascii(c)
    }
}

/// Whether `c` is whitespace, as `char::is_whitespace` decides.
pub fn is_whitespace(c: char) -> (b: bool)
    ensures
        b == spec_is_whitespace(c),
{
    ('\u{9}' <= c && c <= '\u{d}') || c == ' ' || c == '\u{85}' || c == '\u{a0}' || c == '\u{1680}'
        || ('\u{2000}' <= c && c <= '\u{200a}') || c == '\u{2028}' || c == '\u{2029}'
        || c == '\u{202f}' || c == '\u{205f}' || c == '\u{3000}'
}

/// `char::is_alphabetic`: its result is the Unicode `Alphabetic` property of `c`.
/// Within ASCII that is the letters `a-z` and `A-Z` (so `'a'` is alphabetic, as
/// std documents, and digits, space and punctuation are not); beyond ASCII the
/// property is named and not spelled out.
#[verifier::external_body]
pub(crate) fn is_alphabetic(c: char) -> (b: bool)
    ensures
        '\u{7f}' >= c ==> (b <==> spec_is_ascii_letter(c)),
        c >= '\u{80}' ==> b == spec_alphabetic_beyond_ascii(c),
{
    c.is_alphabetic()
}

/// `char::is_alphanumeric`: its documentation defines it as `is_alphabetic() ||
/// is_numeric()`. Within ASCII that is the letters and the digits `0-9`;
/// beyond ASCII both properties are named and not spelled out.
#[verifier::external_body]
pub(crate) fn is_alphanumeric(c: char) -> (b: bool)
    ensures
        '\u{7f}' >= c ==> (b <==> spec_is_ascii_letter(c) || spec_is_digit(c)),
        c >= '\u{80}' ==> b == (spec_alphabetic_beyond_ascii(c) || spec_numeric_beyond_ascii(c)),
{
    c.is_alphanumeric()
}

/// What `str::to_lowercase` returns for `s`: its Unicode lowercase mapping
/// (character by character, with the final-sigma rule of the Unicode standard).
pub uninterp spec fn spec_to_lowercase(s: Seq<char>) -> Seq<char>;

/// `str::to_lowercase`: its result depends on `s` alone, and is named here
/// rather than spelled out (the Unicode lowercase tables are not restated).
#[verifier::external_body]
pub(crate) fn to_lowercase(s: &str) -> (r: String)
    ensures
        r@ == spec_to_lowercase(s@),
{
    s.to_lowercase()
}

/// An ASCII decimal digit, `'0'..='9'` (what `char::is_ascii_digit` documents).
pub open spec fn spec_is_digit(c: char) -> bool {
    '0' <= c && c <= '9'
}

/// `char::is_ascii_digit`, written out: `'0'..='9'`.
pub fn is_ascii_digit(c: char) -> (b: bool)
    ensures
        b == spec_is_digit(c),
{
    '0' <= c && c <= '9'
}

/// `String::push`: appends one character.
#[verifier::external_body]
pub(crate) fn push_char(s: &mut String, c: char)
    ensures
        final(s)@ == old(s)@.push(c),
{
    s.push(c);
}

/// `str == str`: two string slices are equal exactly when they hold the same characters.
#[verifier::external_body]
pub(crate) fn str_eq(a: &str, b: &str) -> (r: bool)
    ensures
        r == (a@ == b@),
{
    a == b
}

/// The characters of `s`, in order.
pub fn chars_of(s: &str) -> (v: Vec<char>)
    ensures
        v@ == s@,
{
    let mut v: Vec<char> = Vec::new();
    for c in it: s.chars()
        invariant
            v@ == it.seq().take(it.index() as int),
            it.seq() == s@,
    {
        v.push(c);
    }
    v
}

/// A string holding `v[start..end]`.
pub fn string_of(v: &Vec<char>, start: usize, end: usize) -> (s: String)
    requires
        start <= end <= v.len(),
    ensures
        s@ == v@.subrange(start as int, end as int),
{
    let mut s = String::new();
    let mut i = start;
    while i < end
        invariant
            start <= i <= end <= v.len(),
            s@ == v@.subrange(start as int, i as int),
        decreases end - i,
    {
        push_char(&mut s, v[i]);
        i = i + 1;
    }
    s
}

/// A vector holding `v[start..end]`.
pub fn vec_range(v: &Vec<char>, start: usize, end: usize) -> (r: Vec<char>)
    requires
        start <= end <= v.len(),
    ensures
        r@ == v@.subrange(start as int, end as int),
{
    let mut r: Vec<char> = Vec::new();
    let mut i = start;
    while i < end
        invariant
            start <= i <= end <= v.len(),
            r@ == v@.subrange(start as int, i as int),
        decreases end - i,
    {
        r.push(v[i]);
        i = i + 1;
    }
    r
}

} // verus!
