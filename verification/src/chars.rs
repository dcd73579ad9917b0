//! Char classes and conversions between `String` and `Vec<char>`.
use vstd::prelude::*;

verus! {

/// Whether `c` is alphabetic or numeric in the Unicode sense, as
/// `char::is_alphanumeric` decides it.
pub uninterp spec fn char_is_alphanumeric(c: char) -> bool;

/// Whether `c` has the Unicode `White_Space` property: the controls TAB,
/// LF, VT, FF and CR, SPACE, NEL, NO-BREAK SPACE, OGHAM SPACE MARK, the
/// spaces from EN QUAD to HAIR SPACE, LINE and PARAGRAPH SEPARATOR, NARROW
/// NO-BREAK SPACE, MEDIUM MATHEMATICAL SPACE and IDEOGRAPHIC SPACE.
pub open spec fn char_is_whitespace(c: char) -> bool {
    let v = c as u32;
    ||| 0x09 <= v <= 0x0D
    ||| v == 0x20
    ||| v == 0x85
    ||| v == 0xA0
    ||| v == 0x1680
    ||| 0x2000 <= v <= 0x200A
    ||| v == 0x2028
    ||| v == 0x2029
    ||| v == 0x202F
    ||| v == 0x205F
    ||| v == 0x3000
}

/// The lowercase form of a string, as `str::to_lowercase` computes it.
pub uninterp spec fn lowercase(s: Seq<char>) -> Seq<char>;

/// An ASCII letter or digit.
pub open spec fn ascii_alphanumeric(c: char) -> bool {
    let v = c as u32;
    (0x30 <= v <= 0x39) || (0x41 <= v <= 0x5A) || (0x61 <= v <= 0x7A)
}

/// A word char: alphanumeric or `_`. Among ASCII chars these are the
/// letters, the digits and `_`.
pub open spec fn is_word_char_spec(c: char) -> bool {
    if (c as u32) < 128 {
        ascii_alphanumeric(c) || c == '_'
    } else {
        char_is_alphanumeric(c)
    }
}

/// Calls `char::is_alphanumeric`: the result is named, and for ASCII chars
/// stated: the letters `a`-`z`, `A`-`Z` and the digits `0`-`9` are
/// alphanumeric, every other ASCII char (space, punctuation, controls) is
/// not. Beyond ASCII the Unicode `Alphabetic` and numeric classes are not
/// written out.
#[verifier::external_body]
pub(crate) fn is_alphanumeric(c: char) -> (b: bool)
    ensures
        b == char_is_alphanumeric(c),
        (c as u32) < 128 ==> (b <==> ascii_alphanumeric(c)),
{
    c.is_alphanumeric()
}

/// Calls `char::is_whitespace`, which is true exactly for the chars with
/// the `White_Space` property (see `char_is_whitespace`).
#[verifier::external_body]
pub(crate) fn is_whitespace(c: char) -> (b: bool)
    ensures
        b == char_is_whitespace(c),
{
    c.is_whitespace()
}

/// Calls `str::to_lowercase`: the result depends on the string alone and is
/// named, the Unicode lowercase mapping is not written out. Each char maps to
/// one or more chars (as `char::to_lowercase` documents), so a non-empty
/// string stays non-empty.
#[verifier::external_body]
pub(crate) fn to_lowercase(s: &str) -> (r: String)
    ensures
        r@ == lowercase(s@),
        s@.len() > 0 ==> r@.len() > 0,
{
    s.to_lowercase()
}

/// Calls `String::push`, which appends one char.
#[verifier::external_body]
pub(crate) fn string_push(s: &mut String, c: char)
    ensures
        final(s)@ == old(s)@.push(c),
{
    s.push(c)
}

/// Whether `c` is a word char (alphanumeric or `_`).
pub fn is_word_char(c: char) -> (b: bool)
    ensures
        b == is_word_char_spec(c),
{
    is_alphanumeric(c) || c == '_'
}

/// The chars of a string slice, in order.
pub fn str_to_chars(s: &str) -> (v: Vec<char>)
    ensures
        v@ == s@,
{
    let mut v: Vec<char> = Vec::new();
    for c in it: s.chars()
        invariant
            v@ == it.seq().take(it.index() as int),
    {
        v.push(c);
    }
    v
}

/// A string holding the given chars, in order.
pub fn chars_to_string(v: &[char]) -> (s: String)
    ensures
        s@ == v@,
{
    let mut s = String::new();
    let mut i: usize = 0;
    while i < v.len()
        invariant
            i <= v.len(),
            s@ == v@.take(i as int),
        decreases v.len() - i,
    {
        string_push(&mut s, v[i]);
        assert(v@.take(i as int).push(v@[i as int]) =~= v@.take(i + 1));
        i = i + 1;
    }
    assert(v@.take(v.len() as int) =~= v@);
    s
}

} // verus!
