//! The mathematical model of a text: a sequence of chars split into lines.
//!
//! A line ends after a line break and the text always has one more line than
//! it has line breaks. The breaks are LF, VT, FF, NEL, LINE SEPARATOR,
//! PARAGRAPH SEPARATOR and CR; a CR directly followed by an LF forms a single
//! break (CRLF) that ends at the LF.
use vstd::prelude::*;

verus! {

/// The chars that end a line on their own.
pub open spec fn is_break_char(c: char) -> bool {
    c == '\n' || c == '\u{0B}' || c == '\u{0C}' || c == '\u{85}' || c == '\u{2028}' || c
        == '\u{2029}'
}

/// A line break ends at index `i` of `s`.
pub open spec fn breaks_at(s: Seq<char>, i: int) -> bool {
    &&& 0 <= i < s.len()
    &&& (is_break_char(s[i]) || (s[i] == '\r' && !(i + 1 < s.len() && s[i + 1] == '\n')))
}

/// The number of line breaks that end before index `n`.
pub open spec fn breaks_before(s: Seq<char>, n: int) -> nat
    decreases n,
{
    if n <= 0 {
        0
    } else {
        breaks_before(s, n - 1) + if breaks_at(s, n - 1) {
            1nat
        } else {
            0nat
        }
    }
}

/// The number of lines of `s`: one more than its line breaks.
pub open spec fn line_count(s: Seq<char>) -> nat {
    breaks_before(s, s.len() as int) + 1
}

/// The smallest index `p >= from` before which at least `k` breaks end, or the
/// length of `s` when there is none.
pub open spec fn first_reaching(s: Seq<char>, k: int, from: int) -> int
    decreases s.len() - from,
{
    if from >= s.len() {
        s.len() as int
    } else if breaks_before(s, from) >= k {
        from
    } else {
        first_reaching(s, k, from + 1)
    }
}

/// The index at which line `k` starts; `k == line_count(s)` gives the length.
pub open spec fn line_start(s: Seq<char>, k: int) -> int {
    first_reaching(s, k, 0)
}

/// The chars of line `k`, its line break included.
pub open spec fn raw_line(s: Seq<char>, k: int) -> Seq<char> {
    s.subrange(line_start(s, k), line_start(s, k + 1))
}

/// `s` with every trailing LF removed.
pub open spec fn trim_newlines(s: Seq<char>) -> Seq<char>
    decreases s.len(),
{
    if s.len() > 0 && s.last() == '\n' {
        trim_newlines(s.drop_last())
    } else {
        s
    }
}

/// The text of line `k` without its trailing LF; empty past the last line.
pub open spec fn line_text(s: Seq<char>, k: int) -> Seq<char> {
    if 0 <= k < line_count(s) {
        trim_newlines(raw_line(s, k))
    } else {
        Seq::empty()
    }
}

/// The length in UTF-8 bytes of `s`.
pub open spec fn utf8_len(s: Seq<char>) -> nat {
    vstd::utf8::encode_utf8(s).len()
}

/// The length in UTF-8 bytes of line `k` of `s` (its trailing LF excluded),
/// as `str::len` reports it in a `usize`.
pub open spec fn line_byte_len(s: Seq<char>, k: int) -> usize {
    utf8_len(line_text(s, k)) as usize
}

pub proof fn lemma_breaks_before_bounds(s: Seq<char>, n: int)
    ensures
        breaks_before(s, n) <= if n <= 0 {
            0
        } else {
            n
        },
    decreases n,
{
    if n > 0 {
        lemma_breaks_before_bounds(s, n - 1);
    }
}

pub proof fn lemma_breaks_before_monotone(s: Seq<char>, m: int, n: int)
    requires
        m <= n,
    ensures
        breaks_before(s, m) <= breaks_before(s, n),
        breaks_before(s, n) <= breaks_before(s, m) + (n - m),
    decreases n - m,
{
    if m < n {
        lemma_breaks_before_monotone(s, m, n - 1);
    }
}

pub proof fn lemma_first_reaching_bounds(s: Seq<char>, k: int, from: int)
    requires
        0 <= from <= s.len(),
    ensures
        from <= first_reaching(s, k, from) <= s.len(),
    decreases s.len() - from,
{
    if from < s.len() && breaks_before(s, from) < k {
        lemma_first_reaching_bounds(s, k, from + 1);
    }
}

/// Line starts lie within the text.
pub proof fn lemma_line_start_bounds(s: Seq<char>, k: int)
    ensures
        0 <= line_start(s, k) <= s.len(),
{
    lemma_first_reaching_bounds(s, k, 0);
}

proof fn lemma_first_reaching_monotone(s: Seq<char>, j: int, k: int, from: int)
    requires
        j <= k,
        0 <= from <= s.len(),
    ensures
        first_reaching(s, j, from) <= first_reaching(s, k, from),
    decreases s.len() - from,
{
    if from < s.len() {
        if breaks_before(s, from) >= k {
        } else if breaks_before(s, from) >= j {
            lemma_first_reaching_bounds(s, k, from + 1);
        } else {
            lemma_first_reaching_monotone(s, j, k, from + 1);
        }
    }
}

/// Later lines start no earlier.
pub proof fn lemma_line_start_monotone(s: Seq<char>, j: int, k: int)
    requires
        j <= k,
    ensures
        line_start(s, j) <= line_start(s, k),
{
    lemma_first_reaching_monotone(s, j, k, 0);
}

/// Line 0 starts at 0, and every later line that exists starts after index 0.
pub proof fn lemma_line_start_positive(s: Seq<char>, k: int)
    requires
        1 <= k < line_count(s),
    ensures
        line_start(s, k) >= 1,
{
    assert(breaks_before(s, 0) == 0);
    if s.len() == 0 {
        assert(breaks_before(s, s.len() as int) == 0);
    } else {
        lemma_first_reaching_bounds(s, k, 1);
    }
}

pub proof fn lemma_line_start_zero(s: Seq<char>)
    ensures
        line_start(s, 0) == 0,
{
}

/// Past the last line, a line starts at the end of the text.
pub proof fn lemma_line_start_past_end(s: Seq<char>, k: int)
    requires
        k >= line_count(s),
    ensures
        line_start(s, k) == s.len(),
{
    lemma_first_reaching_past(s, k, 0);
}

proof fn lemma_first_reaching_past(s: Seq<char>, k: int, from: int)
    requires
        k >= line_count(s),
        0 <= from,
    ensures
        first_reaching(s, k, from) == s.len(),
    decreases s.len() - from,
{
    if from < s.len() {
        lemma_breaks_before_monotone(s, from, s.len() as int);
        lemma_first_reaching_past(s, k, from + 1);
    }
}

} // verus!
