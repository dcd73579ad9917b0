//! Laws of editing: typing a char and then deleting it with backspace gives
//! back the text and the cursor; cutting a selection and pasting it back
//! gives back the text, and in a plain text leaves the cursor where the
//! selection ended.
use vstd::prelude::*;
use crate::cursor::{Cursor, Position, char_index_of, left_of, right_of, selection_of};
use crate::edit::{
    insert_char_text, insert_at, cursor_right, delete_back_text, delete_back_cursor, remove_range,
    delete_selection_text, delete_selection_cursor, selected_text, paste_text, paste_cursor,
    right_n,
};
use crate::text::{
    breaks_at, breaks_before, first_reaching, line_start, line_count, raw_line, trim_newlines,
    line_text, line_byte_len, utf8_len, is_break_char, lemma_breaks_before_monotone,
    lemma_first_reaching_bounds, lemma_line_start_bounds, lemma_line_start_monotone,
    lemma_line_start_past_end,
};
use crate::encoding::lemma_encode_concat;
use crate::tab_bar_view::{lemma_chars_le_bytes, lemma_one_char_len};

verus! {

/// Where the breaks of `s` and `t` agree before `n`, so do their counts.
proof fn lemma_breaks_agree(s: Seq<char>, t: Seq<char>, n: int, m: int)
    requires
        0 <= m <= n,
        forall|j: int| 0 <= j < n ==> breaks_at(s, j) == breaks_at(t, j),
    ensures
        breaks_before(s, m) == breaks_before(t, m),
    decreases m,
{
    if m > 0 {
        lemma_breaks_agree(s, t, n, m - 1);
    }
}

/// Below the line start `first_reaching(s, k, 0)`, fewer than `k` breaks
/// end, and the search from any index up to it lands on it.
proof fn lemma_first_reaching_from(s: Seq<char>, k: int, from: int)
    requires
        0 <= from <= first_reaching(s, k, 0),
    ensures
        first_reaching(s, k, from) == first_reaching(s, k, 0),
        forall|m: int| 0 <= m < from ==> breaks_before(s, m) < k,
    decreases from,
{
    if from > 0 {
        lemma_first_reaching_from(s, k, from - 1);
        lemma_first_reaching_bounds(s, k, 0);
    }
}

/// The search from `f` lands on `l` when no index from `f` up to `l`
/// reaches `k` breaks and `l` does.
proof fn lemma_first_reaching_lands(t: Seq<char>, k: int, f: int, l: int)
    requires
        0 <= f <= l < t.len(),
        forall|m: int| f <= m < l ==> breaks_before(t, m) < k,
        breaks_before(t, l) >= k,
    ensures
        first_reaching(t, k, f) == l,
    decreases l - f,
{
    if f < l {
        lemma_first_reaching_lands(t, k, f + 1, l);
    }
}

/// When no index below `e` reaches `k` breaks, the search from `f` goes
/// at least to `e`.
proof fn lemma_first_reaching_at_least(t: Seq<char>, k: int, f: int, e: int)
    requires
        0 <= f <= e <= t.len(),
        forall|m: int| f <= m < e ==> breaks_before(t, m) < k,
    ensures
        first_reaching(t, k, f) >= e,
    decreases e - f,
{
    if f < e {
        lemma_first_reaching_at_least(t, k, f + 1, e);
    } else {
        lemma_first_reaching_bounds(t, k, f);
    }
}

/// Trimming trailing line feeds keeps a prefix of the text.
proof fn lemma_trim_prefix(x: Seq<char>)
    ensures
        trim_newlines(x).len() <= x.len(),
        x.take(trim_newlines(x).len() as int) == trim_newlines(x),
    decreases x.len(),
{
    if x.len() > 0 && x.last() == '\n' {
        lemma_trim_prefix(x.drop_last());
        assert(x.take(trim_newlines(x).len() as int) =~= x.drop_last().take(
            trim_newlines(x).len() as int,
        ));
    } else {
        assert(x.take(x.len() as int) =~= x);
    }
}

/// Trimming keeps the first `n` chars when none of them is a line feed.
proof fn lemma_trim_keeps(x: Seq<char>, n: int)
    requires
        0 <= n <= x.len(),
        forall|j: int| 0 <= j < n ==> x[j] != '\n',
    ensures
        trim_newlines(x).len() >= n,
    decreases x.len(),
{
    if x.len() > 0 && x.last() == '\n' {
        assert(x.len() > n) by {
            if x.len() == n && n > 0 {
                assert(x[n - 1] != '\n');
            }
        }
        lemma_trim_keeps(x.drop_last(), n);
    }
}

/// The bytes of a part of a text are at most those of the text.
proof fn lemma_part_bytes(s: Seq<char>, a: int, b: int)
    requires
        0 <= a <= b <= s.len(),
    ensures
        utf8_len(s.subrange(a, b)) <= utf8_len(s),
{
    assert(s =~= s.take(a) + s.subrange(a, b) + s.skip(b));
    lemma_encode_concat(s.take(a), s.subrange(a, b));
    lemma_encode_concat(s.take(a) + s.subrange(a, b), s.skip(b));
}

/// The bytes of a line's text are at most those of the text.
proof fn lemma_line_text_bytes(s: Seq<char>, k: int)
    requires
        0 <= k < line_count(s),
    ensures
        utf8_len(line_text(s, k)) <= utf8_len(s),
        line_text(s, k).len() <= line_start(s, k + 1) - line_start(s, k),
{
    lemma_line_start_bounds(s, k);
    lemma_line_start_bounds(s, k + 1);
    lemma_line_start_monotone(s, k, k + 1);
    let x = raw_line(s, k);
    lemma_trim_prefix(x);
    let t = trim_newlines(x);
    assert(x =~= x.take(t.len() as int) + x.skip(t.len() as int));
    lemma_encode_concat(x.take(t.len() as int), x.skip(t.len() as int));
    lemma_part_bytes(s, line_start(s, k), line_start(s, k + 1));
}

/// A position on a line of the text and within the line's chars: its index
/// is the line's start plus its column, at most where the next line starts;
/// no line feed lies between the line's start and it; and `k` breaks end
/// before the line's start.
proof fn lemma_position_in_line(s: Seq<char>, p: Position)
    requires
        p.line < line_count(s),
        p.column <= line_text(s, p.line as int).len(),
        utf8_len(s) <= usize::MAX,
    ensures
        char_index_of(s, p) == line_start(s, p.line as int) + p.column,
        char_index_of(s, p) <= line_start(s, p.line + 1),
        line_start(s, p.line + 1) <= s.len(),
        breaks_before(s, line_start(s, p.line as int)) >= p.line,
        forall|j: int|
            line_start(s, p.line as int) <= j < char_index_of(s, p) ==> s[j] != '\n',
{
    let k = p.line as int;
    let col = p.column as int;
    let l = line_start(s, k);
    let l2 = line_start(s, k + 1);
    lemma_line_start_bounds(s, k);
    lemma_line_start_bounds(s, k + 1);
    lemma_line_start_monotone(s, k, k + 1);
    lemma_line_text_bytes(s, k);
    lemma_chars_le_bytes(line_text(s, k));
    assert(col <= line_byte_len(s, k));
    let i = char_index_of(s, p);
    assert(i == l + col);
    lemma_first_reaching_from(s, k, l);
    assert(breaks_before(s, l) >= k) by {
        if l < s.len() {
            lemma_first_reaching_bounds(s, k, l + 1);
        }
    }
    lemma_first_reaching_from(s, k + 1, l2);
    assert forall|j: int| l <= j < i implies s[j] != '\n' by {
        if s[j] == '\n' {
            assert(breaks_at(s, j));
            lemma_breaks_before_monotone(s, l, j);
            assert(breaks_before(s, j + 1) >= k + 1);
            if j + 1 < l2 {
                assert(false);
            } else {
                let x = raw_line(s, k);
                assert(x.len() == l2 - l);
                assert(x.last() == '\n');
                lemma_trim_prefix(x.drop_last());
                assert(line_text(s, k) == trim_newlines(x));
                assert(trim_newlines(x) == trim_newlines(x.drop_last()));
                assert(false);
            }
        }
    }
}

/// The pieces of a text around a cut are at most as long in bytes.
proof fn lemma_cut_bytes(s: Seq<char>, i: int, j: int)
    requires
        0 <= i <= j <= s.len(),
    ensures
        utf8_len(s.take(i) + s.skip(j)) <= utf8_len(s),
{
    assert(s =~= s.take(i) + s.subrange(i, j) + s.skip(j));
    lemma_encode_concat(s.take(i), s.subrange(i, j));
    lemma_encode_concat(s.take(i) + s.subrange(i, j), s.skip(j));
    lemma_encode_concat(s.take(i), s.skip(j));
}

/// Whether cutting the selection of `c` from `s` can be undone by pasting:
/// the selection is not empty and lies within the text, and its start is
/// on a line of the text, within the line's chars, not between a carriage
/// return and what follows it.
pub open spec fn cut_undoable(s: Seq<char>, c: Cursor) -> bool {
    match selection_of(c) {
        Some((start, end)) => {
            let i = char_index_of(s, start);
            let j = char_index_of(s, end);
            &&& i < j <= s.len()
            &&& start.line < line_count(s)
            &&& start.column <= line_text(s, start.line as int).len()
            &&& (i == 0 || s[i - 1] != '\r')
        },
        None => false,
    }
}

/// Cutting the selection and pasting what was cut where the cursor is left
/// gives back the text.
pub proof fn lemma_paste_undoes_cut(s: Seq<char>, c: Cursor)
    requires
        cut_undoable(s, c),
        utf8_len(s) <= usize::MAX,
    ensures
        selected_text(s, c) matches Some(clip) && paste_text(
            delete_selection_text(s, c),
            delete_selection_cursor(s, c),
            clip,
        ) == s,
{
    let (start, end) = selection_of(c)->0;
    let k = start.line as int;
    let col = start.column as int;
    let i = char_index_of(s, start);
    let j = char_index_of(s, end);
    lemma_position_in_line(s, start);
    let l = line_start(s, k);
    let t = delete_selection_text(s, c);
    assert(t == s.take(i) + s.skip(j));
    let d = delete_selection_cursor(s, c);
    assert(d.position == start);
    let clip = s.subrange(i, j);
    assert(selected_text(s, c) == Some(clip));
    assert(t.len() == s.len() - (j - i));
    assert forall|m: int| 0 <= m < i implies t[m] == s[m] by {}
    assert(i < t.len() ==> t[i] == s[j]);
    assert forall|m: int| 0 <= m < i implies breaks_at(s, m) == breaks_at(t, m) by {
        if m + 1 < i {
            assert(t[m + 1] == s[m + 1]);
        }
    }
    assert forall|m: int| 0 <= m <= i implies breaks_before(s, m) == breaks_before(t, m) by {
        lemma_breaks_agree(s, t, i, m);
    }
    // Line `k` starts at the same index after the cut.
    lemma_first_reaching_from(s, k, l);
    if l < t.len() {
        lemma_first_reaching_lands(t, k, 0, l);
    } else {
        lemma_first_reaching_at_least(t, k, 0, l);
        lemma_first_reaching_bounds(t, k, 0);
    }
    assert(line_start(t, k) == l);
    // Line `k` keeps at least the chars before the cursor.
    assert(breaks_before(t, l) >= k);
    lemma_breaks_before_monotone(t, l, t.len() as int);
    assert(k < line_count(t));
    assert forall|m: int| 0 <= m < i implies breaks_before(t, m) < k + 1 by {
        lemma_first_reaching_from(s, k + 1, line_start(s, k + 1));
        assert(breaks_before(t, m) == breaks_before(s, m));
    }
    lemma_first_reaching_at_least(t, k + 1, 0, i);
    lemma_line_start_bounds(t, k + 1);
    let x = raw_line(t, k);
    assert forall|m: int| 0 <= m < col implies x[m] != '\n' by {
        assert(x[m] == t[l + m]);
        assert(t[l + m] == s[l + m]);
    }
    lemma_trim_keeps(x, col);
    lemma_cut_bytes(s, i, j);
    lemma_line_text_bytes(t, k);
    lemma_chars_le_bytes(line_text(t, k));
    assert(line_byte_len(t, k) >= col);
    assert(char_index_of(t, start) == i);
    assert(paste_text(t, d, clip) =~= s);
}

/// A plain text: ASCII chars whose only line break is the line feed.
pub open spec fn plain_text(s: Seq<char>) -> bool {
    forall|i: int|
        0 <= i < s.len() ==> (s[i] as u32) < 128 && s[i] != '\r' && s[i] != '\u{0B}' && s[i]
            != '\u{0C}'
}

/// A position on a line of the text, within the line's chars.
pub open spec fn on_line(s: Seq<char>, p: Position) -> bool {
    p.line < line_count(s) && p.column <= line_text(s, p.line as int).len()
}

/// The search for `k` breaks lands where `k` breaks have ended, when the
/// text has that many.
proof fn lemma_first_reaching_reaches(s: Seq<char>, k: int, from: int)
    requires
        0 <= from,
        k <= breaks_before(s, s.len() as int),
    ensures
        breaks_before(s, first_reaching(s, k, from)) >= k,
    decreases s.len() - from,
{
    if from < s.len() && breaks_before(s, from) < k {
        lemma_first_reaching_reaches(s, k, from + 1);
    }
}

/// An ASCII text has one byte per char.
proof fn lemma_ascii_bytes(x: Seq<char>)
    requires
        forall|i: int| 0 <= i < x.len() ==> (x[i] as u32) < 128,
    ensures
        utf8_len(x) == x.len(),
    decreases x.len(),
{
    if x.len() > 0 {
        assert forall|i: int| 0 <= i < x.drop_first().len() implies (x.drop_first()[i] as u32)
            < 128 by {
            assert(x.drop_first()[i] == x[i + 1]);
        }
        lemma_ascii_bytes(x.drop_first());
        assert(vstd::utf8::encode_scalar(x[0] as u32).len() == 1);
    }
}

/// In a plain text a line is its chars up to the next line feed: the next
/// line starts right after that feed, and the last line runs to the end.
/// Its length in bytes is its number of chars.
proof fn lemma_plain_line(s: Seq<char>, k: int)
    requires
        plain_text(s),
        0 <= k < line_count(s),
        utf8_len(s) <= usize::MAX,
    ensures
        line_start(s, k) + line_text(s, k).len() <= s.len(),
        line_text(s, k) == s.subrange(line_start(s, k), line_start(s, k) + line_text(s, k).len()),
        k + 1 < line_count(s) ==> line_start(s, k + 1) == line_start(s, k) + line_text(s, k).len()
            + 1,
        k + 1 >= line_count(s) ==> line_start(s, k) + line_text(s, k).len() == s.len(),
        line_byte_len(s, k) == line_text(s, k).len(),
{
    let l = line_start(s, k);
    let l2 = line_start(s, k + 1);
    let n = s.len() as int;
    lemma_line_start_bounds(s, k);
    lemma_line_start_bounds(s, k + 1);
    lemma_line_start_monotone(s, k, k + 1);
    lemma_first_reaching_bounds(s, k, 0);
    lemma_first_reaching_from(s, k, l);
    lemma_first_reaching_reaches(s, k, 0);
    if l > 0 {
        lemma_breaks_before_monotone(s, l - 1, l);
    }
    assert(breaks_before(s, l) == k);
    lemma_first_reaching_from(s, k + 1, l2);
    assert forall|m: int| l <= m < l2 - 1 implies s[m] != '\n' by {
        lemma_breaks_before_monotone(s, l, m);
        assert(breaks_before(s, m + 1) < k + 1);
        assert(!breaks_at(s, m));
    }
    let x = raw_line(s, k);
    if k + 1 < line_count(s) {
        lemma_first_reaching_reaches(s, k + 1, 0);
        assert(l2 > l);
        assert(breaks_before(s, l2 - 1) < k + 1);
        assert(breaks_at(s, l2 - 1));
        assert(s[l2 - 1] == '\n');
        let y = x.drop_last();
        assert(y =~= s.subrange(l, l2 - 1));
        assert(trim_newlines(x) == trim_newlines(y));
        if y.len() > 0 {
            assert(y.last() == s[l2 - 2]);
        }
        assert(trim_newlines(y) == y);
        assert(line_text(s, k) == y);
    } else {
        lemma_line_start_past_end(s, k + 1);
        assert(breaks_before(s, n) == k);
        assert forall|m: int| l <= m < n implies s[m] != '\n' by {
            lemma_breaks_before_monotone(s, l, m);
            lemma_breaks_before_monotone(s, m + 1, n);
            assert(!breaks_at(s, m));
        }
        assert(x =~= s.subrange(l, n));
        if x.len() > 0 {
            assert(x.last() == s[n - 1]);
        }
        assert(trim_newlines(x) == x);
        assert(line_text(s, k) == x);
    }
    let t = line_text(s, k);
    assert forall|i: int| 0 <= i < t.len() implies (t[i] as u32) < 128 by {
        assert(t[i] == s[l + i]);
        assert((s[l + i] as u32) < 128);
    }
    lemma_ascii_bytes(t);
    lemma_chars_le_bytes(s);
}

/// In a plain text a right move from a position on a line, before the end
/// of the text, lands on a line at the next index.
proof fn lemma_plain_right(s: Seq<char>, p: Position)
    requires
        plain_text(s),
        utf8_len(s) <= usize::MAX,
        on_line(s, p),
        char_index_of(s, p) < s.len(),
    ensures
        on_line(s, right_of(s, p)),
        char_index_of(s, right_of(s, p)) == char_index_of(s, p) + 1,
{
    let k = p.line as int;
    lemma_plain_line(s, k);
    let q = right_of(s, p);
    if p.column < line_byte_len(s, k) {
        assert(q == Position { line: p.line, column: (p.column + 1) as usize });
    } else {
        assert(k + 1 < line_count(s));
        lemma_chars_le_bytes(s);
        crate::text::lemma_breaks_before_bounds(s, s.len() as int);
        assert(q == Position { line: (p.line + 1) as usize, column: 0 });
        lemma_plain_line(s, k + 1);
    }
}

/// In a plain text `n` right moves from a position on a line go `n` chars
/// on, while they stay within the text.
proof fn lemma_plain_right_n(s: Seq<char>, p: Position, n: nat)
    requires
        plain_text(s),
        utf8_len(s) <= usize::MAX,
        on_line(s, p),
        char_index_of(s, p) + n <= s.len(),
    ensures
        on_line(s, right_n(s, p, n)),
        char_index_of(s, right_n(s, p, n)) == char_index_of(s, p) + n,
    decreases n,
{
    if n > 0 {
        lemma_plain_right_n(s, p, (n - 1) as nat);
        lemma_plain_right(s, right_n(s, p, (n - 1) as nat));
    }
}

/// In a plain text two positions on lines at the same index are the same.
proof fn lemma_plain_index_injective(s: Seq<char>, p: Position, q: Position)
    requires
        plain_text(s),
        utf8_len(s) <= usize::MAX,
        on_line(s, p),
        on_line(s, q),
        char_index_of(s, p) == char_index_of(s, q),
    ensures
        p == q,
{
    lemma_plain_line(s, p.line as int);
    lemma_plain_line(s, q.line as int);
    if p.line < q.line {
        lemma_line_start_monotone(s, p.line + 1, q.line as int);
    } else if q.line < p.line {
        lemma_line_start_monotone(s, q.line + 1, p.line as int);
    }
}

/// Cutting the selection of a plain text and pasting what was cut where
/// the cursor is left puts the cursor where the selection ended, with no
/// selection.
pub proof fn lemma_paste_after_cut_ends_at_selection_end(s: Seq<char>, c: Cursor)
    requires
        cut_undoable(s, c),
        plain_text(s),
        utf8_len(s) <= usize::MAX,
        selection_of(c) matches Some((a, e)) && on_line(s, e),
    ensures
        selected_text(s, c) matches Some(clip) && ({
            let after = paste_cursor(
                delete_selection_text(s, c),
                delete_selection_cursor(s, c),
                clip,
            );
            &&& selection_of(c) matches Some((a, e)) && after.position == e
            &&& after.selection_start is None
        }),
{
    lemma_paste_undoes_cut(s, c);
    let (start, end) = selection_of(c)->0;
    lemma_line_start_bounds(s, start.line as int);
    let i = char_index_of(s, start);
    let j = char_index_of(s, end);
    let clip = s.subrange(i, j);
    let t = delete_selection_text(s, c);
    let d = delete_selection_cursor(s, c);
    assert(d.position == start);
    assert(paste_text(t, d, clip) == s);
    let n = (j - i) as nat;
    assert(clip.len() == n);
    lemma_plain_right_n(s, start, n);
    lemma_plain_index_injective(s, right_n(s, start, n), end);
}

/// Typing a char and then deleting it with backspace gives back the text
/// and the cursor's position, for a cursor on a line of the text and
/// within the line's chars, a char that is not a line break, and a cursor
/// that does not sit between a carriage return and what follows it.
pub proof fn lemma_backspace_undoes_typing(s: Seq<char>, c: Cursor, ch: char)
    requires
        c.position.line < line_count(s),
        c.position.column <= line_text(s, c.position.line as int).len(),
        !is_break_char(ch) && ch != '\r',
        char_index_of(s, c.position) == 0 || s[char_index_of(s, c.position) - 1] != '\r',
        utf8_len(s) + 4 <= usize::MAX,
    ensures
        ({
            let t = insert_char_text(s, c, ch);
            let d = cursor_right(t, c);
            &&& delete_back_text(t, d) == s
            &&& delete_back_cursor(t, d).position == c.position
        }),
{
    let p = c.position;
    let k = p.line as int;
    let col = p.column as int;
    let l = line_start(s, k);
    lemma_position_in_line(s, p);
    let i = char_index_of(s, p);
    let t = insert_char_text(s, c, ch);
    assert(t == insert_at(s, i, seq![ch]));
    assert(t.len() == s.len() + 1);
    assert(t[i] == ch);
    assert forall|j: int| 0 <= j < i implies t[j] == s[j] by {}
    // Breaks before the cursor agree.
    assert forall|j: int| 0 <= j < i implies breaks_at(s, j) == breaks_at(t, j) by {
        if j + 1 < i {
            assert(t[j + 1] == s[j + 1]);
        }
    }
    assert forall|m: int| 0 <= m <= i implies breaks_before(s, m) == breaks_before(t, m) by {
        lemma_breaks_agree(s, t, i, m);
    }
    // Line `k` starts at the same index in both.
    lemma_first_reaching_from(s, k, l);
    lemma_first_reaching_lands(t, k, 0, l);
    assert(line_start(t, k) == l);
    // Below the cursor no index reaches `k + 1` breaks.
    assert forall|m: int| 0 <= m < i implies breaks_before(t, m) < k + 1 by {
        lemma_first_reaching_from(s, k + 1, line_start(s, k + 1));
        assert(breaks_before(t, m) == breaks_before(s, m));
    }
    lemma_first_reaching_at_least(t, k + 1, 0, i);
    let l2t = line_start(t, k + 1);
    lemma_line_start_bounds(t, k + 1);
    // Line `k` of the new text is a line of it.
    assert(breaks_before(t, l) >= k) by {
        assert(breaks_before(t, l) == breaks_before(s, l));
    }
    lemma_breaks_before_monotone(t, l, t.len() as int);
    assert(k < line_count(t));
    let x = raw_line(t, k);
    assert(x == t.subrange(l, l2t));
    assert forall|j: int| 0 <= j < col implies x[j] != '\n' by {
        assert(x[j] == t[l + j]);
        assert(t[l + j] == s[l + j]);
    }
    lemma_trim_keeps(x, col);
    lemma_line_text_bytes(t, k);
    assert(utf8_len(t) == utf8_len(s) + utf8_len(seq![ch])) by {
        assert(t =~= s.take(i) + seq![ch] + s.skip(i));
        assert(s =~= s.take(i) + s.skip(i));
        lemma_encode_concat(s.take(i), s.skip(i));
        lemma_encode_concat(s.take(i), seq![ch]);
        lemma_encode_concat(s.take(i) + seq![ch], s.skip(i));
    }
    lemma_one_char_len(ch);
    lemma_chars_le_bytes(line_text(t, k));
    assert(line_byte_len(t, k) >= col);
    // At the end of its line, the cursor is not on the last line.
    if line_byte_len(t, k) == col && k + 1 >= line_count(t) {
        lemma_line_start_past_end(t, k + 1);
        assert(l2t == t.len());
        assert forall|j: int| 0 <= j < col + 1 implies x[j] != '\n' by {
            if j < col {
            } else {
                assert(x[j] == t[i]);
            }
        }
        lemma_trim_keeps(x, col + 1);
        assert(false);
    }
    let d = cursor_right(t, c);
    let q = d.position;
    if col < line_byte_len(t, k) {
        assert(q == Position { line: p.line, column: (p.column + 1) as usize });
        assert(left_of(t, q) == Position { line: p.line, column: p.column });
    } else {
        assert(k + 1 < line_count(t));
        lemma_chars_le_bytes(s);
        crate::text::lemma_breaks_before_bounds(t, t.len() as int);
        assert(p.line + 1 <= usize::MAX);
        assert(q == Position { line: (p.line + 1) as usize, column: 0 });
        assert(left_of(t, q) == Position { line: p.line, column: line_byte_len(t, k) });
    }
    assert(left_of(t, q) == p);
    assert(char_index_of(t, p) == i);
    assert(delete_back_text(t, d) =~= remove_range(t, i, i + 1));
    assert(remove_range(t, i, i + 1) =~= s);
}

} // verus!
