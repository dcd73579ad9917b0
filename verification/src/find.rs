//! Find and replace in an editor tab: the matches of a query, line by line,
//! moving between them, and replacing one or all of them.
use vstd::prelude::*;
use vstd::utf8::encode_utf8;
use crate::rope_buffer::{RopeBuffer, replace_line_spec};
use crate::cursor::{Cursor, Position, pos_le};
use crate::chars::{is_word_char, is_word_char_spec, lowercase, to_lowercase, str_to_chars, chars_to_string};
use crate::text::{line_count, line_text};
use crate::encoding::{byte_to_char, char_at_byte};
use crate::tab::{Tab, FindMatch, FindReplaceState, FindFocusedField, Snapshot, viewport_for, pushed_with_limit};
use crate::strings::subrange_vec;

verus! {

/// Whether the bytes `n` occur in `h` at byte `p`.
pub open spec fn occurs_at(h: Seq<u8>, n: Seq<u8>, p: int) -> bool {
    0 <= p && p + n.len() <= h.len() && h.subrange(p, p + n.len()) == n
}

/// Whether char index `i` of `s` holds a word char.
pub open spec fn word_at(s: Seq<char>, i: int) -> bool {
    0 <= i < s.len() && is_word_char_spec(s[i])
}

/// Whether a match from byte `p` to byte `e` of `s` stands as a whole word:
/// no word char just before or just after it. The neighbours are looked up
/// as chars at the indices `p - 1` and `e`.
pub open spec fn whole_word_at(s: Seq<char>, p: int, e: int) -> bool {
    (p == 0 || !word_at(s, p - 1)) && (e >= encode_utf8(s).len() || !word_at(s, e))
}

/// The matches of `q` in the line `s` (number `line`) from byte `from` on:
/// leftmost first, not overlapping, columns in bytes; with `ww`, only those
/// that stand as whole words are kept.
pub open spec fn line_matches(s: Seq<char>, q: Seq<char>, ww: bool, line: usize, from: int) -> Seq<
    FindMatch,
>
    decreases encode_utf8(s).len() - from,
{
    let h = encode_utf8(s);
    let n = encode_utf8(q);
    if n.len() == 0 || from < 0 || from + n.len() > h.len() {
        Seq::empty()
    } else if occurs_at(h, n, from) {
        let e = from + n.len();
        let m = FindMatch {
            start: Position { line, column: from as usize },
            end: Position { line, column: e as usize },
        };
        let rest = line_matches(s, q, ww, line, e);
        if !ww || whole_word_at(s, from, e) {
            seq![m] + rest
        } else {
            rest
        }
    } else {
        line_matches(s, q, ww, line, from + 1)
    }
}

/// Every match reported in a line is an occurrence of the query: on that
/// line, at or after `from`, its end the query's length after its start,
/// the bytes between them the query's bytes; matches come left to right
/// without overlapping; and with whole words on, no word char (alphanumeric
/// or `_`) stands right before or right after a match.
pub proof fn lemma_line_matches_are_occurrences(
    s: Seq<char>,
    q: Seq<char>,
    ww: bool,
    line: usize,
    from: int,
)
    requires
        0 <= from,
        encode_utf8(s).len() <= usize::MAX,
    ensures
        ({
            let h = encode_utf8(s);
            let n = encode_utf8(q);
            let ms = line_matches(s, q, ww, line, from);
            &&& forall|i: int|
                0 <= i < ms.len() ==> {
                    let m = #[trigger] ms[i];
                    &&& m.start.line == line && m.end.line == line
                    &&& from <= m.start.column
                    &&& m.end.column == m.start.column + n.len() <= h.len()
                    &&& h.subrange(m.start.column as int, m.end.column as int) == n
                    &&& ww && m.start.column > 0 && m.start.column - 1 < s.len()
                        ==> !is_word_char_spec(s[m.start.column - 1])
                    &&& ww && m.end.column < h.len() && m.end.column < s.len()
                        ==> !is_word_char_spec(s[m.end.column as int])
                }
            &&& forall|i: int, j: int|
                0 <= i < j < ms.len() ==> #[trigger] ms[i].end.column <= #[trigger] ms[j].start.column
        }),
    decreases encode_utf8(s).len() - from,
{
    let h = encode_utf8(s);
    let n = encode_utf8(q);
    if n.len() == 0 || from + n.len() > h.len() {
    } else if occurs_at(h, n, from) {
        let e = from + n.len();
        lemma_line_matches_are_occurrences(s, q, ww, line, e);
        let rest = line_matches(s, q, ww, line, e);
        let m = FindMatch {
            start: Position { line, column: from as usize },
            end: Position { line, column: e as usize },
        };
        if !ww || whole_word_at(s, from, e) {
            let ms = seq![m] + rest;
            assert(line_matches(s, q, ww, line, from) == ms);
            assert forall|i: int| 0 <= i < ms.len() implies {
                let m = #[trigger] ms[i];
                &&& m.start.line == line && m.end.line == line
                &&& from <= m.start.column
                &&& m.end.column == m.start.column + n.len() <= h.len()
                &&& h.subrange(m.start.column as int, m.end.column as int) == n
                &&& ww && m.start.column > 0 && m.start.column - 1 < s.len()
                    ==> !is_word_char_spec(s[m.start.column - 1])
                &&& ww && m.end.column < h.len() && m.end.column < s.len()
                    ==> !is_word_char_spec(s[m.end.column as int])
            } by {
                if i > 0 {
                    assert(ms[i] == rest[i - 1]);
                } else {
                    assert(ms[i] == m);
                    assert(h.subrange(from, e) == n);
                }
            }
            assert forall|i: int, j: int|
                0 <= i < j < ms.len() implies #[trigger] ms[i].end.column <= #[trigger] ms[j].start.column by {
                assert(ms[j] == rest[j - 1]);
                if i > 0 {
                    assert(ms[i] == rest[i - 1]);
                }
            }
        } else {
            assert(line_matches(s, q, ww, line, from) == rest);
        }
    } else {
        lemma_line_matches_are_occurrences(s, q, ww, line, from + 1);
        assert(line_matches(s, q, ww, line, from) == line_matches(s, q, ww, line, from + 1));
    }
}

/// No occurrence of the query is passed over for nothing: an occurrence at
/// byte `p` (at or after `from`) that is not reported lies inside an earlier
/// occurrence that the search went through, which itself was reported
/// unless whole words are on; with whole words on, an occurrence is also
/// passed over when a word char stands right before or after it.
pub proof fn lemma_line_matches_miss_nothing(
    s: Seq<char>,
    q: Seq<char>,
    ww: bool,
    line: usize,
    from: int,
    p: int,
)
    requires
        0 <= from <= p,
        encode_utf8(s).len() <= usize::MAX,
        occurs_at(encode_utf8(s), encode_utf8(q), p),
        encode_utf8(q).len() > 0,
        !ww || whole_word_at(s, p, p + encode_utf8(q).len()),
        forall|i: int|
            0 <= i < line_matches(s, q, ww, line, from).len() ==> (#[trigger] line_matches(
                s,
                q,
                ww,
                line,
                from,
            )[i]).start.column != p,
    ensures
        exists|o: int|
            #![trigger occurs_at(encode_utf8(s), encode_utf8(q), o)]
            from <= o < p < o + encode_utf8(q).len() && occurs_at(encode_utf8(s), encode_utf8(q), o)
                && (!ww ==> exists|i: int|
                0 <= i < line_matches(s, q, ww, line, from).len() && (#[trigger] line_matches(
                    s,
                    q,
                    ww,
                    line,
                    from,
                )[i]).start.column == o),
    decreases encode_utf8(s).len() - from,
{
    let h = encode_utf8(s);
    let n = encode_utf8(q);
    let ms = line_matches(s, q, ww, line, from);
    if occurs_at(h, n, from) {
        let e = from + n.len();
        let rest = line_matches(s, q, ww, line, e);
        let m = FindMatch {
            start: Position { line, column: from as usize },
            end: Position { line, column: e as usize },
        };
        let taken = !ww || whole_word_at(s, from, e);
        if taken {
            assert(ms == seq![m] + rest);
            assert(ms[0] == m);
        } else {
            assert(ms == rest);
        }
        if p < e {
            if p == from {
                assert(taken);
                assert(ms[0].start.column == p);
                assert(false);
            }
            if !ww {
                assert(ms[0].start.column == from);
            }
            assert(occurs_at(h, n, from));
        } else {
            assert forall|i: int| 0 <= i < rest.len() implies (#[trigger] rest[i]).start.column != p by {
                if taken {
                    assert(ms[i + 1] == rest[i]);
                } else {
                    assert(ms[i] == rest[i]);
                }
            }
            lemma_line_matches_miss_nothing(s, q, ww, line, e, p);
            let o = choose|o: int|
                #![trigger occurs_at(h, n, o)]
                e <= o < p < o + n.len() && occurs_at(h, n, o) && (!ww ==> exists|i: int|
                    0 <= i < rest.len() && (#[trigger] rest[i]).start.column == o);
            if !ww {
                let i = choose|i: int| 0 <= i < rest.len() && (#[trigger] rest[i]).start.column == o;
                assert(ms[i + 1] == rest[i]);
            }
            assert(occurs_at(h, n, o));
        }
    } else {
        assert(p != from);
        assert(ms == line_matches(s, q, ww, line, from + 1));
        lemma_line_matches_miss_nothing(s, q, ww, line, from + 1, p);
        let o = choose|o: int|
            #![trigger occurs_at(h, n, o)]
            from + 1 <= o < p < o + n.len() && occurs_at(h, n, o) && (!ww ==> exists|i: int|
                0 <= i < ms.len() && (#[trigger] ms[i]).start.column == o);
        assert(occurs_at(h, n, o));
    }
}

/// The matches found in a line are on that line.
proof fn lemma_line_matches_on_line(s: Seq<char>, q: Seq<char>, ww: bool, line: usize, from: int)
    ensures
        forall|i: int|
            0 <= i < line_matches(s, q, ww, line, from).len() ==> (#[trigger] line_matches(
                s,
                q,
                ww,
                line,
                from,
            )[i]).start.line == line,
    decreases encode_utf8(s).len() - from,
{
    let h = encode_utf8(s);
    let n = encode_utf8(q);
    if n.len() == 0 || from < 0 || from + n.len() > h.len() {
    } else if occurs_at(h, n, from) {
        let e = from + n.len();
        lemma_line_matches_on_line(s, q, ww, line, e);
        let rest = line_matches(s, q, ww, line, e);
        let ms = line_matches(s, q, ww, line, from);
        let m = FindMatch {
            start: Position { line, column: from as usize },
            end: Position { line, column: e as usize },
        };
        if !ww || whole_word_at(s, from, e) {
            assert(ms == seq![m] + rest);
            assert forall|i: int| 0 <= i < ms.len() implies (#[trigger] ms[i]).start.line == line by {
                if i > 0 {
                    assert(ms[i] == rest[i - 1]);
                }
            }
        } else {
            assert(ms == rest);
        }
    } else {
        lemma_line_matches_on_line(s, q, ww, line, from + 1);
        assert(line_matches(s, q, ww, line, from) == line_matches(s, q, ww, line, from + 1));
    }
}

/// The matches of a find in the first `k` lines are, line by line in order,
/// exactly the matches of each line's searched text: every match is one of
/// its own line's matches, every match of a line is reported, and the
/// lines of the matches never go back.
pub proof fn lemma_matches_line_by_line(
    text: Seq<char>,
    q: Seq<char>,
    cs: bool,
    ww: bool,
    k: int,
)
    requires
        0 <= k <= usize::MAX,
    ensures
        ({
            let ms = matches_before(text, q, cs, ww, k);
            &&& forall|i: int|
                0 <= i < ms.len() ==> #[trigger] ms[i].start.line < k && line_matches(
                    search_text(line_text(text, ms[i].start.line as int), cs),
                    q,
                    ww,
                    ms[i].start.line,
                    0,
                ).contains(ms[i])
            &&& forall|l: int, m: FindMatch|
                0 <= l < k && #[trigger] line_matches(
                    search_text(line_text(text, l), cs),
                    q,
                    ww,
                    l as usize,
                    0,
                ).contains(m) ==> ms.contains(m)
            &&& forall|i: int, j: int|
                0 <= i < j < ms.len() ==> #[trigger] ms[i].start.line <= #[trigger] ms[j].start.line
        }),
    decreases k,
{
    if k > 0 {
        lemma_matches_line_by_line(text, q, cs, ww, k - 1);
        let before = matches_before(text, q, cs, ww, k - 1);
        let lm = line_matches(search_text(line_text(text, k - 1), cs), q, ww, (k - 1) as usize, 0);
        lemma_line_matches_on_line(search_text(line_text(text, k - 1), cs), q, ww, (k - 1) as usize, 0);
        let ms = matches_before(text, q, cs, ww, k);
        assert(ms == before + lm);
        assert forall|i: int|
            0 <= i < ms.len() implies #[trigger] ms[i].start.line < k && line_matches(
                search_text(line_text(text, ms[i].start.line as int), cs),
                q,
                ww,
                ms[i].start.line,
                0,
            ).contains(ms[i]) by {
            if i >= before.len() {
                assert(ms[i] == lm[i - before.len()]);
                assert(lm.contains(lm[i - before.len()]));
            } else {
                assert(ms[i] == before[i]);
            }
        }
        assert forall|l: int, m: FindMatch|
            0 <= l < k && #[trigger] line_matches(
                search_text(line_text(text, l), cs),
                q,
                ww,
                l as usize,
                0,
            ).contains(m) implies ms.contains(m) by {
            if l < k - 1 {
                let x = choose|x: int| 0 <= x < before.len() && before[x] == m;
                assert(ms[x] == m);
            } else {
                let x = choose|x: int| 0 <= x < lm.len() && lm[x] == m;
                assert(ms[before.len() + x] == m);
            }
        }
        assert forall|i: int, j: int|
            0 <= i < j < ms.len() implies #[trigger] ms[i].start.line <= #[trigger] ms[j].start.line by {
            if j >= before.len() {
                assert(ms[j] == lm[j - before.len()]);
                if i < before.len() {
                    assert(ms[i] == before[i]);
                } else {
                    assert(ms[i] == lm[i - before.len()]);
                }
            } else {
                assert(ms[i] == before[i]);
                assert(ms[j] == before[j]);
            }
        }
    }
}

/// The text that is searched: as it is, or lowercased.
pub open spec fn search_text(t: Seq<char>, case_sensitive: bool) -> Seq<char> {
    if case_sensitive {
        t
    } else {
        lowercase(t)
    }
}

/// The matches of the search query `q` in the first `k` lines of `text`.
pub open spec fn matches_before(
    text: Seq<char>,
    q: Seq<char>,
    case_sensitive: bool,
    ww: bool,
    k: int,
) -> Seq<FindMatch>
    decreases k,
{
    if k <= 0 {
        Seq::empty()
    } else {
        matches_before(text, q, case_sensitive, ww, k - 1) + line_matches(
            search_text(line_text(text, k - 1), case_sensitive),
            q,
            ww,
            (k - 1) as usize,
            0,
        )
    }
}

/// The matches that a find with the settings of `fs` reports in `text`:
/// none for an empty query.
pub open spec fn query_matches(text: Seq<char>, fs: FindReplaceState) -> Seq<FindMatch> {
    if fs.find_query@.len() == 0 {
        Seq::empty()
    } else {
        matches_before(
            text,
            search_text(fs.find_query@, fs.case_sensitive),
            fs.case_sensitive,
            fs.whole_word,
            line_count(text) as int,
        )
    }
}

/// The first match from index `i` on that starts at or after `p`; 0 when
/// there is none.
pub open spec fn first_match_from(ms: Seq<FindMatch>, p: Position, i: int) -> int
    decreases ms.len() - i,
{
    if i < 0 || i >= ms.len() {
        0
    } else if pos_le(p, ms[i].start) {
        i
    } else {
        first_match_from(ms, p, i + 1)
    }
}

/// The current match after a find from a cursor at `p`.
pub open spec fn result_index(ms: Seq<FindMatch>, p: Position) -> Option<usize> {
    if ms.len() == 0 {
        None
    } else {
        Some(first_match_from(ms, p, 0) as usize)
    }
}

/// The match after the current one, wrapping around.
pub open spec fn next_index(current: Option<usize>, len: nat) -> usize {
    match current {
        Some(i) => ((i + 1) % (len as int)) as usize,
        None => 0,
    }
}

/// The match before the current one, wrapping around.
pub open spec fn prev_index(current: Option<usize>, len: nat) -> usize {
    match current {
        Some(i) => if i == 0 {
            (len - 1) as usize
        } else {
            (i - 1) as usize
        },
        None => (len - 1) as usize,
    }
}

/// Moving to the next match and back to the previous one, or the other way
/// round, returns to the match one started from; both stay among the
/// matches, wrapping round at either end.
pub proof fn lemma_next_prev_match_inverse(i: usize, len: nat)
    requires
        i < len,
        len <= usize::MAX,
    ensures
        next_index(Some(i), len) < len,
        prev_index(Some(i), len) < len,
        prev_index(Some(next_index(Some(i), len)), len) == i,
        next_index(Some(prev_index(Some(i), len)), len) == i,
        i + 1 < len ==> next_index(Some(i), len) == i + 1,
        i + 1 == len ==> next_index(Some(i), len) == 0,
        i > 0 ==> prev_index(Some(i), len) == i - 1,
        i == 0 ==> prev_index(Some(i), len) == len - 1,
{
    if i + 1 < len {
        assert((i + 1) % (len as int) == i + 1) by (nonlinear_arith)
            requires
                0 <= i + 1 < len,
        ;
    } else {
        assert((i + 1) % (len as int) == 0) by (nonlinear_arith)
            requires
                i + 1 == len,
        ;
    }
    if i == 0 {
        assert(((len - 1) + 1) % (len as int) == 0) by (nonlinear_arith)
            requires
                len > 0,
        ;
    } else {
        assert(((i - 1) + 1) % (len as int) == i) by (nonlinear_arith)
            requires
                0 < i < len,
        ;
    }
}

/// `c` moved to `p`, its remembered column and selection kept.
pub open spec fn cursor_at(c: Cursor, p: Position) -> Cursor {
    Cursor { position: p, desired_column: c.desired_column, selection_start: c.selection_start }
}

/// Whether the bytes `start` and `end` of the match `m` both fall on char
/// boundaries of its line in `s`, so that the line can be cut there.
pub open spec fn replace_ok(s: Seq<char>, m: FindMatch) -> bool {
    let line = line_text(s, m.start.line as int);
    char_at_byte(line, m.start.column as int) is Some && char_at_byte(line, m.end.column as int) is Some
}

/// `s` with the match `m` of its line replaced by `rq`.
pub open spec fn replace_one(s: Seq<char>, m: FindMatch, rq: Seq<char>) -> Seq<char> {
    let line = line_text(s, m.start.line as int);
    let a = char_at_byte(line, m.start.column as int)->0;
    let b = char_at_byte(line, m.end.column as int)->0;
    let new_line = line.take(a) + rq + line.skip(b);
    if (m.start.line as int) < line_count(s) {
        replace_line_spec(s, m.start.line as int, new_line)
    } else {
        s
    }
}

/// Whether the matches `ms` can be replaced one after the other, the last
/// one first.
pub open spec fn replace_all_ok(s: Seq<char>, ms: Seq<FindMatch>, rq: Seq<char>) -> bool
    decreases ms.len(),
{
    if ms.len() == 0 {
        true
    } else {
        replace_ok(s, ms.last()) && replace_all_ok(replace_one(s, ms.last(), rq), ms.drop_last(), rq)
    }
}

/// `s` with the matches `ms` replaced by `rq`, the last one first.
pub open spec fn replace_all_text(s: Seq<char>, ms: Seq<FindMatch>, rq: Seq<char>) -> Seq<char>
    decreases ms.len(),
{
    if ms.len() == 0 {
        s
    } else {
        replace_all_text(replace_one(s, ms.last(), rq), ms.drop_last(), rq)
    }
}

/// Two find states with the same query, settings and fields; matches and
/// current match aside.
pub open spec fn same_settings(a: FindReplaceState, b: FindReplaceState) -> bool {
    &&& a.active == b.active
    &&& a.find_query == b.find_query
    &&& a.replace_query == b.replace_query
    &&& a.case_sensitive == b.case_sensitive
    &&& a.whole_word == b.whole_word
    &&& a.is_replace_mode == b.is_replace_mode
    &&& a.find_cursor_position == b.find_cursor_position
    &&& a.replace_cursor_position == b.replace_cursor_position
    &&& a.focused_field == b.focused_field
}

/// Whether `replace_current` acts on `t`: an editor tab in replace mode
/// whose current match is one of its matches.
pub open spec fn replaces_current(t: Tab) -> bool {
    let f = t.find_state();
    &&& t.is_editor()
    &&& f.is_replace_mode
    &&& f.current_match_index matches Some(i) && i < f.matches@.len()
}

/// The current match of an editor tab.
pub open spec fn current_match(t: Tab) -> FindMatch {
    t.find_state().matches@[t.find_state().current_match_index->0 as int]
}

/// Whether `replace_all` acts on `t`: an editor tab in replace mode with
/// matches.
pub open spec fn replaces_all(t: Tab) -> bool {
    t.is_editor() && t.find_state().is_replace_mode && t.find_state().matches@.len() > 0
}

proof fn lemma_encode_nonempty(q: Seq<char>)
    requires
        q.len() > 0,
    ensures
        encode_utf8(q).len() > 0,
{
    assert(encode_utf8(q) == vstd::utf8::encode_scalar(q[0] as u32) + encode_utf8(q.drop_first()));
}

proof fn lemma_first_match_bounds(ms: Seq<FindMatch>, p: Position, i: int)
    requires
        0 <= i,
    ensures
        0 <= first_match_from(ms, p, i),
        ms.len() > 0 ==> first_match_from(ms, p, i) < ms.len(),
    decreases ms.len() - i,
{
    if i < ms.len() && !pos_le(p, ms[i].start) {
        lemma_first_match_bounds(ms, p, i + 1);
    }
}

/// What a find leaves in an editor tab `t` once its matches `ms` are in.
proof fn lemma_find_outcome(t: Tab, ms: Vec<FindMatch>)
    requires
        t.is_editor(),
        ms@ == query_matches(t.text(), t.find_state()),
    ensures
        ({
            let after = t.with_results(ms, result_index(ms@, t.cursor_spec().position)).jumped();
            &&& Tab::found(after, t.text(), t.find_state(), t.cursor_spec(), t.viewport_spec())
            &&& Tab::keeps_identity(t, after)
            &&& after.buffer_spec() == t.buffer_spec()
            &&& after.is_modified() == t.is_modified()
            &&& after.undo_vec() == t.undo_vec()
            &&& after.redo_vec() == t.redo_vec()
        }),
{
    lemma_first_match_bounds(ms@, t.cursor_spec().position, 0);
    assert(ms@.len() == ms.len());
    let r = t.with_results(ms, result_index(ms@, t.cursor_spec().position));
    let after = r.jumped();
    assert(r.find_state().matches == ms);
    assert(r.cursor_spec() == t.cursor_spec());
    assert(Tab::keeps_identity(t, r));
    if ms@.len() > 0 {
        let i = first_match_from(ms@, t.cursor_spec().position, 0);
        assert(r.find_state().current_match_index == Some(i as usize));
        assert((i as usize) as int == i);
        assert(after.cursor_spec() == cursor_at(t.cursor_spec(), ms@[i].start));
    }
    assert(same_settings(after.find_state(), t.find_state()));
    assert(Tab::keeps_identity(t, after));
}

impl Tab {
    /// An editor tab with its find state, cursor and viewport replaced.
    pub open spec fn with_find_cursor_viewport(
        self,
        f: FindReplaceState,
        c: Cursor,
        vp: (usize, usize),
    ) -> Tab {
        match self {
            Tab::Editor {
                name,
                path,
                buffer,
                modified,
                preview_mode,
                word_wrap,
                undo_stack,
                redo_stack,
                max_undo_history,
                ..
            } => Tab::Editor {
                name,
                path,
                buffer,
                cursor: c,
                viewport_offset: vp,
                modified,
                preview_mode,
                word_wrap,
                find_replace_state: f,
                undo_stack,
                redo_stack,
                max_undo_history,
            },
            _ => self,
        }
    }

    /// An editor tab with the matches and current match of its find state
    /// replaced.
    pub open spec fn with_results(self, ms: Vec<FindMatch>, idx: Option<usize>) -> Tab {
        let f = self.find_state();
        self.with_find_cursor_viewport(
            FindReplaceState { matches: ms, current_match_index: idx, ..f },
            self.cursor_spec(),
            self.viewport_spec(),
        )
    }

    /// The tab after moving the cursor of an editor tab to the start of the
    /// current match, if there is one, and scrolling it into a view of 40
    /// lines.
    pub open spec fn jumped(self) -> Tab {
        let f = self.find_state();
        match f.current_match_index {
            Some(i) if self.is_editor() && i < f.matches@.len() => {
                let p = f.matches@[i as int].start;
                self.with_find_cursor_viewport(
                    f,
                    cursor_at(self.cursor_spec(), p),
                    viewport_for(p, self.viewport_spec(), 40),
                )
            },
            _ => self,
        }
    }

    /// Whether `b` is `a` after `start_find`: the find bar of an editor tab
    /// open in replace mode, with empty fields and no matches, the find
    /// field focused.
    pub open spec fn started_find(a: Tab, b: Tab) -> bool {
        if a.is_editor() {
            let f = b.find_state();
            &&& b == a.with_find_cursor_viewport(f, a.cursor_spec(), a.viewport_spec())
            &&& f.active
            &&& f.is_replace_mode
            &&& f.find_query@ == Seq::<char>::empty()
            &&& f.replace_query@ == Seq::<char>::empty()
            &&& f.matches@ == Seq::<FindMatch>::empty()
            &&& f.current_match_index is None
            &&& f.find_cursor_position == 0
            &&& f.replace_cursor_position == 0
            &&& f.focused_field == FindFocusedField::Find
            &&& f.case_sensitive == a.find_state().case_sensitive
            &&& f.whole_word == a.find_state().whole_word
        } else {
            b == a
        }
    }

    /// Whether `b` is `a` after `stop_find_replace`: the find bar of an
    /// editor tab closed and its matches forgotten.
    pub open spec fn stopped_find(a: Tab, b: Tab) -> bool {
        if a.is_editor() {
            let f = b.find_state();
            let g = a.find_state();
            &&& b == a.with_find_cursor_viewport(f, a.cursor_spec(), a.viewport_spec())
            &&& !f.active
            &&& f.matches@ == Seq::<FindMatch>::empty()
            &&& f.current_match_index is None
            &&& f.find_query == g.find_query
            &&& f.replace_query == g.replace_query
            &&& f.case_sensitive == g.case_sensitive
            &&& f.whole_word == g.whole_word
            &&& f.is_replace_mode == g.is_replace_mode
            &&& f.find_cursor_position == g.find_cursor_position
            &&& f.replace_cursor_position == g.replace_cursor_position
            &&& f.focused_field == g.focused_field
        } else {
            b == a
        }
    }

    /// Whether `b` is `a` after `perform_find`: the matches of the query in
    /// the text kept, the first one at or after the cursor made current and
    /// jumped to.
    pub open spec fn performed_find(a: Tab, b: Tab) -> bool {
        if a.is_editor() {
            let ms = query_matches(a.text(), a.find_state());
            &&& b.find_state().matches@ == ms
            &&& b == a.with_results(b.find_state().matches, result_index(ms, a.cursor_spec().position)).jumped()
        } else {
            b == a
        }
    }

    /// Whether `b` is `a` after `find_next`.
    pub open spec fn went_next(a: Tab, b: Tab) -> bool {
        if a.is_editor() && a.find_state().matches@.len() > 0 {
            b == a.with_results(
                a.find_state().matches,
                Some(next_index(a.find_state().current_match_index, a.find_state().matches@.len())),
            ).jumped()
        } else {
            b == a
        }
    }

    /// Whether `b` is `a` after `find_prev`.
    pub open spec fn went_prev(a: Tab, b: Tab) -> bool {
        if a.is_editor() && a.find_state().matches@.len() > 0 {
            b == a.with_results(
                a.find_state().matches,
                Some(prev_index(a.find_state().current_match_index, a.find_state().matches@.len())),
            ).jumped()
        } else {
            b == a
        }
    }

    /// Whether `b` is `a` after `replace_current`: the current match
    /// replaced (the state saved for undo first), the tab modified, and the
    /// query found again.
    pub open spec fn replaced_current(a: Tab, b: Tab) -> bool {
        if replaces_current(a) {
            let t = replace_one(a.text(), current_match(a), a.find_state().replace_query@);
            &&& Tab::keeps_identity(a, b)
            &&& b.text() == t
            &&& b.undo_snapshots() == pushed_with_limit(a.undo_snapshots(), a.snapshot(), a.max_undo())
            &&& b.redo_snapshots() == Seq::<Snapshot>::empty()
            &&& b.is_modified()
            &&& Tab::found(b, t, a.find_state(), a.cursor_spec(), a.viewport_spec())
        } else {
            b == a
        }
    }

    /// Whether `b` is `a` after `replace_all`: all matches replaced, the
    /// last one first (the state saved for undo first), the tab modified,
    /// the matches forgotten.
    pub open spec fn replaced_all(a: Tab, b: Tab) -> bool {
        if replaces_all(a) {
            let f = b.find_state();
            &&& Tab::keeps_identity(a, b)
            &&& b.text() == replace_all_text(a.text(), a.find_state().matches@, a.find_state().replace_query@)
            &&& b.undo_snapshots() == pushed_with_limit(a.undo_snapshots(), a.snapshot(), a.max_undo())
            &&& b.redo_snapshots() == Seq::<Snapshot>::empty()
            &&& b.is_modified()
            &&& b.cursor_spec() == a.cursor_spec()
            &&& b.viewport_spec() == a.viewport_spec()
            &&& same_settings(f, a.find_state())
            &&& f.matches@ == Seq::<FindMatch>::empty()
            &&& f.current_match_index is None
        } else {
            b == a
        }
    }

    /// Whether `after` holds the outcome of a find in `text`, from the find
    /// state `fs`, a cursor `c` and a viewport `vp`.
    pub open spec fn found(
        after: Tab,
        text: Seq<char>,
        fs: FindReplaceState,
        c: Cursor,
        vp: (usize, usize),
    ) -> bool {
        let ms = query_matches(text, fs);
        let f = after.find_state();
        &&& f.matches@ == ms
        &&& same_settings(f, fs)
        &&& f.current_match_index == result_index(ms, c.position)
        &&& if ms.len() > 0 {
            let p = ms[first_match_from(ms, c.position, 0)].start;
            &&& after.cursor_spec() == cursor_at(c, p)
            &&& after.viewport_spec() == viewport_for(p, vp, 40)
        } else {
            &&& after.cursor_spec() == c
            &&& after.viewport_spec() == vp
        }
    }

    /// Opens the find bar of an editor tab in replace mode, with empty
    /// fields and no matches, the find field focused.
    pub fn start_find(&mut self)
        ensures
            Tab::started_find(*old(self), *final(self)),
    {
        match self {
            Tab::Editor { find_replace_state, .. } => {
                find_replace_state.active = true;
                find_replace_state.is_replace_mode = true;
                find_replace_state.find_query = String::new();
                find_replace_state.replace_query = String::new();
                find_replace_state.matches.clear();
                find_replace_state.current_match_index = None;
                find_replace_state.find_cursor_position = 0;
                find_replace_state.replace_cursor_position = 0;
                find_replace_state.focused_field = FindFocusedField::Find;
            },
            Tab::Terminal { .. } => {},
        }
    }

    /// Same as `start_find`.
    pub fn start_find_replace(&mut self)
        ensures
            Tab::started_find(*old(self), *final(self)),
    {
        self.start_find();
    }

    /// Closes the find bar of an editor tab and forgets its matches.
    pub fn stop_find_replace(&mut self)
        ensures
            Tab::stopped_find(*old(self), *final(self)),
    {
        match self {
            Tab::Editor { find_replace_state, .. } => {
                find_replace_state.active = false;
                find_replace_state.matches.clear();
                find_replace_state.current_match_index = None;
            },
            Tab::Terminal { .. } => {},
        }
    }

    /// Moves the cursor of an editor tab to the start of the current match
    /// and scrolls it into a view of 40 lines; nothing when there is no
    /// current match.
    fn jump_to_current_match(&mut self)
        ensures
            *final(self) == old(self).jumped(),
    {
        let moved = match self {
            Tab::Editor { find_replace_state, cursor, .. } => {
                match find_replace_state.current_match_index {
                    Some(idx) => {
                        if idx < find_replace_state.matches.len() {
                            let m = find_replace_state.matches[idx];
                            cursor.position.line = m.start.line;
                            cursor.position.column = m.start.column;
                            true
                        } else {
                            false
                        }
                    },
                    None => false,
                }
            },
            Tab::Terminal { .. } => false,
        };
        if moved {
            self.ensure_cursor_visible(40);
        }
    }

    /// Searches the text of an editor tab for the find query (lowercasing
    /// both sides unless the search is case sensitive), keeps the matches,
    /// makes the first match at or after the cursor current (the first
    /// match when there is none) and jumps to it.
    pub fn perform_find(&mut self)
        ensures
            Tab::performed_find(*old(self), *final(self)),
            old(self).is_editor() ==> {
                &&& Tab::found(
                    *final(self),
                    old(self).text(),
                    old(self).find_state(),
                    old(self).cursor_spec(),
                    old(self).viewport_spec(),
                )
                &&& Tab::keeps_identity(*old(self), *final(self))
                &&& final(self).buffer_spec() == old(self).buffer_spec()
                &&& final(self).is_modified() == old(self).is_modified()
                &&& final(self).undo_vec() == old(self).undo_vec()
                &&& final(self).redo_vec() == old(self).redo_vec()
            },
    {
        let ghost before = *self;
        let found_any = match self {
            Tab::Editor { find_replace_state, buffer, cursor, .. } => {
                if find_replace_state.find_query.as_str().is_empty() {
                    find_replace_state.matches = Vec::new();
                    find_replace_state.current_match_index = None;
                    assert(find_replace_state.matches@ =~= Seq::<FindMatch>::empty());
                    false
                } else {
                    let cs = find_replace_state.case_sensitive;
                    let query = if cs {
                        find_replace_state.find_query.clone()
                    } else {
                        to_lowercase(find_replace_state.find_query.as_str())
                    };
                    let ms = collect_matches(buffer, query.as_str(), cs, find_replace_state.whole_word);
                    if ms.len() > 0 {
                        let idx = first_match_index(&ms, cursor.position);
                        find_replace_state.matches = ms;
                        find_replace_state.current_match_index = Some(idx);
                        true
                    } else {
                        find_replace_state.matches = ms;
                        find_replace_state.current_match_index = None;
                        false
                    }
                }
            },
            Tab::Terminal { .. } => false,
        };
        if found_any {
            self.jump_to_current_match();
        }
        proof {
            if before.is_editor() {
                lemma_find_outcome(before, self.find_state().matches);
            }
        }
    }

    /// Makes the next match current, wrapping around, and jumps to it;
    /// nothing without matches.
    pub fn find_next(&mut self)
        requires
            old(self).find_state().current_match_index matches Some(i) ==> i < usize::MAX,
        ensures
            Tab::went_next(*old(self), *final(self)),
    {
        let moved = match self {
            Tab::Editor { find_replace_state, .. } => {
                if find_replace_state.matches.len() == 0 {
                    false
                } else {
                    let next = match find_replace_state.current_match_index {
                        Some(idx) => (idx + 1) % find_replace_state.matches.len(),
                        None => 0,
                    };
                    find_replace_state.current_match_index = Some(next);
                    true
                }
            },
            Tab::Terminal { .. } => false,
        };
        if moved {
            self.jump_to_current_match();
        }
    }

    /// Makes the previous match current, wrapping around, and jumps to it;
    /// nothing without matches.
    pub fn find_prev(&mut self)
        ensures
            Tab::went_prev(*old(self), *final(self)),
    {
        let moved = match self {
            Tab::Editor { find_replace_state, .. } => {
                let len = find_replace_state.matches.len();
                if len == 0 {
                    false
                } else {
                    let prev = match find_replace_state.current_match_index {
                        Some(idx) => if idx == 0 {
                            len - 1
                        } else {
                            idx - 1
                        },
                        None => len - 1,
                    };
                    find_replace_state.current_match_index = Some(prev);
                    true
                }
            },
            Tab::Terminal { .. } => false,
        };
        if moved {
            self.jump_to_current_match();
        }
    }

    /// Replaces the current match of an editor tab in replace mode by the
    /// replace query: saves the state for undo, replaces, marks the tab
    /// modified and finds again. Nothing otherwise.
    pub fn replace_current(&mut self)
        requires
            replaces_current(*old(self)) ==> replace_ok(old(self).text(), current_match(*old(self))),
        ensures
            Tab::replaced_current(*old(self), *final(self)),
    {
        let ghost t0 = *self;
        let info = match self {
            Tab::Editor { find_replace_state, .. } => {
                if !find_replace_state.is_replace_mode {
                    None
                } else {
                    match find_replace_state.current_match_index {
                        Some(idx) => {
                            if idx < find_replace_state.matches.len() {
                                Some(
                                    (
                                        find_replace_state.matches[idx],
                                        find_replace_state.replace_query.clone(),
                                    ),
                                )
                            } else {
                                None
                            }
                        },
                        None => None,
                    }
                }
            },
            Tab::Terminal { .. } => None,
        };
        match info {
            Some((m, replace_query)) => {
                self.save_state();
                let ghost t1 = *self;
                match self {
                    Tab::Editor { buffer, .. } => {
                        replace_match_in_buffer(buffer, m, replace_query.as_str());
                    },
                    Tab::Terminal { .. } => {},
                }
                self.mark_modified();
                let ghost t2 = *self;
                assert(t2.find_state() == t0.find_state());
                self.perform_find();
            },
            None => {},
        }
    }

    /// Replaces all matches of an editor tab in replace mode by the replace
    /// query, the last one first: saves the state for undo, replaces, marks
    /// the tab modified and forgets the matches. Nothing otherwise.
    pub fn replace_all(&mut self)
        requires
            replaces_all(*old(self)) ==> replace_all_ok(
                old(self).text(),
                old(self).find_state().matches@,
                old(self).find_state().replace_query@,
            ),
        ensures
            Tab::replaced_all(*old(self), *final(self)),
    {
        let applies = match self {
            Tab::Editor { find_replace_state, .. } => find_replace_state.is_replace_mode
                && find_replace_state.matches.len() > 0,
            Tab::Terminal { .. } => false,
        };
        if !applies {
            return;
        }
        self.save_state();
        match self {
            Tab::Editor { buffer, find_replace_state, .. } => {
                let ghost ms = find_replace_state.matches@;
                let ghost rq = find_replace_state.replace_query@;
                let ghost s0 = buffer@;
                let mut i = find_replace_state.matches.len();
                assert(ms.take(i as int) =~= ms);
                while i > 0
                    invariant
                        i <= ms.len(),
                        ms == find_replace_state.matches@,
                        rq == find_replace_state.replace_query@,
                        replace_all_text(s0, ms, rq) == replace_all_text(
                            buffer@,
                            ms.take(i as int),
                            rq,
                        ),
                        replace_all_ok(buffer@, ms.take(i as int), rq),
                    decreases i,
                {
                    let m = find_replace_state.matches[i - 1];
                    assert(ms.take(i as int).drop_last() =~= ms.take(i - 1));
                    replace_match_in_buffer(buffer, m, find_replace_state.replace_query.as_str());
                    i = i - 1;
                }
            },
            Tab::Terminal { .. } => {},
        }
        self.mark_modified();
        match self {
            Tab::Editor { find_replace_state, .. } => {
                find_replace_state.matches = Vec::new();
                find_replace_state.current_match_index = None;
                assert(find_replace_state.matches@ =~= Seq::<FindMatch>::empty());
            },
            Tab::Terminal { .. } => {},
        }
    }
}

/// Replaces the match `m` of its line of `buffer` by `rq`.
fn replace_match_in_buffer(buffer: &mut RopeBuffer, m: FindMatch, rq: &str)
    requires
        replace_ok(old(buffer)@, m),
    ensures
        final(buffer)@ == replace_one(old(buffer)@, m, rq@),
{
    let line_text = buffer.get_line_text(m.start.line);
    let chars = str_to_chars(line_text.as_str());
    let a = byte_to_char(&chars, m.start.column);
    let b = byte_to_char(&chars, m.end.column);
    match (a, b) {
        (Some(a), Some(b)) => {
            let mut new_line = subrange_vec(&chars, 0, a);
            let mut middle = str_to_chars(rq);
            let mut tail = subrange_vec(&chars, b, chars.len());
            new_line.append(&mut middle);
            new_line.append(&mut tail);
            assert(chars@.subrange(0, a as int) =~= chars@.take(a as int));
            assert(chars@.subrange(b as int, chars@.len() as int) =~= chars@.skip(b as int));
            let new_text = chars_to_string(&new_line);
            buffer.replace_line(m.start.line, new_text.as_str());
        },
        _ => {},
    }
}

/// Whether `n` occurs in `h` at byte `p`.
fn bytes_at(h: &[u8], n: &[u8], p: usize) -> (r: bool)
    requires
        p + n@.len() <= h@.len(),
    ensures
        r == occurs_at(h@, n@, p as int),
{
    let hl = h.len();
    let mut i: usize = 0;
    while i < n.len()
        invariant
            hl == h@.len(),
            p + n@.len() <= h@.len(),
            i <= n@.len(),
            forall|j: int| 0 <= j < i ==> h@[p + j] == n@[j],
        decreases n.len() - i,
    {
        if h[p + i] != n[i] {
            assert(h@.subrange(p as int, p + n@.len())[i as int] != n@[i as int]);
            return false;
        }
        i = i + 1;
    }
    assert(h@.subrange(p as int, p + n@.len()) =~= n@);
    true
}

/// Whether char index `i` of `chars` holds a word char.
fn word_at_exec(chars: &Vec<char>, i: usize) -> (r: bool)
    ensures
        r == word_at(chars@, i as int),
{
    i < chars.len() && is_word_char(chars[i])
}

/// Appends the matches of `query` in the line `search` (number `line`).
fn find_in_line(search: &str, query: &str, ww: bool, line: usize, out: &mut Vec<FindMatch>)
    requires
        query@.len() > 0,
    ensures
        final(out)@ == old(out)@ + line_matches(search@, query@, ww, line, 0),
{
    let h = search.as_bytes();
    let n = query.as_bytes();
    let chars = str_to_chars(search);
    let ghost s = search@;
    let ghost q = query@;
    let ghost out0 = out@;
    proof {
        lemma_encode_nonempty(q);
    }
    let mut p: usize = 0;
    while n.len() <= h.len() - p
        invariant
            h@ == encode_utf8(s),
            n@ == encode_utf8(q),
            n@.len() > 0,
            chars@ == s,
            p <= h@.len(),
            out0 + line_matches(s, q, ww, line, 0) == out@ + line_matches(s, q, ww, line, p as int),
        decreases h.len() - p,
    {
        if bytes_at(h, n, p) {
            let e = p + n.len();
            let keep = if ww {
                (p == 0 || !word_at_exec(&chars, p - 1)) && (e >= h.len() || !word_at_exec(&chars, e))
            } else {
                true
            };
            let m = FindMatch { start: Position::new(line, p), end: Position::new(line, e) };
            let ghost before = out@;
            if keep {
                out.push(m);
                assert(out@ + line_matches(s, q, ww, line, e as int) =~= before + (seq![m]
                    + line_matches(s, q, ww, line, e as int)));
            }
            p = e;
        } else {
            p = p + 1;
        }
    }
    assert(out@ + line_matches(s, q, ww, line, p as int) =~= out@);
}

/// The matches of the search query `query` in all lines of `buffer`, each
/// line lowercased unless the search is case sensitive.
fn collect_matches(buffer: &RopeBuffer, query: &str, cs: bool, ww: bool) -> (r: Vec<FindMatch>)
    requires
        query@.len() > 0,
    ensures
        r@ == matches_before(buffer@, query@, cs, ww, line_count(buffer@) as int),
{
    let mut out: Vec<FindMatch> = Vec::new();
    let n = buffer.len_lines();
    let mut line_idx: usize = 0;
    while line_idx < n
        invariant
            n == line_count(buffer@),
            query@.len() > 0,
            line_idx <= n,
            out@ == matches_before(buffer@, query@, cs, ww, line_idx as int),
        decreases n - line_idx,
    {
        let line_text = buffer.get_line_text(line_idx);
        let search = if cs {
            line_text
        } else {
            to_lowercase(line_text.as_str())
        };
        find_in_line(search.as_str(), query, ww, line_idx, &mut out);
        line_idx = line_idx + 1;
    }
    out
}

/// The index of the first match that starts at or after `p`; 0 when there
/// is none.
fn first_match_index(ms: &Vec<FindMatch>, p: Position) -> (i: usize)
    ensures
        i == first_match_from(ms@, p, 0),
{
    let mut i: usize = 0;
    while i < ms.len()
        invariant
            i <= ms@.len(),
            first_match_from(ms@, p, 0) == first_match_from(ms@, p, i as int),
        decreases ms.len() - i,
    {
        let m = ms[i];
        if m.start.line > p.line || (m.start.line == p.line && m.start.column >= p.column) {
            return i;
        }
        i = i + 1;
    }
    0
}

} // verus!
