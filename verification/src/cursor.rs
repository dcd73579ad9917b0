//! The cursor of an editor: a position, a remembered column for vertical
//! moves and an optional selection anchor.
use vstd::prelude::*;
use crate::rope_buffer::RopeBuffer;
use crate::text::{line_count, line_start, line_text, line_byte_len};
use crate::chars::{is_word_char, is_word_char_spec, str_to_chars};

verus! {

/// A line and a column in a text.
#[derive(Debug, Clone, Copy, PartialEq, Eq, Structural)]
pub struct Position {
    pub line: usize,
    pub column: usize,
}

impl Position {
    pub fn new(line: usize, column: usize) -> (p: Self)
        ensures
            p.line == line,
            p.column == column,
    {
        Position { line, column }
    }
}

/// Whether `a` comes no later than `b`.
pub open spec fn pos_le(a: Position, b: Position) -> bool {
    a.line < b.line || (a.line == b.line && a.column <= b.column)
}

/// An editor cursor.
#[derive(Debug, Clone, Copy)]
pub struct Cursor {
    pub position: Position,
    pub desired_column: Option<usize>,
    pub selection_start: Option<Position>,
}

/// Going back from `p`, skips the chars that are not word chars (stopping at
/// index 0).
pub open spec fn skip_non_word_back(c: Seq<char>, p: int) -> int
    decreases p,
{
    if p > 0 && p < c.len() && !is_word_char_spec(c[p]) {
        skip_non_word_back(c, p - 1)
    } else {
        p
    }
}

/// Going back from `p`, skips the word chars just before it.
pub open spec fn skip_word_back(c: Seq<char>, p: int) -> int
    decreases p,
{
    if p > 0 && p - 1 < c.len() && is_word_char_spec(c[p - 1]) {
        skip_word_back(c, p - 1)
    } else {
        p
    }
}

/// Going forward from `p`, skips word chars.
pub open spec fn skip_word_forward(c: Seq<char>, p: int) -> int
    decreases c.len() - p,
{
    if 0 <= p < c.len() && is_word_char_spec(c[p]) {
        skip_word_forward(c, p + 1)
    } else {
        p
    }
}

/// Going forward from `p`, skips chars that are not word chars.
pub open spec fn skip_non_word_forward(c: Seq<char>, p: int) -> int
    decreases c.len() - p,
{
    if 0 <= p < c.len() && !is_word_char_spec(c[p]) {
        skip_non_word_forward(c, p + 1)
    } else {
        p
    }
}

/// The column a word-left move reaches from column `col` of a line with chars
/// `c` (nonempty, `col > 0`): one step left, then back over non-word chars,
/// then back over word chars.
pub open spec fn word_left_column(c: Seq<char>, col: int) -> int {
    let start = if col < c.len() {
        col
    } else {
        c.len() as int
    };
    skip_word_back(c, skip_non_word_back(c, start - 1))
}

/// The column a word-right move reaches from column `col < c.len()`: over the
/// current word chars, then over the non-word chars.
pub open spec fn word_right_column(c: Seq<char>, col: int) -> int {
    skip_non_word_forward(c, skip_word_forward(c, col))
}

/// The start of the word round `col` of a line with chars `c`.
pub open spec fn word_start_at(c: Seq<char>, col: int) -> int {
    skip_word_back(c, col)
}

/// The end of the word round `col` of a line with chars `c`.
pub open spec fn word_end_at(c: Seq<char>, col: int) -> int {
    skip_word_forward(c, col)
}

/// The char index that position `p` designates in text `s`: the start of its
/// line plus its column, the column clipped to the line's byte length.
pub open spec fn char_index_of(s: Seq<char>, p: Position) -> int {
    line_start(s, p.line as int) + if p.column <= line_byte_len(s, p.line as int) {
        p.column as int
    } else {
        line_byte_len(s, p.line as int) as int
    }
}

/// The position after a left move.
pub open spec fn left_of(s: Seq<char>, p: Position) -> Position {
    if p.column > 0 {
        Position { line: p.line, column: (p.column - 1) as usize }
    } else if p.line > 0 {
        Position { line: (p.line - 1) as usize, column: line_byte_len(s, p.line - 1) }
    } else {
        p
    }
}

/// The position after a right move.
pub open spec fn right_of(s: Seq<char>, p: Position) -> Position {
    if p.column < line_byte_len(s, p.line as int) {
        Position { line: p.line, column: (p.column + 1) as usize }
    } else if p.line + 1 < line_count(s) {
        Position { line: (p.line + 1) as usize, column: 0 }
    } else {
        p
    }
}

/// The cursor after a vertical move to line `target`.
pub open spec fn vertical_move(s: Seq<char>, c: Cursor, target: int) -> Cursor {
    let len = line_byte_len(s, target);
    match c.desired_column {
        Some(d) => Cursor {
            position: Position { line: target as usize, column: if d <= len { d } else { len } },
            ..c
        },
        None => Cursor {
            position: Position {
                line: target as usize,
                column: if c.position.column <= len {
                    c.position.column
                } else {
                    len
                },
            },
            desired_column: Some(c.position.column),
            ..c
        },
    }
}

/// The cursor after an up move.
pub open spec fn up_of(s: Seq<char>, c: Cursor) -> Cursor {
    if c.position.line > 0 {
        vertical_move(s, c, c.position.line - 1)
    } else {
        c
    }
}

/// The cursor after a down move.
pub open spec fn down_of(s: Seq<char>, c: Cursor) -> Cursor {
    if c.position.line + 1 < line_count(s) {
        vertical_move(s, c, c.position.line + 1)
    } else {
        c
    }
}

/// The position after a word-left move.
pub open spec fn word_left_of(s: Seq<char>, p: Position) -> Position {
    let c = line_text(s, p.line as int);
    if p.column > 0 && c.len() > 0 {
        Position { line: p.line, column: word_left_column(c, p.column as int) as usize }
    } else if p.line > 0 {
        Position { line: (p.line - 1) as usize, column: line_byte_len(s, p.line - 1) }
    } else {
        p
    }
}

/// The position after a word-right move.
pub open spec fn word_right_of(s: Seq<char>, p: Position) -> Position {
    let c = line_text(s, p.line as int);
    if p.column < c.len() {
        Position { line: p.line, column: word_right_column(c, p.column as int) as usize }
    } else if p.line + 1 < line_count(s) {
        Position { line: (p.line + 1) as usize, column: 0 }
    } else {
        p
    }
}

/// The selection anchor after preparing a move that extends the selection
/// (`extend`) or drops it.
pub open spec fn anchor_for_move(c: Cursor, extend: bool) -> Option<Position> {
    if extend {
        if c.selection_start is None {
            Some(c.position)
        } else {
            c.selection_start
        }
    } else {
        None
    }
}

/// The ordered selection of a cursor.
pub open spec fn selection_of(c: Cursor) -> Option<(Position, Position)> {
    match c.selection_start {
        Some(start) => if pos_le(start, c.position) {
            Some((start, c.position))
        } else {
            Some((c.position, start))
        },
        None => None,
    }
}

proof fn lemma_skip_non_word_back(c: Seq<char>, p: int)
    requires
        0 <= p,
    ensures
        0 <= skip_non_word_back(c, p) <= p,
    decreases p,
{
    if p > 0 && p < c.len() && !is_word_char_spec(c[p]) {
        lemma_skip_non_word_back(c, p - 1);
    }
}

proof fn lemma_skip_word_back(c: Seq<char>, p: int)
    requires
        0 <= p,
    ensures
        0 <= skip_word_back(c, p) <= p,
    decreases p,
{
    if p > 0 && p - 1 < c.len() && is_word_char_spec(c[p - 1]) {
        lemma_skip_word_back(c, p - 1);
    }
}

/// Skipping word chars forward from `p` stops at the first char from `p` on
/// that is not a word char, or at the end.
proof fn lemma_skip_word_forward(c: Seq<char>, p: int)
    requires
        0 <= p <= c.len(),
    ensures
        p <= skip_word_forward(c, p) <= c.len(),
        forall|k: int| p <= k < skip_word_forward(c, p) ==> is_word_char_spec(#[trigger] c[k]),
        skip_word_forward(c, p) < c.len() ==> !is_word_char_spec(c[skip_word_forward(c, p)]),
    decreases c.len() - p,
{
    if p < c.len() && is_word_char_spec(c[p]) {
        lemma_skip_word_forward(c, p + 1);
    }
}

/// Skipping non-word chars forward from `p` stops at the first word char
/// from `p` on, or at the end.
proof fn lemma_skip_non_word_forward(c: Seq<char>, p: int)
    requires
        0 <= p <= c.len(),
    ensures
        p <= skip_non_word_forward(c, p) <= c.len(),
        forall|k: int| p <= k < skip_non_word_forward(c, p) ==> !is_word_char_spec(#[trigger] c[k]),
        skip_non_word_forward(c, p) < c.len() ==> is_word_char_spec(c[skip_non_word_forward(c, p)]),
    decreases c.len() - p,
{
    if p < c.len() && !is_word_char_spec(c[p]) {
        lemma_skip_non_word_forward(c, p + 1);
    }
}

/// A word-right move from inside a line (Ctrl+Right) stays on the line and
/// moves right: past the rest of the word the cursor is on, then past every
/// non-word char (spaces, punctuation) after it, so that it lands at the
/// start of the next word or at the end of the line.
pub proof fn lemma_word_right_lands_on_next_word(s: Seq<char>, p: Position)
    requires
        p.column < line_text(s, p.line as int).len(),
        line_text(s, p.line as int).len() <= usize::MAX,
    ensures
        ({
            let c = line_text(s, p.line as int);
            let q = word_right_of(s, p);
            &&& q.line == p.line
            &&& p.column < q.column <= c.len()
            &&& q.column < c.len() ==> is_word_char_spec(c[q.column as int])
            &&& exists|e: int|
                #![trigger c[e]]
                p.column <= e <= q.column && (e < c.len() ==> !is_word_char_spec(c[e])) && (forall|
                    k: int,
                | p.column <= k < e ==> is_word_char_spec(#[trigger] c[k])) && (forall|k: int|
                    e <= k < q.column ==> !is_word_char_spec(#[trigger] c[k]))
        }),
{
    let c = line_text(s, p.line as int);
    let col = p.column as int;
    lemma_skip_word_forward(c, col);
    let e = skip_word_forward(c, col);
    lemma_skip_non_word_forward(c, e);
    let r = skip_non_word_forward(c, e);
    assert(r > col) by {
        if e == col {
            assert(!is_word_char_spec(c[col]));
            assert(r != col);
        }
    }
    if e < c.len() {
        assert(!is_word_char_spec(c[e]));
    }
    assert(word_right_of(s, p).column == r);
}

/// Going back from `p` over non-word chars stops at index 0 or on a word
/// char, every char after it up to `p` being a non-word char.
proof fn lemma_skip_non_word_back_stops(c: Seq<char>, p: int)
    requires
        0 <= p < c.len(),
    ensures
        0 <= skip_non_word_back(c, p) <= p,
        skip_non_word_back(c, p) == 0 || is_word_char_spec(c[skip_non_word_back(c, p)]),
        forall|k: int| skip_non_word_back(c, p) < k <= p ==> !is_word_char_spec(#[trigger] c[k]),
    decreases p,
{
    if p > 0 && !is_word_char_spec(c[p]) {
        lemma_skip_non_word_back_stops(c, p - 1);
    }
}

/// Going back from `p` over word chars stops at index 0 or right after a
/// non-word char, every char from there up to `p` being a word char.
proof fn lemma_skip_word_back_stops(c: Seq<char>, p: int)
    requires
        0 <= p <= c.len(),
    ensures
        0 <= skip_word_back(c, p) <= p,
        skip_word_back(c, p) == 0 || !is_word_char_spec(c[skip_word_back(c, p) - 1]),
        forall|k: int| skip_word_back(c, p) <= k < p ==> is_word_char_spec(#[trigger] c[k]),
    decreases p,
{
    if p > 0 && is_word_char_spec(c[p - 1]) {
        lemma_skip_word_back_stops(c, p - 1);
    }
}

/// A word-left move from inside a line (Ctrl+Left) stays on the line and
/// moves left: from the char before the cursor back over non-word chars,
/// then back to the start of the word reached, which is right after a
/// non-word char or at the start of the line.
pub proof fn lemma_word_left_lands_on_word_start(s: Seq<char>, p: Position)
    requires
        p.column > 0,
        line_text(s, p.line as int).len() > 0,
        line_text(s, p.line as int).len() <= usize::MAX,
    ensures
        ({
            let c = line_text(s, p.line as int);
            let start: int = if p.column < c.len() {
                p.column as int
            } else {
                c.len() as int
            };
            let q = word_left_of(s, p);
            &&& q.line == p.line
            &&& q.column < start
            &&& q.column == 0 || !is_word_char_spec(c[q.column - 1])
            &&& exists|m: int|
                #![trigger c[m]]
                q.column <= m < start && (m == 0 || is_word_char_spec(c[m])) && (forall|k: int|
                    m < k < start ==> !is_word_char_spec(#[trigger] c[k])) && (forall|k: int|
                    q.column <= k < m ==> is_word_char_spec(#[trigger] c[k]))
        }),
{
    let c = line_text(s, p.line as int);
    let start: int = if p.column < c.len() {
        p.column as int
    } else {
        c.len() as int
    };
    lemma_skip_non_word_back_stops(c, start - 1);
    let m = skip_non_word_back(c, start - 1);
    lemma_skip_word_back_stops(c, m);
    let r = skip_word_back(c, m);
    assert(word_left_of(s, p).column == r);
    assert(m == 0 || is_word_char_spec(c[m]));
    let q = word_left_of(s, p);
    assert(q.column == r);
    assert(q.column <= m < start && (m == 0 || is_word_char_spec(c[m])) && (forall|k: int|
        m < k < start ==> !is_word_char_spec(#[trigger] c[k])) && (forall|k: int|
        q.column <= k < m ==> is_word_char_spec(#[trigger] c[k])));
    assert(exists|m2: int|
        #![trigger c[m2]]
        q.column <= m2 < start && (m2 == 0 || is_word_char_spec(c[m2])) && (forall|k: int|
            m2 < k < start ==> !is_word_char_spec(#[trigger] c[k])) && (forall|k: int|
            q.column <= k < m2 ==> is_word_char_spec(#[trigger] c[k])));
}

/// Selecting the word under the cursor (double-click) on a word char selects
/// the whole run of word chars round it: it starts after a non-word char or
/// at the start of the line and ends before a non-word char or at the end
/// of the line; elsewhere the cursor is left as it is.
pub proof fn lemma_word_selection_is_whole_word(c: Cursor, s: Seq<char>)
    requires
        line_text(s, c.position.line as int).len() <= usize::MAX,
    ensures
        ({
            let t = line_text(s, c.position.line as int);
            let col: int = if c.position.column >= t.len() {
                t.len() - 1
            } else {
                c.position.column as int
            };
            let w = word_selection(c, s);
            if t.len() > 0 && is_word_char_spec(t[col]) {
                &&& w.selection_start matches Some(a) && a.line == c.position.line && {
                    let b = w.position;
                    &&& b.line == c.position.line
                    &&& a.column <= col < b.column <= t.len()
                    &&& a.column == 0 || !is_word_char_spec(t[a.column - 1])
                    &&& b.column == t.len() || !is_word_char_spec(t[b.column as int])
                    &&& forall|k: int| a.column <= k < b.column ==> is_word_char_spec(#[trigger] t[k])
                }
                &&& w.desired_column == c.desired_column
            } else {
                w == c
            }
        }),
{
    let t = line_text(s, c.position.line as int);
    if t.len() > 0 {
        let col: int = if c.position.column >= t.len() {
            t.len() - 1
        } else {
            c.position.column as int
        };
        if is_word_char_spec(t[col]) {
            lemma_skip_word_back_stops(t, col);
            lemma_skip_word_forward(t, col);
            let a = skip_word_back(t, col);
            let b = skip_word_forward(t, col);
            assert forall|k: int| a <= k < b implies is_word_char_spec(#[trigger] t[k]) by {
                if k >= col {
                } else {
                }
            }
        }
    }
}

/// A left move and a right move undo each other: from a position on a line
/// (its column within the line's length), a left move followed by a right
/// move comes back, unless the position is the start of the text; a right
/// move followed by a left move comes back, unless it is the end.
pub proof fn lemma_left_right_inverse(s: Seq<char>, p: Position)
    requires
        p.line < line_count(s),
        line_count(s) <= usize::MAX,
        p.column <= line_byte_len(s, p.line as int),
    ensures
        p.line > 0 || p.column > 0 ==> right_of(s, left_of(s, p)) == p,
        p.column < line_byte_len(s, p.line as int) || p.line + 1 < line_count(s) ==> left_of(
            s,
            right_of(s, p),
        ) == p,
{
}

/// Skips non-word chars backwards from `p`.
fn skip_non_word_back_exec(c: &Vec<char>, p: usize) -> (r: usize)
    ensures
        r == skip_non_word_back(c@, p as int),
{
    let mut pos = p;
    while pos > 0 && pos < c.len() && !is_word_char(c[pos])
        invariant
            pos <= p,
            skip_non_word_back(c@, pos as int) == skip_non_word_back(c@, p as int),
        decreases pos,
    {
        pos = pos - 1;
    }
    pos
}

/// Skips word chars backwards from `p`.
fn skip_word_back_exec(c: &Vec<char>, p: usize) -> (r: usize)
    ensures
        r == skip_word_back(c@, p as int),
{
    let mut pos = p;
    while pos > 0 && pos - 1 < c.len() && is_word_char(c[pos - 1])
        invariant
            pos <= p,
            skip_word_back(c@, pos as int) == skip_word_back(c@, p as int),
        decreases pos,
    {
        pos = pos - 1;
    }
    pos
}

/// Skips word chars forward from `p`.
fn skip_word_forward_exec(c: &Vec<char>, p: usize) -> (r: usize)
    requires
        p <= c.len(),
    ensures
        r == skip_word_forward(c@, p as int),
        p <= r <= c.len(),
{
    let mut pos = p;
    while pos < c.len() && is_word_char(c[pos])
        invariant
            p <= pos <= c.len(),
            skip_word_forward(c@, pos as int) == skip_word_forward(c@, p as int),
        decreases c.len() - pos,
    {
        pos = pos + 1;
    }
    pos
}

/// Skips non-word chars forward from `p`.
fn skip_non_word_forward_exec(c: &Vec<char>, p: usize) -> (r: usize)
    requires
        p <= c.len(),
    ensures
        r == skip_non_word_forward(c@, p as int),
        p <= r <= c.len(),
{
    let mut pos = p;
    while pos < c.len() && !is_word_char(c[pos])
        invariant
            p <= pos <= c.len(),
            skip_non_word_forward(c@, pos as int) == skip_non_word_forward(c@, p as int),
        decreases c.len() - pos,
    {
        pos = pos + 1;
    }
    pos
}

/// The chars of line `line` of `buffer`, without trailing LFs.
fn line_chars(buffer: &RopeBuffer, line: usize) -> (v: Vec<char>)
    ensures
        v@ == line_text(buffer@, line as int),
{
    let t = buffer.get_line_text(line);
    str_to_chars(t.as_str())
}

impl Cursor {
    /// A cursor at the start of the text, with no selection.
    pub fn new() -> (c: Self)
        ensures
            c.position == (Position { line: 0, column: 0 }),
            c.desired_column is None,
            c.selection_start is None,
    {
        Cursor { position: Position::new(0, 0), desired_column: None, selection_start: None }
    }

    /// Moves one column left, or to the end of the previous line.
    pub fn move_left(&mut self, buffer: &RopeBuffer)
        ensures
            final(self).position == left_of(buffer@, old(self).position),
            final(self).desired_column is None,
            final(self).selection_start == old(self).selection_start,
    {
        if self.position.column > 0 {
            self.position.column = self.position.column - 1;
        } else if self.position.line > 0 {
            self.position.line = self.position.line - 1;
            let line_len = buffer.line_byte_len(self.position.line);
            self.position.column = line_len;
        }
        self.desired_column = None;
    }

    /// Moves one column right, or to the start of the next line.
    pub fn move_right(&mut self, buffer: &RopeBuffer)
        ensures
            final(self).position == right_of(buffer@, old(self).position),
            final(self).desired_column is None,
            final(self).selection_start == old(self).selection_start,
    {
        let line_len = buffer.line_byte_len(self.position.line);
        if self.position.column < line_len {
            self.position.column = self.position.column + 1;
        } else if self.position.line < buffer.len_lines() - 1 {
            self.position.line = self.position.line + 1;
            self.position.column = 0;
        }
        self.desired_column = None;
    }

    /// Moves one line up, keeping the remembered column.
    pub fn move_up(&mut self, buffer: &RopeBuffer)
        ensures
            *final(self) == up_of(buffer@, *old(self)),
    {
        if self.position.line > 0 {
            self.position.line = self.position.line - 1;
            let line_len = buffer.line_byte_len(self.position.line);
            match self.desired_column {
                Some(desired) => {
                    self.position.column = if desired <= line_len {
                        desired
                    } else {
                        line_len
                    };
                },
                None => {
                    self.desired_column = Some(self.position.column);
                    self.position.column = if self.position.column <= line_len {
                        self.position.column
                    } else {
                        line_len
                    };
                },
            }
        }
    }

    /// Moves one line down, keeping the remembered column.
    pub fn move_down(&mut self, buffer: &RopeBuffer)
        ensures
            *final(self) == down_of(buffer@, *old(self)),
    {
        if self.position.line < buffer.len_lines() - 1 {
            self.position.line = self.position.line + 1;
            let line_len = buffer.line_byte_len(self.position.line);
            match self.desired_column {
                Some(desired) => {
                    self.position.column = if desired <= line_len {
                        desired
                    } else {
                        line_len
                    };
                },
                None => {
                    self.desired_column = Some(self.position.column);
                    self.position.column = if self.position.column <= line_len {
                        self.position.column
                    } else {
                        line_len
                    };
                },
            }
        }
    }

    /// Moves to column 0.
    pub fn move_to_line_start(&mut self)
        ensures
            final(self).position == (Position { line: old(self).position.line, column: 0 }),
            final(self).desired_column is None,
            final(self).selection_start == old(self).selection_start,
    {
        self.position.column = 0;
        self.desired_column = None;
    }

    /// Moves to the end of the line.
    pub fn move_to_line_end(&mut self, buffer: &RopeBuffer)
        ensures
            final(self).position == (Position {
                line: old(self).position.line,
                column: line_byte_len(buffer@, old(self).position.line as int),
            }),
            final(self).desired_column is None,
            final(self).selection_start == old(self).selection_start,
    {
        let line_len = buffer.line_byte_len(self.position.line);
        self.position.column = line_len;
        self.desired_column = None;
    }

    /// Moves to the start of the current or previous word, or to the end of
    /// the previous line.
    pub fn move_word_left(&mut self, buffer: &RopeBuffer)
        ensures
            final(self).position == word_left_of(buffer@, old(self).position),
            final(self).desired_column is None,
            final(self).selection_start == old(self).selection_start,
    {
        let chars = line_chars(buffer, self.position.line);
        if self.position.column > 0 && chars.len() > 0 {
            let mut pos = if self.position.column < chars.len() {
                self.position.column
            } else {
                chars.len()
            };
            pos = pos - 1;
            proof {
                lemma_skip_non_word_back(chars@, pos as int);
            }
            let p1 = skip_non_word_back_exec(&chars, pos);
            proof {
                lemma_skip_word_back(chars@, p1 as int);
            }
            let p2 = skip_word_back_exec(&chars, p1);
            self.position.column = p2;
        } else if self.position.line > 0 {
            self.position.line = self.position.line - 1;
            self.move_to_line_end(buffer);
        }
        self.desired_column = None;
    }

    /// Moves past the current word and the non-word chars after it, or to the
    /// start of the next line.
    pub fn move_word_right(&mut self, buffer: &RopeBuffer)
        ensures
            final(self).position == word_right_of(buffer@, old(self).position),
            final(self).desired_column is None,
            final(self).selection_start == old(self).selection_start,
    {
        let chars = line_chars(buffer, self.position.line);
        let line_len = chars.len();
        if self.position.column < line_len {
            let p1 = skip_word_forward_exec(&chars, self.position.column);
            let p2 = skip_non_word_forward_exec(&chars, p1);
            self.position.column = p2;
        } else if self.position.line < buffer.len_lines() - 1 {
            self.position.line = self.position.line + 1;
            self.position.column = 0;
        }
        self.desired_column = None;
    }

    /// The char index of the cursor in `buffer`.
    pub fn to_char_index(&self, buffer: &RopeBuffer) -> (idx: usize)
        requires
            self.position.line <= line_count(buffer@),
            char_index_of(buffer@, self.position) <= usize::MAX,
        ensures
            idx == char_index_of(buffer@, self.position),
    {
        let line_start = buffer.line_to_char(self.position.line);
        let line_len = buffer.line_byte_len(self.position.line);
        let column = if self.position.column <= line_len {
            self.position.column
        } else {
            line_len
        };
        line_start + column
    }

    /// Anchors the selection at the cursor.
    pub fn start_selection(&mut self)
        ensures
            *final(self) == (Cursor { selection_start: Some(old(self).position), ..*old(self) }),
    {
        self.selection_start = Some(self.position);
    }

    /// Drops the selection.
    pub fn clear_selection(&mut self)
        ensures
            *final(self) == (Cursor { selection_start: None, ..*old(self) }),
    {
        self.selection_start = None;
    }

    /// Whether a selection is anchored.
    pub fn has_selection(&self) -> (b: bool)
        ensures
            b == self.selection_start is Some,
    {
        self.selection_start.is_some()
    }

    /// The selection as an ordered pair of positions.
    pub fn get_selection(&self) -> (r: Option<(Position, Position)>)
        ensures
            r == selection_of(*self),
    {
        match self.selection_start {
            Some(start) => {
                let end = self.position;
                if start.line < end.line || (start.line == end.line && start.column
                    <= end.column) {
                    Some((start, end))
                } else {
                    Some((end, start))
                }
            },
            None => None,
        }
    }

    /// Selects the whole text: the anchor at the start, the cursor at the end
    /// of the last line.
    pub fn select_all(&mut self, buffer: &RopeBuffer)
        ensures
            final(self).selection_start == Some(Position { line: 0, column: 0 }),
            final(self).position == (Position {
                line: (line_count(buffer@) - 1) as usize,
                column: line_byte_len(buffer@, line_count(buffer@) - 1),
            }),
            final(self).desired_column == old(self).desired_column,
    {
        self.selection_start = Some(Position::new(0, 0));
        let n = buffer.len_lines();
        if n > 0 {
            let last_line = n - 1;
            let last_line_len = buffer.line_byte_len(last_line);
            self.position = Position::new(last_line, last_line_len);
        }
    }

    /// Keeps or starts the selection (`extend_selection`) or drops it.
    fn prepare_selection(&mut self, extend_selection: bool)
        ensures
            final(self).selection_start == anchor_for_move(*old(self), extend_selection),
            final(self).position == old(self).position,
            final(self).desired_column == old(self).desired_column,
    {
        if extend_selection && self.selection_start.is_none() {
            self.start_selection();
        } else if !extend_selection {
            self.clear_selection();
        }
    }

    pub fn move_left_with_selection(&mut self, buffer: &RopeBuffer, extend_selection: bool)
        ensures
            final(self).position == left_of(buffer@, old(self).position),
            final(self).desired_column is None,
            final(self).selection_start == anchor_for_move(*old(self), extend_selection),
    {
        self.prepare_selection(extend_selection);
        self.move_left(buffer);
    }

    pub fn move_right_with_selection(&mut self, buffer: &RopeBuffer, extend_selection: bool)
        ensures
            final(self).position == right_of(buffer@, old(self).position),
            final(self).desired_column is None,
            final(self).selection_start == anchor_for_move(*old(self), extend_selection),
    {
        self.prepare_selection(extend_selection);
        self.move_right(buffer);
    }

    pub fn move_up_with_selection(&mut self, buffer: &RopeBuffer, extend_selection: bool)
        ensures
            *final(self) == up_of(
                buffer@,
                Cursor {
                    selection_start: anchor_for_move(*old(self), extend_selection),
                    ..*old(self)
                },
            ),
    {
        self.prepare_selection(extend_selection);
        self.move_up(buffer);
    }

    pub fn move_down_with_selection(&mut self, buffer: &RopeBuffer, extend_selection: bool)
        ensures
            *final(self) == down_of(
                buffer@,
                Cursor {
                    selection_start: anchor_for_move(*old(self), extend_selection),
                    ..*old(self)
                },
            ),
    {
        self.prepare_selection(extend_selection);
        self.move_down(buffer);
    }

    pub fn move_word_left_with_selection(&mut self, buffer: &RopeBuffer, extend_selection: bool)
        ensures
            final(self).position == word_left_of(buffer@, old(self).position),
            final(self).desired_column is None,
            final(self).selection_start == anchor_for_move(*old(self), extend_selection),
    {
        self.prepare_selection(extend_selection);
        self.move_word_left(buffer);
    }

    pub fn move_word_right_with_selection(&mut self, buffer: &RopeBuffer, extend_selection: bool)
        ensures
            final(self).position == word_right_of(buffer@, old(self).position),
            final(self).desired_column is None,
            final(self).selection_start == anchor_for_move(*old(self), extend_selection),
    {
        self.prepare_selection(extend_selection);
        self.move_word_right(buffer);
    }

    pub fn move_to_line_start_with_selection(&mut self, extend_selection: bool)
        ensures
            final(self).position == (Position { line: old(self).position.line, column: 0 }),
            final(self).desired_column is None,
            final(self).selection_start == anchor_for_move(*old(self), extend_selection),
    {
        self.prepare_selection(extend_selection);
        self.move_to_line_start();
    }

    pub fn move_to_line_end_with_selection(&mut self, buffer: &RopeBuffer, extend_selection: bool)
        ensures
            final(self).position == (Position {
                line: old(self).position.line,
                column: line_byte_len(buffer@, old(self).position.line as int),
            }),
            final(self).desired_column is None,
            final(self).selection_start == anchor_for_move(*old(self), extend_selection),
    {
        self.prepare_selection(extend_selection);
        self.move_to_line_end(buffer);
    }

    /// Selects the word under the cursor (the last char of the line when the
    /// cursor is past its end); does nothing on an empty line or a non-word
    /// char.
    pub fn select_word_at_position(&mut self, buffer: &RopeBuffer)
        ensures
            *final(self) == word_selection(*old(self), buffer@),
    {
        let chars = line_chars(buffer, self.position.line);
        if chars.len() == 0 {
            return ;
        }
        let actual_column = if self.position.column >= chars.len() {
            chars.len() - 1
        } else {
            self.position.column
        };
        let current_char = chars[actual_column];
        if !is_word_char(current_char) {
            return ;
        }
        proof {
            lemma_skip_word_back(chars@, actual_column as int);
        }
        let start_col = skip_word_back_exec(&chars, actual_column);
        let end_col = skip_word_forward_exec(&chars, actual_column);
        self.selection_start = Some(Position::new(self.position.line, start_col));
        self.position = Position::new(self.position.line, end_col);
    }
}

/// The cursor `c` with the word under it selected in the text `s` (see
/// `Cursor::select_word_at_position`).
pub open spec fn word_selection(c: Cursor, s: Seq<char>) -> Cursor {
    let t = line_text(s, c.position.line as int);
    let col = if c.position.column >= t.len() {
        t.len() - 1
    } else {
        c.position.column as int
    };
    if t.len() == 0 || !is_word_char_spec(t[col]) {
        c
    } else {
        Cursor {
            selection_start: Some(
                Position { line: c.position.line, column: word_start_at(t, col) as usize },
            ),
            position: Position { line: c.position.line, column: word_end_at(t, col) as usize },
            ..c
        }
    }
}

} // verus!
