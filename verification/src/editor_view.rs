//! What the text view draws for an editor tab: the width of the line
//! numbers, lines cut to the width of the view, and the style of each char
//! (selected, under the cursor, plain).
use vstd::prelude::*;
use crate::rope_buffer::RopeBuffer;
use crate::cursor::{Cursor, Position, selection_of};
use crate::text::{line_count, line_text, utf8_len};
use crate::chars::{str_to_chars, chars_to_string, string_push};
use crate::messages::{decimal, decimal_string};

verus! {

/// How a char of the text view is drawn.
#[derive(Debug, Clone, Copy, PartialEq, Eq, Structural)]
pub enum CellStyle {
    /// The default style.
    Plain,
    /// Selected: white on blue.
    Selected,
    /// Under the cursor: white on gray.
    Cursor,
    /// The cursor past the end of a line, in the selection: blue.
    SelectedCursor,
    /// The cursor past the end of a line, or on an empty one: gray.
    CursorBlock,
}

/// A piece of the text view and its style.
pub struct Cell {
    pub text: String,
    pub style: CellStyle,
}

/// The cells of a line as values.
pub open spec fn cells_view(v: Seq<Cell>) -> Seq<(Seq<char>, CellStyle)> {
    v.map_values(|c: Cell| (c.text@, c.style))
}

/// The text view of an editor tab as values.
pub struct EditorWidgetView {
    pub text: Seq<char>,
    pub cursor: Cursor,
    pub viewport_offset: (usize, usize),
    pub show_line_numbers: bool,
    pub focused: bool,
    pub show_scrollbar: bool,
    pub word_wrap: bool,
}

/// The text view of an editor tab.
pub struct EditorWidget<'a> {
    buffer: &'a RopeBuffer,
    cursor: &'a Cursor,
    viewport_offset: (usize, usize),
    show_line_numbers: bool,
    focused: bool,
    show_scrollbar: bool,
    word_wrap: bool,
}

impl<'a> View for EditorWidget<'a> {
    type V = EditorWidgetView;

    closed spec fn view(&self) -> EditorWidgetView {
        EditorWidgetView {
            text: self.buffer@,
            cursor: *self.cursor,
            viewport_offset: self.viewport_offset,
            show_line_numbers: self.show_line_numbers,
            focused: self.focused,
            show_scrollbar: self.show_scrollbar,
            word_wrap: self.word_wrap,
        }
    }
}

/// Whether `pos` lies in the selection from `start` (included) to `end`
/// (excluded).
pub open spec fn in_selection(pos: Position, start: Position, end: Position) -> bool {
    if pos.line > end.line || pos.line < start.line {
        false
    } else if pos.line == start.line && pos.line == end.line {
        start.column <= pos.column < end.column
    } else if pos.line == start.line {
        pos.column >= start.column
    } else if pos.line == end.line {
        pos.column < end.column
    } else {
        true
    }
}

/// Whether `pos` is selected by the cursor `c`.
pub open spec fn selected_by(c: Cursor, pos: Position) -> bool {
    match selection_of(c) {
        Some((s, e)) => in_selection(pos, s, e),
        None => false,
    }
}

/// The style of the char at column `col` of line `line`.
pub open spec fn char_style(v: EditorWidgetView, line: usize, col: int, cursor_col: Option<usize>) -> CellStyle {
    if selected_by(v.cursor, Position { line, column: col as usize }) {
        CellStyle::Selected
    } else if v.focused && cursor_col == Some(col as usize) {
        CellStyle::Cursor
    } else {
        CellStyle::Plain
    }
}

/// The cells of the chars `t`, the first one at column `offset` of line
/// `line`; then, on the last piece of a line, the cursor past its end
/// (at column `end`); and a cursor block on an empty piece where the
/// cursor stands.
pub open spec fn piece_cells(
    v: EditorWidgetView,
    line: usize,
    t: Seq<char>,
    offset: int,
    last: bool,
    end: int,
    cursor_col: Option<usize>,
) -> Seq<(Seq<char>, CellStyle)> {
    let chars = Seq::new(
        t.len(),
        |c: int| (seq![t[c]], char_style(v, line, offset + c, cursor_col)),
    );
    let with_end = if last && v.focused && cursor_col == Some(end as usize) {
        chars.push(
            (
                seq![' '],
                if selected_by(v.cursor, Position { line, column: end as usize }) {
                    CellStyle::SelectedCursor
                } else {
                    CellStyle::CursorBlock
                },
            ),
        )
    } else {
        chars
    };
    if with_end.len() == 0 && v.focused && cursor_col == Some(offset as usize) {
        seq![(seq![' '], CellStyle::CursorBlock)]
    } else {
        with_end
    }
}

/// The pieces of `s` cut to `w` columns (a tab counting four), from index
/// `i` on, `cur` holding the piece being filled, `cw` columns wide.
pub open spec fn wrap_from(s: Seq<char>, i: int, cur: Seq<char>, cw: nat, w: nat) -> Seq<Seq<char>>
    decreases s.len() - i,
{
    if i < 0 || i >= s.len() {
        if cur.len() > 0 {
            seq![cur]
        } else {
            Seq::empty()
        }
    } else {
        let cwid: nat = if s[i] == '\t' {
            4
        } else {
            1
        };
        if cw + cwid > w && cur.len() > 0 {
            seq![cur] + wrap_from(s, i + 1, seq![s[i]], cwid, w)
        } else {
            wrap_from(s, i + 1, cur.push(s[i]), cw + cwid, w)
        }
    }
}

/// The pieces a line is shown in: the whole line without wrapping or
/// width, else cut to `w` columns; at least one piece.
pub open spec fn wrapped(s: Seq<char>, w: nat, wrap: bool) -> Seq<Seq<char>> {
    if !wrap || w == 0 {
        seq![s]
    } else {
        let r = wrap_from(s, 0, Seq::empty(), 0, w);
        if r.len() == 0 {
            seq![Seq::<char>::empty()]
        } else {
            r
        }
    }
}

/// The number of chars of the first `n` pieces.
pub open spec fn chars_before(pieces: Seq<Seq<char>>, n: int) -> nat
    decreases n,
{
    if n <= 0 || pieces.len() == 0 {
        0
    } else if n > pieces.len() {
        chars_before(pieces, pieces.len() as int)
    } else {
        chars_before(pieces, n - 1) + pieces[n - 1].len()
    }
}

/// A line-number label: `x` right-aligned to `pad` columns, then a space.
pub open spec fn number_label(x: Seq<char>, pad: nat) -> Seq<char> {
    let fill: nat = if x.len() < pad {
        (pad - x.len()) as nat
    } else {
        0
    };
    Seq::new(fill, |i: int| ' ') + x + seq![' ']
}

/// The room for the line numbers, less the space after them.
pub open spec fn number_pad(text: Seq<char>) -> nat {
    let d = decimal(line_count(text)).len();
    ((if d + 1 < 4 {
        4
    } else {
        d + 1
    }) - 1) as nat
}

/// The column of the cursor on line `line`, when it is on that line.
pub open spec fn cursor_on(v: EditorWidgetView, line: usize) -> Option<usize> {
    if line == v.cursor.position.line {
        Some(v.cursor.position.column)
    } else {
        None
    }
}

/// A row of the text view: its line-number label and its cells.
pub type RowView = (Seq<char>, Seq<(Seq<char>, CellStyle)>);

/// The rows that line `line` is drawn in, `w` columns wide: without
/// wrapping one row labelled with the line's number; with wrapping one row
/// per piece, the first labelled with the number and the others with `↳`.
pub open spec fn line_rows(v: EditorWidgetView, line: usize, w: nat) -> Seq<RowView> {
    let t = line_text(v.text, line as int);
    let pad = number_pad(v.text);
    let number = number_label(decimal((line + 1) as nat), pad);
    if v.word_wrap {
        let pieces = wrapped(t, w, true);
        Seq::new(
            pieces.len(),
            |k: int|
                (
                    if k == 0 {
                        number
                    } else {
                        number_label(seq!['↳'], pad)
                    },
                    piece_cells(
                        v,
                        line,
                        pieces[k],
                        chars_before(pieces, k) as int,
                        k == pieces.len() - 1,
                        (chars_before(pieces, k) + pieces[k].len()) as int,
                        cursor_on(v, line),
                    ),
                ),
        )
    } else {
        seq![
            (
                number,
                piece_cells(v, line, t, 0, true, utf8_len(t) as usize as int, cursor_on(v, line)),
            ),
        ]
    }
}

/// The rows of lines `a` up to `b` (excluded), one line after the other.
pub open spec fn rows_between(v: EditorWidgetView, a: int, b: int, w: nat) -> Seq<RowView>
    decreases b - a,
{
    if b <= a {
        Seq::empty()
    } else {
        rows_between(v, a, b - 1, w) + line_rows(v, (b - 1) as usize, w)
    }
}

/// The rows of the text view in `height` rows of `w` columns: those of the
/// lines from the first one shown, as many lines as there are rows or up
/// to the last line of the text.
pub open spec fn visible_rows(v: EditorWidgetView, height: nat, w: nat) -> Seq<RowView> {
    let start = v.viewport_offset.0 as int;
    let n = line_count(v.text) as int;
    let end = if start + height < n {
        start + height
    } else {
        n
    };
    rows_between(v, start, end, w)
}

/// The rows of a list of labels and cells, as values.
pub open spec fn rows_view(r: Seq<(String, Vec<Cell>)>) -> Seq<RowView> {
    r.map_values(|x: (String, Vec<Cell>)| (x.0@, cells_view(x.1@)))
}

/// The characters of the first `n` pieces and then piece `n` come after
/// piece 0.
proof fn lemma_chars_before_front(p: Seq<Seq<char>>, n: int)
    requires
        1 <= n <= p.len(),
    ensures
        chars_before(p, n) == p[0].len() + chars_before(p.drop_first(), n - 1),
    decreases n,
{
    let q = p.drop_first();
    assert(chars_before(p, n) == chars_before(p, n - 1) + p[n - 1].len());
    if n > 1 {
        lemma_chars_before_front(p, n - 1);
        assert(q[n - 2] == p[n - 1]);
        assert(chars_before(q, n - 1) == chars_before(q, n - 2) + q[n - 2].len());
    } else {
        assert(chars_before(q, 0) == 0);
        assert(chars_before(p, 0) == 0);
    }
}

/// All the pieces hold as many chars as they do one after the other.
proof fn lemma_chars_before_all(p: Seq<Seq<char>>)
    ensures
        chars_before(p, p.len() as int) == joined(p).len(),
    decreases p.len(),
{
    if p.len() > 0 {
        lemma_chars_before_front(p, p.len() as int);
        lemma_chars_before_all(p.drop_first());
    }
}

/// The texts of a list of strings.
pub open spec fn strings_view(v: Seq<String>) -> Seq<Seq<char>> {
    v.map_values(|s: String| s@)
}

fn push_cell(out: &mut Vec<Cell>, text: String, style: CellStyle)
    ensures
        cells_view(final(out)@) == cells_view(old(out)@).push((text@, style)),
{
    let ghost t = text@;
    out.push(Cell { text, style });
    assert(cells_view(out@) =~= cells_view(old(out)@).push((t, style)));
}

fn one_char(c: char) -> (s: String)
    ensures
        s@ == seq![c],
{
    let mut s = String::new();
    string_push(&mut s, c);
    assert(s@ =~= seq![c]);
    s
}

impl<'a> EditorWidget<'a> {
    /// The view of `buffer` with `cursor`, from its start, with line
    /// numbers, focused, with a scrollbar, wrapping lines.
    pub fn new(buffer: &'a RopeBuffer, cursor: &'a Cursor) -> (w: Self)
        ensures
            w@ == (EditorWidgetView {
                text: buffer@,
                cursor: *cursor,
                viewport_offset: (0, 0),
                show_line_numbers: true,
                focused: true,
                show_scrollbar: true,
                word_wrap: true,
            }),
    {
        EditorWidget {
            buffer,
            cursor,
            viewport_offset: (0, 0),
            show_line_numbers: true,
            focused: true,
            show_scrollbar: true,
            word_wrap: true,
        }
    }

    /// The same view scrolled to `offset`.
    pub fn viewport_offset(self, offset: (usize, usize)) -> (w: Self)
        ensures
            w@ == (EditorWidgetView { viewport_offset: offset, ..self@ }),
    {
        EditorWidget { viewport_offset: offset, ..self }
    }

    /// The same view with or without line numbers.
    pub fn show_line_numbers(self, show: bool) -> (w: Self)
        ensures
            w@ == (EditorWidgetView { show_line_numbers: show, ..self@ }),
    {
        EditorWidget { show_line_numbers: show, ..self }
    }

    /// The same view, focused or not.
    pub fn focused(self, focused: bool) -> (w: Self)
        ensures
            w@ == (EditorWidgetView { focused, ..self@ }),
    {
        EditorWidget { focused, ..self }
    }

    /// The same view with or without a scrollbar.
    pub fn show_scrollbar(self, show: bool) -> (w: Self)
        ensures
            w@ == (EditorWidgetView { show_scrollbar: show, ..self@ }),
    {
        EditorWidget { show_scrollbar: show, ..self }
    }

    /// The same view, wrapping lines or not.
    pub fn word_wrap(self, wrap: bool) -> (w: Self)
        ensures
            w@ == (EditorWidgetView { word_wrap: wrap, ..self@ }),
    {
        EditorWidget { word_wrap: wrap, ..self }
    }

    /// The text shown.
    pub fn buffer(&self) -> (b: &'a RopeBuffer)
        ensures
            b@ == self@.text,
    {
        self.buffer
    }

    /// The cursor shown.
    pub fn cursor(&self) -> (c: &'a Cursor)
        ensures
            *c == self@.cursor,
    {
        self.cursor
    }

    /// The first line and column shown.
    pub fn offset(&self) -> (o: (usize, usize))
        ensures
            o == self@.viewport_offset,
    {
        self.viewport_offset
    }

    /// Whether line numbers are shown.
    pub fn has_line_numbers(&self) -> (b: bool)
        ensures
            b == self@.show_line_numbers,
    {
        self.show_line_numbers
    }

    /// Whether a scrollbar is shown when the text is longer than the view.
    pub fn has_scrollbar(&self) -> (b: bool)
        ensures
            b == self@.show_scrollbar,
    {
        self.show_scrollbar
    }

    /// Whether long lines wrap.
    pub fn wraps(&self) -> (b: bool)
        ensures
            b == self@.word_wrap,
    {
        self.word_wrap
    }

    /// The width of the line numbers: the digits of the line count and a
    /// space, at least four.
    pub fn calculate_line_number_width(&self) -> (w: u16)
        ensures
            w == if decimal(line_count(self@.text)).len() + 1 < 4 {
                4
            } else {
                decimal(line_count(self@.text)).len() + 1
            },
    {
        let n = self.buffer.len_lines();
        let digits = str_to_chars(decimal_string(n).as_str()).len();
        proof {
            crate::messages::lemma_decimal_len(n as nat);
        }
        if digits + 1 < 4 {
            4
        } else {
            (digits + 1) as u16
        }
    }

    /// Whether `pos` lies in the selection from `start` to `end` (see
    /// `in_selection`).
    pub fn is_position_selected(&self, pos: Position, start: Position, end: Position) -> (b: bool)
        ensures
            b == in_selection(pos, start, end),
    {
        if pos.line > end.line || pos.line < start.line {
            return false;
        }
        if pos.line == start.line && pos.line == end.line {
            pos.column >= start.column && pos.column < end.column
        } else if pos.line == start.line {
            pos.column >= start.column
        } else if pos.line == end.line {
            pos.column < end.column
        } else {
            true
        }
    }

    /// The pieces a line is shown in (see `wrapped`).
    pub fn wrap_line(&self, line_text: &str, available_width: usize) -> (r: Vec<String>)
        ensures
            strings_view(r@) == wrapped(line_text@, available_width as nat, self@.word_wrap),
    {
        let mut out: Vec<String> = Vec::new();
        if !self.word_wrap || available_width == 0 {
            out.push(crate::tab::str_to_string(line_text));
            assert(strings_view(out@) =~= seq![line_text@]);
            return out;
        }
        let s = str_to_chars(line_text);
        let w = available_width;
        let mut cur: Vec<char> = Vec::new();
        let mut cw: usize = 0;
        let mut i: usize = 0;
        assert(strings_view(out@) =~= Seq::<Seq<char>>::empty());
        while i < s.len()
            invariant
                i <= s.len(),
                w == available_width,
                w > 0,
                cur@.len() == 0 ==> cw == 0,
                cw <= w || cw <= 4,
                strings_view(out@) + wrap_from(s@, i as int, cur@, cw as nat, w as nat) == wrap_from(
                    s@,
                    0,
                    Seq::empty(),
                    0,
                    w as nat,
                ),
            decreases s.len() - i,
        {
            let c = s[i];
            let cwid: usize = if c == '\t' {
                4
            } else {
                1
            };
            let over = cw > w || cwid > w - cw;
            if over && cur.len() > 0 {
                let ghost before = strings_view(out@);
                let piece = chars_to_string(&cur);
                out.push(piece);
                assert(strings_view(out@) =~= before.push(cur@));
                cur = Vec::new();
                cur.push(c);
                assert(cur@ =~= seq![c]);
                cw = cwid;
            } else {
                cur.push(c);
                cw = cw + cwid;
            }
            i = i + 1;
        }
        if cur.len() > 0 {
            let ghost before = strings_view(out@);
            let piece = chars_to_string(&cur);
            out.push(piece);
            assert(strings_view(out@) =~= before.push(cur@));
        } else {
            assert(strings_view(out@) + Seq::<Seq<char>>::empty() =~= strings_view(out@));
        }
        if out.len() == 0 {
            out.push(String::new());
            assert(strings_view(out@) =~= seq![Seq::<char>::empty()]);
        }
        out
    }

    /// The cells of the chars `t` of line `line_idx`, the first one at
    /// column `offset` (see `piece_cells`).
    fn piece(
        &self,
        line_idx: usize,
        t: &[char],
        offset: usize,
        last: bool,
        end: usize,
        cursor_col: Option<usize>,
    ) -> (cells: Vec<Cell>)
        requires
            offset + t.len() <= usize::MAX,
        ensures
            cells_view(cells@) == piece_cells(
                self@,
                line_idx,
                t@,
                offset as int,
                last,
                end as int,
                cursor_col,
            ),
    {
        let selection = self.cursor.get_selection();
        let mut out: Vec<Cell> = Vec::new();
        let mut c: usize = 0;
        let ghost chars = Seq::new(
            t@.len(),
            |k: int| (seq![t@[k]], char_style(self@, line_idx, offset + k, cursor_col)),
        );
        assert(cells_view(out@) =~= chars.take(0));
        while c < t.len()
            invariant
                c <= t.len(),
                offset + t.len() <= usize::MAX,
                selection == selection_of(self@.cursor),
                chars == Seq::new(
                    t@.len(),
                    |k: int| (seq![t@[k]], char_style(self@, line_idx, offset + k, cursor_col)),
                ),
                cells_view(out@) == chars.take(c as int),
            decreases t.len() - c,
        {
            let col = offset + c;
            let sel = match selection {
                Some((s, e)) => self.is_position_selected(Position { line: line_idx, column: col }, s, e),
                None => false,
            };
            let style = if sel {
                CellStyle::Selected
            } else if self.focused && cursor_col == Some(col) {
                CellStyle::Cursor
            } else {
                CellStyle::Plain
            };
            push_cell(&mut out, one_char(t[c]), style);
            assert(chars.take(c + 1) =~= chars.take(c as int).push(chars[c as int]));
            c = c + 1;
        }
        assert(chars.take(c as int) =~= chars);
        if last && self.focused && cursor_col == Some(end) {
            let sel = match selection {
                Some((s, e)) => self.is_position_selected(Position { line: line_idx, column: end }, s, e),
                None => false,
            };
            push_cell(
                &mut out,
                one_char(' '),
                if sel {
                    CellStyle::SelectedCursor
                } else {
                    CellStyle::CursorBlock
                },
            );
        }
        if out.len() == 0 && self.focused && cursor_col == Some(offset) {
            push_cell(&mut out, one_char(' '), CellStyle::CursorBlock);
        }
        out
    }

    /// The cells of line `line_idx`, the cursor being at column
    /// `cursor_col` of it, if on it (the cursor past the end counts the
    /// line's bytes).
    pub fn render_line(&self, line_idx: usize, cursor_col: Option<usize>) -> (cells: Vec<Cell>)
        ensures
            cells_view(cells@) == piece_cells(
                self@,
                line_idx,
                line_text(self@.text, line_idx as int),
                0,
                true,
                utf8_len(line_text(self@.text, line_idx as int)) as usize as int,
                cursor_col,
            ),
    {
        let line_text = self.buffer.get_line_text(line_idx);
        let t = str_to_chars(line_text.as_str());
        let end = line_text.as_str().len();
        self.piece(line_idx, &t, 0, true, end, cursor_col)
    }

    /// The cells of piece `wrap_idx` (`line_portion`) of line `line_idx`,
    /// among the pieces `all_wrapped_lines` of the line: its chars start
    /// at the column that counts the chars of the pieces before it; the
    /// cursor past the end shows on the last piece only.
    pub fn render_line_portion(
        &self,
        line_idx: usize,
        line_portion: &str,
        cursor_col: Option<usize>,
        wrap_idx: usize,
        all_wrapped_lines: &[String],
    ) -> (cells: Vec<Cell>)
        requires
            wrap_idx <= all_wrapped_lines.len(),
            all_wrapped_lines.len() > 0,
            chars_before(strings_view(all_wrapped_lines@), wrap_idx as int) + line_portion@.len()
                <= usize::MAX,
        ensures
            ({
                let offset = chars_before(strings_view(all_wrapped_lines@), wrap_idx as int);
                cells_view(cells@) == piece_cells(
                    self@,
                    line_idx,
                    line_portion@,
                    offset as int,
                    wrap_idx == all_wrapped_lines.len() - 1,
                    (offset + line_portion@.len()) as int,
                    cursor_col,
                )
            }),
    {
        let ghost pv = strings_view(all_wrapped_lines@);
        let mut offset: usize = 0;
        let mut i: usize = 0;
        while i < wrap_idx
            invariant
                i <= wrap_idx <= all_wrapped_lines.len(),
                pv == strings_view(all_wrapped_lines@),
                offset == chars_before(pv, i as int),
                chars_before(pv, wrap_idx as int) + line_portion@.len() <= usize::MAX,
            decreases wrap_idx - i,
        {
            proof {
                lemma_chars_before_monotone(pv, i + 1, wrap_idx as int);
            }
            let n = str_to_chars(all_wrapped_lines[i].as_str()).len();
            offset = offset + n;
            i = i + 1;
        }
        let t = str_to_chars(line_portion);
        let last = wrap_idx == all_wrapped_lines.len() - 1;
        self.piece(line_idx, &t, offset, last, offset + t.len(), cursor_col)
    }
}

/// The label `x` right-aligned to `pad` columns, then a space.
fn label_string(x: &[char], pad: usize) -> (s: String)
    ensures
        s@ == number_label(x@, pad as nat),
{
    let mut v: Vec<char> = Vec::new();
    let fill: usize = if x.len() < pad {
        pad - x.len()
    } else {
        0
    };
    let mut i: usize = 0;
    while i < fill
        invariant
            i <= fill,
            v@ == Seq::new(i as nat, |j: int| ' '),
        decreases fill - i,
    {
        v.push(' ');
        i = i + 1;
        assert(v@ =~= Seq::new(i as nat, |j: int| ' '));
    }
    let mut k: usize = 0;
    let ghost head = v@;
    while k < x.len()
        invariant
            k <= x.len(),
            v@ == head + x@.take(k as int),
        decreases x.len() - k,
    {
        v.push(x[k]);
        k = k + 1;
        assert(v@ =~= head + x@.take(k as int));
    }
    v.push(' ');
    assert(x@.take(x.len() as int) =~= x@);
    assert(v@ =~= number_label(x@, pad as nat));
    chars_to_string(&v)
}

impl<'a> EditorWidget<'a> {
    /// Whether the view of `height` rows shows a scrollbar: it is on and
    /// the text has more lines than rows.
    pub fn shows_scrollbar(&self, height: usize) -> (b: bool)
        ensures
            b == (self@.show_scrollbar && line_count(self@.text) > height),
    {
        self.show_scrollbar && self.buffer.len_lines() > height
    }

    /// The rows of the view in `height` rows of `width` columns, each with
    /// its line-number label (see `visible_rows`).
    pub fn view_rows(&self, height: usize, width: usize) -> (rows: Vec<(String, Vec<Cell>)>)
        ensures
            rows_view(rows@) == visible_rows(self@, height as nat, width as nat),
    {
        let n = self.buffer.len_lines();
        let nw = self.calculate_line_number_width();
        let pad: usize = (nw - 1) as usize;
        assert(pad == number_pad(self@.text));
        let start = self.viewport_offset.0;
        let mut rows: Vec<(String, Vec<Cell>)> = Vec::new();
        if start >= n {
            assert(rows_view(rows@) =~= Seq::<RowView>::empty());
            return rows;
        }
        let end = if height < n - start {
            start + height
        } else {
            n
        };
        let mut line = start;
        assert(rows_view(rows@) =~= rows_between(self@, start as int, start as int, width as nat));
        while line < end
            invariant
                start <= line <= end <= n,
                n == line_count(self@.text),
                pad == number_pad(self@.text),
                rows_view(rows@) == rows_between(self@, start as int, line as int, width as nat),
            decreases end - line,
        {
            let text = self.buffer.get_line_text(line);
            let cursor_col = if line == self.cursor.position.line {
                Some(self.cursor.position.column)
            } else {
                None
            };
            let digits = crate::chars::str_to_chars(decimal_string(line + 1).as_str());
            let ghost before = rows_view(rows@);
            let ghost lr = line_rows(self@, line, width as nat);
            if self.word_wrap {
                let pieces = self.wrap_line(text.as_str(), width);
                let ghost pv = strings_view(pieces@);
                let chars = crate::chars::str_to_chars(text.as_str());
                proof {
                    lemma_wrap_keeps_text(text@, width as nat, true);
                    lemma_chars_before_all(pv);
                }
                assert(pieces.len() > 0);
                let mut k: usize = 0;
                while k < pieces.len()
                    invariant
                        k <= pieces.len(),
                        pieces.len() > 0,
                        pv == strings_view(pieces@),
                        pv == wrapped(text@, width as nat, true),
                        chars_before(pv, pv.len() as int) == text@.len(),
                        chars@ == text@,
                        text@ == line_text(self@.text, line as int),
                        cursor_col == cursor_on(self@, line),
                        digits@ == decimal((line + 1) as nat),
                        pad == number_pad(self@.text),
                        self@.word_wrap,
                        lr == line_rows(self@, line, width as nat),
                        rows_view(rows@) == before + lr.take(k as int),
                    decreases pieces.len() - k,
                {
                    proof {
                        lemma_chars_before_monotone(pv, k + 1, pv.len() as int);
                    }
                    assert(chars_before(pv, k + 1) == chars_before(pv, k as int) + pv[k as int].len());
                    assert(chars@.len() == chars.len());
                    assert(pv[k as int] == pieces@[k as int]@);
                    let label = if k == 0 {
                        label_string(&digits, pad)
                    } else {
                        let arrow: Vec<char> = vec!['↳'];
                        assert(arrow@ =~= seq!['↳']);
                        label_string(&arrow, pad)
                    };
                    let cells = self.render_line_portion(
                        line,
                        pieces[k].as_str(),
                        cursor_col,
                        k,
                        pieces.as_slice(),
                    );
                    let ghost row = (label@, cells_view(cells@));
                    assert(row == lr[k as int]);
                    let ghost prev = rows@;
                    rows.push((label, cells));
                    assert(rows_view(rows@) =~= rows_view(prev).push(row));
                    assert(lr.take(k + 1) =~= lr.take(k as int).push(lr[k as int]));
                    k = k + 1;
                }
                assert(lr.take(k as int) =~= lr);
            } else {
                let label = label_string(&digits, pad);
                let cells = self.render_line(line, cursor_col);
                let ghost prev = rows@;
                rows.push((label, cells));
                assert(rows_view(rows@) =~= rows_view(prev).push(lr[0]));
                assert(before.push(lr[0]) =~= before + lr);
            }
            line = line + 1;
        }
        rows
    }
}

pub proof fn lemma_chars_before_monotone(p: Seq<Seq<char>>, m: int, n: int)
    requires
        0 <= m <= n <= p.len(),
    ensures
        chars_before(p, m) <= chars_before(p, n),
    decreases n - m,
{
    if m < n {
        lemma_chars_before_monotone(p, m, n - 1);
    }
}


/// The pieces one after the other.
pub open spec fn joined(pieces: Seq<Seq<char>>) -> Seq<char>
    decreases pieces.len(),
{
    if pieces.len() == 0 {
        Seq::empty()
    } else {
        pieces[0] + joined(pieces.drop_first())
    }
}

proof fn lemma_joined_front(x: Seq<char>, rest: Seq<Seq<char>>)
    ensures
        joined(seq![x] + rest) == x + joined(rest),
{
    assert((seq![x] + rest).drop_first() =~= rest);
    assert((seq![x] + rest)[0] == x);
}

proof fn lemma_wrap_from_joined(s: Seq<char>, i: int, cur: Seq<char>, cw: nat, w: nat)
    requires
        0 <= i <= s.len(),
    ensures
        joined(wrap_from(s, i, cur, cw, w)) == cur + s.skip(i),
    decreases s.len() - i,
{
    if i >= s.len() {
        assert(s.skip(i) =~= Seq::<char>::empty());
        if cur.len() > 0 {
            lemma_joined_front(cur, Seq::empty());
            assert(seq![cur] + Seq::<Seq<char>>::empty() =~= seq![cur]);
            assert(cur + Seq::<char>::empty() =~= cur);
        } else {
            assert(cur =~= Seq::<char>::empty());
            assert(cur + s.skip(i) =~= Seq::<char>::empty());
        }
    } else {
        let cwid: nat = if s[i] == '\t' {
            4
        } else {
            1
        };
        if cw + cwid > w && cur.len() > 0 {
            lemma_wrap_from_joined(s, i + 1, seq![s[i]], cwid, w);
            lemma_joined_front(cur, wrap_from(s, i + 1, seq![s[i]], cwid, w));
            assert(seq![s[i]] + s.skip(i + 1) =~= s.skip(i));
            assert(cur + (seq![s[i]] + s.skip(i + 1)) =~= cur + s.skip(i));
        } else {
            lemma_wrap_from_joined(s, i + 1, cur.push(s[i]), cw + cwid, w);
            assert(cur.push(s[i]) + s.skip(i + 1) =~= cur + s.skip(i));
        }
    }
}

/// Wrapping a line neither loses nor adds text: its pieces, one after the
/// other, are the line.
pub proof fn lemma_wrap_keeps_text(s: Seq<char>, w: nat, wrap: bool)
    ensures
        joined(wrapped(s, w, wrap)) == s,
{
    if !wrap || w == 0 {
        lemma_joined_front(s, Seq::empty());
        assert(seq![s] + Seq::<Seq<char>>::empty() =~= seq![s]);
        assert(s + Seq::<char>::empty() =~= s);
    } else {
        lemma_wrap_from_joined(s, 0, Seq::empty(), 0, w);
        assert(Seq::<char>::empty() + s.skip(0) =~= s);
        if wrap_from(s, 0, Seq::empty(), 0, w).len() == 0 {
            assert(s =~= Seq::<char>::empty());
            lemma_joined_front(Seq::empty(), Seq::empty());
            assert(seq![Seq::<char>::empty()] + Seq::<Seq<char>>::empty() =~= seq![Seq::<char>::empty()]);
        }
    }
}

} // verus!
