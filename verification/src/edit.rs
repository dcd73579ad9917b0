//! Text editing at the cursor: inserting, deleting, and the clipboard.
use vstd::prelude::*;
use crate::rope_buffer::RopeBuffer;
use crate::cursor::{
    Cursor, Position, char_index_of, right_of, left_of, word_left_of, word_right_of,
    selection_of,
};
use crate::text::{line_count, line_start, line_byte_len, lemma_line_start_bounds};
use crate::chars::str_to_chars;

verus! {

/// `p` lies on an existing line (or one past the last) and its char index
/// fits in a `usize`.
pub open spec fn pos_ok(s: Seq<char>, p: Position) -> bool {
    &&& p.line <= line_count(s)
    &&& char_index_of(s, p) <= usize::MAX
}

/// `p` designates a char index within the text (so that inserting there
/// succeeds).
pub open spec fn pos_in_text(s: Seq<char>, p: Position) -> bool {
    &&& p.line <= line_count(s)
    &&& char_index_of(s, p) <= s.len()
}

/// `s` with `t` inserted at index `i`.
pub open spec fn insert_at(s: Seq<char>, i: int, t: Seq<char>) -> Seq<char> {
    s.take(i) + t + s.skip(i)
}

/// `s` without the chars in `i..j`.
pub open spec fn remove_range(s: Seq<char>, i: int, j: int) -> Seq<char> {
    s.take(i) + s.skip(j)
}

/// The position after `n` right moves.
pub open spec fn right_n(s: Seq<char>, p: Position, n: nat) -> Position
    decreases n,
{
    if n == 0 {
        p
    } else {
        right_of(s, right_n(s, p, (n - 1) as nat))
    }
}

/// The cursor after a right move in `s`.
pub open spec fn cursor_right(s: Seq<char>, c: Cursor) -> Cursor {
    Cursor { position: right_of(s, c.position), desired_column: None, ..c }
}

/// The text after inserting `ch` at the cursor.
pub open spec fn insert_char_text(s: Seq<char>, c: Cursor, ch: char) -> Seq<char> {
    insert_at(s, char_index_of(s, c.position), seq![ch])
}

/// The text after a backspace without selection.
pub open spec fn delete_back_text(s: Seq<char>, c: Cursor) -> Seq<char> {
    if c.position.line > 0 || c.position.column > 0 {
        let i = char_index_of(s, left_of(s, c.position));
        if i < s.len() {
            remove_range(s, i, i + 1)
        } else {
            s
        }
    } else {
        s
    }
}

/// The cursor after a backspace without selection.
pub open spec fn delete_back_cursor(s: Seq<char>, c: Cursor) -> Cursor {
    if c.position.line > 0 || c.position.column > 0 {
        Cursor { position: left_of(s, c.position), desired_column: None, ..c }
    } else {
        c
    }
}

/// The text after a delete without selection.
pub open spec fn delete_forward_text(s: Seq<char>, c: Cursor) -> Seq<char> {
    let i = char_index_of(s, c.position);
    if i < s.len() {
        remove_range(s, i, i + 1)
    } else {
        s
    }
}

/// The text after deleting the word before the cursor.
pub open spec fn delete_word_back_text(s: Seq<char>, c: Cursor) -> Seq<char> {
    let start = char_index_of(s, c.position);
    let end = char_index_of(s, word_left_of(s, c.position));
    if start > end {
        remove_range(s, end, start)
    } else {
        s
    }
}

/// The text after deleting the word after the cursor.
pub open spec fn delete_word_forward_text(s: Seq<char>, c: Cursor) -> Seq<char> {
    let start = char_index_of(s, c.position);
    let end = char_index_of(s, word_right_of(s, c.position));
    if end > start {
        remove_range(s, start, end)
    } else {
        s
    }
}

/// The text after deleting the selection.
pub open spec fn delete_selection_text(s: Seq<char>, c: Cursor) -> Seq<char> {
    match selection_of(c) {
        Some((start, end)) => {
            let i = char_index_of(s, start);
            let j = char_index_of(s, end);
            if j > i {
                remove_range(s, i, j)
            } else {
                s
            }
        },
        None => s,
    }
}

/// The cursor after deleting the selection.
pub open spec fn delete_selection_cursor(s: Seq<char>, c: Cursor) -> Cursor {
    match selection_of(c) {
        Some((start, end)) => {
            let i = char_index_of(s, start);
            let j = char_index_of(s, end);
            if j > i {
                Cursor { position: start, selection_start: None, ..c }
            } else {
                Cursor { selection_start: None, ..c }
            }
        },
        None => c,
    }
}

/// Deleting the selection stays within the text.
pub open spec fn delete_selection_ok(s: Seq<char>, c: Cursor) -> bool {
    match selection_of(c) {
        Some((start, end)) => {
            &&& pos_ok(s, start)
            &&& pos_ok(s, end)
            &&& char_index_of(s, end) > char_index_of(s, start) ==> char_index_of(s, end)
                <= s.len()
        },
        None => true,
    }
}

/// The selected text, when a selection is anchored and nonempty.
pub open spec fn selected_text(s: Seq<char>, c: Cursor) -> Option<Seq<char>> {
    match selection_of(c) {
        Some((start, end)) => {
            let i = char_index_of(s, start);
            let j = char_index_of(s, end);
            if j > i {
                Some(s.subrange(i, j))
            } else {
                None
            }
        },
        None => None,
    }
}

/// The text after pasting `clip` at the cursor.
pub open spec fn paste_text(s: Seq<char>, c: Cursor, clip: Seq<char>) -> Seq<char> {
    if clip.len() > 0 {
        insert_at(s, char_index_of(s, c.position), clip)
    } else {
        s
    }
}

/// The cursor after pasting `clip`: one right move per pasted char.
pub open spec fn paste_cursor(s: Seq<char>, c: Cursor, clip: Seq<char>) -> Cursor {
    if clip.len() > 0 {
        Cursor {
            position: right_n(paste_text(s, c, clip), c.position, clip.len()),
            desired_column: None,
            ..c
        }
    } else {
        c
    }
}

/// Inserts `ch` at the cursor and moves right.
pub fn insert_char(buffer: &mut RopeBuffer, cursor: &mut Cursor, ch: char)
    requires
        pos_in_text(old(buffer)@, old(cursor).position),
    ensures
        final(buffer)@ == insert_char_text(old(buffer)@, *old(cursor), ch),
        *final(cursor) == cursor_right(final(buffer)@, *old(cursor)),
{
    let _ = buffer.len_chars();
    let char_idx = cursor.to_char_index(buffer);
    buffer.insert_char(char_idx, ch);
    assert(buffer@ == insert_char_text(old(buffer)@, *old(cursor), ch));
    cursor.move_right(buffer);
}

/// Inserts four spaces at the cursor and moves four times right.
pub fn insert_tab(buffer: &mut RopeBuffer, cursor: &mut Cursor)
    requires
        pos_in_text(old(buffer)@, old(cursor).position),
    ensures
        final(buffer)@ == insert_at(
            old(buffer)@,
            char_index_of(old(buffer)@, old(cursor).position),
            seq![' ', ' ', ' ', ' '],
        ),
        *final(cursor) == (Cursor {
            position: right_n(final(buffer)@, old(cursor).position, 4),
            desired_column: None,
            ..*old(cursor)
        }),
{
    let _ = buffer.len_chars();
    let char_idx = cursor.to_char_index(buffer);
    let spaces = "    ";
    proof {
        reveal_strlit("    ");
    }
    buffer.insert(char_idx, spaces);
    assert(spaces@ =~= seq![' ', ' ', ' ', ' ']);
    let ghost s = buffer@;
    let ghost p0 = cursor.position;
    let mut i: usize = 0;
    while i < 4
        invariant
            i <= 4,
            buffer@ == s,
            cursor.position == right_n(s, p0, i as nat),
            i > 0 ==> cursor.desired_column is None,
            i == 0 ==> cursor.desired_column == old(cursor).desired_column,
            cursor.selection_start == old(cursor).selection_start,
        decreases 4 - i,
    {
        cursor.move_right(buffer);
        i = i + 1;
    }
}

/// Inserts a line feed at the cursor and moves right.
pub fn insert_newline(buffer: &mut RopeBuffer, cursor: &mut Cursor)
    requires
        pos_in_text(old(buffer)@, old(cursor).position),
    ensures
        final(buffer)@ == insert_char_text(old(buffer)@, *old(cursor), '\n'),
        *final(cursor) == cursor_right(final(buffer)@, *old(cursor)),
{
    insert_char(buffer, cursor, '\n');
}

/// Deletes the char before the cursor, moving left first.
pub fn delete_char_backward(buffer: &mut RopeBuffer, cursor: &mut Cursor)
    requires
        (old(cursor).position.line > 0 || old(cursor).position.column > 0) ==> pos_ok(
            old(buffer)@,
            left_of(old(buffer)@, old(cursor).position),
        ),
    ensures
        final(buffer)@ == delete_back_text(old(buffer)@, *old(cursor)),
        *final(cursor) == delete_back_cursor(old(buffer)@, *old(cursor)),
{
    if cursor.position.line > 0 || cursor.position.column > 0 {
        cursor.move_left(buffer);
        let char_idx = cursor.to_char_index(buffer);
        if char_idx < buffer.len_chars() {
            buffer.remove(char_idx, char_idx + 1);
        }
    }
}

/// Deletes the char at the cursor.
pub fn delete_char_forward(buffer: &mut RopeBuffer, cursor: &mut Cursor)
    requires
        pos_ok(old(buffer)@, old(cursor).position),
    ensures
        final(buffer)@ == delete_forward_text(old(buffer)@, *old(cursor)),
        *final(cursor) == *old(cursor),
{
    let char_idx = cursor.to_char_index(buffer);
    if char_idx < buffer.len_chars() {
        buffer.remove(char_idx, char_idx + 1);
    }
}

/// Deletes from the cursor back to where a word-left move lands, and moves
/// there.
pub fn delete_word_backward(buffer: &mut RopeBuffer, cursor: &mut Cursor)
    requires
        pos_in_text(old(buffer)@, old(cursor).position),
        pos_ok(old(buffer)@, word_left_of(old(buffer)@, old(cursor).position)),
    ensures
        final(buffer)@ == delete_word_back_text(old(buffer)@, *old(cursor)),
        *final(cursor) == (Cursor {
            position: word_left_of(old(buffer)@, old(cursor).position),
            desired_column: None,
            ..*old(cursor)
        }),
{
    let _ = buffer.len_chars();
    let start_idx = cursor.to_char_index(buffer);
    cursor.move_word_left(buffer);
    let end_idx = cursor.to_char_index(buffer);
    if start_idx > end_idx {
        buffer.remove(end_idx, start_idx);
    }
}

/// Deletes from the cursor forward to where a word-right move lands; the
/// cursor stays.
pub fn delete_word_forward(buffer: &mut RopeBuffer, cursor: &mut Cursor)
    requires
        pos_ok(old(buffer)@, old(cursor).position),
        pos_in_text(old(buffer)@, word_right_of(old(buffer)@, old(cursor).position)),
    ensures
        final(buffer)@ == delete_word_forward_text(old(buffer)@, *old(cursor)),
        *final(cursor) == (Cursor { desired_column: None, ..*old(cursor) }),
{
    let _ = buffer.len_chars();
    let start_idx = cursor.to_char_index(buffer);
    let start_pos = cursor.position;
    cursor.move_word_right(buffer);
    let end_idx = cursor.to_char_index(buffer);
    cursor.position = start_pos;
    if end_idx > start_idx {
        buffer.remove(start_idx, end_idx);
    }
}

/// The char index of `p`.
fn index_of(buffer: &RopeBuffer, p: Position) -> (i: usize)
    requires
        pos_ok(buffer@, p),
    ensures
        i == char_index_of(buffer@, p),
{
    let line_start = buffer.line_to_char(p.line);
    let len = buffer.line_byte_len(p.line);
    line_start + if p.column <= len {
        p.column
    } else {
        len
    }
}

/// Deletes the selected text, moves the cursor to its start and drops the
/// selection.
pub fn delete_selection(buffer: &mut RopeBuffer, cursor: &mut Cursor)
    requires
        delete_selection_ok(old(buffer)@, *old(cursor)),
    ensures
        final(buffer)@ == delete_selection_text(old(buffer)@, *old(cursor)),
        *final(cursor) == delete_selection_cursor(old(buffer)@, *old(cursor)),
{
    if let Some((start, end)) = cursor.get_selection() {
        let start_idx = index_of(buffer, start);
        let end_idx = index_of(buffer, end);
        if end_idx > start_idx {
            buffer.remove(start_idx, end_idx);
            cursor.position = start;
        }
        cursor.clear_selection();
    }
}

/// The selected text, if the selection is anchored and nonempty.
pub fn copy_selection(buffer: &RopeBuffer, cursor: &Cursor) -> (r: Option<String>)
    requires
        delete_selection_ok(buffer@, *cursor),
    ensures
        match selected_text(buffer@, *cursor) {
            Some(t) => r is Some && r->0@ == t,
            None => r is None,
        },
{
    if let Some((start, end)) = cursor.get_selection() {
        let start_idx = index_of(buffer, start);
        let end_idx = index_of(buffer, end);
        if end_idx > start_idx {
            return Some(buffer.slice(start_idx, end_idx));
        }
    }
    None
}

/// Copies the selection into `clipboard` (kept when nothing is selected).
pub fn copy_to_clipboard(buffer: &RopeBuffer, cursor: &Cursor, clipboard: &mut String)
    requires
        delete_selection_ok(buffer@, *cursor),
    ensures
        final(clipboard)@ == match selected_text(buffer@, *cursor) {
            Some(t) => t,
            None => old(clipboard)@,
        },
{
    if let Some(text) = copy_selection(buffer, cursor) {
        *clipboard = text;
    }
}

/// Copies the selection into `clipboard`, then deletes it.
pub fn cut_selection(buffer: &mut RopeBuffer, cursor: &mut Cursor, clipboard: &mut String)
    requires
        delete_selection_ok(old(buffer)@, *old(cursor)),
    ensures
        final(clipboard)@ == match selected_text(old(buffer)@, *old(cursor)) {
            Some(t) => t,
            None => old(clipboard)@,
        },
        final(buffer)@ == delete_selection_text(old(buffer)@, *old(cursor)),
        *final(cursor) == delete_selection_cursor(old(buffer)@, *old(cursor)),
{
    copy_to_clipboard(buffer, cursor, clipboard);
    delete_selection(buffer, cursor);
}

/// Inserts the clipboard at the cursor and moves right once per pasted char.
pub fn paste_from_clipboard(buffer: &mut RopeBuffer, cursor: &mut Cursor, clipboard: &str)
    requires
        clipboard@.len() > 0 ==> pos_in_text(old(buffer)@, old(cursor).position),
    ensures
        final(buffer)@ == paste_text(old(buffer)@, *old(cursor), clipboard@),
        *final(cursor) == paste_cursor(old(buffer)@, *old(cursor), clipboard@),
{
    let chars = str_to_chars(clipboard);
    if chars.len() > 0 {
        let _ = buffer.len_chars();
        let char_idx = cursor.to_char_index(buffer);
        buffer.insert(char_idx, clipboard);
        let ghost s = buffer@;
        let ghost p0 = cursor.position;
        let mut i: usize = 0;
        while i < chars.len()
            invariant
                i <= chars.len(),
                buffer@ == s,
                cursor.position == right_n(s, p0, i as nat),
                i > 0 ==> cursor.desired_column is None,
                i == 0 ==> cursor.desired_column == old(cursor).desired_column,
                cursor.selection_start == old(cursor).selection_start,
            decreases chars.len() - i,
        {
            cursor.move_right(buffer);
            i = i + 1;
        }
    }
}

} // verus!
