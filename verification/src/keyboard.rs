//! Key events and what they do to the text of an editor tab.
use vstd::prelude::*;
use crate::rope_buffer::RopeBuffer;
use crate::cursor::{
    Cursor, Position, left_of, right_of, up_of, down_of, word_left_of, word_right_of,
    anchor_for_move, selection_of,
};
use crate::text::{line_count, line_byte_len};
use crate::edit::{
    pos_ok, pos_in_text, insert_char_text, cursor_right, delete_back_text, delete_back_cursor,
    delete_forward_text, delete_word_back_text, delete_word_forward_text, delete_selection_text,
    delete_selection_cursor, delete_selection_ok, selected_text, paste_text, paste_cursor,
    insert_char, insert_newline, delete_char_backward, delete_char_forward, delete_word_backward,
    delete_word_forward, delete_selection, copy_to_clipboard, cut_selection, paste_from_clipboard,
};

verus! {

/// The key of a key event.
#[derive(Debug, Clone, Copy, PartialEq, Eq, Structural)]
pub enum KeyCode {
    Char(char),
    F(u8),
    Left,
    Right,
    Up,
    Down,
    Home,
    End,
    PageUp,
    PageDown,
    Backspace,
    Delete,
    Enter,
    Tab,
    BackTab,
    Esc,
    Other,
}

/// The modifier keys held during a key event.
#[derive(Debug, Clone, Copy, PartialEq, Eq, Structural)]
pub struct KeyModifiers {
    pub shift: bool,
    pub control: bool,
    pub alt: bool,
    pub super_key: bool,
    pub hyper: bool,
    pub meta: bool,
}

impl KeyModifiers {
    /// No modifier held.
    pub fn none() -> (m: Self)
        ensures
            !m.shift && !m.control && !m.alt && !m.super_key && !m.hyper && !m.meta,
    {
        KeyModifiers {
            shift: false,
            control: false,
            alt: false,
            super_key: false,
            hyper: false,
            meta: false,
        }
    }

    /// Whether no modifier is held.
    pub fn is_none(&self) -> (b: bool)
        ensures
            b == (!self.shift && !self.control && !self.alt && !self.super_key && !self.hyper
                && !self.meta),
    {
        !self.shift && !self.control && !self.alt && !self.super_key && !self.hyper && !self.meta
    }

    /// Whether exactly the control key is held.
    pub fn is_control_only(&self) -> (b: bool)
        ensures
            b == (!self.shift && self.control && !self.alt && !self.super_key && !self.hyper
                && !self.meta),
    {
        !self.shift && self.control && !self.alt && !self.super_key && !self.hyper && !self.meta
    }

    /// Whether exactly the shift key is held.
    pub fn is_shift_only(&self) -> (b: bool)
        ensures
            b == (self.shift && !self.control && !self.alt && !self.super_key && !self.hyper
                && !self.meta),
    {
        self.shift && !self.control && !self.alt && !self.super_key && !self.hyper && !self.meta
    }

    /// Whether exactly the alt key is held.
    pub fn is_alt_only(&self) -> (b: bool)
        ensures
            b == (!self.shift && !self.control && self.alt && !self.super_key && !self.hyper
                && !self.meta),
    {
        !self.shift && !self.control && self.alt && !self.super_key && !self.hyper && !self.meta
    }
}

/// A key press.
#[derive(Debug, Clone, Copy, PartialEq, Eq, Structural)]
pub struct KeyEvent {
    pub code: KeyCode,
    pub modifiers: KeyModifiers,
}

/// A request from the editor to the application.
#[derive(Debug, Clone, Copy, PartialEq, Eq, Structural)]
pub enum EditorCommand {
    Quit,
    Save,
    NewTab,
    CloseTab,
    NextTab,
    PrevTab,
    PageUp,
    PageDown,
    Modified,
    ToggleMenu,
    OpenFile,
    CurrentTab,
    Undo,
    Redo,
    TogglePreview,
    ToggleWordWrap,
    FocusTreeView,
    FocusEditor,
    Find,
    FindReplace,
    NewTerminal,
}

/// What a key press does in the editor.
#[derive(Debug, Clone, Copy, PartialEq, Eq, Structural)]
pub enum KeyAction {
    /// Hands a command to the application without touching the text.
    Command(EditorCommand),
    SelectAll,
    Copy,
    Cut,
    Paste,
    /// Word moves; `true` extends the selection.
    WordLeft(bool),
    WordRight(bool),
    /// Cursor moves: with `true` (Shift held) the selection is extended
    /// from where it is anchored; with `false` the move clears it.
    Left(bool),
    Right(bool),
    Up(bool),
    Down(bool),
    Home(bool),
    End(bool),
    DeleteWordBackward,
    Backspace,
    DeleteWordForward,
    Delete,
    Enter,
    Insert(char),
    Nothing,
}

/// The action a key press stands for: the first rule that applies, in the
/// editor's order.
pub open spec fn key_action(key: KeyEvent) -> KeyAction {
    let ctrl = key.modifiers.control;
    let alt = key.modifiers.alt;
    let sup = key.modifiers.super_key;
    let meta = key.modifiers.meta;
    let option = alt || meta;
    let shift = key.modifiers.shift;
    match key.code {
        KeyCode::Char(c) => if ctrl && c == 'q' {
            KeyAction::Command(EditorCommand::Quit)
        } else if ctrl && c == 's' {
            KeyAction::Command(EditorCommand::Save)
        } else if ctrl && c == 'n' {
            KeyAction::Command(EditorCommand::NewTab)
        } else if ctrl && c == 'w' {
            KeyAction::Command(EditorCommand::CloseTab)
        } else if ctrl && c == ']' {
            KeyAction::Command(EditorCommand::NextTab)
        } else if ctrl && c == '[' {
            KeyAction::Command(EditorCommand::PrevTab)
        } else if ctrl && c == 'a' {
            KeyAction::SelectAll
        } else if ctrl && c == 'c' {
            KeyAction::Copy
        } else if ctrl && c == 'x' {
            KeyAction::Cut
        } else if ctrl && c == 'v' {
            KeyAction::Paste
        } else if ctrl && !shift && c == 'z' {
            KeyAction::Command(EditorCommand::Undo)
        } else if ctrl && shift && c == 'z' {
            KeyAction::Command(EditorCommand::Redo)
        } else if ctrl && c == 'y' {
            KeyAction::Command(EditorCommand::Redo)
        } else if ctrl && c == 'u' {
            KeyAction::Command(EditorCommand::TogglePreview)
        } else if alt && c == 'w' {
            KeyAction::Command(EditorCommand::ToggleWordWrap)
        } else if ctrl && c == 'p' {
            KeyAction::Command(EditorCommand::OpenFile)
        } else if ctrl && c == 'g' {
            KeyAction::Command(EditorCommand::CurrentTab)
        } else if option && !shift && c == 'b' {
            KeyAction::WordLeft(false)
        } else if option && !shift && c == 'f' {
            KeyAction::WordRight(false)
        } else if !ctrl && !sup && !option {
            KeyAction::Insert(c)
        } else {
            KeyAction::Nothing
        },
        KeyCode::F(n) => if n == 1 {
            KeyAction::Command(EditorCommand::ToggleMenu)
        } else {
            KeyAction::Nothing
        },
        KeyCode::Left => if (option || ctrl) && shift {
            KeyAction::WordLeft(true)
        } else if option || ctrl {
            KeyAction::WordLeft(false)
        } else {
            KeyAction::Left(shift)
        },
        KeyCode::Right => if (option || ctrl) && shift {
            KeyAction::WordRight(true)
        } else if option || ctrl {
            KeyAction::WordRight(false)
        } else {
            KeyAction::Right(shift)
        },
        KeyCode::Up => KeyAction::Up(shift),
        KeyCode::Down => KeyAction::Down(shift),
        KeyCode::Home => KeyAction::Home(shift),
        KeyCode::End => KeyAction::End(shift),
        KeyCode::PageUp => KeyAction::Command(EditorCommand::PageUp),
        KeyCode::PageDown => KeyAction::Command(EditorCommand::PageDown),
        KeyCode::Backspace => if option || ctrl {
            KeyAction::DeleteWordBackward
        } else {
            KeyAction::Backspace
        },
        KeyCode::Delete => if option || ctrl {
            KeyAction::DeleteWordForward
        } else {
            KeyAction::Delete
        },
        KeyCode::Enter => KeyAction::Enter,
        _ => KeyAction::Nothing,
    }
}

/// The action a key press stands for.
pub fn classify_key(key: KeyEvent) -> (a: KeyAction)
    ensures
        a == key_action(key),
{
    let ctrl = key.modifiers.control;
    let alt = key.modifiers.alt;
    let sup = key.modifiers.super_key;
    let meta = key.modifiers.meta;
    let option = alt || meta;
    let shift = key.modifiers.shift;
    match key.code {
        KeyCode::Char(c) => {
            if ctrl && c == 'q' {
                KeyAction::Command(EditorCommand::Quit)
            } else if ctrl && c == 's' {
                KeyAction::Command(EditorCommand::Save)
            } else if ctrl && c == 'n' {
                KeyAction::Command(EditorCommand::NewTab)
            } else if ctrl && c == 'w' {
                KeyAction::Command(EditorCommand::CloseTab)
            } else if ctrl && c == ']' {
                KeyAction::Command(EditorCommand::NextTab)
            } else if ctrl && c == '[' {
                KeyAction::Command(EditorCommand::PrevTab)
            } else if ctrl && c == 'a' {
                KeyAction::SelectAll
            } else if ctrl && c == 'c' {
                KeyAction::Copy
            } else if ctrl && c == 'x' {
                KeyAction::Cut
            } else if ctrl && c == 'v' {
                KeyAction::Paste
            } else if ctrl && !shift && c == 'z' {
                KeyAction::Command(EditorCommand::Undo)
            } else if ctrl && shift && c == 'z' {
                KeyAction::Command(EditorCommand::Redo)
            } else if ctrl && c == 'y' {
                KeyAction::Command(EditorCommand::Redo)
            } else if ctrl && c == 'u' {
                KeyAction::Command(EditorCommand::TogglePreview)
            } else if alt && c == 'w' {
                KeyAction::Command(EditorCommand::ToggleWordWrap)
            } else if ctrl && c == 'p' {
                KeyAction::Command(EditorCommand::OpenFile)
            } else if ctrl && c == 'g' {
                KeyAction::Command(EditorCommand::CurrentTab)
            } else if option && !shift && c == 'b' {
                KeyAction::WordLeft(false)
            } else if option && !shift && c == 'f' {
                KeyAction::WordRight(false)
            } else if !ctrl && !sup && !option {
                KeyAction::Insert(c)
            } else {
                KeyAction::Nothing
            }
        },
        KeyCode::F(n) => {
            if n == 1 {
                KeyAction::Command(EditorCommand::ToggleMenu)
            } else {
                KeyAction::Nothing
            }
        },
        KeyCode::Left => {
            if (option || ctrl) && shift {
                KeyAction::WordLeft(true)
            } else if option || ctrl {
                KeyAction::WordLeft(false)
            } else {
                KeyAction::Left(shift)
            }
        },
        KeyCode::Right => {
            if (option || ctrl) && shift {
                KeyAction::WordRight(true)
            } else if option || ctrl {
                KeyAction::WordRight(false)
            } else {
                KeyAction::Right(shift)
            }
        },
        KeyCode::Up => KeyAction::Up(shift),
        KeyCode::Down => KeyAction::Down(shift),
        KeyCode::Home => KeyAction::Home(shift),
        KeyCode::End => KeyAction::End(shift),
        KeyCode::PageUp => KeyAction::Command(EditorCommand::PageUp),
        KeyCode::PageDown => KeyAction::Command(EditorCommand::PageDown),
        KeyCode::Backspace => {
            if option || ctrl {
                KeyAction::DeleteWordBackward
            } else {
                KeyAction::Backspace
            }
        },
        KeyCode::Delete => {
            if option || ctrl {
                KeyAction::DeleteWordForward
            } else {
                KeyAction::Delete
            }
        },
        KeyCode::Enter => KeyAction::Enter,
        _ => KeyAction::Nothing,
    }
}

/// The state of an editor tab that key presses change: its text, its cursor
/// and the clipboard.
pub struct EditState {
    pub text: Seq<char>,
    pub cursor: Cursor,
    pub clipboard: Seq<char>,
}

/// The cursor with its selection prepared for a move.
pub open spec fn with_anchor(c: Cursor, extend: bool) -> Cursor {
    Cursor { selection_start: anchor_for_move(c, extend), ..c }
}

/// The state after the selection, if any, is deleted.
pub open spec fn after_selection_delete(st: EditState) -> EditState {
    if st.cursor.selection_start is Some {
        EditState {
            text: delete_selection_text(st.text, st.cursor),
            cursor: delete_selection_cursor(st.text, st.cursor),
            clipboard: st.clipboard,
        }
    } else {
        st
    }
}

/// The state after inserting `ch` (the selection, if any, replaced).
pub open spec fn after_insert(st: EditState, ch: char) -> EditState {
    let d = after_selection_delete(st);
    let t = insert_char_text(d.text, d.cursor, ch);
    EditState { text: t, cursor: cursor_right(t, d.cursor), clipboard: st.clipboard }
}

/// The state after an action.
pub open spec fn action_effect(a: KeyAction, st: EditState) -> EditState {
    let s = st.text;
    let c = st.cursor;
    match a {
        KeyAction::SelectAll => EditState {
            cursor: Cursor {
                selection_start: Some(Position { line: 0, column: 0 }),
                position: Position {
                    line: (line_count(s) - 1) as usize,
                    column: line_byte_len(s, line_count(s) - 1),
                },
                ..c
            },
            ..st
        },
        KeyAction::Copy => EditState {
            clipboard: match selected_text(s, c) {
                Some(t) => t,
                None => st.clipboard,
            },
            ..st
        },
        KeyAction::Cut => EditState {
            text: delete_selection_text(s, c),
            cursor: delete_selection_cursor(s, c),
            clipboard: match selected_text(s, c) {
                Some(t) => t,
                None => st.clipboard,
            },
        },
        KeyAction::Paste => {
            let d = after_selection_delete(st);
            EditState {
                text: paste_text(d.text, d.cursor, st.clipboard),
                cursor: paste_cursor(d.text, d.cursor, st.clipboard),
                clipboard: st.clipboard,
            }
        },
        KeyAction::WordLeft(x) => {
            let c1 = with_anchor(c, x);
            EditState {
                cursor: Cursor {
                    position: word_left_of(s, c.position),
                    desired_column: None,
                    ..c1
                },
                ..st
            }
        },
        KeyAction::WordRight(x) => {
            let c1 = with_anchor(c, x);
            EditState {
                cursor: Cursor {
                    position: word_right_of(s, c.position),
                    desired_column: None,
                    ..c1
                },
                ..st
            }
        },
        KeyAction::Left(x) => {
            let c1 = with_anchor(c, x);
            EditState {
                cursor: Cursor { position: left_of(s, c.position), desired_column: None, ..c1 },
                ..st
            }
        },
        KeyAction::Right(x) => {
            let c1 = with_anchor(c, x);
            EditState {
                cursor: Cursor { position: right_of(s, c.position), desired_column: None, ..c1 },
                ..st
            }
        },
        KeyAction::Up(x) => EditState { cursor: up_of(s, with_anchor(c, x)), ..st },
        KeyAction::Down(x) => EditState { cursor: down_of(s, with_anchor(c, x)), ..st },
        KeyAction::Home(x) => {
            let c1 = with_anchor(c, x);
            EditState {
                cursor: Cursor {
                    position: Position { line: c.position.line, column: 0 },
                    desired_column: None,
                    ..c1
                },
                ..st
            }
        },
        KeyAction::End(x) => {
            let c1 = with_anchor(c, x);
            EditState {
                cursor: Cursor {
                    position: Position {
                        line: c.position.line,
                        column: line_byte_len(s, c.position.line as int),
                    },
                    desired_column: None,
                    ..c1
                },
                ..st
            }
        },
        KeyAction::DeleteWordBackward => if c.selection_start is Some {
            after_selection_delete(st)
        } else {
            EditState {
                text: delete_word_back_text(s, c),
                cursor: Cursor {
                    position: word_left_of(s, c.position),
                    desired_column: None,
                    ..c
                },
                ..st
            }
        },
        KeyAction::Backspace => if c.selection_start is Some {
            after_selection_delete(st)
        } else {
            EditState { text: delete_back_text(s, c), cursor: delete_back_cursor(s, c), ..st }
        },
        KeyAction::DeleteWordForward => if c.selection_start is Some {
            after_selection_delete(st)
        } else {
            EditState {
                text: delete_word_forward_text(s, c),
                cursor: Cursor { desired_column: None, ..c },
                ..st
            }
        },
        KeyAction::Delete => if c.selection_start is Some {
            after_selection_delete(st)
        } else {
            EditState { text: delete_forward_text(s, c), ..st }
        },
        KeyAction::Enter => after_insert(st, '\n'),
        KeyAction::Insert(ch) => after_insert(st, ch),
        _ => st,
    }
}

/// The command an action hands to the application.
pub open spec fn action_command(a: KeyAction) -> Option<EditorCommand> {
    match a {
        KeyAction::Command(cmd) => Some(cmd),
        KeyAction::Cut | KeyAction::Paste | KeyAction::DeleteWordBackward | KeyAction::Backspace
        | KeyAction::DeleteWordForward | KeyAction::Delete | KeyAction::Enter
        | KeyAction::Insert(_) => Some(EditorCommand::Modified),
        _ => None,
    }
}

/// Inserting after the selection is deleted stays within the text.
pub open spec fn insert_ok(st: EditState) -> bool {
    &&& st.cursor.selection_start is Some ==> delete_selection_ok(st.text, st.cursor)
    &&& pos_in_text(after_selection_delete(st).text, after_selection_delete(st).cursor.position)
}

/// The action touches only chars within the text (the editor would stop
/// otherwise).
pub open spec fn action_ok(a: KeyAction, st: EditState) -> bool {
    let s = st.text;
    let c = st.cursor;
    match a {
        KeyAction::Copy | KeyAction::Cut => delete_selection_ok(s, c),
        KeyAction::Paste => {
            &&& c.selection_start is Some ==> delete_selection_ok(s, c)
            &&& st.clipboard.len() > 0 ==> pos_in_text(
                after_selection_delete(st).text,
                after_selection_delete(st).cursor.position,
            )
        },
        KeyAction::DeleteWordBackward => if c.selection_start is Some {
            delete_selection_ok(s, c)
        } else {
            pos_in_text(s, c.position) && pos_ok(s, word_left_of(s, c.position))
        },
        KeyAction::Backspace => if c.selection_start is Some {
            delete_selection_ok(s, c)
        } else {
            (c.position.line > 0 || c.position.column > 0) ==> pos_ok(s, left_of(s, c.position))
        },
        KeyAction::DeleteWordForward => if c.selection_start is Some {
            delete_selection_ok(s, c)
        } else {
            pos_ok(s, c.position) && pos_in_text(s, word_right_of(s, c.position))
        },
        KeyAction::Delete => if c.selection_start is Some {
            delete_selection_ok(s, c)
        } else {
            pos_ok(s, c.position)
        },
        KeyAction::Enter | KeyAction::Insert(_) => insert_ok(st),
        _ => true,
    }
}

/// Handles a key press in an editor tab: moves the cursor, edits the text or
/// the clipboard, and returns the command for the application, if any.
pub fn handle_key_event(
    key: KeyEvent,
    buffer: &mut RopeBuffer,
    cursor: &mut Cursor,
    clipboard: &mut String,
) -> (cmd: Option<EditorCommand>)
    requires
        action_ok(
            key_action(key),
            EditState { text: old(buffer)@, cursor: *old(cursor), clipboard: old(clipboard)@ },
        ),
    ensures
        cmd == action_command(key_action(key)),
        ({
            let st = action_effect(
                key_action(key),
                EditState { text: old(buffer)@, cursor: *old(cursor), clipboard: old(clipboard)@ },
            );
            &&& final(buffer)@ == st.text
            &&& *final(cursor) == st.cursor
            &&& final(clipboard)@ == st.clipboard
        }),
{
    let action = classify_key(key);
    match action {
        KeyAction::Command(c) => Some(c),
        KeyAction::SelectAll => {
            cursor.select_all(buffer);
            None
        },
        KeyAction::Copy => {
            copy_to_clipboard(buffer, cursor, clipboard);
            None
        },
        KeyAction::Cut => {
            cut_selection(buffer, cursor, clipboard);
            Some(EditorCommand::Modified)
        },
        KeyAction::Paste => {
            if cursor.has_selection() {
                delete_selection(buffer, cursor);
            }
            paste_from_clipboard(buffer, cursor, clipboard.as_str());
            Some(EditorCommand::Modified)
        },
        KeyAction::WordLeft(x) => {
            cursor.move_word_left_with_selection(buffer, x);
            None
        },
        KeyAction::WordRight(x) => {
            cursor.move_word_right_with_selection(buffer, x);
            None
        },
        KeyAction::Left(x) => {
            cursor.move_left_with_selection(buffer, x);
            None
        },
        KeyAction::Right(x) => {
            cursor.move_right_with_selection(buffer, x);
            None
        },
        KeyAction::Up(x) => {
            cursor.move_up_with_selection(buffer, x);
            None
        },
        KeyAction::Down(x) => {
            cursor.move_down_with_selection(buffer, x);
            None
        },
        KeyAction::Home(x) => {
            cursor.move_to_line_start_with_selection(x);
            None
        },
        KeyAction::End(x) => {
            cursor.move_to_line_end_with_selection(buffer, x);
            None
        },
        KeyAction::DeleteWordBackward => {
            if cursor.has_selection() {
                delete_selection(buffer, cursor);
            } else {
                delete_word_backward(buffer, cursor);
            }
            Some(EditorCommand::Modified)
        },
        KeyAction::Backspace => {
            if cursor.has_selection() {
                delete_selection(buffer, cursor);
            } else {
                delete_char_backward(buffer, cursor);
            }
            Some(EditorCommand::Modified)
        },
        KeyAction::DeleteWordForward => {
            if cursor.has_selection() {
                delete_selection(buffer, cursor);
            } else {
                delete_word_forward(buffer, cursor);
            }
            Some(EditorCommand::Modified)
        },
        KeyAction::Delete => {
            if cursor.has_selection() {
                delete_selection(buffer, cursor);
            } else {
                delete_char_forward(buffer, cursor);
            }
            Some(EditorCommand::Modified)
        },
        KeyAction::Enter => {
            if cursor.has_selection() {
                delete_selection(buffer, cursor);
            }
            insert_newline(buffer, cursor);
            Some(EditorCommand::Modified)
        },
        KeyAction::Insert(c) => {
            if cursor.has_selection() {
                delete_selection(buffer, cursor);
            }
            insert_char(buffer, cursor, c);
            Some(EditorCommand::Modified)
        },
        KeyAction::Nothing => None,
    }
}

/// The char index of `p` in `buffer`, when `pos_ok` holds of it.
fn checked_index(buffer: &RopeBuffer, p: Position) -> (r: Option<usize>)
    ensures
        match r {
            Some(i) => pos_ok(buffer@, p) && i == crate::cursor::char_index_of(buffer@, p),
            None => !pos_ok(buffer@, p),
        },
{
    if p.line > buffer.len_lines() {
        return None;
    }
    let ls = buffer.line_to_char(p.line);
    let len = buffer.line_byte_len(p.line);
    let col = if p.column <= len {
        p.column
    } else {
        len
    };
    ls.checked_add(col)
}

/// Whether `p` designates a char index within the text of `buffer`.
fn within_text(buffer: &RopeBuffer, p: Position) -> (b: bool)
    ensures
        b == pos_in_text(buffer@, p),
{
    let n = buffer.len_chars();
    match checked_index(buffer, p) {
        Some(i) => i <= n,
        None => false,
    }
}

/// Whether deleting the selection of `cursor` stays within the text.
fn selection_safe(buffer: &RopeBuffer, cursor: &Cursor) -> (b: bool)
    ensures
        b == delete_selection_ok(buffer@, *cursor),
{
    match cursor.get_selection() {
        Some((start, end)) => {
            match (checked_index(buffer, start), checked_index(buffer, end)) {
                (Some(i), Some(j)) => j <= i || j <= buffer.len_chars(),
                _ => false,
            }
        },
        None => true,
    }
}

/// Whether the cursor stays within the text once the selection, if any, is
/// deleted.
fn in_text_after_delete(buffer: &RopeBuffer, cursor: &Cursor, clipboard: &String) -> (b: bool)
    requires
        cursor.selection_start is Some ==> delete_selection_ok(buffer@, *cursor),
    ensures
        ({
            let d = after_selection_delete(
                EditState { text: buffer@, cursor: *cursor, clipboard: clipboard@ },
            );
            b == pos_in_text(d.text, d.cursor.position)
        }),
{
    if cursor.selection_start.is_some() {
        let mut b2 = buffer.clone();
        let mut c2 = *cursor;
        delete_selection(&mut b2, &mut c2);
        within_text(&b2, c2.position)
    } else {
        within_text(buffer, cursor.position)
    }
}

/// Whether the key press keeps every edit within the text, so that
/// `handle_key_event` may take it.
pub fn key_is_safe(key: KeyEvent, buffer: &RopeBuffer, cursor: &Cursor, clipboard: &String) -> (b: bool)
    ensures
        b == action_ok(
            key_action(key),
            EditState { text: buffer@, cursor: *cursor, clipboard: clipboard@ },
        ),
{
    let action = classify_key(key);
    let has_selection = cursor.selection_start.is_some();
    match action {
        KeyAction::Copy | KeyAction::Cut => selection_safe(buffer, cursor),
        KeyAction::Paste => {
            if has_selection && !selection_safe(buffer, cursor) {
                return false;
            }
            if clipboard.as_str().is_empty() {
                true
            } else {
                in_text_after_delete(buffer, cursor, clipboard)
            }
        },
        KeyAction::DeleteWordBackward => if has_selection {
            selection_safe(buffer, cursor)
        } else {
            let mut c2 = *cursor;
            c2.move_word_left(buffer);
            within_text(buffer, cursor.position) && checked_index(buffer, c2.position).is_some()
        },
        KeyAction::Backspace => if has_selection {
            selection_safe(buffer, cursor)
        } else if cursor.position.line > 0 || cursor.position.column > 0 {
            let mut c2 = *cursor;
            c2.move_left(buffer);
            checked_index(buffer, c2.position).is_some()
        } else {
            true
        },
        KeyAction::DeleteWordForward => if has_selection {
            selection_safe(buffer, cursor)
        } else {
            let mut c2 = *cursor;
            c2.move_word_right(buffer);
            checked_index(buffer, cursor.position).is_some() && within_text(buffer, c2.position)
        },
        KeyAction::Delete => if has_selection {
            selection_safe(buffer, cursor)
        } else {
            checked_index(buffer, cursor.position).is_some()
        },
        KeyAction::Enter | KeyAction::Insert(_) => {
            if has_selection && !selection_safe(buffer, cursor) {
                return false;
            }
            in_text_after_delete(buffer, cursor, clipboard)
        },
        _ => true,
    }
}

} // verus!
