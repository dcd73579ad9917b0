//! Keys typed while a dialog or the file picker holds the input: the
//! warning dialog, the input dialog of file operations, and the picker.
use vstd::prelude::*;
use crate::keyboard::{KeyCode, KeyEvent};
use crate::menu::{MenuState, InputDialogState};
use crate::picker::{PickerView, file_item_view};
use crate::field_edit::{replaced_bytes, removed_at_byte, inc, inc_exec, replace_bytes, remove_at_byte};
use crate::text::utf8_len;
use crate::chars::{char_is_whitespace, is_whitespace};
use crate::ui_state::{is_separator, is_word_separator};
use crate::tree::DirListing;
use crate::tree_view::refreshed;
use crate::tab::str_to_string;
use crate::messages::append;
use crate::editor_app::{App, AppRequest, sat_add};

verus! {

/// What a key does in the warning dialog.
#[derive(Debug, Clone, Copy, PartialEq, Eq, Structural)]
pub enum WarningKey {
    Cancel,
    Confirm,
    Toggle,
    Yes,
    No,
    Other,
}

/// What `key` does in the warning dialog: Esc or Ctrl+Q cancels, Enter
/// confirms, Left and Right switch the button, Y and N pick one.
pub open spec fn warning_key(key: KeyEvent) -> WarningKey {
    let m = key.modifiers;
    let none = !m.shift && !m.control && !m.alt && !m.super_key && !m.hyper && !m.meta;
    let ctrl = !m.shift && m.control && !m.alt && !m.super_key && !m.hyper && !m.meta;
    match key.code {
        KeyCode::Esc => if none {
            WarningKey::Cancel
        } else {
            WarningKey::Other
        },
        KeyCode::Char(c) => if ctrl && c == 'q' {
            WarningKey::Cancel
        } else if none && (c == 'y' || c == 'Y') {
            WarningKey::Yes
        } else if none && (c == 'n' || c == 'N') {
            WarningKey::No
        } else {
            WarningKey::Other
        },
        KeyCode::Enter => if none {
            WarningKey::Confirm
        } else {
            WarningKey::Other
        },
        KeyCode::Left | KeyCode::Right => if none {
            WarningKey::Toggle
        } else {
            WarningKey::Other
        },
        _ => WarningKey::Other,
    }
}

/// What `key` does in the warning dialog (see `warning_key`).
pub fn classify_warning_key(key: KeyEvent) -> (k: WarningKey)
    ensures
        k == warning_key(key),
{
    let none = key.modifiers.is_none();
    let ctrl = key.modifiers.is_control_only();
    match key.code {
        KeyCode::Esc => if none {
            WarningKey::Cancel
        } else {
            WarningKey::Other
        },
        KeyCode::Char(c) => if ctrl && c == 'q' {
            WarningKey::Cancel
        } else if none && (c == 'y' || c == 'Y') {
            WarningKey::Yes
        } else if none && (c == 'n' || c == 'N') {
            WarningKey::No
        } else {
            WarningKey::Other
        },
        KeyCode::Enter => if none {
            WarningKey::Confirm
        } else {
            WarningKey::Other
        },
        KeyCode::Left | KeyCode::Right => if none {
            WarningKey::Toggle
        } else {
            WarningKey::Other
        },
        _ => WarningKey::Other,
    }
}

/// Whether `b` and `r` are `a` and the request after the key `k` in the
/// warning dialog of `a` (a dialog being shown). Cancelling drops the
/// dialog and the pending deletion; confirming drops the dialog, and, in a
/// question whose Yes button is selected, asks to delete the pending path.
pub open spec fn warning_key_done(a: App, b: App, k: WarningKey, r: Option<AppRequest>) -> bool {
    let info = a.warning_is_info;
    let sel = a.warning_selected_button;
    match k {
        WarningKey::Cancel => r is None && b == (App {
            warning_message: None,
            pending_delete_path: None,
            ..a
        }),
        WarningKey::Confirm => if info {
            r is None && b == (App { warning_message: None, ..a })
        } else if sel == 1 && a.pending_delete_path is Some {
            &&& r matches Some(AppRequest::Delete(p)) && p == a.pending_delete_path->0
            &&& b == (App {
                warning_message: None,
                warning_selected_button: 0,
                pending_delete_path: None,
                ..a
            })
        } else {
            r is None && b == (App { warning_message: None, warning_selected_button: 0, ..a })
        },
        WarningKey::Toggle => r is None && b == if info {
            a
        } else {
            App { warning_selected_button: (1 - sel) as usize, ..a }
        },
        WarningKey::Yes => r is None && b == if info {
            a
        } else {
            App { warning_selected_button: 1, ..a }
        },
        WarningKey::No => r is None && b == if info {
            a
        } else {
            App { warning_selected_button: 0, ..a }
        },
        WarningKey::Other => r is None && b == a,
    }
}

/// Whether switching the button of the warning dialog of `a` with `key`
/// stays within its two buttons: a toggle in a shown question needs the
/// selected button to be one of them; every other key takes any index,
/// treating one other than 1 as "No".
pub open spec fn toggle_in_range(a: App, key: KeyEvent) -> bool {
    a.warning_message is Some && !a.warning_is_info && warning_key(key) == WarningKey::Toggle
        ==> a.warning_selected_button <= 1
}

/// What a key does in the input dialog.
#[derive(Debug, Clone, Copy, PartialEq, Eq, Structural)]
pub enum DialogKey {
    Cancel,
    Confirm,
    Type(char),
    Backspace,
    Delete,
    Left,
    Right,
    Home,
    End,
    SelectAll,
    Other,
}

/// What `key` does in the input dialog.
pub open spec fn dialog_key(key: KeyEvent) -> DialogKey {
    let m = key.modifiers;
    let none = !m.shift && !m.control && !m.alt && !m.super_key && !m.hyper && !m.meta;
    let shift = m.shift && !m.control && !m.alt && !m.super_key && !m.hyper && !m.meta;
    let ctrl = !m.shift && m.control && !m.alt && !m.super_key && !m.hyper && !m.meta;
    match key.code {
        KeyCode::Esc => if none {
            DialogKey::Cancel
        } else {
            DialogKey::Other
        },
        KeyCode::Enter => if none {
            DialogKey::Confirm
        } else {
            DialogKey::Other
        },
        KeyCode::Char(c) => if none || shift {
            DialogKey::Type(c)
        } else if ctrl && c == 'a' {
            DialogKey::SelectAll
        } else {
            DialogKey::Other
        },
        KeyCode::Backspace => if none {
            DialogKey::Backspace
        } else {
            DialogKey::Other
        },
        KeyCode::Delete => if none {
            DialogKey::Delete
        } else {
            DialogKey::Other
        },
        KeyCode::Left => if none {
            DialogKey::Left
        } else {
            DialogKey::Other
        },
        KeyCode::Right => if none {
            DialogKey::Right
        } else {
            DialogKey::Other
        },
        KeyCode::Home => if none {
            DialogKey::Home
        } else {
            DialogKey::Other
        },
        KeyCode::End => if none {
            DialogKey::End
        } else {
            DialogKey::Other
        },
        _ => DialogKey::Other,
    }
}

fn classify_dialog_key(key: KeyEvent) -> (k: DialogKey)
    ensures
        k == dialog_key(key),
{
    let none = key.modifiers.is_none();
    let shift = key.modifiers.is_shift_only();
    let ctrl = key.modifiers.is_control_only();
    match key.code {
        KeyCode::Esc => if none {
            DialogKey::Cancel
        } else {
            DialogKey::Other
        },
        KeyCode::Enter => if none {
            DialogKey::Confirm
        } else {
            DialogKey::Other
        },
        KeyCode::Char(c) => if none || shift {
            DialogKey::Type(c)
        } else if ctrl && c == 'a' {
            DialogKey::SelectAll
        } else {
            DialogKey::Other
        },
        KeyCode::Backspace => if none {
            DialogKey::Backspace
        } else {
            DialogKey::Other
        },
        KeyCode::Delete => if none {
            DialogKey::Delete
        } else {
            DialogKey::Other
        },
        KeyCode::Left => if none {
            DialogKey::Left
        } else {
            DialogKey::Other
        },
        KeyCode::Right => if none {
            DialogKey::Right
        } else {
            DialogKey::Other
        },
        KeyCode::Home => if none {
            DialogKey::Home
        } else {
            DialogKey::Other
        },
        KeyCode::End => if none {
            DialogKey::End
        } else {
            DialogKey::Other
        },
        _ => DialogKey::Other,
    }
}

/// The byte offset of the end of `s`, as `str::len` reports it.
pub open spec fn byte_len(s: Seq<char>) -> usize {
    utf8_len(s) as usize
}

/// The selected byte range of the input, its ends in order.
pub open spec fn selected_range(st: InputDialogState, anchor: usize) -> (usize, usize) {
    if anchor <= st.cursor_position {
        (anchor, st.cursor_position)
    } else {
        (st.cursor_position, anchor)
    }
}

/// Whether `b` is the input dialog `a` after the editing key `k`: typing
/// replaces the selection or inserts at the cursor, Backspace and Delete
/// remove the selection or the char before or after the cursor, the arrows,
/// Home and End move the cursor (by bytes) and drop the selection, Ctrl+A
/// selects all. An edit at offsets that are no char boundaries leaves the
/// dialog as it is.
pub open spec fn dialog_key_done(a: InputDialogState, b: InputDialogState, k: DialogKey) -> bool {
    let s = a.input@;
    let cur = a.cursor_position;
    match k {
        DialogKey::Type(c) => match a.selection_start {
            Some(anchor) => {
                let (start, end) = selected_range(a, anchor);
                match replaced_bytes(s, start as int, end as int, seq![c]) {
                    Some(q) => b.input@ == q && b == (InputDialogState {
                        input: b.input,
                        cursor_position: inc(start),
                        selection_start: None,
                        ..a
                    }),
                    None => b == a,
                }
            },
            None => match replaced_bytes(s, cur as int, cur as int, seq![c]) {
                Some(q) => b.input@ == q && b == (InputDialogState {
                    input: b.input,
                    cursor_position: inc(cur),
                    ..a
                }),
                None => b == a,
            },
        },
        DialogKey::Backspace | DialogKey::Delete => match a.selection_start {
            Some(anchor) => {
                let (start, end) = selected_range(a, anchor);
                match replaced_bytes(s, start as int, end as int, Seq::empty()) {
                    Some(q) => b.input@ == q && b == (InputDialogState {
                        input: b.input,
                        cursor_position: start,
                        selection_start: None,
                        ..a
                    }),
                    None => b == a,
                }
            },
            None => if k == DialogKey::Backspace {
                if cur > 0 {
                    match removed_at_byte(s, cur - 1) {
                        Some(q) => b.input@ == q && b == (InputDialogState {
                            input: b.input,
                            cursor_position: (cur - 1) as usize,
                            ..a
                        }),
                        None => b == a,
                    }
                } else {
                    b == a
                }
            } else {
                match removed_at_byte(s, cur as int) {
                    Some(q) => b.input@ == q && b == (InputDialogState { input: b.input, ..a }),
                    None => b == a,
                }
            },
        },
        DialogKey::Left => b == (InputDialogState {
            cursor_position: if cur > 0 {
                (cur - 1) as usize
            } else {
                cur
            },
            selection_start: None,
            ..a
        }),
        DialogKey::Right => b == (InputDialogState {
            cursor_position: if cur < byte_len(s) {
                (cur + 1) as usize
            } else {
                cur
            },
            selection_start: None,
            ..a
        }),
        DialogKey::Home => b == (InputDialogState {
            cursor_position: 0,
            selection_start: None,
            ..a
        }),
        DialogKey::End => b == (InputDialogState {
            cursor_position: byte_len(s),
            selection_start: None,
            ..a
        }),
        DialogKey::SelectAll => b == (InputDialogState {
            cursor_position: byte_len(s),
            selection_start: Some(0),
            ..a
        }),
        _ => b == a,
    }
}

/// Applies an editing key to the input dialog.
fn edit_dialog(st: &mut InputDialogState, k: DialogKey)
    ensures
        dialog_key_done(*old(st), *final(st), k),
{
    let cur = st.cursor_position;
    match k {
        DialogKey::Type(c) => {
            let mut one = String::new();
            crate::chars::string_push(&mut one, c);
            assert(one@ =~= seq![c]);
            match st.selection_start {
                Some(anchor) => {
                    let (start, end) = if anchor <= cur {
                        (anchor, cur)
                    } else {
                        (cur, anchor)
                    };
                    if replace_bytes(&mut st.input, start, end, one.as_str()) {
                        st.cursor_position = inc_exec(start);
                        st.selection_start = None;
                    }
                },
                None => {
                    if replace_bytes(&mut st.input, cur, cur, one.as_str()) {
                        st.cursor_position = inc_exec(cur);
                    }
                },
            }
        },
        DialogKey::Backspace | DialogKey::Delete => {
            match st.selection_start {
                Some(anchor) => {
                    let (start, end) = if anchor <= cur {
                        (anchor, cur)
                    } else {
                        (cur, anchor)
                    };
                    let empty = String::new();
                    if replace_bytes(&mut st.input, start, end, empty.as_str()) {
                        st.cursor_position = start;
                        st.selection_start = None;
                    }
                },
                None => {
                    if k == DialogKey::Backspace {
                        if cur > 0 {
                            if remove_at_byte(&mut st.input, cur - 1) {
                                st.cursor_position = cur - 1;
                            }
                        }
                    } else {
                        remove_at_byte(&mut st.input, cur);
                    }
                },
            }
        },
        DialogKey::Left => {
            if cur > 0 {
                st.cursor_position = cur - 1;
            }
            st.selection_start = None;
        },
        DialogKey::Right => {
            if cur < st.input.as_str().len() {
                st.cursor_position = cur + 1;
            }
            st.selection_start = None;
        },
        DialogKey::Home => {
            st.cursor_position = 0;
            st.selection_start = None;
        },
        DialogKey::End => {
            st.cursor_position = st.input.as_str().len();
            st.selection_start = None;
        },
        DialogKey::SelectAll => {
            st.selection_start = Some(0);
            st.cursor_position = st.input.as_str().len();
        },
        _ => {},
    }
}

/// What a key does in the file picker.
#[derive(Debug, Clone, Copy, PartialEq, Eq, Structural)]
pub enum PickerKey {
    Quit,
    Close,
    Open,
    GoUp,
    SelectPrev,
    SelectNext,
    Other,
}

/// What `key` does in the file picker: Ctrl+Q quits, Esc closes, Enter or
/// Right opens the selected entry, Left or Backspace goes to the parent
/// directory, Up and Down move the selection.
pub open spec fn picker_key(key: KeyEvent) -> PickerKey {
    let m = key.modifiers;
    let none = !m.shift && !m.control && !m.alt && !m.super_key && !m.hyper && !m.meta;
    let ctrl = !m.shift && m.control && !m.alt && !m.super_key && !m.hyper && !m.meta;
    match key.code {
        KeyCode::Char(c) => if ctrl && c == 'q' {
            PickerKey::Quit
        } else {
            PickerKey::Other
        },
        KeyCode::Esc => if none {
            PickerKey::Close
        } else {
            PickerKey::Other
        },
        KeyCode::Enter | KeyCode::Right => if none {
            PickerKey::Open
        } else {
            PickerKey::Other
        },
        KeyCode::Left | KeyCode::Backspace => if none {
            PickerKey::GoUp
        } else {
            PickerKey::Other
        },
        KeyCode::Up => if none {
            PickerKey::SelectPrev
        } else {
            PickerKey::Other
        },
        KeyCode::Down => if none {
            PickerKey::SelectNext
        } else {
            PickerKey::Other
        },
        _ => PickerKey::Other,
    }
}

fn classify_picker_key(key: KeyEvent) -> (k: PickerKey)
    ensures
        k == picker_key(key),
{
    let none = key.modifiers.is_none();
    let ctrl = key.modifiers.is_control_only();
    match key.code {
        KeyCode::Char(c) => if ctrl && c == 'q' {
            PickerKey::Quit
        } else {
            PickerKey::Other
        },
        KeyCode::Esc => if none {
            PickerKey::Close
        } else {
            PickerKey::Other
        },
        KeyCode::Enter | KeyCode::Right => if none {
            PickerKey::Open
        } else {
            PickerKey::Other
        },
        KeyCode::Left | KeyCode::Backspace => if none {
            PickerKey::GoUp
        } else {
            PickerKey::Other
        },
        KeyCode::Up => if none {
            PickerKey::SelectPrev
        } else {
            PickerKey::Other
        },
        KeyCode::Down => if none {
            PickerKey::SelectNext
        } else {
            PickerKey::Other
        },
        _ => PickerKey::Other,
    }
}

/// The message after deleting `path`, a directory or a file.
pub open spec fn deleted_message(path: Seq<char>, was_dir: bool) -> Seq<char> {
    if was_dir {
        "Deleted directory: "@ + path
    } else {
        "Deleted file: "@ + path
    }
}

/// Whether `b` and `r` are `a` and the request after `key` in the input
/// dialog, if it is open.
pub open spec fn dialog_key_handled(a: App, b: App, key: KeyEvent, r: Option<AppRequest>) -> bool {
    match a.menu_system.state {
        MenuState::InputDialog(st) => match dialog_key(key) {
            DialogKey::Cancel => r is None && b.menu_system.state is Closed
                && b == (App { menu_system: b.menu_system, ..a }),
            DialogKey::Confirm => {
                &&& r matches Some(AppRequest::FileOperation { operation, target, input })
                    && operation == st.operation && target == st.target_path && input
                    == st.input
                &&& b.menu_system.state is Closed
                &&& b == (App {
                    menu_system: b.menu_system,
                    ..a
                })
            },
            k => {
                &&& r is None
                &&& b.menu_system.state matches MenuState::InputDialog(st2)
                    && dialog_key_done(st, st2, k)
                &&& b == (App {
                    menu_system: b.menu_system,
                    ..a
                })
            },
        },
        _ => r is None && b == a,
    }
}

/// Whether `b` and `r` are `a` and the request after `key` in the file
/// picker, if it is open.
pub open spec fn picker_key_handled(a: App, b: App, key: KeyEvent, r: Option<AppRequest>) -> bool {
    match a.menu_system.state {
        MenuState::FilePicker(p) => match picker_key(key) {
            PickerKey::Quit => r is None && b.menu_system.state is Closed
                && App::quit_asked(
                App { menu_system: b.menu_system, ..a },
                b,
            ),
            PickerKey::Close => r is None && b.menu_system.state is Closed
                && b == (App { menu_system: b.menu_system, ..a }),
            PickerKey::Open => if p@.selected_index < p@.filtered.len() {
                let item = p@.filtered[p@.selected_index as int];
                if item.is_dir {
                    r matches Some(AppRequest::EnterPickerDirectory(d)) && d@ == item.path
                        && b == a
                } else {
                    &&& r matches Some(AppRequest::OpenFile(f)) && f@ == item.path
                    &&& b.menu_system.state is Closed
                    &&& b == (App {
                        menu_system: b.menu_system,
                        ..a
                    })
                }
            } else {
                r is None && b == a
            },
            PickerKey::GoUp => r matches Some(AppRequest::PickerGoUp) && b
                == a,
            PickerKey::SelectPrev => {
                &&& r is None
                &&& b.menu_system.state matches MenuState::FilePicker(q) && (if p@.selected_index > 0 {
                    q@ == (PickerView {
                        selected_index: (p@.selected_index - 1) as usize,
                        hovered_index: None,
                        ..p@
                    })
                } else {
                    q@ == p@
                })
                &&& b == (App {
                    menu_system: b.menu_system,
                    ..a
                })
            },
            PickerKey::SelectNext => {
                &&& r is None
                &&& b.menu_system.state matches MenuState::FilePicker(q) && (if p@.selected_index + 1 < p@.filtered.len() {
                    q@ == (PickerView {
                        selected_index: (p@.selected_index + 1) as usize,
                        hovered_index: None,
                        ..p@
                    })
                } else {
                    q@ == p@
                })
                &&& b == (App {
                    menu_system: b.menu_system,
                    ..a
                })
            },
            PickerKey::Other => r is None && b == a,
        },
        _ => r is None && b == a,
    }
}

impl App {
    /// Handles a key in the warning dialog (see `warning_key`), if one is
    /// shown; the request asks to delete the path the dialog was about.
    #[verifier::spinoff_prover]
    #[verifier::rlimit(40)]
    pub fn handle_warning_key(&mut self, key: KeyEvent) -> (r: Option<AppRequest>)
        requires
            toggle_in_range(*old(self), key),
        ensures
            old(self).warning_message is Some ==> warning_key_done(
                *old(self),
                *final(self),
                warning_key(key),
                r,
            ),
            old(self).warning_message is None ==> *final(self) == *old(self) && r is None,
    {
        if self.warning_message.is_none() {
            return None;
        }
        match classify_warning_key(key) {
            WarningKey::Cancel => {
                self.warning_message = None;
                self.pending_delete_path = None;
                None
            },
            WarningKey::Confirm => {
                if self.warning_is_info {
                    self.warning_message = None;
                    return None;
                }
                let mut r = None;
                if self.warning_selected_button == 1 {
                    match self.pending_delete_path.take() {
                        Some(p) => {
                            r = Some(AppRequest::Delete(p));
                        },
                        None => {},
                    }
                }
                self.warning_message = None;
                self.warning_selected_button = 0;
                r
            },
            WarningKey::Toggle => {
                if !self.warning_is_info {
                    self.warning_selected_button = 1 - self.warning_selected_button;
                }
                None
            },
            WarningKey::Yes => {
                if !self.warning_is_info {
                    self.warning_selected_button = 1;
                }
                None
            },
            WarningKey::No => {
                if !self.warning_is_info {
                    self.warning_selected_button = 0;
                }
                None
            },
            WarningKey::Other => None,
        }
    }

    /// Reports the deletion of `path` (a directory if `was_dir`): on
    /// success says so for three seconds after `now_ms` and refreshes the
    /// file tree from the listings `fs` (`root_is_dir` telling whether its
    /// root is still a directory); on failure shows the error for five
    /// seconds.
    pub fn delete_done(
        &mut self,
        path: &str,
        was_dir: bool,
        error: Option<String>,
        now_ms: u64,
        root_is_dir: bool,
        fs: &[DirListing],
    )
        ensures
            match error {
                None => {
                    &&& final(self).status_message is Some
                    &&& final(self).status_message->0@ == deleted_message(path@, was_dir)
                    &&& final(self).status_message_expires == Some(sat_add(now_ms, 3000))
                    &&& match old(self).tree_view {
                        Some(t) => final(self).tree_view is Some && final(self).tree_view->0@
                            == refreshed(t@, root_is_dir, fs@),
                        None => final(self).tree_view is None,
                    }
                    &&& *final(self) == (App {
                        status_message: final(self).status_message,
                        status_message_expires: final(self).status_message_expires,
                        tree_view: final(self).tree_view,
                        ..*old(self)
                    })
                },
                Some(e) => {
                    &&& final(self).status_message matches Some(m) && m@ == "Delete failed: "@
                        + e@
                    &&& *final(self) == (App {
                        status_message: final(self).status_message,
                        status_message_expires: Some(sat_add(now_ms, 5000)),
                        ..*old(self)
                    })
                },
            },
    {
        match error {
            None => {
                let mut m = if was_dir {
                    str_to_string("Deleted directory: ")
                } else {
                    str_to_string("Deleted file: ")
                };
                append(&mut m, path);
                assert(m@ == deleted_message(path@, was_dir));
                self.set_status_message(m, now_ms, 3000);
                let ghost mid = *self;
                match &mut self.tree_view {
                    Some(t) => {
                        t.refresh(root_is_dir, fs);
                    },
                    None => {},
                }
                assert(*self == (App { tree_view: self.tree_view, ..mid }));
                assert(self.status_message_expires == Some(sat_add(now_ms, 3000)));
            },
            Some(e) => {
                let mut m = str_to_string("Delete failed: ");
                append(&mut m, e.as_str());
                self.set_status_message(m, now_ms, 5000);
            },
        }
    }

    /// Shows `message` in a dialog with an OK button only.
    pub fn show_info(&mut self, message: String)
        ensures
            *final(self) == (App {
                warning_message: Some(message),
                warning_selected_button: 0,
                warning_is_info: true,
                ..*old(self)
            }),
    {
        self.warning_message = Some(message);
        self.warning_selected_button = 0;
        self.warning_is_info = true;
    }

    /// Handles a key in the input dialog (see `dialog_key`), if it is open:
    /// Esc closes it, Enter closes it and asks to carry out its operation
    /// on its target with the input, other keys edit the input.
    pub fn handle_input_dialog_key(&mut self, key: KeyEvent) -> (r: Option<AppRequest>)
        ensures
            dialog_key_handled(*old(self), *final(self), key, r),
    {
        let k = classify_dialog_key(key);
        match &mut self.menu_system.state {
            MenuState::InputDialog(st) => {
                match k {
                    DialogKey::Cancel => {
                        self.menu_system.close();
                        None
                    },
                    DialogKey::Confirm => {
                        let input = st.input.clone();
                        let operation = st.operation.clone();
                        let target = st.target_path.clone();
                        self.menu_system.close();
                        Some(AppRequest::FileOperation { operation, target, input })
                    },
                    _ => {
                        edit_dialog(st, k);
                        None
                    },
                }
            },
            _ => None,
        }
    }

    /// Handles a key in the file picker (see `picker_key`), if it is open.
    /// Quitting closes the picker and asks about unsaved changes; opening a
    /// directory or going up comes back as a request to list it, opening a
    /// file closes the picker and asks to read it.
    #[verifier::spinoff_prover]
    #[verifier::rlimit(40)]
    pub fn handle_file_picker_key(&mut self, key: KeyEvent) -> (r: Option<AppRequest>)
        ensures
            picker_key_handled(*old(self), *final(self), key, r),
    {
        let k = classify_picker_key(key);
        let opened = match &mut self.menu_system.state {
            MenuState::FilePicker(p) => {
                match k {
                    PickerKey::Quit | PickerKey::Close => None,
                    PickerKey::Open => {
                        match p.get_selected_item() {
                            Some(item) => {
                                if item.is_dir {
                                    return Some(AppRequest::EnterPickerDirectory(item.path.clone()));
                                } else {
                                    Some(item.path.clone())
                                }
                            },
                            None => {
                                return None;
                            },
                        }
                    },
                    PickerKey::GoUp => {
                        return Some(AppRequest::PickerGoUp);
                    },
                    PickerKey::SelectPrev => {
                        p.move_selection_up();
                        return None;
                    },
                    PickerKey::SelectNext => {
                        p.move_selection_down();
                        return None;
                    },
                    PickerKey::Other => {
                        return None;
                    },
                }
            },
            _ => {
                return None;
            },
        };
        self.menu_system.close();
        match opened {
            Some(path) => Some(AppRequest::OpenFile(path)),
            None => {
                if k == PickerKey::Quit {
                    self.handle_quit();
                }
                None
            },
        }
    }
}


/// Whether `c` belongs to a word of the input: no whitespace, no
/// separator.
pub open spec fn in_input_word(c: char) -> bool {
    !char_is_whitespace(c) && !is_separator(c)
}

/// Where the word that ends at char `i` of `s` starts.
pub open spec fn word_back(s: Seq<char>, i: int) -> int
    decreases i,
{
    if i > 0 && i <= s.len() && in_input_word(s[i - 1]) {
        word_back(s, i - 1)
    } else {
        i
    }
}

/// Where the word that starts at char `i` of `s` ends.
pub open spec fn word_fwd(s: Seq<char>, i: int) -> int
    decreases s.len() - i,
{
    if 0 <= i < s.len() && in_input_word(s[i]) {
        word_fwd(s, i + 1)
    } else {
        i
    }
}

/// The input dialog with the word around its cursor selected, the cursor
/// (taken as a char index, kept within the input) at its end; nothing for
/// an empty input.
pub open spec fn word_selected(st: InputDialogState) -> InputDialogState {
    let s = st.input@;
    let pos: int = if (st.cursor_position as int) < s.len() {
        st.cursor_position as int
    } else {
        s.len() as int
    };
    if s.len() == 0 {
        st
    } else {
        InputDialogState {
            selection_start: Some(word_back(s, pos) as usize),
            cursor_position: word_fwd(s, pos) as usize,
            ..st
        }
    }
}

/// `s` after removing, `n` times, the char that starts at byte `start`
/// (while there is one there).
pub open spec fn removed_times(s: Seq<char>, start: int, n: nat) -> Seq<char>
    decreases n,
{
    if n == 0 {
        s
    } else {
        match removed_at_byte(s, start) {
            Some(t) => removed_times(t, start, (n - 1) as nat),
            None => s,
        }
    }
}

/// The input dialog with its selection, if any, deleted char by char from
/// its start; the cursor at the start.
pub open spec fn selection_deleted(st: InputDialogState, input: Seq<char>) -> bool {
    match st.selection_start {
        Some(anchor) => {
            let (start, end) = selected_range(st, anchor);
            input == removed_times(st.input@, start as int, (end - start) as nat)
        },
        None => input == st.input@,
    }
}

impl App {
    /// Selects the word around the cursor of the input dialog (see
    /// `word_selected`).
    pub fn select_word_at_cursor(input_state: &mut InputDialogState)
        ensures
            *final(input_state) == word_selected(*old(input_state)),
    {
        let chars = crate::chars::str_to_chars(input_state.input.as_str());
        let pos = if input_state.cursor_position < chars.len() {
            input_state.cursor_position
        } else {
            chars.len()
        };
        if chars.len() == 0 {
            return;
        }
        let mut start = pos;
        while start > 0 && !is_whitespace(chars[start - 1]) && !is_word_separator(chars[start - 1])
            invariant
                start <= pos <= chars.len(),
                word_back(chars@, pos as int) == word_back(chars@, start as int),
            decreases start,
        {
            start = start - 1;
        }
        let mut end = pos;
        while end < chars.len() && !is_whitespace(chars[end]) && !is_word_separator(chars[end])
            invariant
                pos <= end <= chars.len(),
                word_fwd(chars@, pos as int) == word_fwd(chars@, end as int),
            decreases chars.len() - end,
        {
            end = end + 1;
        }
        input_state.selection_start = Some(start);
        input_state.cursor_position = end;
    }

    /// Deletes the selection of the input dialog, if any (see
    /// `selection_deleted`), and puts the cursor at its start.
    pub fn delete_input_selection(input_state: &mut InputDialogState)
        ensures
            selection_deleted(*old(input_state), final(input_state).input@),
            match old(input_state).selection_start {
                Some(anchor) => *final(input_state) == (InputDialogState {
                    input: final(input_state).input,
                    cursor_position: selected_range(*old(input_state), anchor).0,
                    selection_start: None,
                    ..*old(input_state)
                }),
                None => *final(input_state) == *old(input_state),
            },
    {
        match input_state.selection_start {
            Some(anchor) => {
                let cur = input_state.cursor_position;
                let (start, end) = if anchor < cur {
                    (anchor, cur)
                } else {
                    (cur, anchor)
                };
                let mut text = input_state.input.clone();
                let ghost s0 = text@;
                let mut k: usize = start;
                let mut stopped = false;
                while k < end
                    invariant
                        start <= k <= end,
                        stopped ==> removed_times(s0, start as int, (end - start) as nat) == text@,
                        !stopped ==> removed_times(s0, start as int, (end - start) as nat)
                            == removed_times(text@, start as int, (end - k) as nat),
                    decreases end - k,
                {
                    if !stopped {
                        if !remove_at_byte(&mut text, start) {
                            stopped = true;
                        }
                    }
                    k = k + 1;
                }
                input_state.input = text;
                input_state.cursor_position = start;
                input_state.selection_start = None;
            },
            None => {},
        }
    }
}

} // verus!
