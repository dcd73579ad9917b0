//! Mouse events: clicks on dialogs, menus, the find bar, the sidebar, the
//! file tree and picker, the tab bar and the text; scrolling; selecting
//! text by dragging.
use vstd::prelude::*;
use crate::keyboard::{KeyModifiers, EditorCommand};
use crate::cursor::{Cursor, Position, word_selection};
use crate::rope_buffer::RopeBuffer;
use crate::text::{line_count, line_text};
use crate::tab::{Tab, FindReplaceState, FindFocusedField};
use crate::tree_view::{TreeViewState, visible_items};
use crate::picker::PickerView;
use crate::menu::{MenuState, InputDialogState};
use crate::dialog_keys::byte_len;
use crate::ui_state::FocusMode;
use crate::markdown::{MarkdownWidget, markdown_lines};
use crate::tab::is_markdown_spec;
use crate::find_bar::with_find;
use crate::editor_app::{App, AppRequest, active_changed};

verus! {

#[derive(Debug, Clone, Copy, PartialEq, Eq, Structural)]
pub enum MouseButton {
    Left,
    Right,
    Middle,
}

#[derive(Debug, Clone, Copy, PartialEq, Eq, Structural)]
pub enum MouseEventKind {
    Down(MouseButton),
    Up(MouseButton),
    Drag(MouseButton),
    Moved,
    ScrollDown,
    ScrollUp,
    ScrollLeft,
    ScrollRight,
}

/// A mouse event at a cell of the terminal.
#[derive(Debug, Clone, Copy, PartialEq, Eq, Structural)]
pub struct MouseEvent {
    pub kind: MouseEventKind,
    pub column: u16,
    pub row: u16,
    pub modifiers: KeyModifiers,
}

/// `a - b`, or 0 below it.
pub open spec fn sub0(a: int, b: int) -> int {
    if a >= b {
        a - b
    } else {
        0
    }
}

/// The button of the warning dialog at cell (`x`, `y`) of a terminal `tw`
/// wide and `th` high: 0 for OK or No, 1 for Yes. The dialog is at most 50
/// wide (four less than the terminal), 6 high for an information and 7 for
/// a question, centered; the buttons are on its last row but one.
pub open spec fn dialog_button_at(tw: int, th: int, info: bool, x: int, y: int) -> Option<usize> {
    let mw = if sub0(tw, 4) < 50 {
        sub0(tw, 4)
    } else {
        50
    };
    let mh = if info {
        6int
    } else {
        7int
    };
    let mx = sub0(tw, mw) / 2;
    let my = sub0(th, mh) / 2;
    if x < mx || x >= mx + mw || y < my || y >= my + mh {
        None
    } else if y != my + sub0(mh, 2) {
        None
    } else if info {
        let bx = mx + sub0(mw / 2, 2);
        if bx <= x < bx + 4 {
            Some(0)
        } else {
            None
        }
    } else {
        let nx = mx + sub0(mw / 3, 2);
        let yx = mx + sub0(2 * mw / 3, 2);
        if nx <= x < nx + 4 {
            Some(0)
        } else if yx <= x < yx + 5 {
            Some(1)
        } else {
            None
        }
    }
}

/// The text position under the cell (`column`, `row`) of the text view
/// of `a` (its first row below the tab bar, its last above the status
/// line), the active tab being scrolled by `vp` and holding `s`: the line
/// and char column, within the line; below the text, the end of the last
/// line.
pub open spec fn text_position(th: int, vp: (usize, usize), s: Seq<char>, column: int, row: int) -> Option<(usize, usize)> {
    if row == 0 || row >= sub0(th, 1) {
        None
    } else {
        let line = row - 1 + vp.0;
        let n = line_count(s);
        if line >= n {
            let last = sub0(n as int, 1);
            Some((last as usize, line_text(s, last).len() as usize))
        } else {
            let len = line_text(s, line).len();
            Some((line as usize, if column >= len { len as usize } else { column as usize }))
        }
    }
}

/// The scroll of the active tab of `a`, (0, 0) without an active editor
/// tab.
pub open spec fn active_viewport(a: App) -> (usize, usize) {
    let i = a.tab_manager.active();
    let tabs = a.tab_manager.tab_list();
    if i < tabs.len() && tabs[i as int].is_editor() {
        tabs[i as int].viewport_spec()
    } else {
        (0, 0)
    }
}

/// Whether `b` is `a` after a mouse event on the warning dialog: a click
/// on OK or No closes it (a question also forgets what it was about), a
/// click on Yes closes it and asks to delete the pending path, if any.
pub open spec fn dialog_clicked(a: App, b: App, m: MouseEvent, r: Option<AppRequest>) -> bool {
    let button = if a.warning_message is Some {
        dialog_button_at(
            a.terminal_size.0 as int,
            a.terminal_size.1 as int,
            a.warning_is_info,
            m.column as int,
            m.row as int,
        )
    } else {
        None
    };
    if m.kind == MouseEventKind::Down(MouseButton::Left) && button == Some(0usize) {
        r is None && b == if a.warning_is_info {
            App { warning_message: None, ..a }
        } else {
            App { warning_message: None, pending_delete_path: None, ..a }
        }
    } else if m.kind == MouseEventKind::Down(MouseButton::Left) && button == Some(1usize) {
        &&& b == (App { warning_message: None, pending_delete_path: None, ..a })
        &&& match a.pending_delete_path {
            Some(p) => r matches Some(AppRequest::Delete(q)) && q == p,
            None => r is None,
        }
    } else {
        r is None && b == a
    }
}

/// The new scroll acceleration: one more (at most five) when the last
/// scroll was less than 100 ms before `now_ms`, one otherwise.
pub open spec fn scroll_speed(last: Option<u64>, acc: usize, now_ms: u64) -> usize {
    match last {
        Some(t) => if sub0(now_ms as int, t as int) < 100 {
            if acc + 1 < 5 {
                (acc + 1) as usize
            } else {
                5
            }
        } else {
            1
        },
        None => 1,
    }
}

/// The tab `t` scrolled by `n` lines up or down, within a view `h` lines
/// high; other tabs stay as they are.
pub open spec fn wheel_scrolled(t: Tab, up: bool, n: usize, h: int) -> Tab {
    if t.is_editor() {
        let vp = t.viewport_spec();
        let max = sub0(line_count(t.text()) as int, h);
        let line: int = if up {
            sub0(vp.0 as int, n as int)
        } else if vp.0 + n < max {
            vp.0 + n
        } else {
            max
        };
        t.with_viewport((line as usize, vp.1))
    } else {
        t
    }
}

/// Whether `b` is `a` after a wheel event of kind `k` at `now_ms` over the
/// text: the scroll speeds up while scrolls follow each other, and an
/// editor tab scrolls by that many lines.
pub open spec fn editor_scrolled(a: App, b: App, k: MouseEventKind, now_ms: u64) -> bool {
    let i = a.tab_manager.active();
    let tabs = a.tab_manager.tab_list();
    if i < tabs.len() {
        let n = scroll_speed(a.last_scroll_time, a.scroll_acceleration, now_ms);
        let h = sub0(a.terminal_size.1 as int, 2);
        &&& b == (App {
            tab_manager: b.tab_manager,
            last_scroll_time: Some(now_ms),
            scroll_acceleration: n,
            ..a
        })
        &&& b.tab_manager.active() == i
        &&& b.tab_manager.tab_list() == tabs.update(
            i as int,
            match k {
                MouseEventKind::ScrollUp => wheel_scrolled(tabs[i as int], true, n, h),
                MouseEventKind::ScrollDown => wheel_scrolled(tabs[i as int], false, n, h),
                _ => tabs[i as int],
            },
        )
    } else {
        b == a
    }
}

/// The number of lines the text view shows for `t`: the preview lines of
/// a markdown tab in preview, the text lines of other editor tabs, none
/// for a terminal.
pub open spec fn content_lines(t: Tab) -> nat {
    if t.is_editor() && t.preview_spec() && is_markdown_spec(t.path_spec(), t.name_spec()) {
        markdown_lines(t.text()).len()
    } else if t.is_editor() {
        line_count(t.text())
    } else {
        0
    }
}

/// Whether the event is on the scrollbar of the text view of `a`: the
/// last column, between the tab bar and the status line, when the active
/// tab has more lines than the view.
pub open spec fn on_scrollbar(a: App, m: MouseEvent) -> bool {
    let i = a.tab_manager.active();
    let tabs = a.tab_manager.tab_list();
    &&& i < tabs.len()
    &&& content_lines(tabs[i as int]) > sub0(a.terminal_size.1 as int, 2)
    &&& m.column == sub0(a.terminal_size.0 as int, 1)
    &&& m.row > 0
    &&& m.row < sub0(a.terminal_size.1 as int, 1)
}

/// The text position under the event in the active editor tab of `a`.
pub open spec fn clicked_position(a: App, m: MouseEvent) -> Option<(usize, usize)> {
    let i = a.tab_manager.active();
    let tabs = a.tab_manager.tab_list();
    if i < tabs.len() && tabs[i as int].is_editor() {
        text_position(
            a.terminal_size.1 as int,
            tabs[i as int].viewport_spec(),
            tabs[i as int].text(),
            m.column as int,
            m.row as int,
        )
    } else {
        None
    }
}

/// The editor tab `t` with its cursor set to `c`.
pub open spec fn with_cursor(t: Tab, c: Cursor) -> Tab {
    t.with_state(
        t.buffer_spec(),
        c,
        t.viewport_spec(),
        t.is_modified(),
        t.find_state(),
        t.undo_vec(),
        t.redo_vec(),
    )
}

/// Whether `b` is `a` with its active tab replaced by `u` and the fields
/// the event changes replaced by those of `b`.
pub open spec fn active_set(a: App, b: App, u: Tab) -> bool {
    &&& b.tab_manager.active() == a.tab_manager.active()
    &&& b.tab_manager.tab_list() == a.tab_manager.tab_list().update(a.tab_manager.active() as int, u)
}

/// Whether `b` is `a` after a left click on the text: the cursor moves to
/// the clicked position and drops its selection, and selecting by
/// dragging starts; a second click at the same cell within 500 ms selects
/// the word there instead of remembering the click.
pub open spec fn text_clicked(a: App, b: App, m: MouseEvent, now_ms: u64) -> bool {
    match clicked_position(a, m) {
        Some((l, c)) => {
            let t = a.tab_manager.tab_list()[a.tab_manager.active() as int];
            let moved = Cursor {
                position: Position { line: l, column: c },
                selection_start: None,
                ..t.cursor_spec()
            };
            let double = match (a.last_click_time, a.last_click_pos) {
                (Some(t0), Some(p)) => sub0(now_ms as int, t0 as int) < 500 && p == (m.column, m.row),
                _ => false,
            };
            if double {
                &&& active_set(a, b, with_cursor(t, word_selection(moved, t.text())))
                &&& b == (App {
                    tab_manager: b.tab_manager,
                    mouse_selecting: true,
                    last_click_time: None,
                    ..a
                })
            } else {
                &&& active_set(a, b, with_cursor(t, moved))
                &&& b == (App {
                    tab_manager: b.tab_manager,
                    mouse_selecting: true,
                    last_click_time: Some(now_ms),
                    last_click_pos: Some((m.column, m.row)),
                    ..a
                })
            }
        },
        None => b == a,
    }
}

/// Whether `b` is `a` after dragging over the text: while selecting, the
/// cursor moves to the position under the mouse, the selection starting
/// where the cursor was if there was none.
pub open spec fn text_dragged(a: App, b: App, m: MouseEvent) -> bool {
    match clicked_position(a, m) {
        Some((l, c)) if a.mouse_selecting => {
            let t = a.tab_manager.tab_list()[a.tab_manager.active() as int];
            let k = t.cursor_spec();
            let extended = Cursor {
                selection_start: match k.selection_start {
                    Some(s) => Some(s),
                    None => Some(k.position),
                },
                position: Position { line: l, column: c },
                ..k
            };
            active_set(a, b, with_cursor(t, extended)) && b == (App { tab_manager: b.tab_manager, ..a })
        },
        _ => b == a,
    }
}

/// Whether `b` and `r` are `a` and the request after a mouse event on the
/// text view: on the scrollbar a press starts dragging it and a press or a
/// drag asks to scroll to the row, a release stops dragging; the wheel
/// scrolls; a left press moves the cursor, a drag selects, a release stops
/// selecting.
pub open spec fn editor_clicked(a: App, b: App, m: MouseEvent, now_ms: u64, r: Option<AppRequest>) -> bool {
    let sb = on_scrollbar(a, m);
    if sb && m.kind == MouseEventKind::Down(MouseButton::Left) {
        b == (App { scrollbar_dragging: true, ..a }) && r == Some(
            AppRequest::ScrollbarClick { row: m.row },
        )
    } else if sb && m.kind == MouseEventKind::Drag(MouseButton::Left) && a.scrollbar_dragging {
        b == a && r == Some(AppRequest::ScrollbarClick { row: m.row })
    } else if sb && m.kind == MouseEventKind::Up(MouseButton::Left) && a.scrollbar_dragging {
        b == (App { scrollbar_dragging: false, ..a }) && r is None
    } else {
        &&& r is None
        &&& match m.kind {
            MouseEventKind::ScrollUp | MouseEventKind::ScrollDown => editor_scrolled(a, b, m.kind, now_ms),
            MouseEventKind::Down(MouseButton::Left) => text_clicked(a, b, m, now_ms),
            MouseEventKind::Drag(MouseButton::Left) => text_dragged(a, b, m),
            MouseEventKind::Up(MouseButton::Left) => b == (App { mouse_selecting: false, ..a }),
            _ => b == a,
        }
    }
}

/// Whether `b` is `a` after a mouse event while a menu is open, and
/// `handled` tells whether the menu took it: a left press closes the menu,
/// a left release is taken.
pub open spec fn menu_clicked(a: App, b: App, m: MouseEvent, handled: bool) -> bool {
    if a.menu_system.state is MainMenu || a.menu_system.state is CurrentTabMenu
        || a.menu_system.state is TreeContextMenu {
        match m.kind {
            MouseEventKind::Down(MouseButton::Left) => handled && b.menu_system.state is Closed
                && b == (App { menu_system: b.menu_system, ..a }),
            MouseEventKind::Up(MouseButton::Left) => handled && b == a,
            _ => !handled && b == a,
        }
    } else {
        !handled && b == a
    }
}

/// Whether `b` is `a` after a mouse event on the file tree, and `handled`
/// tells whether the tree took it: a left press focuses the tree and
/// selects the item on the row of the press; left releases and right
/// presses are taken.
pub open spec fn tree_clicked(a: App, b: App, m: MouseEvent, handled: bool) -> bool {
    match a.tree_view {
        Some(t) => match m.kind {
            MouseEventKind::Down(MouseButton::Left) => {
                &&& handled
                &&& b == (App { focus_mode: FocusMode::TreeView, tree_view: b.tree_view, ..a })
                &&& b.tree_view matches Some(u) && u@ == (TreeViewState {
                    is_focused: true,
                    selected_index: if (m.row as int) < visible_items(t@).len() {
                        m.row as usize
                    } else {
                        t@.selected_index
                    },
                    ..t@
                })
            },
            MouseEventKind::Up(MouseButton::Left) | MouseEventKind::Down(MouseButton::Right) => handled
                && b == a,
            _ => !handled && b == a,
        },
        None => !handled && b == a,
    }
}

/// Whether `b` is `a` after a mouse event on the find bar, and `handled`
/// tells whether the bar took it: a left press on its row (the last but
/// one) focuses the replace field when it is right of the middle in
/// replace mode, the find field otherwise.
pub open spec fn find_bar_clicked(a: App, b: App, m: MouseEvent, handled: bool) -> bool {
    let i = a.tab_manager.active();
    let tabs = a.tab_manager.tab_list();
    if m.kind == MouseEventKind::Down(MouseButton::Left) && m.row == sub0(
        a.terminal_size.1 as int,
        2,
    ) && i < tabs.len() && tabs[i as int].is_editor() && tabs[i as int].find_active() {
        let t = tabs[i as int];
        let f = t.find_state();
        &&& handled
        &&& active_set(
            a,
            b,
            with_find(
                t,
                FindReplaceState {
                    focused_field: if f.is_replace_mode && m.column > a.terminal_size.0 / 2 {
                        FindFocusedField::Replace
                    } else {
                        FindFocusedField::Find
                    },
                    ..f
                },
            ),
        )
        &&& b == (App { tab_manager: b.tab_manager, ..a })
    } else {
        !handled && b == a
    }
}

/// Whether `b` is `a` after a mouse event for the sidebar border, and
/// `handled` tells whether it was one: a left press on the border starts
/// resizing, a drag while resizing sets the width to the column (at least
/// 15, at most half the terminal), a release stops resizing.
pub open spec fn sidebar_resized(a: App, b: App, m: MouseEvent, handled: bool) -> bool {
    match m.kind {
        MouseEventKind::Down(MouseButton::Left) if m.column == a.sidebar_width => handled && b
            == (App { sidebar_resizing: true, ..a }),
        MouseEventKind::Drag(MouseButton::Left) if a.sidebar_resizing => {
            let w = if m.column < 15 {
                15u16
            } else {
                m.column
            };
            let max = a.terminal_size.0 / 2;
            handled && b == (App {
                sidebar_width: if w < max {
                    w
                } else {
                    max
                },
                ..a
            })
        },
        MouseEventKind::Up(MouseButton::Left) if a.sidebar_resizing => handled && b == (App {
            sidebar_resizing: false,
            ..a
        }),
        _ => !handled && b == a,
    }
}

/// The smaller of `a` and `b`.
pub open spec fn min_int(a: int, b: int) -> int {
    if a < b {
        a
    } else {
        b
    }
}

/// The left edge, top edge and width of the input dialog: at most 50 wide
/// (four less than the terminal) and 8 high, centered.
pub open spec fn input_dialog_frame(a: App) -> (int, int, int) {
    let tw = a.terminal_size.0 as int;
    let th = a.terminal_size.1 as int;
    let dw = min_int(50, sub0(tw, 4));
    (sub0(tw, dw) / 2, sub0(th, 8) / 2, dw)
}

/// Whether the event falls within the input dialog.
pub open spec fn in_input_dialog(a: App, m: MouseEvent) -> bool {
    let (dx, dy, dw) = input_dialog_frame(a);
    dx <= m.column < dx + dw && dy <= m.row < dy + 8
}

/// Where a mouse event falls on the input dialog.
#[derive(Debug, Clone, Copy, PartialEq, Eq, Structural)]
pub enum DialogHit {
    Outside,
    Cancel,
    Confirm,
    /// The input field, so many columns from its left edge.
    Field(usize),
    Inside,
}

/// Where the event falls on the input dialog: the Cancel button (6 wide,
/// 5 right of the left edge) and the OK button (4 wide, 8 left of the
/// right edge) on the last row but one, the input field (inside the border
/// and a column of padding) on the fourth row.
#[verifier::opaque]
pub open spec fn dialog_hit(a: App, m: MouseEvent) -> DialogHit {
    let (dx, dy, dw) = input_dialog_frame(a);
    let ok_x = dx + sub0(dw, 8);
    if !in_input_dialog(a, m) {
        DialogHit::Outside
    } else if m.row == dy + 6 && dx + 5 <= m.column < dx + 11 {
        DialogHit::Cancel
    } else if m.row == dy + 6 && ok_x <= m.column < ok_x + 4 {
        DialogHit::Confirm
    } else if m.row == dy + 3 && dx + 2 <= m.column < dx + 2 + sub0(dw, 4) {
        DialogHit::Field((m.column - (dx + 2)) as usize)
    } else {
        DialogHit::Inside
    }
}

/// `off`, within the input.
pub open spec fn clamped(st: InputDialogState, off: usize) -> usize {
    min_int(off as int, byte_len(st.input@) as int) as usize
}

/// The input dialog after a left press on the input field: the cursor
/// goes to `off` and the selection goes.
pub open spec fn pressed_state(st: InputDialogState, off: usize) -> InputDialogState {
    InputDialogState { cursor_position: clamped(st, off), selection_start: None, ..st }
}

/// The input dialog after a drag on the input field: the cursor goes to
/// `off`, the selection starting where it was if there was none.
pub open spec fn dragged_state(st: InputDialogState, off: usize) -> InputDialogState {
    InputDialogState {
        cursor_position: clamped(st, off),
        selection_start: match st.selection_start {
            Some(s) => Some(s),
            None => Some(st.cursor_position),
        },
        ..st
    }
}

/// Whether `b` and `r` are `a` and the request after a mouse event while
/// the input dialog is open, and `handled` tells whether the dialog took
/// it (any event within it). A left press on the input field moves the
/// cursor there and drops the selection; Cancel closes the dialog and OK
/// closes it and asks to carry out its operation; a drag on the input
/// field selects from where the cursor was.
pub open spec fn input_dialog_clicked(a: App, b: App, m: MouseEvent, handled: bool, r: Option<AppRequest>) -> bool {
    match a.menu_system.state {
        MenuState::InputDialog(st) => {
            let hit = dialog_hit(a, m);
            if hit == DialogHit::Outside {
                !handled && b == a && r is None
            } else {
                &&& handled
                &&& b == (App { menu_system: b.menu_system, ..a })
                &&& match (m.kind, hit) {
                    (MouseEventKind::Down(MouseButton::Left), DialogHit::Cancel) => r is None
                        && b.menu_system.state is Closed,
                    (MouseEventKind::Down(MouseButton::Left), DialogHit::Confirm) => {
                        &&& b.menu_system.state is Closed
                        &&& r matches Some(AppRequest::FileOperation { operation, target, input })
                            && operation == st.operation && target == st.target_path && input
                            == st.input
                    },
                    (MouseEventKind::Down(MouseButton::Left), DialogHit::Field(off)) => r is None
                        && b.menu_system.state == MenuState::InputDialog(pressed_state(st, off)),
                    (MouseEventKind::Drag(MouseButton::Left), DialogHit::Field(off)) => r is None
                        && b.menu_system.state == MenuState::InputDialog(dragged_state(st, off)),
                    _ => r is None && b == a,
                }
            }
        },
        _ => !handled && b == a && r is None,
    }
}

/// Whether `b` and `r` are `a` and the request after a mouse event while
/// the file picker is open (it takes every event): a left press on the
/// last two columns starts dragging the scrollbar and asks to scroll to
/// the row, elsewhere it selects the item on its row (below the two header
/// rows, within the list); a drag of the scrollbar asks again, a release
/// stops it; the wheel moves the selection.
pub open spec fn picker_clicked(a: App, b: App, m: MouseEvent, handled: bool, r: Option<AppRequest>) -> bool {
    match a.menu_system.state {
        MenuState::FilePicker(p) => handled && match m.kind {
            MouseEventKind::Down(MouseButton::Left) => if m.column >= sub0(
                a.terminal_size.0 as int,
                2,
            ) {
                b == (App { file_picker_scrollbar_dragging: true, ..a }) && r == Some(
                    AppRequest::PickerScrollbarClick { row: m.row },
                )
            } else {
                let mh = min_int(28, sub0(a.terminal_size.1 as int, 4));
                let y = sub0(m.row as int, 2);
                &&& r is None
                &&& if y < sub0(mh, 4) && y < p@.filtered.len() {
                    &&& b.menu_system.state matches MenuState::FilePicker(q) && q@ == (PickerView {
                        selected_index: y as usize,
                        ..p@
                    })
                    &&& b == (App { menu_system: b.menu_system, ..a })
                } else {
                    b == a
                }
            },
            MouseEventKind::Drag(MouseButton::Left) => b == a && if a.file_picker_scrollbar_dragging {
                r == Some(AppRequest::PickerScrollbarClick { row: m.row })
            } else {
                r is None
            },
            MouseEventKind::Up(MouseButton::Left) => r is None && b == (App {
                file_picker_scrollbar_dragging: false,
                ..a
            }),
            MouseEventKind::ScrollUp => {
                &&& r is None
                &&& b == (App { menu_system: b.menu_system, ..a })
                &&& b.menu_system.state matches MenuState::FilePicker(q) && q@ == if p@.selected_index
                    > 0 {
                    PickerView {
                        selected_index: (p@.selected_index - 1) as usize,
                        hovered_index: None,
                        ..p@
                    }
                } else {
                    p@
                }
            },
            MouseEventKind::ScrollDown => {
                &&& r is None
                &&& b == (App { menu_system: b.menu_system, ..a })
                &&& b.menu_system.state matches MenuState::FilePicker(q) && q@ == if p@.selected_index
                    + 1 < p@.filtered.len() {
                    PickerView {
                        selected_index: (p@.selected_index + 1) as usize,
                        hovered_index: None,
                        ..p@
                    }
                } else {
                    p@
                }
            },
            _ => r is None && b == a,
        },
        _ => !handled && b == a && r is None,
    }
}

/// Who takes a mouse event.
#[derive(Debug, Clone, Copy, PartialEq, Eq, Structural)]
pub enum MouseRoute {
    Dialog,
    InputDialog,
    Picker,
    Menu,
    FindBar,
    Sidebar,
    Tree,
    Rest,
}

/// Whether an open menu takes the event: left presses and releases.
pub open spec fn menu_takes(a: App, m: MouseEvent) -> bool {
    &&& (a.menu_system.state is MainMenu || a.menu_system.state is CurrentTabMenu
        || a.menu_system.state is TreeContextMenu)
    &&& (m.kind == MouseEventKind::Down(MouseButton::Left) || m.kind == MouseEventKind::Up(
        MouseButton::Left,
    ))
}

/// Whether the find bar takes the event: a left press on its row while it
/// is open.
pub open spec fn find_bar_takes(a: App, m: MouseEvent) -> bool {
    let i = a.tab_manager.active();
    let tabs = a.tab_manager.tab_list();
    &&& m.kind == MouseEventKind::Down(MouseButton::Left)
    &&& m.row == sub0(a.terminal_size.1 as int, 2)
    &&& i < tabs.len()
    &&& tabs[i as int].is_editor()
    &&& tabs[i as int].find_active()
}

/// Whether the sidebar border takes the event.
pub open spec fn sidebar_takes(a: App, m: MouseEvent) -> bool {
    match m.kind {
        MouseEventKind::Down(MouseButton::Left) => m.column == a.sidebar_width,
        MouseEventKind::Drag(MouseButton::Left) | MouseEventKind::Up(MouseButton::Left) => a.sidebar_resizing,
        _ => false,
    }
}

/// Whether the file tree takes the event: left presses and releases,
/// right presses.
pub open spec fn tree_takes(m: MouseEvent) -> bool {
    m.kind == MouseEventKind::Down(MouseButton::Left) || m.kind == MouseEventKind::Up(
        MouseButton::Left,
    ) || m.kind == MouseEventKind::Down(MouseButton::Right)
}

/// Who takes the event `m` in `a`: a shown warning first, then the input
/// dialog when the event is within it, the file picker, an open menu, the
/// find bar, the sidebar border, the file tree left of the sidebar border;
/// the rest goes to the text view.
pub open spec fn mouse_route(a: App, m: MouseEvent) -> MouseRoute {
    if a.warning_message is Some {
        MouseRoute::Dialog
    } else if a.menu_system.state is InputDialog && dialog_hit(a, m) != DialogHit::Outside {
        MouseRoute::InputDialog
    } else if a.menu_system.state is FilePicker {
        MouseRoute::Picker
    } else if menu_takes(a, m) {
        MouseRoute::Menu
    } else if find_bar_takes(a, m) {
        MouseRoute::FindBar
    } else if sidebar_takes(a, m) {
        MouseRoute::Sidebar
    } else if m.column < a.sidebar_width && a.tree_view is Some && tree_takes(m) {
        MouseRoute::Tree
    } else {
        MouseRoute::Rest
    }
}

/// The event with its column counted from the left edge of the text view.
pub open spec fn shifted(m: MouseEvent, w: u16) -> MouseEvent {
    MouseEvent { column: (m.column - w) as u16, ..m }
}

/// Whether `b` is `a` after the end of any drag: a release stops dragging
/// the scrollbars and resizing the sidebar.
pub open spec fn released(a: App, b: App, m: MouseEvent) -> bool {
    if m.kind is Up {
        b == (App {
            scrollbar_dragging: false,
            file_picker_scrollbar_dragging: false,
            tree_scrollbar_dragging: false,
            sidebar_resizing: false,
            ..a
        })
    } else {
        b == a
    }
}

/// Whether `b` and `r` are `a` and the request after an event that no
/// dialog, menu or panel took: right of the sidebar it goes to the text
/// view; in any case a release ends every drag.
pub open spec fn rest_done(a: App, b: App, m: MouseEvent, now_ms: u64, r: Option<AppRequest>) -> bool {
    if m.column >= a.sidebar_width {
        exists|mid: App|
            #![trigger editor_clicked(a, mid, shifted(m, a.sidebar_width), now_ms, r)]
            editor_clicked(a, mid, shifted(m, a.sidebar_width), now_ms, r) && released(mid, b, m)
    } else {
        r is None && released(a, b, m)
    }
}

/// Whether `b` and `r` are `a` and the request after the mouse event `m`,
/// by who takes it (see `mouse_route`).
pub open spec fn mouse_done(a: App, b: App, m: MouseEvent, now_ms: u64, r: Option<AppRequest>) -> bool {
    match mouse_route(a, m) {
        MouseRoute::Dialog => dialog_clicked(a, b, m, r),
        MouseRoute::InputDialog => input_dialog_clicked(a, b, m, true, r),
        MouseRoute::Picker => picker_clicked(a, b, m, true, r),
        MouseRoute::Menu => r is None && menu_clicked(a, b, m, true),
        MouseRoute::FindBar => r is None && find_bar_clicked(a, b, m, true),
        MouseRoute::Sidebar => r is None && sidebar_resized(a, b, m, true),
        MouseRoute::Tree => r is None && tree_clicked(a, b, m, true),
        MouseRoute::Rest => rest_done(a, b, m, now_ms, r),
    }
}

impl App {
    /// The button of the warning dialog under (`mouse_x`, `mouse_y`), if a
    /// dialog is shown (see `dialog_button_at`).
    pub fn get_dialog_button_at_position(&self, mouse_x: u16, mouse_y: u16) -> (r: Option<usize>)
        ensures
            r == if self.warning_message is Some {
                dialog_button_at(
                    self.terminal_size.0 as int,
                    self.terminal_size.1 as int,
                    self.warning_is_info,
                    mouse_x as int,
                    mouse_y as int,
                )
            } else {
                None
            },
    {
        if self.warning_message.is_none() {
            return None;
        }
        let tw = self.terminal_size.0 as u32;
        let th = self.terminal_size.1 as u32;
        let x = mouse_x as u32;
        let y = mouse_y as u32;
        let avail = if tw >= 4 {
            tw - 4
        } else {
            0
        };
        let mw: u32 = if avail < 50 {
            avail
        } else {
            50
        };
        let mh: u32 = if self.warning_is_info {
            6
        } else {
            7
        };
        let mx = (tw - mw) / 2;
        let my = if th >= mh {
            (th - mh) / 2
        } else {
            0
        };
        if x < mx || x >= mx + mw || y < my || y >= my + mh {
            return None;
        }
        if y != my + (mh - 2) {
            return None;
        }
        if self.warning_is_info {
            let half = mw / 2;
            let bx = mx + if half >= 2 {
                half - 2
            } else {
                0
            };
            if x >= bx && x < bx + 4 {
                Some(0)
            } else {
                None
            }
        } else {
            let third = mw / 3;
            let two_thirds = 2 * mw / 3;
            let nx = mx + if third >= 2 {
                third - 2
            } else {
                0
            };
            let yx = mx + if two_thirds >= 2 {
                two_thirds - 2
            } else {
                0
            };
            if x >= nx && x < nx + 4 {
                Some(0)
            } else if x >= yx && x < yx + 5 {
                Some(1)
            } else {
                None
            }
        }
    }

    /// Handles a mouse event on the warning dialog (see `dialog_clicked`).
    pub fn handle_mouse_on_dialog(&mut self, mouse: MouseEvent) -> (r: Option<AppRequest>)
        ensures
            dialog_clicked(*old(self), *final(self), mouse, r),
    {
        if mouse.kind != MouseEventKind::Down(MouseButton::Left) {
            return None;
        }
        match self.get_dialog_button_at_position(mouse.column, mouse.row) {
            Some(b) => {
                if b == 0 {
                    if self.warning_is_info {
                        self.warning_message = None;
                    } else {
                        self.warning_message = None;
                        self.pending_delete_path = None;
                    }
                    None
                } else if b == 1 {
                    let r = match self.pending_delete_path.take() {
                        Some(p) => Some(AppRequest::Delete(p)),
                        None => None,
                    };
                    self.warning_message = None;
                    r
                } else {
                    None
                }
            },
            None => None,
        }
    }

    /// The text position under the mouse in the text view, `buffer` being
    /// the text of the active tab (see `text_position`).
    pub fn mouse_to_text_position(&self, mouse: MouseEvent, buffer: &RopeBuffer) -> (r: Option<(usize, usize)>)
        ensures
            r == text_position(
                self.terminal_size.1 as int,
                active_viewport(*self),
                buffer@,
                mouse.column as int,
                mouse.row as int,
            ),
    {
        let th = self.terminal_size.1 as usize;
        let bottom = if th >= 1 {
            th - 1
        } else {
            0
        };
        if mouse.row == 0 || (mouse.row as usize) >= bottom {
            return None;
        }
        let editor_row = (mouse.row - 1) as usize;
        let vp = match self.tab_manager.active_tab() {
            Some(tab) => match tab {
                Tab::Editor { viewport_offset, .. } => *viewport_offset,
                Tab::Terminal { .. } => (0, 0),
            },
            None => (0, 0),
        };
        let n = buffer.len_lines();
        if editor_row >= n || vp.0 >= n - editor_row {
            let last = if n >= 1 {
                n - 1
            } else {
                0
            };
            let t = crate::chars::str_to_chars(buffer.get_line_text(last).as_str());
            return Some((last, t.len()));
        }
        let line = editor_row + vp.0;
        let t = crate::chars::str_to_chars(buffer.get_line_text(line).as_str());
        let col = mouse.column as usize;
        Some((line, if col >= t.len() {
            t.len()
        } else {
            col
        }))
    }

    /// Scrolls the text of the active tab with the mouse wheel at `now_ms`
    /// (see `editor_scrolled`).
    #[verifier::spinoff_prover]
    #[verifier::rlimit(40)]
    pub fn handle_editor_scroll(&mut self, scroll_kind: MouseEventKind, now_ms: u64)
        ensures
            editor_scrolled(*old(self), *final(self), scroll_kind, now_ms),
    {
        if self.tab_manager.active_tab().is_none() {
            return;
        }
        let acc = match self.last_scroll_time {
            Some(t) => if now_ms.saturating_sub(t) < 100 {
                if self.scroll_acceleration < 4 {
                    self.scroll_acceleration + 1
                } else {
                    5
                }
            } else {
                1
            },
            None => 1,
        };
        self.scroll_acceleration = acc;
        self.last_scroll_time = Some(now_ms);
        let h = self.terminal_size.1.saturating_sub(2) as usize;
        match self.tab_manager.active_tab_mut() {
            Some(tab) => {
                match tab {
                    Tab::Editor { viewport_offset, buffer, .. } => {
                        let n = buffer.len_lines();
                        let max = n.saturating_sub(h);
                        match scroll_kind {
                            MouseEventKind::ScrollUp => {
                                viewport_offset.0 = viewport_offset.0.saturating_sub(acc);
                            },
                            MouseEventKind::ScrollDown => {
                                let down = viewport_offset.0.saturating_add(acc);
                                viewport_offset.0 = if down < max {
                                    down
                                } else {
                                    max
                                };
                            },
                            _ => {},
                        }
                    },
                    Tab::Terminal { .. } => {},
                }
            },
            None => {},
        }
    }

    /// Shows the text of the active editor tab from line `line` on.
    pub fn scroll_active_to(&mut self, line: usize)
        ensures
            *final(self) == (App { tab_manager: final(self).tab_manager, ..*old(self) }),
            active_changed(
                old(self).tab_manager,
                final(self).tab_manager,
                |x: Tab, y: Tab|
                    y == if x.is_editor() {
                        x.with_viewport((line, x.viewport_spec().1))
                    } else {
                        x
                    },
            ),
    {
        match self.tab_manager.active_tab_mut() {
            Some(tab) => match tab {
                Tab::Editor { viewport_offset, .. } => {
                    viewport_offset.0 = line;
                },
                Tab::Terminal { .. } => {},
            },
            None => {},
        }
    }

    /// Selects the item `offset` of the open file picker, the last one if
    /// the list is shorter.
    pub fn picker_scroll_to(&mut self, offset: usize)
        ensures
            match old(self).menu_system.state {
                MenuState::FilePicker(p) => {
                    let n = p@.filtered.len();
                    let last: usize = if n >= 1 {
                        (n - 1) as usize
                    } else {
                        0
                    };
                    &&& final(self).menu_system.state matches MenuState::FilePicker(q) && q@
                        == (PickerView {
                        selected_index: if offset < last {
                            offset
                        } else {
                            last
                        },
                        ..p@
                    })
                    &&& *final(self) == (App { menu_system: final(self).menu_system, ..*old(self) })
                },
                _ => *final(self) == *old(self),
            },
    {
        match &mut self.menu_system.state {
            MenuState::FilePicker(p) => {
                let n = p.shown_count();
                let last = if n >= 1 {
                    n - 1
                } else {
                    0
                };
                p.set_selected_index(if offset < last {
                    offset
                } else {
                    last
                });
            },
            _ => {},
        }
    }
}

impl App {
    /// The number of lines the text view shows for the active tab.
    fn active_content_lines(&self) -> (n: Option<usize>)
        ensures
            ({
                let i = self.tab_manager.active();
                let tabs = self.tab_manager.tab_list();
                match n {
                    Some(k) => i < tabs.len() && k as nat == content_lines(tabs[i as int]),
                    None => i >= tabs.len(),
                }
            }),
    {
        match self.tab_manager.active_tab() {
            Some(tab) => {
                let md = tab.is_markdown();
                match tab {
                    Tab::Editor { preview_mode, buffer, .. } => {
                        if *preview_mode && md {
                            let content = buffer.to_string();
                            let w = MarkdownWidget::new(content.as_str());
                            let lines = w.parse_markdown();
                            Some(lines.len())
                        } else {
                            Some(buffer.len_lines())
                        }
                    },
                    Tab::Terminal { .. } => Some(0),
                }
            },
            None => None,
        }
    }

    /// Whether the event is on the scrollbar of the text view.
    fn is_on_scrollbar(&self, mouse: MouseEvent) -> (b: bool)
        ensures
            b == on_scrollbar(*self, mouse),
    {
        match self.active_content_lines() {
            Some(n) => {
                let th = self.terminal_size.1;
                let h = th.saturating_sub(2) as usize;
                n > h && mouse.column == self.terminal_size.0.saturating_sub(1) && mouse.row > 0
                    && mouse.row < th.saturating_sub(1)
            },
            None => false,
        }
    }

    /// The text position under the event in the active editor tab.
    fn clicked_text_position(&self, mouse: MouseEvent) -> (r: Option<(usize, usize)>)
        ensures
            r == clicked_position(*self, mouse),
    {
        match self.tab_manager.active_tab() {
            Some(tab) => match tab {
                Tab::Editor { buffer, .. } => self.mouse_to_text_position(mouse, buffer),
                Tab::Terminal { .. } => None,
            },
            None => None,
        }
    }

    /// Moves the cursor to the clicked text position (see `text_clicked`).
    #[verifier::spinoff_prover]
    #[verifier::rlimit(40)]
    fn click_text(&mut self, mouse: MouseEvent, now_ms: u64)
        ensures
            text_clicked(*old(self), *final(self), mouse, now_ms),
    {
        let pos = self.clicked_text_position(mouse);
        match pos {
            Some((line, col)) => {
                let double = match (self.last_click_time, self.last_click_pos) {
                    (Some(t0), Some(p)) => now_ms.saturating_sub(t0) < 500 && p.0 == mouse.column
                        && p.1 == mouse.row,
                    _ => false,
                };
                match self.tab_manager.active_tab_mut() {
                    Some(tab) => match tab {
                        Tab::Editor { cursor, buffer, .. } => {
                            cursor.position = Position { line, column: col };
                            cursor.selection_start = None;
                            if double {
                                cursor.select_word_at_position(buffer);
                            }
                        },
                        Tab::Terminal { .. } => {},
                    },
                    None => {},
                }
                self.mouse_selecting = true;
                if double {
                    self.last_click_time = None;
                } else {
                    self.last_click_time = Some(now_ms);
                    self.last_click_pos = Some((mouse.column, mouse.row));
                }
            },
            None => {},
        }
    }

    /// Extends the selection to the text position under the mouse (see
    /// `text_dragged`).
    fn drag_text(&mut self, mouse: MouseEvent)
        ensures
            text_dragged(*old(self), *final(self), mouse),
    {
        if !self.mouse_selecting {
            return;
        }
        let pos = self.clicked_text_position(mouse);
        match pos {
            Some((line, col)) => {
                match self.tab_manager.active_tab_mut() {
                    Some(tab) => match tab {
                        Tab::Editor { cursor, .. } => {
                            if cursor.selection_start.is_none() {
                                cursor.selection_start = Some(cursor.position);
                            }
                            cursor.position = Position { line, column: col };
                        },
                        Tab::Terminal { .. } => {},
                    },
                    None => {},
                }
            },
            None => {},
        }
    }

    /// Handles a mouse event on the text view at `now_ms`, its column
    /// counted from the left edge of the view (see `editor_clicked`).
    pub fn handle_mouse_on_editor(&mut self, mouse: MouseEvent, now_ms: u64) -> (r: Option<AppRequest>)
        ensures
            editor_clicked(*old(self), *final(self), mouse, now_ms, r),
    {
        if self.is_on_scrollbar(mouse) {
            match mouse.kind {
                MouseEventKind::Down(MouseButton::Left) => {
                    self.scrollbar_dragging = true;
                    return Some(AppRequest::ScrollbarClick { row: mouse.row });
                },
                MouseEventKind::Drag(MouseButton::Left) => {
                    if self.scrollbar_dragging {
                        return Some(AppRequest::ScrollbarClick { row: mouse.row });
                    }
                },
                MouseEventKind::Up(MouseButton::Left) => {
                    if self.scrollbar_dragging {
                        self.scrollbar_dragging = false;
                        return None;
                    }
                },
                _ => {},
            }
        }
        match mouse.kind {
            MouseEventKind::ScrollUp | MouseEventKind::ScrollDown => {
                self.handle_editor_scroll(mouse.kind, now_ms);
            },
            MouseEventKind::Down(MouseButton::Left) => {
                self.click_text(mouse, now_ms);
            },
            MouseEventKind::Drag(MouseButton::Left) => {
                self.drag_text(mouse);
            },
            MouseEventKind::Up(MouseButton::Left) => {
                self.mouse_selecting = false;
            },
            _ => {},
        }
        None
    }

    /// Handles a mouse event while a menu is open (see `menu_clicked`).
    pub fn handle_mouse_on_menus(&mut self, mouse: MouseEvent) -> (handled: bool)
        ensures
            menu_clicked(*old(self), *final(self), mouse, handled),
    {
        let open = match &self.menu_system.state {
            MenuState::MainMenu(_) | MenuState::CurrentTabMenu(_) | MenuState::TreeContextMenu(_) => true,
            _ => false,
        };
        if !open {
            return false;
        }
        match mouse.kind {
            MouseEventKind::Down(MouseButton::Left) => {
                self.menu_system.close();
                true
            },
            MouseEventKind::Up(MouseButton::Left) => true,
            _ => false,
        }
    }

    /// Handles a mouse event on the file tree (see `tree_clicked`).
    pub fn handle_mouse_on_tree_view(&mut self, mouse: MouseEvent) -> (handled: bool)
        ensures
            tree_clicked(*old(self), *final(self), mouse, handled),
    {
        if self.tree_view.is_none() {
            return false;
        }
        match mouse.kind {
            MouseEventKind::Down(MouseButton::Left) => {
                self.focus_mode = FocusMode::TreeView;
                match &mut self.tree_view {
                    Some(tree_view) => {
                        tree_view.set_focused(true);
                        let n = tree_view.get_visible_items().len();
                        let row = mouse.row as usize;
                        if row < n {
                            tree_view.set_selected_index(row);
                        }
                    },
                    None => {},
                }
                true
            },
            MouseEventKind::Up(MouseButton::Left) | MouseEventKind::Down(MouseButton::Right) => true,
            _ => false,
        }
    }

    /// Handles a mouse event on the find bar (see `find_bar_clicked`).
    pub fn handle_mouse_on_find_replace(&mut self, mouse: MouseEvent) -> (handled: bool)
        ensures
            find_bar_clicked(*old(self), *final(self), mouse, handled),
    {
        if mouse.kind != MouseEventKind::Down(MouseButton::Left) || mouse.row
            != self.terminal_size.1.saturating_sub(2) {
            return false;
        }
        let open = match self.tab_manager.active_tab() {
            Some(tab) => tab.is_editor_tab() && tab.find_is_active(),
            None => false,
        };
        if !open {
            return false;
        }
        let half = self.terminal_size.0 / 2;
        match self.tab_manager.active_tab_mut() {
            Some(tab) => match tab {
                Tab::Editor { find_replace_state, .. } => {
                    find_replace_state.focused_field = if find_replace_state.is_replace_mode
                        && mouse.column > half {
                        FindFocusedField::Replace
                    } else {
                        FindFocusedField::Find
                    };
                },
                Tab::Terminal { .. } => {},
            },
            None => {},
        }
        true
    }

    /// Handles a mouse event for the sidebar border (see
    /// `sidebar_resized`).
    pub fn handle_sidebar_resize(&mut self, mouse: MouseEvent) -> (handled: bool)
        ensures
            sidebar_resized(*old(self), *final(self), mouse, handled),
    {
        match mouse.kind {
            MouseEventKind::Down(MouseButton::Left) => {
                if mouse.column == self.sidebar_width {
                    self.sidebar_resizing = true;
                    return true;
                }
            },
            MouseEventKind::Drag(MouseButton::Left) => {
                if self.sidebar_resizing {
                    let w = if mouse.column < 15 {
                        15
                    } else {
                        mouse.column
                    };
                    let max = self.terminal_size.0 / 2;
                    self.sidebar_width = if w < max {
                        w
                    } else {
                        max
                    };
                    return true;
                }
            },
            MouseEventKind::Up(MouseButton::Left) => {
                if self.sidebar_resizing {
                    self.sidebar_resizing = false;
                    return true;
                }
            },
            _ => {},
        }
        false
    }
}

/// The smaller of `off` and the byte length of the input.
fn clamp_to_input(st: &InputDialogState, off: usize) -> (r: usize)
    ensures
        r == clamped(*st, off),
{
    let len = st.input.as_str().len();
    if off < len {
        off
    } else {
        len
    }
}

impl App {
    /// Where the event falls on the input dialog (see `dialog_hit`).
    fn input_dialog_hit(&self, mouse: MouseEvent) -> (h: DialogHit)
        ensures
            h == dialog_hit(*self, mouse),
    {
        let tw = self.terminal_size.0 as u32;
        let th = self.terminal_size.1 as u32;
        let avail = if tw >= 4 {
            tw - 4
        } else {
            0
        };
        let dw: u32 = if avail < 50 {
            avail
        } else {
            50
        };
        let dx = (tw - dw) / 2;
        let dy = if th >= 8 {
            (th - 8) / 2
        } else {
            0
        };
        let x = mouse.column as u32;
        let y = mouse.row as u32;
        let iw = if dw >= 4 {
            dw - 4
        } else {
            0
        };
        let ok_x = dx + if dw >= 8 {
            dw - 8
        } else {
            0
        };
        assert((dx as int, dy as int, dw as int) == input_dialog_frame(*self));
        reveal(dialog_hit);
        if !(x >= dx && x < dx + dw && y >= dy && y < dy + 8) {
            DialogHit::Outside
        } else if y == dy + 6 && x >= dx + 5 && x < dx + 11 {
            DialogHit::Cancel
        } else if y == dy + 6 && x >= ok_x && x < ok_x + 4 {
            DialogHit::Confirm
        } else if y == dy + 3 && x >= dx + 2 && x < dx + 2 + iw {
            DialogHit::Field((x - (dx + 2)) as usize)
        } else {
            DialogHit::Inside
        }
    }

    /// Handles a mouse event while the input dialog is open (see
    /// `input_dialog_clicked`).
    #[verifier::spinoff_prover]
    #[verifier::rlimit(40)]
    pub fn handle_mouse_on_input_dialog(&mut self, mouse: MouseEvent) -> (res: (bool, Option<AppRequest>))
        ensures
            input_dialog_clicked(*old(self), *final(self), mouse, res.0, res.1),
    {
        let hit = self.input_dialog_hit(mouse);
        match &mut self.menu_system.state {
            MenuState::InputDialog(st) => {
                if hit == DialogHit::Outside {
                    return (false, None);
                }
                match (mouse.kind, hit) {
                    (MouseEventKind::Down(MouseButton::Left), DialogHit::Cancel) => {
                        self.menu_system.close();
                        (true, None)
                    },
                    (MouseEventKind::Down(MouseButton::Left), DialogHit::Confirm) => {
                        let input = st.input.clone();
                        let operation = st.operation.clone();
                        let target = st.target_path.clone();
                        self.menu_system.close();
                        (true, Some(AppRequest::FileOperation { operation, target, input }))
                    },
                    (MouseEventKind::Down(MouseButton::Left), DialogHit::Field(off)) => {
                        let c = clamp_to_input(st, off);
                        st.cursor_position = c;
                        st.selection_start = None;
                        (true, None)
                    },
                    (MouseEventKind::Drag(MouseButton::Left), DialogHit::Field(off)) => {
                        let c = clamp_to_input(st, off);
                        if st.selection_start.is_none() {
                            st.selection_start = Some(st.cursor_position);
                        }
                        st.cursor_position = c;
                        (true, None)
                    },
                    _ => (true, None),
                }
            },
            _ => (false, None),
        }
    }

    /// Handles a mouse event while the file picker is open (see
    /// `picker_clicked`).
    #[verifier::spinoff_prover]
    #[verifier::rlimit(40)]
    pub fn handle_mouse_on_file_picker(&mut self, mouse: MouseEvent) -> (res: (bool, Option<AppRequest>))
        ensures
            picker_clicked(*old(self), *final(self), mouse, res.0, res.1),
    {
        let scroll_col = self.terminal_size.0.saturating_sub(2);
        let th = self.terminal_size.1;
        let mh: u16 = if th.saturating_sub(4) < 28 {
            th.saturating_sub(4)
        } else {
            28
        };
        let dragging = self.file_picker_scrollbar_dragging;
        match &mut self.menu_system.state {
            MenuState::FilePicker(p) => {
                match mouse.kind {
                    MouseEventKind::Down(MouseButton::Left) => {
                        if mouse.column >= scroll_col {
                            self.file_picker_scrollbar_dragging = true;
                            return (true, Some(AppRequest::PickerScrollbarClick { row: mouse.row }));
                        }
                        let item_y = mouse.row.saturating_sub(2);
                        if item_y < mh.saturating_sub(4) && (item_y as usize) < p.shown_count() {
                            p.set_selected_index(item_y as usize);
                        }
                        (true, None)
                    },
                    MouseEventKind::Drag(MouseButton::Left) => {
                        if dragging {
                            (true, Some(AppRequest::PickerScrollbarClick { row: mouse.row }))
                        } else {
                            (true, None)
                        }
                    },
                    MouseEventKind::Up(MouseButton::Left) => {
                        self.file_picker_scrollbar_dragging = false;
                        (true, None)
                    },
                    MouseEventKind::ScrollUp => {
                        p.move_selection_up();
                        (true, None)
                    },
                    MouseEventKind::ScrollDown => {
                        p.move_selection_down();
                        (true, None)
                    },
                    _ => (true, None),
                }
            },
            _ => (false, None),
        }
    }
}

impl App {
    /// Ends every drag on a release.
    fn end_drags(&mut self, m: MouseEvent)
        ensures
            released(*old(self), *final(self), m),
    {
        match m.kind {
            MouseEventKind::Up(_) => {
                self.scrollbar_dragging = false;
                self.file_picker_scrollbar_dragging = false;
                self.tree_scrollbar_dragging = false;
                self.sidebar_resizing = false;
            },
            _ => {},
        }
    }

    /// Handles a mouse event at `now_ms` (see `mouse_route` for who takes
    /// it); returns the work the application is to carry out, if any.
    #[verifier::spinoff_prover]
    #[verifier::rlimit(40)]
    pub fn handle_mouse_event(&mut self, mouse: MouseEvent, now_ms: u64) -> (r: Option<AppRequest>)
        ensures
            mouse_done(*old(self), *final(self), mouse, now_ms, r),
    {
        if self.warning_message.is_some() {
            return self.handle_mouse_on_dialog(mouse);
        }
        let (dialog, picker) = match &self.menu_system.state {
            MenuState::InputDialog(_) => (true, false),
            MenuState::FilePicker(_) => (false, true),
            _ => (false, false),
        };
        if dialog {
            let (handled, r) = self.handle_mouse_on_input_dialog(mouse);
            if handled {
                return r;
            }
        }
        if picker {
            let (_, r) = self.handle_mouse_on_file_picker(mouse);
            return r;
        }
        if self.handle_mouse_on_menus(mouse) {
            return None;
        }
        if self.handle_mouse_on_find_replace(mouse) {
            return None;
        }
        if self.handle_sidebar_resize(mouse) {
            return None;
        }
        if mouse.column < self.sidebar_width && self.tree_view.is_some() {
            if self.handle_mouse_on_tree_view(mouse) {
                return None;
            }
        }
        let ghost a = *self;
        let mut r = None;
        if mouse.column >= self.sidebar_width {
            let shifted_event = MouseEvent { column: mouse.column - self.sidebar_width, ..mouse };
            r = self.handle_mouse_on_editor(shifted_event, now_ms);
        }
        let ghost mid = *self;
        self.end_drags(mouse);
        proof {
            if mouse.column >= a.sidebar_width {
                assert(editor_clicked(a, mid, shifted(mouse, a.sidebar_width), now_ms, r));
            }
        }
        r
    }
}

} // verus!
