//! How a key press travels through the editor: to an open dialog or the
//! file picker first, then the find bar, the global shortcuts, the file
//! tree when it has the focus, and at last the active editor tab.
use vstd::prelude::*;
use crate::keyboard::{
    KeyCode, KeyEvent, EditorCommand, EditState, key_action, action_ok, action_effect,
    action_command, key_is_safe,
};
use crate::tab::Tab;
use crate::tree_view::{TreeViewState, visible_items};
use crate::ui_state::FocusMode;
use crate::menu::MenuState;
use crate::find_bar::{find_key, find_key_consumed, classify_find_key, find_bar_handled, FindKey};
use crate::dialog_keys::{
    warning_key, warning_key_done, picker_key_handled, dialog_key_handled,
};
use crate::editor_app::{App, AppRequest, active_changed, scrolled, view_height};

verus! {

/// What a key does in the file tree when it has the focus.
#[derive(Debug, Clone, Copy, PartialEq, Eq, Structural)]
pub enum TreeKey {
    Open,
    Toggle,
    Up,
    Down,
    Leave,
    Other,
}

/// What `key` does in the focused file tree: E or Enter opens the selected
/// file (or toggles the selected directory), Space toggles, Up and Down
/// move the selection, Esc gives the focus back to the editor.
pub open spec fn tree_key(key: KeyEvent) -> TreeKey {
    let m = key.modifiers;
    let none = !m.shift && !m.control && !m.alt && !m.super_key && !m.hyper && !m.meta;
    if !none {
        TreeKey::Other
    } else {
        match key.code {
            KeyCode::Char(c) => if c == 'e' {
                TreeKey::Open
            } else if c == ' ' {
                TreeKey::Toggle
            } else {
                TreeKey::Other
            },
            KeyCode::Enter => TreeKey::Open,
            KeyCode::Up => TreeKey::Up,
            KeyCode::Down => TreeKey::Down,
            KeyCode::Esc => TreeKey::Leave,
            _ => TreeKey::Other,
        }
    }
}

fn classify_tree_key(key: KeyEvent) -> (k: TreeKey)
    ensures
        k == tree_key(key),
{
    if !key.modifiers.is_none() {
        TreeKey::Other
    } else {
        match key.code {
            KeyCode::Char(c) => if c == 'e' {
                TreeKey::Open
            } else if c == ' ' {
                TreeKey::Toggle
            } else {
                TreeKey::Other
            },
            KeyCode::Enter => TreeKey::Open,
            KeyCode::Up => TreeKey::Up,
            KeyCode::Down => TreeKey::Down,
            KeyCode::Esc => TreeKey::Leave,
            _ => TreeKey::Other,
        }
    }
}

/// The command of a global shortcut: Ctrl+Q, Ctrl+S, Ctrl+W, Ctrl+N,
/// Ctrl+T, Ctrl+F and Ctrl+H, F1 for the menu, Ctrl+Tab for the next tab,
/// and BackTab (Shift+Tab or Ctrl+Shift+Tab) for the previous tab.
pub open spec fn global_key(key: KeyEvent) -> Option<EditorCommand> {
    let m = key.modifiers;
    let none = !m.shift && !m.control && !m.alt && !m.super_key && !m.hyper && !m.meta;
    let shift = m.shift && !m.control && !m.alt && !m.super_key && !m.hyper && !m.meta;
    let ctrl = !m.shift && m.control && !m.alt && !m.super_key && !m.hyper && !m.meta;
    let ctrl_shift = m.shift && m.control && !m.alt && !m.super_key && !m.hyper && !m.meta;
    match key.code {
        KeyCode::Char(c) => if !ctrl {
            None
        } else if c == 'q' {
            Some(EditorCommand::Quit)
        } else if c == 's' {
            Some(EditorCommand::Save)
        } else if c == 'w' {
            Some(EditorCommand::CloseTab)
        } else if c == 'n' {
            Some(EditorCommand::NewTab)
        } else if c == 't' {
            Some(EditorCommand::NewTerminal)
        } else if c == 'f' {
            Some(EditorCommand::Find)
        } else if c == 'h' {
            Some(EditorCommand::FindReplace)
        } else {
            None
        },
        KeyCode::F(n) => if n == 1 && none {
            Some(EditorCommand::ToggleMenu)
        } else {
            None
        },
        KeyCode::Tab => if ctrl {
            Some(EditorCommand::NextTab)
        } else {
            None
        },
        KeyCode::BackTab => if shift || ctrl_shift {
            Some(EditorCommand::PrevTab)
        } else {
            None
        },
        _ => None,
    }
}

fn classify_global_key(key: KeyEvent) -> (c: Option<EditorCommand>)
    ensures
        c == global_key(key),
{
    let none = key.modifiers.is_none();
    let shift = key.modifiers.is_shift_only();
    let ctrl = key.modifiers.is_control_only();
    let m = key.modifiers;
    let ctrl_shift = m.shift && m.control && !m.alt && !m.super_key && !m.hyper && !m.meta;
    match key.code {
        KeyCode::Char(c) => if !ctrl {
            None
        } else if c == 'q' {
            Some(EditorCommand::Quit)
        } else if c == 's' {
            Some(EditorCommand::Save)
        } else if c == 'w' {
            Some(EditorCommand::CloseTab)
        } else if c == 'n' {
            Some(EditorCommand::NewTab)
        } else if c == 't' {
            Some(EditorCommand::NewTerminal)
        } else if c == 'f' {
            Some(EditorCommand::Find)
        } else if c == 'h' {
            Some(EditorCommand::FindReplace)
        } else {
            None
        },
        KeyCode::F(n) => if n == 1 && none {
            Some(EditorCommand::ToggleMenu)
        } else {
            None
        },
        KeyCode::Tab => if ctrl {
            Some(EditorCommand::NextTab)
        } else {
            None
        },
        KeyCode::BackTab => if shift || ctrl_shift {
            Some(EditorCommand::PrevTab)
        } else {
            None
        },
        _ => None,
    }
}

/// The key an editor tab sees: Tab alone types a tab char.
pub open spec fn editor_key(key: KeyEvent) -> KeyEvent {
    let m = key.modifiers;
    let none = !m.shift && !m.control && !m.alt && !m.super_key && !m.hyper && !m.meta;
    if key.code == KeyCode::Tab && none {
        KeyEvent { code: KeyCode::Char('\t'), modifiers: m }
    } else {
        key
    }
}

/// Whether the find bar of the active tab is open.
pub open spec fn find_open(a: App) -> bool {
    let i = a.tab_manager.active();
    let tabs = a.tab_manager.tab_list();
    i < tabs.len() && tabs[i as int].is_editor() && tabs[i as int].find_active()
}

/// Who takes a key.
#[derive(Debug, Clone, Copy, PartialEq, Eq, Structural)]
pub enum KeyRoute {
    Warning,
    Picker,
    Dialog,
    FindBar,
    Global(EditorCommand),
    Tree(TreeKey),
    Editor,
}

/// Who takes `key` in `a`: a shown warning, else the open file picker or
/// input dialog, else the open find bar when it takes the key, else a
/// global shortcut, else the focused file tree for its keys, else the
/// active tab.
pub open spec fn key_route(a: App, key: KeyEvent) -> KeyRoute {
    if a.warning_message is Some {
        KeyRoute::Warning
    } else if a.menu_system.state is FilePicker {
        KeyRoute::Picker
    } else if a.menu_system.state is InputDialog {
        KeyRoute::Dialog
    } else if find_open(a) && find_key_consumed(
        find_key(key),
        a.tab_manager.tab_list()[a.tab_manager.active() as int],
    ) {
        KeyRoute::FindBar
    } else if global_key(key) is Some {
        KeyRoute::Global(global_key(key)->0)
    } else if a.focus_mode == FocusMode::TreeView && a.tree_view is Some && tree_key(key)
        != TreeKey::Other {
        KeyRoute::Tree(tree_key(key))
    } else {
        KeyRoute::Editor
    }
}

/// Whether `b` and `r` are `a` and the request after the command `c`; a
/// new tab is not added when the tab count is at the top of `usize`.
pub open spec fn command_run(a: App, b: App, c: EditorCommand, r: Option<AppRequest>) -> bool {
    if c == EditorCommand::NewTab && a.tab_manager.tab_list().len() + 1 >= usize::MAX {
        b == a && r is None
    } else {
        App::command_done(a, b, c, r)
    }
}

/// Whether `b` and `r` are `a` and the request after the key `k` in the
/// focused file tree of `a`. Opening a file, or toggling a directory, is a
/// request, as it reads the disk.
pub open spec fn tree_key_handled(a: App, b: App, k: TreeKey, r: Option<AppRequest>) -> bool {
    let t = a.tree_view->0@;
    let items = visible_items(t);
    let i = t.selected_index;
    match k {
        TreeKey::Open => b == a && if i < items.len() {
            if items[i as int].is_dir {
                r matches Some(AppRequest::ToggleTreeSelection)
            } else {
                r matches Some(AppRequest::OpenFile(p)) && p@ == items[i as int].path
            }
        } else {
            r is None
        },
        TreeKey::Toggle => b == a && r matches Some(AppRequest::ToggleTreeSelection),
        TreeKey::Up => {
            &&& r is None
            &&& b == (App { tree_view: b.tree_view, ..a })
            &&& b.tree_view matches Some(u) && u@ == (TreeViewState {
                selected_index: if i > 0 {
                    (i - 1) as usize
                } else {
                    0
                },
                ..t
            })
        },
        TreeKey::Down => {
            &&& r is None
            &&& b == (App { tree_view: b.tree_view, ..a })
            &&& b.tree_view matches Some(u) && u@ == (TreeViewState {
                selected_index: if i + 1 < items.len() {
                    (i + 1) as usize
                } else {
                    i
                },
                ..t
            })
        },
        TreeKey::Leave => r is None && App::focus_moved(a, b, false),
        TreeKey::Other => r is None && b == a,
    }
}

/// Whether `mid` is `a` with the text and cursor of its active editor tab
/// changed as the key `k` changes them, the clipboard holding `clip`.
pub open spec fn edited(a: App, mid: App, k: KeyEvent, clip: Seq<char>) -> bool {
    let i = a.tab_manager.active();
    let t = a.tab_manager.tab_list()[i as int];
    let e = action_effect(
        key_action(k),
        EditState { text: t.text(), cursor: t.cursor_spec(), clipboard: clip },
    );
    let u = mid.tab_manager.tab_list()[i as int];
    &&& mid == (App { tab_manager: mid.tab_manager, ..a })
    &&& mid.tab_manager.active() == i
    &&& mid.tab_manager.tab_list() == a.tab_manager.tab_list().update(i as int, u)
    &&& u.text() == e.text
    &&& u == t.with_state(
        u.buffer_spec(),
        e.cursor,
        t.viewport_spec(),
        t.is_modified(),
        t.find_state(),
        t.undo_vec(),
        t.redo_vec(),
    )
}

/// Whether `b` and `r` are `a` and the request after the command `c`, if
/// any.
pub open spec fn after_command(a: App, b: App, c: Option<EditorCommand>, r: Option<AppRequest>) -> bool {
    match c {
        Some(c) => command_run(a, b, c, r),
        None => b == a && r is None,
    }
}

/// Whether `b` is `a` with its active tab scrolled to show the cursor in a
/// view of `h` lines.
pub open spec fn viewed(a: App, b: App, h: usize) -> bool {
    &&& b == (App { tab_manager: b.tab_manager, ..a })
    &&& active_changed(a.tab_manager, b.tab_manager, |x: Tab, y: Tab| scrolled(x, y, h))
}

/// Whether a command moves the view by a page, leaving the cursor.
pub open spec fn paging(c: Option<EditorCommand>) -> bool {
    c == Some(EditorCommand::PageUp) || c == Some(EditorCommand::PageDown)
}

/// Whether `b`, `r` and the clipboard `c1` are `a`, the request and the
/// clipboard `c0` after `key` in the active tab. In an editor tab the key
/// edits the text and the cursor as the editor's key map says (when every
/// edit stays within the text), the command it stands for runs, and the
/// cursor is scrolled into view unless the command moved the view by a
/// page; other tabs do not take keys.
///
/// The application and a bare editor share one key map: a plain arrow,
/// Home or End clears the selection, the same move with Shift extends it,
/// Ctrl+A, Ctrl+C, Ctrl+X and Ctrl+V select all, copy, cut and paste, and
/// PageUp and PageDown scroll the view by a page.
pub open spec fn editor_key_handled(
    a: App,
    b: App,
    key: KeyEvent,
    c0: Seq<char>,
    c1: Seq<char>,
    r: Option<AppRequest>,
) -> bool {
    let i = a.tab_manager.active();
    let tabs = a.tab_manager.tab_list();
    let k = editor_key(key);
    let st = EditState {
        text: tabs[i as int].text(),
        cursor: tabs[i as int].cursor_spec(),
        clipboard: c0,
    };
    if i < tabs.len() && tabs[i as int].is_editor() && action_ok(key_action(k), st) {
        &&& c1 == action_effect(key_action(k), st).clipboard
        &&& exists|mid: App, mid2: App|
            #![trigger edited(a, mid, k, c0), after_command(mid, mid2, action_command(key_action(k)), r)]
            edited(a, mid, k, c0) && after_command(mid, mid2, action_command(key_action(k)), r)
                && if paging(action_command(key_action(k))) {
                b == mid2
            } else {
                viewed(mid2, b, view_height(a))
            }
    } else {
        b == a && r is None && c1 == c0
    }
}

impl App {
    /// Runs the command `c`, leaving out a new tab when the tab count is at
    /// the top of `usize`.
    pub(crate) fn run_command(&mut self, c: EditorCommand) -> (r: Option<AppRequest>)
        ensures
            command_run(*old(self), *final(self), c, r),
    {
        if c == EditorCommand::NewTab && self.tab_manager.len() >= usize::MAX - 1 {
            return None;
        }
        self.handle_command(c)
    }

    /// Handles a key of the focused file tree.
    fn handle_tree_key(&mut self, k: TreeKey) -> (r: Option<AppRequest>)
        requires
            old(self).tree_view is Some,
        ensures
            tree_key_handled(*old(self), *final(self), k, r),
    {
        match k {
            TreeKey::Open => {
                match &self.tree_view {
                    Some(tree_view) => match tree_view.get_selected_item() {
                        Some(item) => {
                            if item.is_dir {
                                Some(AppRequest::ToggleTreeSelection)
                            } else {
                                Some(AppRequest::OpenFile(item.path.clone()))
                            }
                        },
                        None => None,
                    },
                    None => None,
                }
            },
            TreeKey::Toggle => Some(AppRequest::ToggleTreeSelection),
            TreeKey::Up => {
                match &mut self.tree_view {
                    Some(tree_view) => tree_view.move_up(),
                    None => {},
                }
                None
            },
            TreeKey::Down => {
                match &mut self.tree_view {
                    Some(tree_view) => tree_view.move_down(),
                    None => {},
                }
                None
            },
            TreeKey::Leave => {
                self.focus_mode = FocusMode::Editor;
                match &mut self.tree_view {
                    Some(tree_view) => tree_view.set_focused(false),
                    None => {},
                }
                None
            },
            TreeKey::Other => None,
        }
    }

    /// Edits the active editor tab with `k`, when every edit stays within
    /// the text; returns the command the key stands for.
    fn edit_active(&mut self, k: KeyEvent, clipboard: &mut String) -> (res: (bool, Option<EditorCommand>))
        ensures
            ({
                let a = *old(self);
                let i = a.tab_manager.active();
                let tabs = a.tab_manager.tab_list();
                let st = EditState {
                    text: tabs[i as int].text(),
                    cursor: tabs[i as int].cursor_spec(),
                    clipboard: old(clipboard)@,
                };
                if i < tabs.len() && tabs[i as int].is_editor() && action_ok(key_action(k), st) {
                    &&& res.0
                    &&& edited(a, *final(self), k, old(clipboard)@)
                    &&& final(clipboard)@ == action_effect(key_action(k), st).clipboard
                    &&& res.1 == action_command(key_action(k))
                } else {
                    !res.0 && *final(self) == a && *final(clipboard) == *old(clipboard)
                }
            }),
    {
        let safe = match self.tab_manager.active_tab() {
            Some(tab) => match tab {
                Tab::Editor { buffer, cursor, .. } => key_is_safe(k, buffer, cursor, clipboard),
                Tab::Terminal { .. } => false,
            },
            None => false,
        };
        if !safe {
            return (false, None);
        }
        let c = match self.tab_manager.active_tab_mut() {
            Some(tab) => match tab {
                Tab::Editor { buffer, cursor, .. } => {
                    crate::keyboard::handle_key_event(k, buffer, cursor, clipboard)
                },
                Tab::Terminal { .. } => None,
            },
            None => None,
        };
        (true, c)
    }

    /// Scrolls the active tab so that its cursor shows in a view of `h`
    /// lines; nothing when no line is left for the text.
    fn scroll_active(&mut self, h: usize)
        ensures
            viewed(*old(self), *final(self), h),
    {
        match self.tab_manager.active_tab_mut() {
            Some(tab) => {
                if h > 0 || !tab.is_editor_tab() {
                    tab.update_viewport(h);
                }
            },
            None => {},
        }
    }

    /// Handles a key in the active tab.
    fn handle_editor_key(&mut self, key: KeyEvent, clipboard: &mut String) -> (r: Option<AppRequest>)
        ensures
            editor_key_handled(*old(self), *final(self), key, old(clipboard)@, final(clipboard)@, r),
    {
        let ghost a = *self;
        let h = self.terminal_size.1.saturating_sub(2) as usize;
        let k = if key.code == KeyCode::Tab && key.modifiers.is_none() {
            KeyEvent { code: KeyCode::Char('\t'), modifiers: key.modifiers }
        } else {
            key
        };
        assert(k == editor_key(key));
        let (applied, c) = self.edit_active(k, clipboard);
        if !applied {
            return None;
        }
        let ghost mid = *self;
        let r = match c {
            Some(c) => self.run_command(c),
            None => None,
        };
        let ghost mid2 = *self;
        let paged = match c {
            Some(EditorCommand::PageUp) | Some(EditorCommand::PageDown) => true,
            _ => false,
        };
        if !paged {
            self.scroll_active(h);
        }
        proof {
            let i = a.tab_manager.active();
            let tabs = a.tab_manager.tab_list();
            let st = EditState {
                text: tabs[i as int].text(),
                cursor: tabs[i as int].cursor_spec(),
                clipboard: old(clipboard)@,
            };
            if action_ok(key_action(k), st) {
                assert(edited(a, mid, k, old(clipboard)@));
                assert(after_command(mid, mid2, action_command(key_action(k)), r));
                if !paging(action_command(key_action(k))) {
                    assert(viewed(mid2, *self, view_height(a)));
                }
            }
        }
        r
    }

    /// Handles a key press at `now_ms`: see `key_route` for who takes it.
    /// The clipboard is the one the editor tabs share. Tells whether the
    /// editor took the key (dialogs and the picker answer `false`), and
    /// returns the work the application is to carry out, if any.
    #[verifier::spinoff_prover]
    #[verifier::rlimit(40)]
    pub fn handle_key_event(&mut self, key: KeyEvent, now_ms: u64, clipboard: &mut String) -> (res: (
        bool,
        Option<AppRequest>,
    ))
        requires
            crate::dialog_keys::toggle_in_range(*old(self), key),
        ensures
            ({
                let a = *old(self);
                let b = *final(self);
                let (handled, r) = res;
                match key_route(a, key) {
                    KeyRoute::Warning => !handled && warning_key_done(a, b, warning_key(key), r),
                    KeyRoute::Picker => !handled && picker_key_handled(a, b, key, r),
                    KeyRoute::Dialog => !handled && dialog_key_handled(a, b, key, r),
                    KeyRoute::FindBar => handled && r is None && find_bar_handled(
                        a,
                        b,
                        key,
                        now_ms,
                        true,
                    ),
                    KeyRoute::Global(c) => handled && command_run(a, b, c, r),
                    KeyRoute::Tree(k) => handled && tree_key_handled(a, b, k, r),
                    KeyRoute::Editor => handled && editor_key_handled(
                        a,
                        b,
                        key,
                        old(clipboard)@,
                        final(clipboard)@,
                        r,
                    ),
                }
            }),
            key_route(*old(self), key) != KeyRoute::Editor ==> *final(clipboard) == *old(
                clipboard,
            ),
    {
        if self.warning_message.is_some() {
            let r = self.handle_warning_key(key);
            return (false, r);
        }
        let (picker, dialog) = match &self.menu_system.state {
            MenuState::FilePicker(_) => (true, false),
            MenuState::InputDialog(_) => (false, true),
            _ => (false, false),
        };
        if picker {
            let r = self.handle_file_picker_key(key);
            return (false, r);
        }
        if dialog {
            let r = self.handle_input_dialog_key(key);
            return (false, r);
        }
        let fk = classify_find_key(key);
        let find_takes = match self.tab_manager.active_tab() {
            Some(tab) => {
                if tab.is_editor_tab() && tab.find_is_active() {
                    match fk {
                        FindKey::Other => false,
                        FindKey::SwitchField => match tab {
                            Tab::Editor { find_replace_state, .. } => find_replace_state.is_replace_mode,
                            Tab::Terminal { .. } => false,
                        },
                        _ => true,
                    }
                } else {
                    false
                }
            },
            None => false,
        };
        if find_takes {
            let consumed = self.handle_find_replace_key(key, now_ms);
            return (consumed, None);
        }
        match classify_global_key(key) {
            Some(c) => {
                let r = self.run_command(c);
                return (true, r);
            },
            None => {},
        }
        if self.focus_mode == FocusMode::TreeView && self.tree_view.is_some() {
            let tk = classify_tree_key(key);
            if tk != TreeKey::Other {
                let r = self.handle_tree_key(tk);
                return (true, r);
            }
        }
        let r = self.handle_editor_key(key, clipboard);
        (true, r)
    }
}

} // verus!
