//! The editor as a whole: its tabs, menus, file tree, dialogs and status
//! line, and how commands change them. Work that needs the disk or a
//! terminal comes back as an `AppRequest` for the application to carry out.
use vstd::prelude::*;
use crate::tab_manager::{TabManager, next_active, prev_active, active_after_close};
use crate::tab::{Tab, viewport_for, str_to_string};
use crate::menu::MenuSystem;
use crate::tree_view::{TreeView, TreeViewState};
use crate::tree::DirListing;
use crate::ui_state::{UI, FocusMode};
use crate::keyboard::EditorCommand;
use crate::messages::{
    modified_names, quit_warning, close_warning, unsaved_names, quit_warning_text,
    close_warning_text, decimal_string, append, concat3,
};

verus! {

/// Work the application carries out for the editor, reporting back through
/// the method each variant names.
pub enum AppRequest {
    /// Write `content` to the file at `path`; report with `file_saved`.
    SaveFile { path: String, content: String },
    /// Ask for a name to save the active tab under: `open_save_dialog`
    /// with the current directory.
    AskSaveName,
    /// Expand the file tree down to the file at the path: read the
    /// listings on the way and call `reveal_in_tree`.
    RevealInTree(String),
    /// Open the file picker, near the file at the path if any.
    OpenFilePicker(Option<String>),
    /// Start a terminal and add its tab with `create_new_terminal_tab`.
    NewTerminal,
    /// Read the file at the path and open it with `open_file_in_tab`, or
    /// show why it failed with `set_status_message`.
    OpenFile(String),
    /// Read the listing of the selected directory of the file tree and
    /// toggle it with `TreeView::toggle_directory`.
    ToggleTreeSelection,
    /// Delete the file or directory at the path; report with
    /// `delete_done`.
    Delete(String),
    /// Carry out a file operation of the input dialog.
    FileOperation { operation: String, target: String, input: String },
    /// Move the file picker into the directory at the path, with the
    /// listings read and the rules of its repository: call
    /// `FilePickerState::enter_directory`.
    EnterPickerDirectory(String),
    /// Move the file picker to the parent of its directory:
    /// `FilePickerState::go_up`.
    PickerGoUp,
    /// A click or drag at `row` on the scrollbar of the text view: work
    /// out the line to show and call `scroll_active_to`.
    ScrollbarClick { row: u16 },
    /// A click or drag at `row` on the scrollbar of the file picker: work
    /// out the item and call `picker_scroll_to`.
    PickerScrollbarClick { row: u16 },
}

/// The editor.
pub struct App {
    pub tab_manager: TabManager,
    pub running: bool,
    pub ui: UI,
    pub warning_message: Option<String>,
    pub pending_close: bool,
    pub pending_quit: bool,
    /// 0 for No, 1 for Yes.
    pub warning_selected_button: usize,
    /// An information with an OK button only, rather than a question.
    pub warning_is_info: bool,
    pub mouse_selecting: bool,
    pub last_click_time: Option<u64>,
    pub last_click_pos: Option<(u16, u16)>,
    /// (width, height).
    pub terminal_size: (u16, u16),
    pub menu_system: MenuSystem,
    pub scrollbar_dragging: bool,
    pub file_picker_scrollbar_dragging: bool,
    pub tree_view: Option<TreeView>,
    pub sidebar_width: u16,
    pub sidebar_resizing: bool,
    pub focus_mode: FocusMode,
    pub tree_scrollbar_dragging: bool,
    pub status_message: Option<String>,
    /// When the status message goes, in milliseconds.
    pub status_message_expires: Option<u64>,
    pub pending_delete_path: Option<String>,
    pub global_word_wrap: bool,
    pub last_scroll_time: Option<u64>,
    pub scroll_acceleration: usize,
    pub dragging_tab: Option<usize>,
    pub drag_start_x: u16,
    pub tab_was_active_on_click: bool,
}

/// `a + b`, kept at `u64::MAX` above it.
pub open spec fn sat_add(a: u64, b: u64) -> u64 {
    if a + b <= u64::MAX {
        (a + b) as u64
    } else {
        u64::MAX
    }
}

/// The tab list `b` is `a` with its active tab (if its index is in range)
/// changed as `rel` says, the rest kept.
pub open spec fn active_changed(a: TabManager, b: TabManager, rel: spec_fn(Tab, Tab) -> bool) -> bool {
    let i = a.active();
    if i < a.tab_list().len() {
        &&& b.active() == i
        &&& b.tab_list() == a.tab_list().update(i as int, b.tab_list()[i as int])
        &&& rel(a.tab_list()[i as int], b.tab_list()[i as int])
    } else {
        b.tab_list() == a.tab_list() && b.active() == a.active()
    }
}

/// The file tree `b` is `a` with its focus flag set to `focused`.
pub open spec fn tree_focused(a: Option<TreeView>, b: Option<TreeView>, focused: bool) -> bool {
    match a {
        Some(t) => b matches Some(u) && u@ == (TreeViewState { is_focused: focused, ..t@ }),
        None => b is None,
    }
}

/// The number of rows of the text view: the terminal height less two.
pub open spec fn view_height(a: App) -> usize {
    if a.terminal_size.1 >= 2 {
        (a.terminal_size.1 - 2) as usize
    } else {
        0
    }
}

/// The number of rows a page moves: the terminal height less four.
pub open spec fn page_size(a: App) -> usize {
    if a.terminal_size.1 >= 4 {
        (a.terminal_size.1 - 4) as usize
    } else {
        0
    }
}

/// The tab `b` is `a` scrolled so that its cursor is within `h` rows; the
/// scroll is skipped when no row is left for the text.
pub open spec fn scrolled(a: Tab, b: Tab, h: usize) -> bool {
    if a.is_editor() && h > 0 {
        b == a.with_viewport(viewport_for(a.cursor_spec().position, a.viewport_spec(), h))
    } else {
        b == a
    }
}

/// The path of the file of the active tab, if any.
pub open spec fn active_path(a: App) -> Option<Seq<char>> {
    let i = a.tab_manager.active();
    if i < a.tab_manager.tab_list().len() {
        a.tab_manager.tab_list()[i as int].path_spec()
    } else {
        None
    }
}

/// Whether `r` asks to reveal the file of the active tab in the tree: only
/// when there is a tree and the active tab has a file.
pub open spec fn reveal_requested(a: App, r: Option<AppRequest>) -> bool {
    match (a.tree_view, active_path(a)) {
        (Some(_), Some(p)) => r matches Some(AppRequest::RevealInTree(q)) && q@ == p,
        _ => r is None,
    }
}

impl App {
    /// The editor with one empty tab (not wrapping lines), no menu, no
    /// dialog, the given file tree (if it could be read), the editor
    /// focused.
    pub fn new(tree_view: Option<TreeView>) -> (app: Self)
        ensures
            app.tab_manager.wf(),
            app.tab_manager.tab_list().len() == 1,
            app.tab_manager.active() == 0,
            app.tab_manager.tab_list()[0].is_editor(),
            app.tab_manager.tab_list()[0].name_spec() == "untitled"@,
            app.tab_manager.tab_list()[0].text() == Seq::<char>::empty(),
            !app.tab_manager.tab_list()[0].word_wrap_spec(),
            app.running,
            app.warning_message is None,
            !app.pending_close && !app.pending_quit,
            app.warning_selected_button == 0,
            !app.warning_is_info,
            app.terminal_size == (80u16, 24u16),
            app.menu_system.state is Closed,
            app.tree_view == tree_view,
            app.sidebar_width == 30,
            app.focus_mode == FocusMode::Editor,
            app.status_message is None,
            app.status_message_expires is None,
            app.pending_delete_path is None,
            !app.global_word_wrap,
            app.scroll_acceleration == 1,
            app.dragging_tab is None,
    {
        let mut app = App {
            tab_manager: TabManager::new(),
            running: true,
            ui: UI::new(),
            warning_message: None,
            pending_close: false,
            pending_quit: false,
            warning_selected_button: 0,
            warning_is_info: false,
            mouse_selecting: false,
            last_click_time: None,
            last_click_pos: None,
            terminal_size: (80, 24),
            menu_system: MenuSystem::new(),
            scrollbar_dragging: false,
            file_picker_scrollbar_dragging: false,
            tree_view,
            sidebar_width: 30,
            sidebar_resizing: false,
            focus_mode: FocusMode::Editor,
            tree_scrollbar_dragging: false,
            status_message: None,
            status_message_expires: None,
            pending_delete_path: None,
            global_word_wrap: false,
            last_scroll_time: None,
            scroll_acceleration: 1,
            dragging_tab: None,
            drag_start_x: 0,
            tab_was_active_on_click: false,
        };
        let wrap = app.global_word_wrap;
        match app.tab_manager.active_tab_mut() {
            Some(tab) => {
                tab.set_word_wrap(wrap);
            },
            None => {},
        }
        app
    }

    /// Shows `message` in the status line until `duration_ms` milliseconds
    /// after `now_ms`.
    pub fn set_status_message(&mut self, message: String, now_ms: u64, duration_ms: u64)
        ensures
            *final(self) == (App {
                status_message: Some(message),
                status_message_expires: Some(sat_add(now_ms, duration_ms)),
                ..*old(self)
            }),
    {
        self.status_message = Some(message);
        self.status_message_expires = Some(now_ms.saturating_add(duration_ms));
    }

    /// Clears the status message once its time is past.
    pub fn update_status_message(&mut self, now_ms: u64)
        ensures
            (old(self).status_message_expires matches Some(e) && now_ms > e) ==> *final(self) == (
            App { status_message: None, status_message_expires: None, ..*old(self) }),
            !(old(self).status_message_expires matches Some(e) && now_ms > e) ==> *final(self)
                == *old(self),
    {
        match self.status_message_expires {
            Some(expires) => {
                if now_ms > expires {
                    self.status_message = None;
                    self.status_message_expires = None;
                }
            },
            None => {},
        }
    }

    /// Sets the focus flag of the file tree, if there is one.
    fn set_tree_focus(&mut self, focused: bool)
        ensures
            tree_focused(old(self).tree_view, final(self).tree_view, focused),
            *final(self) == (App { tree_view: final(self).tree_view, ..*old(self) }),
    {
        match &mut self.tree_view {
            Some(tree_view) => {
                tree_view.set_focused(focused);
            },
            None => {},
        }
    }

    /// Asks before quitting when tabs have unsaved changes (naming the tab,
    /// or counting them); quits otherwise.
    pub fn handle_quit(&mut self)
        ensures
            App::quit_asked(*old(self), *final(self)),
    {
        let names = unsaved_names(self.tab_manager.tabs());
        if names.len() > 0 {
            let message = quit_warning_text(&names);
            self.warning_message = Some(message);
            self.pending_quit = true;
            self.warning_selected_button = 0;
            return;
        }
        self.running = false;
    }

    /// Whether `b` is `a` after `handle_quit`.
    pub open spec fn quit_asked(a: App, b: App) -> bool {
        let names = modified_names(a.tab_manager.tab_list());
        if names.len() > 0 {
            &&& b == (App {
                warning_message: b.warning_message,
                pending_quit: true,
                warning_selected_button: 0,
                ..a
            })
            &&& b.warning_message matches Some(m) && m@ == quit_warning(names)
        } else {
            b == (App { running: false, ..a })
        }
    }

    /// Asks before quitting when tabs have unsaved changes, as
    /// `handle_quit` does; true when it asked.
    pub fn check_unsaved_on_quit(&mut self) -> (asked: bool)
        ensures
            asked == (modified_names(old(self).tab_manager.tab_list()).len() > 0),
            asked ==> App::quit_asked(*old(self), *final(self)),
            !asked ==> *final(self) == *old(self),
    {
        let names = unsaved_names(self.tab_manager.tabs());
        if names.len() > 0 {
            let message = quit_warning_text(&names);
            self.warning_message = Some(message);
            self.pending_quit = true;
            self.warning_selected_button = 0;
            return true;
        }
        false
    }

    /// Whether `b` is `a` after `handle_close_tab`: a warning when the
    /// active tab has unsaved changes; else the tab closed, and the editor
    /// stops when it was the last one.
    pub open spec fn close_asked(a: App, b: App) -> bool {
        let i = a.tab_manager.active();
        let tabs = a.tab_manager.tab_list();
        if i < tabs.len() && tabs[i as int].is_modified() {
            &&& b == (App {
                warning_message: b.warning_message,
                pending_close: true,
                warning_selected_button: 0,
                ..a
            })
            &&& b.warning_message matches Some(m) && m@ == close_warning(tabs[i as int].name_spec())
        } else {
            let closed = tabs.len() > 1 && i < tabs.len();
            &&& b == (App { tab_manager: b.tab_manager, running: a.running && closed, ..a })
            &&& closed ==> b.tab_manager.tab_list() == tabs.remove(i as int)
                && b.tab_manager.active() == active_after_close(i, tabs.len())
            &&& !closed ==> b.tab_manager.tab_list() == tabs && b.tab_manager.active() == i
        }
    }

    /// Closes the active tab, asking first when it has unsaved changes; the
    /// editor stops when the tab could not be closed.
    pub fn handle_close_tab(&mut self)
        ensures
            App::close_asked(*old(self), *final(self)),
    {
        let warn = match self.tab_manager.active_tab() {
            Some(tab) => {
                if tab.modified() {
                    Some(close_warning_text(tab.name().as_str()))
                } else {
                    None
                }
            },
            None => None,
        };
        match warn {
            Some(message) => {
                self.warning_message = Some(message);
                self.pending_close = true;
                self.warning_selected_button = 0;
                return;
            },
            None => {},
        }
        if !self.tab_manager.close_current_tab() {
            self.running = false;
        }
    }

    /// Same as `handle_close_tab`.
    pub fn close_current_tab_with_confirmation(&mut self)
        ensures
            App::close_asked(*old(self), *final(self)),
    {
        self.handle_close_tab();
    }

    /// The request that reveals the file of the active tab in the tree, if
    /// there is a tree and the tab has a file.
    pub(crate) fn expand_tree_request(&self) -> (r: Option<AppRequest>)
        ensures
            reveal_requested(*self, r),
    {
        if self.tree_view.is_none() {
            return None;
        }
        match self.tab_manager.active_tab() {
            Some(tab) => match tab.path() {
                Some(p) => Some(AppRequest::RevealInTree(p.clone())),
                None => None,
            },
            None => None,
        }
    }

    /// Expands the file tree down to the file of the active tab, loading the
    /// directories on the way from the listings; a failure leaves the tree
    /// as far as it got.
    pub fn expand_tree_to_current_file(&mut self, fs: &[DirListing])
        ensures
            *final(self) == (App { tree_view: final(self).tree_view, ..*old(self) }),
            match (old(self).tree_view, active_path(*old(self))) {
                (Some(t), Some(p)) => final(self).tree_view matches Some(u) && ({
                    let (w, res) = crate::tree::expanded_to(t@.root, p, fs@);
                    match res {
                        Err(_) => u@ == (TreeViewState { root: w, ..t@ }),
                        Ok(_) => u@ == crate::tree_view::select_path(
                            TreeViewState { root: crate::tree_view::marked(w, t@.gitignore), ..t@ },
                            p,
                        ),
                    }
                }),
                _ => final(self).tree_view == old(self).tree_view,
            },
    {
        let path = match self.tab_manager.active_tab() {
            Some(tab) => match tab.path() {
                Some(p) => Some(p.clone()),
                None => None,
            },
            None => None,
        };
        match (&mut self.tree_view, path) {
            (Some(tree_view), Some(p)) => {
                let _ = tree_view.expand_to_file(p.as_str(), fs);
            },
            _ => {},
        }
    }

    /// Same as `expand_tree_to_current_file`, for a `RevealInTree` request.
    pub fn reveal_in_tree(&mut self, fs: &[DirListing])
        ensures
            *final(self) == (App { tree_view: final(self).tree_view, ..*old(self) }),
    {
        self.expand_tree_to_current_file(fs);
    }

    /// Adds an empty tab named "untitled-N" (N one more than the number of
    /// tabs), wrapping lines as set for all tabs, makes it active and
    /// focuses the editor.
    pub fn create_new_tab(&mut self)
        requires
            old(self).tab_manager.tab_list().len() + 1 < usize::MAX,
        ensures
            App::tab_created(*old(self), *final(self)),
    {
        let mut name = str_to_string("untitled-");
        let n = decimal_string(self.tab_manager.len() + 1);
        append(&mut name, n.as_str());
        let mut new_tab = Tab::new(name);
        new_tab.set_word_wrap(self.global_word_wrap);
        self.tab_manager.add_tab(new_tab);
        self.focus_mode = FocusMode::Editor;
        self.set_tree_focus(false);
    }

    /// Adds a terminal tab for the terminal `terminal_id`, makes it active
    /// and focuses the editor.
    pub fn create_new_terminal(&mut self, terminal_id: u64)
        requires
            old(self).tab_manager.tab_list().len() < usize::MAX,
        ensures
            ({
                let tabs = old(self).tab_manager.tab_list();
                let t = final(self).tab_manager.tab_list().last();
                &&& final(self).tab_manager.tab_list() == tabs.push(t)
                &&& final(self).tab_manager.active() == tabs.len()
                &&& t matches Tab::Terminal { terminal_id: id, .. } && id == terminal_id
                &&& t.name_spec() == "Terminal"@
                &&& tree_focused(old(self).tree_view, final(self).tree_view, false)
                &&& *final(self) == (App {
                    tab_manager: final(self).tab_manager,
                    focus_mode: FocusMode::Editor,
                    tree_view: final(self).tree_view,
                    ..*old(self)
                })
            }),
    {
        let terminal_tab = Tab::new_terminal(terminal_id);
        self.tab_manager.add_tab(terminal_tab);
        self.focus_mode = FocusMode::Editor;
        self.set_tree_focus(false);
    }

    /// Same as `create_new_terminal`, for a `NewTerminal` request.
    pub fn create_new_terminal_tab(&mut self, terminal_id: u64)
        requires
            old(self).tab_manager.tab_list().len() < usize::MAX,
        ensures
            ({
                let tabs = old(self).tab_manager.tab_list();
                let t = final(self).tab_manager.tab_list().last();
                &&& final(self).tab_manager.tab_list() == tabs.push(t)
                &&& final(self).tab_manager.active() == tabs.len()
                &&& t matches Tab::Terminal { terminal_id: id, .. } && id == terminal_id
                &&& tree_focused(old(self).tree_view, final(self).tree_view, false)
                &&& *final(self) == (App {
                    tab_manager: final(self).tab_manager,
                    focus_mode: FocusMode::Editor,
                    tree_view: final(self).tree_view,
                    ..*old(self)
                })
            }),
    {
        self.create_new_terminal(terminal_id);
    }

    /// Opens the file at `path` holding `content` in a tab (or activates the
    /// tab that has it open), wrapping lines as set for all tabs, focuses the
    /// editor, and asks to reveal the file in the tree.
    pub fn open_file_in_tab(&mut self, path: String, content: &str) -> (r: Option<AppRequest>)
        requires
            old(self).tab_manager.tab_list().len() < usize::MAX,
        ensures
            final(self).focus_mode == FocusMode::Editor,
            tree_focused(old(self).tree_view, final(self).tree_view, false),
            *final(self) == (App {
                tab_manager: final(self).tab_manager,
                focus_mode: FocusMode::Editor,
                tree_view: final(self).tree_view,
                ..*old(self)
            }),
            active_path(*final(self)) matches Some(p) && (p == path@ || crate::paths::paths_equal(p, path@)),
            reveal_requested(*final(self), r),
    {
        let ghost p = path@;
        let mut new_tab = Tab::from_file(path, content);
        new_tab.set_word_wrap(self.global_word_wrap);
        let ghost tabs0 = self.tab_manager.tab_list();
        self.tab_manager.add_tab(new_tab);
        proof {
            if crate::tab_manager::first_with_path(tabs0, p, 0) is Some {
                crate::tab_manager::lemma_first_with_path(tabs0, p, 0);
            }
        }
        let r = self.expand_tree_request();
        self.focus_mode = FocusMode::Editor;
        self.set_tree_focus(false);
        r
    }
}

/// The tab `b` is `a` after a toggle of its markdown preview.
pub open spec fn preview_toggled(a: Tab, b: Tab) -> bool {
    if a.is_editor() && crate::tab::is_markdown_spec(a.path_spec(), a.name_spec()) {
        b == a.with_preview(!a.preview_spec())
    } else {
        b == a
    }
}

/// The tab `b` is `a` with line wrapping set to `w` (a terminal tab kept).
pub open spec fn wrap_set(a: Tab, b: Tab, w: bool) -> bool {
    if a.is_editor() {
        b == a.with_word_wrap(w)
    } else {
        b == a
    }
}

/// The tab `b` is `a` with its view moved up (`up`) or down by `n` lines.
pub open spec fn paged(a: Tab, b: Tab, up: bool, n: usize) -> bool {
    if a.is_editor() {
        let l = a.viewport_spec().0;
        let nl: usize = if up {
            if l >= n {
                (l - n) as usize
            } else {
                0
            }
        } else {
            if l + n <= usize::MAX {
                (l + n) as usize
            } else {
                usize::MAX
            }
        };
        b == a.with_viewport((nl, a.viewport_spec().1))
    } else {
        b == a
    }
}

/// The tab `b` is `a` after a successful `undo` (or `redo` with `redo`)
/// followed by a scroll of the cursor into `h` rows, or `a` itself when
/// there was nothing to undo (or redo).
pub open spec fn history_moved(a: Tab, b: Tab, redo: bool, h: usize) -> bool {
    if redo {
        if a.is_editor() && a.redo_snapshots().len() > 0 {
            exists|m: Tab| Tab::redone(a, m) && scrolled(m, b, h)
        } else {
            b == a
        }
    } else {
        if a.is_editor() && a.undo_snapshots().len() > 0 {
            exists|m: Tab| Tab::undone(a, m) && scrolled(m, b, h)
        } else {
            b == a
        }
    }
}

/// The tab `b` is `a` marked modified and scrolled so that its cursor is
/// within `h` rows.
pub open spec fn modified_scrolled(a: Tab, b: Tab, h: usize) -> bool {
    scrolled(a.with_modified(true), b, h)
}

impl App {
    /// Activates the next tab and asks to reveal its file in the tree.
    pub fn switch_next_tab(&mut self) -> (r: Option<AppRequest>)
        ensures
            *final(self) == (App { tab_manager: final(self).tab_manager, ..*old(self) }),
            final(self).tab_manager.tab_list() == old(self).tab_manager.tab_list(),
            old(self).tab_manager.tab_list().len() > 0 ==> final(self).tab_manager.active()
                == next_active(old(self).tab_manager.active(), old(self).tab_manager.tab_list().len()),
            old(self).tab_manager.tab_list().len() == 0 ==> final(self).tab_manager.active() == old(
                self,
            ).tab_manager.active(),
            reveal_requested(*final(self), r),
    {
        self.tab_manager.next_tab();
        self.expand_tree_request()
    }

    /// Activates the previous tab and asks to reveal its file in the tree.
    pub fn switch_prev_tab(&mut self) -> (r: Option<AppRequest>)
        ensures
            *final(self) == (App { tab_manager: final(self).tab_manager, ..*old(self) }),
            final(self).tab_manager.tab_list() == old(self).tab_manager.tab_list(),
            old(self).tab_manager.tab_list().len() > 0 ==> final(self).tab_manager.active()
                == prev_active(old(self).tab_manager.active(), old(self).tab_manager.tab_list().len()),
            old(self).tab_manager.tab_list().len() == 0 ==> final(self).tab_manager.active() == old(
                self,
            ).tab_manager.active(),
            reveal_requested(*final(self), r),
    {
        self.tab_manager.prev_tab();
        self.expand_tree_request()
    }

    /// Closes every tab but the active one. Nothing when the active index is
    /// out of range (the tab list would not know which tab to keep).
    pub fn close_other_tabs(&mut self)
        ensures
            *final(self) == (App { tab_manager: final(self).tab_manager, ..*old(self) }),
            ({
                let tabs = old(self).tab_manager.tab_list();
                let i = old(self).tab_manager.active();
                if i < tabs.len() {
                    final(self).tab_manager.tab_list() == seq![tabs[i as int]]
                        && final(self).tab_manager.active() == 0
                } else {
                    final(self).tab_manager.tab_list() == tabs && final(self).tab_manager.active() == i
                }
            }),
    {
        if self.tab_manager.active_index() < self.tab_manager.len() {
            self.tab_manager.close_other_tabs();
        }
    }

    /// Switches the markdown preview of the active tab.
    pub fn toggle_preview_mode(&mut self)
        ensures
            *final(self) == (App { tab_manager: final(self).tab_manager, ..*old(self) }),
            active_changed(
                old(self).tab_manager,
                final(self).tab_manager,
                |x: Tab, y: Tab| preview_toggled(x, y),
            ),
    {
        match self.tab_manager.active_tab_mut() {
            Some(tab) => {
                tab.toggle_preview_mode();
            },
            None => {},
        }
    }

    /// Sets line wrapping of every editor tab as set for all tabs.
    pub fn apply_word_wrap_to_all_tabs(&mut self)
        ensures
            *final(self) == (App { tab_manager: final(self).tab_manager, ..*old(self) }),
            final(self).tab_manager.active() == old(self).tab_manager.active(),
            final(self).tab_manager.tab_list().len() == old(self).tab_manager.tab_list().len(),
            forall|i: int|
                0 <= i < old(self).tab_manager.tab_list().len() ==> wrap_set(
                    #[trigger] old(self).tab_manager.tab_list()[i],
                    final(self).tab_manager.tab_list()[i],
                    old(self).global_word_wrap,
                ),
    {
        let wrap = self.global_word_wrap;
        self.tab_manager.set_word_wrap_all(wrap);
    }

    /// Scrolls the active tab so that its cursor is within the rows of the
    /// text view.
    pub fn update_current_tab_viewport(&mut self)
        ensures
            *final(self) == (App { tab_manager: final(self).tab_manager, ..*old(self) }),
            active_changed(
                old(self).tab_manager,
                final(self).tab_manager,
                |x: Tab, y: Tab| scrolled(x, y, view_height(*old(self))),
            ),
    {
        let h = self.terminal_size.1.saturating_sub(2) as usize;
        match self.tab_manager.active_tab_mut() {
            Some(tab) => {
                if h > 0 || !tab.is_editor_tab() {
                    tab.update_viewport(h);
                }
            },
            None => {},
        }
    }

    /// Same as `update_current_tab_viewport`.
    pub fn ensure_cursor_visible(&mut self)
        ensures
            *final(self) == (App { tab_manager: final(self).tab_manager, ..*old(self) }),
            active_changed(
                old(self).tab_manager,
                final(self).tab_manager,
                |x: Tab, y: Tab| scrolled(x, y, view_height(*old(self))),
            ),
    {
        self.update_current_tab_viewport();
    }

    /// Moves the view of the active tab up by a page (the terminal height
    /// less four lines).
    pub fn page_up(&mut self)
        ensures
            *final(self) == (App { tab_manager: final(self).tab_manager, ..*old(self) }),
            active_changed(
                old(self).tab_manager,
                final(self).tab_manager,
                |x: Tab, y: Tab| paged(x, y, true, page_size(*old(self))),
            ),
    {
        let n = self.terminal_size.1.saturating_sub(4) as usize;
        match self.tab_manager.active_tab_mut() {
            Some(tab) => {
                tab.viewport_up(n);
            },
            None => {},
        }
    }

    /// Moves the view of the active tab down by a page.
    pub fn page_down(&mut self)
        ensures
            *final(self) == (App { tab_manager: final(self).tab_manager, ..*old(self) }),
            active_changed(
                old(self).tab_manager,
                final(self).tab_manager,
                |x: Tab, y: Tab| paged(x, y, false, page_size(*old(self))),
            ),
    {
        let n = self.terminal_size.1.saturating_sub(4) as usize;
        match self.tab_manager.active_tab_mut() {
            Some(tab) => {
                tab.viewport_down(n);
            },
            None => {},
        }
    }

    /// Saves the active editor tab: asks for a name when it has no file,
    /// else asks to write its text to its file. Nothing for a terminal tab.
    pub fn save_current_file(&mut self) -> (r: Option<AppRequest>)
        ensures
            *final(self) == *old(self),
            ({
                let i = old(self).tab_manager.active();
                let tabs = old(self).tab_manager.tab_list();
                if i < tabs.len() && tabs[i as int].is_editor() {
                    match tabs[i as int].path_spec() {
                        None => r matches Some(AppRequest::AskSaveName),
                        Some(p) => r matches Some(AppRequest::SaveFile { path, content })
                            && path@ == p && content@ == tabs[i as int].text(),
                    }
                } else {
                    r is None
                }
            }),
    {
        match self.tab_manager.active_tab() {
            Some(tab) => {
                match tab {
                    Tab::Editor { path, buffer, .. } => match path {
                        None => Some(AppRequest::AskSaveName),
                        Some(p) => Some(
                            AppRequest::SaveFile { path: p.clone(), content: buffer.to_string() },
                        ),
                    },
                    Tab::Terminal { .. } => None,
                }
            },
            None => None,
        }
    }

    /// Opens the dialog that asks for the name to save the active tab under,
    /// in the directory `current_dir`.
    pub fn open_save_dialog(&mut self, current_dir: String)
        ensures
            *final(self) == (App { menu_system: final(self).menu_system, ..*old(self) }),
            final(self).menu_system.state matches crate::menu::MenuState::InputDialog(d) && {
                &&& d.prompt@ == "Save as:"@
                &&& d.operation@ == "save_file"@
                &&& d.target_path == current_dir
                &&& d.input@ == Seq::<char>::empty()
                &&& d.cursor_position == 0
            },
    {
        self.menu_system.open_input_dialog(
            str_to_string("Save as:"),
            str_to_string("save_file"),
            current_dir,
        );
    }

    /// Reports a write of the active tab to `path`: on success the tab is
    /// marked saved and "Saved: path" shows for two seconds, else "Failed to
    /// save: path" for three.
    pub fn file_saved(&mut self, path: &str, ok: bool, now_ms: u64)
        ensures
            ok ==> active_changed(
                old(self).tab_manager,
                final(self).tab_manager,
                |x: Tab, y: Tab| y == x.with_modified(false),
            ),
            !ok ==> final(self).tab_manager == old(self).tab_manager,
            final(self).status_message matches Some(m) && m@ == if ok {
                "Saved: "@ + path@
            } else {
                "Failed to save: "@ + path@
            },
            final(self).status_message_expires == Some(sat_add(now_ms, if ok { 2000u64 } else { 3000u64 })),
            *final(self) == (App {
                tab_manager: final(self).tab_manager,
                status_message: final(self).status_message,
                status_message_expires: final(self).status_message_expires,
                ..*old(self)
            }),
    {
        if ok {
            match self.tab_manager.active_tab_mut() {
                Some(tab) => {
                    tab.mark_saved();
                },
                None => {},
            }
            let mut m = str_to_string("Saved: ");
            append(&mut m, path);
            self.set_status_message(m, now_ms, 2000);
        } else {
            let mut m = str_to_string("Failed to save: ");
            append(&mut m, path);
            self.set_status_message(m, now_ms, 3000);
        }
    }
}

/// Whether `b` is `a` after `create_new_tab`.
pub open spec fn tab_created_spec(a: App, b: App) -> bool {
    let tabs = a.tab_manager.tab_list();
    let t = b.tab_manager.tab_list().last();
    &&& b.tab_manager.tab_list() == tabs.push(t)
    &&& b.tab_manager.active() == tabs.len()
    &&& t.is_editor()
    &&& t.name_spec() == "untitled-"@ + crate::messages::decimal(tabs.len() + 1)
    &&& t.path_spec() is None
    &&& t.text() == Seq::<char>::empty()
    &&& t.word_wrap_spec() == a.global_word_wrap
    &&& !t.is_modified()
    &&& tree_focused(a.tree_view, b.tree_view, false)
    &&& b == (App {
        tab_manager: b.tab_manager,
        focus_mode: FocusMode::Editor,
        tree_view: b.tree_view,
        ..a
    })
}

impl App {
    /// Whether `b` is `a` after `create_new_tab`: an empty tab named
    /// "untitled-N" added and made active, wrapping lines as set for all
    /// tabs, the editor focused.
    pub open spec fn tab_created(a: App, b: App) -> bool {
        tab_created_spec(a, b)
    }

    /// Whether `b` is `a` with the main menu toggled, its check marks
    /// showing whether word wrap, the tree view and inline find (on the
    /// active tab) are on.
    pub open spec fn menu_toggled(a: App, b: App) -> bool {
        let i = a.tab_manager.active();
        let tabs = a.tab_manager.tab_list();
        let find_inline = i < tabs.len() && tabs[i as int].find_active();
        &&& b == (App { menu_system: b.menu_system, ..a })
        &&& a.menu_system.state is Closed ==> crate::menu::is_main_menu(
            b.menu_system.state,
            a.global_word_wrap,
            a.tree_view is Some,
            find_inline,
        )
        &&& !(a.menu_system.state is Closed) ==> b.menu_system.state is Closed
    }

    /// Whether `b` is `a` with the focus moved to the tree (`tree`) or the
    /// editor.
    pub open spec fn focus_moved(a: App, b: App, tree: bool) -> bool {
        &&& tree_focused(a.tree_view, b.tree_view, tree)
        &&& b == (App {
            focus_mode: if tree {
                FocusMode::TreeView
            } else {
                FocusMode::Editor
            },
            tree_view: b.tree_view,
            ..a
        })
    }

    /// Whether `b` and `r` are `a` and the request after `handle_command`.
    pub open spec fn command_done(a: App, b: App, command: EditorCommand, r: Option<AppRequest>) -> bool {
        let h = view_height(a);
        let same_but_tabs = b == (App { tab_manager: b.tab_manager, ..a });
        match command {
            EditorCommand::Quit => App::quit_asked(a, b) && r is None,
            EditorCommand::Save => b == a && ({
                let i = a.tab_manager.active();
                let tabs = a.tab_manager.tab_list();
                if i < tabs.len() && tabs[i as int].is_editor() {
                    match tabs[i as int].path_spec() {
                        None => r matches Some(AppRequest::AskSaveName),
                        Some(p) => r matches Some(AppRequest::SaveFile { path, content })
                            && path@ == p && content@ == tabs[i as int].text(),
                    }
                } else {
                    r is None
                }
            }),
            EditorCommand::NewTab => App::tab_created(a, b) && r is None,
            EditorCommand::CloseTab => App::close_asked(a, b) && r is None,
            EditorCommand::NextTab => {
                &&& same_but_tabs
                &&& b.tab_manager.tab_list() == a.tab_manager.tab_list()
                &&& a.tab_manager.tab_list().len() > 0 ==> b.tab_manager.active() == next_active(
                    a.tab_manager.active(),
                    a.tab_manager.tab_list().len(),
                )
                &&& a.tab_manager.tab_list().len() == 0 ==> b.tab_manager.active()
                    == a.tab_manager.active()
                &&& reveal_requested(b, r)
            },
            EditorCommand::PrevTab => {
                &&& same_but_tabs
                &&& b.tab_manager.tab_list() == a.tab_manager.tab_list()
                &&& a.tab_manager.tab_list().len() > 0 ==> b.tab_manager.active() == prev_active(
                    a.tab_manager.active(),
                    a.tab_manager.tab_list().len(),
                )
                &&& a.tab_manager.tab_list().len() == 0 ==> b.tab_manager.active()
                    == a.tab_manager.active()
                &&& reveal_requested(b, r)
            },
            EditorCommand::PageUp => same_but_tabs && r is None && active_changed(
                a.tab_manager,
                b.tab_manager,
                |x: Tab, y: Tab| paged(x, y, true, page_size(a)),
            ),
            EditorCommand::PageDown => same_but_tabs && r is None && active_changed(
                a.tab_manager,
                b.tab_manager,
                |x: Tab, y: Tab| paged(x, y, false, page_size(a)),
            ),
            EditorCommand::Modified => same_but_tabs && r is None && active_changed(
                a.tab_manager,
                b.tab_manager,
                |x: Tab, y: Tab| modified_scrolled(x, y, h),
            ),
            EditorCommand::ToggleMenu => App::menu_toggled(a, b) && r is None,
            EditorCommand::OpenFile => {
                &&& b == a
                &&& r matches Some(AppRequest::OpenFilePicker(p)) && match active_path(a) {
                    Some(q) => p matches Some(s) && s@ == q,
                    None => p is None,
                }
            },
            EditorCommand::CurrentTab => {
                &&& b == (App { menu_system: b.menu_system, ..a })
                &&& b.menu_system.state matches crate::menu::MenuState::CurrentTabMenu(m)
                    && crate::menu::menu_of(
                    m,
                    crate::menu::tab_menu_items(),
                    30,
                    crate::menu_component::Color::Cyan,
                    crate::menu_component::Color::Black,
                )
                &&& r is None
            },
            EditorCommand::Undo => same_but_tabs && r is None && active_changed(
                a.tab_manager,
                b.tab_manager,
                |x: Tab, y: Tab| history_moved(x, y, false, h),
            ),
            EditorCommand::Redo => same_but_tabs && r is None && active_changed(
                a.tab_manager,
                b.tab_manager,
                |x: Tab, y: Tab| history_moved(x, y, true, h),
            ),
            EditorCommand::TogglePreview => same_but_tabs && r is None && active_changed(
                a.tab_manager,
                b.tab_manager,
                |x: Tab, y: Tab| preview_toggled(x, y),
            ),
            EditorCommand::ToggleWordWrap => {
                &&& b == (App {
                    tab_manager: b.tab_manager,
                    global_word_wrap: !a.global_word_wrap,
                    ..a
                })
                &&& b.tab_manager.active() == a.tab_manager.active()
                &&& b.tab_manager.tab_list().len() == a.tab_manager.tab_list().len()
                &&& forall|i: int|
                    0 <= i < a.tab_manager.tab_list().len() ==> wrap_set(
                        #[trigger] a.tab_manager.tab_list()[i],
                        b.tab_manager.tab_list()[i],
                        !a.global_word_wrap,
                    )
                &&& r is None
            },
            EditorCommand::FocusTreeView => App::focus_moved(a, b, true) && r is None,
            EditorCommand::FocusEditor => App::focus_moved(a, b, false) && r is None,
            EditorCommand::Find | EditorCommand::FindReplace => same_but_tabs && r is None
                && active_changed(
                a.tab_manager,
                b.tab_manager,
                |x: Tab, y: Tab| Tab::started_find(x, y),
            ),
            EditorCommand::NewTerminal => b == a && r matches Some(AppRequest::NewTerminal),
        }
    }

    /// Carries out a command: quitting or closing (asking first about
    /// unsaved changes), saving, opening and switching tabs, paging, undo
    /// and redo, the menus, the preview, line wrapping, the focus, find and
    /// replace. Work on the disk or in a terminal comes back as a request.
    #[verifier::spinoff_prover]
    #[verifier::rlimit(40)]
    pub fn handle_command(&mut self, command: EditorCommand) -> (r: Option<AppRequest>)
        requires
            command == EditorCommand::NewTab ==> old(self).tab_manager.tab_list().len() + 1
                < usize::MAX,
        ensures
            App::command_done(*old(self), *final(self), command, r),
    {
        match command {
            EditorCommand::Quit => {
                self.handle_quit();
                None
            },
            EditorCommand::Save => self.save_current_file(),
            EditorCommand::NewTab => {
                self.create_new_tab();
                None
            },
            EditorCommand::CloseTab => {
                self.handle_close_tab();
                None
            },
            EditorCommand::NextTab => self.switch_next_tab(),
            EditorCommand::PrevTab => self.switch_prev_tab(),
            EditorCommand::PageUp => {
                self.page_up();
                None
            },
            EditorCommand::PageDown => {
                self.page_down();
                None
            },
            EditorCommand::Modified => {
                self.mark_active_modified();
                None
            },
            EditorCommand::ToggleMenu => {
                self.toggle_menu();
                None
            },
            EditorCommand::OpenFile => self.open_file_request(),
            EditorCommand::CurrentTab => {
                self.menu_system.open_current_tab_menu();
                None
            },
            EditorCommand::Undo => {
                self.move_history(false);
                None
            },
            EditorCommand::Redo => {
                self.move_history(true);
                None
            },
            EditorCommand::TogglePreview => {
                self.toggle_preview_mode();
                None
            },
            EditorCommand::ToggleWordWrap => {
                self.global_word_wrap = !self.global_word_wrap;
                self.apply_word_wrap_to_all_tabs();
                None
            },
            EditorCommand::FocusTreeView => {
                self.focus_mode = FocusMode::TreeView;
                self.set_tree_focus(true);
                None
            },
            EditorCommand::FocusEditor => {
                self.focus_mode = FocusMode::Editor;
                self.set_tree_focus(false);
                None
            },
            EditorCommand::Find | EditorCommand::FindReplace => {
                self.start_find_in_active();
                None
            },
            EditorCommand::NewTerminal => Some(AppRequest::NewTerminal),
        }
    }

    /// Marks the active tab modified and scrolls its cursor into view.
    fn mark_active_modified(&mut self)
        ensures
            *final(self) == (App { tab_manager: final(self).tab_manager, ..*old(self) }),
            active_changed(
                old(self).tab_manager,
                final(self).tab_manager,
                |x: Tab, y: Tab| modified_scrolled(x, y, view_height(*old(self))),
            ),
    {
        let h = self.terminal_size.1.saturating_sub(2) as usize;
        match self.tab_manager.active_tab_mut() {
            Some(tab) => {
                tab.mark_modified();
                if h > 0 || !tab.is_editor_tab() {
                    tab.ensure_cursor_visible(h);
                }
            },
            None => {},
        }
    }

    /// Toggles the main menu for the current settings.
    fn toggle_menu(&mut self)
        ensures
            App::menu_toggled(*old(self), *final(self)),
    {
        let (is_markdown, in_preview_mode, find_inline_enabled) = match self.tab_manager.active_tab() {
            Some(tab) => (tab.is_markdown(), tab.preview_enabled(), tab.find_is_active()),
            None => (false, false, false),
        };
        let word_wrap_enabled = self.global_word_wrap;
        let tree_view_enabled = self.tree_view.is_some();
        self.menu_system.toggle_main_menu(
            is_markdown,
            in_preview_mode,
            word_wrap_enabled,
            tree_view_enabled,
            find_inline_enabled,
        );
    }

    /// The request that opens the file picker near the file of the active
    /// tab.
    fn open_file_request(&self) -> (r: Option<AppRequest>)
        ensures
            r matches Some(AppRequest::OpenFilePicker(p)) && match active_path(*self) {
                Some(q) => p matches Some(s) && s@ == q,
                None => p is None,
            },
    {
        let current_path = match self.tab_manager.active_tab() {
            Some(tab) => match tab.path() {
                Some(p) => Some(p.clone()),
                None => None,
            },
            None => None,
        };
        Some(AppRequest::OpenFilePicker(current_path))
    }

    /// Undoes (or redoes, with `redo`) in the active tab and scrolls its
    /// cursor into view when something was undone.
    fn move_history(&mut self, redo: bool)
        ensures
            *final(self) == (App { tab_manager: final(self).tab_manager, ..*old(self) }),
            active_changed(
                old(self).tab_manager,
                final(self).tab_manager,
                |x: Tab, y: Tab| history_moved(x, y, redo, view_height(*old(self))),
            ),
    {
        let h = self.terminal_size.1.saturating_sub(2) as usize;
        match self.tab_manager.active_tab_mut() {
            Some(tab) => {
                let ghost a = *tab;
                let moved = if redo {
                    tab.redo()
                } else {
                    tab.undo()
                };
                let ghost m = *tab;
                if moved && (h > 0 || !tab.is_editor_tab()) {
                    tab.ensure_cursor_visible(h);
                }
                proof {
                    if moved {
                        assert(scrolled(m, *tab, h));
                        if redo {
                            assert(Tab::redone(a, m));
                        } else {
                            assert(Tab::undone(a, m));
                        }
                    }
                }
            },
            None => {},
        }
    }

    /// Opens the find bar of the active tab.
    fn start_find_in_active(&mut self)
        ensures
            *final(self) == (App { tab_manager: final(self).tab_manager, ..*old(self) }),
            active_changed(
                old(self).tab_manager,
                final(self).tab_manager,
                |x: Tab, y: Tab| Tab::started_find(x, y),
            ),
    {
        match self.tab_manager.active_tab_mut() {
            Some(tab) => {
                tab.start_find();
            },
            None => {},
        }
    }
}


/// Quitting never drops unsaved changes unasked: when a tab has unsaved
/// changes, the editor keeps running, keeps its tabs and shows a warning.
pub proof fn lemma_quit_keeps_unsaved(a: App, b: App)
    requires
        App::quit_asked(a, b),
        modified_names(a.tab_manager.tab_list()).len() > 0,
    ensures
        b.running == a.running,
        b.tab_manager == a.tab_manager,
        b.warning_message is Some,
        b.pending_quit,
{
}

/// Closing a tab never drops its unsaved changes unasked: when the active
/// tab has unsaved changes, the tabs stay as they are and a warning shows.
pub proof fn lemma_close_keeps_unsaved(a: App, b: App)
    requires
        App::close_asked(a, b),
        a.tab_manager.active() < a.tab_manager.tab_list().len(),
        a.tab_manager.tab_list()[a.tab_manager.active() as int].is_modified(),
    ensures
        b.tab_manager == a.tab_manager,
        b.running == a.running,
        b.warning_message is Some,
        b.pending_close,
{
}

} // verus!
