//! What the file operations of the input dialog decide: where a "save as"
//! writes, how the tabs follow a saved or renamed file, and what the
//! status line says. The disk work itself is the application's.
use vstd::prelude::*;
use crate::tab::{Tab, str_to_string};
use crate::tab_manager::TabManager;
use crate::paths::{file_name, file_name_of, joined_path, join_path, path_eq, paths_equal};
use crate::strings::{trim_ws, trim};
use crate::chars::{str_to_chars, chars_to_string};
use crate::tree::DirListing;
use crate::tree_view::refreshed;
use crate::messages::append;
use crate::editor_app::{App, AppRequest, active_changed, sat_add, reveal_requested};

verus! {

/// Where "save as" with the name `input` typed in the directory `target`
/// writes: the trimmed name when it starts with `/`, else the trimmed name
/// in `target`.
pub open spec fn save_target(input: Seq<char>, target: Seq<char>) -> Seq<char> {
    let t = trim_ws(input);
    if t.len() > 0 && t[0] == '/' {
        t
    } else {
        joined_path(target, t)
    }
}

/// Where "save as" with the name `input` typed in the directory `target`
/// writes (see `save_target`).
pub fn save_as_path(input: &str, target: &str) -> (p: String)
    ensures
        p@ == save_target(input@, target@),
{
    let t = trim(&str_to_chars(input));
    let ts = chars_to_string(&t);
    if t.len() > 0 && t[0] == '/' {
        ts
    } else {
        join_path(target, ts.as_str())
    }
}

/// The name of the tab of the file at `path`: its last component, or
/// "untitled".
pub open spec fn tab_name_for(path: Seq<char>) -> Seq<char> {
    match file_name_of(path) {
        Some(n) => n,
        None => "untitled"@,
    }
}

/// The editor tab `t` now holding the file at `path` under `name`.
pub open spec fn with_file(t: Tab, path: String, name: String) -> Tab {
    match t {
        Tab::Editor {
            buffer,
            cursor,
            viewport_offset,
            modified,
            preview_mode,
            word_wrap,
            find_replace_state,
            undo_stack,
            redo_stack,
            max_undo_history,
            ..
        } => Tab::Editor {
            name,
            path: Some(path),
            buffer,
            cursor,
            viewport_offset,
            modified,
            preview_mode,
            word_wrap,
            find_replace_state,
            undo_stack,
            redo_stack,
            max_undo_history,
        },
        _ => t,
    }
}

/// Points the editor tab `t` at the file `path`, named after it.
fn point_at(t: &mut Tab, path: String)
    ensures
        old(t).is_editor() ==> {
            &&& final(t).path_spec() == Some(path@)
            &&& final(t).name_spec() == tab_name_for(path@)
            &&& *final(t) == with_file(*old(t), path, final(t)->Editor_name)
        },
        !old(t).is_editor() ==> *final(t) == *old(t),
{
    let new_name = match file_name(path.as_str()) {
        Some(n) => n,
        None => {
            let u = "untitled";
            proof {
                reveal_strlit("untitled");
            }
            str_to_string(u)
        },
    };
    match t {
        Tab::Editor { path: p, name, .. } => {
            *p = Some(path);
            *name = new_name;
        },
        Tab::Terminal { .. } => {},
    }
}

impl App {
    /// Reports a "save as" of the active tab to `path` (the name typed
    /// being `input`): on success the tab holds that file, named after it,
    /// saved; "Saved: path" shows for two seconds and the file tree is
    /// refreshed from `fs`. On failure "Failed to save: input" (trimmed)
    /// shows for three seconds.
    pub fn saved_as(
        &mut self,
        path: String,
        input: &str,
        ok: bool,
        now_ms: u64,
        root_is_dir: bool,
        fs: &[DirListing],
    )
        ensures
            ({
                let i = old(self).tab_manager.active();
                let tabs = old(self).tab_manager.tab_list();
                i < tabs.len() && tabs[i as int].is_editor()
            }) ==> {
                &&& ok ==> {
                    &&& final(self).tab_manager.active() == old(self).tab_manager.active()
                    &&& final(self).tab_manager.tab_list() == old(self).tab_manager.tab_list().update(
                        old(self).tab_manager.active() as int,
                        final(self).tab_manager.tab_list()[old(self).tab_manager.active() as int],
                    )
                    &&& ({
                        let x = old(self).tab_manager.tab_list()[old(self).tab_manager.active() as int];
                        let y = final(self).tab_manager.tab_list()[old(self).tab_manager.active() as int];
                        &&& y.path_spec() == Some(path@)
                        &&& y.name_spec() == tab_name_for(path@)
                        &&& y == with_file(x, path, y->Editor_name).with_modified(false)
                    })
                    &&& final(self).status_message matches Some(m) && m@ == "Saved: "@ + path@
                    &&& final(self).status_message_expires == Some(sat_add(now_ms, 2000))
                    &&& match old(self).tree_view {
                        Some(t) => final(self).tree_view matches Some(u) && u@ == refreshed(
                            t@,
                            root_is_dir,
                            fs@,
                        ),
                        None => final(self).tree_view is None,
                    }
                    &&& *final(self) == (App {
                        tab_manager: final(self).tab_manager,
                        status_message: final(self).status_message,
                        status_message_expires: final(self).status_message_expires,
                        tree_view: final(self).tree_view,
                        ..*old(self)
                    })
                }
                &&& !ok ==> {
                    &&& final(self).status_message matches Some(m) && m@ == "Failed to save: "@
                        + trim_ws(input@)
                    &&& *final(self) == (App {
                        status_message: final(self).status_message,
                        status_message_expires: Some(sat_add(now_ms, 3000)),
                        ..*old(self)
                    })
                }
            },
            !({
                let i = old(self).tab_manager.active();
                let tabs = old(self).tab_manager.tab_list();
                i < tabs.len() && tabs[i as int].is_editor()
            }) ==> *final(self) == *old(self),
    {
        let editor = match self.tab_manager.active_tab() {
            Some(tab) => tab.is_editor_tab(),
            None => false,
        };
        if !editor {
            return;
        }
        if !ok {
            let mut m = str_to_string("Failed to save: ");
            let t = chars_to_string(&trim(&str_to_chars(input)));
            append(&mut m, t.as_str());
            self.set_status_message(m, now_ms, 3000);
            return;
        }
        let mut m = str_to_string("Saved: ");
        append(&mut m, path.as_str());
        match self.tab_manager.active_tab_mut() {
            Some(tab) => {
                point_at(tab, path);
                tab.mark_saved();
            },
            None => {},
        }
        self.set_status_message(m, now_ms, 2000);
        match &mut self.tree_view {
            Some(t) => {
                t.refresh(root_is_dir, fs);
            },
            None => {},
        }
    }

    /// Points every editor tab that holds the file `old_path` at
    /// `new_path`, named after it, once the file was renamed.
    pub fn rename_open_tabs(&mut self, old_path: &str, new_path: &str)
        ensures
            final(self).tab_manager.active() == old(self).tab_manager.active(),
            final(self).tab_manager.tab_list().len() == old(self).tab_manager.tab_list().len(),
            forall|i: int|
                0 <= i < old(self).tab_manager.tab_list().len() ==> {
                    let x = #[trigger] old(self).tab_manager.tab_list()[i];
                    let y = final(self).tab_manager.tab_list()[i];
                    if x.path_spec() matches Some(p) && paths_equal(p, old_path@) {
                        y.path_spec() == Some(new_path@) && y.name_spec() == tab_name_for(
                            new_path@,
                        ) && y == with_file(x, y->Editor_path->0, y->Editor_name)
                    } else {
                        y == x
                    }
                },
            *final(self) == (App { tab_manager: final(self).tab_manager, ..*old(self) }),
    {
        let ghost before = self.tab_manager.tab_list();
        let n = self.tab_manager.len();
        let mut i: usize = 0;
        while i < n
            invariant
                i <= n,
                n == before.len(),
                self.tab_manager.tab_list().len() == n,
                self.tab_manager.active() == old(self).tab_manager.active(),
                *self == (App { tab_manager: self.tab_manager, ..*old(self) }),
                forall|j: int|
                    i <= j < n ==> #[trigger] self.tab_manager.tab_list()[j] == before[j],
                forall|j: int|
                    0 <= j < i ==> {
                        let x = #[trigger] before[j];
                        let y = self.tab_manager.tab_list()[j];
                        if x.path_spec() matches Some(p) && paths_equal(p, old_path@) {
                            y.path_spec() == Some(new_path@) && y.name_spec() == tab_name_for(
                                new_path@,
                            ) && y == with_file(x, y->Editor_path->0, y->Editor_name)
                        } else {
                            y == x
                        }
                    },
            decreases n - i,
        {
            let matches = match self.tab_manager.tabs()[i].path() {
                Some(p) => path_eq(p.as_str(), old_path),
                None => false,
            };
            if matches {
                let np = str_to_string(new_path);
                let t = self.tab_manager.tab_at_mut(i);
                point_at(t, np);
            }
            i = i + 1;
        }
    }

    /// Reports a file created, a directory created or a file renamed from
    /// the file tree: the tree is refreshed from the listings `fs`,
    /// "File operation completed" shows for two seconds, and the file of
    /// the active tab is to be revealed. Nothing without a file tree.
    pub fn file_operation_done(&mut self, now_ms: u64, root_is_dir: bool, fs: &[DirListing]) -> (r: Option<AppRequest>)
        ensures
            match old(self).tree_view {
                Some(t) => {
                    &&& final(self).tree_view matches Some(u) && u@ == refreshed(t@, root_is_dir, fs@)
                    &&& final(self).status_message matches Some(m) && m@ == "File operation completed"@
                    &&& *final(self) == (App {
                        tree_view: final(self).tree_view,
                        status_message: final(self).status_message,
                        status_message_expires: Some(sat_add(now_ms, 2000)),
                        ..*old(self)
                    })
                    &&& reveal_requested(*final(self), r)
                },
                None => *final(self) == *old(self) && r is None,
            },
    {
        match &mut self.tree_view {
            Some(t) => {
                t.refresh(root_is_dir, fs);
            },
            None => {
                return None;
            },
        }
        let r = self.expand_tree_request();
        let m = "File operation completed";
        proof {
            reveal_strlit("File operation completed");
        }
        self.set_status_message(str_to_string(m), now_ms, 2000);
        r
    }
}

} // verus!
