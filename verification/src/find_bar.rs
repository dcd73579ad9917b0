//! Keys typed while the find and replace bar of the active tab is open.
use vstd::prelude::*;
use crate::keyboard::{KeyCode, KeyEvent};
use crate::tab::{Tab, FindReplaceState, FindFocusedField, str_to_string};
use crate::find::{replaces_current, replace_ok, current_match};
use crate::field_edit::{replaced_bytes, inc, inc_exec, insert_at_byte};
use crate::encoding::byte_to_char;
use crate::chars::str_to_chars;
use crate::messages::{decimal, decimal_string, append, match_message, match_message_text};
use crate::editor_app::{App, sat_add};

verus! {

/// What a key does in the find bar.
#[derive(Debug, Clone, Copy, PartialEq, Eq, Structural)]
pub enum FindKey {
    Close,
    SwitchField,
    Next,
    Prev,
    ToggleCase,
    ToggleWholeWord,
    ToggleReplaceMode,
    ReplaceCurrent,
    Type(char),
    Other,
}

/// What `key` does in the find bar: Esc closes it, Tab switches fields,
/// Enter or F3 goes to the next match and, with Shift, to the previous one,
/// Alt+C and Alt+W toggle case sensitivity and whole words, Ctrl+H toggles
/// replace mode, Ctrl+R replaces the current match, and a char (alone or
/// with Shift) is typed into the focused field. Modifiers must match
/// exactly.
pub open spec fn find_key(key: KeyEvent) -> FindKey {
    let m = key.modifiers;
    let none = !m.shift && !m.control && !m.alt && !m.super_key && !m.hyper && !m.meta;
    let shift = m.shift && !m.control && !m.alt && !m.super_key && !m.hyper && !m.meta;
    let alt = !m.shift && !m.control && m.alt && !m.super_key && !m.hyper && !m.meta;
    let ctrl = !m.shift && m.control && !m.alt && !m.super_key && !m.hyper && !m.meta;
    match key.code {
        KeyCode::Esc => if none {
            FindKey::Close
        } else {
            FindKey::Other
        },
        KeyCode::Tab => if none {
            FindKey::SwitchField
        } else {
            FindKey::Other
        },
        KeyCode::Enter => if none {
            FindKey::Next
        } else if shift {
            FindKey::Prev
        } else {
            FindKey::Other
        },
        KeyCode::F(n) => if n == 3 && none {
            FindKey::Next
        } else if n == 3 && shift {
            FindKey::Prev
        } else {
            FindKey::Other
        },
        KeyCode::Char(c) => if alt && (c == 'c' || c == 'C') {
            FindKey::ToggleCase
        } else if alt && (c == 'w' || c == 'W') {
            FindKey::ToggleWholeWord
        } else if ctrl && c == 'h' {
            FindKey::ToggleReplaceMode
        } else if ctrl && c == 'r' {
            FindKey::ReplaceCurrent
        } else if none || shift {
            FindKey::Type(c)
        } else {
            FindKey::Other
        },
        _ => FindKey::Other,
    }
}

/// What `key` does in the find bar.
pub fn classify_find_key(key: KeyEvent) -> (k: FindKey)
    ensures
        k == find_key(key),
{
    let m = key.modifiers;
    let none = m.is_none();
    let shift = m.is_shift_only();
    let alt = m.is_alt_only();
    let ctrl = m.is_control_only();
    match key.code {
        KeyCode::Esc => if none {
            FindKey::Close
        } else {
            FindKey::Other
        },
        KeyCode::Tab => if none {
            FindKey::SwitchField
        } else {
            FindKey::Other
        },
        KeyCode::Enter => if none {
            FindKey::Next
        } else if shift {
            FindKey::Prev
        } else {
            FindKey::Other
        },
        KeyCode::F(n) => if n == 3 && none {
            FindKey::Next
        } else if n == 3 && shift {
            FindKey::Prev
        } else {
            FindKey::Other
        },
        KeyCode::Char(c) => if alt && (c == 'c' || c == 'C') {
            FindKey::ToggleCase
        } else if alt && (c == 'w' || c == 'W') {
            FindKey::ToggleWholeWord
        } else if ctrl && c == 'h' {
            FindKey::ToggleReplaceMode
        } else if ctrl && c == 'r' {
            FindKey::ReplaceCurrent
        } else if none || shift {
            FindKey::Type(c)
        } else {
            FindKey::Other
        },
        _ => FindKey::Other,
    }
}

/// The editor tab `t` with its find state replaced by `f`.
pub open spec fn with_find(t: Tab, f: FindReplaceState) -> Tab {
    t.with_find_cursor_viewport(f, t.cursor_spec(), t.viewport_spec())
}

/// The other field of the find bar.
pub open spec fn other_field(f: FindFocusedField) -> FindFocusedField {
    match f {
        FindFocusedField::Find => FindFocusedField::Replace,
        FindFocusedField::Replace => FindFocusedField::Find,
    }
}

/// Whether the next match can be taken: an index at the top of `usize`
/// cannot be stepped.
pub open spec fn can_step(f: FindReplaceState) -> bool {
    f.current_match_index != Some(usize::MAX)
}

/// Whether replacing the current match of `t` cuts its line on char
/// boundaries, as it must.
pub open spec fn replace_safe(t: Tab) -> bool {
    replaces_current(t) ==> replace_ok(t.text(), current_match(t))
}

/// Whether the find bar of `a` takes the key `k`.
pub open spec fn find_key_consumed(k: FindKey, a: Tab) -> bool {
    match k {
        FindKey::Other => false,
        FindKey::SwitchField => a.find_state().is_replace_mode,
        _ => true,
    }
}

/// Whether `b` is the editor tab `a` (its find bar open) after the key `k`.
/// A char typed at an offset that is no char boundary of the field, a next
/// match that cannot be stepped and a replacement that would cut a char
/// leave the tab as it is.
#[verifier::opaque]
pub open spec fn find_key_done(a: Tab, b: Tab, k: FindKey) -> bool {
    let f = a.find_state();
    match k {
        FindKey::Close => Tab::stopped_find(a, b),
        FindKey::SwitchField => if f.is_replace_mode {
            b == with_find(a, FindReplaceState { focused_field: other_field(f.focused_field), ..f })
        } else {
            b == a
        },
        FindKey::Next => if can_step(f) {
            Tab::went_next(a, b)
        } else {
            b == a
        },
        FindKey::Prev => Tab::went_prev(a, b),
        FindKey::ToggleCase => Tab::performed_find(
            with_find(a, FindReplaceState { case_sensitive: !f.case_sensitive, ..f }),
            b,
        ),
        FindKey::ToggleWholeWord => Tab::performed_find(
            with_find(a, FindReplaceState { whole_word: !f.whole_word, ..f }),
            b,
        ),
        FindKey::ToggleReplaceMode => b == with_find(
            a,
            FindReplaceState {
                is_replace_mode: !f.is_replace_mode,
                focused_field: if f.is_replace_mode {
                    FindFocusedField::Find
                } else {
                    f.focused_field
                },
                ..f
            },
        ),
        FindKey::ReplaceCurrent => if f.is_replace_mode && replace_safe(a) {
            Tab::replaced_current(a, b)
        } else {
            b == a
        },
        FindKey::Type(c) => match f.focused_field {
            FindFocusedField::Find => match replaced_bytes(
                f.find_query@,
                f.find_cursor_position as int,
                f.find_cursor_position as int,
                seq![c],
            ) {
                Some(q) => {
                    &&& b.find_state().find_query@ == q
                    &&& Tab::performed_find(
                        with_find(
                            a,
                            FindReplaceState {
                                find_query: b.find_state().find_query,
                                find_cursor_position: inc(f.find_cursor_position),
                                ..f
                            },
                        ),
                        b,
                    )
                },
                None => b == a,
            },
            FindFocusedField::Replace => match replaced_bytes(
                f.replace_query@,
                f.replace_cursor_position as int,
                f.replace_cursor_position as int,
                seq![c],
            ) {
                Some(q) => {
                    &&& b.find_state().replace_query@ == q
                    &&& b == with_find(
                        a,
                        FindReplaceState {
                            replace_query: b.find_state().replace_query,
                            replace_cursor_position: inc(f.replace_cursor_position),
                            ..f
                        },
                    )
                },
                None => b == a,
            },
        },
        FindKey::Other => b == a,
    }
}

/// The message after a replacement that left `n` matches.
pub open spec fn replaced_message(n: nat) -> Seq<char> {
    "Replaced. "@ + decimal(n) + " matches remaining"@
}

/// The status message the key `k` shows, the tab going from `a` to `b`:
/// the current match after moving between matches, what is left after a
/// replacement.
#[verifier::opaque]
pub open spec fn find_key_status(k: FindKey, a: Tab, b: Tab) -> Option<Seq<char>> {
    let f = a.find_state();
    let g = b.find_state();
    match k {
        FindKey::Next | FindKey::Prev => if f.matches@.len() > 0 && (k == FindKey::Prev || can_step(
            f,
        )) {
            match g.current_match_index {
                Some(i) => Some(match_message(i as nat, g.matches@.len())),
                None => None,
            }
        } else {
            None
        },
        FindKey::ReplaceCurrent => if f.is_replace_mode && replace_safe(a) {
            if g.matches@.len() > 0 {
                Some(replaced_message(g.matches@.len()))
            } else {
                Some("All matches replaced"@)
            }
        } else {
            None
        },
        _ => None,
    }
}

/// Whether replacing the current match of `t` cuts its line on char
/// boundaries.
fn replace_is_safe(t: &Tab) -> (b: bool)
    ensures
        b == replace_safe(*t),
{
    match t {
        Tab::Editor { find_replace_state, buffer, .. } => {
            if !find_replace_state.is_replace_mode {
                return true;
            }
            match find_replace_state.current_match_index {
                Some(i) => {
                    if i < find_replace_state.matches.len() {
                        let m = find_replace_state.matches[i];
                        let line = buffer.get_line_text(m.start.line);
                        let chars = str_to_chars(line.as_str());
                        byte_to_char(&chars, m.start.column).is_some() && byte_to_char(
                            &chars,
                            m.end.column,
                        ).is_some()
                    } else {
                        true
                    }
                },
                None => true,
            }
        },
        Tab::Terminal { .. } => true,
    }
}

/// The message after a replacement that left `n` matches.
fn replaced_message_text(n: usize) -> (s: String)
    ensures
        s@ == replaced_message(n as nat),
{
    let mut s = str_to_string("Replaced. ");
    let d = decimal_string(n);
    append(&mut s, d.as_str());
    append(&mut s, " matches remaining");
    s
}

/// Applies the key `k` to the editor tab `t` whose find bar is open, and
/// returns the status message to show, if any.
fn apply_find_key(t: &mut Tab, k: FindKey) -> (msg: Option<String>)
    requires
        old(t).is_editor(),
        old(t).find_active(),
    ensures
        find_key_done(*old(t), *final(t), k),
        match find_key_status(k, *old(t), *final(t)) {
            Some(m) => msg matches Some(s) && s@ == m,
            None => msg is None,
        },
{
    reveal(find_key_done);
    reveal(find_key_status);
    match k {
        FindKey::Close => {
            t.stop_find_replace();
            None
        },
        FindKey::SwitchField => {
            match t {
                Tab::Editor { find_replace_state, .. } => {
                    if find_replace_state.is_replace_mode {
                        find_replace_state.focused_field = match find_replace_state.focused_field {
                            FindFocusedField::Find => FindFocusedField::Replace,
                            FindFocusedField::Replace => FindFocusedField::Find,
                        };
                    }
                },
                Tab::Terminal { .. } => {},
            }
            None
        },
        FindKey::Next | FindKey::Prev => {
            let (n, stuck) = match t {
                Tab::Editor { find_replace_state, .. } => (
                    find_replace_state.matches.len(),
                    find_replace_state.current_match_index == Some(usize::MAX),
                ),
                Tab::Terminal { .. } => (0, false),
            };
            if n == 0 || (k == FindKey::Next && stuck) {
                return None;
            }
            if k == FindKey::Next {
                t.find_next();
            } else {
                t.find_prev();
            }
            match t {
                Tab::Editor { find_replace_state, .. } => {
                    match find_replace_state.current_match_index {
                        Some(i) => Some(match_message_text(i, find_replace_state.matches.len())),
                        None => None,
                    }
                },
                Tab::Terminal { .. } => None,
            }
        },
        FindKey::ToggleCase => {
            match t {
                Tab::Editor { find_replace_state, .. } => {
                    find_replace_state.case_sensitive = !find_replace_state.case_sensitive;
                },
                Tab::Terminal { .. } => {},
            }
            t.perform_find();
            None
        },
        FindKey::ToggleWholeWord => {
            match t {
                Tab::Editor { find_replace_state, .. } => {
                    find_replace_state.whole_word = !find_replace_state.whole_word;
                },
                Tab::Terminal { .. } => {},
            }
            t.perform_find();
            None
        },
        FindKey::ToggleReplaceMode => {
            match t {
                Tab::Editor { find_replace_state, .. } => {
                    find_replace_state.is_replace_mode = !find_replace_state.is_replace_mode;
                    if !find_replace_state.is_replace_mode && find_replace_state.focused_field
                        == FindFocusedField::Replace {
                        find_replace_state.focused_field = FindFocusedField::Find;
                    }
                },
                Tab::Terminal { .. } => {},
            }
            None
        },
        FindKey::ReplaceCurrent => {
            let replace_mode = match t {
                Tab::Editor { find_replace_state, .. } => find_replace_state.is_replace_mode,
                Tab::Terminal { .. } => false,
            };
            if !replace_mode || !replace_is_safe(t) {
                return None;
            }
            t.replace_current();
            match t {
                Tab::Editor { find_replace_state, .. } => {
                    let remaining = find_replace_state.matches.len();
                    if remaining > 0 {
                        Some(replaced_message_text(remaining))
                    } else {
                        Some(str_to_string("All matches replaced"))
                    }
                },
                Tab::Terminal { .. } => None,
            }
        },
        FindKey::Type(c) => {
            let typed_find = match t {
                Tab::Editor { find_replace_state, .. } => {
                    match find_replace_state.focused_field {
                        FindFocusedField::Find => {
                            let p = find_replace_state.find_cursor_position;
                            if insert_at_byte(&mut find_replace_state.find_query, p, c) {
                                find_replace_state.find_cursor_position = inc_exec(p);
                                true
                            } else {
                                false
                            }
                        },
                        FindFocusedField::Replace => {
                            let p = find_replace_state.replace_cursor_position;
                            if insert_at_byte(&mut find_replace_state.replace_query, p, c) {
                                find_replace_state.replace_cursor_position = inc_exec(p);
                            }
                            false
                        },
                    }
                },
                Tab::Terminal { .. } => false,
            };
            if typed_find {
                t.perform_find();
            }
            None
        },
        FindKey::Other => None,
    }
}

/// Whether `b` is `a` after a key in the find bar at `now_ms`, and
/// `consumed` tells whether the bar took it.
pub open spec fn find_bar_handled(a: App, b: App, key: KeyEvent, now_ms: u64, consumed: bool) -> bool {
    let i = a.tab_manager.active();
    let tabs = a.tab_manager.tab_list();
    if i < tabs.len() && tabs[i as int].is_editor() && tabs[i as int].find_active() {
        let k = find_key(key);
        let t = tabs[i as int];
        let u = b.tab_manager.tab_list()[i as int];
        &&& consumed == find_key_consumed(k, t)
        &&& b.tab_manager.active() == i
        &&& b.tab_manager.tab_list() == tabs.update(i as int, u)
        &&& find_key_done(t, u, k)
        &&& match find_key_status(k, t, u) {
            Some(m) => {
                &&& b.status_message matches Some(s) && s@ == m
                &&& b == (App {
                    tab_manager: b.tab_manager,
                    status_message: b.status_message,
                    status_message_expires: Some(sat_add(now_ms, 2000)),
                    ..a
                })
            },
            None => b == (App { tab_manager: b.tab_manager, ..a }),
        }
    } else {
        !consumed && b == a
    }
}

/// A key the find bar does not take leaves the tab as it is and shows
/// nothing.
pub proof fn lemma_unconsumed_find_key(t: Tab, u: Tab, k: FindKey)
    requires
        !find_key_consumed(k, t),
        find_key_done(t, u, k),
    ensures
        u == t,
        find_key_status(k, t, u) is None,
{
    reveal(find_key_done);
    reveal(find_key_status);
}

impl App {
    /// Handles a key while the find bar of the active tab is open (see
    /// `find_key`); tells whether the bar took the key. Moving between
    /// matches shows which one is current, and replacing shows what is
    /// left, for two seconds after `now_ms`.
    #[verifier::spinoff_prover]
    #[verifier::rlimit(40)]
    pub fn handle_find_replace_key(&mut self, key: KeyEvent, now_ms: u64) -> (consumed: bool)
        ensures
            find_bar_handled(*old(self), *final(self), key, now_ms, consumed),
    {
        let k = classify_find_key(key);
        let open = match self.tab_manager.active_tab() {
            Some(tab) => tab.is_editor_tab() && tab.find_is_active(),
            None => false,
        };
        if !open {
            return false;
        }
        let msg = match self.tab_manager.active_tab_mut() {
            Some(tab) => {
                let consumed = match k {
                    FindKey::Other => false,
                    FindKey::SwitchField => match tab {
                        Tab::Editor { find_replace_state, .. } => find_replace_state.is_replace_mode,
                        Tab::Terminal { .. } => false,
                    },
                    _ => true,
                };
                let m = apply_find_key(tab, k);
                (consumed, m)
            },
            None => (false, None),
        };
        let (consumed, m) = msg;
        match m {
            Some(s) => {
                self.set_status_message(s, now_ms, 2000);
            },
            None => {},
        }
        consumed
    }
}

} // verus!
