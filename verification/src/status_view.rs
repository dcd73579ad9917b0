//! The texts of the status line: what the active tab holds, or the current
//! status message, and where its cursor is.
use vstd::prelude::*;
use crate::tab::{Tab, is_markdown_spec, str_to_string};
use crate::tab_manager::TabManager;
use crate::ui_state::StatusBar;
use crate::messages::{decimal, decimal_string, append};

verus! {

/// The mark at the side of the status line.
#[derive(Debug, Clone, Copy, PartialEq, Eq, Structural)]
pub enum StatusIndicator {
    /// No mark.
    Nothing,
    /// A markdown tab showing its preview: " PREVIEW (Ctrl+U) ".
    Preview,
    /// A markdown tab showing its text: " EDIT (Ctrl+U) ".
    Edit,
    /// A terminal tab: " TERMINAL ".
    Terminal,
}

/// The parts of the status line.
pub struct StatusLine {
    /// The middle text.
    pub text: String,
    /// Whether the text is a status message (shown as a warning).
    pub is_message: bool,
    pub indicator: StatusIndicator,
    /// Where the cursor is, for an editor tab.
    pub position: Option<String>,
}

/// " [Modified] " for a tab with unsaved changes.
pub open spec fn modified_mark(t: Tab) -> Seq<char> {
    if t.is_modified() {
        " [Modified] "@
    } else {
        Seq::empty()
    }
}

/// The middle text of the status line for tab `t`: the message, if any,
/// between spaces; else the file's path (or the tab's name) between
/// spaces for an editor tab, the name after a space for a terminal, each
/// followed by the unsaved mark.
pub open spec fn status_text(t: Tab, msg: Option<Seq<char>>) -> Seq<char> {
    match msg {
        Some(m) => " "@ + m + " "@,
        None => if t.is_editor() {
            (match t.path_spec() {
                Some(p) => " "@ + p + " "@,
                None => " "@ + t.name_spec() + " "@,
            }) + modified_mark(t)
        } else {
            " "@ + t.name_spec() + modified_mark(t)
        },
    }
}

/// The mark of the status line for tab `t`.
pub open spec fn indicator_of(t: Tab) -> StatusIndicator {
    if !t.is_editor() {
        StatusIndicator::Terminal
    } else if is_markdown_spec(t.path_spec(), t.name_spec()) {
        if t.preview_spec() {
            StatusIndicator::Preview
        } else {
            StatusIndicator::Edit
        }
    } else {
        StatusIndicator::Nothing
    }
}

/// " L<line>:C<column> ", the line counted from 1 and the column from 0.
pub open spec fn position_text(t: Tab) -> Seq<char> {
    " L"@ + decimal((t.cursor_spec().position.line + 1) as nat) + ":C"@ + decimal(
        t.cursor_spec().position.column as nat,
    ) + " "@
}

/// The status line for tab `t` with the message `msg`, as values.
pub open spec fn status_line_of(t: Tab, msg: Option<Seq<char>>, l: StatusLine) -> bool {
    &&& l.text@ == status_text(t, msg)
    &&& l.is_message == (msg is Some)
    &&& l.indicator == indicator_of(t)
    &&& if t.is_editor() {
        l.position matches Some(p) && p@ == position_text(t)
    } else {
        l.position is None
    }
}

impl StatusBar {
    /// The status line for the active tab, with the status message if
    /// there is one; `None` when no tab is active.
    pub fn status_line(&self, tab_manager: &TabManager, status_message: Option<&String>) -> (r: Option<StatusLine>)
        requires
            tab_manager.active() < tab_manager.tab_list().len() ==> tab_manager.tab_list()[tab_manager.active() as int].cursor_spec().position.line
                < usize::MAX,
        ensures
            tab_manager.active() < tab_manager.tab_list().len() ==> (r matches Some(l)
                && status_line_of(
                tab_manager.tab_list()[tab_manager.active() as int],
                match status_message {
                    Some(m) => Some(m@),
                    None => None,
                },
                l,
            )),
            tab_manager.active() >= tab_manager.tab_list().len() ==> r is None,
    {
        let tab = match tab_manager.active_tab() {
            Some(t) => t,
            None => {
                return None;
            },
        };
        let text = match status_message {
            Some(m) => {
                let mut s = str_to_string(" ");
                append(&mut s, m.as_str());
                append(&mut s, " ");
                s
            },
            None => {
                let mut s = str_to_string(" ");
                match tab {
                    Tab::Editor { path, name, modified, .. } => {
                        match path {
                            Some(p) => append(&mut s, p.as_str()),
                            None => append(&mut s, name.as_str()),
                        }
                        append(&mut s, " ");
                        if *modified {
                            append(&mut s, " [Modified] ");
                        }
                    },
                    Tab::Terminal { name, modified, .. } => {
                        append(&mut s, name.as_str());
                        if *modified {
                            append(&mut s, " [Modified] ");
                        }
                    },
                }
                s
            },
        };
        let indicator = match tab {
            Tab::Editor { preview_mode, .. } => if tab.is_markdown() {
                if *preview_mode {
                    StatusIndicator::Preview
                } else {
                    StatusIndicator::Edit
                }
            } else {
                StatusIndicator::Nothing
            },
            Tab::Terminal { .. } => StatusIndicator::Terminal,
        };
        let position = match tab {
            Tab::Editor { cursor, .. } => {
                let mut s = str_to_string(" L");
                let line = decimal_string(cursor.position.line + 1);
                append(&mut s, line.as_str());
                append(&mut s, ":C");
                let col = decimal_string(cursor.position.column);
                append(&mut s, col.as_str());
                append(&mut s, " ");
                Some(s)
            },
            Tab::Terminal { .. } => None,
        };
        Some(StatusLine { text, is_message: status_message.is_some(), indicator, position })
    }
}

} // verus!
