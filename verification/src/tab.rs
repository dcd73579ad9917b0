//! Editor and terminal tabs: undo and redo, the viewport, find and replace,
//! and the list of open tabs.
use vstd::prelude::*;
use crate::rope_buffer::RopeBuffer;
use crate::cursor::{Cursor, Position};
use crate::chars::string_push;
use crate::paths::{file_name, extension, path_eq, file_name_of, extension_of, paths_equal};
use crate::strings::{chars_ends_with, ends_with, chars_eq};
use crate::chars::str_to_chars;

verus! {

/// A match of the find query: its start and end, columns being byte offsets.
#[derive(Clone, Copy, Debug, PartialEq, Eq, Structural)]
pub struct FindMatch {
    pub start: Position,
    pub end: Position,
}

/// Which field of the find bar takes typed chars.
#[derive(Clone, Copy, Debug, PartialEq, Eq, Structural)]
pub enum FindFocusedField {
    Find,
    Replace,
}

/// The state of the find and replace bar of an editor tab.
#[derive(Clone)]
pub struct FindReplaceState {
    pub active: bool,
    pub find_query: String,
    pub replace_query: String,
    pub current_match_index: Option<usize>,
    pub matches: Vec<FindMatch>,
    pub case_sensitive: bool,
    pub whole_word: bool,
    pub is_replace_mode: bool,
    pub find_cursor_position: usize,
    pub replace_cursor_position: usize,
    pub focused_field: FindFocusedField,
}

impl Default for FindReplaceState {
    fn default() -> (s: Self)
        ensures
            !s.active,
            s.find_query@ == Seq::<char>::empty(),
            s.replace_query@ == Seq::<char>::empty(),
            s.current_match_index is None,
            s.matches@ == Seq::<FindMatch>::empty(),
            !s.case_sensitive,
            !s.whole_word,
            !s.is_replace_mode,
            s.find_cursor_position == 0,
            s.replace_cursor_position == 0,
            s.focused_field == FindFocusedField::Find,
    {
        FindReplaceState {
            active: false,
            find_query: String::new(),
            replace_query: String::new(),
            current_match_index: None,
            matches: Vec::new(),
            case_sensitive: false,
            whole_word: false,
            is_replace_mode: false,
            find_cursor_position: 0,
            replace_cursor_position: 0,
            focused_field: FindFocusedField::Find,
        }
    }
}

/// A saved text and cursor.
pub struct Snapshot {
    pub text: Seq<char>,
    pub cursor: Cursor,
}

/// A saved text and cursor, for undo and redo.
pub struct EditorState {
    pub buffer: RopeBuffer,
    pub cursor: Cursor,
}

impl EditorState {
    pub open spec fn snapshot(&self) -> Snapshot {
        Snapshot { text: self.buffer@, cursor: self.cursor }
    }
}

impl Clone for EditorState {
    fn clone(&self) -> (c: Self)
        ensures
            c.snapshot() == self.snapshot(),
    {
        EditorState { buffer: self.buffer.clone(), cursor: self.cursor }
    }
}

/// The snapshots of a stack, bottom first.
pub open spec fn snapshots(v: Seq<EditorState>) -> Seq<Snapshot> {
    v.map_values(|e: EditorState| e.snapshot())
}

/// An open tab: a text editor or a terminal.
pub enum Tab {
    Editor {
        name: String,
        path: Option<String>,
        buffer: RopeBuffer,
        cursor: Cursor,
        viewport_offset: (usize, usize),
        modified: bool,
        preview_mode: bool,
        word_wrap: bool,
        find_replace_state: FindReplaceState,
        undo_stack: Vec<EditorState>,
        redo_stack: Vec<EditorState>,
        max_undo_history: usize,
    },
    Terminal {
        name: String,
        terminal_id: u64,
        viewport_offset: (usize, usize),
        modified: bool,
    },
}

/// The viewport after making the cursor visible in a view of `height`
/// lines and 80 columns.
pub open spec fn viewport_for(cursor: Position, vp: (usize, usize), height: usize) -> (
    usize,
    usize,
) {
    let line = if cursor.line < vp.0 {
        cursor.line
    } else if cursor.line >= vp.0 + height {
        if cursor.line >= height - 1 {
            (cursor.line - (height - 1)) as usize
        } else {
            0
        }
    } else {
        vp.0
    };
    let col = if cursor.column < vp.1 {
        cursor.column
    } else if cursor.column >= vp.1 + 80 {
        if cursor.column >= 79 {
            (cursor.column - 79) as usize
        } else {
            0
        }
    } else {
        vp.1
    };
    (line, col)
}

/// The name of a tab, with a `*` when it has unsaved changes.
pub open spec fn display_name_of(name: Seq<char>, modified: bool) -> Seq<char> {
    if modified {
        name.push('*')
    } else {
        name
    }
}

/// Whether a tab with this path and name holds markdown: by the path's
/// extension when it has one, else by the name's ending.
pub open spec fn is_markdown_spec(path: Option<Seq<char>>, name: Seq<char>) -> bool {
    match path {
        Some(p) if extension_of(p) is Some => extension_of(p)->0 == "md"@ || extension_of(p)->0
            == "markdown"@,
        _ => ends_with(name, ".md"@) || ends_with(name, ".markdown"@),
    }
}

/// The undo stack after saving a snapshot: pushed, the oldest dropped past
/// the limit.
pub open spec fn pushed_with_limit(stack: Seq<Snapshot>, s: Snapshot, max: usize) -> Seq<
    Snapshot,
> {
    if stack.len() + 1 > max {
        stack.push(s).drop_first()
    } else {
        stack.push(s)
    }
}

impl Tab {
    /// Whether this is an editor tab.
    pub open spec fn is_editor(&self) -> bool {
        self is Editor
    }

    /// The text of an editor tab.
    pub open spec fn text(&self) -> Seq<char> {
        match self {
            Tab::Editor { buffer, .. } => buffer@,
            _ => Seq::empty(),
        }
    }

    /// The cursor of an editor tab.
    pub open spec fn cursor_spec(&self) -> Cursor {
        match self {
            Tab::Editor { cursor, .. } => *cursor,
            _ => arbitrary(),
        }
    }

    /// The undo snapshots of an editor tab, oldest first.
    pub open spec fn undo_snapshots(&self) -> Seq<Snapshot> {
        match self {
            Tab::Editor { undo_stack, .. } => snapshots(undo_stack@),
            _ => Seq::empty(),
        }
    }

    /// The redo snapshots of an editor tab, oldest first.
    pub open spec fn redo_snapshots(&self) -> Seq<Snapshot> {
        match self {
            Tab::Editor { redo_stack, .. } => snapshots(redo_stack@),
            _ => Seq::empty(),
        }
    }

    /// Whether the tab has unsaved changes.
    pub open spec fn is_modified(&self) -> bool {
        match self {
            Tab::Editor { modified, .. } => *modified,
            Tab::Terminal { modified, .. } => *modified,
        }
    }

    /// The name of the tab.
    pub open spec fn name_spec(&self) -> Seq<char> {
        match self {
            Tab::Editor { name, .. } => name@,
            Tab::Terminal { name, .. } => name@,
        }
    }

    /// The path of the file of an editor tab.
    pub open spec fn path_spec(&self) -> Option<Seq<char>> {
        match self {
            Tab::Editor { path, .. } => match path {
                Some(p) => Some(p@),
                None => None,
            },
            _ => None,
        }
    }

    /// The viewport of the tab.
    pub open spec fn viewport_spec(&self) -> (usize, usize) {
        match self {
            Tab::Editor { viewport_offset, .. } => *viewport_offset,
            Tab::Terminal { viewport_offset, .. } => *viewport_offset,
        }
    }

    /// The undo limit of an editor tab.
    pub open spec fn max_undo(&self) -> usize {
        match self {
            Tab::Editor { max_undo_history, .. } => *max_undo_history,
            _ => 0,
        }
    }

    /// Whether the find bar of an editor tab is open.
    pub open spec fn find_active(&self) -> bool {
        match self {
            Tab::Editor { find_replace_state, .. } => find_replace_state.active,
            _ => false,
        }
    }

    /// Whether an editor tab shows the markdown preview.
    pub open spec fn preview_spec(&self) -> bool {
        match self {
            Tab::Editor { preview_mode, .. } => *preview_mode,
            _ => false,
        }
    }

    /// Whether an editor tab wraps lines.
    pub open spec fn word_wrap_spec(&self) -> bool {
        match self {
            Tab::Editor { word_wrap, .. } => *word_wrap,
            _ => false,
        }
    }

    /// The buffer of an editor tab.
    pub open spec fn buffer_spec(&self) -> RopeBuffer {
        match self {
            Tab::Editor { buffer, .. } => *buffer,
            _ => arbitrary(),
        }
    }

    /// The undo stack of an editor tab.
    pub open spec fn undo_vec(&self) -> Vec<EditorState> {
        match self {
            Tab::Editor { undo_stack, .. } => *undo_stack,
            _ => arbitrary(),
        }
    }

    /// The redo stack of an editor tab.
    pub open spec fn redo_vec(&self) -> Vec<EditorState> {
        match self {
            Tab::Editor { redo_stack, .. } => *redo_stack,
            _ => arbitrary(),
        }
    }

    /// The find state of an editor tab.
    pub open spec fn find_state(&self) -> FindReplaceState {
        match self {
            Tab::Editor { find_replace_state, .. } => *find_replace_state,
            _ => arbitrary(),
        }
    }

    /// An editor tab with everything but its name, path, preview and wrap
    /// flags and undo limit replaced.
    pub open spec fn with_state(
        self,
        buffer: RopeBuffer,
        cursor: Cursor,
        viewport_offset: (usize, usize),
        modified: bool,
        find_replace_state: FindReplaceState,
        undo_stack: Vec<EditorState>,
        redo_stack: Vec<EditorState>,
    ) -> Tab {
        match self {
            Tab::Editor { name, path, preview_mode, word_wrap, max_undo_history, .. } => Tab::Editor {
                name,
                path,
                buffer,
                cursor,
                viewport_offset,
                modified,
                preview_mode,
                word_wrap,
                find_replace_state,
                undo_stack,
                redo_stack,
                max_undo_history,
            },
            _ => self,
        }
    }

    /// Whether `b` is the editor tab `a` with the same name, path, preview
    /// and wrap flags and undo limit.
    pub open spec fn keeps_identity(a: Tab, b: Tab) -> bool {
        &&& a.is_editor()
        &&& b == a.with_state(
            b.buffer_spec(),
            b.cursor_spec(),
            b.viewport_spec(),
            b.is_modified(),
            b.find_state(),
            b.undo_vec(),
            b.redo_vec(),
        )
    }

    /// An empty editor tab named `name`.
    pub fn new(name: String) -> (t: Self)
        ensures
            t.is_editor(),
            t.name_spec() == name@,
            t.path_spec() is None,
            t.text() == Seq::<char>::empty(),
            t.cursor_spec() == Cursor::new_spec(),
            t.viewport_spec() == (0usize, 0usize),
            !t.is_modified(),
            !t.preview_spec(),
            !t.word_wrap_spec(),
            !t.find_active(),
            t.undo_snapshots() == Seq::<Snapshot>::empty(),
            t.redo_snapshots() == Seq::<Snapshot>::empty(),
            t.max_undo() == 100,
    {
        let t = Tab::Editor {
            name,
            path: None,
            buffer: RopeBuffer::new(),
            cursor: Cursor::new(),
            viewport_offset: (0, 0),
            modified: false,
            preview_mode: false,
            word_wrap: false,
            find_replace_state: FindReplaceState::default(),
            undo_stack: Vec::new(),
            redo_stack: Vec::new(),
            max_undo_history: 100,
        };
        assert(t.undo_snapshots() =~= Seq::<Snapshot>::empty());
        assert(t.redo_snapshots() =~= Seq::<Snapshot>::empty());
        t
    }

    /// An editor tab for the file at `path` holding `content`; its name is the
    /// file name ("untitled" without one), and markdown files open in
    /// preview.
    pub fn from_file(path: String, content: &str) -> (t: Self)
        ensures
            t.is_editor(),
            t.name_spec() == match file_name_of(path@) {
                Some(n) => n,
                None => "untitled"@,
            },
            t.path_spec() == Some(path@),
            t.text() == content@,
            t.cursor_spec() == Cursor::new_spec(),
            t.viewport_spec() == (0usize, 0usize),
            !t.is_modified(),
            t.preview_spec() == is_markdown_spec(Some(path@), t.name_spec()),
            !t.word_wrap_spec(),
            !t.find_active(),
            t.undo_snapshots() == Seq::<Snapshot>::empty(),
            t.redo_snapshots() == Seq::<Snapshot>::empty(),
            t.max_undo() == 100,
    {
        let name = match file_name(path.as_str()) {
            Some(n) => n,
            None => {
                let u = "untitled";
                proof {
                    reveal_strlit("untitled");
                }
                str_to_string(u)
            },
        };
        let is_markdown = markdown_by(Some(&path), &name);
        let t = Tab::Editor {
            name,
            path: Some(path),
            buffer: RopeBuffer::from_str(content),
            cursor: Cursor::new(),
            viewport_offset: (0, 0),
            modified: false,
            preview_mode: is_markdown,
            word_wrap: false,
            find_replace_state: FindReplaceState::default(),
            undo_stack: Vec::new(),
            redo_stack: Vec::new(),
            max_undo_history: 100,
        };
        assert(t.undo_snapshots() =~= Seq::<Snapshot>::empty());
        assert(t.redo_snapshots() =~= Seq::<Snapshot>::empty());
        t
    }

    /// A terminal tab named "Terminal"; `terminal_id` names the terminal
    /// that the application runs for it.
    pub fn new_terminal(terminal_id: u64) -> (t: Self)
        ensures
            t == (Tab::Terminal {
                name: t->Terminal_name,
                terminal_id,
                viewport_offset: (0, 0),
                modified: false,
            }),
            t.name_spec() == "Terminal"@,
    {
        let n = "Terminal";
        proof {
            reveal_strlit("Terminal");
        }
        Tab::Terminal {
            name: str_to_string(n),
            terminal_id,
            viewport_offset: (0, 0),
            modified: false,
        }
    }

    /// The name, with a `*` when there are unsaved changes.
    pub fn display_name(&self) -> (s: String)
        ensures
            s@ == display_name_of(self.name_spec(), self.is_modified()),
    {
        let (name, modified) = match self {
            Tab::Editor { name, modified, .. } => (name, *modified),
            Tab::Terminal { name, modified, .. } => (name, *modified),
        };
        let mut s = name.clone();
        if modified {
            string_push(&mut s, '*');
        }
        s
    }

    /// Marks the tab as having unsaved changes.
    pub fn mark_modified(&mut self)
        ensures
            *final(self) == old(self).with_modified(true),
    {
        match self {
            Tab::Editor { modified, .. } => {
                *modified = true;
            },
            Tab::Terminal { modified, .. } => {
                *modified = true;
            },
        }
    }

    /// Marks the tab as saved.
    pub fn mark_saved(&mut self)
        ensures
            *final(self) == old(self).with_modified(false),
    {
        match self {
            Tab::Editor { modified, .. } => {
                *modified = false;
            },
            Tab::Terminal { modified, .. } => {
                *modified = false;
            },
        }
    }

    /// The tab with its modified flag set to `m`.
    pub open spec fn with_modified(self, m: bool) -> Tab {
        match self {
            Tab::Editor {
                name,
                path,
                buffer,
                cursor,
                viewport_offset,
                preview_mode,
                word_wrap,
                find_replace_state,
                undo_stack,
                redo_stack,
                max_undo_history,
                ..
            } => Tab::Editor {
                name,
                path,
                buffer,
                cursor,
                viewport_offset,
                modified: m,
                preview_mode,
                word_wrap,
                find_replace_state,
                undo_stack,
                redo_stack,
                max_undo_history,
            },
            Tab::Terminal { name, terminal_id, viewport_offset, .. } => Tab::Terminal {
                name,
                terminal_id,
                viewport_offset,
                modified: m,
            },
        }
    }

    /// Scrolls an editor tab so that its cursor is within `height` lines and
    /// 80 columns of the viewport; a terminal tab is left as it is.
    pub fn update_viewport(&mut self, height: usize)
        requires
            old(self).is_editor() ==> height > 0,
        ensures
            old(self).is_editor() ==> *final(self) == old(self).with_viewport(
                viewport_for(old(self).cursor_spec().position, old(self).viewport_spec(), height),
            ),
            !old(self).is_editor() ==> *final(self) == *old(self),
    {
        match self {
            Tab::Editor { cursor, viewport_offset, .. } => {
                let cursor_line = cursor.position.line;
                let (viewport_line, viewport_col) = *viewport_offset;
                let mut new_line = viewport_line;
                if cursor_line < viewport_line {
                    new_line = cursor_line;
                } else if cursor_line - viewport_line >= height {
                    new_line = cursor_line.saturating_sub(height - 1);
                }
                let cursor_col = cursor.position.column;
                let mut new_col = viewport_col;
                if cursor_col < viewport_col {
                    new_col = cursor_col;
                } else if cursor_col - viewport_col >= 80 {
                    new_col = cursor_col.saturating_sub(79);
                }
                *viewport_offset = (new_line, new_col);
            },
            Tab::Terminal { .. } => {},
        }
    }

    /// The tab with its viewport set to `vp`.
    pub open spec fn with_viewport(self, vp: (usize, usize)) -> Tab {
        match self {
            Tab::Editor {
                name,
                path,
                buffer,
                cursor,
                modified,
                preview_mode,
                word_wrap,
                find_replace_state,
                undo_stack,
                redo_stack,
                max_undo_history,
                ..
            } => Tab::Editor {
                name,
                path,
                buffer,
                cursor,
                viewport_offset: vp,
                modified,
                preview_mode,
                word_wrap,
                find_replace_state,
                undo_stack,
                redo_stack,
                max_undo_history,
            },
            Tab::Terminal { name, terminal_id, modified, .. } => Tab::Terminal {
                name,
                terminal_id,
                viewport_offset: vp,
                modified,
            },
        }
    }

    /// Same as `update_viewport`.
    pub fn ensure_cursor_visible(&mut self, height: usize)
        requires
            old(self).is_editor() ==> height > 0,
        ensures
            old(self).is_editor() ==> *final(self) == old(self).with_viewport(
                viewport_for(old(self).cursor_spec().position, old(self).viewport_spec(), height),
            ),
            !old(self).is_editor() ==> *final(self) == *old(self),
    {
        self.update_viewport(height);
    }

    /// Whether the tab holds markdown.
    pub fn is_markdown(&self) -> (b: bool)
        ensures
            b == (self.is_editor() && is_markdown_spec(self.path_spec(), self.name_spec())),
    {
        match self {
            Tab::Editor { path, name, .. } => {
                let p = match path {
                    Some(p) => Some(p),
                    None => None,
                };
                markdown_by(p, name)
            },
            Tab::Terminal { .. } => false,
        }
    }

    /// Switches a markdown editor tab between preview and edit.
    pub fn toggle_preview_mode(&mut self)
        ensures
            (old(self).is_editor() && is_markdown_spec(old(self).path_spec(), old(self).name_spec()))
                ==> final(self).preview_spec() == !old(self).preview_spec() && *final(self)
                == old(self).with_preview(!old(self).preview_spec()),
            !(old(self).is_editor() && is_markdown_spec(
                old(self).path_spec(),
                old(self).name_spec(),
            )) ==> *final(self) == *old(self),
    {
        let is_markdown = self.is_markdown();
        match self {
            Tab::Editor { preview_mode, .. } => {
                if is_markdown {
                    *preview_mode = !*preview_mode;
                }
            },
            Tab::Terminal { .. } => {},
        }
    }

    /// The tab with its preview flag set to `p`.
    pub open spec fn with_preview(self, p: bool) -> Tab {
        match self {
            Tab::Editor {
                name,
                path,
                buffer,
                cursor,
                viewport_offset,
                modified,
                word_wrap,
                find_replace_state,
                undo_stack,
                redo_stack,
                max_undo_history,
                ..
            } => Tab::Editor {
                name,
                path,
                buffer,
                cursor,
                viewport_offset,
                modified,
                preview_mode: p,
                word_wrap,
                find_replace_state,
                undo_stack,
                redo_stack,
                max_undo_history,
            },
            _ => self,
        }
    }

    /// Switches line wrapping of an editor tab.
    pub fn toggle_word_wrap(&mut self)
        ensures
            old(self).is_editor() ==> *final(self) == old(self).with_word_wrap(
                !old(self).word_wrap_spec(),
            ),
            !old(self).is_editor() ==> *final(self) == *old(self),
    {
        match self {
            Tab::Editor { word_wrap, .. } => {
                *word_wrap = !*word_wrap;
            },
            Tab::Terminal { .. } => {},
        }
    }

    /// Sets line wrapping of an editor tab.
    pub fn set_word_wrap(&mut self, wrap: bool)
        ensures
            old(self).is_editor() ==> *final(self) == old(self).with_word_wrap(wrap),
            !old(self).is_editor() ==> *final(self) == *old(self),
    {
        match self {
            Tab::Editor { word_wrap, .. } => {
                *word_wrap = wrap;
            },
            Tab::Terminal { .. } => {},
        }
    }

    /// The tab with its wrap flag set to `w`.
    pub open spec fn with_word_wrap(self, w: bool) -> Tab {
        match self {
            Tab::Editor {
                name,
                path,
                buffer,
                cursor,
                viewport_offset,
                modified,
                preview_mode,
                find_replace_state,
                undo_stack,
                redo_stack,
                max_undo_history,
                ..
            } => Tab::Editor {
                name,
                path,
                buffer,
                cursor,
                viewport_offset,
                modified,
                preview_mode,
                word_wrap: w,
                find_replace_state,
                undo_stack,
                redo_stack,
                max_undo_history,
            },
            _ => self,
        }
    }

    /// The snapshot of the text and cursor of an editor tab.
    pub open spec fn snapshot(&self) -> Snapshot {
        Snapshot { text: self.text(), cursor: self.cursor_spec() }
    }

    /// Whether the editor tab `b` is `a` after `save_state`: the snapshot of
    /// `a` pushed on the undo stack (the oldest dropped past the limit), the
    /// redo stack emptied, all else kept.
    pub open spec fn saved(a: Tab, b: Tab) -> bool {
        &&& Tab::keeps_identity(a, b)
        &&& b.undo_snapshots() == pushed_with_limit(a.undo_snapshots(), a.snapshot(), a.max_undo())
        &&& b.redo_snapshots() == Seq::<Snapshot>::empty()
        &&& b.buffer_spec() == a.buffer_spec()
        &&& b.cursor_spec() == a.cursor_spec()
        &&& b.viewport_spec() == a.viewport_spec()
        &&& b.is_modified() == a.is_modified()
        &&& b.find_state() == a.find_state()
    }

    /// Whether the editor tab `b` is `a` after a successful `undo`: the last
    /// undo snapshot restored, the current one pushed for redo; the tab
    /// counts as saved once no undo snapshot is left.
    pub open spec fn undone(a: Tab, b: Tab) -> bool {
        let prev = a.undo_snapshots().last();
        &&& b.text() == prev.text
        &&& b.cursor_spec() == prev.cursor
        &&& b.undo_snapshots() == a.undo_snapshots().drop_last()
        &&& b.redo_snapshots() == a.redo_snapshots().push(a.snapshot())
        &&& b.is_modified() == (a.is_modified() && a.undo_snapshots().len() > 1)
        &&& Tab::keeps_identity(a, b)
        &&& b.viewport_spec() == a.viewport_spec()
        &&& b.find_state() == a.find_state()
    }

    /// Whether the editor tab `b` is `a` after a successful `redo`: the last
    /// redo snapshot restored, the current one pushed for undo, the tab
    /// marked modified.
    pub open spec fn redone(a: Tab, b: Tab) -> bool {
        let next = a.redo_snapshots().last();
        &&& b.text() == next.text
        &&& b.cursor_spec() == next.cursor
        &&& b.redo_snapshots() == a.redo_snapshots().drop_last()
        &&& b.undo_snapshots() == a.undo_snapshots().push(a.snapshot())
        &&& b.is_modified()
        &&& Tab::keeps_identity(a, b)
        &&& b.viewport_spec() == a.viewport_spec()
        &&& b.find_state() == a.find_state()
    }

    /// Saves the text and cursor of an editor tab on the undo stack (the
    /// oldest snapshot dropped past the limit) and clears the redo stack.
    pub fn save_state(&mut self)
        ensures
            old(self).is_editor() ==> Tab::saved(*old(self), *final(self)),
            !old(self).is_editor() ==> *final(self) == *old(self),
    {
        match self {
            Tab::Editor { buffer, cursor, undo_stack, max_undo_history, redo_stack, .. } => {
                let ghost before = undo_stack@;
                let state = EditorState { buffer: buffer.clone(), cursor: *cursor };
                undo_stack.push(state);
                assert(snapshots(undo_stack@) =~= snapshots(before).push(state.snapshot()));
                if undo_stack.len() > *max_undo_history {
                    let ghost pushed = undo_stack@;
                    undo_stack.remove(0);
                    assert(snapshots(undo_stack@) =~= snapshots(pushed).drop_first());
                }
                redo_stack.clear();
                assert(snapshots(redo_stack@) =~= Seq::<Snapshot>::empty());
            },
            Tab::Terminal { .. } => {},
        }
    }

    /// Restores the last saved snapshot of an editor tab, saving the current
    /// one for redo; the tab counts as saved once the undo stack is empty.
    /// False when there is nothing to undo.
    pub fn undo(&mut self) -> (b: bool)
        ensures
            b == (old(self).is_editor() && old(self).undo_snapshots().len() > 0),
            b ==> Tab::undone(*old(self), *final(self)),
            !b ==> *final(self) == *old(self),
    {
        match self {
            Tab::Editor { buffer, cursor, undo_stack, redo_stack, modified, .. } => {
                if undo_stack.len() == 0 {
                    return false;
                }
                let ghost u0 = undo_stack@;
                let ghost r0 = redo_stack@;
                match undo_stack.pop() {
                    Some(previous_state) => {
                        assert(snapshots(undo_stack@) =~= snapshots(u0).drop_last());
                        let current_state = EditorState { buffer: buffer.clone(), cursor: *cursor };
                        redo_stack.push(current_state);
                        assert(snapshots(redo_stack@) =~= snapshots(r0).push(
                            current_state.snapshot(),
                        ));
                        *buffer = previous_state.buffer;
                        *cursor = previous_state.cursor;
                        if undo_stack.len() == 0 {
                            *modified = false;
                        }
                        true
                    },
                    None => false,
                }
            },
            Tab::Terminal { .. } => false,
        }
    }

    /// Restores the last undone snapshot of an editor tab, saving the current
    /// one for undo, and marks the tab modified. False when there is nothing
    /// to redo.
    pub fn redo(&mut self) -> (b: bool)
        ensures
            b == (old(self).is_editor() && old(self).redo_snapshots().len() > 0),
            b ==> Tab::redone(*old(self), *final(self)),
            !b ==> *final(self) == *old(self),
    {
        match self {
            Tab::Editor { buffer, cursor, undo_stack, redo_stack, modified, .. } => {
                if redo_stack.len() == 0 {
                    return false;
                }
                let ghost u0 = undo_stack@;
                let ghost r0 = redo_stack@;
                match redo_stack.pop() {
                    Some(next_state) => {
                        assert(snapshots(redo_stack@) =~= snapshots(r0).drop_last());
                        let current_state = EditorState { buffer: buffer.clone(), cursor: *cursor };
                        undo_stack.push(current_state);
                        assert(snapshots(undo_stack@) =~= snapshots(u0).push(
                            current_state.snapshot(),
                        ));
                        *buffer = next_state.buffer;
                        *cursor = next_state.cursor;
                        *modified = true;
                        true
                    },
                    None => false,
                }
            },
            Tab::Terminal { .. } => false,
        }
    }

    /// Scrolls the view of an editor tab up by `n` lines, stopping at the
    /// top.
    pub fn viewport_up(&mut self, n: usize)
        ensures
            old(self).is_editor() ==> *final(self) == old(self).with_viewport(
                (
                    if old(self).viewport_spec().0 >= n {
                        (old(self).viewport_spec().0 - n) as usize
                    } else {
                        0
                    },
                    old(self).viewport_spec().1,
                ),
            ),
            !old(self).is_editor() ==> *final(self) == *old(self),
    {
        match self {
            Tab::Editor { viewport_offset, .. } => {
                *viewport_offset = (viewport_offset.0.saturating_sub(n), viewport_offset.1);
            },
            Tab::Terminal { .. } => {},
        }
    }

    /// Scrolls the view of an editor tab down by `n` lines (stopping at the
    /// largest line number a `usize` holds).
    pub fn viewport_down(&mut self, n: usize)
        ensures
            old(self).is_editor() ==> *final(self) == old(self).with_viewport(
                (
                    if old(self).viewport_spec().0 + n <= usize::MAX {
                        (old(self).viewport_spec().0 + n) as usize
                    } else {
                        usize::MAX
                    },
                    old(self).viewport_spec().1,
                ),
            ),
            !old(self).is_editor() ==> *final(self) == *old(self),
    {
        match self {
            Tab::Editor { viewport_offset, .. } => {
                *viewport_offset = (viewport_offset.0.saturating_add(n), viewport_offset.1);
            },
            Tab::Terminal { .. } => {},
        }
    }

    /// The path of the file of an editor tab.
    pub fn path(&self) -> (p: Option<&String>)
        ensures
            match self.path_spec() {
                Some(q) => p is Some && p->0@ == q,
                None => p is None,
            },
    {
        match self {
            Tab::Editor { path, .. } => match path {
                Some(p) => Some(p),
                None => None,
            },
            Tab::Terminal { .. } => None,
        }
    }

    /// Whether an editor tab shows its markdown preview.
    pub fn preview_enabled(&self) -> (b: bool)
        ensures
            b == self.preview_spec(),
    {
        match self {
            Tab::Editor { preview_mode, .. } => *preview_mode,
            Tab::Terminal { .. } => false,
        }
    }

    /// Whether the find bar of an editor tab is open.
    pub fn find_is_active(&self) -> (b: bool)
        ensures
            b == self.find_active(),
    {
        match self {
            Tab::Editor { find_replace_state, .. } => find_replace_state.active,
            Tab::Terminal { .. } => false,
        }
    }

    /// Whether this is an editor tab.
    pub fn is_editor_tab(&self) -> (b: bool)
        ensures
            b == self.is_editor(),
    {
        match self {
            Tab::Editor { .. } => true,
            Tab::Terminal { .. } => false,
        }
    }

    /// The name of the tab.
    pub fn name(&self) -> (n: &String)
        ensures
            n@ == self.name_spec(),
    {
        match self {
            Tab::Editor { name, .. } => name,
            Tab::Terminal { name, .. } => name,
        }
    }

    /// Whether the tab has unsaved changes.
    pub fn modified(&self) -> (b: bool)
        ensures
            b == self.is_modified(),
    {
        match self {
            Tab::Editor { modified, .. } => *modified,
            Tab::Terminal { modified, .. } => *modified,
        }
    }
}

impl Cursor {
    /// The cursor `Cursor::new` makes.
    pub open spec fn new_spec() -> Cursor {
        Cursor {
            position: Position { line: 0, column: 0 },
            desired_column: None,
            selection_start: None,
        }
    }
}

/// A string with the chars of `s`.
pub fn str_to_string(s: &str) -> (r: String)
    ensures
        r@ == s@,
{
    let v = str_to_chars(s);
    crate::chars::chars_to_string(&v)
}

/// Whether a tab with this path and name holds markdown.
fn markdown_by(path: Option<&String>, name: &String) -> (b: bool)
    ensures
        b == is_markdown_spec(
            match path {
                Some(p) => Some(p@),
                None => None,
            },
            name@,
        ),
{
    let md = "md";
    let markdown = "markdown";
    let dot_md = ".md";
    let dot_markdown = ".markdown";
    proof {
        reveal_strlit("md");
        reveal_strlit("markdown");
        reveal_strlit(".md");
        reveal_strlit(".markdown");
    }
    if let Some(p) = path {
        if let Some(ext) = extension(p.as_str()) {
            let e = str_to_chars(ext.as_str());
            let m1 = str_to_chars(md);
            let m2 = str_to_chars(markdown);
            return chars_eq(&e, &m1) || chars_eq(&e, &m2);
        }
    }
    let n = str_to_chars(name.as_str());
    let s1 = str_to_chars(dot_md);
    let s2 = str_to_chars(dot_markdown);
    chars_ends_with(&n, &s1) || chars_ends_with(&n, &s2)
}

/// Undoing right after saving restores the text and cursor that were
/// saved, whatever edits came in between, so long as they left the undo
/// stack alone and the undo limit is at least one: the undo stack is one
/// shorter than after the save, the edited text and cursor are the top of
/// the redo stack, and the tab counts as unmodified once no undo is left.
pub proof fn lemma_undo_restores_saved(a: Tab, b: Tab, c: Tab, d: Tab)
    requires
        Tab::saved(a, b),
        c.undo_snapshots() == b.undo_snapshots(),
        a.max_undo() >= 1,
        Tab::undone(c, d),
    ensures
        c.undo_snapshots().len() > 0,
        b.undo_snapshots().last() == a.snapshot(),
        d.text() == a.text(),
        d.cursor_spec() == a.cursor_spec(),
        d.undo_snapshots() == b.undo_snapshots().drop_last(),
        d.undo_snapshots().len() + 1 == b.undo_snapshots().len(),
        d.redo_snapshots().len() == c.redo_snapshots().len() + 1,
        d.redo_snapshots().last() == c.snapshot(),
        d.redo_snapshots().last().text == c.text(),
        d.redo_snapshots().last().cursor == c.cursor_spec(),
        d.is_modified() == (c.is_modified() && b.undo_snapshots().len() > 1),
        d.undo_snapshots().len() == 0 ==> !d.is_modified(),
{
    let pushed = a.undo_snapshots().push(a.snapshot());
    if a.undo_snapshots().len() + 1 > a.max_undo() {
        assert(pushed.drop_first().last() == a.snapshot());
    }
}

/// Redoing right after an undo restores the text, the cursor and both
/// stacks as they were before the undo.
pub proof fn lemma_redo_after_undo(a: Tab, b: Tab, c: Tab)
    requires
        a.undo_snapshots().len() > 0,
        Tab::undone(a, b),
        Tab::redone(b, c),
    ensures
        c.text() == a.text(),
        c.cursor_spec() == a.cursor_spec(),
        c.undo_snapshots() =~= a.undo_snapshots(),
        c.redo_snapshots() =~= a.redo_snapshots(),
{
}

/// Undoing right after a redo restores the text, the cursor and both
/// stacks as they were before the redo.
pub proof fn lemma_undo_after_redo(a: Tab, b: Tab, c: Tab)
    requires
        a.redo_snapshots().len() > 0,
        Tab::redone(a, b),
        Tab::undone(b, c),
    ensures
        c.text() == a.text(),
        c.cursor_spec() == a.cursor_spec(),
        c.undo_snapshots() =~= a.undo_snapshots(),
        c.redo_snapshots() =~= a.redo_snapshots(),
{
}

} // verus!
