//! The state behind the screen: focus, scrollbars, the status and tab bars,
//! and where a tab sits on the tab bar.
use vstd::prelude::*;
use crate::tab_manager::TabManager;

verus! {

/// Whether a char separates words for double-click selection.
pub open spec fn is_separator(ch: char) -> bool {
    ch == '.' || ch == '-' || ch == '_' || ch == '/' || ch == '\\' || ch == '(' || ch == ')' || ch
        == '[' || ch == ']' || ch == '{' || ch == '}' || ch == '"' || ch == '\'' || ch == ',' || ch
        == ';' || ch == ':'
}

/// Whether `ch` separates words: one of `.-_/\()[]{}"',;:`.
pub fn is_word_separator(ch: char) -> (b: bool)
    ensures
        b == is_separator(ch),
{
    ch == '.' || ch == '-' || ch == '_' || ch == '/' || ch == '\\' || ch == '(' || ch == ')' || ch
        == '[' || ch == ']' || ch == '{' || ch == '}' || ch == '"' || ch == '\'' || ch == ',' || ch
        == ';' || ch == ':'
}

/// Which panel takes the keys.
#[derive(Clone, Copy, Debug, PartialEq, Eq, Structural)]
pub enum FocusMode {
    Editor,
    TreeView,
}

/// What a scrollbar shows: the length of the content, how much of it is in
/// view, and where the view starts.
#[derive(Clone, Copy, Debug, PartialEq, Eq, Structural)]
pub struct ScrollbarState {
    pub content_length: usize,
    pub viewport_size: usize,
    pub position: usize,
}

impl ScrollbarState {
    /// A scrollbar for `content_length` lines with `viewport_size` in view
    /// (at least one), the view starting at `position` but no later than
    /// where the last lines fill it.
    pub fn new(content_length: usize, viewport_size: usize, position: usize) -> (s: Self)
        ensures
            s.content_length == content_length,
            s.viewport_size == if viewport_size > 1 {
                viewport_size
            } else {
                1
            },
            s.position == if content_length >= viewport_size {
                if position < content_length - viewport_size {
                    position
                } else {
                    (content_length - viewport_size) as usize
                }
            } else {
                0
            },
    {
        let max_position = content_length.saturating_sub(viewport_size);
        ScrollbarState {
            content_length,
            viewport_size: if viewport_size > 1 {
                viewport_size
            } else {
                1
            },
            position: if position < max_position {
                position
            } else {
                max_position
            },
        }
    }

    /// Whether the content is longer than the view.
    pub fn needs_scrollbar(&self) -> (b: bool)
        ensures
            b == (self.content_length > self.viewport_size),
    {
        self.content_length > self.viewport_size
    }
}

/// The symbols of a vertical scrollbar: the track and the thumb.
#[derive(Clone, Copy, Debug)]
pub struct TrackSymbols {
    pub track: &'static str,
    pub thumb: &'static str,
}

impl Default for TrackSymbols {
    fn default() -> (s: Self)
        ensures
            s.track@ == "│"@,
            s.thumb@ == "█"@,
    {
        TrackSymbols { track: "│", thumb: "█" }
    }
}

impl TrackSymbols {
    /// A line for the track and a block for the thumb.
    pub fn compact() -> (s: Self)
        ensures
            s.track@ == "│"@,
            s.thumb@ == "█"@,
    {
        TrackSymbols { track: "│", thumb: "█" }
    }

    /// A heavy line for the track and a half block for the thumb.
    pub fn thin() -> (s: Self)
        ensures
            s.track@ == "┃"@,
            s.thumb@ == "▌"@,
    {
        TrackSymbols { track: "┃", thumb: "▌" }
    }

    /// A blank track and a line for the thumb.
    pub fn minimal() -> (s: Self)
        ensures
            s.track@ == " "@,
            s.thumb@ == "│"@,
    {
        TrackSymbols { track: " ", thumb: "│" }
    }
}

/// The symbols of a horizontal scrollbar: the track and the thumb.
#[derive(Clone, Copy, Debug)]
pub struct HorizontalTrackSymbols {
    pub track: &'static str,
    pub thumb: &'static str,
}

impl Default for HorizontalTrackSymbols {
    fn default() -> (s: Self)
        ensures
            s.track@ == "─"@,
            s.thumb@ == "█"@,
    {
        HorizontalTrackSymbols { track: "─", thumb: "█" }
    }
}

impl HorizontalTrackSymbols {
    /// A line for the track and a bar for the thumb.
    pub fn compact() -> (s: Self)
        ensures
            s.track@ == "─"@,
            s.thumb@ == "▬"@,
    {
        HorizontalTrackSymbols { track: "─", thumb: "▬" }
    }
}

/// The status bar.
pub struct StatusBar {}

impl StatusBar {
    pub fn new() -> (s: Self) {
        StatusBar {  }
    }
}

/// The tab bar.
pub struct TabBar {}

/// The width of a tab on the tab bar.
pub const TAB_WIDTH: usize = 14;

/// The width of the "  Ctrl+N" hint after the tabs.
pub const HINT_WIDTH: usize = 8;

/// The first and one past the last tab shown when `count` tabs do not all
/// fit: as many as fit, centered on the active one as far as possible.
pub open spec fn shown_range(count: nat, active: nat, fit: nat) -> (int, int) {
    let half = fit / 2;
    let last_start = if count >= fit {
        count - fit
    } else {
        0
    };
    let start = if active >= half {
        if active - half < last_start {
            active - half
        } else {
            last_start
        }
    } else {
        0
    };
    let end = if start + fit < count {
        start + fit
    } else {
        count as int
    };
    (start, end)
}

/// Where tab `target` starts on a tab bar `available` columns wide, with
/// `count` tabs of which `active` is the active one; 0 for a tab not shown.
pub open spec fn tab_x(count: nat, active: nat, target: nat, available: nat) -> u16 {
    let tabs_width: int = if available >= HINT_WIDTH {
        available - HINT_WIDTH
    } else {
        0
    };
    let fit = (tabs_width / (TAB_WIDTH as int)) as nat;
    if count == 0 {
        0
    } else if count <= fit {
        (target * TAB_WIDTH) as u16
    } else {
        let (start, end) = shown_range(count, active, fit);
        if target < start || target >= end {
            0
        } else {
            ((if start > 0 {
                3int
            } else {
                0
            }) + (target - start) * TAB_WIDTH) as u16
        }
    }
}

impl TabBar {
    pub fn new() -> (t: Self) {
        TabBar {  }
    }

    /// The column where tab `target_tab_index` starts on a tab bar
    /// `available_width` columns wide (the tabs, 14 columns each, share it
    /// with an 8-column hint; when they do not all fit, those around the
    /// active tab are shown, after a 3-column mark when some are left out
    /// before them); 0 for a tab not shown.
    pub fn get_tab_x_position(
        &self,
        tab_manager: &TabManager,
        target_tab_index: usize,
        available_width: usize,
    ) -> (x: u16)
        requires
            available_width <= u16::MAX,
            target_tab_index * TAB_WIDTH <= usize::MAX,
        ensures
            x == tab_x(
                tab_manager.tab_list().len(),
                tab_manager.active() as nat,
                target_tab_index as nat,
                available_width as nat,
            ),
    {
        let tabs_width = available_width.saturating_sub(HINT_WIDTH);
        let tab_count = tab_manager.len();
        if tab_count == 0 {
            return 0;
        }
        let max_tabs_that_fit = tabs_width / TAB_WIDTH;
        if tab_count <= max_tabs_that_fit {
            (target_tab_index * TAB_WIDTH) as u16
        } else {
            let active_index = tab_manager.active_index();
            let half_width = max_tabs_that_fit / 2;
            let last_start = tab_count.saturating_sub(max_tabs_that_fit);
            let start_index = if active_index >= half_width {
                if active_index - half_width < last_start {
                    active_index - half_width
                } else {
                    last_start
                }
            } else {
                0
            };
            let end_index = if start_index + max_tabs_that_fit < tab_count {
                start_index + max_tabs_that_fit
            } else {
                tab_count
            };
            if target_tab_index < start_index || target_tab_index >= end_index {
                return 0;
            }
            let mut x_pos: u16 = 0;
            if start_index > 0 {
                x_pos = 3;
            }
            let tab_offset = target_tab_index - start_index;
            assert(tab_offset * TAB_WIDTH < max_tabs_that_fit * TAB_WIDTH) by (nonlinear_arith)
                requires
                    tab_offset < max_tabs_that_fit,
            ;
            assert(max_tabs_that_fit * TAB_WIDTH <= tabs_width) by (nonlinear_arith)
                requires
                    max_tabs_that_fit == tabs_width / TAB_WIDTH,
            ;
            x_pos = x_pos + (tab_offset * TAB_WIDTH) as u16;
            x_pos
        }
    }
}

/// The parts of the screen that keep state between draws.
pub struct UI {
    pub tab_bar: TabBar,
    pub status_bar: StatusBar,
}

impl UI {
    pub fn new() -> (u: Self) {
        UI { tab_bar: TabBar::new(), status_bar: StatusBar::new() }
    }
}

} // verus!
