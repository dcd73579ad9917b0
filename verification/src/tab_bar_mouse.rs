//! The mouse on the tab bar: clicking a tab makes it active, clicking the
//! "Ctrl+N" hint opens a new tab, dragging a tab moves it, and clicking the
//! active tab again opens or closes its menu.
use vstd::prelude::*;
use crate::keyboard::EditorCommand;
use crate::tab::{Tab, viewport_for};
use crate::tab_manager::{reordered, active_after_reorder};
use crate::menu::{MenuState, MenuSystem};
use crate::ui_state::{shown_range, tab_x};
use crate::mouse::{MouseEvent, MouseEventKind, MouseButton, sub0, mouse_done};
use crate::app_keys::command_run;
use crate::editor_app::{App, AppRequest, reveal_requested};

verus! {

/// The tab under column `x` of a tab bar `available` columns wide, with
/// `count` tabs of which `active` is the active one: the tabs are 14
/// columns each and share the bar with an 8-column hint; when they do not
/// all fit, those around the active tab are shown, after a 3-column mark
/// when some are left out before them.
#[verifier::opaque]
pub open spec fn clicked_tab(count: nat, active: nat, available: nat, x: nat) -> Option<usize> {
    let fit = (sub0(available as int, 8) / 14) as nat;
    if count == 0 {
        None
    } else if count <= fit {
        if x / 14 < count {
            Some((x / 14) as usize)
        } else {
            None
        }
    } else {
        let (start, end) = shown_range(count, active, fit);
        let off: int = if start > 0 {
            3
        } else {
            0
        };
        if x < off {
            None
        } else if start + (x - off) / 14 < end {
            Some((start + (x - off) / 14) as usize)
        } else {
            None
        }
    }
}

/// Whether column `x` falls on the 8-column "Ctrl+N" hint, right after the
/// tabs shown (and the marks of tabs left out on either side).
#[verifier::opaque]
pub open spec fn hint_clicked(count: nat, active: nat, available: nat, x: nat) -> bool {
    let fit = (sub0(available as int, 8) / 14) as nat;
    let start_x: int = if count == 0 {
        0
    } else if count <= fit {
        (count * 14) as int
    } else {
        let (start, end) = shown_range(count, active, fit);
        (if start > 0 {
            3int
        } else {
            0
        }) + (end - start) * 14 + (if end < count {
            3int
        } else {
            0
        })
    };
    start_x <= x < start_x + 8
}

/// Whether `b` and `r` are `a` and the request after a press on tab `i` at
/// column `col`, `active_index` being the tab active before: dragging may
/// start from there; another tab than the active one is made active (and
/// scrolled to its cursor) and its file revealed in the tree.
pub open spec fn tab_pressed(a: App, b: App, i: usize, col: u16, active_index: usize, r: Option<AppRequest>) -> bool {
    let a1 = App {
        dragging_tab: Some(i),
        drag_start_x: col,
        tab_was_active_on_click: i == active_index,
        ..a
    };
    if i != active_index {
        let t = a.tab_manager.tab_list()[i as int];
        &&& b == (App { tab_manager: b.tab_manager, ..a1 })
        &&& b.tab_manager.active() == i
        &&& b.tab_manager.tab_list() == a.tab_manager.tab_list().update(
            i as int,
            if t.is_editor() {
                t.with_viewport(viewport_for(t.cursor_spec().position, t.viewport_spec(), 40))
            } else {
                t
            },
        )
        &&& reveal_requested(b, r)
    } else {
        b == a1 && r is None
    }
}

/// Whether `b` is `a` after dragging tab `d` to column `col`: the tab
/// menu closes, and the tab moves to the place of the tab under the
/// mouse, the drag following it.
pub open spec fn tab_dragged(a: App, b: App, d: usize, col: u16) -> bool {
    let menu = if a.menu_system.state is CurrentTabMenu {
        MenuSystem { state: MenuState::Closed }
    } else {
        a.menu_system
    };
    let tabs = a.tab_manager.tab_list();
    match clicked_tab(tabs.len(), a.tab_manager.active() as nat, a.terminal_size.0 as nat, col as nat) {
        Some(h) if h != d => {
            &&& b == (App {
                tab_manager: b.tab_manager,
                menu_system: menu,
                dragging_tab: Some(h),
                ..a
            })
            &&& d < tabs.len() ==> b.tab_manager.tab_list() == reordered(tabs, d as int, h as int)
                && b.tab_manager.active() == active_after_reorder(a.tab_manager.active(), d, h)
            &&& d >= tabs.len() ==> b.tab_manager.tab_list() == tabs && b.tab_manager.active()
                == a.tab_manager.active()
        },
        _ => b == (App { menu_system: menu, ..a }),
    }
}

/// The menus after a release at column `col` on the tab bar: a click
/// (less than three columns of movement) on the tab that was already
/// active opens its menu, or closes it when it is open.
pub open spec fn released_menu(a: App, col: u16) -> bool {
    let moved = if col >= a.drag_start_x {
        col - a.drag_start_x
    } else {
        a.drag_start_x - col
    };
    moved <= 2 && a.tab_was_active_on_click
}

/// Whether `b`, `handled` and `r` are `a`, whether the tab bar took the
/// event and the request after a mouse event on the tab bar (on its row,
/// the first one), `active_index` being the active tab when the event
/// came.
pub open spec fn tab_bar_clicked(
    a: App,
    b: App,
    m: MouseEvent,
    active_index: usize,
    handled: bool,
    r: Option<AppRequest>,
) -> bool {
    let n = a.tab_manager.tab_list().len();
    let act = a.tab_manager.active() as nat;
    let tw = a.terminal_size.0 as nat;
    match m.kind {
        MouseEventKind::Down(MouseButton::Left) => if m.row == 0 && hint_clicked(
            n,
            act,
            tw,
            m.column as nat,
        ) {
            handled && command_run(a, b, EditorCommand::NewTab, r)
        } else if m.row == 0 && clicked_tab(n, act, tw, m.column as nat) is Some {
            handled && tab_pressed(
                a,
                b,
                clicked_tab(n, act, tw, m.column as nat)->0,
                m.column,
                active_index,
                r,
            )
        } else {
            !handled && b == a && r is None
        },
        MouseEventKind::Drag(MouseButton::Left) => match a.dragging_tab {
            Some(d) => handled && r is None && if m.row == 0 {
                tab_dragged(a, b, d, m.column)
            } else {
                b == a
            },
            None => !handled && b == a && r is None,
        },
        MouseEventKind::Up(MouseButton::Left) => {
            &&& !handled
            &&& r is None
            &&& b == (App {
                menu_system: b.menu_system,
                dragging_tab: None,
                tab_was_active_on_click: false,
                ..a
            })
            &&& if a.dragging_tab is Some && m.row == 0 && released_menu(a, m.column) {
                if a.menu_system.state is CurrentTabMenu {
                    b.menu_system.state is Closed
                } else {
                    b.menu_system.state matches MenuState::CurrentTabMenu(c) && crate::menu::menu_of(
                        c,
                        crate::menu::tab_menu_items(),
                        30,
                        crate::menu_component::Color::Cyan,
                        crate::menu_component::Color::Black,
                    )
                }
            } else {
                b.menu_system == a.menu_system
            }
        },
        _ => !handled && b == a && r is None,
    }
}

impl App {
    /// The tab under column `mouse_x` of the tab bar (see `clicked_tab`).
    pub fn get_clicked_tab(&self, mouse_x: u16) -> (r: Option<usize>)
        ensures
            r == clicked_tab(
                self.tab_manager.tab_list().len(),
                self.tab_manager.active() as nat,
                self.terminal_size.0 as nat,
                mouse_x as nat,
            ),
    {
        reveal(clicked_tab);
        let available = self.terminal_size.0 as usize;
        let tabs_width = available.saturating_sub(8);
        let count = self.tab_manager.len();
        if count == 0 {
            return None;
        }
        let fit = tabs_width / 14;
        let x = mouse_x as usize;
        if count <= fit {
            if x / 14 < count {
                Some(x / 14)
            } else {
                None
            }
        } else {
            let (start, end) = shown(count, self.tab_manager.active_index(), fit);
            let off: usize = if start > 0 {
                3
            } else {
                0
            };
            if x < off {
                None
            } else if (x - off) / 14 < end - start {
                Some(start + (x - off) / 14)
            } else {
                None
            }
        }
    }

    /// Whether column `mouse_x` falls on the "Ctrl+N" hint of the tab bar
    /// (see `hint_clicked`).
    pub fn is_ctrl_n_hint_clicked(&self, mouse_x: u16) -> (b: bool)
        ensures
            b == hint_clicked(
                self.tab_manager.tab_list().len(),
                self.tab_manager.active() as nat,
                self.terminal_size.0 as nat,
                mouse_x as nat,
            ),
    {
        reveal(hint_clicked);
        let available = self.terminal_size.0 as usize;
        let tabs_width = available.saturating_sub(8);
        let count = self.tab_manager.len();
        let x = mouse_x as usize;
        let fit = tabs_width / 14;
        let start_x: usize = if count == 0 {
            0
        } else if count <= fit {
            count * 14
        } else {
            let (start, end) = shown(count, self.tab_manager.active_index(), fit);
            (if start > 0 {
                3
            } else {
                0
            }) + (end - start) * 14 + (if end < count {
                3
            } else {
                0
            })
        };
        x >= start_x && x < start_x + 8
    }

    /// The column where tab `target_tab_index` starts on the tab bar, for
    /// placing its menu (see `TabBar::get_tab_x_position`).
    pub fn get_tab_x_position_for_menu(&self, target_tab_index: usize) -> (x: u16)
        requires
            target_tab_index * 14 <= usize::MAX,
        ensures
            x == crate::ui_state::tab_x(
                self.tab_manager.tab_list().len(),
                self.tab_manager.active() as nat,
                target_tab_index as nat,
                self.terminal_size.0 as nat,
            ),
    {
        let available = self.terminal_size.0 as usize;
        self.ui.tab_bar.get_tab_x_position(&self.tab_manager, target_tab_index, available)
    }

    /// Runs a command of the tab bar: a new tab, a new terminal, closing
    /// the tab, the next or previous tab; other commands do nothing.
    pub fn handle_tab_bar_command(&mut self, command: EditorCommand) -> (r: Option<AppRequest>)
        ensures
            match command {
                EditorCommand::NewTab | EditorCommand::NewTerminal | EditorCommand::CloseTab
                | EditorCommand::NextTab | EditorCommand::PrevTab => command_run(
                    *old(self),
                    *final(self),
                    command,
                    r,
                ),
                _ => *final(self) == *old(self) && r is None,
            },
    {
        match command {
            EditorCommand::NewTab | EditorCommand::NewTerminal | EditorCommand::CloseTab
            | EditorCommand::NextTab | EditorCommand::PrevTab => self.run_command(command),
            _ => None,
        }
    }

    /// Runs a command on tabs: a new tab or terminal, closing the tab, the
    /// next or previous tab, a page up or down, the preview or line wrapping
    /// switched; other commands do nothing.
    pub fn handle_tab_specific_command(&mut self, command: EditorCommand) -> (r: Option<AppRequest>)
        ensures
            match command {
                EditorCommand::NewTab | EditorCommand::NewTerminal | EditorCommand::CloseTab
                | EditorCommand::NextTab | EditorCommand::PrevTab | EditorCommand::PageUp
                | EditorCommand::PageDown | EditorCommand::TogglePreview
                | EditorCommand::ToggleWordWrap => command_run(*old(self), *final(self), command, r),
                _ => *final(self) == *old(self) && r is None,
            },
    {
        match command {
            EditorCommand::NewTab | EditorCommand::NewTerminal | EditorCommand::CloseTab
            | EditorCommand::NextTab | EditorCommand::PrevTab | EditorCommand::PageUp
            | EditorCommand::PageDown | EditorCommand::TogglePreview
            | EditorCommand::ToggleWordWrap => self.run_command(command),
            _ => None,
        }
    }

    /// Presses tab `i` at column `col` (see `tab_pressed`).
    fn press_tab(&mut self, i: usize, col: u16, active_index: usize) -> (r: Option<AppRequest>)
        requires
            i < old(self).tab_manager.tab_list().len(),
        ensures
            tab_pressed(*old(self), *final(self), i, col, active_index, r),
    {
        self.dragging_tab = Some(i);
        self.drag_start_x = col;
        self.tab_was_active_on_click = i == active_index;
        if i != active_index {
            self.tab_manager.set_active_index(i);
            self.expand_tree_request()
        } else {
            None
        }
    }

    /// Drags tab `d` to column `col` (see `tab_dragged`).
    fn drag_tab(&mut self, d: usize, col: u16)
        ensures
            tab_dragged(*old(self), *final(self), d, col),
    {
        let tab_menu = match &self.menu_system.state {
            MenuState::CurrentTabMenu(_) => true,
            _ => false,
        };
        if tab_menu {
            self.menu_system.close();
        }
        proof {
            lemma_clicked_tab_in_range(
                self.tab_manager.tab_list().len(),
                self.tab_manager.active() as nat,
                self.terminal_size.0 as nat,
                col as nat,
            );
        }
        match self.get_clicked_tab(col) {
            Some(h) => {
                if h != d {
                    self.tab_manager.reorder_tab(d, h);
                    self.dragging_tab = Some(h);
                }
            },
            None => {},
        }
    }

    /// Ends a drag or a click on the tab bar at column `col`.
    fn release_tab(&mut self, col: u16, on_bar: bool)
        ensures
            *final(self) == (App {
                menu_system: final(self).menu_system,
                dragging_tab: None,
                tab_was_active_on_click: false,
                ..*old(self)
            }),
            if old(self).dragging_tab is Some && on_bar && released_menu(*old(self), col) {
                if old(self).menu_system.state is CurrentTabMenu {
                    final(self).menu_system.state is Closed
                } else {
                    final(self).menu_system.state matches MenuState::CurrentTabMenu(c)
                        && crate::menu::menu_of(
                        c,
                        crate::menu::tab_menu_items(),
                        30,
                        crate::menu_component::Color::Cyan,
                        crate::menu_component::Color::Black,
                    )
                }
            } else {
                final(self).menu_system == old(self).menu_system
            },
    {
        if self.dragging_tab.is_some() && on_bar {
            let moved = if col >= self.drag_start_x {
                col - self.drag_start_x
            } else {
                self.drag_start_x - col
            };
            if moved <= 2 && self.tab_was_active_on_click {
                let tab_menu = match &self.menu_system.state {
                    MenuState::CurrentTabMenu(_) => true,
                    _ => false,
                };
                if tab_menu {
                    self.menu_system.close();
                } else {
                    self.menu_system.open_current_tab_menu();
                }
            }
        }
        self.dragging_tab = None;
        self.tab_was_active_on_click = false;
    }

    /// Handles a mouse event on the tab bar (see `tab_bar_clicked`).
    #[verifier::spinoff_prover]
    #[verifier::rlimit(40)]
    pub fn handle_tab_bar_mouse(&mut self, mouse: MouseEvent, active_index: usize) -> (res: (
        bool,
        Option<AppRequest>,
    ))
        ensures
            tab_bar_clicked(*old(self), *final(self), mouse, active_index, res.0, res.1),
    {
        match mouse.kind {
            MouseEventKind::Down(MouseButton::Left) => {
                if mouse.row == 0 {
                    if self.is_ctrl_n_hint_clicked(mouse.column) {
                        let r = self.run_command(EditorCommand::NewTab);
                        return (true, r);
                    }
                    match self.get_clicked_tab(mouse.column) {
                        Some(i) => {
                            proof {
                                lemma_clicked_tab_in_range(
                                    self.tab_manager.tab_list().len(),
                                    self.tab_manager.active() as nat,
                                    self.terminal_size.0 as nat,
                                    mouse.column as nat,
                                );
                            }
                            let r = self.press_tab(i, mouse.column, active_index);
                            return (true, r);
                        },
                        None => {},
                    }
                }
                (false, None)
            },
            MouseEventKind::Drag(MouseButton::Left) => {
                match self.dragging_tab {
                    Some(d) => {
                        if mouse.row == 0 {
                            self.drag_tab(d, mouse.column);
                        }
                        (true, None)
                    },
                    None => (false, None),
                }
            },
            MouseEventKind::Up(MouseButton::Left) => {
                self.release_tab(mouse.column, mouse.row == 0);
                (false, None)
            },
            _ => (false, None),
        }
    }
}

/// A tab under the mouse is one of the tabs.
pub proof fn lemma_clicked_tab_in_range(count: nat, active: nat, available: nat, x: nat)
    ensures
        clicked_tab(count, active, available, x) matches Some(i) ==> i < count,
{
    reveal(clicked_tab);
    let fit = (sub0(available as int, 8) / 14) as nat;
    if count > fit && count > 0 {
        let (start, end) = shown_range(count, active, fit);
        assert(end <= count);
    }
}

/// Clicking where a tab is drawn selects that tab: on a bar `available`
/// columns wide with `count` tabs, `active` the active one, every tab that is
/// drawn (all of them when they fit, else those of `shown_range`) is the tab
/// under the column where it starts.
pub proof fn lemma_click_on_drawn_tab(count: nat, active: nat, available: nat, target: nat)
    requires
        available <= u16::MAX,
        target < count,
        ({
            let fit = (sub0(available as int, 8) / 14) as nat;
            count <= fit || (shown_range(count, active, fit).0 <= target && target
                < shown_range(count, active, fit).1)
        }),
    ensures
        clicked_tab(count, active, available, tab_x(count, active, target, available) as nat)
            == Some(target as usize),
{
    reveal(clicked_tab);
    let fit = (sub0(available as int, 8) / 14) as nat;
    let w: int = sub0(available as int, 8);
    assert(fit * 14 <= w) by (nonlinear_arith)
        requires
            fit == w / 14,
            w >= 0,
    ;
    if count <= fit {
        assert(target * 14 < fit * 14) by (nonlinear_arith)
            requires
                target < fit,
        ;
        let x: int = (target * 14) as int;
        assert(x / 14 == target) by (nonlinear_arith)
            requires
                x == target * 14,
        ;
    } else {
        let (start, end) = shown_range(count, active, fit);
        let off: int = if start > 0 {
            3
        } else {
            0
        };
        let k: int = target - start;
        assert(end - start <= fit);
        assert(k * 14 < fit * 14) by (nonlinear_arith)
            requires
                0 <= k < fit,
        ;
        let x: int = off + k * 14;
        assert((x - off) / 14 == k) by (nonlinear_arith)
            requires
                x - off == k * 14,
        ;
        assert(tab_x(count, active, target, available) as int == x);
    }
}

/// The first and one past the last tab shown (see `shown_range`).
fn shown(count: usize, active: usize, fit: usize) -> (r: (usize, usize))
    requires
        fit < count,
    ensures
        r.0 as int == shown_range(count as nat, active as nat, fit as nat).0,
        r.1 as int == shown_range(count as nat, active as nat, fit as nat).1,
        r.0 <= r.1 <= count,
{
    let half = fit / 2;
    let last_start = count - fit;
    let start = if active >= half {
        if active - half < last_start {
            active - half
        } else {
            last_start
        }
    } else {
        0
    };
    let end = if start + fit < count {
        start + fit
    } else {
        count
    };
    (start, end)
}


/// Whether the tab bar may take a mouse event in `a`: no warning is shown
/// and neither the input dialog nor the file picker is open.
pub open spec fn tab_bar_first(a: App) -> bool {
    a.warning_message is None && !(a.menu_system.state is InputDialog) && !(
    a.menu_system.state is FilePicker)
}

/// Whether `m` is a left click on the "☰ F1" button: the first six columns
/// of the status line, the last row.
pub open spec fn f1_clicked(a: App, m: MouseEvent) -> bool {
    &&& m.kind == MouseEventKind::Down(MouseButton::Left)
    &&& a.terminal_size.1 >= 1
    &&& m.row == a.terminal_size.1 - 1
    &&& m.column < 6
}

/// Whether `b` and `r` are `a` and the request after the mouse event `m`
/// when the status line's menu button and then the tab bar go first (a
/// click on the button opens or closes the main menu): it takes what it handles, and what it
/// does not goes on to `handle_mouse_event` from where it left the editor.
pub open spec fn mouse_input_done(a: App, b: App, m: MouseEvent, now_ms: u64, r: Option<AppRequest>) -> bool {
    if tab_bar_first(a) && f1_clicked(a, m) {
        command_run(a, b, EditorCommand::ToggleMenu, r)
    } else if tab_bar_first(a) {
        exists|mid: App, h: bool, r0: Option<AppRequest>|
            #[trigger] tab_bar_clicked(a, mid, m, a.tab_manager.active(), h, r0) && if h {
                b == mid && r == r0
            } else {
                mouse_done(mid, b, m, now_ms, r)
            }
    } else {
        mouse_done(a, b, m, now_ms, r)
    }
}

impl App {
    /// Handles a mouse event: unless a warning, the input dialog or the file
    /// picker is shown, a click on the "☰ F1" button of the status line
    /// opens or closes the main menu, and the tab bar goes next (switching,
    /// dragging and opening tabs, and the menu of the active tab); then
    /// `handle_mouse_event`.
    pub fn handle_mouse_input(&mut self, mouse: MouseEvent, now_ms: u64) -> (r: Option<AppRequest>)
        ensures
            mouse_input_done(*old(self), *final(self), mouse, now_ms, r),
    {
        let overlay = self.warning_message.is_some() || match &self.menu_system.state {
            MenuState::InputDialog(_) | MenuState::FilePicker(_) => true,
            _ => false,
        };
        if overlay {
            return self.handle_mouse_event(mouse, now_ms);
        }
        let th = self.terminal_size.1;
        let f1 = match mouse.kind {
            MouseEventKind::Down(MouseButton::Left) => th >= 1 && mouse.row == th - 1 && mouse.column
                < 6,
            _ => false,
        };
        if f1 {
            return self.run_command(EditorCommand::ToggleMenu);
        }
        let ghost a = *self;
        let active = self.tab_manager.active_index();
        let (handled, r0) = self.handle_tab_bar_mouse(mouse, active);
        let ghost mid = *self;
        if handled {
            assert(tab_bar_clicked(a, mid, mouse, a.tab_manager.active(), handled, r0));
            return r0;
        }
        let r = self.handle_mouse_event(mouse, now_ms);
        assert(tab_bar_clicked(a, mid, mouse, a.tab_manager.active(), handled, r0));
        r
    }
}

} // verus!
