//! The menu system: which menu or dialog is open, the items of each menu,
//! and what choosing an item returns.
use vstd::prelude::*;
use crate::menu_component::{
    MenuComponent, MenuItem, MenuAction, ItemView, Color, items_view, action_view,
};
use crate::picker::{FilePickerState, PickerView, reloaded, entered};
use crate::gitignore::GitIgnore;
use crate::tree::DirListing;
use crate::tab::str_to_string;

verus! {

/// The state of the dialog that asks for a name.
pub struct InputDialogState {
    pub prompt: String,
    pub input: String,
    /// "new_file", "new_folder" or "rename".
    pub operation: String,
    pub target_path: String,
    pub cursor_position: usize,
    pub selection_start: Option<usize>,
    /// 0 for OK, 1 for Cancel.
    pub hovered_button: Option<usize>,
}

/// The menu opened on an item of the file tree.
pub struct TreeContextMenuState {
    pub menu: MenuComponent,
    pub target_path: String,
    pub is_directory: bool,
    /// Where the menu opens, as (x, y).
    pub position: (u16, u16),
}

/// What is open: nothing, a menu, the file picker or the input dialog.
pub enum MenuState {
    Closed,
    MainMenu(MenuComponent),
    CurrentTabMenu(MenuComponent),
    FilePicker(FilePickerState),
    TreeContextMenu(TreeContextMenuState),
    InputDialog(InputDialogState),
}

/// The menus of the editor.
pub struct MenuSystem {
    pub state: MenuState,
}

/// An item as values.
pub open spec fn item(
    label: Seq<char>,
    action: Option<Seq<char>>,
    shortcut: Option<Seq<char>>,
    checked: Option<bool>,
) -> ItemView {
    ItemView { label, shortcut, checked, action }
}

/// The items of the main menu.
pub open spec fn main_menu_items(word_wrap: bool, tree_view: bool, find_inline: bool) -> Seq<ItemView> {
    seq![
        item("Current Tab"@, Some("current_tab"@), Some("Ctrl+G"@), None),
        item("Open File"@, Some("open_file"@), Some("Ctrl+P"@), None),
        item("Tree View"@, Some("toggle_tree_view"@), Some("Ctrl+T"@), Some(tree_view)),
        item("Find Inline"@, Some("toggle_find_inline"@), Some("Ctrl+F"@), Some(find_inline)),
        item("Word Wrap"@, Some("toggle_word_wrap"@), Some("Alt+W"@), Some(word_wrap)),
        item("Quit"@, Some("quit"@), Some("Ctrl+Q"@), None),
        item("Cancel"@, None, None, None),
    ]
}

/// The items of the menu of the current tab.
pub open spec fn tab_menu_items() -> Seq<ItemView> {
    seq![
        item("Next Tab"@, Some("next_tab"@), Some("Ctrl+]"@), None),
        item("Previous Tab"@, Some("prev_tab"@), Some("Ctrl+["@), None),
        item("Close Tab"@, Some("close_tab"@), Some("Ctrl+W"@), None),
        item("Close Other Tab"@, Some("close_other_tab"@), Some("Ctrl+Shift+W"@), None),
        item("Cancel"@, None, None, None),
    ]
}

/// A plain item with a named action.
pub open spec fn plain(label: Seq<char>, action: Seq<char>) -> ItemView {
    item(label, Some(action), None, None)
}

/// The items of the menu on a tree item: New File and New Folder for a
/// directory, Open for a file, then Copy, Cut, Paste (when the clipboard
/// holds something), Rename and Delete.
pub open spec fn context_menu_items(is_directory: bool, has_clipboard: bool) -> Seq<ItemView> {
    (if is_directory {
        seq![plain("New File"@, "new_file"@), plain("New Folder"@, "new_folder"@)]
    } else {
        seq![plain("Open"@, "open"@)]
    }) + seq![plain("Copy"@, "copy"@), plain("Cut"@, "cut"@)] + (if has_clipboard {
        seq![plain("Paste"@, "paste"@)]
    } else {
        Seq::empty()
    }) + seq![plain("Rename"@, "rename"@), plain("Delete"@, "delete"@)]
}

/// The items of the menu on the empty area of the tree: New File, New
/// Folder, and Paste when the clipboard holds something.
pub open spec fn empty_area_menu_items(has_clipboard: bool) -> Seq<ItemView> {
    seq![plain("New File"@, "new_file"@), plain("New Folder"@, "new_folder"@)] + (if has_clipboard {
        seq![plain("Paste"@, "paste"@)]
    } else {
        Seq::empty()
    })
}

/// Whether `m` is a fresh menu of the given items, width and colors.
pub open spec fn menu_of(m: MenuComponent, items: Seq<ItemView>, width: u16, bg: Color, fg: Color) -> bool {
    &&& items_view(m.items@) == items
    &&& m.selected_index == 0
    &&& m.hovered_index is None
    &&& m.width == width
    &&& m.height == items.len()
    &&& m.background_color == bg
    &&& m.foreground_color == fg
    &&& m.selected_bg_color == Some(Color::Yellow)
    &&& m.selected_fg_color == Some(Color::Black)
    &&& !m.show_border
}

/// Whether `s` holds the main menu for the given settings.
pub open spec fn is_main_menu(s: MenuState, word_wrap: bool, tree_view: bool, find_inline: bool) -> bool {
    s matches MenuState::MainMenu(m) && menu_of(
        m,
        main_menu_items(word_wrap, tree_view, find_inline),
        30,
        Color::Yellow,
        Color::Black,
    )
}

/// The menu with the selection moved up one item.
pub open spec fn menu_up(m: MenuComponent) -> MenuComponent {
    MenuComponent {
        selected_index: if m.selected_index > 0 {
            (m.selected_index - 1) as usize
        } else {
            m.selected_index
        },
        ..m
    }
}

/// The menu with the selection moved down one item.
pub open spec fn menu_down(m: MenuComponent) -> MenuComponent {
    MenuComponent {
        selected_index: if m.selected_index + 1 < m.items@.len() {
            (m.selected_index + 1) as usize
        } else {
            m.selected_index
        },
        ..m
    }
}

/// The action of the selected item of `m`, if any.
pub open spec fn selected_action(m: MenuComponent) -> Option<Option<Seq<char>>> {
    if m.selected_index < m.items@.len() {
        Some(action_view(m.items@[m.selected_index as int].action))
    } else {
        None
    }
}

/// An item with a named action, an optional shortcut and check mark.
fn make_item(label: &str, action: &str, shortcut: Option<&str>, checked: Option<bool>) -> (m: MenuItem)
    ensures
        crate::menu_component::item_view(m) == item(
            label@,
            Some(action@),
            match shortcut {
                Some(s) => Some(s@),
                None => None,
            },
            checked,
        ),
{
    let mut m = MenuItem::new(label, MenuAction::Custom(str_to_string(action)));
    match shortcut {
        Some(s) => {
            m = m.with_shortcut(s);
        },
        None => {},
    }
    match checked {
        Some(c) => {
            m = m.with_checkbox(c);
        },
        None => {},
    }
    m
}

/// The item that closes a menu.
fn cancel_item() -> (m: MenuItem)
    ensures
        crate::menu_component::item_view(m) == item("Cancel"@, None, None, None),
{
    MenuItem::new("Cancel", MenuAction::Close)
}

/// The main menu for the given settings.
fn build_main_menu(word_wrap: bool, tree_view: bool, find_inline: bool) -> (m: MenuComponent)
    ensures
        menu_of(m, main_menu_items(word_wrap, tree_view, find_inline), 30, Color::Yellow, Color::Black),
{
    let mut items: Vec<MenuItem> = Vec::new();
    items.push(make_item("Current Tab", "current_tab", Some("Ctrl+G"), None));
    items.push(make_item("Open File", "open_file", Some("Ctrl+P"), None));
    items.push(make_item("Tree View", "toggle_tree_view", Some("Ctrl+T"), Some(tree_view)));
    items.push(make_item("Find Inline", "toggle_find_inline", Some("Ctrl+F"), Some(find_inline)));
    items.push(make_item("Word Wrap", "toggle_word_wrap", Some("Alt+W"), Some(word_wrap)));
    items.push(make_item("Quit", "quit", Some("Ctrl+Q"), None));
    items.push(cancel_item());
    assert(items_view(items@) =~= main_menu_items(word_wrap, tree_view, find_inline));
    MenuComponent::new(items).with_width(30).with_colors(Color::Yellow, Color::Black)
}

/// A copy of the action of the selected item of `m`, if any.
fn chosen_action(m: &MenuComponent) -> (r: Option<MenuAction>)
    ensures
        match selected_action(*m) {
            None => r is None,
            Some(a) => r is Some && action_view(r->0) == a,
        },
{
    match m.get_selected_action() {
        Some(a) => Some(a.duplicate()),
        None => None,
    }
}

impl MenuSystem {
    /// No menu open.
    pub fn new() -> (m: Self)
        ensures
            m.state is Closed,
    {
        MenuSystem { state: MenuState::Closed }
    }

    /// Opens the main menu when nothing is open, else closes what is open.
    /// The check marks show whether word wrap, the tree view and inline
    /// find are on.
    pub fn toggle_main_menu(
        &mut self,
        is_markdown: bool,
        in_preview_mode: bool,
        word_wrap_enabled: bool,
        tree_view_enabled: bool,
        find_inline_enabled: bool,
    )
        ensures
            old(self).state is Closed ==> is_main_menu(
                final(self).state,
                word_wrap_enabled,
                tree_view_enabled,
                find_inline_enabled,
            ),
            !(old(self).state is Closed) ==> final(self).state is Closed,
    {
        let closed = match self.state {
            MenuState::Closed => true,
            _ => false,
        };
        if closed {
            self.state = MenuState::MainMenu(
                build_main_menu(word_wrap_enabled, tree_view_enabled, find_inline_enabled),
            );
        } else {
            self.state = MenuState::Closed;
        }
    }

    /// Opens the main menu.
    pub fn open_main_menu(
        &mut self,
        is_markdown: bool,
        in_preview_mode: bool,
        word_wrap_enabled: bool,
        tree_view_enabled: bool,
        find_inline_enabled: bool,
    )
        ensures
            is_main_menu(final(self).state, word_wrap_enabled, tree_view_enabled, find_inline_enabled),
    {
        self.state = MenuState::MainMenu(
            build_main_menu(word_wrap_enabled, tree_view_enabled, find_inline_enabled),
        );
    }

    /// Opens the menu of the current tab.
    pub fn open_current_tab_menu(&mut self)
        ensures
            final(self).state matches MenuState::CurrentTabMenu(m) && menu_of(
                m,
                tab_menu_items(),
                30,
                Color::Cyan,
                Color::Black,
            ),
    {
        let mut items: Vec<MenuItem> = Vec::new();
        items.push(make_item("Next Tab", "next_tab", Some("Ctrl+]"), None));
        items.push(make_item("Previous Tab", "prev_tab", Some("Ctrl+["), None));
        items.push(make_item("Close Tab", "close_tab", Some("Ctrl+W"), None));
        items.push(make_item("Close Other Tab", "close_other_tab", Some("Ctrl+Shift+W"), None));
        items.push(cancel_item());
        assert(items_view(items@) =~= tab_menu_items());
        let menu = MenuComponent::new(items).with_width(30).with_colors(Color::Cyan, Color::Black);
        self.state = MenuState::CurrentTabMenu(menu);
    }

    /// Opens the file picker on `current_dir`, whose repository's rules are
    /// `gitignore`.
    pub fn open_file_picker(&mut self, current_dir: String, gitignore: GitIgnore, fs: &[DirListing])
        ensures
            final(self).state matches MenuState::FilePicker(p) && p@ == reloaded(
                PickerView {
                    search_query: Seq::empty(),
                    filtered: Seq::empty(),
                    selected_index: 0,
                    hovered_index: None,
                    current_dir: current_dir@,
                    all: Seq::empty(),
                    gitignore,
                    last_scroll_time: None,
                    scroll_acceleration: 1,
                },
                fs@,
            ),
    {
        let picker_state = FilePickerState::new(current_dir, gitignore, fs);
        self.state = MenuState::FilePicker(picker_state);
    }

    /// Opens the file picker on `current_dir`, then, when `target` names a
    /// directory (and the rules of its repository), moves into it.
    pub fn open_file_picker_at_path(
        &mut self,
        current_dir: String,
        gitignore: GitIgnore,
        target: Option<(String, GitIgnore)>,
        fs: &[DirListing],
    )
        ensures
            final(self).state matches MenuState::FilePicker(p) && ({
                let start = reloaded(
                    PickerView {
                        search_query: Seq::empty(),
                        filtered: Seq::empty(),
                        selected_index: 0,
                        hovered_index: None,
                        current_dir: current_dir@,
                        all: Seq::empty(),
                        gitignore,
                        last_scroll_time: None,
                        scroll_acceleration: 1,
                    },
                    fs@,
                );
                match target {
                    Some((dir, g)) => p@ == entered(start, dir@, g, fs@),
                    None => p@ == start,
                }
            }),
    {
        let mut picker_state = FilePickerState::new(current_dir, gitignore, fs);
        match target {
            Some((dir, g)) => {
                picker_state.enter_directory(dir, g, fs);
            },
            None => {},
        }
        self.state = MenuState::FilePicker(picker_state);
    }

    /// Closes what is open.
    pub fn close(&mut self)
        ensures
            final(self).state is Closed,
    {
        self.state = MenuState::Closed;
    }

    /// Opens the menu on the tree item at `path`, at `position`.
    pub fn open_tree_context_menu(
        &mut self,
        path: String,
        is_directory: bool,
        position: (u16, u16),
        has_clipboard: bool,
    )
        ensures
            final(self).state matches MenuState::TreeContextMenu(c) && {
                &&& menu_of(
                    c.menu,
                    context_menu_items(is_directory, has_clipboard),
                    30,
                    Color::Yellow,
                    Color::Black,
                )
                &&& c.target_path@ == path@
                &&& c.is_directory == is_directory
                &&& c.position == position
            },
    {
        let mut items: Vec<MenuItem> = Vec::new();
        if is_directory {
            items.push(make_item("New File", "new_file", None, None));
            items.push(make_item("New Folder", "new_folder", None, None));
        }
        if !is_directory {
            items.push(make_item("Open", "open", None, None));
        }
        items.push(make_item("Copy", "copy", None, None));
        items.push(make_item("Cut", "cut", None, None));
        if has_clipboard {
            items.push(make_item("Paste", "paste", None, None));
        }
        items.push(make_item("Rename", "rename", None, None));
        items.push(make_item("Delete", "delete", None, None));
        assert(items_view(items@) =~= context_menu_items(is_directory, has_clipboard));
        let menu = MenuComponent::new(items);
        let context_state = TreeContextMenuState { menu, target_path: path, is_directory, position };
        self.state = MenuState::TreeContextMenu(context_state);
    }

    /// Opens the menu on the empty area of the tree, for the directory at
    /// `path`, at `position`.
    pub fn open_tree_empty_area_menu(&mut self, path: String, position: (u16, u16), has_clipboard: bool)
        ensures
            final(self).state matches MenuState::TreeContextMenu(c) && {
                &&& menu_of(
                    c.menu,
                    empty_area_menu_items(has_clipboard),
                    30,
                    Color::Yellow,
                    Color::Black,
                )
                &&& c.target_path@ == path@
                &&& c.is_directory
                &&& c.position == position
            },
    {
        let mut items: Vec<MenuItem> = Vec::new();
        items.push(make_item("New File", "new_file", None, None));
        items.push(make_item("New Folder", "new_folder", None, None));
        if has_clipboard {
            items.push(make_item("Paste", "paste", None, None));
        }
        assert(items_view(items@) =~= empty_area_menu_items(has_clipboard));
        let menu = MenuComponent::new(items);
        let context_state = TreeContextMenuState {
            menu,
            target_path: path,
            is_directory: true,
            position,
        };
        self.state = MenuState::TreeContextMenu(context_state);
    }

    /// Opens the dialog that asks for a name, for `operation` on
    /// `target_path`, with an empty input.
    pub fn open_input_dialog(&mut self, prompt: String, operation: String, target_path: String)
        ensures
            final(self).state matches MenuState::InputDialog(d) && {
                &&& d.prompt == prompt
                &&& d.input@ == Seq::<char>::empty()
                &&& d.operation == operation
                &&& d.target_path == target_path
                &&& d.cursor_position == 0
                &&& d.selection_start is None
                &&& d.hovered_button is None
            },
    {
        let input_state = InputDialogState {
            prompt,
            input: String::new(),
            operation,
            target_path,
            cursor_position: 0,
            selection_start: None,
            hovered_button: None,
        };
        self.state = MenuState::InputDialog(input_state);
    }

    /// Whether something is open.
    pub fn is_open(&self) -> (b: bool)
        ensures
            b == !(self.state is Closed),
    {
        match self.state {
            MenuState::Closed => false,
            _ => true,
        }
    }

    /// Moves the selection of the open menu up one item.
    pub fn handle_up(&mut self)
        ensures
            final(self).state == match old(self).state {
                MenuState::MainMenu(m) => MenuState::MainMenu(menu_up(m)),
                MenuState::CurrentTabMenu(m) => MenuState::CurrentTabMenu(menu_up(m)),
                MenuState::TreeContextMenu(c) => MenuState::TreeContextMenu(
                    TreeContextMenuState { menu: menu_up(c.menu), ..c },
                ),
                s => s,
            },
    {
        match &mut self.state {
            MenuState::MainMenu(menu) => menu.move_up(),
            MenuState::CurrentTabMenu(menu) => menu.move_up(),
            MenuState::TreeContextMenu(context_state) => context_state.menu.move_up(),
            _ => {},
        }
    }

    /// Moves the selection of the open menu down one item.
    pub fn handle_down(&mut self)
        ensures
            final(self).state == match old(self).state {
                MenuState::MainMenu(m) => MenuState::MainMenu(menu_down(m)),
                MenuState::CurrentTabMenu(m) => MenuState::CurrentTabMenu(menu_down(m)),
                MenuState::TreeContextMenu(c) => MenuState::TreeContextMenu(
                    TreeContextMenuState { menu: menu_down(c.menu), ..c },
                ),
                s => s,
            },
    {
        match &mut self.state {
            MenuState::MainMenu(menu) => menu.move_down(),
            MenuState::CurrentTabMenu(menu) => menu.move_down(),
            MenuState::TreeContextMenu(context_state) => context_state.menu.move_down(),
            _ => {},
        }
    }

    /// Chooses the selected item of the open menu: Cancel closes it; a named
    /// action closes it (the main menu stays open for "current_tab") and is
    /// returned. Nothing happens without a menu or a selected item.
    pub fn handle_enter(&mut self) -> (r: Option<String>)
        ensures
            ({
                let chosen = match old(self).state {
                    MenuState::MainMenu(m) => selected_action(m),
                    MenuState::CurrentTabMenu(m) => selected_action(m),
                    MenuState::TreeContextMenu(c) => selected_action(c.menu),
                    _ => None,
                };
                match chosen {
                    None => r is None && *final(self) == *old(self),
                    Some(None) => r is None && final(self).state is Closed,
                    Some(Some(name)) => r is Some && r->0@ == name && if old(self).state is MainMenu
                        && name == "current_tab"@ {
                        *final(self) == *old(self)
                    } else {
                        final(self).state is Closed
                    },
                }
            }),
    {
        let (chosen, keep_open) = match &self.state {
            MenuState::MainMenu(menu) => (chosen_action(menu), true),
            MenuState::CurrentTabMenu(menu) => (chosen_action(menu), false),
            MenuState::TreeContextMenu(context_state) => (chosen_action(&context_state.menu), false),
            _ => (None, false),
        };
        match chosen {
            None => None,
            Some(MenuAction::Close) => {
                self.close();
                None
            },
            Some(MenuAction::Custom(action_name)) => {
                let current_tab = "current_tab";
                proof {
                    reveal_strlit("current_tab");
                }
                let n = crate::chars::str_to_chars(action_name.as_str());
                let c = crate::chars::str_to_chars(current_tab);
                if !(keep_open && crate::strings::chars_eq(&n, &c)) {
                    self.close();
                }
                Some(action_name)
            },
        }
    }
}

} // verus!
