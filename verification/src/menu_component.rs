//! Pop-up menus: their items, the selection, and where a click lands.
use vstd::prelude::*;
use crate::tab::str_to_string;

verus! {

/// A terminal color, as the renderer knows them.
#[derive(Clone, Copy, Debug, PartialEq, Eq, Structural)]
pub enum Color {
    Reset,
    Black,
    Red,
    Green,
    Yellow,
    Blue,
    Magenta,
    Cyan,
    Gray,
    DarkGray,
    LightRed,
    LightGreen,
    LightYellow,
    LightBlue,
    LightMagenta,
    LightCyan,
    White,
    Rgb(u8, u8, u8),
    Indexed(u8),
}

/// A rectangle of the screen.
#[derive(Clone, Copy, Debug, PartialEq, Eq, Structural)]
pub struct Area {
    pub x: u16,
    pub y: u16,
    pub width: u16,
    pub height: u16,
}

/// What choosing a menu item does.
pub enum MenuAction {
    /// An action named by the string.
    Custom(String),
    /// Closes the menu.
    Close,
}

/// An item of a menu: its label, its key shortcut, a check mark when it
/// stands for a setting, and its action.
pub struct MenuItem {
    pub label: String,
    pub shortcut: Option<String>,
    pub checked: Option<bool>,
    pub action: MenuAction,
}

/// An action as a value: `Some(name)` for a named action, `None` for
/// closing.
pub open spec fn action_view(a: MenuAction) -> Option<Seq<char>> {
    match a {
        MenuAction::Custom(s) => Some(s@),
        MenuAction::Close => None,
    }
}

/// A menu item as values.
pub struct ItemView {
    pub label: Seq<char>,
    pub shortcut: Option<Seq<char>>,
    pub checked: Option<bool>,
    pub action: Option<Seq<char>>,
}

/// The view of a menu item.
pub open spec fn item_view(i: MenuItem) -> ItemView {
    ItemView {
        label: i.label@,
        shortcut: match i.shortcut {
            Some(s) => Some(s@),
            None => None,
        },
        checked: i.checked,
        action: action_view(i.action),
    }
}

/// The views of a list of menu items.
pub open spec fn items_view(s: Seq<MenuItem>) -> Seq<ItemView> {
    s.map_values(|i: MenuItem| item_view(i))
}

impl MenuAction {
    /// A copy of the action.
    pub fn duplicate(&self) -> (a: MenuAction)
        ensures
            action_view(a) == action_view(*self),
    {
        match self {
            MenuAction::Custom(s) => MenuAction::Custom(s.clone()),
            MenuAction::Close => MenuAction::Close,
        }
    }
}

impl MenuItem {
    /// An item with `label` and `action`, without shortcut or check mark.
    pub fn new(label: &str, action: MenuAction) -> (m: Self)
        ensures
            item_view(m) == (ItemView {
                label: label@,
                shortcut: None,
                checked: None,
                action: action_view(action),
            }),
    {
        MenuItem { label: str_to_string(label), shortcut: None, checked: None, action }
    }

    /// The item with `shortcut` shown beside it.
    pub fn with_shortcut(self, shortcut: &str) -> (m: Self)
        ensures
            item_view(m) == (ItemView { shortcut: Some(shortcut@), ..item_view(self) }),
    {
        let mut m = self;
        m.shortcut = Some(str_to_string(shortcut));
        m
    }

    /// The item with a check mark that shows `checked`.
    pub fn with_checkbox(self, checked: bool) -> (m: Self)
        ensures
            item_view(m) == (ItemView { checked: Some(checked), ..item_view(self) }),
    {
        let mut m = self;
        m.checked = Some(checked);
        m
    }
}

/// A menu: its items, the selected and the hovered one, its size and
/// colors.
pub struct MenuComponent {
    pub items: Vec<MenuItem>,
    pub selected_index: usize,
    pub hovered_index: Option<usize>,
    pub width: u16,
    pub height: u16,
    pub background_color: Color,
    pub foreground_color: Color,
    pub selected_bg_color: Option<Color>,
    pub selected_fg_color: Option<Color>,
    pub show_border: bool,
}

impl MenuComponent {
    /// A menu of `items`, the first selected, 30 columns wide and as high as
    /// it has items, black on yellow, without border.
    pub fn new(items: Vec<MenuItem>) -> (m: Self)
        requires
            items@.len() <= u16::MAX,
        ensures
            m.items@ == items@,
            m.selected_index == 0,
            m.hovered_index is None,
            m.width == 30,
            m.height == items@.len(),
            m.background_color == Color::Yellow,
            m.foreground_color == Color::Black,
            m.selected_bg_color == Some(Color::Yellow),
            m.selected_fg_color == Some(Color::Black),
            !m.show_border,
    {
        let height = items.len() as u16;
        MenuComponent {
            items,
            selected_index: 0,
            hovered_index: None,
            width: 30,
            height,
            background_color: Color::Yellow,
            foreground_color: Color::Black,
            selected_bg_color: Some(Color::Yellow),
            selected_fg_color: Some(Color::Black),
            show_border: false,
        }
    }

    /// The menu `width` columns wide.
    pub fn with_width(self, width: u16) -> (m: Self)
        ensures
            m == (MenuComponent { width, ..self }),
    {
        let mut m = self;
        m.width = width;
        m
    }

    /// The menu with `fg` text on `bg`.
    pub fn with_colors(self, bg: Color, fg: Color) -> (m: Self)
        ensures
            m == (MenuComponent { background_color: bg, foreground_color: fg, ..self }),
    {
        let mut m = self;
        m.background_color = bg;
        m.foreground_color = fg;
        m
    }

    /// Selects the item above, stopping at the first.
    pub fn move_up(&mut self)
        ensures
            *final(self) == (MenuComponent {
                selected_index: if old(self).selected_index > 0 {
                    (old(self).selected_index - 1) as usize
                } else {
                    old(self).selected_index
                },
                ..*old(self)
            }),
    {
        if self.selected_index > 0 {
            self.selected_index = self.selected_index - 1;
        }
    }

    /// Selects the item below, stopping at the last.
    pub fn move_down(&mut self)
        ensures
            *final(self) == (MenuComponent {
                selected_index: if old(self).selected_index + 1 < old(self).items@.len() {
                    (old(self).selected_index + 1) as usize
                } else {
                    old(self).selected_index
                },
                ..*old(self)
            }),
    {
        if self.selected_index < self.items.len().saturating_sub(1) {
            self.selected_index = self.selected_index + 1;
        }
    }

    /// The action of the selected item, if the selection is within the
    /// menu.
    pub fn get_selected_action(&self) -> (a: Option<&MenuAction>)
        ensures
            self.selected_index < self.items@.len() ==> a is Some && *a->0
                == self.items@[self.selected_index as int].action,
            self.selected_index >= self.items@.len() ==> a is None,
    {
        if self.selected_index < self.items.len() {
            Some(&self.items[self.selected_index].action)
        } else {
            None
        }
    }

    /// Whether the cell (`x`, `y`) lies in `area`.
    pub fn is_position_inside(&self, area: &Area, x: u16, y: u16) -> (b: bool)
        requires
            area.x + area.width <= u16::MAX,
            area.y + area.height <= u16::MAX,
        ensures
            b == (area.x <= x < area.x + area.width && area.y <= y < area.y + area.height),
    {
        x >= area.x && x < area.x + area.width && y >= area.y && y < area.y + area.height
    }

    /// The index of the item on the clicked row of the menu drawn in
    /// `area`, if the click hits one.
    pub fn get_clicked_item(&self, area: &Area, x: u16, y: u16) -> (r: Option<usize>)
        requires
            area.x + area.width <= u16::MAX,
            area.y + area.height <= u16::MAX,
        ensures
            r == if area.x <= x < area.x + area.width && area.y <= y < area.y + area.height && y
                - area.y < (self.items@.len() as u16) {
                Some((y - area.y) as usize)
            } else {
                None::<usize>
            },
    {
        if !self.is_position_inside(area, x, y) {
            return None;
        }
        let relative_y = y - area.y;
        if relative_y < self.items.len() as u16 {
            Some(relative_y as usize)
        } else {
            None
        }
    }
}

} // verus!
