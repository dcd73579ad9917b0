//! The lines of a pop-up menu as drawn: each item's label, with its
//! shortcut at the right edge, fitted to the menu's width.
use vstd::prelude::*;
use crate::menu_component::{MenuComponent, MenuItem, ItemView, items_view, item_view};
use crate::text::utf8_len;
use crate::encoding::{char_at_byte, byte_to_char};
use crate::tab_bar_view::cut_at;
use crate::chars::{str_to_chars, chars_to_string};
use crate::strings::subrange_vec;

verus! {

/// `n` spaces.
pub open spec fn spaces(n: nat) -> Seq<char> {
    Seq::new(n, |i: int| ' ')
}

/// The room left for a label beside a shortcut of `sl` bytes in a menu
/// `w` wide: the width less the padding, the shortcut and a space.
pub open spec fn label_room(w: u16, sl: int) -> int {
    let avail = w - 2;
    if avail >= sl + 1 {
        avail - sl - 1
    } else {
        0
    }
}

/// `l` when it fits `mx` bytes, else cut one byte short of it and ended
/// by an ellipsis.
pub open spec fn cut_label(l: Seq<char>, mx: int) -> Seq<char> {
    if utf8_len(l) > mx {
        cut_at(
            l,
            if mx >= 1 {
                mx - 1
            } else {
                0
            },
        ) + seq!['…']
    } else {
        l
    }
}

/// The line of an item labelled `l` with shortcut `sc` in a menu `w`
/// columns wide. With a shortcut: the label, spaces, and the shortcut
/// between a space on each side, the label cut when both do not fit.
/// Without: the label after a space, padded with spaces to `w` bytes or
/// cut to them.
pub open spec fn menu_line(l: Seq<char>, sc: Option<Seq<char>>, w: u16) -> Seq<char> {
    match sc {
        Some(s) => {
            let avail = w - 2;
            let il = utf8_len(l) as int;
            let sl = utf8_len(s) as int;
            if il + sl < avail {
                " "@ + l + spaces((avail - il - sl) as nat) + s + " "@
            } else {
                let t = cut_label(l, label_room(w, sl));
                " "@ + t + spaces((avail - utf8_len(t) - sl) as nat) + s + " "@
            }
        },
        None => {
            let t = " "@ + l;
            if utf8_len(t) < w {
                t + spaces((w - utf8_len(t)) as nat)
            } else if utf8_len(t) == w {
                t
            } else {
                cut_at(t, w as int)
            }
        },
    }
}

/// Whether the line can be made: with a shortcut, the menu is two columns
/// wide at least, a cut label falls on a char boundary and what is left
/// fits; without, a cut falls on a char boundary. The lengths in bytes fit
/// in a `usize` with room to spare.
pub open spec fn menu_line_ok(l: Seq<char>, sc: Option<Seq<char>>, w: u16) -> bool {
    match sc {
        Some(s) => {
            let avail = w - 2;
            let il = utf8_len(l) as int;
            let sl = utf8_len(s) as int;
            let mx = label_room(w, sl);
            &&& w >= 2
            &&& il + sl + 1 <= usize::MAX
            &&& il + sl >= avail ==> {
                &&& il > mx ==> char_at_byte(
                    l,
                    if mx >= 1 {
                        mx - 1
                    } else {
                        0
                    },
                ) is Some
                &&& utf8_len(cut_label(l, mx)) + sl <= avail
            }
        },
        None => {
            &&& utf8_len(" "@ + l) <= usize::MAX
            &&& utf8_len(" "@ + l) > w ==> char_at_byte(" "@ + l, w as int) is Some
        },
    }
}

/// How a line of a menu is drawn.
#[derive(Debug, Clone, Copy, PartialEq, Eq, Structural)]
pub enum MenuLineStyle {
    /// The selected item: black on white, bold.
    Selected,
    /// The item under the mouse: black on light yellow, bold.
    Hovered,
    /// Another item: in the menu's colors.
    Normal,
}

/// The style of item `i` of `m`.
pub open spec fn menu_line_style(m: MenuComponent, i: int) -> MenuLineStyle {
    if i == m.selected_index {
        MenuLineStyle::Selected
    } else if m.hovered_index == Some(i as usize) {
        MenuLineStyle::Hovered
    } else {
        MenuLineStyle::Normal
    }
}

/// Whether every line of `m` can be made.
pub open spec fn menu_lines_ok(m: MenuComponent) -> bool {
    forall|i: int|
        0 <= i < m.items@.len() ==> #[trigger] menu_line_ok(
            items_view(m.items@)[i].label,
            items_view(m.items@)[i].shortcut,
            m.width,
        )
}

/// The lines of `m` as values.
pub open spec fn menu_lines_of(m: MenuComponent) -> Seq<(Seq<char>, MenuLineStyle)> {
    Seq::new(
        m.items@.len(),
        |i: int|
            (
                menu_line(items_view(m.items@)[i].label, items_view(m.items@)[i].shortcut, m.width),
                menu_line_style(m, i),
            ),
    )
}

/// `n` spaces.
fn space_chars(n: usize) -> (v: Vec<char>)
    ensures
        v@ == spaces(n as nat),
{
    let mut v: Vec<char> = Vec::new();
    let mut k: usize = 0;
    while k < n
        invariant
            k <= n,
            v@ == spaces(k as nat),
        decreases n - k,
    {
        v.push(' ');
        assert(v@ =~= spaces((k + 1) as nat));
        k = k + 1;
    }
    v
}

/// The chars of `s` before byte `b`, when a char starts there.
fn cut_chars(s: &[char], b: usize) -> (r: Vec<char>)
    requires
        char_at_byte(s@, b as int) is Some,
    ensures
        r@ == cut_at(s@, b as int),
{
    match byte_to_char(s, b) {
        Some(k) => {
            let v = subrange_vec(s, 0, k);
            assert(s@.subrange(0, k as int) =~= s@.take(k as int));
            v
        },
        None => Vec::new(),
    }
}

/// `a`, then `b`, then `c`, then `d`, then `e`.
fn concat5(a: Vec<char>, b: Vec<char>, c: Vec<char>, d: Vec<char>, e: Vec<char>) -> (r: Vec<char>)
    ensures
        r@ == a@ + b@ + c@ + d@ + e@,
{
    let mut r = a;
    let mut b = b;
    let mut c = c;
    let mut d = d;
    let mut e = e;
    r.append(&mut b);
    r.append(&mut c);
    r.append(&mut d);
    r.append(&mut e);
    r
}

/// The line of `item` in a menu `width` wide (see `menu_line`).
fn item_line(item: &MenuItem, width: u16) -> (s: String)
    requires
        menu_line_ok(item_view(*item).label, item_view(*item).shortcut, width),
    ensures
        s@ == menu_line(item_view(*item).label, item_view(*item).shortcut, width),
{
    let label = str_to_chars(item.label.as_str());
    let il = item.label.as_str().len();
    match &item.shortcut {
        Some(shortcut) => {
            let sc = str_to_chars(shortcut.as_str());
            let sl = shortcut.as_str().len();
            let available_space = (width - 2) as usize;
            if il + sl < available_space {
                let r = concat5(
                    str_to_chars(" "),
                    label,
                    space_chars(available_space - il - sl),
                    sc,
                    str_to_chars(" "),
                );
                chars_to_string(&r)
            } else {
                let max_item_len: usize = if available_space >= sl + 1 {
                    available_space - (sl + 1)
                } else {
                    0
                };
                let truncated = if il > max_item_len {
                    let cut: usize = if max_item_len >= 1 {
                        max_item_len - 1
                    } else {
                        0
                    };
                    let mut t = cut_chars(&label, cut);
                    t.push('…');
                    chars_to_string(&t)
                } else {
                    chars_to_string(&label)
                };
                assert(il == utf8_len(label@));
                assert(sl == utf8_len(sc@));
                assert(max_item_len == label_room(width, sl as int));
                assert(truncated@ == cut_label(label@, max_item_len as int));
                let tl = truncated.as_str().len();
                let tc = str_to_chars(truncated.as_str());
                let r = concat5(
                    str_to_chars(" "),
                    tc,
                    space_chars(available_space - tl - sl),
                    sc,
                    str_to_chars(" "),
                );
                chars_to_string(&r)
            }
        },
        None => {
            let mut text = str_to_chars(" ");
            let mut lc = label;
            text.append(&mut lc);
            let t = chars_to_string(&text);
            assert(t@ == " "@ + label@);
            let tl = t.as_str().len();
            let w = width as usize;
            if tl < w {
                let mut pad = space_chars(w - tl);
                text.append(&mut pad);
                chars_to_string(&text)
            } else if tl == w {
                t
            } else {
                let c = cut_chars(&text, w);
                chars_to_string(&c)
            }
        },
    }
}

impl MenuComponent {
    /// The lines of the menu with their styles (see `menu_lines_of`).
    pub fn render_lines(&self) -> (lines: Vec<(String, MenuLineStyle)>)
        requires
            menu_lines_ok(*self),
        ensures
            lines@.len() == self.items@.len(),
            forall|i: int|
                0 <= i < lines@.len() ==> (#[trigger] lines@[i].0@, lines@[i].1)
                    == menu_lines_of(*self)[i],
    {
        let mut lines: Vec<(String, MenuLineStyle)> = Vec::new();
        let mut i: usize = 0;
        while i < self.items.len()
            invariant
                i <= self.items@.len(),
                menu_lines_ok(*self),
                lines@.len() == i,
                forall|k: int|
                    0 <= k < i ==> (#[trigger] lines@[k].0@, lines@[k].1) == menu_lines_of(
                        *self,
                    )[k],
            decreases self.items.len() - i,
        {
            let item = &self.items[i];
            assert(items_view(self.items@)[i as int] == item_view(*item));
            assert(menu_line_ok(
                items_view(self.items@)[i as int].label,
                items_view(self.items@)[i as int].shortcut,
                self.width,
            ));
            let text = item_line(item, self.width);
            let style = if i == self.selected_index {
                MenuLineStyle::Selected
            } else {
                match self.hovered_index {
                    Some(h) => if h == i {
                        MenuLineStyle::Hovered
                    } else {
                        MenuLineStyle::Normal
                    },
                    None => MenuLineStyle::Normal,
                }
            };
            lines.push((text, style));
            i = i + 1;
        }
        lines
    }
}


/// Whether the lengths in bytes of an item's texts fit in a `usize`, with
/// room to spare (as those of any strings do).
pub open spec fn item_lengths_fit(l: Seq<char>, sc: Option<Seq<char>>) -> bool {
    match sc {
        Some(s) => utf8_len(l) + utf8_len(s) + 1 <= usize::MAX,
        None => utf8_len(" "@ + l) <= usize::MAX,
    }
}

/// Whether the line of `item` can be made in a menu `width` wide.
fn item_line_ok(item: &MenuItem, width: u16) -> (b: bool)
    requires
        item_lengths_fit(item_view(*item).label, item_view(*item).shortcut),
    ensures
        b == menu_line_ok(item_view(*item).label, item_view(*item).shortcut, width),
{
    let label = str_to_chars(item.label.as_str());
    let il = item.label.as_str().len();
    match &item.shortcut {
        Some(shortcut) => {
            if width < 2 {
                return false;
            }
            let sl = shortcut.as_str().len();
            assert(il == utf8_len(label@));
            let available_space = (width - 2) as usize;
            if il + sl < available_space {
                return true;
            }
            let max_item_len: usize = if available_space >= sl + 1 {
                available_space - (sl + 1)
            } else {
                0
            };
            let truncated = if il > max_item_len {
                let cut: usize = if max_item_len >= 1 {
                    max_item_len - 1
                } else {
                    0
                };
                if byte_to_char(&label, cut).is_none() {
                    return false;
                }
                let mut t = cut_chars(&label, cut);
                t.push('…');
                chars_to_string(&t)
            } else {
                chars_to_string(&label)
            };
            assert(max_item_len == label_room(width, sl as int));
            assert(truncated@ == cut_label(label@, max_item_len as int));
            proof {
                if il > max_item_len {
                    let cut: int = if max_item_len >= 1 {
                        max_item_len - 1
                    } else {
                        0
                    };
                    crate::tab_bar_view::lemma_cut_len(label@, cut);
                    crate::tab_bar_view::lemma_one_char_len('…');
                }
            }
            let tl = truncated.as_str().len();
            tl <= available_space && sl <= available_space - tl
        },
        None => {
            let mut text = str_to_chars(" ");
            let mut lc = label;
            text.append(&mut lc);
            let t = chars_to_string(&text);
            assert(t@ == " "@ + item.label@);
            let tl = t.as_str().len();
            if tl > width as usize {
                byte_to_char(&text, width as usize).is_some()
            } else {
                true
            }
        },
    }
}

impl MenuComponent {
    /// The lines of the menu as `render_lines` gives them when every line
    /// can be made; `None` when one cannot.
    pub fn render_lines_checked(&self) -> (r: Option<Vec<(String, MenuLineStyle)>>)
        requires
            forall|i: int|
                0 <= i < self.items@.len() ==> #[trigger] item_lengths_fit(
                    items_view(self.items@)[i].label,
                    items_view(self.items@)[i].shortcut,
                ),
        ensures
            r is Some <==> menu_lines_ok(*self),
            r matches Some(lines) ==> lines@.len() == self.items@.len() && forall|i: int|
                0 <= i < lines@.len() ==> (#[trigger] lines@[i].0@, lines@[i].1)
                    == menu_lines_of(*self)[i],
    {
        let mut i: usize = 0;
        while i < self.items.len()
            invariant
                i <= self.items@.len(),
                forall|j: int|
                    0 <= j < self.items@.len() ==> #[trigger] item_lengths_fit(
                        items_view(self.items@)[j].label,
                        items_view(self.items@)[j].shortcut,
                    ),
                forall|j: int|
                    0 <= j < i ==> #[trigger] menu_line_ok(
                        items_view(self.items@)[j].label,
                        items_view(self.items@)[j].shortcut,
                        self.width,
                    ),
            decreases self.items.len() - i,
        {
            let item = &self.items[i];
            assert(items_view(self.items@)[i as int] == item_view(*item));
            assert(item_lengths_fit(
                items_view(self.items@)[i as int].label,
                items_view(self.items@)[i as int].shortcut,
            ));
            if !item_line_ok(item, self.width) {
                return None;
            }
            i = i + 1;
        }
        Some(self.render_lines())
    }
}

} // verus!
