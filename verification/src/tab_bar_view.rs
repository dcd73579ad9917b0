//! The labels of the tab bar: each tab's name cut to fit its fixed width,
//! and marks where tabs are left out on either side.
use vstd::prelude::*;
use crate::tab::{Tab, display_name_of};
use crate::tab_manager::TabManager;
use crate::ui_state::{TabBar, TAB_WIDTH, shown_range};
use crate::text::utf8_len;
use crate::encoding::{prefix_bytes, char_at_byte, byte_to_char, lemma_encode_concat, lemma_prefix_bytes_step, utf8_width};
use crate::chars::{str_to_chars, chars_to_string};
use crate::strings::subrange_vec;

verus! {

/// The room for a name inside a tab: its width less a space on each side.
pub const TAB_CONTENT_WIDTH: usize = 12;

/// The index of the last `.` among the first `n` chars of `s`.
pub open spec fn last_dot_before(s: Seq<char>, n: int) -> Option<int>
    decreases n,
{
    if n <= 0 {
        None
    } else if s[n - 1] == '.' {
        Some(n - 1)
    } else {
        last_dot_before(s, n - 1)
    }
}

/// The index of the last `.` of `s`.
pub open spec fn last_dot(s: Seq<char>) -> Option<int> {
    last_dot_before(s, s.len() as int)
}

/// Where a name too long for `max` bytes is cut so that its extension
/// stays: the index of its last `.` and the bytes left before it (one
/// goes to the ellipsis); `None` when it has no `.` or the extension
/// leaves no room.
pub open spec fn ext_cut(name: Seq<char>, max: nat) -> Option<(int, nat)> {
    match last_dot(name) {
        Some(k) => {
            let el = utf8_len(name.skip(k));
            if el + 1 < max {
                Some((k, (max - el - 1) as nat))
            } else {
                None
            }
        },
        None => None,
    }
}

/// The chars of `name` before byte `b`.
pub open spec fn cut_at(name: Seq<char>, b: int) -> Seq<char> {
    name.take(char_at_byte(name, b)->0)
}

/// `name` made to fit `max` bytes: kept when it fits; an ellipsis when
/// `max` is 3 or less; else cut before its extension with an ellipsis in
/// between, or, when the extension leaves no room, cut to `max - 1` bytes
/// and ended by an ellipsis.
pub open spec fn truncated_name(name: Seq<char>, max: nat) -> Seq<char> {
    if utf8_len(name) <= max {
        name
    } else if max <= 3 {
        seq!['…']
    } else {
        match ext_cut(name, max) {
            Some((k, a)) => cut_at(name, a as int) + seq!['…'] + name.skip(k),
            None => cut_at(name, max - 1) + seq!['…'],
        }
    }
}

/// Whether the cut of `truncated_name` falls on a char boundary (when it
/// does not, the name cannot be cut there).
pub open spec fn truncate_ok(name: Seq<char>, max: nat) -> bool {
    ||| utf8_len(name) <= max
    ||| max <= 3
    ||| match ext_cut(name, max) {
        Some((k, a)) => char_at_byte(name, a as int) is Some,
        None => char_at_byte(name, max - 1) is Some,
    }
}

/// `t` followed by spaces up to `w` chars.
pub open spec fn padded(t: Seq<char>, w: nat) -> Seq<char> {
    if t.len() >= w {
        t
    } else {
        t + Seq::new((w - t.len()) as nat, |i: int| ' ')
    }
}

/// How a label of the tab bar is drawn.
#[derive(Debug, Clone, Copy, PartialEq, Eq, Structural)]
pub enum TabLabelStyle {
    /// The tab being dragged: white on gray, bold.
    Dragging,
    /// The active tab: black on cyan, bold.
    Active,
    /// Another tab: dimmed.
    Inactive,
    /// A mark that tabs are left out: gray.
    Marker,
}

/// A label of the tab bar.
pub struct TabLabel {
    pub text: String,
    pub style: TabLabelStyle,
}

/// The labels as values.
pub open spec fn labels_view(v: Seq<TabLabel>) -> Seq<(Seq<char>, TabLabelStyle)> {
    v.map_values(|l: TabLabel| (l.text@, l.style))
}

/// The name shown on tab `t`.
pub open spec fn shown_name(t: Tab) -> Seq<char> {
    display_name_of(t.name_spec(), t.is_modified())
}

/// The label of tab `t` at index `i`.
pub open spec fn tab_label(t: Tab, i: int, active: nat, dragging: Option<usize>) -> (
    Seq<char>,
    TabLabelStyle,
) {
    (
        seq![' '] + padded(truncated_name(shown_name(t), TAB_CONTENT_WIDTH as nat), TAB_CONTENT_WIDTH as nat)
            + seq![' '],
        if dragging == Some(i as usize) && 0 <= i <= usize::MAX {
            TabLabelStyle::Dragging
        } else if i == active {
            TabLabelStyle::Active
        } else {
            TabLabelStyle::Inactive
        },
    )
}

/// The tabs shown on a bar `width` columns wide: all when they fit, else
/// those of `shown_range`.
pub open spec fn span_range(count: nat, active: nat, width: nat) -> (int, int) {
    let fit = width / (TAB_WIDTH as nat);
    if count <= fit {
        (0, count as int)
    } else {
        shown_range(count, active, fit)
    }
}

/// The labels of tabs `s..s+n` of `tabs`.
pub open spec fn labels_from(tabs: Seq<Tab>, s: int, n: nat, active: nat, dragging: Option<usize>) -> Seq<(Seq<char>, TabLabelStyle)> {
    Seq::new(n, |j: int| tab_label(tabs[s + j], s + j, active, dragging))
}

/// The labels of the tab bar `width` columns wide (the hint not counted):
/// the tabs that fit, around the active one, each `TAB_WIDTH` columns,
/// with `" « "` before them when some are left out before and `" » "`
/// after when some are left out after.
pub open spec fn tab_labels(tabs: Seq<Tab>, active: nat, width: nat, dragging: Option<usize>) -> Seq<(Seq<char>, TabLabelStyle)> {
    let count = tabs.len();
    let (s, e) = span_range(count, active, width);
    if count <= width / (TAB_WIDTH as nat) {
        labels_from(tabs, 0, count, active, dragging)
    } else {
        (if s > 0 {
            seq![(" « "@, TabLabelStyle::Marker)]
        } else {
            Seq::empty()
        }) + labels_from(tabs, s, (e - s) as nat, active, dragging) + (if e < count {
            seq![(" » "@, TabLabelStyle::Marker)]
        } else {
            Seq::empty()
        })
    }
}

/// Whether every name shown on the bar can be cut to fit.
pub open spec fn tab_labels_ok(tabs: Seq<Tab>, active: nat, width: nat) -> bool {
    let (s, e) = span_range(tabs.len(), active, width);
    forall|i: int|
        s <= i < e ==> #[trigger] utf8_len(shown_name(tabs[i])) <= usize::MAX && truncate_ok(
            shown_name(tabs[i]),
            TAB_CONTENT_WIDTH as nat,
        )
}

/// The bytes of the chars of `s` from index `k` on.
proof fn lemma_suffix_bytes(s: Seq<char>, k: int)
    requires
        0 <= k <= s.len(),
    ensures
        utf8_len(s.skip(k)) == utf8_len(s) - prefix_bytes(s, k),
{
    assert(s.take(k) + s.skip(k) =~= s);
    lemma_encode_concat(s.take(k), s.skip(k));
}

/// The bytes of the first `k` chars are at most those of all of them.
proof fn lemma_prefix_le(s: Seq<char>, k: int)
    requires
        0 <= k <= s.len(),
    ensures
        prefix_bytes(s, k) <= utf8_len(s),
{
    lemma_suffix_bytes(s, k);
}

/// One char takes one to four bytes.
pub proof fn lemma_one_char_len(c: char)
    ensures
        1 <= utf8_len(seq![c]) <= 4,
{
    let s = seq![c];
    assert(s.drop_first() =~= Seq::<char>::empty());
    assert(vstd::utf8::encode_utf8(s.drop_first()) =~= Seq::<u8>::empty());
    assert(vstd::utf8::encode_utf8(s) =~= vstd::utf8::encode_scalar(c as u32));
}

/// A name cut at byte `c` and ended by an ellipsis is `c` bytes and the
/// ellipsis long.
pub proof fn lemma_cut_len(name: Seq<char>, c: int)
    requires
        char_at_byte(name, c) is Some,
    ensures
        utf8_len(cut_at(name, c) + seq!['…']) == c + utf8_len(seq!['…']),
{
    let k = char_at_byte(name, c)->0;
    assert(0 <= k <= name.len() && prefix_bytes(name, k) == c);
    lemma_encode_concat(name.take(k), seq!['…']);
}

/// A text has no more chars than bytes.
pub proof fn lemma_chars_le_bytes(s: Seq<char>)
    ensures
        s.len() <= utf8_len(s),
    decreases s.len(),
{
    if s.len() > 0 {
        lemma_chars_le_bytes(s.drop_last());
        assert(s =~= s.drop_last() + seq![s.last()]);
        lemma_encode_concat(s.drop_last(), seq![s.last()]);
        lemma_one_char_len(s.last());
    }
}

/// The chars before byte `b` are at most `b`.
proof fn lemma_cut_chars(name: Seq<char>, b: int)
    requires
        char_at_byte(name, b) is Some,
    ensures
        cut_at(name, b).len() <= b,
{
    let k = char_at_byte(name, b)->0;
    assert(0 <= k <= name.len() && prefix_bytes(name, k) == b);
    lemma_chars_le_bytes(name.take(k));
}

/// A name made to fit `max` bytes takes at most `max` chars (when its cut
/// falls on a char boundary).
pub proof fn lemma_truncated_fits(name: Seq<char>, max: nat)
    requires
        truncate_ok(name, max),
    ensures
        truncated_name(name, max).len() <= max || max == 0,
{
    if utf8_len(name) <= max {
        lemma_chars_le_bytes(name);
    } else if max <= 3 {
    } else {
        match ext_cut(name, max) {
            Some((k, a)) => {
                lemma_cut_chars(name, a as int);
                let ext = name.skip(k);
                lemma_chars_le_bytes(ext);
                assert(k < name.len()) by {
                    lemma_last_dot_range(name, name.len() as int);
                }
            },
            None => {
                lemma_cut_chars(name, max - 1);
            },
        }
    }
}

proof fn lemma_last_dot_range(s: Seq<char>, n: int)
    requires
        n <= s.len(),
    ensures
        last_dot_before(s, n) matches Some(k) ==> 0 <= k < n,
    decreases n,
{
    if n > 0 && s[n - 1] != '.' {
        lemma_last_dot_range(s, n - 1);
    }
}

/// Every tab label is `TAB_WIDTH` columns wide, as where a click lands on
/// the tab bar takes it to be (when its name can be cut to fit).
pub proof fn lemma_tab_label_width(t: Tab, i: int, active: nat, dragging: Option<usize>)
    requires
        truncate_ok(shown_name(t), TAB_CONTENT_WIDTH as nat),
    ensures
        tab_label(t, i, active, dragging).0.len() == TAB_WIDTH,
{
    lemma_truncated_fits(shown_name(t), TAB_CONTENT_WIDTH as nat);
}

/// The index of the last `.` of `s`.
fn find_last_dot(s: &[char]) -> (r: Option<usize>)
    ensures
        match last_dot(s@) {
            Some(k) => r matches Some(j) && j as int == k,
            None => r is None,
        },
        r matches Some(k) ==> k < s.len(),
{
    let mut i: usize = s.len();
    while i > 0
        invariant
            i <= s.len(),
            last_dot(s@) == last_dot_before(s@, i as int),
        decreases i,
    {
        if s[i - 1] == '.' {
            return Some(i - 1);
        }
        i = i - 1;
    }
    None
}

/// The number of UTF-8 bytes of the first `k` chars of `s`.
fn byte_offset(s: &[char], k: usize) -> (b: usize)
    requires
        k <= s.len(),
        utf8_len(s@) <= usize::MAX,
    ensures
        b == prefix_bytes(s@, k as int),
{
    let mut acc: usize = 0;
    let mut j: usize = 0;
    assert(s@.take(0) =~= Seq::<char>::empty());
    while j < k
        invariant
            j <= k <= s.len(),
            acc == prefix_bytes(s@, j as int),
            utf8_len(s@) <= usize::MAX,
        decreases k - j,
    {
        proof {
            lemma_prefix_bytes_step(s@, j as int);
            lemma_prefix_le(s@, j + 1);
        }
        let w = utf8_width(s[j]);
        acc = acc + w;
        j = j + 1;
    }
    acc
}

/// One char as a vector.
fn one_char_vec(c: char) -> (v: Vec<char>)
    ensures
        v@ == seq![c],
{
    let mut v: Vec<char> = Vec::new();
    v.push(c);
    v
}

/// `t` followed by spaces up to `w` chars.
pub(crate) fn pad_to(t: &[char], w: usize) -> (r: Vec<char>)
    ensures
        r@ == padded(t@, w as nat),
{
    let mut r: Vec<char> = Vec::new();
    let mut i: usize = 0;
    while i < t.len()
        invariant
            i <= t.len(),
            r@ == t@.take(i as int),
        decreases t.len() - i,
    {
        r.push(t[i]);
        assert(t@.take(i as int).push(t@[i as int]) =~= t@.take(i + 1));
        i = i + 1;
    }
    assert(t@.take(t.len() as int) =~= t@);
    if t.len() < w {
        let mut k: usize = t.len();
        while k < w
            invariant
                t.len() <= k <= w,
                r@ == t@ + Seq::new((k - t.len()) as nat, |i: int| ' '),
            decreases w - k,
        {
            r.push(' ');
            assert(t@ + Seq::new((k + 1 - t.len()) as nat, |i: int| ' ') =~= (t@ + Seq::new(
                (k - t.len()) as nat,
                |i: int| ' ',
            )).push(' '));
            k = k + 1;
        }
    }
    r
}

impl TabBar {
    /// `name` made to fit `max_width` bytes (see `truncated_name`).
    pub fn truncate_name(&self, name: &str, max_width: usize) -> (r: String)
        requires
            utf8_len(name@) <= usize::MAX,
            truncate_ok(name@, max_width as nat),
        ensures
            r@ == truncated_name(name@, max_width as nat),
    {
        let n = name.len();
        let chars = str_to_chars(name);
        assert(n == utf8_len(name@));
        if n <= max_width {
            return chars_to_string(&chars);
        }
        if max_width <= 3 {
            let e = one_char_vec('…');
            return chars_to_string(&e);
        }
        match find_last_dot(&chars) {
            Some(k) => {
                let db = byte_offset(&chars, k);
                proof {
                    lemma_suffix_bytes(chars@, k as int);
                }
                let el = n - db;
                if el < max_width - 1 {
                    let available_for_name = max_width - el - 1;
                    assert(ext_cut(name@, max_width as nat) == Some(
                        (k as int, available_for_name as nat),
                    ));
                    if available_for_name > 0 {
                        match byte_to_char(&chars, available_for_name) {
                            Some(i) => {
                                let mut v = subrange_vec(&chars, 0, i);
                                let mut e = one_char_vec('…');
                                let mut ext = subrange_vec(&chars, k, chars.len());
                                v.append(&mut e);
                                v.append(&mut ext);
                                assert(chars@.subrange(0, i as int) =~= chars@.take(i as int));
                                assert(chars@.subrange(k as int, chars@.len() as int) =~= chars@.skip(
                                    k as int,
                                ));
                                return chars_to_string(&v);
                            },
                            None => {
                                return chars_to_string(&chars);
                            },
                        }
                    }
                }
            },
            None => {},
        }
        assert(ext_cut(name@, max_width as nat) is None);
        match byte_to_char(&chars, max_width - 1) {
            Some(i) => {
                let mut v = subrange_vec(&chars, 0, i);
                let mut e = one_char_vec('…');
                v.append(&mut e);
                assert(chars@.subrange(0, i as int) =~= chars@.take(i as int));
                chars_to_string(&v)
            },
            None => chars_to_string(&chars),
        }
    }
}


/// The three chars of a mark that tabs are left out.
fn marker(c: char) -> (l: TabLabel)
    ensures
        l.text@ == seq![' ', c, ' '],
        l.style == TabLabelStyle::Marker,
{
    let mut v = one_char_vec(' ');
    v.push(c);
    v.push(' ');
    TabLabel { text: chars_to_string(&v), style: TabLabelStyle::Marker }
}

/// Whether `name` can be cut to fit `max_width` bytes (see `truncate_ok`).
pub fn can_truncate_name(name: &str, max_width: usize) -> (b: bool)
    requires
        utf8_len(name@) <= usize::MAX,
    ensures
        b == truncate_ok(name@, max_width as nat),
{
    let n = name.len();
    assert(n == utf8_len(name@));
    if n <= max_width || max_width <= 3 {
        return true;
    }
    let chars = str_to_chars(name);
    match find_last_dot(&chars) {
        Some(k) => {
            let db = byte_offset(&chars, k);
            proof {
                lemma_suffix_bytes(chars@, k as int);
            }
            let el = n - db;
            if el < max_width - 1 {
                let available_for_name = max_width - el - 1;
                assert(ext_cut(name@, max_width as nat) == Some(
                    (k as int, available_for_name as nat),
                ));
                return byte_to_char(&chars, available_for_name).is_some();
            }
        },
        None => {},
    }
    assert(ext_cut(name@, max_width as nat) is None);
    byte_to_char(&chars, max_width - 1).is_some()
}

impl TabBar {
    /// The label of `tab`, at index `i` of the bar.
    fn label_of(&self, tab: &Tab, i: usize, active: usize, dragging: Option<usize>) -> (l: TabLabel)
        requires
            utf8_len(shown_name(*tab)) <= usize::MAX,
            truncate_ok(shown_name(*tab), TAB_CONTENT_WIDTH as nat),
        ensures
            (l.text@, l.style) == tab_label(*tab, i as int, active as nat, dragging),
    {
        let full = tab.display_name();
        let t = self.truncate_name(full.as_str(), TAB_CONTENT_WIDTH);
        let tc = str_to_chars(t.as_str());
        let mut p = pad_to(&tc, TAB_CONTENT_WIDTH);
        let mut v = one_char_vec(' ');
        v.append(&mut p);
        v.push(' ');
        let style = match dragging {
            Some(d) if d == i => TabLabelStyle::Dragging,
            _ => if i == active {
                TabLabelStyle::Active
            } else {
                TabLabelStyle::Inactive
            },
        };
        TabLabel { text: chars_to_string(&v), style }
    }

    /// Adds the labels of tabs `s..e`.
    fn push_labels(
        &self,
        tabs: &[Tab],
        s: usize,
        e: usize,
        active: usize,
        dragging: Option<usize>,
        out: &mut Vec<TabLabel>,
    )
        requires
            s <= e <= tabs.len(),
            forall|i: int|
                s <= i < e ==> #[trigger] utf8_len(shown_name(tabs@[i])) <= usize::MAX
                    && truncate_ok(shown_name(tabs@[i]), TAB_CONTENT_WIDTH as nat),
        ensures
            labels_view(final(out)@) == labels_view(old(out)@) + labels_from(
                tabs@,
                s as int,
                (e - s) as nat,
                active as nat,
                dragging,
            ),
    {
        let ghost start = labels_view(out@);
        let mut i: usize = s;
        while i < e
            invariant
                s <= i <= e <= tabs.len(),
                forall|j: int|
                    s <= j < e ==> #[trigger] utf8_len(shown_name(tabs@[j])) <= usize::MAX
                        && truncate_ok(shown_name(tabs@[j]), TAB_CONTENT_WIDTH as nat),
                labels_view(out@) == start + labels_from(
                    tabs@,
                    s as int,
                    (i - s) as nat,
                    active as nat,
                    dragging,
                ),
            decreases e - i,
        {
            assert(utf8_len(shown_name(tabs@[i as int])) <= usize::MAX);
            let l = self.label_of(&tabs[i], i, active, dragging);
            let ghost before = labels_view(out@);
            out.push(l);
            assert(labels_view(out@) =~= before.push((l.text@, l.style)));
            assert(labels_from(tabs@, s as int, (i + 1 - s) as nat, active as nat, dragging)
                =~= labels_from(tabs@, s as int, (i - s) as nat, active as nat, dragging).push(
                tab_label(tabs@[i as int], i as int, active as nat, dragging),
            ));
            i = i + 1;
        }
    }

    /// The labels of a tab bar `available_width` columns wide (see
    /// `tab_labels`), the tab `dragging_tab` shown as dragged.
    pub fn calculate_tab_spans(
        &self,
        tab_manager: &TabManager,
        available_width: usize,
        dragging_tab: Option<usize>,
    ) -> (spans: Vec<TabLabel>)
        requires
            tab_labels_ok(tab_manager.tab_list(), tab_manager.active() as nat, available_width as nat),
        ensures
            labels_view(spans@) == tab_labels(
                tab_manager.tab_list(),
                tab_manager.active() as nat,
                available_width as nat,
                dragging_tab,
            ),
    {
        let tabs = tab_manager.tabs();
        let tab_count = tabs.len();
        let active_index = tab_manager.active_index();
        let mut spans: Vec<TabLabel> = Vec::new();
        let max_tabs_that_fit = available_width / TAB_WIDTH;
        assert(labels_view(spans@) =~= Seq::empty());
        if tab_count <= max_tabs_that_fit {
            self.push_labels(tabs, 0, tab_count, active_index, dragging_tab, &mut spans);
            assert(labels_view(spans@) =~= labels_from(
                tabs@,
                0,
                tab_count as nat,
                active_index as nat,
                dragging_tab,
            ));
            return spans;
        }
        let half_width = max_tabs_that_fit / 2;
        let last_start = tab_count - max_tabs_that_fit;
        let start_index = if active_index >= half_width {
            if active_index - half_width < last_start {
                active_index - half_width
            } else {
                last_start
            }
        } else {
            0
        };
        let end_index = if start_index + max_tabs_that_fit < tab_count {
            start_index + max_tabs_that_fit
        } else {
            tab_count
        };
        let ghost left: Seq<(Seq<char>, TabLabelStyle)> = if start_index > 0 {
            seq![(" « "@, TabLabelStyle::Marker)]
        } else {
            Seq::empty()
        };
        proof {
            reveal_strlit(" « ");
            reveal_strlit(" » ");
            assert(" « "@ =~= seq![' ', '«', ' ']);
            assert(" » "@ =~= seq![' ', '»', ' ']);
        }
        if start_index > 0 {
            spans.push(marker('«'));
        }
        assert(labels_view(spans@) =~= left);
        self.push_labels(tabs, start_index, end_index, active_index, dragging_tab, &mut spans);
        let ghost mid = labels_view(spans@);
        if end_index < tab_count {
            spans.push(marker('»'));
            assert(labels_view(spans@) =~= mid + seq![(" » "@, TabLabelStyle::Marker)]);
        } else {
            assert(labels_view(spans@) =~= mid + Seq::<(Seq<char>, TabLabelStyle)>::empty());
        }
        spans
    }

    /// The labels of the tab bar as `calculate_tab_spans` gives them when
    /// every name shown can be cut to fit; `None` when one cannot. Every
    /// name's length in bytes fits in a `usize`, as that of any string does.
    pub fn tab_spans_checked(
        &self,
        tab_manager: &TabManager,
        available_width: usize,
        dragging_tab: Option<usize>,
    ) -> (r: Option<Vec<TabLabel>>)
        requires
            forall|i: int|
                0 <= i < tab_manager.tab_list().len() ==> #[trigger] utf8_len(
                    shown_name(tab_manager.tab_list()[i]),
                ) <= usize::MAX,
        ensures
            r is Some <==> tab_labels_ok(
                tab_manager.tab_list(),
                tab_manager.active() as nat,
                available_width as nat,
            ),
            r matches Some(spans) ==> labels_view(spans@) == tab_labels(
                tab_manager.tab_list(),
                tab_manager.active() as nat,
                available_width as nat,
                dragging_tab,
            ),
    {
        let tabs = tab_manager.tabs();
        let tab_count = tabs.len();
        let active_index = tab_manager.active_index();
        let max_tabs_that_fit = available_width / TAB_WIDTH;
        let (start_index, end_index) = if tab_count <= max_tabs_that_fit {
            (0, tab_count)
        } else {
            let half_width = max_tabs_that_fit / 2;
            let last_start = tab_count - max_tabs_that_fit;
            let s = if active_index >= half_width {
                if active_index - half_width < last_start {
                    active_index - half_width
                } else {
                    last_start
                }
            } else {
                0
            };
            let e = if s + max_tabs_that_fit < tab_count {
                s + max_tabs_that_fit
            } else {
                tab_count
            };
            (s, e)
        };
        assert(span_range(tab_count as nat, active_index as nat, available_width as nat) == (
        start_index as int, end_index as int));
        let mut i: usize = start_index;
        while i < end_index
            invariant
                start_index <= i <= end_index <= tabs.len(),
                tabs@ == tab_manager.tab_list(),
                span_range(tabs@.len(), tab_manager.active() as nat, available_width as nat) == (
                start_index as int, end_index as int),
                forall|j: int|
                    0 <= j < tabs@.len() ==> #[trigger] utf8_len(shown_name(tabs@[j]))
                        <= usize::MAX,
                forall|j: int|
                    start_index <= j < i ==> truncate_ok(
                        #[trigger] shown_name(tabs@[j]),
                        TAB_CONTENT_WIDTH as nat,
                    ),
            decreases end_index - i,
        {
            let name = tabs[i].display_name();
            assert(utf8_len(shown_name(tabs@[i as int])) <= usize::MAX);
            if !can_truncate_name(name.as_str(), TAB_CONTENT_WIDTH) {
                return None;
            }
            i = i + 1;
        }
        Some(self.calculate_tab_spans(tab_manager, available_width, dragging_tab))
    }
}

} // verus!
