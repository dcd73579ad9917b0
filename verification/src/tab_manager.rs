//! The list of open tabs and which one is active.
use vstd::prelude::*;
use crate::tab::{Tab, viewport_for};
use crate::cursor::Cursor;
use crate::paths::{path_eq, paths_equal};

verus! {

/// The open tabs and the index of the active one.
pub struct TabManager {
    pub tabs: Vec<Tab>,
    active_index: usize,
}

/// The first tab from index `i` on whose path equals `p`.
pub open spec fn first_with_path(tabs: Seq<Tab>, p: Seq<char>, i: int) -> Option<int>
    decreases tabs.len() - i,
{
    if i < 0 || i >= tabs.len() {
        None
    } else if tabs[i].path_spec() matches Some(q) && paths_equal(q, p) {
        Some(i)
    } else {
        first_with_path(tabs, p, i + 1)
    }
}

pub proof fn lemma_first_with_path(tabs: Seq<Tab>, p: Seq<char>, i: int)
    requires
        0 <= i,
        first_with_path(tabs, p, i) is Some,
    ensures
        ({
            let k = first_with_path(tabs, p, i)->0;
            &&& i <= k < tabs.len()
            &&& tabs[k].path_spec() matches Some(q) && paths_equal(q, p)
            &&& forall|j: int|
                i <= j < k ==> !(#[trigger] tabs[j].path_spec() matches Some(r) && paths_equal(r, p))
        }),
    decreases tabs.len() - i,
{
    if i < tabs.len() && !(tabs[i].path_spec() matches Some(q) && paths_equal(q, p)) {
        lemma_first_with_path(tabs, p, i + 1);
    }
}

/// The active index after closing tab `index` of `len` tabs.
pub open spec fn active_after_close(active: usize, len: nat) -> usize {
    if active >= len - 1 {
        (len - 2) as usize
    } else {
        active
    }
}

/// The active index after `next_tab` with `len` tabs.
pub open spec fn next_active(active: usize, len: nat) -> usize {
    ((active + 1) % (len as int)) as usize
}

/// The active index after `prev_tab` with `len` tabs.
pub open spec fn prev_active(active: usize, len: nat) -> usize {
    if active == 0 {
        (len - 1) as usize
    } else {
        (active - 1) as usize
    }
}

/// The tabs after moving the tab at `from` to `to`.
pub open spec fn reordered<T>(tabs: Seq<T>, from: int, to: int) -> Seq<T> {
    tabs.remove(from).insert(to, tabs[from])
}

/// The active index after moving the tab at `from` to `to`: it follows the
/// tab it pointed at.
pub open spec fn active_after_reorder(active: usize, from: usize, to: usize) -> usize {
    if active == from {
        to
    } else if from < to {
        if active > from && active <= to {
            (active - 1) as usize
        } else {
            active
        }
    } else {
        if active >= to && active < from {
            (active + 1) as usize
        } else {
            active
        }
    }
}

/// The index of the first tab whose path equals `path`.
fn index_of_path(tabs: &Vec<Tab>, path: &str) -> (r: Option<usize>)
    ensures
        r matches Some(i) ==> first_with_path(tabs@, path@, 0) == Some(i as int),
        r is None ==> first_with_path(tabs@, path@, 0) is None,
{
    let mut index: usize = 0;
    while index < tabs.len()
        invariant
            index <= tabs@.len(),
            first_with_path(tabs@, path@, 0) == first_with_path(tabs@, path@, index as int),
        decreases tabs.len() - index,
    {
        let same = match tabs[index].path() {
            Some(existing) => path_eq(existing.as_str(), path),
            None => false,
        };
        if same {
            return Some(index);
        }
        index = index + 1;
    }
    None
}

impl TabManager {
    /// The index of the active tab.
    pub closed spec fn active(&self) -> usize {
        self.active_index
    }

    /// The open tabs, in order.
    pub closed spec fn tab_list(&self) -> Seq<Tab> {
        self.tabs@
    }

    /// Whether the active index names one of the tabs, when there are any.
    /// The constructor makes it hold and every method keeps it.
    pub open spec fn wf(&self) -> bool {
        self.tab_list().len() > 0 ==> self.active() < self.tab_list().len()
    }

    /// One empty editor tab named "untitled", active.
    pub fn new() -> (m: Self)
        ensures
            m.wf(),
            m.tab_list().len() == 1,
            m.active() == 0,
            m.tab_list()[0].is_editor(),
            m.tab_list()[0].name_spec() == "untitled"@,
            m.tab_list()[0].path_spec() is None,
            m.tab_list()[0].text() == Seq::<char>::empty(),
            !m.tab_list()[0].is_modified(),
    {
        let mut manager = TabManager { tabs: Vec::new(), active_index: 0 };
        let name = "untitled";
        proof {
            reveal_strlit("untitled");
        }
        manager.add_tab(Tab::new(crate::tab::str_to_string(name)));
        manager
    }

    /// Adds `tab` and makes it active; when a tab for the same file is
    /// already open, that one becomes active instead and `tab` is dropped.
    pub fn add_tab(&mut self, tab: Tab)
        requires
            old(self).tab_list().len() < usize::MAX,
        ensures
            final(self).wf(),
            ({
                let before = old(self).tab_list();
                let after = final(self).tab_list();
                let shown = after[final(self).active() as int];
                match tab.path_spec() {
                    Some(p) if first_with_path(before, p, 0) is Some => {
                        &&& after.len() == before.len()
                        &&& shown.path_spec() matches Some(q) && paths_equal(q, p)
                    },
                    _ => after.len() == before.len() + 1 && shown == tab,
                }
            }),
            match tab.path_spec() {
                Some(p) if first_with_path(old(self).tab_list(), p, 0) is Some => {
                    &&& final(self).tab_list() == old(self).tab_list()
                    &&& final(self).active() == first_with_path(old(self).tab_list(), p, 0)->0
                },
                _ => {
                    &&& final(self).tab_list() == old(self).tab_list().push(tab)
                    &&& final(self).active() == old(self).tab_list().len()
                },
            },
    {
        let found = match tab.path() {
            Some(path) => index_of_path(&self.tabs, path.as_str()),
            None => None,
        };
        match found {
            Some(index) => {
                proof {
                    lemma_first_with_path(self.tabs@, tab.path_spec()->0, 0);
                }
                self.active_index = index;
            },
            None => {
                self.tabs.push(tab);
                self.active_index = self.tabs.len() - 1;
            },
        }
    }

    /// Closes tab `index`, keeping the active index in range; refused (false)
    /// for the last remaining tab or an index out of range.
    pub fn close_tab(&mut self, index: usize) -> (closed: bool)
        ensures
            closed ==> final(self).wf(),
            closed && old(self).active() < final(self).tab_list().len() ==> final(self).active()
                == old(self).active(),
            closed && old(self).active() >= final(self).tab_list().len() ==> final(self).active()
                == final(self).tab_list().len() - 1,
            old(self).wf() ==> final(self).wf(),
            closed == (old(self).tab_list().len() > 1 && index < old(self).tab_list().len()),
            closed ==> final(self).tab_list() == old(self).tab_list().remove(index as int)
                && final(self).active() == active_after_close(
                old(self).active(),
                old(self).tab_list().len(),
            ),
            !closed ==> final(self).tab_list() == old(self).tab_list() && final(self).active() == old(
                self,
            ).active(),
    {
        if self.tabs.len() <= 1 {
            return false;
        }
        if index < self.tabs.len() {
            self.tabs.remove(index);
            if self.active_index >= self.tabs.len() {
                self.active_index = self.tabs.len() - 1;
            }
            true
        } else {
            false
        }
    }

    /// Closes the active tab, as `close_tab` does.
    pub fn close_current_tab(&mut self) -> (closed: bool)
        ensures
            old(self).wf() ==> final(self).wf(),
            closed == (old(self).tab_list().len() > 1 && old(self).active() < old(self).tab_list().len()),
            closed ==> final(self).tab_list() == old(self).tab_list().remove(old(self).active() as int)
                && final(self).active() == active_after_close(
                old(self).active(),
                old(self).tab_list().len(),
            ),
            !closed ==> final(self).tab_list() == old(self).tab_list() && final(self).active() == old(
                self,
            ).active(),
    {
        let index = self.active_index;
        self.close_tab(index)
    }

    /// Activates the next tab, wrapping around.
    pub fn next_tab(&mut self)
        ensures
            final(self).wf(),
            final(self).tab_list() == old(self).tab_list(),
            old(self).tab_list().len() > 0 ==> final(self).active() == (old(self).active() + 1) % (old(self).tab_list().len() as int),
            old(self).tab_list().len() == 0 ==> final(self).active() == old(self).active(),
    {
        let len = self.tabs.len();
        if len > 0 {
            let a = self.active_index % len;
            proof {
                assert((a + 1) % (len as int) == (self.active_index + 1) % (len as int)) by (
                nonlinear_arith)
                    requires
                        a == self.active_index % len,
                        len > 0,
                ;
            }
            self.active_index = (a + 1) % len;
        }
    }

    /// Activates the previous tab, wrapping around.
    pub fn prev_tab(&mut self)
        ensures
            old(self).wf() ==> final(self).wf(),
            final(self).tab_list() == old(self).tab_list(),
            old(self).tab_list().len() > 0 ==> final(self).active() == prev_active(
                old(self).active(),
                old(self).tab_list().len(),
            ),
            old(self).tab_list().len() == 0 ==> final(self).active() == old(self).active(),
    {
        if self.tabs.len() > 0 {
            if self.active_index == 0 {
                self.active_index = self.tabs.len() - 1;
            } else {
                self.active_index = self.active_index - 1;
            }
        }
    }

    /// The active tab, if its index is in range.
    pub fn active_tab(&self) -> (t: Option<&Tab>)
        ensures
            self.active() < self.tab_list().len() ==> t == Some(&self.tab_list()[self.active() as int]),
            self.active() >= self.tab_list().len() ==> t is None,
    {
        if self.active_index < self.tabs.len() {
            Some(&self.tabs[self.active_index])
        } else {
            None
        }
    }

    /// Tab `i`, for changing it in place.
    pub(crate) fn tab_at_mut(&mut self, i: usize) -> (t: &mut Tab)
        requires
            i < old(self).tab_list().len(),
        ensures
            old(self).wf() ==> final(self).wf(),
            *t == old(self).tab_list()[i as int],
            final(self).tab_list() == old(self).tab_list().update(i as int, *final(t)),
            final(self).active() == old(self).active(),
    {
        &mut self.tabs[i]
    }

    /// The active tab, for changing it in place, if its index is in range.
    pub fn active_tab_mut(&mut self) -> (t: Option<&mut Tab>)
        ensures
            old(self).wf() ==> final(self).wf(),
            old(self).active() < old(self).tab_list().len() ==> {
                &&& t is Some
                &&& *t->0 == old(self).tab_list()[old(self).active() as int]
                &&& final(self).tab_list() == old(self).tab_list().update(
                    old(self).active() as int,
                    *final(t->0),
                )
                &&& final(self).active() == old(self).active()
            },
            old(self).active() >= old(self).tab_list().len() ==> t is None && final(self).tab_list()
                == old(self).tab_list() && final(self).active() == old(self).active(),
    {
        if self.active_index < self.tabs.len() {
            let i = self.active_index;
            Some(&mut self.tabs[i])
        } else {
            None
        }
    }

    /// Sets line wrapping of every editor tab to `wrap`.
    pub fn set_word_wrap_all(&mut self, wrap: bool)
        ensures
            old(self).wf() ==> final(self).wf(),
            final(self).active() == old(self).active(),
            final(self).tab_list().len() == old(self).tab_list().len(),
            forall|i: int|
                0 <= i < old(self).tab_list().len() ==> ({
                    let a = #[trigger] old(self).tab_list()[i];
                    let b = final(self).tab_list()[i];
                    if a.is_editor() {
                        b == a.with_word_wrap(wrap)
                    } else {
                        b == a
                    }
                }),
    {
        let n = self.tabs.len();
        let mut i: usize = 0;
        while i < n
            invariant
                n == self.tabs@.len(),
                n == old(self).tabs@.len(),
                i <= n,
                self.active_index == old(self).active_index,
                forall|j: int|
                    0 <= j < i ==> ({
                        let a = #[trigger] old(self).tabs@[j];
                        let b = self.tabs@[j];
                        if a.is_editor() {
                            b == a.with_word_wrap(wrap)
                        } else {
                            b == a
                        }
                    }),
                forall|j: int| i <= j < n ==> #[trigger] self.tabs@[j] == old(self).tabs@[j],
            decreases n - i,
        {
            self.tabs[i].set_word_wrap(wrap);
            i = i + 1;
        }
    }

    /// All tabs.
    pub fn tabs(&self) -> (t: &[Tab])
        ensures
            t@ == self.tab_list(),
    {
        self.tabs.as_slice()
    }

    /// The index of the active tab.
    pub fn active_index(&self) -> (i: usize)
        ensures
            i == self.active(),
    {
        self.active_index
    }

    /// Activates tab `index`, if it is in range, and scrolls its cursor
    /// into a view of 40 lines.
    pub fn set_active_index(&mut self, index: usize)
        ensures
            old(self).wf() ==> final(self).wf(),
            index < old(self).tab_list().len() ==> {
                let t = old(self).tab_list()[index as int];
                &&& final(self).active() == index
                &&& final(self).tab_list() == old(self).tab_list().update(
                    index as int,
                    if t.is_editor() {
                        t.with_viewport(viewport_for(t.cursor_spec().position, t.viewport_spec(), 40))
                    } else {
                        t
                    },
                )
            },
            index >= old(self).tab_list().len() ==> final(self).tab_list() == old(self).tab_list()
                && final(self).active() == old(self).active(),
    {
        if index < self.tabs.len() {
            self.active_index = index;
            self.tabs[index].ensure_cursor_visible(40);
        }
    }

    /// Closes every tab but the active one, which becomes the only tab.
    pub fn close_other_tabs(&mut self)
        requires
            old(self).wf(),
        ensures
            final(self).wf(),
            old(self).tab_list().len() == 0 ==> final(self).tab_list() == old(self).tab_list()
                && final(self).active() == old(self).active(),
            old(self).tab_list().len() > 0 ==> final(self).tab_list() == seq![old(self).tab_list()[old(self).active() as int]]
                && final(self).active() == 0,
    {
        if self.tabs.len() == 0 {
            return;
        }
        let active_tab = self.tabs.remove(self.active_index);
        self.tabs.clear();
        self.tabs.push(active_tab);
        self.active_index = 0;
    }

    /// The number of tabs.
    pub fn len(&self) -> (n: usize)
        ensures
            n == self.tab_list().len(),
    {
        self.tabs.len()
    }

    /// Moves the tab at `from_index` to `to_index`; the active index follows
    /// the tab it pointed at. Nothing when either index is out of range or
    /// they are equal.
    pub fn reorder_tab(&mut self, from_index: usize, to_index: usize)
        ensures
            old(self).wf() ==> final(self).wf(),
            (from_index >= old(self).tab_list().len() || to_index >= old(self).tab_list().len() || from_index
                == to_index) ==> final(self).tab_list() == old(self).tab_list() && final(self).active() == old(
                self,
            ).active(),
            (from_index < old(self).tab_list().len() && to_index < old(self).tab_list().len() && from_index
                != to_index) ==> final(self).tab_list() == reordered(
                old(self).tab_list(),
                from_index as int,
                to_index as int,
            ) && final(self).active() == active_after_reorder(
                old(self).active(),
                from_index,
                to_index,
            ),
    {
        if from_index >= self.tabs.len() || to_index >= self.tabs.len() {
            return;
        }
        if from_index == to_index {
            return;
        }
        let tab = self.tabs.remove(from_index);
        self.tabs.insert(to_index, tab);
        if self.active_index == from_index {
            self.active_index = to_index;
        } else if from_index < to_index {
            if self.active_index > from_index && self.active_index <= to_index {
                self.active_index = self.active_index - 1;
            }
        } else {
            if self.active_index >= to_index && self.active_index < from_index {
                self.active_index = self.active_index + 1;
            }
        }
    }
}

/// Going to the next tab and back to the previous one, or the other way
/// round, returns to the tab one started from.
pub proof fn lemma_next_prev_inverse(active: usize, len: nat)
    requires
        active < len,
        len <= usize::MAX,
    ensures
        prev_active(next_active(active, len), len) == active,
        next_active(prev_active(active, len), len) == active,
{
    if active + 1 < len {
        assert((active + 1) % (len as int) == active + 1) by (nonlinear_arith)
            requires
                0 <= active + 1 < len,
        ;
    } else {
        assert((active + 1) % (len as int) == 0) by (nonlinear_arith)
            requires
                active + 1 == len,
                len > 0,
        ;
    }
    if active == 0 {
        assert(((len - 1) + 1) % (len as int) == 0) by (nonlinear_arith)
            requires
                len > 0,
        ;
    } else {
        assert(((active - 1) + 1) % (len as int) == active) by (nonlinear_arith)
            requires
                0 < active < len,
        ;
    }
}

/// On a valid tab list the previous tab is the one before the active one,
/// wrapping round from the first to the last: index `(i + n - 1) % n`.
pub proof fn lemma_prev_active_wraps(active: usize, len: nat)
    requires
        active < len,
        len <= usize::MAX,
    ensures
        prev_active(active, len) == (active + len - 1) % (len as int),
        prev_active(active, len) < len,
{
    if active == 0 {
        assert((len - 1) % (len as int) == len - 1) by (nonlinear_arith)
            requires
                len > 0,
        ;
    } else {
        assert((active + len - 1) % (len as int) == active - 1) by (nonlinear_arith)
            requires
                0 < active < len,
        ;
    }
}

/// Moving a tab keeps the active tab active, and the active index in range.
pub proof fn lemma_reorder_keeps_active_tab<T>(tabs: Seq<T>, active: usize, from: usize, to: usize)
    requires
        active < tabs.len(),
        from < tabs.len(),
        to < tabs.len(),
        from != to,
    ensures
        active_after_reorder(active, from, to) < tabs.len(),
        reordered(tabs, from as int, to as int)[active_after_reorder(active, from, to) as int]
            == tabs[active as int],
{
}

/// Moving a tab keeps the same tabs, and moving it back restores the order.
pub proof fn lemma_reorder_permutes<T>(tabs: Seq<T>, from: usize, to: usize)
    requires
        from < tabs.len(),
        to < tabs.len(),
    ensures
        reordered(tabs, from as int, to as int).to_multiset() =~= tabs.to_multiset(),
        reordered(reordered(tabs, from as int, to as int), to as int, from as int) =~= tabs,
{
    broadcast use vstd::multiset::group_multiset_axioms;

    let x = tabs[from as int];
    let r = tabs.remove(from as int);
    vstd::seq_lib::to_multiset_remove(tabs, from as int);
    vstd::seq_lib::to_multiset_insert(r, to as int, x);
    vstd::seq_lib::to_multiset_contains(tabs, x);
    assert(tabs.to_multiset().remove(x).insert(x) =~= tabs.to_multiset());
    assert(r.insert(to as int, x).remove(to as int) =~= r);
}

/// Closing a tab keeps the active index in range.
pub proof fn lemma_close_keeps_active_in_range(active: usize, len: nat, index: usize)
    requires
        len > 1,
        index < len,
        active < len,
    ensures
        active_after_close(active, len) < len - 1,
{
}

/// Closing a tab moves the active index only when it would fall past the
/// end: an index still below the new number of tabs stays as it is, and one
/// past the end goes to the last tab. So closing a tab after the active one
/// keeps the same tab active.
pub proof fn lemma_close_moves_active_only_past_end<T>(tabs: Seq<T>, active: usize, index: usize)
    requires
        tabs.len() > 1,
        index < tabs.len(),
        tabs.len() <= usize::MAX,
    ensures
        active < tabs.len() - 1 ==> active_after_close(active, tabs.len()) == active,
        active >= tabs.len() - 1 ==> active_after_close(active, tabs.len()) == tabs.len() - 2,
        active < index ==> tabs.remove(index as int)[active_after_close(active, tabs.len()) as int]
            == tabs[active as int],
{
}

} // verus!
