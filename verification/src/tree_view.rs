//! The file tree panel: the visible items, selection and scrolling, search,
//! refreshing and the clipboard for file operations.
use vstd::prelude::*;
use crate::tree::{
    TreeNode, NodeView, DirListing, TreeError, node_view, nodes_view, lemma_nodes_view, size,
    size_list, lemma_size_list_child, fresh_view, loaded, toggled, expanded_to,
};
use crate::gitignore::GitIgnore;
use crate::paths::{path_eq, paths_equal, path_starts_with, starts_with_path, file_name, file_name_of};
use crate::chars::{string_push, lowercase, to_lowercase, str_to_chars};
use crate::tree::{listing_for, entry_views, find_listing};
use crate::text::utf8_len;
use crate::encoding::char_at_byte;

verus! {

/// A file or directory put aside by copy or cut.
pub struct ClipboardEntry {
    pub path: String,
    pub is_cut: bool,
}

/// The file tree panel.
pub struct TreeView {
    pub root: TreeNode,
    pub selected_index: usize,
    pub scroll_offset: usize,
    pub search_query: String,
    pub is_searching: bool,
    pub filtered_items: Vec<(usize, TreeNode)>,
    pub width: u16,
    pub is_focused: bool,
    gitignore: GitIgnore,
    pub just_refreshed: bool,
    pub clipboard: Option<ClipboardEntry>,
    last_scroll_time: Option<u64>,
    scroll_acceleration: usize,
}

/// The state of a file tree panel as mathematical values.
pub struct TreeViewState {
    pub root: NodeView,
    pub selected_index: usize,
    pub scroll_offset: usize,
    pub search_query: Seq<char>,
    pub is_searching: bool,
    pub filtered: Seq<(usize, NodeView)>,
    pub width: u16,
    pub is_focused: bool,
    pub gitignore: GitIgnore,
    pub just_refreshed: bool,
    pub clipboard: Option<(Seq<char>, bool)>,
    pub last_scroll_time: Option<u64>,
    pub scroll_acceleration: usize,
}

/// The views of a list of found items.
pub open spec fn found_view(s: Seq<(usize, TreeNode)>) -> Seq<(usize, NodeView)> {
    s.map_values(|p: (usize, TreeNode)| (p.0, node_view(p.1)))
}

/// The views of a list of node references.
pub open spec fn refs_view(s: Seq<&TreeNode>) -> Seq<NodeView> {
    s.map_values(|r: &TreeNode| node_view(*r))
}

impl View for TreeView {
    type V = TreeViewState;

    closed spec fn view(&self) -> TreeViewState {
        TreeViewState {
            root: self.root@,
            selected_index: self.selected_index,
            scroll_offset: self.scroll_offset,
            search_query: self.search_query@,
            is_searching: self.is_searching,
            filtered: found_view(self.filtered_items@),
            width: self.width,
            is_focused: self.is_focused,
            gitignore: self.gitignore,
            just_refreshed: self.just_refreshed,
            clipboard: match self.clipboard {
                Some(e) => Some((e.path@, e.is_cut)),
                None => None,
            },
            last_scroll_time: self.last_scroll_time,
            scroll_acceleration: self.scroll_acceleration,
        }
    }
}

/// The nodes shown from `v` down: itself unless it is the root, then, when
/// it is expanded, what its children show.
pub open spec fn visible(v: NodeView) -> Seq<NodeView>
    decreases v,
{
    (if v.depth > 0 {
        seq![v]
    } else {
        Seq::empty()
    }) + (if v.is_expanded {
        visible_list(v.children)
    } else {
        Seq::empty()
    })
}

/// What a list of trees shows, one after the other.
pub open spec fn visible_list(vs: Seq<NodeView>) -> Seq<NodeView>
    decreases vs,
{
    if vs.len() == 0 {
        Seq::empty()
    } else {
        visible(vs[0]) + visible_list(vs.subrange(1, vs.len() as int))
    }
}

/// The items the panel lists: the search results while a search with a
/// query is on, else the visible nodes of the tree.
pub open spec fn visible_items(t: TreeViewState) -> Seq<NodeView> {
    if t.is_searching && t.search_query.len() > 0 {
        t.filtered.map_values(|p: (usize, NodeView)| p.1)
    } else {
        visible(t.root)
    }
}

/// The tree with the ignore flag of every node set by `g`.
pub open spec fn marked(v: NodeView, g: GitIgnore) -> NodeView
    decreases v,
{
    NodeView {
        is_gitignored: g.ignores(v.path, v.is_dir),
        children: marked_list(v.children, g),
        ..v
    }
}

/// A list of trees marked by `g`.
pub open spec fn marked_list(vs: Seq<NodeView>, g: GitIgnore) -> Seq<NodeView>
    decreases vs,
{
    if vs.len() == 0 {
        Seq::empty()
    } else {
        seq![marked(vs[0], g)] + marked_list(vs.subrange(1, vs.len() as int), g)
    }
}

pub proof fn lemma_marked_list(vs: Seq<NodeView>, g: GitIgnore)
    ensures
        marked_list(vs, g).len() == vs.len(),
        forall|i: int| 0 <= i < vs.len() ==> #[trigger] marked_list(vs, g)[i] == marked(vs[i], g),
    decreases vs.len(),
{
    if vs.len() > 0 {
        lemma_marked_list(vs.subrange(1, vs.len() as int), g);
    }
}

pub proof fn lemma_visible_list_take(vs: Seq<NodeView>, i: int)
    requires
        0 <= i < vs.len(),
    ensures
        visible_list(vs.take(i + 1)) == visible_list(vs.take(i)) + visible(vs[i]),
    decreases i,
{
    let t = vs.take(i + 1);
    assert(t.subrange(1, t.len() as int) =~= vs.subrange(1, vs.len() as int).take(i));
    if i == 0 {
        assert(vs.take(0) =~= Seq::<NodeView>::empty());
        assert(vs.subrange(1, vs.len() as int).take(0) =~= Seq::<NodeView>::empty());
        assert(visible_list(Seq::<NodeView>::empty()) =~= Seq::<NodeView>::empty());
        assert(visible_list(t) =~= visible(vs[0]));
    } else {
        let r = vs.subrange(1, vs.len() as int);
        lemma_visible_list_take(r, i - 1);
        let u = vs.take(i);
        assert(u.subrange(1, u.len() as int) =~= r.take(i - 1));
        assert(visible_list(t) =~= visible(vs[0]) + visible_list(r.take(i)));
        assert(visible_list(u) =~= visible(vs[0]) + visible_list(r.take(i - 1)));
        assert(r[i - 1] == vs[i]);
    }
}


/// The tree `v` with the node at `target` toggled: the walk goes down
/// through the first child whose path `target` starts with.
pub open spec fn toggle_at(v: NodeView, target: Seq<char>, fs: Seq<DirListing>) -> Result<
    NodeView,
    TreeError,
>
    decreases v, 1int, 0int,
{
    if paths_equal(v.path, target) {
        toggled(v, fs)
    } else {
        toggle_in_children(v, 0, target, fs)
    }
}

/// `v` with the toggle done in the first child from index `i` on whose
/// path `target` starts with; `v` itself when there is none.
pub open spec fn toggle_in_children(
    v: NodeView,
    i: int,
    target: Seq<char>,
    fs: Seq<DirListing>,
) -> Result<NodeView, TreeError>
    decreases v, 0int, v.children.len() - i,
{
    if i < 0 || i >= v.children.len() {
        Ok(v)
    } else if path_starts_with(target, v.children[i].path) {
        match toggle_at(v.children[i], target, fs) {
            Err(e) => Err(e),
            Ok(c) => Ok(NodeView { children: v.children.update(i, c), ..v }),
        }
    } else {
        toggle_in_children(v, i + 1, target, fs)
    }
}

/// The scroll offset that keeps item `sel` within a view of `h` items.
pub open spec fn scrolled_into(sel: usize, scroll: usize, h: usize) -> usize {
    if sel < scroll {
        sel
    } else if sel >= scroll + h {
        if sel >= h - 1 {
            (sel - (h - 1)) as usize
        } else {
            0
        }
    } else {
        scroll
    }
}

/// The first item from index `i` on whose path equals `p`.
pub open spec fn first_path_index(items: Seq<NodeView>, p: Seq<char>, i: int) -> Option<int>
    decreases items.len() - i,
{
    if i < 0 || i >= items.len() {
        None
    } else if paths_equal(items[i].path, p) {
        Some(i)
    } else {
        first_path_index(items, p, i + 1)
    }
}

/// The panel with the item at path `p` selected and scrolled into a view
/// of 20 items; unchanged when no listed item has that path.
pub open spec fn select_path(t: TreeViewState, p: Seq<char>) -> TreeViewState {
    match first_path_index(visible_items(t), p, 0) {
        Some(i) => TreeViewState {
            selected_index: i as usize,
            scroll_offset: scrolled_into(i as usize, t.scroll_offset, 20),
            ..t
        },
        None => t,
    }
}

/// The scroll speed after a scroll at time `now` (in milliseconds): it
/// grows while scrolls come within 150 ms of each other, by 1 below 3, 2
/// below 8, 3 below 15 and 4 above, up to 20; it falls back to 1 otherwise.
pub open spec fn accel_after(accel: usize, last: Option<u64>, now: u64) -> usize {
    match last {
        Some(t) => if now < t || now - t < 150 {
            let inc: int = if accel < 3 {
                1
            } else if accel < 8 {
                2
            } else if accel < 15 {
                3
            } else {
                4
            };
            if accel + inc < 20 {
                (accel + inc) as usize
            } else {
                20
            }
        } else {
            1
        },
        None => 1,
    }
}

/// Appends the paths of the expanded directories of `node` to `paths`.
fn collect_expanded_paths(node: &TreeNode, paths: &mut Vec<String>)
    ensures
        final(paths)@.map_values(|p: String| p@) == old(paths)@.map_values(|p: String| p@)
            + expanded_paths(node@),
    decreases size(node@),
{
    let ghost base = paths@.map_values(|p: String| p@);
    if node.is_expanded && node.is_dir {
        paths.push(node.path.clone());
        assert(paths@.map_values(|p: String| p@) =~= base + seq![node.path@]);
        let ghost head = paths@.map_values(|p: String| p@);
        let ghost cs = node@.children;
        proof {
            lemma_nodes_view(node.children@);
            assert(cs.take(0) =~= Seq::<NodeView>::empty());
            assert(expanded_paths_list(cs.take(0)) =~= Seq::<Seq<char>>::empty());
        }
        let mut i: usize = 0;
        while i < node.children.len()
            invariant
                i <= node.children@.len(),
                cs == node@.children,
                cs.len() == node.children@.len(),
                forall|j: int| 0 <= j < cs.len() ==> #[trigger] cs[j] == node_view(node.children@[j]),
                paths@.map_values(|p: String| p@) == head + expanded_paths_list(cs.take(i as int)),
            decreases node.children.len() - i,
        {
            proof {
                lemma_size_list_child(cs, i as int);
                lemma_expanded_paths_list_take(cs, i as int);
            }
            collect_expanded_paths(&node.children[i], paths);
            assert(paths@.map_values(|p: String| p@) =~= head + expanded_paths_list(
                cs.take(i + 1),
            ));
            i = i + 1;
        }
        assert(cs.take(cs.len() as int) =~= cs);
        assert(paths@.map_values(|p: String| p@) =~= base + expanded_paths(node@));
    } else {
        assert(paths@.map_values(|p: String| p@) =~= base + expanded_paths(node@));
    }
}

/// Sets the ignore flag of each child of `node` by `g`.
fn mark_children(g: &GitIgnore, node: &mut TreeNode)
    ensures
        final(node)@ == (NodeView { children: mark_top(old(node)@.children, *g), ..old(node)@ }),
{
    let ghost v = node@;
    let n = node.children.len();
    let mut i: usize = 0;
    proof {
        lemma_nodes_view(node.children@);
    }
    while i < n
        invariant
            n == node.children@.len(),
            n == v.children.len(),
            i <= n,
            v == old(node)@,
            node.path@ == v.path,
            node.name@ == v.name,
            node.is_dir == v.is_dir,
            node.is_expanded == v.is_expanded,
            node.depth == v.depth,
            node.is_gitignored == v.is_gitignored,
            forall|j: int| 0 <= j < i ==> #[trigger] node_view(node.children@[j]) == mark_top(
                v.children,
                *g,
            )[j],
            forall|j: int| i <= j < n ==> #[trigger] node_view(node.children@[j]) == v.children[j],
        decreases n - i,
    {
        proof {
            lemma_nodes_view(node.children@);
        }
        assert(node_view(node.children@[i as int]) == v.children[i as int]);
        let ghost before = node.children@;
        let ignored = g.is_ignored(node.children[i].path.as_str(), node.children[i].is_dir);
        node.children[i].is_gitignored = ignored;
        proof {
            lemma_nodes_view(node.children@);
            assert(node.children@ =~= before.update(i as int, node.children@[i as int]));
            assert(node_view(node.children@[i as int]) == mark_top(v.children, *g)[i as int]);
        }
        i = i + 1;
    }
    proof {
        lemma_nodes_view(node.children@);
        assert(nodes_view(node.children@) =~= mark_top(v.children, *g));
    }
}

/// Re-expands the directory at `target` wherever it is in the tree of
/// `node`.
fn expand_path_recursive_static(target: &str, node: &mut TreeNode, g: &GitIgnore, fs: &[DirListing])
    ensures
        final(node)@ == reexpanded(old(node)@, target@, *g, fs@),
    decreases size(old(node)@), usize::MAX - old(node).depth,
{
    let ghost v = node@;
    if path_eq(node.path.as_str(), target) && node.is_dir {
        node.is_expanded = true;
        if node.children.len() == 0 {
            match node.load_children(fs) {
                Ok(()) => {
                    mark_children(g, node);
                },
                Err(_) => {},
            }
        }
    }
    let ghost w = node@;
    proof {
        lemma_nodes_view(node.children@);
        assert(w == reopened(v, target@, *g, fs@));
        assert forall|j: int| 0 <= j < w.children.len() implies (#[trigger] size(w.children[j])
            < size(v) || (size(w.children[j]) == size(v) && w.children[j].depth > v.depth && v.depth
            < usize::MAX)) by {
            if w.children == v.children {
                lemma_size_list_child(v.children, j);
            } else {
                let es = crate::tree::listing_for(fs@, v.path)->0;
                let f = crate::tree::fresh_views(crate::tree::entry_views(es), (v.depth + 1) as usize);
                crate::tree::lemma_sort_views_fresh(f, (v.depth + 1) as usize);
                assert(size_list(w.children[j].children) == 0);
                assert(size_list(v.children) == 0);
            }
        }
    }
    let n = node.children.len();
    let mut i: usize = 0;
    while i < n
        invariant
            n == node.children@.len(),
            n == w.children.len(),
            n == node@.children.len(),
            v == old(node)@,
            i <= n,
            reexpand_children(w, 0, target@, *g, fs@, size(v), v.depth as int) == reexpand_children(
                node@,
                i as int,
                target@,
                *g,
                fs@,
                size(v),
                v.depth as int,
            ),
            forall|j: int| i <= j < n ==> #[trigger] node@.children[j] == w.children[j],
            forall|j: int|
                0 <= j < n ==> (#[trigger] size(w.children[j]) < size(v) || (size(w.children[j])
                    == size(v) && w.children[j].depth > v.depth && v.depth < usize::MAX)),
        decreases n - i,
    {
        proof {
            lemma_nodes_view(node.children@);
        }
        let ghost before = node@;
        assert(node_view(node.children@[i as int]) == w.children[i as int]);
        assert(size(w.children[i as int]) < size(v) || (size(w.children[i as int]) == size(v)
            && w.children[i as int].depth > v.depth && v.depth < usize::MAX));
        expand_path_recursive_static(target, &mut node.children[i], g, fs);
        proof {
            lemma_nodes_view(node.children@);
            assert(node@.children =~= before.children.update(
                i as int,
                node_view(node.children@[i as int]),
            ));
        }
        i = i + 1;
    }
}

impl TreeView {
    /// Reads the tree again: the root is made anew (`root_is_dir` tells
    /// whether it is a directory) and its children loaded from the
    /// listings, the directories that were expanded are expanded again and
    /// the selected item is selected again. Flags the panel as just
    /// refreshed.
    pub fn refresh(&mut self, root_is_dir: bool, fs: &[DirListing])
        ensures
            final(self)@ == refreshed(old(self)@, root_is_dir, fs@),
    {
        self.just_refreshed = true;
        let ghost t = old(self)@;
        let selected_path = match self.get_selected_item() {
            Some(item) => Some(item.path.clone()),
            None => None,
        };
        let mut expanded: Vec<String> = Vec::new();
        collect_expanded_paths(&self.root, &mut expanded);
        assert(expanded@.map_values(|p: String| p@) =~= expanded_paths(t.root));
        let root_path = self.root.path.clone();
        self.root = TreeNode::new(root_path, 0, root_is_dir);
        match self.root.load_children(fs) {
            Err(_) => {
                return;
            },
            Ok(()) => {},
        }
        mark_children(&self.gitignore, &mut self.root);
        let ghost r1 = self.root@;
        let mut k: usize = 0;
        assert(expanded_paths(t.root).skip(0) =~= expanded_paths(t.root));
        while k < expanded.len()
            invariant
                k <= expanded@.len(),
                expanded@.map_values(|p: String| p@) == expanded_paths(t.root),
                reexpand_all(r1, expanded_paths(t.root), self.gitignore, fs@) == reexpand_all(
                    self.root@,
                    expanded_paths(t.root).skip(k as int),
                    self.gitignore,
                    fs@,
                ),
                self@ == (TreeViewState { root: self.root@, just_refreshed: true, ..t }),
                t == old(self)@,
            decreases expanded.len() - k,
        {
            let ghost ps = expanded_paths(t.root).skip(k as int);
            assert(ps[0] == expanded@[k as int]@);
            assert(ps.drop_first() =~= expanded_paths(t.root).skip(k + 1));
            expand_path_recursive_static(expanded[k].as_str(), &mut self.root, &self.gitignore, fs);
            k = k + 1;
        }
        assert(expanded_paths(t.root).skip(k as int) =~= Seq::<Seq<char>>::empty());
        let ghost t2 = self@;
        proof {
            let items = visible_items(t);
            let l = loaded(fresh_view(t.root.path, root_is_dir, 0), fs@)->Ok_0;
            assert(r1 == (NodeView { children: mark_top(l.children, t.gitignore), ..l }));
            assert(t2 == (TreeViewState {
                root: reexpand_all(r1, expanded_paths(t.root), t.gitignore, fs@),
                just_refreshed: true,
                ..t
            }));
        }
        match selected_path {
            Some(path) => {
                self.restore_selection(path.as_str());
            },
            None => {},
        }
    }
}

/// Whether `n` occurs in `h` at index `i`.
fn chars_match_at(h: &Vec<char>, n: &Vec<char>, i: usize) -> (r: bool)
    requires
        i + n@.len() <= h@.len(),
    ensures
        r == (h@.subrange(i as int, i + n@.len()) == n@),
{
    let hl = h.len();
    let mut k: usize = 0;
    while k < n.len()
        invariant
            hl == h@.len(),
            i + n@.len() <= h@.len(),
            k <= n@.len(),
            forall|j: int| 0 <= j < k ==> h@[i + j] == n@[j],
        decreases n.len() - k,
    {
        if h[i + k] != n[k] {
            assert(h@.subrange(i as int, i + n@.len())[k as int] != n@[k as int]);
            return false;
        }
        k = k + 1;
    }
    assert(h@.subrange(i as int, i + n@.len()) =~= n@);
    true
}

/// Whether `n` occurs in `h`.
fn contains_chars(h: &Vec<char>, n: &Vec<char>) -> (r: bool)
    ensures
        r == contains_seq(h@, n@),
{
    if n.len() > h.len() {
        return false;
    }
    let last = h.len() - n.len();
    let mut i: usize = 0;
    while i <= last
        invariant
            last == h@.len() - n@.len(),
            n@.len() <= h@.len(),
            forall|j: int| 0 <= j < i ==> #[trigger] h@.subrange(j, j + n@.len()) != n@,
        decreases last + 1 - i,
    {
        if chars_match_at(h, n, i) {
            return true;
        }
        if i == last {
            assert forall|j: int| 0 <= j && j + n@.len() <= h@.len() implies #[trigger] h@.subrange(
                j,
                j + n@.len(),
            ) != n@ by {
                assert(j <= i);
            }
            return false;
        }
        i = i + 1;
    }
    false
}

/// Appends all nodes of `node` but the root to `items`.
fn collect_all<'a>(node: &'a TreeNode, items: &mut Vec<&'a TreeNode>)
    ensures
        refs_view(final(items)@) == refs_view(old(items)@) + all_items(node@),
    decreases size(node@),
{
    let ghost base = refs_view(items@);
    if node.depth > 0 {
        items.push(node);
        assert(refs_view(items@) =~= base + seq![node@]);
    } else {
        assert(refs_view(items@) =~= base + Seq::<NodeView>::empty());
    }
    let ghost head = refs_view(items@);
    let ghost cs = node@.children;
    proof {
        lemma_nodes_view(node.children@);
        assert(cs.take(0) =~= Seq::<NodeView>::empty());
        assert(all_items_list(cs.take(0)) =~= Seq::<NodeView>::empty());
    }
    let mut i: usize = 0;
    while i < node.children.len()
        invariant
            i <= node.children@.len(),
            cs == node@.children,
            cs.len() == node.children@.len(),
            forall|j: int| 0 <= j < cs.len() ==> #[trigger] cs[j] == node_view(node.children@[j]),
            refs_view(items@) == head + all_items_list(cs.take(i as int)),
        decreases node.children.len() - i,
    {
        proof {
            lemma_size_list_child(cs, i as int);
            lemma_all_items_list_take(cs, i as int);
        }
        collect_all(&node.children[i], items);
        assert(refs_view(items@) =~= head + all_items_list(cs.take(i + 1)));
        i = i + 1;
    }
    assert(cs.take(cs.len() as int) =~= cs);
    assert(refs_view(items@) =~= base + all_items(node@));
}

/// Searches for `q` below the directory `node`, `max_depth` levels down,
/// appending the matches to `results` with indices from `index` on.
fn search_in_directory(
    node: &TreeNode,
    q: &Vec<char>,
    results: &mut Vec<(usize, TreeNode)>,
    index: &mut usize,
    max_depth: usize,
    fs: &[DirListing],
)
    ensures
        ({
            let (r, i2) = dir_search(node@, q@, *old(index), max_depth as nat, fs@);
            &&& found_view(final(results)@) == found_view(old(results)@) + r
            &&& *final(index) == i2
        }),
    decreases max_depth,
{
    let ghost r0 = found_view(results@);
    let ghost idx0 = *index;
    if max_depth == 0 || !node.is_dir {
        assert(found_view(results@) =~= r0 + Seq::<(usize, NodeView)>::empty());
        return;
    }
    let b = max_depth - 1;
    if node.is_expanded && node.children.len() > 0 {
        let ghost cs = node@.children;
        proof {
            lemma_nodes_view(node.children@);
        }
        let mut i: usize = 0;
        while i < node.children.len()
            invariant
                i <= node.children@.len(),
                cs == node@.children,
                cs.len() == node.children@.len(),
                b == max_depth - 1,
                forall|j: int| 0 <= j < cs.len() ==> #[trigger] cs[j] == node_view(node.children@[j]),
                r0 + children_search(cs, 0, q@, idx0, b as nat, fs@).0 == found_view(results@)
                    + children_search(cs, i as int, q@, *index, b as nat, fs@).0,
                children_search(cs, 0, q@, idx0, b as nat, fs@).1 == children_search(
                    cs,
                    i as int,
                    q@,
                    *index,
                    b as nat,
                    fs@,
                ).1,
            decreases node.children.len() - i,
        {
            let ghost before = found_view(results@);
            let ghost idx = *index;
            assert(cs[i as int] == node_view(node.children@[i as int]));
            if node.children[i].is_dir {
                search_in_directory(&node.children[i], q, results, index, b, fs);
            }
            proof {
                let (r1, idx1) = if cs[i as int].is_dir {
                    dir_search(cs[i as int], q@, idx, b as nat, fs@)
                } else {
                    (Seq::<(usize, NodeView)>::empty(), idx)
                };
                assert(found_view(results@) =~= before + r1);
                assert(*index == idx1);
                let rest = children_search(cs, i + 1, q@, idx1, b as nat, fs@);
                assert(children_search(cs, i as int, q@, idx, b as nat, fs@) == (r1 + rest.0, rest.1));
                assert(before + (r1 + rest.0) =~= (before + r1) + rest.0);
            }
            i = i + 1;
        }
        assert(found_view(results@) + Seq::<(usize, NodeView)>::empty() =~= found_view(results@));
        return;
    }
    let entries = match find_listing(fs, node.path.as_str()) {
        Some(es) => es,
        None => {
            assert(found_view(results@) =~= r0 + Seq::<(usize, NodeView)>::empty());
            return;
        },
    };
    let ghost es = entry_views(entries@);
    let d = node.depth;
    let nd = if d == usize::MAX {
        d
    } else {
        d + 1
    };
    let mut i: usize = 0;
    while i < entries.len()
        invariant
            i <= entries@.len(),
            es == entry_views(entries@),
            es.len() == entries@.len(),
            b == max_depth - 1,
            d == node.depth,
            nd == deeper(d),
            r0 + entries_search(es, 0, d, q@, idx0, b as nat, fs@).0 == found_view(results@)
                + entries_search(es, i as int, d, q@, *index, b as nat, fs@).0,
            entries_search(es, 0, d, q@, idx0, b as nat, fs@).1 == entries_search(
                es,
                i as int,
                d,
                q@,
                *index,
                b as nat,
                fs@,
            ).1,
        decreases entries.len() - i,
    {
        let ghost before = found_view(results@);
        let ghost idx = *index;
        let path = &entries[i].path;
        let is_dir = entries[i].is_dir;
        assert(es[i as int] == (path@, is_dir));
        match file_name(path.as_str()) {
            None => {},
            Some(name) => {
                let lname = str_to_chars(to_lowercase(name.as_str()).as_str());
                let ghost fresh = fresh_view(path@, is_dir, nd);
                if contains_chars(&lname, q) {
                    let found = TreeNode::new(path.clone(), nd, is_dir);
                    let k = *index;
                    results.push((k, found));
                    *index = if k == usize::MAX {
                        0
                    } else {
                        k + 1
                    };
                    assert(found_view(results@) =~= before + seq![(idx, fresh)]);
                } else {
                    assert(found_view(results@) =~= before + Seq::<(usize, NodeView)>::empty());
                }
                let ghost mid = found_view(results@);
                let ghost idx1 = *index;
                if is_dir {
                    let dir_node = TreeNode::new(path.clone(), nd, true);
                    search_in_directory(&dir_node, q, results, index, b, fs);
                } else {
                    assert(found_view(results@) =~= mid + Seq::<(usize, NodeView)>::empty());
                }
                proof {
                    let (r2, idx2) = if is_dir {
                        dir_search(fresh, q@, idx1, b as nat, fs@)
                    } else {
                        (Seq::<(usize, NodeView)>::empty(), idx1)
                    };
                    assert(found_view(results@) == mid + r2);
                    let rest = entries_search(es, i + 1, d, q@, *index, b as nat, fs@);
                    assert((before + (mid.subrange(before.len() as int, mid.len() as int) + r2
                        + rest.0)) =~= found_view(results@) + rest.0);
                }
            },
        }
        i = i + 1;
    }
    assert(found_view(results@) + Seq::<(usize, NodeView)>::empty() =~= found_view(results@));
}

impl TreeView {
    /// All nodes of the tree but the root, expanded or not.
    fn get_all_items(&self) -> (r: Vec<&TreeNode>)
        ensures
            refs_view(r@) == all_items(self@.root),
    {
        let mut items: Vec<&TreeNode> = Vec::new();
        collect_all(&self.root, &mut items);
        assert(refs_view(items@) =~= all_items(self@.root));
        items
    }

    /// The results of a search for the lowercased query `q`.
    fn search_all_files(&self, q: &Vec<char>, fs: &[DirListing]) -> (r: Vec<(usize, TreeNode)>)
        ensures
            found_view(r@) == search_results(self@.root, q@, fs@),
    {
        let mut results: Vec<(usize, TreeNode)> = Vec::new();
        let items = self.get_all_items();
        let ghost all = all_items(self@.root);
        let mut index: usize = 0;
        assert(found_view(results@) =~= Seq::<(usize, NodeView)>::empty());
        while index < items.len()
            invariant
                index <= items@.len(),
                refs_view(items@) == all,
                all.len() == items@.len(),
                matching_items(all, q@, 0) == found_view(results@) + matching_items(
                    all,
                    q@,
                    index as int,
                ),
            decreases items.len() - index,
        {
            let ghost before = found_view(results@);
            let node = items[index];
            assert(all[index as int] == node_view(*node));
            let lname = str_to_chars(to_lowercase(node.name.as_str()).as_str());
            if contains_chars(&lname, q) {
                results.push((index, clone_node(node)));
                assert(found_view(results@) =~= before + seq![(index, all[index as int])]);
            } else {
                assert(found_view(results@) =~= before + Seq::<(usize, NodeView)>::empty());
            }
            let ghost rest = matching_items(all, q@, index + 1);
            assert(before + ((if contains_seq(lowercase(all[index as int].name), q@) {
                seq![(index, all[index as int])]
            } else {
                Seq::empty()
            }) + rest) =~= found_view(results@) + rest);
            index = index + 1;
        }
        assert(found_view(results@) + Seq::<(usize, NodeView)>::empty() =~= found_view(results@));
        search_in_directory(&self.root, q, &mut results, &mut index, 3, fs);
        results
    }

    /// Runs the search for the current query again: its results, the first
    /// item selected.
    fn update_search_filter(&mut self, fs: &[DirListing])
        ensures
            final(self)@ == filtered(old(self)@, fs@),
    {
        let query = to_lowercase(self.search_query.as_str());
        let matching_items = if self.search_query.as_str().is_empty() {
            Vec::new()
        } else {
            let q = str_to_chars(query.as_str());
            self.search_all_files(&q, fs)
        };
        self.filtered_items = matching_items;
        self.selected_index = 0;
        assert(self@.filtered =~= filtered(old(self)@, fs@).filtered);
    }

    /// While searching, adds `c` to the query and searches again.
    pub fn add_search_char(&mut self, c: char, fs: &[DirListing])
        ensures
            old(self)@.is_searching ==> final(self)@ == filtered(
                TreeViewState { search_query: old(self)@.search_query.push(c), ..old(self)@ },
                fs@,
            ),
            !old(self)@.is_searching ==> final(self)@ == old(self)@,
    {
        if self.is_searching {
            string_push(&mut self.search_query, c);
            self.update_search_filter(fs);
        }
    }

    /// While searching with a query, removes its last char and searches
    /// again.
    pub fn remove_search_char(&mut self, fs: &[DirListing])
        ensures
            old(self)@.is_searching && old(self)@.search_query.len() > 0 ==> final(self)@
                == filtered(
                TreeViewState { search_query: old(self)@.search_query.drop_last(), ..old(self)@ },
                fs@,
            ),
            !(old(self)@.is_searching && old(self)@.search_query.len() > 0) ==> final(self)@ == old(
                self,
            )@,
    {
        if self.is_searching && !self.search_query.as_str().is_empty() {
            let cs = str_to_chars(self.search_query.as_str());
            let kept = crate::strings::subrange_vec(&cs, 0, cs.len() - 1);
            self.search_query = crate::chars::chars_to_string(&kept);
            assert(self.search_query@ =~= old(self)@.search_query.drop_last());
            self.update_search_filter(fs);
        }
    }
}

/// `a * b`, or `usize::MAX` when it does not fit.
pub open spec fn sat_mul(a: usize, b: usize) -> usize {
    if a * b <= usize::MAX {
        (a * b) as usize
    } else {
        usize::MAX
    }
}

/// `a - b`, or 0 below it.
pub open spec fn sat_sub(a: int, b: int) -> int {
    if a >= b {
        a - b
    } else {
        0
    }
}

/// The text that tells what the clipboard holds: "Cut: name" or
/// "Copied: name", the name being the file name of the path ("item" when
/// it has none).
pub open spec fn clipboard_info(path: Seq<char>, is_cut: bool) -> Seq<char> {
    (if is_cut {
        "Cut"@
    } else {
        "Copied"@
    }) + ": "@ + match file_name_of(path) {
        Some(n) => n,
        None => "item"@,
    }
}


/// The paths of the expanded directories of a tree, parents first.
pub open spec fn expanded_paths(v: NodeView) -> Seq<Seq<char>>
    decreases v,
{
    if v.is_expanded && v.is_dir {
        seq![v.path] + expanded_paths_list(v.children)
    } else {
        Seq::empty()
    }
}

/// The expanded directories of a list of trees, one tree after the other.
pub open spec fn expanded_paths_list(vs: Seq<NodeView>) -> Seq<Seq<char>>
    decreases vs,
{
    if vs.len() == 0 {
        Seq::empty()
    } else {
        expanded_paths(vs[0]) + expanded_paths_list(vs.subrange(1, vs.len() as int))
    }
}

pub proof fn lemma_expanded_paths_list_take(vs: Seq<NodeView>, i: int)
    requires
        0 <= i < vs.len(),
    ensures
        expanded_paths_list(vs.take(i + 1)) == expanded_paths_list(vs.take(i)) + expanded_paths(vs[i]),
    decreases i,
{
    let t = vs.take(i + 1);
    assert(t.subrange(1, t.len() as int) =~= vs.subrange(1, vs.len() as int).take(i));
    if i == 0 {
        assert(vs.take(0) =~= Seq::<NodeView>::empty());
        assert(vs.subrange(1, vs.len() as int).take(0) =~= Seq::<NodeView>::empty());
        assert(expanded_paths_list(Seq::<NodeView>::empty()) =~= Seq::<Seq<char>>::empty());
        assert(expanded_paths_list(t) =~= expanded_paths(vs[0]));
    } else {
        let r = vs.subrange(1, vs.len() as int);
        lemma_expanded_paths_list_take(r, i - 1);
        let u = vs.take(i);
        assert(u.subrange(1, u.len() as int) =~= r.take(i - 1));
        assert(expanded_paths_list(t) =~= expanded_paths(vs[0]) + expanded_paths_list(r.take(i)));
        assert(expanded_paths_list(u) =~= expanded_paths(vs[0]) + expanded_paths_list(r.take(i - 1)));
        assert(r[i - 1] == vs[i]);
    }
}

/// Nodes with their own ignore flag set by `g` (their children left as
/// they are).
pub open spec fn mark_top(vs: Seq<NodeView>, g: GitIgnore) -> Seq<NodeView> {
    vs.map_values(|c: NodeView| NodeView { is_gitignored: g.ignores(c.path, c.is_dir), ..c })
}

/// The node `v` re-expanded if it is the directory at `target`: expanded,
/// and when it has no children, its children loaded (a failed load is
/// ignored) and marked by `g`.
pub open spec fn reopened(v: NodeView, target: Seq<char>, g: GitIgnore, fs: Seq<DirListing>) -> NodeView {
    if paths_equal(v.path, target) && v.is_dir {
        let e = NodeView { is_expanded: true, ..v };
        if v.children.len() == 0 {
            match loaded(e, fs) {
                Ok(l) => NodeView { children: mark_top(l.children, g), ..l },
                Err(_) => e,
            }
        } else {
            e
        }
    } else {
        v
    }
}

/// The tree `v` with the directory at `target` re-expanded, wherever it
/// is, children visited after their parent.
pub open spec fn reexpanded(v: NodeView, target: Seq<char>, g: GitIgnore, fs: Seq<DirListing>) -> NodeView
    decreases size(v), usize::MAX - v.depth, 1int, 0int,
{
    reexpand_children(reopened(v, target, g, fs), 0, target, g, fs, size(v), v.depth as int)
}

/// `w` with its children from index `i` on re-expanded towards `target`;
/// `sz` and `d` are the size and depth of the node before its children were
/// loaded.
pub open spec fn reexpand_children(
    w: NodeView,
    i: int,
    target: Seq<char>,
    g: GitIgnore,
    fs: Seq<DirListing>,
    sz: nat,
    d: int,
) -> NodeView
    decreases sz, usize::MAX - d, 0int, w.children.len() - i,
{
    if i < 0 || i >= w.children.len() {
        w
    } else {
        let c = w.children[i];
        if size(c) < sz || (size(c) == sz && c.depth > d && d < usize::MAX) {
            let w2 = NodeView { children: w.children.update(i, reexpanded(c, target, g, fs)), ..w };
            reexpand_children(w2, i + 1, target, g, fs, sz, d)
        } else {
            w
        }
    }
}

/// The tree `v` with the directories at `paths` re-expanded, in order.
pub open spec fn reexpand_all(v: NodeView, paths: Seq<Seq<char>>, g: GitIgnore, fs: Seq<DirListing>) -> NodeView
    decreases paths.len(),
{
    if paths.len() == 0 {
        v
    } else {
        reexpand_all(reexpanded(v, paths[0], g, fs), paths.drop_first(), g, fs)
    }
}

/// The panel after `refresh`: the root made anew and its children read
/// again (marked by the rules), the directories that were expanded
/// expanded again, and the item that was selected selected again. When the
/// root cannot be read, it stays fresh and unloaded.
pub open spec fn refreshed(t: TreeViewState, root_is_dir: bool, fs: Seq<DirListing>) -> TreeViewState {
    let items = visible_items(t);
    let g = t.gitignore;
    let t1 = TreeViewState { just_refreshed: true, ..t };
    let r0 = fresh_view(t.root.path, root_is_dir, 0);
    match loaded(r0, fs) {
        Err(_) => TreeViewState { root: r0, ..t1 },
        Ok(l) => {
            let r1 = NodeView { children: mark_top(l.children, g), ..l };
            let t2 = TreeViewState { root: reexpand_all(r1, expanded_paths(t.root), g, fs), ..t1 };
            if t.selected_index < items.len() {
                select_path(t2, items[t.selected_index as int].path)
            } else {
                t2
            }
        },
    }
}


/// All nodes below the root, expanded or not, parents first.
pub open spec fn all_items(v: NodeView) -> Seq<NodeView>
    decreases v,
{
    (if v.depth > 0 {
        seq![v]
    } else {
        Seq::empty()
    }) + all_items_list(v.children)
}

/// All nodes of a list of trees, one tree after the other.
pub open spec fn all_items_list(vs: Seq<NodeView>) -> Seq<NodeView>
    decreases vs,
{
    if vs.len() == 0 {
        Seq::empty()
    } else {
        all_items(vs[0]) + all_items_list(vs.subrange(1, vs.len() as int))
    }
}

pub proof fn lemma_all_items_list_take(vs: Seq<NodeView>, i: int)
    requires
        0 <= i < vs.len(),
    ensures
        all_items_list(vs.take(i + 1)) == all_items_list(vs.take(i)) + all_items(vs[i]),
    decreases i,
{
    let t = vs.take(i + 1);
    assert(t.subrange(1, t.len() as int) =~= vs.subrange(1, vs.len() as int).take(i));
    if i == 0 {
        assert(vs.take(0) =~= Seq::<NodeView>::empty());
        assert(vs.subrange(1, vs.len() as int).take(0) =~= Seq::<NodeView>::empty());
        assert(all_items_list(Seq::<NodeView>::empty()) =~= Seq::<NodeView>::empty());
        assert(all_items_list(t) =~= all_items(vs[0]));
    } else {
        let r = vs.subrange(1, vs.len() as int);
        lemma_all_items_list_take(r, i - 1);
        let u = vs.take(i);
        assert(u.subrange(1, u.len() as int) =~= r.take(i - 1));
        assert(all_items_list(t) =~= all_items(vs[0]) + all_items_list(r.take(i)));
        assert(all_items_list(u) =~= all_items(vs[0]) + all_items_list(r.take(i - 1)));
        assert(r[i - 1] == vs[i]);
    }
}

/// Whether `n` occurs in `h`.
pub open spec fn contains_seq(h: Seq<char>, n: Seq<char>) -> bool {
    exists|i: int| 0 <= i && i + n.len() <= h.len() && #[trigger] h.subrange(i, i + n.len()) == n
}

/// The index after `i`, wrapping to 0 past `usize::MAX`.
pub open spec fn next_idx(i: usize) -> usize {
    if i == usize::MAX {
        0
    } else {
        (i + 1) as usize
    }
}

/// `d + 1`, kept at `usize::MAX` there.
pub open spec fn deeper(d: usize) -> usize {
    if d == usize::MAX {
        d
    } else {
        (d + 1) as usize
    }
}

/// The items from index `i` on whose lowercased name contains `q`, each
/// with its index.
pub open spec fn matching_items(items: Seq<NodeView>, q: Seq<char>, i: int) -> Seq<(usize, NodeView)>
    decreases items.len() - i,
{
    if i < 0 || i >= items.len() {
        Seq::empty()
    } else {
        (if contains_seq(lowercase(items[i].name), q) {
            seq![(i as usize, items[i])]
        } else {
            Seq::empty()
        }) + matching_items(items, q, i + 1)
    }
}

/// The matches of `q` found below the directory `v`, searching `b` levels
/// down: the children of an expanded directory that has some are searched
/// in place, other directories are searched in their listings. Each match
/// takes the next index from `idx` on; the index after them comes second.
pub open spec fn dir_search(v: NodeView, q: Seq<char>, idx: usize, b: nat, fs: Seq<DirListing>) -> (
    Seq<(usize, NodeView)>,
    usize,
)
    decreases b, 0int, 0int,
{
    if b == 0 || !v.is_dir {
        (Seq::empty(), idx)
    } else if v.is_expanded && v.children.len() > 0 {
        children_search(v.children, 0, q, idx, (b - 1) as nat, fs)
    } else {
        match listing_for(fs, v.path) {
            None => (Seq::empty(), idx),
            Some(es) => entries_search(entry_views(es), 0, v.depth, q, idx, (b - 1) as nat, fs),
        }
    }
}

/// The matches found below the directories among `cs` from index `i` on.
pub open spec fn children_search(
    cs: Seq<NodeView>,
    i: int,
    q: Seq<char>,
    idx: usize,
    b: nat,
    fs: Seq<DirListing>,
) -> (Seq<(usize, NodeView)>, usize)
    decreases b, 1int, cs.len() - i,
{
    if i < 0 || i >= cs.len() {
        (Seq::empty(), idx)
    } else {
        let (r1, idx1) = if cs[i].is_dir {
            dir_search(cs[i], q, idx, b, fs)
        } else {
            (Seq::empty(), idx)
        };
        let (r2, idx2) = children_search(cs, i + 1, q, idx1, b, fs);
        (r1 + r2, idx2)
    }
}

/// The matches among the listed entries `es` from index `i` on (of a
/// directory of depth `d`): an entry whose lowercased name contains `q` is
/// a match, and a directory entry is searched in turn.
pub open spec fn entries_search(
    es: Seq<(Seq<char>, bool)>,
    i: int,
    d: usize,
    q: Seq<char>,
    idx: usize,
    b: nat,
    fs: Seq<DirListing>,
) -> (Seq<(usize, NodeView)>, usize)
    decreases b, 1int, es.len() - i,
{
    if i < 0 || i >= es.len() {
        (Seq::empty(), idx)
    } else {
        let p = es[i].0;
        let is_dir = es[i].1;
        match file_name_of(p) {
            None => entries_search(es, i + 1, d, q, idx, b, fs),
            Some(name) => {
                let node = fresh_view(p, is_dir, deeper(d));
                let (r1, idx1) = if contains_seq(lowercase(name), q) {
                    (seq![(idx, node)], next_idx(idx))
                } else {
                    (Seq::empty(), idx)
                };
                let (r2, idx2) = if is_dir {
                    dir_search(node, q, idx1, b, fs)
                } else {
                    (Seq::empty(), idx1)
                };
                let (r3, idx3) = entries_search(es, i + 1, d, q, idx2, b, fs);
                (r1 + r2 + r3, idx3)
            },
        }
    }
}

/// The results of a search for the lowercased query `q`: the nodes of the
/// tree whose lowercased name contains it, then what a search three
/// levels down from the root finds.
pub open spec fn search_results(root: NodeView, q: Seq<char>, fs: Seq<DirListing>) -> Seq<
    (usize, NodeView),
> {
    let items = all_items(root);
    matching_items(items, q, 0) + dir_search(root, q, items.len() as usize, 3, fs).0
}

/// The panel after its search query changed: the results for the new
/// query (none for an empty one), the first item selected.
pub open spec fn filtered(t: TreeViewState, fs: Seq<DirListing>) -> TreeViewState {
    TreeViewState {
        filtered: if t.search_query.len() == 0 {
            Seq::empty()
        } else {
            search_results(t.root, lowercase(t.search_query), fs)
        },
        selected_index: 0,
        ..t
    }
}

/// Appends what `node` shows to `items`.
fn collect_visible<'a>(node: &'a TreeNode, items: &mut Vec<&'a TreeNode>)
    ensures
        refs_view(final(items)@) == refs_view(old(items)@) + visible(node@),
    decreases size(node@),
{
    let ghost base = refs_view(items@);
    if node.depth > 0 {
        items.push(node);
        assert(refs_view(items@) =~= base + seq![node@]);
    } else {
        assert(refs_view(items@) =~= base + Seq::<NodeView>::empty());
    }
    let ghost head = refs_view(items@);
    if node.is_expanded {
        let ghost cs = node@.children;
        proof {
            lemma_nodes_view(node.children@);
            assert(cs.take(0) =~= Seq::<NodeView>::empty());
            assert(visible_list(cs.take(0)) =~= Seq::<NodeView>::empty());
        }
        let mut i: usize = 0;
        while i < node.children.len()
            invariant
                i <= node.children@.len(),
                cs == node@.children,
                cs.len() == node.children@.len(),
                forall|j: int| 0 <= j < cs.len() ==> #[trigger] cs[j] == node_view(node.children@[j]),
                refs_view(items@) == head + visible_list(cs.take(i as int)),
            decreases node.children.len() - i,
        {
            proof {
                lemma_size_list_child(cs, i as int);
                lemma_visible_list_take(cs, i as int);
            }
            let ghost before = refs_view(items@);
            collect_visible(&node.children[i], items);
            assert(refs_view(items@) =~= head + visible_list(cs.take(i + 1)));
            i = i + 1;
        }
        assert(cs.take(cs.len() as int) =~= cs);
        assert(refs_view(items@) =~= base + visible(node@));
    } else {
        assert(refs_view(items@) =~= base + visible(node@));
    }
}

/// A copy of a tree.
pub fn clone_node(n: &TreeNode) -> (c: TreeNode)
    ensures
        c@ == n@,
    decreases size(n@),
{
    let mut children: Vec<TreeNode> = Vec::new();
    let mut i: usize = 0;
    proof {
        lemma_nodes_view(n.children@);
    }
    while i < n.children.len()
        invariant
            i <= n.children@.len(),
            children@.len() == i,
            nodes_view(n.children@).len() == n.children@.len(),
            forall|j: int| 0 <= j < n.children@.len() ==> #[trigger] nodes_view(n.children@)[j]
                == node_view(n.children@[j]),
            forall|j: int| 0 <= j < i ==> #[trigger] node_view(children@[j]) == node_view(
                n.children@[j],
            ),
        decreases n.children.len() - i,
    {
        proof {
            lemma_size_list_child(n@.children, i as int);
        }
        let c = clone_node(&n.children[i]);
        children.push(c);
        i = i + 1;
    }
    proof {
        lemma_nodes_view(children@);
        assert(nodes_view(children@) =~= nodes_view(n.children@));
    }
    TreeNode {
        path: n.path.clone(),
        name: n.name.clone(),
        is_dir: n.is_dir,
        is_expanded: n.is_expanded,
        children,
        depth: n.depth,
        is_gitignored: n.is_gitignored,
    }
}

impl Clone for TreeNode {
    fn clone(&self) -> (c: Self)
        ensures
            c@ == self@,
    {
        clone_node(self)
    }
}

/// Sets the ignore flag of every node of the tree by `g`.
fn mark_ignored(g: &GitIgnore, node: &mut TreeNode)
    ensures
        final(node)@ == marked(old(node)@, *g),
    decreases size(old(node)@),
{
    node.is_gitignored = g.is_ignored(node.path.as_str(), node.is_dir);
    let ghost v = old(node)@;
    let n = node.children.len();
    let mut i: usize = 0;
    proof {
        lemma_nodes_view(node.children@);
        lemma_marked_list(v.children, *g);
    }
    while i < n
        invariant
            n == node.children@.len(),
            n == v.children.len(),
            i <= n,
            v == old(node)@,
            node.path@ == v.path,
            node.name@ == v.name,
            node.is_dir == v.is_dir,
            node.is_expanded == v.is_expanded,
            node.depth == v.depth,
            node.is_gitignored == g.ignores(v.path, v.is_dir),
            forall|j: int| 0 <= j < i ==> #[trigger] node_view(node.children@[j]) == marked(
                v.children[j],
                *g,
            ),
            forall|j: int| i <= j < n ==> #[trigger] node_view(node.children@[j]) == v.children[j],
        decreases n - i,
    {
        proof {
            lemma_size_list_child(v.children, i as int);
            lemma_nodes_view(node.children@);
        }
        mark_ignored(g, &mut node.children[i]);
        proof {
            lemma_nodes_view(node.children@);
        }
        i = i + 1;
    }
    proof {
        lemma_nodes_view(node.children@);
        assert(nodes_view(node.children@) =~= marked_list(v.children, *g));
    }
}

/// Toggles the node at `target`, going down through the first child whose
/// path `target` starts with.
fn toggle_node_recursive(node: &mut TreeNode, target: &str, fs: &[DirListing]) -> (r: Result<
    (),
    TreeError,
>)
    ensures
        match toggle_at(old(node)@, target@, fs@) {
            Ok(w) => r is Ok && final(node)@ == w,
            Err(e) => r == Err::<(), TreeError>(e) && final(node)@ == old(node)@,
        },
    decreases size(old(node)@),
{
    let ghost v = node@;
    if path_eq(node.path.as_str(), target) {
        return node.toggle_expand(fs);
    }
    let n = node.children.len();
    let mut i: usize = 0;
    proof {
        lemma_nodes_view(node.children@);
    }
    while i < n
        invariant
            n == node.children@.len(),
            n == v.children.len(),
            i <= n,
            v == old(node)@,
            node@ == v,
            !paths_equal(v.path, target@),
            toggle_in_children(v, 0, target@, fs@) == toggle_in_children(v, i as int, target@, fs@),
            forall|j: int| 0 <= j < n ==> #[trigger] node_view(node.children@[j]) == v.children[j],
        decreases n - i,
    {
        assert(node_view(node.children@[i as int]) == v.children[i as int]);
        if starts_with_path(target, node.children[i].path.as_str()) {
            proof {
                lemma_size_list_child(v.children, i as int);
            }
            let res = toggle_node_recursive(&mut node.children[i], target, fs);
            proof {
                lemma_nodes_view(node.children@);
                if res is Ok {
                    assert(node@.children =~= v.children.update(
                        i as int,
                        node_view(node.children@[i as int]),
                    ));
                } else {
                    assert(node@.children =~= v.children);
                }
            }
            return res;
        }
        i = i + 1;
    }
    Ok(())
}

impl TreeView {
    /// A panel on the directory `root_path`, its children loaded from the
    /// listings and expanded, every node marked by `gitignore`.
    pub fn new(
        root_path: String,
        width: u16,
        root_is_dir: bool,
        gitignore: GitIgnore,
        fs: &[DirListing],
    ) -> (r: Result<Self, TreeError>)
        ensures
            match loaded(fresh_view(root_path@, root_is_dir, 0), fs@) {
                Err(e) => r == Err::<Self, TreeError>(e),
                Ok(w) => r is Ok && r->Ok_0@ == (TreeViewState {
                    root: marked(NodeView { is_expanded: true, ..w }, gitignore),
                    selected_index: 0,
                    scroll_offset: 0,
                    search_query: Seq::empty(),
                    is_searching: false,
                    filtered: Seq::empty(),
                    width,
                    is_focused: false,
                    gitignore,
                    just_refreshed: false,
                    clipboard: None,
                    last_scroll_time: None,
                    scroll_acceleration: 1,
                }),
            },
    {
        let mut root = TreeNode::new(root_path, 0, root_is_dir);
        match root.load_children(fs) {
            Err(e) => {
                return Err(e);
            },
            Ok(()) => {},
        }
        root.is_expanded = true;
        let mut tree_view = TreeView {
            root,
            selected_index: 0,
            scroll_offset: 0,
            search_query: String::new(),
            is_searching: false,
            filtered_items: Vec::new(),
            width,
            is_focused: false,
            gitignore,
            just_refreshed: false,
            clipboard: None,
            last_scroll_time: None,
            scroll_acceleration: 1,
        };
        tree_view.update_gitignore_status();
        assert(found_view(tree_view.filtered_items@) =~= Seq::<(usize, NodeView)>::empty());
        assert(tree_view@.search_query =~= Seq::<char>::empty());
        Ok(tree_view)
    }

    /// Marks every node of the tree by the gitignore rules.
    fn update_gitignore_status(&mut self)
        ensures
            final(self)@ == (TreeViewState { root: marked(old(self)@.root, old(self)@.gitignore), ..old(self)@ }),
    {
        mark_ignored(&self.gitignore, &mut self.root);
    }

    /// Toggles the selected item, if any: a directory collapses, or loads
    /// its children and expands; the ignore flags are set again.
    pub fn toggle_selected(&mut self, fs: &[DirListing]) -> (r: Result<(), TreeError>)
        ensures
            ({
                let items = visible_items(old(self)@);
                let sel = old(self)@.selected_index;
                if sel < items.len() {
                    match toggle_at(old(self)@.root, items[sel as int].path, fs@) {
                        Err(e) => r == Err::<(), TreeError>(e) && final(self)@ == old(self)@,
                        Ok(w) => r is Ok && final(self)@ == (TreeViewState {
                            root: marked(w, old(self)@.gitignore),
                            ..old(self)@
                        }),
                    }
                } else {
                    r is Ok && final(self)@ == old(self)@
                }
            }),
    {
        let target = {
            let items = self.get_visible_items();
            if self.selected_index < items.len() {
                Some(items[self.selected_index].path.clone())
            } else {
                None
            }
        };
        match target {
            None => Ok(()),
            Some(path) => {
                match toggle_node_recursive(&mut self.root, path.as_str(), fs) {
                    Err(e) => {
                        return Err(e);
                    },
                    Ok(()) => {},
                }
                self.update_gitignore_status();
                Ok(())
            },
        }
    }

    /// Selects the item at `index` of the shown list.
    pub(crate) fn set_selected_index(&mut self, index: usize)
        ensures
            final(self)@ == (TreeViewState { selected_index: index, ..old(self)@ }),
    {
        self.selected_index = index;
    }

    /// Sets whether the panel has the focus.
    pub fn set_focused(&mut self, focused: bool)
        ensures
            final(self)@ == (TreeViewState { is_focused: focused, ..old(self)@ }),
    {
        self.is_focused = focused;
    }

    /// Clears the flag that shows a refresh just happened.
    pub fn clear_refresh_flag(&mut self)
        ensures
            final(self)@ == (TreeViewState { just_refreshed: false, ..old(self)@ }),
    {
        self.just_refreshed = false;
    }

    /// Selects the listed item at `path`, if there is one, and scrolls it
    /// into a view of 20 items.
    pub fn restore_selection(&mut self, path: &str)
        ensures
            final(self)@ == select_path(old(self)@, path@),
    {
        let found = self.find_item_index(path);
        match found {
            Some(index) => {
                self.selected_index = index;
                let visible_height: usize = 20;
                if self.selected_index < self.scroll_offset {
                    self.scroll_offset = self.selected_index;
                } else if self.selected_index - self.scroll_offset >= visible_height {
                    self.scroll_offset = self.selected_index.saturating_sub(visible_height - 1);
                }
            },
            None => {},
        }
    }

    /// The listed items: the search results while a search with a query is
    /// on, else the visible nodes of the tree, root left out.
    pub fn get_visible_items(&self) -> (r: Vec<&TreeNode>)
        ensures
            refs_view(r@) == visible_items(self@),
    {
        let mut items: Vec<&TreeNode> = Vec::new();
        if self.is_searching && !self.search_query.as_str().is_empty() {
            let mut i: usize = 0;
            while i < self.filtered_items.len()
                invariant
                    i <= self.filtered_items@.len(),
                    refs_view(items@) == visible_items(self@).take(i as int),
                    items@.len() == i,
                    self.is_searching && self.search_query@.len() > 0,
                decreases self.filtered_items.len() - i,
            {
                items.push(&self.filtered_items[i].1);
                assert(visible_items(self@).len() == self.filtered_items@.len());
                assert(visible_items(self@)[i as int] == node_view(self.filtered_items@[i as int].1));
                assert(refs_view(items@)[i as int] == node_view(self.filtered_items@[i as int].1));
                assert(refs_view(items@) =~= visible_items(self@).take(i + 1));
                i = i + 1;
            }
            assert(visible_items(self@).take(i as int) =~= visible_items(self@));
            return items;
        }
        collect_visible(&self.root, &mut items);
        assert(refs_view(items@) =~= visible_items(self@));
        items
    }

    /// Moves the selection one item up, stopping at the first.
    pub fn move_selection_up(&mut self)
        ensures
            final(self)@ == (TreeViewState {
                selected_index: if old(self)@.selected_index > 0 {
                    (old(self)@.selected_index - 1) as usize
                } else {
                    0
                },
                ..old(self)@
            }),
    {
        if self.selected_index > 0 {
            self.selected_index = self.selected_index - 1;
        }
    }

    /// Moves the selection one item down, stopping at the last.
    pub fn move_selection_down(&mut self)
        ensures
            final(self)@ == (TreeViewState {
                selected_index: if old(self)@.selected_index + 1 < visible_items(old(self)@).len() {
                    (old(self)@.selected_index + 1) as usize
                } else {
                    old(self)@.selected_index
                },
                ..old(self)@
            }),
    {
        let n = self.get_visible_items().len();
        if self.selected_index < n.saturating_sub(1) {
            self.selected_index = self.selected_index + 1;
        }
    }

    /// The selected item, if the selection is within the list.
    pub fn get_selected_item(&self) -> (r: Option<&TreeNode>)
        ensures
            self@.selected_index < visible_items(self@).len() ==> r is Some && r->0@
                == visible_items(self@)[self@.selected_index as int],
            self@.selected_index >= visible_items(self@).len() ==> r is None,
    {
        let items = self.get_visible_items();
        if self.selected_index < items.len() {
            Some(items[self.selected_index])
        } else {
            None
        }
    }

    /// Expands the directories on the way to `file_path`, sets the ignore
    /// flags, then selects the file and scrolls it into a view of 20 items.
    /// An error stops where it happened, the tree expanded that far.
    pub fn expand_to_file(&mut self, file_path: &str, fs: &[DirListing]) -> (r: Result<(), TreeError>)
        ensures
            ({
                let (w, res) = expanded_to(old(self)@.root, file_path@, fs@);
                match res {
                    Err(e) => r == Err::<(), TreeError>(e) && final(self)@ == (TreeViewState {
                        root: w,
                        ..old(self)@
                    }),
                    Ok(_) => r is Ok && final(self)@ == select_path(
                        TreeViewState { root: marked(w, old(self)@.gitignore), ..old(self)@ },
                        file_path@,
                    ),
                }
            }),
    {
        match self.root.expand_path(file_path, fs) {
            Err(e) => {
                return Err(e);
            },
            Ok(_) => {},
        }
        self.update_gitignore_status();
        self.restore_selection(file_path);
        Ok(())
    }

    /// Starts a search with an empty query: no results, the first item
    /// selected.
    pub fn start_search(&mut self)
        ensures
            final(self)@ == (TreeViewState {
                is_searching: true,
                search_query: Seq::empty(),
                filtered: Seq::empty(),
                selected_index: 0,
                ..old(self)@
            }),
    {
        self.is_searching = true;
        self.search_query = String::new();
        self.filtered_items = Vec::new();
        self.selected_index = 0;
        assert(self@.search_query =~= Seq::<char>::empty());
        assert(self@.filtered =~= Seq::<(usize, NodeView)>::empty());
    }

    /// Ends the search: no query, no results, the first item selected.
    pub fn stop_search(&mut self)
        ensures
            final(self)@ == (TreeViewState {
                is_searching: false,
                search_query: Seq::empty(),
                filtered: Seq::empty(),
                selected_index: 0,
                ..old(self)@
            }),
    {
        self.is_searching = false;
        self.search_query = String::new();
        self.filtered_items = Vec::new();
        self.selected_index = 0;
        assert(self@.search_query =~= Seq::<char>::empty());
        assert(self@.filtered =~= Seq::<(usize, NodeView)>::empty());
    }

    /// Scrolls so that the selection is within a view of `visible_height`
    /// items; nothing for an empty view.
    pub fn update_scroll(&mut self, visible_height: usize)
        ensures
            visible_height == 0 ==> final(self)@ == old(self)@,
            visible_height > 0 ==> final(self)@ == (TreeViewState {
                scroll_offset: scrolled_into(
                    old(self)@.selected_index,
                    old(self)@.scroll_offset,
                    visible_height,
                ),
                ..old(self)@
            }),
    {
        if visible_height == 0 {
            return;
        }
        if self.selected_index < self.scroll_offset {
            self.scroll_offset = self.selected_index;
        } else if self.selected_index - self.scroll_offset >= visible_height {
            self.scroll_offset = self.selected_index.saturating_sub(visible_height - 1);
        }
    }

    /// Speeds up scrolling while scrolls follow each other within 150 ms.
    fn update_scroll_acceleration(&mut self, now_ms: u64)
        ensures
            final(self)@ == (TreeViewState {
                scroll_acceleration: accel_after(
                    old(self)@.scroll_acceleration,
                    old(self)@.last_scroll_time,
                    now_ms,
                ),
                last_scroll_time: Some(now_ms),
                ..old(self)@
            }),
    {
        self.scroll_acceleration = next_acceleration(
            self.scroll_acceleration,
            self.last_scroll_time,
            now_ms,
        );
        self.last_scroll_time = Some(now_ms);
    }

    /// Scrolls up by `base_amount` times the scroll speed, stopping at the
    /// top; `now_ms` is the time of the scroll in milliseconds.
    pub fn scroll_up(&mut self, base_amount: usize, now_ms: u64)
        ensures
            ({
                let accel = accel_after(
                    old(self)@.scroll_acceleration,
                    old(self)@.last_scroll_time,
                    now_ms,
                );
                final(self)@ == (TreeViewState {
                    scroll_acceleration: accel,
                    last_scroll_time: Some(now_ms),
                    scroll_offset: sat_sub(
                        old(self)@.scroll_offset as int,
                        sat_mul(base_amount, accel) as int,
                    ) as usize,
                    ..old(self)@
                })
            }),
    {
        self.update_scroll_acceleration(now_ms);
        let scroll_amount = mul_saturating(base_amount, self.scroll_acceleration);
        self.scroll_offset = self.scroll_offset.saturating_sub(scroll_amount);
    }

    /// Scrolls down by `base_amount` times the scroll speed, stopping where
    /// the last item reaches the bottom of a view of `visible_height` items.
    pub fn scroll_down(&mut self, base_amount: usize, visible_height: usize, now_ms: u64)
        ensures
            ({
                let accel = accel_after(
                    old(self)@.scroll_acceleration,
                    old(self)@.last_scroll_time,
                    now_ms,
                );
                let max_scroll = sat_sub(visible_items(old(self)@).len() as int, visible_height as int);
                let target = old(self)@.scroll_offset + sat_mul(base_amount, accel);
                final(self)@ == (TreeViewState {
                    scroll_acceleration: accel,
                    last_scroll_time: Some(now_ms),
                    scroll_offset: (if target < max_scroll {
                        target
                    } else {
                        max_scroll
                    }) as usize,
                    ..old(self)@
                })
            }),
    {
        self.update_scroll_acceleration(now_ms);
        let scroll_amount = mul_saturating(base_amount, self.scroll_acceleration);
        let total = self.get_visible_items().len();
        let max_scroll = total.saturating_sub(visible_height);
        if self.scroll_offset >= max_scroll || scroll_amount >= max_scroll - self.scroll_offset {
            self.scroll_offset = max_scroll;
        } else {
            self.scroll_offset = self.scroll_offset + scroll_amount;
        }
    }

    /// Sets the width of the panel.
    pub fn resize(&mut self, new_width: u16)
        ensures
            final(self)@ == (TreeViewState { width: new_width, ..old(self)@ }),
    {
        self.width = new_width;
    }

    /// Scrolls to `new_offset`, where a click on the scrollbar of a view of
    /// `visible_height` items points, and keeps the selection within the
    /// view; nothing when all items fit.
    pub fn handle_scrollbar_click(&mut self, visible_height: usize, new_offset: usize)
        requires
            visible_items(old(self)@).len() > visible_height ==> new_offset
                <= visible_items(old(self)@).len() - visible_height && new_offset + visible_height
                > 0,
        ensures
            ({
                let total = visible_items(old(self)@).len();
                let sel = old(self)@.selected_index;
                if total <= visible_height {
                    final(self)@ == old(self)@
                } else {
                    let s1: int = if sel < new_offset {
                        new_offset as int
                    } else if sel >= new_offset + visible_height {
                        new_offset + visible_height - 1
                    } else {
                        sel as int
                    };
                    final(self)@ == (TreeViewState {
                        scroll_offset: new_offset,
                        selected_index: (if s1 < total - 1 {
                            s1
                        } else {
                            total - 1
                        }) as usize,
                        ..old(self)@
                    })
                }
            }),
    {
        let total_items = self.get_visible_items().len();
        if total_items <= visible_height {
            return;
        }
        self.scroll_offset = new_offset;
        if self.selected_index < self.scroll_offset {
            self.selected_index = self.scroll_offset;
        } else if self.selected_index - self.scroll_offset >= visible_height {
            self.selected_index = self.scroll_offset + visible_height - 1;
        }
        let last = total_items - 1;
        if self.selected_index > last {
            self.selected_index = last;
        }
    }

    /// Puts the selected item on the clipboard, to be copied.
    pub fn copy_selected(&mut self)
        ensures
            ({
                let items = visible_items(old(self)@);
                let sel = old(self)@.selected_index;
                if sel < items.len() {
                    final(self)@ == (TreeViewState {
                        clipboard: Some((items[sel as int].path, false)),
                        ..old(self)@
                    })
                } else {
                    final(self)@ == old(self)@
                }
            }),
    {
        let path = match self.get_selected_item() {
            Some(item) => Some(item.path.clone()),
            None => None,
        };
        match path {
            Some(path) => {
                self.clipboard = Some(ClipboardEntry { path, is_cut: false });
            },
            None => {},
        }
    }

    /// Puts the selected item on the clipboard, to be moved.
    pub fn cut_selected(&mut self)
        ensures
            ({
                let items = visible_items(old(self)@);
                let sel = old(self)@.selected_index;
                if sel < items.len() {
                    final(self)@ == (TreeViewState {
                        clipboard: Some((items[sel as int].path, true)),
                        ..old(self)@
                    })
                } else {
                    final(self)@ == old(self)@
                }
            }),
    {
        let path = match self.get_selected_item() {
            Some(item) => Some(item.path.clone()),
            None => None,
        };
        match path {
            Some(path) => {
                self.clipboard = Some(ClipboardEntry { path, is_cut: true });
            },
            None => {},
        }
    }

    /// Whether something is on the clipboard.
    pub fn has_clipboard(&self) -> (b: bool)
        ensures
            b == self@.clipboard is Some,
    {
        self.clipboard.is_some()
    }

    /// What the clipboard holds, as "Cut: name" or "Copied: name".
    pub fn get_clipboard_info(&self) -> (r: Option<String>)
        ensures
            match self@.clipboard {
                Some((p, cut)) => r is Some && r->0@ == clipboard_info(p, cut),
                None => r is None,
            },
    {
        match &self.clipboard {
            Some(entry) => {
                let cut = "Cut";
                let copied = "Copied";
                let sep = ": ";
                let item = "item";
                proof {
                    reveal_strlit("Cut");
                    reveal_strlit("Copied");
                    reveal_strlit(": ");
                    reveal_strlit("item");
                }
                let mut s = crate::tab::str_to_string(if entry.is_cut {
                    cut
                } else {
                    copied
                });
                let name = match file_name(entry.path.as_str()) {
                    Some(n) => n,
                    None => crate::tab::str_to_string(item),
                };
                push_str(&mut s, sep);
                push_str(&mut s, name.as_str());
                Some(s)
            },
            None => None,
        }
    }

    /// The index of the listed item at `target_path`, if any.
    pub fn find_item_index(&self, target_path: &str) -> (r: Option<usize>)
        ensures
            match first_path_index(visible_items(self@), target_path@, 0) {
                Some(i) => r == Some(i as usize),
                None => r is None,
            },
    {
        let items = self.get_visible_items();
        let mut i: usize = 0;
        while i < items.len()
            invariant
                i <= items@.len(),
                refs_view(items@) == visible_items(self@),
                first_path_index(visible_items(self@), target_path@, 0) == first_path_index(
                    visible_items(self@),
                    target_path@,
                    i as int,
                ),
            decreases items.len() - i,
        {
            assert(refs_view(items@)[i as int] == node_view(*items@[i as int]));
            if path_eq(items[i].path.as_str(), target_path) {
                return Some(i);
            }
            i = i + 1;
        }
        None
    }

    /// Same as `toggle_selected`.
    pub fn toggle_directory(&mut self, fs: &[DirListing]) -> (r: Result<(), TreeError>)
        ensures
            ({
                let items = visible_items(old(self)@);
                let sel = old(self)@.selected_index;
                if sel < items.len() {
                    match toggle_at(old(self)@.root, items[sel as int].path, fs@) {
                        Err(e) => r == Err::<(), TreeError>(e) && final(self)@ == old(self)@,
                        Ok(w) => r is Ok && final(self)@ == (TreeViewState {
                            root: marked(w, old(self)@.gitignore),
                            ..old(self)@
                        }),
                    }
                } else {
                    r is Ok && final(self)@ == old(self)@
                }
            }),
    {
        self.toggle_selected(fs)
    }

    /// Same as `move_selection_up`.
    pub fn move_up(&mut self)
        ensures
            final(self)@ == (TreeViewState {
                selected_index: if old(self)@.selected_index > 0 {
                    (old(self)@.selected_index - 1) as usize
                } else {
                    0
                },
                ..old(self)@
            }),
    {
        self.move_selection_up();
    }

    /// Same as `move_selection_down`.
    pub fn move_down(&mut self)
        ensures
            final(self)@ == (TreeViewState {
                selected_index: if old(self)@.selected_index + 1 < visible_items(old(self)@).len() {
                    (old(self)@.selected_index + 1) as usize
                } else {
                    old(self)@.selected_index
                },
                ..old(self)@
            }),
    {
        self.move_selection_down();
    }
}

/// The scroll speed after a scroll at `now_ms`, as `accel_after` states.
pub fn next_acceleration(accel: usize, last: Option<u64>, now_ms: u64) -> (r: usize)
    ensures
        r == accel_after(accel, last, now_ms),
{
    match last {
        Some(last_time) => {
            let elapsed = if now_ms >= last_time {
                now_ms - last_time
            } else {
                0
            };
            if elapsed < 150 {
                let increment: usize = if accel < 3 {
                    1
                } else if accel < 8 {
                    2
                } else if accel < 15 {
                    3
                } else {
                    4
                };
                if accel < 20 - increment {
                    accel + increment
                } else {
                    20
                }
            } else {
                1
            }
        },
        None => 1,
    }
}

/// `a * b`, or `usize::MAX` when it does not fit.
pub fn mul_saturating(a: usize, b: usize) -> (r: usize)
    ensures
        r == sat_mul(a, b),
{
    match a.checked_mul(b) {
        Some(m) => m,
        None => usize::MAX,
    }
}

/// Appends `t` to `s`.
fn push_str(s: &mut String, t: &str)
    ensures
        final(s)@ == old(s)@ + t@,
{
    let cs = crate::chars::str_to_chars(t);
    let ghost s0 = s@;
    let mut i: usize = 0;
    while i < cs.len()
        invariant
            i <= cs@.len(),
            cs@ == t@,
            s@ == s0 + t@.take(i as int),
        decreases cs.len() - i,
    {
        string_push(s, cs[i]);
        assert(s0 + t@.take(i + 1) =~= (s0 + t@.take(i as int)).push(cs@[i as int]));
        i = i + 1;
    }
    assert(t@.take(cs.len() as int) =~= t@);
}


/// How a row of the file tree is drawn.
#[derive(Debug, Clone, Copy, PartialEq, Eq, Structural)]
pub enum TreeRowStyle {
    /// Selected in the focused panel: white on blue.
    SelectedFocused,
    /// Selected in a panel without focus: white on dark gray.
    Selected,
    /// Ignored by the rules of the repository: dimmed.
    Ignored,
    /// A directory: cyan.
    Directory,
    /// A file: white.
    File,
}

/// A row of the file tree: the columns of indentation (at most the width
/// of the text), the icon when there is room for it, the name as shown
/// and its style. The name is drawn after the icon and a space, as far as
/// the width goes.
pub struct TreeRow {
    pub indent: u16,
    pub icon: Option<&'static str>,
    pub name: String,
    pub style: TreeRowStyle,
}

/// What the file tree panel shows.
pub struct TreeLines {
    /// The search line, while searching.
    pub search: Option<String>,
    /// The rows shown, from the scroll offset on.
    pub rows: Vec<TreeRow>,
    /// Whether a scrollbar is drawn in the last column.
    pub scrollbar: bool,
    /// The columns left for the rows.
    pub content_width: u16,
}

/// The rows as values.
pub open spec fn rows_view(v: Seq<TreeRow>) -> Seq<(u16, Option<Seq<char>>, Seq<char>, TreeRowStyle)> {
    v.map_values(
        |r: TreeRow|
            (
                r.indent,
                match r.icon {
                    Some(i) => Some(i@),
                    None => None,
                },
                r.name@,
                r.style,
            ),
    )
}

/// The columns of indentation of an item at `depth`: two per level
/// below the root's children, at most `cw`.
pub open spec fn row_indent(depth: usize, cw: u16) -> u16 {
    let indent: int = if depth >= 1 {
        2 * (depth - 1)
    } else {
        0
    };
    if indent < cw {
        indent as u16
    } else {
        cw
    }
}

/// The columns left for the name of an item at `depth` in a text `cw`
/// columns wide: after the indentation, the icon (two columns, when it
/// starts within the width) and a space (when it starts within it).
pub open spec fn name_room(depth: usize, cw: u16) -> u16 {
    let x0 = row_indent(depth, cw) as int;
    let x1 = if x0 < cw {
        x0 + 2
    } else {
        x0
    };
    let x2 = if x1 < cw {
        x1 + 1
    } else {
        x1
    };
    if cw >= x2 {
        (cw - x2) as u16
    } else {
        0
    }
}

/// The name as shown in `room` columns: when its length in bytes, taken
/// as a `u16`, is over the room, cut to three bytes less and ended by
/// "...".
pub open spec fn shown_tree_name(name: Seq<char>, room: u16) -> Seq<char> {
    if ((utf8_len(name) as usize) as u16) > room {
        crate::tab_bar_view::cut_at(
            name,
            if room >= 3 {
                room - 3
            } else {
                0
            },
        ) + "..."@
    } else {
        name
    }
}

/// Whether the cut of `shown_tree_name` falls on a char boundary.
pub open spec fn tree_name_ok(name: Seq<char>, room: u16) -> bool {
    ((utf8_len(name) as usize) as u16) > room ==> char_at_byte(
        name,
        if room >= 3 {
            room - 3
        } else {
            0
        },
    ) is Some
}

/// The row of item `n`.
pub open spec fn tree_row(n: NodeView, selected: bool, focused: bool, cw: u16) -> (
    u16,
    Option<Seq<char>>,
    Seq<char>,
    TreeRowStyle,
) {
    let x0 = row_indent(n.depth, cw);
    (
        x0,
        if x0 < cw {
            Some(
                if n.is_dir {
                    if n.is_expanded {
                        "📂"@
                    } else {
                        "📁"@
                    }
                } else {
                    crate::file_icons::file_icon(n.path, false)
                },
            )
        } else {
            None
        },
        shown_tree_name(n.name, name_room(n.depth, cw)),
        if selected {
            if focused {
                TreeRowStyle::SelectedFocused
            } else {
                TreeRowStyle::Selected
            }
        } else if n.is_gitignored {
            TreeRowStyle::Ignored
        } else if n.is_dir {
            TreeRowStyle::Directory
        } else {
            TreeRowStyle::File
        },
    )
}

/// The columns for the rows of a panel `width` wide: one less when the
/// items do not fit in its `height` rows, for the scrollbar.
pub open spec fn tree_content_width(t: TreeViewState, height: u16, width: u16) -> u16 {
    if visible_items(t).len() > height && width >= 1 {
        (width - 1) as u16
    } else if visible_items(t).len() > height {
        0
    } else {
        width
    }
}

/// The items shown: from the scroll offset on, as many as the rows left
/// below the search line allow.
pub open spec fn tree_window(t: TreeViewState, height: u16) -> (int, int) {
    let n = visible_items(t).len() as int;
    let ch: int = if t.is_searching && height >= 1 {
        height - 1
    } else if t.is_searching {
        0
    } else {
        height as int
    };
    let s = t.scroll_offset as int;
    if s >= n {
        (s, s)
    } else if n - s < ch {
        (s, n)
    } else {
        (s, s + ch)
    }
}

/// Whether every name shown can be cut to fit.
pub open spec fn tree_rows_ok(t: TreeViewState, height: u16, width: u16) -> bool {
    let (s, e) = tree_window(t, height);
    let cw = tree_content_width(t, height, width);
    forall|i: int|
        s <= i < e ==> #[trigger] tree_name_ok(
            visible_items(t)[i].name,
            name_room(visible_items(t)[i].depth, cw),
        )
}

/// Whether `l` is what the panel `t` shows in `height` rows of `width`
/// columns.
pub open spec fn tree_lines_of(t: TreeViewState, height: u16, width: u16, l: TreeLines) -> bool {
    let items = visible_items(t);
    let (s, e) = tree_window(t, height);
    let cw = tree_content_width(t, height, width);
    &&& l.scrollbar == (items.len() > height)
    &&& l.content_width == cw
    &&& match l.search {
        Some(q) => t.is_searching && q@ == "Search: "@ + t.search_query + "_"@,
        None => !t.is_searching,
    }
    &&& rows_view(l.rows@) == Seq::new(
        (e - s) as nat,
        |j: int| tree_row(items[s + j], s + j == t.selected_index, t.is_focused, cw),
    )
}

impl TreeView {
    /// What the panel shows in `height` rows of `width` columns (see
    /// `tree_lines_of`).
    pub fn render_rows(&self, height: u16, width: u16) -> (lines: TreeLines)
        requires
            tree_rows_ok(self@, height, width),
        ensures
            tree_lines_of(self@, height, width, lines),
    {
        let items = self.get_visible_items();
        let n = items.len();
        let scrollbar = n > height as usize;
        let cw: u16 = if scrollbar {
            if width >= 1 {
                width - 1
            } else {
                0
            }
        } else {
            width
        };
        let search = if self.is_searching {
            let mut q = String::new();
            push_str(&mut q, "Search: ");
            push_str(&mut q, self.search_query.as_str());
            push_str(&mut q, "_");
            assert(q@ =~= "Search: "@ + self@.search_query + "_"@);
            Some(q)
        } else {
            None
        };
        let ch: usize = if self.is_searching {
            if height >= 1 {
                (height - 1) as usize
            } else {
                0
            }
        } else {
            height as usize
        };
        let start = self.scroll_offset;
        let end = if start >= n {
            start
        } else if n - start < ch {
            n
        } else {
            start + ch
        };
        let ghost vis = visible_items(self@);
        let mut rows: Vec<TreeRow> = Vec::new();
        let mut i: usize = start;
        while i < end
            invariant
                start <= i <= end,
                end <= n || end == start,
                n == items@.len(),
                refs_view(items@) == vis,
                vis == visible_items(self@),
                (start as int, end as int) == tree_window(self@, height),
                cw == tree_content_width(self@, height, width),
                tree_rows_ok(self@, height, width),
                rows_view(rows@) == Seq::new(
                    (i - start) as nat,
                    |j: int|
                        tree_row(
                            vis[start + j],
                            start + j == self@.selected_index,
                            self@.is_focused,
                            cw,
                        ),
                ),
            decreases end - i,
        {
            let item = items[i];
            assert(node_view(*item) == vis[i as int]);
            assert(tree_name_ok(vis[i as int].name, name_room(vis[i as int].depth, cw)));
            let row = tree_row_of(item, i == self.selected_index, self.is_focused, cw);
            let ghost before = rows_view(rows@);
            let ghost rv = tree_row(vis[i as int], i == self@.selected_index, self@.is_focused, cw);
            assert(rows_view(seq![row])[0] == rv);
            rows.push(row);
            assert(rows_view(rows@) =~= before.push(rv));
            assert(rows_view(rows@) =~= Seq::new(
                (i + 1 - start) as nat,
                |j: int|
                    tree_row(vis[start + j], start + j == self@.selected_index, self@.is_focused, cw),
            ));
            i = i + 1;
        }
        TreeLines { search, rows, scrollbar, content_width: cw }
    }
}

/// The columns left for the name of an item at `depth` (see `name_room`).
fn room_for(depth: usize, cw: u16) -> (room: u16)
    ensures
        room == name_room(depth, cw),
{
    let levels: usize = if depth >= 1 {
        depth - 1
    } else {
        0
    };
    let x0: u16 = if levels >= cw as usize {
        cw
    } else if 2 * levels < cw as usize {
        (2 * levels) as u16
    } else {
        cw
    };
    let x1: u32 = if x0 < cw {
        x0 as u32 + 2
    } else {
        x0 as u32
    };
    let x2: u32 = if x1 < cw as u32 {
        x1 + 1
    } else {
        x1
    };
    if cw as u32 >= x2 {
        (cw as u32 - x2) as u16
    } else {
        0
    }
}

/// Whether the name of `item` can be cut to fit (see `tree_name_ok`).
fn row_name_ok(item: &TreeNode, cw: u16) -> (b: bool)
    ensures
        b == tree_name_ok(item.name@, name_room(item.depth, cw)),
{
    let room = room_for(item.depth, cw);
    let nlen = item.name.as_str().len();
    if (nlen as u16) > room {
        let chars = str_to_chars(item.name.as_str());
        let cut: u16 = if room >= 3 {
            room - 3
        } else {
            0
        };
        crate::encoding::byte_to_char(&chars, cut as usize).is_some()
    } else {
        true
    }
}

impl TreeView {
    /// What the panel shows, as `render_rows` gives it, when every name
    /// shown can be cut to fit; `None` when one cannot.
    pub fn render_rows_checked(&self, height: u16, width: u16) -> (r: Option<TreeLines>)
        ensures
            r is Some <==> tree_rows_ok(self@, height, width),
            r matches Some(lines) ==> tree_lines_of(self@, height, width, lines),
    {
        let items = self.get_visible_items();
        let n = items.len();
        let scrollbar = n > height as usize;
        let cw: u16 = if scrollbar {
            if width >= 1 {
                width - 1
            } else {
                0
            }
        } else {
            width
        };
        let ch: usize = if self.is_searching {
            if height >= 1 {
                (height - 1) as usize
            } else {
                0
            }
        } else {
            height as usize
        };
        let start = self.scroll_offset;
        let end = if start >= n {
            start
        } else if n - start < ch {
            n
        } else {
            start + ch
        };
        let ghost vis = visible_items(self@);
        let mut i: usize = start;
        while i < end
            invariant
                start <= i <= end,
                end <= n || end == start,
                n == items@.len(),
                refs_view(items@) == vis,
                vis == visible_items(self@),
                (start as int, end as int) == tree_window(self@, height),
                cw == tree_content_width(self@, height, width),
                forall|j: int|
                    start <= j < i ==> #[trigger] tree_name_ok(
                        vis[j].name,
                        name_room(vis[j].depth, cw),
                    ),
            decreases end - i,
        {
            let item = items[i];
            assert(node_view(*item) == vis[i as int]);
            if !row_name_ok(item, cw) {
                assert(!tree_name_ok(vis[i as int].name, name_room(vis[i as int].depth, cw)));
                assert(!tree_rows_ok(self@, height, width));
                return None;
            }
            i = i + 1;
        }
        Some(self.render_rows(height, width))
    }
}

/// The row of `item`.
fn tree_row_of(item: &TreeNode, selected: bool, focused: bool, cw: u16) -> (r: TreeRow)
    requires
        tree_name_ok(item.name@, name_room(item.depth, cw)),
    ensures
        rows_view(seq![r]) == seq![tree_row(node_view(*item), selected, focused, cw)],
{
    let room = room_for(item.depth, cw);
    let levels: usize = if item.depth >= 1 {
        item.depth - 1
    } else {
        0
    };
    let x0: u16 = if levels >= cw as usize {
        cw
    } else if 2 * levels < cw as usize {
        (2 * levels) as u16
    } else {
        cw
    };
    assert(room == name_room(item.depth, cw));
    let icon = if x0 < cw {
        Some(
            if item.is_dir {
                crate::file_icons::get_directory_icon(item.is_expanded)
            } else {
                crate::file_icons::get_file_icon(item.path.as_str(), false)
            },
        )
    } else {
        None
    };
    let nlen = item.name.as_str().len();
    let name = if (nlen as u16) > room {
        let chars = str_to_chars(item.name.as_str());
        let cut: u16 = if room >= 3 {
            room - 3
        } else {
            0
        };
        match crate::encoding::byte_to_char(&chars, cut as usize) {
            Some(k) => {
                let mut v = crate::strings::subrange_vec(&chars, 0, k);
                assert(chars@.subrange(0, k as int) =~= chars@.take(k as int));
                let mut s = crate::chars::chars_to_string(&v);
                push_str(&mut s, "...");
                s
            },
            None => item.name.clone(),
        }
    } else {
        item.name.clone()
    };
    let style = if selected {
        if focused {
            TreeRowStyle::SelectedFocused
        } else {
            TreeRowStyle::Selected
        }
    } else if item.is_gitignored {
        TreeRowStyle::Ignored
    } else if item.is_dir {
        TreeRowStyle::Directory
    } else {
        TreeRowStyle::File
    };
    let r = TreeRow { indent: x0, icon, name, style };
    assert(rows_view(seq![r]) =~= seq![tree_row(node_view(*item), selected, focused, cw)]);
    r
}


/// The name a pasted copy takes when its own is taken: the stem,
/// "_copy_" and the counter, then the extension after a dot when there is
/// one.
pub open spec fn copy_name_of(stem: Seq<char>, ext: Option<Seq<char>>, n: nat) -> Seq<char> {
    stem + "_copy_"@ + crate::messages::decimal(n) + match ext {
        Some(e) => "."@ + e,
        None => Seq::empty(),
    }
}

/// The name a pasted copy takes when its own is taken (see `copy_name_of`).
pub fn copy_name(stem: &str, ext: Option<&str>, counter: usize) -> (s: String)
    ensures
        s@ == copy_name_of(
            stem@,
            match ext {
                Some(e) => Some(e@),
                None => None,
            },
            counter as nat,
        ),
{
    let mut s = crate::tab::str_to_string(stem);
    push_str(&mut s, "_copy_");
    let d = crate::messages::decimal_string(counter);
    push_str(&mut s, d.as_str());
    match ext {
        Some(e) => {
            push_str(&mut s, ".");
            push_str(&mut s, e);
        },
        None => {},
    }
    s
}

/// The directory a paste goes to: the selected directory, or the one that
/// holds the selected file (the root's when it has none), or the root when
/// nothing is selected.
pub open spec fn paste_dir(t: TreeViewState) -> Seq<char> {
    let items = visible_items(t);
    if t.selected_index < items.len() {
        let n = items[t.selected_index as int];
        if n.is_dir {
            n.path
        } else {
            match crate::paths::parent_of(n.path) {
                Some(p) => p,
                None => t.root.path,
            }
        }
    } else {
        t.root.path
    }
}

impl TreeView {
    /// The directory a paste goes to (see `paste_dir`).
    pub fn paste_target_dir(&self) -> (d: String)
        ensures
            d@ == paste_dir(self@),
    {
        match self.get_selected_item() {
            Some(item) => {
                if item.is_dir {
                    item.path.clone()
                } else {
                    match crate::paths::parent(item.path.as_str()) {
                        Some(p) => p,
                        None => self.root.path.clone(),
                    }
                }
            },
            None => self.root.path.clone(),
        }
    }

    /// Finishes a paste of the clipboard's entry to `target`: when it
    /// failed, tells why; when it worked, forgets a cut entry, reads the
    /// tree again and tells where the entry went.
    pub fn paste_done(
        &mut self,
        target: &str,
        error: Option<String>,
        root_is_dir: bool,
        fs: &[DirListing],
    ) -> (r: Result<String, String>)
        ensures
            match (old(self)@.clipboard, error) {
                (None, _) => r is Err && r->Err_0@ == "Nothing to paste"@ && final(self)@ == old(self)@,
                (Some((_, cut)), Some(e)) => r is Err && r->Err_0@ == e@ && final(self)@ == old(self)@,
                (Some((_, cut)), None) => {
                    let t = TreeViewState {
                        clipboard: if cut {
                            None
                        } else {
                            old(self)@.clipboard
                        },
                        ..old(self)@
                    };
                    &&& final(self)@ == refreshed(t, root_is_dir, fs@)
                    &&& r is Ok
                    &&& r->Ok_0@ == (if cut {
                        "Moved to "@
                    } else {
                        "Copied to "@
                    }) + target@
                },
            },
    {
        let cut = match &self.clipboard {
            Some(entry) => entry.is_cut,
            None => {
                return Err(crate::tab::str_to_string("Nothing to paste"));
            },
        };
        match error {
            Some(e) => Err(e),
            None => {
                if cut {
                    self.clipboard = None;
                }
                self.refresh(root_is_dir, fs);
                let mut m = if cut {
                    crate::tab::str_to_string("Moved to ")
                } else {
                    crate::tab::str_to_string("Copied to ")
                };
                push_str(&mut m, target);
                Ok(m)
            },
        }
    }
}

} // verus!
