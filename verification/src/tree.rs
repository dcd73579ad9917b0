//! The nodes of the file tree: what a directory listing turns into, in
//! which order, and how a node expands and collapses.
//!
//! Reading the disk is the application's part: it hands in the listings it
//! read as `DirListing`s, and a directory whose listing is missing counts as
//! unreadable.
use vstd::prelude::*;
use crate::paths::{file_name, file_name_of, path_starts_with, paths_equal, starts_with_path, path_eq};
use crate::chars::{lowercase, to_lowercase, str_to_chars};
use crate::strings::chars_eq;

verus! {

/// One entry of a directory listing: its path and whether it is a directory.
pub struct DirEntry {
    pub path: String,
    pub is_dir: bool,
}

/// The entries of the directory `dir`, in the order the disk gave them.
pub struct DirListing {
    pub dir: String,
    pub entries: Vec<DirEntry>,
}

/// Why a node could not be expanded.
#[derive(Clone, Copy, Debug, PartialEq, Eq, Structural)]
pub enum TreeError {
    /// The directory could not be read: no listing of it was handed in.
    ReadFailed,
    /// The node is as deep as `usize` allows; its children would be deeper.
    TooDeep,
}

/// A file or directory of the tree.
pub struct TreeNode {
    pub path: String,
    pub name: String,
    pub is_dir: bool,
    pub is_expanded: bool,
    pub children: Vec<TreeNode>,
    pub depth: usize,
    pub is_gitignored: bool,
}

/// A node as a mathematical value.
pub struct NodeView {
    pub path: Seq<char>,
    pub name: Seq<char>,
    pub is_dir: bool,
    pub is_expanded: bool,
    pub children: Seq<NodeView>,
    pub depth: usize,
    pub is_gitignored: bool,
}

/// The view of a node.
pub open spec fn node_view(n: TreeNode) -> NodeView
    decreases n,
{
    NodeView {
        path: n.path@,
        name: n.name@,
        is_dir: n.is_dir,
        is_expanded: n.is_expanded,
        children: nodes_view(n.children@),
        depth: n.depth,
        is_gitignored: n.is_gitignored,
    }
}

/// The views of a list of nodes.
pub open spec fn nodes_view(ns: Seq<TreeNode>) -> Seq<NodeView>
    decreases ns,
{
    if ns.len() == 0 {
        Seq::empty()
    } else {
        seq![node_view(ns[0])] + nodes_view(ns.subrange(1, ns.len() as int))
    }
}

impl View for TreeNode {
    type V = NodeView;

    open spec fn view(&self) -> NodeView {
        node_view(*self)
    }
}

pub proof fn lemma_nodes_view(ns: Seq<TreeNode>)
    ensures
        nodes_view(ns).len() == ns.len(),
        forall|i: int| 0 <= i < ns.len() ==> #[trigger] nodes_view(ns)[i] == node_view(ns[i]),
    decreases ns.len(),
{
    if ns.len() > 0 {
        lemma_nodes_view(ns.subrange(1, ns.len() as int));
    }
}

/// The name of the node for `path`: its file name, or empty.
pub open spec fn node_name(path: Seq<char>) -> Seq<char> {
    match file_name_of(path) {
        Some(n) => n,
        None => Seq::empty(),
    }
}

/// A node just made for `path`: collapsed, without children, not ignored.
pub open spec fn fresh_view(path: Seq<char>, is_dir: bool, depth: usize) -> NodeView {
    NodeView {
        path,
        name: node_name(path),
        is_dir,
        is_expanded: false,
        children: Seq::empty(),
        depth,
        is_gitignored: false,
    }
}

/// Whether `a` comes before `b` char by char (by code point, which is also
/// the byte order of their UTF-8 forms).
pub open spec fn chars_lt(a: Seq<char>, b: Seq<char>) -> bool
    decreases a.len(),
{
    if a.len() == 0 {
        b.len() > 0
    } else if b.len() == 0 {
        false
    } else if a[0] != b[0] {
        (a[0] as u32) < (b[0] as u32)
    } else {
        chars_lt(a.drop_first(), b.drop_first())
    }
}

/// The order of the children of a directory: directories first, then by
/// lowercased name.
pub open spec fn sorts_before(a: NodeView, b: NodeView) -> bool {
    (a.is_dir && !b.is_dir) || (a.is_dir == b.is_dir && chars_lt(lowercase(a.name), lowercase(b.name)))
}

/// Where `x` goes in the sorted `s`, searching from `i`: before the first
/// node it sorts before, so after the nodes equal to it.
pub open spec fn insert_pos(s: Seq<NodeView>, x: NodeView, i: int) -> int
    decreases s.len() - i,
{
    if i < 0 || i >= s.len() {
        s.len() as int
    } else if sorts_before(x, s[i]) {
        i
    } else {
        insert_pos(s, x, i + 1)
    }
}

/// `s` sorted by `sorts_before`, nodes that are equal in that order kept in
/// the order they came in.
pub open spec fn sort_views(s: Seq<NodeView>) -> Seq<NodeView>
    decreases s.len(),
{
    if s.len() == 0 {
        s
    } else {
        let r = sort_views(s.drop_last());
        r.insert(insert_pos(r, s.last(), 0), s.last())
    }
}

/// The path and kind of each entry.
pub open spec fn entry_views(es: Seq<DirEntry>) -> Seq<(Seq<char>, bool)> {
    es.map_values(|e: DirEntry| (e.path@, e.is_dir))
}

/// Fresh nodes of depth `depth` for the entries `es`.
pub open spec fn fresh_views(es: Seq<(Seq<char>, bool)>, depth: usize) -> Seq<NodeView> {
    es.map_values(|e: (Seq<char>, bool)| fresh_view(e.0, e.1, depth))
}

/// The entries of the first listing of `dir`, if any.
pub open spec fn listing_for(ls: Seq<DirListing>, dir: Seq<char>) -> Option<Seq<DirEntry>>
    decreases ls.len(),
{
    if ls.len() == 0 {
        None
    } else if ls[0].dir@ == dir {
        Some(ls[0].entries@)
    } else {
        listing_for(ls.drop_first(), dir)
    }
}

/// The node after loading its children from the listings: a file, or a
/// directory that has children already, is left as it is; otherwise the
/// listing of its path gives the children, sorted.
pub open spec fn loaded(v: NodeView, fs: Seq<DirListing>) -> Result<NodeView, TreeError> {
    if !v.is_dir || v.children.len() > 0 {
        Ok(v)
    } else if v.depth == usize::MAX {
        Err(TreeError::TooDeep)
    } else {
        match listing_for(fs, v.path) {
            None => Err(TreeError::ReadFailed),
            Some(es) => Ok(
                NodeView {
                    children: sort_views(fresh_views(entry_views(es), (v.depth + 1) as usize)),
                    ..v
                },
            ),
        }
    }
}

/// The node after `toggle_expand`: a directory collapses, or loads its
/// children and expands; a file is left as it is.
pub open spec fn toggled(v: NodeView, fs: Seq<DirListing>) -> Result<NodeView, TreeError> {
    if !v.is_dir {
        Ok(v)
    } else if v.is_expanded {
        Ok(NodeView { is_expanded: false, ..v })
    } else {
        match loaded(v, fs) {
            Err(e) => Err(e),
            Ok(w) => Ok(NodeView { is_expanded: true, ..w }),
        }
    }
}

/// The number of nodes of a tree.
pub open spec fn size(v: NodeView) -> nat
    decreases v,
{
    1 + size_list(v.children)
}

/// The number of nodes of a list of trees.
pub open spec fn size_list(vs: Seq<NodeView>) -> nat
    decreases vs,
{
    if vs.len() == 0 {
        0
    } else {
        size(vs[0]) + size_list(vs.subrange(1, vs.len() as int))
    }
}

pub proof fn lemma_size_list_child(vs: Seq<NodeView>, i: int)
    requires
        0 <= i < vs.len(),
    ensures
        size(vs[i]) <= size_list(vs),
    decreases vs.len(),
{
    if i > 0 {
        lemma_size_list_child(vs.subrange(1, vs.len() as int), i - 1);
    }
}

/// The tree `v` after expanding the directories on the way to `target`,
/// with whether `target` was reached; an error stops the walk where it
/// happened.
pub open spec fn expanded_to(v: NodeView, target: Seq<char>, fs: Seq<DirListing>) -> (
    NodeView,
    Result<bool, TreeError>,
)
    decreases size(v), usize::MAX - v.depth, 1int, 0int,
{
    if !(path_starts_with(target, v.path) && v.is_dir) {
        (v, Ok(false))
    } else {
        let w0 = if !v.is_expanded {
            loaded(v, fs)
        } else {
            Ok(v)
        };
        match w0 {
            Err(e) => (v, Err(e)),
            Ok(w) => {
                let w1 = NodeView { is_expanded: true, ..w };
                let (w2, r) = expand_children(w1, 0, target, fs, size(v), v.depth as int);
                match r {
                    Ok(false) => (w2, Ok(paths_equal(v.path, target))),
                    _ => (w2, r),
                }
            },
        }
    }
}

/// The children of `w` from index `i` on, expanded towards `target` one
/// after the other until one reaches it or fails. `sz` and `d` are the size
/// and depth of the node before its children were loaded: each child is
/// smaller, or one level deeper.
pub open spec fn expand_children(
    w: NodeView,
    i: int,
    target: Seq<char>,
    fs: Seq<DirListing>,
    sz: nat,
    d: int,
) -> (NodeView, Result<bool, TreeError>)
    decreases sz, usize::MAX - d, 0int, w.children.len() - i,
{
    if i < 0 || i >= w.children.len() {
        (w, Ok(false))
    } else {
        let c = w.children[i];
        if size(c) < sz || (size(c) == sz && c.depth > d && d < usize::MAX) {
            let (c2, r) = expanded_to(c, target, fs);
            let w2 = NodeView { children: w.children.update(i, c2), ..w };
            match r {
                Ok(false) => expand_children(w2, i + 1, target, fs, sz, d),
                _ => (w2, r),
            }
        } else {
            (w, Ok(false))
        }
    }
}

pub proof fn lemma_insert_pos_bounds(s: Seq<NodeView>, x: NodeView, i: int)
    requires
        0 <= i <= s.len(),
    ensures
        i <= insert_pos(s, x, i) <= s.len(),
    decreases s.len() - i,
{
    if i < s.len() && !sorts_before(x, s[i]) {
        lemma_insert_pos_bounds(s, x, i + 1);
    }
}

/// Sorting fresh nodes of one depth gives fresh nodes of that depth.
pub proof fn lemma_sort_views_fresh(s: Seq<NodeView>, d: usize)
    requires
        forall|i: int| 0 <= i < s.len() ==> (#[trigger] s[i]).children.len() == 0 && s[i].depth == d,
    ensures
        sort_views(s).len() == s.len(),
        forall|i: int|
            0 <= i < s.len() ==> (#[trigger] sort_views(s)[i]).children.len() == 0 && sort_views(
                s,
            )[i].depth == d,
    decreases s.len(),
{
    if s.len() > 0 {
        let r = sort_views(s.drop_last());
        lemma_sort_views_fresh(s.drop_last(), d);
        lemma_insert_pos_bounds(r, s.last(), 0);
        let p = insert_pos(r, s.last(), 0);
        assert forall|i: int| 0 <= i < s.len() implies (#[trigger] sort_views(s)[i]).children.len()
            == 0 && sort_views(s)[i].depth == d by {
            if i < p {
                assert(sort_views(s)[i] == r[i]);
            } else if i > p {
                assert(sort_views(s)[i] == r[i - 1]);
            }
        }
    }
}

/// Whether `s` is sorted by `sorts_before`.
pub open spec fn sorted_views(s: Seq<NodeView>) -> bool {
    forall|i: int, j: int| 0 <= i < j < s.len() ==> !sorts_before(#[trigger] s[j], #[trigger] s[i])
}

/// Whether `a` comes before `b` as chars, by code point.
fn chars_less(a: &Vec<char>, b: &Vec<char>) -> (r: bool)
    ensures
        r == chars_lt(a@, b@),
{
    let mut i: usize = 0;
    assert(a@.skip(0) =~= a@);
    assert(b@.skip(0) =~= b@);
    while i < a.len() && i < b.len() && a[i] == b[i]
        invariant
            i <= a@.len(),
            i <= b@.len(),
            chars_lt(a@, b@) == chars_lt(a@.skip(i as int), b@.skip(i as int)),
        decreases a.len() - i,
    {
        assert(a@.skip(i as int).drop_first() =~= a@.skip(i + 1));
        assert(b@.skip(i as int).drop_first() =~= b@.skip(i + 1));
        i = i + 1;
    }
    if i == a.len() {
        assert(a@.skip(i as int).len() == 0);
        i < b.len()
    } else if i == b.len() {
        assert(b@.skip(i as int).len() == 0);
        false
    } else {
        assert(a@.skip(i as int)[0] == a@[i as int]);
        assert(b@.skip(i as int)[0] == b@[i as int]);
        (a[i] as u32) < (b[i] as u32)
    }
}

/// Where `n` goes among the sorted `out`: before the first node it sorts
/// before. `keys` holds their lowercased names, `key` that of `n`.
fn find_insert_pos(out: &Vec<TreeNode>, keys: &Vec<Vec<char>>, n: &TreeNode, key: &Vec<char>) -> (pos: usize)
    requires
        keys@.len() == out@.len(),
        forall|j: int| 0 <= j < out@.len() ==> #[trigger] keys@[j]@ == lowercase(out@[j].name@),
        key@ == lowercase(n.name@),
    ensures
        pos == insert_pos(nodes_view(out@), node_view(*n), 0),
        pos <= out@.len(),
{
    let ghost sorted = nodes_view(out@);
    let ghost x = node_view(*n);
    proof {
        lemma_nodes_view(out@);
    }
    let mut pos: usize = 0;
    while pos < out.len()
        invariant
            pos <= out@.len(),
            sorted == nodes_view(out@),
            sorted.len() == out@.len(),
            keys@.len() == out@.len(),
            forall|j: int| 0 <= j < out@.len() ==> #[trigger] keys@[j]@ == lowercase(out@[j].name@),
            forall|j: int| 0 <= j < out@.len() ==> #[trigger] sorted[j] == node_view(out@[j]),
            key@ == lowercase(n.name@),
            x == node_view(*n),
            insert_pos(sorted, x, 0) == insert_pos(sorted, x, pos as int),
        decreases out.len() - pos,
    {
        let before = (n.is_dir && !out[pos].is_dir) || (n.is_dir == out[pos].is_dir && chars_less(
            key,
            &keys[pos],
        ));
        assert(sorted[pos as int] == node_view(out@[pos as int]));
        if before {
            return pos;
        }
        pos = pos + 1;
    }
    pos
}

/// Whether `a` comes before `b` as chars, by code point.
pub fn chars_less_pub(a: &Vec<char>, b: &Vec<char>) -> (r: bool)
    ensures
        r == chars_lt(a@, b@),
{
    chars_less(a, b)
}

/// Sorts fresh nodes by `sorts_before`, equal ones kept in order.
fn sort_nodes(nodes: Vec<TreeNode>) -> (r: Vec<TreeNode>)
    ensures
        nodes_view(r@) == sort_views(nodes_view(nodes@)),
{
    let ghost input = nodes_view(nodes@);
    proof {
        lemma_nodes_view(nodes@);
    }
    let mut out: Vec<TreeNode> = Vec::new();
    let mut keys: Vec<Vec<char>> = Vec::new();
    let mut rest = nodes;
    let ghost rest0 = rest@;
    let total = rest.len();
    let mut k: usize = 0;
    assert(input.take(0) =~= Seq::<NodeView>::empty());
    assert(sort_views(input.take(0)) =~= Seq::<NodeView>::empty());
    while rest.len() > 0
        invariant
            k + rest@.len() == total,
            total == input.len(),
            input == nodes_view(rest0),
            rest@ =~= rest0.skip(k as int),
            nodes_view(out@) == sort_views(input.take(k as int)),
            keys@.len() == out@.len(),
            forall|j: int| 0 <= j < out@.len() ==> #[trigger] keys@[j]@ == lowercase(out@[j].name@),
        decreases rest.len(),
    {
        let n = rest.remove(0);
        proof {
            lemma_nodes_view(rest0);
            lemma_nodes_view(out@);
            assert(n == rest0[k as int]);
            assert(rest@ =~= rest0.skip(k + 1));
        }
        let key = str_to_chars(to_lowercase(n.name.as_str()).as_str());
        let ghost sorted = nodes_view(out@);
        let ghost x = node_view(n);
        let pos = find_insert_pos(&out, &keys, &n, &key);
        proof {
            assert(input.take(k + 1).drop_last() =~= input.take(k as int));
            assert(input.take(k + 1).last() == x);
        }
        out.insert(pos, n);
        keys.insert(pos, key);
        proof {
            lemma_nodes_view(out@);
            assert(nodes_view(out@) =~= sorted.insert(pos as int, x));
        }
        k = k + 1;
    }
    assert(input.take(total as int) =~= input);
    out
}

impl TreeNode {
    /// A node for `path` at `depth`, collapsed and without children; its
    /// name is the file name of the path (empty when there is none).
    pub fn new(path: String, depth: usize, is_dir: bool) -> (n: Self)
        ensures
            n@ == fresh_view(path@, is_dir, depth),
    {
        let name = match file_name(path.as_str()) {
            Some(n) => n,
            None => String::new(),
        };
        let n = TreeNode {
            path,
            name,
            is_dir,
            is_expanded: false,
            children: Vec::new(),
            depth,
            is_gitignored: false,
        };
        assert(nodes_view(n.children@) =~= Seq::<NodeView>::empty());
        n
    }

    /// Loads the children of a directory that has none yet from its
    /// listing, directories first, then by lowercased name.
    pub fn load_children(&mut self, fs: &[DirListing]) -> (r: Result<(), TreeError>)
        ensures
            match loaded(old(self)@, fs@) {
                Ok(w) => r is Ok && final(self)@ == w,
                Err(e) => r == Err::<(), TreeError>(e) && final(self)@ == old(self)@,
            },
    {
        if !self.is_dir || self.children.len() > 0 {
            return Ok(());
        }
        if self.depth == usize::MAX {
            return Err(TreeError::TooDeep);
        }
        let entries = match find_listing(fs, self.path.as_str()) {
            Some(es) => es,
            None => {
                return Err(TreeError::ReadFailed);
            },
        };
        let depth = self.depth + 1;
        let mut nodes: Vec<TreeNode> = Vec::new();
        let mut i: usize = 0;
        while i < entries.len()
            invariant
                i <= entries@.len(),
                nodes@.len() == i,
                forall|j: int| 0 <= j < i ==> #[trigger] node_view(nodes@[j]) == fresh_view(
                    entries@[j].path@,
                    entries@[j].is_dir,
                    depth,
                ),
            decreases entries.len() - i,
        {
            let e = &entries[i];
            let n = TreeNode::new(e.path.clone(), depth, e.is_dir);
            nodes.push(n);
            i = i + 1;
        }
        proof {
            lemma_nodes_view(nodes@);
            assert(nodes_view(nodes@) =~= fresh_views(entry_views(entries@), depth));
        }
        self.children = sort_nodes(nodes);
        Ok(())
    }

    /// Collapses an expanded directory, or loads its children and expands
    /// it; a file is left as it is.
    pub fn toggle_expand(&mut self, fs: &[DirListing]) -> (r: Result<(), TreeError>)
        ensures
            match toggled(old(self)@, fs@) {
                Ok(w) => r is Ok && final(self)@ == w,
                Err(e) => r == Err::<(), TreeError>(e) && final(self)@ == old(self)@,
            },
    {
        if !self.is_dir {
            return Ok(());
        }
        if self.is_expanded {
            self.is_expanded = false;
        } else {
            match self.load_children(fs) {
                Err(e) => {
                    return Err(e);
                },
                Ok(()) => {},
            }
            self.is_expanded = true;
        }
        Ok(())
    }

    /// Expands the directories on the way to `target` (those whose paths it
    /// starts with), loading their children as needed; true once `target`
    /// itself is reached.
    pub fn expand_path(&mut self, target: &str, fs: &[DirListing]) -> (r: Result<bool, TreeError>)
        ensures
            (final(self)@, r) == expanded_to(old(self)@, target@, fs@),
        decreases size(old(self)@), usize::MAX - old(self).depth,
    {
        let ghost v = self@;
        if !(starts_with_path(target, self.path.as_str()) && self.is_dir) {
            return Ok(false);
        }
        if !self.is_expanded {
            match self.load_children(fs) {
                Err(e) => {
                    return Err(e);
                },
                Ok(()) => {},
            }
            self.is_expanded = true;
        }
        let ghost w1 = self@;
        proof {
            lemma_nodes_view(self.children@);
            assert forall|j: int| 0 <= j < w1.children.len() implies (#[trigger] size(
                w1.children[j],
            ) < size(v) || (size(w1.children[j]) == size(v) && w1.children[j].depth > v.depth
                && v.depth < usize::MAX)) by {
                if v.children.len() > 0 || v.is_expanded {
                    assert(w1.children == v.children);
                    lemma_size_list_child(v.children, j);
                } else {
                    let es = listing_for(fs@, v.path)->0;
                    let f = fresh_views(entry_views(es), (v.depth + 1) as usize);
                    lemma_sort_views_fresh(f, (v.depth + 1) as usize);
                    assert(w1.children == sort_views(f));
                    assert(size_list(w1.children[j].children) == 0);
                    assert(size_list(v.children) == 0);
                }
            }
        }
        let n = self.children.len();
        let mut i: usize = 0;
        assert(w1 == (NodeView {
            is_expanded: true,
            ..(if !v.is_expanded {
                loaded(v, fs@)->Ok_0
            } else {
                v
            })
        }));
        while i < n
            invariant
                n == self.children@.len(),
                n == w1.children.len(),
                n == self@.children.len(),
                v == old(self)@,
                expanded_to(v, target@, fs@) == ({
                    let (w2, r) = expand_children(w1, 0, target@, fs@, size(v), v.depth as int);
                    match r {
                        Ok(false) => (w2, Ok(paths_equal(v.path, target@))),
                        _ => (w2, r),
                    }
                }),
                i <= n,
                self.path@ == v.path,
                self.depth == v.depth,
                expand_children(w1, 0, target@, fs@, size(v), v.depth as int) == expand_children(
                    self@,
                    i as int,
                    target@,
                    fs@,
                    size(v),
                    v.depth as int,
                ),
                forall|j: int| i <= j < n ==> #[trigger] self@.children[j] == w1.children[j],
                forall|j: int|
                    0 <= j < n ==> (#[trigger] size(w1.children[j]) < size(v) || (size(
                        w1.children[j],
                    ) == size(v) && w1.children[j].depth > v.depth && v.depth < usize::MAX)),
            decreases n - i,
        {
            proof {
                lemma_nodes_view(self.children@);
            }
            let ghost before = self@;
            assert(node_view(self.children@[i as int]) == w1.children[i as int]);
            assert(size(w1.children[i as int]) < size(v) || (size(w1.children[i as int]) == size(v)
                && w1.children[i as int].depth > v.depth && v.depth < usize::MAX));
            let res = self.children[i].expand_path(target, fs);
            proof {
                lemma_nodes_view(self.children@);
                assert(self@.children =~= before.children.update(
                    i as int,
                    node_view(self.children@[i as int]),
                ));
            }
            proof {
                let c = before.children[i as int];
                assert(expanded_to(c, target@, fs@) == (self@.children[i as int], res));
                assert(self@ == (NodeView {
                    children: before.children.update(i as int, self@.children[i as int]),
                    ..before
                }));
                assert(expand_children(before, i as int, target@, fs@, size(v), v.depth as int)
                    == match res {
                    Ok(false) => expand_children(
                        self@,
                        i + 1,
                        target@,
                        fs@,
                        size(v),
                        v.depth as int,
                    ),
                    _ => (self@, res),
                });
            }
            match res {
                Err(e) => {
                    return Err(e);
                },
                Ok(true) => {
                    return Ok(true);
                },
                Ok(false) => {},
            }
            i = i + 1;
        }
        assert(expand_children(self@, n as int, target@, fs@, size(v), v.depth as int) == (
        self@, Ok::<bool, TreeError>(false)));
        Ok(path_eq(self.path.as_str(), target))
    }
}

/// The entries of the first listing of `dir`.
pub fn find_listing<'a>(fs: &'a [DirListing], dir: &str) -> (r: Option<&'a Vec<DirEntry>>)
    ensures
        match listing_for(fs@, dir@) {
            Some(es) => r is Some && r->0@ == es,
            None => r is None,
        },
{
    let d = str_to_chars(dir);
    let mut i: usize = 0;
    assert(fs@.skip(0) =~= fs@);
    while i < fs.len()
        invariant
            i <= fs@.len(),
            d@ == dir@,
            listing_for(fs@, dir@) == listing_for(fs@.skip(i as int), dir@),
        decreases fs.len() - i,
    {
        let k = str_to_chars(fs[i].dir.as_str());
        assert(fs@.skip(i as int).drop_first() =~= fs@.skip(i + 1));
        if chars_eq(&k, &d) {
            return Some(&fs[i].entries);
        }
        i = i + 1;
    }
    None
}

} // verus!
