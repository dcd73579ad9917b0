//! The file picker: the entries of a directory, a fuzzy search through it
//! and its subdirectories, and moving the selection.
use vstd::prelude::*;
use crate::tree::{DirListing, DirEntry, listing_for, entry_views, find_listing, chars_lt};
use crate::gitignore::{GitIgnore, path_strip_prefix, strip_path_prefix};
use crate::paths::{file_name, file_name_of, parent, parent_of};
use crate::chars::{lowercase, to_lowercase, str_to_chars};
use crate::tab::str_to_string;
use crate::tree_view::{accel_after, sat_mul, sat_sub};

verus! {

/// An entry of the picker: its path, name, kind, and its path relative to
/// the picker's directory (set for entries found in subdirectories).
pub struct FileItem {
    pub path: String,
    pub name: String,
    pub is_dir: bool,
    pub relative_path: String,
}

/// A picker entry as values.
pub struct FileItemView {
    pub path: Seq<char>,
    pub name: Seq<char>,
    pub is_dir: bool,
    pub relative_path: Seq<char>,
}

/// The view of a picker entry.
pub open spec fn file_item_view(i: FileItem) -> FileItemView {
    FileItemView {
        path: i.path@,
        name: i.name@,
        is_dir: i.is_dir,
        relative_path: i.relative_path@,
    }
}

/// The views of a list of picker entries.
pub open spec fn file_items_view(s: Seq<FileItem>) -> Seq<FileItemView> {
    s.map_values(|i: FileItem| file_item_view(i))
}

/// Whether the chars of `p` occur in `t` in order, not necessarily next to
/// each other.
pub open spec fn is_subsequence(p: Seq<char>, t: Seq<char>) -> bool
    decreases t.len(),
{
    if p.len() == 0 {
        true
    } else if t.len() == 0 {
        false
    } else if t[0] == p[0] {
        is_subsequence(p.drop_first(), t.drop_first())
    } else {
        is_subsequence(p, t.drop_first())
    }
}

/// Whether `pattern` matches `text` fuzzily: its chars occur in `text` in
/// order.
pub fn fuzzy_match(text: &str, pattern: &str) -> (b: bool)
    ensures
        b == is_subsequence(pattern@, text@),
{
    let t = str_to_chars(text);
    let p = str_to_chars(pattern);
    let mut i: usize = 0;
    let mut k: usize = 0;
    assert(t@.skip(0) =~= t@);
    assert(p@.skip(0) =~= p@);
    while i < t.len()
        invariant
            i <= t@.len(),
            k <= p@.len(),
            t@ == text@,
            p@ == pattern@,
            is_subsequence(pattern@, text@) == is_subsequence(p@.skip(k as int), t@.skip(i as int)),
        decreases t.len() - i,
    {
        if k == p.len() {
            return true;
        }
        assert(t@.skip(i as int).drop_first() =~= t@.skip(i + 1));
        assert(p@.skip(k as int).drop_first() =~= p@.skip(k + 1));
        if t[i] == p[k] {
            k = k + 1;
        }
        i = i + 1;
    }
    k == p.len()
}

/// The `i`-th directory up from `path` (`path` itself for 0).
pub open spec fn ancestor(path: Seq<char>, i: nat) -> Option<Seq<char>>
    decreases i,
{
    if i == 0 {
        Some(path)
    } else {
        match ancestor(path, (i - 1) as nat) {
            Some(a) => parent_of(a),
            None => None,
        }
    }
}

/// The first directory up from `path` (itself included) that holds a
/// `.git` entry, as `has_git` tells for each of them in turn; `path` itself
/// when none does.
pub open spec fn repo_root_of(path: Seq<char>, has_git: Seq<bool>, i: nat) -> Seq<char>
    decreases has_git.len() - i,
{
    if i >= has_git.len() {
        path
    } else {
        match ancestor(path, i) {
            None => path,
            Some(a) => if has_git[i as int] {
                a
            } else {
                repo_root_of(path, has_git, i + 1)
            },
        }
    }
}

/// The repository root of `path`: the first directory up from it (itself
/// included) that holds a `.git` entry, `has_git[i]` telling whether the
/// `i`-th directory up holds one; `path` itself when none does.
pub fn find_repo_root(path: &str, has_git: &[bool]) -> (r: String)
    ensures
        r@ == repo_root_of(path@, has_git@, 0),
{
    let mut current = str_to_string(path);
    let mut i: usize = 0;
    while i < has_git.len()
        invariant
            i <= has_git@.len(),
            ancestor(path@, i as nat) == Some(current@),
            repo_root_of(path@, has_git@, 0) == repo_root_of(path@, has_git@, i as nat),
        decreases has_git.len() - i,
    {
        if has_git[i] {
            return current;
        }
        match parent(current.as_str()) {
            Some(p) => {
                assert(ancestor(path@, (i + 1) as nat) == Some(p@));
                current = p;
            },
            None => {
                assert(ancestor(path@, (i + 1) as nat) is None);
                assert(repo_root_of(path@, has_git@, (i + 1) as nat) == path@);
                return str_to_string(path);
            },
        }
        i = i + 1;
    }
    str_to_string(path)
}

/// Whether `a` comes before `b` by lowercased name.
pub open spec fn name_before(a: FileItemView, b: FileItemView) -> bool {
    chars_lt(lowercase(a.name), lowercase(b.name))
}

/// Where `x` goes in the sorted `s`, searching from `i`: before the first
/// item it comes before.
pub open spec fn name_pos(s: Seq<FileItemView>, x: FileItemView, i: int) -> int
    decreases s.len() - i,
{
    if i < 0 || i >= s.len() {
        s.len() as int
    } else if name_before(x, s[i]) {
        i
    } else {
        name_pos(s, x, i + 1)
    }
}

/// `s` sorted by lowercased name, items with equal names kept in order.
pub open spec fn sort_by_name(s: Seq<FileItemView>) -> Seq<FileItemView>
    decreases s.len(),
{
    if s.len() == 0 {
        s
    } else {
        let r = sort_by_name(s.drop_last());
        r.insert(name_pos(r, s.last(), 0), s.last())
    }
}

/// The name of the entry at `path`: its file name, or empty.
pub open spec fn entry_name(path: Seq<char>) -> Seq<char> {
    match file_name_of(path) {
        Some(n) => n,
        None => Seq::empty(),
    }
}

/// Whether a directory entry is shown in the picker: not hidden (a name
/// starting with `.`, `..` aside) and not ignored by `g`.
pub open spec fn shown(e: (Seq<char>, bool), g: GitIgnore) -> bool {
    let name = entry_name(e.0);
    !(name.len() > 0 && name[0] == '.' && name != ".."@) && !g.ignores(e.0, e.1)
}

/// The picker item for an entry.
pub open spec fn item_for(e: (Seq<char>, bool)) -> FileItemView {
    FileItemView { path: e.0, name: entry_name(e.0), is_dir: e.1, relative_path: Seq::empty() }
}

/// The shown entries of kind `dirs` among `es`, as picker items, in order.
pub open spec fn shown_items(es: Seq<(Seq<char>, bool)>, g: GitIgnore, dirs: bool) -> Seq<FileItemView>
    decreases es.len(),
{
    if es.len() == 0 {
        Seq::empty()
    } else {
        let rest = shown_items(es.drop_last(), g, dirs);
        let e = es.last();
        if shown(e, g) && e.1 == dirs {
            rest.push(item_for(e))
        } else {
            rest
        }
    }
}

/// The entries of the directory `dir`: `..` for its parent, when it has
/// one, then the shown subdirectories and the shown files, each sorted by
/// lowercased name.
pub open spec fn dir_items(dir: Seq<char>, g: GitIgnore, fs: Seq<DirListing>) -> Seq<FileItemView> {
    let up = match parent_of(dir) {
        Some(p) => seq![FileItemView { path: p, name: ".."@, is_dir: true, relative_path: ".."@ }],
        None => Seq::empty(),
    };
    match listing_for(fs, dir) {
        None => up,
        Some(es) => {
            let ev = entry_views(es);
            up + sort_by_name(shown_items(ev, g, true)) + sort_by_name(shown_items(ev, g, false))
        },
    }
}

/// The matches of `q` at `depth` and below in the directory `dir`, down to
/// `max`: entries not hidden whose lowercased name, or lowercased path
/// relative to `cur`, holds the chars of `q` in order; subdirectories are
/// searched in turn.
pub open spec fn picker_search(
    dir: Seq<char>,
    q: Seq<char>,
    depth: nat,
    max: nat,
    cur: Seq<char>,
    fs: Seq<DirListing>,
) -> Seq<FileItemView>
    decreases max - depth, 1int, 0int,
{
    if depth >= max {
        Seq::empty()
    } else {
        match listing_for(fs, dir) {
            None => Seq::empty(),
            Some(es) => picker_entries(entry_views(es), 0, q, depth, max, cur, fs),
        }
    }
}

/// The matches among the entries `es` from index `i` on, found at `depth`.
pub open spec fn picker_entries(
    es: Seq<(Seq<char>, bool)>,
    i: int,
    q: Seq<char>,
    depth: nat,
    max: nat,
    cur: Seq<char>,
    fs: Seq<DirListing>,
) -> Seq<FileItemView>
    decreases max - depth, 0int, es.len() - i,
{
    if i < 0 || i >= es.len() || depth >= max {
        Seq::empty()
    } else {
        let p = es[i].0;
        let d = es[i].1;
        let name = entry_name(p);
        if name.len() > 0 && name[0] == '.' {
            picker_entries(es, i + 1, q, depth, max, cur, fs)
        } else {
            let rel = match path_strip_prefix(p, cur) {
                Some(r) => r,
                None => Seq::empty(),
            };
            let m = if is_subsequence(q, lowercase(name)) || is_subsequence(q, lowercase(rel)) {
                seq![FileItemView { path: p, name, is_dir: d, relative_path: rel }]
            } else {
                Seq::empty()
            };
            let sub = if d {
                picker_search(p, q, depth + 1, max, cur, fs)
            } else {
                Seq::empty()
            };
            m + sub + picker_entries(es, i + 1, q, depth, max, cur, fs)
        }
    }
}

/// The entries of `all` from index `i` on, `..` aside, whose lowercased
/// name holds the chars of `q` in order.
pub open spec fn local_matches(all: Seq<FileItemView>, q: Seq<char>, i: int) -> Seq<FileItemView>
    decreases all.len() - i,
{
    if i < 0 || i >= all.len() {
        Seq::empty()
    } else {
        (if all[i].name != ".."@ && is_subsequence(q, lowercase(all[i].name)) {
            seq![all[i]]
        } else {
            Seq::empty()
        }) + local_matches(all, q, i + 1)
    }
}

/// What the subdirectories among `es` from index `i` on yield, each searched
/// from depth 1 down to 3, hidden ones skipped.
pub open spec fn subdir_matches(
    es: Seq<(Seq<char>, bool)>,
    i: int,
    q: Seq<char>,
    cur: Seq<char>,
    fs: Seq<DirListing>,
) -> Seq<FileItemView>
    decreases es.len() - i,
{
    if i < 0 || i >= es.len() {
        Seq::empty()
    } else {
        let name = entry_name(es[i].0);
        (if es[i].1 && !(name.len() > 0 && name[0] == '.') {
            picker_search(es[i].0, q, 1, 3, cur, fs)
        } else {
            Seq::empty()
        }) + subdir_matches(es, i + 1, q, cur, fs)
    }
}

/// The picker's list for the query `query`: everything for an empty query,
/// else the fuzzy matches of its lowercased form in the directory, then in
/// its subdirectories.
pub open spec fn picker_filtered(
    all: Seq<FileItemView>,
    query: Seq<char>,
    cur: Seq<char>,
    fs: Seq<DirListing>,
) -> Seq<FileItemView> {
    if query.len() == 0 {
        all
    } else {
        let q = lowercase(query);
        local_matches(all, q, 0) + match listing_for(fs, cur) {
            None => Seq::empty(),
            Some(es) => subdir_matches(entry_views(es), 0, q, cur, fs),
        }
    }
}

/// The state of a file picker as values.
pub struct PickerView {
    pub search_query: Seq<char>,
    pub filtered: Seq<FileItemView>,
    pub selected_index: usize,
    pub hovered_index: Option<usize>,
    pub current_dir: Seq<char>,
    pub all: Seq<FileItemView>,
    pub gitignore: GitIgnore,
    pub last_scroll_time: Option<u64>,
    pub scroll_acceleration: usize,
}

/// The file picker.
pub struct FilePickerState {
    pub search_query: String,
    pub filtered_items: Vec<FileItem>,
    pub selected_index: usize,
    pub hovered_index: Option<usize>,
    pub current_dir: String,
    pub all_items: Vec<FileItem>,
    gitignore: GitIgnore,
    last_scroll_time: Option<u64>,
    scroll_acceleration: usize,
}

impl View for FilePickerState {
    type V = PickerView;

    closed spec fn view(&self) -> PickerView {
        PickerView {
            search_query: self.search_query@,
            filtered: file_items_view(self.filtered_items@),
            selected_index: self.selected_index,
            hovered_index: self.hovered_index,
            current_dir: self.current_dir@,
            all: file_items_view(self.all_items@),
            gitignore: self.gitignore,
            last_scroll_time: self.last_scroll_time,
            scroll_acceleration: self.scroll_acceleration,
        }
    }
}

/// The lists of a picker are held in memory: each is at most `usize::MAX`
/// long, so an index one past the selection is a `usize` for every picker.
pub proof fn lemma_picker_lists_fit(p: &FilePickerState)
    ensures
        p@.filtered.len() <= usize::MAX,
        p@.all.len() <= usize::MAX,
{
    assert(p.filtered_items@.len() == p.filtered_items.len());
    assert(p.all_items@.len() == p.all_items.len());
}

/// The picker after loading its directory: its entries listed, all shown,
/// the first selected.
pub open spec fn reloaded(t: PickerView, fs: Seq<DirListing>) -> PickerView {
    let items = dir_items(t.current_dir, t.gitignore, fs);
    PickerView { all: items, filtered: items, selected_index: 0, ..t }
}

impl FileItem {
    /// A copy of the item.
    pub fn duplicate(&self) -> (c: FileItem)
        ensures
            file_item_view(c) == file_item_view(*self),
    {
        FileItem {
            path: self.path.clone(),
            name: self.name.clone(),
            is_dir: self.is_dir,
            relative_path: self.relative_path.clone(),
        }
    }
}

/// A copy of a list of items.
fn copy_items(v: &Vec<FileItem>) -> (r: Vec<FileItem>)
    ensures
        file_items_view(r@) == file_items_view(v@),
{
    let mut r: Vec<FileItem> = Vec::new();
    let mut i: usize = 0;
    while i < v.len()
        invariant
            i <= v@.len(),
            r@.len() == i,
            file_items_view(r@) == file_items_view(v@).take(i as int),
        decreases v.len() - i,
    {
        r.push(v[i].duplicate());
        assert(file_items_view(r@) =~= file_items_view(v@).take(i + 1));
        i = i + 1;
    }
    assert(file_items_view(v@).take(i as int) =~= file_items_view(v@));
    r
}

/// Where `x` goes among the items sorted by name: before the first one it
/// comes before. `keys` holds their lowercased names, `key` that of `x`.
fn find_name_pos(out: &Vec<FileItem>, keys: &Vec<Vec<char>>, x: &FileItem, key: &Vec<char>) -> (pos: usize)
    requires
        keys@.len() == out@.len(),
        forall|j: int| 0 <= j < out@.len() ==> #[trigger] keys@[j]@ == lowercase(out@[j].name@),
        key@ == lowercase(x.name@),
    ensures
        pos == name_pos(file_items_view(out@), file_item_view(*x), 0),
        pos <= out@.len(),
{
    let ghost sorted = file_items_view(out@);
    let mut pos: usize = 0;
    while pos < out.len()
        invariant
            pos <= out@.len(),
            sorted == file_items_view(out@),
            keys@.len() == out@.len(),
            forall|j: int| 0 <= j < out@.len() ==> #[trigger] keys@[j]@ == lowercase(out@[j].name@),
            key@ == lowercase(x.name@),
            name_pos(sorted, file_item_view(*x), 0) == name_pos(sorted, file_item_view(*x), pos as int),
        decreases out.len() - pos,
    {
        if crate::tree::chars_less_pub(key, &keys[pos]) {
            return pos;
        }
        pos = pos + 1;
    }
    pos
}

/// Sorts items by lowercased name, items with equal names kept in order.
fn sort_items(items: Vec<FileItem>) -> (r: Vec<FileItem>)
    ensures
        file_items_view(r@) == sort_by_name(file_items_view(items@)),
{
    let ghost input = file_items_view(items@);
    let mut out: Vec<FileItem> = Vec::new();
    let mut keys: Vec<Vec<char>> = Vec::new();
    let mut rest = items;
    let ghost rest0 = rest@;
    let total = rest.len();
    let mut k: usize = 0;
    assert(input.take(0) =~= Seq::<FileItemView>::empty());
    assert(sort_by_name(input.take(0)) =~= Seq::<FileItemView>::empty());
    while rest.len() > 0
        invariant
            k + rest@.len() == total,
            total == input.len(),
            input == file_items_view(rest0),
            rest@ =~= rest0.skip(k as int),
            file_items_view(out@) == sort_by_name(input.take(k as int)),
            keys@.len() == out@.len(),
            forall|j: int| 0 <= j < out@.len() ==> #[trigger] keys@[j]@ == lowercase(out@[j].name@),
        decreases rest.len(),
    {
        let x = rest.remove(0);
        proof {
            assert(x == rest0[k as int]);
            assert(rest@ =~= rest0.skip(k + 1));
        }
        let key = str_to_chars(to_lowercase(x.name.as_str()).as_str());
        let ghost sorted = file_items_view(out@);
        let pos = find_name_pos(&out, &keys, &x, &key);
        proof {
            assert(input.take(k + 1).drop_last() =~= input.take(k as int));
            assert(input.take(k + 1).last() == file_item_view(x));
        }
        out.insert(pos, x);
        keys.insert(pos, key);
        assert(file_items_view(out@) =~= sorted.insert(pos as int, file_item_view(x)));
        k = k + 1;
    }
    assert(input.take(total as int) =~= input);
    out
}


/// Whether `name` is hidden: it starts with `.` and is not `..`.
fn is_hidden(name: &Vec<char>) -> (b: bool)
    ensures
        b == (name@.len() > 0 && name@[0] == '.' && name@ != ".."@),
{
    let dots = "..";
    proof {
        reveal_strlit("..");
    }
    let d = str_to_chars(dots);
    name.len() > 0 && name[0] == '.' && !crate::strings::chars_eq(name, &d)
}

/// The name of the entry at `path`: its file name, or empty.
fn entry_name_of(path: &str) -> (r: String)
    ensures
        r@ == entry_name(path@),
{
    match file_name(path) {
        Some(n) => n,
        None => String::new(),
    }
}

impl FilePickerState {
    /// Appends to `out` the matches of `q` at `depth` and below in `dir`,
    /// down to `max_depth`.
    fn search_recursive(
        &self,
        dir: &str,
        q: &str,
        depth: usize,
        max_depth: usize,
        fs: &[DirListing],
        out: &mut Vec<FileItem>,
    )
        ensures
            file_items_view(final(out)@) == file_items_view(old(out)@) + picker_search(
                dir@,
                q@,
                depth as nat,
                max_depth as nat,
                self.current_dir@,
                fs@,
            ),
        decreases max_depth - depth,
    {
        let ghost base = file_items_view(out@);
        if depth >= max_depth {
            assert(file_items_view(out@) =~= base + Seq::<FileItemView>::empty());
            return;
        }
        let entries = match find_listing(fs, dir) {
            Some(es) => es,
            None => {
                assert(file_items_view(out@) =~= base + Seq::<FileItemView>::empty());
                return;
            },
        };
        let ghost es = entry_views(entries@);
        let ghost cur = self.current_dir@;
        let mut i: usize = 0;
        while i < entries.len()
            invariant
                i <= entries@.len(),
                es == entry_views(entries@),
                es.len() == entries@.len(),
                depth < max_depth,
                cur == self.current_dir@,
                base + picker_entries(es, 0, q@, depth as nat, max_depth as nat, cur, fs@)
                    == file_items_view(out@) + picker_entries(
                    es,
                    i as int,
                    q@,
                    depth as nat,
                    max_depth as nat,
                    cur,
                    fs@,
                ),
            decreases entries.len() - i,
        {
            let ghost before = file_items_view(out@);
            let path = &entries[i].path;
            let is_dir = entries[i].is_dir;
            assert(es[i as int] == (path@, is_dir));
            let name = entry_name_of(path.as_str());
            let name_chars = str_to_chars(name.as_str());
            if name_chars.len() > 0 && name_chars[0] == '.' {
                i = i + 1;
            } else {
                let relative = match strip_path_prefix(path.as_str(), self.current_dir.as_str()) {
                    Some(r) => r,
                    None => String::new(),
                };
                let lname = to_lowercase(name.as_str());
                let lrel = to_lowercase(relative.as_str());
                if fuzzy_match(lname.as_str(), q) || fuzzy_match(lrel.as_str(), q) {
                    out.push(
                        FileItem { path: path.clone(), name, is_dir, relative_path: relative },
                    );
                } else {
                }
                let ghost mid = file_items_view(out@);
                if is_dir {
                    self.search_recursive(path.as_str(), q, depth + 1, max_depth, fs, out);
                }
                proof {
                    let rel = match path_strip_prefix(path@, cur) {
                        Some(r) => r,
                        None => Seq::<char>::empty(),
                    };
                    let m = if is_subsequence(q@, lowercase(entry_name(path@))) || is_subsequence(
                        q@,
                        lowercase(rel),
                    ) {
                        seq![
                            FileItemView {
                                path: path@,
                                name: entry_name(path@),
                                is_dir,
                                relative_path: rel,
                            },
                        ]
                    } else {
                        Seq::<FileItemView>::empty()
                    };
                    assert(mid =~= before + m);
                    let sub = if is_dir {
                        picker_search(path@, q@, (depth + 1) as nat, max_depth as nat, cur, fs@)
                    } else {
                        Seq::<FileItemView>::empty()
                    };
                    assert(file_items_view(out@) =~= mid + sub);
                    let rest = picker_entries(
                        es,
                        i + 1,
                        q@,
                        depth as nat,
                        max_depth as nat,
                        cur,
                        fs@,
                    );
                    assert(before + (m + sub + rest) =~= file_items_view(out@) + rest);
                }
                i = i + 1;
            }
        }
        assert(file_items_view(out@) + Seq::<FileItemView>::empty() =~= file_items_view(out@));
    }

    /// Lists the directory: `..` for its parent, when it has one, then the
    /// shown subdirectories and files, each sorted by lowercased name. Shows
    /// them all and selects the first.
    pub fn load_current_directory(&mut self, fs: &[DirListing])
        ensures
            final(self)@ == reloaded(old(self)@, fs@),
    {
        let mut all: Vec<FileItem> = Vec::new();
        let ghost g = self.gitignore;
        match parent(self.current_dir.as_str()) {
            Some(p) => {
                let dots = "..";
                proof {
                    reveal_strlit("..");
                }
                all.push(
                    FileItem {
                        path: p,
                        name: str_to_string(dots),
                        is_dir: true,
                        relative_path: str_to_string(dots),
                    },
                );
            },
            None => {},
        }
        match find_listing(fs, self.current_dir.as_str()) {
            Some(entries) => {
                let ghost ev = entry_views(entries@);
                let mut dirs: Vec<FileItem> = Vec::new();
                let mut files: Vec<FileItem> = Vec::new();
                let mut i: usize = 0;
                assert(ev.take(0) =~= Seq::<(Seq<char>, bool)>::empty());
                while i < entries.len()
                    invariant
                        i <= entries@.len(),
                        ev == entry_views(entries@),
                        ev.len() == entries@.len(),
                        g == self.gitignore,
                        file_items_view(dirs@) == shown_items(ev.take(i as int), g, true),
                        file_items_view(files@) == shown_items(ev.take(i as int), g, false),
                    decreases entries.len() - i,
                {
                    let e = &entries[i];
                    assert(ev[i as int] == (e.path@, e.is_dir));
                    assert(ev.take(i + 1).drop_last() =~= ev.take(i as int));
                    assert(ev.take(i + 1).last() == ev[i as int]);
                    let name = entry_name_of(e.path.as_str());
                    let name_chars = str_to_chars(name.as_str());
                    if is_hidden(&name_chars) {
                    } else if self.gitignore.is_ignored(e.path.as_str(), e.is_dir) {
                    } else {
                        let item = FileItem {
                            path: e.path.clone(),
                            name,
                            is_dir: e.is_dir,
                            relative_path: String::new(),
                        };
                        if e.is_dir {
                            dirs.push(item);
                            assert(file_items_view(dirs@) =~= shown_items(
                                ev.take(i as int),
                                g,
                                true,
                            ).push(item_for(ev[i as int])));
                        } else {
                            files.push(item);
                            assert(file_items_view(files@) =~= shown_items(
                                ev.take(i as int),
                                g,
                                false,
                            ).push(item_for(ev[i as int])));
                        }
                    }
                    i = i + 1;
                }
                assert(ev.take(i as int) =~= ev);
                let ghost up = file_items_view(all@);
                let mut sorted_dirs = sort_items(dirs);
                let mut sorted_files = sort_items(files);
                all.append(&mut sorted_dirs);
                all.append(&mut sorted_files);
                assert(file_items_view(all@) =~= up + sort_by_name(shown_items(ev, g, true))
                    + sort_by_name(shown_items(ev, g, false)));
            },
            None => {},
        }
        assert(file_items_view(all@) =~= dir_items(self.current_dir@, g, fs@));
        self.all_items = all;
        self.filtered_items = copy_items(&self.all_items);
        self.selected_index = 0;
    }
}

/// The picker after its query changed: its list for the query, the first
/// item selected, no item hovered.
pub open spec fn refiltered(t: PickerView, fs: Seq<DirListing>) -> PickerView {
    PickerView {
        filtered: picker_filtered(t.all, t.search_query, t.current_dir, fs),
        selected_index: 0,
        hovered_index: None,
        ..t
    }
}

/// The picker after `enter_directory(dir, g, fs)`.
pub open spec fn entered(t: PickerView, dir: Seq<char>, g: GitIgnore, fs: Seq<DirListing>) -> PickerView {
    reloaded(
        PickerView {
            current_dir: dir,
            search_query: Seq::empty(),
            hovered_index: None,
            gitignore: g,
            ..t
        },
        fs,
    )
}

impl FilePickerState {
    /// A picker on the directory `current_dir`, whose repository's rules
    /// are `gitignore`, listed from the listings.
    pub fn new(current_dir: String, gitignore: GitIgnore, fs: &[DirListing]) -> (p: Self)
        ensures
            p@ == reloaded(
                PickerView {
                    search_query: Seq::empty(),
                    filtered: Seq::empty(),
                    selected_index: 0,
                    hovered_index: None,
                    current_dir: current_dir@,
                    all: Seq::empty(),
                    gitignore,
                    last_scroll_time: None,
                    scroll_acceleration: 1,
                },
                fs@,
            ),
    {
        let mut state = FilePickerState {
            search_query: String::new(),
            filtered_items: Vec::new(),
            selected_index: 0,
            hovered_index: None,
            current_dir,
            all_items: Vec::new(),
            gitignore,
            last_scroll_time: None,
            scroll_acceleration: 1,
        };
        assert(state@.search_query =~= Seq::<char>::empty());
        state.load_current_directory(fs);
        state
    }

    /// Filters the list by the query: everything for an empty query, else
    /// the fuzzy matches of its lowercased form in the directory (`..`
    /// aside), then in the subdirectories, three levels down. Selects the
    /// first item and clears the hover.
    pub fn update_filter(&mut self, fs: &[DirListing])
        ensures
            final(self)@ == refiltered(old(self)@, fs@),
    {
        if self.search_query.as_str().is_empty() {
            self.filtered_items = copy_items(&self.all_items);
        } else {
            let query = to_lowercase(self.search_query.as_str());
            let ghost q = query@;
            let ghost all = file_items_view(self.all_items@);
            let mut out: Vec<FileItem> = Vec::new();
            let mut i: usize = 0;
            let dots = "..";
            proof {
                reveal_strlit("..");
            }
            let d = str_to_chars(dots);
            assert(file_items_view(out@) =~= Seq::<FileItemView>::empty());
            while i < self.all_items.len()
                invariant
                    i <= self.all_items@.len(),
                    all == file_items_view(self.all_items@),
                    all.len() == self.all_items@.len(),
                    d@ == ".."@,
                    q == query@,
                    local_matches(all, q, 0) == file_items_view(out@) + local_matches(
                        all,
                        q,
                        i as int,
                    ),
                decreases self.all_items.len() - i,
            {
                let ghost before = file_items_view(out@);
                let item = &self.all_items[i];
                assert(all[i as int] == file_item_view(*item));
                let name_chars = str_to_chars(item.name.as_str());
                let lname = to_lowercase(item.name.as_str());
                if !crate::strings::chars_eq(&name_chars, &d) && fuzzy_match(
                    lname.as_str(),
                    query.as_str(),
                ) {
                    out.push(item.duplicate());
                    assert(file_items_view(out@) =~= before + seq![all[i as int]]);
                } else {
                    assert(file_items_view(out@) =~= before + Seq::<FileItemView>::empty());
                }
                let ghost rest = local_matches(all, q, i + 1);
                assert(before + ((if all[i as int].name != ".."@ && is_subsequence(
                    q,
                    lowercase(all[i as int].name),
                ) {
                    seq![all[i as int]]
                } else {
                    Seq::empty()
                }) + rest) =~= file_items_view(out@) + rest);
                i = i + 1;
            }
            assert(file_items_view(out@) + Seq::<FileItemView>::empty() =~= file_items_view(out@));
            let ghost local = file_items_view(out@);
            match find_listing(fs, self.current_dir.as_str()) {
                Some(entries) => {
                    let ghost es = entry_views(entries@);
                    let ghost cur = self.current_dir@;
                    let mut k: usize = 0;
                    assert(local + subdir_matches(es, 0, q, cur, fs@) =~= file_items_view(out@)
                        + subdir_matches(es, 0, q, cur, fs@));
                    while k < entries.len()
                        invariant
                            k <= entries@.len(),
                            es == entry_views(entries@),
                            es.len() == entries@.len(),
                            cur == self.current_dir@,
                            q == query@,
                            local + subdir_matches(es, 0, q, cur, fs@) == file_items_view(out@)
                                + subdir_matches(es, k as int, q, cur, fs@),
                        decreases entries.len() - k,
                    {
                        let ghost before = file_items_view(out@);
                        let e = &entries[k];
                        assert(es[k as int] == (e.path@, e.is_dir));
                        if e.is_dir {
                            let name = entry_name_of(e.path.as_str());
                            let name_chars = str_to_chars(name.as_str());
                            if !(name_chars.len() > 0 && name_chars[0] == '.') {
                                self.search_recursive(e.path.as_str(), query.as_str(), 1, 3, fs, &mut out);
                            }
                        }
                        proof {
                            let name = entry_name(es[k as int].0);
                            let here = if es[k as int].1 && !(name.len() > 0 && name[0] == '.') {
                                picker_search(es[k as int].0, q, 1, 3, cur, fs@)
                            } else {
                                Seq::<FileItemView>::empty()
                            };
                            assert(file_items_view(out@) =~= before + here);
                            let rest = subdir_matches(es, k + 1, q, cur, fs@);
                            assert(before + (here + rest) =~= file_items_view(out@) + rest);
                        }
                        k = k + 1;
                    }
                    assert(file_items_view(out@) + Seq::<FileItemView>::empty() =~= file_items_view(
                        out@,
                    ));
                },
                None => {
                    assert(local + Seq::<FileItemView>::empty() =~= local);
                },
            }
            self.filtered_items = out;
        }
        self.selected_index = 0;
        self.hovered_index = None;
    }

    /// Moves to the directory `dir`, whose repository's rules are
    /// `gitignore`: clears the query and the hover and lists it.
    pub fn enter_directory(&mut self, dir: String, gitignore: GitIgnore, fs: &[DirListing])
        ensures
            final(self)@ == entered(old(self)@, dir@, gitignore, fs@),
    {
        self.current_dir = dir;
        self.search_query = String::new();
        self.hovered_index = None;
        self.gitignore = gitignore;
        assert(self@.search_query =~= Seq::<char>::empty());
        self.load_current_directory(fs);
    }

    /// Moves to the parent directory, if there is one; `gitignore` holds the
    /// rules of its repository.
    pub fn go_up(&mut self, gitignore: GitIgnore, fs: &[DirListing])
        ensures
            match parent_of(old(self)@.current_dir) {
                Some(p) => final(self)@ == entered(old(self)@, p, gitignore, fs@),
                None => final(self)@ == old(self)@,
            },
    {
        match parent(self.current_dir.as_str()) {
            Some(p) => {
                self.enter_directory(p, gitignore, fs);
            },
            None => {},
        }
    }

    /// Moves the selection one item up, clearing the hover; nothing at the
    /// first.
    pub fn move_selection_up(&mut self)
        ensures
            old(self)@.selected_index > 0 ==> final(self)@ == (PickerView {
                selected_index: (old(self)@.selected_index - 1) as usize,
                hovered_index: None,
                ..old(self)@
            }),
            old(self)@.selected_index == 0 ==> final(self)@ == old(self)@,
    {
        if self.selected_index > 0 {
            self.selected_index = self.selected_index - 1;
            self.hovered_index = None;
        }
    }

    /// Moves the selection one item down, clearing the hover; nothing at the
    /// last.
    pub fn move_selection_down(&mut self)
        ensures
            old(self)@.selected_index + 1 < old(self)@.filtered.len() ==> final(self)@ == (
            PickerView {
                selected_index: (old(self)@.selected_index + 1) as usize,
                hovered_index: None,
                ..old(self)@
            }),
            !(old(self)@.selected_index + 1 < old(self)@.filtered.len()) ==> final(self)@ == old(
                self,
            )@,
    {
        if self.selected_index < self.filtered_items.len().saturating_sub(1) {
            self.selected_index = self.selected_index + 1;
            self.hovered_index = None;
        }
    }

    /// Selects the item at `index` of the filtered list.
    pub(crate) fn set_selected_index(&mut self, index: usize)
        ensures
            final(self)@ == (PickerView { selected_index: index, ..old(self)@ }),
    {
        self.selected_index = index;
    }

    /// The number of items shown.
    pub(crate) fn shown_count(&self) -> (n: usize)
        ensures
            n == self@.filtered.len(),
    {
        self.filtered_items.len()
    }

    /// The selected item, if the selection is within the list.
    pub fn get_selected_item(&self) -> (r: Option<&FileItem>)
        ensures
            self@.selected_index < self@.filtered.len() ==> r is Some && file_item_view(*r->0)
                == self@.filtered[self@.selected_index as int],
            self@.selected_index >= self@.filtered.len() ==> r is None,
    {
        if self.selected_index < self.filtered_items.len() {
            Some(&self.filtered_items[self.selected_index])
        } else {
            None
        }
    }

    /// Speeds up scrolling while scrolls follow each other within 150 ms.
    fn update_scroll_acceleration(&mut self, now_ms: u64)
        ensures
            final(self)@ == (PickerView {
                scroll_acceleration: accel_after(
                    old(self)@.scroll_acceleration,
                    old(self)@.last_scroll_time,
                    now_ms,
                ),
                last_scroll_time: Some(now_ms),
                ..old(self)@
            }),
    {
        self.scroll_acceleration = crate::tree_view::next_acceleration(
            self.scroll_acceleration,
            self.last_scroll_time,
            now_ms,
        );
        self.last_scroll_time = Some(now_ms);
    }

    /// Moves the selection up by `base_amount` times the scroll speed,
    /// stopping at the first item, and clears the hover; `now_ms` is the
    /// time of the scroll in milliseconds.
    pub fn scroll_up(&mut self, base_amount: usize, now_ms: u64)
        ensures
            ({
                let accel = accel_after(
                    old(self)@.scroll_acceleration,
                    old(self)@.last_scroll_time,
                    now_ms,
                );
                final(self)@ == (PickerView {
                    scroll_acceleration: accel,
                    last_scroll_time: Some(now_ms),
                    selected_index: sat_sub(
                        old(self)@.selected_index as int,
                        sat_mul(base_amount, accel) as int,
                    ) as usize,
                    hovered_index: None,
                    ..old(self)@
                })
            }),
    {
        self.update_scroll_acceleration(now_ms);
        let scroll_amount = crate::tree_view::mul_saturating(base_amount, self.scroll_acceleration);
        self.selected_index = self.selected_index.saturating_sub(scroll_amount);
        self.hovered_index = None;
    }

    /// Moves the selection down by `base_amount` times the scroll speed,
    /// stopping at the last item, and clears the hover.
    pub fn scroll_down(&mut self, base_amount: usize, now_ms: u64)
        ensures
            ({
                let accel = accel_after(
                    old(self)@.scroll_acceleration,
                    old(self)@.last_scroll_time,
                    now_ms,
                );
                let max_index = sat_sub(old(self)@.filtered.len() as int, 1);
                let target = old(self)@.selected_index + sat_mul(base_amount, accel);
                final(self)@ == (PickerView {
                    scroll_acceleration: accel,
                    last_scroll_time: Some(now_ms),
                    selected_index: (if target < max_index {
                        target
                    } else {
                        max_index
                    }) as usize,
                    hovered_index: None,
                    ..old(self)@
                })
            }),
    {
        self.update_scroll_acceleration(now_ms);
        let scroll_amount = crate::tree_view::mul_saturating(base_amount, self.scroll_acceleration);
        let max_index = self.filtered_items.len().saturating_sub(1);
        if self.selected_index >= max_index || scroll_amount >= max_index - self.selected_index {
            self.selected_index = max_index;
        } else {
            self.selected_index = self.selected_index + scroll_amount;
        }
        self.hovered_index = None;
    }
}


/// Whether the picker is searching: its query is not empty.
pub open spec fn picker_searching(p: PickerView) -> bool {
    p.search_query.len() > 0
}

/// The lines each entry takes: two while searching (its name and where it
/// is), one otherwise.
pub open spec fn per_entry(p: PickerView) -> nat {
    if picker_searching(p) {
        2
    } else {
        1
    }
}

/// The first entry shown in a list `height` lines high: the selected one
/// is the last shown when it would fall below.
pub open spec fn picker_start(p: PickerView, height: usize) -> int {
    let v = (height as nat) / per_entry(p);
    if p.selected_index >= v {
        p.selected_index - (v - 1)
    } else {
        0
    }
}

/// The number of entries shown.
pub open spec fn picker_count(p: PickerView, height: usize) -> int {
    let v = ((height as nat) / per_entry(p)) as int;
    let s = picker_start(p, height);
    let n = p.filtered.len() as int;
    if s >= n {
        0
    } else if n - s < v {
        n - s
    } else {
        v
    }
}

/// Whether an entry is drawn as selected: the hovered one when the mouse
/// is over one, else the selected one.
pub open spec fn row_selected(p: PickerView, i: int) -> bool {
    match p.hovered_index {
        Some(h) => i == h,
        None => i == p.selected_index,
    }
}

/// The icon of an entry: an up arrow for the parent, a closed folder for a
/// directory, else the icon of the file.
pub open spec fn picker_icon(item: FileItemView) -> Seq<char> {
    if item.name == ".."@ {
        "↑"@
    } else if item.is_dir {
        "📁"@
    } else {
        crate::file_icons::file_icon(item.path, false)
    }
}

/// The name line of an entry, padded to `w` chars.
pub open spec fn name_line(item: FileItemView, w: nat) -> Seq<char> {
    crate::tab_bar_view::padded("  "@ + picker_icon(item) + "  "@ + item.name, w)
}

/// The line that tells where an entry is, padded to `w` chars: its path
/// relative to the picker's directory, "." when that is empty or the name.
pub open spec fn path_line(item: FileItemView, w: nat) -> Seq<char> {
    crate::tab_bar_view::padded(
        "      "@ + if item.relative_path.len() == 0 || item.relative_path == item.name {
            "."@
        } else {
            item.relative_path
        },
        w,
    )
}

/// An entry as shown: its name line, the line of where it is (while
/// searching), and whether it is drawn as selected.
pub struct PickerRow {
    pub name_line: String,
    pub path_line: Option<String>,
    pub selected: bool,
}

/// What the picker shows.
pub struct PickerLines {
    /// The search line, and whether it holds a query.
    pub search_text: String,
    pub has_query: bool,
    /// Whether a scrollbar is drawn at the right of the list.
    pub scrollbar: bool,
    /// The first entry shown.
    pub start: usize,
    pub rows: Vec<PickerRow>,
}

/// The rows as values.
pub open spec fn picker_rows_view(v: Seq<PickerRow>) -> Seq<(Seq<char>, Option<Seq<char>>, bool)> {
    v.map_values(
        |r: PickerRow|
            (
                r.name_line@,
                match r.path_line {
                    Some(l) => Some(l@),
                    None => None,
                },
                r.selected,
            ),
    )
}

/// The columns of the text of a list `width` wide: one less for the
/// scrollbar when the entries do not fit in `height` lines.
pub open spec fn picker_text_width(p: PickerView, height: usize, width: usize) -> nat {
    if p.filtered.len() * per_entry(p) > height {
        if width >= 1 {
            (width - 1) as nat
        } else {
            0
        }
    } else {
        width as nat
    }
}

/// Whether `l` is what picker `p` shows in a list `height` lines high and
/// `width` columns wide.
pub open spec fn picker_lines_of(p: PickerView, height: usize, width: usize, l: PickerLines) -> bool {
    let s = picker_start(p, height);
    let w = picker_text_width(p, height, width);
    &&& l.has_query == picker_searching(p)
    &&& l.search_text@ == if picker_searching(p) {
        "  "@ + p.search_query
    } else {
        "  Type to search files..."@
    }
    &&& l.scrollbar == (p.filtered.len() * per_entry(p) > height)
    &&& l.start == s
    &&& picker_rows_view(l.rows@) == Seq::new(
        picker_count(p, height) as nat,
        |j: int|
            (
                name_line(p.filtered[s + j], w),
                if picker_searching(p) {
                    Some(path_line(p.filtered[s + j], w))
                } else {
                    None
                },
                row_selected(p, s + j),
            ),
    )
}

/// `a` then `b`, as chars.
fn joined(a: &str, b: &str) -> (r: Vec<char>)
    ensures
        r@ == a@ + b@,
{
    let mut v = str_to_chars(a);
    let mut w = str_to_chars(b);
    v.append(&mut w);
    v
}

impl FilePickerState {
    /// The row of entry `i`.
    fn picker_row(&self, i: usize, w: usize) -> (r: PickerRow)
        requires
            i < self@.filtered.len(),
        ensures
            picker_rows_view(seq![r]) == seq![
                (
                    name_line(self@.filtered[i as int], w as nat),
                    if picker_searching(self@) {
                        Some(path_line(self@.filtered[i as int], w as nat))
                    } else {
                        None
                    },
                    row_selected(self@, i as int),
                ),
            ],
    {
        let item = &self.filtered_items[i];
        assert(file_item_view(*item) == self@.filtered[i as int]);
        let icon = if crate::strings::chars_eq(
            &str_to_chars(item.name.as_str()),
            &str_to_chars(".."),
        ) {
            "↑"
        } else if item.is_dir {
            crate::file_icons::get_directory_icon(false)
        } else {
            crate::file_icons::get_file_icon(item.path.as_str(), false)
        };
        let mut first = joined("  ", icon);
        let mut rest = joined("  ", item.name.as_str());
        first.append(&mut rest);
        assert(first@ =~= "  "@ + picker_icon(file_item_view(*item)) + "  "@ + item.name@);
        let name_chars = crate::tab_bar_view::pad_to(&first, w);
        let location = if !self.search_query.as_str().is_empty() {
            let rel = item.relative_path.as_str();
            let same = crate::strings::chars_eq(&str_to_chars(rel), &str_to_chars(item.name.as_str()));
            let shown = if rel.is_empty() || same {
                "."
            } else {
                rel
            };
            let t = joined("      ", shown);
            let padded_t = crate::tab_bar_view::pad_to(&t, w);
            Some(crate::chars::chars_to_string(&padded_t))
        } else {
            None
        };
        let selected = match self.hovered_index {
            Some(h) => i == h,
            None => i == self.selected_index,
        };
        let r = PickerRow {
            name_line: crate::chars::chars_to_string(&name_chars),
            path_line: location,
            selected,
        };
        assert(picker_rows_view(seq![r]) =~= seq![
            (
                name_line(self@.filtered[i as int], w as nat),
                if picker_searching(self@) {
                    Some(path_line(self@.filtered[i as int], w as nat))
                } else {
                    None
                },
                row_selected(self@, i as int),
            ),
        ]);
        r
    }

    /// What the picker shows in a list `height` lines high and `width`
    /// columns wide (see `picker_lines_of`); the list has room for one
    /// entry at least.
    pub fn visible_rows(&self, height: usize, width: usize) -> (l: PickerLines)
        requires
            (height as nat) / per_entry(self@) > 0,
        ensures
            picker_lines_of(self@, height, width, l),
    {
        let searching = !self.search_query.as_str().is_empty();
        let per: usize = if searching {
            2
        } else {
            1
        };
        let total = self.filtered_items.len();
        let lines: u128 = if searching {
            (total as u128) + (total as u128)
        } else {
            total as u128
        };
        let scrollbar = lines > height as u128;
        let w: usize = if scrollbar {
            if width >= 1 {
                width - 1
            } else {
                0
            }
        } else {
            width
        };
        let visible = height / per;
        let start = if self.selected_index >= visible {
            self.selected_index - (visible - 1)
        } else {
            0
        };
        let count = if start >= total {
            0
        } else if total - start < visible {
            total - start
        } else {
            visible
        };
        let search_text = if searching {
            let t = joined("  ", self.search_query.as_str());
            crate::chars::chars_to_string(&t)
        } else {
            str_to_string("  Type to search files...")
        };
        let ghost p = self@;
        let mut rows: Vec<PickerRow> = Vec::new();
        let mut j: usize = 0;
        while j < count
            invariant
                j <= count,
                p == self@,
                start == picker_start(p, height),
                count == picker_count(p, height),
                count > 0 ==> start + count <= p.filtered.len(),
                w == picker_text_width(p, height, width),
                picker_rows_view(rows@) == Seq::new(
                    j as nat,
                    |k: int|
                        (
                            name_line(p.filtered[start + k], w as nat),
                            if picker_searching(p) {
                                Some(path_line(p.filtered[start + k], w as nat))
                            } else {
                                None
                            },
                            row_selected(p, start + k),
                        ),
                ),
            decreases count - j,
        {
            let r = self.picker_row(start + j, w);
            let ghost before = picker_rows_view(rows@);
            let ghost rv = picker_rows_view(seq![r])[0];
            rows.push(r);
            assert(picker_rows_view(rows@) =~= before.push(rv));
            assert(picker_rows_view(rows@) =~= Seq::new(
                (j + 1) as nat,
                |k: int|
                    (
                        name_line(p.filtered[start + k], w as nat),
                        if picker_searching(p) {
                            Some(path_line(p.filtered[start + k], w as nat))
                        } else {
                            None
                        },
                        row_selected(p, start + k),
                    ),
            ));
            j = j + 1;
        }
        PickerLines { search_text, has_query: searching, scrollbar, start, rows }
    }
}


/// Whether two strings hold the same chars.
fn same_text(a: &String, b: &String) -> (r: bool)
    ensures
        r == (a@ == b@),
{
    let x = str_to_chars(a.as_str());
    let y = str_to_chars(b.as_str());
    crate::strings::chars_eq(&x, &y)
}

/// Whether two lists of entries are the same, entry by entry.
fn same_items(a: &Vec<FileItem>, b: &Vec<FileItem>) -> (r: bool)
    ensures
        r == (file_items_view(a@) == file_items_view(b@)),
{
    if a.len() != b.len() {
        assert(file_items_view(a@).len() != file_items_view(b@).len());
        return false;
    }
    let mut i: usize = 0;
    while i < a.len()
        invariant
            i <= a.len() == b.len(),
            forall|j: int| 0 <= j < i ==> file_item_view(a@[j]) == file_item_view(b@[j]),
        decreases a.len() - i,
    {
        let x = &a[i];
        let y = &b[i];
        let same = same_text(&x.path, &y.path) && same_text(&x.name, &y.name) && x.is_dir == y.is_dir
            && same_text(&x.relative_path, &y.relative_path);
        if !same {
            assert(file_items_view(a@)[i as int] != file_items_view(b@)[i as int]);
            return false;
        }
        i = i + 1;
    }
    assert(file_items_view(a@) =~= file_items_view(b@));
    true
}

impl FilePickerState {
    /// Whether two pickers show the same: the same query, entries, selection,
    /// hovered entry, directory and scroll speed (when the last scroll was,
    /// and the rules, are not compared).
    pub fn same_state(&self, other: &FilePickerState) -> (r: bool)
        ensures
            r == (self@.search_query == other@.search_query && self@.filtered == other@.filtered
                && self@.selected_index == other@.selected_index && self@.hovered_index
                == other@.hovered_index && self@.current_dir == other@.current_dir && self@.all
                == other@.all && self@.scroll_acceleration == other@.scroll_acceleration),
    {
        same_text(&self.search_query, &other.search_query) && same_items(
            &self.filtered_items,
            &other.filtered_items,
        ) && self.selected_index == other.selected_index && self.hovered_index
            == other.hovered_index && same_text(&self.current_dir, &other.current_dir)
            && same_items(&self.all_items, &other.all_items) && self.scroll_acceleration
            == other.scroll_acceleration
    }
}

} // verus!
