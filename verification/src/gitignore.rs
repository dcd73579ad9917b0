//! Deciding whether a path is ignored by the patterns of a `.gitignore` file
//! and a few patterns that are always ignored.
use vstd::prelude::*;
use crate::strings::{trim, trim_ws, split_lines, text_lines, chars_eq, contains_char, subrange_vec};
use crate::chars::{str_to_chars, chars_to_string};

verus! {

/// What `Path::strip_prefix` turns `path` into when `base` is one of its
/// leading components (shown lossily as a string); `None` otherwise.
pub uninterp spec fn path_strip_prefix(path: Seq<char>, base: Seq<char>) -> Option<Seq<char>>;

/// Calls `Path::strip_prefix` and shows the result with `to_string_lossy`;
/// the component-wise comparison is named, not written out.
#[verifier::external_body]
pub(crate) fn strip_path_prefix(path: &str, base: &str) -> (r: Option<String>)
    ensures
        match path_strip_prefix(path@, base@) {
            Some(p) => r is Some && r->0@ == p,
            None => r is None,
        },
{
    match std::path::Path::new(path).strip_prefix(base) {
        Ok(rel) => Some(rel.to_string_lossy().into_owned()),
        Err(_) => None,
    }
}

/// A parsed pattern.
pub struct PatternSpec {
    pub pattern: Seq<char>,
    pub is_negation: bool,
    pub is_directory_only: bool,
    pub is_absolute: bool,
}

#[derive(Debug, Clone, PartialEq)]
struct GitIgnorePattern {
    pattern: Vec<char>,
    is_negation: bool,
    is_directory_only: bool,
    is_absolute: bool,
}

impl GitIgnorePattern {
    spec fn model(&self) -> PatternSpec {
        PatternSpec {
            pattern: self.pattern@,
            is_negation: self.is_negation,
            is_directory_only: self.is_directory_only,
            is_absolute: self.is_absolute,
        }
    }
}

/// The gitignore patterns of a repository.
#[derive(Debug, Clone, PartialEq)]
pub struct GitIgnore {
    patterns: Vec<GitIgnorePattern>,
    repo_root: String,
}

/// The pattern a line of a `.gitignore` file stands for: trimmed; none for an
/// empty line or a comment; a leading `!` negates, a trailing `/` restricts to
/// directories, a leading `/` anchors at the root.
pub open spec fn parse_line_spec(line: Seq<char>) -> Option<PatternSpec> {
    let t = trim_ws(line);
    if t.len() == 0 || t[0] == '#' {
        None
    } else {
        let neg = t[0] == '!';
        let p1 = if neg {
            t.drop_first()
        } else {
            t
        };
        let dir = p1.len() > 0 && p1.last() == '/';
        let p2 = if dir {
            p1.drop_last()
        } else {
            p1
        };
        let abs = p2.len() > 0 && p2[0] == '/';
        let p3 = if abs {
            p2.drop_first()
        } else {
            p2
        };
        Some(PatternSpec { pattern: p3, is_negation: neg, is_directory_only: dir, is_absolute: abs })
    }
}

/// A line of a `.gitignore` file is kept as a pattern unless, trimmed, it is
/// empty or a comment. The kept pattern is the trimmed line with its marks
/// taken off: a leading `!` (negation), then a trailing `/` (directories
/// only), then a leading `/` (anchored at the root); putting the marks back
/// around the pattern gives the trimmed line again.
pub proof fn lemma_parse_line_takes_marks_off(line: Seq<char>)
    ensures
        parse_line_spec(line) is None <==> (trim_ws(line).len() == 0 || trim_ws(line)[0] == '#'),
        parse_line_spec(line) matches Some(p) ==> ({
            let t = trim_ws(line);
            let body = if t[0] == '!' {
                t.drop_first()
            } else {
                t
            };
            let trail: int = if p.is_directory_only {
                1
            } else {
                0
            };
            &&& p.is_negation == (t[0] == '!')
            &&& p.is_directory_only == (body.len() > 0 && body[body.len() - 1] == '/')
            &&& p.is_absolute == (body.len() > trail && body[0] == '/')
            &&& t == (if p.is_negation {
                seq!['!']
            } else {
                Seq::empty()
            }) + (if p.is_absolute {
                seq!['/']
            } else {
                Seq::empty()
            }) + p.pattern + (if p.is_directory_only {
                seq!['/']
            } else {
                Seq::empty()
            })
        }),
{
    let t = trim_ws(line);
    if t.len() > 0 && t[0] != '#' {
        let negated = t[0] == '!';
        let rest = if negated {
            t.drop_first()
        } else {
            t
        };
        let slash_end = rest.len() > 0 && rest.last() == '/';
        let middle = if slash_end {
            rest.drop_last()
        } else {
            rest
        };
        let anchored = middle.len() > 0 && middle[0] == '/';
        let stored = if anchored {
            middle.drop_first()
        } else {
            middle
        };
        let none = Seq::<char>::empty();
        let a: Seq<char> = if anchored { seq!['/'] } else { none };
        let d: Seq<char> = if slash_end { seq!['/'] } else { none };
        let n: Seq<char> = if negated { seq!['!'] } else { none };
        assert(a + stored =~= middle);
        assert(middle + d =~= rest);
        assert(n + rest =~= t);
        assert(n + a + stored + d =~= t);
    }
}

/// The patterns of a list of lines, in order.
pub open spec fn parse_lines_spec(lines: Seq<Seq<char>>) -> Seq<PatternSpec>
    decreases lines.len(),
{
    if lines.len() == 0 {
        Seq::empty()
    } else {
        parse_lines_spec(lines.drop_last()) + match parse_line_spec(lines.last()) {
            Some(p) => seq![p],
            None => Seq::empty(),
        }
    }
}

/// A plain pattern (no negation, not directory-only, not anchored).
pub open spec fn plain(p: Seq<char>) -> PatternSpec {
    PatternSpec { pattern: p, is_negation: false, is_directory_only: false, is_absolute: false }
}

/// The patterns that are always ignored.
pub open spec fn default_patterns() -> Seq<PatternSpec> {
    seq![
        plain(".git"@),
        plain(".DS_Store"@),
        plain("Thumbs.db"@),
        plain("*.swp"@),
        plain("*.swo"@),
        plain("*~"@),
    ]
}

/// Whether the text from `j` on matches the pattern from `i` on: `*` matches
/// any run of chars, `?` any one char, any other char itself.
pub open spec fn wildcard_from(p: Seq<char>, t: Seq<char>, i: int, j: int) -> bool
    decreases p.len() - i, 1int, 0int,
{
    if i >= p.len() {
        j >= t.len()
    } else if p[i] == '*' {
        star_from(p, t, i, j)
    } else if j >= t.len() {
        false
    } else if p[i] == '?' || p[i] == t[j] {
        wildcard_from(p, t, i + 1, j + 1)
    } else {
        false
    }
}

/// Whether the `*` at index `i` of the pattern, matching a run that starts at
/// `j`, lets the rest of the pattern match from some index `m >= j` on.
pub open spec fn star_from(p: Seq<char>, t: Seq<char>, i: int, j: int) -> bool
    decreases p.len() - i, 0int, t.len() - j,
{
    if 0 <= i < p.len() {
        wildcard_from(p, t, i + 1, j) || (j < t.len() && star_from(p, t, i, j + 1))
    } else {
        false
    }
}

/// A pattern matches a text when they are equal, or when the pattern holds a
/// `*` and matches as a wildcard pattern.
pub open spec fn glob_match_spec(p: Seq<char>, t: Seq<char>) -> bool {
    p == t || (p.contains('*') && wildcard_from(p, t, 0, 0))
}

/// Whether `i` starts a path suffix of `path`: the start, or just after a `/`.
pub open spec fn suffix_start(path: Seq<char>, i: int) -> bool {
    0 <= i <= path.len() && (i == 0 || path[i - 1] == '/')
}

/// Whether a pattern matches a path relative to the root: never a file when
/// directory-only; the whole path when anchored; otherwise the whole path or
/// any suffix of it that starts after a `/`.
pub open spec fn matches_pattern_spec(p: PatternSpec, path: Seq<char>, is_dir: bool) -> bool {
    if p.is_directory_only && !is_dir {
        false
    } else if p.is_absolute {
        glob_match_spec(p.pattern, path)
    } else {
        exists|i: int| suffix_start(path, i) && #[trigger] glob_match_spec(p.pattern, path.skip(i))
    }
}

/// Whether the patterns ignore a relative path: the last pattern that matches
/// decides, a negated one re-including the path; no match means not ignored.
pub open spec fn ignored_by(pats: Seq<PatternSpec>, path: Seq<char>, is_dir: bool) -> bool
    decreases pats.len(),
{
    if pats.len() == 0 {
        false
    } else if matches_pattern_spec(pats.last(), path, is_dir) {
        !pats.last().is_negation
    } else {
        ignored_by(pats.drop_last(), path, is_dir)
    }
}

/// The patterns ignore a path exactly when some pattern that is not a
/// negation matches it and no later pattern matches it: the last matching
/// pattern decides, and a path no pattern matches is not ignored.
pub proof fn lemma_last_match_decides(pats: Seq<PatternSpec>, path: Seq<char>, is_dir: bool)
    ensures
        ignored_by(pats, path, is_dir) <==> exists|i: int|
            0 <= i < pats.len() && matches_pattern_spec(#[trigger] pats[i], path, is_dir)
                && !pats[i].is_negation && forall|j: int|
                i < j < pats.len() ==> !matches_pattern_spec(#[trigger] pats[j], path, is_dir),
    decreases pats.len(),
{
    if pats.len() > 0 {
        let n = pats.len() - 1;
        let init = pats.drop_last();
        lemma_last_match_decides(init, path, is_dir);
        if matches_pattern_spec(pats[n], path, is_dir) {
            if !pats[n].is_negation {
                assert(matches_pattern_spec(pats[n], path, is_dir));
            } else {
                assert forall|i: int|
                    0 <= i < pats.len() && matches_pattern_spec(#[trigger] pats[i], path, is_dir)
                        && !pats[i].is_negation implies exists|j: int|
                    i < j < pats.len() && matches_pattern_spec(#[trigger] pats[j], path, is_dir) by {
                    assert(matches_pattern_spec(pats[n], path, is_dir));
                }
            }
        } else {
            if ignored_by(init, path, is_dir) {
                let i = choose|i: int|
                    0 <= i < init.len() && matches_pattern_spec(#[trigger] init[i], path, is_dir)
                        && !init[i].is_negation && forall|j: int|
                        i < j < init.len() ==> !matches_pattern_spec(#[trigger] init[j], path, is_dir);
                assert(init[i] == pats[i]);
                assert forall|j: int| i < j < pats.len() implies !matches_pattern_spec(
                    #[trigger] pats[j],
                    path,
                    is_dir,
                ) by {
                    if j < n {
                        assert(init[j] == pats[j]);
                    }
                }
            } else {
                assert forall|i: int|
                    0 <= i < pats.len() && matches_pattern_spec(#[trigger] pats[i], path, is_dir)
                        && !pats[i].is_negation implies exists|j: int|
                    i < j < pats.len() && matches_pattern_spec(#[trigger] pats[j], path, is_dir) by {
                    assert(i < n);
                    assert(init[i] == pats[i]);
                    let j = choose|j: int|
                        i < j < init.len() && matches_pattern_spec(#[trigger] init[j], path, is_dir);
                    assert(init[j] == pats[j]);
                }
            }
        }
    }
}

/// How one pattern meets a path: a directory-only pattern never matches a
/// file; an anchored pattern without `*` matches the whole relative path
/// only; an unanchored one without `*` matches the whole path or any part
/// of it that starts after a `/`.
pub proof fn lemma_pattern_match_shape(p: PatternSpec, path: Seq<char>, is_dir: bool)
    ensures
        p.is_directory_only && !is_dir ==> !matches_pattern_spec(p, path, is_dir),
        !p.pattern.contains('*') && !(p.is_directory_only && !is_dir) && p.is_absolute
            ==> (matches_pattern_spec(p, path, is_dir) <==> p.pattern == path),
        !p.pattern.contains('*') && !(p.is_directory_only && !is_dir) && !p.is_absolute
            ==> (matches_pattern_spec(p, path, is_dir) <==> exists|i: int|
            0 <= i <= path.len() && (i == 0 || path[i - 1] == '/') && #[trigger] path.skip(i)
                == p.pattern),
{
    if !p.pattern.contains('*') && !(p.is_directory_only && !is_dir) && !p.is_absolute {
        if matches_pattern_spec(p, path, is_dir) {
            let i = choose|i: int| suffix_start(path, i) && #[trigger] glob_match_spec(p.pattern, path.skip(i));
            assert(path.skip(i) == p.pattern);
        }
        if exists|i: int|
            0 <= i <= path.len() && (i == 0 || path[i - 1] == '/') && #[trigger] path.skip(i)
                == p.pattern {
            let i = choose|i: int|
                0 <= i <= path.len() && (i == 0 || path[i - 1] == '/') && #[trigger] path.skip(i)
                    == p.pattern;
            assert(glob_match_spec(p.pattern, path.skip(i)));
        }
    }
}

/// From index `i` on, a pattern with no `*` or `?` matches the text from
/// `j` on exactly when the two rests are equal.
proof fn lemma_literal_rest(p: Seq<char>, t: Seq<char>, i: int, j: int)
    requires
        0 <= i <= p.len(),
        0 <= j <= t.len(),
        forall|k: int| i <= k < p.len() ==> #[trigger] p[k] != '*' && p[k] != '?',
    ensures
        wildcard_from(p, t, i, j) <==> p.skip(i) == t.skip(j),
    decreases p.len() - i,
{
    if i < p.len() {
        assert(p[i] != '*' && p[i] != '?');
        if j < t.len() && p[i] == t[j] {
            lemma_literal_rest(p, t, i + 1, j + 1);
            assert(wildcard_from(p, t, i, j) == wildcard_from(p, t, i + 1, j + 1));
            if p.skip(i + 1) == t.skip(j + 1) {
                assert(p.skip(i) =~= seq![p[i]] + p.skip(i + 1));
                assert(t.skip(j) =~= seq![t[j]] + t.skip(j + 1));
            }
            if p.skip(i) == t.skip(j) {
                assert(p.skip(i + 1) =~= p.skip(i).skip(1));
                assert(t.skip(j + 1) =~= t.skip(j).skip(1));
            }
        } else if j < t.len() {
            assert(p.skip(i)[0] != t.skip(j)[0]);
        } else {
            assert(p.skip(i).len() != t.skip(j).len());
        }
    } else {
        assert(p.skip(i).len() == 0);
        if j == t.len() {
            assert(t.skip(j) =~= p.skip(i));
        }
    }
}

/// A `*` at index `i`, its run starting at `j`, lets the pattern match when
/// the rest of the pattern matches from some index `m >= j` of the text.
proof fn lemma_star_some_rest(p: Seq<char>, t: Seq<char>, i: int, j: int)
    requires
        0 <= i < p.len(),
        0 <= j <= t.len(),
    ensures
        star_from(p, t, i, j) <==> exists|m: int| j <= m <= t.len() && #[trigger] wildcard_from(p, t, i + 1, m),
    decreases t.len() - j,
{
    assert(star_from(p, t, i, j) == (wildcard_from(p, t, i + 1, j) || (j < t.len() && star_from(
        p,
        t,
        i,
        j + 1,
    ))));
    if j < t.len() {
        lemma_star_some_rest(p, t, i, j + 1);
        if star_from(p, t, i, j + 1) {
            let m = choose|m: int| j + 1 <= m <= t.len() && #[trigger] wildcard_from(p, t, i + 1, m);
            assert(wildcard_from(p, t, i + 1, m));
        }
        if exists|m: int| j <= m <= t.len() && #[trigger] wildcard_from(p, t, i + 1, m) {
            let m = choose|m: int| j <= m <= t.len() && #[trigger] wildcard_from(p, t, i + 1, m);
            if m > j {
                assert(wildcard_from(p, t, i + 1, m));
            }
        }
    } else {
        if wildcard_from(p, t, i + 1, j) {
            assert(wildcard_from(p, t, i + 1, j));
        }
    }
}

/// A pattern `*` followed by text with no `*` or `?` (such as `*.swp`)
/// matches exactly the names that end with that text.
pub proof fn lemma_star_suffix_pattern(tail: Seq<char>, t: Seq<char>)
    requires
        !tail.contains('*'),
        !tail.contains('?'),
    ensures
        glob_match_spec(seq!['*'] + tail, t) <==> (tail.len() <= t.len() && t.skip(
            t.len() - tail.len(),
        ) == tail),
{
    let p = seq!['*'] + tail;
    assert(p.contains('*')) by {
        assert(p[0] == '*');
    }
    assert forall|k: int| 1 <= k < p.len() implies #[trigger] p[k] != '*' && p[k] != '?' by {
        assert(p[k] == tail[k - 1]);
    }
    assert(p.skip(1) =~= tail);
    lemma_star_some_rest(p, t, 0, 0);
    let ends = tail.len() <= t.len() && t.skip(t.len() - tail.len()) == tail;
    if ends {
        let m = t.len() - tail.len();
        lemma_literal_rest(p, t, 1, m);
        assert(wildcard_from(p, t, 1, m));
    }
    if wildcard_from(p, t, 0, 0) {
        let m = choose|m: int| 0 <= m <= t.len() && #[trigger] wildcard_from(p, t, 1, m);
        lemma_literal_rest(p, t, 1, m);
        assert(t.skip(m) == tail);
        assert(t.skip(m).len() == t.len() - m);
    }
    if p == t {
        assert(t.skip(1) =~= tail);
    }
}

proof fn lemma_suffix_match(p: PatternSpec, path: Seq<char>, is_dir: bool, i: int)
    requires
        !(p.is_directory_only && !is_dir),
        !p.is_absolute,
        suffix_start(path, i),
        glob_match_spec(p.pattern, path.skip(i)),
    ensures
        matches_pattern_spec(p, path, is_dir),
{
}

/// Parses one line of a `.gitignore` file.
fn parse_line(line: &[char]) -> (r: Option<GitIgnorePattern>)
    ensures
        match parse_line_spec(line@) {
            Some(p) => r is Some && r->0.model() == p,
            None => r is None,
        },
{
    let t = trim(line);
    if t.len() == 0 || t[0] == '#' {
        return None;
    }
    let is_negation = t[0] == '!';
    let p1 = if is_negation {
        subrange_vec(&t, 1, t.len())
    } else {
        t
    };
    proof {
        if is_negation {
            assert(p1@ =~= trim_ws(line@).drop_first());
        }
    }
    let is_directory_only = p1.len() > 0 && p1[p1.len() - 1] == '/';
    let mut p2 = p1;
    if is_directory_only {
        p2.pop();
    }
    let is_absolute = p2.len() > 0 && p2[0] == '/';
    let p3 = if is_absolute {
        subrange_vec(&p2, 1, p2.len())
    } else {
        p2
    };
    proof {
        if is_absolute {
            assert(p3@ =~= p2@.drop_first());
        }
    }
    Some(GitIgnorePattern { pattern: p3, is_negation, is_directory_only, is_absolute })
}

/// A plain pattern.
fn plain_pattern(p: &str) -> (r: GitIgnorePattern)
    ensures
        r.model() == plain(p@),
{
    GitIgnorePattern {
        pattern: str_to_chars(p),
        is_negation: false,
        is_directory_only: false,
        is_absolute: false,
    }
}

/// Whether text from `t` matches the pattern from `p`.
fn wildcard_match_recursive(pattern: &[char], text: &[char], p: usize, t: usize) -> (r: bool)
    requires
        p <= pattern.len(),
        t <= text.len(),
    ensures
        r == wildcard_from(pattern@, text@, p as int, t as int),
    decreases pattern.len() - p,
{
    if p >= pattern.len() {
        return t >= text.len();
    }
    if pattern[p] == '*' {
        if wildcard_match_recursive(pattern, text, p + 1, t) {
            assert(star_from(pattern@, text@, p as int, t as int));
            return true;
        }
        let mut i: usize = t;
        while i < text.len()
            invariant
                t <= i <= text.len(),
                p < pattern.len(),
                pattern@[p as int] == '*',
                !wildcard_from(pattern@, text@, p + 1, i as int),
                star_from(pattern@, text@, p as int, t as int) == star_from(
                    pattern@,
                    text@,
                    p as int,
                    i as int,
                ),
            decreases text.len() - i,
        {
            if wildcard_match_recursive(pattern, text, p + 1, i + 1) {
                assert(star_from(pattern@, text@, p as int, i + 1));
                return true;
            }
            i = i + 1;
        }
        false
    } else if t >= text.len() {
        false
    } else if pattern[p] == '?' || pattern[p] == text[t] {
        wildcard_match_recursive(pattern, text, p + 1, t + 1)
    } else {
        false
    }
}

/// Whether `text` matches `pattern` as a wildcard pattern.
fn wildcard_match(pattern: &[char], text: &[char]) -> (r: bool)
    ensures
        r == wildcard_from(pattern@, text@, 0, 0),
{
    wildcard_match_recursive(pattern, text, 0, 0)
}

/// Whether `text` matches `pattern`.
fn glob_match(pattern: &[char], text: &[char]) -> (r: bool)
    ensures
        r == glob_match_spec(pattern@, text@),
{
    if chars_eq(pattern, text) {
        return true;
    }
    if contains_char(pattern, '*') {
        return wildcard_match(pattern, text);
    }
    false
}

/// Whether `pattern` matches the relative `path`.
fn matches_pattern(pattern: &GitIgnorePattern, path: &[char], is_directory: bool) -> (r: bool)
    ensures
        r == matches_pattern_spec(pattern.model(), path@, is_directory),
{
    if pattern.is_directory_only && !is_directory {
        return false;
    }
    if pattern.is_absolute {
        return glob_match(&pattern.pattern, path);
    }
    let mut i: usize = 0;
    while i < path.len()
        invariant
            i <= path.len(),
            !pattern.is_absolute,
            !(pattern.is_directory_only && !is_directory),
            forall|k: int|
                0 <= k < i && suffix_start(path@, k) ==> !#[trigger] glob_match_spec(
                    pattern.pattern@,
                    path@.skip(k),
                ),
        decreases path.len() - i,
    {
        if i == 0 || path[i - 1] == '/' {
            let suffix = subrange_vec(path, i, path.len());
            assert(suffix@ =~= path@.skip(i as int));
            if glob_match(&pattern.pattern, &suffix) {
                assert(suffix_start(path@, i as int));
                proof {
                    lemma_suffix_match(pattern.model(), path@, is_directory, i as int);
                }
                return true;
            }
        }
        i = i + 1;
    }
    let n = path.len();
    if n == 0 || path[n - 1] == '/' {
        let suffix: Vec<char> = Vec::new();
        assert(suffix@ =~= path@.skip(n as int));
        if glob_match(&pattern.pattern, &suffix) {
            assert(suffix_start(path@, n as int));
            proof {
                lemma_suffix_match(pattern.model(), path@, is_directory, n as int);
            }
            return true;
        }
    }
    assert forall|k: int| suffix_start(path@, k) implies !#[trigger] glob_match_spec(
        pattern.pattern@,
        path@.skip(k),
    ) by {
        if k == n {
        }
    }
    false
}

impl GitIgnore {
    /// The patterns, in the order in which they apply.
    pub closed spec fn patterns(&self) -> Seq<PatternSpec> {
        self.patterns@.map_values(|p: GitIgnorePattern| p.model())
    }

    /// The root that paths are taken relative to.
    pub closed spec fn root(&self) -> Seq<char> {
        self.repo_root@
    }

    /// The patterns of the repository at `repo_root`: those of its
    /// `.gitignore` (given as `gitignore_content` when the file could be
    /// read), then the ones always ignored.
    pub fn new(repo_root: String, gitignore_content: Option<&str>) -> (g: Self)
        ensures
            g.root() == repo_root@,
            g.patterns() == match gitignore_content {
                Some(c) => parse_lines_spec(text_lines(c@)),
                None => Seq::empty(),
            } + default_patterns(),
    {
        let mut patterns: Vec<GitIgnorePattern> = Vec::new();
        let ghost parsed: Seq<PatternSpec> = Seq::empty();
        if let Some(content) = gitignore_content {
            let chars = str_to_chars(content);
            let lines = split_lines(&chars);
            let mut i: usize = 0;
            while i < lines.len()
                invariant
                    i <= lines.len(),
                    lines@.len() == text_lines(content@).len(),
                    forall|k: int|
                        0 <= k < lines@.len() ==> #[trigger] lines@[k]@ == text_lines(
                            content@,
                        )[k],
                    patterns@.map_values(|p: GitIgnorePattern| p.model()) == parse_lines_spec(
                        text_lines(content@).take(i as int),
                    ),
                decreases lines.len() - i,
            {
                let ghost before = patterns@;
                let parsed_line = parse_line(&lines[i]);
                proof {
                    assert(text_lines(content@).take(i + 1).drop_last() =~= text_lines(
                        content@,
                    ).take(i as int));
                    assert(text_lines(content@).take(i + 1).last() == lines@[i as int]@);
                }
                match parsed_line {
                    Some(p) => {
                        patterns.push(p);
                        assert(patterns@.map_values(|p: GitIgnorePattern| p.model())
                            =~= before.map_values(|p: GitIgnorePattern| p.model()).push(
                            p.model(),
                        ));
                    },
                    None => {
                        assert(parse_lines_spec(text_lines(content@).take(i + 1))
                            =~= parse_lines_spec(text_lines(content@).take(i as int)));
                    },
                }
                i = i + 1;
            }
            proof {
                assert(text_lines(content@).take(lines.len() as int) =~= text_lines(content@));
            }
        }
        add_default_patterns(&mut patterns);
        GitIgnore { patterns, repo_root }
    }

    /// Whether a path under the repository root is ignored: the last
    /// pattern that matches its root-relative form decides; a path outside
    /// the root is not ignored.
    pub open spec fn ignores(&self, path: Seq<char>, is_directory: bool) -> bool {
        match path_strip_prefix(path, self.root()) {
            Some(rel) => ignored_by(self.patterns(), rel, is_directory),
            None => false,
        }
    }

    /// Whether `path` is ignored; `is_directory` tells whether it is a
    /// directory. A path outside the root is never ignored.
    pub fn is_ignored(&self, path: &str, is_directory: bool) -> (r: bool)
        ensures
            r == self.ignores(path@, is_directory),
    {
        let rel = match strip_path_prefix(path, self.repo_root.as_str()) {
            Some(rel) => rel,
            None => {
                return false;
            },
        };
        let path_chars = str_to_chars(rel.as_str());
        let mut ignored = false;
        let mut i: usize = 0;
        while i < self.patterns.len()
            invariant
                i <= self.patterns@.len(),
                path_chars@ == rel@,
                ignored == ignored_by(self.patterns().take(i as int), rel@, is_directory),
            decreases self.patterns.len() - i,
        {
            let m = matches_pattern(&self.patterns[i], &path_chars, is_directory);
            proof {
                assert(self.patterns().take(i + 1).drop_last() =~= self.patterns().take(i as int));
                assert(self.patterns().take(i + 1).last() == self.patterns@[i as int].model());
            }
            if m {
                ignored = !self.patterns[i].is_negation;
            }
            i = i + 1;
        }
        proof {
            assert(self.patterns().take(self.patterns@.len() as int) =~= self.patterns());
        }
        ignored
    }

    /// The root that paths are taken relative to.
    pub fn repo_root(&self) -> (r: &String)
        ensures
            r@ == self.root(),
    {
        &self.repo_root
    }
}


/// Appends the patterns that are always ignored.
fn add_default_patterns(patterns: &mut Vec<GitIgnorePattern>)
    ensures
        final(patterns)@.map_values(|p: GitIgnorePattern| p.model()) == old(patterns)@.map_values(
            |p: GitIgnorePattern| p.model(),
        ) + default_patterns(),
{
    let ghost mid = patterns@;
    patterns.push(plain_pattern(".git"));
    patterns.push(plain_pattern(".DS_Store"));
    patterns.push(plain_pattern("Thumbs.db"));
    patterns.push(plain_pattern("*.swp"));
    patterns.push(plain_pattern("*.swo"));
    patterns.push(plain_pattern("*~"));
    proof {
        let m = mid.map_values(|p: GitIgnorePattern| p.model());
        assert(patterns@.map_values(|p: GitIgnorePattern| p.model()) =~= m + default_patterns());
    }
}

} // verus!
