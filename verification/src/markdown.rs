//! The markdown preview: how the lines of a markdown text are turned into
//! styled spans (headers, lists, quotes, code blocks, inline code, bold and
//! italic text, and tables drawn with box characters).
use vstd::prelude::*;
use crate::chars::{str_to_chars, chars_to_string, string_push, is_whitespace, char_is_whitespace};
use crate::strings::{trim_ws, trim_start_ws, trim_end_ws, starts_with, chars_starts_with, trim, lemma_trim_start_skip};
use crate::text::utf8_len;
use crate::strings::text_lines;
use crate::encoding::{
    prefix_bytes, utf8_width, lemma_prefix_bytes_step, lemma_encode_concat, byte_to_char, char_at_byte,
    lemma_prefix_bytes_strict,
};

verus! {

/// How a span of the preview is drawn.
#[derive(Debug, Clone, Copy, PartialEq, Eq, Structural)]
pub enum SpanStyle {
    /// The default style.
    Plain,
    /// White text.
    Text,
    /// Inline code: green on a dark background.
    Code,
    /// Bold yellow.
    Bold,
    /// Italic magenta.
    Italic,
    /// A level-one header: bold cyan.
    Heading1,
    /// A level-two header: bold blue.
    Heading2,
    /// A level-three header: bold green.
    Heading3,
    /// A list bullet: yellow.
    Bullet,
    /// A quote: italic gray.
    Quote,
    /// A code fence line: dark gray.
    Fence,
    /// A line inside a code block: green on a near-black background.
    CodeBlock,
    /// A table border: blue.
    Border,
    /// A cell of a table header: bold yellow.
    TableHeader,
}

/// A piece of text and its style.
pub struct StyledSpan {
    pub text: String,
    pub style: SpanStyle,
}

/// A span as values.
pub open spec fn span_view(s: StyledSpan) -> (Seq<char>, SpanStyle) {
    (s.text@, s.style)
}

/// The spans of a line as values.
pub open spec fn spans_view(v: Seq<StyledSpan>) -> Seq<(Seq<char>, SpanStyle)> {
    v.map_values(|s: StyledSpan| span_view(s))
}

/// The lines of a preview as values.
pub open spec fn lines_view(v: Seq<Vec<StyledSpan>>) -> Seq<Seq<(Seq<char>, SpanStyle)>> {
    v.map_values(|l: Vec<StyledSpan>| spans_view(l@))
}

fn span(text: String, style: SpanStyle) -> (s: StyledSpan)
    ensures
        span_view(s) == (text@, style),
{
    StyledSpan { text, style }
}

fn span_of(text: &[char], style: SpanStyle) -> (s: StyledSpan)
    ensures
        span_view(s) == (text@, style),
{
    StyledSpan { text: chars_to_string(text), style }
}

/// Appends a span to a line.
fn push_span(v: &mut Vec<StyledSpan>, s: StyledSpan)
    ensures
        spans_view(final(v)@) == spans_view(old(v)@).push(span_view(s)),
{
    v.push(s);
    assert(spans_view(v@) =~= spans_view(old(v)@).push(span_view(s)));
}

/// The markdown preview of a text, scrolled to a line and column.
pub struct MarkdownWidget<'a> {
    content: &'a str,
    viewport_offset: (usize, usize),
    show_scrollbar: bool,
}

impl<'a> MarkdownWidget<'a> {
    /// The text shown.
    pub closed spec fn content_spec(&self) -> Seq<char> {
        self.content@
    }

    /// The first line and column shown.
    pub closed spec fn offset_spec(&self) -> (usize, usize) {
        self.viewport_offset
    }

    /// Whether a scrollbar is drawn when the text is longer than the view.
    pub closed spec fn scrollbar_spec(&self) -> bool {
        self.show_scrollbar
    }

    /// The preview of `content` from its start, with a scrollbar.
    pub fn new(content: &'a str) -> (w: Self)
        ensures
            w.content_spec() == content@,
            w.offset_spec() == (0usize, 0usize),
            w.scrollbar_spec(),
    {
        MarkdownWidget { content, viewport_offset: (0, 0), show_scrollbar: true }
    }

    /// The same preview scrolled to `offset`.
    pub fn viewport_offset(self, offset: (usize, usize)) -> (w: Self)
        ensures
            w.content_spec() == self.content_spec(),
            w.offset_spec() == offset,
            w.scrollbar_spec() == self.scrollbar_spec(),
    {
        MarkdownWidget { viewport_offset: offset, ..self }
    }

    /// The same preview, with or without a scrollbar.
    pub fn show_scrollbar(self, show: bool) -> (w: Self)
        ensures
            w.content_spec() == self.content_spec(),
            w.offset_spec() == self.offset_spec(),
            w.scrollbar_spec() == show,
    {
        MarkdownWidget { show_scrollbar: show, ..self }
    }

    /// The text shown.
    pub fn content(&self) -> (s: &'a str)
        ensures
            s@ == self.content_spec(),
    {
        self.content
    }

    /// The first line and column shown.
    pub fn offset(&self) -> (o: (usize, usize))
        ensures
            o == self.offset_spec(),
    {
        self.viewport_offset
    }

    /// Whether a scrollbar is drawn when the text is longer than the view.
    pub fn has_scrollbar(&self) -> (b: bool)
        ensures
            b == self.scrollbar_spec(),
    {
        self.show_scrollbar
    }
}

/// Whether `c` marks up text: a backtick or an asterisk.
pub open spec fn is_markup(c: char) -> bool {
    c == '`' || c == '*'
}

/// The number of chars of `s` shown once markup is taken out.
pub open spec fn display_len(s: Seq<char>) -> nat
    decreases s.len(),
{
    if s.len() == 0 {
        0
    } else {
        display_len(s.drop_last()) + if is_markup(s.last()) {
            0nat
        } else {
            1nat
        }
    }
}

/// The number of chars of `text` shown once its markup (backticks and
/// asterisks) is taken out.
pub fn calculate_display_length(text: &[char]) -> (n: usize)
    ensures
        n == display_len(text@),
{
    let mut n: usize = 0;
    let mut i: usize = 0;
    while i < text.len()
        invariant
            i <= text.len(),
            n == display_len(text@.take(i as int)),
            n <= i,
        decreases text.len() - i,
    {
        assert(text@.take(i + 1).drop_last() =~= text@.take(i as int));
        if text[i] != '`' && text[i] != '*' {
            n = n + 1;
        }
        i = i + 1;
    }
    assert(text@.take(i as int) =~= text@);
    n
}

/// The index of the first `c` in `s` at or after `from`, or the length.
pub open spec fn next_char_at(s: Seq<char>, c: char, from: int) -> int
    decreases s.len() - from,
{
    if from >= s.len() {
        s.len() as int
    } else if s[from] == c {
        from
    } else {
        next_char_at(s, c, from + 1)
    }
}

/// The index of the first `**` in `s` at or after `from`, or the length.
pub open spec fn next_pair_at(s: Seq<char>, from: int) -> int
    decreases s.len() - from,
{
    if from >= s.len() {
        s.len() as int
    } else if s[from] == '*' && from + 1 < s.len() && s[from + 1] == '*' {
        from
    } else {
        next_pair_at(s, from + 1)
    }
}

pub proof fn lemma_next_char_at(s: Seq<char>, c: char, from: int)
    requires
        0 <= from,
    ensures
        from <= next_char_at(s, c, from) || next_char_at(s, c, from) == s.len(),
        next_char_at(s, c, from) <= s.len() || from > s.len(),
        next_char_at(s, c, from) < s.len() ==> s[next_char_at(s, c, from)] == c,
    decreases s.len() - from,
{
    if from < s.len() && s[from] != c {
        lemma_next_char_at(s, c, from + 1);
    }
}

pub proof fn lemma_next_pair_at(s: Seq<char>, from: int)
    requires
        0 <= from,
    ensures
        from <= next_pair_at(s, from) || next_pair_at(s, from) == s.len(),
        next_pair_at(s, from) <= s.len() || from > s.len(),
        next_pair_at(s, from) < s.len() ==> next_pair_at(s, from) + 1 < s.len(),
    decreases s.len() - from,
{
    if from < s.len() && !(s[from] == '*' && from + 1 < s.len() && s[from + 1] == '*') {
        lemma_next_pair_at(s, from + 1);
    }
}

/// The pending plain text as a span, if there is any.
pub open spec fn flushed(cur: Seq<char>) -> Seq<(Seq<char>, SpanStyle)> {
    if cur.len() > 0 {
        seq![(cur, SpanStyle::Text)]
    } else {
        Seq::empty()
    }
}

/// The spans of `s` from index `i` on, `cur` holding the plain text read
/// since the last span. A backtick opens inline code up to the next
/// backtick, `**` opens bold text up to the next `**`, a single `*` opens
/// italic text up to the next `*`; without its closing mark, an opening
/// mark and the rest of the line are plain text.
pub open spec fn inline_from(s: Seq<char>, i: int, cur: Seq<char>) -> Seq<(Seq<char>, SpanStyle)>
    decreases s.len() - i,
{
    if i < 0 || i >= s.len() {
        flushed(cur)
    } else if s[i] == '`' {
        let j = next_char_at(s, '`', i + 1);
        proof {
            lemma_next_char_at(s, '`', i + 1);
        }
        if j < s.len() {
            flushed(cur) + seq![(s.subrange(i + 1, j), SpanStyle::Code)] + inline_from(
                s,
                j + 1,
                Seq::empty(),
            )
        } else {
            flushed(cur) + seq![(s.skip(i), SpanStyle::Text)]
        }
    } else if s[i] == '*' && i + 1 < s.len() && s[i + 1] == '*' {
        let j = next_pair_at(s, i + 2);
        proof {
            lemma_next_pair_at(s, i + 2);
        }
        if j < s.len() {
            flushed(cur) + seq![(s.subrange(i + 2, j), SpanStyle::Bold)] + inline_from(
                s,
                j + 2,
                Seq::empty(),
            )
        } else {
            flushed(cur) + seq![(s.skip(i), SpanStyle::Text)]
        }
    } else if s[i] == '*' {
        let j = next_char_at(s, '*', i + 1);
        proof {
            lemma_next_char_at(s, '*', i + 1);
        }
        if j < s.len() {
            flushed(cur) + seq![(s.subrange(i + 1, j), SpanStyle::Italic)] + inline_from(
                s,
                j + 1,
                Seq::empty(),
            )
        } else {
            flushed(cur) + seq![(s.skip(i), SpanStyle::Text)]
        }
    } else {
        inline_from(s, i + 1, cur.push(s[i]))
    }
}

/// No `c` lies between `from` and the index `next_char_at` finds.
proof fn lemma_next_char_none(s: Seq<char>, c: char, from: int)
    requires
        0 <= from,
    ensures
        forall|k: int| from <= k < next_char_at(s, c, from) && k < s.len() ==> #[trigger] s[k] != c,
    decreases s.len() - from,
{
    if from < s.len() && s[from] != c {
        lemma_next_char_none(s, c, from + 1);
    }
}

/// No `**` starts between `from` and the index `next_pair_at` finds.
proof fn lemma_next_pair_none(s: Seq<char>, from: int)
    requires
        0 <= from,
    ensures
        forall|k: int|
            from <= k < next_pair_at(s, from) && k + 1 < s.len() ==> !(#[trigger] s[k] == '*' && s[k
                + 1] == '*'),
    decreases s.len() - from,
{
    if from < s.len() && !(s[from] == '*' && from + 1 < s.len() && s[from + 1] == '*') {
        lemma_next_pair_none(s, from + 1);
    }
}

/// What an inline span can hold, by its style.
pub open spec fn inline_span_ok(s: Seq<char>, sp: (Seq<char>, SpanStyle)) -> bool {
    let t = sp.0;
    match sp.1 {
        SpanStyle::Code => !t.contains('`'),
        SpanStyle::Italic => !t.contains('*'),
        SpanStyle::Bold => forall|x: int| 0 <= x < t.len() - 1 ==> !(#[trigger] t[x] == '*' && t[x + 1] == '*'),
        SpanStyle::Text => (!t.contains('`') && !t.contains('*')) || (t.len() > 0 && (t[0] == '`'
            || t[0] == '*') && t.len() <= s.len() && t == s.skip(s.len() - t.len())),
        _ => false,
    }
}

/// The spans read from index `i` on, with plain text `cur` pending, each
/// hold what their style allows.
proof fn lemma_inline_from_ok(s: Seq<char>, i: int, cur: Seq<char>)
    requires
        0 <= i,
        !cur.contains('`'),
        !cur.contains('*'),
    ensures
        forall|k: int|
            0 <= k < inline_from(s, i, cur).len() ==> inline_span_ok(s, #[trigger] inline_from(s, i, cur)[k]),
    decreases s.len() - i,
{
    let out = inline_from(s, i, cur);
    let f = flushed(cur);
    assert forall|k: int| 0 <= k < f.len() implies inline_span_ok(s, #[trigger] f[k]) by {
        assert(f[k] == (cur, SpanStyle::Text));
    }
    if i >= s.len() {
        assert(out == f);
    } else if s[i] == '`' {
        let j = next_char_at(s, '`', i + 1);
        lemma_next_char_at(s, '`', i + 1);
        lemma_next_char_none(s, '`', i + 1);
        if j < s.len() {
            let c = s.subrange(i + 1, j);
            assert(!c.contains('`')) by {
                assert forall|x: int| 0 <= x < c.len() implies c[x] != '`' by {
                    assert(c[x] == s[i + 1 + x]);
                }
            }
            lemma_inline_from_ok(s, j + 1, Seq::empty());
            let rest = inline_from(s, j + 1, Seq::empty());
            let mid = seq![(c, SpanStyle::Code)];
            assert(out == f + mid + rest);
            assert forall|k: int| 0 <= k < out.len() implies inline_span_ok(s, #[trigger] out[k]) by {
                if k < f.len() {
                    assert(out[k] == f[k]);
                } else if k == f.len() {
                    assert(out[k] == mid[0]);
                } else {
                    assert(out[k] == rest[k - f.len() - 1]);
                }
            }
        } else {
            let t = s.skip(i);
            assert(t == s.skip(s.len() - t.len()));
            assert(t[0] == '`');
            assert(out == f + seq![(t, SpanStyle::Text)]);
            assert forall|k: int| 0 <= k < out.len() implies inline_span_ok(s, #[trigger] out[k]) by {
                if k < f.len() {
                    assert(out[k] == f[k]);
                }
            }
        }
    } else if s[i] == '*' && i + 1 < s.len() && s[i + 1] == '*' {
        let j = next_pair_at(s, i + 2);
        lemma_next_pair_at(s, i + 2);
        lemma_next_pair_none(s, i + 2);
        if j < s.len() {
            let c = s.subrange(i + 2, j);
            assert forall|x: int| 0 <= x < c.len() - 1 implies !(#[trigger] c[x] == '*' && c[x + 1] == '*') by {
                assert(c[x] == s[i + 2 + x]);
                assert(c[x + 1] == s[i + 2 + x + 1]);
            }
            lemma_inline_from_ok(s, j + 2, Seq::empty());
            let rest = inline_from(s, j + 2, Seq::empty());
            let mid = seq![(c, SpanStyle::Bold)];
            assert(out == f + mid + rest);
            assert forall|k: int| 0 <= k < out.len() implies inline_span_ok(s, #[trigger] out[k]) by {
                if k < f.len() {
                    assert(out[k] == f[k]);
                } else if k == f.len() {
                    assert(out[k] == mid[0]);
                } else {
                    assert(out[k] == rest[k - f.len() - 1]);
                }
            }
        } else {
            let t = s.skip(i);
            assert(t == s.skip(s.len() - t.len()));
            assert(t[0] == '*');
            assert(out == f + seq![(t, SpanStyle::Text)]);
            assert forall|k: int| 0 <= k < out.len() implies inline_span_ok(s, #[trigger] out[k]) by {
                if k < f.len() {
                    assert(out[k] == f[k]);
                }
            }
        }
    } else if s[i] == '*' {
        let j = next_char_at(s, '*', i + 1);
        lemma_next_char_at(s, '*', i + 1);
        lemma_next_char_none(s, '*', i + 1);
        if j < s.len() {
            let c = s.subrange(i + 1, j);
            assert(!c.contains('*')) by {
                assert forall|x: int| 0 <= x < c.len() implies c[x] != '*' by {
                    assert(c[x] == s[i + 1 + x]);
                }
            }
            lemma_inline_from_ok(s, j + 1, Seq::empty());
            let rest = inline_from(s, j + 1, Seq::empty());
            let mid = seq![(c, SpanStyle::Italic)];
            assert(out == f + mid + rest);
            assert forall|k: int| 0 <= k < out.len() implies inline_span_ok(s, #[trigger] out[k]) by {
                if k < f.len() {
                    assert(out[k] == f[k]);
                } else if k == f.len() {
                    assert(out[k] == mid[0]);
                } else {
                    assert(out[k] == rest[k - f.len() - 1]);
                }
            }
        } else {
            let t = s.skip(i);
            assert(t == s.skip(s.len() - t.len()));
            assert(t[0] == '*');
            assert(out == f + seq![(t, SpanStyle::Text)]);
            assert forall|k: int| 0 <= k < out.len() implies inline_span_ok(s, #[trigger] out[k]) by {
                if k < f.len() {
                    assert(out[k] == f[k]);
                }
            }
        }
    } else {
        let c2 = cur.push(s[i]);
        assert(!c2.contains('`')) by {
            assert forall|x: int| 0 <= x < c2.len() implies c2[x] != '`' by {
                if x < cur.len() {
                    assert(c2[x] == cur[x]);
                }
            }
        }
        assert(!c2.contains('*')) by {
            assert forall|x: int| 0 <= x < c2.len() implies c2[x] != '*' by {
                if x < cur.len() {
                    assert(c2[x] == cur[x]);
                }
            }
        }
        lemma_inline_from_ok(s, i + 1, c2);
        assert(out == inline_from(s, i + 1, c2));
    }
}

/// Inline markup: a code span holds no backtick (it ends at the next one),
/// an italic span holds no `*`, a bold span holds no `**`, and a text span
/// holds no mark at all unless it is a mark that is never closed together
/// with the rest of the line; no other style comes out.
pub proof fn lemma_inline_spans_shape(s: Seq<char>)
    ensures
        forall|k: int| 0 <= k < inline_spans(s).len() ==> inline_span_ok(s, #[trigger] inline_spans(s)[k]),
{
    lemma_inline_from_ok(s, 0, Seq::empty());
}

/// The spans of a line with inline markup.
pub open spec fn inline_spans(s: Seq<char>) -> Seq<(Seq<char>, SpanStyle)> {
    inline_from(s, 0, Seq::empty())
}

fn next_char_exec(s: &[char], c: char, from: usize) -> (j: usize)
    requires
        from <= s.len(),
    ensures
        j == next_char_at(s@, c, from as int),
{
    let mut k = from;
    while k < s.len() && s[k] != c
        invariant
            from <= k <= s.len(),
            next_char_at(s@, c, from as int) == next_char_at(s@, c, k as int),
        decreases s.len() - k,
    {
        k = k + 1;
    }
    k
}

fn next_pair_exec(s: &[char], from: usize) -> (j: usize)
    requires
        from <= s.len(),
    ensures
        j == next_pair_at(s@, from as int),
{
    let mut k = from;
    while k < s.len() && !(s[k] == '*' && k + 1 < s.len() && s[k + 1] == '*')
        invariant
            from <= k <= s.len(),
            next_pair_at(s@, from as int) == next_pair_at(s@, k as int),
        decreases s.len() - k,
    {
        k = k + 1;
    }
    k
}

/// Appends the pending plain text as a span, if there is any, and clears
/// it.
fn flush(out: &mut Vec<StyledSpan>, cur: &mut Vec<char>)
    ensures
        spans_view(final(out)@) == spans_view(old(out)@) + flushed(old(cur)@),
        final(cur)@ == Seq::<char>::empty(),
{
    if cur.len() > 0 {
        push_span(out, span_of(cur, SpanStyle::Text));
    } else {
        assert(spans_view(out@) + flushed(cur@) =~= spans_view(out@));
    }
    *cur = Vec::new();
}

/// The spans of a line with inline markup (see `inline_from`).
pub fn parse_inline_formatting(line: &[char]) -> (spans: Vec<StyledSpan>)
    ensures
        spans_view(spans@) == inline_spans(line@),
{
    let s = line;
    let mut out: Vec<StyledSpan> = Vec::new();
    let mut cur: Vec<char> = Vec::new();
    let mut i: usize = 0;
    assert(spans_view(out@) =~= Seq::<(Seq<char>, SpanStyle)>::empty());
    while i < s.len()
        invariant
            i <= s.len(),
            spans_view(out@) + inline_from(s@, i as int, cur@) == inline_spans(s@),
        decreases s.len() - i,
    {
        let ghost before = spans_view(out@);
        let ghost c0 = cur@;
        if s[i] == '`' {
            let j = next_char_exec(s, '`', i + 1);
            proof {
                lemma_next_char_at(s@, '`', i + 1);
            }
            flush(&mut out, &mut cur);
            if j < s.len() {
                let code = crate::strings::subrange_vec(s, i + 1, j);
                push_span(&mut out, span_of(&code, SpanStyle::Code));
                assert(spans_view(out@) == before + flushed(c0) + seq![
                    (s@.subrange(i + 1, j as int), SpanStyle::Code),
                ]);
                i = j + 1;
            } else {
                let rest = crate::strings::subrange_vec(s, i, s.len());
                assert(s@.subrange(i as int, s@.len() as int) =~= s@.skip(i as int));
                push_span(&mut out, span_of(&rest, SpanStyle::Text));
                i = s.len();
            }
        } else if s[i] == '*' && i + 1 < s.len() && s[i + 1] == '*' {
            let j = next_pair_exec(s, i + 2);
            proof {
                lemma_next_pair_at(s@, i + 2);
            }
            flush(&mut out, &mut cur);
            if j < s.len() {
                let bold = crate::strings::subrange_vec(s, i + 2, j);
                push_span(&mut out, span_of(&bold, SpanStyle::Bold));
                i = j + 2;
            } else {
                let rest = crate::strings::subrange_vec(s, i, s.len());
                assert(s@.subrange(i as int, s@.len() as int) =~= s@.skip(i as int));
                push_span(&mut out, span_of(&rest, SpanStyle::Text));
                i = s.len();
            }
        } else if s[i] == '*' {
            let j = next_char_exec(s, '*', i + 1);
            proof {
                lemma_next_char_at(s@, '*', i + 1);
            }
            flush(&mut out, &mut cur);
            if j < s.len() {
                let it = crate::strings::subrange_vec(s, i + 1, j);
                push_span(&mut out, span_of(&it, SpanStyle::Italic));
                i = j + 1;
            } else {
                let rest = crate::strings::subrange_vec(s, i, s.len());
                assert(s@.subrange(i as int, s@.len() as int) =~= s@.skip(i as int));
                push_span(&mut out, span_of(&rest, SpanStyle::Text));
                i = s.len();
            }
        } else {
            cur.push(s[i]);
            i = i + 1;
        }
    }
    flush(&mut out, &mut cur);
    out
}

/// A run of `n` spaces.
pub open spec fn spaces(n: nat) -> Seq<char> {
    Seq::new(n, |i: int| ' ')
}

/// Whether `c` belongs to a list bullet: a space, a dash or an asterisk.
pub open spec fn is_bullet_char(c: char) -> bool {
    c == ' ' || c == '-' || c == '*'
}

/// The index of the first char of `s` at or after `from` that belongs to
/// no bullet, or the length.
pub open spec fn first_text(s: Seq<char>, from: int) -> int
    decreases s.len() - from,
{
    if from >= s.len() {
        s.len() as int
    } else if !is_bullet_char(s[from]) {
        from
    } else {
        first_text(s, from + 1)
    }
}

/// The width in bytes of the leading whitespace of `s`.
pub open spec fn indent_width(s: Seq<char>) -> nat {
    (utf8_len(s) - utf8_len(trim_start_ws(s))) as nat
}

/// `n`, kept at `usize::MAX`.
pub open spec fn capped(n: nat) -> usize {
    if n <= usize::MAX {
        n as usize
    } else {
        usize::MAX
    }
}

pub proof fn lemma_first_text(s: Seq<char>, from: int)
    requires
        0 <= from,
    ensures
        first_text(s, from) <= s.len() || from > s.len(),
    decreases s.len() - from,
{
    if from < s.len() && is_bullet_char(s[from]) {
        lemma_first_text(s, from + 1);
    }
}

/// Whether a line is a list item: once trimmed, it starts with `- ` or
/// `* `.
pub open spec fn is_list_item(line: Seq<char>) -> bool {
    starts_with(trim_ws(line), seq!['-', ' ']) || starts_with(trim_ws(line), seq!['*', ' '])
}

/// The spans of a line outside code blocks and tables: headers of level
/// three, two and one; list items (their leading whitespace kept as
/// spaces, a bullet, then the text after the bullet chars); quotes; lines
/// with inline markup; plain text.
pub open spec fn line_spans(line: Seq<char>) -> Seq<(Seq<char>, SpanStyle)> {
    if starts_with(line, seq!['#', '#', '#', ' ']) {
        seq![(line, SpanStyle::Heading3)]
    } else if starts_with(line, seq!['#', '#', ' ']) {
        seq![(line, SpanStyle::Heading2)]
    } else if starts_with(line, seq!['#', ' ']) {
        seq![(line, SpanStyle::Heading1)]
    } else if is_list_item(line) {
        seq![
            (spaces(capped(indent_width(line)) as nat), SpanStyle::Plain),
            (seq!['•', ' '], SpanStyle::Bullet),
            (line.skip(first_text(line, 0)), SpanStyle::Text),
        ]
    } else if starts_with(trim_ws(line), seq!['>', ' ']) {
        seq![(line, SpanStyle::Quote)]
    } else if line.contains('*') || line.contains('`') {
        inline_spans(line)
    } else {
        seq![(line, SpanStyle::Text)]
    }
}

/// A header line is drawn as one span holding the whole line, in the style
/// of its level: `### ` starts a level-three header, `## ` a level-two one,
/// `# ` a level-one one.
pub proof fn lemma_header_lines(line: Seq<char>)
    ensures
        line.len() >= 4 && line[0] == '#' && line[1] == '#' && line[2] == '#' && line[3] == ' '
            ==> line_spans(line) == seq![(line, SpanStyle::Heading3)],
        line.len() >= 3 && line[0] == '#' && line[1] == '#' && line[2] == ' ' ==> line_spans(line)
            == seq![(line, SpanStyle::Heading2)],
        line.len() >= 2 && line[0] == '#' && line[1] == ' ' ==> line_spans(line) == seq![
            (line, SpanStyle::Heading1),
        ],
{
    if line.len() >= 4 && line[0] == '#' && line[1] == '#' && line[2] == '#' && line[3] == ' ' {
        assert(line.take(4) =~= seq!['#', '#', '#', ' ']);
    }
    if line.len() >= 3 && line[0] == '#' && line[1] == '#' && line[2] == ' ' {
        assert(line.take(3) =~= seq!['#', '#', ' ']);
        assert(line.len() >= 4 ==> line.take(4) != seq!['#', '#', '#', ' ']) by {
            if line.len() >= 4 {
                assert(line.take(4)[2] == ' ');
            }
        }
    }
    if line.len() >= 2 && line[0] == '#' && line[1] == ' ' {
        assert(line.take(2) =~= seq!['#', ' ']);
        assert(line.len() >= 4 ==> line.take(4) != seq!['#', '#', '#', ' ']) by {
            if line.len() >= 4 {
                assert(line.take(4)[1] == ' ');
            }
        }
        assert(line.len() >= 3 ==> line.take(3) != seq!['#', '#', ' ']) by {
            if line.len() >= 3 {
                assert(line.take(3)[1] == ' ');
            }
        }
    }
}

/// Trimming the end of a text keeps a prefix of it.
proof fn lemma_trim_end_prefix(x: Seq<char>)
    ensures
        trim_end_ws(x).len() <= x.len(),
        forall|k: int| 0 <= k < trim_end_ws(x).len() ==> #[trigger] trim_end_ws(x)[k] == x[k],
    decreases x.len(),
{
    if x.len() > 0 && char_is_whitespace(x.last()) {
        lemma_trim_end_prefix(x.drop_last());
    }
}

/// A line that starts with `#` keeps it first once trimmed.
proof fn lemma_hash_stays_first(line: Seq<char>)
    requires
        line.len() > 0,
        line[0] == '#',
        trim_ws(line).len() > 0,
    ensures
        trim_ws(line)[0] == '#',
{
    assert(!char_is_whitespace(line[0]));
    assert(trim_start_ws(line) == line);
    lemma_trim_end_prefix(line);
}

/// A quote line (once trimmed it starts with `> `) is drawn as one span
/// holding the whole line in the quote style.
pub proof fn lemma_quote_lines(line: Seq<char>)
    requires
        trim_ws(line).len() >= 2,
        trim_ws(line)[0] == '>',
        trim_ws(line)[1] == ' ',
    ensures
        line_spans(line) == seq![(line, SpanStyle::Quote)],
{
    if line.len() > 0 && line[0] == '#' {
        lemma_hash_stays_first(line);
    }
    assert(trim_ws(line).take(2) =~= seq!['>', ' ']);
}

/// A list item (once trimmed it starts with `- ` or `* `, and it is not a
/// header) is drawn as three spans: its indent as spaces, a `• ` bullet, and
/// the text of the line that follows the bullet chars (spaces, dashes and
/// asterisks) at its start.
pub proof fn lemma_list_item_lines(line: Seq<char>)
    requires
        trim_ws(line).len() >= 2,
        trim_ws(line)[0] == '-' || trim_ws(line)[0] == '*',
        trim_ws(line)[1] == ' ',
    ensures
        ({
            let sp = line_spans(line);
            &&& sp.len() == 3
            &&& sp[0].1 == SpanStyle::Plain
            &&& forall|k: int| 0 <= k < sp[0].0.len() ==> #[trigger] sp[0].0[k] == ' '
            &&& sp[1] == (seq!['•', ' '], SpanStyle::Bullet)
            &&& sp[2].1 == SpanStyle::Text
            &&& exists|i: int|
                0 <= i <= line.len() && #[trigger] line.skip(i) == sp[2].0 && (forall|k: int|
                    0 <= k < i ==> line[k] == ' ' || line[k] == '-' || line[k] == '*') && (i
                    == line.len() || (line[i] != ' ' && line[i] != '-' && line[i] != '*'))
        }),
{
    if line.len() > 0 && line[0] == '#' {
        lemma_hash_stays_first(line);
    }
    let t = trim_ws(line);
    if t[0] == '-' {
        assert(t.take(2) =~= seq!['-', ' ']);
    } else {
        assert(t.take(2) =~= seq!['*', ' ']);
    }
    assert(is_list_item(line));
    lemma_first_text_stops(line, 0);
    let i = first_text(line, 0);
    assert(line.skip(i) == line_spans(line)[2].0);
}

/// The search for the text after the bullet chars passes only bullet chars
/// and stops at the end or on another char.
proof fn lemma_first_text_stops(s: Seq<char>, from: int)
    requires
        0 <= from <= s.len(),
    ensures
        from <= first_text(s, from) <= s.len(),
        forall|k: int| from <= k < first_text(s, from) ==> is_bullet_char(#[trigger] s[k]),
        first_text(s, from) == s.len() || !is_bullet_char(s[first_text(s, from)]),
    decreases s.len() - from,
{
    if from < s.len() && is_bullet_char(s[from]) {
        lemma_first_text_stops(s, from + 1);
    }
}

/// A line with no markup is drawn as one plain text span holding it: no
/// `*` or backtick in it, not starting with `#`, and once trimmed not
/// starting with `-`, `*` or `>`.
pub proof fn lemma_plain_text_lines(line: Seq<char>)
    requires
        !line.contains('*'),
        !line.contains('`'),
        line.len() == 0 || line[0] != '#',
        trim_ws(line).len() == 0 || (trim_ws(line)[0] != '-' && trim_ws(line)[0] != '>'),
    ensures
        line_spans(line) == seq![(line, SpanStyle::Text)],
{
    if trim_ws(line).len() > 0 {
        assert(trim_ws(line)[0] != '*') by {
            lemma_trim_end_prefix(trim_start_ws(line));
            lemma_trim_start_suffix(line);
        }
    }
}

/// Trimming the start of a text keeps a suffix of it.
proof fn lemma_trim_start_suffix(s: Seq<char>)
    ensures
        trim_start_ws(s).len() <= s.len(),
        forall|k: int|
            0 <= k < trim_start_ws(s).len() ==> #[trigger] trim_start_ws(s)[k] == s[k + s.len()
                - trim_start_ws(s).len()],
    decreases s.len(),
{
    if s.len() > 0 && char_is_whitespace(s[0]) {
        lemma_trim_start_suffix(s.drop_first());
    }
}

/// A string of `n` copies of `c`.
fn repeat_char(c: char, n: usize) -> (s: String)
    ensures
        s@ == Seq::new(n as nat, |i: int| c),
{
    let mut s = String::new();
    let mut k: usize = 0;
    while k < n
        invariant
            k <= n,
            s@ == Seq::new(k as nat, |i: int| c),
        decreases n - k,
    {
        string_push(&mut s, c);
        assert(s@ =~= Seq::new((k + 1) as nat, |i: int| c));
        k = k + 1;
    }
    s
}

/// The width in bytes of the leading whitespace of `s`.
fn leading_width(s: &[char]) -> (w: usize)
    ensures
        w == capped(indent_width(s@)),
{
    let mut m: usize = 0;
    let mut w: usize = 0;
    assert(s@.take(0) =~= Seq::<char>::empty());
    while m < s.len() && is_whitespace(s[m])
        invariant
            m <= s.len(),
            forall|k: int| 0 <= k < m ==> char_is_whitespace(s@[k]),
            w == capped(prefix_bytes(s@, m as int)),
        decreases s.len() - m,
    {
        proof {
            lemma_prefix_bytes_step(s@, m as int);
        }
        let cw = utf8_width(s[m]);
        w = w.saturating_add(cw);
        m = m + 1;
    }
    proof {
        lemma_trim_start_skip(s@, m as int);
        let t = s@.skip(m as int);
        if t.len() > 0 {
            assert(!char_is_whitespace(t[0]));
        }
        assert(trim_start_ws(t) == t);
        assert(s@ =~= s@.take(m as int) + t);
        lemma_encode_concat(s@.take(m as int), t);
    }
    w
}

fn first_text_exec(s: &[char]) -> (k: usize)
    ensures
        k == first_text(s@, 0),
        k <= s.len(),
{
    proof {
        lemma_first_text(s@, 0);
    }
    let mut k: usize = 0;
    while k < s.len() && (s[k] == ' ' || s[k] == '-' || s[k] == '*')
        invariant
            k <= s.len(),
            first_text(s@, 0) == first_text(s@, k as int),
        decreases s.len() - k,
    {
        k = k + 1;
    }
    k
}

fn contains_exec(s: &[char], c: char) -> (b: bool)
    ensures
        b == s@.contains(c),
{
    crate::strings::contains_char(s, c)
}

/// The spans of a line outside code blocks and tables (see `line_spans`).
pub fn parse_line(line: &[char]) -> (spans: Vec<StyledSpan>)
    ensures
        spans_view(spans@) == line_spans(line@),
{
    let mut out: Vec<StyledSpan> = Vec::new();
    let h3 = vec!['#', '#', '#', ' '];
    let h2 = vec!['#', '#', ' '];
    let h1 = vec!['#', ' '];
    let dash = vec!['-', ' '];
    let star = vec!['*', ' '];
    let quote = vec!['>', ' '];
    assert(h3@ =~= seq!['#', '#', '#', ' ']);
    assert(h2@ =~= seq!['#', '#', ' ']);
    assert(h1@ =~= seq!['#', ' ']);
    assert(dash@ =~= seq!['-', ' ']);
    assert(star@ =~= seq!['*', ' ']);
    assert(quote@ =~= seq!['>', ' ']);
    if chars_starts_with(line, &h3) {
        push_span(&mut out, span_of(line, SpanStyle::Heading3));
        assert(spans_view(out@) =~= line_spans(line@));
        return out;
    }
    if chars_starts_with(line, &h2) {
        push_span(&mut out, span_of(line, SpanStyle::Heading2));
        assert(spans_view(out@) =~= line_spans(line@));
        return out;
    }
    if chars_starts_with(line, &h1) {
        push_span(&mut out, span_of(line, SpanStyle::Heading1));
        assert(spans_view(out@) =~= line_spans(line@));
        return out;
    }
    let t = trim(line);
    if chars_starts_with(&t, &dash) || chars_starts_with(&t, &star) {
        let w = leading_width(line);
        push_span(&mut out, span(repeat_char(' ', w), SpanStyle::Plain));
        let mut bullet = String::new();
        string_push(&mut bullet, '•');
        string_push(&mut bullet, ' ');
        assert(bullet@ =~= seq!['•', ' ']);
        push_span(&mut out, span(bullet, SpanStyle::Bullet));
        let k = first_text_exec(line);
        let rest = crate::strings::subrange_vec(line, k, line.len());
        assert(line@.subrange(k as int, line@.len() as int) =~= line@.skip(k as int));
        push_span(&mut out, span_of(&rest, SpanStyle::Text));
        assert(spaces(capped(indent_width(line@)) as nat) =~= Seq::new(w as nat, |i: int| ' '));
        assert(spans_view(out@) =~= line_spans(line@));
        return out;
    }
    if chars_starts_with(&t, &quote) {
        push_span(&mut out, span_of(line, SpanStyle::Quote));
        assert(spans_view(out@) =~= line_spans(line@));
        return out;
    }
    if contains_exec(line, '*') || contains_exec(line, '`') {
        return parse_inline_formatting(line);
    }
    push_span(&mut out, span_of(line, SpanStyle::Text));
    assert(spans_view(out@) =~= line_spans(line@));
    out
}

/// Whether a line belongs to a table: once trimmed, it holds a `|`.
pub open spec fn is_table_line(line: Seq<char>) -> bool {
    trim_ws(line).contains('|')
}

/// The number of table lines of `ls` in a row from index `i` on.
pub open spec fn table_run(ls: Seq<Seq<char>>, i: int) -> nat
    decreases ls.len() - i,
{
    if i < 0 || i >= ls.len() || !is_table_line(ls[i]) {
        0
    } else {
        1 + table_run(ls, i + 1)
    }
}

/// Whether a trimmed table row separates the header from the body: it
/// holds only bars, dashes, colons and whitespace.
pub open spec fn is_separator_row(t: Seq<char>) -> bool {
    forall|k: int|
        0 <= k < t.len() ==> t[k] == '|' || t[k] == '-' || t[k] == ':' || char_is_whitespace(
            #[trigger] t[k],
        )
}

/// The cells of `s` from index `i` on: the pieces between bars, trimmed,
/// the empty ones left out.
pub open spec fn cells_from(s: Seq<char>, i: int) -> Seq<Seq<char>>
    decreases s.len() - i,
{
    if i < 0 || i > s.len() {
        Seq::empty()
    } else {
        let j = next_char_at(s, '|', i);
        proof {
            lemma_next_char_at(s, '|', i);
        }
        let piece = trim_ws(s.subrange(i, j));
        let rest = if j < s.len() {
            cells_from(s, j + 1)
        } else {
            Seq::empty()
        };
        if piece.len() > 0 {
            seq![piece] + rest
        } else {
            rest
        }
    }
}

/// The rows of a table given its trimmed lines: the cells of each line
/// that is no separator and has cells.
pub open spec fn parsed_rows(rows: Seq<Seq<char>>) -> Seq<Seq<Seq<char>>>
    decreases rows.len(),
{
    if rows.len() == 0 {
        Seq::empty()
    } else {
        let rest = parsed_rows(rows.drop_last());
        let t = rows.last();
        if is_separator_row(t) || cells_from(t, 0).len() == 0 {
            rest
        } else {
            rest.push(cells_from(t, 0))
        }
    }
}

/// Whether one of the trimmed lines of a table is a separator.
pub open spec fn has_separator(rows: Seq<Seq<char>>) -> bool {
    exists|k: int| 0 <= k < rows.len() && #[trigger] is_separator_row(rows[k])
}

/// The number of columns: the length of the longest row.
pub open spec fn column_count(pr: Seq<Seq<Seq<char>>>) -> nat
    decreases pr.len(),
{
    if pr.len() == 0 {
        0
    } else {
        let m = column_count(pr.drop_last());
        if pr.last().len() > m {
            pr.last().len()
        } else {
            m
        }
    }
}

/// The widest shown length of the cells of column `c`.
pub open spec fn raw_width(pr: Seq<Seq<Seq<char>>>, c: int) -> nat
    decreases pr.len(),
{
    if pr.len() == 0 {
        0
    } else {
        let m = raw_width(pr.drop_last(), c);
        let d = if 0 <= c < pr.last().len() {
            display_len(pr.last()[c])
        } else {
            0
        };
        if d > m {
            d
        } else {
            m
        }
    }
}

/// The width of column `c`: its widest cell and four chars of padding, at
/// least ten.
pub open spec fn col_width(pr: Seq<Seq<Seq<char>>>, c: int) -> usize {
    let w = raw_width(pr, c) + 4;
    if w < 10 {
        10
    } else {
        capped(w)
    }
}

/// The widths of the columns.
pub open spec fn col_widths(pr: Seq<Seq<Seq<char>>>) -> Seq<usize> {
    Seq::new(column_count(pr), |c: int| col_width(pr, c))
}

/// A run of `n` copies of `c`.
pub open spec fn repeated(c: char, n: nat) -> Seq<char> {
    Seq::new(n, |i: int| c)
}

/// Horizontal lines as wide as the columns, joined by `m`.
pub open spec fn bars(ws: Seq<usize>, m: char) -> Seq<char>
    decreases ws.len(),
{
    if ws.len() == 0 {
        Seq::empty()
    } else if ws.len() == 1 {
        repeated('─', ws[0] as nat)
    } else {
        bars(ws.drop_last(), m) + seq![m] + repeated('─', ws.last() as nat)
    }
}

/// A border line of a table: `l`, the column lines joined by `m`, `r`.
pub open spec fn border_line(ws: Seq<usize>, l: char, m: char, r: char) -> Seq<(Seq<char>, SpanStyle)> {
    seq![(seq![l] + bars(ws, m) + seq![r], SpanStyle::Border)]
}

/// The vertical bar between cells.
pub open spec fn bar_span() -> (Seq<char>, SpanStyle) {
    (seq!['│'], SpanStyle::Border)
}

/// A cell without markup in a column `w` wide: a space, the cell padded
/// with spaces to `w - 2` chars, a space. A cell that does not fit is cut
/// to `w - 3` bytes (where that is a char boundary).
pub open spec fn padded_cell(cell: Seq<char>, w: usize) -> Seq<char> {
    let d = display_len(cell);
    let inner: int = if w >= 2 {
        w - 2
    } else {
        0
    };
    if d >= inner {
        let max: int = if w >= 3 {
            w - 3
        } else {
            0
        };
        let shown = match char_at_byte(cell, max) {
            Some(k) => if k < cell.len() {
                cell.take(k)
            } else {
                cell
            },
            None => cell,
        };
        seq![' '] + shown + seq![' ']
    } else {
        let pad: nat = if inner > cell.len() {
            (inner - cell.len()) as nat
        } else {
            0
        };
        seq![' '] + cell + spaces(pad) + seq![' ']
    }
}

/// The spans of a cell in a column `w` wide: a cell with markup is a
/// space, its inline spans and spaces up to the width; other cells are
/// padded (in header style in a header row).
pub open spec fn cell_spans(cell: Seq<char>, w: usize, header: bool) -> Seq<(Seq<char>, SpanStyle)> {
    let d = display_len(cell);
    if cell.contains('*') || cell.contains('`') {
        let rem: int = if w >= d + 2 {
            w - (d + 2)
        } else {
            0
        };
        let pad: nat = if rem > 0 {
            (rem + 1) as nat
        } else {
            1
        };
        seq![(seq![' '], SpanStyle::Plain)] + inline_spans(cell) + seq![(spaces(pad), SpanStyle::Plain)]
    } else {
        seq![
            (
                padded_cell(cell, w),
                if header {
                    SpanStyle::TableHeader
                } else {
                    SpanStyle::Text
                },
            ),
        ]
    }
}

/// The width of column `i`, eight beyond the known columns.
pub open spec fn width_at(ws: Seq<usize>, i: int) -> usize {
    if 0 <= i < ws.len() {
        ws[i]
    } else {
        8
    }
}

/// The spans of the first `n` cells of a row, each followed by a bar.
pub open spec fn cells_part(row: Seq<Seq<char>>, ws: Seq<usize>, header: bool, n: int) -> Seq<(Seq<char>, SpanStyle)>
    decreases n,
{
    if n <= 0 {
        Seq::empty()
    } else {
        cells_part(row, ws, header, n - 1) + cell_spans(row[n - 1], width_at(ws, n - 1), header)
            + seq![bar_span()]
    }
}

/// The blank cells for the columns `from..n` a row lacks.
pub open spec fn filler(ws: Seq<usize>, from: int, n: int) -> Seq<(Seq<char>, SpanStyle)>
    decreases n - from,
{
    if n <= from {
        Seq::empty()
    } else {
        let w = ws[n - 1];
        let blank = seq![' '] + spaces(
            if w >= 2 {
                (w - 2) as nat
            } else {
                0
            },
        ) + seq![' '];
        filler(ws, from, n - 1) + seq![(blank, SpanStyle::Plain), bar_span()]
    }
}

/// The spans of a table row.
pub open spec fn row_spans(row: Seq<Seq<char>>, ws: Seq<usize>, header: bool) -> Seq<(Seq<char>, SpanStyle)> {
    seq![bar_span()] + cells_part(row, ws, header, row.len() as int) + filler(
        ws,
        row.len() as int,
        ws.len() as int,
    )
}

/// The lines of the first `n` rows of a table, with the line under the
/// header before the second row when there is a header.
pub open spec fn body_lines(pr: Seq<Seq<Seq<char>>>, ws: Seq<usize>, header: bool, n: int) -> Seq<Seq<(Seq<char>, SpanStyle)>>
    decreases n,
{
    if n <= 0 {
        Seq::empty()
    } else {
        body_lines(pr, ws, header, n - 1) + if header && n - 1 == 1 {
            seq![border_line(ws, '├', '┼', '┤')]
        } else {
            Seq::empty()
        } + seq![row_spans(pr[n - 1], ws, header && n - 1 == 0)]
    }
}

/// The lines of a table given its trimmed lines: a top border, the rows
/// (the first one a header when a separator line is present), a bottom
/// border. Nothing when no line has cells.
pub open spec fn table_lines(rows: Seq<Seq<char>>) -> Seq<Seq<(Seq<char>, SpanStyle)>> {
    let pr = parsed_rows(rows);
    let ws = col_widths(pr);
    if pr.len() == 0 {
        Seq::empty()
    } else {
        seq![border_line(ws, '┌', '┬', '┐')] + body_lines(pr, ws, has_separator(rows), pr.len() as int)
            + seq![border_line(ws, '└', '┴', '┘')]
    }
}

/// The texts of a list of char vectors.
pub open spec fn texts(v: Seq<Vec<char>>) -> Seq<Seq<char>> {
    v.map_values(|c: Vec<char>| c@)
}

/// The rows of a table as values.
pub open spec fn rows_view(v: Seq<Vec<Vec<char>>>) -> Seq<Seq<Seq<char>>> {
    v.map_values(|r: Vec<Vec<char>>| texts(r@))
}

/// Appends the spans `v` to a line.
fn append_spans(out: &mut Vec<StyledSpan>, v: Vec<StyledSpan>)
    ensures
        spans_view(final(out)@) == spans_view(old(out)@) + spans_view(v@),
{
    let mut v = v;
    let ghost o = out@;
    let ghost w = v@;
    out.append(&mut v);
    assert(out@ =~= o + w);
    assert(spans_view(o + w) =~= spans_view(o) + spans_view(w));
}

/// A span of one char.
fn char_span(c: char, style: SpanStyle) -> (s: StyledSpan)
    ensures
        span_view(s) == (seq![c], style),
{
    let mut t = String::new();
    string_push(&mut t, c);
    assert(t@ =~= seq![c]);
    span(t, style)
}

/// The cells of a trimmed table line (see `cells_from`).
fn cells_of(t: &[char]) -> (r: Vec<Vec<char>>)
    ensures
        texts(r@) == cells_from(t@, 0),
{
    let mut r: Vec<Vec<char>> = Vec::new();
    let mut i: usize = 0;
    let mut done = false;
    assert(texts(r@) =~= Seq::<Seq<char>>::empty());
    while !done
        invariant
            i <= t.len(),
            !done ==> texts(r@) + cells_from(t@, i as int) == cells_from(t@, 0),
            done ==> texts(r@) == cells_from(t@, 0),
        decreases t.len() - i + if done {
            0int
        } else {
            1int
        },
    {
        let j = next_char_exec(t, '|', i);
        proof {
            lemma_next_char_at(t@, '|', i as int);
        }
        let raw = crate::strings::subrange_vec(t, i, j);
        let piece = trim(&raw);
        let ghost before = texts(r@);
        if piece.len() > 0 {
            r.push(piece);
            assert(texts(r@) =~= before.push(piece@));
        }
        if j < t.len() {
            proof {
                if piece@.len() > 0 {
                    assert(before + cells_from(t@, i as int) =~= texts(r@) + cells_from(
                        t@,
                        j + 1,
                    ));
                }
            }
            i = j + 1;
        } else {
            proof {
                if piece@.len() > 0 {
                    assert(before + cells_from(t@, i as int) =~= texts(r@));
                } else {
                    assert(before + cells_from(t@, i as int) =~= texts(r@));
                }
            }
            done = true;
        }
    }
    r
}

/// Whether a trimmed table line separates the header from the body.
fn is_separator(t: &[char]) -> (b: bool)
    ensures
        b == is_separator_row(t@),
{
    let mut k: usize = 0;
    while k < t.len()
        invariant
            k <= t.len(),
            forall|j: int|
                0 <= j < k ==> t@[j] == '|' || t@[j] == '-' || t@[j] == ':' || char_is_whitespace(
                    #[trigger] t@[j],
                ),
        decreases t.len() - k,
    {
        let c = t[k];
        if !(c == '|' || c == '-' || c == ':' || is_whitespace(c)) {
            return false;
        }
        k = k + 1;
    }
    true
}

/// The rows of a table given its trimmed lines, and whether one of them
/// is a separator.
fn table_rows(rows: &[Vec<char>]) -> (r: (Vec<Vec<Vec<char>>>, bool))
    ensures
        rows_view(r.0@) == parsed_rows(texts(rows@)),
        r.1 == has_separator(texts(rows@)),
{
    let mut out: Vec<Vec<Vec<char>>> = Vec::new();
    let mut sep = false;
    let mut k: usize = 0;
    assert(texts(rows@).take(0) =~= Seq::<Seq<char>>::empty());
    assert(rows_view(out@) =~= Seq::<Seq<Seq<char>>>::empty());
    while k < rows.len()
        invariant
            k <= rows.len(),
            rows_view(out@) == parsed_rows(texts(rows@).take(k as int)),
            sep == exists|j: int| 0 <= j < k && #[trigger] is_separator_row(texts(rows@)[j]),
        decreases rows.len() - k,
    {
        let ghost ts = texts(rows@);
        assert(ts.take(k + 1).drop_last() =~= ts.take(k as int));
        assert(ts.take(k + 1).last() == rows@[k as int]@);
        if is_separator(&rows[k]) {
            sep = true;
        } else {
            let cells = cells_of(&rows[k]);
            if cells.len() > 0 {
                let ghost before = rows_view(out@);
                out.push(cells);
                assert(rows_view(out@) =~= before.push(texts(cells@)));
            }
        }
        k = k + 1;
    }
    assert(texts(rows@).take(k as int) =~= texts(rows@));
    (out, sep)
}

/// The number of columns of a table.
fn count_columns(pr: &[Vec<Vec<char>>]) -> (n: usize)
    ensures
        n == column_count(rows_view(pr@)),
{
    let mut n: usize = 0;
    let mut k: usize = 0;
    assert(rows_view(pr@).take(0) =~= Seq::<Seq<Seq<char>>>::empty());
    while k < pr.len()
        invariant
            k <= pr.len(),
            n == column_count(rows_view(pr@).take(k as int)),
        decreases pr.len() - k,
    {
        assert(rows_view(pr@).take(k + 1).drop_last() =~= rows_view(pr@).take(k as int));
        if pr[k].len() > n {
            n = pr[k].len();
        }
        k = k + 1;
    }
    assert(rows_view(pr@).take(k as int) =~= rows_view(pr@));
    n
}

/// The width of column `c` of a table.
fn column_width(pr: &[Vec<Vec<char>>], c: usize) -> (w: usize)
    ensures
        w == col_width(rows_view(pr@), c as int),
{
    let mut m: usize = 0;
    let mut k: usize = 0;
    assert(rows_view(pr@).take(0) =~= Seq::<Seq<Seq<char>>>::empty());
    while k < pr.len()
        invariant
            k <= pr.len(),
            m == raw_width(rows_view(pr@).take(k as int), c as int),
        decreases pr.len() - k,
    {
        assert(rows_view(pr@).take(k + 1).drop_last() =~= rows_view(pr@).take(k as int));
        if c < pr[k].len() {
            let d = calculate_display_length(&pr[k][c]);
            if d > m {
                m = d;
            }
        }
        k = k + 1;
    }
    assert(rows_view(pr@).take(k as int) =~= rows_view(pr@));
    let w = m.saturating_add(4);
    if w < 10 {
        10
    } else {
        w
    }
}

/// The widths of the columns of a table.
fn column_widths(pr: &[Vec<Vec<char>>]) -> (ws: Vec<usize>)
    ensures
        ws@ == col_widths(rows_view(pr@)),
{
    let n = count_columns(pr);
    let mut ws: Vec<usize> = Vec::new();
    let mut c: usize = 0;
    while c < n
        invariant
            c <= n,
            n == column_count(rows_view(pr@)),
            ws@ =~= col_widths(rows_view(pr@)).take(c as int),
        decreases n - c,
    {
        let w = column_width(pr, c);
        ws.push(w);
        c = c + 1;
    }
    ws
}

/// A border line of a table.
fn create_table_border(ws: &[usize], l: char, m: char, r: char) -> (line: Vec<StyledSpan>)
    ensures
        spans_view(line@) == border_line(ws@, l, m, r),
{
    let mut t = String::new();
    string_push(&mut t, l);
    let mut i: usize = 0;
    assert(ws@.take(0) =~= Seq::<usize>::empty());
    assert(t@ =~= seq![l] + bars(ws@.take(0), m));
    while i < ws.len()
        invariant
            i <= ws.len(),
            t@ == seq![l] + bars(ws@.take(i as int), m),
        decreases ws.len() - i,
    {
        let ghost before = t@;
        assert(ws@.take(i + 1).drop_last() =~= ws@.take(i as int));
        if i > 0 {
            string_push(&mut t, m);
        }
        let run = repeat_char('─', ws[i]);
        crate::messages::append(&mut t, run.as_str());
        proof {
            if i == 0 {
                assert(bars(ws@.take(1), m) == repeated('─', ws@[0] as nat));
                assert(t@ =~= seq![l] + bars(ws@.take(1), m));
            } else {
                assert(t@ =~= seq![l] + bars(ws@.take(i + 1), m));
            }
        }
        i = i + 1;
    }
    string_push(&mut t, r);
    assert(ws@.take(i as int) =~= ws@);
    assert(t@ =~= seq![l] + bars(ws@, m) + seq![r]);
    let mut line: Vec<StyledSpan> = Vec::new();
    push_span(&mut line, span(t, SpanStyle::Border));
    assert(spans_view(line@) =~= border_line(ws@, l, m, r));
    line
}

/// The text of a cell without markup in a column `w` wide.
fn padded(cell: &[char], w: usize) -> (t: String)
    ensures
        t@ == padded_cell(cell@, w),
{
    let d = calculate_display_length(cell);
    let inner = w.saturating_sub(2);
    let mut t = String::new();
    string_push(&mut t, ' ');
    if d >= inner {
        let max = w.saturating_sub(3);
        let shown = match byte_to_char(cell, max) {
            Some(k) => if k < cell.len() {
                crate::strings::subrange_vec(cell, 0, k)
            } else {
                crate::strings::subrange_vec(cell, 0, cell.len())
            },
            None => crate::strings::subrange_vec(cell, 0, cell.len()),
        };
        let st = chars_to_string(&shown);
        crate::messages::append(&mut t, st.as_str());
        string_push(&mut t, ' ');
        assert(cell@.subrange(0, cell@.len() as int) =~= cell@);
        proof {
            match char_at_byte(cell@, max as int) {
                Some(k) => {
                    assert(cell@.subrange(0, k) =~= cell@.take(k));
                },
                None => {},
            }
        }
        assert(t@ =~= padded_cell(cell@, w));
    } else {
        let body = chars_to_string(cell);
        crate::messages::append(&mut t, body.as_str());
        let pad = if inner > cell.len() {
            inner - cell.len()
        } else {
            0
        };
        let sp = repeat_char(' ', pad);
        crate::messages::append(&mut t, sp.as_str());
        string_push(&mut t, ' ');
        assert(t@ =~= padded_cell(cell@, w));
    }
    t
}

/// Appends the spans of a cell in a column `w` wide to a row.
fn push_cell(out: &mut Vec<StyledSpan>, cell: &[char], w: usize, header: bool)
    ensures
        spans_view(final(out)@) == spans_view(old(out)@) + cell_spans(cell@, w, header),
{
    let ghost o = spans_view(out@);
    if contains_exec(cell, '*') || contains_exec(cell, '`') {
        let d = calculate_display_length(cell);
        push_span(out, char_span(' ', SpanStyle::Plain));
        let inner = parse_inline_formatting(cell);
        append_spans(out, inner);
        let rem = if d <= w && w - d >= 2 {
            w - d - 2
        } else {
            0
        };
        let pad = if rem > 0 {
            rem + 1
        } else {
            1
        };
        push_span(out, span(repeat_char(' ', pad), SpanStyle::Plain));
        assert(spaces(pad as nat) =~= Seq::new(pad as nat, |i: int| ' '));
        assert(spans_view(out@) =~= o + cell_spans(cell@, w, header));
    } else {
        let style = if header {
            SpanStyle::TableHeader
        } else {
            SpanStyle::Text
        };
        push_span(out, span(padded(cell, w), style));
        assert(spans_view(out@) =~= o + cell_spans(cell@, w, header));
    }
}

/// The spans of a table row.
fn create_table_row(row: &[Vec<char>], ws: &[usize], header: bool) -> (line: Vec<StyledSpan>)
    ensures
        spans_view(line@) == row_spans(texts(row@), ws@, header),
{
    let mut out: Vec<StyledSpan> = Vec::new();
    push_span(&mut out, char_span('│', SpanStyle::Border));
    let mut n: usize = 0;
    assert(spans_view(out@) =~= seq![bar_span()] + cells_part(texts(row@), ws@, header, 0));
    while n < row.len()
        invariant
            n <= row.len(),
            spans_view(out@) == seq![bar_span()] + cells_part(texts(row@), ws@, header, n as int),
        decreases row.len() - n,
    {
        let w = if n < ws.len() {
            ws[n]
        } else {
            8
        };
        let ghost before = spans_view(out@);
        push_cell(&mut out, &row[n], w, header);
        push_span(&mut out, char_span('│', SpanStyle::Border));
        assert(texts(row@)[n as int] == row@[n as int]@);
        assert(spans_view(out@) =~= seq![bar_span()] + cells_part(
            texts(row@),
            ws@,
            header,
            n + 1,
        ));
        n = n + 1;
    }
    let ghost head = spans_view(out@);
    let mut k: usize = row.len();
    assert(head + filler(ws@, row.len() as int, row.len() as int) =~= head);
    while k < ws.len()
        invariant
            row.len() <= k || ws.len() <= row.len(),
            k >= row.len(),
            k <= ws.len() || k == row.len(),
            spans_view(out@) == head + filler(ws@, row.len() as int, k as int),
        decreases ws.len() - k,
    {
        let w = ws[k];
        let mut blank = String::new();
        string_push(&mut blank, ' ');
        let sp = repeat_char(' ', w.saturating_sub(2));
        crate::messages::append(&mut blank, sp.as_str());
        string_push(&mut blank, ' ');
        let ghost before = spans_view(out@);
        push_span(&mut out, span(blank, SpanStyle::Plain));
        push_span(&mut out, char_span('│', SpanStyle::Border));
        proof {
            let bl = seq![' '] + spaces(
                if w >= 2 {
                    (w - 2) as nat
                } else {
                    0
                },
            ) + seq![' '];
            assert(blank@ =~= bl);
            assert(filler(ws@, row.len() as int, k + 1) == filler(ws@, row.len() as int, k as int)
                + seq![(bl, SpanStyle::Plain), bar_span()]);
            assert(spans_view(out@) =~= head + filler(ws@, row.len() as int, k + 1));
        }
        k = k + 1;
    }
    proof {
        if ws.len() < row.len() {
            assert(filler(ws@, row.len() as int, ws.len() as int) =~= Seq::empty());
            assert(k == row.len());
            assert(filler(ws@, row.len() as int, k as int) =~= Seq::empty());
        }
    }
    out
}

/// The lines of a table given its trimmed lines (see `table_lines`).
fn table_block(rows: &[Vec<char>]) -> (lines: Vec<Vec<StyledSpan>>)
    ensures
        lines_view(lines@) == table_lines(texts(rows@)),
{
    let (pr, header) = table_rows(rows);
    let mut out: Vec<Vec<StyledSpan>> = Vec::new();
    if pr.len() == 0 {
        assert(lines_view(out@) =~= table_lines(texts(rows@)));
        return out;
    }
    let ws = column_widths(&pr);
    let ghost pv = rows_view(pr@);
    let ghost top = seq![border_line(ws@, '┌', '┬', '┐')];
    out.push(create_table_border(&ws, '┌', '┬', '┐'));
    assert(lines_view(out@) =~= top + body_lines(pv, ws@, header, 0));
    let mut n: usize = 0;
    while n < pr.len()
        invariant
            n <= pr.len(),
            pv == rows_view(pr@),
            lines_view(out@) == top + body_lines(pv, ws@, header, n as int),
        decreases pr.len() - n,
    {
        let ghost before = lines_view(out@);
        let ghost extra = if header && n == 1 {
            seq![border_line(ws@, '├', '┼', '┤')]
        } else {
            Seq::<Seq<(Seq<char>, SpanStyle)>>::empty()
        };
        if header && n == 1 {
            let b = create_table_border(&ws, '├', '┼', '┤');
            out.push(b);
            assert(lines_view(out@) =~= before + extra);
        } else {
            assert(lines_view(out@) =~= before + extra);
        }
        let ghost mid = lines_view(out@);
        let line = create_table_row(&pr[n], &ws, header && n == 0);
        out.push(line);
        assert(pv[n as int] == texts(pr@[n as int]@));
        assert(lines_view(out@) =~= mid.push(row_spans(pv[n as int], ws@, header && n == 0)));
        assert(body_lines(pv, ws@, header, n + 1) == body_lines(pv, ws@, header, n as int) + extra
            + seq![row_spans(pv[n as int], ws@, header && n == 0)]);
        assert(lines_view(out@) =~= top + body_lines(pv, ws@, header, n + 1));
        n = n + 1;
    }
    out.push(create_table_border(&ws, '└', '┴', '┘'));
    assert(lines_view(out@) =~= table_lines(texts(rows@)));
    out
}

/// The lines, trimmed.
pub open spec fn trimmed_lines(ls: Seq<Seq<char>>) -> Seq<Seq<char>> {
    ls.map_values(|l: Seq<char>| trim_ws(l))
}

pub proof fn lemma_table_run(ls: Seq<Seq<char>>, i: int)
    requires
        0 <= i,
    ensures
        i <= ls.len() ==> i + table_run(ls, i) <= ls.len(),
        i < ls.len() && is_table_line(ls[i]) ==> table_run(ls, i) >= 1,
    decreases ls.len() - i,
{
    if i < ls.len() && is_table_line(ls[i]) {
        lemma_table_run(ls, i + 1);
    }
}

/// The preview lines of the lines `ls` from index `i` on, `in_code`
/// telling whether a code block is open. A line starting (once trimmed)
/// with three backticks is a fence that opens or closes a code block;
/// lines inside a code block are kept as they are; a run of table lines
/// is drawn as a table (or, when none of them has cells, its first line
/// is an ordinary line); other lines go through `line_spans`.
pub open spec fn md_from(ls: Seq<Seq<char>>, i: int, in_code: bool) -> Seq<Seq<(Seq<char>, SpanStyle)>>
    decreases ls.len() - i,
{
    if i < 0 || i >= ls.len() {
        Seq::empty()
    } else {
        let line = ls[i];
        let t = trim_ws(line);
        if starts_with(t, seq!['`', '`', '`']) {
            seq![seq![(line, SpanStyle::Fence)]] + md_from(ls, i + 1, !in_code)
        } else if in_code {
            seq![seq![(line, SpanStyle::CodeBlock)]] + md_from(ls, i + 1, in_code)
        } else if is_table_line(line) {
            let n = table_run(ls, i);
            proof {
                lemma_table_run(ls, i);
            }
            let tl = table_lines(trimmed_lines(ls.subrange(i, i + n)));
            if tl.len() > 0 {
                tl + md_from(ls, i + n, in_code)
            } else {
                seq![line_spans(line)] + md_from(ls, i + 1, in_code)
            }
        } else {
            seq![line_spans(line)] + md_from(ls, i + 1, in_code)
        }
    }
}

/// Whether a line (once trimmed) starts with three backticks.
pub open spec fn fence_line(l: Seq<char>) -> bool {
    trim_ws(l).len() >= 3 && trim_ws(l)[0] == '`' && trim_ws(l)[1] == '`' && trim_ws(l)[2] == '`'
}

proof fn lemma_fence_line(l: Seq<char>)
    ensures
        fence_line(l) == starts_with(trim_ws(l), seq!['`', '`', '`']),
{
    if fence_line(l) {
        assert(trim_ws(l).take(3) =~= seq!['`', '`', '`']);
    }
    if starts_with(trim_ws(l), seq!['`', '`', '`']) {
        assert(trim_ws(l).take(3)[0] == '`');
        assert(trim_ws(l).take(3)[1] == '`');
        assert(trim_ws(l).take(3)[2] == '`');
    }
}

/// Inside an open code block the lines up to the closing fence are kept as
/// they are, in the code block style, then the fence shows and the lines
/// after it are read outside the block.
proof fn lemma_code_run(ls: Seq<Seq<char>>, k: int, j: int)
    requires
        0 <= k <= j < ls.len(),
        fence_line(ls[j]),
        forall|x: int| k <= x < j ==> !fence_line(#[trigger] ls[x]),
    ensures
        md_from(ls, k, true) == Seq::new(
            (j - k) as nat,
            |x: int| seq![(ls[k + x], SpanStyle::CodeBlock)],
        ) + seq![seq![(ls[j], SpanStyle::Fence)]] + md_from(ls, j + 1, false),
    decreases j - k,
{
    lemma_fence_line(ls[k]);
    if k < j {
        lemma_code_run(ls, k + 1, j);
        assert(Seq::new((j - k) as nat, |x: int| seq![(ls[k + x], SpanStyle::CodeBlock)]) =~= seq![
            seq![(ls[k], SpanStyle::CodeBlock)],
        ] + Seq::new((j - k - 1) as nat, |x: int| seq![(ls[k + 1 + x], SpanStyle::CodeBlock)]));
    } else {
        assert(Seq::new(0, |x: int| seq![(ls[k + x], SpanStyle::CodeBlock)]) =~= Seq::<
            Seq<(Seq<char>, SpanStyle)>,
        >::empty());
    }
}

/// A fenced code block shows its lines as they are: read outside a code
/// block, a fence line at `i` and the next fence line at `j` show as fence
/// lines, every line between them shows alone, unchanged, in the code block
/// style (headers, lists and tables inside are not interpreted), and the
/// lines after the closing fence are read outside a code block again.
#[verifier::spinoff_prover]
#[verifier::rlimit(40)]
pub proof fn lemma_fenced_code_block(ls: Seq<Seq<char>>, i: int, j: int)
    requires
        0 <= i < j < ls.len(),
        fence_line(ls[i]),
        fence_line(ls[j]),
        forall|x: int| i < x < j ==> !fence_line(#[trigger] ls[x]),
    ensures
        ({
            let out = md_from(ls, i, false);
            &&& out.len() >= j - i + 1
            &&& out[0] == seq![(ls[i], SpanStyle::Fence)]
            &&& forall|x: int| i < x < j ==> #[trigger] out[x - i] == seq![(ls[x], SpanStyle::CodeBlock)]
            &&& out[j - i] == seq![(ls[j], SpanStyle::Fence)]
            &&& out.skip(j - i + 1) == md_from(ls, j + 1, false)
        }),
{
    lemma_fence_line(ls[i]);
    lemma_code_run(ls, i + 1, j);
    let out = md_from(ls, i, false);
    let run = Seq::new((j - i - 1) as nat, |x: int| seq![(ls[i + 1 + x], SpanStyle::CodeBlock)]);
    assert(out == seq![seq![(ls[i], SpanStyle::Fence)]] + run + seq![seq![(ls[j], SpanStyle::Fence)]]
        + md_from(ls, j + 1, false));
    assert forall|x: int| i < x < j implies #[trigger] out[x - i] == seq![(ls[x], SpanStyle::CodeBlock)] by {
        assert(out[x - i] == run[x - i - 1]);
    }
    assert(out.skip(j - i + 1) =~= md_from(ls, j + 1, false));
}

/// The preview lines of a markdown text (see `md_from`), its lines split
/// as `str::lines` splits them.
pub open spec fn markdown_lines(content: Seq<char>) -> Seq<Seq<(Seq<char>, SpanStyle)>> {
    md_from(text_lines(content), 0, false)
}

/// The table that starts at line `start`: its preview lines, and how many
/// lines it takes (see `table_lines` and `table_run`).
pub fn parse_table_block(lines: &[Vec<char>], start: usize) -> (r: (Vec<Vec<StyledSpan>>, usize))
    requires
        start <= lines.len(),
    ensures
        r.1 == table_run(texts(lines@), start as int),
        start + r.1 <= lines.len(),
        lines_view(r.0@) == table_lines(
            trimmed_lines(texts(lines@).subrange(start as int, start + r.1)),
        ),
{
    let ghost ls = texts(lines@);
    let mut rows: Vec<Vec<char>> = Vec::new();
    let mut k: usize = start;
    assert(texts(rows@) =~= trimmed_lines(ls.subrange(start as int, start as int)));
    while k < lines.len() && contains_exec(&trim(&lines[k]), '|')
        invariant
            start <= k <= lines.len(),
            ls == texts(lines@),
            texts(rows@) == trimmed_lines(ls.subrange(start as int, k as int)),
            table_run(ls, start as int) == (k - start) + table_run(ls, k as int),
        decreases lines.len() - k,
    {
        let t = trim(&lines[k]);
        let ghost before = texts(rows@);
        let ghost tv = t@;
        assert(ls[k as int] == lines@[k as int]@);
        assert(tv == trim_ws(ls[k as int]));
        rows.push(t);
        assert(texts(rows@) =~= before.push(tv));
        assert(ls.subrange(start as int, k + 1) =~= ls.subrange(start as int, k as int).push(ls[k as int]));
        assert(texts(rows@) =~= trimmed_lines(ls.subrange(start as int, k + 1)));
        k = k + 1;
    }
    proof {
        if k < lines.len() {
            assert(ls[k as int] == lines@[k as int]@);
            assert(!is_table_line(ls[k as int]));
        }
        assert(table_run(ls, k as int) == 0);
    }
    let block = table_block(&rows);
    (block, k - start)
}

impl<'a> MarkdownWidget<'a> {
    /// The preview lines of the text (see `markdown_lines`).
    pub fn parse_markdown(&self) -> (lines: Vec<Vec<StyledSpan>>)
        ensures
            lines_view(lines@) == markdown_lines(self.content_spec()),
    {
        let chars = str_to_chars(self.content);
        let ls = crate::strings::split_lines(&chars);
        let ghost lv = texts(ls@);
        assert(lv =~= text_lines(self.content_spec()));
        let mut out: Vec<Vec<StyledSpan>> = Vec::new();
        let mut in_code = false;
        let mut i: usize = 0;
        let fence = vec!['`', '`', '`'];
        assert(fence@ =~= seq!['`', '`', '`']);
        assert(lines_view(out@) + md_from(lv, 0, false) =~= md_from(lv, 0, false));
        while i < ls.len()
            invariant
                i <= ls.len(),
                lv == texts(ls@),
                fence@ == seq!['`', '`', '`'],
                lines_view(out@) + md_from(lv, i as int, in_code) == md_from(lv, 0, false),
            decreases ls.len() - i,
        {
            let ghost before = lines_view(out@);
            let line = &ls[i];
            assert(lv[i as int] == line@);
            let t = trim(line);
            if chars_starts_with(&t, &fence) {
                let mut l: Vec<StyledSpan> = Vec::new();
                push_span(&mut l, span_of(line, SpanStyle::Fence));
                out.push(l);
                in_code = !in_code;
                assert(spans_view(l@) =~= seq![(line@, SpanStyle::Fence)]);
                assert(lines_view(out@) =~= before.push(seq![(line@, SpanStyle::Fence)]));
                i = i + 1;
            } else if in_code {
                let mut l: Vec<StyledSpan> = Vec::new();
                push_span(&mut l, span_of(line, SpanStyle::CodeBlock));
                out.push(l);
                assert(spans_view(l@) =~= seq![(line@, SpanStyle::CodeBlock)]);
                assert(lines_view(out@) =~= before.push(seq![(line@, SpanStyle::CodeBlock)]));
                i = i + 1;
            } else if contains_exec(&t, '|') {
                let (block, consumed) = parse_table_block(&ls, i);
                if block.len() > 0 {
                    let ghost bv = lines_view(block@);
                    let mut block = block;
                    out.append(&mut block);
                    assert(lines_view(out@) =~= before + bv);
                    i = i + consumed;
                } else {
                    let l = parse_line(line);
                    out.push(l);
                    assert(lines_view(out@) =~= before.push(line_spans(line@)));
                    i = i + 1;
                }
            } else {
                let l = parse_line(line);
                out.push(l);
                assert(lines_view(out@) =~= before.push(line_spans(line@)));
                i = i + 1;
            }
        }
        assert(lines_view(out@) + md_from(lv, i as int, in_code) =~= lines_view(out@));
        out
    }
}

} // verus!
