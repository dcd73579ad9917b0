//! A text buffer backed by a `ropey::Rope`.
use vstd::prelude::*;
use ropey::Rope;
use crate::text::{
    line_count, line_start, raw_line, line_text, trim_newlines, line_byte_len, lemma_line_start_bounds,
    lemma_line_start_positive,
};

verus! {

#[verifier::external_type_specification]
#[verifier::external_body]
pub struct ExRope(ropey::Rope);

/// The chars that a rope holds, in order.
pub uninterp spec fn rope_text(r: Rope) -> Seq<char>;

/// `Rope::new`: an empty rope.
#[verifier::external_body]
fn rope_new() -> (r: Rope)
    ensures
        rope_text(r) == Seq::<char>::empty(),
{
    Rope::new()
}

/// `Rope::from_str`: a rope holding the chars of `text`.
#[verifier::external_body]
fn rope_from_str(text: &str) -> (r: Rope)
    ensures
        rope_text(r) == text@,
{
    Rope::from_str(text)
}

/// `Rope::clone`: a rope with the same chars.
#[verifier::external_body]
fn rope_clone(r: &Rope) -> (c: Rope)
    ensures
        rope_text(c) == rope_text(*r),
{
    r.clone()
}

/// `Rope::insert`: inserts `text` at char index `char_idx`; it panics past
/// the end, which `requires` rules out.
#[verifier::external_body]
fn rope_insert(r: &mut Rope, char_idx: usize, text: &str)
    requires
        char_idx <= rope_text(*old(r)).len(),
    ensures
        rope_text(*final(r)) == rope_text(*old(r)).take(char_idx as int) + text@ + rope_text(
            *old(r),
        ).skip(char_idx as int),
{
    r.insert(char_idx, text)
}

/// `Rope::insert_char`: inserts `ch` at char index `char_idx`; it panics past
/// the end, which `requires` rules out.
#[verifier::external_body]
fn rope_insert_char(r: &mut Rope, char_idx: usize, ch: char)
    requires
        char_idx <= rope_text(*old(r)).len(),
    ensures
        rope_text(*final(r)) == rope_text(*old(r)).take(char_idx as int).push(ch) + rope_text(
            *old(r),
        ).skip(char_idx as int),
{
    r.insert_char(char_idx, ch)
}

/// `Rope::remove` on `start..end`: removes those chars; it panics when
/// `start > end` or `end` is past the end, which `requires` rules out.
#[verifier::external_body]
fn rope_remove(r: &mut Rope, start: usize, end: usize)
    requires
        start <= end <= rope_text(*old(r)).len(),
    ensures
        rope_text(*final(r)) == rope_text(*old(r)).take(start as int) + rope_text(*old(r)).skip(
            end as int,
        ),
{
    r.remove(start..end)
}

/// `Rope::len_chars`: the number of chars.
#[verifier::external_body]
fn rope_len_chars(r: &Rope) -> (n: usize)
    ensures
        n == rope_text(*r).len(),
{
    r.len_chars()
}

/// `Rope::len_lines`: one more than the number of line breaks.
#[verifier::external_body]
fn rope_len_lines(r: &Rope) -> (n: usize)
    ensures
        n == line_count(rope_text(*r)),
{
    r.len_lines()
}

/// `Rope::line_to_char`: the char index at which line `line_idx` starts (the
/// length for one past the last line); it panics further on, which
/// `requires` rules out.
#[verifier::external_body]
fn rope_line_to_char(r: &Rope, line_idx: usize) -> (n: usize)
    requires
        line_idx <= line_count(rope_text(*r)),
    ensures
        n == line_start(rope_text(*r), line_idx as int),
{
    r.line_to_char(line_idx)
}

/// `Rope::line` turned into a `String`: the chars of line `line_idx`, its
/// line break included; it panics past the last line, which `requires` rules
/// out.
#[verifier::external_body]
fn rope_line_string(r: &Rope, line_idx: usize) -> (s: String)
    requires
        line_idx < line_count(rope_text(*r)),
    ensures
        s@ == raw_line(rope_text(*r), line_idx as int),
{
    r.line(line_idx).to_string()
}

/// `Rope::slice` on `start..end` turned into a `String`; it panics when
/// `start > end` or `end` is past the end, which `requires` rules out.
#[verifier::external_body]
fn rope_slice_string(r: &Rope, start: usize, end: usize) -> (s: String)
    requires
        start <= end <= rope_text(*r).len(),
    ensures
        s@ == rope_text(*r).subrange(start as int, end as int),
{
    r.slice(start..end).to_string()
}

/// The rope turned into a `String`.
#[verifier::external_body]
fn rope_to_string(r: &Rope) -> (s: String)
    ensures
        s@ == rope_text(*r),
{
    r.to_string()
}

/// `s` without its trailing LFs.
fn trim_end_newlines(s: &str) -> (t: String)
    ensures
        t@ == trim_newlines(s@),
{
    let chars = crate::chars::str_to_chars(s);
    let mut n: usize = chars.len();
    assert(chars@.take(n as int) =~= chars@);
    while n > 0 && chars[n - 1] == '\n'
        invariant
            n <= chars@.len(),
            chars@ == s@,
            trim_newlines(s@) == trim_newlines(chars@.take(n as int)),
        decreases n,
    {
        assert(chars@.take(n as int).drop_last() =~= chars@.take(n - 1));
        n = n - 1;
    }
    let kept = crate::strings::subrange_vec(&chars, 0, n);
    assert(chars@.subrange(0, n as int) =~= chars@.take(n as int));
    crate::chars::chars_to_string(&kept)
}

/// An editable text.
pub struct RopeBuffer {
    rope: Rope,
}

impl View for RopeBuffer {
    type V = Seq<char>;

    closed spec fn view(&self) -> Seq<char> {
        rope_text(self.rope)
    }
}

impl Clone for RopeBuffer {
    fn clone(&self) -> (c: Self)
        ensures
            c@ == self@,
    {
        RopeBuffer { rope: rope_clone(&self.rope) }
    }
}

impl RopeBuffer {
    /// An empty buffer.
    pub fn new() -> (b: Self)
        ensures
            b@ == Seq::<char>::empty(),
    {
        RopeBuffer { rope: rope_new() }
    }

    /// A buffer holding `text`.
    pub fn from_str(text: &str) -> (b: Self)
        ensures
            b@ == text@,
    {
        RopeBuffer { rope: rope_from_str(text) }
    }

    /// Inserts `text` at char index `char_idx`.
    pub fn insert(&mut self, char_idx: usize, text: &str)
        requires
            char_idx <= old(self)@.len(),
        ensures
            final(self)@ == old(self)@.take(char_idx as int) + text@ + old(self)@.skip(
                char_idx as int,
            ),
    {
        rope_insert(&mut self.rope, char_idx, text);
    }

    /// Inserts `ch` at char index `char_idx`.
    pub fn insert_char(&mut self, char_idx: usize, ch: char)
        requires
            char_idx <= old(self)@.len(),
        ensures
            final(self)@ == old(self)@.take(char_idx as int).push(ch) + old(self)@.skip(
                char_idx as int,
            ),
    {
        rope_insert_char(&mut self.rope, char_idx, ch);
    }

    /// Removes the chars with index in `start..end`.
    pub fn remove(&mut self, start: usize, end: usize)
        requires
            start <= end <= old(self)@.len(),
        ensures
            final(self)@ == old(self)@.take(start as int) + old(self)@.skip(end as int),
    {
        rope_remove(&mut self.rope, start, end);
    }

    /// The number of chars.
    pub fn len_chars(&self) -> (n: usize)
        ensures
            n == self@.len(),
    {
        rope_len_chars(&self.rope)
    }

    /// The number of lines.
    pub fn len_lines(&self) -> (n: usize)
        ensures
            n == line_count(self@),
    {
        rope_len_lines(&self.rope)
    }

    /// The char index at which line `line_idx` starts.
    pub fn line_to_char(&self, line_idx: usize) -> (n: usize)
        requires
            line_idx <= line_count(self@),
        ensures
            n == line_start(self@, line_idx as int),
    {
        rope_line_to_char(&self.rope, line_idx)
    }

    /// The whole text.
    pub fn to_string(&self) -> (s: String)
        ensures
            s@ == self@,
    {
        rope_to_string(&self.rope)
    }

    /// The chars of line `line_idx` with its line break included.
    pub fn line(&self, line_idx: usize) -> (s: String)
        requires
            line_idx < line_count(self@),
        ensures
            s@ == raw_line(self@, line_idx as int),
    {
        rope_line_string(&self.rope, line_idx)
    }

    /// The chars with index in `start..end`.
    pub fn slice(&self, start: usize, end: usize) -> (s: String)
        requires
            start <= end <= self@.len(),
        ensures
            s@ == self@.subrange(start as int, end as int),
    {
        rope_slice_string(&self.rope, start, end)
    }

    /// The text of line `line_idx` without trailing LFs; empty past the last
    /// line.
    pub fn get_line_text(&self, line_idx: usize) -> (s: String)
        ensures
            s@ == line_text(self@, line_idx as int),
    {
        if line_idx < self.len_lines() {
            let line = self.line(line_idx);
            trim_end_newlines(line.as_str())
        } else {
            String::new()
        }
    }

    /// The UTF-8 byte length of line `line_idx` without trailing LFs.
    pub fn line_byte_len(&self, line_idx: usize) -> (n: usize)
        ensures
            n == line_byte_len(self@, line_idx as int),
    {
        let t = self.get_line_text(line_idx);
        t.as_str().len()
    }

    /// Replaces the content of line `line_idx`, its line break kept, by
    /// `new_text`; does nothing past the last line.
    pub fn replace_line(&mut self, line_idx: usize, new_text: &str)
        ensures
            line_idx >= line_count(old(self)@) ==> final(self)@ == old(self)@,
            line_idx < line_count(old(self)@) ==> final(self)@ == replace_line_spec(
                old(self)@,
                line_idx as int,
                new_text@,
            ),
    {
        if line_idx >= self.len_lines() {
            return;
        }
        let ghost s = self@;
        proof {
            lemma_line_start_bounds(s, line_idx as int);
            lemma_line_start_bounds(s, line_idx + 1);
        }
        let line_start = self.line_to_char(line_idx);
        let line_end = if line_idx + 1 < self.len_lines() {
            proof {
                lemma_line_start_positive(s, line_idx + 1);
            }
            self.line_to_char(line_idx + 1) - 1
        } else {
            self.len_chars()
        };
        if line_end > line_start {
            self.remove(line_start, line_end);
        }
        proof {
            if line_end <= line_start {
                assert(self@.take(line_start as int) + self@.skip(line_start as int) =~= self@);
            }
        }
        self.insert(line_start, new_text);
    }
}

/// The end of the content of line `k` that `replace_line` replaces: one char
/// before the next line starts, or the end of the text on the last line.
pub open spec fn replaced_line_end(s: Seq<char>, k: int) -> int {
    if k + 1 < line_count(s) {
        line_start(s, k + 1) - 1
    } else {
        s.len() as int
    }
}

/// The text after `replace_line(k, t)`.
pub open spec fn replace_line_spec(s: Seq<char>, k: int, t: Seq<char>) -> Seq<char> {
    let start = line_start(s, k);
    let end = replaced_line_end(s, k);
    if end > start {
        s.take(start) + t + s.skip(end)
    } else {
        s.take(start) + t + s.skip(start)
    }
}

} // verus!
