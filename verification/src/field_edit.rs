//! Edits of one-line text fields (dialog inputs, find and replace queries)
//! whose cursors are byte offsets, as `String::insert`, `String::remove` and
//! `String::replace_range` make them: an edit applies only where its offsets
//! fall on char boundaries.
use vstd::prelude::*;
use crate::encoding::{char_at_byte, byte_to_char};
use crate::chars::{str_to_chars, chars_to_string};
use crate::strings::subrange_vec;

verus! {

/// `s` with its bytes `a..b` replaced by `t`, when both offsets fall on
/// char boundaries in order; `None` otherwise.
pub open spec fn replaced_bytes(s: Seq<char>, a: int, b: int, t: Seq<char>) -> Option<Seq<char>> {
    match (char_at_byte(s, a), char_at_byte(s, b)) {
        (Some(i), Some(j)) => if i <= j {
            Some(s.take(i) + t + s.skip(j))
        } else {
            None
        },
        _ => None,
    }
}

/// `s` without the char that starts at byte `b`, when there is one.
pub open spec fn removed_at_byte(s: Seq<char>, b: int) -> Option<Seq<char>> {
    match char_at_byte(s, b) {
        Some(k) => if k < s.len() {
            Some(s.take(k) + s.skip(k + 1))
        } else {
            None
        },
        None => None,
    }
}

/// `n + 1`, kept at `usize::MAX`.
pub open spec fn inc(n: usize) -> usize {
    if n < usize::MAX {
        (n + 1) as usize
    } else {
        n
    }
}

/// `n + 1`, kept at `usize::MAX`.
pub fn inc_exec(n: usize) -> (r: usize)
    ensures
        r == inc(n),
{
    if n < usize::MAX {
        n + 1
    } else {
        n
    }
}

/// Replaces the bytes `a..b` of `s` by `t` when both offsets fall on char
/// boundaries in order; leaves `s` as it is otherwise. Tells which.
pub fn replace_bytes(s: &mut String, a: usize, b: usize, t: &str) -> (ok: bool)
    ensures
        ok == (replaced_bytes(old(s)@, a as int, b as int, t@) is Some),
        ok ==> final(s)@ == replaced_bytes(old(s)@, a as int, b as int, t@)->0,
        !ok ==> *final(s) == *old(s),
{
    let chars = str_to_chars(s.as_str());
    match (byte_to_char(&chars, a), byte_to_char(&chars, b)) {
        (Some(i), Some(j)) => {
            if i <= j {
                let mut v = subrange_vec(&chars, 0, i);
                let mut middle = str_to_chars(t);
                let mut tail = subrange_vec(&chars, j, chars.len());
                v.append(&mut middle);
                v.append(&mut tail);
                assert(chars@.subrange(0, i as int) =~= chars@.take(i as int));
                assert(chars@.subrange(j as int, chars@.len() as int) =~= chars@.skip(j as int));
                *s = chars_to_string(&v);
                true
            } else {
                false
            }
        },
        _ => false,
    }
}

/// Inserts `c` at byte `b` of `s` when it falls on a char boundary; leaves
/// `s` as it is otherwise. Tells which.
pub fn insert_at_byte(s: &mut String, b: usize, c: char) -> (ok: bool)
    ensures
        ok == (char_at_byte(old(s)@, b as int) is Some),
        ok ==> final(s)@ == replaced_bytes(old(s)@, b as int, b as int, seq![c])->0,
        !ok ==> *final(s) == *old(s),
{
    let mut one = String::new();
    crate::chars::string_push(&mut one, c);
    replace_bytes(s, b, b, one.as_str())
}

/// Removes the char that starts at byte `b` of `s`, when there is one;
/// leaves `s` as it is otherwise. Tells which.
pub fn remove_at_byte(s: &mut String, b: usize) -> (ok: bool)
    ensures
        ok == (removed_at_byte(old(s)@, b as int) is Some),
        ok ==> final(s)@ == removed_at_byte(old(s)@, b as int)->0,
        !ok ==> *final(s) == *old(s),
{
    let chars = str_to_chars(s.as_str());
    match byte_to_char(&chars, b) {
        Some(k) => {
            if k < chars.len() {
                let mut v = subrange_vec(&chars, 0, k);
                let mut tail = subrange_vec(&chars, k + 1, chars.len());
                v.append(&mut tail);
                assert(chars@.subrange(0, k as int) =~= chars@.take(k as int));
                assert(chars@.subrange(k + 1, chars@.len() as int) =~= chars@.skip(k + 1));
                *s = chars_to_string(&v);
                true
            } else {
                false
            }
        },
        None => false,
    }
}

} // verus!
