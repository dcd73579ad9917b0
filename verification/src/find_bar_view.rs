//! The texts of the find and replace bar: its fields with the cursor mark,
//! and the match counter.
use vstd::prelude::*;
use crate::tab::{FindReplaceState, FindFocusedField};
use crate::text::utf8_len;
use crate::encoding::char_at_byte;
use crate::field_edit::{replaced_bytes, insert_at_byte};
use crate::messages::{decimal, decimal_string, append};
use crate::tab::str_to_string;

verus! {

/// The text of a field holding `q`: with a `│` at byte `cursor` when the
/// field is focused and a char starts there.
pub open spec fn field_text(q: Seq<char>, focused: bool, cursor: usize) -> Seq<char> {
    if focused && char_at_byte(q, cursor as int) is Some {
        replaced_bytes(q, cursor as int, cursor as int, seq!['│'])->0
    } else {
        q
    }
}

/// Whether the mark can be put in: a focused field's cursor, when within
/// the text, falls on a char boundary.
pub open spec fn field_text_ok(q: Seq<char>, focused: bool, cursor: usize) -> bool {
    focused && cursor <= utf8_len(q) ==> char_at_byte(q, cursor as int) is Some
}

/// The match counter: " i/n " with the current match counted from 1 (0
/// when none is current) when there are matches, " No match " when the
/// query finds none, nothing when there is no query.
pub open spec fn match_counter(s: FindReplaceState) -> Seq<char> {
    if s.matches@.len() > 0 {
        " "@ + decimal(
            match s.current_match_index {
                Some(i) => (i + 1) as nat,
                None => 0,
            },
        ) + "/"@ + decimal(s.matches@.len()) + " "@
    } else if s.find_query@.len() > 0 {
        " No match "@
    } else {
        Seq::empty()
    }
}

/// The text of a field.
fn marked_field(q: &String, focused: bool, cursor: usize) -> (r: String)
    requires
        field_text_ok(q@, focused, cursor),
    ensures
        r@ == field_text(q@, focused, cursor),
{
    let mut t = q.clone();
    assert(t@ == q@);
    if focused {
        insert_at_byte(&mut t, cursor, '│');
    }
    t
}

impl FindReplaceState {
    /// The text of the find field.
    pub fn find_field_text(&self) -> (r: String)
        requires
            field_text_ok(
                self.find_query@,
                self.focused_field == FindFocusedField::Find,
                self.find_cursor_position,
            ),
        ensures
            r@ == field_text(
                self.find_query@,
                self.focused_field == FindFocusedField::Find,
                self.find_cursor_position,
            ),
    {
        marked_field(
            &self.find_query,
            self.focused_field == FindFocusedField::Find,
            self.find_cursor_position,
        )
    }

    /// The text of the replace field.
    pub fn replace_field_text(&self) -> (r: String)
        requires
            field_text_ok(
                self.replace_query@,
                self.focused_field == FindFocusedField::Replace,
                self.replace_cursor_position,
            ),
        ensures
            r@ == field_text(
                self.replace_query@,
                self.focused_field == FindFocusedField::Replace,
                self.replace_cursor_position,
            ),
    {
        marked_field(
            &self.replace_query,
            self.focused_field == FindFocusedField::Replace,
            self.replace_cursor_position,
        )
    }

    /// The match counter (see `match_counter`).
    pub fn match_counter_text(&self) -> (r: String)
        requires
            self.matches@.len() > 0 ==> match self.current_match_index {
                Some(i) => i < usize::MAX,
                None => true,
            },
        ensures
            r@ == match_counter(*self),
    {
        if self.matches.len() > 0 {
            let shown = match self.current_match_index {
                Some(i) => i + 1,
                None => 0,
            };
            let mut s = str_to_string(" ");
            let a = decimal_string(shown);
            append(&mut s, a.as_str());
            append(&mut s, "/");
            let b = decimal_string(self.matches.len());
            append(&mut s, b.as_str());
            append(&mut s, " ");
            s
        } else if !self.find_query.as_str().is_empty() {
            str_to_string(" No match ")
        } else {
            String::new()
        }
    }
}

} // verus!
