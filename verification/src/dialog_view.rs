//! The input field of the input dialog as drawn: each char with its style,
//! the cursor on a char or after the text.
use vstd::prelude::*;
use crate::menu::InputDialogState;
use crate::text::utf8_len;
use crate::chars::str_to_chars;

verus! {

/// How a cell of the input field is drawn.
#[derive(Debug, Clone, Copy, PartialEq, Eq, Structural)]
pub enum InputCellStyle {
    /// White on dark gray.
    Normal,
    /// Selected: white on blue.
    Selected,
    /// Under the cursor: black on yellow.
    Cursor,
    /// The cursor after the text: a yellow blinking `_`.
    EndCursor,
}

/// The style of char `i` of a field whose cursor is at `cur` and whose
/// selection, if any, starts at `sel`: selected when between the two.
pub open spec fn input_cell_style(sel: Option<usize>, cur: usize, i: int) -> InputCellStyle {
    match sel {
        Some(s) => {
            let (a, b) = if s < cur {
                (s, cur)
            } else {
                (cur, s)
            };
            if a <= i < b {
                InputCellStyle::Selected
            } else {
                InputCellStyle::Normal
            }
        },
        None => InputCellStyle::Normal,
    }
}

/// The cells of a field holding `input`: its chars with their styles;
/// then, when the cursor equals the length of the text in bytes, a `_`
/// after them, else, when the cursor counts a char, that char drawn under
/// the cursor.
pub open spec fn input_cells_of(input: Seq<char>, cur: usize, sel: Option<usize>) -> Seq<(char, InputCellStyle)> {
    let base = Seq::new(input.len(), |i: int| (input[i], input_cell_style(sel, cur, i)));
    if cur == (utf8_len(input) as usize) {
        base.push(('_', InputCellStyle::EndCursor))
    } else if cur < input.len() {
        base.update(cur as int, (input[cur as int], InputCellStyle::Cursor))
    } else {
        base
    }
}

impl InputDialogState {
    /// The cells of the input field (see `input_cells_of`).
    pub fn input_cells(&self) -> (cells: Vec<(char, InputCellStyle)>)
        ensures
            cells@ == input_cells_of(self.input@, self.cursor_position, self.selection_start),
    {
        let chars = str_to_chars(self.input.as_str());
        let cur = self.cursor_position;
        let sel = self.selection_start;
        let mut cells: Vec<(char, InputCellStyle)> = Vec::new();
        let mut i: usize = 0;
        while i < chars.len()
            invariant
                i <= chars@.len(),
                chars@ == self.input@,
                cur == self.cursor_position,
                sel == self.selection_start,
                cells@ == Seq::new(
                    i as nat,
                    |k: int| (chars@[k], input_cell_style(sel, cur, k)),
                ),
            decreases chars.len() - i,
        {
            let style = match sel {
                Some(s) => {
                    let (a, b) = if s < cur {
                        (s, cur)
                    } else {
                        (cur, s)
                    };
                    if a <= i && i < b {
                        InputCellStyle::Selected
                    } else {
                        InputCellStyle::Normal
                    }
                },
                None => InputCellStyle::Normal,
            };
            cells.push((chars[i], style));
            assert(cells@ =~= Seq::new(
                (i + 1) as nat,
                |k: int| (chars@[k], input_cell_style(sel, cur, k)),
            ));
            i = i + 1;
        }
        if cur == self.input.as_str().len() {
            cells.push(('_', InputCellStyle::EndCursor));
        } else if cur < cells.len() {
            let c = chars[cur];
            cells.set(cur, (c, InputCellStyle::Cursor));
        }
        cells
    }
}

} // verus!
