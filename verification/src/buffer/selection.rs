//! Text selection state and selected-text extraction.

use vstd::prelude::*;
use crate::buffer::cursor::{CursorPosition, pos_le, position_le};
use crate::buffer::operations::{min_int, span_text};
use crate::text::{chars_of, join_lines, string_of_range, view_lines, lemma_view_push};

verus! {

/// Selection highlight mode in the text buffer.
#[derive(Debug, Clone, Copy, PartialEq, Eq, Structural)]
pub enum SelectionMode {
    /// Standard continuous character selection.
    Character,
    /// Full line selection mode.
    Line,
    /// Rectangular block selection mode.
    Block,
}

impl Default for SelectionMode {
    fn default() -> (r: Self)
        ensures
            r == SelectionMode::Character,
    {
        SelectionMode::Character
    }
}

/// Represents an active or inactive text selection range.
#[derive(Debug, Clone, Copy, PartialEq, Eq, Structural)]
pub struct Selection {
    /// Fixed starting anchor position of the selection.
    pub anchor: CursorPosition,
    /// Current dynamic head position of the selection.
    pub head: CursorPosition,
    /// Mode of selection (Character, Line, Block).
    pub mode: SelectionMode,
    /// True if an active selection is enabled.
    pub is_active: bool,
}

/// `min(a, b)` on `usize`.
pub open spec fn min_usize(a: usize, b: usize) -> usize {
    if a <= b { a } else { b }
}

/// `max(a, b)` on `usize`.
pub open spec fn max_usize(a: usize, b: usize) -> usize {
    if a >= b { a } else { b }
}

/// The normalized range of a selection.
pub open spec fn range_spec(s: Selection) -> (CursorPosition, CursorPosition) {
    if !s.is_active {
        if pos_le(s.anchor, s.head) {
            (s.anchor, s.head)
        } else {
            (s.head, s.anchor)
        }
    } else {
        match s.mode {
            SelectionMode::Character => if pos_le(s.anchor, s.head) {
                (s.anchor, s.head)
            } else {
                (s.head, s.anchor)
            },
            SelectionMode::Line => (
                CursorPosition { row: min_usize(s.anchor.row, s.head.row), col: 0 },
                CursorPosition { row: max_usize(s.anchor.row, s.head.row), col: usize::MAX },
            ),
            SelectionMode::Block => (
                CursorPosition {
                    row: min_usize(s.anchor.row, s.head.row),
                    col: min_usize(s.anchor.col, s.head.col),
                },
                CursorPosition {
                    row: max_usize(s.anchor.row, s.head.row),
                    col: max_usize(s.anchor.col, s.head.col),
                },
            ),
        }
    }
}

/// The text a selection covers in the given lines (rows and columns clamped).
pub open spec fn selected_text_spec(s: Selection, ls: Seq<Seq<char>>) -> Seq<char> {
    let (start, end) = range_spec(s);
    let sr = min_int(start.row as int, ls.len() - 1);
    let er = min_int(end.row as int, ls.len() - 1);
    span_text(
        ls,
        sr,
        min_int(start.col as int, ls[sr].len() as int),
        er,
        min_int(end.col as int, ls[er].len() as int),
    )
}

fn min_u(a: usize, b: usize) -> (r: usize)
    ensures
        r == min_usize(a, b),
{
    if a <= b { a } else { b }
}

fn max_u(a: usize, b: usize) -> (r: usize)
    ensures
        r == max_usize(a, b),
{
    if a >= b { a } else { b }
}

impl Default for Selection {
    fn default() -> (r: Self)
        ensures
            r == Selection::inactive(),
    {
        Selection::new()
    }
}

impl Selection {
    /// The inactive selection at the origin.
    pub open spec fn inactive() -> Selection {
        Selection {
            anchor: CursorPosition { row: 0, col: 0 },
            head: CursorPosition { row: 0, col: 0 },
            mode: SelectionMode::Character,
            is_active: false,
        }
    }

    /// Creates a new inactive `Selection`.
    pub fn new() -> (r: Self)
        ensures
            r == Selection::inactive(),
    {
        Selection {
            anchor: CursorPosition::zero(),
            head: CursorPosition::zero(),
            mode: SelectionMode::Character,
            is_active: false,
        }
    }

    /// Starts a selection at specified anchor position and mode.
    pub fn start(&mut self, anchor: CursorPosition, mode: SelectionMode)
        ensures
            *final(self) == (Selection { anchor, head: anchor, mode, is_active: true }),
    {
        self.anchor = anchor;
        self.head = anchor;
        self.mode = mode;
        self.is_active = true;
    }

    /// Updates the dynamic head of the selection.
    pub fn update(&mut self, head: CursorPosition)
        ensures
            old(self).is_active ==> *final(self) == (Selection { head, ..*old(self) }),
            !old(self).is_active ==> *final(self) == *old(self),
    {
        if self.is_active {
            self.head = head;
        }
    }

    /// Clears and deactivates current selection.
    pub fn clear(&mut self)
        ensures
            *final(self) == (Selection {
                is_active: false,
                anchor: CursorPosition { row: 0, col: 0 },
                head: CursorPosition { row: 0, col: 0 },
                mode: old(self).mode,
            }),
    {
        self.is_active = false;
        self.anchor = CursorPosition::zero();
        self.head = CursorPosition::zero();
    }

    /// Returns normalized `(start_pos, end_pos)` such that `start_pos <= end_pos`.
    pub fn range(&self) -> (r: (CursorPosition, CursorPosition))
        ensures
            r == range_spec(*self),
            pos_le(r.0, r.1),
    {
        if !self.is_active {
            if position_le(self.anchor, self.head) {
                return (self.anchor, self.head);
            } else {
                return (self.head, self.anchor);
            }
        }
        match self.mode {
            SelectionMode::Character => {
                if position_le(self.anchor, self.head) {
                    (self.anchor, self.head)
                } else {
                    (self.head, self.anchor)
                }
            },
            SelectionMode::Line => {
                let start_row = min_u(self.anchor.row, self.head.row);
                let end_row = max_u(self.anchor.row, self.head.row);
                (CursorPosition::new(start_row, 0), CursorPosition::new(end_row, usize::MAX))
            },
            SelectionMode::Block => {
                let start_row = min_u(self.anchor.row, self.head.row);
                let end_row = max_u(self.anchor.row, self.head.row);
                let start_col = min_u(self.anchor.col, self.head.col);
                let end_col = max_u(self.anchor.col, self.head.col);
                (CursorPosition::new(start_row, start_col), CursorPosition::new(end_row, end_col))
            },
        }
    }

    /// Returns true if given `pos` falls within active selection bounds.
    pub fn contains(&self, pos: CursorPosition) -> (r: bool)
        ensures
            r == (self.is_active && pos_le(range_spec(*self).0, pos) && pos_le(
                pos,
                range_spec(*self).1,
            )),
    {
        if !self.is_active {
            return false;
        }
        let (start, end) = self.range();
        position_le(start, pos) && position_le(pos, end)
    }

    /// Extracts the selected text from given lines vector.
    pub fn get_selected_text(&self, lines: &[String]) -> (r: Option<String>)
        ensures
            !self.is_active || lines@.len() == 0 ==> r is None,
            self.is_active && lines@.len() > 0 ==> (r matches Some(t) && t@ == selected_text_spec(
                *self,
                view_lines(lines@),
            )),
    {
        if !self.is_active || lines.len() == 0 {
            return None;
        }
        let ghost ls = view_lines(lines@);
        let (start, end) = self.range();
        let start_row = min_u(start.row, lines.len() - 1);
        let end_row = min_u(end.row, lines.len() - 1);
        if start_row == end_row {
            let chars = chars_of(lines[start_row].as_str());
            let start_col = min_u(start.col, chars.len());
            let end_col = min_u(end.col, chars.len());
            if start_col >= end_col {
                return Some(String::new());
            }
            return Some(string_of_range(&chars, start_col, end_col));
        }
        // the range's start row precedes its end row for an active selection
        let mut result: Vec<String> = Vec::new();
        let mut r = start_row;
        let ghost sc = min_int(start.col as int, ls[start_row as int].len() as int);
        let ghost ec = min_int(end.col as int, ls[end_row as int].len() as int);
        while r <= end_row
            invariant
                start_row < end_row < lines@.len(),
                start_row <= r <= end_row + 1,
                ls == view_lines(lines@),
                sc == min_int(start.col as int, ls[start_row as int].len() as int),
                ec == min_int(end.col as int, ls[end_row as int].len() as int),
                r == start_row ==> result@.len() == 0,
                r > start_row && r <= end_row ==> view_lines(result@) == seq![
                    ls[start_row as int].skip(sc)]
                    + ls.subrange(start_row + 1, r as int),
                r == end_row + 1 ==> view_lines(result@) == seq![ls[start_row as int].skip(sc)]
                    + ls.subrange(start_row + 1, end_row as int) + seq![
                    ls[end_row as int].take(ec)],
            decreases end_row + 1 - r,
        {
            let chars = chars_of(lines[r].as_str());
            let ghost prev = result@;
            let item = if r == start_row {
                let c = min_u(start.col, chars.len());
                string_of_range(&chars, c, chars.len())
            } else if r == end_row {
                let c = min_u(end.col, chars.len());
                string_of_range(&chars, 0, c)
            } else {
                lines[r].clone()
            };
            result.push(item);
            proof {
                lemma_view_push(prev, item);
                if r == start_row {
                    assert(view_lines(result@) =~= seq![ls[start_row as int].skip(sc)]
                        + ls.subrange(start_row + 1, r + 1));
                } else if r == end_row {
                    assert(ls[end_row as int].take(ec) =~= chars@.subrange(0, ec));
                } else {
                    assert(view_lines(result@) =~= seq![ls[start_row as int].skip(sc)]
                        + ls.subrange(start_row + 1, r + 1));
                }
            }
            r = r + 1;
        }
        Some(join_lines(result.as_slice()))
    }
}

/// A selection's range runs forward: its start never follows its end.
pub proof fn lemma_range_ordered(s: Selection)
    ensures
        pos_le(range_spec(s).0, range_spec(s).1),
{
}

} // verus!
