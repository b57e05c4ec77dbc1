//! Atomic mutation commands for text editing and their inverses.

use vstd::prelude::*;
use crate::buffer::cursor::CursorPosition;
use crate::text::{chars_of, split_newlines, split_nl, view_lines};

verus! {

/// Atomic mutation commands for text buffer editing and command-pattern undo/redo.
#[derive(Debug, Clone, PartialEq, Eq)]
pub enum BufferCommand {
    /// Inserts a single character at specified cursor position.
    InsertChar { pos: CursorPosition, ch: char },
    /// Inserts string text (single line or multiline) at specified cursor position.
    InsertText { pos: CursorPosition, text: String },
    /// Deletes a single character at specified cursor position.
    DeleteChar { pos: CursorPosition, deleted_ch: char },
    /// Deletes text within range `[start, end)`.
    DeleteText { start: CursorPosition, end: CursorPosition, deleted_text: String },
    /// Splits line at specified cursor position into two lines.
    SplitLine { pos: CursorPosition },
    /// Merges line at `row` with line `row + 1` at column offset `col_offset`.
    MergeLines { row: usize, col_offset: usize },
}

/// The value of a command, with its texts as character sequences.
pub enum CommandView {
    InsertChar { pos: CursorPosition, ch: char },
    InsertText { pos: CursorPosition, text: Seq<char> },
    DeleteChar { pos: CursorPosition, deleted_ch: char },
    DeleteText { start: CursorPosition, end: CursorPosition, deleted_text: Seq<char> },
    SplitLine { pos: CursorPosition },
    MergeLines { row: usize, col_offset: usize },
}

impl View for BufferCommand {
    type V = CommandView;

    open spec fn view(&self) -> CommandView {
        match *self {
            BufferCommand::InsertChar { pos, ch } => CommandView::InsertChar { pos, ch },
            BufferCommand::InsertText { pos, text } => CommandView::InsertText { pos, text: text@ },
            BufferCommand::DeleteChar { pos, deleted_ch } => CommandView::DeleteChar {
                pos,
                deleted_ch,
            },
            BufferCommand::DeleteText { start, end, deleted_text } => CommandView::DeleteText {
                start,
                end,
                deleted_text: deleted_text@,
            },
            BufferCommand::SplitLine { pos } => CommandView::SplitLine { pos },
            BufferCommand::MergeLines { row, col_offset } => CommandView::MergeLines {
                row,
                col_offset,
            },
        }
    }
}

/// The lines of a text as `str::lines` yields them: split at `'\n'`, no empty
/// line after a final `'\n'`, no line at all for empty text, and one `'\r'`
/// removed from the end of every line that a `'\n'` terminates.
pub open spec fn std_lines(t: Seq<char>) -> Seq<Seq<char>> {
    if t.len() == 0 {
        Seq::empty()
    } else {
        let p = split_nl(t);
        let q = if t.last() == '\n' { p.drop_last() } else { p };
        Seq::new(
            q.len(),
            |i: int|
                if i < p.len() - 1 && q[i].len() > 0 && q[i].last() == '\r' {
                    q[i].drop_last()
                } else {
                    q[i]
                },
        )
    }
}

/// The end of the text that an insertion of `text` at `pos` covers: the text is
/// split at every `'\n'`, the last part counting even when it is empty.
pub open spec fn inserted_end(pos: CursorPosition, text: Seq<char>) -> (int, int) {
    let parts = split_nl(text);
    if parts.len() <= 1 {
        (pos.row as int, pos.col + text.len())
    } else {
        (pos.row + parts.len() - 1, parts.last().len() as int)
    }
}

/// True when the inverse of the command can be computed without overflow.
pub open spec fn inverse_fits(c: CommandView) -> bool {
    match c {
        CommandView::InsertText { pos, text } => {
            let e = inserted_end(pos, text);
            e.0 <= usize::MAX && e.1 <= usize::MAX
        },
        _ => true,
    }
}

/// The inverse of a command.
pub open spec fn inverse_spec(c: CommandView) -> CommandView {
    match c {
        CommandView::InsertChar { pos, ch } => CommandView::DeleteChar { pos, deleted_ch: ch },
        CommandView::InsertText { pos, text } => {
            let e = inserted_end(pos, text);
            CommandView::DeleteText {
                start: pos,
                end: CursorPosition { row: e.0 as usize, col: e.1 as usize },
                deleted_text: text,
            }
        },
        CommandView::DeleteChar { pos, deleted_ch } => CommandView::InsertChar { pos, ch: deleted_ch },
        CommandView::DeleteText { start, deleted_text, .. } => CommandView::InsertText {
            pos: start,
            text: deleted_text,
        },
        CommandView::SplitLine { pos } => CommandView::MergeLines { row: pos.row, col_offset: pos.col },
        CommandView::MergeLines { row, col_offset } => CommandView::SplitLine {
            pos: CursorPosition { row, col: col_offset },
        },
    }
}

/// Computes the number of parts of `text` split at every `'\n'` and the length of
/// the last of them.
fn split_shape(text: &String) -> (r: (usize, usize))
    ensures
        r.0 == split_nl(text@).len(),
        r.1 == split_nl(text@).last().len(),
{
    let parts = split_newlines(text.as_str());
    let n = parts.len();
    let last = chars_of(parts[n - 1].as_str());
    assert(last@ == split_nl(text@)[n - 1]);
    (n, last.len())
}

impl BufferCommand {
    /// Generates the inverse command required to undo this mutation.
    pub fn inverse(&self) -> (r: Self)
        requires
            inverse_fits(self@),
        ensures
            r@ == inverse_spec(self@),
    {
        match self {
            BufferCommand::InsertChar { pos, ch } => BufferCommand::DeleteChar {
                pos: *pos,
                deleted_ch: *ch,
            },
            BufferCommand::InsertText { pos, text } => {
                let (n, last_len) = split_shape(text);
                let end_pos = if n <= 1 {
                    let char_count = crate::text::char_count(text.as_str());
                    CursorPosition::new(pos.row, pos.col + char_count)
                } else {
                    CursorPosition::new(pos.row + (n - 1), last_len)
                };
                BufferCommand::DeleteText { start: *pos, end: end_pos, deleted_text: text.clone() }
            },
            BufferCommand::DeleteChar { pos, deleted_ch } => BufferCommand::InsertChar {
                pos: *pos,
                ch: *deleted_ch,
            },
            BufferCommand::DeleteText { start, deleted_text, .. } => BufferCommand::InsertText {
                pos: *start,
                text: deleted_text.clone(),
            },
            BufferCommand::SplitLine { pos } => BufferCommand::MergeLines {
                row: pos.row,
                col_offset: pos.col,
            },
            BufferCommand::MergeLines { row, col_offset } => BufferCommand::SplitLine {
                pos: CursorPosition::new(*row, *col_offset),
            },
        }
    }

    /// A copy of this command with the same value.
    pub fn duplicate(&self) -> (r: Self)
        ensures
            r == *self,
    {
        match self {
            BufferCommand::InsertChar { pos, ch } => BufferCommand::InsertChar { pos: *pos, ch: *ch },
            BufferCommand::InsertText { pos, text } => BufferCommand::InsertText {
                pos: *pos,
                text: text.clone(),
            },
            BufferCommand::DeleteChar { pos, deleted_ch } => BufferCommand::DeleteChar {
                pos: *pos,
                deleted_ch: *deleted_ch,
            },
            BufferCommand::DeleteText { start, end, deleted_text } => BufferCommand::DeleteText {
                start: *start,
                end: *end,
                deleted_text: deleted_text.clone(),
            },
            BufferCommand::SplitLine { pos } => BufferCommand::SplitLine { pos: *pos },
            BufferCommand::MergeLines { row, col_offset } => BufferCommand::MergeLines {
                row: *row,
                col_offset: *col_offset,
            },
        }
    }
}

/// Inverting a command other than a range deletion twice gives back the command
/// (a range deletion comes back with the end its text spans).
pub proof fn lemma_inverse_involutive(c: CommandView)
    requires
        !(c is DeleteText),
    ensures
        inverse_spec(inverse_spec(c)) == c,
{
}

/// Inverting a range deletion yields an insertion of the deleted text at the range's start.
pub proof fn lemma_inverse_of_delete_text(
    start: CursorPosition,
    end: CursorPosition,
    deleted_text: Seq<char>,
)
    ensures
        inverse_spec(CommandView::DeleteText { start, end, deleted_text }) == (
        CommandView::InsertText { pos: start, text: deleted_text }),
{
}

} // verus!
