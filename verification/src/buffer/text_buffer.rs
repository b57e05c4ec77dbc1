//! The text buffer: lines of text with a cursor, a selection, an internal
//! clipboard and transaction undo/redo history.

use vstd::prelude::*;
use crate::buffer::clipboard::{ClipboardContentType, InternalClipboard};
use crate::buffer::commands::BufferCommand;
use crate::buffer::cursor::{
    Cursor, CursorPosition, clamp_spec, line_len, position_eq, position_le,
};
use crate::buffer::errors::BufferError;
use crate::buffer::history::{CommandGroup, UndoRedoHistory, DEFAULT_MAX_UNDO_LEVELS};
use crate::buffer::model::{
    BufferModel, insert_char_spec, insert_char_core, insert_str_spec, insert_str_core, spaces,
    tab_spaces, replace_range_spec, follow, cleared, delete_char_recorded, copy_spec, cut_spec, paste_spec, paste_line_at, record, delete_range_spec, range_ok, selection_ok, delete_selection_spec,
    delete_char_spec, delete_char_core, delete_backspace_spec, delete_line_spec, delete_word_spec, buffer_wf, clamp_view, in_bounds, line_len_v, model_text, moved, text_lines,
    word_backward_cursor, word_forward_cursor, apply_cmd, cmd_panics, undo_apply, undo_safe,
    redo_apply, redo_safe, undo_spec, redo_spec, can_undo_safely, can_redo_safely,
    lemma_apply_keeps_lines,
};
use crate::buffer::operations::BufferOperations;
use crate::buffer::selection::{Selection, SelectionMode, selected_text_spec};
use crate::text::{
    chars_of, join_lines, split_newlines, split_nl, trim_trailing_cr, view_lines, lemma_view_push,
};

verus! {

/// Text buffer storing text as a vector of line strings, supporting cursor
/// navigation, selections, clipboard, and transaction undo/redo history.
#[derive(Debug, Clone, PartialEq, Eq)]
pub struct TextBuffer {
    lines: Vec<String>,
    cursor: Cursor,
    selection: Selection,
    clipboard: InternalClipboard,
    history: UndoRedoHistory,
    is_modified: bool,
}

impl View for TextBuffer {
    type V = BufferModel;

    closed spec fn view(&self) -> BufferModel {
        BufferModel {
            lines: view_lines(self.lines@),
            cursor: self.cursor,
            selection: self.selection,
            clipboard: self.clipboard.content_view(),
            undo: self.history.undo(),
            redo: self.history.redo(),
            max_levels: self.history.max_levels(),
            modified: self.is_modified,
        }
    }
}

/// A fresh buffer state holding the given lines.
pub open spec fn fresh_model(ls: Seq<Seq<char>>) -> BufferModel {
    BufferModel {
        lines: ls,
        cursor: Cursor { position: CursorPosition { row: 0, col: 0 }, preferred_col: None },
        selection: Selection::inactive(),
        clipboard: None,
        undo: Seq::empty(),
        redo: Seq::empty(),
        max_levels: DEFAULT_MAX_UNDO_LEVELS,
        modified: false,
    }
}

proof fn lemma_line_len_bridge(lines: Seq<String>, row: int)
    ensures
        line_len(lines, row) == line_len_v(view_lines(lines), row),
{
}

proof fn lemma_clamp_bridge(lines: Seq<String>, p: CursorPosition)
    ensures
        clamp_spec(lines, p) == clamp_view(view_lines(lines), p),
{
}

impl Default for TextBuffer {
    fn default() -> (r: Self)
        ensures
            r@ == fresh_model(seq![Seq::<char>::empty()]),
    {
        TextBuffer::new()
    }
}

/// Splits text into buffer lines, removing trailing carriage returns.
fn lines_from_text(text: &str) -> (res: Vec<String>)
    ensures
        view_lines(res@) == text_lines(text@),
{
    if text.is_empty() {
        let mut v: Vec<String> = Vec::new();
        v.push(String::new());
        assert(view_lines(v@) =~= text_lines(text@));
        return v;
    }
    let parts = split_newlines(text);
    let mut res: Vec<String> = Vec::new();
    let mut i: usize = 0;
    while i < parts.len()
        invariant
            i <= parts.len(),
            view_lines(res@) =~= view_lines(parts@).take(i as int).map_values(
                |l: Seq<char>| crate::text::strip_trailing_cr(l),
            ),
        decreases parts.len() - i,
    {
        let ghost prev = res@;
        let s = trim_trailing_cr(&parts[i]);
        res.push(s);
        proof {
            lemma_view_push(prev, s);
        }
        assert(view_lines(res@) =~= view_lines(parts@).take(i + 1).map_values(
            |l: Seq<char>| crate::text::strip_trailing_cr(l),
        ));
        i = i + 1;
    }
    assert(view_lines(parts@).take(parts.len() as int) =~= view_lines(parts@));
    res
}

/// Inserts the parts of `text` split at every `'\n'` as lines before line `row`.
fn insert_lines_at(lines: &mut Vec<String>, row: usize, text: &String)
    requires
        row <= old(lines)@.len(),
    ensures
        view_lines(final(lines)@) == view_lines(old(lines)@).take(row as int) + split_nl(text@)
            + view_lines(old(lines)@).skip(row as int),
{
    let parts = split_newlines(text.as_str());
    let ghost old_ls = view_lines(lines@);
    let ghost ps = view_lines(parts@);
    let mut k: usize = 0;
    while k < parts.len()
        invariant
            k <= parts.len(),
            row <= old_ls.len(),
            ps == view_lines(parts@),
            ps == split_nl(text@),
            lines@.len() == old_ls.len() + k,
            view_lines(lines@) == old_ls.take(row as int) + ps.take(k as int) + old_ls.skip(row as int),
        decreases parts.len() - k,
    {
        let ghost prev = lines@;
        let item = parts[k].clone();
        let len_now = lines.len();
        assert(row + k <= len_now);
        lines.insert(row + k, item);
        proof {
            crate::text::lemma_view_insert(prev, row + k, item);
            assert(ps.take(k + 1) =~= ps.take(k as int).push(ps[k as int]));
            assert(view_lines(lines@) =~= old_ls.take(row as int) + ps.take(k + 1) + old_ls.skip(row as int));
        }
        k = k + 1;
    }
    assert(ps.take(parts.len() as int) =~= ps);
}

impl TextBuffer {
    /// Creates a new empty `TextBuffer` initialized with one empty line.
    pub fn new() -> (r: Self)
        ensures
            r@ == fresh_model(seq![Seq::<char>::empty()]),
    {
        let mut lines: Vec<String> = Vec::new();
        lines.push(String::new());
        let r = TextBuffer {
            lines,
            cursor: Cursor::new(),
            selection: Selection::new(),
            clipboard: InternalClipboard::new(),
            history: UndoRedoHistory::default(),
            is_modified: false,
        };
        assert(r@.lines =~= seq![Seq::<char>::empty()]);
        assert(r@.undo =~= Seq::empty());
        assert(r@.redo =~= Seq::empty());
        r
    }

    /// Creates a `TextBuffer` from an initial text string.
    pub fn from_str(text: &str) -> (r: Self)
        ensures
            r@ == fresh_model(text_lines(text@)),
            buffer_wf(r@),
    {
        let lines = lines_from_text(text);
        proof {
            crate::text::lemma_split_nl_nonempty(text@);
        }
        let r = TextBuffer {
            lines,
            cursor: Cursor::new(),
            selection: Selection::new(),
            clipboard: InternalClipboard::new(),
            history: UndoRedoHistory::default(),
            is_modified: false,
        };
        assert(r@.undo =~= Seq::empty());
        assert(r@.redo =~= Seq::empty());
        r
    }

    /// Creates a `TextBuffer` from a vector of line strings (no lines: one empty line).
    pub fn from_lines(lines: Vec<String>) -> (r: Self)
        ensures
            r@ == fresh_model(
                if lines@.len() == 0 { seq![Seq::<char>::empty()] } else { view_lines(lines@) },
            ),
            buffer_wf(r@),
    {
        let safe_lines = if lines.len() == 0 {
            let mut v: Vec<String> = Vec::new();
            v.push(String::new());
            assert(view_lines(v@) =~= seq![Seq::<char>::empty()]);
            v
        } else {
            lines
        };
        let r = TextBuffer {
            lines: safe_lines,
            cursor: Cursor::new(),
            selection: Selection::new(),
            clipboard: InternalClipboard::new(),
            history: UndoRedoHistory::default(),
            is_modified: false,
        };
        assert(r@.undo =~= Seq::empty());
        assert(r@.redo =~= Seq::empty());
        r
    }

    // --- Line & Text Accessors ---
    /// Returns reference to all lines.
    pub fn lines(&self) -> (r: &[String])
        ensures
            view_lines(r@) == self@.lines,
    {
        self.lines.as_slice()
    }

    /// Returns total line count.
    pub fn line_count(&self) -> (r: usize)
        ensures
            r == self@.lines.len(),
    {
        self.lines.len()
    }

    /// Returns the line at `row` if present.
    pub fn line(&self, row: usize) -> (r: Option<&str>)
        ensures
            row < self@.lines.len() ==> (r matches Some(s) && s@ == self@.lines[row as int]),
            row >= self@.lines.len() ==> r is None,
    {
        if row < self.lines.len() {
            Some(self.lines[row].as_str())
        } else {
            None
        }
    }

    /// The whole text: lines joined by `'\n'`.
    pub fn text(&self) -> (r: String)
        ensures
            r@ == model_text(self@),
    {
        join_lines(self.lines.as_slice())
    }

    /// Sets the entire buffer text to the new content.
    pub fn set_text(&mut self, text: &str)
        ensures
            final(self)@ == (BufferModel {
                lines: text_lines(text@),
                cursor: Cursor {
                    position: clamp_view(text_lines(text@), old(self)@.cursor.position),
                    ..old(self)@.cursor
                },
                modified: true,
                ..old(self)@
            }),
            buffer_wf(old(self)@) ==> buffer_wf(final(self)@),
    {
        let lines = lines_from_text(text);
        self.lines = lines;
        self.cursor.clamp(self.lines.as_slice());
        proof {
            lemma_clamp_bridge(self.lines@, old(self).cursor.position);
            crate::text::lemma_split_nl_nonempty(text@);
        }
        self.is_modified = true;
    }

    /// Returns true if buffer contains no text.
    pub fn is_empty(&self) -> (r: bool)
        ensures
            r == (self@.lines.len() == 0 || (self@.lines.len() == 1 && self@.lines[0].len() == 0)),
    {
        self.lines.len() == 0 || (self.lines.len() == 1 && self.lines[0].as_str().is_empty())
    }

    /// Returns true if buffer has unpersisted modifications.
    pub fn is_modified(&self) -> (r: bool)
        ensures
            r == self@.modified,
    {
        self.is_modified
    }

    /// Clears buffer content, selection and history.
    pub fn clear(&mut self)
        ensures
            final(self)@ == (BufferModel {
                lines: seq![Seq::<char>::empty()],
                cursor: Cursor { position: CursorPosition { row: 0, col: 0 }, preferred_col: None },
                selection: crate::buffer::model::cleared(old(self)@.selection),
                undo: Seq::empty(),
                redo: Seq::empty(),
                modified: false,
                ..old(self)@
            }),
    {
        let mut lines: Vec<String> = Vec::new();
        lines.push(String::new());
        self.lines = lines;
        self.cursor = Cursor::new();
        self.selection.clear();
        self.history.clear();
        self.is_modified = false;
        assert(self@.lines =~= seq![Seq::<char>::empty()]);
        assert(self@.undo =~= Seq::empty());
        assert(self@.redo =~= Seq::empty());
    }

    // --- Cursor Navigation ---
    /// Access reference to cursor.
    pub fn cursor(&self) -> (r: &Cursor)
        ensures
            *r == self@.cursor,
    {
        &self.cursor
    }

    /// Access mutable reference to cursor.
    pub fn cursor_mut(&mut self) -> (r: &mut Cursor)
        ensures
            *r == old(self)@.cursor,
            final(self)@ == (BufferModel { cursor: *final(r), ..old(self)@ }),
    {
        &mut self.cursor
    }

    /// Returns active 0-indexed cursor position (row, col).
    pub fn cursor_position(&self) -> (r: CursorPosition)
        ensures
            r == self@.cursor.position,
    {
        self.cursor.position
    }

    /// Sets explicit cursor position, clamping to valid bounds.
    pub fn set_cursor_position(&mut self, row: usize, col: usize)
        ensures
            final(self)@ == moved(
                old(self)@,
                Cursor {
                    position: clamp_view(old(self)@.lines, CursorPosition { row, col }),
                    ..old(self)@.cursor
                },
            ),
    {
        self.cursor.position = CursorPosition::new(row, col);
        self.cursor.clamp(self.lines.as_slice());
        proof {
            lemma_clamp_bridge(self.lines@, CursorPosition { row, col });
        }
        if self.selection.is_active {
            self.selection.update(self.cursor.position);
        }
    }

    /// Moves the cursor left (wrapping to the end of the previous line).
    pub fn move_left(&mut self)
        ensures
            final(self)@ == moved(old(self)@, final(self)@.cursor),
            final(self)@.cursor.preferred_col is None,
            ({
                let p = old(self)@.cursor.position;
                let q = final(self)@.cursor.position;
                if p.col > 0 {
                    q == CursorPosition { row: p.row, col: (p.col - 1) as usize }
                } else if p.row > 0 {
                    q == CursorPosition {
                        row: (p.row - 1) as usize,
                        col: line_len_v(old(self)@.lines, p.row - 1) as usize,
                    }
                } else {
                    q == p
                }
            }),
    {
        self.cursor.move_left(self.lines.as_slice());
        proof {
            lemma_line_len_bridge(self.lines@, old(self).cursor.position.row - 1);
        }
        if self.selection.is_active {
            self.selection.update(self.cursor.position);
        }
    }

    /// Moves the cursor right (wrapping to the start of the next line).
    pub fn move_right(&mut self)
        ensures
            final(self)@ == moved(old(self)@, final(self)@.cursor),
            final(self)@.cursor.preferred_col is None,
            ({
                let p = old(self)@.cursor.position;
                let q = final(self)@.cursor.position;
                if p.col < line_len_v(old(self)@.lines, p.row as int) {
                    q == CursorPosition { row: p.row, col: (p.col + 1) as usize }
                } else if p.row + 1 < old(self)@.lines.len() {
                    q == CursorPosition { row: (p.row + 1) as usize, col: 0 }
                } else {
                    q == p
                }
            }),
    {
        self.cursor.move_right(self.lines.as_slice());
        proof {
            lemma_line_len_bridge(self.lines@, old(self).cursor.position.row as int);
        }
        if self.selection.is_active {
            self.selection.update(self.cursor.position);
        }
    }

    /// Moves the cursor up one line, keeping the preferred column where possible.
    pub fn move_up(&mut self)
        ensures
            final(self)@ == moved(old(self)@, final(self)@.cursor),
            ({
                let c = old(self)@.cursor;
                let p = c.position;
                let target = match c.preferred_col {
                    Some(t) => t,
                    None => p.col,
                };
                if p.row > 0 {
                    let len = line_len_v(old(self)@.lines, p.row - 1);
                    final(self)@.cursor == Cursor {
                        position: CursorPosition {
                            row: (p.row - 1) as usize,
                            col: if target <= len { target } else { len as usize },
                        },
                        preferred_col: Some(target),
                    }
                } else {
                    final(self)@.cursor == c
                }
            }),
    {
        self.cursor.move_up(self.lines.as_slice());
        proof {
            lemma_line_len_bridge(self.lines@, old(self).cursor.position.row - 1);
        }
        if self.selection.is_active {
            self.selection.update(self.cursor.position);
        }
    }

    /// Moves the cursor down one line, keeping the preferred column where possible.
    pub fn move_down(&mut self)
        ensures
            final(self)@ == moved(old(self)@, final(self)@.cursor),
            ({
                let c = old(self)@.cursor;
                let p = c.position;
                let target = match c.preferred_col {
                    Some(t) => t,
                    None => p.col,
                };
                if p.row + 1 < old(self)@.lines.len() {
                    let len = line_len_v(old(self)@.lines, p.row + 1);
                    final(self)@.cursor == Cursor {
                        position: CursorPosition {
                            row: (p.row + 1) as usize,
                            col: if target <= len { target } else { len as usize },
                        },
                        preferred_col: Some(target),
                    }
                } else {
                    final(self)@.cursor == c
                }
            }),
    {
        self.cursor.move_down(self.lines.as_slice());
        proof {
            lemma_line_len_bridge(self.lines@, old(self).cursor.position.row + 1);
        }
        if self.selection.is_active {
            self.selection.update(self.cursor.position);
        }
    }

    /// Moves the cursor to the start of its line.
    pub fn move_to_line_start(&mut self)
        ensures
            final(self)@ == moved(
                old(self)@,
                Cursor {
                    position: CursorPosition { row: old(self)@.cursor.position.row, col: 0 },
                    preferred_col: None,
                },
            ),
    {
        self.cursor.move_to_line_start();
        if self.selection.is_active {
            self.selection.update(self.cursor.position);
        }
    }

    /// Moves the cursor to the end of its line.
    pub fn move_to_line_end(&mut self)
        ensures
            final(self)@ == moved(
                old(self)@,
                Cursor {
                    position: CursorPosition {
                        row: old(self)@.cursor.position.row,
                        col: line_len_v(old(self)@.lines, old(self)@.cursor.position.row as int)
                            as usize,
                    },
                    preferred_col: None,
                },
            ),
    {
        self.cursor.move_to_line_end(self.lines.as_slice());
        proof {
            lemma_line_len_bridge(self.lines@, old(self).cursor.position.row as int);
        }
        if self.selection.is_active {
            self.selection.update(self.cursor.position);
        }
    }

    /// Moves the cursor to the start of the text.
    pub fn move_to_file_start(&mut self)
        ensures
            final(self)@ == moved(
                old(self)@,
                Cursor { position: CursorPosition { row: 0, col: 0 }, preferred_col: None },
            ),
    {
        self.cursor.move_to_file_start();
        if self.selection.is_active {
            self.selection.update(self.cursor.position);
        }
    }

    /// Moves the cursor to the end of the last line.
    pub fn move_to_file_end(&mut self)
        requires
            buffer_wf(old(self)@),
        ensures
            final(self)@ == moved(
                old(self)@,
                Cursor {
                    position: CursorPosition {
                        row: (old(self)@.lines.len() - 1) as usize,
                        col: old(self)@.lines.last().len() as usize,
                    },
                    preferred_col: None,
                },
            ),
    {
        self.cursor.move_to_file_end(self.lines.as_slice());
        if self.selection.is_active {
            self.selection.update(self.cursor.position);
        }
    }

    /// Moves the cursor forward by one word boundary.
    pub fn move_word_forward(&mut self)
        requires
            old(self)@.cursor.position.row < old(self)@.lines.len(),
        ensures
            final(self)@ == moved(old(self)@, word_forward_cursor(old(self)@.lines, old(self)@.cursor)),
    {
        self.cursor.move_word_forward(self.lines.as_slice());
        if self.selection.is_active {
            self.selection.update(self.cursor.position);
        }
    }

    /// Moves the cursor backward by one word boundary.
    pub fn move_word_backward(&mut self)
        requires
            old(self)@.cursor.position.col > 0 ==> in_bounds(old(self)@.lines, old(self)@.cursor.position),
        ensures
            final(self)@ == moved(old(self)@, word_backward_cursor(old(self)@.lines, old(self)@.cursor)),
    {
        self.cursor.move_word_backward(self.lines.as_slice());
        proof {
            lemma_line_len_bridge(self.lines@, old(self).cursor.position.row - 1);
        }
        if self.selection.is_active {
            self.selection.update(self.cursor.position);
        }
    }
}


impl TextBuffer {
    /// Records a group in the history.
    fn push_history(&mut self, group: CommandGroup)
        requires
            old(self)@.undo.len() + old(self)@.redo.len() <= old(self)@.max_levels,
        ensures
            final(self)@ == record(old(self)@, group@),
    {
        let ghost g = group@;
        self.history.push_group(group);
        proof {
            if g.commands.len() > 0 {
                assert(self@.redo =~= Seq::empty());
            }
        }
    }

    // --- Delete Operations ---
    /// Deletes range `[start, end)` (given in either order) as one recorded edit.
    pub fn delete_range(&mut self, start: CursorPosition, end: CursorPosition) -> (r: Result<
        (),
        BufferError,
    >)
        requires
            buffer_wf(old(self)@),
            range_ok(old(self)@, start, end),
        ensures
            buffer_wf(final(self)@),
            (final(self)@, r) == delete_range_spec(old(self)@, start, end),
    {
        if position_eq(start, end) {
            return Ok(());
        }
        let le = position_le(start, end);
        let (s, e) = if le { (start, end) } else { (end, start) };
        let pos_before = self.cursor.position;
        let mut group = CommandGroup::new(pos_before, None);
        let ghost ls0 = self@.lines;
        let deleted_text = match BufferOperations::delete_range(&mut self.lines, s, e) {
            Ok(t) => t,
            Err(err) => {
                return Err(err);
            },
        };
        group.add_command(BufferCommand::DeleteText { start: s, end: e, deleted_text });
        self.cursor.position = s;
        self.cursor.clamp(self.lines.as_slice());
        proof {
            lemma_clamp_bridge(self.lines@, s);
        }
        self.is_modified = true;
        group.finalize(self.cursor.position, None);
        self.push_history(group);
        Ok(())
    }

    /// Deletes the active selection.
    pub fn delete_selection(&mut self) -> (r: Result<(), BufferError>)
        requires
            buffer_wf(old(self)@),
            selection_ok(old(self)@),
        ensures
            buffer_wf(final(self)@),
            (final(self)@, r) == delete_selection_spec(old(self)@),
    {
        if !self.selection.is_active {
            return Err(BufferError::InvalidSelection);
        }
        let (start, end) = self.selection.range();
        self.selection.clear();
        self.delete_range(start, end)
    }

    /// Deletes the active selection, or the character at the cursor, or the line
    /// break at the end of the cursor's line.
    pub fn delete_char(&mut self) -> (r: Result<(), BufferError>)
        requires
            buffer_wf(old(self)@),
            selection_ok(old(self)@),
        ensures
            buffer_wf(final(self)@),
            (final(self)@, r) == delete_char_spec(old(self)@),
    {
        if self.selection.is_active {
            return self.delete_selection();
        }
        let before = self.cursor.position;
        self.delete_char_at_cursor(before)
    }

    /// Deletes at the cursor, recording the edit as made from `before`.
    fn delete_char_at_cursor(&mut self, before: CursorPosition) -> (r: Result<(), BufferError>)
        requires
            buffer_wf(old(self)@),
        ensures
            buffer_wf(final(self)@),
            (final(self)@, r) == delete_char_recorded(old(self)@, before),
    {
        let pos = self.cursor.position;
        let current_line_len = crate::buffer::cursor::get_line_char_count(self.lines.as_slice(), pos.row);
        proof {
            lemma_line_len_bridge(self.lines@, pos.row as int);
        }
        let mut group = CommandGroup::new(before, None);
        let ghost ls0 = self@.lines;
        if pos.col < current_line_len {
            let deleted_ch = match BufferOperations::delete_char(&mut self.lines, pos) {
                Ok(c) => c,
                Err(err) => {
                    return Err(err);
                },
            };
            group.add_command(BufferCommand::DeleteChar { pos, deleted_ch });
        } else if pos.row < self.lines.len() - 1 {
            let col_offset = match BufferOperations::merge_lines(&mut self.lines, pos.row) {
                Ok(c) => c,
                Err(err) => {
                    return Err(err);
                },
            };
            group.add_command(BufferCommand::MergeLines { row: pos.row, col_offset });
        } else {
            return Ok(());
        }
        self.is_modified = true;
        group.finalize(self.cursor.position, None);
        self.push_history(group);
        Ok(())
    }

    /// Deletes the character before the cursor (Backspace); at the start of a line
    /// the line is joined to the previous one. The edit is recorded as made from
    /// the cursor position before the deletion, where undo puts the cursor back.
    pub fn delete_backspace(&mut self) -> (r: Result<(), BufferError>)
        requires
            buffer_wf(old(self)@),
            selection_ok(old(self)@),
        ensures
            buffer_wf(final(self)@),
            (final(self)@, r) == delete_backspace_spec(old(self)@),
    {
        if self.selection.is_active {
            return self.delete_selection();
        }
        if self.cursor.position.row == 0 && self.cursor.position.col == 0 {
            return Ok(());
        }
        if self.cursor.position.col > 0 {
            let before = self.cursor.position;
            self.cursor.position.col = self.cursor.position.col - 1;
            self.delete_char_at_cursor(before)
        } else {
            let prev_row = self.cursor.position.row - 1;
            let prev_len = crate::buffer::cursor::get_line_char_count(self.lines.as_slice(), prev_row);
            proof {
                lemma_line_len_bridge(self.lines@, prev_row as int);
            }
            self.cursor.position = CursorPosition::new(prev_row, prev_len);
            let mut group = CommandGroup::new(CursorPosition::new(prev_row + 1, 0), None);
            let col_offset = match BufferOperations::merge_lines(&mut self.lines, prev_row) {
                Ok(c) => c,
                Err(err) => {
                    return Err(err);
                },
            };
            group.add_command(BufferCommand::MergeLines { row: prev_row, col_offset });
            self.is_modified = true;
            group.finalize(self.cursor.position, None);
            self.push_history(group);
            Ok(())
        }
    }

    /// Deletes the cursor's entire line, so that the line count drops by one (a
    /// sole line is emptied instead).
    pub fn delete_line(&mut self) -> (r: Result<(), BufferError>)
        requires
            buffer_wf(old(self)@),
        ensures
            buffer_wf(final(self)@),
            (final(self)@, r) == delete_line_spec(old(self)@),
    {
        let row = self.cursor.position.row;
        if self.lines.len() == 0 || row >= self.lines.len() {
            return Ok(());
        }
        let line_len = crate::text::char_count(self.lines[row].as_str());
        let (start, end) = if row < self.lines.len() - 1 {
            (CursorPosition::new(row, 0), CursorPosition::new(row + 1, 0))
        } else if row > 0 {
            let prev_len = crate::text::char_count(self.lines[row - 1].as_str());
            (CursorPosition::new(row - 1, prev_len), CursorPosition::new(row, line_len))
        } else {
            (CursorPosition::new(row, 0), CursorPosition::new(row, line_len))
        };
        self.delete_range(start, end)
    }

    /// Deletes from the cursor to where a forward word move would land.
    pub fn delete_word(&mut self) -> (r: Result<(), BufferError>)
        requires
            buffer_wf(old(self)@),
            old(self)@.cursor.position.row < old(self)@.lines.len(),
        ensures
            buffer_wf(final(self)@),
            (final(self)@, r) == delete_word_spec(old(self)@),
    {
        let start_pos = self.cursor.position;
        self.move_word_forward();
        let end_pos = self.cursor.position;
        self.cursor.position = start_pos;
        let line_len = crate::text::char_count(self.lines[start_pos.row].as_str());
        let n_lines = self.lines.len();
        proof {
            lemma_word_forward_not_before(old(self)@.lines, old(self)@.cursor);
        }
        self.delete_range(start_pos, end_pos)
    }
}

/// A forward word move never lands before its start and stays on an existing line.
pub(crate) proof fn lemma_word_forward_not_before(ls: Seq<Seq<char>>, c: Cursor)
    requires
        c.position.row < ls.len(),
        ls.len() <= usize::MAX,
        ls[c.position.row as int].len() <= usize::MAX,
    ensures
        crate::buffer::cursor::pos_le(c.position, word_forward_cursor(ls, c).position),
        word_forward_cursor(ls, c).position.row < ls.len(),
{
    let p = c.position;
    let l = ls[p.row as int];
    if p.col < l.len() {
        let w = crate::buffer::cursor::skip_word_fwd(l, p.col as int, crate::text::is_alnum(l[p.col as int]));
        lemma_skip_word_fwd_ge(l, p.col as int, crate::text::is_alnum(l[p.col as int]));
        lemma_skip_ws_fwd_ge(l, w);
        let idx = crate::buffer::cursor::skip_ws_fwd(l, w);
        assert(crate::buffer::cursor::word_fwd_col(l, p.col as int) == idx);
        assert(p.col <= idx <= l.len());
        assert(idx as usize == idx);
    }
}

proof fn lemma_skip_word_fwd_ge(c: Seq<char>, i: int, cls: bool)
    ensures
        crate::buffer::cursor::skip_word_fwd(c, i, cls) >= i,
        i <= c.len() ==> crate::buffer::cursor::skip_word_fwd(c, i, cls) <= c.len(),
    decreases c.len() - i,
{
    if 0 <= i < c.len() && crate::text::is_alnum(c[i]) == cls && !crate::text::is_ws(c[i]) {
        lemma_skip_word_fwd_ge(c, i + 1, cls);
    }
}

proof fn lemma_skip_ws_fwd_ge(c: Seq<char>, i: int)
    ensures
        crate::buffer::cursor::skip_ws_fwd(c, i) >= i,
        i <= c.len() ==> crate::buffer::cursor::skip_ws_fwd(c, i) <= c.len(),
    decreases c.len() - i,
{
    if 0 <= i < c.len() && crate::text::is_ws(c[i]) {
        lemma_skip_ws_fwd_ge(c, i + 1);
    }
}


impl TextBuffer {
    // --- Insert Operations ---
    fn insert_char_at_cursor(&mut self, ch: char) -> (r: Result<(), BufferError>)
        requires
            buffer_wf(old(self)@),
        ensures
            buffer_wf(final(self)@),
            (final(self)@, r) == insert_char_core(old(self)@, ch),
    {
        let pos_before = self.cursor.position;
        let sel_before = if self.selection.is_active { Some(self.selection) } else { None };
        let mut group = CommandGroup::new(pos_before, sel_before);
        if ch == '\n' {
            match BufferOperations::split_line(&mut self.lines, pos_before) {
                Ok(_) => {},
                Err(err) => {
                    return Err(err);
                },
            }
            group.add_command(BufferCommand::SplitLine { pos: pos_before });
            self.cursor.position = CursorPosition::new(pos_before.row + 1, 0);
        } else {
            match BufferOperations::insert_char(&mut self.lines, pos_before, ch) {
                Ok(_) => {},
                Err(err) => {
                    return Err(err);
                },
            }
            group.add_command(BufferCommand::InsertChar { pos: pos_before, ch });
            self.cursor.position.col = self.cursor.position.col + 1;
        }
        self.is_modified = true;
        group.finalize(self.cursor.position, None);
        self.push_history(group);
        Ok(())
    }

    /// Inserts a single character at the cursor (a `'\n'` splits the line); an
    /// active selection is deleted first.
    pub fn insert_char(&mut self, ch: char) -> (r: Result<(), BufferError>)
        requires
            buffer_wf(old(self)@),
            selection_ok(old(self)@),
        ensures
            buffer_wf(final(self)@),
            (final(self)@, r) == insert_char_spec(old(self)@, ch),
    {
        if self.selection.is_active {
            let _ = self.delete_selection();
        }
        self.insert_char_at_cursor(ch)
    }

    fn insert_str_at_cursor(&mut self, text: &str) -> (r: Result<(), BufferError>)
        requires
            buffer_wf(old(self)@),
        ensures
            buffer_wf(final(self)@),
            (final(self)@, r) == insert_str_core(old(self)@, text@),
    {
        let pos_before = self.cursor.position;
        let mut group = CommandGroup::new(pos_before, None);
        let new_pos = match BufferOperations::insert_str(&mut self.lines, pos_before, text) {
            Ok(p) => p,
            Err(err) => {
                return Err(err);
            },
        };
        group.add_command(BufferCommand::InsertText { pos: pos_before, text: text.to_owned() });
        self.cursor.position = new_pos;
        self.is_modified = true;
        group.finalize(self.cursor.position, None);
        self.push_history(group);
        proof {
            crate::text::lemma_split_nl_nonempty(text@);
        }
        Ok(())
    }

    /// Inserts text at the cursor; empty text changes nothing, otherwise an active
    /// selection is deleted first.
    pub fn insert_str(&mut self, text: &str) -> (r: Result<(), BufferError>)
        requires
            buffer_wf(old(self)@),
            selection_ok(old(self)@),
        ensures
            buffer_wf(final(self)@),
            (final(self)@, r) == insert_str_spec(old(self)@, text@),
    {
        if text.is_empty() {
            return Ok(());
        }
        if self.selection.is_active {
            let _ = self.delete_selection();
        }
        self.insert_str_at_cursor(text)
    }

    /// Inserts a newline at the cursor.
    pub fn insert_newline(&mut self) -> (r: Result<(), BufferError>)
        requires
            buffer_wf(old(self)@),
            selection_ok(old(self)@),
        ensures
            buffer_wf(final(self)@),
            (final(self)@, r) == insert_char_spec(old(self)@, '\n'),
    {
        self.insert_char('\n')
    }

    /// Inserts `tab_width` spaces (4 when the width is 0) at the cursor.
    pub fn insert_tab(&mut self, tab_width: usize) -> (r: Result<(), BufferError>)
        requires
            buffer_wf(old(self)@),
            selection_ok(old(self)@),
        ensures
            buffer_wf(final(self)@),
            (final(self)@, r) == insert_str_spec(old(self)@, spaces(tab_spaces(tab_width))),
    {
        let n = if tab_width == 0 { 4 } else { tab_width };
        let mut v: Vec<char> = Vec::new();
        let mut i: usize = 0;
        while i < n
            invariant
                i <= n,
                v@ == spaces(i as nat),
            decreases n - i,
        {
            v.push(' ');
            assert(v@ =~= spaces((i + 1) as nat));
            i = i + 1;
        }
        let s = crate::text::string_from_chars(v.as_slice());
        self.insert_str(s.as_str())
    }

    /// Replaces the range `[start, end)` (either order) with `replacement` as one recorded edit.
    pub fn replace_range(&mut self, start: CursorPosition, end: CursorPosition, replacement: &str) -> (r: Result<(), BufferError>)
        requires
            buffer_wf(old(self)@),
            range_ok(old(self)@, start, end),
        ensures
            buffer_wf(final(self)@),
            (final(self)@, r) == replace_range_spec(old(self)@, start, end, replacement@),
    {
        let le = position_le(start, end);
        let (s, e) = if le { (start, end) } else { (end, start) };
        let pos_before = self.cursor.position;
        let mut group = CommandGroup::new(pos_before, None);
        if !position_eq(s, e) {
            let deleted_text = match BufferOperations::delete_range(&mut self.lines, s, e) {
                Ok(t) => t,
                Err(err) => {
                    return Err(err);
                },
            };
            group.add_command(BufferCommand::DeleteText { start: s, end: e, deleted_text });
        }
        if !replacement.is_empty() {
            let new_pos = match BufferOperations::insert_str(&mut self.lines, s, replacement) {
                Ok(p) => p,
                Err(err) => {
                    return Err(err);
                },
            };
            group.add_command(BufferCommand::InsertText { pos: s, text: replacement.to_owned() });
            self.cursor.position = new_pos;
        } else {
            self.cursor.position = s;
        }
        let ghost p0 = self.cursor.position;
        self.cursor.clamp(self.lines.as_slice());
        proof {
            lemma_clamp_bridge(self.lines@, p0);
        }
        self.is_modified = true;
        group.finalize(self.cursor.position, None);
        self.push_history(group);
        Ok(())
    }

    // --- Selection System ---
    /// Access reference to selection state.
    pub fn selection(&self) -> (r: &Selection)
        ensures
            *r == self@.selection,
    {
        &self.selection
    }

    /// Access mutable reference to selection state.
    pub fn selection_mut(&mut self) -> (r: &mut Selection)
        ensures
            *r == old(self)@.selection,
            final(self)@ == (BufferModel { selection: *final(r), ..old(self)@ }),
    {
        &mut self.selection
    }

    /// Starts a selection at the cursor.
    pub fn start_selection(&mut self, mode: SelectionMode)
        ensures
            final(self)@ == (BufferModel {
                selection: Selection {
                    anchor: old(self)@.cursor.position,
                    head: old(self)@.cursor.position,
                    mode,
                    is_active: true,
                },
                ..old(self)@
            }),
    {
        self.selection.start(self.cursor.position, mode);
    }

    /// Moves an active selection's head to the cursor.
    pub fn update_selection(&mut self)
        ensures
            final(self)@ == (BufferModel {
                selection: follow(old(self)@.selection, old(self)@.cursor.position),
                ..old(self)@
            }),
    {
        self.selection.update(self.cursor.position);
    }

    /// Clears the selection.
    pub fn clear_selection(&mut self)
        ensures
            final(self)@ == (BufferModel { selection: cleared(old(self)@.selection), ..old(self)@ }),
    {
        self.selection.clear();
    }

    /// Returns the selected text if a selection is active.
    pub fn selected_text(&self) -> (r: Option<String>)
        requires
            buffer_wf(self@),
        ensures
            !self@.selection.is_active ==> r is None,
            self@.selection.is_active ==> (r matches Some(t) && t@ == selected_text_spec(
                self@.selection,
                self@.lines,
            )),
    {
        self.selection.get_selected_text(self.lines.as_slice())
    }

    // --- Clipboard Operations ---
    /// Access reference to internal clipboard.
    pub fn clipboard(&self) -> (r: &InternalClipboard)
        ensures
            r.content_view() == self@.clipboard,
    {
        &self.clipboard
    }

    /// Copies the selected text (or the cursor's line without a selection) to the clipboard.
    pub fn copy(&mut self) -> (r: Result<(), BufferError>)
        requires
            buffer_wf(old(self)@),
        ensures
            final(self)@ == copy_spec(old(self)@),
            r is Ok,
    {
        if self.selection.is_active {
            if let Some(text) = self.selected_text() {
                self.clipboard.set_text(text.as_str());
                return Ok(());
            }
        }
        let current_row = self.cursor.position.row;
        if current_row < self.lines.len() {
            let mut v: Vec<String> = Vec::new();
            v.push(self.lines[current_row].clone());
            let ghost l = self.lines@[current_row as int];
            assert(view_lines(v@) =~= seq![l@]);
            self.clipboard.set_lines(v);
        }
        Ok(())
    }

    /// Copies, then deletes the selection or else the cursor's line.
    pub fn cut(&mut self) -> (r: Result<(), BufferError>)
        requires
            buffer_wf(old(self)@),
            selection_ok(old(self)@),
        ensures
            buffer_wf(final(self)@),
            (final(self)@, r) == cut_spec(old(self)@),
    {
        let _ = self.copy();
        if self.selection.is_active {
            self.delete_selection()
        } else {
            self.delete_line()
        }
    }

    /// Inserts the clipboard text at the cursor.
    pub fn paste(&mut self) -> (r: Result<(), BufferError>)
        requires
            buffer_wf(old(self)@),
            selection_ok(old(self)@),
        ensures
            buffer_wf(final(self)@),
            (final(self)@, r) == paste_spec(old(self)@),
    {
        let text = match self.clipboard.get_content() {
            None => {
                return Err(BufferError::ClipboardEmpty);
            },
            Some(c) => c.as_str_content(),
        };
        self.insert_str(text.as_str())
    }

    /// Inserts the lines of the clipboard text above the cursor's row.
    pub fn paste_above(&mut self) -> (r: Result<(), BufferError>)
        requires
            buffer_wf(old(self)@),
            old(self)@.cursor.position.row <= old(self)@.lines.len(),
        ensures
            buffer_wf(final(self)@),
            (final(self)@, r) == paste_line_at(old(self)@, old(self)@.cursor.position.row),
    {
        let text = match self.clipboard.get_content() {
            None => {
                return Err(BufferError::ClipboardEmpty);
            },
            Some(c) => c.as_str_content(),
        };
        let target_row = self.cursor.position.row;
        insert_lines_at(&mut self.lines, target_row, &text);
        self.cursor.position = CursorPosition::new(target_row, 0);
        self.is_modified = true;
        Ok(())
    }

    /// Inserts the lines of the clipboard text below the cursor's row.
    pub fn paste_below(&mut self) -> (r: Result<(), BufferError>)
        requires
            buffer_wf(old(self)@),
            old(self)@.cursor.position.row < usize::MAX,
        ensures
            buffer_wf(final(self)@),
            (final(self)@, r) == paste_line_at(
                old(self)@,
                if old(self)@.cursor.position.row + 1 <= old(self)@.lines.len() {
                    (old(self)@.cursor.position.row + 1) as usize
                } else {
                    old(self)@.lines.len() as usize
                },
            ),
    {
        let text = match self.clipboard.get_content() {
            None => {
                return Err(BufferError::ClipboardEmpty);
            },
            Some(c) => c.as_str_content(),
        };
        let below = self.cursor.position.row + 1;
        let target_row = if below <= self.lines.len() { below } else { self.lines.len() };
        insert_lines_at(&mut self.lines, target_row, &text);
        self.cursor.position = CursorPosition::new(target_row, 0);
        self.is_modified = true;
        Ok(())
    }
    // --- History ---
    /// Returns true if undo operations are available.
    pub fn can_undo(&self) -> (r: bool)
        ensures
            r == (self@.undo.len() > 0),
    {
        self.history.can_undo()
    }

    /// Returns true if redo operations are available.
    pub fn can_redo(&self) -> (r: bool)
        ensures
            r == (self@.redo.len() > 0),
    {
        self.history.can_redo()
    }

    /// Applies a command directly to the lines without recording it.
    fn apply_command(&mut self, cmd: &BufferCommand) -> (r: Result<(), BufferError>)
        requires
            !cmd_panics(old(self)@.lines, cmd@),
        ensures
            (final(self)@.lines, r) == apply_cmd(old(self)@.lines, cmd@),
            final(self)@ == (BufferModel { lines: final(self)@.lines, ..old(self)@ }),
    {
        match cmd {
            BufferCommand::InsertChar { pos, ch } => {
                match BufferOperations::insert_char(&mut self.lines, *pos, *ch) {
                    Ok(_) => Ok(()),
                    Err(e) => Err(e),
                }
            },
            BufferCommand::InsertText { pos, text } => {
                match BufferOperations::insert_str(&mut self.lines, *pos, text.as_str()) {
                    Ok(_) => Ok(()),
                    Err(e) => Err(e),
                }
            },
            BufferCommand::DeleteChar { pos, .. } => {
                match BufferOperations::delete_char(&mut self.lines, *pos) {
                    Ok(_) => Ok(()),
                    Err(e) => Err(e),
                }
            },
            BufferCommand::DeleteText { start, end, .. } => {
                match BufferOperations::delete_range(&mut self.lines, *start, *end) {
                    Ok(_) => Ok(()),
                    Err(e) => Err(e),
                }
            },
            BufferCommand::SplitLine { pos } => {
                match BufferOperations::split_line(&mut self.lines, *pos) {
                    Ok(_) => Ok(()),
                    Err(e) => Err(e),
                }
            },
            BufferCommand::MergeLines { row, .. } => {
                match BufferOperations::merge_lines(&mut self.lines, *row) {
                    Ok(_) => Ok(()),
                    Err(e) => Err(e),
                }
            },
        }
    }

    /// Reverses the last command group: its inverse commands run last to first,
    /// then the cursor and selection return to their state before the group.
    pub fn undo(&mut self) -> (r: Result<(), BufferError>)
        requires
            buffer_wf(old(self)@),
            can_undo_safely(old(self)@),
        ensures
            buffer_wf(final(self)@),
            (final(self)@, r) == undo_spec(old(self)@),
    {
        let ghost m0 = self@;
        let group = match self.history.pop_undo() {
            None => {
                return Err(BufferError::HistoryEmpty);
            },
            Some(g) => g,
        };
        let ghost g = group@;
        let ghost m1 = BufferModel { undo: m0.undo.drop_last(), redo: m0.redo.push(g), ..m0 };
        assert(self@ == m1);
        let n = group.commands.len();
        let mut i = n;
        assert(g.commands.take(n as int) =~= g.commands);
        while i > 0
            invariant
                i <= n,
                n == group.commands.len(),
                group@ == g,
                old(self)@ == m0,
                buffer_wf(m0),
                m0.undo.len() > 0,
                g == m0.undo.last(),
                m1 == (BufferModel { undo: m0.undo.drop_last(), redo: m0.redo.push(g), ..m0 }),
                self@ == (BufferModel { lines: self@.lines, ..m1 }),
                self@.lines.len() >= 1,
                undo_apply(m0.lines, g.commands) == undo_apply(self@.lines, g.commands.take(i as int)),
                undo_safe(self@.lines, g.commands.take(i as int)),
            decreases i,
        {
            let ghost cur = self@.lines;
            let ghost t = g.commands.take(i as int);
            assert(t.last() == group.commands@[i - 1]@);
            assert(t.drop_last() =~= g.commands.take(i - 1));
            let inv = group.commands[i - 1].inverse();
            proof {
                lemma_apply_keeps_lines(cur, inv@);
            }
            match self.apply_command(&inv) {
                Ok(()) => {},
                Err(e) => {
                    assert(undo_apply(cur, t) == (self@.lines, Err::<(), BufferError>(e)));
                    return Err(e);
                },
            }
            i = i - 1;
        }
        self.cursor.position = group.cursor_before;
        self.cursor.clamp(self.lines.as_slice());
        proof {
            lemma_clamp_bridge(self.lines@, g.cursor_before);
        }
        match group.selection_before {
            Some(sel) => {
                self.selection = sel;
            },
            None => {
                self.selection.clear();
            },
        }
        self.is_modified = true;
        Ok(())
    }

    /// Re-applies the last undone command group in order, then restores the cursor
    /// and selection recorded after it.
    pub fn redo(&mut self) -> (r: Result<(), BufferError>)
        requires
            buffer_wf(old(self)@),
            can_redo_safely(old(self)@),
        ensures
            buffer_wf(final(self)@),
            (final(self)@, r) == redo_spec(old(self)@),
    {
        let ghost m0 = self@;
        let group = match self.history.pop_redo() {
            None => {
                return Err(BufferError::HistoryEmpty);
            },
            Some(g) => g,
        };
        let ghost g = group@;
        let ghost m1 = BufferModel { redo: m0.redo.drop_last(), undo: m0.undo.push(g), ..m0 };
        assert(self@ == m1);
        let n = group.commands.len();
        let mut i: usize = 0;
        assert(g.commands.skip(0) =~= g.commands);
        while i < n
            invariant
                i <= n,
                n == group.commands.len(),
                group@ == g,
                old(self)@ == m0,
                buffer_wf(m0),
                m0.redo.len() > 0,
                g == m0.redo.last(),
                m1 == (BufferModel { redo: m0.redo.drop_last(), undo: m0.undo.push(g), ..m0 }),
                self@ == (BufferModel { lines: self@.lines, ..m1 }),
                self@.lines.len() >= 1,
                redo_apply(m0.lines, g.commands) == redo_apply(self@.lines, g.commands.skip(i as int)),
                redo_safe(self@.lines, g.commands.skip(i as int)),
            decreases n - i,
        {
            let ghost cur = self@.lines;
            let ghost t = g.commands.skip(i as int);
            assert(t[0] == group.commands@[i as int]@);
            assert(t.drop_first() =~= g.commands.skip(i + 1));
            proof {
                lemma_apply_keeps_lines(cur, group.commands@[i as int]@);
            }
            match self.apply_command(&group.commands[i]) {
                Ok(()) => {},
                Err(e) => {
                    assert(redo_apply(cur, t) == (self@.lines, Err::<(), BufferError>(e)));
                    return Err(e);
                },
            }
            i = i + 1;
        }
        self.cursor.position = group.cursor_after;
        self.cursor.clamp(self.lines.as_slice());
        proof {
            lemma_clamp_bridge(self.lines@, g.cursor_after);
        }
        match group.selection_after {
            Some(sel) => {
                self.selection = sel;
            },
            None => {
                self.selection.clear();
            },
        }
        self.is_modified = true;
        Ok(())
    }
}

} // verus!
