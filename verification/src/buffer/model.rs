//! The abstract state of a text buffer and the effect of every buffer operation on it.

use vstd::prelude::*;
use crate::buffer::clipboard::{ClipView, clip_text};
use crate::buffer::commands::{CommandView, inverse_fits, inverse_spec};
use crate::buffer::cursor::{Cursor, CursorPosition, pos_le, word_back_col, word_fwd_col};
use crate::buffer::errors::BufferError;
use crate::buffer::history::GroupView;
use crate::buffer::operations::{
    invalid_pos, op_delete_char, op_delete_range, op_deleted_text, op_insert_char, op_insert_text,
    op_insert_text_end, op_merge, op_split, ordered, range_deletion_panics,
};
use crate::buffer::selection::{Selection, SelectionMode, range_spec, selected_text_spec};
use crate::text::{join_nl, split_nl, strip_trailing_cr};

verus! {

/// The value of a text buffer.
pub struct BufferModel {
    /// The characters of every line.
    pub lines: Seq<Seq<char>>,
    pub cursor: Cursor,
    pub selection: Selection,
    pub clipboard: Option<ClipView>,
    /// Undo stack, most recent group last.
    pub undo: Seq<GroupView>,
    /// Redo stack, most recently undone group last.
    pub redo: Seq<GroupView>,
    pub max_levels: usize,
    pub modified: bool,
}

/// A buffer always holds at least one line, keeps at least one undo level, and its
/// undo and redo stacks together hold at most that many groups.
pub open spec fn buffer_wf(m: BufferModel) -> bool {
    &&& m.lines.len() >= 1
    &&& m.max_levels >= 1
    &&& m.undo.len() + m.redo.len() <= m.max_levels
}

/// Character count of line `row` of `ls`, or 0 past the end.
pub open spec fn line_len_v(ls: Seq<Seq<char>>, row: int) -> int {
    if 0 <= row < ls.len() {
        ls[row].len() as int
    } else {
        0
    }
}

/// Clamping a position to lines.
pub open spec fn clamp_view(ls: Seq<Seq<char>>, p: CursorPosition) -> CursorPosition {
    if ls.len() == 0 {
        CursorPosition { row: 0, col: 0 }
    } else {
        let row = if p.row >= ls.len() { (ls.len() - 1) as usize } else { p.row };
        let len = line_len_v(ls, row as int);
        CursorPosition { row, col: if p.col > len { len as usize } else { p.col } }
    }
}

/// True when the position lies within the lines.
pub open spec fn in_bounds(ls: Seq<Seq<char>>, p: CursorPosition) -> bool {
    p.row < ls.len() && p.col <= ls[p.row as int].len()
}

/// A selection cleared the way `Selection::clear` does.
pub open spec fn cleared(s: Selection) -> Selection {
    Selection {
        is_active: false,
        anchor: CursorPosition { row: 0, col: 0 },
        head: CursorPosition { row: 0, col: 0 },
        mode: s.mode,
    }
}

/// The selection after the cursor moved to `p`: an active selection's head follows.
pub open spec fn follow(s: Selection, p: CursorPosition) -> Selection {
    if s.is_active {
        Selection { head: p, ..s }
    } else {
        s
    }
}

/// The model with the cursor moved to `p` (preferred column as given), the selection following.
pub open spec fn moved(m: BufferModel, c: Cursor) -> BufferModel {
    BufferModel { cursor: c, selection: follow(m.selection, c.position), ..m }
}

/// The undo stack after pushing a group: the oldest group leaves past capacity.
pub open spec fn push_group_spec(undo: Seq<GroupView>, max: usize, g: GroupView) -> Seq<GroupView> {
    let u = undo.push(g);
    if u.len() > max {
        u.remove(0)
    } else {
        u
    }
}

/// Records a group in the history; a group without commands is not recorded.
pub open spec fn record(m: BufferModel, g: GroupView) -> BufferModel {
    if g.commands.len() == 0 {
        m
    } else {
        BufferModel { undo: push_group_spec(m.undo, m.max_levels, g), redo: Seq::empty(), ..m }
    }
}

/// A group of the given commands between two cursor positions, without selections.
pub open spec fn group_of(cmds: Seq<CommandView>, before: CursorPosition, after: CursorPosition) -> GroupView {
    GroupView {
        commands: cmds,
        cursor_before: before,
        cursor_after: after,
        selection_before: None,
        selection_after: None,
    }
}

/// The selection recorded with an edit: the selection when it is active.
pub open spec fn active_selection(s: Selection) -> Option<Selection> {
    if s.is_active { Some(s) } else { None }
}

/// Effect of applying a command to lines: the new lines and the result.
pub open spec fn apply_cmd(ls: Seq<Seq<char>>, c: CommandView) -> (Seq<Seq<char>>, Result<(), BufferError>) {
    match c {
        CommandView::InsertChar { pos, ch } => {
            let (l, ok) = op_insert_char(ls, pos, ch);
            (l, if ok { Ok(()) } else { Err(invalid_pos(pos)) })
        },
        CommandView::InsertText { pos, text } => {
            let (l, ok) = op_insert_text(ls, pos, text);
            (l, if ok { Ok(()) } else { Err(invalid_pos(pos)) })
        },
        CommandView::DeleteChar { pos, .. } => {
            let (l, ok) = op_delete_char(ls, pos);
            (l, if ok { Ok(()) } else { Err(invalid_pos(pos)) })
        },
        CommandView::DeleteText { start, end, .. } => {
            let (l, ok) = op_delete_range(ls, start, end);
            (l, if ok { Ok(()) } else if ls.len() == 0 { Err(BufferError::EmptyBuffer) } else {
                Err(invalid_pos(ordered(start, end).0))
            })
        },
        CommandView::SplitLine { pos } => {
            let (l, ok) = op_split(ls, pos);
            (l, if ok { Ok(()) } else { Err(invalid_pos(pos)) })
        },
        CommandView::MergeLines { row, .. } => {
            let (l, ok) = op_merge(ls, row);
            (l, if ok { Ok(()) } else { Err(BufferError::InvalidPosition { row, col: 0 }) })
        },
    }
}

/// True when applying the command would slice a line backwards.
pub open spec fn cmd_panics(ls: Seq<Seq<char>>, c: CommandView) -> bool {
    match c {
        CommandView::DeleteText { start, end, .. } => range_deletion_panics(ls, start, end),
        _ => false,
    }
}

/// Applying a command to non-empty lines leaves at least one line.
pub proof fn lemma_apply_keeps_lines(ls: Seq<Seq<char>>, c: CommandView)
    requires
        ls.len() >= 1,
    ensures
        apply_cmd(ls, c).0.len() >= 1,
{
    match c {
        CommandView::InsertText { pos, text } => {
            crate::text::lemma_split_nl_nonempty(text);
        },
        _ => {},
    }
}

/// Applying the inverses of the commands, last command first, stopping at the first error.
pub open spec fn undo_apply(ls: Seq<Seq<char>>, cmds: Seq<CommandView>) -> (Seq<Seq<char>>, Result<(), BufferError>)
    decreases cmds.len(),
{
    if cmds.len() == 0 {
        (ls, Ok(()))
    } else {
        let (l1, r) = apply_cmd(ls, inverse_spec(cmds.last()));
        if r is Err {
            (l1, r)
        } else {
            undo_apply(l1, cmds.drop_last())
        }
    }
}

/// Undoing the commands computes every inverse without overflow and slices no line backwards.
pub open spec fn undo_safe(ls: Seq<Seq<char>>, cmds: Seq<CommandView>) -> bool
    decreases cmds.len(),
{
    if cmds.len() == 0 {
        true
    } else {
        let inv = inverse_spec(cmds.last());
        let (l1, r) = apply_cmd(ls, inv);
        &&& inverse_fits(cmds.last())
        &&& !cmd_panics(ls, inv)
        &&& (r is Ok ==> undo_safe(l1, cmds.drop_last()))
    }
}

/// Applying the commands in order, stopping at the first error.
pub open spec fn redo_apply(ls: Seq<Seq<char>>, cmds: Seq<CommandView>) -> (Seq<Seq<char>>, Result<(), BufferError>)
    decreases cmds.len(),
{
    if cmds.len() == 0 {
        (ls, Ok(()))
    } else {
        let (l1, r) = apply_cmd(ls, cmds[0]);
        if r is Err {
            (l1, r)
        } else {
            redo_apply(l1, cmds.drop_first())
        }
    }
}

/// Redoing the commands slices no line backwards.
pub open spec fn redo_safe(ls: Seq<Seq<char>>, cmds: Seq<CommandView>) -> bool
    decreases cmds.len(),
{
    if cmds.len() == 0 {
        true
    } else {
        let (l1, r) = apply_cmd(ls, cmds[0]);
        &&& !cmd_panics(ls, cmds[0])
        &&& (r is Ok ==> redo_safe(l1, cmds.drop_first()))
    }
}

/// Deleting the range `[start, end)` as one recorded edit.
pub open spec fn delete_range_spec(m: BufferModel, start: CursorPosition, end: CursorPosition) -> (BufferModel, Result<(), BufferError>) {
    if start == end {
        (m, Ok(()))
    } else {
        let (s, e) = ordered(start, end);
        let (ls, ok) = op_delete_range(m.lines, s, e);
        if !ok {
            (m, Err(if m.lines.len() == 0 { BufferError::EmptyBuffer } else { invalid_pos(s) }))
        } else {
            let cmd = CommandView::DeleteText { start: s, end: e, deleted_text: op_deleted_text(m.lines, s, e) };
            let p = clamp_view(ls, s);
            let m1 = BufferModel {
                lines: ls,
                cursor: Cursor { position: p, ..m.cursor },
                modified: true,
                ..m
            };
            (record(m1, group_of(seq![cmd], m.cursor.position, p)), Ok(()))
        }
    }
}

/// The condition under which a range deletion does not slice a line backwards.
pub open spec fn range_ok(m: BufferModel, start: CursorPosition, end: CursorPosition) -> bool {
    start != end ==> !range_deletion_panics(m.lines, ordered(start, end).0, ordered(start, end).1)
}

/// Deleting the active selection.
pub open spec fn delete_selection_spec(m: BufferModel) -> (BufferModel, Result<(), BufferError>) {
    if !m.selection.is_active {
        (m, Err(BufferError::InvalidSelection))
    } else {
        let (s, e) = range_spec(m.selection);
        delete_range_spec(BufferModel { selection: cleared(m.selection), ..m }, s, e)
    }
}

/// The condition under which deleting the active selection does not slice a line backwards.
pub open spec fn selection_ok(m: BufferModel) -> bool {
    m.selection.is_active ==> range_ok(m, range_spec(m.selection).0, range_spec(m.selection).1)
}

/// The model after the active selection (if any) was deleted.
pub open spec fn without_selection(m: BufferModel) -> BufferModel {
    if m.selection.is_active { delete_selection_spec(m).0 } else { m }
}

/// Inserting a character at the cursor once no selection is active.
pub open spec fn insert_char_core(m: BufferModel, ch: char) -> (BufferModel, Result<(), BufferError>) {
    let pos = m.cursor.position;
    let (ls, ok) = op_insert_char(m.lines, pos, ch);
    if !ok {
        (BufferModel { lines: ls, ..m }, Err(invalid_pos(pos)))
    } else {
        let newpos = if ch == '\n' {
            CursorPosition { row: (pos.row + 1) as usize, col: 0 }
        } else {
            CursorPosition { row: pos.row, col: (pos.col + 1) as usize }
        };
        let cmd = if ch == '\n' { CommandView::SplitLine { pos } } else { CommandView::InsertChar { pos, ch } };
        let g = GroupView {
            commands: seq![cmd],
            cursor_before: pos,
            cursor_after: newpos,
            selection_before: active_selection(m.selection),
            selection_after: None,
        };
        let m1 = BufferModel { lines: ls, cursor: Cursor { position: newpos, ..m.cursor }, modified: true, ..m };
        (record(m1, g), Ok(()))
    }
}

/// `insert_char`: the active selection is deleted first.
pub open spec fn insert_char_spec(m: BufferModel, ch: char) -> (BufferModel, Result<(), BufferError>) {
    insert_char_core(without_selection(m), ch)
}

/// Inserting text at the cursor once no selection is active.
pub open spec fn insert_str_core(m: BufferModel, text: Seq<char>) -> (BufferModel, Result<(), BufferError>) {
    let pos = m.cursor.position;
    let (ls, ok) = op_insert_text(m.lines, pos, text);
    if !ok {
        (BufferModel { lines: ls, ..m }, Err(invalid_pos(pos)))
    } else {
        let newpos = op_insert_text_end(m.lines, pos, text);
        let m1 = BufferModel { lines: ls, cursor: Cursor { position: newpos, ..m.cursor }, modified: true, ..m };
        (record(m1, group_of(seq![CommandView::InsertText { pos, text }], pos, newpos)), Ok(()))
    }
}

/// `insert_str`: empty text changes nothing; otherwise the active selection is deleted first.
pub open spec fn insert_str_spec(m: BufferModel, text: Seq<char>) -> (BufferModel, Result<(), BufferError>) {
    if text.len() == 0 {
        (m, Ok(()))
    } else {
        insert_str_core(without_selection(m), text)
    }
}

/// `delete_char` with no active selection.
pub open spec fn delete_char_core(m: BufferModel) -> (BufferModel, Result<(), BufferError>) {
    delete_char_recorded(m, m.cursor.position)
}

/// Deleting the character at the cursor (or joining the next line at a line's
/// end), the edit being recorded as made from the cursor position `before`.
pub open spec fn delete_char_recorded(m: BufferModel, before: CursorPosition) -> (BufferModel, Result<(), BufferError>) {
    let pos = m.cursor.position;
    let len = line_len_v(m.lines, pos.row as int);
    if pos.col < len {
        let (ls, ok) = op_delete_char(m.lines, pos);
        let cmd = CommandView::DeleteChar { pos, deleted_ch: m.lines[pos.row as int][pos.col as int] };
        let m1 = BufferModel { lines: ls, modified: true, ..m };
        (record(m1, group_of(seq![cmd], before, pos)), Ok(()))
    } else if pos.row + 1 < m.lines.len() {
        let (ls, ok) = op_merge(m.lines, pos.row);
        let cmd = CommandView::MergeLines { row: pos.row, col_offset: m.lines[pos.row as int].len() as usize };
        let m1 = BufferModel { lines: ls, modified: true, ..m };
        (record(m1, group_of(seq![cmd], before, pos)), Ok(()))
    } else {
        (m, Ok(()))
    }
}

/// `delete_char`: deletes the active selection, or the character at the cursor, or joins
/// the next line at the end of a line.
pub open spec fn delete_char_spec(m: BufferModel) -> (BufferModel, Result<(), BufferError>) {
    if m.selection.is_active { delete_selection_spec(m) } else { delete_char_core(m) }
}

/// `delete_backspace`.
pub open spec fn delete_backspace_spec(m: BufferModel) -> (BufferModel, Result<(), BufferError>) {
    let pos = m.cursor.position;
    if m.selection.is_active {
        delete_selection_spec(m)
    } else if pos.row == 0 && pos.col == 0 {
        (m, Ok(()))
    } else if pos.col > 0 {
        delete_char_recorded(
            BufferModel {
                cursor: Cursor { position: CursorPosition { row: pos.row, col: (pos.col - 1) as usize }, ..m.cursor },
                ..m
            },
            pos,
        )
    } else {
        let prev = (pos.row - 1) as usize;
        let p = CursorPosition { row: prev, col: line_len_v(m.lines, prev as int) as usize };
        let m1 = BufferModel { cursor: Cursor { position: p, ..m.cursor }, ..m };
        let (ls, ok) = op_merge(m.lines, prev);
        if !ok {
            (m1, Err(BufferError::InvalidPosition { row: prev, col: 0 }))
        } else {
            let cmd = CommandView::MergeLines { row: prev, col_offset: m.lines[prev as int].len() as usize };
            let m2 = BufferModel { lines: ls, modified: true, ..m1 };
            (record(m2, group_of(seq![cmd], CursorPosition { row: pos.row, col: 0 }, p)), Ok(()))
        }
    }
}

/// The range `delete_line` deletes: the line and the line break after it; for the
/// last of several lines, the line break before it and the line; for a sole line,
/// its characters.
pub open spec fn line_range(m: BufferModel) -> (CursorPosition, CursorPosition) {
    let row = m.cursor.position.row;
    if row + 1 < m.lines.len() {
        (CursorPosition { row, col: 0 }, CursorPosition { row: (row + 1) as usize, col: 0 })
    } else if row > 0 {
        (
            CursorPosition { row: (row - 1) as usize, col: m.lines[row - 1].len() as usize },
            CursorPosition { row, col: m.lines[row as int].len() as usize },
        )
    } else {
        (CursorPosition { row, col: 0 }, CursorPosition { row, col: m.lines[row as int].len() as usize })
    }
}

/// `delete_line`.
pub open spec fn delete_line_spec(m: BufferModel) -> (BufferModel, Result<(), BufferError>) {
    let row = m.cursor.position.row;
    if m.lines.len() == 0 || row >= m.lines.len() {
        (m, Ok(()))
    } else {
        delete_range_spec(m, line_range(m).0, line_range(m).1)
    }
}

/// The cursor after a forward word move (with `row` valid when there are lines).
pub open spec fn word_forward_cursor(ls: Seq<Seq<char>>, c: Cursor) -> Cursor {
    let p = c.position;
    let np = if ls.len() == 0 {
        p
    } else {
        let l = ls[p.row as int];
        if p.col >= l.len() {
            if p.row + 1 < ls.len() { CursorPosition { row: (p.row + 1) as usize, col: 0 } } else { p }
        } else {
            let idx = word_fwd_col(l, p.col as int);
            if idx >= l.len() && p.row + 1 < ls.len() {
                CursorPosition { row: (p.row + 1) as usize, col: 0 }
            } else {
                CursorPosition { row: p.row, col: idx as usize }
            }
        }
    };
    Cursor { position: np, preferred_col: None }
}

/// The cursor after a backward word move.
pub open spec fn word_backward_cursor(ls: Seq<Seq<char>>, c: Cursor) -> Cursor {
    let p = c.position;
    let np = if ls.len() == 0 {
        p
    } else if p.col == 0 {
        if p.row > 0 {
            CursorPosition { row: (p.row - 1) as usize, col: line_len_v(ls, p.row - 1) as usize }
        } else {
            p
        }
    } else {
        CursorPosition { row: p.row, col: word_back_col(ls[p.row as int], p.col as int) as usize }
    };
    Cursor { position: np, preferred_col: None }
}

/// `delete_word`: deletes from the cursor to where a forward word move lands.
pub open spec fn delete_word_spec(m: BufferModel) -> (BufferModel, Result<(), BufferError>) {
    let start = m.cursor.position;
    let m1 = moved(m, word_forward_cursor(m.lines, m.cursor));
    let end = m1.cursor.position;
    delete_range_spec(BufferModel { cursor: Cursor { position: start, ..m1.cursor }, ..m1 }, start, end)
}

/// `replace_range`: deletes `[start, end)` and inserts the replacement as one recorded edit.
pub open spec fn replace_range_spec(
    m: BufferModel,
    start: CursorPosition,
    end: CursorPosition,
    repl: Seq<char>,
) -> (BufferModel, Result<(), BufferError>) {
    let (s, e) = ordered(start, end);
    let pos = m.cursor.position;
    let (l1, ok1) = if s != e { op_delete_range(m.lines, s, e) } else { (m.lines, true) };
    let c1 = if s != e {
        seq![CommandView::DeleteText { start: s, end: e, deleted_text: op_deleted_text(m.lines, s, e) }]
    } else {
        Seq::empty()
    };
    if !ok1 {
        (m, Err(if m.lines.len() == 0 { BufferError::EmptyBuffer } else { invalid_pos(s) }))
    } else if repl.len() > 0 && !op_insert_text(l1, s, repl).1 {
        (BufferModel { lines: op_insert_text(l1, s, repl).0, ..m }, Err(invalid_pos(s)))
    } else {
        let (l2, p0, cmds) = if repl.len() > 0 {
            (op_insert_text(l1, s, repl).0, op_insert_text_end(l1, s, repl), c1.push(CommandView::InsertText { pos: s, text: repl }))
        } else {
            (l1, s, c1)
        };
        let p = clamp_view(l2, p0);
        let m1 = BufferModel { lines: l2, cursor: Cursor { position: p, ..m.cursor }, modified: true, ..m };
        (record(m1, group_of(cmds, pos, p)), Ok(()))
    }
}

/// `copy`: the selected text, or else the cursor's line, goes to the clipboard.
pub open spec fn copy_spec(m: BufferModel) -> BufferModel {
    if m.selection.is_active {
        let t = selected_text_spec(m.selection, m.lines);
        BufferModel { clipboard: if t.len() == 0 { None } else { Some(ClipView::Character(t)) }, ..m }
    } else if m.cursor.position.row < m.lines.len() {
        BufferModel { clipboard: Some(ClipView::Line(seq![m.lines[m.cursor.position.row as int]])), ..m }
    } else {
        m
    }
}

/// `cut`: copies, then deletes the selection or else the cursor's line.
pub open spec fn cut_spec(m: BufferModel) -> (BufferModel, Result<(), BufferError>) {
    let m1 = copy_spec(m);
    if m1.selection.is_active { delete_selection_spec(m1) } else { delete_line_spec(m1) }
}

/// `paste`: inserts the clipboard text at the cursor.
pub open spec fn paste_spec(m: BufferModel) -> (BufferModel, Result<(), BufferError>) {
    match m.clipboard {
        None => (m, Err(BufferError::ClipboardEmpty)),
        Some(c) => insert_str_spec(m, clip_text(c)),
    }
}

/// Inserting the lines of the clipboard text (split at every `'\n'`) before line
/// `row`, the cursor moving to the start of the first of them.
pub open spec fn paste_line_at(m: BufferModel, row: usize) -> (BufferModel, Result<(), BufferError>) {
    match m.clipboard {
        None => (m, Err(BufferError::ClipboardEmpty)),
        Some(c) => (
            BufferModel {
                lines: m.lines.take(row as int) + split_nl(clip_text(c)) + m.lines.skip(row as int),
                cursor: Cursor { position: CursorPosition { row, col: 0 }, ..m.cursor },
                modified: true,
                ..m
            },
            Ok(()),
        ),
    }
}

/// `undo`: the last group moves to the redo stack and its commands are reverted.
pub open spec fn undo_spec(m: BufferModel) -> (BufferModel, Result<(), BufferError>) {
    if m.undo.len() == 0 {
        (m, Err(BufferError::HistoryEmpty))
    } else {
        let g = m.undo.last();
        let m1 = BufferModel { undo: m.undo.drop_last(), redo: m.redo.push(g), ..m };
        let (ls, r) = undo_apply(m.lines, g.commands);
        if r is Err {
            (BufferModel { lines: ls, ..m1 }, r)
        } else {
            let sel = match g.selection_before {
                Some(s) => s,
                None => cleared(m.selection),
            };
            (
                BufferModel {
                    lines: ls,
                    cursor: Cursor { position: clamp_view(ls, g.cursor_before), ..m.cursor },
                    selection: sel,
                    modified: true,
                    ..m1
                },
                Ok(()),
            )
        }
    }
}

/// `redo`: the last undone group moves back to the undo stack and its commands are reapplied.
pub open spec fn redo_spec(m: BufferModel) -> (BufferModel, Result<(), BufferError>) {
    if m.redo.len() == 0 {
        (m, Err(BufferError::HistoryEmpty))
    } else {
        let g = m.redo.last();
        let m1 = BufferModel { redo: m.redo.drop_last(), undo: m.undo.push(g), ..m };
        let (ls, r) = redo_apply(m.lines, g.commands);
        if r is Err {
            (BufferModel { lines: ls, ..m1 }, r)
        } else {
            let sel = match g.selection_after {
                Some(s) => s,
                None => cleared(m.selection),
            };
            (
                BufferModel {
                    lines: ls,
                    cursor: Cursor { position: clamp_view(ls, g.cursor_after), ..m.cursor },
                    selection: sel,
                    modified: true,
                    ..m1
                },
                Ok(()),
            )
        }
    }
}

/// Undo can revert the last group without overflow or backwards slicing.
pub open spec fn can_undo_safely(m: BufferModel) -> bool {
    m.undo.len() > 0 ==> undo_safe(m.lines, m.undo.last().commands)
}

/// Redo can reapply the last undone group without backwards slicing.
pub open spec fn can_redo_safely(m: BufferModel) -> bool {
    m.redo.len() > 0 ==> redo_safe(m.lines, m.redo.last().commands)
}

/// Lines of a whole text: split at `'\n'`, trailing `'\r'` removed; empty text is one empty line.
pub open spec fn text_lines(t: Seq<char>) -> Seq<Seq<char>> {
    if t.len() == 0 {
        seq![Seq::<char>::empty()]
    } else {
        split_nl(t).map_values(|l: Seq<char>| strip_trailing_cr(l))
    }
}

/// The whole text of a buffer: its lines joined by `'\n'`.
pub open spec fn model_text(m: BufferModel) -> Seq<char> {
    join_nl(m.lines)
}

/// A run of `n` spaces.
pub open spec fn spaces(n: nat) -> Seq<char> {
    Seq::new(n, |i: int| ' ')
}

/// The number of spaces `insert_tab` inserts for a tab width (0 means 4).
pub open spec fn tab_spaces(w: usize) -> nat {
    if w == 0 { 4 } else { w as nat }
}

} // verus!
