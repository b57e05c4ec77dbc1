//! Undo/redo history of command transaction groups.

use vstd::prelude::*;
use crate::buffer::commands::{BufferCommand, CommandView};
use crate::buffer::cursor::CursorPosition;
use crate::buffer::selection::Selection;

verus! {

/// Maximum default capacity for undo history stack.
pub const DEFAULT_MAX_UNDO_LEVELS: usize = 1000;

/// Atomic transaction group of buffer commands representing a single logical edit operation.
#[derive(Debug, Clone, PartialEq, Eq)]
pub struct CommandGroup {
    /// Inverted list of commands in order of execution.
    pub commands: Vec<BufferCommand>,
    /// Cursor position prior to executing group commands.
    pub cursor_before: CursorPosition,
    /// Cursor position after executing group commands.
    pub cursor_after: CursorPosition,
    /// Selection state prior to edit.
    pub selection_before: Option<Selection>,
    /// Selection state after edit.
    pub selection_after: Option<Selection>,
}

/// The value of a command group: its commands and its cursor and selection states.
pub struct GroupView {
    pub commands: Seq<CommandView>,
    pub cursor_before: CursorPosition,
    pub cursor_after: CursorPosition,
    pub selection_before: Option<Selection>,
    pub selection_after: Option<Selection>,
}

impl View for CommandGroup {
    type V = GroupView;

    open spec fn view(&self) -> GroupView {
        GroupView {
            commands: self.commands@.map_values(|c: BufferCommand| c@),
            cursor_before: self.cursor_before,
            cursor_after: self.cursor_after,
            selection_before: self.selection_before,
            selection_after: self.selection_after,
        }
    }
}

/// The values of a sequence of command groups.
pub open spec fn group_views(s: Seq<CommandGroup>) -> Seq<GroupView> {
    s.map_values(|g: CommandGroup| g@)
}

impl CommandGroup {
    /// Creates a new `CommandGroup`.
    pub fn new(cursor_before: CursorPosition, selection_before: Option<Selection>) -> (r: Self)
        ensures
            r@ == (GroupView {
                commands: Seq::empty(),
                cursor_before,
                cursor_after: cursor_before,
                selection_before,
                selection_after: None,
            }),
    {
        let r = CommandGroup {
            commands: Vec::new(),
            cursor_before,
            cursor_after: cursor_before,
            selection_before,
            selection_after: None,
        };
        assert(r.commands@.map_values(|c: BufferCommand| c@) =~= Seq::empty());
        r
    }

    /// Adds a command to current transaction group.
    pub fn add_command(&mut self, command: BufferCommand)
        ensures
            final(self)@ == (GroupView { commands: old(self)@.commands.push(command@), ..old(self)@ }),
    {
        let ghost c = command@;
        self.commands.push(command);
        assert(self.commands@.map_values(|c: BufferCommand| c@) =~= old(self).commands@.map_values(
            |c: BufferCommand| c@,
        ).push(c));
    }

    /// Finalizes cursor and selection state after group execution.
    pub fn finalize(&mut self, cursor_after: CursorPosition, selection_after: Option<Selection>)
        ensures
            final(self)@ == (GroupView { cursor_after, selection_after, ..old(self)@ }),
    {
        self.cursor_after = cursor_after;
        self.selection_after = selection_after;
    }

    /// A copy of this group with the same value.
    pub fn duplicate(&self) -> (r: Self)
        ensures
            r@ == self@,
    {
        let mut commands: Vec<BufferCommand> = Vec::new();
        let mut i: usize = 0;
        while i < self.commands.len()
            invariant
                i <= self.commands.len(),
                commands@ == self.commands@.take(i as int),
            decreases self.commands.len() - i,
        {
            commands.push(self.commands[i].duplicate());
            assert(commands@ =~= self.commands@.take(i + 1));
            i = i + 1;
        }
        assert(commands@ =~= self.commands@);
        assert(commands@.map_values(|c: BufferCommand| c@) =~= self.commands@.map_values(
            |c: BufferCommand| c@,
        ));
        CommandGroup {
            commands,
            cursor_before: self.cursor_before,
            cursor_after: self.cursor_after,
            selection_before: self.selection_before,
            selection_after: self.selection_after,
        }
    }
}

/// History stack managing Undo and Redo operations using command transactions.
#[derive(Debug, Clone, PartialEq, Eq)]
pub struct UndoRedoHistory {
    undo_stack: Vec<CommandGroup>,
    redo_stack: Vec<CommandGroup>,
    max_undo_levels: usize,
}

impl Default for UndoRedoHistory {
    fn default() -> (r: Self)
        ensures
            r.bounded(),
            r.undo().len() == 0,
            r.redo().len() == 0,
            r.max_levels() == DEFAULT_MAX_UNDO_LEVELS,
    {
        Self::new(DEFAULT_MAX_UNDO_LEVELS)
    }
}

impl UndoRedoHistory {
    /// The undo stack, most recent group last.
    pub closed spec fn undo(self) -> Seq<GroupView> {
        group_views(self.undo_stack@)
    }

    /// The redo stack, most recently undone group last.
    pub closed spec fn redo(self) -> Seq<GroupView> {
        group_views(self.redo_stack@)
    }

    /// The maximum number of groups the undo stack keeps.
    pub closed spec fn max_levels(self) -> usize {
        self.max_undo_levels
    }

    /// The undo and redo stacks together hold at most `max_levels()` groups, so the
    /// undo stack never holds more than that. Every history made by `new` or
    /// `default` is bounded, and every operation keeps it so.
    pub open spec fn bounded(self) -> bool {
        self.undo().len() + self.redo().len() <= self.max_levels()
    }

    /// Creates a new `UndoRedoHistory` with specified max capacity (at least one).
    pub fn new(max_undo_levels: usize) -> (r: Self)
        ensures
            r.bounded(),
            r.undo().len() == 0,
            r.redo().len() == 0,
            r.max_levels() == if max_undo_levels == 0 { 1 } else { max_undo_levels },
    {
        let r = UndoRedoHistory {
            undo_stack: Vec::new(),
            redo_stack: Vec::new(),
            max_undo_levels: if max_undo_levels == 0 { 1 } else { max_undo_levels },
        };
        assert(r.undo() =~= Seq::empty());
        assert(r.redo() =~= Seq::empty());
        r
    }

    /// Pushes a completed transaction group onto the undo stack and clears redo stack;
    /// the oldest group is evicted when the stack grows past its capacity. A group
    /// without commands is ignored.
    pub fn push_group(&mut self, group: CommandGroup)
        requires
            old(self).bounded(),
        ensures
            final(self).bounded(),
            final(self).undo().len() <= final(self).max_levels(),
            group@.commands.len() == 0 ==> *final(self) == *old(self),
            group@.commands.len() > 0 ==> {
                let u = old(self).undo().push(group@);
                &&& final(self).undo() == if u.len() > old(self).max_levels() {
                    u.remove(0)
                } else {
                    u
                }
                &&& final(self).redo().len() == 0
                &&& final(self).max_levels() == old(self).max_levels()
            },
    {
        if group.commands.len() == 0 {
            return;
        }
        let ghost g = group@;
        self.undo_stack.push(group);
        self.redo_stack.clear();
        assert(group_views(self.undo_stack@) =~= group_views(old(self).undo_stack@).push(g));
        if self.undo_stack.len() > self.max_undo_levels {
            let ghost before = self.undo_stack@;
            self.undo_stack.remove(0);
            assert(group_views(self.undo_stack@) =~= group_views(before).remove(0));
        }
        assert(group_views(self.redo_stack@) =~= Seq::empty());
    }

    /// Pops the last transaction group from undo stack and pushes to redo stack.
    pub fn pop_undo(&mut self) -> (r: Option<CommandGroup>)
        requires
            old(self).bounded(),
        ensures
            final(self).bounded(),
            old(self).undo().len() == 0 ==> r is None && final(self).undo() == old(self).undo()
                && final(self).redo() == old(self).redo() && final(self).max_levels() == old(self).max_levels(),
            old(self).undo().len() > 0 ==> {
                let g = old(self).undo().last();
                &&& r matches Some(grp) && grp@ == g
                &&& final(self).undo() == old(self).undo().drop_last()
                &&& final(self).redo() == old(self).redo().push(g)
                &&& final(self).max_levels() == old(self).max_levels()
            },
    {
        match self.undo_stack.pop() {
            None => None,
            Some(group) => {
                let copy = group.duplicate();
                self.redo_stack.push(copy);
                assert(group_views(self.undo_stack@) =~= group_views(old(self).undo_stack@).drop_last());
                assert(group_views(self.redo_stack@) =~= group_views(old(self).redo_stack@).push(group@));
                Some(group)
            },
        }
    }

    /// Pops the last transaction group from redo stack and pushes to undo stack.
    pub fn pop_redo(&mut self) -> (r: Option<CommandGroup>)
        requires
            old(self).bounded(),
        ensures
            final(self).bounded(),
            old(self).redo().len() == 0 ==> r is None && final(self).undo() == old(self).undo()
                && final(self).redo() == old(self).redo() && final(self).max_levels() == old(self).max_levels(),
            old(self).redo().len() > 0 ==> {
                let g = old(self).redo().last();
                &&& r matches Some(grp) && grp@ == g
                &&& final(self).redo() == old(self).redo().drop_last()
                &&& final(self).undo() == old(self).undo().push(g)
                &&& final(self).max_levels() == old(self).max_levels()
            },
    {
        match self.redo_stack.pop() {
            None => None,
            Some(group) => {
                let copy = group.duplicate();
                self.undo_stack.push(copy);
                assert(group_views(self.redo_stack@) =~= group_views(old(self).redo_stack@).drop_last());
                assert(group_views(self.undo_stack@) =~= group_views(old(self).undo_stack@).push(group@));
                Some(group)
            },
        }
    }

    /// Clears both undo and redo stacks.
    pub fn clear(&mut self)
        ensures
            final(self).bounded(),
            final(self).undo().len() == 0,
            final(self).redo().len() == 0,
            final(self).max_levels() == old(self).max_levels(),
    {
        self.undo_stack.clear();
        self.redo_stack.clear();
    }

    /// Returns true if undo stack is not empty.
    pub fn can_undo(&self) -> (r: bool)
        ensures
            r == (self.undo().len() > 0),
    {
        self.undo_stack.len() != 0
    }

    /// Returns true if redo stack is not empty.
    pub fn can_redo(&self) -> (r: bool)
        ensures
            r == (self.redo().len() > 0),
    {
        self.redo_stack.len() != 0
    }

    /// Returns length of undo stack.
    pub fn undo_count(&self) -> (r: usize)
        ensures
            r == self.undo().len(),
    {
        self.undo_stack.len()
    }

    /// Returns length of redo stack.
    pub fn redo_count(&self) -> (r: usize)
        ensures
            r == self.redo().len(),
    {
        self.redo_stack.len()
    }
}

/// Undoing and then redoing gives back the same undo and redo stacks.
pub proof fn lemma_undo_then_redo_restores(h0: UndoRedoHistory, h1: UndoRedoHistory, h2: UndoRedoHistory)
    requires
        h0.undo().len() > 0,
        h1.undo() == h0.undo().drop_last(),
        h1.redo() == h0.redo().push(h0.undo().last()),
        h2.redo() == h1.redo().drop_last(),
        h2.undo() == h1.undo().push(h1.redo().last()),
    ensures
        h2.undo() == h0.undo(),
        h2.redo() == h0.redo(),
{
    assert(h2.undo() =~= h0.undo());
    assert(h2.redo() =~= h0.redo());
}

} // verus!
