//! Quick fixes: proposed text edits that resolve a diagnostic.

use vstd::prelude::*;
use crate::diagnostics::range::DiagnosticRange;

verus! {

/// An individual text edit proposed by a quick fix.
#[derive(Debug, Clone, PartialEq, Eq)]
pub struct TextEdit {
    /// The range in the document to be replaced or edited.
    pub range: DiagnosticRange,
    /// The new text content to substitute.
    pub new_text: String,
}

impl TextEdit {
    /// A copy of this edit.
    pub fn duplicate(&self) -> (r: Self)
        ensures
            r == *self,
    {
        TextEdit { range: self.range, new_text: self.new_text.clone() }
    }

    /// Creates a replacement text edit.
    pub fn replace(range: DiagnosticRange, new_text: &str) -> (r: Self)
        ensures
            r.range == range,
            r.new_text@ == new_text@,
    {
        TextEdit { range, new_text: new_text.to_owned() }
    }

    /// Creates an insertion text edit.
    pub fn insert(at: DiagnosticRange, text: &str) -> (r: Self)
        ensures
            r.range == at,
            r.new_text@ == text@,
    {
        TextEdit { range: at, new_text: text.to_owned() }
    }

    /// Creates a deletion text edit.
    pub fn delete(range: DiagnosticRange) -> (r: Self)
        ensures
            r.range == range,
            r.new_text@ == Seq::<char>::empty(),
    {
        TextEdit { range, new_text: String::new() }
    }
}

/// Categorizes the type of quick fix resolution.
#[derive(Debug, Clone, PartialEq, Eq)]
pub enum QuickFixKind {
    /// Suggested string replacement for a node or value.
    SuggestedReplacement { replacement: String },
    /// Text insertion at a specific position.
    InsertText { text: String },
    /// Deletion of target text or node.
    DeleteText,
    /// Direct replacement of a specified range.
    ReplaceRange { replacement: String },
    /// Placeholder for complex auto-fix actions.
    FutureAutoFix { action_id: String, payload: Option<String> },
}

/// A proposed quick fix attached to a diagnostic report.
#[derive(Debug, Clone, PartialEq, Eq)]
pub struct QuickFix {
    /// Human-readable title describing the quick fix.
    pub title: String,
    /// The quick fix category/kind.
    pub kind: QuickFixKind,
    /// Primary range associated with this quick fix.
    pub range: DiagnosticRange,
    /// Concrete text edits required to perform this quick fix.
    pub edits: Vec<TextEdit>,
    /// Whether this quick fix is the preferred default resolution.
    pub is_preferred: bool,
}

impl QuickFixKind {
    /// A copy of this kind.
    pub fn duplicate(&self) -> (r: Self)
        ensures
            r == *self,
    {
        match self {
            QuickFixKind::SuggestedReplacement { replacement } => QuickFixKind::SuggestedReplacement {
                replacement: replacement.clone(),
            },
            QuickFixKind::InsertText { text } => QuickFixKind::InsertText { text: text.clone() },
            QuickFixKind::DeleteText => QuickFixKind::DeleteText,
            QuickFixKind::ReplaceRange { replacement } => QuickFixKind::ReplaceRange {
                replacement: replacement.clone(),
            },
            QuickFixKind::FutureAutoFix { action_id, payload } => QuickFixKind::FutureAutoFix {
                action_id: action_id.clone(),
                payload: match payload {
                    Some(p) => Some(p.clone()),
                    None => None,
                },
            },
        }
    }
}

/// Two quick fixes with the same fields and the same edits.
pub open spec fn quick_fix_same(a: QuickFix, b: QuickFix) -> bool {
    a.title == b.title && a.kind == b.kind && a.range == b.range && a.edits@ == b.edits@
        && a.is_preferred == b.is_preferred
}

/// True when the edits are exactly one edit of `range` to `text`.
pub open spec fn single_edit(edits: Seq<TextEdit>, range: DiagnosticRange, text: Seq<char>) -> bool {
    edits.len() == 1 && edits[0].range == range && edits[0].new_text@ == text
}

impl QuickFix {
    /// A copy of this quick fix.
    pub fn duplicate(&self) -> (r: Self)
        ensures
            quick_fix_same(r, *self),
    {
        let mut edits: Vec<TextEdit> = Vec::new();
        let mut i: usize = 0;
        while i < self.edits.len()
            invariant
                i <= self.edits.len(),
                edits@ == self.edits@.take(i as int),
            decreases self.edits.len() - i,
        {
            edits.push(self.edits[i].duplicate());
            assert(self.edits@.take(i + 1) =~= self.edits@.take(i as int).push(self.edits@[i as int]));
            i = i + 1;
        }
        assert(self.edits@.take(self.edits.len() as int) =~= self.edits@);
        QuickFix {
            title: self.title.clone(),
            kind: self.kind.duplicate(),
            range: self.range,
            edits,
            is_preferred: self.is_preferred,
        }
    }

    /// Creates a quick fix that is not preferred.
    pub fn new(title: &str, kind: QuickFixKind, range: DiagnosticRange, edits: Vec<TextEdit>) -> (r:
        Self)
        ensures
            r.title@ == title@,
            r.kind == kind,
            r.range == range,
            r.edits@ == edits@,
            !r.is_preferred,
    {
        QuickFix { title: title.to_owned(), kind, range, edits, is_preferred: false }
    }

    /// Marks this quick fix as preferred or not.
    pub fn with_preferred(self, preferred: bool) -> (r: Self)
        ensures
            r == (QuickFix { is_preferred: preferred, ..self }),
    {
        let mut s = self;
        s.is_preferred = preferred;
        s
    }

    /// A quick fix replacing the range with a suggested string.
    pub fn replacement(title: &str, range: DiagnosticRange, replacement: &str) -> (r: Self)
        ensures
            r.title@ == title@,
            r.kind matches QuickFixKind::SuggestedReplacement { replacement: rep } && rep@
                == replacement@,
            r.range == range,
            single_edit(r.edits@, range, replacement@),
            !r.is_preferred,
    {
        let edit = TextEdit::replace(range, replacement);
        let mut edits: Vec<TextEdit> = Vec::new();
        edits.push(edit);
        Self::new(
            title,
            QuickFixKind::SuggestedReplacement { replacement: replacement.to_owned() },
            range,
            edits,
        )
    }

    /// A quick fix inserting text.
    pub fn insert(title: &str, range: DiagnosticRange, text: &str) -> (r: Self)
        ensures
            r.title@ == title@,
            r.kind matches QuickFixKind::InsertText { text: t } && t@ == text@,
            r.range == range,
            single_edit(r.edits@, range, text@),
            !r.is_preferred,
    {
        let edit = TextEdit::insert(range, text);
        let mut edits: Vec<TextEdit> = Vec::new();
        edits.push(edit);
        Self::new(title, QuickFixKind::InsertText { text: text.to_owned() }, range, edits)
    }

    /// A quick fix deleting the range.
    pub fn delete(title: &str, range: DiagnosticRange) -> (r: Self)
        ensures
            r.title@ == title@,
            r.kind == QuickFixKind::DeleteText,
            r.range == range,
            single_edit(r.edits@, range, Seq::empty()),
            !r.is_preferred,
    {
        let edit = TextEdit::delete(range);
        let mut edits: Vec<TextEdit> = Vec::new();
        edits.push(edit);
        Self::new(title, QuickFixKind::DeleteText, range, edits)
    }

    /// A placeholder for an auto-fix action, with no edits.
    pub fn future_autofix(title: &str, range: DiagnosticRange, action_id: &str) -> (r: Self)
        ensures
            r.title@ == title@,
            r.kind matches QuickFixKind::FutureAutoFix { action_id: a, payload: p } && a@
                == action_id@ && p is None,
            r.range == range,
            r.edits@.len() == 0,
            !r.is_preferred,
    {
        Self::new(
            title,
            QuickFixKind::FutureAutoFix { action_id: action_id.to_owned(), payload: None },
            range,
            Vec::new(),
        )
    }
}

} // verus!
