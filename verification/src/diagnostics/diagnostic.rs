//! The diagnostic: one finding of the validation engine.

use vstd::prelude::*;
use crate::diagnostics::quick_fix::{QuickFix, quick_fix_same};
use crate::diagnostics::range::DiagnosticRange;
use crate::diagnostics::severity::{DiagnosticLevel, level_symbol};
use crate::diagnostics::utils::{current_timestamp_ms, diagnostic_id, generate_diagnostic_id};
use crate::parser::{LanguageId, language_name};
use crate::text::{decimal, push_decimal};

verus! {

/// A finding of the validation engine with its location, rule and fixes.
#[derive(Debug, Clone, PartialEq, Eq)]
pub struct Diagnostic {
    /// Identifier of this diagnostic instance.
    pub id: String,
    /// Severity level.
    pub severity: DiagnosticLevel,
    /// Short summary message describing the issue.
    pub message: String,
    /// Extended description or rationale.
    pub description: Option<String>,
    /// 1-based line number.
    pub line: usize,
    /// 1-based column number.
    pub column: usize,
    /// Source range spanned by this diagnostic.
    pub range: DiagnosticRange,
    /// Name of the rule that generated this diagnostic.
    pub rule_name: String,
    /// Language of the document.
    pub language: LanguageId,
    /// Suggested quick fixes.
    pub quick_fixes: Vec<QuickFix>,
    /// Link to the rule's documentation.
    pub documentation_link: Option<String>,
    /// System time in milliseconds when this diagnostic was created.
    pub timestamp: u64,
}

/// Two lists of quick fixes that are pairwise the same.
pub open spec fn quick_fixes_same(a: Seq<QuickFix>, b: Seq<QuickFix>) -> bool {
    a.len() == b.len() && forall|i: int| 0 <= i < a.len() ==> quick_fix_same(#[trigger] a[i], b[i])
}

/// Two diagnostics with the same fields and the same quick fixes.
pub open spec fn diagnostic_same(a: Diagnostic, b: Diagnostic) -> bool {
    &&& a.id == b.id
    &&& a.severity == b.severity
    &&& a.message == b.message
    &&& a.description == b.description
    &&& a.line == b.line
    &&& a.column == b.column
    &&& a.range == b.range
    &&& a.rule_name == b.rule_name
    &&& a.language == b.language
    &&& quick_fixes_same(a.quick_fixes@, b.quick_fixes@)
    &&& a.documentation_link == b.documentation_link
    &&& a.timestamp == b.timestamp
}

/// Two lists of diagnostics that are pairwise the same.
pub open spec fn diagnostics_same(a: Seq<Diagnostic>, b: Seq<Diagnostic>) -> bool {
    a.len() == b.len() && forall|i: int| 0 <= i < a.len() ==> diagnostic_same(#[trigger] a[i], b[i])
}

/// The displayed form of a diagnostic.
pub open spec fn diagnostic_text(d: Diagnostic) -> Seq<char> {
    "["@ + language_name(d.language) + "] "@ + level_symbol(d.severity) + " "@ + d.rule_name@
        + " at "@ + decimal(d.line as nat) + ":"@ + decimal(d.column as nat) + ": "@ + d.message@
}

fn clone_opt_string(o: &Option<String>) -> (r: Option<String>)
    ensures
        r == *o,
{
    match o {
        Some(s) => Some(s.clone()),
        None => None,
    }
}

impl Diagnostic {
    /// Creates a diagnostic at the start of `range`, identified by rule, location and
    /// message, stamped with the current time.
    pub fn new(
        severity: DiagnosticLevel,
        message: &str,
        range: DiagnosticRange,
        rule_name: &str,
        language: LanguageId,
    ) -> (r: Self)
        ensures
            r.id@ == diagnostic_id(rule_name@, range.start.line, range.start.column, message@),
            r.severity == severity,
            r.message@ == message@,
            r.description is None,
            r.line == range.start.line,
            r.column == range.start.column,
            r.range == range,
            r.rule_name@ == rule_name@,
            r.language == language,
            r.quick_fixes@.len() == 0,
            r.documentation_link is None,
    {
        let line = range.start.line;
        let column = range.start.column;
        let id = generate_diagnostic_id(rule_name, line, column, message);
        let timestamp = current_timestamp_ms();
        Diagnostic {
            id,
            severity,
            message: message.to_owned(),
            description: None,
            line,
            column,
            range,
            rule_name: rule_name.to_owned(),
            language,
            quick_fixes: Vec::new(),
            documentation_link: None,
            timestamp,
        }
    }

    /// Attaches an extended description.
    pub fn with_description(self, description: &str) -> (r: Self)
        ensures
            r.description matches Some(d) && d@ == description@,
            r == (Diagnostic { description: r.description, ..self }),
    {
        let mut s = self;
        s.description = Some(description.to_owned());
        s
    }

    /// Replaces the quick fixes.
    pub fn with_quick_fixes(self, fixes: Vec<QuickFix>) -> (r: Self)
        ensures
            r == (Diagnostic { quick_fixes: fixes, ..self }),
    {
        let mut s = self;
        s.quick_fixes = fixes;
        s
    }

    /// Adds a quick fix at the end.
    pub fn add_quick_fix(&mut self, fix: QuickFix)
        ensures
            final(self).quick_fixes@ == old(self).quick_fixes@.push(fix),
            *final(self) == (Diagnostic { quick_fixes: final(self).quick_fixes, ..*old(self) }),
    {
        self.quick_fixes.push(fix);
    }

    /// Attaches a documentation link.
    pub fn with_documentation_link(self, link: &str) -> (r: Self)
        ensures
            r.documentation_link matches Some(l) && l@ == link@,
            r == (Diagnostic { documentation_link: r.documentation_link, ..self }),
    {
        let mut s = self;
        s.documentation_link = Some(link.to_owned());
        s
    }

    /// Sets the identifier.
    pub fn with_id(self, id: &str) -> (r: Self)
        ensures
            r.id@ == id@,
            r == (Diagnostic { id: r.id, ..self }),
    {
        let mut s = self;
        s.id = id.to_owned();
        s
    }

    /// A copy of this diagnostic.
    pub fn duplicate(&self) -> (r: Self)
        ensures
            diagnostic_same(r, *self),
    {
        let mut fixes: Vec<QuickFix> = Vec::new();
        let mut i: usize = 0;
        while i < self.quick_fixes.len()
            invariant
                i <= self.quick_fixes.len(),
                fixes.len() == i,
                forall|j: int| 0 <= j < i ==> quick_fix_same(#[trigger] fixes@[j], self.quick_fixes@[j]),
            decreases self.quick_fixes.len() - i,
        {
            fixes.push(self.quick_fixes[i].duplicate());
            i = i + 1;
        }
        Diagnostic {
            id: self.id.clone(),
            severity: self.severity,
            message: self.message.clone(),
            description: clone_opt_string(&self.description),
            line: self.line,
            column: self.column,
            range: self.range,
            rule_name: self.rule_name.clone(),
            language: self.language,
            quick_fixes: fixes,
            documentation_link: clone_opt_string(&self.documentation_link),
            timestamp: self.timestamp,
        }
    }

    /// The displayed form `[language] symbol rule at line:column: message`.
    pub fn to_text(&self) -> (r: String)
        ensures
            r@ == diagnostic_text(*self),
    {
        let mut s = "[".to_owned();
        s.append(self.language.name());
        s.append("] ");
        s.append(self.severity.symbol());
        s.append(" ");
        s.append(self.rule_name.as_str());
        s.append(" at ");
        push_decimal(&mut s, self.line);
        s.append(":");
        push_decimal(&mut s, self.column);
        s.append(": ");
        s.append(self.message.as_str());
        s
    }
}

/// Copies a list of diagnostics.
pub fn duplicate_all(v: &[Diagnostic]) -> (r: Vec<Diagnostic>)
    ensures
        diagnostics_same(r@, v@),
{
    let mut out: Vec<Diagnostic> = Vec::new();
    let mut i: usize = 0;
    while i < v.len()
        invariant
            i <= v.len(),
            out.len() == i,
            forall|j: int| 0 <= j < i ==> diagnostic_same(#[trigger] out@[j], v@[j]),
        decreases v.len() - i,
    {
        out.push(v[i].duplicate());
        i = i + 1;
    }
    out
}

} // verus!
