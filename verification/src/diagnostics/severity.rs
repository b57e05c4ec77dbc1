//! Diagnostic severity levels.

use vstd::prelude::*;

verus! {

/// Diagnostic levels supported by the validation engine.
#[derive(Debug, Clone, Copy, PartialEq, Eq, Structural, PartialOrd, Ord, Hash)]
pub enum DiagnosticLevel {
    /// Severe syntax, schema, or structural failure requiring fix before deployment.
    Error,
    /// Warning indicating potential bug, missing field, or deprecated usage.
    Warning,
    /// Informational message regarding code organization or metadata.
    Information,
    /// Editor suggestion, code hint, or subtle improvement idea.
    Hint,
    /// Future compatibility or deprecation notice for upcoming API versions.
    Future,
    /// Security vulnerability, permission flaw, or credentials exposure.
    Security,
    /// Performance bottleneck, redundant execution, or resource leak.
    Performance,
    /// Code style, formatting, or naming convention issue.
    Style,
    /// Infrastructure or software development best practice recommendation.
    BestPractice,
}

/// The short tag of a level.
pub open spec fn level_tag(l: DiagnosticLevel) -> Seq<char> {
    match l {
        DiagnosticLevel::Error => "ERROR"@,
        DiagnosticLevel::Warning => "WARN"@,
        DiagnosticLevel::Information => "INFO"@,
        DiagnosticLevel::Hint => "HINT"@,
        DiagnosticLevel::Future => "FUTURE"@,
        DiagnosticLevel::Security => "SEC"@,
        DiagnosticLevel::Performance => "PERF"@,
        DiagnosticLevel::Style => "STYLE"@,
        DiagnosticLevel::BestPractice => "BEST"@,
    }
}

/// The terminal symbol of a level.
pub open spec fn level_symbol(l: DiagnosticLevel) -> Seq<char> {
    match l {
        DiagnosticLevel::Error => "✖"@,
        DiagnosticLevel::Warning => "⚠"@,
        DiagnosticLevel::Information => "ℹ"@,
        DiagnosticLevel::Hint => "💡"@,
        DiagnosticLevel::Future => "🔮"@,
        DiagnosticLevel::Security => "🛡"@,
        DiagnosticLevel::Performance => "⚡"@,
        DiagnosticLevel::Style => "🎨"@,
        DiagnosticLevel::BestPractice => "⭐"@,
    }
}

impl DiagnosticLevel {
    /// Returns `true` if this level indicates a critical blocking issue.
    pub fn is_critical(&self) -> (r: bool)
        ensures
            r == (*self == DiagnosticLevel::Error || *self == DiagnosticLevel::Security),
    {
        match self {
            DiagnosticLevel::Error | DiagnosticLevel::Security => true,
            _ => false,
        }
    }

    /// Returns a short tag for display.
    pub fn tag(&self) -> (r: &'static str)
        ensures
            r@ == level_tag(*self),
    {
        match self {
            DiagnosticLevel::Error => "ERROR",
            DiagnosticLevel::Warning => "WARN",
            DiagnosticLevel::Information => "INFO",
            DiagnosticLevel::Hint => "HINT",
            DiagnosticLevel::Future => "FUTURE",
            DiagnosticLevel::Security => "SEC",
            DiagnosticLevel::Performance => "PERF",
            DiagnosticLevel::Style => "STYLE",
            DiagnosticLevel::BestPractice => "BEST",
        }
    }

    /// Returns a single indicator symbol for terminal display.
    pub fn symbol(&self) -> (r: &'static str)
        ensures
            r@ == level_symbol(*self),
    {
        match self {
            DiagnosticLevel::Error => "✖",
            DiagnosticLevel::Warning => "⚠",
            DiagnosticLevel::Information => "ℹ",
            DiagnosticLevel::Hint => "💡",
            DiagnosticLevel::Future => "🔮",
            DiagnosticLevel::Security => "🛡",
            DiagnosticLevel::Performance => "⚡",
            DiagnosticLevel::Style => "🎨",
            DiagnosticLevel::BestPractice => "⭐",
        }
    }

    /// The displayed form of the level: its tag.
    pub fn to_text(&self) -> (r: String)
        ensures
            r@ == level_tag(*self),
    {
        self.tag().to_owned()
    }
}

} // verus!
