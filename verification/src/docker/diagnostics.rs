//! Conversion of Docker diagnostics into the engine's diagnostics.

use vstd::prelude::*;
use crate::diagnostics::diagnostic::Diagnostic;
use crate::diagnostics::position::{DiagnosticPosition, dpos_new};
use crate::diagnostics::quick_fix::{QuickFix, QuickFixKind, single_edit};
use crate::diagnostics::range::DiagnosticRange;
use crate::diagnostics::severity::DiagnosticLevel;
use crate::diagnostics::utils::diagnostic_id;
use crate::docker::validator::{DockerDiagnostic, DockerSeverity};
use crate::parser::LanguageId;

verus! {

/// The diagnostic level of a Docker severity.
pub open spec fn level_of_docker(s: DockerSeverity) -> DiagnosticLevel {
    match s {
        DockerSeverity::Error => DiagnosticLevel::Error,
        DockerSeverity::Warning => DiagnosticLevel::Warning,
        DockerSeverity::Info => DiagnosticLevel::Information,
        DockerSeverity::Hint => DiagnosticLevel::Hint,
    }
}

/// The range of a Docker diagnostic's span (a 0 line or column counts as 1).
pub open spec fn range_of_docker(d: DockerDiagnostic) -> DiagnosticRange {
    DiagnosticRange {
        start: dpos_new(d.span.start.line, d.span.start.column, d.span.start.byte_offset),
        end: dpos_new(d.span.end.line, d.span.end.column, d.span.end.byte_offset),
    }
}

/// `g` is the engine diagnostic made of `d` for a document of language `lang`: same
/// message and rule, mapped level, the span's range, and the quick fix as a
/// replacement over that range.
pub open spec fn converted_docker(g: Diagnostic, d: DockerDiagnostic, lang: LanguageId) -> bool {
    let range = range_of_docker(d);
    &&& g.severity == level_of_docker(d.severity)
    &&& g.message@ == d.message@
    &&& g.range == range
    &&& g.line == range.start.line
    &&& g.column == range.start.column
    &&& g.rule_name@ == d.rule_id@
    &&& g.language == lang
    &&& g.id@ == diagnostic_id(d.rule_id@, range.start.line, range.start.column, d.message@)
    &&& g.description is None
    &&& g.documentation_link is None
    &&& match d.quick_fix {
        Some((title, replacement)) => {
            &&& g.quick_fixes@.len() == 1
            &&& g.quick_fixes@[0].title@ == title@
            &&& g.quick_fixes@[0].kind matches QuickFixKind::SuggestedReplacement { replacement: x } && x@ == replacement@
            &&& g.quick_fixes@[0].range == range
            &&& single_edit(g.quick_fixes@[0].edits@, range, replacement@)
            &&& !g.quick_fixes@[0].is_preferred
        },
        None => g.quick_fixes@.len() == 0,
    }
}

/// Converts one Docker diagnostic.
pub fn convert_docker_diagnostic(diag: &DockerDiagnostic, language_id: LanguageId) -> (r: Diagnostic)
    ensures
        converted_docker(r, *diag, language_id),
{
    let level = match diag.severity {
        DockerSeverity::Error => DiagnosticLevel::Error,
        DockerSeverity::Warning => DiagnosticLevel::Warning,
        DockerSeverity::Info => DiagnosticLevel::Information,
        DockerSeverity::Hint => DiagnosticLevel::Hint,
    };
    let start = DiagnosticPosition::new(
        diag.span.start.line,
        diag.span.start.column,
        diag.span.start.byte_offset,
    );
    let end = DiagnosticPosition::new(
        diag.span.end.line,
        diag.span.end.column,
        diag.span.end.byte_offset,
    );
    let range = DiagnosticRange::new(start, end);
    let gic_diag = Diagnostic::new(
        level,
        diag.message.as_str(),
        range,
        diag.rule_id.as_str(),
        language_id,
    );
    match &diag.quick_fix {
        Some((title, replacement)) => {
            let qf = QuickFix::replacement(title.as_str(), range, replacement.as_str());
            let mut fixes: Vec<QuickFix> = Vec::new();
            fixes.push(qf);
            gic_diag.with_quick_fixes(fixes)
        },
        None => gic_diag,
    }
}

/// Converts a list of Docker diagnostics, in order.
pub fn convert_docker_diagnostics(source_diags: &[DockerDiagnostic], language_id: LanguageId) -> (r:
    Vec<Diagnostic>)
    ensures
        r@.len() == source_diags@.len(),
        forall|i: int|
            0 <= i < r@.len() ==> converted_docker(#[trigger] r@[i], source_diags@[i], language_id),
{
    let mut out: Vec<Diagnostic> = Vec::new();
    let mut i: usize = 0;
    while i < source_diags.len()
        invariant
            i <= source_diags.len(),
            out@.len() == i,
            forall|j: int|
                0 <= j < i ==> converted_docker(#[trigger] out@[j], source_diags@[j], language_id),
        decreases source_diags.len() - i,
    {
        out.push(convert_docker_diagnostic(&source_diags[i], language_id));
        i = i + 1;
    }
    out
}

} // verus!
