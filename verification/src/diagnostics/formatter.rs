//! Output formatters for diagnostics.

use vstd::prelude::*;
use crate::diagnostics::diagnostic::Diagnostic;
use crate::diagnostics::errors::{DiagnosticError, DiagnosticResult};
use crate::diagnostics::quick_fix::QuickFix;
use crate::diagnostics::severity::{level_symbol, level_tag};
use crate::parser::language_name;
use crate::text::{decimal, push_decimal};

verus! {

/// A formatter of diagnostics into text.
pub trait DiagnosticFormatter {
    /// `r` is what formatting the diagnostic gives: an implementation checked by
    /// Verus defines it, and `format` gives it.
    open spec fn formats_to(&self, diagnostic: Diagnostic, r: DiagnosticResult<String>) -> bool {
        vstd::pervasive::arbitrary()
    }

    /// Formats one diagnostic.
    fn format(&self, diagnostic: &Diagnostic) -> (r: DiagnosticResult<String>)
        ensures
            self.formats_to(*diagnostic, r),
    ;

    /// Formats a list of diagnostics, one per line; the first error ends it. Each
    /// diagnostic is formatted in turn until one fails; what came back is joined
    /// by `join_format_results`.
    fn format_all(&self, diagnostics: &[Diagnostic]) -> (r: DiagnosticResult<String>)
        default_ensures
            exists|rs: Seq<DiagnosticResult<String>>| {
                &&& rs.len() <= diagnostics@.len()
                &&& forall|j: int| 0 <= j < rs.len() ==> self.formats_to(diagnostics@[j], #[trigger] rs[j])
                &&& forall|j: int| 0 <= j < rs.len() - 1 ==> (#[trigger] rs[j]) is Ok
                &&& rs.len() < diagnostics@.len() ==> rs.len() > 0 && rs.last() is Err
                &&& answers(r, joined_results(rs))
            },
            diagnostics@.len() == 0 ==> (r matches Ok(s) && s@.len() == 0),
            r is Err ==> diagnostics@.len() > 0,
    {
        let mut results: Vec<DiagnosticResult<String>> = Vec::new();
        let mut failed = false;
        let mut i: usize = 0;
        while i < diagnostics.len() && !failed
            invariant
                i <= diagnostics.len(),
                results@.len() == i,
                forall|j: int| 0 <= j < i ==> self.formats_to(diagnostics@[j], #[trigger] results@[j]),
                forall|j: int| 0 <= j < i - 1 ==> (#[trigger] results@[j]) is Ok,
                failed ==> i > 0 && results@.last() is Err,
                !failed ==> forall|j: int| 0 <= j < i ==> (#[trigger] results@[j]) is Ok,
            decreases diagnostics.len() - i,
        {
            let out = self.format(&diagnostics[i]);
            failed = out.is_err();
            results.push(out);
            i = i + 1;
        }
        proof {
            lemma_joined_results_err(results@);
        }
        join_format_results(results)
    }
}

/// The formatted lines joined by `'\n'` after the text `acc` (nothing before the
/// first line when `first`), or the first error among them.
pub open spec fn joined_from(acc: Seq<char>, first: bool, rs: Seq<DiagnosticResult<String>>) -> DiagnosticResult<Seq<char>>
    decreases rs.len(),
{
    if rs.len() == 0 {
        Ok(acc)
    } else {
        match rs[0] {
            Err(e) => Err(e),
            Ok(s) => joined_from(if first { s@ } else { acc + seq!['\n'] + s@ }, false, rs.drop_first()),
        }
    }
}

/// The formatted lines joined by `'\n'`, or the first error among them.
pub open spec fn joined_results(rs: Seq<DiagnosticResult<String>>) -> DiagnosticResult<Seq<char>> {
    joined_from(Seq::empty(), true, rs)
}

/// `r` answers `j`: the same text, or the same error.
pub open spec fn answers(r: DiagnosticResult<String>, j: DiagnosticResult<Seq<char>>) -> bool {
    match j {
        Ok(t) => r matches Ok(s) && s@ == t,
        Err(e) => r == Err::<String, DiagnosticError>(e),
    }
}

/// Joining nothing gives the empty text, and only results that hold an error give
/// an error.
proof fn lemma_joined_from_err(acc: Seq<char>, first: bool, rs: Seq<DiagnosticResult<String>>)
    ensures
        rs.len() == 0 ==> joined_from(acc, first, rs) == Ok::<Seq<char>, DiagnosticError>(acc),
        (forall|j: int| 0 <= j < rs.len() ==> (#[trigger] rs[j]) is Ok) ==> joined_from(acc, first, rs) is Ok,
    decreases rs.len(),
{
    if rs.len() > 0 {
        if let Ok(s) = rs[0] {
            let next = if first { s@ } else { acc + seq!['\n'] + s@ };
            lemma_joined_from_err(next, false, rs.drop_first());
            if forall|j: int| 0 <= j < rs.len() ==> (#[trigger] rs[j]) is Ok {
                assert forall|j: int| 0 <= j < rs.drop_first().len() implies (#[trigger] rs.drop_first()[j]) is Ok by {
                    assert(rs.drop_first()[j] == rs[j + 1]);
                }
            }
        }
    }
}

proof fn lemma_joined_results_err(rs: Seq<DiagnosticResult<String>>)
    ensures
        rs.len() == 0 ==> joined_results(rs) == Ok::<Seq<char>, DiagnosticError>(Seq::empty()),
        (forall|j: int| 0 <= j < rs.len() ==> (#[trigger] rs[j]) is Ok) ==> joined_results(rs) is Ok,
{
    lemma_joined_from_err(Seq::empty(), true, rs);
}

/// Joins formatted lines with `'\n'` between them, or returns the first error
/// among them.
pub fn join_format_results(results: Vec<DiagnosticResult<String>>) -> (r: DiagnosticResult<String>)
    ensures
        answers(r, joined_results(results@)),
{
    let ghost whole = results@;
    let mut rest: Vec<DiagnosticResult<String>> = results;

    let mut buffer = String::new();
    let mut first = true;
    while rest.len() > 0
        invariant
            whole == results@,
            joined_results(whole) == joined_from(buffer@, first, rest@),
            first ==> buffer@.len() == 0,
        decreases rest.len(),
    {
        let ghost before = rest@;
        let item = rest.remove(0);
        assert(item == before[0]);
        assert(rest@ =~= before.drop_first());
        match item {
            Err(e) => {
                assert(joined_from(buffer@, first, before) == Err::<Seq<char>, DiagnosticError>(e));
                assert(joined_results(whole) == Err::<Seq<char>, DiagnosticError>(e));
                let out: DiagnosticResult<String> = Err(e);
                assert(answers(out, joined_results(whole)));
                return out;
            },
            Ok(s) => {
                let ghost old_buf = buffer@;
                if !first {
                    buffer.append("\n");
                    proof {
                        reveal_strlit("\n");
                    }
                }
                buffer.append(s.as_str());
                proof {
                    if first {
                        assert(buffer@ =~= s@);
                    } else {
                        assert(buffer@ =~= old_buf + seq!['\n'] + s@);
                    }
                    assert(joined_from(old_buf, first, before) == joined_from(buffer@, false, rest@));
                }
                first = false;
            },
        }
    }
    Ok(buffer)
}

/// The plain one-line form `line:column: [TAG] [rule] message`.
pub open spec fn plain_text(d: Diagnostic) -> Seq<char> {
    decimal(d.line as nat) + ":"@ + decimal(d.column as nat) + ": ["@ + level_tag(d.severity)
        + "] ["@ + d.rule_name@ + "] "@ + d.message@
}

/// Plain text formatter producing one line per diagnostic.
#[derive(Debug, Default, Clone, Copy)]
pub struct PlainTextFormatter;

impl DiagnosticFormatter for PlainTextFormatter {
    open spec fn formats_to(&self, diagnostic: Diagnostic, r: DiagnosticResult<String>) -> bool {
        r matches Ok(s) && s@ == plain_text(diagnostic)
    }

    fn format(&self, diagnostic: &Diagnostic) -> (r: DiagnosticResult<String>)
        ensures
            r matches Ok(s) && s@ == plain_text(*diagnostic),
    {
        let mut s = String::new();
        push_decimal(&mut s, diagnostic.line);
        s.append(":");
        push_decimal(&mut s, diagnostic.column);
        s.append(": [");
        s.append(diagnostic.severity.tag());
        s.append("] [");
        s.append(diagnostic.rule_name.as_str());
        s.append("] ");
        s.append(diagnostic.message.as_str());
        Ok(s)
    }
}

/// The lines listing quick fix titles.
pub open spec fn fix_lines(qs: Seq<QuickFix>) -> Seq<char>
    decreases qs.len(),
{
    if qs.len() == 0 {
        Seq::empty()
    } else {
        fix_lines(qs.drop_last()) + "\n      • "@ + qs.last().title@
    }
}

/// The terminal form: symbol, tag, language, location and message, then the rule,
/// the description and documentation link when present, and the quick fixes.
pub open spec fn pretty_text(d: Diagnostic) -> Seq<char> {
    let head = level_symbol(d.severity) + " "@ + level_tag(d.severity) + " ["@ + language_name(
        d.language,
    ) + "] Line "@ + decimal(d.line as nat) + ", Col "@ + decimal(d.column as nat) + ": "@
        + d.message@ + "\n  └─ Rule: "@ + d.rule_name@;
    let info = match d.description {
        Some(desc) => "\n  └─ Info: "@ + desc@,
        None => Seq::empty(),
    };
    let docs = match d.documentation_link {
        Some(link) => "\n  └─ Docs: "@ + link@,
        None => Seq::empty(),
    };
    let fixes = if d.quick_fixes@.len() == 0 {
        Seq::empty()
    } else {
        "\n  └─ Quick Fixes ("@ + decimal(d.quick_fixes@.len()) + " available):"@ + fix_lines(
            d.quick_fixes@,
        )
    };
    head + info + docs + fixes
}

/// Terminal formatter with symbols and indented details.
#[derive(Debug, Default, Clone, Copy)]
pub struct PrettyTerminalFormatter;

impl DiagnosticFormatter for PrettyTerminalFormatter {
    open spec fn formats_to(&self, diagnostic: Diagnostic, r: DiagnosticResult<String>) -> bool {
        r matches Ok(s) && s@ == pretty_text(diagnostic)
    }

    fn format(&self, diagnostic: &Diagnostic) -> (r: DiagnosticResult<String>)
        ensures
            r matches Ok(s) && s@ == pretty_text(*diagnostic),
    {
        let d = diagnostic;
        let mut out = String::new();
        out.append(d.severity.symbol());
        out.append(" ");
        out.append(d.severity.tag());
        out.append(" [");
        out.append(d.language.name());
        out.append("] Line ");
        push_decimal(&mut out, d.line);
        out.append(", Col ");
        push_decimal(&mut out, d.column);
        out.append(": ");
        out.append(d.message.as_str());
        out.append("\n  └─ Rule: ");
        out.append(d.rule_name.as_str());
        let ghost head = out@;
        match &d.description {
            Some(desc) => {
                out.append("\n  └─ Info: ");
                out.append(desc.as_str());
            },
            None => {},
        }
        let ghost with_info = out@;
        match &d.documentation_link {
            Some(link) => {
                out.append("\n  └─ Docs: ");
                out.append(link.as_str());
            },
            None => {},
        }
        let ghost with_docs = out@;
        if d.quick_fixes.len() > 0 {
            out.append("\n  └─ Quick Fixes (");
            push_decimal(&mut out, d.quick_fixes.len());
            out.append(" available):");
            let ghost before_list = out@;
            let mut i: usize = 0;
            while i < d.quick_fixes.len()
                invariant
                    i <= d.quick_fixes.len(),
                    out@ == before_list + fix_lines(d.quick_fixes@.take(i as int)),
                decreases d.quick_fixes.len() - i,
            {
                proof {
                    assert(d.quick_fixes@.take(i + 1).drop_last() =~= d.quick_fixes@.take(i as int));
                }
                out.append("\n      • ");
                out.append(d.quick_fixes[i].title.as_str());
                i = i + 1;
            }
            assert(d.quick_fixes@.take(d.quick_fixes.len() as int) =~= d.quick_fixes@);
        }
        assert(out@ =~= pretty_text(*d));
        Ok(out)
    }
}

} // verus!
