//! Validators and the context they run in.

use vstd::prelude::*;
use std::sync::Arc;
use std::sync::atomic::{AtomicBool, Ordering};
use crate::diagnostics::diagnostic::Diagnostic;
use crate::diagnostics::errors::{DiagnosticError, DiagnosticResult};
use crate::diagnostics::position::DiagnosticPosition;
use crate::diagnostics::range::DiagnosticRange;
use crate::diagnostics::rule::{Rule, meta_supports};
use crate::diagnostics::severity::DiagnosticLevel;
use crate::diagnostics::utils::diagnostic_id;
use crate::parser::{DiagnosticSeverity, LanguageId, ParseDiagnostic, SyntaxTree, TextRange};

verus! {

/// What a validation runs on: the source text, its language, the regions that
/// changed (empty means the whole document) and a cancellation signal.
pub struct ValidationContext<'a> {
    /// Full source text.
    pub source_text: &'a str,
    /// Language of the document.
    pub language: LanguageId,
    /// Modified regions for incremental validation (empty means full validation).
    pub dirty_regions: Vec<DiagnosticRange>,
    /// Cancellation signal that halts long-running validation.
    pub cancel_flag: Arc<AtomicBool>,
}

impl<'a> ValidationContext<'a> {
    /// A full-document context with a fresh, unset cancellation signal.
    pub fn new(source_text: &'a str, language: LanguageId) -> (r: Self)
        ensures
            r.source_text@ == source_text@,
            r.language == language,
            r.dirty_regions@.len() == 0,
    {
        ValidationContext {
            source_text,
            language,
            dirty_regions: Vec::new(),
            cancel_flag: Arc::new(AtomicBool::new(false)),
        }
    }

    /// Sets the dirty regions.
    pub fn with_dirty_regions(self, dirty: Vec<DiagnosticRange>) -> (r: Self)
        ensures
            r.source_text == self.source_text,
            r.language == self.language,
            r.dirty_regions@ == dirty@,
            r.cancel_flag == self.cancel_flag,
    {
        let mut s = self;
        s.dirty_regions = dirty;
        s
    }

    /// Sets the cancellation signal.
    pub fn with_cancel_flag(self, flag: Arc<AtomicBool>) -> (r: Self)
        ensures
            r.source_text == self.source_text,
            r.language == self.language,
            r.dirty_regions@ == self.dirty_regions@,
            r.cancel_flag == flag,
    {
        let mut s = self;
        s.cancel_flag = flag;
        s
    }

    /// Reads the cancellation signal. What it reads is whatever another holder of
    /// the signal last stored.
    pub fn is_cancelled(&self) -> (r: bool) {
        (*self.cancel_flag).load(Ordering::Relaxed)
    }

    /// Fails with `ValidationCancelled` when the signal is set.
    pub fn check_cancelled(&self) -> (r: DiagnosticResult<()>)
        ensures
            r is Err ==> r == Err::<(), DiagnosticError>(DiagnosticError::ValidationCancelled),
    {
        cancellation_outcome(self.is_cancelled())
    }
}

/// What a cancellation check answers once the signal has been read: an error when
/// it was set, success otherwise.
pub fn cancellation_outcome(cancelled: bool) -> (r: DiagnosticResult<()>)
    ensures
        r == (if cancelled {
            Err::<(), DiagnosticError>(DiagnosticError::ValidationCancelled)
        } else {
            Ok::<(), DiagnosticError>(())
        }),
{
    if cancelled {
        Err(DiagnosticError::ValidationCancelled)
    } else {
        Ok(())
    }
}

/// Every position in the tree's parse diagnostics has a line and column below the
/// largest `usize`, so that converting them to 1-based positions cannot overflow.
pub open spec fn tree_positions_fit(tree: &SyntaxTree) -> bool {
    forall|i: int|
        0 <= i < tree.diagnostics@.len() ==> {
            let r = #[trigger] tree.diagnostics@[i].range;
            r.start.line < usize::MAX && r.start.column < usize::MAX && r.end.line < usize::MAX
                && r.end.column < usize::MAX
        }
}

/// A validator for one language.
pub trait Validator {
    /// The language the validator reports: an implementation checked by Verus
    /// defines it, and `language` returns it.
    open spec fn spec_language(&self) -> LanguageId {
        vstd::pervasive::arbitrary()
    }

    /// `r` is what validating gives on a tree and a context over the source text,
    /// the language and the dirty regions.
    open spec fn validates_to(
        &self,
        tree: SyntaxTree,
        source: Seq<char>,
        lang: LanguageId,
        dirty: Seq<DiagnosticRange>,
        r: DiagnosticResult<Vec<Diagnostic>>,
    ) -> bool {
        vstd::pervasive::arbitrary()
    }

    /// The language this validator targets.
    fn language(&self) -> (r: LanguageId)
        ensures
            r == self.spec_language(),
    ;

    /// The validator's name.
    fn name(&self) -> &str;

    /// Validates a syntax tree and returns the diagnostics found.
    fn validate(&self, tree: &SyntaxTree, ctx: &ValidationContext) -> (r: DiagnosticResult<
        Vec<Diagnostic>,
    >)
        requires
            tree_positions_fit(tree),
        ensures
            self.validates_to(*tree, ctx.source_text@, ctx.language, ctx.dirty_regions@, r),
    ;
}

/// `found` holds what each rule gave on these inputs, in order: nothing for a rule
/// that does not apply to `lang`, an output its evaluation gives for one that does.
pub open spec fn rules_found(
    rules: Seq<Box<dyn Rule>>,
    tree: SyntaxTree,
    source: Seq<char>,
    lang: LanguageId,
    dirty: Seq<DiagnosticRange>,
    found: Seq<Vec<Diagnostic>>,
) -> bool {
    &&& found.len() == rules.len()
    &&& forall|i: int|
        0 <= i < rules.len() ==> if meta_supports(rules[i].spec_metadata().supported_languages@, lang) {
            rules[i].evaluates_to(tree, source, lang, dirty, Ok(#[trigger] found[i]))
        } else {
            found[i]@.len() == 0
        }
}

/// What running the rules in order gives on these inputs: the outputs of the rules
/// that apply, one after the other; or cancellation, or an error the evaluation of
/// a rule that applies gives.
pub open spec fn rules_outcome(
    rules: Seq<Box<dyn Rule>>,
    tree: SyntaxTree,
    source: Seq<char>,
    lang: LanguageId,
    dirty: Seq<DiagnosticRange>,
    r: DiagnosticResult<Vec<Diagnostic>>,
) -> bool {
    &&& (r matches Ok(v) ==> exists|found: Seq<Vec<Diagnostic>>|
        rules_found(rules, tree, source, lang, dirty, found) && v@ == concat_found(found))
    &&& (r matches Err(e) ==> e == DiagnosticError::ValidationCancelled || exists|i: int|
        0 <= i < rules.len() && meta_supports(rules[i].spec_metadata().supported_languages@, lang)
            && #[trigger] rules[i].evaluates_to(tree, source, lang, dirty, Err(e)))
    &&& rules.len() == 0 ==> (r matches Ok(v) && v@.len() == 0)
}

/// A validator that runs a list of rules in order.
pub struct GenericRuleValidator {
    name: String,
    language: LanguageId,
    rules: Vec<Box<dyn Rule>>,
}

impl GenericRuleValidator {
    /// Creates a rule-based validator.
    pub fn new(name: &str, language: LanguageId, rules: Vec<Box<dyn Rule>>) -> (r: Self)
        ensures
            r.name_spec() == name@,
            r.language_spec() == language,
            r.rule_count() == rules@.len(),
            r.rules_spec() == rules@,
    {
        GenericRuleValidator { name: name.to_owned(), language, rules }
    }

    /// The validator's name.
    pub closed spec fn name_spec(&self) -> Seq<char> {
        self.name@
    }

    /// The validator's language.
    pub closed spec fn language_spec(&self) -> LanguageId {
        self.language
    }

    /// The number of rules the validator runs.
    pub closed spec fn rule_count(&self) -> nat {
        self.rules@.len()
    }

    /// The rules the validator runs, in order.
    pub closed spec fn rules_spec(&self) -> Seq<Box<dyn Rule>> {
        self.rules@
    }
}

impl Validator for GenericRuleValidator {
    open spec fn spec_language(&self) -> LanguageId {
        self.language_spec()
    }

    open spec fn validates_to(
        &self,
        tree: SyntaxTree,
        source: Seq<char>,
        lang: LanguageId,
        dirty: Seq<DiagnosticRange>,
        r: DiagnosticResult<Vec<Diagnostic>>,
    ) -> bool {
        rules_outcome(self.rules_spec(), tree, source, lang, dirty, r)
    }

    fn language(&self) -> (r: LanguageId)
        ensures
            r == self.language_spec(),
    {
        self.language
    }

    fn name(&self) -> (r: &str)
        ensures
            r@ == self.name_spec(),
    {
        self.name.as_str()
    }

    /// Runs each rule that reports support for the context's language, in order,
    /// checking for cancellation before each; the first error ends the run. A rule
    /// that does not apply contributes nothing; what the rules found is joined by
    /// `concat_outputs`.
    fn validate(&self, tree: &SyntaxTree, ctx: &ValidationContext) -> (r: DiagnosticResult<
        Vec<Diagnostic>,
    >)
        ensures
            rules_outcome(self.rules_spec(), *tree, ctx.source_text@, ctx.language, ctx.dirty_regions@, r),
            r is Err ==> self.rule_count() > 0,
    {
        let ghost rules = self.rules@;
        let ghost source = ctx.source_text@;
        let ghost dirty = ctx.dirty_regions@;
        let mut outputs: Vec<Vec<Diagnostic>> = Vec::new();
        let mut i: usize = 0;
        while i < self.rules.len()
            invariant
                i <= self.rules.len(),
                rules == self.rules@,
                source == ctx.source_text@,
                dirty == ctx.dirty_regions@,
                outputs@.len() == i,
                forall|j: int|
                    0 <= j < i ==> if meta_supports(rules[j].spec_metadata().supported_languages@, ctx.language) {
                        rules[j].evaluates_to(*tree, source, ctx.language, dirty, Ok(#[trigger] outputs@[j]))
                    } else {
                        outputs@[j]@.len() == 0
                    },
            decreases self.rules.len() - i,
        {
            match ctx.check_cancelled() {
                Err(e) => {
                    return Err(e);
                },
                Ok(()) => {},
            }
            let rule = &self.rules[i];
            assert(*rule == rules[i as int]);
            if rule.supports_language(ctx.language) {
                match rule.evaluate(tree, ctx) {
                    Err(e) => {
                        assert(rules[i as int].evaluates_to(*tree, source, ctx.language, dirty, Err(e)));
                        return Err(e);
                    },
                    Ok(found) => {
                        outputs.push(found);
                    },
                }
            } else {
                outputs.push(Vec::new());
            }
            i = i + 1;
        }
        proof {
            if outputs@.len() == 0 {
                assert(concat_found(outputs@) == Seq::<Diagnostic>::empty());
            }
            assert(rules_found(rules, *tree, source, ctx.language, dirty, outputs@));
        }
        Ok(concat_outputs(outputs))
    }
}

/// The diagnostics of several outputs, one output after the other.
pub open spec fn concat_found(found: Seq<Vec<Diagnostic>>) -> Seq<Diagnostic>
    decreases found.len(),
{
    if found.len() == 0 {
        Seq::empty()
    } else {
        concat_found(found.drop_last()) + found.last()@
    }
}

/// Joins the diagnostics of several outputs, in order.
pub fn concat_outputs(outputs: Vec<Vec<Diagnostic>>) -> (r: Vec<Diagnostic>)
    ensures
        r@ == concat_found(outputs@),
{
    let ghost whole = outputs@;
    let mut rest = outputs;
    let mut out: Vec<Diagnostic> = Vec::new();
    let ghost mut i: int = 0;
    while rest.len() > 0
        invariant
            whole == outputs@,
            i + rest@.len() == whole.len(),
            0 <= i,
            rest@ == whole.skip(i),
            out@ == concat_found(whole.take(i)),
        decreases rest.len(),
    {
        let ghost before = rest@;
        let mut item = rest.remove(0);
        assert(item == whole[i]);
        assert(rest@ =~= whole.skip(i + 1));
        assert(whole.take(i + 1).drop_last() =~= whole.take(i));
        out.append(&mut item);
        proof {
            i = i + 1;
        }
    }
    assert(whole.take(i) =~= whole);
    out
}

/// The diagnostic level of a parse diagnostic's severity.
pub open spec fn level_of(s: DiagnosticSeverity) -> DiagnosticLevel {
    match s {
        DiagnosticSeverity::Error => DiagnosticLevel::Error,
        DiagnosticSeverity::Warning => DiagnosticLevel::Warning,
        DiagnosticSeverity::Information => DiagnosticLevel::Information,
        DiagnosticSeverity::Hint => DiagnosticLevel::Hint,
    }
}

/// A 0-based parser position as a 1-based diagnostic position.
pub open spec fn one_based(p: crate::parser::Position) -> DiagnosticPosition {
    DiagnosticPosition {
        line: (p.line + 1) as usize,
        column: (p.column + 1) as usize,
        byte_offset: p.byte_offset,
    }
}

/// A parse range as a diagnostic range.
pub open spec fn range_of(r: TextRange) -> DiagnosticRange {
    DiagnosticRange { start: one_based(r.start), end: one_based(r.end) }
}

/// `d` is the diagnostic made of the parse diagnostic `p` in a document of language `lang`.
pub open spec fn converted_from(d: Diagnostic, p: ParseDiagnostic, lang: LanguageId) -> bool {
    let range = range_of(p.range);
    &&& d.severity == level_of(p.severity)
    &&& d.message@ == p.message@
    &&& d.range == range
    &&& d.line == range.start.line
    &&& d.column == range.start.column
    &&& d.rule_name@ == p.source@
    &&& d.language == lang
    &&& d.id@ == diagnostic_id(p.source@, range.start.line, range.start.column, p.message@)
    &&& d.description is None
    &&& d.quick_fixes@.len() == 0
    &&& d.documentation_link is None
}

/// The validator that reports the parser's own diagnostics.
#[derive(Debug, Default, Clone, Copy)]
pub struct CoreSyntaxValidator;

/// What the parser-diagnostics validator gives on a tree: cancellation, or the
/// tree's parse diagnostics converted in order.
pub open spec fn syntax_outcome(tree: SyntaxTree, r: DiagnosticResult<Vec<Diagnostic>>) -> bool {
    &&& (r is Err ==> r == Err::<Vec<Diagnostic>, DiagnosticError>(DiagnosticError::ValidationCancelled))
    &&& (r matches Ok(v) ==> v@.len() == tree.diagnostics@.len() && forall|i: int|
        0 <= i < v@.len() ==> converted_from(#[trigger] v@[i], tree.diagnostics@[i], tree.language))
}

impl Validator for CoreSyntaxValidator {
    open spec fn spec_language(&self) -> LanguageId {
        LanguageId::PlainText
    }

    open spec fn validates_to(
        &self,
        tree: SyntaxTree,
        source: Seq<char>,
        lang: LanguageId,
        dirty: Seq<DiagnosticRange>,
        r: DiagnosticResult<Vec<Diagnostic>>,
    ) -> bool {
        syntax_outcome(tree, r)
    }

    fn language(&self) -> (r: LanguageId)
        ensures
            r == LanguageId::PlainText,
    {
        LanguageId::PlainText
    }

    fn name(&self) -> (r: &str)
        ensures
            r@ == "CoreSyntaxValidator"@,
    {
        "CoreSyntaxValidator"
    }

    /// Converts every parse diagnostic of the tree into a diagnostic, in order.
    fn validate(&self, tree: &SyntaxTree, ctx: &ValidationContext) -> (r: DiagnosticResult<
        Vec<Diagnostic>,
    >)
        ensures
            r is Err ==> r == Err::<Vec<Diagnostic>, DiagnosticError>(
                DiagnosticError::ValidationCancelled,
            ),
            r matches Ok(v) ==> v@.len() == tree.diagnostics@.len() && forall|i: int|
                0 <= i < v@.len() ==> converted_from(
                    #[trigger] v@[i],
                    tree.diagnostics@[i],
                    tree.language,
                ),
    {
        match ctx.check_cancelled() {
            Err(e) => {
                return Err(e);
            },
            Ok(()) => {},
        }
        let mut diagnostics: Vec<Diagnostic> = Vec::new();
        let mut i: usize = 0;
        while i < tree.diagnostics.len()
            invariant
                i <= tree.diagnostics.len(),
                tree_positions_fit(tree),
                diagnostics@.len() == i,
                forall|j: int|
                    0 <= j < i ==> converted_from(
                        #[trigger] diagnostics@[j],
                        tree.diagnostics@[j],
                        tree.language,
                    ),
            decreases tree.diagnostics.len() - i,
        {
            let p = &tree.diagnostics[i];
            assert(tree.diagnostics@[i as int] == *p);
            let range = DiagnosticRange::from_parser(p.range);
            let level = match p.severity {
                DiagnosticSeverity::Error => DiagnosticLevel::Error,
                DiagnosticSeverity::Warning => DiagnosticLevel::Warning,
                DiagnosticSeverity::Information => DiagnosticLevel::Information,
                DiagnosticSeverity::Hint => DiagnosticLevel::Hint,
            };
            let d = Diagnostic::new(
                level,
                p.message.as_str(),
                range,
                p.source.as_str(),
                tree.language,
            );
            diagnostics.push(d);
            i = i + 1;
        }
        Ok(diagnostics)
    }
}

} // verus!
