//! Validation rules: metadata, categories, priorities and configuration.

use vstd::prelude::*;
use std::collections::HashMap;
use crate::diagnostics::diagnostic::Diagnostic;
use crate::diagnostics::range::DiagnosticRange;
use crate::diagnostics::errors::DiagnosticResult;
use crate::diagnostics::severity::DiagnosticLevel;
use crate::diagnostics::validator::ValidationContext;
use crate::parser::{LanguageId, SyntaxTree};
use crate::text::{concat_strs, str_eq};

verus! {

/// Categorizes validation rules according to domain purpose.
#[derive(Debug, Clone, PartialEq, Eq, Hash)]
pub enum RuleCategory {
    /// Pure syntax structure and grammar validation.
    Syntax,
    /// Security flaws, permissions, credentials, and vulnerability checks.
    Security,
    /// Resource usage, efficiency, and speed bottlenecks.
    Performance,
    /// Formatting, naming conventions, and readability rules.
    Style,
    /// Infrastructure and language best practice conventions.
    BestPractice,
    /// User-defined or custom plugin validation category.
    Custom(String),
}

/// Two categories are the same: the same variant, and for custom ones the same name.
pub open spec fn category_same(a: RuleCategory, b: RuleCategory) -> bool {
    match (a, b) {
        (RuleCategory::Custom(x), RuleCategory::Custom(y)) => x@ == y@,
        (RuleCategory::Custom(_), _) => false,
        (_, RuleCategory::Custom(_)) => false,
        _ => a == b,
    }
}

/// The displayed name of a category.
pub open spec fn category_text(c: RuleCategory) -> Seq<char> {
    match c {
        RuleCategory::Syntax => "Syntax"@,
        RuleCategory::Security => "Security"@,
        RuleCategory::Performance => "Performance"@,
        RuleCategory::Style => "Style"@,
        RuleCategory::BestPractice => "BestPractice"@,
        RuleCategory::Custom(name) => "Custom("@ + name@ + ")"@,
    }
}

impl RuleCategory {
    /// True when the two categories are the same.
    pub fn same_as(&self, other: &RuleCategory) -> (r: bool)
        ensures
            r == category_same(*self, *other),
    {
        match (self, other) {
            (RuleCategory::Custom(x), RuleCategory::Custom(y)) => str_eq(x.as_str(), y.as_str()),
            (RuleCategory::Syntax, RuleCategory::Syntax) => true,
            (RuleCategory::Security, RuleCategory::Security) => true,
            (RuleCategory::Performance, RuleCategory::Performance) => true,
            (RuleCategory::Style, RuleCategory::Style) => true,
            (RuleCategory::BestPractice, RuleCategory::BestPractice) => true,
            _ => false,
        }
    }

    /// The displayed name of the category.
    pub fn to_text(&self) -> (r: String)
        ensures
            r@ == category_text(*self),
    {
        match self {
            RuleCategory::Syntax => "Syntax".to_owned(),
            RuleCategory::Security => "Security".to_owned(),
            RuleCategory::Performance => "Performance".to_owned(),
            RuleCategory::Style => "Style".to_owned(),
            RuleCategory::BestPractice => "BestPractice".to_owned(),
            RuleCategory::Custom(name) => {
                let mut s = concat_strs("Custom(", name.as_str());
                s.append(")");
                s
            },
        }
    }

    /// A copy of this category.
    pub fn duplicate(&self) -> (r: Self)
        ensures
            r == *self,
    {
        match self {
            RuleCategory::Syntax => RuleCategory::Syntax,
            RuleCategory::Security => RuleCategory::Security,
            RuleCategory::Performance => RuleCategory::Performance,
            RuleCategory::Style => RuleCategory::Style,
            RuleCategory::BestPractice => RuleCategory::BestPractice,
            RuleCategory::Custom(name) => RuleCategory::Custom(name.clone()),
        }
    }
}

/// Execution priority level for ordering rule evaluations.
#[derive(Debug, Clone, Copy, PartialEq, Eq, Structural, PartialOrd, Ord, Hash)]
pub enum RulePriority {
    /// Informational or low priority checks.
    Low,
    /// Standard rule execution priority.
    Medium,
    /// High priority rule evaluated before standard rules.
    High,
    /// Critical priority rule (e.g. core syntax errors) evaluated first.
    Critical,
}

/// The rank of a priority: 0 for `Low` up to 3 for `Critical`.
pub open spec fn priority_rank(p: RulePriority) -> nat {
    match p {
        RulePriority::Low => 0,
        RulePriority::Medium => 1,
        RulePriority::High => 2,
        RulePriority::Critical => 3,
    }
}

/// Comprehensive metadata describing a validation rule.
#[derive(Debug, Clone, PartialEq, Eq)]
pub struct RuleMetadata {
    /// Unique rule identifier (e.g. "GIC-SEC-001").
    pub id: String,
    /// Human-readable rule name.
    pub name: String,
    /// What the rule checks and why.
    pub description: String,
    /// Rule domain category.
    pub category: RuleCategory,
    /// Rule priority.
    pub priority: RulePriority,
    /// Diagnostic level produced when the rule fails.
    pub default_level: DiagnosticLevel,
    /// Languages the rule applies to (empty means all).
    pub supported_languages: Vec<LanguageId>,
    /// Optional URL of online documentation.
    pub documentation_url: Option<String>,
}

/// True when metadata admits a language: no languages listed, or the language listed.
pub open spec fn meta_supports(langs: Seq<LanguageId>, lang: LanguageId) -> bool {
    langs.len() == 0 || langs.contains(lang)
}

/// Whether a rule with these supported languages applies to `lang`.
pub fn rule_supports_language(meta: &RuleMetadata, lang: LanguageId) -> (r: bool)
    ensures
        r == meta_supports(meta.supported_languages@, lang),
{
    let langs = &meta.supported_languages;
    if langs.len() == 0 {
        return true;
    }
    let mut i: usize = 0;
    while i < langs.len()
        invariant
            i <= langs.len(),
            langs@ == meta.supported_languages@,
            forall|j: int| 0 <= j < i ==> langs@[j] != lang,
        decreases langs.len() - i,
    {
        if langs[i].same_as(&lang) {
            assert(meta.supported_languages@[i as int] == lang);
            return true;
        }
        i = i + 1;
    }
    false
}

impl RuleMetadata {
    /// Creates metadata with an empty description, `Medium` priority, all
    /// languages and no documentation URL.
    pub fn new(id: &str, name: &str, category: RuleCategory, default_level: DiagnosticLevel) -> (r:
        Self)
        ensures
            r.id@ == id@,
            r.name@ == name@,
            r.description@ == Seq::<char>::empty(),
            r.category == category,
            r.priority == RulePriority::Medium,
            r.default_level == default_level,
            r.supported_languages@.len() == 0,
            r.documentation_url is None,
    {
        RuleMetadata {
            id: id.to_owned(),
            name: name.to_owned(),
            description: String::new(),
            category,
            priority: RulePriority::Medium,
            default_level,
            supported_languages: Vec::new(),
            documentation_url: None,
        }
    }

    /// Sets the description.
    pub fn with_description(self, desc: &str) -> (r: Self)
        ensures
            r.description@ == desc@,
            r == (RuleMetadata { description: r.description, ..self }),
    {
        let mut s = self;
        s.description = desc.to_owned();
        s
    }

    /// Sets the priority.
    pub fn with_priority(self, priority: RulePriority) -> (r: Self)
        ensures
            r == (RuleMetadata { priority, ..self }),
    {
        let mut s = self;
        s.priority = priority;
        s
    }

    /// Restricts the rule to the given languages.
    pub fn with_languages(self, languages: Vec<LanguageId>) -> (r: Self)
        ensures
            r == (RuleMetadata { supported_languages: languages, ..self }),
    {
        let mut s = self;
        s.supported_languages = languages;
        s
    }

    /// Sets the documentation URL.
    pub fn with_doc_url(self, url: &str) -> (r: Self)
        ensures
            r.documentation_url matches Some(u) && u@ == url@,
            r == (RuleMetadata { documentation_url: r.documentation_url, ..self }),
    {
        let mut s = self;
        s.documentation_url = Some(url.to_owned());
        s
    }
}

/// Runtime configuration of a rule.
#[derive(Debug, Clone, PartialEq, Eq)]
pub struct RuleConfig {
    /// Whether the rule is enabled.
    pub enabled: bool,
    /// Optional priority override.
    pub priority_override: Option<RulePriority>,
    /// Optional diagnostic level override.
    pub severity_override: Option<DiagnosticLevel>,
    /// Key-value parameters for rule customization.
    pub options: HashMap<String, String>,
}

impl Default for RuleConfig {
    fn default() -> (r: Self)
        ensures
            r.enabled,
            r.priority_override is None,
            r.severity_override is None,
            r.options@ == Map::<String, String>::empty(),
    {
        RuleConfig {
            enabled: true,
            priority_override: None,
            severity_override: None,
            options: HashMap::new(),
        }
    }
}

impl RuleConfig {
    /// An enabled configuration without overrides.
    pub fn enabled() -> (r: Self)
        ensures
            r.enabled,
            r.priority_override is None,
            r.severity_override is None,
            r.options@ == Map::<String, String>::empty(),
    {
        Self::default()
    }

    /// A disabled configuration without overrides.
    pub fn disabled() -> (r: Self)
        ensures
            !r.enabled,
            r.priority_override is None,
            r.severity_override is None,
            r.options@ == Map::<String, String>::empty(),
    {
        let mut c = Self::default();
        c.enabled = false;
        c
    }

    /// The severity override, or the given default.
    pub fn effective_severity(&self, default: DiagnosticLevel) -> (r: DiagnosticLevel)
        ensures
            r == (match self.severity_override {
                Some(s) => s,
                None => default,
            }),
    {
        match self.severity_override {
            Some(s) => s,
            None => default,
        }
    }

    /// The priority override, or the given default.
    pub fn effective_priority(&self, default: RulePriority) -> (r: RulePriority)
        ensures
            r == (match self.priority_override {
                Some(p) => p,
                None => default,
            }),
    {
        match self.priority_override {
            Some(p) => p,
            None => default,
        }
    }
}

/// A validation rule, implemented by users of the engine.
pub trait Rule {
    /// The metadata the rule reports: an implementation checked by Verus defines it,
    /// and `metadata` returns it.
    open spec fn spec_metadata(&self) -> RuleMetadata {
        vstd::pervasive::arbitrary()
    }

    /// `r` is what evaluating the rule gives on a tree and a context over the
    /// source text, the language and the dirty regions.
    open spec fn evaluates_to(
        &self,
        tree: SyntaxTree,
        source: Seq<char>,
        lang: LanguageId,
        dirty: Seq<DiagnosticRange>,
        r: DiagnosticResult<Vec<Diagnostic>>,
    ) -> bool {
        vstd::pervasive::arbitrary()
    }

    /// The rule's metadata.
    fn metadata(&self) -> (r: &RuleMetadata)
        ensures
            *r == self.spec_metadata(),
    ;

    /// Evaluates the rule against a parsed syntax tree and validation context.
    fn evaluate(&self, tree: &SyntaxTree, ctx: &ValidationContext) -> (r: DiagnosticResult<
        Vec<Diagnostic>,
    >)
        ensures
            self.evaluates_to(*tree, ctx.source_text@, ctx.language, ctx.dirty_regions@, r),
    ;

    /// Whether the rule applies to the language: its metadata lists no languages or
    /// lists this one. An implementation that replaces this method keeps that
    /// meaning.
    fn supports_language(&self, lang: LanguageId) -> (r: bool)
        ensures
            r == meta_supports(self.spec_metadata().supported_languages@, lang),
    {
        rule_supports_language(self.metadata(), lang)
    }
}

} // verus!
