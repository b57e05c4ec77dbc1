use gic_core::diagnostics::cache::DiagnosticCache;
use gic_core::diagnostics::diagnostic::Diagnostic;
use gic_core::diagnostics::engine::{combine_results, ValidationEngine};
use gic_core::diagnostics::errors::{DiagnosticError, DiagnosticResult};
use gic_core::diagnostics::formatter::{join_format_results, DiagnosticFormatter, PlainTextFormatter, PrettyTerminalFormatter};
use gic_core::diagnostics::position::DiagnosticPosition;
use gic_core::diagnostics::quick_fix::{QuickFix, QuickFixKind};
use gic_core::diagnostics::range::DiagnosticRange;
use gic_core::diagnostics::registry::{RuleLoader, RuleRegistry, ValidatorRegistry};
use gic_core::diagnostics::rule::{Rule, RuleCategory, RuleConfig, RuleMetadata, RulePriority};
use gic_core::diagnostics::severity::DiagnosticLevel;
use gic_core::diagnostics::utils::{generate_diagnostic_id, offset_to_position, offsets_to_range};
use gic_core::diagnostics::validator::{cancellation_outcome, concat_outputs, CoreSyntaxValidator, GenericRuleValidator, ValidationContext, Validator};
use gic_core::parser::{
    LanguageId, NodeKind, ParseDiagnostic, Position as ParsePos, SyntaxNode, SyntaxTree, TextRange as ParseRange,
};
use std::sync::atomic::AtomicBool;
use std::sync::Arc;

fn empty_tree(hash: u64, len: usize) -> SyntaxTree {
    let root = SyntaxNode::new(NodeKind::Document, "document", ParseRange::empty(ParsePos::zero()), Vec::new());
    SyntaxTree::new(LanguageId::Yaml, root, Vec::new(), Vec::new(), hash, len)
}

fn error_diag(rule: &str) -> Diagnostic {
    let p1 = DiagnosticPosition::new(1, 1, 0);
    let range = DiagnosticRange::new(p1, p1);
    Diagnostic::new(DiagnosticLevel::Error, "Error", range, rule, LanguageId::Yaml)
}

#[test]
fn test_diagnostic_cache_operations() {
    let mut cache = DiagnosticCache::new(5);
    let diag = error_diag("Rule1");

    cache.put("doc1", 12345, vec![diag]);
    assert_eq!(cache.len(), 1);
    assert!(cache.get("doc1", 12345).is_some());
    assert!(cache.get("doc1", 99999).is_none());

    cache.invalidate("doc1");
    assert!(cache.get("doc1", 12345).is_none());
}

#[test]
fn test_cache_hit_and_eviction() {
    let mut cache = DiagnosticCache::new(2);
    let diag = error_diag("Rule");

    cache.put("doc1", 100, vec![diag.clone()]);
    cache.put("doc2", 200, vec![diag.clone()]);
    assert_eq!(cache.len(), 2);

    cache.put("doc3", 300, vec![diag]);
    assert_eq!(cache.len(), 2);

    assert!(cache.get("doc2", 200).is_some());
    assert!(cache.get("doc3", 300).is_some());
    assert!(cache.get("doc1", 100).is_none());
}

#[test]
fn cache_replacing_a_document_keeps_one_entry() {
    let mut cache = DiagnosticCache::new(2);
    cache.put("doc1", 1, vec![error_diag("A")]);
    cache.put("doc1", 2, vec![error_diag("B"), error_diag("C")]);
    assert_eq!(cache.len(), 1);
    assert!(cache.get("doc1", 1).is_none());
    assert_eq!(cache.get("doc1", 2).unwrap().len(), 2);
    cache.clear();
    assert!(cache.is_empty());
}

#[test]
fn test_dirty_region_filtering() {
    let cache = DiagnosticCache::new(10);

    let p1 = DiagnosticPosition::new(1, 1, 0);
    let p2 = DiagnosticPosition::new(1, 5, 4);
    let r1 = DiagnosticRange::new(p1, p2);

    let p3 = DiagnosticPosition::new(10, 1, 100);
    let p4 = DiagnosticPosition::new(10, 5, 104);
    let r2 = DiagnosticRange::new(p3, p4);

    let diag1 = Diagnostic::new(DiagnosticLevel::Warning, "Warn 1", r1, "Rule1", LanguageId::Yaml);
    let diag2 = Diagnostic::new(DiagnosticLevel::Warning, "Warn 2", r2, "Rule2", LanguageId::Yaml);

    let mut mutable_cache = cache;
    mutable_cache.put("doc_dirty", 555, vec![diag1, diag2]);

    let dirty = vec![r1];
    let retained = mutable_cache.filter_dirty_diagnostics("doc_dirty", &dirty).unwrap();

    assert_eq!(retained.len(), 1);
    assert_eq!(retained[0].rule_name, "Rule2");
}

#[test]
fn dirty_filtering_of_unknown_document_is_none() {
    let cache = DiagnosticCache::new(3);
    assert!(cache.filter_dirty_diagnostics("missing", &[]).is_none());
}

#[test]
fn test_diagnostic_object_construction() {
    let p1 = DiagnosticPosition::new(5, 12, 45);
    let p2 = DiagnosticPosition::new(5, 20, 53);
    let range = DiagnosticRange::new(p1, p2);

    let diag = Diagnostic::new(
        DiagnosticLevel::Security,
        "Exposed sensitive secret key",
        range,
        "SecNoHardcodedSecrets",
        LanguageId::Yaml,
    )
    .with_description("Secrets should never be checked into version control.")
    .with_documentation_link("https://gic.dev/docs/rules/sec-no-hardcoded-secrets");

    assert_eq!(diag.line, 5);
    assert_eq!(diag.column, 12);
    assert_eq!(diag.severity, DiagnosticLevel::Security);
    assert_eq!(diag.rule_name, "SecNoHardcodedSecrets");
    assert_eq!(diag.language, LanguageId::Yaml);
    assert!(diag.description.is_some());
    assert!(diag.documentation_link.is_some());
    assert!(diag.timestamp > 0);
}

#[test]
fn test_engine_validation_flow() {
    let mut engine = ValidationEngine::new();
    let tree = empty_tree(987654, 100);

    let diags = engine.validate("test_doc.yaml", &tree, "key: value\n", None).unwrap();
    assert!(diags.is_empty());

    let metrics = engine.metrics();
    assert_eq!(metrics.total_validations, 1);
    assert_eq!(metrics.cache_hits, 0);

    let cached_diags = engine.validate("test_doc.yaml", &tree, "key: value\n", None).unwrap();
    assert!(cached_diags.is_empty());
    assert_eq!(engine.metrics().cache_hits, 1);
}

#[test]
fn test_error_display() {
    let err = DiagnosticError::ValidatorNotFound("yaml".to_string());
    assert_eq!(err.to_message(), "Validator not found for language/type: 'yaml'");

    let err2 = DiagnosticError::ValidationCancelled;
    assert_eq!(err2.to_message(), "Validation operation was cancelled");
}

#[test]
fn test_formatters() {
    let p1 = DiagnosticPosition::new(1, 4, 3);
    let range = DiagnosticRange::new(p1, p1);
    let diag = Diagnostic::new(DiagnosticLevel::Error, "Syntax error found", range, "YamlValidSyntax", LanguageId::Yaml);

    let plain = PlainTextFormatter.format(&diag).unwrap();
    assert_eq!(plain, "1:4: [ERROR] [YamlValidSyntax] Syntax error found");

    let pretty = PrettyTerminalFormatter.format(&diag).unwrap();
    assert!(pretty.contains("✖ ERROR"));
}

#[test]
fn formatters_format_all_joins_with_newlines() {
    let p = DiagnosticPosition::new(2, 3, 7);
    let range = DiagnosticRange::new(p, p);
    let a = Diagnostic::new(DiagnosticLevel::Warning, "first", range, "R1", LanguageId::Yaml);
    let b = Diagnostic::new(DiagnosticLevel::Hint, "second", range, "R2", LanguageId::Yaml);
    let all = PlainTextFormatter.format_all(&[a, b]).unwrap();
    assert_eq!(all, "2:3: [WARN] [R1] first\n2:3: [HINT] [R2] second");
}

#[test]
fn pretty_formatter_exact_text() {
    let p = DiagnosticPosition::new(3, 2, 10);
    let range = DiagnosticRange::new(p, p);
    let diag = Diagnostic::new(DiagnosticLevel::Warning, "msg", range, "Rule", LanguageId::Dockerfile)
        .with_description("why")
        .with_quick_fixes(vec![QuickFix::delete("Drop it", range)]);
    let pretty = PrettyTerminalFormatter.format(&diag).unwrap();
    assert_eq!(
        pretty,
        "⚠ WARN [Dockerfile] Line 3, Col 2: msg\n  └─ Rule: Rule\n  └─ Info: why\n  └─ Quick Fixes (1 available):\n      • Drop it"
    );
}

#[test]
fn test_diagnostic_position_conversions() {
    let p1 = DiagnosticPosition::new(10, 5, 120);
    assert_eq!(p1.zero_based_line(), 9);
    assert_eq!(p1.zero_based_column(), 4);
    assert_eq!(p1.to_text(), "10:5");

    let parser_pos = ParsePos::new(0, 0, 0);
    let diag_pos: DiagnosticPosition = DiagnosticPosition::from_parser(parser_pos);
    assert_eq!(diag_pos.line, 1);
    assert_eq!(diag_pos.column, 1);
}

#[test]
fn position_round_trip_through_parser() {
    let p = DiagnosticPosition::new(7, 3, 40);
    let back = DiagnosticPosition::from_parser(p.to_parser());
    assert_eq!(back, p);
    assert_eq!(DiagnosticPosition::new(0, 0, 5), DiagnosticPosition::new(1, 1, 5));
}

#[test]
fn test_quick_fix_creation() {
    let p1 = DiagnosticPosition::new(1, 1, 0);
    let p2 = DiagnosticPosition::new(1, 5, 4);
    let range = DiagnosticRange::new(p1, p2);

    let qf = QuickFix::replacement("Fix indentation", range, "    ");
    assert_eq!(qf.title, "Fix indentation");
    assert_eq!(qf.edits.len(), 1);
    assert_eq!(qf.edits[0].new_text, "    ");
    assert!(matches!(qf.kind, QuickFixKind::SuggestedReplacement { .. }));
}

#[test]
fn test_quick_fix_kinds_and_edits() {
    let p1 = DiagnosticPosition::new(1, 1, 0);
    let p2 = DiagnosticPosition::new(1, 4, 3);
    let range = DiagnosticRange::new(p1, p2);

    let qf_replace = QuickFix::replacement("Convert tabs to spaces", range, "  ").with_preferred(true);
    assert!(qf_replace.is_preferred);
    assert_eq!(qf_replace.edits.len(), 1);
    assert_eq!(qf_replace.edits[0].new_text, "  ");

    let qf_insert = QuickFix::insert("Add missing key", range, "version: '3'");
    assert!(matches!(qf_insert.kind, QuickFixKind::InsertText { .. }));

    let qf_delete = QuickFix::delete("Remove deprecated field", range);
    assert!(matches!(qf_delete.kind, QuickFixKind::DeleteText));
    assert_eq!(qf_delete.edits[0].new_text, "");

    let qf_future = QuickFix::future_autofix("Auto-format with AI", range, "ai_format_action");
    assert!(matches!(qf_future.kind, QuickFixKind::FutureAutoFix { .. }));
}

#[test]
fn test_diagnostic_range_operations() {
    let p1 = DiagnosticPosition::new(1, 1, 0);
    let p2 = DiagnosticPosition::new(1, 10, 9);
    let r1 = DiagnosticRange::new(p1, p2);

    assert_eq!(r1.byte_len(), 9);
    assert!(!r1.is_empty());
    assert!(r1.contains_position(DiagnosticPosition::new(1, 5, 4)));
    assert!(!r1.contains_position(DiagnosticPosition::new(2, 1, 10)));
}

#[test]
fn range_intersection_and_reversed_length() {
    let a = DiagnosticRange::new(DiagnosticPosition::new(1, 1, 0), DiagnosticPosition::new(2, 1, 10));
    let b = DiagnosticRange::new(DiagnosticPosition::new(2, 1, 10), DiagnosticPosition::new(3, 1, 20));
    let c = DiagnosticRange::new(DiagnosticPosition::new(1, 5, 4), DiagnosticPosition::new(1, 6, 5));
    assert!(!a.intersects(&b));
    assert!(a.intersects(&c));
    let reversed = DiagnosticRange::new(DiagnosticPosition::new(1, 9, 8), DiagnosticPosition::new(1, 2, 1));
    assert_eq!(reversed.byte_len(), 0);
    assert!(DiagnosticRange::point(DiagnosticPosition::zero()).is_empty());
}

struct TestRule {
    meta: RuleMetadata,
}

impl Rule for TestRule {
    fn metadata(&self) -> &RuleMetadata {
        &self.meta
    }

    fn evaluate(&self, _tree: &SyntaxTree, _ctx: &ValidationContext) -> DiagnosticResult<Vec<Diagnostic>> {
        Ok(Vec::new())
    }
}

#[test]
fn test_rule_and_validator_registries() {
    let mut rule_reg = RuleRegistry::new();
    let rule = TestRule {
        meta: RuleMetadata::new("R-01", "Rule 1", RuleCategory::Security, DiagnosticLevel::Error),
    };

    rule_reg.register(rule);
    assert!(rule_reg.get_rule("R-01").is_some());
    assert_eq!(rule_reg.get_rules_for_language(LanguageId::Yaml).len(), 1);

    rule_reg.set_enabled("R-01", false).unwrap();
    assert_eq!(rule_reg.get_rules_for_language(LanguageId::Yaml).len(), 0);
}

#[test]
fn set_enabled_on_unknown_rule_fails() {
    let mut rule_reg = RuleLoader::load_default_rules();
    assert_eq!(rule_reg.set_enabled("nope", true), Err(DiagnosticError::RuleNotFound("nope".to_string())));
}

#[test]
fn validator_registry_returns_language_and_global_validators() {
    let mut reg = ValidatorRegistry::new();
    reg.register(CoreSyntaxValidator);
    assert_eq!(reg.get_validators(LanguageId::PlainText).len(), 1);
    assert_eq!(reg.get_validators(LanguageId::Yaml).len(), 0);
    reg.register_global(CoreSyntaxValidator);
    assert_eq!(reg.get_validators(LanguageId::PlainText).len(), 2);
    assert_eq!(reg.get_validators(LanguageId::Yaml).len(), 1);
}

#[test]
fn test_rule_metadata_and_config() {
    let meta = RuleMetadata::new("GIC-001", "NoTabs", RuleCategory::Style, DiagnosticLevel::Warning)
        .with_priority(RulePriority::High)
        .with_languages(vec![LanguageId::Yaml, LanguageId::Dockerfile]);

    assert_eq!(meta.name, "NoTabs");
    assert_eq!(meta.priority, RulePriority::High);

    let mut config = RuleConfig::enabled();
    config.severity_override = Some(DiagnosticLevel::Error);

    assert_eq!(config.effective_severity(meta.default_level), DiagnosticLevel::Error);
}

#[test]
fn test_diagnostic_level_critical() {
    assert!(DiagnosticLevel::Error.is_critical());
    assert!(DiagnosticLevel::Security.is_critical());
    assert!(!DiagnosticLevel::Warning.is_critical());
    assert!(!DiagnosticLevel::Style.is_critical());
}

#[test]
fn test_diagnostic_level_display_and_tag() {
    assert_eq!(DiagnosticLevel::Error.tag(), "ERROR");
    assert_eq!(DiagnosticLevel::Performance.tag(), "PERF");
    assert_eq!(DiagnosticLevel::Security.to_text(), "SEC");
    assert_eq!(DiagnosticLevel::Hint.symbol(), "💡");
}

#[test]
fn test_generate_diagnostic_id() {
    let id1 = generate_diagnostic_id("NoTabIndent", 10, 2, "Tab found");
    let id2 = generate_diagnostic_id("NoTabIndent", 10, 2, "Tab found");
    assert_eq!(id1, id2);
    assert!(id1.starts_with("notabindent-"));
}

#[test]
fn diagnostic_id_has_eight_hex_digits() {
    let id = generate_diagnostic_id("My Rule", 1, 1, "m");
    let suffix = id.strip_prefix("my-rule-").unwrap();
    assert_eq!(suffix.len(), 8);
    assert!(suffix.chars().all(|c| c.is_ascii_hexdigit() && !c.is_ascii_uppercase()));
    assert_ne!(id, generate_diagnostic_id("My Rule", 1, 2, "m"));
}

#[test]
fn test_offset_to_position_multiline() {
    let text = "hello\nworld\nfoo";
    let pos1 = offset_to_position(text, 0);
    assert_eq!(pos1.line, 1);
    assert_eq!(pos1.column, 1);

    let pos2 = offset_to_position(text, 6);
    assert_eq!(pos2.line, 2);
    assert_eq!(pos2.column, 1);
}

#[test]
fn offsets_clamp_to_text_end() {
    let text = "ab\ncd";
    let p = offset_to_position(text, 100);
    assert_eq!((p.line, p.column, p.byte_offset), (2, 3, 5));
    let r = offsets_to_range(text, 1, 4);
    assert_eq!((r.start.line, r.start.column), (1, 2));
    assert_eq!((r.end.line, r.end.column), (2, 2));
}

#[test]
fn test_validation_context_cancellation() {
    let text = "sample text";
    let ctx = ValidationContext::new(text, LanguageId::Yaml);
    assert!(!ctx.is_cancelled());
    assert!(ctx.check_cancelled().is_ok());

    let cancel_flag = Arc::new(AtomicBool::new(true));
    let ctx_cancelled = ValidationContext::new(text, LanguageId::Yaml).with_cancel_flag(cancel_flag);
    assert!(ctx_cancelled.is_cancelled());
    assert_eq!(ctx_cancelled.check_cancelled(), Err(DiagnosticError::ValidationCancelled));
}

struct MockSecurityRule {
    meta: RuleMetadata,
}

impl MockSecurityRule {
    fn new() -> Self {
        Self {
            meta: RuleMetadata::new(
                "GIC-SEC-001",
                "NoHardcodedPasswords",
                RuleCategory::Security,
                DiagnosticLevel::Security,
            )
            .with_priority(RulePriority::High)
            .with_languages(vec![LanguageId::Yaml, LanguageId::Dockerfile]),
        }
    }
}

impl Rule for MockSecurityRule {
    fn metadata(&self) -> &RuleMetadata {
        &self.meta
    }

    fn evaluate(&self, _tree: &SyntaxTree, ctx: &ValidationContext) -> Result<Vec<Diagnostic>, DiagnosticError> {
        let mut diags = Vec::new();
        if ctx.source_text.contains("password: 123") {
            let p1 = DiagnosticPosition::new(1, 1, 0);
            let p2 = DiagnosticPosition::new(1, 13, 12);
            let range = DiagnosticRange::new(p1, p2);

            let d = Diagnostic::new(
                DiagnosticLevel::Security,
                "Hardcoded plaintext password detected",
                range,
                &self.meta.name,
                ctx.language,
            )
            .with_description("Secrets should be stored in environment variables or vault references.");

            diags.push(d);
        }
        Ok(diags)
    }
}

#[test]
fn test_engine_full_validation_cycle() {
    let mut engine = ValidationEngine::new();
    engine.rule_registry().register(MockSecurityRule::new());

    let tree = empty_tree(112233, 50);

    let source_bad = "password: 123\n";
    let diags = engine.validate("config.yaml", &tree, source_bad, None).unwrap();

    assert_eq!(diags.len(), 1);
    assert_eq!(diags[0].severity, DiagnosticLevel::Security);
    assert_eq!(diags[0].rule_name, "NoHardcodedPasswords");
    assert!(diags[0].description.is_some());

    let source_good = "password: ${ENV_PASS}\n";
    let tree_good = SyntaxTree::new(
        LanguageId::Yaml,
        SyntaxNode::new(NodeKind::Document, "doc", ParseRange::empty(ParsePos::zero()), Vec::new()),
        Vec::new(),
        Vec::new(),
        445566,
        50,
    );
    let diags_clean = engine.validate("config_good.yaml", &tree_good, source_good, None).unwrap();
    assert!(diags_clean.is_empty());
}

#[test]
fn test_engine_cancellation_signal() {
    let mut engine = ValidationEngine::new();
    engine.rule_registry().register(MockSecurityRule::new());

    let tree = empty_tree(778899, 50);

    let cancel_flag = Arc::new(AtomicBool::new(true));
    let result = engine.validate("cancel_test.yaml", &tree, "password: 123\n", Some(cancel_flag));

    assert_eq!(result, Err(DiagnosticError::ValidationCancelled));
}

#[test]
fn test_large_document_validation_performance() {
    let mut engine = ValidationEngine::new();

    let mut large_text = String::with_capacity(500_000);
    for i in 1..=10_000 {
        large_text.push_str(&format!("key_{}: value_{}\n", i, i));
    }

    let tree = empty_tree(777111, large_text.len());

    let start = std::time::Instant::now();
    let diags = engine.validate("large_file.yaml", &tree, &large_text, None).unwrap();
    let elapsed = start.elapsed();

    assert!(diags.is_empty());
    assert!(elapsed.as_millis() < 500, "Large document validation took too long: {} ms", elapsed.as_millis());
}

struct DummyRule {
    meta: RuleMetadata,
}

impl Rule for DummyRule {
    fn metadata(&self) -> &RuleMetadata {
        &self.meta
    }

    fn evaluate(&self, _tree: &SyntaxTree, _ctx: &ValidationContext) -> DiagnosticResult<Vec<Diagnostic>> {
        Ok(Vec::new())
    }
}

#[test]
fn test_rule_priority_sorting() {
    let mut reg = RuleRegistry::new();

    let rule_low = DummyRule {
        meta: RuleMetadata::new("R-LOW", "LowRule", RuleCategory::Style, DiagnosticLevel::Style)
            .with_priority(RulePriority::Low),
    };
    let rule_crit = DummyRule {
        meta: RuleMetadata::new("R-CRIT", "CritRule", RuleCategory::Security, DiagnosticLevel::Security)
            .with_priority(RulePriority::Critical),
    };
    let rule_med = DummyRule {
        meta: RuleMetadata::new("R-MED", "MedRule", RuleCategory::BestPractice, DiagnosticLevel::Warning)
            .with_priority(RulePriority::Medium),
    };

    reg.register(rule_low);
    reg.register(rule_crit);
    reg.register(rule_med);

    let active_rules = reg.get_rules_for_language(LanguageId::Yaml);
    assert_eq!(active_rules.len(), 3);
    assert_eq!(active_rules[0].metadata().id, "R-CRIT");
    assert_eq!(active_rules[1].metadata().id, "R-MED");
    assert_eq!(active_rules[2].metadata().id, "R-LOW");
}

#[test]
fn priority_override_reorders_rules() {
    let mut reg = RuleRegistry::new();
    reg.register(DummyRule {
        meta: RuleMetadata::new("A", "A", RuleCategory::Style, DiagnosticLevel::Style).with_priority(RulePriority::High),
    });
    reg.register(DummyRule {
        meta: RuleMetadata::new("B", "B", RuleCategory::Style, DiagnosticLevel::Style).with_priority(RulePriority::Low),
    });
    let mut cfg = RuleConfig::enabled();
    cfg.priority_override = Some(RulePriority::Critical);
    reg.set_config("B", cfg);
    let rules = reg.get_rules_for_language(LanguageId::Yaml);
    assert_eq!(rules[0].metadata().id, "B");
    assert_eq!(rules[1].metadata().id, "A");
}

#[test]
fn test_rule_enable_disable_and_category() {
    let mut reg = RuleRegistry::new();

    let rule_sec = DummyRule {
        meta: RuleMetadata::new("SEC-01", "SecRule", RuleCategory::Security, DiagnosticLevel::Security),
    };
    let rule_style = DummyRule {
        meta: RuleMetadata::new("STYLE-01", "StyleRule", RuleCategory::Style, DiagnosticLevel::Hint),
    };

    reg.register(rule_sec);
    reg.register(rule_style);

    let sec_rules = reg.get_rules_by_category(&RuleCategory::Security);
    assert_eq!(sec_rules.len(), 1);
    assert_eq!(sec_rules[0].metadata().id, "SEC-01");

    reg.set_enabled("SEC-01", false).unwrap();
    let yaml_rules = reg.get_rules_for_language(LanguageId::Yaml);
    assert_eq!(yaml_rules.len(), 1);
    assert_eq!(yaml_rules[0].metadata().id, "STYLE-01");
}

trait PriorityTestExt {
    fn into_priority_override_test(&self) -> RulePriority;
}

impl PriorityTestExt for DiagnosticLevel {
    fn into_priority_override_test(&self) -> RulePriority {
        RulePriority::High
    }
}

#[test]
fn test_rule_config_overrides() {
    let meta = RuleMetadata::new("R-01", "Rule1", RuleCategory::Performance, DiagnosticLevel::Information)
        .with_priority(RulePriority::Low);

    let mut cfg = RuleConfig::enabled();
    cfg.severity_override = Some(DiagnosticLevel::Error);
    cfg.priority_override = Some(DiagnosticLevel::Security.into_priority_override_test());

    assert_eq!(cfg.effective_severity(meta.default_level), DiagnosticLevel::Error);
}

#[test]
fn test_core_syntax_validator() {
    let p_start = ParsePos::new(0, 0, 0);
    let p_end = ParsePos::new(0, 5, 5);
    let range = ParseRange::new(p_start, p_end);
    let p_diag = ParseDiagnostic::error(range, "Unexpected character ':'", "yaml-parser");

    let root = SyntaxNode::new(NodeKind::Document, "document", range, Vec::new());
    let tree = SyntaxTree::new(LanguageId::Yaml, root, Vec::new(), vec![p_diag], 12345, 10);

    let validator = CoreSyntaxValidator;
    let ctx = ValidationContext::new("foo: : bar", LanguageId::Yaml);
    let diags = validator.validate(&tree, &ctx).unwrap();

    assert_eq!(diags.len(), 1);
    assert_eq!(diags[0].message, "Unexpected character ':'");
    assert_eq!(diags[0].rule_name, "yaml-parser");
    assert_eq!(diags[0].line, 1);
    assert_eq!(diags[0].column, 1);
}

#[test]
fn cancellation_outcome_follows_the_signal() {
    assert_eq!(cancellation_outcome(true), Err(DiagnosticError::ValidationCancelled));
    assert_eq!(cancellation_outcome(false), Ok(()));
}

#[test]
fn format_all_of_nothing_is_empty() {
    assert_eq!(PlainTextFormatter.format_all(&[]), Ok(String::new()));
}

#[test]
fn rule_configs_start_without_options() {
    assert!(RuleConfig::disabled().options.is_empty());
    assert!(RuleConfig::enabled().options.is_empty());
    assert!(!RuleConfig::disabled().enabled);
}

#[test]
fn rule_validator_without_rules_finds_nothing() {
    let v = GenericRuleValidator::new("none", LanguageId::Yaml, Vec::new());
    let tree = empty_tree(1, 0);
    let ctx = ValidationContext::new("", LanguageId::Yaml);
    assert_eq!(v.validate(&tree, &ctx), Ok(Vec::new()));
}

#[test]
fn format_results_are_joined_or_the_first_error_returned() {
    let ok = vec![Ok("a".to_string()), Ok("".to_string()), Ok("c".to_string())];
    assert_eq!(join_format_results(ok), Ok("a\n\nc".to_string()));
    let bad = vec![Ok("a".to_string()), Err(DiagnosticError::ValidationCancelled), Err(DiagnosticError::RuleNotFound("x".to_string()))];
    assert_eq!(join_format_results(bad), Err(DiagnosticError::ValidationCancelled));
    assert_eq!(join_format_results(Vec::new()), Ok(String::new()));
}

#[test]
fn outputs_are_concatenated_and_repeats_dropped() {
    let a = error_diag("A");
    let b = error_diag("B");
    let flat = concat_outputs(vec![vec![a.clone(), b.clone()], Vec::new(), vec![b.clone()]]);
    assert_eq!(flat.len(), 3);
    assert_eq!(flat[2].rule_name, "B");
    let combined = combine_results(vec![vec![a.clone(), b.clone()], Vec::new(), vec![b.clone(), a.clone()]]);
    let rules: Vec<&str> = combined.iter().map(|d| d.rule_name.as_str()).collect();
    assert_eq!(rules, vec!["A", "B", "A"]);
}
