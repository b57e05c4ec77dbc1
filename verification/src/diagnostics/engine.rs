//! The validation engine: runs validators and rules over a parsed document,
//! removes repeated findings and caches results per document snapshot.

use vstd::prelude::*;
use std::sync::Arc;
use std::sync::atomic::AtomicBool;
use crate::diagnostics::cache::{DiagnosticCache, cache_index};
use crate::diagnostics::diagnostic::{Diagnostic, diagnostic_same, diagnostics_same, duplicate_all};
use crate::diagnostics::quick_fix::quick_fix_same;
use crate::diagnostics::errors::{DiagnosticError, DiagnosticResult};
use crate::diagnostics::registry::{
    RegisteredRule, RegisteredValidator, RuleRegistry, ValidatorRegistry, rules_for_language, validators_for,
};
use crate::diagnostics::range::DiagnosticRange;
use crate::diagnostics::utils::current_timestamp_ms;
use crate::diagnostics::validator::{
    CoreSyntaxValidator, ValidationContext, Validator, concat_found, concat_outputs, tree_positions_fit,
};
use crate::diagnostics::rule::Rule;
use crate::parser::{LanguageId, SyntaxTree};
use crate::text::str_eq;

verus! {

/// Counters of the engine's work. They stop growing at the largest `u64`.
#[derive(Debug, Clone, Copy)]
pub struct ValidationMetrics {
    /// Validation runs performed.
    pub total_validations: u64,
    /// Runs answered from the cache.
    pub cache_hits: u64,
    /// Diagnostics produced by runs not answered from the cache.
    pub diagnostics_generated: u64,
    /// Milliseconds spent in runs not answered from the cache.
    pub total_duration_ms: u64,
}

impl Default for ValidationMetrics {
    fn default() -> (r: Self)
        ensures
            r == (ValidationMetrics {
                total_validations: 0,
                cache_hits: 0,
                diagnostics_generated: 0,
                total_duration_ms: 0,
            }),
    {
        ValidationMetrics {
            total_validations: 0,
            cache_hits: 0,
            diagnostics_generated: 0,
            total_duration_ms: 0,
        }
    }
}

/// `a + b`, or the largest `u64` when that overflows.
pub open spec fn sat_add(a: u64, b: u64) -> u64 {
    if a + b > u64::MAX { u64::MAX } else { (a + b) as u64 }
}

/// The cache answers a validation of the document made from a source with this hash.
pub open spec fn cache_answers(c: DiagnosticCache, document_id: Seq<char>, source_hash: u64) -> bool {
    match cache_index(c.entries(), document_id) {
        Some(i) => c.entries()[i as int].1.source_hash == source_hash,
        None => false,
    }
}

/// The diagnostics the cache holds for a document.
pub open spec fn cached_for(c: DiagnosticCache, document_id: Seq<char>) -> Seq<Diagnostic> {
    match cache_index(c.entries(), document_id) {
        Some(i) => c.entries()[i as int].1.diagnostics@,
        None => Seq::empty(),
    }
}

/// The positions kept when repeated diagnostics are removed: the first one, and
/// every one whose identifier differs from that of the one before it.
pub open spec fn kept_after_dedup(ds: Seq<Diagnostic>) -> Seq<Diagnostic>
    decreases ds.len(),
{
    if ds.len() == 0 {
        Seq::empty()
    } else {
        let prev = kept_after_dedup(ds.drop_last());
        if ds.len() == 1 || ds[ds.len() - 1].id@ != ds[ds.len() - 2].id@ {
            prev.push(ds.last())
        } else {
            prev
        }
    }
}

/// Removes each diagnostic whose identifier equals that of the one before it,
/// as `Vec::dedup_by` does with an identifier comparison.
pub fn dedup_by_id(ds: &Vec<Diagnostic>) -> (r: Vec<Diagnostic>)
    ensures
        diagnostics_same(r@, kept_after_dedup(ds@)),
{
    let mut out: Vec<Diagnostic> = Vec::new();
    let mut i: usize = 0;
    while i < ds.len()
        invariant
            i <= ds.len(),
            diagnostics_same(out@, kept_after_dedup(ds@.take(i as int))),
        decreases ds.len() - i,
    {
        proof {
            assert(ds@.take(i + 1).drop_last() =~= ds@.take(i as int));
        }
        let keep = i == 0 || !str_eq(ds[i].id.as_str(), ds[i - 1].id.as_str());
        if keep {
            out.push(ds[i].duplicate());
        }
        proof {
            let t = ds@.take(i + 1);
            assert(t.len() == i + 1);
            if i > 0 {
                assert(t[t.len() - 1] == ds@[i as int]);
                assert(t[t.len() - 2] == ds@[i - 1]);
            }
        }
        i = i + 1;
    }
    assert(ds@.take(ds.len() as int) =~= ds@);
    out
}

/// What a validation builds from the outputs of the validators and rules it ran,
/// in order: their diagnostics one after the other, each one repeating the
/// identifier of the one before it dropped.
pub fn combine_results(outputs: Vec<Vec<Diagnostic>>) -> (r: Vec<Diagnostic>)
    ensures
        diagnostics_same(r@, kept_after_dedup(concat_found(outputs@))),
{
    let flat = concat_outputs(outputs);
    dedup_by_id(&flat)
}

/// `found` holds what each validator and rule that a validation of `tree` runs when
/// the cache does not answer gave, in order, on the tree and a context over
/// `source`, the tree's language and no dirty regions: the validators for every
/// language, then those registered for the language, then the active rules for it
/// in priority order.
pub open spec fn miss_found(e: ValidationEngine, tree: SyntaxTree, source: Seq<char>, found: Seq<Vec<Diagnostic>>) -> bool {
    let lang = tree.language;
    let g = e.validators().globals();
    let vf = validators_for(e.validators().languages(), lang);
    let rl = rules_for_language(e.rules().entries(), e.rules().configs(), lang);
    let none = Seq::<DiagnosticRange>::empty();
    &&& found.len() == g.len() + vf.len() + rl.len()
    &&& forall|k: int| 0 <= k < g.len() ==> (#[trigger] g[k]).gives(tree, source, lang, none, Ok(found[k]))
    &&& forall|k: int|
        0 <= k < vf.len() ==> e.validators().validators()[#[trigger] vf[k]].gives(
            tree,
            source,
            lang,
            none,
            Ok(found[g.len() + k]),
        )
    &&& forall|k: int|
        0 <= k < rl.len() ==> e.rules().rules()[#[trigger] rl[k]].gives(
            tree,
            source,
            lang,
            none,
            Ok(found[g.len() + vf.len() + k]),
        )
}

/// An error a validation of `tree` that the cache does not answer may end with:
/// cancellation, or an error one of the validators or rules it runs gave.
pub open spec fn miss_error(e: ValidationEngine, tree: SyntaxTree, source: Seq<char>, err: DiagnosticError) -> bool {
    let lang = tree.language;
    let g = e.validators().globals();
    let vf = validators_for(e.validators().languages(), lang);
    let rl = rules_for_language(e.rules().entries(), e.rules().configs(), lang);
    let none = Seq::<DiagnosticRange>::empty();
    ||| err == DiagnosticError::ValidationCancelled
    ||| exists|k: int| 0 <= k < g.len() && (#[trigger] g[k]).gives(tree, source, lang, none, Err(err))
    ||| exists|k: int|
        0 <= k < vf.len() && e.validators().validators()[#[trigger] vf[k]].gives(tree, source, lang, none, Err(err))
    ||| exists|k: int|
        0 <= k < rl.len() && e.rules().rules()[#[trigger] rl[k]].gives(tree, source, lang, none, Err(err))
}

/// An error the `k`-th validator of a validation's list gave is one `miss_error` admits.
proof fn lemma_validator_error(
    e: ValidationEngine,
    tree: SyntaxTree,
    source: Seq<char>,
    vs: Seq<&RegisteredValidator>,
    k: int,
    err: DiagnosticError,
)
    requires
        e.validators().wf(),
        vs.len() == e.validators().globals().len() + validators_for(e.validators().languages(), tree.language).len(),
        forall|i: int| 0 <= i < e.validators().globals().len() ==> *vs[i] == e.validators().globals()[i],
        forall|i: int|
            0 <= i < validators_for(e.validators().languages(), tree.language).len() ==> {
                let idx = #[trigger] validators_for(e.validators().languages(), tree.language)[i];
                0 <= idx < e.validators().validators().len() && *vs[e.validators().globals().len() + i]
                    == e.validators().validators()[idx]
            },
        0 <= k < vs.len(),
        (*vs[k]).gives(tree, source, tree.language, Seq::<DiagnosticRange>::empty(), Err(err)),
    ensures
        miss_error(e, tree, source, err),
{
    let g = e.validators().globals();
    let vf = validators_for(e.validators().languages(), tree.language);
    if k < g.len() {
        assert(*vs[k] == g[k]);
    } else {
        let i = k - g.len();
        assert(vf[i] == vf[i]);
        assert(*vs[g.len() + i] == e.validators().validators()[vf[i]]);
    }
}

/// An error the `j`-th active rule gave is one `miss_error` admits.
proof fn lemma_rule_error(
    e: ValidationEngine,
    tree: SyntaxTree,
    source: Seq<char>,
    rs: Seq<&RegisteredRule>,
    j: int,
    err: DiagnosticError,
)
    requires
        rs.len() == rules_for_language(e.rules().entries(), e.rules().configs(), tree.language).len(),
        forall|k: int|
            0 <= k < rs.len() ==> {
                let idx = #[trigger] rules_for_language(e.rules().entries(), e.rules().configs(), tree.language)[k];
                0 <= idx < e.rules().rules().len() && *rs[k] == e.rules().rules()[idx]
            },
        0 <= j < rs.len(),
        (*rs[j]).gives(tree, source, tree.language, Seq::<DiagnosticRange>::empty(), Err(err)),
    ensures
        miss_error(e, tree, source, err),
{
    let rl = rules_for_language(e.rules().entries(), e.rules().configs(), tree.language);
    assert(rl[j] == rl[j]);
    assert(*rs[j] == e.rules().rules()[rl[j]]);
}

/// The outputs collected from the validator list and then the rule list are what
/// `miss_found` describes.
proof fn lemma_outputs_found(
    e: ValidationEngine,
    tree: SyntaxTree,
    source: Seq<char>,
    vs: Seq<&RegisteredValidator>,
    rs: Seq<&RegisteredRule>,
    found: Seq<Vec<Diagnostic>>,
)
    requires
        vs.len() == e.validators().globals().len() + validators_for(e.validators().languages(), tree.language).len(),
        forall|i: int| 0 <= i < e.validators().globals().len() ==> *vs[i] == e.validators().globals()[i],
        forall|i: int|
            0 <= i < validators_for(e.validators().languages(), tree.language).len() ==> {
                let idx = #[trigger] validators_for(e.validators().languages(), tree.language)[i];
                0 <= idx < e.validators().validators().len() && *vs[e.validators().globals().len() + i]
                    == e.validators().validators()[idx]
            },
        rs.len() == rules_for_language(e.rules().entries(), e.rules().configs(), tree.language).len(),
        forall|k: int|
            0 <= k < rs.len() ==> {
                let idx = #[trigger] rules_for_language(e.rules().entries(), e.rules().configs(), tree.language)[k];
                0 <= idx < e.rules().rules().len() && *rs[k] == e.rules().rules()[idx]
            },
        found.len() == vs.len() + rs.len(),
        forall|i: int|
            0 <= i < vs.len() ==> (*vs[i]).gives(tree, source, tree.language, Seq::<DiagnosticRange>::empty(), Ok(#[trigger] found[i])),
        forall|i: int|
            0 <= i < rs.len() ==> (*rs[i]).gives(
                tree,
                source,
                tree.language,
                Seq::<DiagnosticRange>::empty(),
                Ok(#[trigger] found[vs.len() + i]),
            ),
    ensures
        miss_found(e, tree, source, found),
{
    let g = e.validators().globals();
    let vf = validators_for(e.validators().languages(), tree.language);
    let rl = rules_for_language(e.rules().entries(), e.rules().configs(), tree.language);
    let none = Seq::<DiagnosticRange>::empty();
    assert forall|k: int| 0 <= k < g.len() implies (#[trigger] g[k]).gives(tree, source, tree.language, none, Ok(found[k])) by {
        assert(*vs[k] == g[k]);
        assert((*vs[k]).gives(tree, source, tree.language, none, Ok(found[k])));
    }
    assert forall|k: int| 0 <= k < vf.len() implies e.validators().validators()[#[trigger] vf[k]].gives(
        tree,
        source,
        tree.language,
        none,
        Ok(found[g.len() + k]),
    ) by {
        assert(*vs[g.len() + k] == e.validators().validators()[vf[k]]);
        assert((*vs[g.len() + k]).gives(tree, source, tree.language, none, Ok(found[g.len() + k])));
    }
    assert forall|k: int| 0 <= k < rl.len() implies e.rules().rules()[#[trigger] rl[k]].gives(
        tree,
        source,
        tree.language,
        none,
        Ok(found[g.len() + vf.len() + k]),
    ) by {
        assert(*rs[k] == e.rules().rules()[rl[k]]);
        assert((*rs[k]).gives(tree, source, tree.language, none, Ok(found[vs.len() + k])));
    }
}

/// `after` is `before` once a document with the given identifier and source hash
/// was validated with result `r`: when the cache answers for the document and
/// hash, the result holds the cached diagnostics, the cache stays and a hit is
/// counted; otherwise a success is cached for the document and hash and counted
/// with its diagnostics, and a failure changes neither cache nor counters.
pub open spec fn validation_outcome(
    before: ValidationEngine,
    after: ValidationEngine,
    document_id: Seq<char>,
    source_hash: u64,
    r: Result<Seq<Diagnostic>, DiagnosticError>,
) -> bool {
    &&& cache_answers(before.results(), document_id, source_hash) ==> {
        &&& r matches Ok(v) && diagnostics_same(v, cached_for(before.results(), document_id))
        &&& after.results() == before.results()
        &&& after.counters() == (ValidationMetrics {
            total_validations: sat_add(before.counters().total_validations, 1),
            cache_hits: sat_add(before.counters().cache_hits, 1),
            ..before.counters()
        })
    }
    &&& !cache_answers(before.results(), document_id, source_hash) ==> match r {
        Ok(v) => {
            &&& cache_answers(after.results(), document_id, source_hash)
            &&& diagnostics_same(cached_for(after.results(), document_id), v)
            &&& after.counters().total_validations == sat_add(before.counters().total_validations, 1)
            &&& after.counters().cache_hits == before.counters().cache_hits
            &&& after.counters().diagnostics_generated == sat_add(
                before.counters().diagnostics_generated,
                v.len() as u64,
            )
        },
        Err(_) => after.results() == before.results() && after.counters() == before.counters(),
    }
}

/// Validating a document again with the same source hash, right after a
/// validation of it that succeeded, is answered from the cache: it succeeds with
/// the same diagnostics and counts a cache hit.
pub proof fn lemma_revalidation_hits_cache(
    e0: ValidationEngine,
    e1: ValidationEngine,
    e2: ValidationEngine,
    document_id: Seq<char>,
    source_hash: u64,
    first: Seq<Diagnostic>,
    second: Result<Seq<Diagnostic>, DiagnosticError>,
)
    requires
        validation_outcome(e0, e1, document_id, source_hash, Ok(first)),
        validation_outcome(e1, e2, document_id, source_hash, second),
    ensures
        cache_answers(e1.results(), document_id, source_hash),
        second matches Ok(v) && diagnostics_same(v, first),
        e2.counters().cache_hits == sat_add(e1.counters().cache_hits, 1),
        e2.results() == e1.results(),
{
    let c = cached_for(e1.results(), document_id);
    if cache_answers(e0.results(), document_id, source_hash) {
        assert(e1.results() == e0.results());
    }
    assert(diagnostics_same(c, first));
    let v = second->Ok_0;
    assert(diagnostics_same(v, c));
    assert forall|i: int| 0 <= i < v.len() implies diagnostic_same(#[trigger] v[i], first[i]) by {
        assert(diagnostic_same(v[i], c[i]));
        assert(diagnostic_same(c[i], first[i]));
        assert forall|k: int| 0 <= k < v[i].quick_fixes@.len() implies quick_fix_same(#[trigger] v[i].quick_fixes@[k], first[i].quick_fixes@[k]) by {
            assert(quick_fix_same(v[i].quick_fixes@[k], c[i].quick_fixes@[k]));
            assert(quick_fix_same(c[i].quick_fixes@[k], first[i].quick_fixes@[k]));
        }
    }
}

/// The validation engine.
pub struct ValidationEngine {
    rule_registry: RuleRegistry,
    validator_registry: ValidatorRegistry,
    cache: DiagnosticCache,
    metrics: ValidationMetrics,
}

impl Default for ValidationEngine {
    fn default() -> (r: Self)
        ensures
            r.wf(),
    {
        Self::new()
    }
}

impl ValidationEngine {
    /// The rule registry.
    pub closed spec fn rules(&self) -> RuleRegistry {
        self.rule_registry
    }

    /// The validator registry.
    pub closed spec fn validators(&self) -> ValidatorRegistry {
        self.validator_registry
    }

    /// The result cache.
    pub closed spec fn results(&self) -> DiagnosticCache {
        self.cache
    }

    /// The counters.
    pub closed spec fn counters(&self) -> ValidationMetrics {
        self.metrics
    }

    /// The registries and the cache are well formed.
    pub open spec fn wf(&self) -> bool {
        self.rules().wf() && self.validators().wf() && self.results().wf()
    }

    /// Creates an engine whose only validator is the parser-diagnostics validator,
    /// run for every language, with no rules, an empty cache of capacity 100 and
    /// zero counters.
    pub fn new() -> (r: Self)
        ensures
            r.wf(),
            r.rules().entries().len() == 0,
            r.rules().configs().len() == 0,
            r.validators().languages().len() == 0,
            r.validators().globals().len() == 1,
            r.results().entries().len() == 0,
            r.results().max_entries() == 100,
            r.counters() == (ValidationMetrics {
                total_validations: 0,
                cache_hits: 0,
                diagnostics_generated: 0,
                total_duration_ms: 0,
            }),
    {
        let mut validator_reg = ValidatorRegistry::new();
        validator_reg.register_global(CoreSyntaxValidator);
        ValidationEngine {
            rule_registry: RuleRegistry::new(),
            validator_registry: validator_reg,
            cache: DiagnosticCache::default(),
            metrics: ValidationMetrics::default(),
        }
    }

    /// The rule registry, for registration and configuration.
    pub fn rule_registry(&mut self) -> (r: &mut RuleRegistry)
        ensures
            *r == old(self).rules(),
            final(self).rules() == *final(r),
            final(self).validators() == old(self).validators(),
            final(self).results() == old(self).results(),
            final(self).counters() == old(self).counters(),
    {
        &mut self.rule_registry
    }

    /// The validator registry.
    pub fn validator_registry(&mut self) -> (r: &mut ValidatorRegistry)
        ensures
            *r == old(self).validators(),
            final(self).validators() == *final(r),
            final(self).rules() == old(self).rules(),
            final(self).results() == old(self).results(),
            final(self).counters() == old(self).counters(),
    {
        &mut self.validator_registry
    }

    /// The result cache.
    pub fn cache(&mut self) -> (r: &mut DiagnosticCache)
        ensures
            *r == old(self).results(),
            final(self).results() == *final(r),
            final(self).rules() == old(self).rules(),
            final(self).validators() == old(self).validators(),
            final(self).counters() == old(self).counters(),
    {
        &mut self.cache
    }

    /// A snapshot of the counters.
    pub fn metrics(&self) -> (r: ValidationMetrics)
        ensures
            r == self.counters(),
    {
        self.metrics
    }

    /// Validates a parsed document. When the cache holds diagnostics of the document
    /// for the tree's source hash, copies of them are returned. Otherwise every
    /// validator for the tree's language runs, then every active rule in priority
    /// order, with a cancellation check before each; their outputs are combined by
    /// `combine_results` (a diagnostic repeating the identifier of the one just
    /// before it is dropped), and the result is cached.
    pub fn validate(
        &mut self,
        document_id: &str,
        tree: &SyntaxTree,
        source_text: &str,
        cancel_flag: Option<Arc<AtomicBool>>,
    ) -> (r: DiagnosticResult<Vec<Diagnostic>>)
        requires
            old(self).wf(),
            tree_positions_fit(tree),
        ensures
            final(self).wf(),
            final(self).rules() == old(self).rules(),
            final(self).validators() == old(self).validators(),
            final(self).results().max_entries() == old(self).results().max_entries(),
            validation_outcome(
                *old(self),
                *final(self),
                document_id@,
                tree.source_hash,
                match r {
                    Ok(v) => Ok(v@),
                    Err(e) => Err(e),
                },
            ),
            !cache_answers(old(self).results(), document_id@, tree.source_hash) ==> (r matches Ok(v)
                ==> exists|found: Seq<Vec<Diagnostic>>|
                miss_found(*old(self), *tree, source_text@, found) && diagnostics_same(
                    v@,
                    kept_after_dedup(concat_found(found)),
                )),
            !cache_answers(old(self).results(), document_id@, tree.source_hash) ==> (r matches Err(e)
                ==> miss_error(*old(self), *tree, source_text@, e)),
    {
        match self.cache.get(document_id, tree.source_hash) {
            Some(cached) => {
                let copy = duplicate_all(cached);
                self.metrics.total_validations = self.metrics.total_validations.saturating_add(1);
                self.metrics.cache_hits = self.metrics.cache_hits.saturating_add(1);
                return Ok(copy);
            },
            None => {},
        }
        let start = current_timestamp_ms();
        let mut ctx = ValidationContext::new(source_text, tree.language);
        match cancel_flag {
            Some(flag) => {
                ctx = ctx.with_cancel_flag(flag);
            },
            None => {},
        }
        match ctx.check_cancelled() {
            Err(e) => {
                return Err(e);
            },
            Ok(()) => {},
        }
        let ghost none = Seq::<DiagnosticRange>::empty();
        assert(ctx.dirty_regions@ =~= none);
        let mut outputs: Vec<Vec<Diagnostic>> = Vec::new();
        let validators = self.validator_registry.get_validators(tree.language);
        let mut k: usize = 0;
        while k < validators.len()
            invariant
                k <= validators.len(),
                outputs@.len() == k,
                validators@.len() == old(self).validators().globals().len() + validators_for(
                    old(self).validators().languages(),
                    tree.language,
                ).len(),
                forall|i: int| 0 <= i < old(self).validators().globals().len() ==> *validators@[i] == old(self).validators().globals()[i],
                forall|i: int|
                    0 <= i < validators_for(old(self).validators().languages(), tree.language).len() ==> {
                        let idx = #[trigger] validators_for(old(self).validators().languages(), tree.language)[i];
                        0 <= idx < old(self).validators().validators().len() && *validators@[old(self).validators().globals().len() + i]
                            == old(self).validators().validators()[idx]
                    },
                ctx.source_text@ == source_text@,
                ctx.language == tree.language,
                ctx.dirty_regions@ == none,
                none == Seq::<DiagnosticRange>::empty(),
                forall|i: int|
                    0 <= i < k ==> (*validators@[i]).gives(*tree, source_text@, tree.language, none, Ok(#[trigger] outputs@[i])),
                tree_positions_fit(tree),
                *self == *old(self),
                old(self).wf(),
                !cache_answers(old(self).results(), document_id@, tree.source_hash),
            decreases validators.len() - k,
        {
            match ctx.check_cancelled() {
                Err(e) => {
                    return Err(e);
                },
                Ok(()) => {},
            }
            let outcome = validators[k].run(tree, &ctx);
            match outcome {
                Err(e) => {
                    proof {
                        lemma_validator_error(*old(self), *tree, source_text@, validators@, k as int, e);
                    }
                    return Err(e);
                },
                Ok(found) => {
                    outputs.push(found);
                },
            }
            k = k + 1;
        }
        let active_rules = self.rule_registry.get_rules_for_language(tree.language);
        let mut j: usize = 0;
        while j < active_rules.len()
            invariant
                j <= active_rules.len(),
                outputs@.len() == validators@.len() + j,
                active_rules@.len() == rules_for_language(old(self).rules().entries(), old(self).rules().configs(), tree.language).len(),
                forall|i: int|
                    0 <= i < active_rules@.len() ==> {
                        let idx = #[trigger] rules_for_language(old(self).rules().entries(), old(self).rules().configs(), tree.language)[i];
                        0 <= idx < old(self).rules().rules().len() && *active_rules@[i] == old(self).rules().rules()[idx]
                    },
                ctx.source_text@ == source_text@,
                ctx.language == tree.language,
                ctx.dirty_regions@ == none,
                none == Seq::<DiagnosticRange>::empty(),
                validators@.len() == old(self).validators().globals().len() + validators_for(
                    old(self).validators().languages(),
                    tree.language,
                ).len(),
                forall|i: int| 0 <= i < old(self).validators().globals().len() ==> *validators@[i] == old(self).validators().globals()[i],
                forall|i: int|
                    0 <= i < validators_for(old(self).validators().languages(), tree.language).len() ==> {
                        let idx = #[trigger] validators_for(old(self).validators().languages(), tree.language)[i];
                        0 <= idx < old(self).validators().validators().len() && *validators@[old(self).validators().globals().len() + i]
                            == old(self).validators().validators()[idx]
                    },
                forall|i: int|
                    0 <= i < validators@.len() ==> (*validators@[i]).gives(*tree, source_text@, tree.language, none, Ok(#[trigger] outputs@[i])),
                forall|i: int|
                    0 <= i < j ==> (*active_rules@[i]).gives(
                        *tree,
                        source_text@,
                        tree.language,
                        none,
                        Ok(#[trigger] outputs@[validators@.len() + i]),
                    ),
                *self == *old(self),
                old(self).wf(),
                !cache_answers(old(self).results(), document_id@, tree.source_hash),
            decreases active_rules.len() - j,
        {
            match ctx.check_cancelled() {
                Err(e) => {
                    return Err(e);
                },
                Ok(()) => {},
            }
            let outcome = active_rules[j].run(tree, &ctx);
            match outcome {
                Err(e) => {
                    proof {
                        lemma_rule_error(*old(self), *tree, source_text@, active_rules@, j as int, e);
                    }
                    return Err(e);
                },
                Ok(found) => {
                    outputs.push(found);
                },
            }
            j = j + 1;
        }
        proof {
            lemma_outputs_found(*old(self), *tree, source_text@, validators@, active_rules@, outputs@);
        }
        let result = combine_results(outputs);
        let stored = duplicate_all(result.as_slice());
        self.cache.put(document_id, tree.source_hash, stored);
        let end = current_timestamp_ms();
        let elapsed = end.saturating_sub(start);
        let n = result.len();
        let n64: u64 = if n as u128 <= u64::MAX as u128 { n as u64 } else { u64::MAX };
        self.metrics.total_validations = self.metrics.total_validations.saturating_add(1);
        self.metrics.diagnostics_generated = self.metrics.diagnostics_generated.saturating_add(n64);
        self.metrics.total_duration_ms = self.metrics.total_duration_ms.saturating_add(elapsed);
        Ok(result)
    }

    /// Drops the cached diagnostics of a document.
    pub fn refresh_document(&mut self, document_id: &str)
        requires
            old(self).wf(),
        ensures
            final(self).wf(),
            final(self).rules() == old(self).rules(),
            final(self).validators() == old(self).validators(),
            final(self).counters() == old(self).counters(),
            final(self).results().max_entries() == old(self).results().max_entries(),
            final(self).results().entries() == (match cache_index(
                old(self).results().entries(),
                document_id@,
            ) {
                Some(i) => old(self).results().entries().remove(i as int),
                None => old(self).results().entries(),
            }),
    {
        self.cache.invalidate(document_id);
    }
}

} // verus!
