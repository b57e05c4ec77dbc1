//! Registries of validation rules with their configurations, and of validators.

use vstd::prelude::*;
use crate::diagnostics::errors::{DiagnosticError, DiagnosticResult};
use crate::diagnostics::rule::{
    Rule, RuleCategory, RuleConfig, RuleMetadata, RulePriority, category_same, meta_supports,
    rule_supports_language,
};
use crate::diagnostics::diagnostic::Diagnostic;
use crate::diagnostics::range::DiagnosticRange;
use crate::diagnostics::validator::{ValidationContext, Validator, tree_positions_fit};
use crate::parser::SyntaxTree;
use crate::parser::LanguageId;
use crate::text::str_eq;

verus! {

/// What a rule's metadata reported when the rule was registered: identifier,
/// priority, languages and category.
pub struct RuleEntry {
    pub id: String,
    pub priority: RulePriority,
    pub languages: Vec<LanguageId>,
    pub category: RuleCategory,
}

/// The index of the last entry registered under `id`, if any.
pub open spec fn entry_index(es: Seq<RuleEntry>, id: Seq<char>) -> Option<nat>
    decreases es.len(),
{
    if es.len() == 0 {
        None
    } else if es.last().id@ == id {
        Some((es.len() - 1) as nat)
    } else {
        entry_index(es.drop_last(), id)
    }
}

/// The configuration stored last under `id`, if any.
pub open spec fn config_of(cs: Seq<(String, RuleConfig)>, id: Seq<char>) -> Option<RuleConfig>
    decreases cs.len(),
{
    if cs.len() == 0 {
        None
    } else if cs.last().0@ == id {
        Some(cs.last().1)
    } else {
        config_of(cs.drop_last(), id)
    }
}

/// The index of the configuration stored last under `id`, if any.
pub open spec fn config_index(cs: Seq<(String, RuleConfig)>, id: Seq<char>) -> Option<nat>
    decreases cs.len(),
{
    if cs.len() == 0 {
        None
    } else if cs.last().0@ == id {
        Some((cs.len() - 1) as nat)
    } else {
        config_index(cs.drop_last(), id)
    }
}

/// The priority a rule runs with: its configuration's override, or its own.
pub open spec fn effective_priority_of(cs: Seq<(String, RuleConfig)>, e: RuleEntry) -> RulePriority {
    match config_of(cs, e.id@) {
        Some(c) => match c.priority_override {
            Some(p) => p,
            None => e.priority,
        },
        None => e.priority,
    }
}

/// A rule takes part in validating `lang`: a configuration enables it and its
/// languages admit `lang`.
pub open spec fn is_active_for(cs: Seq<(String, RuleConfig)>, e: RuleEntry, lang: LanguageId) -> bool {
    match config_of(cs, e.id@) {
        Some(c) => c.enabled && meta_supports(e.languages@, lang),
        None => false,
    }
}

/// Indices of the entries active for `lang` that run with priority `p`, in order.
pub open spec fn active_at(
    es: Seq<RuleEntry>,
    cs: Seq<(String, RuleConfig)>,
    lang: LanguageId,
    p: RulePriority,
) -> Seq<int>
    decreases es.len(),
{
    if es.len() == 0 {
        Seq::empty()
    } else {
        let prev = active_at(es.drop_last(), cs, lang, p);
        let e = es.last();
        if is_active_for(cs, e, lang) && effective_priority_of(cs, e) == p {
            prev.push(es.len() - 1)
        } else {
            prev
        }
    }
}

/// Indices of the entries active for `lang`, highest priority first and in
/// registration order within one priority.
pub open spec fn rules_for_language(es: Seq<RuleEntry>, cs: Seq<(String, RuleConfig)>, lang: LanguageId) -> Seq<int> {
    active_at(es, cs, lang, RulePriority::Critical) + active_at(es, cs, lang, RulePriority::High)
        + active_at(es, cs, lang, RulePriority::Medium) + active_at(es, cs, lang, RulePriority::Low)
}

/// Indices of the entries in a category, in registration order.
pub open spec fn rules_in_category(es: Seq<RuleEntry>, c: RuleCategory) -> Seq<int>
    decreases es.len(),
{
    if es.len() == 0 {
        Seq::empty()
    } else {
        let prev = rules_in_category(es.drop_last(), c);
        if category_same(es.last().category, c) {
            prev.push(es.len() - 1)
        } else {
            prev
        }
    }
}

/// Every rule taken for a priority is active for the language, runs with that
/// priority, and the rules come in registration order.
pub proof fn lemma_active_at_sound(es: Seq<RuleEntry>, cs: Seq<(String, RuleConfig)>, lang: LanguageId, p: RulePriority)
    ensures
        forall|k: int|
            0 <= k < active_at(es, cs, lang, p).len() ==> {
                let idx = #[trigger] active_at(es, cs, lang, p)[k];
                &&& 0 <= idx < es.len()
                &&& is_active_for(cs, es[idx], lang)
                &&& effective_priority_of(cs, es[idx]) == p
            },
        forall|a: int, b: int|
            0 <= a < b < active_at(es, cs, lang, p).len() ==> #[trigger] active_at(es, cs, lang, p)[a]
                < #[trigger] active_at(es, cs, lang, p)[b],
    decreases es.len(),
{
    if es.len() > 0 {
        let d = es.drop_last();
        lemma_active_at_sound(d, cs, lang, p);
        let prev = active_at(d, cs, lang, p);
        assert forall|k: int| 0 <= k < prev.len() implies #[trigger] d[prev[k]] == es[prev[k]] by {}
    }
}

/// The rules returned for a language are enabled and support it, come in
/// decreasing order of effective priority, and keep registration order within
/// one priority.
pub proof fn lemma_rules_for_language_ordered(es: Seq<RuleEntry>, cs: Seq<(String, RuleConfig)>, lang: LanguageId)
    ensures
        forall|k: int|
            0 <= k < rules_for_language(es, cs, lang).len() ==> {
                let idx = #[trigger] rules_for_language(es, cs, lang)[k];
                0 <= idx < es.len() && is_active_for(cs, es[idx], lang)
            },
        forall|a: int, b: int|
            0 <= a < b < rules_for_language(es, cs, lang).len() ==> {
                let x = #[trigger] rules_for_language(es, cs, lang)[a];
                let y = #[trigger] rules_for_language(es, cs, lang)[b];
                priority_rank(effective_priority_of(cs, es[x])) > priority_rank(effective_priority_of(cs, es[y]))
                    || (effective_priority_of(cs, es[x]) == effective_priority_of(cs, es[y]) && x < y)
            },
{
    let c = active_at(es, cs, lang, RulePriority::Critical);
    let h = active_at(es, cs, lang, RulePriority::High);
    let m = active_at(es, cs, lang, RulePriority::Medium);
    let l = active_at(es, cs, lang, RulePriority::Low);
    lemma_active_at_sound(es, cs, lang, RulePriority::Critical);
    lemma_active_at_sound(es, cs, lang, RulePriority::High);
    lemma_active_at_sound(es, cs, lang, RulePriority::Medium);
    lemma_active_at_sound(es, cs, lang, RulePriority::Low);
    let all = rules_for_language(es, cs, lang);
    assert(all == c + h + m + l);
    assert forall|k: int| 0 <= k < all.len() implies {
        let idx = #[trigger] all[k];
        0 <= idx < es.len() && is_active_for(cs, es[idx], lang)
    } by {
        if k < c.len() {
            assert(all[k] == c[k]);
        } else if k < c.len() + h.len() {
            assert(all[k] == h[k - c.len()]);
        } else if k < c.len() + h.len() + m.len() {
            assert(all[k] == m[k - c.len() - h.len()]);
        } else {
            assert(all[k] == l[k - c.len() - h.len() - m.len()]);
        }
    }
    assert forall|a: int, b: int| 0 <= a < b < all.len() implies {
        let x = #[trigger] all[a];
        let y = #[trigger] all[b];
        priority_rank(effective_priority_of(cs, es[x])) > priority_rank(effective_priority_of(cs, es[y]))
            || (effective_priority_of(cs, es[x]) == effective_priority_of(cs, es[y]) && x < y)
    } by {
        let n1 = c.len() as int;
        let n2 = n1 + h.len();
        let n3 = n2 + m.len();
        if a < n1 {
            assert(all[a] == c[a]);
        } else if a < n2 {
            assert(all[a] == h[a - n1]);
        } else if a < n3 {
            assert(all[a] == m[a - n2]);
        } else {
            assert(all[a] == l[a - n3]);
        }
        if b < n1 {
            assert(all[b] == c[b]);
        } else if b < n2 {
            assert(all[b] == h[b - n1]);
        } else if b < n3 {
            assert(all[b] == m[b - n2]);
        } else {
            assert(all[b] == l[b - n3]);
        }
    }
}

/// The rank of a priority: higher runs first.
pub open spec fn priority_rank(p: RulePriority) -> int {
    match p {
        RulePriority::Critical => 3,
        RulePriority::High => 2,
        RulePriority::Medium => 1,
        RulePriority::Low => 0,
    }
}

/// A rule held by the registry.
pub struct RegisteredRule {
    rule: Box<dyn Rule>,
}

impl RegisteredRule {
    fn hold(rule: Box<dyn Rule>) -> (r: Self) {
        RegisteredRule { rule }
    }

    /// The metadata the held rule reports.
    pub closed spec fn meta(&self) -> RuleMetadata {
        self.rule.spec_metadata()
    }

    /// `r` is what evaluating the held rule gives on a tree and a context over the
    /// source text, the language and the dirty regions.
    pub closed spec fn gives(
        &self,
        tree: SyntaxTree,
        source: Seq<char>,
        lang: LanguageId,
        dirty: Seq<DiagnosticRange>,
        r: DiagnosticResult<Vec<Diagnostic>>,
    ) -> bool {
        self.rule.evaluates_to(tree, source, lang, dirty, r)
    }

    /// The rule's metadata.
    pub fn metadata(&self) -> (r: &RuleMetadata)
        ensures
            *r == self.meta(),
    {
        self.rule.metadata()
    }

    /// Evaluates the held rule.
    pub fn run(&self, tree: &SyntaxTree, ctx: &ValidationContext) -> (r: DiagnosticResult<Vec<Diagnostic>>)
        ensures
            self.gives(*tree, ctx.source_text@, ctx.language, ctx.dirty_regions@, r),
    {
        self.rule.evaluate(tree, ctx)
    }

    /// The rule itself.
    pub fn rule(&self) -> &dyn Rule {
        &*self.rule
    }
}

/// Registered rules and their configurations.
pub struct RuleRegistry {
    entries: Vec<RuleEntry>,
    rules: Vec<RegisteredRule>,
    configs: Vec<(String, RuleConfig)>,
}

impl Default for RuleRegistry {
    fn default() -> (r: Self)
        ensures
            r.wf(),
            r.entries().len() == 0,
            r.configs().len() == 0,
    {
        RuleRegistry::new()
    }
}

impl RuleRegistry {
    /// What the registered rules reported, in registration order.
    pub closed spec fn entries(&self) -> Seq<RuleEntry> {
        self.entries@
    }

    /// The registered rules, parallel to `entries`.
    pub closed spec fn rules(&self) -> Seq<RegisteredRule> {
        self.rules@
    }

    /// The stored configurations.
    pub closed spec fn configs(&self) -> Seq<(String, RuleConfig)> {
        self.configs@
    }

    /// Every registered rule has its entry.
    pub closed spec fn wf(&self) -> bool {
        self.entries@.len() == self.rules@.len()
    }

    /// Creates an empty registry.
    pub fn new() -> (r: Self)
        ensures
            r.wf(),
            r.entries().len() == 0,
            r.configs().len() == 0,
    {
        RuleRegistry { entries: Vec::new(), rules: Vec::new(), configs: Vec::new() }
    }

    fn find_entry(&self, id: &str) -> (r: Option<usize>)
        ensures
            r == (match entry_index(self.entries(), id@) {
                Some(i) => Some(i as usize),
                None => None::<usize>,
            }),
            r matches Some(i) ==> i < self.entries().len() && entry_index(self.entries(), id@) == Some(
                i as nat,
            ),
    {
        let mut i = self.entries.len();
        assert(self.entries@.take(i as int) =~= self.entries@);
        while i > 0
            invariant
                i <= self.entries.len(),
                entry_index(self.entries@, id@) == entry_index(self.entries@.take(i as int), id@),
            decreases i,
        {
            assert(self.entries@.take(i as int).drop_last() =~= self.entries@.take(i - 1));
            if str_eq(self.entries[i - 1].id.as_str(), id) {
                return Some(i - 1);
            }
            i = i - 1;
        }
        None
    }

    fn find_config(&self, id: &str) -> (r: Option<usize>)
        ensures
            r == (match config_index(self.configs(), id@) {
                Some(i) => Some(i as usize),
                None => None::<usize>,
            }),
            r matches Some(i) ==> config_index(self.configs(), id@) == Some(i as nat),
            r matches Some(i) ==> i < self.configs().len() && self.configs()[i as int].0@ == id@
                && config_of(self.configs(), id@) == Some(self.configs()[i as int].1),
            r is None ==> config_of(self.configs(), id@) is None,
    {
        let mut i = self.configs.len();
        assert(self.configs@.take(i as int) =~= self.configs@);
        while i > 0
            invariant
                i <= self.configs.len(),
                config_index(self.configs@, id@) == config_index(self.configs@.take(i as int), id@),
                config_of(self.configs@, id@) == config_of(self.configs@.take(i as int), id@),
            decreases i,
        {
            assert(self.configs@.take(i as int).drop_last() =~= self.configs@.take(i - 1));
            if str_eq(self.configs[i - 1].0.as_str(), id) {
                return Some(i - 1);
            }
            i = i - 1;
        }
        None
    }

    /// Stores a configuration under `rule_id`, replacing the one stored there.
    pub fn set_config(&mut self, rule_id: &str, config: RuleConfig)
        requires
            old(self).wf(),
        ensures
            final(self).wf(),
            final(self).entries() == old(self).entries(),
            final(self).rules() == old(self).rules(),
            config_of(final(self).configs(), rule_id@) == Some(config),
            forall|other: Seq<char>|
                other != rule_id@ ==> config_of(final(self).configs(), other) == config_of(
                    old(self).configs(),
                    other,
                ),
    {
        let key = rule_id.to_owned();
        self.store_config(key, config);
    }

    fn store_config(&mut self, key: String, config: RuleConfig)
        requires
            old(self).wf(),
        ensures
            final(self).wf(),
            final(self).entries() == old(self).entries(),
            final(self).rules() == old(self).rules(),
            config_of(final(self).configs(), key@) == Some(config),
            forall|other: Seq<char>|
                other != key@ ==> config_of(final(self).configs(), other) == config_of(
                    old(self).configs(),
                    other,
                ),
            config_index(old(self).configs(), key@) is Some ==> final(self).configs().len()
                == old(self).configs().len(),
            config_index(old(self).configs(), key@) is None ==> final(self).configs() == old(
                self,
            ).configs().push((key, config)),
    {
        let ghost before = self.configs@;
        match self.find_config(key.as_str()) {
            Some(i) => {
                let ghost k = key;
                self.configs.set(i, (key, config));
                proof {
                    lemma_config_update(before, i as int, k, config);
                }
            },
            None => {
                self.configs.push((key, config));
                proof {
                    assert(self.configs@.drop_last() =~= before);
                    assert forall|other: Seq<char>| other != key@ implies config_of(
                        self.configs@,
                        other,
                    ) == config_of(before, other) by {
                        assert(self.configs@.drop_last() =~= before);
                    }
                }
            },
        }
    }

    /// Registers a rule under the identifier its metadata reports, replacing the
    /// rule registered under that identifier; a rule without a configuration gets
    /// an enabled one without overrides.
    pub fn register<R: Rule + 'static>(&mut self, rule: R)
        requires
            old(self).wf(),
        ensures
            final(self).wf(),
            exists|e: RuleEntry| #[trigger]
                registered(old(self).entries(), final(self).entries(), e) && configured(
                    old(self).configs(),
                    final(self).configs(),
                    e.id@,
                ) && describes(rule.spec_metadata(), e),
            final(self).entries().len() == final(self).rules().len(),
    {
        let ghost m = rule.spec_metadata();
        let meta = rule.metadata();
        let id = meta.id.clone();
        let priority = meta.priority;
        let category = meta.category.duplicate();
        let mut languages: Vec<LanguageId> = Vec::new();
        let mut k: usize = 0;
        while k < meta.supported_languages.len()
            invariant
                k <= meta.supported_languages.len(),
                languages@ == meta.supported_languages@.take(k as int),
            decreases meta.supported_languages.len() - k,
        {
            languages.push(meta.supported_languages[k]);
            assert(meta.supported_languages@.take(k + 1) =~= meta.supported_languages@.take(
                k as int,
            ).push(meta.supported_languages@[k as int]));
            k = k + 1;
        }
        assert(meta.supported_languages@.take(meta.supported_languages.len() as int) =~= meta.supported_languages@);
        let entry = RuleEntry { id: id.clone(), priority, languages, category };
        let ghost e = entry;
        assert(describes(m, e));
        let ghost old_entries = self.entries@;
        let ghost old_configs = self.configs@;
        let boxed = RegisteredRule::hold(Box::new(rule));
        match self.find_entry(id.as_str()) {
            Some(i) => {
                self.entries.set(i, entry);
                self.rules.set(i, boxed);
            },
            None => {
                self.entries.push(entry);
                self.rules.push(boxed);
            },
        }
        if self.find_config(id.as_str()).is_none() {
            let c = RuleConfig::enabled();
            self.configs.push((id, c));
            proof {
                assert(self.configs@.drop_last() =~= old_configs);
            }
        }
        assert(registered(old_entries, self.entries@, e));
        assert(configured(old_configs, self.configs@, e.id@));
        assert(registered(old(self).entries(), self.entries(), e) && configured(
            old(self).configs(),
            self.configs(),
            e.id@,
        ) && describes(m, e));
    }

    /// Enables or disables the rule configured under `rule_id`; fails with
    /// `RuleNotFound` when no configuration is stored under it.
    pub fn set_enabled(&mut self, rule_id: &str, enabled: bool) -> (r: DiagnosticResult<()>)
        requires
            old(self).wf(),
        ensures
            final(self).wf(),
            final(self).entries() == old(self).entries(),
            final(self).rules() == old(self).rules(),
            match config_of(old(self).configs(), rule_id@) {
                Some(c) => {
                    &&& r is Ok
                    &&& config_of(final(self).configs(), rule_id@) == Some(
                        RuleConfig { enabled, ..c },
                    )
                    &&& forall|other: Seq<char>|
                        other != rule_id@ ==> config_of(final(self).configs(), other) == config_of(
                            old(self).configs(),
                            other,
                        )
                },
                None => r matches Err(DiagnosticError::RuleNotFound(m)) && m@ == rule_id@
                    && final(self).configs() == old(self).configs(),
            },
    {
        match self.find_config(rule_id) {
            None => Err(DiagnosticError::RuleNotFound(rule_id.to_owned())),
            Some(i) => {
                let ghost before = self.configs@;
                let (key, mut cfg) = self.configs.remove(i);
                cfg.enabled = enabled;
                self.configs.insert(i, (key, cfg));
                proof {
                    assert(self.configs@ =~= before.update(i as int, (key, cfg)));
                    lemma_config_update(before, i as int, key, cfg);
                }
                Ok(())
            },
        }
    }

    /// The rule registered under `rule_id`, if any.
    pub fn get_rule(&self, rule_id: &str) -> (r: Option<&RegisteredRule>)
        requires
            self.wf(),
        ensures
            match entry_index(self.entries(), rule_id@) {
                Some(i) => r matches Some(b) && *b == self.rules()[i as int],
                None => r is None,
            },
    {
        match self.find_entry(rule_id) {
            Some(i) => Some(&self.rules[i]),
            None => None,
        }
    }

    /// The configuration stored under `rule_id`, if any.
    pub fn get_config(&self, rule_id: &str) -> (r: Option<&RuleConfig>)
        ensures
            match config_of(self.configs(), rule_id@) {
                Some(c) => r matches Some(x) && *x == c,
                None => r is None,
            },
    {
        match self.find_config(rule_id) {
            Some(i) => Some(&self.configs[i].1),
            None => None,
        }
    }

    /// The priority a rule runs with: its configuration's override, or its own.
    fn get_effective_priority(&self, e: &RuleEntry) -> (r: RulePriority)
        ensures
            r == effective_priority_of(self.configs(), *e),
    {
        match self.find_config(e.id.as_str()) {
            Some(ci) => self.configs[ci].1.effective_priority(e.priority),
            None => e.priority,
        }
    }

    /// Appends the rules active for `lang` that run with priority `p`.
    fn collect_at<'a>(&'a self, lang: LanguageId, p: RulePriority, out: &mut Vec<&'a RegisteredRule>)
        requires
            self.wf(),
        ensures
            final(out)@.len() == old(out)@.len() + active_at(self.entries(), self.configs(), lang, p).len(),
            forall|k: int| 0 <= k < old(out)@.len() ==> final(out)@[k] == old(out)@[k],
            forall|k: int|
                0 <= k < active_at(self.entries(), self.configs(), lang, p).len() ==> {
                    let idx = #[trigger] active_at(self.entries(), self.configs(), lang, p)[k];
                    &&& 0 <= idx < self.rules().len()
                    &&& *final(out)@[old(out)@.len() + k] == self.rules()[idx]
                },
    {
        let ghost base = out@;
        let mut i: usize = 0;
        while i < self.entries.len()
            invariant
                self.wf(),
                i <= self.entries.len(),
                out@.len() == base.len() + active_at(self.entries@.take(i as int), self.configs@, lang, p).len(),
                forall|k: int| 0 <= k < base.len() ==> out@[k] == base[k],
                forall|k: int|
                    0 <= k < active_at(self.entries@.take(i as int), self.configs@, lang, p).len() ==> {
                        let idx = #[trigger] active_at(self.entries@.take(i as int), self.configs@, lang, p)[k];
                        &&& 0 <= idx < i
                        &&& *out@[base.len() + k] == self.rules@[idx]
                    },
            decreases self.entries.len() - i,
        {
            proof {
                assert(self.entries@.take(i + 1).drop_last() =~= self.entries@.take(i as int));
                assert(self.entries@.take(i + 1).last() == self.entries@[i as int]);
            }
            let e = &self.entries[i];
            let active = match self.find_config(e.id.as_str()) {
                Some(ci) => {
                    let cfg = &self.configs[ci].1;
                    if cfg.enabled && langs_support(&e.languages, lang) {
                        same_priority(self.get_effective_priority(e), p)
                    } else {
                        false
                    }
                },
                None => false,
            };
            if active {
                out.push(&self.rules[i]);
            }
            i = i + 1;
        }
        assert(self.entries@.take(self.entries.len() as int) =~= self.entries@);
    }

    /// The enabled rules supporting `language`, highest effective priority first
    /// and in registration order within one priority.
    pub fn get_rules_for_language(&self, language: LanguageId) -> (r: Vec<&RegisteredRule>)
        requires
            self.wf(),
        ensures
            r@.len() == rules_for_language(self.entries(), self.configs(), language).len(),
            forall|k: int|
                0 <= k < r@.len() ==> {
                    let idx = #[trigger] rules_for_language(self.entries(), self.configs(), language)[k];
                    0 <= idx < self.rules().len() && *r@[k] == self.rules()[idx]
                },
    {
        let mut out: Vec<&RegisteredRule> = Vec::new();
        self.collect_at(language, RulePriority::Critical, &mut out);
        self.collect_at(language, RulePriority::High, &mut out);
        self.collect_at(language, RulePriority::Medium, &mut out);
        self.collect_at(language, RulePriority::Low, &mut out);
        let ghost a = active_at(self.entries@, self.configs@, language, RulePriority::Critical);
        let ghost b = active_at(self.entries@, self.configs@, language, RulePriority::High);
        let ghost c = active_at(self.entries@, self.configs@, language, RulePriority::Medium);
        let ghost d = active_at(self.entries@, self.configs@, language, RulePriority::Low);
        let ghost all = rules_for_language(self.entries@, self.configs@, language);
        assert forall|k: int| 0 <= k < out@.len() implies {
            let idx = #[trigger] all[k];
            0 <= idx < self.rules@.len() && *out@[k] == self.rules@[idx]
        } by {
            if k < a.len() {
                assert(all[k] == a[k]);
            } else if k < a.len() + b.len() {
                assert(all[k] == b[k - a.len()]);
            } else if k < a.len() + b.len() + c.len() {
                assert(all[k] == c[k - a.len() - b.len()]);
            } else {
                assert(all[k] == d[k - a.len() - b.len() - c.len()]);
            }
        }
        out
    }

    /// The registered rules in a category, in registration order.
    pub fn get_rules_by_category(&self, category: &RuleCategory) -> (r: Vec<&RegisteredRule>)
        requires
            self.wf(),
        ensures
            r@.len() == rules_in_category(self.entries(), *category).len(),
            forall|k: int|
                0 <= k < r@.len() ==> {
                    let idx = #[trigger] rules_in_category(self.entries(), *category)[k];
                    0 <= idx < self.rules().len() && *r@[k] == self.rules()[idx]
                },
    {
        let mut out: Vec<&RegisteredRule> = Vec::new();
        let mut i: usize = 0;
        while i < self.entries.len()
            invariant
                self.wf(),
                i <= self.entries.len(),
                out@.len() == rules_in_category(self.entries@.take(i as int), *category).len(),
                forall|k: int|
                    0 <= k < out@.len() ==> {
                        let idx = #[trigger] rules_in_category(self.entries@.take(i as int), *category)[k];
                        &&& 0 <= idx < i
                        &&& *out@[k] == self.rules@[idx]
                    },
            decreases self.entries.len() - i,
        {
            proof {
                assert(self.entries@.take(i + 1).drop_last() =~= self.entries@.take(i as int));
            }
            if self.entries[i].category.same_as(category) {
                out.push(&self.rules[i]);
            }
            i = i + 1;
        }
        assert(self.entries@.take(self.entries.len() as int) =~= self.entries@);
        out
    }
}

/// `f` is `o` with the entry `e` registered: it replaces the entry registered
/// under its identifier, or comes last.
pub open spec fn registered(o: Seq<RuleEntry>, f: Seq<RuleEntry>, e: RuleEntry) -> bool {
    match entry_index(o, e.id@) {
        Some(i) => f == o.update(i as int, e),
        None => f == o.push(e),
    }
}

/// The entry records the metadata's identifier, priority, languages and category.
pub open spec fn describes(m: RuleMetadata, e: RuleEntry) -> bool {
    &&& e.id@ == m.id@
    &&& e.priority == m.priority
    &&& e.languages@ == m.supported_languages@
    &&& e.category == m.category
}

/// `f` is `o` with an enabled configuration without overrides added under `id`
/// when none was stored there.
pub open spec fn configured(o: Seq<(String, RuleConfig)>, f: Seq<(String, RuleConfig)>, id: Seq<char>) -> bool {
    match config_index(o, id) {
        Some(_) => f == o,
        None => {
            &&& f.len() == o.len() + 1
            &&& f.drop_last() == o
            &&& f.last().0@ == id
            &&& f.last().1.enabled
            &&& f.last().1.priority_override is None
            &&& f.last().1.severity_override is None
        },
    }
}

/// Whether a list of languages admits `lang`: it is empty or lists it.
fn langs_support(langs: &Vec<LanguageId>, lang: LanguageId) -> (r: bool)
    ensures
        r == meta_supports(langs@, lang),
{
    if langs.len() == 0 {
        return true;
    }
    let mut i: usize = 0;
    while i < langs.len()
        invariant
            i <= langs.len(),
            forall|j: int| 0 <= j < i ==> langs@[j] != lang,
        decreases langs.len() - i,
    {
        if langs[i].same_as(&lang) {
            assert(langs@[i as int] == lang);
            return true;
        }
        i = i + 1;
    }
    false
}

fn same_priority(a: RulePriority, b: RulePriority) -> (r: bool)
    ensures
        r == (a == b),
{
    match (a, b) {
        (RulePriority::Low, RulePriority::Low) => true,
        (RulePriority::Medium, RulePriority::Medium) => true,
        (RulePriority::High, RulePriority::High) => true,
        (RulePriority::Critical, RulePriority::Critical) => true,
        _ => false,
    }
}

proof fn lemma_config_update(cs: Seq<(String, RuleConfig)>, i: int, key: String, c: RuleConfig)
    requires
        0 <= i < cs.len(),
        cs[i].0@ == key@,
        config_index(cs, key@) == Some(i as nat),
    ensures
        config_of(cs.update(i, (key, c)), key@) == Some(c),
        config_index(cs.update(i, (key, c)), key@) == Some(i as nat),
        forall|other: Seq<char>|
            other != key@ ==> config_of(cs.update(i, (key, c)), other) == config_of(cs, other),
    decreases cs.len(),
{
    let u = cs.update(i, (key, c));
    if i == cs.len() - 1 {
        assert(u.drop_last() =~= cs.drop_last());
        assert forall|other: Seq<char>| other != key@ implies config_of(u, other) == config_of(
            cs,
            other,
        ) by {
            assert(u.last().0@ == key@);
        }
    } else {
        assert(u.drop_last() =~= cs.drop_last().update(i, (key, c)));
        lemma_config_update(cs.drop_last(), i, key, c);
        assert forall|other: Seq<char>| other != key@ implies config_of(u, other) == config_of(
            cs,
            other,
        ) by {
            assert(u.last() == cs.last());
            let d = cs.drop_last().update(i, (key, c));
            assert(config_of(d, other) == config_of(cs.drop_last(), other));
            assert(config_of(u.drop_last(), other) == config_of(d, other));
        }
    }
}

/// A validator held by the registry.
pub struct RegisteredValidator {
    validator: Box<dyn Validator>,
}

impl RegisteredValidator {
    fn hold(validator: Box<dyn Validator>) -> (r: Self) {
        RegisteredValidator { validator }
    }

    /// The language the held validator reports.
    pub closed spec fn lang(&self) -> LanguageId {
        self.validator.spec_language()
    }

    /// `r` is what the held validator gives on a tree and a context over the source
    /// text, the language and the dirty regions.
    pub closed spec fn gives(
        &self,
        tree: SyntaxTree,
        source: Seq<char>,
        lang: LanguageId,
        dirty: Seq<DiagnosticRange>,
        r: DiagnosticResult<Vec<Diagnostic>>,
    ) -> bool {
        self.validator.validates_to(tree, source, lang, dirty, r)
    }

    /// Runs the held validator.
    pub fn run(&self, tree: &SyntaxTree, ctx: &ValidationContext) -> (r: DiagnosticResult<Vec<Diagnostic>>)
        requires
            tree_positions_fit(tree),
        ensures
            self.gives(*tree, ctx.source_text@, ctx.language, ctx.dirty_regions@, r),
    {
        self.validator.validate(tree, ctx)
    }

    /// The validator itself.
    pub fn validator(&self) -> &dyn Validator {
        &*self.validator
    }
}

/// Registry of validators: those for one language and those for all languages.
pub struct ValidatorRegistry {
    languages: Vec<LanguageId>,
    validators: Vec<RegisteredValidator>,
    global_validators: Vec<RegisteredValidator>,
}

/// Indices of the validators registered for `lang`, in registration order.
pub open spec fn validators_for(langs: Seq<LanguageId>, lang: LanguageId) -> Seq<int>
    decreases langs.len(),
{
    if langs.len() == 0 {
        Seq::empty()
    } else {
        let prev = validators_for(langs.drop_last(), lang);
        if langs.last() == lang {
            prev.push(langs.len() - 1)
        } else {
            prev
        }
    }
}

impl Default for ValidatorRegistry {
    fn default() -> (r: Self)
        ensures
            r.wf(),
            r.languages().len() == 0,
            r.globals().len() == 0,
    {
        ValidatorRegistry::new()
    }
}

impl ValidatorRegistry {
    /// The language each registered validator reported, in registration order.
    pub closed spec fn languages(&self) -> Seq<LanguageId> {
        self.languages@
    }

    /// The language validators, parallel to `languages`.
    pub closed spec fn validators(&self) -> Seq<RegisteredValidator> {
        self.validators@
    }

    /// The validators that run for every language.
    pub closed spec fn globals(&self) -> Seq<RegisteredValidator> {
        self.global_validators@
    }

    /// Every language validator has its language recorded.
    pub closed spec fn wf(&self) -> bool {
        self.languages@.len() == self.validators@.len()
    }

    /// Creates an empty registry.
    pub fn new() -> (r: Self)
        ensures
            r.wf(),
            r.languages().len() == 0,
            r.globals().len() == 0,
    {
        ValidatorRegistry {
            languages: Vec::new(),
            validators: Vec::new(),
            global_validators: Vec::new(),
        }
    }

    /// Registers a validator for the language it reports.
    pub fn register<V: Validator + 'static>(&mut self, validator: V)
        requires
            old(self).wf(),
        ensures
            final(self).wf(),
            final(self).languages().len() == old(self).languages().len() + 1,
            final(self).languages().drop_last() == old(self).languages(),
            final(self).languages().last() == validator.spec_language(),
            final(self).validators().drop_last() == old(self).validators(),
            final(self).globals() == old(self).globals(),
    {
        let lang = validator.language();
        let boxed = RegisteredValidator::hold(Box::new(validator));
        let ghost ol = self.languages@;
        let ghost ov = self.validators@;
        self.languages.push(lang);
        self.validators.push(boxed);
        assert(self.languages@.drop_last() =~= ol);
        assert(self.validators@.drop_last() =~= ov);
    }

    /// Registers a validator that runs for every language.
    pub fn register_global<V: Validator + 'static>(&mut self, validator: V)
        requires
            old(self).wf(),
        ensures
            final(self).wf(),
            final(self).languages() == old(self).languages(),
            final(self).validators() == old(self).validators(),
            final(self).globals().len() == old(self).globals().len() + 1,
            final(self).globals().drop_last() == old(self).globals(),
    {
        let boxed = RegisteredValidator::hold(Box::new(validator));
        let ghost og = self.global_validators@;
        self.global_validators.push(boxed);
        assert(self.global_validators@.drop_last() =~= og);
    }

    /// The validators for `language`: every global validator, then those registered
    /// for the language, each group in registration order.
    pub fn get_validators(&self, language: LanguageId) -> (r: Vec<&RegisteredValidator>)
        requires
            self.wf(),
        ensures
            r@.len() == self.globals().len() + validators_for(self.languages(), language).len(),
            forall|k: int| 0 <= k < self.globals().len() ==> *r@[k] == self.globals()[k],
            forall|k: int|
                0 <= k < validators_for(self.languages(), language).len() ==> {
                    let idx = #[trigger] validators_for(self.languages(), language)[k];
                    0 <= idx < self.validators().len() && *r@[self.globals().len() + k]
                        == self.validators()[idx]
                },
    {
        let mut out: Vec<&RegisteredValidator> = Vec::new();
        let mut g: usize = 0;
        while g < self.global_validators.len()
            invariant
                g <= self.global_validators.len(),
                out@.len() == g,
                forall|k: int| 0 <= k < g ==> *out@[k] == self.global_validators@[k],
            decreases self.global_validators.len() - g,
        {
            out.push(&self.global_validators[g]);
            g = g + 1;
        }
        let base = out.len();
        let mut i: usize = 0;
        while i < self.languages.len()
            invariant
                self.wf(),
                base == self.global_validators.len(),
                i <= self.languages.len(),
                out@.len() == base + validators_for(self.languages@.take(i as int), language).len(),
                forall|k: int| 0 <= k < base ==> *out@[k] == self.global_validators@[k],
                forall|k: int|
                    0 <= k < validators_for(self.languages@.take(i as int), language).len() ==> {
                        let idx = #[trigger] validators_for(self.languages@.take(i as int), language)[k];
                        &&& 0 <= idx < i
                        &&& *out@[base + k] == self.validators@[idx]
                    },
            decreases self.languages.len() - i,
        {
            proof {
                assert(self.languages@.take(i + 1).drop_last() =~= self.languages@.take(i as int));
            }
            if self.languages[i].same_as(&language) {
                out.push(&self.validators[i]);
            }
            i = i + 1;
        }
        assert(self.languages@.take(self.languages.len() as int) =~= self.languages@);
        out
    }
}

/// Loader of rule sets.
pub struct RuleLoader;

impl RuleLoader {
    /// The default rule set: an empty registry.
    pub fn load_default_rules() -> (r: RuleRegistry)
        ensures
            r.wf(),
            r.entries().len() == 0,
            r.configs().len() == 0,
    {
        RuleRegistry::new()
    }
}

} // verus!
