//! One entry point for Dockerfile validation, with a result cache and conversion
//! to the engine's diagnostics.

use vstd::prelude::*;
use crate::diagnostics::diagnostic::Diagnostic;
use crate::docker::cache::{DockerCache, DockerCacheMetrics, cached_diags, evicts, sat_inc, text_hash};
use crate::docker::diagnostics::{convert_docker_diagnostics, converted_docker};
use crate::docker::dockerfile::parse_spec;
use crate::docker::validator::{DiagView, DockerDiagnostic, DockerValidator, diags_view, dockerfile_diags, duplicate_diags};
use crate::parser::LanguageId;
use crate::docker::compose::compose_docs;
use crate::docker::validator::compose_diags;
use crate::yaml::YamlAST;

verus! {

/// Options of a `DockerEngine`.
#[derive(Debug, Clone, PartialEq, Eq, Structural)]
pub struct DockerEngineOptions {
    /// Whether results are cached.
    pub enable_cache: bool,
    /// Entries the cache holds before it evicts the least recently used one.
    pub cache_capacity: usize,
}

impl Default for DockerEngineOptions {
    fn default() -> (r: Self)
        ensures
            r == (DockerEngineOptions { enable_cache: true, cache_capacity: 256 }),
    {
        DockerEngineOptions { enable_cache: true, cache_capacity: 256 }
    }
}

/// The Docker diagnostics a validation of `source` gives when the cache holds
/// `entries`: the cached ones when caching is on and the source's hash is
/// cached, else `fresh`, those of validating the source anew.
pub open spec fn outcome(
    entries: Map<u64, crate::docker::cache::DockerCacheEntry>,
    enable_cache: bool,
    source: Seq<char>,
    fresh: Seq<DiagView>,
) -> Seq<DiagView> {
    match cached_diags(entries, text_hash(source)) {
        Some(d) if enable_cache => d,
        _ => fresh,
    }
}

/// `after` is `before` once `source` was validated with result `out`, `fresh`
/// being what validating it anew gives: the result is `outcome`, the options
/// stay, and with caching on the cache counts a hit or a miss and afterwards
/// holds `out` for the source's hash (other hashes keep their entries and one
/// entry is added, unless the cache was full, when its least recently used entry
/// made room); with caching off the cache is untouched.
pub open spec fn validated(
    before: DockerEngine,
    after: DockerEngine,
    source: Seq<char>,
    fresh: Seq<DiagView>,
    out: Seq<DiagView>,
) -> bool {
    let h = text_hash(source);
    let b = before.cache_state();
    let a = after.cache_state();
    let on = before.options_state().enable_cache;
    &&& out == outcome(b.entries(), on, source, fresh)
    &&& after.options_state() == before.options_state()
    &&& a.capacity() == b.capacity()
    &&& b.wf() ==> a.wf()
    &&& if !on {
        &&& a.entries() == b.entries()
        &&& a.counters() == b.counters()
    } else if cached_diags(b.entries(), h) is Some {
        &&& a.entries() == b.entries()
        &&& a.counters() == (DockerCacheMetrics { hits: sat_inc(b.counters().hits), ..b.counters() })
    } else {
        &&& cached_diags(a.entries(), h) == Some(out)
        &&& a.counters().hits == b.counters().hits
        &&& a.counters().misses == sat_inc(b.counters().misses)
        &&& forall|x: u64|
            x != h && !(evicts(b, h) && x == b.recency()[0]) ==> cached_diags(a.entries(), x)
                == cached_diags(b.entries(), x)
        &&& b.wf() ==> a.entries().len() == if evicts(b, h) {
            b.entries().len()
        } else {
            b.entries().len() + 1
        }
    }
}

/// What validating a Compose source gives anew: the diagnostics of its YAML
/// documents when it parsed, none when it did not.
pub open spec fn compose_fresh(parsed: Option<YamlAST>) -> Seq<DiagView> {
    match parsed {
        Some(ast) => compose_diags(compose_docs(ast.documents@)),
        None => Seq::empty(),
    }
}

/// Docker validation engine.
#[derive(Debug)]
pub struct DockerEngine {
    validator: DockerValidator,
    cache: DockerCache,
    options: DockerEngineOptions,
}

impl Default for DockerEngine {
    fn default() -> (r: Self)
        ensures
            r.options_state() == (DockerEngineOptions { enable_cache: true, cache_capacity: 256 }),
            r.cache_state().wf(),
            r.cache_state().entries() == Map::<u64, crate::docker::cache::DockerCacheEntry>::empty(),
            r.cache_state().capacity() == 256,
            r.cache_state().counters() == (DockerCacheMetrics { hits: 0, misses: 0, entries_count: 0 }),
    {
        Self::new(DockerEngineOptions::default())
    }
}

impl DockerEngine {
    /// The engine's options.
    pub closed spec fn options_state(&self) -> DockerEngineOptions {
        self.options
    }

    /// The engine's cache.
    pub closed spec fn cache_state(&self) -> DockerCache {
        self.cache
    }

    /// Creates an engine with an empty cache of the options' capacity.
    pub fn new(options: DockerEngineOptions) -> (r: Self)
        ensures
            r.options_state() == options,
            r.cache_state().wf(),
            r.cache_state().entries() == Map::<u64, crate::docker::cache::DockerCacheEntry>::empty(),
            r.cache_state().capacity() == options.cache_capacity,
            r.cache_state().counters() == (DockerCacheMetrics { hits: 0, misses: 0, entries_count: 0 }),
    {
        let capacity = options.cache_capacity;
        DockerEngine { validator: DockerValidator::new(), cache: DockerCache::new(capacity), options }
    }

    /// The cache.
    pub fn cache(&self) -> (r: &DockerCache)
        ensures
            *r == self.cache_state(),
    {
        &self.cache
    }

    /// Validates a Dockerfile source; returns the Docker diagnostics and their
    /// conversions for a Dockerfile document.
    pub fn validate_dockerfile(&mut self, source: &str) -> (r: (Vec<DockerDiagnostic>, Vec<Diagnostic>))
        ensures
            validated(*old(self), *final(self), source@, dockerfile_diags(parse_spec(source@)), diags_view(r.0@)),
            r.1@.len() == r.0@.len(),
            forall|i: int| 0 <= i < r.1@.len() ==> converted_docker(#[trigger] r.1@[i], r.0@[i], LanguageId::Dockerfile),
    {
        let hash = DockerCache::compute_hash(source);
        if self.options.enable_cache {
            if let Some(cached) = self.cache.get(hash) {
                let gic_diags = convert_docker_diagnostics(cached.as_slice(), LanguageId::Dockerfile);
                return (cached, gic_diags);
            }
        }
        let docker_diags = self.validator.validate_dockerfile(source);
        if self.options.enable_cache {
            self.cache.insert(hash, duplicate_diags(&docker_diags));
        }
        let gic_diags = convert_docker_diagnostics(docker_diags.as_slice(), LanguageId::Dockerfile);
        (docker_diags, gic_diags)
    }

    /// Validates a Docker Compose source, given what parsing it as YAML gave
    /// (`None` when it did not parse); returns the Docker diagnostics and their
    /// conversions for a YAML document.
    pub fn validate_compose(&mut self, source: &str, parsed: Option<&YamlAST>) -> (r: (Vec<DockerDiagnostic>, Vec<Diagnostic>))
        ensures
            validated(
                *old(self),
                *final(self),
                source@,
                compose_fresh(
                    match parsed {
                        Some(a) => Some(*a),
                        None => None,
                    },
                ),
                diags_view(r.0@),
            ),
            r.1@.len() == r.0@.len(),
            forall|i: int| 0 <= i < r.1@.len() ==> converted_docker(#[trigger] r.1@[i], r.0@[i], LanguageId::Yaml),
    {
        let hash = DockerCache::compute_hash(source);
        if self.options.enable_cache {
            if let Some(cached) = self.cache.get(hash) {
                let gic_diags = convert_docker_diagnostics(cached.as_slice(), LanguageId::Yaml);
                return (cached, gic_diags);
            }
        }
        let docker_diags = match parsed {
            Some(ast) => self.validator.validate_compose_ast(ast),
            None => {
                let v: Vec<DockerDiagnostic> = Vec::new();
                proof {
                    assert(diags_view(v@) =~= Seq::empty());
                }
                v
            },
        };
        if self.options.enable_cache {
            self.cache.insert(hash, duplicate_diags(&docker_diags));
        }
        let gic_diags = convert_docker_diagnostics(docker_diags.as_slice(), LanguageId::Yaml);
        (docker_diags, gic_diags)
    }
}

/// Validating one source twice in a row gives the same Docker diagnostics,
/// whether the second result comes from the cache or from a fresh validation
/// (for a Dockerfile `fresh` is `dockerfile_diags(parse_spec(source))`, for a
/// Compose source `compose_fresh` of its parse).
pub proof fn lemma_validate_twice(
    e0: DockerEngine,
    e1: DockerEngine,
    e2: DockerEngine,
    source: Seq<char>,
    fresh: Seq<DiagView>,
    first: Seq<DiagView>,
    second: Seq<DiagView>,
)
    requires
        validated(e0, e1, source, fresh, first),
        validated(e1, e2, source, fresh, second),
    ensures
        second == first,
{
}

/// With caching off, or with nothing cached for the source's hash, the result is
/// that of a fresh validation.
pub proof fn lemma_uncached_is_fresh(
    e0: DockerEngine,
    e1: DockerEngine,
    source: Seq<char>,
    fresh: Seq<DiagView>,
    out: Seq<DiagView>,
)
    requires
        validated(e0, e1, source, fresh, out),
        !e0.options_state().enable_cache || cached_diags(e0.cache_state().entries(), text_hash(source)) is None,
    ensures
        out == fresh,
{
}

} // verus!
