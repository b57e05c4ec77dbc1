//! Dockerfile validation: stage references, repeated `CMD`, security findings,
//! best practices and layer optimization as one list of diagnostics.

use vstd::prelude::*;
use crate::docker::best_practices::{DockerBestPracticesAnalyzer, NoteView, best_practices_spec};
use crate::docker::dockerfile::{DockerfileParser, parse_spec};
use crate::docker::instructions::{InstrView, InstructionKind, KindView, instrs_view};
use crate::docker::optimization::{DockerOptimizationAnalyzer, optimization_spec};
use crate::docker::security::{
    DockerSecurityAnalyzer, DockerSecuritySeverity, FindingView, audit_spec,
};
use crate::docker::stages::{IssueView, MultiStageAnalyzer, reference_issues};
use crate::yaml::{NodeView, PairView, Position, Span, ValueView, YamlAST, YamlNode, YamlValue, lemma_node_view_value, node_view};
use crate::docker::compose::{ComposeDetector, ComposeDocument, ComposeView, compose_docs, compose_view, compose_views, entries_view, find_entry, has_entry};
use crate::docker::compose_networks::{ComposeNetworkValidator, NetworkIssueView, network_issues, network_issues_view};
use crate::docker::compose_services::{ComposeServiceValidator, ServiceIssueView, join5, service_issues, service_issues_view, trimmed};
use crate::docker::compose_volumes::{ComposeVolumeValidator, VolumeIssueView, volume_issues, volume_issues_view};
use crate::docker::scan::{CharClass, split_at_char, split_chars_at, trim_chars, trim_ws};
use crate::docker::security::services_findings;

verus! {

/// Severity of a Docker diagnostic.
#[derive(Debug, Clone, Copy, PartialEq, Eq, Structural, Hash)]
pub enum DockerSeverity {
    Error,
    Warning,
    Info,
    Hint,
}

/// A finding of the Docker validator.
#[derive(Debug, Clone, PartialEq, Eq)]
pub struct DockerDiagnostic {
    /// Rule identifier.
    pub rule_id: String,
    /// Message.
    pub message: String,
    /// Severity.
    pub severity: DockerSeverity,
    /// Location.
    pub span: Span,
    /// Quick fix: title and replacement.
    pub quick_fix: Option<(String, String)>,
}

/// The value of a Docker diagnostic.
pub struct DiagView {
    pub rule_id: Seq<char>,
    pub message: Seq<char>,
    pub severity: DockerSeverity,
    pub span: Span,
    pub quick_fix: Option<(Seq<char>, Seq<char>)>,
}

impl View for DockerDiagnostic {
    type V = DiagView;

    open spec fn view(&self) -> DiagView {
        DiagView {
            rule_id: self.rule_id@,
            message: self.message@,
            severity: self.severity,
            span: self.span,
            quick_fix: match self.quick_fix {
                Some((t, r)) => Some((t@, r@)),
                None => None,
            },
        }
    }
}

/// The values of a list of diagnostics.
pub open spec fn diags_view(v: Seq<DockerDiagnostic>) -> Seq<DiagView> {
    v.map_values(|d: DockerDiagnostic| d@)
}

impl DockerDiagnostic {
    /// A copy of this diagnostic.
    pub fn duplicate(&self) -> (r: Self)
        ensures
            r@ == self@,
    {
        DockerDiagnostic {
            rule_id: self.rule_id.clone(),
            message: self.message.clone(),
            severity: self.severity,
            span: self.span,
            quick_fix: match &self.quick_fix {
                Some((t, x)) => Some((t.clone(), x.clone())),
                None => None,
            },
        }
    }
}

/// Copies of a list of diagnostics.
pub fn duplicate_diags(v: &Vec<DockerDiagnostic>) -> (r: Vec<DockerDiagnostic>)
    ensures
        diags_view(r@) == diags_view(v@),
{
    let mut out: Vec<DockerDiagnostic> = Vec::new();
    let mut i: usize = 0;
    while i < v.len()
        invariant
            i <= v.len(),
            diags_view(out@) == diags_view(v@).take(i as int),
        decreases v.len() - i,
    {
        let d = v[i].duplicate();
        assert(diags_view(v@)[i as int] == d@);
        let ghost prev = out@;
        out.push(d);
        assert(diags_view(out@) =~= diags_view(prev).push(d@));
        assert(diags_view(out@) =~= diags_view(v@).take(i + 1));
        i = i + 1;
    }
    assert(diags_view(v@).take(v.len() as int) =~= diags_view(v@));
    out
}

/// The span of column 1 of a line.
pub open spec fn line_point(line: usize) -> Span {
    Span { start: Position { line, column: 1, byte_offset: 0 }, end: Position { line, column: 1, byte_offset: 0 } }
}

/// A diagnostic without a quick fix.
pub open spec fn plain_diag(rule: Seq<char>, message: Seq<char>, severity: DockerSeverity, span: Span) -> DiagView {
    DiagView { rule_id: rule, message, severity, span, quick_fix: None }
}

/// Diagnostics for stage reference issues.
pub open spec fn stage_diags(issues: Seq<IssueView>) -> Seq<DiagView> {
    issues.map_values(|x: IssueView| plain_diag("docker-invalid-stage-reference"@, x.message, DockerSeverity::Error, line_point(x.line)))
}

/// The number of `CMD` instructions.
pub open spec fn cmd_count(is: Seq<InstrView>) -> nat
    decreases is.len(),
{
    if is.len() == 0 {
        0
    } else {
        cmd_count(is.drop_last()) + if is.last().kind is Cmd { 1nat } else { 0nat }
    }
}

/// A warning at every `CMD` after the first.
pub open spec fn cmd_diags(is: Seq<InstrView>) -> Seq<DiagView>
    decreases is.len(),
{
    if is.len() == 0 {
        Seq::empty()
    } else {
        let prev = cmd_diags(is.drop_last());
        if is.last().kind is Cmd && cmd_count(is.drop_last()) >= 1 {
            prev.push(plain_diag(
                "dockerfile-multiple-cmd"@,
                "Multiple 'CMD' instructions found; only the last 'CMD' will take effect"@,
                DockerSeverity::Warning,
                is.last().span,
            ))
        } else {
            prev
        }
    }
}

/// A Dockerfile with `c` `CMD` instructions gets `c - 1` multiple-`CMD` warnings
/// (none when it has none), one at every `CMD` after the first, each a warning.
pub proof fn lemma_multiple_cmd_count(is: Seq<InstrView>)
    ensures
        cmd_diags(is).len() + (if cmd_count(is) > 0 { 1int } else { 0int }) == cmd_count(is),
        forall|j: int| 0 <= j < cmd_diags(is).len() ==> (#[trigger] cmd_diags(is)[j]).rule_id
            == "dockerfile-multiple-cmd"@ && cmd_diags(is)[j].severity == DockerSeverity::Warning,
    decreases is.len(),
{
    if is.len() > 0 {
        lemma_multiple_cmd_count(is.drop_last());
    }
}

/// The number of diagnostics with a rule identifier.
pub open spec fn rule_count_in(ds: Seq<DiagView>, rule: Seq<char>) -> nat
    decreases ds.len(),
{
    if ds.len() == 0 {
        0
    } else {
        rule_count_in(ds.drop_last(), rule) + if ds.last().rule_id == rule { 1nat } else { 0nat }
    }
}

proof fn lemma_rule_count_concat(a: Seq<DiagView>, b: Seq<DiagView>, rule: Seq<char>)
    ensures
        rule_count_in(a + b, rule) == rule_count_in(a, rule) + rule_count_in(b, rule),
    decreases b.len(),
{
    if b.len() > 0 {
        lemma_rule_count_concat(a, b.drop_last(), rule);
        assert((a + b).drop_last() =~= a + b.drop_last());
    } else {
        assert(a + b =~= a);
    }
}

proof fn lemma_rule_count_by_first(ds: Seq<DiagView>, rule: Seq<char>)
    requires
        rule.len() > 0,
        forall|j: int| 0 <= j < ds.len() ==> (#[trigger] ds[j]).rule_id.len() > 0 && ds[j].rule_id[0] != rule[0],
    ensures
        rule_count_in(ds, rule) == 0,
    decreases ds.len(),
{
    if ds.len() > 0 {
        let d = ds.drop_last();
        assert forall|j: int| 0 <= j < d.len() implies (#[trigger] d[j]).rule_id.len() > 0 && d[j].rule_id[0] != rule[0] by {
            assert(d[j] == ds[j]);
        }
        lemma_rule_count_by_first(d, rule);
        assert(ds.last() == ds[ds.len() - 1]);
    }
}

proof fn lemma_rule_count_none(ds: Seq<DiagView>, rule: Seq<char>)
    requires
        forall|j: int| 0 <= j < ds.len() ==> (#[trigger] ds[j]).rule_id != rule,
    ensures
        rule_count_in(ds, rule) == 0,
    decreases ds.len(),
{
    if ds.len() > 0 {
        let d = ds.drop_last();
        assert forall|j: int| 0 <= j < d.len() implies (#[trigger] d[j]).rule_id != rule by {
            assert(d[j] == ds[j]);
        }
        lemma_rule_count_none(d, rule);
        assert(ds.last() == ds[ds.len() - 1]);
    }
}

proof fn lemma_rule_count_all(ds: Seq<DiagView>, rule: Seq<char>)
    requires
        forall|j: int| 0 <= j < ds.len() ==> (#[trigger] ds[j]).rule_id == rule,
    ensures
        rule_count_in(ds, rule) == ds.len(),
    decreases ds.len(),
{
    if ds.len() > 0 {
        let d = ds.drop_last();
        assert forall|j: int| 0 <= j < d.len() implies (#[trigger] d[j]).rule_id == rule by {
            assert(d[j] == ds[j]);
        }
        lemma_rule_count_all(d, rule);
        assert(ds.last() == ds[ds.len() - 1]);
    }
}

proof fn lemma_base_recs_ids(is: Seq<InstrView>)
    ensures
        forall|j: int| 0 <= j < crate::docker::best_practices::base_image_recs(is).len() ==> {
            let x = (#[trigger] crate::docker::best_practices::base_image_recs(is)[j]).rule_id;
            x.len() > 0 && x[0] == 'b'
        },
    decreases is.len(),
{
    reveal_strlit("bp-docker-small-base-image");
    if is.len() > 0 {
        let d = is.drop_last();
        lemma_base_recs_ids(d);
        let p = crate::docker::best_practices::base_image_recs(d);
        let q = crate::docker::best_practices::base_image_recs(is);
        assert forall|j: int| 0 <= j < q.len() implies {
            let x = (#[trigger] q[j]).rule_id;
            x.len() > 0 && x[0] == 'b'
        } by {
            if j < p.len() {
                assert(q[j] == p[j]);
            }
        }
    }
}

proof fn lemma_apt_ids(is: Seq<InstrView>)
    ensures
        forall|j: int| 0 <= j < crate::docker::optimization::apt_findings(is).len() ==> {
            let x = (#[trigger] crate::docker::optimization::apt_findings(is)[j]).rule_id;
            x.len() > 0 && x[0] == 'o'
        },
    decreases is.len(),
{
    reveal_strlit("opt-docker-chain-apt-update-install");
    if is.len() > 0 {
        let d = is.drop_last();
        lemma_apt_ids(d);
        let p = crate::docker::optimization::apt_findings(d);
        let q = crate::docker::optimization::apt_findings(is);
        assert forall|j: int| 0 <= j < q.len() implies {
            let x = (#[trigger] q[j]).rule_id;
            x.len() > 0 && x[0] == 'o'
        } by {
            if j < p.len() {
                assert(q[j] == p[j]);
            }
        }
    }
}

proof fn lemma_env_ids(pairs: Seq<(Seq<char>, Seq<char>)>, iv: InstrView)
    ensures
        forall|j: int| 0 <= j < crate::docker::security::env_findings(pairs, iv).len() ==> {
            let x = (#[trigger] crate::docker::security::env_findings(pairs, iv)[j]).rule_id;
            x.len() > 0 && x[0] == 's'
        },
    decreases pairs.len(),
{
    reveal_strlit("sec-docker-secret-in-env");
    if pairs.len() > 0 {
        lemma_env_ids(pairs.drop_last(), iv);
    }
}

proof fn lemma_instructions_ids(is: Seq<InstrView>)
    ensures
        forall|j: int| 0 <= j < crate::docker::security::instructions_findings(is).len() ==> {
            let x = (#[trigger] crate::docker::security::instructions_findings(is)[j]).rule_id;
            x.len() > 0 && x[0] == 's'
        },
    decreases is.len(),
{
    reveal_strlit("sec-docker-no-latest-tag");
    reveal_strlit("sec-docker-user-root");
    reveal_strlit("sec-docker-use-copy-instead-of-add");
    reveal_strlit("sec-docker-secret-in-arg");
    if is.len() > 0 {
        let d = is.drop_last();
        lemma_instructions_ids(d);
        let iv = is.last();
        if let KindView::Env { pairs } = iv.kind {
            lemma_env_ids(pairs, iv);
        }
        let p = crate::docker::security::instructions_findings(d);
        let l = crate::docker::security::instruction_findings(iv);
        assert forall|j: int| 0 <= j < (p + l).len() implies {
            let x = (#[trigger] (p + l)[j]).rule_id;
            x.len() > 0 && x[0] == 's'
        } by {
            if j < p.len() {
                assert((p + l)[j] == p[j]);
            } else {
                assert((p + l)[j] == l[j - p.len()]);
            }
        }
    }
}

/// A Dockerfile with `c` `CMD` instructions gets exactly `c - 1` diagnostics with
/// the multiple-`CMD` rule in its whole validation (none when it has none): no
/// other check reports under that rule.
pub proof fn lemma_dockerfile_multiple_cmd_count(is: Seq<InstrView>)
    ensures
        rule_count_in(dockerfile_diags(is), "dockerfile-multiple-cmd"@) + (if cmd_count(is) > 0 { 1int } else { 0int })
            == cmd_count(is),
{
    let rule = "dockerfile-multiple-cmd"@;
    reveal_strlit("dockerfile-multiple-cmd");
    reveal_strlit("docker-invalid-stage-reference");
    reveal_strlit("sec-docker-missing-user");
    reveal_strlit("bp-docker-missing-healthcheck");
    reveal_strlit("opt-docker-high-layer-count");
    let a = stage_diags(reference_issues(is));
    let b = cmd_diags(is);
    let c = security_diags(audit_spec(is));
    let d = note_diags(best_practices_spec(is), DockerSeverity::Hint);
    let e = note_diags(optimization_spec(is), DockerSeverity::Info);
    lemma_multiple_cmd_count(is);
    lemma_rule_count_all(b, rule);
    assert forall|j: int| 0 <= j < a.len() implies (#[trigger] a[j]).rule_id != rule by {
        assert(a[j].rule_id == "docker-invalid-stage-reference"@);
    }
    lemma_rule_count_none(a, rule);
    lemma_instructions_ids(is);
    assert forall|j: int| 0 <= j < c.len() implies (#[trigger] c[j]).rule_id.len() > 0 && c[j].rule_id[0] != rule[0] by {
        let f = audit_spec(is)[j];
        assert(c[j].rule_id == f.rule_id);
        if j < crate::docker::security::instructions_findings(is).len() {
            assert(f == crate::docker::security::instructions_findings(is)[j]);
        }
    }
    lemma_rule_count_by_first(c, rule);
    lemma_base_recs_ids(is);
    assert forall|j: int| 0 <= j < d.len() implies (#[trigger] d[j]).rule_id.len() > 0 && d[j].rule_id[0] != rule[0] by {
        let n = best_practices_spec(is)[j];
        assert(d[j].rule_id == n.rule_id);
        if j < crate::docker::best_practices::base_image_recs(is).len() {
            assert(n == crate::docker::best_practices::base_image_recs(is)[j]);
        }
    }
    lemma_rule_count_by_first(d, rule);
    lemma_apt_ids(is);
    assert forall|j: int| 0 <= j < e.len() implies (#[trigger] e[j]).rule_id.len() > 0 && e[j].rule_id[0] != rule[0] by {
        let n = optimization_spec(is)[j];
        assert(e[j].rule_id == n.rule_id);
        if j < crate::docker::optimization::apt_findings(is).len() {
            assert(n == crate::docker::optimization::apt_findings(is)[j]);
        }
    }
    lemma_rule_count_by_first(e, rule);
    lemma_rule_count_concat(a, b, rule);
    lemma_rule_count_concat(a + b, c, rule);
    lemma_rule_count_concat(a + b + c, d, rule);
    lemma_rule_count_concat(a + b + c + d, e, rule);
}

/// The diagnostic severity of a security severity.
pub open spec fn security_level(s: DockerSecuritySeverity) -> DockerSeverity {
    match s {
        DockerSecuritySeverity::Critical | DockerSecuritySeverity::High => DockerSeverity::Error,
        DockerSecuritySeverity::Medium => DockerSeverity::Warning,
        DockerSecuritySeverity::Low => DockerSeverity::Info,
    }
}

/// Diagnostics for security findings; a suggested fix becomes a quick fix.
pub open spec fn security_diags(fs: Seq<FindingView>) -> Seq<DiagView> {
    fs.map_values(|f: FindingView| DiagView {
        rule_id: f.rule_id,
        message: f.message,
        severity: security_level(f.severity),
        span: f.span,
        quick_fix: match f.fix_suggestion {
            Some(x) => Some(("Apply security fix"@, x)),
            None => None,
        },
    })
}

/// Diagnostics for notes of the given severity.
pub open spec fn note_diags(ns: Seq<NoteView>, severity: DockerSeverity) -> Seq<DiagView> {
    ns.map_values(|n: NoteView| plain_diag(n.rule_id, n.message, severity, line_point(n.line)))
}

/// The diagnostics of a Dockerfile's instructions: stage references, repeated
/// `CMD`, security findings, best practices (hints) and optimizations (infos).
pub open spec fn dockerfile_diags(is: Seq<InstrView>) -> Seq<DiagView> {
    stage_diags(reference_issues(is)) + cmd_diags(is) + security_diags(audit_spec(is)) + note_diags(
        best_practices_spec(is),
        DockerSeverity::Hint,
    ) + note_diags(optimization_spec(is), DockerSeverity::Info)
}

fn point(line: usize) -> (r: Span)
    ensures
        r == line_point(line),
{
    let p = Position::new(line, 1, 0);
    Span::new(p, p)
}

fn security_level_of(s: DockerSecuritySeverity) -> (r: DockerSeverity)
    ensures
        r == security_level(s),
{
    match s {
        DockerSecuritySeverity::Critical | DockerSecuritySeverity::High => DockerSeverity::Error,
        DockerSecuritySeverity::Medium => DockerSeverity::Warning,
        DockerSecuritySeverity::Low => DockerSeverity::Info,
    }
}

/// The keys a dependency list names, with their spans: the scalar items of a
/// sequence (and the keys of mapping items), the keys of a mapping, or a lone
/// scalar.
pub open spec fn extract_keys(n: NodeView) -> Seq<(Seq<char>, Span)> {
    match n.value {
        ValueView::Sequence(items, _) => items_keys(items),
        ValueView::Mapping(ps, _) => pair_keys(ps),
        ValueView::Scalar(s) => seq![(s.value, n.span)],
        ValueView::Null => Seq::empty(),
    }
}

/// The keys of pairs with the pairs' spans.
pub open spec fn pair_keys(ps: Seq<PairView>) -> Seq<(Seq<char>, Span)> {
    ps.map_values(|p: PairView| (p.key.value, p.span))
}

/// The keys named by sequence items.
pub open spec fn items_keys(items: Seq<NodeView>) -> Seq<(Seq<char>, Span)>
    decreases items.len(),
{
    if items.len() == 0 {
        Seq::empty()
    } else {
        let item = items.last();
        items_keys(items.drop_last()) + match item.value {
            ValueView::Scalar(s) => seq![(s.value, item.span)],
            ValueView::Mapping(ps, _) => pair_keys(ps),
            _ => Seq::empty(),
        }
    }
}

/// A Compose error diagnostic.
pub open spec fn compose_error(rule: Seq<char>, message: Seq<char>, span: Span) -> DiagView {
    DiagView { rule_id: rule, message, severity: DockerSeverity::Error, span, quick_fix: None }
}

/// The volume name a binding refers to: its text before the first `:`, trimmed.
pub open spec fn named_volume(binding: Seq<char>) -> Seq<char> {
    trim_ws(split_at_char(binding, ':')[0])
}

/// Whether a volume name is a path (starts with `.`, `/` or `~`).
pub open spec fn is_path_like(v: Seq<char>) -> bool {
    v.len() > 0 && (v[0] == '.' || v[0] == '/' || v[0] == '~')
}

/// Diagnostics of the keys a property of service `svc` names in document `d`.
pub open spec fn reference_diags(d: ComposeView, svc: Seq<char>, prop: Seq<char>, keys: Seq<(Seq<char>, Span)>) -> Seq<DiagView>
    decreases keys.len(),
{
    if keys.len() == 0 {
        Seq::empty()
    } else {
        let (k, span) = keys.last();
        let prev = reference_diags(d, svc, prop, keys.drop_last());
        if prop == "depends_on"@ {
            if has_entry(d.services, k) {
                prev
            } else {
                prev.push(compose_error(
                    "rel-compose-dangling-depends-on"@,
                    "Service '"@ + svc + "' depends_on undefined service '"@ + k + "'"@,
                    span,
                ))
            }
        } else if prop == "networks"@ {
            if has_entry(d.networks, k) || k == "default"@ {
                prev
            } else {
                prev.push(compose_error(
                    "rel-compose-dangling-network"@,
                    "Service '"@ + svc + "' references undefined top-level network '"@ + k + "'"@,
                    span,
                ))
            }
        } else {
            let v = named_volume(k);
            if !is_path_like(v) && v.len() > 0 && !has_entry(d.volumes, v) {
                prev.push(compose_error(
                    "rel-compose-dangling-volume"@,
                    "Service '"@ + svc + "' references undefined top-level volume '"@ + v + "'"@,
                    span,
                ))
            } else {
                prev
            }
        }
    }
}

/// Relationship diagnostics of one property of service `svc`.
pub open spec fn relation_pair_diags(d: ComposeView, svc: Seq<char>, p: PairView) -> Seq<DiagView> {
    let k = p.key.value;
    if k == "depends_on"@ || k == "networks"@ || k == "volumes"@ {
        reference_diags(d, svc, k, extract_keys(p.value))
    } else {
        Seq::empty()
    }
}

/// Relationship diagnostics of the properties of service `svc`, in order.
pub open spec fn relation_pairs_diags(d: ComposeView, svc: Seq<char>, ps: Seq<PairView>) -> Seq<DiagView>
    decreases ps.len(),
{
    if ps.len() == 0 {
        Seq::empty()
    } else {
        relation_pairs_diags(d, svc, ps.drop_last()) + relation_pair_diags(d, svc, ps.last())
    }
}

/// Relationship diagnostics of services: references to services, networks and
/// volumes that the document does not define.
pub open spec fn relation_diags(d: ComposeView, svcs: Seq<(Seq<char>, NodeView)>) -> Seq<DiagView>
    decreases svcs.len(),
{
    if svcs.len() == 0 {
        Seq::empty()
    } else {
        relation_diags(d, svcs.drop_last()) + match svcs.last().1.value {
            ValueView::Mapping(ps, _) => relation_pairs_diags(d, svcs.last().0, ps),
            _ => Seq::empty(),
        }
    }
}

/// Diagnostics of the service issues, each at its service's span.
pub open spec fn services_diags(es: Seq<(Seq<char>, NodeView)>) -> Seq<DiagView>
    decreases es.len(),
{
    if es.len() == 0 {
        Seq::empty()
    } else {
        let (name, n) = es.last();
        services_diags(es.drop_last()) + service_issues(name, n).map_values(
            |i: ServiceIssueView| compose_error(i.rule_id, i.message, n.span),
        )
    }
}

/// Diagnostics of the network issues, each at its network's span.
pub open spec fn networks_diags(es: Seq<(Seq<char>, NodeView)>) -> Seq<DiagView>
    decreases es.len(),
{
    if es.len() == 0 {
        Seq::empty()
    } else {
        let (name, n) = es.last();
        networks_diags(es.drop_last()) + network_issues(name, n).map_values(
            |i: NetworkIssueView| compose_error(i.rule_id, i.message, n.span),
        )
    }
}

/// Diagnostics of the volume issues, each at its volume's span.
pub open spec fn volumes_diags(es: Seq<(Seq<char>, NodeView)>) -> Seq<DiagView>
    decreases es.len(),
{
    if es.len() == 0 {
        Seq::empty()
    } else {
        let (name, n) = es.last();
        volumes_diags(es.drop_last()) + volume_issues(name, n).map_values(
            |i: VolumeIssueView| compose_error(i.rule_id, i.message, n.span),
        )
    }
}

/// Diagnostics of Compose security findings, without quick fixes.
pub open spec fn compose_security_diags(fs: Seq<FindingView>) -> Seq<DiagView> {
    fs.map_values(
        |f: FindingView|
            DiagView {
                rule_id: f.rule_id,
                message: f.message,
                severity: security_level(f.severity),
                span: f.span,
                quick_fix: None,
            },
    )
}

/// The diagnostics of one Compose document: service, network and volume issues,
/// relationships, then security findings.
pub open spec fn compose_doc_diags(d: ComposeView) -> Seq<DiagView> {
    services_diags(d.services) + networks_diags(d.networks) + volumes_diags(d.volumes) + relation_diags(
        d,
        d.services,
    ) + compose_security_diags(services_findings(d.services))
}

/// The diagnostics of Compose documents, document by document.
pub open spec fn compose_diags(docs: Seq<ComposeView>) -> Seq<DiagView>
    decreases docs.len(),
{
    if docs.len() == 0 {
        Seq::empty()
    } else {
        compose_diags(docs.drop_last()) + compose_doc_diags(docs.last())
    }
}

/// The keys a dependency list names, with their spans.
fn extract_list_or_map_keys(node: &YamlNode) -> (r: Vec<(String, Span)>)
    ensures
        r@.map_values(|x: (String, Span)| (x.0@, x.1)) == extract_keys(node_view(*node)),
{
    let mut results: Vec<(String, Span)> = Vec::new();
    proof {
        lemma_node_view_value(*node);
    }
    match &node.value {
        YamlValue::Sequence(seq) => {
            let ghost items = crate::yaml::items_view(seq.items@);
            let mut i: usize = 0;
            proof {
                assert(items.take(0) =~= Seq::<NodeView>::empty());
                assert(results@.map_values(|x: (String, Span)| (x.0@, x.1)) =~= Seq::empty());
            }
            while i < seq.items.len()
                invariant
                    i <= seq.items.len(),
                    items == crate::yaml::items_view(seq.items@),
                    results@.map_values(|x: (String, Span)| (x.0@, x.1)) == items_keys(items.take(i as int)),
                decreases seq.items.len() - i,
            {
                let item = &seq.items[i];
                proof {
                    assert(items.take(i + 1).drop_last() =~= items.take(i as int));
                    assert(items.take(i + 1).last() == node_view(*item));
                    lemma_node_view_value(*item);
                }
                let ghost before = results@.map_values(|x: (String, Span)| (x.0@, x.1));
                match &item.value {
                    YamlValue::Scalar(sc) => {
                        results.push((sc.value.clone(), item.span));
                        proof {
                            assert(results@.map_values(|x: (String, Span)| (x.0@, x.1)) =~= before + seq![(sc.value@, item.span)]);
                        }
                    },
                    YamlValue::Mapping(m) => {
                        push_pair_keys(&mut results, m);
                    },
                    _ => {
                        proof {
                            assert(before + Seq::empty() =~= before);
                        }
                    },
                }
                i = i + 1;
            }
            proof {
                assert(items.take(seq.items.len() as int) =~= items);
            }
        },
        YamlValue::Mapping(m) => {
            proof {
                assert(results@.map_values(|x: (String, Span)| (x.0@, x.1)) =~= Seq::empty());
            }
            push_pair_keys(&mut results, m);
            proof {
                assert(Seq::<(Seq<char>, Span)>::empty() + pair_keys(crate::yaml::pairs_view(m.pairs@)) =~= pair_keys(crate::yaml::pairs_view(m.pairs@)));
            }
        },
        YamlValue::Scalar(sc) => {
            results.push((sc.value.clone(), node.span));
            proof {
                assert(results@.map_values(|x: (String, Span)| (x.0@, x.1)) =~= seq![(sc.value@, node.span)]);
            }
        },
        YamlValue::Null => {
            proof {
                assert(results@.map_values(|x: (String, Span)| (x.0@, x.1)) =~= Seq::empty());
            }
        },
    }
    results
}

fn push_pair_keys(results: &mut Vec<(String, Span)>, m: &crate::yaml::YamlMapping)
    ensures
        final(results)@.map_values(|x: (String, Span)| (x.0@, x.1)) == old(results)@.map_values(
            |x: (String, Span)| (x.0@, x.1),
        ) + pair_keys(crate::yaml::pairs_view(m.pairs@)),
{
    let ghost start = results@.map_values(|x: (String, Span)| (x.0@, x.1));
    let ghost ps = crate::yaml::pairs_view(m.pairs@);
    let mut j: usize = 0;
    proof {
        assert(start + pair_keys(ps).take(0) =~= start);
    }
    while j < m.pairs.len()
        invariant
            j <= m.pairs.len(),
            ps == crate::yaml::pairs_view(m.pairs@),
            results@.map_values(|x: (String, Span)| (x.0@, x.1)) == start + pair_keys(ps).take(j as int),
        decreases m.pairs.len() - j,
    {
        let p = &m.pairs[j];
        let ghost before = results@;
        results.push((p.key.value.clone(), p.span));
        proof {
            assert(ps[j as int] == crate::yaml::pair_view(*p));
            let f = |x: (String, Span)| (x.0@, x.1);
            assert(results@ == before.push((p.key.value, p.span)));
            assert(results@.map_values(f) =~= before.map_values(f).push((p.key.value@, p.span)));
            assert(pair_keys(ps)[j as int] == (p.key.value@, p.span));
            assert(pair_keys(ps).take(j + 1) =~= pair_keys(ps).take(j as int).push((p.key.value@, p.span)));
            assert(results@.map_values(|x: (String, Span)| (x.0@, x.1)) =~= start + pair_keys(ps).take(j + 1));
        }
        j = j + 1;
    }
    proof {
        assert(pair_keys(ps).take(m.pairs.len() as int) =~= pair_keys(ps));
    }
}

fn push_error(diags: &mut Vec<DockerDiagnostic>, rule: &str, message: String, span: Span)
    ensures
        diags_view(final(diags)@) == diags_view(old(diags)@).push(compose_error(rule@, message@, span)),
{
    let ghost prev = diags@;
    diags.push(DockerDiagnostic { rule_id: rule.to_owned(), message, severity: DockerSeverity::Error, span, quick_fix: None });
    assert(diags_view(diags@) =~= diags_view(prev).push(diags@.last()@));
}

fn push_service_issues(diags: &mut Vec<DockerDiagnostic>, issues: &Vec<crate::docker::compose_services::ComposeServiceIssue>, span: Span)
    ensures
        diags_view(final(diags)@) == diags_view(old(diags)@) + service_issues_view(issues@).map_values(
            |i: ServiceIssueView| compose_error(i.rule_id, i.message, span),
        ),
{
    let ghost start = diags_view(diags@);
    let ghost iv = service_issues_view(issues@).map_values(|i: ServiceIssueView| compose_error(i.rule_id, i.message, span));
    let mut k: usize = 0;
    proof {
        assert(start + iv.take(0) =~= start);
    }
    while k < issues.len()
        invariant
            k <= issues.len(),
            iv == service_issues_view(issues@).map_values(|i: ServiceIssueView| compose_error(i.rule_id, i.message, span)),
            diags_view(diags@) == start + iv.take(k as int),
        decreases issues.len() - k,
    {
        push_error(diags, issues[k].rule_id.as_str(), issues[k].message.clone(), span);
        assert(start + iv.take(k + 1) =~= (start + iv.take(k as int)).push(iv[k as int]));
        k = k + 1;
    }
    assert(iv.take(issues.len() as int) =~= iv);
}

fn push_network_issues(diags: &mut Vec<DockerDiagnostic>, issues: &Vec<crate::docker::compose_networks::ComposeNetworkIssue>, span: Span)
    ensures
        diags_view(final(diags)@) == diags_view(old(diags)@) + network_issues_view(issues@).map_values(
            |i: NetworkIssueView| compose_error(i.rule_id, i.message, span),
        ),
{
    let ghost start = diags_view(diags@);
    let ghost iv = network_issues_view(issues@).map_values(|i: NetworkIssueView| compose_error(i.rule_id, i.message, span));
    let mut k: usize = 0;
    proof {
        assert(start + iv.take(0) =~= start);
    }
    while k < issues.len()
        invariant
            k <= issues.len(),
            iv == network_issues_view(issues@).map_values(|i: NetworkIssueView| compose_error(i.rule_id, i.message, span)),
            diags_view(diags@) == start + iv.take(k as int),
        decreases issues.len() - k,
    {
        push_error(diags, issues[k].rule_id.as_str(), issues[k].message.clone(), span);
        assert(start + iv.take(k + 1) =~= (start + iv.take(k as int)).push(iv[k as int]));
        k = k + 1;
    }
    assert(iv.take(issues.len() as int) =~= iv);
}

fn push_volume_issues(diags: &mut Vec<DockerDiagnostic>, issues: &Vec<crate::docker::compose_volumes::ComposeVolumeIssue>, span: Span)
    ensures
        diags_view(final(diags)@) == diags_view(old(diags)@) + volume_issues_view(issues@).map_values(
            |i: VolumeIssueView| compose_error(i.rule_id, i.message, span),
        ),
{
    let ghost start = diags_view(diags@);
    let ghost iv = volume_issues_view(issues@).map_values(|i: VolumeIssueView| compose_error(i.rule_id, i.message, span));
    let mut k: usize = 0;
    proof {
        assert(start + iv.take(0) =~= start);
    }
    while k < issues.len()
        invariant
            k <= issues.len(),
            iv == volume_issues_view(issues@).map_values(|i: VolumeIssueView| compose_error(i.rule_id, i.message, span)),
            diags_view(diags@) == start + iv.take(k as int),
        decreases issues.len() - k,
    {
        push_error(diags, issues[k].rule_id.as_str(), issues[k].message.clone(), span);
        assert(start + iv.take(k + 1) =~= (start + iv.take(k as int)).push(iv[k as int]));
        k = k + 1;
    }
    assert(iv.take(issues.len() as int) =~= iv);
}

/// The volume name a binding refers to, and whether it is a path.
fn volume_name_of(binding: &str) -> (r: (String, bool))
    ensures
        r.0@ == named_volume(binding@),
        r.1 == is_path_like(named_volume(binding@)),
{
    let v = crate::text::chars_of(binding);
    let parts = split_chars_at(&v, ':');
    proof {
        crate::docker::scan::lemma_split_at_char_nonempty(v@, ':');
    }
    let first = trim_chars(&parts[0], CharClass::Whitespace);
    let path_like = first.len() > 0 && (first[0] == '.' || first[0] == '/' || first[0] == '~');
    (crate::text::string_from_chars(first.as_slice()), path_like)
}

/// Diagnostics of the keys a property of service `svc` names.
fn check_references(
    doc: &ComposeDocument,
    svc: &str,
    prop: &str,
    keys: &Vec<(String, Span)>,
    diags: &mut Vec<DockerDiagnostic>,
)
    ensures
        diags_view(final(diags)@) == diags_view(old(diags)@) + reference_diags(
            compose_view(*doc),
            svc@,
            prop@,
            keys@.map_values(|x: (String, Span)| (x.0@, x.1)),
        ),
{
    let ghost start = diags_view(diags@);
    let ghost d = compose_view(*doc);
    let ghost kv = keys@.map_values(|x: (String, Span)| (x.0@, x.1));
    let mut i: usize = 0;
    proof {
        assert(kv.take(0) =~= Seq::<(Seq<char>, Span)>::empty());
        assert(start + Seq::empty() =~= start);
    }
    while i < keys.len()
        invariant
            i <= keys.len(),
            d == compose_view(*doc),
            kv == keys@.map_values(|x: (String, Span)| (x.0@, x.1)),
            diags_view(diags@) == start + reference_diags(d, svc@, prop@, kv.take(i as int)),
        decreases keys.len() - i,
    {
        let k = keys[i].0.as_str();
        let span = keys[i].1;
        let ghost before = diags_view(diags@);
        proof {
            assert(kv.take(i + 1).drop_last() =~= kv.take(i as int));
            assert(kv.take(i + 1).last() == (k@, span));
        }
        if str_eq(prop, "depends_on") {
            if find_entry(&doc.services, k).is_none() {
                let message = join5("Service '", svc, "' depends_on undefined service '", k, "'");
                push_error(diags, "rel-compose-dangling-depends-on", message, span);
            }
        } else if str_eq(prop, "networks") {
            if find_entry(&doc.networks, k).is_none() && !str_eq(k, "default") {
                let message = join5("Service '", svc, "' references undefined top-level network '", k, "'");
                push_error(diags, "rel-compose-dangling-network", message, span);
            }
        } else {
            let (named, path_like) = volume_name_of(k);
            if !path_like && !named.as_str().is_empty() && find_entry(&doc.volumes, named.as_str()).is_none() {
                let message = join5("Service '", svc, "' references undefined top-level volume '", named.as_str(), "'");
                push_error(diags, "rel-compose-dangling-volume", message, span);
            }
        }
        proof {
            assert(diags_view(diags@) =~= start + reference_diags(d, svc@, prop@, kv.take(i + 1)));
        }
        i = i + 1;
    }
    proof {
        assert(kv.take(keys.len() as int) =~= kv);
    }
}

fn str_eq(a: &str, b: &str) -> (r: bool)
    ensures
        r == (a@ == b@),
{
    crate::text::str_eq(a, b)
}

/// The Docker validator.
#[derive(Debug, Clone, Copy)]
pub struct DockerValidator {
    compose_detector: ComposeDetector,
    service_validator: ComposeServiceValidator,
    network_validator: ComposeNetworkValidator,
    volume_validator: ComposeVolumeValidator,
    dockerfile_parser: DockerfileParser,
    stage_analyzer: MultiStageAnalyzer,
    security_analyzer: DockerSecurityAnalyzer,
    best_practices_analyzer: DockerBestPracticesAnalyzer,
    optimization_analyzer: DockerOptimizationAnalyzer,
}

impl Default for DockerValidator {
    fn default() -> (r: Self) {
        DockerValidator::new()
    }
}

impl DockerValidator {
    /// Creates a validator.
    pub fn new() -> (r: Self) {
        DockerValidator {
            compose_detector: ComposeDetector::new(),
            service_validator: ComposeServiceValidator::new(),
            network_validator: ComposeNetworkValidator::new(),
            volume_validator: ComposeVolumeValidator::new(),
            dockerfile_parser: DockerfileParser::new(),
            stage_analyzer: MultiStageAnalyzer::new(),
            security_analyzer: DockerSecurityAnalyzer::new(),
            best_practices_analyzer: DockerBestPracticesAnalyzer::new(),
            optimization_analyzer: DockerOptimizationAnalyzer::new(),
        }
    }

    /// Validates the Compose documents of a YAML stream: service, network and
    /// volume checks, references between them, and security findings.
    pub fn validate_compose_ast(&self, ast: &YamlAST) -> (r: Vec<DockerDiagnostic>)
        ensures
            diags_view(r@) == compose_diags(compose_docs(ast.documents@)),
    {
        let mut diagnostics: Vec<DockerDiagnostic> = Vec::new();
        let docs = self.compose_detector.parse_compose(ast);
        let ghost dv = compose_views(docs@);
        let mut d: usize = 0;
        proof {
            assert(dv.take(0) =~= Seq::<ComposeView>::empty());
            assert(diags_view(diagnostics@) =~= Seq::empty());
        }
        while d < docs.len()
            invariant
                d <= docs.len(),
                dv == compose_views(docs@),
                diags_view(diagnostics@) == compose_diags(dv.take(d as int)),
            decreases docs.len() - d,
        {
            let doc = &docs[d];
            let ghost start = diags_view(diagnostics@);
            let ghost cv = compose_view(*doc);
            proof {
                assert(dv.take(d + 1).drop_last() =~= dv.take(d as int));
                assert(dv.take(d + 1).last() == cv);
            }
            // Services.
            let mut i: usize = 0;
            proof {
                assert(cv.services.take(0) =~= Seq::<(Seq<char>, NodeView)>::empty());
                assert(start + Seq::empty() =~= start);
            }
            while i < doc.services.len()
                invariant
                    i <= doc.services.len(),
                    cv == compose_view(*doc),
                    diags_view(diagnostics@) == start + services_diags(cv.services.take(i as int)),
                decreases doc.services.len() - i,
            {
                let issues = self.service_validator.validate_service(doc.services[i].0.as_str(), &doc.services[i].1);
                let ghost before = diags_view(diagnostics@);
                push_service_issues(&mut diagnostics, &issues, doc.services[i].1.span);
                proof {
                    assert(cv.services.take(i + 1).drop_last() =~= cv.services.take(i as int));
                    assert(cv.services.take(i + 1).last() == (doc.services@[i as int].0@, node_view(doc.services@[i as int].1)));
                    assert(diags_view(diagnostics@) =~= start + services_diags(cv.services.take(i + 1)));
                }
                i = i + 1;
            }
            proof {
                assert(cv.services.take(doc.services.len() as int) =~= cv.services);
            }
            let ghost after_services = diags_view(diagnostics@);
            // Networks.
            let mut i: usize = 0;
            proof {
                assert(cv.networks.take(0) =~= Seq::<(Seq<char>, NodeView)>::empty());
                assert(after_services + Seq::empty() =~= after_services);
            }
            while i < doc.networks.len()
                invariant
                    i <= doc.networks.len(),
                    cv == compose_view(*doc),
                    diags_view(diagnostics@) == after_services + networks_diags(cv.networks.take(i as int)),
                decreases doc.networks.len() - i,
            {
                let issues = self.network_validator.validate_network(doc.networks[i].0.as_str(), &doc.networks[i].1);
                push_network_issues(&mut diagnostics, &issues, doc.networks[i].1.span);
                proof {
                    assert(cv.networks.take(i + 1).drop_last() =~= cv.networks.take(i as int));
                    assert(cv.networks.take(i + 1).last() == (doc.networks@[i as int].0@, node_view(doc.networks@[i as int].1)));
                    assert(diags_view(diagnostics@) =~= after_services + networks_diags(cv.networks.take(i + 1)));
                }
                i = i + 1;
            }
            proof {
                assert(cv.networks.take(doc.networks.len() as int) =~= cv.networks);
            }
            let ghost after_networks = diags_view(diagnostics@);
            // Volumes.
            let mut i: usize = 0;
            proof {
                assert(cv.volumes.take(0) =~= Seq::<(Seq<char>, NodeView)>::empty());
                assert(after_networks + Seq::empty() =~= after_networks);
            }
            while i < doc.volumes.len()
                invariant
                    i <= doc.volumes.len(),
                    cv == compose_view(*doc),
                    diags_view(diagnostics@) == after_networks + volumes_diags(cv.volumes.take(i as int)),
                decreases doc.volumes.len() - i,
            {
                let issues = self.volume_validator.validate_volume(doc.volumes[i].0.as_str(), &doc.volumes[i].1);
                push_volume_issues(&mut diagnostics, &issues, doc.volumes[i].1.span);
                proof {
                    assert(cv.volumes.take(i + 1).drop_last() =~= cv.volumes.take(i as int));
                    assert(cv.volumes.take(i + 1).last() == (doc.volumes@[i as int].0@, node_view(doc.volumes@[i as int].1)));
                    assert(diags_view(diagnostics@) =~= after_networks + volumes_diags(cv.volumes.take(i + 1)));
                }
                i = i + 1;
            }
            proof {
                assert(cv.volumes.take(doc.volumes.len() as int) =~= cv.volumes);
            }
            // Relationships.
            self.validate_compose_relationships(doc, &mut diagnostics);
            let ghost after_relations = diags_view(diagnostics@);
            // Security.
            let findings = self.security_analyzer.audit_compose(doc);
            let ghost fv = crate::docker::security::findings_view(findings@);
            let mut f: usize = 0;
            proof {
                assert(after_relations + compose_security_diags(fv).take(0) =~= after_relations);
            }
            while f < findings.len()
                invariant
                    f <= findings.len(),
                    fv == crate::docker::security::findings_view(findings@),
                    diags_view(diagnostics@) == after_relations + compose_security_diags(fv).take(f as int),
                decreases findings.len() - f,
            {
                let fd = &findings[f];
                let ghost prev = diagnostics@;
                diagnostics.push(DockerDiagnostic {
                    rule_id: fd.rule_id.clone(),
                    message: fd.message.clone(),
                    severity: security_level_of(fd.severity),
                    span: fd.span,
                    quick_fix: None,
                });
                proof {
                    assert(fv[f as int] == fd@);
                    assert(diags_view(diagnostics@) =~= diags_view(prev).push(diagnostics@.last()@));
                    assert(compose_security_diags(fv).take(f + 1) =~= compose_security_diags(fv).take(f as int).push(
                        diagnostics@.last()@,
                    ));
                }
                f = f + 1;
            }
            proof {
                assert(compose_security_diags(fv).take(findings.len() as int) =~= compose_security_diags(fv));
                assert(diags_view(diagnostics@) =~= compose_diags(dv.take(d + 1)));
            }
            d = d + 1;
        }
        proof {
            assert(dv.take(docs.len() as int) =~= dv);
        }
        diagnostics
    }

    /// Diagnostics of references from services to services, networks and volumes
    /// that the document does not define.
    fn validate_compose_relationships(&self, doc: &ComposeDocument, diagnostics: &mut Vec<DockerDiagnostic>)
        ensures
            diags_view(final(diagnostics)@) == diags_view(old(diagnostics)@) + relation_diags(
                compose_view(*doc),
                compose_view(*doc).services,
            ),
    {
        let ghost start = diags_view(diagnostics@);
        let ghost cv = compose_view(*doc);
        let mut i: usize = 0;
        proof {
            assert(cv.services.take(0) =~= Seq::<(Seq<char>, NodeView)>::empty());
            assert(start + Seq::empty() =~= start);
        }
        while i < doc.services.len()
            invariant
                i <= doc.services.len(),
                cv == compose_view(*doc),
                diags_view(diagnostics@) == start + relation_diags(cv, cv.services.take(i as int)),
            decreases doc.services.len() - i,
        {
            let svc_name = doc.services[i].0.as_str();
            let node = &doc.services[i].1;
            let ghost before = diags_view(diagnostics@);
            proof {
                assert(cv.services.take(i + 1).drop_last() =~= cv.services.take(i as int));
                assert(cv.services.take(i + 1).last() == (svc_name@, node_view(*node)));
                lemma_node_view_value(*node);
            }
            match &node.value {
                YamlValue::Mapping(map) => {
                    let ghost ps = crate::yaml::pairs_view(map.pairs@);
                    let mut j: usize = 0;
                    proof {
                        assert(ps.take(0) =~= Seq::<PairView>::empty());
                        assert(before + Seq::empty() =~= before);
                    }
                    while j < map.pairs.len()
                        invariant
                            j <= map.pairs.len(),
                            cv == compose_view(*doc),
                            ps == crate::yaml::pairs_view(map.pairs@),
                            diags_view(diagnostics@) == before + relation_pairs_diags(cv, svc_name@, ps.take(j as int)),
                        decreases map.pairs.len() - j,
                    {
                        let pair = &map.pairs[j];
                        let ghost mid = diags_view(diagnostics@);
                        proof {
                            assert(ps.take(j + 1).drop_last() =~= ps.take(j as int));
                            assert(ps.take(j + 1).last() == crate::yaml::pair_view(*pair));
                        }
                        let k = pair.key.value.as_str();
                        if str_eq(k, "depends_on") || str_eq(k, "networks") || str_eq(k, "volumes") {
                            let keys = extract_list_or_map_keys(&pair.value);
                            check_references(doc, svc_name, k, &keys, diagnostics);
                        } else {
                            proof {
                                assert(mid + Seq::empty() =~= mid);
                            }
                        }
                        proof {
                            assert(diags_view(diagnostics@) =~= before + relation_pairs_diags(cv, svc_name@, ps.take(j + 1)));
                        }
                        j = j + 1;
                    }
                    proof {
                        assert(ps.take(map.pairs.len() as int) =~= ps);
                    }
                },
                _ => {
                    proof {
                        assert(before + Seq::empty() =~= before);
                    }
                },
            }
            proof {
                assert(diags_view(diagnostics@) =~= start + relation_diags(cv, cv.services.take(i + 1)));
            }
            i = i + 1;
        }
        proof {
            assert(cv.services.take(doc.services.len() as int) =~= cv.services);
        }
    }

    /// Validates a Dockerfile source.
    pub fn validate_dockerfile(&self, source: &str) -> (r: Vec<DockerDiagnostic>)
        ensures
            diags_view(r@) == dockerfile_diags(parse_spec(source@)),
    {
        let mut diagnostics: Vec<DockerDiagnostic> = Vec::new();
        let ast = match self.dockerfile_parser.parse(source) {
            Ok(ast) => ast,
            Err(err) => {
                let p = Position::new(1, 1, 0);
                diagnostics.push(DockerDiagnostic {
                    rule_id: "dockerfile-syntax-error".to_owned(),
                    message: err.to_message(),
                    severity: DockerSeverity::Error,
                    span: Span::new(p, p),
                    quick_fix: None,
                });
                return diagnostics;
            },
        };
        let ghost is = instrs_view(ast.instructions@);
        assert(is == parse_spec(source@));
        // Stage references.
        let issues = self.stage_analyzer.validate_stage_references(&ast);
        let mut k: usize = 0;
        while k < issues.len()
            invariant
                k <= issues.len(),
                is == instrs_view(ast.instructions@),
                crate::docker::stages::issues_view(issues@) == reference_issues(is),
                diags_view(diagnostics@) == stage_diags(reference_issues(is).take(k as int)),
            decreases issues.len() - k,
        {
            assert(reference_issues(is)[k as int] == issues@[k as int]@);
            let ghost prev = diagnostics@;
            diagnostics.push(DockerDiagnostic {
                rule_id: "docker-invalid-stage-reference".to_owned(),
                message: issues[k].message.clone(),
                severity: DockerSeverity::Error,
                span: point(issues[k].line),
                quick_fix: None,
            });
            assert(diags_view(diagnostics@) =~= diags_view(prev).push(diagnostics@.last()@));
            assert(stage_diags(reference_issues(is).take(k + 1)) =~= stage_diags(reference_issues(is).take(k as int)).push(diagnostics@.last()@));
            k = k + 1;
        }
        assert(reference_issues(is).take(issues.len() as int) =~= reference_issues(is));
        let ghost after_stages = diagnostics@;
        // Repeated CMD.
        let mut cmds: usize = 0;
        let mut i: usize = 0;
        while i < ast.instructions.len()
            invariant
                i <= ast.instructions.len(),
                is == instrs_view(ast.instructions@),
                cmds == cmd_count(is.take(i as int)),
                cmds <= i,
                diags_view(diagnostics@) == diags_view(after_stages) + cmd_diags(is.take(i as int)),
            decreases ast.instructions.len() - i,
        {
            let inst = &ast.instructions[i];
            assert(is[i as int] == inst@);
            assert(is.take(i + 1).drop_last() =~= is.take(i as int));
            assert(is.take(i + 1).last() == inst@);
            match &inst.kind {
                InstructionKind::Cmd { .. } => {
                    cmds = cmds + 1;
                    if cmds > 1 {
                        let ghost prev = diagnostics@;
                        diagnostics.push(DockerDiagnostic {
                            rule_id: "dockerfile-multiple-cmd".to_owned(),
                            message: "Multiple 'CMD' instructions found; only the last 'CMD' will take effect".to_owned(),
                            severity: DockerSeverity::Warning,
                            span: inst.span,
                            quick_fix: None,
                        });
                        assert(diags_view(diagnostics@) =~= diags_view(prev).push(diagnostics@.last()@));
                    }
                },
                _ => {},
            }
            i = i + 1;
        }
        assert(is.take(ast.instructions.len() as int) =~= is);
        let ghost after_cmds = diagnostics@;
        // Security.
        let findings = self.security_analyzer.audit_dockerfile(&ast);
        let ghost fv = audit_spec(is);
        let mut f: usize = 0;
        while f < findings.len()
            invariant
                f <= findings.len(),
                crate::docker::security::findings_view(findings@) == fv,
                diags_view(diagnostics@) == diags_view(after_cmds) + security_diags(fv.take(f as int)),
            decreases findings.len() - f,
        {
            let fd = &findings[f];
            assert(fv[f as int] == fd@);
            let quick_fix = match &fd.fix_suggestion {
                Some(x) => Some(("Apply security fix".to_owned(), x.clone())),
                None => None,
            };
            let ghost prev = diagnostics@;
            diagnostics.push(DockerDiagnostic {
                rule_id: fd.rule_id.clone(),
                message: fd.message.clone(),
                severity: security_level_of(fd.severity),
                span: fd.span,
                quick_fix,
            });
            assert(security_diags(fv.take(f + 1)) =~= security_diags(fv.take(f as int)).push(diagnostics@.last()@));
            assert(diags_view(diagnostics@) =~= diags_view(prev).push(diagnostics@.last()@));
            f = f + 1;
        }
        assert(fv.take(findings.len() as int) =~= fv);
        let ghost after_security = diagnostics@;
        // Best practices.
        let recs = self.best_practices_analyzer.evaluate_dockerfile(&ast);
        let ghost rv = best_practices_spec(is);
        let mut b: usize = 0;
        while b < recs.len()
            invariant
                b <= recs.len(),
                crate::docker::best_practices::recs_view(recs@) == rv,
                diags_view(diagnostics@) == diags_view(after_security) + note_diags(rv.take(b as int), DockerSeverity::Hint),
            decreases recs.len() - b,
        {
            let rc = &recs[b];
            assert(rv[b as int] == rc@);
            let ghost prev = diagnostics@;
            diagnostics.push(DockerDiagnostic {
                rule_id: rc.rule_id.clone(),
                message: rc.message.clone(),
                severity: DockerSeverity::Hint,
                span: point(rc.line),
                quick_fix: None,
            });
            assert(note_diags(rv.take(b + 1), DockerSeverity::Hint) =~= note_diags(rv.take(b as int), DockerSeverity::Hint).push(diagnostics@.last()@));
            assert(diags_view(diagnostics@) =~= diags_view(prev).push(diagnostics@.last()@));
            b = b + 1;
        }
        assert(rv.take(recs.len() as int) =~= rv);
        let ghost after_bp = diagnostics@;
        // Optimization.
        let opts = self.optimization_analyzer.analyze(&ast);
        let ghost ov = optimization_spec(is);
        let mut o: usize = 0;
        while o < opts.len()
            invariant
                o <= opts.len(),
                crate::docker::optimization::opt_view(opts@) == ov,
                diags_view(diagnostics@) == diags_view(after_bp) + note_diags(ov.take(o as int), DockerSeverity::Info),
            decreases opts.len() - o,
        {
            let op = &opts[o];
            assert(ov[o as int] == op@);
            let ghost prev = diagnostics@;
            diagnostics.push(DockerDiagnostic {
                rule_id: op.rule_id.clone(),
                message: op.message.clone(),
                severity: DockerSeverity::Info,
                span: point(op.line),
                quick_fix: None,
            });
            assert(note_diags(ov.take(o + 1), DockerSeverity::Info) =~= note_diags(ov.take(o as int), DockerSeverity::Info).push(diagnostics@.last()@));
            assert(diags_view(diagnostics@) =~= diags_view(prev).push(diagnostics@.last()@));
            o = o + 1;
        }
        assert(ov.take(opts.len() as int) =~= ov);
        assert(diags_view(diagnostics@) =~= dockerfile_diags(is));
        diagnostics
    }
}

} // verus!
