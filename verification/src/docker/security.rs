//! Security audit of Dockerfiles and Compose files: unpinned base images, root
//! users, `ADD` of local files, secrets in `ENV` and `ARG`, privileged containers,
//! dangerous Linux capabilities (`ALL`, `SYS_ADMIN`), host networking and writable
//! root filesystems.

use vstd::prelude::*;
use crate::docker::dockerfile::DockerfileAST;
use crate::docker::instructions::{InstrView, InstructionKind, KindView, instrs_view};
use crate::docker::scan::has_prefix;
use crate::text::{concat_strs, contains_seq, lowercase, str_contains, str_ends_with, str_eq, str_starts_with, str_to_lowercase};
use crate::yaml::{NodeView, PairView, Span, ValueView, YamlValue, lemma_node_view_value, node_view};
use crate::docker::compose::{ComposeDocument, ComposeView, compose_view, entries_view};
use crate::docker::compose_services::{join3, trimmed};
use crate::docker::scan::trim_ws;

verus! {

/// Severity of a security finding.
#[derive(Debug, Clone, Copy, PartialEq, Eq, Structural, Hash)]
pub enum DockerSecuritySeverity {
    Critical,
    High,
    Medium,
    Low,
}

/// A security finding.
#[derive(Debug, Clone, PartialEq, Eq)]
pub struct DockerSecurityFinding {
    /// Rule identifier.
    pub rule_id: String,
    /// Human-readable message.
    pub message: String,
    /// Severity level.
    pub severity: DockerSecuritySeverity,
    /// Line number.
    pub line: usize,
    /// Source span.
    pub span: Span,
    /// Suggested fix.
    pub fix_suggestion: Option<String>,
}

/// The value of a security finding.
pub struct FindingView {
    pub rule_id: Seq<char>,
    pub message: Seq<char>,
    pub severity: DockerSecuritySeverity,
    pub line: usize,
    pub span: Span,
    pub fix_suggestion: Option<Seq<char>>,
}

impl View for DockerSecurityFinding {
    type V = FindingView;

    open spec fn view(&self) -> FindingView {
        FindingView {
            rule_id: self.rule_id@,
            message: self.message@,
            severity: self.severity,
            line: self.line,
            span: self.span,
            fix_suggestion: match self.fix_suggestion {
                Some(s) => Some(s@),
                None => None,
            },
        }
    }
}

/// The values of a list of findings.
pub open spec fn findings_view(v: Seq<DockerSecurityFinding>) -> Seq<FindingView> {
    v.map_values(|f: DockerSecurityFinding| f@)
}

/// A name that looks like it holds a credential: lowercased, it contains `pass`,
/// `secret`, `key`, `token` or `api_key`.
pub open spec fn secret_key(k: Seq<char>) -> bool {
    let l = lowercase(k);
    contains_seq(l, "pass"@) || contains_seq(l, "secret"@) || contains_seq(l, "key"@)
        || contains_seq(l, "token"@) || contains_seq(l, "api_key"@)
}

/// A value that looks like a credential: at least 8 bytes long and containing
/// `secret`, `password` or `1234`.
pub open spec fn secret_value(v: Seq<char>) -> bool {
    (vstd::utf8::encode_utf8(v).len() as usize) >= 8 && (contains_seq(v, "secret"@) || contains_seq(
        v,
        "password"@,
    ) || contains_seq(v, "1234"@))
}

fn is_potential_secret_key(k: &str) -> (r: bool)
    ensures
        r == secret_key(k@),
{
    let lower = str_to_lowercase(k);
    let l = lower.as_str();
    str_contains(l, "pass") || str_contains(l, "secret") || str_contains(l, "key") || str_contains(
        l,
        "token",
    ) || str_contains(l, "api_key")
}

fn is_potential_secret_value(v: &str) -> (r: bool)
    ensures
        r == secret_value(v@),
{
    v.len() >= 8 && (str_contains(v, "secret") || str_contains(v, "password") || str_contains(
        v,
        "1234",
    ))
}

/// True when a base image is unpinned: it ends in `:latest`, has no `:`, or
/// mentions `latest`.
pub open spec fn unpinned(img: Seq<char>) -> bool {
    has_suffix_seq(img, ":latest"@) || !contains_seq(img, ":"@) || contains_seq(img, "latest"@)
}

/// True when `s` ends with `p`.
pub open spec fn has_suffix_seq(s: Seq<char>, p: Seq<char>) -> bool {
    p.len() <= s.len() && s.skip(s.len() - p.len()) == p
}

/// A finding.
pub open spec fn finding(
    rule: Seq<char>,
    message: Seq<char>,
    severity: DockerSecuritySeverity,
    iv: InstrView,
    fix: Seq<char>,
) -> FindingView {
    FindingView { rule_id: rule, message, severity, line: iv.line, span: iv.span, fix_suggestion: Some(fix) }
}

/// True when some source is an `http://` or `https://` URL.
pub open spec fn any_url(sources: Seq<Seq<char>>) -> bool {
    exists|i: int| 0 <= i < sources.len() && (has_prefix(#[trigger] sources[i], "http://"@) || has_prefix(sources[i], "https://"@))
}

/// Findings for the `ENV` pairs, in order.
pub open spec fn env_findings(pairs: Seq<(Seq<char>, Seq<char>)>, iv: InstrView) -> Seq<FindingView>
    decreases pairs.len(),
{
    if pairs.len() == 0 {
        Seq::empty()
    } else {
        let prev = env_findings(pairs.drop_last(), iv);
        let (k, v) = pairs.last();
        if secret_key(k) || secret_value(v) {
            prev.push(finding(
                "sec-docker-secret-in-env"@,
                "Potential secret/credential key '"@ + k + "' in ENV instruction"@,
                DockerSecuritySeverity::Critical,
                iv,
                "Pass secrets via Docker Secrets or build-time mounts"@,
            ))
        } else {
            prev
        }
    }
}

/// Findings for one instruction.
pub open spec fn instruction_findings(iv: InstrView) -> Seq<FindingView> {
    match iv.kind {
        KindView::From { image, .. } => {
            let img = crate::docker::scan::trim_ws(image);
            if unpinned(img) {
                seq![finding(
                    "sec-docker-no-latest-tag"@,
                    "Base image '"@ + img + "' uses 'latest' or unpinned tag"@,
                    DockerSecuritySeverity::Medium,
                    iv,
                    "Pin base image to explicit semver tag or SHA digest"@,
                )]
            } else {
                Seq::empty()
            }
        },
        KindView::User { user, .. } => if user == "root"@ || user == "0"@ {
            seq![finding(
                "sec-docker-user-root"@,
                "Explicitly setting 'USER root' creates container privilege risk"@,
                DockerSecuritySeverity::High,
                iv,
                "USER appuser"@,
            )]
        } else {
            Seq::empty()
        },
        KindView::Add { sources, .. } => if !any_url(sources) {
            seq![finding(
                "sec-docker-use-copy-instead-of-add"@,
                "'ADD' used for local files; use 'COPY' unless auto-extracting tarballs"@,
                DockerSecuritySeverity::Low,
                iv,
                "COPY"@,
            )]
        } else {
            Seq::empty()
        },
        KindView::Env { pairs } => env_findings(pairs, iv),
        KindView::Arg { name, default_value: Some(v) } => if secret_key(name) || secret_value(v) {
            seq![finding(
                "sec-docker-secret-in-arg"@,
                "Potential default secret value in ARG '"@ + name + "'"@,
                DockerSecuritySeverity::Critical,
                iv,
                "Do not embed hardcoded secrets in Dockerfile ARG"@,
            )]
        } else {
            Seq::empty()
        },
        _ => Seq::empty(),
    }
}

/// Findings for the instructions, in order.
pub open spec fn instructions_findings(is: Seq<InstrView>) -> Seq<FindingView>
    decreases is.len(),
{
    if is.len() == 0 {
        Seq::empty()
    } else {
        instructions_findings(is.drop_last()) + instruction_findings(is.last())
    }
}

/// True when some instruction is a `USER` instruction.
pub open spec fn has_user(is: Seq<InstrView>) -> bool {
    exists|i: int| 0 <= i < is.len() && (#[trigger] is[i]).kind is User
}

/// The audit of a Dockerfile: the findings of every instruction, then, when no
/// instruction sets a user, a finding at the last instruction.
pub open spec fn audit_spec(is: Seq<InstrView>) -> Seq<FindingView> {
    let base = instructions_findings(is);
    if !has_user(is) && is.len() > 0 {
        base.push(finding(
            "sec-docker-missing-user"@,
            "Dockerfile runs as default 'root' user; add a non-root 'USER' instruction"@,
            DockerSecuritySeverity::High,
            is.last(),
            "USER 10001"@,
        ))
    } else {
        base
    }
}

/// Every finding of an `ENV` instruction is a secret finding at its line.
proof fn lemma_env_findings_facts(pairs: Seq<(Seq<char>, Seq<char>)>, iv: InstrView)
    ensures
        forall|j: int| 0 <= j < env_findings(pairs, iv).len() ==> {
            &&& (#[trigger] env_findings(pairs, iv)[j]).line == iv.line
            &&& env_findings(pairs, iv)[j].rule_id == "sec-docker-secret-in-env"@
        },
    decreases pairs.len(),
{
    if pairs.len() > 0 {
        lemma_env_findings_facts(pairs.drop_last(), iv);
    }
}

/// Every finding of one instruction stands at its line and is no missing-user finding.
proof fn lemma_instruction_findings_facts(iv: InstrView)
    ensures
        forall|j: int| 0 <= j < instruction_findings(iv).len() ==> {
            &&& (#[trigger] instruction_findings(iv)[j]).line == iv.line
            &&& instruction_findings(iv)[j].rule_id != "sec-docker-missing-user"@
        },
{
    reveal_strlit("sec-docker-missing-user");
    reveal_strlit("sec-docker-no-latest-tag");
    reveal_strlit("sec-docker-user-root");
    reveal_strlit("sec-docker-use-copy-instead-of-add");
    reveal_strlit("sec-docker-secret-in-env");
    reveal_strlit("sec-docker-secret-in-arg");
    match iv.kind {
        KindView::Env { pairs } => {
            lemma_env_findings_facts(pairs, iv);
            assert forall|j: int| 0 <= j < instruction_findings(iv).len() implies
                (#[trigger] instruction_findings(iv)[j]).rule_id != "sec-docker-missing-user"@ by {
                assert(instruction_findings(iv)[j].rule_id.len() != "sec-docker-missing-user"@.len());
            }
        },
        _ => {
            assert forall|j: int| 0 <= j < instruction_findings(iv).len() implies
                (#[trigger] instruction_findings(iv)[j]).rule_id != "sec-docker-missing-user"@ by {
                assert(instruction_findings(iv)[j].rule_id.len() != "sec-docker-missing-user"@.len());
            }
        },
    }
}

/// Every finding of the instructions stands at the line of one of them and is no
/// missing-user finding.
proof fn lemma_instructions_findings_facts(is: Seq<InstrView>)
    ensures
        forall|j: int| 0 <= j < instructions_findings(is).len() ==> {
            &&& exists|k: int| 0 <= k < is.len() && (#[trigger] instructions_findings(is)[j]).line == is[k].line
            &&& instructions_findings(is)[j].rule_id != "sec-docker-missing-user"@
        },
    decreases is.len(),
{
    if is.len() > 0 {
        let init = is.drop_last();
        lemma_instructions_findings_facts(init);
        lemma_instruction_findings_facts(is.last());
        let prev = instructions_findings(init);
        let last = instruction_findings(is.last());
        assert forall|j: int| 0 <= j < instructions_findings(is).len() implies {
            &&& exists|k: int| 0 <= k < is.len() && (#[trigger] instructions_findings(is)[j]).line == is[k].line
            &&& instructions_findings(is)[j].rule_id != "sec-docker-missing-user"@
        } by {
            if j < prev.len() {
                assert(instructions_findings(is)[j] == prev[j]);
                let k = choose|k: int| 0 <= k < init.len() && prev[j].line == init[k].line;
                assert(is[k] == init[k]);
            } else {
                assert(instructions_findings(is)[j] == last[j - prev.len()]);
                assert(instructions_findings(is)[j].line == is[is.len() - 1].line);
            }
        }
    }
}

/// The audit of a Dockerfile's instructions reports a missing non-root user exactly
/// when there are instructions and none is `USER`; it reports it at most once, as
/// its last finding, at the last instruction's line. Every finding stands at the
/// line of some instruction, and no instructions give no findings.
pub proof fn lemma_audit_missing_user(is: Seq<InstrView>)
    ensures
        is.len() == 0 ==> audit_spec(is).len() == 0,
        forall|j: int| 0 <= j < audit_spec(is).len() ==> exists|k: int|
            0 <= k < is.len() && (#[trigger] audit_spec(is)[j]).line == is[k].line,
        forall|j: int| 0 <= j < audit_spec(is).len() && (#[trigger] audit_spec(is)[j]).rule_id
            == "sec-docker-missing-user"@ ==> j == audit_spec(is).len() - 1 && audit_spec(is)[j].line
            == is.last().line,
        (is.len() > 0 && !has_user(is)) == (audit_spec(is).len() > 0 && audit_spec(is).last().rule_id
            == "sec-docker-missing-user"@),
{
    lemma_instructions_findings_facts(is);
    let base = instructions_findings(is);
    if is.len() == 0 {
        assert(base.len() == 0);
    }
    if is.len() > 0 && !has_user(is) {
        assert forall|j: int| 0 <= j < audit_spec(is).len() implies exists|k: int|
            0 <= k < is.len() && (#[trigger] audit_spec(is)[j]).line == is[k].line by {
            if j == base.len() {
                assert(audit_spec(is)[j].line == is[is.len() - 1].line);
            } else {
                assert(audit_spec(is)[j] == base[j]);
            }
        }
    }
}

/// The findings of the earlier instructions stay in place, and those of the last
/// instruction follow them.
proof fn lemma_instructions_findings_contains(is: Seq<InstrView>, i: int, j: int)
    requires
        0 <= i < is.len(),
        0 <= j < instruction_findings(is[i]).len(),
    ensures
        exists|k: int|
            0 <= k < instructions_findings(is).len() && #[trigger] instructions_findings(is)[k]
                == instruction_findings(is[i])[j],
    decreases is.len(),
{
    let d = is.drop_last();
    let p = instructions_findings(d);
    let l = instruction_findings(is.last());
    assert(instructions_findings(is) == p + l);
    if i == is.len() - 1 {
        assert(is[i] == is.last());
        assert((p + l)[p.len() + j] == l[j]);
    } else {
        assert(d[i] == is[i]);
        lemma_instructions_findings_contains(d, i, j);
        let k = choose|k: int| 0 <= k < p.len() && #[trigger] p[k] == instruction_findings(d[i])[j];
        assert((p + l)[k] == p[k]);
    }
}

/// A base image with no `:` (neither a tag nor a digest) is always reported as
/// unpinned, at the line of its `FROM`.
pub proof fn lemma_untagged_image_reported(is: Seq<InstrView>, i: int)
    requires
        0 <= i < is.len(),
        is[i].kind matches KindView::From { image, .. } && forall|c: int|
            0 <= c < trim_ws(image).len() ==> trim_ws(image)[c] != ':',
    ensures
        exists|k: int|
            0 <= k < audit_spec(is).len() && (#[trigger] audit_spec(is)[k]).rule_id == "sec-docker-no-latest-tag"@
                && audit_spec(is)[k].line == is[i].line,
{
    let iv = is[i];
    if let KindView::From { image, .. } = iv.kind {
        let img = trim_ws(image);
        assert(!contains_seq(img, ":"@)) by {
            reveal_strlit(":");
            if contains_seq(img, ":"@) {
                let x = choose|x: int| crate::text::occurs_at(img, ":"@, x);
                assert(img.subrange(x, x + 1)[0] == img[x]);
            }
        }
        assert(instruction_findings(iv).len() == 1);
        lemma_instructions_findings_contains(is, i, 0);
        let base = instructions_findings(is);
        let k = choose|k: int| 0 <= k < base.len() && #[trigger] base[k] == instruction_findings(is[i])[0];
        assert(audit_spec(is)[k] == base[k]);
    }
}

/// `USER root` (or `USER 0`) is always reported as a root user, at its line.
pub proof fn lemma_root_user_reported(is: Seq<InstrView>, i: int)
    requires
        0 <= i < is.len(),
        is[i].kind matches KindView::User { user, .. } && (user == "root"@ || user == "0"@),
    ensures
        exists|k: int|
            0 <= k < audit_spec(is).len() && (#[trigger] audit_spec(is)[k]).rule_id == "sec-docker-user-root"@
                && audit_spec(is)[k].line == is[i].line,
{
    assert(instruction_findings(is[i]).len() == 1);
    lemma_instructions_findings_contains(is, i, 0);
    let base = instructions_findings(is);
    let k = choose|k: int| 0 <= k < base.len() && #[trigger] base[k] == instruction_findings(is[i])[0];
    assert(audit_spec(is)[k] == base[k]);
}

/// `ADD` of sources none of which is an `http://` or `https://` URL is always
/// reported as an `ADD` that should be a `COPY`, at its line.
pub proof fn lemma_local_add_reported(is: Seq<InstrView>, i: int)
    requires
        0 <= i < is.len(),
        is[i].kind matches KindView::Add { sources, .. } && forall|m: int|
            0 <= m < sources.len() ==> !has_prefix(#[trigger] sources[m], "http://"@) && !has_prefix(
                sources[m],
                "https://"@,
            ),
    ensures
        exists|k: int|
            0 <= k < audit_spec(is).len() && (#[trigger] audit_spec(is)[k]).rule_id
                == "sec-docker-use-copy-instead-of-add"@ && audit_spec(is)[k].line == is[i].line,
{
    assert(instruction_findings(is[i]).len() == 1);
    lemma_instructions_findings_contains(is, i, 0);
    let base = instructions_findings(is);
    let k = choose|k: int| 0 <= k < base.len() && #[trigger] base[k] == instruction_findings(is[i])[0];
    assert(audit_spec(is)[k] == base[k]);
}

/// Every finding of the instructions is a finding of one of them: the `k`-th is
/// the `r.1`-th finding of instruction `r.0`.
proof fn lemma_instructions_findings_origin(is: Seq<InstrView>, k: int) -> (r: (int, int))
    requires
        0 <= k < instructions_findings(is).len(),
    ensures
        0 <= r.0 < is.len(),
        0 <= r.1 < instruction_findings(is[r.0]).len(),
        instructions_findings(is)[k] == instruction_findings(is[r.0])[r.1],
        instructions_findings(is)[k].line == is[r.0].line,
    decreases is.len(),
{
    let d = is.drop_last();
    let p = instructions_findings(d);
    let l = instruction_findings(is.last());
    assert(instructions_findings(is) == p + l);
    lemma_instruction_findings_facts(is.last());
    if k < p.len() {
        let r = lemma_instructions_findings_origin(d, k);
        assert(d[r.0] == is[r.0]);
        assert(instructions_findings(is)[k] == p[k]);
        r
    } else {
        assert(is.last() == is[is.len() - 1]);
        assert(instructions_findings(is)[k] == l[k - p.len()]);
        (is.len() - 1, k - p.len())
    }
}

/// A finding of one instruction under the unpinned-image rule comes from a `FROM`
/// whose trimmed image holds no `:` or mentions `latest`.
proof fn lemma_unpinned_finding_origin(iv: InstrView, j: int)
    requires
        0 <= j < instruction_findings(iv).len(),
        instruction_findings(iv)[j].rule_id == "sec-docker-no-latest-tag"@,
    ensures
        iv.kind matches KindView::From { image, .. } && ((forall|c: int|
            0 <= c < trim_ws(image).len() ==> trim_ws(image)[c] != ':') || contains_seq(trim_ws(image), "latest"@)),
{
    reveal_strlit("sec-docker-no-latest-tag");
    reveal_strlit("sec-docker-user-root");
    reveal_strlit("sec-docker-use-copy-instead-of-add");
    reveal_strlit("sec-docker-secret-in-env");
    reveal_strlit("sec-docker-secret-in-arg");
    reveal_strlit(":");
    reveal_strlit("latest");
    reveal_strlit(":latest");
    match iv.kind {
        KindView::From { image, .. } => {
            let img = trim_ws(image);
            if has_suffix_seq(img, ":latest"@) {
                let x = img.len() - 6;
                let tail = img.skip(img.len() - 7);
                assert(tail == ":latest"@);
                assert forall|m: int| 0 <= m < 6 implies img.subrange(x, x + 6)[m] == "latest"@[m] by {
                    assert(img.subrange(x, x + 6)[m] == tail[m + 1]);
                }
                assert(img.subrange(x, x + 6) =~= "latest"@);
                assert(crate::text::occurs_at(img, "latest"@, x));
                assert(contains_seq(img, "latest"@));
            }
            assert(unpinned(img));
            if contains_seq(img, ":"@) && !contains_seq(img, "latest"@) && !has_suffix_seq(img, ":latest"@) {
                assert(false);
            }
            if !contains_seq(img, ":"@) {
                assert forall|c: int| 0 <= c < img.len() implies img[c] != ':' by {
                    if img[c] == ':' {
                        assert(img.subrange(c, c + 1) =~= ":"@);
                        assert(crate::text::occurs_at(img, ":"@, c));
                    }
                }
            }
            assert((forall|c: int| 0 <= c < img.len() ==> img[c] != ':') || contains_seq(img, "latest"@));
        },
        KindView::Env { pairs } => {
            lemma_env_findings_facts(pairs, iv);
            assert(instruction_findings(iv)[j].rule_id[11] != "sec-docker-no-latest-tag"@[11]);
        },
        KindView::Arg { .. } => {
            assert(instruction_findings(iv)[j].rule_id[11] != "sec-docker-no-latest-tag"@[11]);
        },
        KindView::User { .. } => {
            assert(instruction_findings(iv)[j].rule_id.len() != "sec-docker-no-latest-tag"@.len());
        },
        KindView::Add { .. } => {
            assert(instruction_findings(iv)[j].rule_id.len() != "sec-docker-no-latest-tag"@.len());
        },
        _ => {},
    }
}

/// An unpinned-image finding is reported only at a `FROM` whose trimmed image has
/// no tag or digest (no `:`) or mentions `latest`: an image pinned to another tag
/// is never reported as unpinned.
pub proof fn lemma_unpinned_reported_only_when_unpinned(is: Seq<InstrView>)
    ensures
        forall|k: int|
            0 <= k < audit_spec(is).len() && (#[trigger] audit_spec(is)[k]).rule_id == "sec-docker-no-latest-tag"@
                ==> exists|i: int|
                0 <= i < is.len() && audit_spec(is)[k].line == is[i].line && (is[i].kind matches KindView::From {
                    image,
                    ..
                } && ((forall|c: int| 0 <= c < trim_ws(image).len() ==> trim_ws(image)[c] != ':') || contains_seq(
                    trim_ws(image),
                    "latest"@,
                ))),
{
    reveal_strlit("sec-docker-no-latest-tag");
    reveal_strlit("sec-docker-missing-user");
    let base = instructions_findings(is);
    let all = audit_spec(is);
    assert forall|k: int|
        0 <= k < all.len() && (#[trigger] all[k]).rule_id == "sec-docker-no-latest-tag"@ implies exists|i: int|
            0 <= i < is.len() && all[k].line == is[i].line && (is[i].kind matches KindView::From { image, .. } && ((
            forall|c: int| 0 <= c < trim_ws(image).len() ==> trim_ws(image)[c] != ':') || contains_seq(
                trim_ws(image),
                "latest"@,
            ))) by {
        if k < base.len() {
            assert(all[k] == base[k]);
            let r = lemma_instructions_findings_origin(is, k);
            lemma_unpinned_finding_origin(is[r.0], r.1);
            assert(all[k].line == is[r.0].line);
        } else {
            assert(all[k].rule_id.len() != "sec-docker-no-latest-tag"@.len());
        }
    }
}

fn make_finding(
    rule: &str,
    message: String,
    severity: DockerSecuritySeverity,
    line: usize,
    span: Span,
    fix: &str,
) -> (r: DockerSecurityFinding)
    ensures
        r@ == (FindingView {
            rule_id: rule@,
            message: message@,
            severity,
            line,
            span,
            fix_suggestion: Some(fix@),
        }),
{
    DockerSecurityFinding {
        rule_id: rule.to_owned(),
        message,
        severity,
        line,
        span,
        fix_suggestion: Some(fix.to_owned()),
    }
}

fn trimmed_text(s: &String) -> (r: String)
    ensures
        r@ == crate::docker::scan::trim_ws(s@),
{
    let v = crate::text::chars_of(s.as_str());
    let t = crate::docker::scan::trim_chars(&v, crate::docker::scan::CharClass::Whitespace);
    crate::text::string_from_chars(t.as_slice())
}

/// A capability that the audit flags when a service adds it.
pub open spec fn dangerous_cap(c: Seq<char>) -> bool {
    c == "ALL"@ || c == "SYS_ADMIN"@
}

/// The finding of one `cap_add` entry: a dangerous capability given as a scalar.
pub open spec fn cap_item_findings(svc: Seq<char>, n: NodeView) -> Seq<FindingView> {
    match n.value {
        ValueView::Scalar(s) => if dangerous_cap(trim_ws(s.value)) {
            seq![
                FindingView {
                    rule_id: "sec-compose-dangerous-capability"@,
                    message: "Service '"@ + svc + "' adds dangerous capability '"@ + trim_ws(s.value) + "'"@,
                    severity: DockerSecuritySeverity::High,
                    line: n.span.start.line,
                    span: n.span,
                    fix_suggestion: Some("cap_drop: [ALL]"@),
                },
            ]
        } else {
            Seq::empty()
        },
        _ => Seq::empty(),
    }
}

/// The findings of the entries of a `cap_add` list, in order.
pub open spec fn cap_findings(svc: Seq<char>, items: Seq<NodeView>) -> Seq<FindingView>
    decreases items.len(),
{
    if items.len() == 0 {
        Seq::empty()
    } else {
        cap_findings(svc, items.drop_last()) + cap_item_findings(svc, items.last())
    }
}

/// The property `read_only: true`.
pub open spec fn is_read_only_pair(p: PairView) -> bool {
    p.key.value == "read_only"@ && match p.value.value {
        ValueView::Scalar(s) => trim_ws(s.value) == "true"@,
        _ => false,
    }
}

/// Some property of the list is `read_only: true`.
pub open spec fn read_only_set(ps: Seq<PairView>) -> bool
    decreases ps.len(),
{
    if ps.len() == 0 {
        false
    } else {
        read_only_set(ps.drop_last()) || is_read_only_pair(ps.last())
    }
}

/// The finding of a service whose root filesystem stays writable.
pub open spec fn rootfs_finding(svc: Seq<char>, n: NodeView) -> FindingView {
    FindingView {
        rule_id: "sec-compose-writable-rootfs"@,
        message: "Service '"@ + svc + "' does not set 'read_only: true', leaving its root filesystem writable"@,
        severity: DockerSecuritySeverity::Medium,
        line: n.span.start.line,
        span: n.span,
        fix_suggestion: Some("read_only: true"@),
    }
}

/// Findings of one property of a Compose service: `privileged: true`,
/// `network_mode: host` and dangerous capabilities under `cap_add`.
pub open spec fn compose_pair_findings(svc: Seq<char>, p: PairView) -> Seq<FindingView> {
    if p.key.value == "privileged"@ {
        match p.value.value {
            ValueView::Scalar(s) => if trim_ws(s.value) == "true"@ {
                seq![
                    FindingView {
                        rule_id: "sec-compose-privileged-container"@,
                        message: "Service '"@ + svc + "' sets 'privileged: true', granting full host kernel access"@,
                        severity: DockerSecuritySeverity::Critical,
                        line: p.value.span.start.line,
                        span: p.value.span,
                        fix_suggestion: Some("privileged: false"@),
                    },
                ]
            } else {
                Seq::empty()
            },
            _ => Seq::empty(),
        }
    } else if p.key.value == "network_mode"@ {
        match p.value.value {
            ValueView::Scalar(s) => if trim_ws(s.value) == "host"@ {
                seq![
                    FindingView {
                        rule_id: "sec-compose-host-network"@,
                        message: "Service '"@ + svc + "' uses 'network_mode: host'"@,
                        severity: DockerSecuritySeverity::High,
                        line: p.value.span.start.line,
                        span: p.value.span,
                        fix_suggestion: Some("network_mode: bridge"@),
                    },
                ]
            } else {
                Seq::empty()
            },
            _ => Seq::empty(),
        }
    } else if p.key.value == "cap_add"@ {
        match p.value.value {
            ValueView::Sequence(items, _) => cap_findings(svc, items),
            _ => Seq::empty(),
        }
    } else {
        Seq::empty()
    }
}

/// Findings of the properties of a Compose service, in order.
pub open spec fn compose_pairs_findings(svc: Seq<char>, ps: Seq<PairView>) -> Seq<FindingView>
    decreases ps.len(),
{
    if ps.len() == 0 {
        Seq::empty()
    } else {
        compose_pairs_findings(svc, ps.drop_last()) + compose_pair_findings(svc, ps.last())
    }
}

/// Findings of a Compose service node: those of its properties, then one for a
/// writable root filesystem unless it sets `read_only: true`.
pub open spec fn service_findings(svc: Seq<char>, n: NodeView) -> Seq<FindingView> {
    match n.value {
        ValueView::Mapping(ps, _) => compose_pairs_findings(svc, ps) + if read_only_set(ps) {
            Seq::empty()
        } else {
            seq![rootfs_finding(svc, n)]
        },
        _ => Seq::empty(),
    }
}

/// Findings of the services of a Compose document, service by service.
pub open spec fn services_findings(svcs: Seq<(Seq<char>, NodeView)>) -> Seq<FindingView>
    decreases svcs.len(),
{
    if svcs.len() == 0 {
        Seq::empty()
    } else {
        services_findings(svcs.drop_last()) + service_findings(svcs.last().0, svcs.last().1)
    }
}

fn push_compose_finding(
    out: &mut Vec<DockerSecurityFinding>,
    rule: &str,
    message: String,
    severity: DockerSecuritySeverity,
    span: Span,
    fix: &str,
)
    ensures
        findings_view(final(out)@) == findings_view(old(out)@).push(
            FindingView {
                rule_id: rule@,
                message: message@,
                severity,
                line: span.start.line,
                span,
                fix_suggestion: Some(fix@),
            },
        ),
{
    let ghost prev = out@;
    let ghost m = message@;
    out.push(
        DockerSecurityFinding {
            rule_id: rule.to_owned(),
            message,
            severity,
            line: span.start.line,
            span,
            fix_suggestion: Some(fix.to_owned()),
        },
    );
    assert(findings_view(out@) =~= findings_view(prev).push(out@.last()@));
}

/// Appends the findings of the entries of a service's `cap_add` list.
fn audit_caps(out: &mut Vec<DockerSecurityFinding>, svc: &str, items: &Vec<crate::yaml::YamlNode>)
    ensures
        findings_view(final(out)@) == findings_view(old(out)@) + cap_findings(
            svc@,
            crate::yaml::items_view(items@),
        ),
{
    let ghost base = findings_view(out@);
    let ghost iv = crate::yaml::items_view(items@);
    let mut c: usize = 0;
    assert(iv.take(0) =~= Seq::<NodeView>::empty());
    assert(base + Seq::<FindingView>::empty() =~= base);
    while c < items.len()
        invariant
            c <= items.len(),
            iv == crate::yaml::items_view(items@),
            findings_view(out@) == base + cap_findings(svc@, iv.take(c as int)),
        decreases items.len() - c,
    {
        let item = &items[c];
        let ghost before = findings_view(out@);
        proof {
            assert(iv.take(c + 1).drop_last() =~= iv.take(c as int));
            assert(iv.take(c + 1).last() == node_view(*item));
            lemma_node_view_value(*item);
        }
        match &item.value {
            YamlValue::Scalar(sc) => {
                let t = trimmed(sc.value.as_str());
                if str_eq(t.as_str(), "ALL") || str_eq(t.as_str(), "SYS_ADMIN") {
                    let m1 = join3("Service '", svc, "' adds dangerous capability '");
                    let m2 = concat_strs(m1.as_str(), t.as_str());
                    let message = concat_strs(m2.as_str(), "'");
                    push_compose_finding(
                        out,
                        "sec-compose-dangerous-capability",
                        message,
                        DockerSecuritySeverity::High,
                        item.span,
                        "cap_drop: [ALL]",
                    );
                }
            },
            _ => {},
        }
        proof {
            assert(findings_view(out@) =~= base + cap_findings(svc@, iv.take(c + 1)));
        }
        c = c + 1;
    }
    assert(iv.take(items.len() as int) =~= iv);
}

/// Security analyzer for Dockerfiles and Compose documents.
#[derive(Debug, Clone, Copy, Default)]
pub struct DockerSecurityAnalyzer;

impl DockerSecurityAnalyzer {
    /// Creates an analyzer.
    pub fn new() -> (r: Self) {
        DockerSecurityAnalyzer
    }

    /// Audits the services of a Compose document for privileged containers, host
    /// networking, dangerous capabilities and writable root filesystems.
    pub fn audit_compose(&self, doc: &ComposeDocument) -> (r: Vec<DockerSecurityFinding>)
        ensures
            findings_view(r@) == services_findings(compose_view(*doc).services),
    {
        let mut findings: Vec<DockerSecurityFinding> = Vec::new();
        let ghost svcs = entries_view(doc.services@);
        let mut i: usize = 0;
        proof {
            assert(svcs.take(0) =~= Seq::<(Seq<char>, NodeView)>::empty());
            assert(findings_view(findings@) =~= Seq::empty());
        }
        while i < doc.services.len()
            invariant
                i <= doc.services.len(),
                svcs == entries_view(doc.services@),
                findings_view(findings@) == services_findings(svcs.take(i as int)),
            decreases doc.services.len() - i,
        {
            let svc_name = doc.services[i].0.as_str();
            let node = &doc.services[i].1;
            let ghost start = findings_view(findings@);
            proof {
                assert(svcs.take(i + 1).drop_last() =~= svcs.take(i as int));
                assert(svcs.take(i + 1).last() == (svc_name@, node_view(*node)));
                lemma_node_view_value(*node);
            }
            match &node.value {
                YamlValue::Mapping(map) => {
                    let ghost ps = crate::yaml::pairs_view(map.pairs@);
                    let mut ro = false;
                    let mut j: usize = 0;
                    proof {
                        assert(ps.take(0) =~= Seq::<PairView>::empty());
                        assert(start + Seq::empty() =~= start);
                    }
                    while j < map.pairs.len()
                        invariant
                            j <= map.pairs.len(),
                            ps == crate::yaml::pairs_view(map.pairs@),
                            findings_view(findings@) == start + compose_pairs_findings(svc_name@, ps.take(j as int)),
                            ro == read_only_set(ps.take(j as int)),
                        decreases map.pairs.len() - j,
                    {
                        let pair = &map.pairs[j];
                        let ghost before = findings_view(findings@);
                        proof {
                            assert(ps.take(j + 1).drop_last() =~= ps.take(j as int));
                            assert(ps.take(j + 1).last() == crate::yaml::pair_view(*pair));
                            lemma_node_view_value(pair.value);
                        }
                        let k = pair.key.value.as_str();
                        if str_eq(k, "privileged") {
                            proof {
                                reveal_strlit("read_only");
                                reveal_strlit("privileged");
                                assert(ps[j as int] == crate::yaml::pair_view(*pair));
                                assert(k@.len() != "read_only"@.len());
                                assert(!is_read_only_pair(ps[j as int]));
                            }
                            match &pair.value.value {
                                YamlValue::Scalar(sc) => {
                                    let t = trimmed(sc.value.as_str());
                                    if str_eq(t.as_str(), "true") {
                                        let message = join3(
                                            "Service '",
                                            svc_name,
                                            "' sets 'privileged: true', granting full host kernel access",
                                        );
                                        push_compose_finding(
                                            &mut findings,
                                            "sec-compose-privileged-container",
                                            message,
                                            DockerSecuritySeverity::Critical,
                                            pair.value.span,
                                            "privileged: false",
                                        );
                                    }
                                },
                                _ => {},
                            }
                        } else if str_eq(k, "network_mode") {
                            proof {
                                reveal_strlit("read_only");
                                reveal_strlit("network_mode");
                                assert(ps[j as int] == crate::yaml::pair_view(*pair));
                                assert(k@.len() != "read_only"@.len());
                                assert(!is_read_only_pair(ps[j as int]));
                            }
                            match &pair.value.value {
                                YamlValue::Scalar(sc) => {
                                    let t = trimmed(sc.value.as_str());
                                    if str_eq(t.as_str(), "host") {
                                        let message = join3("Service '", svc_name, "' uses 'network_mode: host'");
                                        push_compose_finding(
                                            &mut findings,
                                            "sec-compose-host-network",
                                            message,
                                            DockerSecuritySeverity::High,
                                            pair.value.span,
                                            "network_mode: bridge",
                                        );
                                    }
                                },
                                _ => {},
                            }
                        } else if str_eq(k, "cap_add") {
                            proof {
                                reveal_strlit("read_only");
                                reveal_strlit("cap_add");
                                assert(ps[j as int] == crate::yaml::pair_view(*pair));
                                assert(k@.len() != "read_only"@.len());
                                assert(!is_read_only_pair(ps[j as int]));
                            }
                            match &pair.value.value {
                                YamlValue::Sequence(q) => {
                                    audit_caps(&mut findings, svc_name, &q.items);
                                },
                                _ => {},
                            }
                        } else if str_eq(k, "read_only") {
                            match &pair.value.value {
                                YamlValue::Scalar(sc) => {
                                    let t = trimmed(sc.value.as_str());
                                    if str_eq(t.as_str(), "true") {
                                        ro = true;
                                    }
                                },
                                _ => {},
                            }
                        }
                        proof {
                            assert(read_only_set(ps.take(j + 1)) == (read_only_set(ps.take(j as int))
                                || is_read_only_pair(ps[j as int])));
                            assert(findings_view(findings@) =~= before + compose_pair_findings(
                                svc_name@,
                                ps[j as int],
                            ));
                        }
                        j = j + 1;
                    }
                    proof {
                        assert(ps.take(map.pairs.len() as int) =~= ps);
                    }
                    if !ro {
                        let message = join3(
                            "Service '",
                            svc_name,
                            "' does not set 'read_only: true', leaving its root filesystem writable",
                        );
                        push_compose_finding(
                            &mut findings,
                            "sec-compose-writable-rootfs",
                            message,
                            DockerSecuritySeverity::Medium,
                            node.span,
                            "read_only: true",
                        );
                    }
                    proof {
                        assert(node_view(*node).span == node.span);
                    }
                },
                _ => {
                    proof {
                        assert(start + Seq::empty() =~= start);
                    }
                },
            }
            i = i + 1;
        }
        proof {
            assert(svcs.take(doc.services.len() as int) =~= svcs);
        }
        findings
    }

    /// Audits a parsed Dockerfile.
    pub fn audit_dockerfile(&self, ast: &DockerfileAST) -> (r: Vec<DockerSecurityFinding>)
        ensures
            findings_view(r@) == audit_spec(instrs_view(ast.instructions@)),
    {
        let ghost iv = instrs_view(ast.instructions@);
        let mut findings: Vec<DockerSecurityFinding> = Vec::new();
        let mut has_user_instruction = false;
        let mut i: usize = 0;
        while i < ast.instructions.len()
            invariant
                i <= ast.instructions.len(),
                iv == instrs_view(ast.instructions@),
                findings_view(findings@) == instructions_findings(iv.take(i as int)),
                has_user_instruction == has_user(iv.take(i as int)),
            decreases ast.instructions.len() - i,
        {
            let inst = &ast.instructions[i];
            let ghost v = inst@;
            assert(iv[i as int] == v);
            assert(iv.take(i + 1).drop_last() =~= iv.take(i as int));
            assert(iv.take(i + 1).last() == v);
            let ghost before = findings@;
            match &inst.kind {
                InstructionKind::From { image, .. } => {
                    let img = trimmed_text(image);
                    let s = img.as_str();
                    if str_ends_with(s, ":latest") || !str_contains(s, ":") || str_contains(s, "latest") {
                        let mut m = concat_strs("Base image '", s);
                        m.append("' uses 'latest' or unpinned tag");
                        findings.push(make_finding(
                            "sec-docker-no-latest-tag",
                            m,
                            DockerSecuritySeverity::Medium,
                            inst.line,
                            inst.span,
                            "Pin base image to explicit semver tag or SHA digest",
                        ));
                    }
                },
                InstructionKind::User { user, .. } => {
                    has_user_instruction = true;
                    if str_eq(user.as_str(), "root") || str_eq(user.as_str(), "0") {
                        findings.push(make_finding(
                            "sec-docker-user-root",
                            "Explicitly setting 'USER root' creates container privilege risk".to_owned(),
                            DockerSecuritySeverity::High,
                            inst.line,
                            inst.span,
                            "USER appuser",
                        ));
                    }
                },
                InstructionKind::Add { sources, .. } => {
                    let mut uses_url = false;
                    let mut k: usize = 0;
                    while k < sources.len()
                        invariant
                            k <= sources.len(),
                            uses_url == exists|j: int| 0 <= j < k && (has_prefix(#[trigger] sources@[j]@, "http://"@) || has_prefix(sources@[j]@, "https://"@)),
                        decreases sources.len() - k,
                    {
                        if str_starts_with(sources[k].as_str(), "http://") || str_starts_with(sources[k].as_str(), "https://") {
                            uses_url = true;
                        }
                        k = k + 1;
                    }
                    proof {
                        let sv = crate::text::view_lines(sources@);
                        assert(uses_url == any_url(sv)) by {
                            if uses_url {
                                let j = choose|j: int| 0 <= j < k && (has_prefix(#[trigger] sources@[j]@, "http://"@) || has_prefix(sources@[j]@, "https://"@));
                                assert(sv[j] == sources@[j]@);
                            }
                            if any_url(sv) {
                                let j = choose|j: int| 0 <= j < sv.len() && (has_prefix(#[trigger] sv[j], "http://"@) || has_prefix(sv[j], "https://"@));
                                assert(sv[j] == sources@[j]@);
                            }
                        }
                    }
                    if !uses_url {
                        findings.push(make_finding(
                            "sec-docker-use-copy-instead-of-add",
                            "'ADD' used for local files; use 'COPY' unless auto-extracting tarballs".to_owned(),
                            DockerSecuritySeverity::Low,
                            inst.line,
                            inst.span,
                            "COPY",
                        ));
                    }
                },
                InstructionKind::Env { pairs } => {
                    let ghost pv = crate::docker::instructions::pairs_view(pairs@);
                    let ghost base = findings@;
                    let mut k: usize = 0;
                    while k < pairs.len()
                        invariant
                            k <= pairs.len(),
                            pv == crate::docker::instructions::pairs_view(pairs@),
                            findings_view(findings@) == findings_view(base) + env_findings(pv.take(k as int), v),
                            v == inst@,
                        decreases pairs.len() - k,
                    {
                        assert(pv.take(k + 1).drop_last() =~= pv.take(k as int));
                        assert(pv.take(k + 1).last() == pv[k as int]);
                        let key = pairs[k].0.as_str();
                        let val = pairs[k].1.as_str();
                        if is_potential_secret_key(key) || is_potential_secret_value(val) {
                            let mut m = concat_strs("Potential secret/credential key '", key);
                            m.append("' in ENV instruction");
                            let ghost prev = findings@;
                            findings.push(make_finding(
                                "sec-docker-secret-in-env",
                                m,
                                DockerSecuritySeverity::Critical,
                                inst.line,
                                inst.span,
                                "Pass secrets via Docker Secrets or build-time mounts",
                            ));
                            assert(findings_view(findings@) =~= findings_view(prev).push(findings@.last()@));
                        }
                        k = k + 1;
                    }
                    assert(pv.take(pairs.len() as int) =~= pv);
                },
                InstructionKind::Arg { name, default_value: Some(dv) } => {
                    if is_potential_secret_key(name.as_str()) || is_potential_secret_value(dv.as_str()) {
                        let mut m = concat_strs("Potential default secret value in ARG '", name.as_str());
                        m.append("'");
                        findings.push(make_finding(
                            "sec-docker-secret-in-arg",
                            m,
                            DockerSecuritySeverity::Critical,
                            inst.line,
                            inst.span,
                            "Do not embed hardcoded secrets in Dockerfile ARG",
                        ));
                    }
                },
                _ => {},
            }
            assert(findings_view(findings@) =~= findings_view(before) + instruction_findings(v));
            proof {
                if v.kind is User {
                    assert(iv.take(i + 1)[i as int] == v);
                } else {
                    assert forall|j: int| 0 <= j < i + 1 && (#[trigger] iv.take(i + 1)[j]).kind is User implies 0 <= j < i && iv.take(i as int)[j].kind is User by {
                        if j < i {
                            assert(iv.take(i + 1)[j] == iv.take(i as int)[j]);
                        }
                    }
                }
            }
            i = i + 1;
        }
        assert(iv.take(ast.instructions.len() as int) =~= iv);
        if !has_user_instruction && ast.instructions.len() > 0 {
            let last = &ast.instructions[ast.instructions.len() - 1];
            let ghost prev = findings@;
            findings.push(make_finding(
                "sec-docker-missing-user",
                "Dockerfile runs as default 'root' user; add a non-root 'USER' instruction".to_owned(),
                DockerSecuritySeverity::High,
                last.line,
                last.span,
                "USER 10001",
            ));
            assert(findings_view(findings@) =~= findings_view(prev).push(findings@.last()@));
        }
        findings
    }
}

} // verus!
