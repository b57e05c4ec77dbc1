//! Layer optimization findings for Dockerfiles.

use vstd::prelude::*;
use crate::docker::best_practices::NoteView;
use crate::docker::dockerfile::DockerfileAST;
use crate::docker::instructions::{InstrView, InstructionKind, KindView, instrs_view};
use crate::text::{contains_seq, decimal, push_decimal, str_contains, view_lines};

verus! {

/// A layer optimization finding.
#[derive(Debug, Clone, PartialEq, Eq)]
pub struct OptimizationFinding {
    pub rule_id: String,
    pub message: String,
    pub line: usize,
}

impl View for OptimizationFinding {
    type V = NoteView;

    open spec fn view(&self) -> NoteView {
        NoteView { rule_id: self.rule_id@, message: self.message@, line: self.line }
    }
}

/// The values of a list of optimization findings.
pub open spec fn opt_view(v: Seq<OptimizationFinding>) -> Seq<NoteView> {
    v.map_values(|r: OptimizationFinding| r@)
}

/// Texts joined with single spaces.
pub open spec fn join_space(parts: Seq<Seq<char>>) -> Seq<char>
    decreases parts.len(),
{
    if parts.len() == 0 {
        Seq::empty()
    } else if parts.len() == 1 {
        parts[0]
    } else {
        join_space(parts.drop_last()) + seq![' '] + parts.last()
    }
}

/// Findings for `RUN` instructions that update the package index without
/// installing in the same layer, in order.
pub open spec fn apt_findings(is: Seq<InstrView>) -> Seq<NoteView>
    decreases is.len(),
{
    if is.len() == 0 {
        Seq::empty()
    } else {
        let prev = apt_findings(is.drop_last());
        let iv = is.last();
        match iv.kind {
            KindView::Run { command, .. } => {
                let c = join_space(command);
                if contains_seq(c, "apt-get update"@) && !contains_seq(c, "apt-get install"@) {
                    prev.push(NoteView {
                        rule_id: "opt-docker-chain-apt-update-install"@,
                        message: "'RUN apt-get update' should be chained in the same layer with 'apt-get install'"@,
                        line: iv.line,
                    })
                } else {
                    prev
                }
            },
            _ => prev,
        }
    }
}

/// The number of `RUN` instructions.
pub open spec fn run_count(is: Seq<InstrView>) -> nat
    decreases is.len(),
{
    if is.len() == 0 {
        0
    } else {
        run_count(is.drop_last()) + if is.last().kind is Run { 1nat } else { 0nat }
    }
}

/// The index of the first `RUN` instruction.
pub open spec fn first_run(is: Seq<InstrView>) -> Option<nat>
    decreases is.len(),
{
    if is.len() == 0 {
        None
    } else if is[0].kind is Run {
        Some(0)
    } else {
        match first_run(is.drop_first()) {
            Some(j) => Some(j + 1),
            None => None,
        }
    }
}

/// The optimization findings of a Dockerfile: unchained package index updates,
/// then, with more than 8 `RUN` instructions, a layer-count finding at the first.
pub open spec fn optimization_spec(is: Seq<InstrView>) -> Seq<NoteView> {
    let base = apt_findings(is);
    if run_count(is) > 8 {
        match first_run(is) {
            Some(j) => base.push(NoteView {
                rule_id: "opt-docker-high-layer-count"@,
                message: "Dockerfile contains "@ + decimal(run_count(is)) + " RUN instructions; consider chaining commands with '&&' to reduce layer count"@,
                line: is[j as int].line,
            }),
            None => base,
        }
    } else {
        base
    }
}

/// Every unchained-update finding stands at a `RUN` whose command updates the
/// package index without installing.
proof fn lemma_apt_findings_sound(is: Seq<InstrView>)
    ensures
        forall|k: int|
            0 <= k < apt_findings(is).len() ==> exists|i: int|
                0 <= i < is.len() && (#[trigger] apt_findings(is)[k]).line == is[i].line && match is[i].kind {
                    KindView::Run { command, .. } => contains_seq(join_space(command), "apt-get update"@)
                        && !contains_seq(join_space(command), "apt-get install"@),
                    _ => false,
                },
    decreases is.len(),
{
    if is.len() > 0 {
        let d = is.drop_last();
        lemma_apt_findings_sound(d);
        let p = apt_findings(d);
        let q = apt_findings(is);
        assert forall|k: int| 0 <= k < q.len() implies exists|i: int|
            0 <= i < is.len() && (#[trigger] q[k]).line == is[i].line && match is[i].kind {
                KindView::Run { command, .. } => contains_seq(join_space(command), "apt-get update"@)
                    && !contains_seq(join_space(command), "apt-get install"@),
                _ => false,
            } by {
            if k < p.len() {
                assert(q[k] == p[k]);
                let i = choose|i: int|
                    0 <= i < d.len() && (#[trigger] p[k]).line == d[i].line && match d[i].kind {
                        KindView::Run { command, .. } => contains_seq(join_space(command), "apt-get update"@)
                            && !contains_seq(join_space(command), "apt-get install"@),
                        _ => false,
                    };
                assert(d[i] == is[i]);
            } else {
                assert(is[is.len() - 1] == is.last());
            }
        }
    }
}

/// Every `RUN` that updates the package index without installing has a finding at
/// its line.
proof fn lemma_apt_findings_complete(is: Seq<InstrView>, i: int)
    requires
        0 <= i < is.len(),
        is[i].kind matches KindView::Run { command, .. } && contains_seq(join_space(command), "apt-get update"@)
            && !contains_seq(join_space(command), "apt-get install"@),
    ensures
        exists|k: int|
            0 <= k < apt_findings(is).len() && (#[trigger] apt_findings(is)[k]).rule_id
                == "opt-docker-chain-apt-update-install"@ && apt_findings(is)[k].line == is[i].line,
    decreases is.len(),
{
    let d = is.drop_last();
    let p = apt_findings(d);
    let q = apt_findings(is);
    if i == is.len() - 1 {
        assert(is.last() == is[i]);
        assert(q[p.len() as int] == q.last());
    } else {
        assert(d[i] == is[i]);
        lemma_apt_findings_complete(d, i);
        let k = choose|k: int|
            0 <= k < p.len() && (#[trigger] p[k]).rule_id == "opt-docker-chain-apt-update-install"@ && p[k].line == d[i].line;
        assert(q[k] == p[k]);
    }
}

/// A `RUN` whose command holds `apt-get update` and not `apt-get install` is
/// always reported as an unchained update, at its line.
pub proof fn lemma_unchained_update_reported(is: Seq<InstrView>, i: int)
    requires
        0 <= i < is.len(),
        is[i].kind matches KindView::Run { command, .. } && contains_seq(join_space(command), "apt-get update"@)
            && !contains_seq(join_space(command), "apt-get install"@),
    ensures
        exists|k: int|
            0 <= k < optimization_spec(is).len() && (#[trigger] optimization_spec(is)[k]).rule_id
                == "opt-docker-chain-apt-update-install"@ && optimization_spec(is)[k].line == is[i].line,
{
    lemma_apt_findings_complete(is, i);
    let base = apt_findings(is);
    let k = choose|k: int|
        0 <= k < base.len() && (#[trigger] base[k]).rule_id == "opt-docker-chain-apt-update-install"@ && base[k].line == is[i].line;
    assert(optimization_spec(is)[k] == base[k]);
}

/// An unchained-update finding is reported only at a `RUN` whose command (its
/// arguments joined by spaces) holds `apt-get update` and does not hold
/// `apt-get install`: a `RUN` that chains both in one layer is never reported.
pub proof fn lemma_apt_finding_only_when_unchained(is: Seq<InstrView>)
    ensures
        forall|k: int|
            0 <= k < optimization_spec(is).len() && (#[trigger] optimization_spec(is)[k]).rule_id
                == "opt-docker-chain-apt-update-install"@ ==> exists|i: int|
                0 <= i < is.len() && optimization_spec(is)[k].line == is[i].line && match is[i].kind {
                    KindView::Run { command, .. } => contains_seq(join_space(command), "apt-get update"@)
                        && !contains_seq(join_space(command), "apt-get install"@),
                    _ => false,
                },
{
    reveal_strlit("opt-docker-chain-apt-update-install");
    reveal_strlit("opt-docker-high-layer-count");
    lemma_apt_findings_sound(is);
    let base = apt_findings(is);
    let all = optimization_spec(is);
    assert forall|k: int|
        0 <= k < all.len() && (#[trigger] all[k]).rule_id == "opt-docker-chain-apt-update-install"@ implies exists|i: int|
            0 <= i < is.len() && all[k].line == is[i].line && match is[i].kind {
                KindView::Run { command, .. } => contains_seq(join_space(command), "apt-get update"@)
                    && !contains_seq(join_space(command), "apt-get install"@),
                _ => false,
            } by {
        if k < base.len() {
            assert(all[k] == base[k]);
            assert(base[k].line == base[k].line);
        } else {
            assert(all[k].rule_id == "opt-docker-high-layer-count"@);
        }
    }
}

proof fn lemma_run_count_bound(is: Seq<InstrView>)
    ensures
        run_count(is) <= is.len(),
    decreases is.len(),
{
    if is.len() > 0 {
        lemma_run_count_bound(is.drop_last());
    }
}

proof fn lemma_first_run_skip(is: Seq<InstrView>, i: int)
    requires
        0 <= i <= is.len(),
        forall|j: int| 0 <= j < i ==> !((#[trigger] is[j]).kind is Run),
    ensures
        first_run(is) == (match first_run(is.skip(i)) {
            Some(j) => Some((j + i) as nat),
            None => None::<nat>,
        }),
    decreases i,
{
    if i > 0 {
        assert(is.drop_first().skip(i - 1) =~= is.skip(i));
        assert forall|j: int| 0 <= j < i - 1 implies !((#[trigger] is.drop_first()[j]).kind is Run) by {
            assert(is.drop_first()[j] == is[j + 1]);
        }
        lemma_first_run_skip(is.drop_first(), i - 1);
    } else {
        assert(is.skip(0) =~= is);
    }
}

/// Joins texts with single spaces.
fn join_with_space(parts: &Vec<String>) -> (r: String)
    ensures
        r@ == join_space(view_lines(parts@)),
{
    let mut out = String::new();
    let mut i: usize = 0;
    while i < parts.len()
        invariant
            i <= parts.len(),
            out@ == join_space(view_lines(parts@).take(i as int)),
        decreases parts.len() - i,
    {
        let ghost t = view_lines(parts@).take(i + 1);
        assert(t.drop_last() =~= view_lines(parts@).take(i as int));
        assert(t.last() == parts@[i as int]@);
        let ghost before = out@;
        if i > 0 {
            out.append(" ");
            proof {
                reveal_strlit(" ");
            }
        }
        out.append(parts[i].as_str());
        proof {
            if i == 0 {
                assert(out@ =~= t[0]);
            } else {
                assert(out@ =~= before + seq![' '] + t.last());
            }
        }
        i = i + 1;
    }
    assert(view_lines(parts@).take(parts.len() as int) =~= view_lines(parts@));
    out
}

/// Analyzer of layer optimization.
#[derive(Debug, Clone, Copy, Default)]
pub struct DockerOptimizationAnalyzer;

impl DockerOptimizationAnalyzer {
    /// Creates an analyzer.
    pub fn new() -> (r: Self) {
        DockerOptimizationAnalyzer
    }

    /// The optimization findings of a Dockerfile.
    pub fn analyze(&self, ast: &DockerfileAST) -> (r: Vec<OptimizationFinding>)
        ensures
            opt_view(r@) == optimization_spec(instrs_view(ast.instructions@)),
    {
        let ghost iv = instrs_view(ast.instructions@);
        let mut findings: Vec<OptimizationFinding> = Vec::new();
        let mut runs: usize = 0;
        let mut i: usize = 0;
        while i < ast.instructions.len()
            invariant
                i <= ast.instructions.len(),
                iv == instrs_view(ast.instructions@),
                opt_view(findings@) == apt_findings(iv.take(i as int)),
                runs == run_count(iv.take(i as int)),
            decreases ast.instructions.len() - i,
        {
            let inst = &ast.instructions[i];
            let ghost v = inst@;
            assert(iv[i as int] == v);
            assert(iv.take(i + 1).drop_last() =~= iv.take(i as int));
            assert(iv.take(i + 1).last() == v);
            proof {
                lemma_run_count_bound(iv.take(i as int));
            }
            match &inst.kind {
                InstructionKind::Run { command, .. } => {
                    runs = runs + 1;
                    let cmd = join_with_space(command);
                    if str_contains(cmd.as_str(), "apt-get update") && !str_contains(cmd.as_str(), "apt-get install") {
                        let ghost prev = findings@;
                        findings.push(OptimizationFinding {
                            rule_id: "opt-docker-chain-apt-update-install".to_owned(),
                            message: "'RUN apt-get update' should be chained in the same layer with 'apt-get install'".to_owned(),
                            line: inst.line,
                        });
                        assert(opt_view(findings@) =~= opt_view(prev).push(findings@.last()@));
                    }
                },
                _ => {},
            }
            i = i + 1;
        }
        assert(iv.take(ast.instructions.len() as int) =~= iv);
        if runs > 8 {
            let mut j: usize = 0;
            while j < ast.instructions.len()
                invariant
                    j <= ast.instructions.len(),
                    iv == instrs_view(ast.instructions@),
                    opt_view(findings@) == apt_findings(iv),
                    runs == run_count(iv),
                    runs > 8,
                    forall|k: int| 0 <= k < j ==> !((#[trigger] iv[k]).kind is Run),
                decreases ast.instructions.len() - j,
            {
                let is_run = match &ast.instructions[j].kind {
                    InstructionKind::Run { .. } => true,
                    _ => false,
                };
                assert(iv[j as int] == ast.instructions@[j as int]@);
                if is_run {
                    proof {
                        lemma_first_run_skip(iv, j as int);
                    }
                    let mut m = "Dockerfile contains ".to_owned();
                    push_decimal(&mut m, runs);
                    m.append(" RUN instructions; consider chaining commands with '&&' to reduce layer count");
                    let ghost prev = findings@;
                    findings.push(OptimizationFinding {
                        rule_id: "opt-docker-high-layer-count".to_owned(),
                        message: m,
                        line: ast.instructions[j].line,
                    });
                    assert(opt_view(findings@) =~= opt_view(prev).push(findings@.last()@));
                    return findings;
                }
                j = j + 1;
            }
            proof {
                lemma_first_run_skip(iv, j as int);
            }
        }
        findings
    }
}

} // verus!
