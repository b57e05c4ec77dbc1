//! Production best-practice recommendations for Dockerfiles.

use vstd::prelude::*;
use crate::docker::dockerfile::DockerfileAST;
use crate::docker::instructions::{InstrView, InstructionKind, KindView, instrs_view};
use crate::text::{concat_strs, contains_seq, str_contains};

verus! {

/// A best-practice recommendation.
#[derive(Debug, Clone, PartialEq, Eq)]
pub struct BestPracticeRecommendation {
    pub rule_id: String,
    pub message: String,
    pub line: usize,
}

/// The value of a recommendation or an optimization finding.
pub struct NoteView {
    pub rule_id: Seq<char>,
    pub message: Seq<char>,
    pub line: usize,
}

impl View for BestPracticeRecommendation {
    type V = NoteView;

    open spec fn view(&self) -> NoteView {
        NoteView { rule_id: self.rule_id@, message: self.message@, line: self.line }
    }
}

/// The values of a list of recommendations.
pub open spec fn recs_view(v: Seq<BestPracticeRecommendation>) -> Seq<NoteView> {
    v.map_values(|r: BestPracticeRecommendation| r@)
}

/// Recommendations for the base images, in order: an image mentioning `ubuntu` or
/// `debian` gets a smaller-image recommendation.
pub open spec fn base_image_recs(is: Seq<InstrView>) -> Seq<NoteView>
    decreases is.len(),
{
    if is.len() == 0 {
        Seq::empty()
    } else {
        let prev = base_image_recs(is.drop_last());
        let iv = is.last();
        match iv.kind {
            KindView::From { image, .. } => if contains_seq(image, "ubuntu"@) || contains_seq(image, "debian"@) {
                prev.push(NoteView {
                    rule_id: "bp-docker-small-base-image"@,
                    message: "Consider using a smaller base image (e.g. Alpine or Distroless) instead of '"@
                        + image + "'"@,
                    line: iv.line,
                })
            } else {
                prev
            },
            _ => prev,
        }
    }
}

/// True when some instruction is a `HEALTHCHECK`.
pub open spec fn has_healthcheck(is: Seq<InstrView>) -> bool {
    exists|i: int| 0 <= i < is.len() && (#[trigger] is[i]).kind is Healthcheck
}

/// The recommendations for a Dockerfile: base images, then a missing health check
/// reported at the last instruction.
pub open spec fn best_practices_spec(is: Seq<InstrView>) -> Seq<NoteView> {
    let base = base_image_recs(is);
    if !has_healthcheck(is) && is.len() > 0 {
        base.push(NoteView {
            rule_id: "bp-docker-missing-healthcheck"@,
            message: "Consider adding an explicit 'HEALTHCHECK' instruction to monitor container health"@,
            line: is.last().line,
        })
    } else {
        base
    }
}

/// Evaluator of best practices.
#[derive(Debug, Clone, Copy, Default)]
pub struct DockerBestPracticesAnalyzer;

impl DockerBestPracticesAnalyzer {
    /// Creates an evaluator.
    pub fn new() -> (r: Self) {
        DockerBestPracticesAnalyzer
    }

    /// The recommendations for a Dockerfile.
    pub fn evaluate_dockerfile(&self, ast: &DockerfileAST) -> (r: Vec<BestPracticeRecommendation>)
        ensures
            recs_view(r@) == best_practices_spec(instrs_view(ast.instructions@)),
    {
        let ghost iv = instrs_view(ast.instructions@);
        let mut recs: Vec<BestPracticeRecommendation> = Vec::new();
        let mut has_hc = false;
        let mut i: usize = 0;
        while i < ast.instructions.len()
            invariant
                i <= ast.instructions.len(),
                iv == instrs_view(ast.instructions@),
                recs_view(recs@) == base_image_recs(iv.take(i as int)),
                has_hc == has_healthcheck(iv.take(i as int)),
            decreases ast.instructions.len() - i,
        {
            let inst = &ast.instructions[i];
            let ghost v = inst@;
            assert(iv[i as int] == v);
            assert(iv.take(i + 1).drop_last() =~= iv.take(i as int));
            assert(iv.take(i + 1).last() == v);
            match &inst.kind {
                InstructionKind::From { image, .. } => {
                    if str_contains(image.as_str(), "ubuntu") || str_contains(image.as_str(), "debian") {
                        let mut m = concat_strs(
                            "Consider using a smaller base image (e.g. Alpine or Distroless) instead of '",
                            image.as_str(),
                        );
                        m.append("'");
                        let ghost prev = recs@;
                        recs.push(BestPracticeRecommendation {
                            rule_id: "bp-docker-small-base-image".to_owned(),
                            message: m,
                            line: inst.line,
                        });
                        assert(recs_view(recs@) =~= recs_view(prev).push(recs@.last()@));
                    }
                },
                InstructionKind::Healthcheck { .. } => {
                    has_hc = true;
                },
                _ => {},
            }
            proof {
                if v.kind is Healthcheck {
                    assert(iv.take(i + 1)[i as int] == v);
                } else {
                    assert forall|j: int| 0 <= j < i + 1 && (#[trigger] iv.take(i + 1)[j]).kind is Healthcheck implies 0 <= j < i && iv.take(i as int)[j].kind is Healthcheck by {
                        if j < i {
                            assert(iv.take(i + 1)[j] == iv.take(i as int)[j]);
                        }
                    }
                }
            }
            i = i + 1;
        }
        assert(iv.take(ast.instructions.len() as int) =~= iv);
        if !has_hc && ast.instructions.len() > 0 {
            let last = &ast.instructions[ast.instructions.len() - 1];
            let ghost prev = recs@;
            recs.push(BestPracticeRecommendation {
                rule_id: "bp-docker-missing-healthcheck".to_owned(),
                message: "Consider adding an explicit 'HEALTHCHECK' instruction to monitor container health".to_owned(),
                line: last.line,
            });
            assert(recs_view(recs@) =~= recs_view(prev).push(recs@.last()@));
        }
        recs
    }
}

} // verus!
