//! Multi-stage builds: the stages of a Dockerfile and the `COPY --from=`
//! references between them.

use vstd::prelude::*;
use crate::docker::dockerfile::DockerfileAST;
use crate::docker::instructions::{InstrView, InstructionKind, KindView, instrs_view};
use crate::text::{concat_strs, decimal, str_eq, usize_to_string};

verus! {

/// A build stage.
#[derive(Debug, Clone, PartialEq, Eq)]
pub struct BuildStage {
    /// Zero-based stage index.
    pub index: usize,
    /// Base image.
    pub image: String,
    /// Stage name (`AS name`).
    pub alias: Option<String>,
    /// Line of the stage's `FROM`.
    pub line: usize,
    /// Instructions in the stage, its `FROM` included.
    pub instruction_count: usize,
}

/// The value of a build stage.
pub struct StageView {
    pub index: usize,
    pub image: Seq<char>,
    pub alias: Option<Seq<char>>,
    pub line: usize,
    pub instruction_count: usize,
}

impl View for BuildStage {
    type V = StageView;

    open spec fn view(&self) -> StageView {
        StageView {
            index: self.index,
            image: self.image@,
            alias: match self.alias {
                Some(a) => Some(a@),
                None => None,
            },
            line: self.line,
            instruction_count: self.instruction_count,
        }
    }
}

/// The values of a list of stages.
pub open spec fn stages_view(v: Seq<BuildStage>) -> Seq<StageView> {
    v.map_values(|s: BuildStage| s@)
}

/// The stages closed so far and the stage being read.
pub struct StageScan {
    pub done: Seq<StageView>,
    pub current: Option<StageView>,
}

/// The scan after the first `n` instructions: each `FROM` closes the current stage
/// and opens the next; other instructions count in the current stage (none before
/// the first `FROM`).
pub open spec fn stage_scan(is: Seq<InstrView>, n: nat) -> StageScan
    decreases n,
{
    if n == 0 {
        StageScan { done: Seq::empty(), current: None }
    } else {
        let st = stage_scan(is, (n - 1) as nat);
        let iv = is[n - 1];
        match iv.kind {
            KindView::From { image, stage_alias, .. } => {
                let done = match st.current {
                    Some(c) => st.done.push(c),
                    None => st.done,
                };
                StageScan {
                    done,
                    current: Some(
                        StageView {
                            index: done.len() as usize,
                            image,
                            alias: stage_alias,
                            line: iv.line,
                            instruction_count: 1,
                        },
                    ),
                }
            },
            _ => match st.current {
                Some(c) => StageScan {
                    done: st.done,
                    current: Some(StageView { instruction_count: (c.instruction_count + 1) as usize, ..c }),
                },
                None => st,
            },
        }
    }
}

/// The stages of a Dockerfile's instructions.
pub open spec fn stages_spec(is: Seq<InstrView>) -> Seq<StageView> {
    let st = stage_scan(is, is.len());
    match st.current {
        Some(c) => st.done.push(c),
        None => st.done,
    }
}

proof fn lemma_stage_scan_bounds(is: Seq<InstrView>, n: nat)
    requires
        n <= is.len(),
    ensures
        stage_scan(is, n).done.len() <= n,
        stage_scan(is, n).current matches Some(c) ==> c.instruction_count <= n && stage_scan(
            is,
            n,
        ).done.len() < n,
    decreases n,
{
    if n > 0 {
        lemma_stage_scan_bounds(is, (n - 1) as nat);
    }
}

/// A reference to a stage that does not exist or does not come before.
#[derive(Debug, Clone, PartialEq, Eq)]
pub struct StageReferenceIssue {
    /// The referenced stage.
    pub referenced_stage: String,
    /// Line of the `COPY --from=`.
    pub line: usize,
    /// Message.
    pub message: String,
}

/// The value of a stage reference issue.
pub struct IssueView {
    pub referenced_stage: Seq<char>,
    pub line: usize,
    pub message: Seq<char>,
}

impl View for StageReferenceIssue {
    type V = IssueView;

    open spec fn view(&self) -> IssueView {
        IssueView { referenced_stage: self.referenced_stage@, line: self.line, message: self.message@ }
    }
}

/// The values of a list of issues.
pub open spec fn issues_view(v: Seq<StageReferenceIssue>) -> Seq<IssueView> {
    v.map_values(|s: StageReferenceIssue| s@)
}

/// The names a stage is known by, in order of registration: for every stage its
/// index in decimal, then its alias.
pub open spec fn stage_names(stages: Seq<StageView>) -> Seq<(Seq<char>, usize)>
    decreases stages.len(),
{
    if stages.len() == 0 {
        Seq::empty()
    } else {
        let prev = stage_names(stages.drop_last());
        let s = stages.last();
        let with_index = prev.push((decimal(s.index as nat), s.index));
        match s.alias {
            Some(a) => with_index.push((a, s.index)),
            None => with_index,
        }
    }
}

/// The stage registered last under a name.
pub open spec fn lookup_stage(names: Seq<(Seq<char>, usize)>, key: Seq<char>) -> Option<usize>
    decreases names.len(),
{
    if names.len() == 0 {
        None
    } else if names.last().0 == key {
        Some(names.last().1)
    } else {
        lookup_stage(names.drop_last(), key)
    }
}

/// The number of `FROM` instructions among the first `n` instructions.
pub open spec fn from_count(is: Seq<InstrView>, n: nat) -> nat
    decreases n,
{
    if n == 0 {
        0
    } else {
        let prev = from_count(is, (n - 1) as nat);
        match is[n - 1].kind {
            KindView::From { .. } => prev + 1,
            _ => prev,
        }
    }
}

/// The stage-reference scan after the first `n` instructions: the index of the
/// current stage (each `FROM` opens the stage whose index is the number of `FROM`s
/// before it) and the issues found.
pub open spec fn reference_scan(is: Seq<InstrView>, names: Seq<(Seq<char>, usize)>, n: nat) -> (usize, Seq<IssueView>)
    decreases n,
{
    if n == 0 {
        (0, Seq::empty())
    } else {
        let (cur0, issues) = reference_scan(is, names, (n - 1) as nat);
        let iv = is[n - 1];
        let cur = match iv.kind {
            KindView::From { .. } => from_count(is, (n - 1) as nat) as usize,
            _ => cur0,
        };
        match iv.kind {
            KindView::Copy { from_stage: Some(target), .. } => match lookup_stage(names, target) {
                Some(t) => if t >= cur {
                    (cur, issues.push(IssueView {
                        referenced_stage: target,
                        line: iv.line,
                        message: "COPY --from='"@ + target + "' references stage defined at or after current stage"@,
                    }))
                } else {
                    (cur, issues)
                },
                None => (cur, issues.push(IssueView {
                    referenced_stage: target,
                    line: iv.line,
                    message: "COPY --from='"@ + target + "' references non-existent build stage"@,
                })),
            },
            _ => (cur, issues),
        }
    }
}

/// The stage-reference issues of a Dockerfile's instructions.
pub open spec fn reference_issues(is: Seq<InstrView>) -> Seq<IssueView> {
    reference_scan(is, stage_names(stages_spec(is)), is.len()).1
}

/// Different digits have different characters.
proof fn lemma_digit_char_injective(a: nat, b: nat)
    requires
        a < 10,
        b < 10,
        crate::text::digit_char(a) == crate::text::digit_char(b),
    ensures
        a == b,
{
}

/// A decimal rendering has at least one digit, and at least two from 10 on.
proof fn lemma_decimal_len(n: nat)
    ensures
        decimal(n).len() >= 1,
        n >= 10 ==> decimal(n).len() >= 2,
    decreases n,
{
    if n >= 10 {
        lemma_decimal_len(n / 10);
    }
}

/// Different numbers have different decimal renderings.
proof fn lemma_decimal_injective(a: nat, b: nat)
    requires
        decimal(a) == decimal(b),
    ensures
        a == b,
    decreases a,
{
    lemma_decimal_len(a);
    lemma_decimal_len(b);
    if a < 10 && b < 10 {
        assert(decimal(a) == seq![crate::text::digit_char(a)]);
        assert(decimal(b) == seq![crate::text::digit_char(b)]);
        assert(decimal(a)[0] == crate::text::digit_char(a));
        assert(decimal(b)[0] == crate::text::digit_char(b));
        lemma_digit_char_injective(a, b);
    } else if a >= 10 && b >= 10 {
        let da = decimal(a);
        let db = decimal(b);
        assert(da.last() == db.last());
        assert(da.drop_last() == db.drop_last());
        assert(decimal(a / 10).push(crate::text::digit_char(a % 10)).drop_last() =~= decimal(a / 10));
        assert(decimal(b / 10).push(crate::text::digit_char(b % 10)).drop_last() =~= decimal(b / 10));
        lemma_digit_char_injective(a % 10, b % 10);
        lemma_decimal_injective(a / 10, b / 10);
    }
}

/// No stage name of the form of a stage index.
pub open spec fn not_an_index(a: Seq<char>) -> bool {
    forall|k: nat| a != #[trigger] decimal(k)
}

/// While scanning, stages are numbered by their position, there is one stage per
/// `FROM` read, and every alias is one a `FROM` gave.
proof fn lemma_stage_scan_shape(is: Seq<InstrView>, n: nat)
    requires
        n <= is.len(),
        is.len() < usize::MAX,
        forall|i: int|
            0 <= i < is.len() ==> ((#[trigger] is[i]).kind matches KindView::From { stage_alias: Some(a), .. }
                ==> not_an_index(a)),
    ensures
        stage_scan(is, n).done.len() + (if stage_scan(is, n).current is Some { 1int } else { 0int }) == from_count(is, n),
        forall|m: int| 0 <= m < stage_scan(is, n).done.len() ==> (#[trigger] stage_scan(is, n).done[m]).index == m,
        forall|m: int|
            0 <= m < stage_scan(is, n).done.len() ==> ((#[trigger] stage_scan(is, n).done[m]).alias matches Some(a)
                ==> not_an_index(a)),
        stage_scan(is, n).current matches Some(c) ==> c.index == stage_scan(is, n).done.len() && (c.alias matches Some(a)
            ==> not_an_index(a)),
        from_count(is, n) <= n,
    decreases n,
{
    if n > 0 {
        lemma_stage_scan_shape(is, (n - 1) as nat);
        let st = stage_scan(is, (n - 1) as nat);
        let nx = stage_scan(is, n);
        let iv = is[n - 1];
        match iv.kind {
            KindView::From { .. } => {
                let done = match st.current {
                    Some(c) => st.done.push(c),
                    None => st.done,
                };
                assert(nx.done == done);
                assert forall|m: int| 0 <= m < done.len() implies (#[trigger] done[m]).index == m && (done[m].alias matches Some(a)
                    ==> not_an_index(a)) by {
                    if m < st.done.len() {
                        assert(done[m] == st.done[m]);
                    }
                }
            },
            _ => {},
        }
    }
}

/// The stages are numbered by their position, one per `FROM`, and no alias has
/// the form of an index.
proof fn lemma_stages_shape(is: Seq<InstrView>)
    requires
        is.len() < usize::MAX,
        forall|i: int|
            0 <= i < is.len() ==> ((#[trigger] is[i]).kind matches KindView::From { stage_alias: Some(a), .. }
                ==> not_an_index(a)),
    ensures
        stages_spec(is).len() == from_count(is, is.len()),
        forall|m: int| 0 <= m < stages_spec(is).len() ==> (#[trigger] stages_spec(is)[m]).index == m,
        forall|m: int|
            0 <= m < stages_spec(is).len() ==> ((#[trigger] stages_spec(is)[m]).alias matches Some(a) ==> not_an_index(a)),
{
    lemma_stage_scan_shape(is, is.len());
    let st = stage_scan(is, is.len());
    if let Some(c) = st.current {
        let all = st.done.push(c);
        assert forall|m: int| 0 <= m < all.len() implies (#[trigger] all[m]).index == m && (all[m].alias matches Some(a)
            ==> not_an_index(a)) by {
            if m < st.done.len() {
                assert(all[m] == st.done[m]);
            }
        }
    }
}

/// With stages numbered by position and no alias in the form of an index, the
/// decimal index of a stage names that stage.
proof fn lemma_lookup_index(stages: Seq<StageView>, k: nat)
    requires
        forall|m: int| 0 <= m < stages.len() ==> (#[trigger] stages[m]).index == m,
        forall|m: int| 0 <= m < stages.len() ==> ((#[trigger] stages[m]).alias matches Some(a) ==> not_an_index(a)),
    ensures
        lookup_stage(stage_names(stages), decimal(k)) == if k < stages.len() { Some(k as usize) } else { None::<usize> },
    decreases stages.len(),
{
    if stages.len() > 0 {
        let init = stages.drop_last();
        let s = stages.last();
        assert(s == stages[stages.len() - 1]);
        let prev = stage_names(init);
        let by_index = prev.push((decimal(s.index as nat), s.index));
        assert forall|m: int| 0 <= m < init.len() implies (#[trigger] init[m]).index == m && (init[m].alias matches Some(a)
            ==> not_an_index(a)) by {
            assert(init[m] == stages[m]);
        }
        lemma_lookup_index(init, k);
        assert(stage_names(stages) == (match s.alias {
            Some(a) => by_index.push((a, s.index)),
            None => by_index,
        }));
        assert(by_index.drop_last() =~= prev);
        let key = decimal(k);
        if decimal(s.index as nat) == key {
            lemma_decimal_injective(s.index as nat, k);
            assert(lookup_stage(by_index, key) == Some(s.index));
        } else {
            assert(lookup_stage(by_index, key) == lookup_stage(prev, key));
            assert(k != s.index as nat);
        }
        match s.alias {
            Some(a) => {
                let names = by_index.push((a, s.index));
                assert(names.drop_last() =~= by_index);
                assert(a != decimal(k));
                assert(lookup_stage(names, key) == lookup_stage(by_index, key));
            },
            None => {},
        }
    }
}

/// The number of `FROM`s only grows along the instructions.
proof fn lemma_from_count_mono(is: Seq<InstrView>, a: nat, b: nat)
    requires
        a <= b <= is.len(),
    ensures
        from_count(is, a) <= from_count(is, b),
    decreases b - a,
{
    if a < b {
        lemma_from_count_mono(is, a, (b - 1) as nat);
    }
}

proof fn lemma_reference_scan_clean(is: Seq<InstrView>, n: nat)
    requires
        n <= is.len(),
        is.len() < usize::MAX,
        forall|i: int|
            0 <= i < is.len() ==> ((#[trigger] is[i]).kind matches KindView::From { stage_alias: Some(a), .. }
                ==> not_an_index(a)),
        forall|i: int|
            0 <= i < is.len() ==> ((#[trigger] is[i]).kind matches KindView::Copy { from_stage: Some(t), .. }
                ==> exists|k: nat| t == decimal(k) && k + 1 < from_count(is, i as nat)),
    ensures
        reference_scan(is, stage_names(stages_spec(is)), n).1.len() == 0,
        reference_scan(is, stage_names(stages_spec(is)), n).0 == if from_count(is, n) > 0 {
            (from_count(is, n) - 1) as usize
        } else {
            0usize
        },
    decreases n,
{
    let names = stage_names(stages_spec(is));
    lemma_stage_scan_shape(is, n);
    if n > 0 {
        lemma_reference_scan_clean(is, (n - 1) as nat);
        lemma_stage_scan_shape(is, (n - 1) as nat);
        let iv = is[n - 1];
        if let KindView::Copy { from_stage: Some(t), .. } = iv.kind {
            let k = choose|k: nat| t == decimal(k) && k + 1 < from_count(is, (n - 1) as nat);
            lemma_stages_shape(is);
            lemma_from_count_mono(is, (n - 1) as nat, is.len());
            lemma_lookup_index(stages_spec(is), k);
        }
    }
}

proof fn lemma_from_count_le(is: Seq<InstrView>, n: nat)
    requires
        n <= is.len(),
    ensures
        from_count(is, n) <= n,
    decreases n,
{
    if n > 0 {
        lemma_from_count_le(is, (n - 1) as nat);
    }
}

/// The current stage of the reference scan is the last stage opened so far.
proof fn lemma_reference_scan_current(is: Seq<InstrView>, names: Seq<(Seq<char>, usize)>, n: nat)
    requires
        n <= is.len(),
        is.len() < usize::MAX,
    ensures
        reference_scan(is, names, n).0 == if from_count(is, n) > 0 {
            (from_count(is, n) - 1) as usize
        } else {
            0usize
        },
    decreases n,
{
    lemma_from_count_le(is, n);
    if n > 0 {
        lemma_reference_scan_current(is, names, (n - 1) as nat);
        lemma_from_count_le(is, (n - 1) as nat);
    }
}

/// The issues found so far stay, in order, as the scan goes on.
proof fn lemma_reference_scan_prefix(is: Seq<InstrView>, names: Seq<(Seq<char>, usize)>, a: nat, b: nat)
    requires
        a <= b <= is.len(),
    ensures
        reference_scan(is, names, a).1.len() <= reference_scan(is, names, b).1.len(),
        forall|j: int|
            0 <= j < reference_scan(is, names, a).1.len() ==> reference_scan(is, names, b).1[j]
                == #[trigger] reference_scan(is, names, a).1[j],
    decreases b - a,
{
    if a < b {
        lemma_reference_scan_prefix(is, names, a, (b - 1) as nat);
        let x = reference_scan(is, names, (b - 1) as nat).1;
        let y = reference_scan(is, names, b).1;
        assert(y == x || (y.len() == x.len() + 1 && y.drop_last() == x)) by {
            if y != x {
                assert(y.drop_last() =~= x);
            }
        }
        assert forall|j: int| 0 <= j < x.len() implies y[j] == #[trigger] x[j] by {
            if y != x {
                assert(y.drop_last()[j] == y[j]);
            }
        }
    }
}

/// A `COPY --from=N`, where `N` is the decimal index of the current stage, of a
/// later one or of none, is always reported, with the referenced name and the
/// line of the `COPY` (stage names not themselves numbers).
pub proof fn lemma_later_stage_index_reported(is: Seq<InstrView>, i: int)
    requires
        is.len() < usize::MAX,
        forall|m: int|
            0 <= m < is.len() ==> ((#[trigger] is[m]).kind matches KindView::From { stage_alias: Some(a), .. }
                ==> not_an_index(a)),
        0 <= i < is.len(),
        is[i].kind matches KindView::Copy { from_stage: Some(t), .. } && exists|k: nat|
            t == decimal(k) && k + 1 >= from_count(is, i as nat),
    ensures
        exists|j: int|
            0 <= j < reference_issues(is).len() && (#[trigger] reference_issues(is)[j]).line == is[i].line
                && (is[i].kind matches KindView::Copy { from_stage: Some(t), .. } && reference_issues(is)[j].referenced_stage == t),
{
    let names = stage_names(stages_spec(is));
    if let KindView::Copy { from_stage: Some(t), .. } = is[i].kind {
        let k = choose|k: nat| t == decimal(k) && k + 1 >= from_count(is, i as nat);
        lemma_stages_shape(is);
        lemma_lookup_index(stages_spec(is), k);
        lemma_reference_scan_current(is, names, i as nat);
        let before = reference_scan(is, names, i as nat).1;
        let after = reference_scan(is, names, (i + 1) as nat).1;
        assert(is[(i + 1) - 1] == is[i]);
        assert(after.len() == before.len() + 1);
        assert(after[before.len() as int].referenced_stage == t && after[before.len() as int].line == is[i].line);
        lemma_reference_scan_prefix(is, names, (i + 1) as nat, is.len());
        assert(reference_issues(is)[before.len() as int] == after[before.len() as int]);
    }
}

/// A `COPY --from=N`, where `N` is the decimal index of a stage opened before the
/// current one, is a valid reference: a Dockerfile whose every `COPY --from=` is
/// such a reference (and whose stage names are not themselves numbers) has no
/// stage-reference issue.
pub proof fn lemma_earlier_stage_index_accepted(is: Seq<InstrView>)
    requires
        is.len() < usize::MAX,
        forall|i: int|
            0 <= i < is.len() ==> ((#[trigger] is[i]).kind matches KindView::From { stage_alias: Some(a), .. }
                ==> not_an_index(a)),
        forall|i: int|
            0 <= i < is.len() ==> ((#[trigger] is[i]).kind matches KindView::Copy { from_stage: Some(t), .. }
                ==> exists|k: nat| t == decimal(k) && k + 1 < from_count(is, i as nat)),
    ensures
        reference_issues(is).len() == 0,
{
    lemma_reference_scan_clean(is, is.len());
}

fn opt_clone(o: &Option<String>) -> (r: Option<String>)
    ensures
        r == *o,
{
    match o {
        Some(s) => Some(s.clone()),
        None => None,
    }
}

/// Analyzer of multi-stage builds.
#[derive(Debug, Clone, Copy, Default)]
pub struct MultiStageAnalyzer;

impl MultiStageAnalyzer {
    /// Creates an analyzer.
    pub fn new() -> (r: Self) {
        MultiStageAnalyzer
    }

    /// The build stages of a Dockerfile.
    pub fn extract_stages(&self, ast: &DockerfileAST) -> (r: Vec<BuildStage>)
        ensures
            stages_view(r@) == stages_spec(instrs_view(ast.instructions@)),
    {
        let ghost iv = instrs_view(ast.instructions@);
        let mut stages: Vec<BuildStage> = Vec::new();
        let mut current: Option<BuildStage> = None;
        let mut i: usize = 0;
        while i < ast.instructions.len()
            invariant
                i <= ast.instructions.len(),
                iv == instrs_view(ast.instructions@),
                stages_view(stages@) == stage_scan(iv, i as nat).done,
                match current {
                    Some(c) => stage_scan(iv, i as nat).current == Some(c@),
                    None => stage_scan(iv, i as nat).current is None,
                },
            decreases ast.instructions.len() - i,
        {
            let inst = &ast.instructions[i];
            assert(iv[i as int] == inst@);
            proof {
                lemma_stage_scan_bounds(iv, i as nat);
            }
            match &inst.kind {
                InstructionKind::From { image, stage_alias, .. } => {
                    match current {
                        Some(st) => {
                            let ghost prev = stages@;
                            stages.push(st);
                            assert(stages_view(stages@) =~= stages_view(prev).push(st@));
                        },
                        None => {},
                    }
                    let idx = stages.len();
                    current = Some(BuildStage {
                        index: idx,
                        image: image.clone(),
                        alias: opt_clone(stage_alias),
                        line: inst.line,
                        instruction_count: 1,
                    });
                },
                _ => {
                    match current {
                        Some(st) => {
                            let mut st2 = st;
                            st2.instruction_count = st2.instruction_count + 1;
                            current = Some(st2);
                        },
                        None => {
                            current = None;
                        },
                    }
                },
            }
            i = i + 1;
        }
        assert(iv.len() == ast.instructions.len());
        match current {
            Some(st) => {
                let ghost prev = stages@;
                stages.push(st);
                assert(stages_view(stages@) =~= stages_view(prev).push(st@));
            },
            None => {},
        }
        stages
    }

    /// The `COPY --from=` references to stages that do not exist or are not
    /// earlier than the current stage.
    pub fn validate_stage_references(&self, ast: &DockerfileAST) -> (r: Vec<StageReferenceIssue>)
        ensures
            issues_view(r@) == reference_issues(instrs_view(ast.instructions@)),
    {
        let ghost iv = instrs_view(ast.instructions@);
        let stages = self.extract_stages(ast);
        let mut names: Vec<(String, usize)> = Vec::new();
        let mut s: usize = 0;
        while s < stages.len()
            invariant
                s <= stages.len(),
                names@.map_values(|p: (String, usize)| (p.0@, p.1)) == stage_names(stages_view(stages@).take(s as int)),
            decreases stages.len() - s,
        {
            let ghost sv = stages_view(stages@);
            assert(sv.take(s + 1).drop_last() =~= sv.take(s as int));
            assert(sv.take(s + 1).last() == stages@[s as int]@);
            let st = &stages[s];
            let ghost prev = names@;
            names.push((usize_to_string(st.index), st.index));
            match &st.alias {
                Some(a) => {
                    names.push((a.clone(), st.index));
                },
                None => {},
            }
            assert(names@.map_values(|p: (String, usize)| (p.0@, p.1)) =~= stage_names(sv.take(s + 1)));
            s = s + 1;
        }
        assert(stages_view(stages@).take(stages.len() as int) =~= stages_view(stages@));
        let ghost nv = names@.map_values(|p: (String, usize)| (p.0@, p.1));
        let mut issues: Vec<StageReferenceIssue> = Vec::new();
        let mut current: usize = 0;
        let mut froms: usize = 0;
        let mut i: usize = 0;
        while i < ast.instructions.len()
            invariant
                i <= ast.instructions.len(),
                froms <= i,
                froms == from_count(iv, i as nat),
                iv == instrs_view(ast.instructions@),
                nv == names@.map_values(|p: (String, usize)| (p.0@, p.1)),
                nv == stage_names(stages_spec(iv)),
                reference_scan(iv, nv, i as nat) == (current, issues_view(issues@)),
            decreases ast.instructions.len() - i,
        {
            let inst = &ast.instructions[i];
            assert(iv[i as int] == inst@);
            match &inst.kind {
                InstructionKind::From { .. } => {
                    current = froms;
                    froms = froms + 1;
                },
                _ => {},
            }
            match &inst.kind {
                InstructionKind::Copy { from_stage: Some(target), .. } => {
                    match lookup_name(&names, target.as_str()) {
                        Some(t) => {
                            if t >= current {
                                let mut m = concat_strs("COPY --from='", target.as_str());
                                m.append("' references stage defined at or after current stage");
                                let ghost prev = issues@;
                                issues.push(StageReferenceIssue {
                                    referenced_stage: target.clone(),
                                    line: inst.line,
                                    message: m,
                                });
                                assert(issues_view(issues@) =~= issues_view(prev).push(issues@.last()@));
                            }
                        },
                        None => {
                            let mut m = concat_strs("COPY --from='", target.as_str());
                            m.append("' references non-existent build stage");
                            let ghost prev = issues@;
                            issues.push(StageReferenceIssue {
                                referenced_stage: target.clone(),
                                line: inst.line,
                                message: m,
                            });
                            assert(issues_view(issues@) =~= issues_view(prev).push(issues@.last()@));
                        },
                    }
                },
                _ => {},
            }
            i = i + 1;
        }
        issues
    }
}

/// The stage registered last under a name.
fn lookup_name(names: &Vec<(String, usize)>, key: &str) -> (r: Option<usize>)
    ensures
        r == lookup_stage(names@.map_values(|p: (String, usize)| (p.0@, p.1)), key@),
{
    let ghost nv = names@.map_values(|p: (String, usize)| (p.0@, p.1));
    let mut i = names.len();
    assert(nv.take(i as int) =~= nv);
    while i > 0
        invariant
            i <= names.len(),
            nv == names@.map_values(|p: (String, usize)| (p.0@, p.1)),
            lookup_stage(nv, key@) == lookup_stage(nv.take(i as int), key@),
        decreases i,
    {
        assert(nv.take(i as int).drop_last() =~= nv.take(i - 1));
        if str_eq(names[i - 1].0.as_str(), key) {
            return Some(names[i - 1].1);
        }
        i = i - 1;
    }
    None
}

} // verus!
