//! Result diffing: compare two scan results to find new and resolved findings.

use vstd::prelude::*;
use vstd::string::*;
use crate::scanner::{Finding, FindingView, ScanResult, ScanResultView, Verdict};
use crate::text::{decimal, push_decimal, push_signed_decimal, signed_decimal};

verus! {

/// What came of comparing a previous scan result with a current one.
#[derive(Debug)]
pub struct ScanDiff {
    pub new_findings: Vec<Finding>,
    pub resolved_findings: Vec<Finding>,
    pub unchanged_findings: Vec<Finding>,
    pub score_delta: i64,
    pub previous_verdict: Verdict,
    pub current_verdict: Verdict,
    pub summary: String,
}

/// What a `ScanDiff` holds, with its findings and its summary by their views.
pub struct ScanDiffView {
    pub new_findings: Seq<FindingView>,
    pub resolved_findings: Seq<FindingView>,
    pub unchanged_findings: Seq<FindingView>,
    pub score_delta: i64,
    pub previous_verdict: Verdict,
    pub current_verdict: Verdict,
    pub summary: Seq<char>,
}

impl View for ScanDiff {
    type V = ScanDiffView;

    open spec fn view(&self) -> ScanDiffView {
        ScanDiffView {
            new_findings: self.new_findings.deep_view(),
            resolved_findings: self.resolved_findings.deep_view(),
            unchanged_findings: self.unchanged_findings.deep_view(),
            score_delta: self.score_delta,
            previous_verdict: self.previous_verdict,
            current_verdict: self.current_verdict,
            summary: self.summary@,
        }
    }
}

/// Two findings are the same finding when rule, file and line agree.
/// Severity, snippet, phase and weight play no part.
pub open spec fn same_key(a: FindingView, b: FindingView) -> bool {
    a.rule == b.rule && a.file == b.file && a.line == b.line
}

/// Whether `f` has a counterpart among `others`.
pub open spec fn has_match(f: FindingView, others: Seq<FindingView>) -> bool {
    exists|i: int| 0 <= i < others.len() && same_key(f, #[trigger] others[i])
}

/// The findings of `findings` with a counterpart among `others`, in order.
pub open spec fn matched(findings: Seq<FindingView>, others: Seq<FindingView>) -> Seq<FindingView> {
    findings.filter(|f: FindingView| has_match(f, others))
}

/// The findings of `findings` without a counterpart among `others`, in order.
pub open spec fn unmatched(findings: Seq<FindingView>, others: Seq<FindingView>) -> Seq<
    FindingView,
> {
    findings.filter(|f: FindingView| !has_match(f, others))
}

/// The one-line summary of a diff.
pub open spec fn summary_of(
    new_count: nat,
    resolved_count: nat,
    unchanged_count: nat,
    previous_score: u32,
    current_score: u32,
) -> Seq<char> {
    let delta = current_score as int - previous_score as int;
    decimal(new_count) + " new, "@ + decimal(resolved_count) + " resolved, "@ + decimal(
        unchanged_count,
    ) + " unchanged (score: "@ + decimal(previous_score as nat) + " \u{2192} "@ + decimal(
        current_score as nat,
    ) + ", "@ + (if delta >= 0 {
        "+"@
    } else {
        ""@
    }) + signed_decimal(delta) + ")"@
}

/// The diff of two scan results.
pub open spec fn diff_of(previous: ScanResultView, current: ScanResultView) -> ScanDiffView {
    let new_findings = unmatched(current.findings, previous.findings);
    let resolved_findings = unmatched(previous.findings, current.findings);
    let unchanged_findings = matched(current.findings, previous.findings);
    ScanDiffView {
        new_findings,
        resolved_findings,
        unchanged_findings,
        score_delta: (current.score as int - previous.score as int) as i64,
        previous_verdict: previous.verdict,
        current_verdict: current.verdict,
        summary: summary_of(
            new_findings.len(),
            resolved_findings.len(),
            unchanged_findings.len(),
            previous.score,
            current.score,
        ),
    }
}

fn same_line(a: Option<usize>, b: Option<usize>) -> (same: bool)
    ensures
        same == (a == b),
{
    match (a, b) {
        (Some(x), Some(y)) => x == y,
        (None, None) => true,
        _ => false,
    }
}

fn has_counterpart(f: &Finding, others: &Vec<Finding>) -> (found: bool)
    ensures
        found == has_match(f@, others.deep_view()),
{
    let ghost views = others.deep_view();
    let mut i: usize = 0;
    while i < others.len()
        invariant
            i <= others.len(),
            views == others.deep_view(),
            views.len() == others.len(),
            forall|j: int| 0 <= j < i ==> !same_key(f@, #[trigger] views[j]),
        decreases others.len() - i,
    {
        let other = &others[i];
        assert(views[i as int] == other@);
        if f.rule == other.rule && f.file == other.file && same_line(f.line, other.line) {
            return true;
        }
        i = i + 1;
    }
    false
}

/// Filtering one more element: it is appended where the predicate holds.
proof fn lemma_filter_step<A>(s: Seq<A>, pred: spec_fn(A) -> bool, n: int)
    requires
        0 <= n < s.len(),
    ensures
        s.take(n + 1).filter(pred) == if pred(s[n]) {
            s.take(n).filter(pred).push(s[n])
        } else {
            s.take(n).filter(pred)
        },
{
    reveal(Seq::filter);
    assert(s.take(n + 1).drop_last() =~= s.take(n));
}

/// The findings of `findings` that have (`keep_matched`) or lack a
/// counterpart among `others`, cloned in their order.
fn select(findings: &Vec<Finding>, others: &Vec<Finding>, keep_matched: bool) -> (out: Vec<
    Finding,
>)
    ensures
        out.deep_view() == if keep_matched {
            matched(findings.deep_view(), others.deep_view())
        } else {
            unmatched(findings.deep_view(), others.deep_view())
        },
{
    let ghost views = findings.deep_view();
    let ghost other_views = others.deep_view();
    let ghost pred = if keep_matched {
        |f: FindingView| has_match(f, other_views)
    } else {
        |f: FindingView| !has_match(f, other_views)
    };
    let mut out: Vec<Finding> = Vec::new();
    let mut i: usize = 0;
    proof {
        reveal(Seq::filter);
        assert(views.take(0).filter(pred) =~= Seq::<FindingView>::empty());
        assert(out.deep_view() =~= Seq::<FindingView>::empty());
    }
    while i < findings.len()
        invariant
            i <= findings.len(),
            views == findings.deep_view(),
            views.len() == findings.len(),
            other_views == others.deep_view(),
            pred == if keep_matched {
                |f: FindingView| has_match(f, other_views)
            } else {
                |f: FindingView| !has_match(f, other_views)
            },
            out.deep_view() == views.take(i as int).filter(pred),
        decreases findings.len() - i,
    {
        let f = &findings[i];
        let found = has_counterpart(f, others);
        proof {
            assert(views[i as int] == f@);
            lemma_filter_step(views, pred, i as int);
        }
        if found == keep_matched {
            let ghost before = out.deep_view();
            out.push(f.clone());
            proof {
                assert(out.deep_view() =~= before.push(f@));
            }
        }
        i = i + 1;
    }
    proof {
        assert(views.take(i as int) =~= views);
    }
    out
}

/// Compare two scan results: a current finding without a counterpart in the
/// previous result is new, a previous one without a counterpart in the
/// current result is resolved, a current one with a counterpart is unchanged.
pub fn diff_scans(previous: &ScanResult, current: &ScanResult) -> (diff: ScanDiff)
    ensures
        diff@ == diff_of(previous@, current@),
{
    let new_findings = select(&current.findings, &previous.findings, false);
    let resolved_findings = select(&previous.findings, &current.findings, false);
    let unchanged_findings = select(&current.findings, &previous.findings, true);
    let score_delta: i64 = current.score as i64 - previous.score as i64;

    let mut summary = String::new();
    push_decimal(&mut summary, new_findings.len() as u64);
    summary.append(" new, ");
    push_decimal(&mut summary, resolved_findings.len() as u64);
    summary.append(" resolved, ");
    push_decimal(&mut summary, unchanged_findings.len() as u64);
    summary.append(" unchanged (score: ");
    push_decimal(&mut summary, previous.score as u64);
    summary.append(" \u{2192} ");
    push_decimal(&mut summary, current.score as u64);
    summary.append(", ");
    if score_delta >= 0 {
        summary.append("+");
    } else {
        summary.append("");
    }
    push_signed_decimal(&mut summary, score_delta);
    summary.append(")");
    proof {
        assert(new_findings.deep_view().len() == new_findings.len());
        assert(resolved_findings.deep_view().len() == resolved_findings.len());
        assert(unchanged_findings.deep_view().len() == unchanged_findings.len());
        assert(summary@ =~= summary_of(
            new_findings.len() as nat,
            resolved_findings.len() as nat,
            unchanged_findings.len() as nat,
            previous.score,
            current.score,
        ));
    }
    ScanDiff {
        new_findings,
        resolved_findings,
        unchanged_findings,
        score_delta,
        previous_verdict: previous.verdict,
        current_verdict: current.verdict,
        summary,
    }
}

/// A filter that no element passes leaves nothing.
proof fn lemma_filter_none<A>(s: Seq<A>, pred: spec_fn(A) -> bool)
    requires
        forall|i: int| 0 <= i < s.len() ==> !pred(#[trigger] s[i]),
    ensures
        s.filter(pred) == Seq::<A>::empty(),
    decreases s.len(),
{
    reveal(Seq::filter);
    if s.len() > 0 {
        assert(!pred(s[s.len() - 1]));
        assert forall|i: int| 0 <= i < s.drop_last().len() implies !pred(
            #[trigger] s.drop_last()[i],
        ) by {
            assert(s.drop_last()[i] == s[i]);
        }
        lemma_filter_none(s.drop_last(), pred);
    } else {
        assert(s =~= Seq::<A>::empty());
    }
}

/// A result compared with itself has no new and no resolved finding.
pub proof fn lemma_diff_with_itself(result: ScanResultView)
    ensures
        diff_of(result, result).new_findings == Seq::<FindingView>::empty(),
        diff_of(result, result).resolved_findings == Seq::<FindingView>::empty(),
        diff_of(result, result).score_delta == 0,
{
    let findings = result.findings;
    let pred = |f: FindingView| !has_match(f, findings);
    assert forall|i: int| 0 <= i < findings.len() implies !pred(#[trigger] findings[i]) by {
        assert(same_key(findings[i], findings[i]));
    }
    lemma_filter_none(findings, pred);
}

/// What is new from `a` to `b` is what is resolved from `b` to `a`.
pub proof fn lemma_diff_mirror(a: ScanResultView, b: ScanResultView)
    ensures
        diff_of(a, b).new_findings == diff_of(b, a).resolved_findings,
        diff_of(a, b).resolved_findings == diff_of(b, a).new_findings,
{
}

/// Severity and snippet play no part in a diff: a current finding that
/// differs from a previous one in nothing but these is unchanged, not new.
pub proof fn lemma_diff_reads_key_only(previous: FindingView, current: FindingView)
    requires
        same_key(previous, current),
    ensures
        unmatched(seq![current], seq![previous]) == Seq::<FindingView>::empty(),
        matched(seq![current], seq![previous]) == seq![current],
{
    reveal_with_fuel(Seq::filter, 2);
    let others = seq![previous];
    assert(same_key(current, others[0]));
    assert(has_match(current, others));
    assert(seq![current].drop_last() =~= Seq::<FindingView>::empty());
    assert(seq![current].last() == current);
    assert(matched(seq![current], others) =~= seq![current]);
    assert(unmatched(seq![current], others) =~= Seq::<FindingView>::empty());
}

} // verus!
