//! Scoring and verdicts: a pure function from findings to a number and a tier.

use vstd::prelude::*;
use super::{Finding, FindingView, Phase, ScanResultView, Severity, Verdict};

verus! {

/// Score above which a non-empty result is at least `MediumRisk`.
pub const MEDIUM_RISK_ABOVE: u32 = 10;

/// Score above which a non-empty result is at least `HighRisk`.
pub const HIGH_RISK_ABOVE: u32 = 50;

/// Score above which a non-empty result is `Critical`.
pub const CRITICAL_ABOVE: u32 = 100;

/// The multiplier that findings of a phase carry as their weight.
/// Provenance findings choose their own weight between 1 and 3; 1 stands for
/// the phase here.
pub open spec fn phase_weight_of(phase: Phase) -> u32 {
    match phase {
        Phase::InstallHooks => 10,
        Phase::CodePatterns => 5,
        Phase::NetworkExfil => 3,
        Phase::Credentials => 2,
        Phase::Obfuscation => 5,
        Phase::Provenance => 1,
    }
}

/// The base score of a severity.
pub open spec fn severity_base(severity: Severity) -> nat {
    match severity {
        Severity::Low => 1,
        Severity::Medium => 2,
        Severity::High => 3,
        Severity::Critical => 5,
    }
}

/// What one finding adds to the score.
pub open spec fn contribution(f: FindingView) -> nat {
    severity_base(f.severity) * (f.weight as nat)
}

/// The aggregate score: the sum of the contributions of all findings.
pub open spec fn total_score(findings: Seq<FindingView>) -> nat
    decreases findings.len(),
{
    if findings.len() == 0 {
        0
    } else {
        total_score(findings.drop_last()) + contribution(findings.last())
    }
}

/// Whether a finding forces the highest tier by itself.
pub open spec fn is_critical_install_hook(f: FindingView) -> bool {
    f.phase == Phase::InstallHooks && f.severity == Severity::Critical
}

/// Whether any finding forces the highest tier by itself.
pub open spec fn has_critical_install_hook(findings: Seq<FindingView>) -> bool {
    exists|i: int| 0 <= i < findings.len() && is_critical_install_hook(#[trigger] findings[i])
}

/// The verdict for a set of findings and a score.
pub open spec fn verdict_of(findings: Seq<FindingView>, score: u32) -> Verdict {
    if findings.len() == 0 {
        Verdict::Clean
    } else if has_critical_install_hook(findings) || score > CRITICAL_ABOVE {
        Verdict::Critical
    } else if score > HIGH_RISK_ABOVE {
        Verdict::HighRisk
    } else if score > MEDIUM_RISK_ABOVE {
        Verdict::MediumRisk
    } else {
        Verdict::LowRisk
    }
}

/// Whether score and verdict of a result are those of its findings. A
/// result is made with both derived from the findings; neither is set by
/// hand.
pub open spec fn is_consistent(result: ScanResultView) -> bool {
    &&& result.score == total_score(result.findings)
    &&& result.verdict == verdict_of(result.findings, result.score)
}

/// The multiplier that findings of a phase carry as their weight.
pub fn phase_weight(phase: Phase) -> (weight: u32)
    ensures
        weight == phase_weight_of(phase),
{
    match phase {
        Phase::InstallHooks => 10,
        Phase::CodePatterns => 5,
        Phase::NetworkExfil => 3,
        Phase::Credentials => 2,
        Phase::Obfuscation => 5,
        Phase::Provenance => 1,
    }
}

/// The base score of a severity.
pub fn severity_score(severity: Severity) -> (base: u32)
    ensures
        base == severity_base(severity),
{
    match severity {
        Severity::Low => 1,
        Severity::Medium => 2,
        Severity::High => 3,
        Severity::Critical => 5,
    }
}

/// The score of the first `n` findings of a list.
proof fn lemma_score_prefix_step(findings: Seq<FindingView>, n: int)
    requires
        0 <= n < findings.len(),
    ensures
        total_score(findings.take(n + 1)) == total_score(findings.take(n)) + contribution(
            findings[n],
        ),
{
    assert(findings.take(n + 1).drop_last() =~= findings.take(n));
}

/// The score grows with the list: no prefix scores more than the whole.
pub proof fn lemma_score_prefix_bound(findings: Seq<FindingView>, n: int)
    requires
        0 <= n <= findings.len(),
    ensures
        total_score(findings.take(n)) <= total_score(findings),
    decreases findings.len() - n,
{
    if n == findings.len() {
        assert(findings.take(n) =~= findings);
    } else {
        lemma_score_prefix_step(findings, n);
        lemma_score_prefix_bound(findings, n + 1);
    }
}

/// The aggregate score, or `None` where it does not fit in 32 bits.
pub fn checked_score(findings: &[Finding]) -> (score: Option<u32>)
    ensures
        match score {
            Some(s) => s == total_score(findings.deep_view()),
            None => total_score(findings.deep_view()) > u32::MAX,
        },
{
    let ghost views = findings.deep_view();
    let mut sum: u64 = 0;
    let mut i: usize = 0;
    while i < findings.len()
        invariant
            i <= findings.len(),
            views == findings.deep_view(),
            views.len() == findings.len(),
            sum == total_score(views.take(i as int)),
            sum <= u32::MAX,
        decreases findings.len() - i,
    {
        let base: u64 = severity_score(findings[i].severity) as u64;
        let weight: u64 = findings[i].weight as u64;
        proof {
            lemma_score_prefix_step(views, i as int);
            assert(views[i as int] == findings[i as int]@);
            assert(base * weight <= 5 * 0xffff_ffff) by (nonlinear_arith)
                requires
                    base <= 5,
                    weight <= 0xffff_ffff,
            ;
        }
        let next: u64 = sum + base * weight;
        if next > u32::MAX as u64 {
            proof {
                lemma_score_prefix_bound(views, i + 1);
            }
            return None;
        }
        sum = next;
        i = i + 1;
    }
    proof {
        assert(views.take(i as int) =~= views);
    }
    Some(sum as u32)
}

/// Calculate the aggregate risk score from a list of findings: each finding
/// contributes the base score of its severity times its own weight.
pub fn calculate_score(findings: &[Finding]) -> (score: u32)
    requires
        total_score(findings.deep_view()) <= u32::MAX,
    ensures
        score == total_score(findings.deep_view()),
{
    match checked_score(findings) {
        Some(score) => score,
        None => 0,
    }
}

/// Determine the overall verdict from findings and the aggregate score.
///
/// - `Clean`: no findings at all
/// - `Critical`: any Critical finding of the InstallHooks phase, whatever the
///   score, or a score above 100
/// - `HighRisk`: a score above 50
/// - `MediumRisk`: a score above 10
/// - `LowRisk`: otherwise
pub fn determine_verdict(findings: &[Finding], score: u32) -> (verdict: Verdict)
    ensures
        verdict == verdict_of(findings.deep_view(), score),
{
    let ghost views = findings.deep_view();
    if findings.len() == 0 {
        return Verdict::Clean;
    }
    let mut escalate = false;
    let mut i: usize = 0;
    while i < findings.len()
        invariant
            i <= findings.len(),
            views == findings.deep_view(),
            views.len() == findings.len(),
            escalate == has_critical_install_hook(views.take(i as int)),
        decreases findings.len() - i,
    {
        let hit = findings[i].phase == Phase::InstallHooks && findings[i].severity
            == Severity::Critical;
        proof {
            let before = views.take(i as int);
            let after = views.take(i + 1);
            assert(views[i as int] == findings[i as int]@);
            assert(after[i as int] == views[i as int]);
            assert forall|j: int| 0 <= j < before.len() implies before[j] == after[j] by {}
            if has_critical_install_hook(before) {
                let j = choose|j: int|
                    0 <= j < before.len() && is_critical_install_hook(#[trigger] before[j]);
                assert(is_critical_install_hook(after[j]));
            }
            if has_critical_install_hook(after) && !hit {
                let j = choose|j: int|
                    0 <= j < after.len() && is_critical_install_hook(#[trigger] after[j]);
                assert(is_critical_install_hook(before[j]));
            }
        }
        escalate = escalate || hit;
        i = i + 1;
    }
    proof {
        assert(views.take(i as int) =~= views);
    }
    if escalate || score > CRITICAL_ABOVE {
        Verdict::Critical
    } else if score > HIGH_RISK_ABOVE {
        Verdict::HighRisk
    } else if score > MEDIUM_RISK_ABOVE {
        Verdict::MediumRisk
    } else {
        Verdict::LowRisk
    }
}

/// The score reads nothing of a finding but its severity and its weight:
/// two lists that agree on both, finding by finding, have the same score.
pub proof fn lemma_score_reads_severity_and_weight(a: Seq<FindingView>, b: Seq<FindingView>)
    requires
        a.len() == b.len(),
        forall|i: int|
            0 <= i < a.len() ==> (#[trigger] a[i]).severity == b[i].severity && a[i].weight
                == b[i].weight,
    ensures
        total_score(a) == total_score(b),
    decreases a.len(),
{
    if a.len() > 0 {
        assert(a.last().severity == b.last().severity && a.last().weight == b.last().weight);
        assert forall|i: int| 0 <= i < a.drop_last().len() implies (#[trigger] a.drop_last()[i]).severity
            == b.drop_last()[i].severity && a.drop_last()[i].weight == b.drop_last()[i].weight by {
            assert(a.drop_last()[i] == a[i]);
            assert(b.drop_last()[i] == b[i]);
        }
        lemma_score_reads_severity_and_weight(a.drop_last(), b.drop_last());
    }
}

/// Without findings the verdict is the lowest tier, whatever the score.
pub proof fn lemma_no_findings_is_clean(score: u32)
    ensures
        verdict_of(Seq::<FindingView>::empty(), score) == Verdict::Clean,
{
}

/// One Critical finding of the InstallHooks phase gives the highest tier,
/// whatever the score and whatever else was found.
pub proof fn lemma_critical_install_hook_escalates(
    findings: Seq<FindingView>,
    at: int,
    score: u32,
)
    requires
        0 <= at < findings.len(),
        is_critical_install_hook(findings[at]),
    ensures
        verdict_of(findings, score) == Verdict::Critical,
{
}

/// For the same findings a higher score never gives a lower tier.
pub proof fn lemma_verdict_monotone_in_score(findings: Seq<FindingView>, low: u32, high: u32)
    requires
        low <= high,
    ensures
        verdict_of(findings, low).tier() <= verdict_of(findings, high).tier(),
{
}

} // verus!
