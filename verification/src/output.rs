//! What the presentation of a result decides: levels, the catalogue of
//! rules, counts and bands. Rendering is the caller's.

use vstd::prelude::*;
use vstd::string::*;
use crate::scanner::{Finding, FindingView, Phase, Severity};
use crate::text::{decimal, decimal_string};

verus! {

/// The SARIF level of a severity.
pub open spec fn sarif_level(severity: Severity) -> Seq<char> {
    match severity {
        Severity::Low => "note"@,
        Severity::Medium => "warning"@,
        Severity::High => "error"@,
        Severity::Critical => "error"@,
    }
}

/// Map a severity to its SARIF level.
pub fn severity_to_sarif_level(severity: Severity) -> (level: &'static str)
    ensures
        level@ == sarif_level(severity),
{
    match severity {
        Severity::Low => "note",
        Severity::Medium => "warning",
        Severity::High => "error",
        Severity::Critical => "error",
    }
}

/// Longest short description of a rule, in characters.
pub const SHORT_DESCRIPTION_LIMIT: usize = 100;

/// One rule of the catalogue that a SARIF document lists.
#[derive(Debug)]
pub struct SarifRule {
    pub id: String,
    pub short_description: String,
    pub level: String,
    pub phase: Phase,
}

/// What a `SarifRule` holds, with its strings as sequences of characters.
pub struct SarifRuleView {
    pub id: Seq<char>,
    pub short_description: Seq<char>,
    pub level: Seq<char>,
    pub phase: Phase,
}

impl View for SarifRule {
    type V = SarifRuleView;

    open spec fn view(&self) -> SarifRuleView {
        SarifRuleView {
            id: self.id@,
            short_description: self.short_description@,
            level: self.level@,
            phase: self.phase,
        }
    }
}

impl DeepView for SarifRule {
    type V = SarifRuleView;

    open spec fn deep_view(&self) -> SarifRuleView {
        self@
    }
}

/// The first characters of a text, 100 at most.
pub open spec fn shortened(text: Seq<char>) -> Seq<char> {
    if text.len() > SHORT_DESCRIPTION_LIMIT {
        text.take(SHORT_DESCRIPTION_LIMIT as int)
    } else {
        text
    }
}

/// The catalogue entry that a finding gives for its rule.
pub open spec fn descriptor(f: FindingView) -> SarifRuleView {
    SarifRuleView {
        id: f.rule,
        short_description: shortened(f.snippet),
        level: sarif_level(f.severity),
        phase: f.phase,
    }
}

/// Whether a rule occurs among findings.
pub open spec fn rule_occurs(findings: Seq<FindingView>, rule: Seq<char>) -> bool {
    exists|j: int| 0 <= j < findings.len() && (#[trigger] findings[j]).rule == rule
}

/// The catalogue of the rules of a list of findings: one entry for each
/// rule, made from the first finding of the rule, in the order in which
/// the rules first occur.
pub open spec fn catalogue(findings: Seq<FindingView>) -> Seq<SarifRuleView>
    decreases findings.len(),
{
    if findings.len() == 0 {
        Seq::empty()
    } else if rule_occurs(findings.drop_last(), findings.last().rule) {
        catalogue(findings.drop_last())
    } else {
        catalogue(findings.drop_last()).push(descriptor(findings.last()))
    }
}

/// Whether a rule occurs among the first `n` findings.
fn occurs_before(findings: &[Finding], n: usize, rule: &String) -> (found: bool)
    requires
        n <= findings.len(),
    ensures
        found == rule_occurs(findings.deep_view().take(n as int), rule@),
{
    let ghost views = findings.deep_view();
    let mut j: usize = 0;
    while j < n
        invariant
            j <= n <= findings.len(),
            views == findings.deep_view(),
            views.len() == findings.len(),
            forall|k: int| 0 <= k < j ==> (#[trigger] views.take(n as int)[k]).rule != rule@,
        decreases n - j,
    {
        proof {
            assert(views.take(n as int)[j as int] == findings[j as int]@);
        }
        if findings[j].rule == *rule {
            return true;
        }
        j = j + 1;
    }
    false
}

/// Generate the catalogue of rules of a SARIF document from findings,
/// each rule once.
pub fn generate_rules(findings: &[Finding]) -> (rules: Vec<SarifRule>)
    ensures
        rules.deep_view() == catalogue(findings.deep_view()),
{
    let ghost views = findings.deep_view();
    let mut rules: Vec<SarifRule> = Vec::new();
    let mut i: usize = 0;
    proof {
        assert(rules.deep_view() =~= catalogue(views.take(0)));
    }
    while i < findings.len()
        invariant
            i <= findings.len(),
            views == findings.deep_view(),
            views.len() == findings.len(),
            rules.deep_view() == catalogue(views.take(i as int)),
        decreases findings.len() - i,
    {
        let f = &findings[i];
        proof {
            assert(views[i as int] == f@);
            assert(views.take(i + 1).drop_last() =~= views.take(i as int));
            assert(views.take(i + 1).last() == f@);
        }
        if !occurs_before(findings, i, &f.rule) {
            let snippet = f.snippet.as_str();
            let short_description = if snippet.unicode_len() > SHORT_DESCRIPTION_LIMIT {
                snippet.substring_char(0, SHORT_DESCRIPTION_LIMIT).to_string()
            } else {
                snippet.to_string()
            };
            proof {
                assert(snippet@.subrange(0, SHORT_DESCRIPTION_LIMIT as int) =~= snippet@.take(
                    SHORT_DESCRIPTION_LIMIT as int,
                ));
            }
            let rule = SarifRule {
                id: f.rule.clone(),
                short_description,
                level: severity_to_sarif_level(f.severity).to_string(),
                phase: f.phase,
            };
            let ghost before = rules.deep_view();
            rules.push(rule);
            proof {
                assert(rule@ == descriptor(f@));
                assert(rules.deep_view() =~= before.push(rule@));
            }
        }
        i = i + 1;
    }
    proof {
        assert(views.take(i as int) =~= views);
    }
    rules
}

/// How many findings there are of each severity.
#[derive(Debug, Clone, Copy, PartialEq, Eq, Structural)]
pub struct SeverityCounts {
    pub critical: usize,
    pub high: usize,
    pub medium: usize,
    pub low: usize,
}

/// The number of findings of a severity.
pub open spec fn count_of(findings: Seq<FindingView>, severity: Severity) -> nat
    decreases findings.len(),
{
    if findings.len() == 0 {
        0
    } else {
        count_of(findings.drop_last(), severity) + if findings.last().severity == severity {
            1nat
        } else {
            0nat
        }
    }
}

pub proof fn lemma_count_bound(findings: Seq<FindingView>, severity: Severity)
    ensures
        count_of(findings, severity) <= findings.len(),
    decreases findings.len(),
{
    if findings.len() > 0 {
        lemma_count_bound(findings.drop_last(), severity);
    }
}

/// Count the findings of each severity.
pub fn count_by_severity(findings: &[Finding]) -> (counts: SeverityCounts)
    ensures
        counts.critical == count_of(findings.deep_view(), Severity::Critical),
        counts.high == count_of(findings.deep_view(), Severity::High),
        counts.medium == count_of(findings.deep_view(), Severity::Medium),
        counts.low == count_of(findings.deep_view(), Severity::Low),
{
    let ghost views = findings.deep_view();
    let mut counts = SeverityCounts { critical: 0, high: 0, medium: 0, low: 0 };
    let mut i: usize = 0;
    while i < findings.len()
        invariant
            i <= findings.len(),
            views == findings.deep_view(),
            views.len() == findings.len(),
            counts.critical == count_of(views.take(i as int), Severity::Critical),
            counts.high == count_of(views.take(i as int), Severity::High),
            counts.medium == count_of(views.take(i as int), Severity::Medium),
            counts.low == count_of(views.take(i as int), Severity::Low),
        decreases findings.len() - i,
    {
        proof {
            assert(views[i as int] == findings[i as int]@);
            assert(views.take(i + 1).drop_last() =~= views.take(i as int));
            assert(views.take(i + 1).last() == views[i as int]);
            lemma_count_bound(views.take(i as int), Severity::Critical);
            lemma_count_bound(views.take(i as int), Severity::High);
            lemma_count_bound(views.take(i as int), Severity::Medium);
            lemma_count_bound(views.take(i as int), Severity::Low);
        }
        match findings[i].severity {
            Severity::Critical => {
                counts.critical = counts.critical + 1;
            },
            Severity::High => {
                counts.high = counts.high + 1;
            },
            Severity::Medium => {
                counts.medium = counts.medium + 1;
            },
            Severity::Low => {
                counts.low = counts.low + 1;
            },
        }
        i = i + 1;
    }
    proof {
        assert(views.take(i as int) =~= views);
    }
    counts
}

/// The band in which a score is shown.
#[derive(Debug, Clone, Copy, PartialEq, Eq, Structural)]
pub enum ScoreBand {
    /// A score of 0.
    Zero,
    /// A score below 10.
    Low,
    /// A score below 25.
    Raised,
    /// A score of 25 or more.
    High,
}

/// The band in which a score is shown.
pub open spec fn band_of(score: u32) -> ScoreBand {
    if score == 0 {
        ScoreBand::Zero
    } else if score < 10 {
        ScoreBand::Low
    } else if score < 25 {
        ScoreBand::Raised
    } else {
        ScoreBand::High
    }
}

/// The band in which a score is shown.
pub fn score_band(score: u32) -> (band: ScoreBand)
    ensures
        band == band_of(score),
{
    if score == 0 {
        ScoreBand::Zero
    } else if score < 10 {
        ScoreBand::Low
    } else if score < 25 {
        ScoreBand::Raised
    } else {
        ScoreBand::High
    }
}

/// The label of a severity as a column of a listing: its name, filled up
/// with spaces to 8 characters.
pub open spec fn severity_column(severity: Severity) -> Seq<char> {
    match severity {
        Severity::Low => "LOW     "@,
        Severity::Medium => "MEDIUM  "@,
        Severity::High => "HIGH    "@,
        Severity::Critical => "CRITICAL"@,
    }
}

/// Format a severity label as a column of a listing. Colour is the
/// caller's to add.
pub fn format_severity(severity: Severity) -> (label: String)
    ensures
        label@ == severity_column(severity),
{
    match severity {
        Severity::Low => "LOW     ".to_string(),
        Severity::Medium => "MEDIUM  ".to_string(),
        Severity::High => "HIGH    ".to_string(),
        Severity::Critical => "CRITICAL".to_string(),
    }
}

/// Format a score: its decimal numeral, with the band that gives it its
/// colour.
pub fn format_score(score: u32) -> (shown: (String, ScoreBand))
    ensures
        shown.0@ == decimal(score as nat),
        shown.1 == band_of(score),
{
    (decimal_string(score as u64), score_band(score))
}

} // verus!
