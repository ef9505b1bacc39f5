use sigil::diff::diff_scans;
use sigil::scanner::{Finding, Phase, ScanResult, Severity, Verdict};

fn finding(rule: &str, file: &str, line: Option<usize>, severity: Severity) -> Finding {
    Finding {
        phase: Phase::CodePatterns,
        rule: rule.to_string(),
        severity,
        file: file.to_string(),
        line,
        snippet: format!("{} in {}", rule, file),
        weight: 5,
    }
}

fn result(findings: Vec<Finding>, score: u32, verdict: Verdict) -> ScanResult {
    ScanResult { findings, score, verdict, files_scanned: 3, duration_ms: 9 }
}

fn keys(findings: &[Finding]) -> Vec<(String, String, Option<usize>)> {
    findings.iter().map(|f| (f.rule.clone(), f.file.clone(), f.line)).collect()
}

fn sample_a() -> ScanResult {
    result(
        vec![
            finding("CODE-001", "a.py", Some(1), Severity::High),
            finding("CODE-002", "a.py", Some(2), Severity::High),
            finding("PROV-001", ".env", None, Severity::Low),
        ],
        31,
        Verdict::MediumRisk,
    )
}

fn sample_b() -> ScanResult {
    result(
        vec![
            finding("CODE-002", "a.py", Some(2), Severity::Critical),
            finding("CODE-001", "a.py", Some(7), Severity::High),
            finding("NET-001", "b.py", Some(1), Severity::Medium),
            finding("PROV-001", ".env", None, Severity::Low),
        ],
        120,
        Verdict::Critical,
    )
}

#[test]
fn classifies_new_resolved_and_unchanged() {
    let diff = diff_scans(&sample_a(), &sample_b());
    assert_eq!(
        keys(&diff.new_findings),
        vec![
            ("CODE-001".to_string(), "a.py".to_string(), Some(7)),
            ("NET-001".to_string(), "b.py".to_string(), Some(1)),
        ]
    );
    assert_eq!(
        keys(&diff.resolved_findings),
        vec![("CODE-001".to_string(), "a.py".to_string(), Some(1))]
    );
    assert_eq!(
        keys(&diff.unchanged_findings),
        vec![
            ("CODE-002".to_string(), "a.py".to_string(), Some(2)),
            ("PROV-001".to_string(), ".env".to_string(), None),
        ]
    );
    assert_eq!(diff.unchanged_findings[0].severity, Severity::Critical);
    assert_eq!(diff.score_delta, 89);
    assert_eq!(diff.previous_verdict, Verdict::MediumRisk);
    assert_eq!(diff.current_verdict, Verdict::Critical);
    assert_eq!(
        diff.summary,
        "2 new, 1 resolved, 2 unchanged (score: 31 \u{2192} 120, +89)"
    );
}

#[test]
fn negative_delta_has_its_own_sign() {
    let diff = diff_scans(&sample_b(), &sample_a());
    assert_eq!(diff.score_delta, -89);
    assert_eq!(
        diff.summary,
        "1 new, 2 resolved, 2 unchanged (score: 120 \u{2192} 31, -89)"
    );
}

#[test]
fn result_compared_with_itself_has_nothing_new_or_resolved() {
    for r in [sample_a(), sample_b(), result(vec![], 0, Verdict::Clean)] {
        let diff = diff_scans(&r, &r);
        assert!(diff.new_findings.is_empty());
        assert!(diff.resolved_findings.is_empty());
        assert_eq!(diff.unchanged_findings.len(), r.findings.len());
        assert_eq!(diff.score_delta, 0);
    }
    let diff = diff_scans(&sample_a(), &sample_a());
    assert_eq!(diff.summary, "0 new, 0 resolved, 3 unchanged (score: 31 \u{2192} 31, +0)");
}

#[test]
fn new_one_way_is_resolved_the_other_way() {
    let forward = diff_scans(&sample_a(), &sample_b());
    let backward = diff_scans(&sample_b(), &sample_a());
    assert_eq!(keys(&forward.new_findings), keys(&backward.resolved_findings));
    assert_eq!(keys(&forward.resolved_findings), keys(&backward.new_findings));
}

#[test]
fn key_is_rule_file_and_line_only() {
    let before = result(vec![finding("R", "f", Some(3), Severity::Low)], 5, Verdict::LowRisk);
    let mut changed = finding("R", "f", Some(3), Severity::Critical);
    changed.snippet = "something else".to_string();
    changed.phase = Phase::Obfuscation;
    changed.weight = 1;
    let after = result(vec![changed], 5, Verdict::LowRisk);
    let diff = diff_scans(&before, &after);
    assert!(diff.new_findings.is_empty());
    assert!(diff.resolved_findings.is_empty());
    assert_eq!(diff.unchanged_findings.len(), 1);
    assert_eq!(diff.unchanged_findings[0].snippet, "something else");

    let other_line = result(vec![finding("R", "f", None, Severity::Low)], 5, Verdict::LowRisk);
    let diff = diff_scans(&before, &other_line);
    assert_eq!(diff.new_findings.len(), 1);
    assert_eq!(diff.resolved_findings.len(), 1);
}

#[test]
fn extreme_score_delta() {
    let low = result(vec![], 0, Verdict::Clean);
    let high = result(vec![], u32::MAX, Verdict::Clean);
    assert_eq!(diff_scans(&low, &high).score_delta, 4294967295);
    assert_eq!(diff_scans(&high, &low).score_delta, -4294967295);
    assert_eq!(
        diff_scans(&high, &low).summary,
        "0 new, 0 resolved, 0 unchanged (score: 4294967295 \u{2192} 0, -4294967295)"
    );
}
