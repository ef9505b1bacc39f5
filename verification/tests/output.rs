use sigil::output::{
    count_by_severity, format_score, format_severity, generate_rules, score_band,
    severity_to_sarif_level, ScoreBand, SeverityCounts,
};
use sigil::scanner::{Finding, Phase, Severity};

fn finding(rule: &str, severity: Severity, phase: Phase, snippet: &str) -> Finding {
    Finding {
        phase,
        rule: rule.to_string(),
        severity,
        file: "f".to_string(),
        line: Some(1),
        snippet: snippet.to_string(),
        weight: 1,
    }
}

#[test]
fn sarif_levels() {
    assert_eq!(severity_to_sarif_level(Severity::Low), "note");
    assert_eq!(severity_to_sarif_level(Severity::Medium), "warning");
    assert_eq!(severity_to_sarif_level(Severity::High), "error");
    assert_eq!(severity_to_sarif_level(Severity::Critical), "error");
}

#[test]
fn catalogue_lists_each_rule_once() {
    let long: String = std::iter::repeat('\u{00e9}').take(150).collect();
    let findings = vec![
        finding("B", Severity::High, Phase::CodePatterns, "first b"),
        finding("A", Severity::Low, Phase::Provenance, &long),
        finding("B", Severity::Critical, Phase::Obfuscation, "second b"),
        finding("C", Severity::Medium, Phase::Credentials, ""),
        finding("A", Severity::High, Phase::Provenance, "second a"),
    ];
    let rules = generate_rules(&findings);
    let ids: Vec<String> = rules.iter().map(|r| r.id.clone()).collect();
    assert_eq!(ids, vec!["B", "A", "C"]);
    assert_eq!(rules[0].short_description, "first b");
    assert_eq!(rules[0].level, "error");
    assert_eq!(rules[0].phase, Phase::CodePatterns);
    let kept: String = std::iter::repeat('\u{00e9}').take(100).collect();
    assert_eq!(rules[1].short_description, kept);
    assert_eq!(rules[1].level, "note");
    assert_eq!(rules[2].short_description, "");
    assert_eq!(rules[2].level, "warning");
    assert!(generate_rules(&[]).is_empty());
}

#[test]
fn counts() {
    let findings = vec![
        finding("1", Severity::High, Phase::CodePatterns, ""),
        finding("2", Severity::Low, Phase::CodePatterns, ""),
        finding("3", Severity::High, Phase::CodePatterns, ""),
        finding("4", Severity::Critical, Phase::CodePatterns, ""),
    ];
    assert_eq!(
        count_by_severity(&findings),
        SeverityCounts { critical: 1, high: 2, medium: 0, low: 1 }
    );
    assert_eq!(
        count_by_severity(&[]),
        SeverityCounts { critical: 0, high: 0, medium: 0, low: 0 }
    );
}

#[test]
fn severity_columns_have_eight_characters() {
    assert_eq!(format_severity(Severity::Low), "LOW     ");
    assert_eq!(format_severity(Severity::Medium), "MEDIUM  ");
    assert_eq!(format_severity(Severity::High), "HIGH    ");
    assert_eq!(format_severity(Severity::Critical), "CRITICAL");
}

#[test]
fn formatted_scores() {
    assert_eq!(format_score(0), ("0".to_string(), ScoreBand::Zero));
    assert_eq!(format_score(9), ("9".to_string(), ScoreBand::Low));
    assert_eq!(format_score(24), ("24".to_string(), ScoreBand::Raised));
    assert_eq!(format_score(4294967295), ("4294967295".to_string(), ScoreBand::High));
}

#[test]
fn score_bands() {
    assert_eq!(score_band(0), ScoreBand::Zero);
    assert_eq!(score_band(1), ScoreBand::Low);
    assert_eq!(score_band(9), ScoreBand::Low);
    assert_eq!(score_band(10), ScoreBand::Raised);
    assert_eq!(score_band(24), ScoreBand::Raised);
    assert_eq!(score_band(25), ScoreBand::High);
    assert_eq!(score_band(u32::MAX), ScoreBand::High);
}
