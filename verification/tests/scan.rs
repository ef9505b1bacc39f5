use sigil::scanner::orchestrator::{
    assemble_result, is_phase_enabled, parse_phase_filter, run_scan, ScanError,
};
use sigil::scanner::{
    phase_from_name, phase_of_lowered, severity_from_name, severity_of_lowered, Finding, Phase,
    RootFacts, Severity, SourceFile, Verdict,
};

fn file(path: &str, text: Option<&str>) -> SourceFile {
    let name = path.rsplit('/').next().unwrap_or("").to_string();
    SourceFile {
        path: path.to_string(),
        name,
        size: text.map(|t| t.len() as u64),
        text: text.map(|t| t.to_string()),
    }
}

fn git_root() -> RootFacts {
    RootFacts {
        has_git_dir: true,
        has_shallow_marker: false,
        has_package_json: true,
        has_setup_py: false,
    }
}

fn rules_fired(findings: &[Finding]) -> Vec<String> {
    findings.iter().map(|f| f.rule.clone()).collect()
}

fn fixture() -> Vec<SourceFile> {
    vec![
        file(
            "package.json",
            Some("{\n  \"scripts\": {\n    \"postinstall\": \"node x.js\"\n  }\n}\n"),
        ),
        file("src/app.js", Some("a\nb\nc\nvar r = eval(userInput);\n")),
    ]
}

#[test]
fn postinstall_and_eval_give_the_highest_tier() {
    let result = run_scan(&fixture(), &git_root(), None, None, 12).unwrap();
    assert_eq!(rules_fired(&result.findings), vec!["INSTALL-003", "CODE-001"]);
    let install = &result.findings[0];
    assert_eq!(install.phase, Phase::InstallHooks);
    assert_eq!(install.severity, Severity::Critical);
    assert_eq!(install.file, "package.json");
    assert_eq!(install.line, Some(3));
    let code = &result.findings[1];
    assert_eq!(code.phase, Phase::CodePatterns);
    assert_eq!(code.severity, Severity::High);
    assert_eq!(code.file, "src/app.js");
    assert_eq!(code.line, Some(4));
    assert_eq!(result.score, 5 * 10 + 3 * 5);
    assert_eq!(result.verdict, Verdict::Critical);
    assert_eq!(result.files_scanned, 2);
    assert_eq!(result.duration_ms, 12);
}

#[test]
fn empty_tree_is_clean() {
    let root = RootFacts {
        has_git_dir: true,
        has_shallow_marker: false,
        has_package_json: false,
        has_setup_py: false,
    };
    let result = run_scan(&vec![], &root, None, None, 0).unwrap();
    assert!(result.findings.is_empty());
    assert_eq!(result.score, 0);
    assert_eq!(result.verdict, Verdict::Clean);
    assert_eq!(result.files_scanned, 0);
}

#[test]
fn unreadable_file_counts_as_scanned_and_gives_nothing() {
    let files = vec![file("blob.dat2", None), file("ok.py", Some("x = 1\n"))];
    let result = run_scan(&files, &git_root(), None, None, 1).unwrap();
    assert!(result.findings.is_empty());
    assert_eq!(result.files_scanned, 2);
    assert_eq!(result.verdict, Verdict::Clean);
}

#[test]
fn provenance_comes_first_then_files_in_order() {
    let files = vec![
        file("a.py", Some("exec(x)\n")),
        file("exploit.py", Some("requests.get(u)\neval(y)\n")),
    ];
    let result = run_scan(&files, &git_root(), None, None, 1).unwrap();
    assert_eq!(
        rules_fired(&result.findings),
        vec!["PROV-003", "CODE-002", "CODE-001", "NET-001"]
    );
    assert_eq!(result.score, 3 * 3 + 3 * 5 + 3 * 5 + 2 * 3);
    assert_eq!(result.verdict, Verdict::MediumRisk);
}

#[test]
fn phase_filter_restricts_what_runs() {
    let files = vec![file("exploit.py", Some("requests.get(u)\neval(y)\n"))];
    let only_code = vec!["Code-Patterns".to_string(), "no-such-phase".to_string()];
    let result = run_scan(&files, &git_root(), Some(&only_code), None, 1).unwrap();
    assert_eq!(rules_fired(&result.findings), vec!["CODE-001"]);
    let two = vec!["provenance".to_string(), "NETWORK_EXFIL".to_string()];
    let result = run_scan(&files, &git_root(), Some(&two), None, 1).unwrap();
    assert_eq!(rules_fired(&result.findings), vec!["PROV-003", "NET-001"]);
    let none: Vec<String> = vec![];
    let result = run_scan(&files, &git_root(), Some(&none), None, 1).unwrap();
    assert!(result.findings.is_empty());
    assert_eq!(result.verdict, Verdict::Clean);
    assert_eq!(result.files_scanned, 1);
}

#[test]
fn findings_below_the_minimum_severity_are_dropped() {
    let files = vec![file(
        "m.py",
        Some("compile(a)\neval(b)\npickle.loads(c)\nstdio_transport\n"),
    )];
    let all = run_scan(&files, &git_root(), None, None, 1).unwrap();
    assert_eq!(
        rules_fired(&all.findings),
        vec!["CODE-003", "CODE-001", "CODE-004", "NET-MCP-001"]
    );
    let low = run_scan(&files, &git_root(), None, Some("low"), 1).unwrap();
    assert_eq!(low.findings.len(), 4);
    let medium = run_scan(&files, &git_root(), None, Some("Medium"), 1).unwrap();
    assert_eq!(rules_fired(&medium.findings), vec!["CODE-003", "CODE-001", "CODE-004"]);
    let high = run_scan(&files, &git_root(), None, Some("HIGH"), 1).unwrap();
    assert_eq!(rules_fired(&high.findings), vec!["CODE-001", "CODE-004"]);
    assert_eq!(high.score, 3 * 5 + 5 * 5);
    let critical = run_scan(&files, &git_root(), None, Some("critical"), 1).unwrap();
    assert_eq!(rules_fired(&critical.findings), vec!["CODE-004"]);
    let unknown = run_scan(&files, &git_root(), None, Some("severe"), 1).unwrap();
    assert_eq!(unknown.findings.len(), 4);
}

#[test]
fn score_and_verdict_follow_the_kept_findings() {
    let files = vec![file("package.json", Some("\"postinstall\": 1\nmcpServers\n"))];
    let all = run_scan(&files, &git_root(), None, None, 1).unwrap();
    assert_eq!(all.score, 5 * 10 + 1 * 10);
    assert_eq!(all.verdict, Verdict::Critical);
    let only_low = vec!["install-hooks".to_string()];
    let kept = run_scan(&files, &git_root(), Some(&only_low), Some("critical"), 1).unwrap();
    assert_eq!(kept.score, 50);
    assert_eq!(kept.verdict, Verdict::Critical);
}

#[test]
fn scan_error_is_comparable() {
    assert_eq!(ScanError::ScoreOverflow, ScanError::ScoreOverflow);
}

#[test]
fn phase_names() {
    assert_eq!(phase_from_name("install-hooks"), Some(Phase::InstallHooks));
    assert_eq!(phase_from_name("INSTALL_HOOKS"), Some(Phase::InstallHooks));
    assert_eq!(phase_from_name("InstallHooks"), Some(Phase::InstallHooks));
    assert_eq!(phase_from_name("code-patterns"), Some(Phase::CodePatterns));
    assert_eq!(phase_from_name("code_patterns"), Some(Phase::CodePatterns));
    assert_eq!(phase_from_name("codepatterns"), Some(Phase::CodePatterns));
    assert_eq!(phase_from_name("network-exfil"), Some(Phase::NetworkExfil));
    assert_eq!(phase_from_name("network_exfil"), Some(Phase::NetworkExfil));
    assert_eq!(phase_from_name("networkexfil"), Some(Phase::NetworkExfil));
    assert_eq!(phase_from_name("Credentials"), Some(Phase::Credentials));
    assert_eq!(phase_from_name("obfuscation"), Some(Phase::Obfuscation));
    assert_eq!(phase_from_name("provenance"), Some(Phase::Provenance));
    assert_eq!(phase_from_name("all"), None);
    assert_eq!(phase_from_name(""), None);
    assert_eq!(phase_of_lowered("Provenance"), None);
    assert_eq!(phase_of_lowered("provenance"), Some(Phase::Provenance));
}

#[test]
fn severity_names() {
    assert_eq!(severity_from_name("low"), Some(Severity::Low));
    assert_eq!(severity_from_name("Medium"), Some(Severity::Medium));
    assert_eq!(severity_from_name("HIGH"), Some(Severity::High));
    assert_eq!(severity_from_name("critical"), Some(Severity::Critical));
    assert_eq!(severity_from_name("crit"), None);
    assert_eq!(severity_of_lowered("HIGH"), None);
    assert_eq!(severity_of_lowered("high"), Some(Severity::High));
}

#[test]
fn severity_order() {
    let order = [Severity::Low, Severity::Medium, Severity::High, Severity::Critical];
    for (i, a) in order.iter().enumerate() {
        for (j, b) in order.iter().enumerate() {
            assert_eq!(a.at_least(*b), i >= j);
        }
    }
}

#[test]
fn enabled_phases() {
    assert!(is_phase_enabled(None, Phase::Obfuscation));
    let names = vec!["obfuscation".to_string(), "junk".to_string()];
    assert!(is_phase_enabled(Some(&names), Phase::Obfuscation));
    assert!(!is_phase_enabled(Some(&names), Phase::Provenance));
}

#[test]
fn labels() {
    assert_eq!(Phase::InstallHooks.label(), "Install Hooks");
    assert_eq!(Phase::CodePatterns.label(), "Code Patterns");
    assert_eq!(Phase::NetworkExfil.label(), "Network/Exfil");
    assert_eq!(Phase::Credentials.label(), "Credentials");
    assert_eq!(Phase::Obfuscation.label(), "Obfuscation");
    assert_eq!(Phase::Provenance.label(), "Provenance");
    assert_eq!(Severity::Low.label(), "LOW");
    assert_eq!(Severity::Medium.label(), "MEDIUM");
    assert_eq!(Severity::High.label(), "HIGH");
    assert_eq!(Severity::Critical.label(), "CRITICAL");
    assert_eq!(Verdict::Clean.label(), "CLEAN");
    assert_eq!(Verdict::LowRisk.label(), "LOW RISK");
    assert_eq!(Verdict::MediumRisk.label(), "MEDIUM RISK");
    assert_eq!(Verdict::HighRisk.label(), "HIGH RISK");
    assert_eq!(Verdict::Critical.label(), "CRITICAL");
}

#[test]
fn filter_texts() {
    assert_eq!(parse_phase_filter("all"), None);
    assert_eq!(
        parse_phase_filter("install-hooks, code-patterns ,provenance"),
        Some(vec![
            "install-hooks".to_string(),
            "code-patterns".to_string(),
            "provenance".to_string()
        ])
    );
    assert_eq!(parse_phase_filter(""), Some(vec!["".to_string()]));
    assert_eq!(
        parse_phase_filter("a,,b,"),
        Some(vec!["a".to_string(), "".to_string(), "b".to_string(), "".to_string()])
    );
    assert_eq!(parse_phase_filter("ALL"), Some(vec!["ALL".to_string()]));
    let files = vec![file("exploit.py", Some("requests.get(u)\neval(y)\n"))];
    let filter = parse_phase_filter(" Provenance , code_patterns");
    let result = run_scan(&files, &git_root(), filter.as_ref(), None, 1).unwrap();
    assert_eq!(rules_fired(&result.findings), vec!["PROV-003", "CODE-001"]);
}

fn plain(rule: &str, severity: Severity, weight: u32) -> Finding {
    Finding {
        phase: Phase::CodePatterns,
        rule: rule.to_string(),
        severity,
        file: "f".to_string(),
        line: Some(1),
        snippet: "s".to_string(),
        weight,
    }
}

#[test]
fn result_is_assembled_from_what_stays() {
    let collected = || {
        vec![
            plain("L", Severity::Low, 1),
            plain("H", Severity::High, 5),
            plain("M", Severity::Medium, 3),
            plain("C", Severity::Critical, 5),
        ]
    };
    let all = assemble_result(collected(), None, 7, 3).unwrap();
    assert_eq!(rules_fired(&all.findings), vec!["L", "H", "M", "C"]);
    assert_eq!(all.score, 1 + 15 + 6 + 25);
    assert_eq!(all.verdict, Verdict::MediumRisk);
    assert_eq!(all.files_scanned, 7);
    assert_eq!(all.duration_ms, 3);
    let high = assemble_result(collected(), Some(Severity::High), 7, 3).unwrap();
    assert_eq!(rules_fired(&high.findings), vec!["H", "C"]);
    assert_eq!(high.score, 40);
    assert_eq!(high.verdict, Verdict::MediumRisk);
    let empty = assemble_result(vec![plain("L", Severity::Low, 1)], Some(Severity::Medium), 1, 0)
        .unwrap();
    assert!(empty.findings.is_empty());
    assert_eq!(empty.score, 0);
    assert_eq!(empty.verdict, Verdict::Clean);
}

#[test]
fn score_that_does_not_fit_is_an_error() {
    let huge = vec![plain("A", Severity::Critical, u32::MAX), plain("B", Severity::Low, 1)];
    assert_eq!(assemble_result(huge, None, 1, 0).unwrap_err(), ScanError::ScoreOverflow);
    let dropped = vec![plain("A", Severity::Low, u32::MAX), plain("B", Severity::High, 1)];
    let kept = assemble_result(dropped, Some(Severity::High), 1, 0).unwrap();
    assert_eq!(kept.score, 3);
}
