use sigil::api::{
    endpoint_or_default, offline_fallback_message, route_url, signatures_url, stored_token,
    unknown_threat, updated_signatures, ReportResponse, ScanResponse, Signature, DEFAULT_ENDPOINT,
};
use sigil::scanner::cloud_sigs::{
    load_cloud_signatures, merge_signatures, parse_phase, parse_severity,
    scan_with_cloud_signatures, signatures_path, sync_meta_path, CloudSignature,
    SignatureResponse,
};
use sigil::scanner::{Phase, Severity};

fn signature(id: &str, pattern: &str, phase: &str, severity: &str, description: &str) -> CloudSignature {
    CloudSignature {
        id: id.to_string(),
        pattern: pattern.to_string(),
        phase: phase.to_string(),
        severity: severity.to_string(),
        description: description.to_string(),
        updated_at: None,
    }
}

fn ids(signatures: &[CloudSignature]) -> Vec<String> {
    signatures.iter().map(|s| s.id.clone()).collect()
}

#[test]
fn phase_names_fall_back_to_code_patterns() {
    assert_eq!(parse_phase("install_hooks"), Phase::InstallHooks);
    assert_eq!(parse_phase("Install-Hooks"), Phase::InstallHooks);
    assert_eq!(parse_phase("code_patterns"), Phase::CodePatterns);
    assert_eq!(parse_phase("code-patterns"), Phase::CodePatterns);
    assert_eq!(parse_phase("NETWORK_EXFIL"), Phase::NetworkExfil);
    assert_eq!(parse_phase("network-exfil"), Phase::NetworkExfil);
    assert_eq!(parse_phase("credentials"), Phase::Credentials);
    assert_eq!(parse_phase("obfuscation"), Phase::Obfuscation);
    assert_eq!(parse_phase("provenance"), Phase::Provenance);
    assert_eq!(parse_phase("installhooks"), Phase::CodePatterns);
    assert_eq!(parse_phase("mystery"), Phase::CodePatterns);
    assert_eq!(parse_phase(""), Phase::CodePatterns);
}

#[test]
fn severity_names_fall_back_to_low() {
    assert_eq!(parse_severity("critical"), Severity::Critical);
    assert_eq!(parse_severity("HIGH"), Severity::High);
    assert_eq!(parse_severity("Medium"), Severity::Medium);
    assert_eq!(parse_severity("low"), Severity::Low);
    assert_eq!(parse_severity("urgent"), Severity::Low);
    assert_eq!(parse_severity(""), Severity::Low);
}

#[test]
fn cloud_findings_come_signature_by_signature() {
    let signatures = vec![
        signature("SIG-2", "beta", "credentials", "high", "second"),
        signature("SIG-1", "alpha", "install_hooks", "CRITICAL", "first"),
    ];
    let text = "alpha\nbeta and alpha\n  beta  \n";
    let findings = scan_with_cloud_signatures("f.txt", text, &signatures);
    let seen: Vec<(String, Option<usize>)> =
        findings.iter().map(|f| (f.rule.clone(), f.line)).collect();
    assert_eq!(
        seen,
        vec![
            ("SIG-2".to_string(), Some(2)),
            ("SIG-2".to_string(), Some(3)),
            ("SIG-1".to_string(), Some(1)),
            ("SIG-1".to_string(), Some(2)),
        ]
    );
    assert_eq!(findings[0].phase, Phase::Credentials);
    assert_eq!(findings[0].severity, Severity::High);
    assert_eq!(findings[0].weight, 2);
    assert_eq!(findings[0].file, "f.txt");
    assert_eq!(findings[0].snippet, "[cloud] second: beta and alpha");
    assert_eq!(findings[1].snippet, "[cloud] second: beta");
    assert_eq!(findings[2].phase, Phase::InstallHooks);
    assert_eq!(findings[2].severity, Severity::Critical);
    assert_eq!(findings[2].weight, 10);
    assert_eq!(findings[2].snippet, "[cloud] first: alpha");
}

#[test]
fn signature_with_broken_pattern_is_skipped() {
    let signatures = vec![
        signature("BAD", "([a-z", "obfuscation", "high", "broken"),
        signature("OK", "x+", "unknown-phase", "unknown", ""),
    ];
    let findings = scan_with_cloud_signatures("f", "xx\n", &signatures);
    assert_eq!(findings.len(), 1);
    assert_eq!(findings[0].rule, "OK");
    assert_eq!(findings[0].phase, Phase::CodePatterns);
    assert_eq!(findings[0].severity, Severity::Low);
    assert_eq!(findings[0].weight, 5);
    assert_eq!(findings[0].snippet, "[cloud] : xx");
    assert!(scan_with_cloud_signatures("f", "xx\n", &[]).is_empty());
}

#[test]
fn merge_is_an_upsert_by_identifier() {
    let local = vec![
        signature("A", "a1", "credentials", "low", "old a"),
        signature("B", "b1", "credentials", "low", "old b"),
        signature("C", "c1", "credentials", "low", "old c"),
    ];
    let fetched = vec![
        signature("B", "b2", "obfuscation", "high", "new b"),
        signature("D", "d2", "obfuscation", "high", "new d"),
        signature("B", "b3", "obfuscation", "high", "newest b"),
        signature("D", "d3", "obfuscation", "high", "newest d"),
    ];
    let all = merge_signatures(local, &fetched);
    assert_eq!(ids(&all), vec!["A", "B", "C", "D"]);
    assert_eq!(all[0].pattern, "a1");
    assert_eq!(all[1].pattern, "b3");
    assert_eq!(all[1].description, "newest b");
    assert_eq!(all[2].pattern, "c1");
    assert_eq!(all[3].pattern, "d3");
}

#[test]
fn forced_fetch_starts_from_nothing() {
    let stored = || vec![signature("A", "a", "p", "low", "")];
    let fetched = vec![signature("B", "b", "p", "low", "")];
    assert_eq!(ids(&updated_signatures(stored(), &fetched, true)), vec!["B"]);
    assert_eq!(ids(&updated_signatures(stored(), &fetched, false)), vec!["A", "B"]);
    assert_eq!(ids(&updated_signatures(stored(), &vec![], false)), vec!["A"]);
    assert!(updated_signatures(stored(), &vec![], true).is_empty());
}

#[test]
fn stored_signatures_in_either_form() {
    let wrapped = SignatureResponse {
        signatures: vec![signature("W", "w", "p", "low", "")],
        total: 1,
        last_updated: Some("2024-01-01".to_string()),
    };
    let bare = vec![signature("R", "r", "p", "low", "")];
    assert_eq!(ids(&load_cloud_signatures(Some(wrapped), Some(bare))), vec!["W"]);
    let bare = vec![signature("R", "r", "p", "low", "")];
    assert_eq!(ids(&load_cloud_signatures(None, Some(bare))), vec!["R"]);
    assert!(load_cloud_signatures(None, None).is_empty());
}

#[test]
fn signature_files() {
    assert_eq!(signatures_path("/home/u"), "/home/u/.sigil/signatures.json");
    assert_eq!(sync_meta_path("/home/u"), "/home/u/.sigil/signatures_meta.json");
}

#[test]
fn addresses() {
    assert_eq!(DEFAULT_ENDPOINT, "https://api.sigil.nomark.dev");
    assert_eq!(endpoint_or_default(None), "https://api.sigil.nomark.dev");
    assert_eq!(endpoint_or_default(Some("http://x".to_string())), "http://x");
    assert_eq!(route_url("http://x", "/v1/scan"), "http://x/v1/scan");
    assert_eq!(signatures_url("http://x", true, Some("t0")), "http://x/v1/signatures");
    assert_eq!(signatures_url("http://x", false, None), "http://x/v1/signatures");
    assert_eq!(
        signatures_url("http://x", false, Some("2024-05-01T00:00:00Z")),
        "http://x/v1/signatures?since=2024-05-01T00:00:00Z"
    );
}

#[test]
fn unknown_hash_is_not_malicious() {
    let info = unknown_threat("abc123");
    assert_eq!(info.hash, "abc123");
    assert!(!info.known_malicious);
    assert_eq!(info.threat_type, None);
    assert_eq!(info.description, None);
    assert_eq!(info.first_seen, None);
    assert!(info.references.is_empty());
}

#[test]
fn token_files() {
    assert_eq!(stored_token("  abc123\n"), Some("abc123".to_string()));
    assert_eq!(stored_token("tok"), Some("tok".to_string()));
    assert_eq!(stored_token(" \n\t"), None);
    assert_eq!(stored_token(""), None);
}

#[test]
fn offline_message() {
    let offline = "Sigil cloud is unreachable (running in offline mode). Local scanning will continue to work, but threat intelligence and signature updates are unavailable.";
    assert_eq!(offline_fallback_message(true, false, "x"), offline);
    assert_eq!(offline_fallback_message(false, true, "x"), offline);
    assert_eq!(offline_fallback_message(false, false, "bad body"), "network error: bad body");
}

#[test]
fn response_records() {
    let scan = ScanResponse { id: "1".to_string(), status: "ok".to_string(), message: None };
    assert_eq!(scan.id, "1");
    let report = ReportResponse { id: "2".to_string(), status: "received".to_string() };
    assert_eq!(report.status, "received");
    let listed = Signature {
        id: "S".to_string(),
        pattern: "p".to_string(),
        phase: "credentials".to_string(),
        severity: "high".to_string(),
        description: "d".to_string(),
    };
    assert_eq!(listed.phase, "credentials");
}
