//! The domain model of a scan: phases, severities, findings and results.

use vstd::prelude::*;
use vstd::string::*;
use crate::text::{lowercase, same_text, text_view, to_lowercase};

pub mod cloud_sigs;
pub mod orchestrator;
pub mod pattern;
pub mod phases;
pub mod provenance;
pub mod rules;
pub mod scoring;
pub mod shape;

verus! {

/// The six scan phases, each targeting a different threat category.
#[derive(Debug, Clone, Copy, PartialEq, Eq, Hash, Structural)]
pub enum Phase {
    InstallHooks,
    CodePatterns,
    NetworkExfil,
    Credentials,
    Obfuscation,
    Provenance,
}

/// Severity of a single finding, from least to most serious.
#[derive(Debug, Clone, Copy, PartialEq, Eq, Hash, Structural)]
pub enum Severity {
    Low,
    Medium,
    High,
    Critical,
}

impl Severity {
    /// Position of the severity in the order Low < Medium < High < Critical.
    pub open spec fn rank(self) -> nat {
        match self {
            Severity::Low => 0,
            Severity::Medium => 1,
            Severity::High => 2,
            Severity::Critical => 3,
        }
    }

    /// Whether `self` is at least as serious as `min`.
    pub fn at_least(self, min: Severity) -> (b: bool)
        ensures
            b == (self.rank() >= min.rank()),
    {
        match min {
            Severity::Low => true,
            Severity::Medium => !(self == Severity::Low),
            Severity::High => self == Severity::High || self == Severity::Critical,
            Severity::Critical => self == Severity::Critical,
        }
    }
}

/// Overall scan verdict, from no risk to the highest tier.
#[derive(Debug, Clone, Copy, PartialEq, Eq, Hash, Structural)]
pub enum Verdict {
    Clean,
    LowRisk,
    MediumRisk,
    HighRisk,
    Critical,
}

impl Verdict {
    /// Position of the verdict on the ladder of tiers, lowest risk first.
    pub open spec fn tier(self) -> nat {
        match self {
            Verdict::Clean => 0,
            Verdict::LowRisk => 1,
            Verdict::MediumRisk => 2,
            Verdict::HighRisk => 3,
            Verdict::Critical => 4,
        }
    }
}

/// A single security finding discovered during scanning.
///
/// `weight` is fixed when the finding is created and is never derived again
/// from the phase: provenance findings carry their own weight.
#[derive(Debug)]
pub struct Finding {
    pub phase: Phase,
    pub rule: String,
    pub severity: Severity,
    pub file: String,
    pub line: Option<usize>,
    pub snippet: String,
    pub weight: u32,
}

/// What a `Finding` holds, with its strings as sequences of characters.
pub struct FindingView {
    pub phase: Phase,
    pub rule: Seq<char>,
    pub severity: Severity,
    pub file: Seq<char>,
    pub line: Option<usize>,
    pub snippet: Seq<char>,
    pub weight: u32,
}

impl View for Finding {
    type V = FindingView;

    open spec fn view(&self) -> FindingView {
        FindingView {
            phase: self.phase,
            rule: self.rule@,
            severity: self.severity,
            file: self.file@,
            line: self.line,
            snippet: self.snippet@,
            weight: self.weight,
        }
    }
}

impl DeepView for Finding {
    type V = FindingView;

    open spec fn deep_view(&self) -> FindingView {
        self@
    }
}

impl Clone for Finding {
    fn clone(&self) -> (copy: Finding)
        ensures
            copy@ == self@,
    {
        Finding {
            phase: self.phase,
            rule: self.rule.clone(),
            severity: self.severity,
            file: self.file.clone(),
            line: self.line,
            snippet: self.snippet.clone(),
            weight: self.weight,
        }
    }
}

/// The result of a complete scan across all phases.
#[derive(Debug)]
pub struct ScanResult {
    pub findings: Vec<Finding>,
    pub score: u32,
    pub verdict: Verdict,
    pub files_scanned: usize,
    pub duration_ms: u64,
}

/// What a `ScanResult` holds, with its findings by their views.
pub struct ScanResultView {
    pub findings: Seq<FindingView>,
    pub score: u32,
    pub verdict: Verdict,
    pub files_scanned: usize,
    pub duration_ms: u64,
}

impl View for ScanResult {
    type V = ScanResultView;

    open spec fn view(&self) -> ScanResultView {
        ScanResultView {
            findings: self.findings.deep_view(),
            score: self.score,
            verdict: self.verdict,
            files_scanned: self.files_scanned,
            duration_ms: self.duration_ms,
        }
    }
}

/// A regular file met by a scan, as the scan reads it.
#[derive(Debug)]
pub struct SourceFile {
    /// Path relative to the scan root, with `/` between its parts.
    pub path: String,
    /// The file's own name.
    pub name: String,
    /// Size in bytes, where the file's metadata could be read.
    pub size: Option<u64>,
    /// The file's text, where it could be read as text.
    pub text: Option<String>,
}

/// What a `SourceFile` holds, with its strings as sequences of characters.
pub struct SourceFileView {
    pub path: Seq<char>,
    pub name: Seq<char>,
    pub size: Option<u64>,
    pub text: Option<Seq<char>>,
}

impl View for SourceFile {
    type V = SourceFileView;

    open spec fn view(&self) -> SourceFileView {
        SourceFileView {
            path: self.path@,
            name: self.name@,
            size: self.size,
            text: text_view(self.text),
        }
    }
}

impl DeepView for SourceFile {
    type V = SourceFileView;

    open spec fn deep_view(&self) -> SourceFileView {
        self@
    }
}

/// What a scan knows of its root directory besides the files under it.
#[derive(Debug, Clone, Copy, PartialEq, Eq, Structural)]
pub struct RootFacts {
    /// The root holds a `.git` entry.
    pub has_git_dir: bool,
    /// The `.git` entry holds the marker of a shallow clone.
    pub has_shallow_marker: bool,
    /// The root holds a `package.json`.
    pub has_package_json: bool,
    /// The root holds a `setup.py`.
    pub has_setup_py: bool,
}

/// The phase that a name in lower case stands for.
pub open spec fn phase_named(lower: Seq<char>) -> Option<Phase> {
    if lower == "install-hooks"@ || lower == "install_hooks"@ || lower == "installhooks"@ {
        Some(Phase::InstallHooks)
    } else if lower == "code-patterns"@ || lower == "code_patterns"@ || lower == "codepatterns"@ {
        Some(Phase::CodePatterns)
    } else if lower == "network-exfil"@ || lower == "network_exfil"@ || lower == "networkexfil"@ {
        Some(Phase::NetworkExfil)
    } else if lower == "credentials"@ {
        Some(Phase::Credentials)
    } else if lower == "obfuscation"@ {
        Some(Phase::Obfuscation)
    } else if lower == "provenance"@ {
        Some(Phase::Provenance)
    } else {
        None
    }
}

/// The severity that a name in lower case stands for.
pub open spec fn severity_named(lower: Seq<char>) -> Option<Severity> {
    if lower == "low"@ {
        Some(Severity::Low)
    } else if lower == "medium"@ {
        Some(Severity::Medium)
    } else if lower == "high"@ {
        Some(Severity::High)
    } else if lower == "critical"@ {
        Some(Severity::Critical)
    } else {
        None
    }
}

/// The phase that a name stands for, the name being in lower case already.
pub fn phase_of_lowered(lower: &str) -> (phase: Option<Phase>)
    ensures
        phase == phase_named(lower@),
{
    if same_text(lower, "install-hooks") || same_text(lower, "install_hooks") || same_text(
        lower,
        "installhooks",
    ) {
        Some(Phase::InstallHooks)
    } else if same_text(lower, "code-patterns") || same_text(lower, "code_patterns") || same_text(
        lower,
        "codepatterns",
    ) {
        Some(Phase::CodePatterns)
    } else if same_text(lower, "network-exfil") || same_text(lower, "network_exfil") || same_text(
        lower,
        "networkexfil",
    ) {
        Some(Phase::NetworkExfil)
    } else if same_text(lower, "credentials") {
        Some(Phase::Credentials)
    } else if same_text(lower, "obfuscation") {
        Some(Phase::Obfuscation)
    } else if same_text(lower, "provenance") {
        Some(Phase::Provenance)
    } else {
        None
    }
}

/// The severity that a name stands for, the name being in lower case
/// already.
pub fn severity_of_lowered(lower: &str) -> (severity: Option<Severity>)
    ensures
        severity == severity_named(lower@),
{
    if same_text(lower, "low") {
        Some(Severity::Low)
    } else if same_text(lower, "medium") {
        Some(Severity::Medium)
    } else if same_text(lower, "high") {
        Some(Severity::High)
    } else if same_text(lower, "critical") {
        Some(Severity::Critical)
    } else {
        None
    }
}

/// The phase that a name stands for, whatever its case; `None` for a name
/// that is not recognised.
pub fn phase_from_name(name: &str) -> (phase: Option<Phase>)
    ensures
        phase == phase_named(lowercase(name@)),
{
    let lower = to_lowercase(name);
    phase_of_lowered(lower.as_str())
}

/// The severity that a name stands for, whatever its case; `None` for a
/// name that is not recognised.
pub fn severity_from_name(name: &str) -> (severity: Option<Severity>)
    ensures
        severity == severity_named(lowercase(name@)),
{
    let lower = to_lowercase(name);
    severity_of_lowered(lower.as_str())
}

impl Phase {
    /// The name under which the phase is shown.
    pub open spec fn name(self) -> Seq<char> {
        match self {
            Phase::InstallHooks => "Install Hooks"@,
            Phase::CodePatterns => "Code Patterns"@,
            Phase::NetworkExfil => "Network/Exfil"@,
            Phase::Credentials => "Credentials"@,
            Phase::Obfuscation => "Obfuscation"@,
            Phase::Provenance => "Provenance"@,
        }
    }

    /// The name under which the phase is shown.
    pub fn label(&self) -> (text: String)
        ensures
            text@ == self.name(),
    {
        match self {
            Phase::InstallHooks => "Install Hooks".to_string(),
            Phase::CodePatterns => "Code Patterns".to_string(),
            Phase::NetworkExfil => "Network/Exfil".to_string(),
            Phase::Credentials => "Credentials".to_string(),
            Phase::Obfuscation => "Obfuscation".to_string(),
            Phase::Provenance => "Provenance".to_string(),
        }
    }
}

impl Severity {
    /// The name under which the severity is shown.
    pub open spec fn name(self) -> Seq<char> {
        match self {
            Severity::Low => "LOW"@,
            Severity::Medium => "MEDIUM"@,
            Severity::High => "HIGH"@,
            Severity::Critical => "CRITICAL"@,
        }
    }

    /// The name under which the severity is shown.
    pub fn label(&self) -> (text: String)
        ensures
            text@ == self.name(),
    {
        match self {
            Severity::Low => "LOW".to_string(),
            Severity::Medium => "MEDIUM".to_string(),
            Severity::High => "HIGH".to_string(),
            Severity::Critical => "CRITICAL".to_string(),
        }
    }
}

impl Verdict {
    /// The name under which the verdict is shown.
    pub open spec fn name(self) -> Seq<char> {
        match self {
            Verdict::Clean => "CLEAN"@,
            Verdict::LowRisk => "LOW RISK"@,
            Verdict::MediumRisk => "MEDIUM RISK"@,
            Verdict::HighRisk => "HIGH RISK"@,
            Verdict::Critical => "CRITICAL"@,
        }
    }

    /// The name under which the verdict is shown.
    pub fn label(&self) -> (text: String)
        ensures
            text@ == self.name(),
    {
        match self {
            Verdict::Clean => "CLEAN".to_string(),
            Verdict::LowRisk => "LOW RISK".to_string(),
            Verdict::MediumRisk => "MEDIUM RISK".to_string(),
            Verdict::HighRisk => "HIGH RISK".to_string(),
            Verdict::Critical => "CRITICAL".to_string(),
        }
    }
}

} // verus!
