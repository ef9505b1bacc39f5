//! The scan orchestrator: from the files of a tree to a complete result.

use vstd::prelude::*;
use vstd::string::*;
use super::phases::{
    append_all, hits, install_hook_rules, scan_code_patterns, scan_credentials, scan_install_hooks,
    scan_network_exfil, scan_obfuscation, table_rules,
};
use super::provenance::{provenance_findings, scan_provenance};
use super::rules::{CODE_RULES, CREDENTIAL_RULES, NETWORK_RULES, OBFUSCATION_RULES};
use super::scoring::{
    checked_score, determine_verdict, is_consistent, phase_weight_of, total_score, verdict_of,
};
use super::{
    phase_from_name, phase_named, severity_from_name, severity_named, Finding, FindingView, Phase,
    RootFacts, ScanResult, ScanResultView, Severity, SourceFile, SourceFileView,
};
use crate::paths::base_name;
use crate::text::{
    fields_of, lines_of, lowercase, same_text, split_fields, str_view, trim, trimmed,
};

verus! {

/// Why a scan gave no result.
#[derive(Debug, Clone, Copy, PartialEq, Eq, Structural)]
pub enum ScanError {
    /// The aggregate score of the findings does not fit in 32 bits.
    ScoreOverflow,
}

/// Whether a phase runs under a filter of phase names. Without a filter
/// every phase runs; with one, a phase runs where one of the names stands
/// for it, whatever its case. Names that stand for no phase are ignored.
pub open spec fn phase_enabled(filter: Option<Seq<Seq<char>>>, phase: Phase) -> bool {
    match filter {
        None => true,
        Some(names) => exists|i: int|
            0 <= i < names.len() && phase_named(lowercase(#[trigger] names[i])) == Some(phase),
    }
}

/// The severity below which findings are dropped, if any: none without a
/// name, and none for a name that stands for no severity.
pub open spec fn severity_floor(min_severity: Option<Seq<char>>) -> Option<Severity> {
    match min_severity {
        None => None,
        Some(name) => severity_named(lowercase(name)),
    }
}

/// The findings of a line-oriented phase on one file's text, where the
/// phase runs.
pub open spec fn phase_hits(
    filter: Option<Seq<Seq<char>>>,
    phase: Phase,
    path: Seq<char>,
    text: Seq<char>,
) -> Seq<FindingView> {
    if !phase_enabled(filter, phase) {
        Seq::empty()
    } else {
        let rules = match phase {
            Phase::InstallHooks => install_hook_rules(base_name(path)),
            Phase::CodePatterns => table_rules(CODE_RULES@),
            Phase::NetworkExfil => table_rules(NETWORK_RULES@),
            Phase::Credentials => table_rules(CREDENTIAL_RULES@),
            Phase::Obfuscation => table_rules(OBFUSCATION_RULES@),
            Phase::Provenance => Seq::empty(),
        };
        hits(path, phase, phase_weight_of(phase), rules, lines_of(text))
    }
}

/// The findings of the line-oriented phases on one file: none where its
/// text could not be read; else those of the five phases in their order.
pub open spec fn content_findings(filter: Option<Seq<Seq<char>>>, file: SourceFileView) -> Seq<
    FindingView,
> {
    match file.text {
        None => Seq::empty(),
        Some(text) => phase_hits(filter, Phase::InstallHooks, file.path, text) + phase_hits(
            filter,
            Phase::CodePatterns,
            file.path,
            text,
        ) + phase_hits(filter, Phase::NetworkExfil, file.path, text) + phase_hits(
            filter,
            Phase::Credentials,
            file.path,
            text,
        ) + phase_hits(filter, Phase::Obfuscation, file.path, text),
    }
}

/// The findings of the line-oriented phases on a list of files, first file
/// first.
pub open spec fn contents_findings(filter: Option<Seq<Seq<char>>>, files: Seq<SourceFileView>) -> Seq<
    FindingView,
>
    decreases files.len(),
{
    if files.len() == 0 {
        Seq::empty()
    } else {
        contents_findings(filter, files.drop_last()) + content_findings(filter, files.last())
    }
}

/// Everything that a scan finds before the severity floor is applied:
/// provenance over the whole list of files, then each file's text.
pub open spec fn collected(
    files: Seq<SourceFileView>,
    root: RootFacts,
    filter: Option<Seq<Seq<char>>>,
) -> Seq<FindingView> {
    (if phase_enabled(filter, Phase::Provenance) {
        provenance_findings(files, root)
    } else {
        Seq::empty()
    }) + contents_findings(filter, files)
}

/// The findings at or above a severity floor, in their order.
pub open spec fn at_or_above(findings: Seq<FindingView>, floor: Option<Severity>) -> Seq<
    FindingView,
> {
    match floor {
        None => findings,
        Some(min) => findings.filter(|f: FindingView| f.severity.rank() >= min.rank()),
    }
}

/// The findings of a scan.
pub open spec fn scan_findings(
    files: Seq<SourceFileView>,
    root: RootFacts,
    filter: Option<Seq<Seq<char>>>,
    min_severity: Option<Seq<char>>,
) -> Seq<FindingView> {
    at_or_above(collected(files, root, filter), severity_floor(min_severity))
}

/// The view of an optional list of names.
pub open spec fn names_view(filter: Option<&Vec<String>>) -> Option<Seq<Seq<char>>> {
    match filter {
        None => None,
        Some(names) => Some(names.deep_view()),
    }
}


/// Whether a phase runs under a filter of phase names.
pub fn is_phase_enabled(filter: Option<&Vec<String>>, phase: Phase) -> (enabled: bool)
    ensures
        enabled == phase_enabled(names_view(filter), phase),
{
    match filter {
        None => true,
        Some(names) => {
            let ghost views = names.deep_view();
            let mut i: usize = 0;
            while i < names.len()
                invariant
                    i <= names.len(),
                    views == names.deep_view(),
                    views.len() == names.len(),
                    names_view(filter) == Some(views),
                    forall|k: int|
                        0 <= k < i ==> phase_named(lowercase(#[trigger] views[k])) != Some(phase),
                decreases names.len() - i,
            {
                assert(views[i as int] == names[i as int]@);
                match phase_from_name(names[i].as_str()) {
                    Some(named) => {
                        if named == phase {
                            proof {
                                assert(phase_named(lowercase(views[i as int])) == Some(phase));
                            }
                            return true;
                        }
                    },
                    None => {},
                }
                i = i + 1;
            }
            false
        },
    }
}

/// Append what the line-oriented phases find in one file.
fn scan_contents(findings: &mut Vec<Finding>, filter: Option<&Vec<String>>, file: &SourceFile)
    ensures
        final(findings).deep_view() == old(findings).deep_view() + content_findings(
            names_view(filter),
            file@,
        ),
{
    let ghost start = findings.deep_view();
    let ghost names = names_view(filter);
    let ghost none = Seq::<FindingView>::empty();
    match &file.text {
        None => {
            proof {
                assert(start + none =~= start);
            }
        },
        Some(text) => {
            let path = file.path.as_str();
            let text = text.as_str();
            if is_phase_enabled(filter, Phase::InstallHooks) {
                append_all(findings, scan_install_hooks(path, text));
            }
            let ghost first = findings.deep_view();
            if is_phase_enabled(filter, Phase::CodePatterns) {
                append_all(findings, scan_code_patterns(path, text));
            }
            let ghost second = findings.deep_view();
            if is_phase_enabled(filter, Phase::NetworkExfil) {
                append_all(findings, scan_network_exfil(path, text));
            }
            let ghost third = findings.deep_view();
            if is_phase_enabled(filter, Phase::Credentials) {
                append_all(findings, scan_credentials(path, text));
            }
            let ghost fourth = findings.deep_view();
            if is_phase_enabled(filter, Phase::Obfuscation) {
                append_all(findings, scan_obfuscation(path, text));
            }
            proof {
                let a = phase_hits(names, Phase::InstallHooks, path@, text@);
                let b = phase_hits(names, Phase::CodePatterns, path@, text@);
                let c = phase_hits(names, Phase::NetworkExfil, path@, text@);
                let d = phase_hits(names, Phase::Credentials, path@, text@);
                let e = phase_hits(names, Phase::Obfuscation, path@, text@);
                assert(first =~= start + a);
                assert(second =~= first + b);
                assert(third =~= second + c);
                assert(fourth =~= third + d);
                assert(findings.deep_view() =~= fourth + e);
                assert(start + (a + b + c + d + e) =~= start + a + b + c + d + e);
            }
        },
    }
}

/// The findings at or above a severity, cloned in their order.
fn keep_at_least(findings: &Vec<Finding>, min: Severity) -> (kept: Vec<Finding>)
    ensures
        kept.deep_view() == at_or_above(findings.deep_view(), Some(min)),
{
    let ghost views = findings.deep_view();
    let ghost pred = |f: FindingView| f.severity.rank() >= min.rank();
    let mut kept: Vec<Finding> = Vec::new();
    let mut i: usize = 0;
    proof {
        reveal(Seq::filter);
        assert(views.take(0).filter(pred) =~= Seq::<FindingView>::empty());
        assert(kept.deep_view() =~= Seq::<FindingView>::empty());
    }
    while i < findings.len()
        invariant
            i <= findings.len(),
            views == findings.deep_view(),
            views.len() == findings.len(),
            pred == |f: FindingView| f.severity.rank() >= min.rank(),
            kept.deep_view() == views.take(i as int).filter(pred),
        decreases findings.len() - i,
    {
        let f = &findings[i];
        proof {
            assert(views[i as int] == f@);
            reveal(Seq::filter);
            assert(views.take(i + 1).drop_last() =~= views.take(i as int));
        }
        if f.severity.at_least(min) {
            let ghost before = kept.deep_view();
            kept.push(f.clone());
            proof {
                assert(kept.deep_view() =~= before.push(f@));
            }
        }
        i = i + 1;
    }
    proof {
        assert(views.take(i as int) =~= views);
    }
    kept
}

/// Make a result of what was collected: drop the findings below the
/// severity floor, if there is one, then derive score and verdict from the
/// findings that stay. Fails only where the score does not fit in 32 bits.
pub fn assemble_result(
    collected: Vec<Finding>,
    floor: Option<Severity>,
    files_scanned: usize,
    duration_ms: u64,
) -> (outcome: Result<ScanResult, ScanError>)
    ensures
        ({
            let findings = at_or_above(collected.deep_view(), floor);
            match outcome {
                Ok(result) => {
                    &&& total_score(findings) <= u32::MAX
                    &&& is_consistent(result@)
                    &&& result@ == (ScanResultView {
                        findings,
                        score: total_score(findings) as u32,
                        verdict: verdict_of(findings, total_score(findings) as u32),
                        files_scanned,
                        duration_ms,
                    })
                },
                Err(error) => error == ScanError::ScoreOverflow && total_score(findings) > u32::MAX,
            }
        }),
{
    let findings = match floor {
        Some(min) => keep_at_least(&collected, min),
        None => collected,
    };
    match checked_score(findings.as_slice()) {
        Some(score) => {
            let verdict = determine_verdict(findings.as_slice(), score);
            Ok(ScanResult { findings, score, verdict, files_scanned, duration_ms })
        },
        None => Err(ScanError::ScoreOverflow),
    }
}

/// Run a scan over the regular files of a tree.
///
/// `files` holds every regular file met under the root, with its text where
/// it could be read; `phase_filter` restricts the phases that run;
/// `min_severity` names the severity below which findings are dropped;
/// `duration_ms` is the time that reading the tree took, handed on to the
/// result. Provenance is evaluated once over the whole list; the other
/// phases file by file. Every file counts as scanned, read or not.
///
/// The scan fails only where the score of its findings does not fit in 32
/// bits.
pub fn run_scan(
    files: &Vec<SourceFile>,
    root: &RootFacts,
    phase_filter: Option<&Vec<String>>,
    min_severity: Option<&str>,
    duration_ms: u64,
) -> (outcome: Result<ScanResult, ScanError>)
    ensures
        ({
            let findings = scan_findings(
                files.deep_view(),
                *root,
                names_view(phase_filter),
                str_view(min_severity),
            );
            match outcome {
                Ok(result) => {
                    &&& total_score(findings) <= u32::MAX
                    &&& is_consistent(result@)
                    &&& result@ == (ScanResultView {
                        findings,
                        score: total_score(findings) as u32,
                        verdict: verdict_of(findings, total_score(findings) as u32),
                        files_scanned: files.len(),
                        duration_ms,
                    })
                },
                Err(error) => error == ScanError::ScoreOverflow && total_score(findings) > u32::MAX,
            }
        }),
{
    let ghost views = files.deep_view();
    let ghost names = names_view(phase_filter);
    let mut findings: Vec<Finding> = Vec::new();
    proof {
        assert(findings.deep_view() =~= Seq::<FindingView>::empty());
    }
    if is_phase_enabled(phase_filter, Phase::Provenance) {
        findings = scan_provenance(files, root);
    }
    let ghost of_provenance = findings.deep_view();
    proof {
        assert(of_provenance + Seq::<FindingView>::empty() =~= of_provenance);
    }
    let mut i: usize = 0;
    while i < files.len()
        invariant
            i <= files.len(),
            views == files.deep_view(),
            views.len() == files.len(),
            names == names_view(phase_filter),
            findings.deep_view() == of_provenance + contents_findings(names, views.take(i as int)),
        decreases files.len() - i,
    {
        let ghost before = findings.deep_view();
        proof {
            assert(views[i as int] == files[i as int]@);
            assert(views.take(i + 1).drop_last() =~= views.take(i as int));
        }
        scan_contents(&mut findings, phase_filter, &files[i]);
        proof {
            let so_far = contents_findings(names, views.take(i as int));
            let here = content_findings(names, views[i as int]);
            assert(of_provenance + so_far + here =~= of_provenance + (so_far + here));
        }
        i = i + 1;
    }
    proof {
        assert(views.take(i as int) =~= views);
    }
    let floor = match min_severity {
        Some(name) => severity_from_name(name),
        None => None,
    };
    assemble_result(findings, floor, files.len(), duration_ms)
}

/// The phase names that a filter text holds: none, so that every phase
/// runs, where the text is `all`; else its fields between commas, each
/// without the whitespace around it.
pub open spec fn phase_filter_of(phases: Seq<char>) -> Option<Seq<Seq<char>>> {
    if phases == "all"@ {
        None
    } else {
        Some(Seq::new(fields_of(phases, ',').len(), |i: int| trimmed(fields_of(phases, ',')[i])))
    }
}

/// Read a filter of phases: `all`, or phase names with commas between
/// them.
pub fn parse_phase_filter(phases: &str) -> (filter: Option<Vec<String>>)
    ensures
        match filter {
            Some(names) => phase_filter_of(phases@) == Some(names.deep_view()),
            None => phase_filter_of(phases@) is None,
        },
{
    if same_text(phases, "all") {
        return None;
    }
    let fields = split_fields(phases, ',');
    let ghost views = fields.deep_view();
    let mut names: Vec<String> = Vec::new();
    let mut i: usize = 0;
    while i < fields.len()
        invariant
            i <= fields.len(),
            views == fields.deep_view(),
            views.len() == fields.len(),
            names.len() == i,
            forall|k: int| 0 <= k < i ==> (#[trigger] names[k])@ == trimmed(views[k]),
        decreases fields.len() - i,
    {
        proof {
            assert(views[i as int] == fields[i as int]@);
        }
        names.push(trim(fields[i].as_str()));
        i = i + 1;
    }
    proof {
        assert(names.deep_view() =~= Seq::new(views.len(), |k: int| trimmed(views[k])));
    }
    Some(names)
}

} // verus!
