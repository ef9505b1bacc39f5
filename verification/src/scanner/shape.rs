//! What every finding of a scan looks like: its phase, its weight and the
//! line it names.

use vstd::prelude::*;
use super::orchestrator::{
    at_or_above, collected, content_findings, contents_findings, phase_enabled, phase_hits,
    scan_findings, severity_floor,
};
use super::phases::{hit, hits, hits_on_line, RuleView};
use super::provenance::{file_findings, files_findings, provenance_findings, root_findings};
use super::scoring::phase_weight_of;
use super::{FindingView, Phase, RootFacts, SourceFileView};
use crate::text::lines_of;

verus! {

/// Whether a finding carries the weight of a phase: that of its phase for
/// the line-oriented phases, one between 1 and 3 for provenance.
pub open spec fn has_phase_weight(f: FindingView) -> bool {
    if f.phase == Phase::Provenance {
        1 <= f.weight <= 3 && f.line is None
    } else {
        f.weight == phase_weight_of(f.phase) && f.line is Some
    }
}

/// Whether all findings of a list carry the weight of a phase.
pub open spec fn all_have_phase_weight(findings: Seq<FindingView>) -> bool {
    forall|k: int| 0 <= k < findings.len() ==> has_phase_weight(#[trigger] findings[k])
}

proof fn lemma_all_concat(a: Seq<FindingView>, b: Seq<FindingView>)
    requires
        all_have_phase_weight(a),
        all_have_phase_weight(b),
    ensures
        all_have_phase_weight(a + b),
{
    assert forall|k: int| 0 <= k < (a + b).len() implies has_phase_weight(#[trigger] (a + b)[k]) by {
        if k < a.len() {
            assert((a + b)[k] == a[k]);
        } else {
            assert((a + b)[k] == b[k - a.len()]);
        }
    }
}

proof fn lemma_all_filter(findings: Seq<FindingView>, pred: spec_fn(FindingView) -> bool)
    requires
        all_have_phase_weight(findings),
    ensures
        all_have_phase_weight(findings.filter(pred)),
    decreases findings.len(),
{
    reveal(Seq::filter);
    if findings.len() > 0 {
        let before = findings.drop_last();
        assert forall|k: int| 0 <= k < before.len() implies has_phase_weight(
            #[trigger] before[k],
        ) by {
            assert(before[k] == findings[k]);
        }
        lemma_all_filter(before, pred);
        assert(has_phase_weight(findings[findings.len() - 1]));
        let kept = before.filter(pred);
        if pred(findings.last()) {
            assert forall|k: int| 0 <= k < kept.push(findings.last()).len() implies has_phase_weight(
                #[trigger] kept.push(findings.last())[k],
            ) by {
                if k < kept.len() {
                    assert(kept.push(findings.last())[k] == kept[k]);
                }
            }
        }
    }
}

/// Every finding of a line-oriented detector has the phase, the weight and
/// the file it was asked for, and names a line of the text, counted from
/// 1.
pub proof fn lemma_hits_shape(
    file: Seq<char>,
    phase: Phase,
    weight: u32,
    rules: Seq<RuleView>,
    lines: Seq<Seq<char>>,
)
    requires
        lines.len() < usize::MAX,
    ensures
        forall|k: int|
            0 <= k < hits(file, phase, weight, rules, lines).len() ==> {
                let f = #[trigger] hits(file, phase, weight, rules, lines)[k];
                &&& f.phase == phase
                &&& f.weight == weight
                &&& f.file == file
                &&& f.line matches Some(n) && 1 <= n <= lines.len()
            },
    decreases lines.len(),
{
    if lines.len() > 0 {
        let before = hits(file, phase, weight, rules, lines.drop_last());
        let index = lines.len() - 1;
        let here = hits_on_line(file, phase, weight, rules, index, lines.last());
        lemma_hits_shape(file, phase, weight, rules, lines.drop_last());
        lemma_line_hits_shape(file, phase, weight, rules, index, lines.last());
        assert forall|k: int| 0 <= k < (before + here).len() implies {
            let f = #[trigger] (before + here)[k];
            &&& f.phase == phase
            &&& f.weight == weight
            &&& f.file == file
            &&& f.line matches Some(n) && 1 <= n <= lines.len()
        } by {
            if k < before.len() {
                assert((before + here)[k] == before[k]);
            } else {
                assert((before + here)[k] == here[k - before.len()]);
            }
        }
    }
}

proof fn lemma_line_hits_shape(
    file: Seq<char>,
    phase: Phase,
    weight: u32,
    rules: Seq<RuleView>,
    index: int,
    line: Seq<char>,
)
    requires
        0 <= index < usize::MAX,
    ensures
        forall|k: int|
            0 <= k < hits_on_line(file, phase, weight, rules, index, line).len() ==> {
                let f = #[trigger] hits_on_line(file, phase, weight, rules, index, line)[k];
                &&& f.phase == phase
                &&& f.weight == weight
                &&& f.file == file
                &&& f.line == Some((index + 1) as usize)
            },
    decreases rules.len(),
{
    if rules.len() > 0 {
        lemma_line_hits_shape(file, phase, weight, rules.drop_last(), index, line);
        let before = hits_on_line(file, phase, weight, rules.drop_last(), index, line);
        let found = hit(file, phase, weight, rules.last(), index, line);
        assert forall|k: int| 0 <= k < before.push(found).len() implies {
            let f = #[trigger] before.push(found)[k];
            &&& f.phase == phase
            &&& f.weight == weight
            &&& f.file == file
            &&& f.line == Some((index + 1) as usize)
        } by {
            if k < before.len() {
                assert(before.push(found)[k] == before[k]);
            }
        }
    }
}

/// Every provenance finding has the phase `Provenance`, a weight between 1
/// and 3, and names no line.
pub proof fn lemma_provenance_shape(files: Seq<SourceFileView>, root: RootFacts)
    ensures
        all_have_phase_weight(provenance_findings(files, root)),
        forall|k: int|
            0 <= k < provenance_findings(files, root).len() ==> (#[trigger] provenance_findings(
                files,
                root,
            )[k]).phase == Phase::Provenance,
{
    lemma_files_shape(files);
    let of_files = files_findings(files);
    let of_root = root_findings(root);
    assert forall|k: int| 0 <= k < (of_files + of_root).len() implies has_phase_weight(
        #[trigger] (of_files + of_root)[k],
    ) && (of_files + of_root)[k].phase == Phase::Provenance by {
        if k < of_files.len() {
            assert((of_files + of_root)[k] == of_files[k]);
        } else {
            assert((of_files + of_root)[k] == of_root[k - of_files.len()]);
        }
    }
}

proof fn lemma_files_shape(files: Seq<SourceFileView>)
    ensures
        forall|k: int|
            0 <= k < files_findings(files).len() ==> has_phase_weight(
                #[trigger] files_findings(files)[k],
            ) && files_findings(files)[k].phase == Phase::Provenance,
    decreases files.len(),
{
    if files.len() > 0 {
        lemma_files_shape(files.drop_last());
        let before = files_findings(files.drop_last());
        let here = file_findings(files.last());
        assert forall|k: int| 0 <= k < (before + here).len() implies has_phase_weight(
            #[trigger] (before + here)[k],
        ) && (before + here)[k].phase == Phase::Provenance by {
            if k < before.len() {
                assert((before + here)[k] == before[k]);
            } else {
                assert((before + here)[k] == here[k - before.len()]);
            }
        }
    }
}

/// Whether the text of every file has fewer lines than a machine can
/// count.
pub open spec fn lines_countable(files: Seq<SourceFileView>) -> bool {
    forall|i: int|
        0 <= i < files.len() ==> ((#[trigger] files[i]).text matches Some(text)
            ==> lines_of(text).len() < usize::MAX)
}

proof fn lemma_phase_hits_shape(
    filter: Option<Seq<Seq<char>>>,
    phase: Phase,
    path: Seq<char>,
    text: Seq<char>,
)
    requires
        phase != Phase::Provenance,
        lines_of(text).len() < usize::MAX,
    ensures
        all_have_phase_weight(phase_hits(filter, phase, path, text)),
{
    let found = phase_hits(filter, phase, path, text);
    if found.len() > 0 {
        let rules = choose|rules: Seq<RuleView>|
            found == hits(path, phase, phase_weight_of(phase), rules, lines_of(text));
        lemma_hits_shape(path, phase, phase_weight_of(phase), rules, lines_of(text));
    }
}

proof fn lemma_contents_shape(filter: Option<Seq<Seq<char>>>, files: Seq<SourceFileView>)
    requires
        lines_countable(files),
    ensures
        all_have_phase_weight(contents_findings(filter, files)),
    decreases files.len(),
{
    if files.len() > 0 {
        let before = files.drop_last();
        assert forall|i: int| 0 <= i < before.len() implies ((#[trigger] before[i]).text matches Some(
            text,
        ) ==> lines_of(text).len() < usize::MAX) by {
            assert(before[i] == files[i]);
        }
        lemma_contents_shape(filter, before);
        let file = files[files.len() - 1];
        match file.text {
            None => {},
            Some(text) => {
                let a = phase_hits(filter, Phase::InstallHooks, file.path, text);
                let b = phase_hits(filter, Phase::CodePatterns, file.path, text);
                let c = phase_hits(filter, Phase::NetworkExfil, file.path, text);
                let d = phase_hits(filter, Phase::Credentials, file.path, text);
                let e = phase_hits(filter, Phase::Obfuscation, file.path, text);
                lemma_phase_hits_shape(filter, Phase::InstallHooks, file.path, text);
                lemma_phase_hits_shape(filter, Phase::CodePatterns, file.path, text);
                lemma_phase_hits_shape(filter, Phase::NetworkExfil, file.path, text);
                lemma_phase_hits_shape(filter, Phase::Credentials, file.path, text);
                lemma_phase_hits_shape(filter, Phase::Obfuscation, file.path, text);
                lemma_all_concat(a, b);
                lemma_all_concat(a + b, c);
                lemma_all_concat(a + b + c, d);
                lemma_all_concat(a + b + c + d, e);
            },
        }
        lemma_all_concat(contents_findings(filter, before), content_findings(filter, file));
    }
}

/// Every finding of a scan carries the weight of its phase, which is 1 at
/// least: 10, 5, 3, 2 and 5 for the line-oriented phases, and between 1
/// and 3 for provenance.
pub proof fn lemma_scan_findings_shape(
    files: Seq<SourceFileView>,
    root: RootFacts,
    filter: Option<Seq<Seq<char>>>,
    min_severity: Option<Seq<char>>,
)
    requires
        lines_countable(files),
    ensures
        all_have_phase_weight(scan_findings(files, root, filter, min_severity)),
        forall|k: int|
            0 <= k < scan_findings(files, root, filter, min_severity).len() ==> 1 <= (
            #[trigger] scan_findings(files, root, filter, min_severity)[k]).weight <= 10,
{
    lemma_provenance_shape(files, root);
    lemma_contents_shape(filter, files);
    let first = if phase_enabled(filter, Phase::Provenance) {
        provenance_findings(files, root)
    } else {
        Seq::empty()
    };
    lemma_all_concat(first, contents_findings(filter, files));
    let all = collected(files, root, filter);
    match severity_floor(min_severity) {
        None => {},
        Some(min) => {
            lemma_all_filter(all, |f: FindingView| f.severity.rank() >= min.rank());
        },
    }
    let found = scan_findings(files, root, filter, min_severity);
    assert(found == at_or_above(all, severity_floor(min_severity)));
    assert forall|k: int| 0 <= k < found.len() implies 1 <= (#[trigger] found[k]).weight <= 10 by {
        assert(has_phase_weight(found[k]));
    }
}

} // verus!
