//! Signatures supplied from outside: records with a pattern of their own,
//! merged by identifier and matched like the built-in rules.

use vstd::prelude::*;
use vstd::string::*;
use super::phases::{append_all, hits, scan_split, Rule, RuleView};
use super::scoring::{phase_weight, phase_weight_of};
use super::{Finding, FindingView, Phase, Severity};
use crate::paths::{join_path, joined_path};
use crate::text::{
    lines_of, lowercase, same_text, split_lines, text_view, to_lowercase, to_uppercase, uppercase,
};

verus! {

/// A signature as it is fetched and stored: phase and severity are names.
#[derive(Debug)]
pub struct CloudSignature {
    pub id: String,
    pub pattern: String,
    pub phase: String,
    pub severity: String,
    pub description: String,
    pub updated_at: Option<String>,
}

/// What a `CloudSignature` holds, with its strings as sequences of
/// characters.
pub struct SignatureView {
    pub id: Seq<char>,
    pub pattern: Seq<char>,
    pub phase: Seq<char>,
    pub severity: Seq<char>,
    pub description: Seq<char>,
    pub updated_at: Option<Seq<char>>,
}

impl View for CloudSignature {
    type V = SignatureView;

    open spec fn view(&self) -> SignatureView {
        SignatureView {
            id: self.id@,
            pattern: self.pattern@,
            phase: self.phase@,
            severity: self.severity@,
            description: self.description@,
            updated_at: text_view(self.updated_at),
        }
    }
}

impl DeepView for CloudSignature {
    type V = SignatureView;

    open spec fn deep_view(&self) -> SignatureView {
        self@
    }
}

impl Clone for CloudSignature {
    fn clone(&self) -> (copy: CloudSignature)
        ensures
            copy@ == self@,
    {
        CloudSignature {
            id: self.id.clone(),
            pattern: self.pattern.clone(),
            phase: self.phase.clone(),
            severity: self.severity.clone(),
            description: self.description.clone(),
            updated_at: match &self.updated_at {
                Some(at) => Some(at.clone()),
                None => None,
            },
        }
    }
}

/// The wrapped form in which signatures are fetched and stored.
#[derive(Debug)]
pub struct SignatureResponse {
    pub signatures: Vec<CloudSignature>,
    pub total: usize,
    pub last_updated: Option<String>,
}

/// The phase that a signature's phase name stands for, the name being in
/// lower case: a name that is not recognised stands for `CodePatterns`.
pub open spec fn signature_phase(lower: Seq<char>) -> Phase {
    if lower == "install_hooks"@ || lower == "install-hooks"@ {
        Phase::InstallHooks
    } else if lower == "code_patterns"@ || lower == "code-patterns"@ {
        Phase::CodePatterns
    } else if lower == "network_exfil"@ || lower == "network-exfil"@ {
        Phase::NetworkExfil
    } else if lower == "credentials"@ {
        Phase::Credentials
    } else if lower == "obfuscation"@ {
        Phase::Obfuscation
    } else if lower == "provenance"@ {
        Phase::Provenance
    } else {
        Phase::CodePatterns
    }
}

/// The severity that a signature's severity name stands for, the name being
/// in upper case: a name that is not recognised stands for `Low`.
pub open spec fn signature_severity(upper: Seq<char>) -> Severity {
    if upper == "CRITICAL"@ {
        Severity::Critical
    } else if upper == "HIGH"@ {
        Severity::High
    } else if upper == "MEDIUM"@ {
        Severity::Medium
    } else {
        Severity::Low
    }
}

/// The phase of a signature, from its phase name in lower case.
pub fn signature_phase_of(lower: &str) -> (phase: Phase)
    ensures
        phase == signature_phase(lower@),
{
    if same_text(lower, "install_hooks") || same_text(lower, "install-hooks") {
        Phase::InstallHooks
    } else if same_text(lower, "code_patterns") || same_text(lower, "code-patterns") {
        Phase::CodePatterns
    } else if same_text(lower, "network_exfil") || same_text(lower, "network-exfil") {
        Phase::NetworkExfil
    } else if same_text(lower, "credentials") {
        Phase::Credentials
    } else if same_text(lower, "obfuscation") {
        Phase::Obfuscation
    } else if same_text(lower, "provenance") {
        Phase::Provenance
    } else {
        Phase::CodePatterns
    }
}

/// The severity of a signature, from its severity name in upper case.
pub fn signature_severity_of(upper: &str) -> (severity: Severity)
    ensures
        severity == signature_severity(upper@),
{
    if same_text(upper, "CRITICAL") {
        Severity::Critical
    } else if same_text(upper, "HIGH") {
        Severity::High
    } else if same_text(upper, "MEDIUM") {
        Severity::Medium
    } else {
        Severity::Low
    }
}

/// The phase that a signature's phase name stands for, whatever its case.
pub fn parse_phase(name: &str) -> (phase: Phase)
    ensures
        phase == signature_phase(lowercase(name@)),
{
    let lower = to_lowercase(name);
    signature_phase_of(lower.as_str())
}

/// The severity that a signature's severity name stands for, whatever its
/// case.
pub fn parse_severity(name: &str) -> (severity: Severity)
    ensures
        severity == signature_severity(uppercase(name@)),
{
    let upper = to_uppercase(name);
    signature_severity_of(upper.as_str())
}

/// The rule that a signature stands for: its description is marked as
/// coming from outside.
pub open spec fn signature_rule(signature: SignatureView) -> RuleView {
    RuleView {
        pattern: signature.pattern,
        id: signature.id,
        severity: signature_severity(uppercase(signature.severity)),
        description: "[cloud] "@ + signature.description,
    }
}

/// The findings that one signature gives on the lines of a text. Its
/// findings carry the weight of its phase. A signature whose pattern does
/// not compile gives none.
pub open spec fn signature_hits(file: Seq<char>, signature: SignatureView, lines: Seq<Seq<char>>) -> Seq<
    FindingView,
> {
    let phase = signature_phase(lowercase(signature.phase));
    hits(file, phase, phase_weight_of(phase), seq![signature_rule(signature)], lines)
}

/// The findings that a list of signatures gives: those of the first
/// signature on all lines, then those of the next.
pub open spec fn cloud_hits(file: Seq<char>, signatures: Seq<SignatureView>, lines: Seq<Seq<char>>) -> Seq<
    FindingView,
>
    decreases signatures.len(),
{
    if signatures.len() == 0 {
        Seq::empty()
    } else {
        cloud_hits(file, signatures.drop_last(), lines) + signature_hits(
            file,
            signatures.last(),
            lines,
        )
    }
}

/// Scan a file's text against signatures supplied from outside.
pub fn scan_with_cloud_signatures(file: &str, contents: &str, signatures: &[CloudSignature]) -> (findings:
    Vec<Finding>)
    ensures
        findings.deep_view() == cloud_hits(file@, signatures.deep_view(), lines_of(contents@)),
{
    let ghost views = signatures.deep_view();
    let lines = split_lines(contents);
    let mut findings: Vec<Finding> = Vec::new();
    let mut i: usize = 0;
    proof {
        assert(findings.deep_view() =~= Seq::<FindingView>::empty());
    }
    while i < signatures.len()
        invariant
            i <= signatures.len(),
            views == signatures.deep_view(),
            views.len() == signatures.len(),
            lines.deep_view() == lines_of(contents@),
            findings.deep_view() == cloud_hits(file@, views.take(i as int), lines_of(contents@)),
        decreases signatures.len() - i,
    {
        let signature = &signatures[i];
        proof {
            assert(views[i as int] == signature@);
            assert(views.take(i + 1).drop_last() =~= views.take(i as int));
        }
        let phase = parse_phase(signature.phase.as_str());
        let mut description = "[cloud] ".to_string();
        description.append(signature.description.as_str());
        let rule = Rule {
            pattern: signature.pattern.clone(),
            id: signature.id.clone(),
            severity: parse_severity(signature.severity.as_str()),
            description,
        };
        let mut rules: Vec<Rule> = Vec::new();
        rules.push(rule);
        proof {
            assert(rules.deep_view() =~= seq![signature_rule(signature@)]);
        }
        let found = scan_split(file, &lines, phase, phase_weight(phase), &rules);
        append_all(&mut findings, found);
        i = i + 1;
    }
    proof {
        assert(views.take(i as int) =~= views);
    }
    findings
}

/// The file that holds the stored signatures:
/// `<home>/.sigil/signatures.json`.
pub fn signatures_path(home: &str) -> (path: String)
    ensures
        path@ == joined_path(joined_path(home@, ".sigil"@), "signatures.json"@),
{
    let config = join_path(home, ".sigil");
    join_path(config.as_str(), "signatures.json")
}

/// The file that records when signatures were last fetched:
/// `<home>/.sigil/signatures_meta.json`.
pub fn sync_meta_path(home: &str) -> (path: String)
    ensures
        path@ == joined_path(joined_path(home@, ".sigil"@), "signatures_meta.json"@),
{
    let config = join_path(home, ".sigil");
    join_path(config.as_str(), "signatures_meta.json")
}

/// The signatures of a stored file, which may hold them in the wrapped
/// form or as a bare list: those of the wrapped form where the file reads
/// as one, else the bare list where it reads as one, else none.
pub fn load_cloud_signatures(
    wrapped: Option<SignatureResponse>,
    bare: Option<Vec<CloudSignature>>,
) -> (signatures: Vec<CloudSignature>)
    ensures
        signatures.deep_view() == match wrapped {
            Some(response) => response.signatures.deep_view(),
            None => match bare {
                Some(list) => list.deep_view(),
                None => Seq::empty(),
            },
        },
{
    match wrapped {
        Some(response) => response.signatures,
        None => match bare {
            Some(list) => list,
            None => {
                let none: Vec<CloudSignature> = Vec::new();
                proof {
                    assert(none.deep_view() =~= Seq::<SignatureView>::empty());
                }
                none
            },
        },
    }
}

/// The position of the first signature with an identifier, or the length
/// of the list where none has it.
pub open spec fn position_of_id(signatures: Seq<SignatureView>, id: Seq<char>) -> int
    decreases signatures.len(),
{
    if signatures.len() == 0 {
        0
    } else if signatures[0].id == id {
        0
    } else {
        1 + position_of_id(signatures.skip(1), id)
    }
}

/// A list of signatures with one more: it takes the place of the first
/// signature with its identifier, or comes last where there is none.
pub open spec fn upserted(signatures: Seq<SignatureView>, signature: SignatureView) -> Seq<
    SignatureView,
> {
    let at = position_of_id(signatures, signature.id);
    if at < signatures.len() {
        signatures.update(at, signature)
    } else {
        signatures.push(signature)
    }
}

/// The local signatures with the fetched ones merged in, one after the
/// other.
pub open spec fn merged(local: Seq<SignatureView>, fetched: Seq<SignatureView>) -> Seq<
    SignatureView,
>
    decreases fetched.len(),
{
    if fetched.len() == 0 {
        local
    } else {
        upserted(merged(local, fetched.drop_last()), fetched.last())
    }
}

/// The position of the first signature with an identifier.
fn find_signature(signatures: &Vec<CloudSignature>, id: &String) -> (at: usize)
    ensures
        at == position_of_id(signatures.deep_view(), id@),
        at <= signatures.len(),
{
    let ghost views = signatures.deep_view();
    let mut i: usize = 0;
    proof {
        assert(views.skip(0) =~= views);
    }
    while i < signatures.len()
        invariant
            i <= signatures.len(),
            views == signatures.deep_view(),
            views.len() == signatures.len(),
            position_of_id(views, id@) == i + position_of_id(views.skip(i as int), id@),
        decreases signatures.len() - i,
    {
        proof {
            assert(views[i as int] == signatures[i as int]@);
            assert(views.skip(i as int)[0] == views[i as int]);
            assert(views.skip(i as int).skip(1) =~= views.skip(i + 1));
        }
        if signatures[i].id == *id {
            return i;
        }
        i = i + 1;
    }
    i
}

/// Merge fetched signatures into the local ones by identifier: a fetched
/// signature replaces the local one with its identifier and is added
/// where there is none; local signatures that were not fetched stay.
pub fn merge_signatures(local: Vec<CloudSignature>, fetched: &Vec<CloudSignature>) -> (all: Vec<
    CloudSignature,
>)
    ensures
        all.deep_view() == merged(local.deep_view(), fetched.deep_view()),
{
    let ghost start = local.deep_view();
    let ghost views = fetched.deep_view();
    let mut all = local;
    let mut i: usize = 0;
    while i < fetched.len()
        invariant
            i <= fetched.len(),
            views == fetched.deep_view(),
            views.len() == fetched.len(),
            all.deep_view() == merged(start, views.take(i as int)),
        decreases fetched.len() - i,
    {
        let signature = fetched[i].clone();
        let ghost before = all.deep_view();
        proof {
            assert(views[i as int] == fetched[i as int]@);
            assert(views.take(i + 1).drop_last() =~= views.take(i as int));
        }
        let at = find_signature(&all, &signature.id);
        if at < all.len() {
            all.set(at, signature);
            proof {
                assert(all.deep_view() =~= before.update(at as int, views[i as int]));
            }
        } else {
            all.push(signature);
            proof {
                assert(all.deep_view() =~= before.push(views[i as int]));
            }
        }
        i = i + 1;
    }
    proof {
        assert(views.take(i as int) =~= views);
    }
    all
}

/// What an upsert does: the signature stands in the list afterwards, and
/// every signature with another identifier is where it was.
pub proof fn lemma_upsert_keeps_others(signatures: Seq<SignatureView>, signature: SignatureView)
    ensures
        upserted(signatures, signature).len() >= signatures.len(),
        exists|k: int|
            0 <= k < upserted(signatures, signature).len() && #[trigger] upserted(
                signatures,
                signature,
            )[k] == signature,
        forall|i: int|
            0 <= i < signatures.len() && (#[trigger] signatures[i]).id != signature.id
                ==> upserted(signatures, signature)[i] == signatures[i],
{
    lemma_position_of_id(signatures, signature.id);
    let at = position_of_id(signatures, signature.id);
    let after = upserted(signatures, signature);
    if at < signatures.len() {
        assert(after[at] == signature);
    } else {
        assert(after[signatures.len() as int] == signature);
    }
}

/// What `position_of_id` finds: the first signature with the identifier,
/// if any.
pub proof fn lemma_position_of_id(signatures: Seq<SignatureView>, id: Seq<char>)
    ensures
        0 <= position_of_id(signatures, id) <= signatures.len(),
        position_of_id(signatures, id) < signatures.len() ==> signatures[position_of_id(
            signatures,
            id,
        )].id == id,
        forall|i: int|
            0 <= i < position_of_id(signatures, id) ==> (#[trigger] signatures[i]).id != id,
    decreases signatures.len(),
{
    if signatures.len() > 0 && signatures[0].id != id {
        lemma_position_of_id(signatures.skip(1), id);
        let rest = position_of_id(signatures.skip(1), id);
        if rest < signatures.skip(1).len() {
            assert(signatures.skip(1)[rest] == signatures[rest + 1]);
        }
        assert forall|i: int| 0 <= i < position_of_id(signatures, id) implies (
        #[trigger] signatures[i]).id != id by {
            if i > 0 {
                assert(signatures.skip(1)[i - 1] == signatures[i]);
            }
        }
    }
}

} // verus!
