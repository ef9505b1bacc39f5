//! The provenance detector: it reads no file text, only the list of files
//! and a few facts about the scan root.

use vstd::prelude::*;
use vstd::string::*;
use super::phases::make_finding;
use super::{Finding, FindingView, Phase, RootFacts, Severity, SourceFile, SourceFileView};
use crate::text::{
    contains, decimal, ends_with, lowercase, occurs_in, push_decimal, same_text, starts_with,
    to_lowercase,
};

verus! {

/// Dotfiles that every project may hold.
pub const ALLOWED_DOTFILES: [&'static str; 4] = [
    ".gitignore",
    ".gitkeep",
    ".gitattributes",
    ".editorconfig",
];

/// Extensions of binary files, in lower case.
pub const BINARY_EXTENSIONS: [&'static str; 16] = [
    ".exe",
    ".dll",
    ".so",
    ".dylib",
    ".bin",
    ".dat",
    ".o",
    ".a",
    ".pyc",
    ".pyo",
    ".class",
    ".jar",
    ".war",
    ".ear",
    ".wasm",
    ".node",
];

/// Directories in which binary files are expected: build outputs and the
/// caches of package managers.
pub const EXPECTED_BINARY_DIRS: [&'static str; 6] = [
    "bin/",
    "dist/",
    "build/",
    "node_modules/",
    "target/",
    "__pycache__/",
];

/// Words of threat actors, in lower case.
pub const SUSPICIOUS_WORDS: [&'static str; 12] = [
    "backdoor",
    "exploit",
    "payload",
    "reverse_shell",
    "keylogger",
    "stealer",
    "trojan",
    "rootkit",
    "c2_",
    "c2-",
    "rat_",
    "rat-",
];

/// Size in bytes above which a file counts as large.
pub const LARGE_FILE_BYTES: u64 = 5_000_000;

/// How a word is looked for in a text.
#[derive(Debug, Clone, Copy, PartialEq, Eq, Structural)]
pub enum Place {
    /// The text is the word.
    Whole,
    /// The text begins with the word.
    Start,
    /// The text ends with the word.
    End,
    /// The word stands somewhere in the text.
    Anywhere,
}

/// Whether `word` is found in `text` at the given place.
pub open spec fn word_fits(word: Seq<char>, text: Seq<char>, place: Place) -> bool {
    match place {
        Place::Whole => text == word,
        Place::Start => word.is_prefix_of(text),
        Place::End => word.is_suffix_of(text),
        Place::Anywhere => occurs_in(word, text),
    }
}

/// Whether one of `words` is found in `text` at the given place.
pub open spec fn any_word_fits(words: Seq<&'static str>, text: Seq<char>, place: Place) -> bool {
    exists|i: int| 0 <= i < words.len() && word_fits((#[trigger] words[i])@, text, place)
}

/// Whether one of `words` is found in `text` at the given place.
pub fn find_word(words: &[&'static str], text: &str, place: Place) -> (found: bool)
    ensures
        found == any_word_fits(words@, text@, place),
{
    let mut i: usize = 0;
    while i < words.len()
        invariant
            i <= words.len(),
            forall|k: int| 0 <= k < i ==> !word_fits((#[trigger] words@[k])@, text@, place),
        decreases words.len() - i,
    {
        let word = words[i];
        let fits = match place {
            Place::Whole => same_text(text, word),
            Place::Start => starts_with(text, word),
            Place::End => ends_with(text, word),
            Place::Anywhere => contains(text, word),
        };
        if fits {
            return true;
        }
        i = i + 1;
    }
    false
}

/// Whether a file name, already in lower case, ends in a binary extension.
pub open spec fn has_binary_extension(lower: Seq<char>) -> bool {
    any_word_fits(BINARY_EXTENSIONS@, lower, Place::End)
}

/// Whether a file name, already in lower case, holds a word of threat
/// actors.
pub open spec fn has_suspicious_word(lower: Seq<char>) -> bool {
    any_word_fits(SUSPICIOUS_WORDS@, lower, Place::Anywhere)
}

/// Check if a file name has a known binary extension, whatever its case.
pub fn is_binary_extension(filename: &str) -> (binary: bool)
    ensures
        binary == has_binary_extension(lowercase(filename@)),
{
    let lower = to_lowercase(filename);
    find_word(&BINARY_EXTENSIONS, lower.as_str(), Place::End)
}

/// Check if a file name looks suspicious, whatever its case.
pub fn is_suspicious_filename(filename: &str) -> (suspicious: bool)
    ensures
        suspicious == has_suspicious_word(lowercase(filename@)),
{
    let lower = to_lowercase(filename);
    find_word(&SUSPICIOUS_WORDS, lower.as_str(), Place::Anywhere)
}

/// A provenance finding: it names a file but no line.
pub open spec fn provenance_finding(
    rule: Seq<char>,
    severity: Severity,
    file: Seq<char>,
    snippet: Seq<char>,
    weight: u32,
) -> FindingView {
    FindingView { phase: Phase::Provenance, rule, severity, file, line: None, snippet, weight }
}

/// Whether a path lies inside the `.git` directory, whose contents are
/// never looked at.
pub open spec fn in_git_dir(path: Seq<char>) -> bool {
    ".git/"@.is_prefix_of(path) || path == ".git"@
}

/// Whether a file is a hidden dotfile outside the allow-list.
pub open spec fn is_hidden(name: Seq<char>) -> bool {
    "."@.is_prefix_of(name) && !any_word_fits(ALLOWED_DOTFILES@, name, Place::Whole)
}

/// Whether a binary file lies where none is expected.
pub open spec fn is_stray_binary(path: Seq<char>, name: Seq<char>) -> bool {
    has_binary_extension(lowercase(name)) && !any_word_fits(
        EXPECTED_BINARY_DIRS@,
        path,
        Place::Start,
    )
}

/// Whether a file's size is known and above the limit.
pub open spec fn is_large(size: Option<u64>) -> bool {
    size matches Some(bytes) && bytes > LARGE_FILE_BYTES
}

pub open spec fn hidden_finding(file: SourceFileView) -> FindingView {
    provenance_finding("PROV-001"@, Severity::Low, file.path, "Hidden file: "@ + file.name, 1)
}

pub open spec fn stray_binary_finding(file: SourceFileView) -> FindingView {
    provenance_finding(
        "PROV-002"@,
        Severity::Medium,
        file.path,
        "Binary file in unexpected location: "@ + file.name,
        2,
    )
}

pub open spec fn suspicious_name_finding(file: SourceFileView) -> FindingView {
    provenance_finding(
        "PROV-003"@,
        Severity::High,
        file.path,
        "Suspicious filename: "@ + file.name,
        3,
    )
}

pub open spec fn large_file_finding(file: SourceFileView) -> FindingView {
    provenance_finding(
        "PROV-004"@,
        Severity::Low,
        file.path,
        "Large file: "@ + decimal(file.size.unwrap() as nat) + " bytes"@,
        1,
    )
}

pub open spec fn shallow_clone_finding() -> FindingView {
    provenance_finding(
        "PROV-005"@,
        Severity::Low,
        ".git/shallow"@,
        "Shallow clone detected \u{2014} limited git history available"@,
        1,
    )
}

pub open spec fn no_history_finding() -> FindingView {
    provenance_finding(
        "PROV-006"@,
        Severity::Medium,
        "."@,
        "No .git directory \u{2014} provenance cannot be verified via git history"@,
        2,
    )
}

/// One finding where the condition holds, none where it does not.
pub open spec fn when(condition: bool, finding: FindingView) -> Seq<FindingView> {
    if condition {
        seq![finding]
    } else {
        Seq::empty()
    }
}

/// The findings that one file gives: none inside `.git`; elsewhere one for
/// each of the four checks that it fails, in this order.
pub open spec fn file_findings(file: SourceFileView) -> Seq<FindingView> {
    if in_git_dir(file.path) {
        Seq::empty()
    } else {
        when(is_hidden(file.name), hidden_finding(file)) + when(
            is_stray_binary(file.path, file.name),
            stray_binary_finding(file),
        ) + when(has_suspicious_word(lowercase(file.name)), suspicious_name_finding(file)) + when(
            is_large(file.size),
            large_file_finding(file),
        )
    }
}

/// The findings of a list of files, first file first.
pub open spec fn files_findings(files: Seq<SourceFileView>) -> Seq<FindingView>
    decreases files.len(),
{
    if files.len() == 0 {
        Seq::empty()
    } else {
        files_findings(files.drop_last()) + file_findings(files.last())
    }
}

/// The findings of the scan root: a shallow clone where `.git` holds the
/// marker of one; missing history where there is no `.git` but a package
/// manifest.
pub open spec fn root_findings(root: RootFacts) -> Seq<FindingView> {
    if root.has_git_dir {
        when(root.has_shallow_marker, shallow_clone_finding())
    } else {
        when(root.has_package_json || root.has_setup_py, no_history_finding())
    }
}

/// All provenance findings of a scan: those of the files, then those of
/// the root.
pub open spec fn provenance_findings(files: Seq<SourceFileView>, root: RootFacts) -> Seq<
    FindingView,
> {
    files_findings(files) + root_findings(root)
}

/// Append one finding to a list.
fn report(findings: &mut Vec<Finding>, finding: Finding)
    ensures
        final(findings).deep_view() == old(findings).deep_view().push(finding@),
{
    findings.push(finding);
    proof {
        assert(final(findings).deep_view() =~= old(findings).deep_view().push(finding@));
    }
}

/// A text followed by another.
fn joined(head: &str, tail: &str) -> (out: String)
    ensures
        out@ == head@ + tail@,
{
    let mut out = head.to_string();
    out.append(tail);
    out
}

/// Append the findings of one file to a list.
fn scan_file_provenance(findings: &mut Vec<Finding>, file: &SourceFile)
    ensures
        final(findings).deep_view() == old(findings).deep_view() + file_findings(file@),
{
    let ghost start = findings.deep_view();
    let path = file.path.as_str();
    let name = file.name.as_str();
    if starts_with(path, ".git/") || same_text(path, ".git") {
        proof {
            assert(start + Seq::<FindingView>::empty() =~= start);
        }
        return ;
    }
    let ghost none = Seq::<FindingView>::empty();
    if starts_with(name, ".") && !find_word(&ALLOWED_DOTFILES, name, Place::Whole) {
        let snippet = joined("Hidden file: ", name);
        report(
            findings,
            make_finding(Phase::Provenance, "PROV-001", Severity::Low, path, None, snippet.as_str(), 1),
        );
    }
    let ghost first = findings.deep_view();
    if is_binary_extension(name) && !find_word(&EXPECTED_BINARY_DIRS, path, Place::Start) {
        let snippet = joined("Binary file in unexpected location: ", name);
        report(
            findings,
            make_finding(
                Phase::Provenance,
                "PROV-002",
                Severity::Medium,
                path,
                None,
                snippet.as_str(),
                2,
            ),
        );
    }
    let ghost second = findings.deep_view();
    if is_suspicious_filename(name) {
        let snippet = joined("Suspicious filename: ", name);
        report(
            findings,
            make_finding(Phase::Provenance, "PROV-003", Severity::High, path, None, snippet.as_str(), 3),
        );
    }
    let ghost third = findings.deep_view();
    match file.size {
        Some(bytes) => {
            if bytes > LARGE_FILE_BYTES {
                let mut snippet = "Large file: ".to_string();
                push_decimal(&mut snippet, bytes);
                snippet.append(" bytes");
                report(
                    findings,
                    make_finding(
                        Phase::Provenance,
                        "PROV-004",
                        Severity::Low,
                        path,
                        None,
                        snippet.as_str(),
                        1,
                    ),
                );
            }
        },
        None => {},
    }
    proof {
        let view = file@;
        let a = when(is_hidden(view.name), hidden_finding(view));
        let b = when(is_stray_binary(view.path, view.name), stray_binary_finding(view));
        let c = when(has_suspicious_word(lowercase(view.name)), suspicious_name_finding(view));
        let d = when(is_large(view.size), large_file_finding(view));
        assert(first =~= start + a);
        assert(second =~= first + b);
        assert(third =~= second + c);
        assert(findings.deep_view() =~= third + d);
        assert(start + (a + b + c + d) =~= start + a + b + c + d);
    }
}

/// Detect provenance issues: hidden files, binary files in unexpected
/// places, suspicious file names, very large files, a shallow clone, and a
/// package without git history.
pub fn scan_provenance(files: &Vec<SourceFile>, root: &RootFacts) -> (findings: Vec<Finding>)
    ensures
        findings.deep_view() == provenance_findings(files.deep_view(), *root),
{
    let ghost views = files.deep_view();
    let mut findings: Vec<Finding> = Vec::new();
    let mut i: usize = 0;
    proof {
        assert(findings.deep_view() =~= Seq::<FindingView>::empty());
    }
    while i < files.len()
        invariant
            i <= files.len(),
            views == files.deep_view(),
            views.len() == files.len(),
            findings.deep_view() == files_findings(views.take(i as int)),
        decreases files.len() - i,
    {
        proof {
            assert(views[i as int] == files[i as int]@);
            assert(views.take(i + 1).drop_last() =~= views.take(i as int));
        }
        scan_file_provenance(&mut findings, &files[i]);
        i = i + 1;
    }
    proof {
        assert(views.take(i as int) =~= views);
    }
    let ghost of_files = findings.deep_view();
    if root.has_git_dir {
        if root.has_shallow_marker {
            report(
                &mut findings,
                make_finding(
                    Phase::Provenance,
                    "PROV-005",
                    Severity::Low,
                    ".git/shallow",
                    None,
                    "Shallow clone detected \u{2014} limited git history available",
                    1,
                ),
            );
        }
    } else if root.has_package_json || root.has_setup_py {
        report(
            &mut findings,
            make_finding(
                Phase::Provenance,
                "PROV-006",
                Severity::Medium,
                ".",
                None,
                "No .git directory \u{2014} provenance cannot be verified via git history",
                2,
            ),
        );
    }
    proof {
        assert(findings.deep_view() =~= of_files + root_findings(*root));
    }
    findings
}

} // verus!
