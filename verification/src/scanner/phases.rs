//! The line-oriented detectors: one rule table per phase, matched line by
//! line against a file's text.

use vstd::prelude::*;
use vstd::string::*;
use regex::Regex;
use super::pattern::{compile, is_match, regex_compiles, regex_matches, regex_pattern};
use super::rules::{
    RuleEntry, CODE_RULES, CREDENTIAL_RULES, MAKE_RULES, MCP_CONFIG_RULES, NETWORK_RULES,
    NPM_RULES, OBFUSCATION_RULES, PYPROJECT_RULES, SETUP_RULES,
};
use super::scoring::{phase_weight, phase_weight_of};
use super::{Finding, FindingView, Phase, Severity};
use crate::paths::{base_name, file_name_of};
use crate::text::{clip, clipped, ends_with, lines_of, same_text, split_lines, trim, trimmed};

verus! {

/// One detection rule: a regular expression with the identifier, severity
/// and description of the findings it gives.
#[derive(Debug)]
pub struct Rule {
    pub pattern: String,
    pub id: String,
    pub severity: Severity,
    pub description: String,
}

/// What a `Rule` holds, with its strings as sequences of characters.
pub struct RuleView {
    pub pattern: Seq<char>,
    pub id: Seq<char>,
    pub severity: Severity,
    pub description: Seq<char>,
}

impl View for Rule {
    type V = RuleView;

    open spec fn view(&self) -> RuleView {
        RuleView {
            pattern: self.pattern@,
            id: self.id@,
            severity: self.severity,
            description: self.description@,
        }
    }
}

impl DeepView for Rule {
    type V = RuleView;

    open spec fn deep_view(&self) -> RuleView {
        self@
    }
}

/// Whether a rule fires on a line. A rule whose pattern does not compile
/// never fires.
pub open spec fn rule_hits(rule: RuleView, line: Seq<char>) -> bool {
    regex_compiles(rule.pattern) && regex_matches(rule.pattern, line)
}

/// The line as a finding quotes it: clipped, and without the whitespace
/// around it.
pub open spec fn quote_of(line: Seq<char>) -> Seq<char> {
    trimmed(clipped(line))
}

/// The finding that `rule` gives on the line with index `index` (from 0),
/// `quote` being the line as it is quoted: it names the line by its number
/// from 1, and its snippet is the rule's description, then the quote.
pub open spec fn finding_of(
    file: Seq<char>,
    phase: Phase,
    weight: u32,
    rule: RuleView,
    index: int,
    quote: Seq<char>,
) -> FindingView {
    FindingView {
        phase,
        rule: rule.id,
        severity: rule.severity,
        file,
        line: Some((index + 1) as usize),
        snippet: rule.description + ": "@ + quote,
        weight,
    }
}

/// The finding that `rule` gives on the line with index `index` (from 0).
pub open spec fn hit(
    file: Seq<char>,
    phase: Phase,
    weight: u32,
    rule: RuleView,
    index: int,
    line: Seq<char>,
) -> FindingView {
    finding_of(file, phase, weight, rule, index, quote_of(line))
}

/// The findings of one line where it is known which rules fire: one for
/// each rule that fires, in table order.
pub open spec fn fired_hits(
    file: Seq<char>,
    phase: Phase,
    weight: u32,
    rules: Seq<RuleView>,
    index: int,
    fired: Seq<bool>,
    quote: Seq<char>,
) -> Seq<FindingView>
    decreases rules.len(),
{
    if rules.len() == 0 {
        Seq::empty()
    } else {
        let before = fired_hits(file, phase, weight, rules.drop_last(), index, fired, quote);
        if fired[rules.len() - 1] {
            before.push(finding_of(file, phase, weight, rules.last(), index, quote))
        } else {
            before
        }
    }
}

/// The findings of one line: one for each rule that fires, in table order.
pub open spec fn hits_on_line(
    file: Seq<char>,
    phase: Phase,
    weight: u32,
    rules: Seq<RuleView>,
    index: int,
    line: Seq<char>,
) -> Seq<FindingView>
    decreases rules.len(),
{
    if rules.len() == 0 {
        Seq::empty()
    } else {
        let before = hits_on_line(file, phase, weight, rules.drop_last(), index, line);
        if rule_hits(rules.last(), line) {
            before.push(hit(file, phase, weight, rules.last(), index, line))
        } else {
            before
        }
    }
}

/// The findings of a text: those of its lines, first line first.
pub open spec fn hits(
    file: Seq<char>,
    phase: Phase,
    weight: u32,
    rules: Seq<RuleView>,
    lines: Seq<Seq<char>>,
) -> Seq<FindingView>
    decreases lines.len(),
{
    if lines.len() == 0 {
        Seq::empty()
    } else {
        hits(file, phase, weight, rules, lines.drop_last()) + hits_on_line(
            file,
            phase,
            weight,
            rules,
            lines.len() - 1,
            lines.last(),
        )
    }
}

/// Build a finding from its parts.
pub fn make_finding(
    phase: Phase,
    rule: &str,
    severity: Severity,
    file: &str,
    line: Option<usize>,
    snippet: &str,
    weight: u32,
) -> (finding: Finding)
    ensures
        finding@ == (FindingView {
            phase,
            rule: rule@,
            severity,
            file: file@,
            line,
            snippet: snippet@,
            weight,
        }),
{
    Finding {
        phase,
        rule: rule.to_string(),
        severity,
        file: file.to_string(),
        line,
        snippet: snippet.to_string(),
        weight,
    }
}

/// The finding that a rule gives on the line with index `index` (from 0),
/// `quote` being the line as it is quoted.
pub fn rule_finding(
    file: &str,
    phase: Phase,
    weight: u32,
    rule: &Rule,
    index: usize,
    quote: &str,
) -> (finding: Finding)
    requires
        index < usize::MAX,
    ensures
        finding@ == finding_of(file@, phase, weight, rule@, index as int, quote@),
{
    let mut snippet = rule.description.clone();
    snippet.append(": ");
    snippet.append(quote);
    make_finding(
        phase,
        rule.id.as_str(),
        rule.severity,
        file,
        Some(index + 1),
        snippet.as_str(),
        weight,
    )
}

/// Whether `compiled` holds, rule for rule, what `Regex::new` made of the
/// patterns of `rules`.
spec fn compiled_from(compiled: Seq<Option<Regex>>, rules: Seq<RuleView>) -> bool {
    &&& compiled.len() == rules.len()
    &&& forall|j: int|
        0 <= j < rules.len() ==> ((#[trigger] compiled[j]) is Some <==> regex_compiles(
            rules[j].pattern,
        ))
    &&& forall|j: int|
        0 <= j < rules.len() ==> ((#[trigger] compiled[j]) matches Some(re) ==> regex_pattern(re)
            == rules[j].pattern)
}

/// Compile the pattern of each rule; `None` stands for one that does not
/// compile.
fn compile_rules(rules: &Vec<Rule>) -> (compiled: Vec<Option<Regex>>)
    ensures
        compiled_from(compiled@, rules.deep_view()),
{
    let ghost views = rules.deep_view();
    let mut compiled: Vec<Option<Regex>> = Vec::new();
    let mut j: usize = 0;
    while j < rules.len()
        invariant
            j <= rules.len(),
            views == rules.deep_view(),
            views.len() == rules.len(),
            compiled_from(compiled@, views.take(j as int)),
        decreases rules.len() - j,
    {
        let re = compile(rules[j].pattern.as_str());
        let ghost before = compiled@;
        compiled.push(re);
        proof {
            assert(views[j as int] == rules[j as int]@);
            let next = views.take(j + 1);
            assert forall|k: int| 0 <= k < next.len() implies ((#[trigger] compiled@[k]) is Some
                <==> regex_compiles(next[k].pattern)) by {
                if k < j {
                    assert(compiled@[k] == before[k]);
                    assert(next[k] == views.take(j as int)[k]);
                }
            }
            assert forall|k: int| 0 <= k < next.len() implies ((#[trigger] compiled@[k]) matches Some(
                re,
            ) ==> regex_pattern(re) == next[k].pattern) by {
                if k < j {
                    assert(compiled@[k] == before[k]);
                    assert(next[k] == views.take(j as int)[k]);
                }
            }
        }
        j = j + 1;
    }
    proof {
        assert(views.take(j as int) =~= views);
    }
    compiled
}

/// Move the findings of `more` to the end of `findings`.
pub(crate) fn append_all(findings: &mut Vec<Finding>, more: Vec<Finding>)
    ensures
        final(findings).deep_view() == old(findings).deep_view() + more.deep_view(),
{
    let mut more = more;
    let ghost added = more.deep_view();
    let ghost raw = more@;
    findings.append(&mut more);
    proof {
        assert(final(findings)@ == old(findings)@ + raw);
        assert(final(findings).deep_view() =~= old(findings).deep_view() + added);
    }
}

/// The findings of one line, given which rules fire on it and how the line
/// is quoted: one finding for each rule that fires, in table order.
pub fn line_findings(
    file: &str,
    phase: Phase,
    weight: u32,
    rules: &Vec<Rule>,
    index: usize,
    fired: &Vec<bool>,
    quote: &str,
) -> (findings: Vec<Finding>)
    requires
        index < usize::MAX,
        fired.len() == rules.len(),
    ensures
        findings.deep_view() == fired_hits(
            file@,
            phase,
            weight,
            rules.deep_view(),
            index as int,
            fired@,
            quote@,
        ),
{
    let ghost views = rules.deep_view();
    let mut findings: Vec<Finding> = Vec::new();
    let mut j: usize = 0;
    proof {
        assert(findings.deep_view() =~= Seq::<FindingView>::empty());
    }
    while j < rules.len()
        invariant
            j <= rules.len(),
            index < usize::MAX,
            fired.len() == rules.len(),
            views == rules.deep_view(),
            views.len() == rules.len(),
            findings.deep_view() == fired_hits(
                file@,
                phase,
                weight,
                views.take(j as int),
                index as int,
                fired@,
                quote@,
            ),
        decreases rules.len() - j,
    {
        proof {
            assert(views[j as int] == rules[j as int]@);
            assert(views.take(j + 1).drop_last() =~= views.take(j as int));
        }
        if fired[j] {
            let finding = rule_finding(file, phase, weight, &rules[j], index, quote);
            let ghost before = findings.deep_view();
            findings.push(finding);
            proof {
                assert(findings.deep_view() =~= before.push(finding@));
            }
        }
        j = j + 1;
    }
    proof {
        assert(views.take(j as int) =~= views);
    }
    findings
}

/// Where `fired` says of each rule whether it fires on a line, the
/// findings picked by it are those of the line.
proof fn lemma_fired_hits(
    file: Seq<char>,
    phase: Phase,
    weight: u32,
    rules: Seq<RuleView>,
    index: int,
    fired: Seq<bool>,
    line: Seq<char>,
)
    requires
        fired.len() >= rules.len(),
        forall|j: int| 0 <= j < rules.len() ==> fired[j] == rule_hits(#[trigger] rules[j], line),
    ensures
        fired_hits(file, phase, weight, rules, index, fired, quote_of(line)) == hits_on_line(
            file,
            phase,
            weight,
            rules,
            index,
            line,
        ),
    decreases rules.len(),
{
    if rules.len() > 0 {
        let before = rules.drop_last();
        assert forall|j: int| 0 <= j < before.len() implies fired[j] == rule_hits(
            #[trigger] before[j],
            line,
        ) by {
            assert(before[j] == rules[j]);
        }
        lemma_fired_hits(file, phase, weight, before, index, fired, line);
        assert(fired[rules.len() - 1] == rule_hits(rules[rules.len() - 1], line));
    }
}

/// Where no rule fires on a line, the line has no findings.
proof fn lemma_none_fire(
    file: Seq<char>,
    phase: Phase,
    weight: u32,
    rules: Seq<RuleView>,
    index: int,
    line: Seq<char>,
)
    requires
        forall|j: int| 0 <= j < rules.len() ==> !rule_hits(#[trigger] rules[j], line),
    ensures
        hits_on_line(file, phase, weight, rules, index, line) == Seq::<FindingView>::empty(),
    decreases rules.len(),
{
    if rules.len() > 0 {
        let before = rules.drop_last();
        assert forall|j: int| 0 <= j < before.len() implies !rule_hits(
            #[trigger] before[j],
            line,
        ) by {
            assert(before[j] == rules[j]);
        }
        lemma_none_fire(file, phase, weight, before, index, line);
        assert(!rule_hits(rules[rules.len() - 1], line));
    }
}

/// Adding one line to a text adds the findings of that line.
proof fn lemma_line_step(
    file: Seq<char>,
    phase: Phase,
    weight: u32,
    rules: Seq<RuleView>,
    lines: Seq<Seq<char>>,
    i: int,
)
    requires
        0 <= i < lines.len(),
    ensures
        hits(file, phase, weight, rules, lines.take(i + 1)) == hits(
            file,
            phase,
            weight,
            rules,
            lines.take(i),
        ) + hits_on_line(file, phase, weight, rules, i, lines[i]),
{
    assert(lines.take(i + 1).drop_last() =~= lines.take(i));
}

/// Which rules fire on a line, and whether any does.
fn which_fire(compiled: &Vec<Option<Regex>>, line: &str, Ghost(rules): Ghost<Seq<RuleView>>) -> (out: (
    Vec<bool>,
    bool,
))
    requires
        compiled_from(compiled@, rules),
    ensures
        out.0.len() == rules.len(),
        forall|j: int| 0 <= j < rules.len() ==> out.0@[j] == rule_hits(#[trigger] rules[j], line@),
        out.1 == exists|j: int| 0 <= j < rules.len() && rule_hits(#[trigger] rules[j], line@),
{
    let mut fired: Vec<bool> = Vec::new();
    let mut any = false;
    let mut j: usize = 0;
    while j < compiled.len()
        invariant
            j <= compiled.len(),
            compiled_from(compiled@, rules),
            fired.len() == j,
            forall|k: int| 0 <= k < j ==> fired@[k] == rule_hits(#[trigger] rules[k], line@),
            any == exists|k: int| 0 <= k < j && rule_hits(#[trigger] rules[k], line@),
        decreases compiled.len() - j,
    {
        let fires = match &compiled[j] {
            Some(re) => is_match(re, line),
            None => false,
        };
        proof {
            assert(fires == rule_hits(rules[j as int], line@));
        }
        fired.push(fires);
        any = any || fires;
        j = j + 1;
    }
    (fired, any)
}

/// Match each line of a text, already split, against each rule of a table.
pub fn scan_split(
    file: &str,
    lines: &Vec<String>,
    phase: Phase,
    weight: u32,
    rules: &Vec<Rule>,
) -> (findings: Vec<Finding>)
    ensures
        findings.deep_view() == hits(
            file@,
            phase,
            weight,
            rules.deep_view(),
            lines.deep_view(),
        ),
{
    let ghost rule_views = rules.deep_view();
    let ghost line_views = lines.deep_view();
    let compiled = compile_rules(rules);
    let mut findings: Vec<Finding> = Vec::new();
    let mut i: usize = 0;
    proof {
        assert(findings.deep_view() =~= Seq::<FindingView>::empty());
    }
    while i < lines.len()
        invariant
            i <= lines.len(),
            rule_views == rules.deep_view(),
            rule_views.len() == rules.len(),
            line_views == lines.deep_view(),
            line_views.len() == lines.len(),
            compiled_from(compiled@, rule_views),
            findings.deep_view() == hits(file@, phase, weight, rule_views, line_views.take(i as int)),
        decreases lines.len() - i,
    {
        let line = lines[i].as_str();
        let ghost done = findings.deep_view();
        proof {
            assert(line_views[i as int] == line@);
            lemma_line_step(file@, phase, weight, rule_views, line_views, i as int);
        }
        let (fired, any) = which_fire(&compiled, line, Ghost(rule_views));
        if any {
            let shown = clip(line);
            let quote = trim(shown.as_str());
            let found = line_findings(file, phase, weight, rules, i, &fired, quote.as_str());
            proof {
                lemma_fired_hits(file@, phase, weight, rule_views, i as int, fired@, line@);
            }
            append_all(&mut findings, found);
        } else {
            proof {
                lemma_none_fire(file@, phase, weight, rule_views, i as int, line@);
                assert(done + Seq::<FindingView>::empty() =~= done);
            }
        }
        i = i + 1;
    }
    proof {
        assert(line_views.take(i as int) =~= line_views);
    }
    findings
}

/// Scan each line of a file's text against a table of rules.
pub fn scan_lines(file: &str, contents: &str, phase: Phase, weight: u32, rules: &Vec<Rule>) -> (findings:
    Vec<Finding>)
    ensures
        findings.deep_view() == hits(
            file@,
            phase,
            weight,
            rules.deep_view(),
            lines_of(contents@),
        ),
{
    let lines = split_lines(contents);
    scan_split(file, &lines, phase, weight, rules)
}

/// The rule that a table entry stands for.
pub open spec fn entry_rule(entry: RuleEntry) -> RuleView {
    RuleView {
        pattern: entry.0@,
        id: entry.1@,
        severity: entry.2,
        description: entry.3@,
    }
}

/// The rules of a table, in its order.
pub open spec fn table_rules(table: Seq<RuleEntry>) -> Seq<RuleView> {
    Seq::new(table.len(), |i: int| entry_rule(table[i]))
}

/// Append the rules of a table to a list of rules.
fn push_table(rules: &mut Vec<Rule>, table: &[RuleEntry])
    ensures
        final(rules).deep_view() == old(rules).deep_view() + table_rules(table@),
{
    let ghost start = rules.deep_view();
    let mut i: usize = 0;
    proof {
        assert(start + table_rules(table@.take(0)) =~= start);
    }
    while i < table.len()
        invariant
            i <= table.len(),
            rules.deep_view() == start + table_rules(table@.take(i as int)),
        decreases table.len() - i,
    {
        let entry = table[i];
        let rule = Rule {
            pattern: entry.0.to_string(),
            id: entry.1.to_string(),
            severity: entry.2,
            description: entry.3.to_string(),
        };
        let ghost before = rules.deep_view();
        rules.push(rule);
        proof {
            assert(rule@ == entry_rule(table@[i as int]));
            assert(rules.deep_view() =~= before.push(rule@));
            assert(before.push(rule@) =~= start + table_rules(table@.take(i + 1)));
        }
        i = i + 1;
    }
    proof {
        assert(table@.take(i as int) =~= table@);
    }
}

/// The rules of a table, as a list of their own.
fn rules_of_table(table: &[RuleEntry]) -> (rules: Vec<Rule>)
    ensures
        rules.deep_view() == table_rules(table@),
{
    let mut rules: Vec<Rule> = Vec::new();
    proof {
        assert(rules.deep_view() =~= Seq::<RuleView>::empty());
    }
    push_table(&mut rules, table);
    proof {
        assert(Seq::<RuleView>::empty() + table_rules(table@) =~= table_rules(table@));
    }
    rules
}

/// Whether a file name is that of a make file.
pub open spec fn is_make_file(name: Seq<char>) -> bool {
    name == "Makefile"@ || name == "makefile"@ || ".mk"@.is_suffix_of(name)
}

/// The install-hook rules that apply to a file of the given name. Each
/// group but the last applies to well-known file names only; the last one
/// applies to every file.
pub open spec fn install_hook_rules(name: Seq<char>) -> Seq<RuleView> {
    (if name == "setup.py"@ || name == "setup.cfg"@ {
        table_rules(SETUP_RULES@)
    } else {
        Seq::empty()
    }) + (if name == "package.json"@ {
        table_rules(NPM_RULES@)
    } else {
        Seq::empty()
    }) + (if is_make_file(name) {
        table_rules(MAKE_RULES@)
    } else {
        Seq::empty()
    }) + (if name == "pyproject.toml"@ {
        table_rules(PYPROJECT_RULES@)
    } else {
        Seq::empty()
    }) + table_rules(MCP_CONFIG_RULES@)
}

/// Detect install-time hooks: `setup.py` command overrides, npm lifecycle
/// scripts, make install targets, build hooks of `pyproject.toml`, and
/// agent tool configuration in any file.
pub fn scan_install_hooks(file: &str, contents: &str) -> (findings: Vec<Finding>)
    ensures
        findings.deep_view() == hits(
            file@,
            Phase::InstallHooks,
            phase_weight_of(Phase::InstallHooks),
            install_hook_rules(base_name(file@)),
            lines_of(contents@),
        ),
{
    let name = file_name_of(file);
    let name = name.as_str();
    let mut rules: Vec<Rule> = Vec::new();
    let ghost none = Seq::<RuleView>::empty();
    proof {
        assert(rules.deep_view() =~= none);
    }
    if same_text(name, "setup.py") || same_text(name, "setup.cfg") {
        push_table(&mut rules, &SETUP_RULES);
    }
    let ghost first = rules.deep_view();
    if same_text(name, "package.json") {
        push_table(&mut rules, &NPM_RULES);
    }
    let ghost second = rules.deep_view();
    if same_text(name, "Makefile") || same_text(name, "makefile") || ends_with(name, ".mk") {
        push_table(&mut rules, &MAKE_RULES);
    }
    let ghost third = rules.deep_view();
    if same_text(name, "pyproject.toml") {
        push_table(&mut rules, &PYPROJECT_RULES);
    }
    let ghost fourth = rules.deep_view();
    push_table(&mut rules, &MCP_CONFIG_RULES);
    proof {
        assert(first =~= none + first);
        assert(second =~= first + none || second == first + table_rules(NPM_RULES@));
        assert(third =~= second + none || third == second + table_rules(MAKE_RULES@));
        assert(fourth =~= third + none || fourth == third + table_rules(PYPROJECT_RULES@));
        assert(rules.deep_view() =~= install_hook_rules(name@));
    }
    scan_lines(file, contents, Phase::InstallHooks, phase_weight(Phase::InstallHooks), &rules)
}

/// Detect dangerous code patterns: dynamic execution, unsafe
/// deserialisation, process spawning, dynamic imports, shell injection
/// flags and agent tool execution.
pub fn scan_code_patterns(file: &str, contents: &str) -> (findings: Vec<Finding>)
    ensures
        findings.deep_view() == hits(
            file@,
            Phase::CodePatterns,
            phase_weight_of(Phase::CodePatterns),
            table_rules(CODE_RULES@),
            lines_of(contents@),
        ),
{
    let rules = rules_of_table(&CODE_RULES);
    scan_lines(file, contents, Phase::CodePatterns, phase_weight(Phase::CodePatterns), &rules)
}

/// Detect outbound network activity: HTTP call sites, webhook URLs, known
/// tunnelling services, raw sockets, DNS calls and encoding before sending.
pub fn scan_network_exfil(file: &str, contents: &str) -> (findings: Vec<Finding>)
    ensures
        findings.deep_view() == hits(
            file@,
            Phase::NetworkExfil,
            phase_weight_of(Phase::NetworkExfil),
            table_rules(NETWORK_RULES@),
            lines_of(contents@),
        ),
{
    let rules = rules_of_table(&NETWORK_RULES);
    scan_lines(file, contents, Phase::NetworkExfil, phase_weight(Phase::NetworkExfil), &rules)
}

/// Detect credential access: reads of sensitive environment variables,
/// credential files, token shapes, private keys and hardcoded secrets.
pub fn scan_credentials(file: &str, contents: &str) -> (findings: Vec<Finding>)
    ensures
        findings.deep_view() == hits(
            file@,
            Phase::Credentials,
            phase_weight_of(Phase::Credentials),
            table_rules(CREDENTIAL_RULES@),
            lines_of(contents@),
        ),
{
    let rules = rules_of_table(&CREDENTIAL_RULES);
    scan_lines(file, contents, Phase::Credentials, phase_weight(Phase::Credentials), &rules)
}

/// Detect obfuscation: decoding calls, character-code construction, long
/// runs of hex or unicode escapes, ciphers and inline decompression.
pub fn scan_obfuscation(file: &str, contents: &str) -> (findings: Vec<Finding>)
    ensures
        findings.deep_view() == hits(
            file@,
            Phase::Obfuscation,
            phase_weight_of(Phase::Obfuscation),
            table_rules(OBFUSCATION_RULES@),
            lines_of(contents@),
        ),
{
    let rules = rules_of_table(&OBFUSCATION_RULES);
    scan_lines(file, contents, Phase::Obfuscation, phase_weight(Phase::Obfuscation), &rules)
}

} // verus!
