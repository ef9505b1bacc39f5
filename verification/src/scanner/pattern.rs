//! Regular expressions, as the `regex` crate compiles and runs them.
//!
//! Nothing here is proved: these items state what the detectors take from
//! the crate on trust.

use vstd::prelude::*;
use regex::Regex;

verus! {

/// `regex::Regex`, a compiled regular expression. Nothing of its inside is
/// known here.
#[verifier::external_type_specification]
#[verifier::external_body]
pub struct ExRegex(Regex);

/// Whether `Regex::new` accepts a pattern: its syntax is valid and the
/// compiled program stays within the crate's default size limit.
pub uninterp spec fn regex_compiles(pattern: Seq<char>) -> bool;

/// Whether the regex that `Regex::new` compiles from `pattern` finds a match
/// anywhere in `text` (`Regex::is_match`). Meaningful where the pattern
/// compiles.
pub uninterp spec fn regex_matches(pattern: Seq<char>, text: Seq<char>) -> bool;

/// The pattern that a compiled regex stands for: the one that `Regex::new`
/// was given.
pub uninterp spec fn regex_pattern(re: Regex) -> Seq<char>;

/// `Regex::new`, its error dropped: `Some` exactly for the patterns that
/// compile, and then a regex that stands for the pattern given.
#[verifier::external_body]
pub(crate) fn compile(pattern: &str) -> (compiled: Option<Regex>)
    ensures
        compiled is Some <==> regex_compiles(pattern@),
        compiled matches Some(re) ==> regex_pattern(re) == pattern@,
{
    Regex::new(pattern).ok()
}

/// `Regex::is_match`: whether the regex finds a match anywhere in the text.
/// It depends on the pattern and the text alone.
#[verifier::external_body]
pub(crate) fn is_match(re: &Regex, text: &str) -> (found: bool)
    ensures
        found == regex_matches(regex_pattern(*re), text@),
{
    re.is_match(text)
}

} // verus!
