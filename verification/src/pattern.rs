//! Regular expressions, as far as this library relies on them.
//!
//! Matching is left to the `regex` crate. What it computes is not proved here:
//! its results are given names, and the rest of the library is proved over
//! those names.

use regex::Regex;
use vstd::prelude::*;

verus! {

#[verifier::external_type_specification]
#[verifier::external_body]
pub struct ExRegex(regex::Regex);

#[verifier::external_type_specification]
#[verifier::external_body]
pub struct ExRegexError(regex::Error);

/// The pattern text that `Regex::new` built the compiled pattern from. It is
/// `None` for a compiled pattern that came about in another way, such as
/// through a builder with options of its own: of such a one nothing is said.
pub uninterp spec fn built_from(rx: Regex) -> Option<Seq<char>>;

/// Whether `Regex::new` accepts the pattern text.
pub uninterp spec fn pattern_compiles(source: Seq<char>) -> bool;

/// What `Regex::captures` finds for the pattern in a text: nothing where the
/// pattern matches nowhere, else the capture groups of the leftmost match in
/// the order of their opening parentheses, the whole match first, each with
/// the text it matched, or `None` where the group took no part in the match.
pub uninterp spec fn pattern_captures(source: Seq<char>, text: Seq<char>) -> Option<
    Seq<Option<Seq<char>>>,
>;

/// Calls `Regex::new`. The claim: whether it succeeds depends on the pattern
/// text alone, and what it returns was built from that text.
#[verifier::external_body]
pub(crate) fn compile(source: &str) -> (r: Result<Regex, regex::Error>)
    ensures
        r is Ok <==> pattern_compiles(source@),
        r matches Ok(rx) ==> built_from(rx) == Some(source@),
{
    Regex::new(source)
}

/// Calls `Regex::captures` and copies out the text of every group, walking
/// `Captures::iter`. The claim: for a pattern that `Regex::new` built, the
/// result depends on the pattern text and the searched text alone.
#[verifier::external_body]
pub(crate) fn captures(rx: &Regex, text: &str) -> (r: Option<Vec<Option<String>>>)
    requires
        built_from(*rx) is Some,
    ensures
        r.deep_view() == pattern_captures(built_from(*rx)->0, text@),
{
    rx.captures(text).map(|c| c.iter().map(|m| m.map(|g| g.as_str().to_owned())).collect())
}

} // verus!
