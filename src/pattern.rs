//! Regular expressions of handler patterns, compiled by the `regex` crate.
use vstd::prelude::*;

verus! {

/// `regex::Regex`, held opaque inside a `Pattern`.
#[verifier::external_type_specification]
#[verifier::external_body]
pub struct ExRegex(regex::Regex);

/// `regex::Error`, the reason a pattern does not compile.
#[verifier::external_type_specification]
#[verifier::external_body]
pub struct ExRegexError(regex::Error);

/// Whether the `regex` crate accepts `p` as a pattern.
pub uninterp spec fn regex_accepts(p: Seq<char>) -> bool;

/// The capture groups of the leftmost-first match of pattern `p` in `hay`:
/// one entry per group, group 0 being the whole match, `None` for a group
/// that took no part in the match; `None` when there is no match.
pub uninterp spec fn captures_of(p: Seq<char>, hay: Seq<char>) -> Option<Seq<Option<Seq<char>>>>;

/// The view of a list of optional capture texts.
pub open spec fn groups_view(g: Seq<Option<String>>) -> Seq<Option<Seq<char>>> {
    g.map_values(|o: Option<String>| match o {
        Some(s) => Some(s@),
        None => None,
    })
}

/// A compiled pattern together with its source text.
pub struct Pattern {
    source: String,
    compiled: regex::Regex,
}

impl Pattern {
    /// The source text of the pattern.
    pub closed spec fn source(&self) -> Seq<char> {
        self.source@
    }

    /// Relies on `regex::Regex::new`: compiles `source`, or reports why it
    /// cannot.
    #[verifier::external_body]
    pub(crate) fn new(source: &str) -> (r: Result<Pattern, regex::Error>)
        ensures
            r is Ok <==> regex_accepts(source@),
            r is Ok ==> r->Ok_0.source() == source@,
    {
        regex::Regex::new(source).map(|compiled| Pattern { source: source.to_string(), compiled })
    }

    /// Relies on `regex::Regex::captures` and `Captures::iter`: the groups of
    /// the first match in `hay`. Group 0, the whole match, is always present.
    #[verifier::external_body]
    pub(crate) fn captures(&self, hay: &str) -> (r: Option<Vec<Option<String>>>)
        ensures
            r is None ==> captures_of(self.source(), hay@) is None,
            r is Some ==> captures_of(self.source(), hay@) == Some(groups_view(r->Some_0@)),
            r is Some ==> r->Some_0@.len() >= 1 && r->Some_0@[0] is Some,
    {
        self.compiled.captures(hay).map(
            |caps| caps.iter().map(|m| m.map(|m| m.as_str().to_string())).collect(),
        )
    }
}

/// Relies on the `Display` impl of `regex::Error`: its message.
#[verifier::external_body]
pub(crate) fn regex_error_message(e: &regex::Error) -> String {
    e.to_string()
}

} // verus!
