//! A set of regular expressions, compiled once, that selects units of text.
use vstd::prelude::*;
use regex::RegexSet;

verus! {

#[verifier::external_type_specification]
#[verifier::external_body]
pub struct ExRegexSet(regex::RegexSet);

#[verifier::external_type_specification]
#[verifier::external_body]
pub struct ExRegexError(regex::Error);

/// Whether the patterns, taken together, compile into one regex set.
pub uninterp spec fn set_compiles(patterns: Seq<Seq<char>>) -> bool;

/// Whether `pattern`, compiled as a member of a regex set, matches somewhere
/// inside `text`.
pub uninterp spec fn pattern_matches(pattern: Seq<char>, text: Seq<char>) -> bool;

/// Whether at least one of the patterns matches somewhere inside `text`.
pub open spec fn set_matches(patterns: Seq<Seq<char>>, text: Seq<char>) -> bool {
    exists|i: int| 0 <= i < patterns.len() && pattern_matches(#[trigger] patterns[i], text)
}

/// The views of a list of patterns.
pub open spec fn pattern_views(patterns: Seq<&str>) -> Seq<Seq<char>> {
    patterns.map_values(|p: &str| p@)
}

/// Relies on `RegexSet::new`: it succeeds exactly when the patterns compile
/// together, and on an empty list it always succeeds.
#[verifier::external_body]
fn compile_set(patterns: &[&str]) -> (r: Result<RegexSet, regex::Error>)
    ensures
        r is Ok <==> set_compiles(pattern_views(patterns@)),
        patterns@.len() == 0 ==> r is Ok,
{
    RegexSet::new(patterns)
}

/// Relies on `regex::Error`'s `Display` for the text of the message.
#[verifier::external_body]
fn error_message(e: &regex::Error) -> String {
    e.to_string()
}

/// A pattern that did not compile, with the message that says why.
#[derive(Debug, PartialEq, Eq)]
pub struct PatternCompileError {
    pub message: String,
}

/// A compiled pattern set. Only `Matcher::new` builds one, so the regex set
/// it holds is always the one compiled from `patterns`.
pub struct Matcher {
    set: RegexSet,
    patterns: Ghost<Seq<Seq<char>>>,
}

impl Matcher {
    /// The patterns this matcher was compiled from.
    pub closed spec fn patterns(&self) -> Seq<Seq<char>> {
        self.patterns@
    }

    /// Compiles all patterns at once; fails, building nothing, if any of
    /// them is not a valid regular expression.
    pub fn new(patterns: &[&str]) -> (r: Result<Matcher, PatternCompileError>)
        ensures
            r is Ok <==> set_compiles(pattern_views(patterns@)),
            r is Ok ==> r->Ok_0.patterns() == pattern_views(patterns@),
            patterns@.len() == 0 ==> r is Ok,
    {
        match compile_set(patterns) {
            Ok(set) => Ok(Matcher { set, patterns: Ghost(pattern_views(patterns@)) }),
            Err(e) => Err(PatternCompileError { message: error_message(&e) }),
        }
    }

    /// Relies on `RegexSet::is_match`: true exactly when one of the patterns
    /// matches somewhere in `text` (patterns are not anchored).
    #[verifier::external_body]
    pub(crate) fn is_match(&self, text: &str) -> (r: bool)
        ensures
            r == (exists|i: int|
                0 <= i < self.patterns().len() && pattern_matches(
                    #[trigger] self.patterns()[i],
                    text@,
                )),
    {
        self.set.is_match(text)
    }
}

} // verus!
