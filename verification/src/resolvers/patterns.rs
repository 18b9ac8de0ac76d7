//! Compiled glob and regular-expression patterns, each kept with its source text.
//!
//! A matcher here is only ever built from the text it keeps, so what it matches is
//! a function of that text.
use vstd::prelude::*;

verus! {

#[verifier::external_type_specification]
#[verifier::external_body]
pub struct ExGlobPattern(glob::Pattern);

#[verifier::external_type_specification]
#[verifier::external_body]
pub struct ExRegexLite(regex_lite::Regex);

/// Whether `glob::Pattern::new` accepts `pattern`.
pub uninterp spec fn glob_pattern_valid(pattern: Seq<char>) -> bool;

/// Whether the glob `pattern` matches `name` (`glob::Pattern::matches`).
pub uninterp spec fn glob_match(pattern: Seq<char>, name: Seq<char>) -> bool;

/// Whether `regex_lite::Regex::new` accepts `pattern`.
pub uninterp spec fn regex_valid(pattern: Seq<char>) -> bool;

/// Whether the regular expression `pattern` matches somewhere in `haystack`
/// (`regex_lite::Regex::is_match`).
pub uninterp spec fn regex_match(pattern: Seq<char>, haystack: Seq<char>) -> bool;

/// Compiles a glob with `glob::Pattern::new`; the error is the crate's message.
/// The claim: it succeeds exactly when `glob_pattern_valid` holds of the text.
#[verifier::external_body]
fn glob_new(pattern: &str) -> (r: Result<glob::Pattern, String>)
    ensures
        r is Ok <==> glob_pattern_valid(pattern@),
{
    glob::Pattern::new(pattern).map_err(|e| e.to_string())
}

/// Compiles a regular expression with `regex_lite::Regex::new`; the error is the
/// crate's message. The claim: it succeeds exactly when `regex_valid` holds of the text.
#[verifier::external_body]
fn regex_new(pattern: &str) -> (r: Result<regex_lite::Regex, String>)
    ensures
        r is Ok <==> regex_valid(pattern@),
{
    regex_lite::Regex::new(pattern).map_err(|e| e.to_string())
}

/// A compiled glob pattern with its text.
pub struct GlobMatcher {
    source: String,
    compiled: glob::Pattern,
}

/// A compiled regular expression with its text.
pub struct RegexMatcher {
    source: String,
    compiled: regex_lite::Regex,
}

/// `glob::Pattern::matches` on a matcher built from its source text; the claim is
/// that the result is `glob_match` of that text and the name.
#[verifier::external_body]
fn glob_is_match(m: &GlobMatcher, name: &str) -> (r: bool)
    ensures
        r == glob_match(m.source(), name@),
{
    m.compiled.matches(name)
}

/// `regex_lite::Regex::is_match` on a matcher built from its source text; the claim
/// is that the result is `regex_match` of that text and the haystack.
#[verifier::external_body]
fn regex_is_match(m: &RegexMatcher, haystack: &str) -> (r: bool)
    ensures
        r == regex_match(m.source(), haystack@),
{
    m.compiled.is_match(haystack)
}

impl GlobMatcher {
    /// The pattern text.
    pub closed spec fn source(&self) -> Seq<char> {
        self.source@
    }

    /// Compiles `pattern`.
    pub fn new(pattern: &str) -> (r: Result<GlobMatcher, String>)
        ensures
            r is Ok <==> glob_pattern_valid(pattern@),
            r matches Ok(m) ==> m.source() == pattern@,
    {
        match glob_new(pattern) {
            Ok(compiled) => Ok(GlobMatcher { source: String::from_str(pattern), compiled }),
            Err(e) => Err(e),
        }
    }

    /// The pattern matches `name`.
    pub fn matches(&self, name: &str) -> (r: bool)
        ensures
            r == glob_match(self.source(), name@),
    {
        glob_is_match(self, name)
    }

    /// The pattern text.
    pub fn as_str(&self) -> (r: &str)
        ensures
            r@ == self.source(),
    {
        self.source.as_str()
    }

    /// A second matcher for the same pattern.
    pub fn duplicate(&self) -> (r: GlobMatcher)
        ensures
            r.source() == self.source(),
    {
        GlobMatcher { source: self.source.clone(), compiled: glob_clone(&self.compiled) }
    }
}

/// `glob::Pattern::clone`; nothing is claimed of the copy beyond its type (the
/// matcher that holds it keeps the source text it was compiled from).
#[verifier::external_body]
fn glob_clone(p: &glob::Pattern) -> glob::Pattern {
    p.clone()
}

impl RegexMatcher {
    /// The expression text.
    pub closed spec fn source(&self) -> Seq<char> {
        self.source@
    }

    /// Compiles `pattern`.
    pub fn new(pattern: &str) -> (r: Result<RegexMatcher, String>)
        ensures
            r is Ok <==> regex_valid(pattern@),
            r matches Ok(m) ==> m.source() == pattern@,
    {
        match regex_new(pattern) {
            Ok(compiled) => Ok(RegexMatcher { source: String::from_str(pattern), compiled }),
            Err(e) => Err(e),
        }
    }

    /// The expression matches somewhere in `haystack`.
    pub fn is_match(&self, haystack: &str) -> (r: bool)
        ensures
            r == regex_match(self.source(), haystack@),
    {
        regex_is_match(self, haystack)
    }
}

} // verus!
