//! Compiled process matchers: a glob on the process name, a regular
//! expression on the command line.
//!
//! A matcher is built only by the compile functions here, from the pattern
//! text it keeps, so the compiled pattern always is the compilation of that
//! text.
use vstd::prelude::*;

verus! {

/// `glob::Pattern`, compiled from the text an `ExeMatcher` keeps.
#[verifier::external_type_specification]
#[verifier::external_body]
pub struct ExGlobPattern(glob::Pattern);

/// `regex::Regex`, compiled from the text a `CmdMatcher` keeps.
#[verifier::external_type_specification]
#[verifier::external_body]
pub struct ExRegex(regex::Regex);

/// The name for whether `glob::Pattern::new` accepts a pattern.
pub uninterp spec fn glob_valid(pattern: Seq<char>) -> bool;

/// The name for the text of the error `glob::Pattern::new` gives for an
/// invalid pattern.
pub uninterp spec fn glob_error_text(pattern: Seq<char>) -> Seq<char>;

/// The name for the text of the error `regex::Regex::new` gives for a
/// pattern it refuses.
pub uninterp spec fn regex_error_text(pattern: Seq<char>) -> Seq<char>;

/// The name for what `glob::Pattern::matches` returns for the pattern
/// compiled from `pattern` and the string `name`.
pub uninterp spec fn glob_matches(pattern: Seq<char>, name: Seq<char>) -> bool;

/// The name for whether `regex::Regex::new` accepts a pattern.
pub uninterp spec fn regex_valid(pattern: Seq<char>) -> bool;

/// The name for what `regex::Regex::is_match` returns for the regex
/// compiled from `pattern` and the haystack.
pub uninterp spec fn regex_is_match(pattern: Seq<char>, haystack: Seq<char>) -> bool;

/// A glob pattern on the process name, with the text it was compiled from.
#[derive(Debug)]
pub struct ExeMatcher {
    pattern: glob::Pattern,
    source: String,
}

/// A regular expression on the command line, with the text it was compiled from.
#[derive(Debug)]
pub struct CmdMatcher {
    regex: regex::Regex,
    source: String,
}

impl ExeMatcher {
    /// The pattern text.
    pub closed spec fn source(&self) -> Seq<char> {
        self.source@
    }

    pub fn pattern_text(&self) -> (s: &str)
        ensures
            s@ == self.source(),
    {
        self.source.as_str()
    }
}

impl CmdMatcher {
    /// The pattern text.
    pub closed spec fn source(&self) -> Seq<char> {
        self.source@
    }

    pub fn pattern_text(&self) -> (s: &str)
        ensures
            s@ == self.source(),
    {
        self.source.as_str()
    }
}

/// `glob::Pattern::new`: compiles a Unix shell style pattern, or fails on an
/// invalid one with the error's text (`Display` of `glob::PatternError`).
/// The matcher keeps the text it was compiled from.
#[verifier::external_body]
pub(crate) fn compile_glob(text: &str) -> (r: Result<ExeMatcher, String>)
    ensures
        r is Ok <==> glob_valid(text@),
        r matches Ok(m) ==> m.source() == text@,
        r matches Err(e) ==> e@ == glob_error_text(text@),
{
    match glob::Pattern::new(text) {
        Ok(pattern) => Ok(ExeMatcher { pattern, source: text.to_owned() }),
        Err(e) => Err(e.to_string()),
    }
}

/// `glob::Pattern::matches`: whether the name matches the pattern.
#[verifier::external_body]
pub(crate) fn glob_match(m: &ExeMatcher, name: &str) -> (r: bool)
    ensures
        r == glob_matches(m.source(), name@),
{
    m.pattern.matches(name)
}

/// `regex::Regex::new`: compiles a regular expression, or fails on an
/// invalid one or one over the default size limit, with the error's text
/// (`Display` of `regex::Error`). The matcher keeps the text it was
/// compiled from.
#[verifier::external_body]
pub(crate) fn compile_regex(text: &str) -> (r: Result<CmdMatcher, String>)
    ensures
        r is Ok <==> regex_valid(text@),
        r matches Ok(m) ==> m.source() == text@,
        r matches Err(e) ==> e@ == regex_error_text(text@),
{
    match regex::Regex::new(text) {
        Ok(regex) => Ok(CmdMatcher { regex, source: text.to_owned() }),
        Err(e) => Err(e.to_string()),
    }
}

/// `regex::Regex::is_match`: whether the regex matches anywhere in the haystack.
#[verifier::external_body]
pub(crate) fn regex_match(m: &CmdMatcher, haystack: &str) -> (r: bool)
    ensures
        r == regex_is_match(m.source(), haystack@),
{
    m.regex.is_match(haystack)
}

} // verus!
