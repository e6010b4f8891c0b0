//! Patterns compiled at run time with the `regex` crate (through
//! `lazy_regex`), and what is known of them.

use vstd::prelude::*;

verus! {

/// `regex::Error`, the error of compiling a pattern.
#[verifier::external_type_specification]
#[verifier::external_body]
pub struct ExRegexError(lazy_regex::regex::Error);

/// `regex::Regex`, a compiled pattern.
#[verifier::external_type_specification]
#[verifier::external_body]
pub struct ExRegex(lazy_regex::Regex);

/// The error of `regex::Regex::new` on `pattern` (its syntax, and its
/// default size limits), or `None` where the pattern compiles.
pub uninterp spec fn regex_compile_error(pattern: Seq<char>) -> Option<lazy_regex::regex::Error>;

/// Whether `regex::Regex::new` accepts `pattern`.
pub open spec fn regex_compiles(pattern: Seq<char>) -> bool {
    regex_compile_error(pattern) is None
}

/// Whether `regex::Regex::is_match` finds a match of the compiled `pattern`
/// anywhere in `haystack`.
pub uninterp spec fn regex_is_match(pattern: Seq<char>, haystack: Seq<char>) -> bool;

/// The `regex::Error::Syntax` value that carries `message`.
pub uninterp spec fn regex_syntax_error(message: Seq<char>) -> lazy_regex::regex::Error;

/// Builds `regex::Error::Syntax(message)`, the error whose `Display` prints
/// `message` as it stands. Trusted: the value is `regex_syntax_error` of the
/// message.
#[verifier::external_body]
pub(crate) fn syntax_error(message: String) -> (e: lazy_regex::regex::Error)
    ensures
        e == regex_syntax_error(message@),
{
    lazy_regex::regex::Error::Syntax(message)
}

/// A pattern compiled with `regex::Regex::new`, together with its source.
pub struct CompiledPattern {
    regex: lazy_regex::Regex,
    source: String,
}

impl CompiledPattern {
    /// The source text the pattern was compiled from.
    pub closed spec fn source(&self) -> Seq<char> {
        self.source@
    }

    /// Calls `regex::Regex::new(&pattern)`. Trusted: the call succeeds
    /// exactly when the pattern compiles (`regex_compiles`), its error is
    /// `regex_compile_error` of the pattern, and the compiled value keeps
    /// `pattern` as its source.
    #[verifier::external_body]
    pub fn compile(pattern: String) -> (r: Result<CompiledPattern, lazy_regex::regex::Error>)
        ensures
            r is Ok <==> regex_compiles(pattern@),
            r matches Err(e) ==> regex_compile_error(pattern@) == Some(e),
            r matches Ok(c) ==> c.source() == pattern@,
    {
        match lazy_regex::Regex::new(&pattern) {
            Ok(regex) => Ok(CompiledPattern { regex, source: pattern }),
            Err(e) => Err(e),
        }
    }

    /// Calls `regex::Regex::is_match`. Trusted: the answer is
    /// `regex_is_match` of the source and the haystack.
    #[verifier::external_body]
    pub fn is_match(&self, haystack: &str) -> (b: bool)
        ensures
            b == regex_is_match(self.source(), haystack@),
    {
        self.regex.is_match(haystack)
    }
}

} // verus!
