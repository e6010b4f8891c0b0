//! Errors of the shared helpers.

use vstd::prelude::*;

verus! {

/// `http::header::InvalidHeaderValue`, through `reqwest::header`: a text
/// that cannot stand as a header value.
#[verifier::external_type_specification]
#[verifier::external_body]
pub struct ExInvalidHeaderValue(reqwest::header::InvalidHeaderValue);

/// Errors from the shared helpers.
#[derive(Debug)]
#[non_exhaustive]
pub enum UtilsError {
    /// A pattern did not compile.
    Regex(lazy_regex::regex::Error),
    /// A text did not hold what was looked for.
    RegexMatch(String),
    /// Something was not found.
    NotFound(String),
    /// A text cannot stand as a header value.
    InvalidHeaderValue(reqwest::header::InvalidHeaderValue),
}

} // verus!
