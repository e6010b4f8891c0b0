//! Errors of the Kodik search.

use vstd::prelude::*;

use crate::utils::error::UtilsError;

verus! {

/// Errors of the Kodik search.
#[derive(Debug)]
#[non_exhaustive]
pub enum ParserError {
    /// An error of the shared helpers.
    KodikUtils(UtilsError),
    /// A link could not be decoded.
    LinkCannotBeDecoded(String),
    /// A translation type other than `voice` or `subtitles`.
    InvalidTranslationType(String),
}

impl From<UtilsError> for ParserError {
    fn from(e: UtilsError) -> (r: Self) {
        ParserError::KodikUtils(e)
    }
}

impl vstd::std_specs::convert::FromSpecImpl<UtilsError> for ParserError {
    open spec fn obeys_from_spec() -> bool {
        true
    }

    open spec fn from_spec(e: UtilsError) -> Self {
        ParserError::KodikUtils(e)
    }
}

impl From<lazy_regex::regex::Error> for ParserError {
    fn from(e: lazy_regex::regex::Error) -> (r: Self) {
        ParserError::KodikUtils(UtilsError::Regex(e))
    }
}

impl vstd::std_specs::convert::FromSpecImpl<lazy_regex::regex::Error> for ParserError {
    open spec fn obeys_from_spec() -> bool {
        true
    }

    open spec fn from_spec(e: lazy_regex::regex::Error) -> Self {
        ParserError::KodikUtils(UtilsError::Regex(e))
    }
}

} // verus!
