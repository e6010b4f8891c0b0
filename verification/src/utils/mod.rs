//! Shared pieces: errors, URL helpers, grammars and request policies.

pub mod agents;
pub mod client;
pub mod cookies;
pub mod error;
pub mod pattern;
pub mod re;

use vstd::prelude::*;

verus! {

/// Builds an HTTPS URL from a host and a path (the path starts with `/`).
pub fn api_url(host: &str, path: &str) -> (url: String)
    ensures
        url@ == "https://"@ + host@ + path@,
{
    let mut url = String::from_str("https://");
    url.append(host);
    url.append(path);
    url
}

} // verus!
