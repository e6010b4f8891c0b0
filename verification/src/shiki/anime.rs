//! The anime endpoint of the Shikimori API.

use vstd::prelude::*;

use crate::utils::api_url;

verus! {

/// The anime endpoint of `domain` for the anime `id`:
/// `https://{domain}/api/animes/{id}`.
pub fn anime_api_url(domain: &str, id: &str) -> (url: String)
    ensures
        url@ == "https://"@ + domain@ + "/api/animes/"@ + id@,
{
    let mut path = String::from_str("/api/animes/");
    path.append(id);
    api_url(domain, path.as_str())
}

} // verus!
