//! Anime ids in Shikimori URLs.

use vstd::prelude::*;

use crate::utils::error::UtilsError;
use crate::utils::re::{anime_id_at, extract_anime_id, first_anime_id};

verus! {

/// Extracts the anime id of a Shikimori URL: the group of the first match
/// of `/animes?/(?:[a-z])?([0-9]+)(?:-|$|/)`.
pub fn extract_id(url: &str) -> (r: Result<&str, UtilsError>)
    ensures
        match r {
            Ok(id) => exists|s: int, d: int, e: int|
                first_anime_id(url@, s, d, e) && id@ == url@.subrange(d, e),
            Err(err) => (forall|s: int, d: int, e: int| !anime_id_at(url@, s, d, e)) && err
                == UtilsError::RegexMatch(err->RegexMatch_0) && err->RegexMatch_0@ == "id not found in '"@
                + url@ + "'"@,
        },
{
    extract_anime_id(url)
}

} // verus!
