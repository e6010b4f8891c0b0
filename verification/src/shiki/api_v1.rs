//! Records of the first version of the Shikimori API.

use vstd::prelude::*;

use crate::shiki::shared::{AnimeKind, AnimeStatus, UserRate};
use crate::utils::api_url;

verus! {

/// An anime as the anime endpoint describes it.
#[derive(Debug)]
pub struct ShikiApiAnimes {
    pub id: usize,
    pub name: String,
    pub kind: AnimeKind,
    pub status: AnimeStatus,
    pub episodes: usize,
    pub episodes_aired: usize,
    pub franchise: Option<String>,
    pub user_rate: Option<UserRate>,
}

impl ShikiApiAnimes {
    /// The number of episodes the user has watched, when the user rated
    /// the anime.
    pub fn user_rate_episodes(&self) -> (r: Option<usize>)
        ensures
            r == (match self.user_rate {
                Some(ur) => Some(ur.episodes),
                None => None,
            }),
    {
        match &self.user_rate {
            Some(ur) => Some(ur.episodes),
            None => None,
        }
    }
}

/// The signed-in user, if any.
#[derive(Debug)]
pub struct ShikiApiUsersWhoami {
    pub id: Option<usize>,
}

/// The endpoint that tells who is signed in.
pub fn whoami_url(host: &str) -> (url: String)
    ensures
        url@ == "https://"@ + host@ + "/api/users/whoami"@,
{
    api_url(host, "/api/users/whoami")
}

} // verus!
