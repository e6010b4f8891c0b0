//! User rates in the second version of the Shikimori API.

use vstd::prelude::*;

use crate::shiki::shared::UserRateStatus;
use crate::text::{decimal, usize_to_decimal};
use crate::utils::api_url;

verus! {

/// A request to create or change a user rate.
#[derive(Debug)]
pub struct ShikiApiUserRates {
    user_rate: ShikiApiUserRatesUserRate,
}

/// The user rate inside a request.
#[derive(Debug)]
pub struct ShikiApiUserRatesUserRate {
    pub episodes: usize,
    pub rewatches: usize,
    pub status: UserRateStatus,
    pub target_id: usize,
    pub target_type: UserRatesTargetType,
    pub user_id: usize,
}

/// What a user rate is about.
#[derive(Debug, Clone, Copy, PartialEq, Eq, Structural)]
pub enum UserRatesTargetType {
    Anime,
}

impl ShikiApiUserRates {
    /// A request for the given rate.
    pub fn new(
        episodes: usize,
        rewatches: usize,
        status: UserRateStatus,
        target_id: usize,
        target_type: UserRatesTargetType,
        user_id: usize,
    ) -> (r: Self)
        ensures
            r.rate().episodes == episodes,
            r.rate().rewatches == rewatches,
            r.rate().status == status,
            r.rate().target_id == target_id,
            r.rate().target_type == target_type,
            r.rate().user_id == user_id,
    {
        ShikiApiUserRates {
            user_rate: ShikiApiUserRatesUserRate::new(
                episodes,
                rewatches,
                status,
                target_id,
                target_type,
                user_id,
            ),
        }
    }

    /// The rate the request carries.
    pub closed spec fn rate(&self) -> ShikiApiUserRatesUserRate {
        self.user_rate
    }

    /// The rate the request carries.
    pub fn user_rate(&self) -> (r: &ShikiApiUserRatesUserRate)
        ensures
            *r == self.rate(),
    {
        &self.user_rate
    }
}

impl ShikiApiUserRatesUserRate {
    fn new(
        episodes: usize,
        rewatches: usize,
        status: UserRateStatus,
        target_id: usize,
        target_type: UserRatesTargetType,
        user_id: usize,
    ) -> (r: Self)
        ensures
            r.episodes == episodes,
            r.rewatches == rewatches,
            r.status == status,
            r.target_id == target_id,
            r.target_type == target_type,
            r.user_id == user_id,
    {
        ShikiApiUserRatesUserRate { episodes, rewatches, status, target_id, target_type, user_id }
    }
}

/// The endpoint that creates user rates.
pub fn user_rates_url(host: &str) -> (url: String)
    ensures
        url@ == "https://"@ + host@ + "/api/v2/user_rates"@,
{
    api_url(host, "/api/v2/user_rates")
}

/// The endpoint of the user rate `user_rate_id`.
pub fn user_rate_url(host: &str, user_rate_id: usize) -> (url: String)
    ensures
        url@ == "https://"@ + host@ + "/api/v2/user_rates/"@ + decimal(user_rate_id as nat),
{
    let mut path = String::from_str("/api/v2/user_rates/");
    let id = usize_to_decimal(user_rate_id);
    path.append(id.as_str());
    api_url(host, path.as_str())
}

} // verus!
