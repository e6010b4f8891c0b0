//! Records shared by the Shikimori endpoints.

use vstd::prelude::*;

verus! {

/// The format of an anime title.
#[derive(Debug, Clone, Copy, PartialEq, Eq, Structural)]
pub enum AnimeKind {
    Tv,
    Movie,
    Ova,
    Ona,
    Special,
    TvSpecial,
    Music,
    Pv,
    Cm,
}

/// The airing state of an anime title.
#[derive(Debug, Clone, Copy, PartialEq, Eq, Structural)]
pub enum AnimeStatus {
    Anons,
    Ongoing,
    Released,
}

/// Where a title stands in a user's list.
#[derive(Debug, Clone, Copy, PartialEq, Eq, Structural)]
pub enum UserRateStatus {
    Planned,
    Watching,
    Rewatching,
    Completed,
    OnHold,
    Dropped,
}

/// A user's progress on one title.
#[derive(Debug, Clone, Copy, PartialEq, Eq, Structural)]
pub struct UserRate {
    pub id: usize,
    pub episodes: usize,
    pub rewatches: usize,
    pub status: UserRateStatus,
}

} // verus!
