//! Verified core of a Kodik / Shikimori client: URL and grammar handling,
//! search-result selection, franchise ordering and request policies.

pub mod text;
pub mod shiki;
pub mod utils;
pub mod parser;
