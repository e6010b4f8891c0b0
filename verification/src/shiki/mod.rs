//! Shikimori: anime records, user rates and franchise ordering.

pub mod anime;
pub mod api_v1;
pub mod api_v2;
pub mod graphql;
pub mod parser;
pub mod shared;
