//! Kodik: the search API's records and the choice of a video source.

pub mod api;
pub mod error;
