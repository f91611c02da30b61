//! Metadata providers: which ones a library asks, and what their answers mean.

pub mod anilist;
pub mod chain;
pub mod dates;
pub mod markup;
pub mod ranking;
pub mod tvmaze;
