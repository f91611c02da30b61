//! What metadata providers say of media.

use vstd::prelude::*;

verus! {

/// A calendar date.
#[derive(Clone, Copy, Debug, PartialEq, Eq, Structural)]
pub struct ReleaseDate {
    pub year: i32,
    pub month: u32,
    pub day: u32,
}

/// A movie or a show.
#[derive(Debug)]
pub struct ExternalMedia {
    pub external_id: String,
    pub title: String,
    pub original_title: Option<String>,
    pub description: Option<String>,
    pub release_date: Option<ReleaseDate>,
    /// Addresses of posters.
    pub posters: Vec<String>,
    /// Addresses of backdrops.
    pub backdrops: Vec<String>,
    pub genres: Vec<String>,
    /// The rating, a double by its bit pattern.
    pub rating: Option<u64>,
    /// In seconds.
    pub duration: Option<u64>,
    pub imdb_id: Option<String>,
}

/// A season of a show.
#[derive(Debug)]
pub struct ExternalSeason {
    pub external_id: String,
    pub title: Option<String>,
    pub description: Option<String>,
    /// Addresses of posters.
    pub posters: Vec<String>,
    pub season_number: u64,
}

/// An episode of a season.
#[derive(Debug)]
pub struct ExternalEpisode {
    pub external_id: String,
    pub title: Option<String>,
    pub description: Option<String>,
    pub episode_number: u64,
    /// Addresses of stills.
    pub stills: Vec<String>,
    /// In seconds.
    pub duration: Option<u64>,
}

/// A member of a cast.
#[derive(Debug)]
pub struct ExternalActor {
    pub external_id: String,
    pub name: String,
    /// Address of a picture.
    pub profile_path: Option<String>,
    pub character: String,
}

}
