//! What TVmaze answers.

use vstd::prelude::*;

use crate::external::{ExternalActor, ExternalEpisode, ExternalMedia, ExternalSeason};
use crate::filename::opt;
use crate::providers::dates::{parse_release_date, premiere};
use crate::providers::markup::{query_value, strip_html, untagged, urlencoding_encode};
use crate::providers::ranking::{
    add_episode, add_season, episode_added, episode_numbers, in_number_order,
    law_added_episodes_are_in_order, law_added_episodes_are_there, law_added_seasons_are_in_order,
    law_added_seasons_are_there, prefer_year, preferred, season_added, season_numbers,
};
use crate::scanner::records::copy_text;
use crate::text::{cat, cat3, dec, dec_u64, same};

verus! {

/// A show of TVmaze.
#[derive(Debug)]
pub struct TvMazeShow {
    pub id: u64,
    pub name: String,
    pub premiered: Option<String>,
    pub summary: Option<String>,
    pub genres: Vec<String>,
    /// The average rating on the scale of the library, a double by its bit pattern.
    pub rating: Option<u64>,
    pub image: Option<TvMazeImage>,
    /// In minutes.
    pub average_runtime: Option<u64>,
    pub imdb: Option<String>,
}

/// A picture.
#[derive(Debug)]
pub struct TvMazeImage {
    pub original: Option<String>,
    pub medium: Option<String>,
}

/// A season of TVmaze.
#[derive(Debug)]
pub struct TvMazeSeason {
    pub id: u64,
    pub number: i64,
    pub image: Option<TvMazeImage>,
}

/// An episode of TVmaze.
#[derive(Debug)]
pub struct TvMazeEpisode {
    pub id: u64,
    pub name: Option<String>,
    pub season: i64,
    pub number: Option<i64>,
    pub summary: Option<String>,
    pub image: Option<TvMazeImage>,
    /// In minutes.
    pub runtime: Option<u64>,
}

/// A member of a cast.
#[derive(Debug)]
pub struct TvMazeCastEntry {
    pub person_id: u64,
    pub person_name: String,
    pub image: Option<TvMazeImage>,
    pub character: String,
}

/// The id of something of TVmaze.
pub open spec fn tvmaze_id(id: u64) -> Seq<char> {
    "tvmaze:"@ + dec(id as nat)
}

/// The best picture.
pub open spec fn best_image(image: Option<TvMazeImage>) -> Option<String> {
    match image {
        Some(i) => match i.original {
            Some(s) => Some(s),
            None => i.medium,
        },
        None => None,
    }
}

/// A list of at most one.
pub open spec fn listed(s: Option<String>) -> Seq<String> {
    match s {
        Some(s) => seq![s],
        None => Seq::empty(),
    }
}

/// Minutes that can be counted in seconds.
pub open spec fn countable(minutes: Option<u64>) -> bool {
    match minutes {
        Some(m) => m * 60 <= u64::MAX,
        None => true,
    }
}

/// Minutes in seconds.
pub open spec fn in_seconds(minutes: Option<u64>) -> Option<u64> {
    match minutes {
        Some(m) => Some((m * 60) as u64),
        None => None,
    }
}

/// A text without its tags.
pub open spec fn plain(s: Option<String>) -> Option<Seq<char>> {
    match s {
        Some(s) => Some(untagged(s@)),
        None => None,
    }
}

/// `m` is what a show of TVmaze is.
pub open spec fn is_show(m: ExternalMedia, s: TvMazeShow) -> bool {
    &&& m.external_id@ == tvmaze_id(s.id)
    &&& m.title == s.name
    &&& m.original_title is None
    &&& opt(m.description) == plain(s.summary)
    &&& m.release_date == premiere(s.premiered)
    &&& m.posters@ == listed(best_image(s.image))
    &&& m.backdrops@.len() == 0
    &&& m.genres == s.genres
    &&& m.rating == s.rating
    &&& m.duration == in_seconds(s.average_runtime)
    &&& m.imdb_id == s.imdb
}

impl TvMazeImage {
    /// The best picture.
    pub fn best(&self) -> (r: Option<String>)
        ensures
            r == best_image(Some(*self)),
    {
        match &self.original {
            Some(s) => Some(s.clone()),
            None => copy_text(&self.medium),
        }
    }
}

/// Lists the best picture.
fn list_image(image: &Option<TvMazeImage>) -> (r: Vec<String>)
    ensures
        r@ == listed(best_image(*image)),
{
    let mut r: Vec<String> = Vec::new();
    if let Some(i) = image {
        if let Some(s) = i.best() {
            r.push(s);
        }
    }
    assert(r@ =~= listed(best_image(*image)));
    r
}

/// Leaves the tags of a text out.
pub fn plain_text(s: &Option<String>) -> (r: Option<String>)
    ensures
        opt(r) == plain(*s),
{
    match s {
        Some(s) => Some(strip_html(s.as_str())),
        None => None,
    }
}

/// Counts minutes in seconds.
pub fn seconds(minutes: Option<u64>) -> (r: Option<u64>)
    requires
        countable(minutes),
    ensures
        r == in_seconds(minutes),
{
    match minutes {
        Some(m) => Some(m * 60),
        None => None,
    }
}

/// Writes the id of something of TVmaze.
fn write_id(id: u64) -> (r: String)
    ensures
        r@ == tvmaze_id(id),
{
    let n = dec_u64(id);
    cat("tvmaze:", n.as_str())
}

impl TvMazeShow {
    /// What the show is.
    pub fn into_media(self) -> (r: ExternalMedia)
        requires
            countable(self.average_runtime),
        ensures
            is_show(r, self),
    {
        ExternalMedia {
            external_id: write_id(self.id),
            title: self.name,
            original_title: None,
            description: plain_text(&self.summary),
            release_date: parse_release_date(&self.premiered),
            posters: list_image(&self.image),
            backdrops: Vec::new(),
            genres: self.genres,
            rating: self.rating,
            duration: seconds(self.average_runtime),
            imdb_id: self.imdb,
        }
    }
}

/// `media` are what shows of TVmaze are.
pub open spec fn are_shows(media: Seq<ExternalMedia>, shows: Seq<TvMazeShow>) -> bool {
    &&& media.len() == shows.len()
    &&& forall|i: int| 0 <= i < media.len() ==> is_show(#[trigger] media[i], shows[i])
}

/// Gives the results of a search: those of the year, or all where there are none.
pub fn search_results(shows: Vec<TvMazeShow>, year: Option<i32>) -> (r: Vec<ExternalMedia>)
    requires
        forall|i: int| 0 <= i < shows@.len() ==> countable((#[trigger] shows@[i]).average_runtime),
    ensures
        exists|media: Seq<ExternalMedia>|
            are_shows(media, shows@) && r@ == #[trigger] preferred(media, year),
{
    let mut rest = shows;
    let ghost all = rest@;
    let mut media: Vec<ExternalMedia> = Vec::new();
    assert(all.skip(0) =~= all);
    while rest.len() > 0
        invariant
            media@.len() <= all.len(),
            rest@ == all.skip(media@.len() as int),
            forall|i: int| 0 <= i < all.len() ==> countable((#[trigger] all[i]).average_runtime),
            forall|i: int| 0 <= i < media@.len() ==> is_show(#[trigger] media@[i], all[i]),
        decreases rest@.len(),
    {
        let ghost k = media@.len() as int;
        let s = rest.remove(0);
        assert(s == all[k]);
        assert(rest@ =~= all.skip(k + 1));
        media.push(s.into_media());
    }
    assert(are_shows(media@, all));
    prefer_year(media, year)
}

/// The text that an id has after its scheme, where that is this provider's; the whole id else.
pub open spec fn raw_of(provider: Seq<char>, id: Seq<char>, scheme: Option<String>, rest: Seq<char>) -> Seq<
    char,
> {
    match scheme {
        Some(s) => if s@ == provider {
            rest
        } else {
            id
        },
        None => id,
    }
}

/// Gets what an id is to a provider.
pub fn raw_id(provider: &str, external_id: &str, scheme: &Option<String>, rest: &str) -> (r: String)
    ensures
        r@ == raw_of(provider@, external_id@, *scheme, rest@),
{
    if let Some(s) = scheme {
        if same(s.as_str(), provider) {
            return rest.to_string();
        }
    }
    external_id.to_string()
}

/// The path of a search.
pub fn search_path(title: &str) -> (r: String)
    ensures
        r@ == "/search/shows?q="@ + query_value(title@),
{
    let q = urlencoding_encode(title);
    cat("/search/shows?q=", q.as_str())
}

/// The path of something of a show; empty for the show itself.
pub fn show_path(id: &str, part: &str) -> (r: String)
    ensures
        r@ == "/shows/"@ + id@ + part@,
{
    cat3("/shows/", id, part)
}

/// `a` is what a member of a cast is.
pub open spec fn is_actor(a: ExternalActor, c: TvMazeCastEntry) -> bool {
    &&& a.external_id@ == tvmaze_id(c.person_id)
    &&& a.name == c.person_name
    &&& a.profile_path == best_image(c.image)
    &&& a.character == c.character
}

/// Gives the members of a cast.
pub fn cast(entries: Vec<TvMazeCastEntry>) -> (r: Vec<ExternalActor>)
    ensures
        r@.len() == entries@.len(),
        forall|i: int| 0 <= i < r@.len() ==> is_actor(#[trigger] r@[i], entries@[i]),
{
    let mut rest = entries;
    let ghost all = rest@;
    let mut r: Vec<ExternalActor> = Vec::new();
    assert(all.skip(0) =~= all);
    while rest.len() > 0
        invariant
            r@.len() <= all.len(),
            rest@ == all.skip(r@.len() as int),
            forall|i: int| 0 <= i < r@.len() ==> is_actor(#[trigger] r@[i], all[i]),
        decreases rest@.len(),
    {
        let ghost k = r@.len() as int;
        let c = rest.remove(0);
        assert(c == all[k]);
        assert(rest@ =~= all.skip(k + 1));
        let profile_path = match &c.image {
            Some(i) => i.best(),
            None => None,
        };
        r.push(
            ExternalActor {
                external_id: write_id(c.person_id),
                name: c.person_name,
                profile_path,
                character: c.character,
            },
        );
    }
    r
}

/// `e` is what a season of TVmaze is.
pub open spec fn is_season(e: ExternalSeason, s: TvMazeSeason) -> bool {
    &&& e.external_id@ == tvmaze_id(s.id)
    &&& e.title is None
    &&& e.description is None
    &&& e.posters@ == listed(best_image(s.image))
    &&& e.season_number == s.number
}

/// `r` are the seasons with numbers that are not negative, in the order of their numbers.
pub open spec fn are_seasons(r: Seq<ExternalSeason>, seasons: Seq<TvMazeSeason>) -> bool
    decreases seasons.len(),
{
    if seasons.len() == 0 {
        r.len() == 0
    } else if seasons.last().number < 0 {
        are_seasons(r, seasons.drop_last())
    } else {
        exists|front: Seq<ExternalSeason>, e: ExternalSeason|
            are_seasons(front, seasons.drop_last()) && is_season(e, seasons.last()) && r
                == #[trigger] season_added(front, e)
    }
}

/// Gives the seasons of a show.
pub fn seasons_for_id(seasons: &Vec<TvMazeSeason>) -> (r: Vec<ExternalSeason>)
    ensures
        are_seasons(r@, seasons@),
{
    let mut r: Vec<ExternalSeason> = Vec::new();
    let mut i: usize = 0;
    while i < seasons.len()
        invariant
            0 <= i <= seasons@.len(),
            are_seasons(r@, seasons@.take(i as int)),
        decreases seasons@.len() - i,
    {
        let s = &seasons[i];
        let ghost front = r@;
        proof {
            let next = seasons@.take(i + 1);
            assert(next.drop_last() =~= seasons@.take(i as int));
            assert(next.last() == *s);
        }
        if s.number >= 0 {
            let e = ExternalSeason {
                external_id: write_id(s.id),
                title: None,
                description: None,
                posters: list_image(&s.image),
                season_number: s.number as u64,
            };
            add_season(&mut r, e);
            assert(is_season(e, *s));
            assert(r@ == season_added(front, e));
        }
        i = i + 1;
    }
    assert(seasons@.take(i as int) =~= seasons@);
    r
}

/// `x` is what an episode of TVmaze with a number is.
pub open spec fn is_episode(x: ExternalEpisode, e: TvMazeEpisode) -> bool {
    &&& x.external_id@ == tvmaze_id(e.id)
    &&& x.title == e.name
    &&& opt(x.description) == plain(e.summary)
    &&& e.number is Some
    &&& x.episode_number == e.number->0 as u64
    &&& x.stills@ == listed(best_image(e.image))
    &&& x.duration == in_seconds(e.runtime)
}

/// `r` are the episodes of a season that have numbers, in the order of their numbers.
pub open spec fn are_episodes(r: Seq<ExternalEpisode>, episodes: Seq<TvMazeEpisode>, season: u64) -> bool
    decreases episodes.len(),
{
    if episodes.len() == 0 {
        r.len() == 0
    } else if episodes.last().season as u64 != season || episodes.last().number is None {
        are_episodes(r, episodes.drop_last(), season)
    } else {
        exists|front: Seq<ExternalEpisode>, x: ExternalEpisode|
            are_episodes(front, episodes.drop_last(), season) && is_episode(x, episodes.last()) && r
                == #[trigger] episode_added(front, x)
    }
}

/// A number without its sign bit's meaning.
#[verifier::truncate]
fn unsigned(n: i64) -> (r: u64)
    ensures
        r == n as u64,
{
    n as u64
}

/// Gives the episodes of a season.
pub fn episodes_for_season(episodes: &Vec<TvMazeEpisode>, season_number: u64) -> (r: Vec<ExternalEpisode>)
    requires
        forall|i: int| 0 <= i < episodes@.len() ==> countable((#[trigger] episodes@[i]).runtime),
    ensures
        are_episodes(r@, episodes@, season_number),
{
    let mut r: Vec<ExternalEpisode> = Vec::new();
    let mut i: usize = 0;
    while i < episodes.len()
        invariant
            0 <= i <= episodes@.len(),
            forall|i: int|
                0 <= i < episodes@.len() ==> countable((#[trigger] episodes@[i]).runtime),
            are_episodes(r@, episodes@.take(i as int), season_number),
        decreases episodes@.len() - i,
    {
        let e = &episodes[i];
        let ghost front = r@;
        proof {
            let next = episodes@.take(i + 1);
            assert(next.drop_last() =~= episodes@.take(i as int));
            assert(next.last() == *e);
        }
        if unsigned(e.season) == season_number {
            if let Some(n) = e.number {
                let x = ExternalEpisode {
                    external_id: write_id(e.id),
                    title: copy_text(&e.name),
                    description: plain_text(&e.summary),
                    episode_number: unsigned(n),
                    stills: list_image(&e.image),
                    duration: seconds(e.runtime),
                };
                add_episode(&mut r, x);
                assert(is_episode(x, *e));
                assert(r@ == episode_added(front, x));
            }
        }
        i = i + 1;
    }
    assert(episodes@.take(i as int) =~= episodes@);
    r
}

/// A show keeps its name, its genres, its rating and its IMDb id; its picture is the original one where there is
/// one; and its running time is counted in seconds.
pub proof fn law_shows_keep_what_is_known(m: ExternalMedia, s: TvMazeShow)
    requires
        is_show(m, s),
        countable(s.average_runtime),
    ensures
        m.external_id@ == "tvmaze:"@ + dec(s.id as nat),
        m.title@ == s.name@,
        m.genres@ == s.genres@,
        m.rating == s.rating,
        m.imdb_id == s.imdb,
        s.average_runtime matches Some(minutes) ==> m.duration is Some && m.duration->0 == 60 * minutes,
        s.average_runtime is None ==> m.duration is None,
        s.image matches Some(image) ==> (image.original matches Some(o) ==> m.posters@ == seq![o]) && (
        image.original is None && image.medium is Some ==> m.posters@ == seq![image.medium->0]),
        s.image is None ==> m.posters@.len() == 0,
        s.summary is None ==> m.description is None,
        s.premiered is None ==> m.release_date is None,
{
}

/// Every season whose number is not negative is given, and no other, in the order of their numbers.
pub proof fn law_seasons_are_given(r: Seq<ExternalSeason>, seasons: Seq<TvMazeSeason>, i: int)
    requires
        are_seasons(r, seasons),
    ensures
        in_number_order(season_numbers(r)),
        0 <= i < seasons.len() && seasons[i].number >= 0 ==> exists|k: int|
            0 <= k < r.len() && (#[trigger] r[k]).season_number == seasons[i].number && r[k].external_id@
                == "tvmaze:"@ + dec(seasons[i].id as nat),
        r.len() <= seasons.len(),
    decreases seasons.len(),
{
    if seasons.len() > 0 {
        let fewer = seasons.drop_last();
        if seasons.last().number < 0 {
            law_seasons_are_given(r, fewer, i);
            if 0 <= i < fewer.len() {
                assert(fewer[i] == seasons[i]);
            }
        } else {
            let (front, e) = choose|front: Seq<ExternalSeason>, e: ExternalSeason|
                are_seasons(front, fewer) && is_season(e, seasons.last()) && r
                    == #[trigger] season_added(front, e);
            law_seasons_are_given(front, fewer, i);
            law_added_seasons_are_in_order(front, e);
            law_added_seasons_are_there(front, e);
            r.to_multiset_ensures();
            front.to_multiset_ensures();
            assert(r.len() == front.len() + 1);
            if i == seasons.len() - 1 {
                assert(r.to_multiset().count(e) > 0);
                assert(r.contains(e));
                let k = choose|k: int| 0 <= k < r.len() && r[k] == e;
                assert(r[k].season_number == seasons[i].number);
            } else if 0 <= i < fewer.len() && seasons[i].number >= 0 {
                assert(fewer[i] == seasons[i]);
                let j = choose|j: int|
                    0 <= j < front.len() && (#[trigger] front[j]).season_number == fewer[i].number
                        && front[j].external_id@ == "tvmaze:"@ + dec(fewer[i].id as nat);
                assert(front.contains(front[j]));
                assert(front.to_multiset().count(front[j]) > 0);
                assert(r.to_multiset().count(front[j]) > 0);
                assert(r.contains(front[j]));
                let k = choose|k: int| 0 <= k < r.len() && r[k] == front[j];
                assert(r[k].season_number == seasons[i].number);
            }
        }
    } else {
        assert(season_numbers(r).len() == 0);
    }
}

/// Every episode of the season that has a number is given, with its title, in the order of their numbers.
pub proof fn law_episodes_of_the_season_are_given(
    r: Seq<ExternalEpisode>,
    episodes: Seq<TvMazeEpisode>,
    season: u64,
    i: int,
)
    requires
        are_episodes(r, episodes, season),
    ensures
        in_number_order(episode_numbers(r)),
        0 <= i < episodes.len() && episodes[i].season >= 0 && episodes[i].season == season
            && episodes[i].number is Some ==> exists|k: int|
            0 <= k < r.len() && (#[trigger] r[k]).external_id@ == "tvmaze:"@ + dec(episodes[i].id as nat)
                && r[k].title == episodes[i].name && r[k].episode_number == episodes[i].number->0 as u64,
        r.len() <= episodes.len(),
    decreases episodes.len(),
{
    if episodes.len() > 0 {
        let fewer = episodes.drop_last();
        let last = episodes.last();
        if last.season as u64 != season || last.number is None {
            law_episodes_of_the_season_are_given(r, fewer, season, i);
            if 0 <= i < fewer.len() {
                assert(fewer[i] == episodes[i]);
            }
        } else {
            let (front, e) = choose|front: Seq<ExternalEpisode>, e: ExternalEpisode|
                are_episodes(front, fewer, season) && is_episode(e, last) && r
                    == #[trigger] episode_added(front, e);
            law_episodes_of_the_season_are_given(front, fewer, season, i);
            law_added_episodes_are_in_order(front, e);
            law_added_episodes_are_there(front, e);
            r.to_multiset_ensures();
            front.to_multiset_ensures();
            assert(r.len() == front.len() + 1);
            if i == episodes.len() - 1 {
                assert(r.to_multiset().count(e) > 0);
                assert(r.contains(e));
                let k = choose|k: int| 0 <= k < r.len() && r[k] == e;
                assert(r[k].title == episodes[i].name);
            } else if 0 <= i < fewer.len() && episodes[i].season >= 0 && episodes[i].season == season
                && episodes[i].number is Some {
                assert(fewer[i] == episodes[i]);
                let j = choose|j: int|
                    0 <= j < front.len() && (#[trigger] front[j]).external_id@ == "tvmaze:"@ + dec(
                        fewer[i].id as nat,
                    ) && front[j].title == fewer[i].name && front[j].episode_number
                        == fewer[i].number->0 as u64;
                assert(front.contains(front[j]));
                assert(front.to_multiset().count(front[j]) > 0);
                assert(r.to_multiset().count(front[j]) > 0);
                assert(r.contains(front[j]));
                let k = choose|k: int| 0 <= k < r.len() && r[k] == front[j];
                assert(r[k].title == episodes[i].name);
            }
        }
    } else {
        assert(episode_numbers(r).len() == 0);
    }
}

/// An id of the provider's own is asked for without its scheme, any other as it is.
pub proof fn law_ids_are_asked_for_without_their_scheme(
    provider: Seq<char>,
    id: Seq<char>,
    scheme: String,
    rest: Seq<char>,
)
    ensures
        raw_of(provider, id, None, rest) == id,
        scheme@ == provider ==> raw_of(provider, id, Some(scheme), rest) == rest,
        scheme@ != provider ==> raw_of(provider, id, Some(scheme), rest) == id,
{
}

}
