//! Recording that a file is an episode of a show.

use vstd::prelude::*;

use crate::external::{ExternalEpisode, ExternalMedia, ExternalSeason};
use crate::scanner::assets::{are_assets_for, assets_from_urls, Asset, NewAsset};
use crate::scanner::movie::{imdb_task, imdb_tasks, lemma_ops_are_of};
use crate::scanner::records::{
    advance, advance_one, answers, assets_in, copy_stored, copy_text, first_id, genres_from, id_of_first,
    lemma_genres_past, lemma_past, lemma_past_prefix, one, progress, rebuild, rebuild_genres,
    store_tasks, stored_assets, stores, MediaFile, MediaType, NewMedia, Progress, RecordOp,
    RecordReply, RecordStep, Task,
};
use crate::text::same;

verus! {

/// Why an episode could not be recorded.
#[derive(Clone, Copy, Debug, PartialEq, Eq, Structural)]
pub enum ShowError {
    /// Failed to insert a poster.
    PosterInsert,
    /// Failed to insert a backdrop.
    BackdropInsert,
    /// Failed to decouple genres from the show.
    GenreDecouple,
    /// Failed to create or get a genre.
    GetOrInsertGenre,
    /// Failed to attach a genre to the show.
    CoupleGenre,
    /// Failed to point the file at its new parent.
    UpdateMediafile,
    /// Failed to count the children of an old parent.
    ChildrenCount,
    /// Failed to clean up a parent without children.
    ChildCleanup,
    /// Failed to insert or get the show.
    GetOrInsertMedia,
    /// Failed to insert or get the season.
    GetOrInsertSeason,
    /// Failed to insert the media item of the episode.
    GetOrInsertMediaEpisode,
    /// Failed to insert the episode.
    GetOrInsertEpisode,
    /// Failed to get the season of the old episode.
    GetSeasonId,
    /// Failed to get the show of the old season.
    GetTvId,
    /// The season was not found.
    SeasonNotFound,
    /// The episode was not found.
    EpisodeNotFound,
}

/// The shows and seasons that have been recorded in a batch of files: each needs to be ensured once, not
/// once per episode.
#[derive(Debug)]
pub struct TvMatchCache {
    /// Shows by the provider's ids.
    pub shows: Vec<(String, i64)>,
    /// Seasons by their shows and numbers.
    pub seasons: Vec<(i64, u64, i64)>,
}

/// What a list of shows says; what came later counts.
pub open spec fn show_map(shows: Seq<(String, i64)>) -> Map<Seq<char>, i64>
    decreases shows.len(),
{
    if shows.len() == 0 {
        Map::empty()
    } else {
        show_map(shows.drop_last()).insert(shows.last().0@, shows.last().1)
    }
}

/// What a list of seasons says; what came later counts.
pub open spec fn season_map(seasons: Seq<(i64, u64, i64)>) -> Map<(i64, u64), i64>
    decreases seasons.len(),
{
    if seasons.len() == 0 {
        Map::empty()
    } else {
        season_map(seasons.drop_last()).insert(
            (seasons.last().0, seasons.last().1),
            seasons.last().2,
        )
    }
}

/// The value at a key.
pub open spec fn at<K>(m: Map<K, i64>, k: K) -> Option<i64> {
    if m.contains_key(k) {
        Some(m[k])
    } else {
        None
    }
}

impl TvMatchCache {
    /// The shows by the provider's ids.
    pub open spec fn known_shows(self) -> Map<Seq<char>, i64> {
        show_map(self.shows@)
    }

    /// The seasons by their shows and numbers.
    pub open spec fn known_seasons(self) -> Map<(i64, u64), i64> {
        season_map(self.seasons@)
    }

    /// A cache that knows nothing.
    pub fn new() -> (r: Self)
        ensures
            r.known_shows() == Map::<Seq<char>, i64>::empty(),
            r.known_seasons() == Map::<(i64, u64), i64>::empty(),
    {
        TvMatchCache { shows: Vec::new(), seasons: Vec::new() }
    }

    /// Looks a show up.
    pub fn show(&self, external_id: &str) -> (r: Option<i64>)
        ensures
            r == at(self.known_shows(), external_id@),
    {
        let mut i: usize = self.shows.len();
        assert(self.shows@.take(i as int) =~= self.shows@);
        while i > 0
            invariant
                0 <= i <= self.shows@.len(),
                at(self.known_shows(), external_id@) == at(
                    show_map(self.shows@.take(i as int)),
                    external_id@,
                ),
            decreases i,
        {
            proof {
                let part = self.shows@.take(i as int);
                assert(part.drop_last() =~= self.shows@.take(i - 1));
                assert(part.last() == self.shows@[i - 1]);
            }
            i = i - 1;
            if same(self.shows[i].0.as_str(), external_id) {
                return Some(self.shows[i].1);
            }
        }
        None
    }

    /// Looks a season up.
    pub fn season(&self, show: i64, number: u64) -> (r: Option<i64>)
        ensures
            r == at(self.known_seasons(), (show, number)),
    {
        let mut i: usize = self.seasons.len();
        assert(self.seasons@.take(i as int) =~= self.seasons@);
        while i > 0
            invariant
                0 <= i <= self.seasons@.len(),
                at(self.known_seasons(), (show, number)) == at(
                    season_map(self.seasons@.take(i as int)),
                    (show, number),
                ),
            decreases i,
        {
            proof {
                let part = self.seasons@.take(i as int);
                assert(part.drop_last() =~= self.seasons@.take(i - 1));
                assert(part.last() == self.seasons@[i - 1]);
            }
            i = i - 1;
            let (s, n, id): (i64, u64, i64) = self.seasons[i];
            if s == show && n == number {
                return Some(id);
            }
        }
        None
    }
}

/// A file, the episode that it is, and the artwork.
#[derive(Debug)]
pub struct ShowRecord {
    pub file: MediaFile,
    pub show: ExternalMedia,
    pub season: ExternalSeason,
    pub episode: ExternalEpisode,
    /// The title of the episode, or what stands for it.
    pub episode_name: String,
    pub posters: Vec<NewAsset>,
    pub backdrops: Vec<NewAsset>,
    pub season_posters: Vec<NewAsset>,
    pub stills: Vec<NewAsset>,
    /// The match was made by hand: artwork and genres of the show are replaced.
    pub force_refresh: bool,
}

/// How far a part of a recording has come: it gives an id, after so many replies.
#[derive(Debug)]
pub enum Part {
    Do(RecordOp),
    Failed(ShowError),
    Got(i64, usize),
}

/// The tasks that download assets.
pub open spec fn downloads(assets: Seq<Asset>) -> Seq<Task<ShowError>> {
    Seq::new(assets.len(), |i: int| Task { op: RecordOp::Enqueue(assets[i]), failure: None })
}

/// How far storing and downloading a list of assets has come. Afterwards the assets are in the replies
/// from `c` on.
pub open spec fn artwork(list: Seq<NewAsset>, replies: Seq<RecordReply>, c: int) -> Progress<ShowError> {
    match progress(stores(list, ShowError::PosterInsert), 0, replies, c) {
        Progress::Past(d) => progress(
            downloads(assets_in(replies, c, list.len() as int)),
            0,
            replies,
            d as int,
        ),
        other => other,
    }
}

impl ShowRecord {
    /// Prepares the artwork of a show, a season and an episode.
    pub fn new(
        file: MediaFile,
        show: ExternalMedia,
        season: ExternalSeason,
        episode: ExternalEpisode,
        episode_name: String,
        force_refresh: bool,
    ) -> (r: Self)
        ensures
            r.file == file,
            r.show == show,
            r.season == season,
            r.episode == episode,
            r.episode_name == episode_name,
            r.force_refresh == force_refresh,
            are_assets_for(r.posters@, show.posters@),
            are_assets_for(r.backdrops@, show.backdrops@),
            are_assets_for(r.season_posters@, season.posters@),
            are_assets_for(r.stills@, episode.stills@),
    {
        let posters = assets_from_urls(&show.posters);
        let backdrops = assets_from_urls(&show.backdrops);
        let season_posters = assets_from_urls(&season.posters);
        let stills = assets_from_urls(&episode.stills);
        ShowRecord {
            file,
            show,
            season,
            episode,
            episode_name,
            posters,
            backdrops,
            season_posters,
            stills,
            force_refresh,
        }
    }

    /// The year of release of the show.
    pub open spec fn year(self) -> Option<i64> {
        match self.show.release_date {
            Some(d) => Some(d.year as i64),
            None => None,
        }
    }

    /// The tasks that store the artwork of the show.
    pub open spec fn art_tasks(self) -> Seq<Task<ShowError>> {
        stores(self.posters@, ShowError::PosterInsert) + stores(
            self.backdrops@,
            ShowError::BackdropInsert,
        )
    }

    /// The first poster of the show.
    pub open spec fn poster(self, replies: Seq<RecordReply>) -> Option<i64> {
        first_id(assets_in(replies, 0, self.posters@.len() as int))
    }

    /// The first backdrop of the show.
    pub open spec fn backdrop(self, replies: Seq<RecordReply>) -> Option<i64> {
        first_id(assets_in(replies, self.posters@.len() as int, self.backdrops@.len() as int))
    }

    /// The step that gets or stores the show.
    pub open spec fn show_op(self, replies: Seq<RecordReply>) -> RecordOp {
        RecordOp::InsertMedia {
            media: (NewMedia {
                media_type: MediaType::Tv,
                library_id: self.file.library_id,
                name: self.show.title,
                description: self.show.description,
                rating: self.show.rating,
                year: self.year(),
                poster: self.poster(replies),
                backdrop: self.backdrop(replies),
            }),
            external_id: self.show.external_id,
        }
    }

    /// The task that replaces the artwork of a show that was there before a match by hand.
    pub open spec fn art_refresh(self, id: i64, created: bool, replies: Seq<RecordReply>) -> Seq<
        Task<ShowError>,
    > {
        if self.force_refresh && !created {
            one(
                RecordOp::UpdateArt {
                    media_id: id,
                    poster: self.poster(replies),
                    backdrop: self.backdrop(replies),
                },
                Some(ShowError::GetOrInsertMedia),
            )
        } else {
            Seq::empty()
        }
    }

    /// How far ensuring the show has come. Genres are rebuilt for a new show, or where the match was made
    /// by hand.
    pub open spec fn ensured(self, replies: Seq<RecordReply>) -> Part {
        match progress(self.art_tasks(), 0, replies, 0) {
            Progress::Do(op) => Part::Do(op),
            Progress::Failed(e) => Part::Failed(e),
            Progress::Past(c) => {
                let n = (self.posters@.len() + self.backdrops@.len()) as int;
                match progress(downloads(assets_in(replies, 0, n)), 0, replies, c as int) {
                    Progress::Do(op) => Part::Do(op),
                    Progress::Failed(e) => Part::Failed(e),
                    Progress::Past(c) => match progress(
                        one(self.show_op(replies), Some(ShowError::GetOrInsertMedia)),
                        0,
                        replies,
                        c as int,
                    ) {
                        Progress::Do(op) => Part::Do(op),
                        Progress::Failed(e) => Part::Failed(e),
                        Progress::Past(d) => {
                            let id = replies[c as int]->Media_id;
                            let created = replies[c as int]->Media_created;
                            match progress(
                                imdb_tasks::<ShowError>(self.show.imdb_id, id) + self.art_refresh(
                                    id,
                                    created,
                                    replies,
                                ),
                                0,
                                replies,
                                d as int,
                            ) {
                                Progress::Do(op) => Part::Do(op),
                                Progress::Failed(e) => Part::Failed(e),
                                Progress::Past(e) => if created || self.force_refresh {
                                    match rebuild(
                                        self.show.genres@,
                                        id,
                                        ShowError::GenreDecouple,
                                        ShowError::GetOrInsertGenre,
                                        ShowError::CoupleGenre,
                                        replies,
                                        e as int,
                                    ) {
                                        Progress::Do(op) => Part::Do(op),
                                        Progress::Failed(e) => Part::Failed(e),
                                        Progress::Past(f) => Part::Got(id, f),
                                    }
                                } else {
                                    Part::Got(id, e)
                                },
                            }
                        },
                    },
                }
            },
        }
    }

    /// How far the show has come: one that this batch has ensured is not ensured again, unless the match
    /// was made by hand.
    pub open spec fn show_part(self, shows: Map<Seq<char>, i64>, replies: Seq<RecordReply>) -> Part {
        if self.show.external_id@.len() > 0 && !self.force_refresh && shows.contains_key(
            self.show.external_id@,
        ) {
            Part::Got(shows[self.show.external_id@], 0)
        } else {
            self.ensured(replies)
        }
    }

    /// How far the season has come.
    pub open spec fn season_part(
        self,
        seasons: Map<(i64, u64), i64>,
        show: i64,
        replies: Seq<RecordReply>,
        c: int,
    ) -> Part {
        if seasons.contains_key((show, self.season.season_number)) {
            Part::Got(seasons[(show, self.season.season_number)], c as usize)
        } else {
            match artwork(self.season_posters@, replies, c) {
                Progress::Do(op) => Part::Do(op),
                Progress::Failed(e) => Part::Failed(e),
                Progress::Past(d) => match progress(
                    one(
                        RecordOp::InsertSeason {
                            show_id: show,
                            season_number: self.season.season_number,
                            poster: first_id(
                                assets_in(replies, c, self.season_posters@.len() as int),
                            ),
                        },
                        Some(ShowError::GetOrInsertSeason),
                    ),
                    0,
                    replies,
                    d as int,
                ) {
                    Progress::Do(op) => Part::Do(op),
                    Progress::Failed(e) => Part::Failed(e),
                    Progress::Past(e) => Part::Got(replies[d as int]->Id_0, e),
                },
            }
        }
    }

    /// How far the episode, and the file's pointing at it, have come.
    pub open spec fn episode_part(self, season: i64, replies: Seq<RecordReply>, c: int) -> Part {
        match artwork(self.stills@, replies, c) {
            Progress::Do(op) => Part::Do(op),
            Progress::Failed(e) => Part::Failed(e),
            Progress::Past(d) => match progress(
                one(
                    RecordOp::InsertEpisode {
                        season_id: season,
                        episode: self.episode.episode_number,
                        media: (NewMedia {
                            media_type: MediaType::Episode,
                            library_id: self.file.library_id,
                            name: self.episode_name,
                            description: self.episode.description,
                            rating: None,
                            year: None,
                            poster: None,
                            backdrop: first_id(assets_in(replies, c, self.stills@.len() as int)),
                        }),
                    },
                    Some(ShowError::GetOrInsertEpisode),
                ),
                0,
                replies,
                d as int,
            ) {
                Progress::Do(op) => Part::Do(op),
                Progress::Failed(e) => Part::Failed(e),
                Progress::Past(e) => {
                    let id = replies[d as int]->Id_0;
                    match progress(
                        one(self.file_op(id), Some(ShowError::UpdateMediafile)),
                        0,
                        replies,
                        e as int,
                    ) {
                        Progress::Do(op) => Part::Do(op),
                        Progress::Failed(e) => Part::Failed(e),
                        Progress::Past(f) => Part::Got(id, f),
                    }
                },
            },
        }
    }

    /// The step that points the file at the episode.
    pub open spec fn file_op(self, id: i64) -> RecordOp {
        RecordOp::UpdateFile { file_id: self.file.id, media_id: id, raw_name: None, raw_year: None }
    }

    /// What the recording has come to: the ids of show, season and episode.
    pub open spec fn outcome(
        self,
        shows: Map<Seq<char>, i64>,
        seasons: Map<(i64, u64), i64>,
        replies: Seq<RecordReply>,
    ) -> RecordStep<(i64, i64, i64), ShowError> {
        match self.show_part(shows, replies) {
            Part::Do(op) => RecordStep::Do(op),
            Part::Failed(e) => RecordStep::Failed(e),
            Part::Got(show, c) => match self.season_part(seasons, show, replies, c as int) {
                Part::Do(op) => RecordStep::Do(op),
                Part::Failed(e) => RecordStep::Failed(e),
                Part::Got(season, d) => match self.episode_part(season, replies, d as int) {
                    Part::Do(op) => RecordStep::Do(op),
                    Part::Failed(e) => RecordStep::Failed(e),
                    Part::Got(episode, e) => match cleanup(
                        self.file.media_id,
                        episode,
                        replies,
                        e as int,
                    ) {
                        Progress::Do(op) => RecordStep::Do(op),
                        Progress::Failed(e) => RecordStep::Failed(e),
                        Progress::Past(_) => RecordStep::Done((show, season, episode)),
                    },
                },
            },
        }
    }
}

/// How far the cleaning up of one old parent has come: its children are counted, and it is deleted if
/// there are none.
pub open spec fn swept(count: RecordOp, delete: RecordOp, replies: Seq<RecordReply>, c: int) -> Progress<
    ShowError,
> {
    match progress(one(count, Some(ShowError::ChildrenCount)), 0, replies, c) {
        Progress::Past(d) => if replies[c] == RecordReply::Count(0) {
            progress(one(delete, Some(ShowError::ChildCleanup)), 0, replies, d as int)
        } else {
            Progress::Past(d)
        },
        other => other,
    }
}

/// How far the cleaning up after a file that was another episode has come: the episode, its season and
/// its show are deleted if nothing is left of them.
pub open spec fn cleanup(old: Option<i64>, episode: i64, replies: Seq<RecordReply>, c: int) -> Progress<
    ShowError,
> {
    if old is None || old == Some(episode) {
        Progress::Past(c as usize)
    } else {
        let x = old->0;
        match progress(
            one(RecordOp::SeasonOfEpisode { episode_id: x }, Some(ShowError::GetSeasonId)),
            0,
            replies,
            c,
        ) {
            Progress::Past(d) => {
                let season_id = replies[c]->Id_0;
                match progress(
                    one(RecordOp::ShowOfSeason { season_id }, Some(ShowError::GetTvId)),
                    0,
                    replies,
                    d as int,
                ) {
                    Progress::Past(e) => {
                        let show_id = replies[d as int]->Id_0;
                        match swept(
                            RecordOp::CountFiles { media_id: x },
                            RecordOp::DeleteMedia { media_id: x },
                            replies,
                            e as int,
                        ) {
                            Progress::Past(f) => match swept(
                                RecordOp::CountEpisodes { season_id },
                                RecordOp::DeleteSeason { season_id },
                                replies,
                                f as int,
                            ) {
                                Progress::Past(g) => swept(
                                    RecordOp::CountSeasons { show_id },
                                    RecordOp::DeleteMedia { media_id: show_id },
                                    replies,
                                    g as int,
                                ),
                                other => other,
                            },
                            other => other,
                        }
                    },
                    other => other,
                }
            },
            other => other,
        }
    }
}

/// Makes the tasks that download assets.
fn download_tasks(assets: &Vec<Asset>) -> (r: Vec<Task<ShowError>>)
    ensures
        r@ == downloads(assets@),
{
    let mut r: Vec<Task<ShowError>> = Vec::new();
    let mut i: usize = 0;
    while i < assets.len()
        invariant
            0 <= i <= assets@.len(),
            r@ == downloads(assets@.take(i as int)),
        decreases assets@.len() - i,
    {
        r.push(Task { op: RecordOp::Enqueue(copy_stored(&assets[i])), failure: None });
        i = i + 1;
        assert(r@ =~= downloads(assets@.take(i as int)));
    }
    assert(assets@.take(i as int) =~= assets@);
    r
}

/// Stores and downloads a list of assets, and gives the id of the first.
fn store_art(list: &Vec<NewAsset>, replies: &Vec<RecordReply>, c: usize) -> (r: (
    Progress<ShowError>,
    Option<i64>,
))
    requires
        c <= replies@.len(),
    ensures
        r.0 == artwork(list@, replies@, c as int),
        r.0 matches Progress::Past(d) ==> d <= replies@.len() && r.1 == first_id(
            assets_in(replies@, c as int, list@.len() as int),
        ),
{
    let tasks = store_tasks(list, ShowError::PosterInsert);
    let ghost t = tasks@;
    let d: usize = match advance(tasks, replies, c) {
        Progress::Past(d) => d,
        other => {
            return (other, None);
        },
    };
    let n: usize = list.len();
    proof {
        assert forall|i: int| 0 <= i < n implies #[trigger] replies@[c + i] is Asset by {
            assert(t[i].failure is Some);
        }
    }
    let assets = stored_assets(replies, c, n);
    let first = id_of_first(&assets);
    (advance(download_tasks(&assets), replies, d), first)
}

/// Counts the children of an old parent, and deletes it if there are none.
fn sweep(count: RecordOp, delete: RecordOp, replies: &Vec<RecordReply>, c: usize) -> (r: Progress<ShowError>)
    requires
        c <= replies@.len(),
    ensures
        r == swept(count, delete, replies@, c as int),
        r matches Progress::Past(d) ==> d <= replies@.len(),
{
    let d: usize = match advance_one(count, Some(ShowError::ChildrenCount), replies, c) {
        Progress::Past(d) => d,
        other => {
            return other;
        },
    };
    let childless = match &replies[c] {
        RecordReply::Count(n) => *n == 0,
        _ => false,
    };
    if childless {
        return advance_one(delete, Some(ShowError::ChildCleanup), replies, d);
    }
    Progress::Past(d)
}

/// Gets the id in a reply.
fn id_in(reply: &RecordReply) -> (r: i64)
    requires
        *reply is Id,
    ensures
        r == reply->Id_0,
{
    match reply {
        RecordReply::Id(id) => *id,
        _ => 0,
    }
}

/// Cleans up after a file that was another episode.
fn clean_up(old: Option<i64>, episode: i64, replies: &Vec<RecordReply>, c: usize) -> (r: Progress<ShowError>)
    requires
        c <= replies@.len(),
    ensures
        r == cleanup(old, episode, replies@, c as int),
{
    let x: i64 = match old {
        Some(x) => x,
        None => {
            return Progress::Past(c);
        },
    };
    if x == episode {
        return Progress::Past(c);
    }
    let d: usize = match advance_one(
        RecordOp::SeasonOfEpisode { episode_id: x },
        Some(ShowError::GetSeasonId),
        replies,
        c,
    ) {
        Progress::Past(d) => d,
        other => {
            return other;
        },
    };
    let season_id = id_in(&replies[c]);
    let e: usize = match advance_one(
        RecordOp::ShowOfSeason { season_id },
        Some(ShowError::GetTvId),
        replies,
        d,
    ) {
        Progress::Past(e) => e,
        other => {
            return other;
        },
    };
    let show_id = id_in(&replies[d]);
    let f: usize = match sweep(
        RecordOp::CountFiles { media_id: x },
        RecordOp::DeleteMedia { media_id: x },
        replies,
        e,
    ) {
        Progress::Past(f) => f,
        other => {
            return other;
        },
    };
    let g: usize = match sweep(
        RecordOp::CountEpisodes { season_id },
        RecordOp::DeleteSeason { season_id },
        replies,
        f,
    ) {
        Progress::Past(g) => g,
        other => {
            return other;
        },
    };
    sweep(
        RecordOp::CountSeasons { show_id },
        RecordOp::DeleteMedia { media_id: show_id },
        replies,
        g,
    )
}

/// Matches files to episodes.
#[derive(Clone, Copy, Debug)]
pub struct TvMatcher;

impl TvMatcher {
    /// Gets or creates the show, with artwork and genres.
    pub fn ensure_show(&self, record: &ShowRecord, replies: &Vec<RecordReply>) -> (r: Part)
        ensures
            r == record.ensured(replies@),
            r matches Part::Got(_, c) ==> c <= replies@.len(),
    {
        let mut tasks = store_tasks(&record.posters, ShowError::PosterInsert);
        let mut more = store_tasks(&record.backdrops, ShowError::BackdropInsert);
        tasks.append(&mut more);
        let ghost art = record.art_tasks();
        assert(tasks@ =~= art);
        let at: usize = match advance(tasks, replies, 0) {
            Progress::Do(op) => {
                return Part::Do(op);
            },
            Progress::Failed(e) => {
                return Part::Failed(e);
            },
            Progress::Past(d) => d,
        };
        let np: usize = record.posters.len();
        let nb: usize = record.backdrops.len();
        proof {
            assert forall|i: int| 0 <= i < np + nb implies #[trigger] replies@[0 + i] is Asset by {
                assert(art[i].failure is Some);
            }
            assert forall|i: int| 0 <= i < nb implies #[trigger] replies@[np + i] is Asset by {
                assert(replies@[0 + (np + i)] is Asset);
            }
        }
        let posters = stored_assets(replies, 0, np);
        let backdrops = stored_assets(replies, np, nb);
        let poster = id_of_first(&posters);
        let backdrop = id_of_first(&backdrops);
        let all = stored_assets(replies, 0, at);
        let c: usize = match advance(download_tasks(&all), replies, at) {
            Progress::Do(op) => {
                return Part::Do(op);
            },
            Progress::Failed(e) => {
                return Part::Failed(e);
            },
            Progress::Past(c) => c,
        };
        let year: Option<i64> = match record.show.release_date {
            Some(d) => Some(d.year as i64),
            None => None,
        };
        let media = NewMedia {
            media_type: MediaType::Tv,
            library_id: record.file.library_id,
            name: record.show.title.clone(),
            description: copy_text(&record.show.description),
            rating: record.show.rating,
            year,
            poster,
            backdrop,
        };
        let op = RecordOp::InsertMedia { media, external_id: record.show.external_id.clone() };
        assert(op == record.show_op(replies@));
        let d: usize = match advance_one(op, Some(ShowError::GetOrInsertMedia), replies, c) {
            Progress::Do(op) => {
                return Part::Do(op);
            },
            Progress::Failed(e) => {
                return Part::Failed(e);
            },
            Progress::Past(d) => d,
        };
        let (id, created): (i64, bool) = match &replies[c] {
            RecordReply::Media { id, created } => (*id, *created),
            _ => (0, false),
        };
        let mut side: Vec<Task<ShowError>> = imdb_task(&record.show.imdb_id, id);
        if record.force_refresh && !created {
            side.push(
                Task {
                    op: RecordOp::UpdateArt { media_id: id, poster, backdrop },
                    failure: Some(ShowError::GetOrInsertMedia),
                },
            );
        }
        assert(side@ =~= imdb_tasks::<ShowError>(record.show.imdb_id, id) + record.art_refresh(
            id,
            created,
            replies@,
        ));
        let e: usize = match advance(side, replies, d) {
            Progress::Do(op) => {
                return Part::Do(op);
            },
            Progress::Failed(e) => {
                return Part::Failed(e);
            },
            Progress::Past(e) => e,
        };
        if created || record.force_refresh {
            return match rebuild_genres(
                &record.show.genres,
                id,
                ShowError::GenreDecouple,
                ShowError::GetOrInsertGenre,
                ShowError::CoupleGenre,
                replies,
                e,
            ) {
                Progress::Do(op) => Part::Do(op),
                Progress::Failed(e) => Part::Failed(e),
                Progress::Past(f) => Part::Got(id, f),
            };
        }
        Part::Got(id, e)
    }

    /// Gets the show from the cache, or ensures it.
    fn show_for(&self, record: &ShowRecord, cache: &TvMatchCache, replies: &Vec<RecordReply>) -> (r: Part)
        ensures
            r == record.show_part(cache.known_shows(), replies@),
            r matches Part::Got(_, c) ==> c <= replies@.len(),
    {
        if !same(record.show.external_id.as_str(), "") && !record.force_refresh {
            proof {
                reveal_strlit("");
                if record.show.external_id@.len() == 0 {
                    assert(record.show.external_id@ =~= ""@);
                }
            }
            if let Some(id) = cache.show(record.show.external_id.as_str()) {
                return Part::Got(id, 0);
            }
        }
        proof {
            reveal_strlit("");
        }
        self.ensure_show(record, replies)
    }

    /// Gets or creates the season.
    pub fn match_to_season(
        &self,
        record: &ShowRecord,
        cache: &TvMatchCache,
        show: i64,
        replies: &Vec<RecordReply>,
        c: usize,
    ) -> (r: Part)
        requires
            c <= replies@.len(),
        ensures
            r == record.season_part(cache.known_seasons(), show, replies@, c as int),
            r matches Part::Got(_, c) ==> c <= replies@.len(),
    {
        let season_number = record.season.season_number;
        if let Some(id) = cache.season(show, season_number) {
            return Part::Got(id, c);
        }
        let (stored, poster) = store_art(&record.season_posters, replies, c);
        let d: usize = match stored {
            Progress::Do(op) => {
                return Part::Do(op);
            },
            Progress::Failed(e) => {
                return Part::Failed(e);
            },
            Progress::Past(d) => d,
        };
        match advance_one(
            RecordOp::InsertSeason { show_id: show, season_number, poster },
            Some(ShowError::GetOrInsertSeason),
            replies,
            d,
        ) {
            Progress::Do(op) => Part::Do(op),
            Progress::Failed(e) => Part::Failed(e),
            Progress::Past(e) => Part::Got(id_in(&replies[d]), e),
        }
    }

    /// Creates the episode and points the file at it.
    pub fn match_to_episode(
        &self,
        record: &ShowRecord,
        season: i64,
        replies: &Vec<RecordReply>,
        c: usize,
    ) -> (r: Part)
        requires
            c <= replies@.len(),
        ensures
            r == record.episode_part(season, replies@, c as int),
            r matches Part::Got(_, c) ==> c <= replies@.len(),
    {
        let (stored, still) = store_art(&record.stills, replies, c);
        let d: usize = match stored {
            Progress::Do(op) => {
                return Part::Do(op);
            },
            Progress::Failed(e) => {
                return Part::Failed(e);
            },
            Progress::Past(d) => d,
        };
        let media = NewMedia {
            media_type: MediaType::Episode,
            library_id: record.file.library_id,
            name: record.episode_name.clone(),
            description: copy_text(&record.episode.description),
            rating: None,
            year: None,
            poster: None,
            backdrop: still,
        };
        let e: usize = match advance_one(
            RecordOp::InsertEpisode {
                season_id: season,
                episode: record.episode.episode_number,
                media,
            },
            Some(ShowError::GetOrInsertEpisode),
            replies,
            d,
        ) {
            Progress::Do(op) => {
                return Part::Do(op);
            },
            Progress::Failed(e) => {
                return Part::Failed(e);
            },
            Progress::Past(e) => e,
        };
        let id = id_in(&replies[d]);
        match advance_one(
            RecordOp::UpdateFile {
                file_id: record.file.id,
                media_id: id,
                raw_name: None,
                raw_year: None,
            },
            Some(ShowError::UpdateMediafile),
            replies,
            e,
        ) {
            Progress::Do(op) => Part::Do(op),
            Progress::Failed(e) => Part::Failed(e),
            Progress::Past(f) => Part::Got(id, f),
        }
    }

    /// Goes on with recording that a file is an episode, given the replies so far.
    pub fn match_to_result(
        &self,
        record: &ShowRecord,
        cache: &TvMatchCache,
        replies: &Vec<RecordReply>,
    ) -> (r: RecordStep<(i64, i64, i64), ShowError>)
        ensures
            r == record.outcome(cache.known_shows(), cache.known_seasons(), replies@),
    {
        let (show, c): (i64, usize) = match self.show_for(record, cache, replies) {
            Part::Do(op) => {
                return RecordStep::Do(op);
            },
            Part::Failed(e) => {
                return RecordStep::Failed(e);
            },
            Part::Got(show, c) => (show, c),
        };
        let (season, d): (i64, usize) = match self.match_to_season(record, cache, show, replies, c) {
            Part::Do(op) => {
                return RecordStep::Do(op);
            },
            Part::Failed(e) => {
                return RecordStep::Failed(e);
            },
            Part::Got(season, d) => (season, d),
        };
        let (episode, e): (i64, usize) = match self.match_to_episode(record, season, replies, d) {
            Part::Do(op) => {
                return RecordStep::Do(op);
            },
            Part::Failed(e) => {
                return RecordStep::Failed(e);
            },
            Part::Got(episode, e) => (episode, e),
        };
        match clean_up(record.file.media_id, episode, replies, e) {
            Progress::Do(op) => RecordStep::Do(op),
            Progress::Failed(e) => RecordStep::Failed(e),
            Progress::Past(_) => RecordStep::Done((show, season, episode)),
        }
    }
}

/// The shows that are known after a recording.
pub open spec fn shows_after(
    record: ShowRecord,
    shows: Map<Seq<char>, i64>,
    replies: Seq<RecordReply>,
) -> Map<Seq<char>, i64> {
    match record.show_part(shows, replies) {
        Part::Got(show, _) => if record.show.external_id@.len() > 0 {
            shows.insert(record.show.external_id@, show)
        } else {
            shows
        },
        _ => shows,
    }
}

/// The seasons that are known after a recording.
pub open spec fn seasons_after(
    record: ShowRecord,
    shows: Map<Seq<char>, i64>,
    seasons: Map<(i64, u64), i64>,
    replies: Seq<RecordReply>,
) -> Map<(i64, u64), i64> {
    match record.show_part(shows, replies) {
        Part::Got(show, c) => match record.season_part(seasons, show, replies, c as int) {
            Part::Got(season, _) => seasons.insert((show, record.season.season_number), season),
            _ => seasons,
        },
        _ => seasons,
    }
}

impl TvMatchCache {
    /// Keeps the show and the season that a recording, finished or failed, has ensured.
    pub fn learn(&mut self, record: &ShowRecord, replies: &Vec<RecordReply>)
        ensures
            final(self).known_shows() == shows_after(*record, old(self).known_shows(), replies@),
            final(self).known_seasons() == seasons_after(
                *record,
                old(self).known_shows(),
                old(self).known_seasons(),
                replies@,
            ),
    {
        let matcher = TvMatcher;
        if let Part::Got(show, c) = matcher.show_for(record, self, replies) {
            let season = matcher.match_to_season(record, self, show, replies, c);
            if !same(record.show.external_id.as_str(), "") {
                let ghost before = self.shows@;
                self.shows.push((record.show.external_id.clone(), show));
                assert(self.shows@.drop_last() =~= before);
                proof {
                    reveal_strlit("");
                    if record.show.external_id@.len() == 0 {
                        assert(record.show.external_id@ =~= ""@);
                    }
                }
            }
            proof {
                reveal_strlit("");
            }
            if let Part::Got(id, _) = season {
                let ghost before = self.seasons@;
                self.seasons.push((show, record.season.season_number, id));
                assert(self.seasons@.drop_last() =~= before);
            }
        }
    }
}

/// Within a batch a show is ensured once: the next episode of it goes on with the season at once.
pub proof fn law_a_show_is_ensured_once(
    first: ShowRecord,
    next: ShowRecord,
    shows: Map<Seq<char>, i64>,
    replies: Seq<RecordReply>,
    later: Seq<RecordReply>,
)
    requires
        first.show_part(shows, replies) is Got,
        first.show.external_id@.len() > 0,
        next.show.external_id@ == first.show.external_id@,
        !next.force_refresh,
    ensures
        next.show_part(shows_after(first, shows, replies), later) == Part::Got(
            first.show_part(shows, replies)->Got_0,
            0,
        ),
{
}

/// A file that stays with its episode causes no cleaning up.
pub proof fn law_a_kept_episode_is_not_cleaned_up(episode: i64, replies: Seq<RecordReply>, c: int)
    requires
        0 <= c <= usize::MAX,
    ensures
        cleanup(Some(episode), episode, replies, c) == Progress::<ShowError>::Past(c as usize),
{
}

/// An episode, a season or a show is deleted only where its children have just been counted and there
/// was none left.
pub proof fn law_only_childless_rows_are_deleted(
    old: Option<i64>,
    episode: i64,
    replies: Seq<RecordReply>,
    c: int,
)
    requires
        0 <= c <= replies.len() <= usize::MAX,
    ensures
        cleanup(old, episode, replies, c) matches Progress::Do(op) ==> (op is DeleteMedia
            || op is DeleteSeason ==> replies.len() > 0 && replies.last() == RecordReply::Count(
            0,
        )),
{
    reveal_with_fuel(progress, 2);
}

/// Artwork that is stored took two replies for each asset, and does not depend on later ones.
proof fn lemma_artwork(list: Seq<NewAsset>, replies: Seq<RecordReply>, c: int)
    requires
        0 <= c <= replies.len() <= usize::MAX,
        artwork(list, replies, c) is Past,
    ensures
        artwork(list, replies, c)->Past_0 == c + 2 * list.len(),
        c + 2 * list.len() <= replies.len(),
        forall|n: int|
            c + 2 * list.len() <= n <= replies.len() ==> #[trigger] artwork(
                list,
                replies.take(n),
                c,
            ) == artwork(list, replies, c) && assets_in(replies.take(n), c, list.len() as int)
                == assets_in(replies, c, list.len() as int),
{
    let a = stores(list, ShowError::PosterInsert);
    lemma_past(a, 0, replies, c);
    let stored = assets_in(replies, c, list.len() as int);
    let b = downloads(stored);
    lemma_past(b, 0, replies, c + list.len());
    assert forall|n: int| c + 2 * list.len() <= n <= replies.len() implies #[trigger] artwork(
        list,
        replies.take(n),
        c,
    ) == artwork(list, replies, c) && assets_in(replies.take(n), c, list.len() as int)
        == assets_in(replies, c, list.len() as int) by {
        lemma_past_prefix(a, 0, replies, c, n);
        lemma_past_prefix(b, 0, replies, c + list.len(), n);
        assert(assets_in(replies.take(n), c, list.len() as int) =~= stored);
    }
}

/// A show that is ensured does not depend on later replies.
proof fn lemma_ensured(record: ShowRecord, replies: Seq<RecordReply>)
    requires
        replies.len() <= usize::MAX,
        record.ensured(replies) is Got,
    ensures
        record.ensured(replies)->Got_1 <= replies.len(),
        forall|n: int|
            record.ensured(replies)->Got_1 <= n <= replies.len() ==> #[trigger] record.ensured(
                replies.take(n),
            ) == record.ensured(replies),
{
    let art = record.art_tasks();
    lemma_past(art, 0, replies, 0);
    let m = (record.posters@.len() + record.backdrops@.len()) as int;
    let all = assets_in(replies, 0, m);
    lemma_past(downloads(all), 0, replies, m);
    let c = 2 * m;
    let insert = one(record.show_op(replies), Some(ShowError::GetOrInsertMedia));
    lemma_past(insert, 0, replies, c);
    let id = replies[c]->Media_id;
    let created = replies[c]->Media_created;
    let side = imdb_tasks::<ShowError>(record.show.imdb_id, id) + record.art_refresh(
        id,
        created,
        replies,
    );
    lemma_past(side, 0, replies, c + 1);
    let e = c + 1 + side.len();
    let decouple = one(RecordOp::DecoupleGenres { media_id: id }, Some(ShowError::GenreDecouple));
    if created || record.force_refresh {
        lemma_past(decouple, 0, replies, e);
        lemma_genres_past(
            record.show.genres@,
            0,
            id,
            ShowError::GetOrInsertGenre,
            ShowError::CoupleGenre,
            replies,
            e + 1,
        );
    }
    assert forall|n: int| record.ensured(replies)->Got_1 <= n <= replies.len() implies #[trigger] record.ensured(
        replies.take(n),
    ) == record.ensured(replies) by {
        let part = replies.take(n);
        lemma_past_prefix(art, 0, replies, 0, n);
        assert(assets_in(part, 0, m) =~= all);
        assert(assets_in(part, 0, record.posters@.len() as int) =~= assets_in(
            replies,
            0,
            record.posters@.len() as int,
        ));
        assert(assets_in(part, record.posters@.len() as int, record.backdrops@.len() as int)
            =~= assets_in(replies, record.posters@.len() as int, record.backdrops@.len() as int));
        lemma_past_prefix(downloads(all), 0, replies, m, n);
        lemma_past_prefix(insert, 0, replies, c, n);
        assert(part[c] == replies[c]);
        lemma_past_prefix(side, 0, replies, c + 1, n);
        if created || record.force_refresh {
            lemma_past_prefix(decouple, 0, replies, e, n);
        }
    }
}

/// A season that is there does not depend on later replies.
proof fn lemma_season(
    record: ShowRecord,
    seasons: Map<(i64, u64), i64>,
    show: i64,
    replies: Seq<RecordReply>,
    c: int,
)
    requires
        0 <= c <= replies.len() <= usize::MAX,
        record.season_part(seasons, show, replies, c) is Got,
    ensures
        c <= record.season_part(seasons, show, replies, c)->Got_1 <= replies.len(),
        forall|n: int|
            record.season_part(seasons, show, replies, c)->Got_1 <= n <= replies.len()
                ==> #[trigger] record.season_part(seasons, show, replies.take(n), c)
                == record.season_part(seasons, show, replies, c),
{
    if !seasons.contains_key((show, record.season.season_number)) {
        let list = record.season_posters@;
        lemma_artwork(list, replies, c);
        let d = c + 2 * list.len();
        let insert = one(
            RecordOp::InsertSeason {
                show_id: show,
                season_number: record.season.season_number,
                poster: first_id(assets_in(replies, c, list.len() as int)),
            },
            Some(ShowError::GetOrInsertSeason),
        );
        lemma_past(insert, 0, replies, d);
        assert forall|n: int|
            record.season_part(seasons, show, replies, c)->Got_1 <= n <= replies.len() implies #[trigger] record.season_part(
            seasons,
            show,
            replies.take(n),
            c,
        ) == record.season_part(seasons, show, replies, c) by {
            assert(artwork(list, replies.take(n), c) == artwork(list, replies, c));
            lemma_past_prefix(insert, 0, replies, d, n);
            assert(replies.take(n)[d] == replies[d]);
        }
    }
}

/// A recording that is done has pointed the file at the episode that it gives: there was a moment at
/// which that was the next step, and it succeeded.
pub proof fn law_recorded_file_points_at_the_episode(
    record: ShowRecord,
    shows: Map<Seq<char>, i64>,
    seasons: Map<(i64, u64), i64>,
    replies: Seq<RecordReply>,
)
    requires
        replies.len() <= usize::MAX,
        record.outcome(shows, seasons, replies) is Done,
    ensures
        exists|n: int|
            0 <= n < replies.len() && #[trigger] record.outcome(shows, seasons, replies.take(n))
                == RecordStep::<(i64, i64, i64), ShowError>::Do(
                record.file_op((record.outcome(shows, seasons, replies)->Done_0).2),
            ) && replies[n] is Done,
{
    let cached = record.show.external_id@.len() > 0 && !record.force_refresh && shows.contains_key(
        record.show.external_id@,
    );
    if !cached {
        lemma_ensured(record, replies);
    }
    let show = record.show_part(shows, replies)->Got_0;
    let c = record.show_part(shows, replies)->Got_1 as int;
    lemma_season(record, seasons, show, replies, c);
    let season = record.season_part(seasons, show, replies, c)->Got_0;
    let d = record.season_part(seasons, show, replies, c)->Got_1 as int;
    let list = record.stills@;
    lemma_artwork(list, replies, d);
    let e = d + 2 * list.len();
    let insert = one(
        RecordOp::InsertEpisode {
            season_id: season,
            episode: record.episode.episode_number,
            media: NewMedia {
                media_type: MediaType::Episode,
                library_id: record.file.library_id,
                name: record.episode_name,
                description: record.episode.description,
                rating: None,
                year: None,
                poster: None,
                backdrop: first_id(assets_in(replies, d, list.len() as int)),
            },
        },
        Some(ShowError::GetOrInsertEpisode),
    );
    lemma_past(insert, 0, replies, e);
    let id = replies[e]->Id_0;
    let update = one(record.file_op(id), Some(ShowError::UpdateMediafile));
    lemma_past(update, 0, replies, e + 1);
    assert(update[0].failure is Some);
    let n = e + 1;
    let part = replies.take(n);
    assert(record.show_part(shows, part) == record.show_part(shows, replies));
    assert(record.season_part(seasons, show, part, c) == record.season_part(
        seasons,
        show,
        replies,
        c,
    ));
    assert(artwork(list, part, d) == artwork(list, replies, d));
    lemma_past_prefix(insert, 0, replies, e, n);
    assert(part[e] == replies[e]);
    assert(progress(update, 0, part, n) == Progress::<ShowError>::Do(record.file_op(id)));
    assert(record.episode_part(season, part, d) == Part::Do(record.file_op(id)));
    assert(record.outcome(shows, seasons, part) == RecordStep::<(i64, i64, i64), ShowError>::Do(
        record.file_op(id),
    ));
}

/// A step that ensuring a show may take: what it stores is what is known of the show, and artwork is only
/// replaced where the match was made by hand.
pub open spec fn is_show_step(record: ShowRecord, op: RecordOp) -> bool {
    match op {
        RecordOp::InsertAsset(a) => record.posters@.contains(a) || record.backdrops@.contains(a),
        RecordOp::InsertMedia { media, external_id } => {
            &&& external_id == record.show.external_id
            &&& media.media_type == MediaType::Tv
            &&& media.library_id == record.file.library_id
            &&& media.name == record.show.title
            &&& media.description == record.show.description
            &&& media.rating == record.show.rating
            &&& media.year is Some <==> record.show.release_date is Some
            &&& media.year is Some ==> media.year->0 == record.show.release_date->0.year
            &&& media.poster is Some <==> record.posters@.len() > 0
            &&& media.backdrop is Some <==> record.backdrops@.len() > 0
        },
        RecordOp::SetImdbId { imdb_id, .. } => record.show.imdb_id == Some(imdb_id),
        RecordOp::UpdateArt { .. } => record.force_refresh,
        RecordOp::InsertGenre { name } => record.show.genres@.contains(name),
        RecordOp::Enqueue(_) => true,
        RecordOp::DecoupleGenres { .. } => true,
        RecordOp::CoupleGenre { .. } => true,
        _ => false,
    }
}

/// The steps that store genres are steps of the show.
proof fn lemma_show_genres(record: ShowRecord, k: int, id: i64, replies: Seq<RecordReply>, c: int)
    requires
        0 <= k <= record.show.genres@.len(),
    ensures
        genres_from(
            record.show.genres@,
            k,
            id,
            ShowError::GetOrInsertGenre,
            ShowError::CoupleGenre,
            replies,
            c,
        ) matches Progress::Do(op) ==> is_show_step(record, op),
    decreases record.show.genres@.len() - k,
{
    let genres = record.show.genres@;
    if k < genres.len() {
        let a = one(RecordOp::InsertGenre { name: genres[k] }, Some(ShowError::GetOrInsertGenre));
        lemma_ops_are_of(a, 0, replies, c);
        assert(genres.contains(genres[k]));
        if progress(a, 0, replies, c) is Past {
            let b = one(
                RecordOp::CoupleGenre { genre_id: replies[c]->Id_0, media_id: id },
                Some(ShowError::CoupleGenre),
            );
            lemma_ops_are_of(b, 0, replies, c + 1);
            lemma_show_genres(record, k + 1, id, replies, c + 2);
        }
    }
}

/// Ensuring a show stores what is known of it and nothing else.
pub proof fn law_ensuring_stores_the_show(record: ShowRecord, replies: Seq<RecordReply>)
    requires
        replies.len() <= usize::MAX,
    ensures
        record.ensured(replies) matches Part::Do(op) ==> is_show_step(record, op),
{
    let art = record.art_tasks();
    lemma_ops_are_of(art, 0, replies, 0);
    let p = record.posters@.len();
    assert forall|i: int| 0 <= i < art.len() implies is_show_step(record, (#[trigger] art[i]).op) by {
        if i < p {
            assert(art[i].op == RecordOp::InsertAsset(record.posters@[i]));
            assert(record.posters@.contains(record.posters@[i]));
        } else {
            assert(art[i].op == RecordOp::InsertAsset(record.backdrops@[i - p]));
            assert(record.backdrops@.contains(record.backdrops@[i - p]));
        }
    }
    if progress(art, 0, replies, 0) is Past {
        lemma_past(art, 0, replies, 0);
        let m = (record.posters@.len() + record.backdrops@.len()) as int;
        let all = downloads(assets_in(replies, 0, m));
        lemma_ops_are_of(all, 0, replies, m);
        if progress(all, 0, replies, m) is Past {
            lemma_past(all, 0, replies, m);
            let c = 2 * m;
            let insert = one(record.show_op(replies), Some(ShowError::GetOrInsertMedia));
            lemma_ops_are_of(insert, 0, replies, c);
            if progress(insert, 0, replies, c) is Past {
                lemma_past(insert, 0, replies, c);
                let id = replies[c]->Media_id;
                let created = replies[c]->Media_created;
                let imdb = imdb_tasks::<ShowError>(record.show.imdb_id, id);
                let side = imdb + record.art_refresh(id, created, replies);
                lemma_ops_are_of(side, 0, replies, c + 1);
                assert forall|i: int| 0 <= i < side.len() implies is_show_step(
                    record,
                    (#[trigger] side[i]).op,
                ) by {
                    if i < imdb.len() {
                        assert(side[i] == imdb[i]);
                    }
                }
                if progress(side, 0, replies, c + 1) is Past {
                    lemma_past(side, 0, replies, c + 1);
                    let e = c + 1 + side.len();
                    let decouple = one(
                        RecordOp::DecoupleGenres { media_id: id },
                        Some(ShowError::GenreDecouple),
                    );
                    lemma_ops_are_of(decouple, 0, replies, e);
                    lemma_show_genres(record, 0, id, replies, e + 1);
                }
            }
        }
    }
}

/// A show that is ensured has left nothing out: its artwork was stored and downloaded, the show and its IMDb
/// id stored, on a match by hand the artwork of a show that was there replaced, and for a new show or a
/// match by hand the genres rebuilt. What it gives is the id that the show was stored under.
pub proof fn law_ensuring_leaves_nothing_out(record: ShowRecord, replies: Seq<RecordReply>)
    requires
        replies.len() <= usize::MAX,
        record.ensured(replies) is Got,
    ensures
        ({
            let c = 2 * (record.posters@.len() + record.backdrops@.len()) as int;
            let created = replies[c]->Media_created;
            let imdb: int = if record.show.imdb_id is Some {
                1
            } else {
                0
            };
            let art: int = if record.force_refresh && !created {
                1
            } else {
                0
            };
            let genres: int = if created || record.force_refresh {
                1 + 2 * record.show.genres@.len() as int
            } else {
                0
            };
            &&& replies[c] matches RecordReply::Media { id, .. } && record.ensured(replies)->Got_0 == id
            &&& record.ensured(replies)->Got_1 == c + 1 + imdb + art + genres
            &&& record.ensured(replies)->Got_1 <= replies.len()
        }),
{
    let art = record.art_tasks();
    lemma_past(art, 0, replies, 0);
    let m = (record.posters@.len() + record.backdrops@.len()) as int;
    let all = assets_in(replies, 0, m);
    lemma_past(downloads(all), 0, replies, m);
    let c = 2 * m;
    let insert = one(record.show_op(replies), Some(ShowError::GetOrInsertMedia));
    lemma_past(insert, 0, replies, c);
    assert(insert[0].failure is Some && answers(insert[0].op, replies[c]));
    let id = replies[c]->Media_id;
    let created = replies[c]->Media_created;
    let side = imdb_tasks::<ShowError>(record.show.imdb_id, id) + record.art_refresh(
        id,
        created,
        replies,
    );
    lemma_past(side, 0, replies, c + 1);
    let e = c + 1 + side.len();
    if created || record.force_refresh {
        let decouple = one(RecordOp::DecoupleGenres { media_id: id }, Some(ShowError::GenreDecouple));
        lemma_past(decouple, 0, replies, e);
        lemma_genres_past(
            record.show.genres@,
            0,
            id,
            ShowError::GetOrInsertGenre,
            ShowError::CoupleGenre,
            replies,
            e + 1,
        );
    }
}

/// A season is stored under its show and its number with the first of its posters; a season that is known is
/// not stored again.
pub proof fn law_seasons_are_stored_under_their_show(
    record: ShowRecord,
    seasons: Map<(i64, u64), i64>,
    show: i64,
    replies: Seq<RecordReply>,
    c: int,
)
    requires
        0 <= c <= replies.len() <= usize::MAX,
    ensures
        seasons.contains_key((show, record.season.season_number)) ==> record.season_part(
            seasons,
            show,
            replies,
            c,
        ) == Part::Got(seasons[(show, record.season.season_number)], c as usize),
        record.season_part(seasons, show, replies, c) matches Part::Do(op) ==> match op {
            RecordOp::InsertAsset(a) => record.season_posters@.contains(a),
            RecordOp::Enqueue(_) => true,
            RecordOp::InsertSeason { show_id, season_number, poster } => show_id == show && season_number
                == record.season.season_number && (poster is Some <==> record.season_posters@.len() > 0),
            _ => false,
        },
        !seasons.contains_key((show, record.season.season_number)) ==> (record.season_part(
            seasons,
            show,
            replies,
            c,
        ) matches Part::Got(id, d) ==> {
            let n = c + 2 * record.season_posters@.len();
            d == n + 1 && d <= replies.len() && replies[n] == RecordReply::Id(id)
        }),
{
    if !seasons.contains_key((show, record.season.season_number)) {
        let list = record.season_posters@;
        lemma_artwork_steps(list, replies, c);
        if artwork(list, replies, c) is Past {
            lemma_artwork(list, replies, c);
            let d = c + 2 * list.len();
            let insert = one(
                RecordOp::InsertSeason {
                    show_id: show,
                    season_number: record.season.season_number,
                    poster: first_id(assets_in(replies, c, list.len() as int)),
                },
                Some(ShowError::GetOrInsertSeason),
            );
            lemma_ops_are_of(insert, 0, replies, d);
            if progress(insert, 0, replies, d) is Past {
                lemma_past(insert, 0, replies, d);
                assert(insert[0].failure is Some && answers(insert[0].op, replies[d]));
            }
        }
    }
}

/// The steps of artwork are to store and to download it.
proof fn lemma_artwork_steps(list: Seq<NewAsset>, replies: Seq<RecordReply>, c: int)
    requires
        0 <= c <= replies.len() <= usize::MAX,
    ensures
        artwork(list, replies, c) matches Progress::Do(op) ==> match op {
            RecordOp::InsertAsset(a) => list.contains(a),
            RecordOp::Enqueue(_) => true,
            _ => false,
        },
{
    let a = stores(list, ShowError::PosterInsert);
    lemma_ops_are_of(a, 0, replies, c);
    assert forall|i: int| 0 <= i < a.len() implies (#[trigger] a[i]).op matches RecordOp::InsertAsset(x)
        && list.contains(x) by {
        assert(list.contains(list[i]));
    }
    if progress(a, 0, replies, c) is Past {
        lemma_past(a, 0, replies, c);
        let b = downloads(assets_in(replies, c, list.len() as int));
        lemma_ops_are_of(b, 0, replies, c + list.len());
    }
}

/// An episode is stored under its season and its number, with its name, its description and the first of its
/// stills, and then the file itself is pointed at it.
pub proof fn law_episodes_are_stored_under_their_season(
    record: ShowRecord,
    season: i64,
    replies: Seq<RecordReply>,
    c: int,
)
    requires
        0 <= c <= replies.len() <= usize::MAX,
    ensures
        record.episode_part(season, replies, c) matches Part::Do(op) ==> match op {
            RecordOp::InsertAsset(a) => record.stills@.contains(a),
            RecordOp::Enqueue(_) => true,
            RecordOp::InsertEpisode { season_id, episode, media } => {
                &&& season_id == season
                &&& episode == record.episode.episode_number
                &&& media.media_type == MediaType::Episode
                &&& media.library_id == record.file.library_id
                &&& media.name == record.episode_name
                &&& media.description == record.episode.description
                &&& media.backdrop is Some <==> record.stills@.len() > 0
                &&& media.poster is None
            },
            RecordOp::UpdateFile { file_id, media_id, raw_name, raw_year } => file_id == record.file.id
                && raw_name is None && raw_year is None && replies[replies.len() - 1] == RecordReply::Id(
                media_id,
            ),
            _ => false,
        },
        record.episode_part(season, replies, c) matches Part::Got(id, d) ==> {
            let n = c + 2 * record.stills@.len();
            d == n + 2 && d <= replies.len() && replies[n] == RecordReply::Id(id) && replies[n + 1] is Done
        },
{
    let list = record.stills@;
    lemma_artwork_steps(list, replies, c);
    if artwork(list, replies, c) is Past {
        lemma_artwork(list, replies, c);
        let d = c + 2 * list.len();
        let insert = one(
            RecordOp::InsertEpisode {
                season_id: season,
                episode: record.episode.episode_number,
                media: NewMedia {
                    media_type: MediaType::Episode,
                    library_id: record.file.library_id,
                    name: record.episode_name,
                    description: record.episode.description,
                    rating: None,
                    year: None,
                    poster: None,
                    backdrop: first_id(assets_in(replies, c, list.len() as int)),
                },
            },
            Some(ShowError::GetOrInsertEpisode),
        );
        lemma_ops_are_of(insert, 0, replies, d);
        if progress(insert, 0, replies, d) is Past {
            lemma_past(insert, 0, replies, d);
            assert(insert[0].failure is Some && answers(insert[0].op, replies[d]));
            let id = replies[d]->Id_0;
            let update = one(record.file_op(id), Some(ShowError::UpdateMediafile));
            lemma_ops_are_of(update, 0, replies, d + 1);
            assert(progress(update, 0, replies, d + 1) is Do ==> replies.len() == d + 1) by {
                reveal_with_fuel(progress, 2);
            }
            if progress(update, 0, replies, d + 1) is Past {
                lemma_past(update, 0, replies, d + 1);
                assert(update[0].failure is Some && answers(update[0].op, replies[d + 1]));
            }
        }
    }
}

/// After a file that was another episode, the files of that episode, the episodes of its season and the
/// seasons of its show are counted, and what has none left is deleted.
pub proof fn law_childless_rows_are_deleted(
    old: i64,
    episode: i64,
    replies: Seq<RecordReply>,
    c: int,
)
    requires
        0 <= c <= replies.len() <= usize::MAX,
        old != episode,
    ensures
        cleanup(Some(old), episode, replies, c) matches Progress::Past(d) ==> {
            &&& replies.len() >= d >= c + 5
            &&& replies[c] is Id && replies[c + 1] is Id && replies[c + 2] is Count
            &&& replies[c + 2] == RecordReply::Count(0) ==> replies[c + 3] is Done && d >= c + 6
        },
        cleanup(Some(old), episode, replies, c) matches Progress::Do(op) ==> match op {
            RecordOp::SeasonOfEpisode { episode_id } => episode_id == old,
            RecordOp::ShowOfSeason { season_id } => replies[c] == RecordReply::Id(season_id),
            RecordOp::CountFiles { media_id } => media_id == old,
            RecordOp::CountEpisodes { season_id } => replies[c] == RecordReply::Id(season_id),
            RecordOp::DeleteSeason { season_id } => replies[c] == RecordReply::Id(season_id),
            RecordOp::CountSeasons { show_id } => replies[c + 1] == RecordReply::Id(show_id),
            RecordOp::DeleteMedia { media_id } => media_id == old || replies[c + 1] == RecordReply::Id(
                media_id,
            ),
            _ => false,
        },
{
    reveal_with_fuel(progress, 2);
}

}
