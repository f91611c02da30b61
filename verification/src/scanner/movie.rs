//! Recording that a file is a movie.

use vstd::prelude::*;

use crate::external::ExternalMedia;
use crate::scanner::assets::{are_assets_for, assets_from_urls, Asset, NewAsset};
use crate::scanner::records::{
    advance, advance_one, answers, assets_in, copy_stored, copy_text, first_id, genres_from, id_of_first,
    lemma_genres_past, lemma_past, lemma_past_prefix, one, progress, rebuild, rebuild_genres,
    store_tasks, stored_assets, stores, MediaFile, MediaType, NewMedia, Progress, RecordOp,
    RecordReply, RecordStep, Task,
};

verus! {

/// Why a movie could not be recorded.
#[derive(Clone, Copy, Debug, PartialEq, Eq, Structural)]
pub enum MovieError {
    /// Failed to insert a poster.
    PosterInsert,
    /// Failed to insert a backdrop.
    BackdropInsert,
    /// Failed to decouple genres from the media item.
    GenreDecouple,
    /// Failed to create or get a genre.
    GetOrInsertGenre,
    /// Failed to attach a genre to the media item.
    CoupleGenre,
    /// Failed to point the file at its new parent.
    UpdateMediafile,
    /// Failed to count the files of the old parent.
    ChildrenCount,
    /// Failed to clean up a parent without files.
    ChildCleanup,
    /// Failed to insert or get the media item.
    GetOrInsertMedia,
}

/// A file, the movie that it is, and the movie's artwork.
#[derive(Debug)]
pub struct MovieRecord {
    pub file: MediaFile,
    pub provided: ExternalMedia,
    pub posters: Vec<NewAsset>,
    pub backdrops: Vec<NewAsset>,
}

impl MovieRecord {
    /// Prepares the artwork of a movie.
    pub fn new(file: MediaFile, provided: ExternalMedia) -> (r: Self)
        ensures
            r.file == file,
            r.provided == provided,
            are_assets_for(r.posters@, provided.posters@),
            are_assets_for(r.backdrops@, provided.backdrops@),
    {
        let posters = assets_from_urls(&provided.posters);
        let backdrops = assets_from_urls(&provided.backdrops);
        MovieRecord { file, provided, posters, backdrops }
    }

    /// The stored posters.
    pub open spec fn poster_assets(self, replies: Seq<RecordReply>) -> Seq<Asset> {
        assets_in(replies, 0, self.posters@.len() as int)
    }

    /// The stored backdrops.
    pub open spec fn backdrop_assets(self, replies: Seq<RecordReply>) -> Seq<Asset> {
        assets_in(replies, self.posters@.len() as int, self.backdrops@.len() as int)
    }

    /// How many assets are stored, before anything else.
    pub open spec fn assets(self) -> int {
        (self.posters@.len() + self.backdrops@.len()) as int
    }

    /// The tasks that store the artwork.
    pub open spec fn art_tasks(self) -> Seq<Task<MovieError>> {
        stores(self.posters@, MovieError::PosterInsert) + stores(
            self.backdrops@,
            MovieError::BackdropInsert,
        )
    }

    /// The step that gets or stores the media item.
    pub open spec fn media_op(self, replies: Seq<RecordReply>) -> RecordOp {
        RecordOp::InsertMedia {
            media: (NewMedia {
                media_type: MediaType::Movie,
                library_id: self.file.library_id,
                name: self.provided.title,
                description: self.provided.description,
                rating: self.provided.rating,
                year: self.year(),
                poster: first_id(self.poster_assets(replies)),
                backdrop: first_id(self.backdrop_assets(replies)),
            }),
            external_id: self.provided.external_id,
        }
    }

    /// The year of release.
    pub open spec fn year(self) -> Option<i64> {
        match self.provided.release_date {
            Some(d) => Some(d.year as i64),
            None => None,
        }
    }

    /// The tasks whose failure is passed over: the IMDb id, and the links and downloads of the artwork.
    pub open spec fn side_tasks(self, id: i64, replies: Seq<RecordReply>) -> Seq<Task<MovieError>> {
        imdb_tasks(self.provided.imdb_id, id) + poster_tasks(self.poster_assets(replies), id)
            + backdrop_tasks(self.backdrop_assets(replies), id)
    }

    /// The step that points the file at the media item. It sets name and year to what the media item
    /// has.
    pub open spec fn file_op(self, id: i64) -> RecordOp {
        RecordOp::UpdateFile {
            file_id: self.file.id,
            media_id: id,
            raw_name: Some(self.provided.title),
            raw_year: self.year(),
        }
    }

    /// How far the part up to the genres has come, once the media item is there.
    pub open spec fn middle(
        self,
        id: i64,
        created: bool,
        replies: Seq<RecordReply>,
        c: int,
    ) -> Progress<MovieError> {
        match progress(self.side_tasks(id, replies), 0, replies, c) {
            Progress::Past(d) => if created || self.file.media_id != Some(id) {
                rebuild(
                    self.provided.genres@,
                    id,
                    MovieError::GenreDecouple,
                    MovieError::GetOrInsertGenre,
                    MovieError::CoupleGenre,
                    replies,
                    d as int,
                )
            } else {
                Progress::Past(d)
            },
            other => other,
        }
    }

    /// How far the cleaning up of the old parent has come.
    pub open spec fn cleanup(self, replies: Seq<RecordReply>, c: int) -> Progress<MovieError> {
        match self.file.media_id {
            None => Progress::Past(c as usize),
            Some(old) => match progress(
                one(RecordOp::CountFiles { media_id: old }, Some(MovieError::ChildrenCount)),
                0,
                replies,
                c,
            ) {
                Progress::Past(d) => if replies[c] == RecordReply::Count(0) {
                    progress(
                        one(RecordOp::DeleteMedia { media_id: old }, Some(MovieError::ChildCleanup)),
                        0,
                        replies,
                        c + 1,
                    )
                } else {
                    Progress::Past(d)
                },
                other => other,
            },
        }
    }

    /// What the recording has come to.
    pub open spec fn outcome(self, replies: Seq<RecordReply>) -> RecordStep<i64, MovieError> {
        match progress(self.art_tasks(), 0, replies, 0) {
            Progress::Do(op) => RecordStep::Do(op),
            Progress::Failed(e) => RecordStep::Failed(e),
            Progress::Past(_) => {
                let a = self.assets();
                match progress(
                    one(self.media_op(replies), Some(MovieError::GetOrInsertMedia)),
                    0,
                    replies,
                    a,
                ) {
                    Progress::Do(op) => RecordStep::Do(op),
                    Progress::Failed(e) => RecordStep::Failed(e),
                    Progress::Past(_) => {
                        let id = replies[a]->Media_id;
                        match self.middle(id, replies[a]->Media_created, replies, a + 1) {
                            Progress::Do(op) => RecordStep::Do(op),
                            Progress::Failed(e) => RecordStep::Failed(e),
                            Progress::Past(d) => match progress(
                                one(self.file_op(id), Some(MovieError::UpdateMediafile)),
                                0,
                                replies,
                                d as int,
                            ) {
                                Progress::Do(op) => RecordStep::Do(op),
                                Progress::Failed(e) => RecordStep::Failed(e),
                                Progress::Past(e) => match self.cleanup(replies, e as int) {
                                    Progress::Do(op) => RecordStep::Do(op),
                                    Progress::Failed(e) => RecordStep::Failed(e),
                                    Progress::Past(_) => RecordStep::Done(id),
                                },
                            },
                        }
                    },
                }
            },
        }
    }
}

/// The task that stores an IMDb id.
pub open spec fn imdb_tasks<E>(imdb_id: Option<String>, media_id: i64) -> Seq<Task<E>> {
    match imdb_id {
        Some(imdb_id) => one(RecordOp::SetImdbId { media_id, imdb_id }, None),
        None => Seq::empty(),
    }
}

/// The tasks that link and download posters.
pub open spec fn poster_tasks<E>(assets: Seq<Asset>, media_id: i64) -> Seq<Task<E>>
    decreases assets.len(),
{
    if assets.len() == 0 {
        Seq::empty()
    } else {
        poster_tasks::<E>(assets.drop_last(), media_id).push(
            Task { op: RecordOp::LinkPoster { asset_id: assets.last().id, media_id }, failure: None },
        ).push(Task { op: RecordOp::Enqueue(assets.last()), failure: None })
    }
}

/// The tasks that link and download backdrops.
pub open spec fn backdrop_tasks<E>(assets: Seq<Asset>, media_id: i64) -> Seq<Task<E>>
    decreases assets.len(),
{
    if assets.len() == 0 {
        Seq::empty()
    } else {
        backdrop_tasks::<E>(assets.drop_last(), media_id).push(
            Task {
                op: RecordOp::LinkBackdrop { asset_id: assets.last().id, media_id },
                failure: None,
            },
        ).push(Task { op: RecordOp::Enqueue(assets.last()), failure: None })
    }
}

/// Makes the task that stores an IMDb id.
pub fn imdb_task<E>(imdb_id: &Option<String>, media_id: i64) -> (r: Vec<Task<E>>)
    ensures
        r@ == imdb_tasks::<E>(*imdb_id, media_id),
{
    let mut r: Vec<Task<E>> = Vec::new();
    if let Some(imdb) = imdb_id {
        r.push(
            Task { op: RecordOp::SetImdbId { media_id, imdb_id: imdb.clone() }, failure: None },
        );
    }
    assert(r@ =~= imdb_tasks::<E>(*imdb_id, media_id));
    r
}

/// Makes the tasks that link and download artwork.
fn art_links(posters: &Vec<Asset>, backdrops: &Vec<Asset>, imdb_id: &Option<String>, media_id: i64) -> (r:
    Vec<Task<MovieError>>)
    ensures
        r@ == imdb_tasks::<MovieError>(*imdb_id, media_id) + poster_tasks::<MovieError>(posters@, media_id)
            + backdrop_tasks::<MovieError>(backdrops@, media_id),
{
    let mut r: Vec<Task<MovieError>> = imdb_task(imdb_id, media_id);
    let ghost head = r@;
    let mut i: usize = 0;
    while i < posters.len()
        invariant
            0 <= i <= posters@.len(),
            r@ =~= head + poster_tasks::<MovieError>(posters@.take(i as int), media_id),
        decreases posters@.len() - i,
    {
        proof {
            let next = posters@.take(i + 1);
            assert(next.drop_last() =~= posters@.take(i as int));
            assert(next.last() == posters@[i as int]);
        }
        r.push(
            Task {
                op: RecordOp::LinkPoster { asset_id: posters[i].id, media_id },
                failure: None,
            },
        );
        r.push(Task { op: RecordOp::Enqueue(copy_stored(&posters[i])), failure: None });
        i = i + 1;
    }
    assert(posters@.take(i as int) =~= posters@);
    let ghost head = r@;
    let mut j: usize = 0;
    while j < backdrops.len()
        invariant
            0 <= j <= backdrops@.len(),
            r@ =~= head + backdrop_tasks::<MovieError>(backdrops@.take(j as int), media_id),
        decreases backdrops@.len() - j,
    {
        proof {
            let next = backdrops@.take(j + 1);
            assert(next.drop_last() =~= backdrops@.take(j as int));
            assert(next.last() == backdrops@[j as int]);
        }
        r.push(
            Task {
                op: RecordOp::LinkBackdrop { asset_id: backdrops[j].id, media_id },
                failure: None,
            },
        );
        r.push(Task { op: RecordOp::Enqueue(copy_stored(&backdrops[j])), failure: None });
        j = j + 1;
    }
    assert(backdrops@.take(j as int) =~= backdrops@);
    r
}

/// Matches files to movies.
#[derive(Clone, Copy, Debug)]
pub struct MovieMatcher;

impl MovieMatcher {
    /// Goes on with recording that a file is a movie, given the replies so far.
    pub fn match_to_result(&self, record: &MovieRecord, replies: &Vec<RecordReply>) -> (r: RecordStep<
        i64,
        MovieError,
    >)
        ensures
            r == record.outcome(replies@),
    {
        let mut tasks = store_tasks(&record.posters, MovieError::PosterInsert);
        let mut more = store_tasks(&record.backdrops, MovieError::BackdropInsert);
        tasks.append(&mut more);
        let ghost art = record.art_tasks();
        assert(tasks@ =~= art);
        let at: usize = match advance(tasks, replies, 0) {
            Progress::Do(op) => {
                return RecordStep::Do(op);
            },
            Progress::Failed(e) => {
                return RecordStep::Failed(e);
            },
            Progress::Past(d) => d,
        };
        let np: usize = record.posters.len();
        let nb: usize = record.backdrops.len();
        proof {
            assert forall|i: int| 0 <= i < np implies #[trigger] replies@[0 + i] is Asset by {
                assert(art[i].failure is Some);
            }
            assert forall|i: int| 0 <= i < nb implies #[trigger] replies@[np + i] is Asset by {
                assert(art[np + i].failure is Some);
            }
        }
        let posters = stored_assets(replies, 0, np);
        let backdrops = stored_assets(replies, np, nb);
        let year: Option<i64> = match record.provided.release_date {
            Some(d) => Some(d.year as i64),
            None => None,
        };
        let media = NewMedia {
            media_type: MediaType::Movie,
            library_id: record.file.library_id,
            name: record.provided.title.clone(),
            description: copy_text(&record.provided.description),
            rating: record.provided.rating,
            year,
            poster: id_of_first(&posters),
            backdrop: id_of_first(&backdrops),
        };
        let op = RecordOp::InsertMedia { media, external_id: record.provided.external_id.clone() };
        assert(op == record.media_op(replies@));
        match advance_one(op, Some(MovieError::GetOrInsertMedia), replies, at) {
            Progress::Do(op) => {
                return RecordStep::Do(op);
            },
            Progress::Failed(e) => {
                return RecordStep::Failed(e);
            },
            Progress::Past(_) => {},
        }
        let (id, created): (i64, bool) = match &replies[at] {
            RecordReply::Media { id, created } => (*id, *created),
            _ => (0, false),
        };
        let side = art_links(&posters, &backdrops, &record.provided.imdb_id, id);
        let mut c: usize = match advance(side, replies, at + 1) {
            Progress::Do(op) => {
                return RecordStep::Do(op);
            },
            Progress::Failed(e) => {
                return RecordStep::Failed(e);
            },
            Progress::Past(d) => d,
        };
        let same_parent = match record.file.media_id {
            Some(old) => old == id,
            None => false,
        };
        if created || !same_parent {
            match rebuild_genres(
                &record.provided.genres,
                id,
                MovieError::GenreDecouple,
                MovieError::GetOrInsertGenre,
                MovieError::CoupleGenre,
                replies,
                c,
            ) {
                Progress::Do(op) => {
                    return RecordStep::Do(op);
                },
                Progress::Failed(e) => {
                    return RecordStep::Failed(e);
                },
                Progress::Past(d) => {
                    c = d;
                },
            }
        }
        let update = RecordOp::UpdateFile {
            file_id: record.file.id,
            media_id: id,
            raw_name: Some(record.provided.title.clone()),
            raw_year: year,
        };
        c = match advance_one(update, Some(MovieError::UpdateMediafile), replies, c) {
            Progress::Do(op) => {
                return RecordStep::Do(op);
            },
            Progress::Failed(e) => {
                return RecordStep::Failed(e);
            },
            Progress::Past(d) => d,
        };
        if let Some(old) = record.file.media_id {
            match advance_one(
                RecordOp::CountFiles { media_id: old },
                Some(MovieError::ChildrenCount),
                replies,
                c,
            ) {
                Progress::Do(op) => {
                    return RecordStep::Do(op);
                },
                Progress::Failed(e) => {
                    return RecordStep::Failed(e);
                },
                Progress::Past(_) => {},
            }
            let childless = match &replies[c] {
                RecordReply::Count(n) => *n == 0,
                _ => false,
            };
            if childless {
                match advance_one(
                    RecordOp::DeleteMedia { media_id: old },
                    Some(MovieError::ChildCleanup),
                    replies,
                    c + 1,
                ) {
                    Progress::Do(op) => {
                        return RecordStep::Do(op);
                    },
                    Progress::Failed(e) => {
                        return RecordStep::Failed(e);
                    },
                    Progress::Past(_) => {},
                }
            }
        }
        RecordStep::Done(id)
    }
}

/// A parent is deleted only if it is the one that the file had, and only where its files have just been
/// counted and there was none left.
pub proof fn law_only_childless_parents_are_deleted(record: MovieRecord, replies: Seq<RecordReply>)
    requires
        replies.len() <= usize::MAX,
    ensures
        record.outcome(replies) matches RecordStep::Do(op) ==> (op matches RecordOp::DeleteMedia {
            media_id,
        } ==> record.file.media_id == Some(media_id) && replies.len() > 0 && replies.last()
            == RecordReply::Count(0)),
{
    let art = record.art_tasks();
    lemma_ops_are_of(art, 0, replies, 0);
    if progress(art, 0, replies, 0) is Past {
        lemma_past(art, 0, replies, 0);
        let a = record.assets();
        let media = one(record.media_op(replies), Some(MovieError::GetOrInsertMedia));
        lemma_ops_are_of(media, 0, replies, a);
        if progress(media, 0, replies, a) is Past {
            lemma_past(media, 0, replies, a);
            let id = replies[a]->Media_id;
            let created = replies[a]->Media_created;
            let side = record.side_tasks(id, replies);
            lemma_ops_are_of(side, 0, replies, a + 1);
            lemma_side_ops(record, id, replies);
            if progress(side, 0, replies, a + 1) is Past {
                lemma_past(side, 0, replies, a + 1);
                let d = a + 1 + side.len();
                lemma_rebuild_ops(record.provided.genres@, id, replies, d);
                let middle = record.middle(id, created, replies, a + 1);
                if middle is Past {
                    let m = middle->Past_0 as int;
                    assert(m <= replies.len());
                    let update = one(record.file_op(id), Some(MovieError::UpdateMediafile));
                    lemma_ops_are_of(update, 0, replies, m);
                    if progress(update, 0, replies, m) is Past {
                        lemma_past(update, 0, replies, m);
                        if let Some(old) = record.file.media_id {
                            let count = one(
                                RecordOp::CountFiles { media_id: old },
                                Some(MovieError::ChildrenCount),
                            );
                            lemma_ops_are_of(count, 0, replies, m + 1);
                            if progress(count, 0, replies, m + 1) is Past {
                                lemma_past(count, 0, replies, m + 1);
                                reveal_with_fuel(progress, 2);
                            }
                        }
                    }
                }
            }
        }
    }
}

/// The step that tasks have come to is one of theirs.
pub proof fn lemma_ops_are_of<E>(tasks: Seq<Task<E>>, k: int, replies: Seq<RecordReply>, c: int)
    requires
        0 <= k <= tasks.len(),
    ensures
        progress(tasks, k, replies, c) matches Progress::Do(op) ==> exists|i: int|
            k <= i < tasks.len() && (#[trigger] tasks[i]).op == op,
    decreases tasks.len() - k,
{
    if k < tasks.len() {
        if c >= replies.len() {
            assert(tasks[k].op == tasks[k].op);
        } else {
            lemma_ops_are_of(tasks, k + 1, replies, c + 1);
        }
    }
}

/// Linking artwork deletes nothing.
proof fn lemma_link_ops(assets: Seq<Asset>, id: i64)
    ensures
        forall|i: int|
            0 <= i < poster_tasks::<MovieError>(assets, id).len() ==> !((
            #[trigger] poster_tasks::<MovieError>(assets, id)[i]).op is DeleteMedia),
        forall|i: int|
            0 <= i < backdrop_tasks::<MovieError>(assets, id).len() ==> !((
            #[trigger] backdrop_tasks::<MovieError>(assets, id)[i]).op is DeleteMedia),
    decreases assets.len(),
{
    if assets.len() > 0 {
        lemma_link_ops(assets.drop_last(), id);
    }
}

/// The side tasks delete nothing.
proof fn lemma_side_ops(record: MovieRecord, id: i64, replies: Seq<RecordReply>)
    ensures
        forall|i: int|
            0 <= i < record.side_tasks(id, replies).len() ==> !((#[trigger] record.side_tasks(
                id,
                replies,
            )[i]).op is DeleteMedia),
{
    lemma_link_ops(record.poster_assets(replies), id);
    lemma_link_ops(record.backdrop_assets(replies), id);
}

/// Rebuilding the genres deletes nothing.
proof fn lemma_rebuild_ops(genres: Seq<String>, id: i64, replies: Seq<RecordReply>, c: int)
    requires
        0 <= c <= replies.len() <= usize::MAX,
    ensures
        ({
            let r = rebuild(
                genres,
                id,
                MovieError::GenreDecouple,
                MovieError::GetOrInsertGenre,
                MovieError::CoupleGenre,
                replies,
                c,
            );
            &&& r matches Progress::Do(op) ==> !(op is DeleteMedia)
            &&& r matches Progress::Past(d) ==> d <= replies.len() && d == c + 1 + 2 * genres.len()
        }),
{
    let decouple = one(
        RecordOp::DecoupleGenres { media_id: id },
        Some(MovieError::GenreDecouple),
    );
    lemma_ops_are_of(decouple, 0, replies, c);
    if progress(decouple, 0, replies, c) is Past {
        lemma_past(decouple, 0, replies, c);
        lemma_genre_ops(genres, 0, id, replies, c + 1);
        if genres_from(
            genres,
            0,
            id,
            MovieError::GetOrInsertGenre,
            MovieError::CoupleGenre,
            replies,
            c + 1,
        ) is Past {
            lemma_genres_past(
                genres,
                0,
                id,
                MovieError::GetOrInsertGenre,
                MovieError::CoupleGenre,
                replies,
                c + 1,
            );
        }
    }
}

/// Storing genres deletes nothing.
proof fn lemma_genre_ops(genres: Seq<String>, k: int, id: i64, replies: Seq<RecordReply>, c: int)
    requires
        0 <= k <= genres.len(),
    ensures
        genres_from(
            genres,
            k,
            id,
            MovieError::GetOrInsertGenre,
            MovieError::CoupleGenre,
            replies,
            c,
        ) matches Progress::Do(op) ==> !(op is DeleteMedia),
    decreases genres.len() - k,
{
    if k < genres.len() {
        let a = one(
            RecordOp::InsertGenre { name: genres[k] },
            Some(MovieError::GetOrInsertGenre),
        );
        lemma_ops_are_of(a, 0, replies, c);
        if progress(a, 0, replies, c) is Past {
            let b = one(
                RecordOp::CoupleGenre { genre_id: replies[c]->Id_0, media_id: id },
                Some(MovieError::CoupleGenre),
            );
            lemma_ops_are_of(b, 0, replies, c + 1);
            lemma_genre_ops(genres, k + 1, id, replies, c + 2);
        }
    }
}

/// A recording that is done has pointed the file at the movie that it gives: there was a moment at which
/// that was the next step, and it succeeded.
pub proof fn law_recorded_file_points_at_the_movie(record: MovieRecord, replies: Seq<RecordReply>)
    requires
        replies.len() <= usize::MAX,
        record.outcome(replies) is Done,
    ensures
        exists|n: int|
            0 <= n < replies.len() && #[trigger] record.outcome(replies.take(n)) == RecordStep::<
                i64,
                MovieError,
            >::Do(record.file_op(record.outcome(replies)->Done_0)) && replies[n] is Done,
{
    let art = record.art_tasks();
    lemma_past(art, 0, replies, 0);
    let a = record.assets();
    let media = one(record.media_op(replies), Some(MovieError::GetOrInsertMedia));
    lemma_past(media, 0, replies, a);
    let id = replies[a]->Media_id;
    let created = replies[a]->Media_created;
    let side = record.side_tasks(id, replies);
    lemma_past(side, 0, replies, a + 1);
    let d = a + 1 + side.len();
    lemma_rebuild_ops(record.provided.genres@, id, replies, d);
    let n = record.middle(id, created, replies, a + 1)->Past_0 as int;
    let update = one(record.file_op(id), Some(MovieError::UpdateMediafile));
    lemma_past(update, 0, replies, n);
    assert(update[0].failure is Some);
    let part = replies.take(n);
    lemma_past_prefix(art, 0, replies, 0, n);
    assert(record.poster_assets(part) =~= record.poster_assets(replies));
    assert(record.backdrop_assets(part) =~= record.backdrop_assets(replies));
    lemma_past_prefix(media, 0, replies, a, n);
    assert(part[a] == replies[a]);
    lemma_past_prefix(side, 0, replies, a + 1, n);
    if created || record.file.media_id != Some(id) {
        let decouple = one(
            RecordOp::DecoupleGenres { media_id: id },
            Some(MovieError::GenreDecouple),
        );
        lemma_past(decouple, 0, replies, d);
        lemma_past_prefix(decouple, 0, replies, d, n);
        lemma_genres_past(
            record.provided.genres@,
            0,
            id,
            MovieError::GetOrInsertGenre,
            MovieError::CoupleGenre,
            replies,
            d + 1,
        );
    }
    assert(record.middle(id, created, part, a + 1) == Progress::<MovieError>::Past(n as usize));
    assert(progress(update, 0, part, n) == Progress::<MovieError>::Do(record.file_op(id)));
    assert(record.outcome(part) == RecordStep::<i64, MovieError>::Do(record.file_op(id)));
}

/// A step that recording a movie may take: what it stores is what is known of the movie, it points the file
/// itself at it, and only the media item that the file belonged to is counted and deleted.
pub open spec fn is_movie_step(record: MovieRecord, op: RecordOp) -> bool {
    match op {
        RecordOp::InsertAsset(a) => record.posters@.contains(a) || record.backdrops@.contains(a),
        RecordOp::InsertMedia { media, external_id } => {
            &&& external_id == record.provided.external_id
            &&& media.media_type == MediaType::Movie
            &&& media.library_id == record.file.library_id
            &&& media.name == record.provided.title
            &&& media.description == record.provided.description
            &&& media.rating == record.provided.rating
            &&& media.year is Some <==> record.provided.release_date is Some
            &&& media.year is Some ==> media.year->0 == record.provided.release_date->0.year
            &&& media.poster is Some <==> record.posters@.len() > 0
            &&& media.backdrop is Some <==> record.backdrops@.len() > 0
        },
        RecordOp::SetImdbId { imdb_id, .. } => record.provided.imdb_id == Some(imdb_id),
        RecordOp::InsertGenre { name } => record.provided.genres@.contains(name),
        RecordOp::UpdateFile { file_id, raw_name, raw_year, .. } => {
            &&& file_id == record.file.id
            &&& raw_name == Some(record.provided.title)
            &&& raw_year is Some <==> record.provided.release_date is Some
            &&& raw_year is Some ==> raw_year->0 == record.provided.release_date->0.year
        },
        RecordOp::CountFiles { media_id } => record.file.media_id == Some(media_id),
        RecordOp::DeleteMedia { media_id } => record.file.media_id == Some(media_id),
        RecordOp::LinkPoster { .. } => true,
        RecordOp::LinkBackdrop { .. } => true,
        RecordOp::Enqueue(_) => true,
        RecordOp::DecoupleGenres { .. } => true,
        RecordOp::CoupleGenre { .. } => true,
        _ => false,
    }
}

/// Every step is one of the movie's.
pub open spec fn all_movie_steps(record: MovieRecord, tasks: Seq<Task<MovieError>>) -> bool {
    forall|i: int| 0 <= i < tasks.len() ==> is_movie_step(record, (#[trigger] tasks[i]).op)
}

/// The links of artwork are steps of the movie.
proof fn lemma_link_steps(record: MovieRecord, assets: Seq<Asset>, id: i64)
    ensures
        all_movie_steps(record, poster_tasks::<MovieError>(assets, id)),
        all_movie_steps(record, backdrop_tasks::<MovieError>(assets, id)),
        poster_tasks::<MovieError>(assets, id).len() == 2 * assets.len(),
        backdrop_tasks::<MovieError>(assets, id).len() == 2 * assets.len(),
    decreases assets.len(),
{
    if assets.len() > 0 {
        lemma_link_steps(record, assets.drop_last(), id);
    }
}

/// The tasks that store the artwork are steps of the movie.
proof fn lemma_art_steps(record: MovieRecord)
    ensures
        all_movie_steps(record, record.art_tasks()),
        record.art_tasks().len() == record.posters@.len() + record.backdrops@.len(),
{
    let tasks = record.art_tasks();
    let n = record.posters@.len();
    assert forall|i: int| 0 <= i < tasks.len() implies is_movie_step(record, (#[trigger] tasks[i]).op) by {
        if i < n {
            assert(tasks[i].op == RecordOp::InsertAsset(record.posters@[i]));
            assert(record.posters@.contains(record.posters@[i]));
        } else {
            assert(tasks[i].op == RecordOp::InsertAsset(record.backdrops@[i - n]));
            assert(record.backdrops@.contains(record.backdrops@[i - n]));
        }
    }
}

/// The side tasks are steps of the movie.
proof fn lemma_side_steps(record: MovieRecord, id: i64, replies: Seq<RecordReply>)
    ensures
        all_movie_steps(record, record.side_tasks(id, replies)),
        record.side_tasks(id, replies).len() == (if record.provided.imdb_id is Some {
            1int
        } else {
            0int
        }) + 2 * record.posters@.len() + 2 * record.backdrops@.len(),
{
    lemma_link_steps(record, record.poster_assets(replies), id);
    lemma_link_steps(record, record.backdrop_assets(replies), id);
    let tasks = record.side_tasks(id, replies);
    let imdb = imdb_tasks::<MovieError>(record.provided.imdb_id, id);
    let posters = poster_tasks::<MovieError>(record.poster_assets(replies), id);
    let backdrops = backdrop_tasks::<MovieError>(record.backdrop_assets(replies), id);
    assert forall|i: int| 0 <= i < tasks.len() implies is_movie_step(record, (#[trigger] tasks[i]).op) by {
        if i < imdb.len() {
            assert(tasks[i] == imdb[i]);
        } else if i < imdb.len() + posters.len() {
            assert(tasks[i] == posters[i - imdb.len()]);
        } else {
            assert(tasks[i] == backdrops[i - imdb.len() - posters.len()]);
        }
    }
}

/// The steps that store genres are steps of the movie.
proof fn lemma_genre_steps(record: MovieRecord, k: int, id: i64, replies: Seq<RecordReply>, c: int)
    requires
        0 <= k <= record.provided.genres@.len(),
    ensures
        genres_from(
            record.provided.genres@,
            k,
            id,
            MovieError::GetOrInsertGenre,
            MovieError::CoupleGenre,
            replies,
            c,
        ) matches Progress::Do(op) ==> is_movie_step(record, op),
    decreases record.provided.genres@.len() - k,
{
    let genres = record.provided.genres@;
    if k < genres.len() {
        let a = one(
            RecordOp::InsertGenre { name: genres[k] },
            Some(MovieError::GetOrInsertGenre),
        );
        lemma_ops_are_of(a, 0, replies, c);
        assert(genres.contains(genres[k]));
        if progress(a, 0, replies, c) is Past {
            let b = one(
                RecordOp::CoupleGenre { genre_id: replies[c]->Id_0, media_id: id },
                Some(MovieError::CoupleGenre),
            );
            lemma_ops_are_of(b, 0, replies, c + 1);
            lemma_genre_steps(record, k + 1, id, replies, c + 2);
        }
    }
}

/// Recording a movie stores what is known of the movie and points the file at it, and touches nothing else
/// but the media item that the file belonged to.
pub proof fn law_recording_stores_the_movie(record: MovieRecord, replies: Seq<RecordReply>)
    requires
        replies.len() <= usize::MAX,
    ensures
        record.outcome(replies) matches RecordStep::Do(op) ==> is_movie_step(record, op),
{
    let art = record.art_tasks();
    lemma_ops_are_of(art, 0, replies, 0);
    lemma_art_steps(record);
    if progress(art, 0, replies, 0) is Past {
        lemma_past(art, 0, replies, 0);
        let a = record.assets();
        let media = one(record.media_op(replies), Some(MovieError::GetOrInsertMedia));
        lemma_ops_are_of(media, 0, replies, a);
        if progress(media, 0, replies, a) is Past {
            lemma_past(media, 0, replies, a);
            let id = replies[a]->Media_id;
            let created = replies[a]->Media_created;
            let side = record.side_tasks(id, replies);
            lemma_ops_are_of(side, 0, replies, a + 1);
            lemma_side_steps(record, id, replies);
            if progress(side, 0, replies, a + 1) is Past {
                lemma_past(side, 0, replies, a + 1);
                let d = a + 1 + side.len();
                lemma_rebuild_ops(record.provided.genres@, id, replies, d);
                let decouple = one(
                    RecordOp::DecoupleGenres { media_id: id },
                    Some(MovieError::GenreDecouple),
                );
                lemma_ops_are_of(decouple, 0, replies, d);
                lemma_genre_steps(record, 0, id, replies, d + 1);
                let middle = record.middle(id, created, replies, a + 1);
                if middle is Past {
                    let m = middle->Past_0 as int;
                    let update = one(record.file_op(id), Some(MovieError::UpdateMediafile));
                    lemma_ops_are_of(update, 0, replies, m);
                    if progress(update, 0, replies, m) is Past {
                        lemma_past(update, 0, replies, m);
                        if let Some(old) = record.file.media_id {
                            let count = one(
                                RecordOp::CountFiles { media_id: old },
                                Some(MovieError::ChildrenCount),
                            );
                            lemma_ops_are_of(count, 0, replies, m + 1);
                            if progress(count, 0, replies, m + 1) is Past {
                                lemma_past(count, 0, replies, m + 1);
                                reveal_with_fuel(progress, 2);
                            }
                        }
                    }
                }
            }
        }
    }
}

/// A recording that is done has left nothing out: it has stored all artwork, the movie and its IMDb id, linked
/// and downloaded the artwork, for a new movie or a new parent rebuilt the genres, pointed the file at it,
/// and counted the files of the parent that the file had, which is deleted where it has none left.
pub proof fn law_recording_leaves_nothing_out(record: MovieRecord, replies: Seq<RecordReply>)
    requires
        replies.len() <= usize::MAX,
        record.outcome(replies) is Done,
    ensures
        ({
            let a = record.posters@.len() + record.backdrops@.len();
            let imdb: int = if record.provided.imdb_id is Some {
                1
            } else {
                0
            };
            let before = a + 1 + imdb + 2 * a;
            let rebuilt = replies[a as int]->Media_created || record.file.media_id != Some(
                record.outcome(replies)->Done_0,
            );
            let genres: int = if rebuilt {
                1 + 2 * record.provided.genres@.len() as int
            } else {
                0
            };
            &&& replies[a as int] matches RecordReply::Media { id, .. } && record.outcome(replies)
                == RecordStep::<i64, MovieError>::Done(id)
            &&& replies.len() >= before + genres + 1
            &&& record.file.media_id is Some ==> replies.len() >= before + genres + 2
            &&& record.file.media_id is Some && replies[before + genres + 1] == RecordReply::Count(0)
                ==> replies.len() >= before + genres + 3 && replies[before + genres + 2] is Done
        }),
{
    let art = record.art_tasks();
    lemma_art_steps(record);
    lemma_past(art, 0, replies, 0);
    let a = record.assets();
    let media = one(record.media_op(replies), Some(MovieError::GetOrInsertMedia));
    lemma_past(media, 0, replies, a);
    assert(media[0].failure is Some && answers(media[0].op, replies[a]));
    let id = replies[a]->Media_id;
    let created = replies[a]->Media_created;
    let side = record.side_tasks(id, replies);
    lemma_side_steps(record, id, replies);
    lemma_past(side, 0, replies, a + 1);
    let d = a + 1 + side.len();
    lemma_rebuild_ops(record.provided.genres@, id, replies, d);
    let m = record.middle(id, created, replies, a + 1)->Past_0 as int;
    let update = one(record.file_op(id), Some(MovieError::UpdateMediafile));
    lemma_past(update, 0, replies, m);
    if let Some(old) = record.file.media_id {
        let count = one(
            RecordOp::CountFiles { media_id: old },
            Some(MovieError::ChildrenCount),
        );
        lemma_past(count, 0, replies, m + 1);
        if replies[m + 1] == RecordReply::Count(0) {
            let delete = one(
                RecordOp::DeleteMedia { media_id: old },
                Some(MovieError::ChildCleanup),
            );
            lemma_past(delete, 0, replies, m + 2);
            assert(delete[0].failure is Some && answers(delete[0].op, replies[m + 2]));
        }
    }
}

}
