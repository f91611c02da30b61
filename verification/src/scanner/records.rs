//! The steps by which a match is recorded in the database.
//!
//! The steps are worked out from the answers to the steps before; whoever holds the database performs
//! them one by one.

use vstd::prelude::*;

use crate::scanner::assets::{Asset, NewAsset};

verus! {

/// What a library or a media item holds.
#[derive(Clone, Copy, Debug, PartialEq, Eq, Structural)]
pub enum MediaType {
    Movie,
    Tv,
    Episode,
}

/// A file of a library.
#[derive(Debug)]
pub struct MediaFile {
    pub id: i64,
    pub library_id: i64,
    /// The media item that the file belongs to.
    pub media_id: Option<i64>,
    pub target_file: String,
}

/// A media item that is to be stored.
#[derive(Debug)]
pub struct NewMedia {
    pub media_type: MediaType,
    pub library_id: i64,
    pub name: String,
    pub description: Option<String>,
    /// The rating, a double by its bit pattern.
    pub rating: Option<u64>,
    pub year: Option<i64>,
    pub poster: Option<i64>,
    pub backdrop: Option<i64>,
}

/// A step in the database.
#[derive(Debug)]
pub enum RecordOp {
    InsertAsset(NewAsset),
    /// Gets the media item of a provider's id, or stores it.
    InsertMedia { media: NewMedia, external_id: String },
    SetImdbId { media_id: i64, imdb_id: String },
    LinkPoster { asset_id: i64, media_id: i64 },
    LinkBackdrop { asset_id: i64, media_id: i64 },
    /// Puts the download of an asset, if it has an address, into the queue.
    Enqueue(Asset),
    UpdateArt { media_id: i64, poster: Option<i64>, backdrop: Option<i64> },
    DecoupleGenres { media_id: i64 },
    /// Gets a genre by its name, or stores it.
    InsertGenre { name: String },
    CoupleGenre { genre_id: i64, media_id: i64 },
    /// Points a file at a media item; a name and a year are set where they are given.
    UpdateFile { file_id: i64, media_id: i64, raw_name: Option<String>, raw_year: Option<i64> },
    /// Counts the files of a media item.
    CountFiles { media_id: i64 },
    DeleteMedia { media_id: i64 },
    InsertSeason { show_id: i64, season_number: u64, poster: Option<i64> },
    InsertEpisode { season_id: i64, episode: u64, media: NewMedia },
    SeasonOfEpisode { episode_id: i64 },
    ShowOfSeason { season_id: i64 },
    /// Counts the episodes of a season.
    CountEpisodes { season_id: i64 },
    DeleteSeason { season_id: i64 },
    /// Counts the seasons of a show.
    CountSeasons { show_id: i64 },
}

/// What came of a step.
#[derive(Debug)]
pub enum RecordReply {
    Failed,
    Done,
    Asset(Asset),
    Media { id: i64, created: bool },
    Id(i64),
    Count(i64),
}

/// The step succeeded.
pub open spec fn answers(op: RecordOp, reply: RecordReply) -> bool {
    match op {
        RecordOp::InsertAsset(_) => reply is Asset,
        RecordOp::InsertMedia { .. } => reply is Media,
        RecordOp::InsertGenre { .. } => reply is Id,
        RecordOp::InsertSeason { .. } => reply is Id,
        RecordOp::InsertEpisode { .. } => reply is Id,
        RecordOp::SeasonOfEpisode { .. } => reply is Id,
        RecordOp::ShowOfSeason { .. } => reply is Id,
        RecordOp::CountFiles { .. } => reply is Count,
        RecordOp::CountEpisodes { .. } => reply is Count,
        RecordOp::CountSeasons { .. } => reply is Count,
        _ => reply is Done,
    }
}

/// Tells if a step succeeded.
pub fn succeeded(op: &RecordOp, reply: &RecordReply) -> (r: bool)
    ensures
        r == answers(*op, *reply),
{
    match op {
        RecordOp::InsertAsset(_) => matches!(reply, RecordReply::Asset(_)),
        RecordOp::InsertMedia { .. } => matches!(reply, RecordReply::Media { .. }),
        RecordOp::InsertGenre { .. } => matches!(reply, RecordReply::Id(_)),
        RecordOp::InsertSeason { .. } => matches!(reply, RecordReply::Id(_)),
        RecordOp::InsertEpisode { .. } => matches!(reply, RecordReply::Id(_)),
        RecordOp::SeasonOfEpisode { .. } => matches!(reply, RecordReply::Id(_)),
        RecordOp::ShowOfSeason { .. } => matches!(reply, RecordReply::Id(_)),
        RecordOp::CountFiles { .. } => matches!(reply, RecordReply::Count(_)),
        RecordOp::CountEpisodes { .. } => matches!(reply, RecordReply::Count(_)),
        RecordOp::CountSeasons { .. } => matches!(reply, RecordReply::Count(_)),
        _ => matches!(reply, RecordReply::Done),
    }
}

/// A step and the error that its failure is; a failure that is no error is passed over.
#[derive(Debug)]
pub struct Task<E> {
    pub op: RecordOp,
    pub failure: Option<E>,
}

/// How far tasks have come.
#[derive(Debug)]
pub enum Progress<E> {
    /// This step is next.
    Do(RecordOp),
    Failed(E),
    /// All are done, after so many replies.
    Past(usize),
}

/// What a recording has come to.
#[derive(Debug)]
pub enum RecordStep<T, E> {
    Do(RecordOp),
    Done(T),
    Failed(E),
}

/// How far the tasks from `k` on have come; reply `c` is the first one's.
pub open spec fn progress<E>(tasks: Seq<Task<E>>, k: int, replies: Seq<RecordReply>, c: int) -> Progress<E>
    decreases tasks.len() - k,
{
    if k < 0 || k >= tasks.len() {
        Progress::Past(c as usize)
    } else if c >= replies.len() {
        Progress::Do(tasks[k].op)
    } else if tasks[k].failure is Some && !answers(tasks[k].op, replies[c]) {
        Progress::Failed(tasks[k].failure->0)
    } else {
        progress(tasks, k + 1, replies, c + 1)
    }
}

/// Tasks that are past have a reply each, and those whose failure is an error have succeeded.
pub proof fn lemma_past<E>(tasks: Seq<Task<E>>, k: int, replies: Seq<RecordReply>, c: int)
    requires
        0 <= k <= tasks.len(),
        0 <= c <= replies.len() <= usize::MAX,
        progress(tasks, k, replies, c) is Past,
    ensures
        progress(tasks, k, replies, c)->Past_0 == c + tasks.len() - k,
        c + tasks.len() - k <= replies.len(),
        forall|i: int|
            k <= i < tasks.len() && (#[trigger] tasks[i]).failure is Some ==> answers(
                tasks[i].op,
                replies[c + i - k],
            ),
    decreases tasks.len() - k,
{
    if k < tasks.len() {
        lemma_past(tasks, k + 1, replies, c + 1);
        assert forall|i: int|
            k <= i < tasks.len() && (#[trigger] tasks[i]).failure is Some implies answers(
            tasks[i].op,
            replies[c + i - k],
        ) by {
            if i > k {
                assert(replies[(c + 1) + i - (k + 1)] == replies[c + i - k]);
            }
        }
    }
}

/// What is past stays so when only the replies up to there, or more, are kept.
pub proof fn lemma_past_prefix<E>(
    tasks: Seq<Task<E>>,
    k: int,
    replies: Seq<RecordReply>,
    c: int,
    n: int,
)
    requires
        0 <= k <= tasks.len(),
        0 <= c <= replies.len() <= usize::MAX,
        progress(tasks, k, replies, c) is Past,
        c + tasks.len() - k <= n <= replies.len(),
    ensures
        progress(tasks, k, replies.take(n), c) == progress(tasks, k, replies, c),
    decreases tasks.len() - k,
{
    lemma_past(tasks, k, replies, c);
    if k < tasks.len() {
        assert(replies.take(n)[c] == replies[c]);
        lemma_past_prefix(tasks, k + 1, replies, c + 1, n);
    }
}

/// Tells how far tasks have come.
pub fn advance<E: Copy>(list: Vec<Task<E>>, replies: &Vec<RecordReply>, c: usize) -> (r: Progress<E>)
    requires
        c <= replies@.len(),
    ensures
        r == progress(list@, 0, replies@, c as int),
        r matches Progress::Past(d) ==> d == c + list@.len() && d <= replies@.len(),
        r is Past ==> forall|i: int|
            0 <= i < list@.len() && (#[trigger] list@[i]).failure is Some ==> answers(
                list@[i].op,
                replies@[c + i],
            ),
{
    let mut tasks = list;
    let ghost all = tasks@;
    let len: usize = replies.len();
    let mut k: usize = 0;
    let mut at: usize = c;
    while k < tasks.len()
        invariant
            0 <= k <= tasks@.len(),
            tasks@ == all,
            all == list@,
            c <= at <= len == replies@.len(),
            at == c + k,
            progress(all, 0, replies@, c as int) == progress(all, k as int, replies@, at as int),
        decreases tasks@.len() - k,
    {
        if at >= len {
            let task = tasks.remove(k);
            return Progress::Do(task.op);
        }
        if let Some(e) = tasks[k].failure {
            if !succeeded(&tasks[k].op, &replies[at]) {
                return Progress::Failed(e);
            }
        }
        k = k + 1;
        at = at + 1;
    }
    proof {
        lemma_past(all, 0, replies@, c as int);
    }
    Progress::Past(at)
}

/// Tells how far a single task has come.
pub fn advance_one<E: Copy>(op: RecordOp, failure: Option<E>, replies: &Vec<RecordReply>, c: usize) -> (r:
    Progress<E>)
    requires
        c <= replies@.len(),
    ensures
        r == progress(one(op, failure), 0, replies@, c as int),
        r matches Progress::Past(d) ==> d == c + 1 && d <= replies@.len() && (failure is Some
            ==> answers(op, replies@[c as int])),
{
    let mut tasks: Vec<Task<E>> = Vec::new();
    tasks.push(Task { op, failure });
    assert(tasks@ =~= one(op, failure));
    let ghost t = tasks@;
    let r = advance(tasks, replies, c);
    proof {
        if r is Past {
            assert(t[0].failure == failure);
        }
    }
    r
}

/// A single task.
pub open spec fn one<E>(op: RecordOp, failure: Option<E>) -> Seq<Task<E>> {
    seq![Task { op, failure }]
}

/// The tasks that store assets.
pub open spec fn stores<E>(assets: Seq<NewAsset>, e: E) -> Seq<Task<E>> {
    Seq::new(assets.len(), |i: int| Task { op: RecordOp::InsertAsset(assets[i]), failure: Some(e) })
}

/// The assets in `n` replies from `from` on.
pub open spec fn assets_in(replies: Seq<RecordReply>, from: int, n: int) -> Seq<Asset> {
    Seq::new(n as nat, |i: int| replies[from + i]->Asset_0)
}

/// The id of the first asset, if there is one.
pub open spec fn first_id(assets: Seq<Asset>) -> Option<i64> {
    if assets.len() > 0 {
        Some(assets[0].id)
    } else {
        None
    }
}

/// What a recording of genres has come to, from the genre at `k` on.
pub open spec fn genres_from<E>(
    genres: Seq<String>,
    k: int,
    media_id: i64,
    create: E,
    couple: E,
    replies: Seq<RecordReply>,
    c: int,
) -> Progress<E>
    decreases genres.len() - k,
{
    if k < 0 || k >= genres.len() {
        Progress::Past(c as usize)
    } else {
        match progress(one(RecordOp::InsertGenre { name: genres[k] }, Some(create)), 0, replies, c) {
            Progress::Past(_) => match progress(
                one(RecordOp::CoupleGenre { genre_id: replies[c]->Id_0, media_id }, Some(couple)),
                0,
                replies,
                c + 1,
            ) {
                Progress::Past(_) => genres_from(
                    genres,
                    k + 1,
                    media_id,
                    create,
                    couple,
                    replies,
                    c + 2,
                ),
                other => other,
            },
            other => other,
        }
    }
}

/// The rebuilding of the list of genres: the old ones are taken off, the new ones stored and attached.
pub open spec fn rebuild<E>(
    genres: Seq<String>,
    media_id: i64,
    decouple: E,
    create: E,
    couple: E,
    replies: Seq<RecordReply>,
    c: int,
) -> Progress<E> {
    match progress(one(RecordOp::DecoupleGenres { media_id }, Some(decouple)), 0, replies, c) {
        Progress::Past(_) => genres_from(genres, 0, media_id, create, couple, replies, c + 1),
        other => other,
    }
}

/// Genres that are past took two replies each.
pub proof fn lemma_genres_past<E>(
    genres: Seq<String>,
    k: int,
    media_id: i64,
    create: E,
    couple: E,
    replies: Seq<RecordReply>,
    c: int,
)
    requires
        0 <= k <= genres.len(),
        0 <= c <= replies.len() <= usize::MAX,
        genres_from(genres, k, media_id, create, couple, replies, c) is Past,
    ensures
        genres_from(genres, k, media_id, create, couple, replies, c)->Past_0 == c + 2 * (genres.len()
            - k),
        c + 2 * (genres.len() - k) <= replies.len(),
        forall|n: int|
            c + 2 * (genres.len() - k) <= n <= replies.len() ==> #[trigger] genres_from(
                genres,
                k,
                media_id,
                create,
                couple,
                replies.take(n),
                c,
            ) == genres_from(genres, k, media_id, create, couple, replies, c),
    decreases genres.len() - k,
{
    if k < genres.len() {
        let a = one(RecordOp::InsertGenre { name: genres[k] }, Some(create));
        let b = one(
            RecordOp::CoupleGenre { genre_id: replies[c]->Id_0, media_id },
            Some(couple),
        );
        lemma_past(a, 0, replies, c);
        lemma_past(b, 0, replies, c + 1);
        lemma_genres_past(genres, k + 1, media_id, create, couple, replies, c + 2);
        assert forall|n: int| c + 2 * (genres.len() - k) <= n <= replies.len() implies #[trigger] genres_from(
            genres,
            k,
            media_id,
            create,
            couple,
            replies.take(n),
            c,
        ) == genres_from(genres, k, media_id, create, couple, replies, c) by {
            lemma_past_prefix(a, 0, replies, c, n);
            lemma_past_prefix(b, 0, replies, c + 1, n);
            assert(replies.take(n)[c] == replies[c]);
            assert(genres_from(genres, k + 1, media_id, create, couple, replies.take(n), c + 2)
                == genres_from(genres, k + 1, media_id, create, couple, replies, c + 2));
        }
    }
}

/// Tells how far the rebuilding of the list of genres has come.
pub fn rebuild_genres<E: Copy>(
    genres: &Vec<String>,
    media_id: i64,
    decouple: E,
    create: E,
    couple: E,
    replies: &Vec<RecordReply>,
    c: usize,
) -> (r: Progress<E>)
    requires
        c <= replies@.len(),
    ensures
        r == rebuild(genres@, media_id, decouple, create, couple, replies@, c as int),
        r matches Progress::Past(d) ==> d <= replies@.len() && d == c + 1 + 2 * genres@.len(),
{
    let mut at: usize = match advance_one(
        RecordOp::DecoupleGenres { media_id },
        Some(decouple),
        replies,
        c,
    ) {
        Progress::Past(d) => d,
        other => {
            return other;
        },
    };
    let mut k: usize = 0;
    while k < genres.len()
        invariant
            0 <= k <= genres@.len(),
            at <= replies@.len(),
            at == c + 1 + 2 * k,
            rebuild(genres@, media_id, decouple, create, couple, replies@, c as int) == genres_from(
                genres@,
                k as int,
                media_id,
                create,
                couple,
                replies@,
                at as int,
            ),
        decreases genres@.len() - k,
    {
        match advance_one(
            RecordOp::InsertGenre { name: genres[k].clone() },
            Some(create),
            replies,
            at,
        ) {
            Progress::Past(_) => {},
            other => {
                return other;
            },
        }
        let genre_id: i64 = match &replies[at] {
            RecordReply::Id(id) => *id,
            _ => 0,
        };
        match advance_one(
            RecordOp::CoupleGenre { genre_id, media_id },
            Some(couple),
            replies,
            at + 1,
        ) {
            Progress::Past(d) => {
                at = d;
            },
            other => {
                return other;
            },
        }
        k = k + 1;
    }
    Progress::Past(at)
}

/// Copies an optional text.
pub fn copy_text(s: &Option<String>) -> (r: Option<String>)
    ensures
        r == *s,
{
    match s {
        Some(s) => Some(s.clone()),
        None => None,
    }
}

/// Copies an asset that is to be stored.
pub fn copy_asset(a: &NewAsset) -> (r: NewAsset)
    ensures
        r == *a,
{
    NewAsset {
        remote_url: copy_text(&a.remote_url),
        local_path: a.local_path.clone(),
        file_ext: a.file_ext.clone(),
    }
}

/// Makes the tasks that store assets.
pub fn store_tasks<E: Copy>(assets: &Vec<NewAsset>, e: E) -> (r: Vec<Task<E>>)
    ensures
        r@ == stores(assets@, e),
{
    let mut r: Vec<Task<E>> = Vec::new();
    let mut i: usize = 0;
    while i < assets.len()
        invariant
            0 <= i <= assets@.len(),
            r@ == stores(assets@.take(i as int), e),
        decreases assets@.len() - i,
    {
        r.push(Task { op: RecordOp::InsertAsset(copy_asset(&assets[i])), failure: Some(e) });
        i = i + 1;
        assert(r@ =~= stores(assets@.take(i as int), e));
    }
    assert(assets@.take(i as int) =~= assets@);
    r
}

/// Copies a stored asset.
pub fn copy_stored(a: &Asset) -> (r: Asset)
    ensures
        r == *a,
{
    Asset {
        id: a.id,
        remote_url: copy_text(&a.remote_url),
        local_path: a.local_path.clone(),
    }
}

/// Collects `n` stored assets.
pub fn stored_assets(replies: &Vec<RecordReply>, from: usize, n: usize) -> (r: Vec<Asset>)
    requires
        from + n <= replies@.len(),
        forall|i: int| 0 <= i < n ==> #[trigger] replies@[from + i] is Asset,
    ensures
        r@ == assets_in(replies@, from as int, n as int),
{
    let mut r: Vec<Asset> = Vec::new();
    let len: usize = replies.len();
    let mut i: usize = 0;
    while i < n
        invariant
            0 <= i <= n,
            from + n <= len == replies@.len(),
            forall|i: int| 0 <= i < n ==> #[trigger] replies@[from + i] is Asset,
            r@ == assets_in(replies@, from as int, i as int),
        decreases n - i,
    {
        assert(replies@[from + i] is Asset);
        if let RecordReply::Asset(a) = &replies[from + i] {
            r.push(copy_stored(a));
        }
        i = i + 1;
        assert(r@ =~= assets_in(replies@, from as int, i as int));
    }
    r
}

/// The id of the first asset.
pub fn id_of_first(assets: &Vec<Asset>) -> (r: Option<i64>)
    ensures
        r == first_id(assets@),
{
    if assets.len() > 0 {
        Some(assets[0].id)
    } else {
        None
    }
}

}
