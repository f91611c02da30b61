//! Following what happens to the directories of a library.

use vstd::prelude::*;

use crate::components::{
    components, covered, holds_path, is_covered, is_under, law_tidy_paths_are_in_order, law_topmost_cover,
    tidy, tidy_paths, top_dirs, topmost,
};
use crate::paths::extension_of;
use crate::scanner::matcher::{is_scannable, Matcher};
use crate::scanner::records::MediaType;
use crate::scanner::walk::{has_media_extension, supported};
use crate::text::{append_copies, views};

verus! {

/// A batch of events is closed after this time.
pub const DRAIN_NANOS: u64 = 30_000_000_000;

/// A batch of events is closed when it holds so many.
pub const BATCH_LIMIT: usize = 4096;

/// A batch of events is closed when nothing happens for so long.
pub const QUIET_MILLIS: u64 = 1500;

/// Watches the directories of a library.
#[derive(Debug)]
pub struct FsWatcher {
    pub media_type: MediaType,
    pub library_id: i64,
    pub matcher: Matcher,
}

impl FsWatcher {
    /// A watcher for a library of movies or shows.
    pub fn new(library_id: i64, media_type: MediaType) -> (r: Self)
        requires
            is_scannable(media_type),
        ensures
            r.library_id == library_id,
            r.media_type == media_type,
            r.matcher is Movie <==> media_type is Movie,
            r.matcher is Tv <==> media_type is Tv,
    {
        FsWatcher { media_type, library_id, matcher: Matcher::of(media_type) }
    }

    /// Goes on with starting to follow the library, given the replies so far.
    pub fn start_daemon(&self, replies: &Vec<DaemonReply>) -> (r: DaemonStep)
        ensures
            is_start(r, self.library_id, replies@),
    {
        let n: usize = replies.len();
        if n == 0 {
            return DaemonStep::Do(DaemonOp::Open);
        }
        if !matches!(&replies[0], DaemonReply::Done) {
            return DaemonStep::End;
        }
        if n == 1 {
            return DaemonStep::Do(DaemonOp::Library { library_id: self.library_id });
        }
        let locations: &Vec<String> = match &replies[1] {
            DaemonReply::Locations(locations) => locations,
            _ => {
                return DaemonStep::Failed(FsWatcherError::DatabaseError);
            },
        };
        if n == 2 {
            let mut paths: Vec<String> = Vec::new();
            append_copies(&mut paths, locations);
            assert(views(paths@) =~= views(locations@));
            return DaemonStep::Do(DaemonOp::Watch { paths });
        }
        if matches!(&replies[2], DaemonReply::Done) {
            DaemonStep::Follow
        } else {
            DaemonStep::Failed(FsWatcherError::NotifyError)
        }
    }
}

/// Why a library is not followed.
#[derive(Clone, Copy, Debug, PartialEq, Eq, Structural)]
pub enum FsWatcherError {
    /// The index does not know the library.
    DatabaseError,
    /// A directory of it cannot be watched.
    NotifyError,
}

/// A step of starting to follow a library.
#[derive(Debug)]
pub enum DaemonOp {
    /// Open the index for reading.
    Open,
    /// Find out where the library is.
    Library { library_id: i64 },
    /// Watch these directories, and what is in them.
    Watch { paths: Vec<String> },
}

/// What came of a step.
#[derive(Debug)]
pub enum DaemonReply {
    Failed,
    Done,
    /// The directories of the library.
    Locations(Vec<String>),
}

/// What starting to follow a library has come to.
#[derive(Debug)]
pub enum DaemonStep {
    Do(DaemonOp),
    /// Handle what happens in the directories.
    Follow,
    End,
    Failed(FsWatcherError),
}

/// `step` is what starting to follow a library has come to. Where the index cannot be opened it ends and
/// nothing is said of it.
pub open spec fn is_start(step: DaemonStep, library_id: i64, replies: Seq<DaemonReply>) -> bool {
    if replies.len() == 0 {
        step == DaemonStep::Do(DaemonOp::Open)
    } else if !(replies[0] is Done) {
        step is End
    } else if replies.len() == 1 {
        step == DaemonStep::Do(DaemonOp::Library { library_id })
    } else {
        match replies[1] {
            DaemonReply::Locations(locations) => if replies.len() == 2 {
                (step matches DaemonStep::Do(op) && (op matches DaemonOp::Watch { paths } && views(
                    paths@,
                ) == views(locations@)))
            } else if replies[2] is Done {
                step is Follow
            } else {
                step == DaemonStep::Failed(FsWatcherError::NotifyError)
            },
            _ => step == DaemonStep::Failed(FsWatcherError::DatabaseError),
        }
    }
}

/// Tells if a batch of `len` events, which was opened so long ago, waits for another.
pub fn keeps_draining(elapsed_nanos: u64, len: usize) -> (r: bool)
    ensures
        r == (elapsed_nanos <= 30_000_000_000 && len < 4096),
{
    !(elapsed_nanos > DRAIN_NANOS || len >= BATCH_LIMIT)
}

/// A path of an event, and what is there.
#[derive(Debug)]
pub struct SeenPath {
    pub path: String,
    pub is_dir: bool,
    pub is_file: bool,
}

/// What an event says.
#[derive(Clone, Copy, Debug, PartialEq, Eq, Structural)]
pub enum FsEventKind {
    Created,
    /// A rename of which both names are known.
    Renamed,
    Removed,
    Other,
}

/// An event in a watched directory.
#[derive(Debug)]
pub struct FsEvent {
    pub kind: FsEventKind,
    pub paths: Vec<SeenPath>,
}

/// What is to be done about a batch of events.
#[derive(Debug)]
pub enum WatchAction {
    Rename { from: String, to: String },
    Remove { path: String },
    /// Scans a directory.
    Scan { dir: String },
    /// Indexes new files.
    Index { files: Vec<String> },
}

/// What is to be done, with paths as sequences.
pub enum Deed {
    Rename(Seq<char>, Seq<char>),
    Remove(Seq<char>),
    Scan(Seq<char>),
    Index(Seq<Seq<char>>),
}

impl WatchAction {
    /// The deed.
    pub open spec fn deed(self) -> Deed {
        match self {
            WatchAction::Rename { from, to } => Deed::Rename(from@, to@),
            WatchAction::Remove { path } => Deed::Remove(path@),
            WatchAction::Scan { dir } => Deed::Scan(dir@),
            WatchAction::Index { files } => Deed::Index(views(files@)),
        }
    }
}

/// The deeds of actions.
pub open spec fn deeds(actions: Seq<WatchAction>) -> Seq<Deed> {
    actions.map_values(|a: WatchAction| a.deed())
}

/// A new directory.
pub open spec fn is_new_dir(p: SeenPath) -> bool {
    p.is_dir
}

/// A new media file.
pub open spec fn is_new_file(p: SeenPath) -> bool {
    !p.is_dir && extension_of(p.path@) is Some && supported(extension_of(p.path@)->0) && p.is_file
}

/// The new directories among the first `k` paths.
pub open spec fn dirs_in(paths: Seq<SeenPath>, k: int) -> Seq<Seq<char>>
    decreases k,
{
    if k <= 0 {
        Seq::empty()
    } else if is_new_dir(paths[k - 1]) {
        dirs_in(paths, k - 1).push(paths[k - 1].path@)
    } else {
        dirs_in(paths, k - 1)
    }
}

/// The new media files among the first `k` paths.
pub open spec fn files_in(paths: Seq<SeenPath>, k: int) -> Seq<Seq<char>>
    decreases k,
{
    if k <= 0 {
        Seq::empty()
    } else if is_new_file(paths[k - 1]) {
        files_in(paths, k - 1).push(paths[k - 1].path@)
    } else {
        files_in(paths, k - 1)
    }
}

/// The directories that the first `k` events have created.
pub open spec fn created_dirs(events: Seq<FsEvent>, k: int) -> Seq<Seq<char>>
    decreases k,
{
    if k <= 0 {
        Seq::empty()
    } else if events[k - 1].kind is Created {
        created_dirs(events, k - 1) + dirs_in(
            events[k - 1].paths@,
            events[k - 1].paths@.len() as int,
        )
    } else {
        created_dirs(events, k - 1)
    }
}

/// The media files that the first `k` events have created.
pub open spec fn created_files(events: Seq<FsEvent>, k: int) -> Seq<Seq<char>>
    decreases k,
{
    if k <= 0 {
        Seq::empty()
    } else if events[k - 1].kind is Created {
        created_files(events, k - 1) + files_in(
            events[k - 1].paths@,
            events[k - 1].paths@.len() as int,
        )
    } else {
        created_files(events, k - 1)
    }
}

/// What is done at once about an event: removed files are taken out, renamed ones renamed.
pub open spec fn at_once(e: FsEvent) -> Seq<Deed> {
    match e.kind {
        FsEventKind::Renamed => if e.paths@.len() == 2 {
            seq![Deed::Rename(e.paths@[0].path@, e.paths@[1].path@)]
        } else {
            Seq::empty()
        },
        FsEventKind::Removed => e.paths@.map_values(|p: SeenPath| Deed::Remove(p.path@)),
        _ => Seq::empty(),
    }
}

/// What is done at once about the first `k` events.
pub open spec fn all_at_once(events: Seq<FsEvent>, k: int) -> Seq<Deed>
    decreases k,
{
    if k <= 0 {
        Seq::empty()
    } else {
        all_at_once(events, k - 1) + at_once(events[k - 1])
    }
}

/// The directories that are scanned: the topmost of the new ones, each once.
pub open spec fn scanned_dirs(events: Seq<FsEvent>) -> Seq<Seq<char>> {
    topmost(tidy(created_dirs(events, events.len() as int)))
}

/// The files that are indexed: the new ones that no scan covers, each once.
pub open spec fn indexed_files(events: Seq<FsEvent>) -> Seq<Seq<char>> {
    let tops = scanned_dirs(events);
    tidy(created_files(events, events.len() as int)).filter(|f: Seq<char>| !covered(f, tops))
}

/// What is done about a batch of events.
pub open spec fn batch_deeds(events: Seq<FsEvent>) -> Seq<Deed> {
    all_at_once(events, events.len() as int) + scanned_dirs(events).map_values(
        |d: Seq<char>| Deed::Scan(d),
    ) + if indexed_files(events).len() > 0 {
        seq![Deed::Index(indexed_files(events))]
    } else {
        Seq::empty()
    }
}

/// Keeps the files that no directory of the list covers.
fn keep_uncovered(files: &Vec<String>, tops: &Vec<String>) -> (r: Vec<String>)
    ensures
        views(r@) == views(files@).filter(|f: Seq<char>| !covered(f, views(tops@))),
{
    let ghost g = |f: Seq<char>| !covered(f, views(tops@));
    let mut r: Vec<String> = Vec::new();
    let mut i: usize = 0;
    proof {
        reveal(Seq::filter);
        assert(views(r@) =~= views(files@).take(0).filter(g));
    }
    while i < files.len()
        invariant
            0 <= i <= files@.len(),
            g == (|f: Seq<char>| !covered(f, views(tops@))),
            views(r@) == views(files@).take(i as int).filter(g),
        decreases files@.len() - i,
    {
        let ghost before = views(r@);
        proof {
            reveal(Seq::filter);
            let next = views(files@).take(i + 1);
            assert(next.drop_last() =~= views(files@).take(i as int));
            assert(next.last() == files@[i as int]@);
        }
        if !is_covered(files[i].as_str(), tops) {
            r.push(files[i].clone());
            assert(views(r@) =~= before.push(files@[i as int]@));
        }
        i = i + 1;
    }
    assert(views(files@).take(i as int) =~= views(files@));
    r
}

/// Collects what an event has created.
fn collect_created(paths: &Vec<SeenPath>, dirs: &mut Vec<String>, files: &mut Vec<String>)
    ensures
        views(final(dirs)@) == views(old(dirs)@) + dirs_in(paths@, paths@.len() as int),
        views(final(files)@) == views(old(files)@) + files_in(paths@, paths@.len() as int),
{
    let ghost d0 = views(dirs@);
    let ghost f0 = views(files@);
    let mut i: usize = 0;
    while i < paths.len()
        invariant
            0 <= i <= paths@.len(),
            d0 == views(old(dirs)@),
            f0 == views(old(files)@),
            views(dirs@) =~= d0 + dirs_in(paths@, i as int),
            views(files@) =~= f0 + files_in(paths@, i as int),
        decreases paths@.len() - i,
    {
        let p = &paths[i];
        let ghost d = views(dirs@);
        let ghost f = views(files@);
        if p.is_dir {
            dirs.push(p.path.clone());
            assert(views(dirs@) =~= d.push(p.path@));
        } else if has_media_extension(p.path.as_str()) && p.is_file {
            files.push(p.path.clone());
            assert(views(files@) =~= f.push(p.path@));
        }
        i = i + 1;
    }
}

/// Does at once what an event asks for.
fn act_at_once(e: &FsEvent, actions: &mut Vec<WatchAction>)
    ensures
        deeds(final(actions)@) == deeds(old(actions)@) + at_once(*e),
{
    let ghost a0 = deeds(actions@);
    match e.kind {
        FsEventKind::Renamed => {
            if e.paths.len() == 2 {
                actions.push(
                    WatchAction::Rename {
                        from: e.paths[0].path.clone(),
                        to: e.paths[1].path.clone(),
                    },
                );
            }
        },
        FsEventKind::Removed => {
            let ghost f = |p: SeenPath| Deed::Remove(p.path@);
            let mut i: usize = 0;
            while i < e.paths.len()
                invariant
                    0 <= i <= e.paths@.len(),
                    f == (|p: SeenPath| Deed::Remove(p.path@)),
                    deeds(actions@) =~= a0 + e.paths@.take(i as int).map_values(f),
                decreases e.paths@.len() - i,
            {
                let ghost before = deeds(actions@);
                let path = e.paths[i].path.clone();
                actions.push(WatchAction::Remove { path });
                assert(deeds(actions@) =~= before.push(Deed::Remove(path@)));
                assert(e.paths@.take(i + 1).map_values(f) =~= e.paths@.take(i as int).map_values(
                    f,
                ).push(Deed::Remove(path@)));
                i = i + 1;
            }
            assert(e.paths@.take(i as int) =~= e.paths@);
        },
        _ => {},
    }
    assert(deeds(actions@) =~= a0 + at_once(*e));
}

/// Works out what is to be done about a batch of events: removals and renames as they came, one scan for
/// each topmost new directory, and the other new files together.
pub fn plan_batch(events: &Vec<FsEvent>) -> (r: Vec<WatchAction>)
    ensures
        deeds(r@) == batch_deeds(events@),
{
    let mut actions: Vec<WatchAction> = Vec::new();
    let mut dirs: Vec<String> = Vec::new();
    let mut files: Vec<String> = Vec::new();
    let mut i: usize = 0;
    while i < events.len()
        invariant
            0 <= i <= events@.len(),
            deeds(actions@) =~= all_at_once(events@, i as int),
            views(dirs@) =~= created_dirs(events@, i as int),
            views(files@) =~= created_files(events@, i as int),
        decreases events@.len() - i,
    {
        let e = &events[i];
        act_at_once(e, &mut actions);
        if e.kind == FsEventKind::Created {
            collect_created(&e.paths, &mut dirs, &mut files);
        }
        i = i + 1;
    }
    let tops = top_dirs(&tidy_paths(&dirs));
    let kept = keep_uncovered(&tidy_paths(&files), &tops);
    let ghost f = |d: Seq<char>| Deed::Scan(d);
    let ghost a1 = deeds(actions@);
    let mut k: usize = 0;
    while k < tops.len()
        invariant
            0 <= k <= tops@.len(),
            f == (|d: Seq<char>| Deed::Scan(d)),
            deeds(actions@) =~= a1 + views(tops@).take(k as int).map_values(f),
        decreases tops@.len() - k,
    {
        let ghost before = deeds(actions@);
        let dir = tops[k].clone();
        actions.push(WatchAction::Scan { dir });
        assert(deeds(actions@) =~= before.push(Deed::Scan(dir@)));
        assert(views(tops@).take(k + 1).map_values(f) =~= views(tops@).take(k as int).map_values(
            f,
        ).push(Deed::Scan(dir@)));
        k = k + 1;
    }
    assert(views(tops@).take(k as int) =~= views(tops@));
    let ghost a2 = deeds(actions@);
    if kept.len() > 0 {
        actions.push(WatchAction::Index { files: kept });
        assert(deeds(actions@) =~= a2.push(Deed::Index(views(kept@))));
    }
    assert(deeds(actions@) =~= batch_deeds(events@));
    actions
}

/// A step in the database.
#[derive(Debug)]
pub enum WatchOp {
    /// Looks a file up by its path.
    FileByPath(String),
    /// Looks up the media item of a file.
    MediaOfFile(i64),
    DeleteFile(i64),
    /// Counts the files of a media item.
    FilesOfMedia(i64),
    DeleteMedia(i64),
    /// Gives a file another path.
    MoveFile { id: i64, to: String },
    Commit,
}

/// What came of a step.
#[derive(Clone, Copy, Debug, PartialEq, Eq, Structural)]
pub enum WatchReply {
    Failed,
    Done,
    Id(i64),
    Count(u64),
}

/// What handling a removal or a rename has come to.
#[derive(Debug)]
pub enum WatchStep {
    Do(WatchOp),
    End,
}

/// Commits after `k` replies.
pub open spec fn commit_at(replies: Seq<WatchReply>, k: int) -> WatchStep {
    if replies.len() <= k {
        WatchStep::Do(WatchOp::Commit)
    } else {
        WatchStep::End
    }
}

/// The handling of a removed file. Its media item goes too, if no file is left of it. Nothing is
/// committed where a deletion fails.
pub open spec fn removal(path: String, replies: Seq<WatchReply>) -> WatchStep {
    if replies.len() == 0 {
        WatchStep::Do(WatchOp::FileByPath(path))
    } else if !(replies[0] is Id) {
        WatchStep::End
    } else if replies.len() == 1 {
        WatchStep::Do(WatchOp::MediaOfFile(replies[0]->Id_0))
    } else if replies.len() == 2 {
        WatchStep::Do(WatchOp::DeleteFile(replies[0]->Id_0))
    } else if !(replies[2] is Done) {
        WatchStep::End
    } else if !(replies[1] is Id) {
        commit_at(replies, 3)
    } else if replies.len() == 3 {
        WatchStep::Do(WatchOp::FilesOfMedia(replies[1]->Id_0))
    } else if replies[3] != WatchReply::Count(0) {
        commit_at(replies, 4)
    } else if replies.len() == 4 {
        WatchStep::Do(WatchOp::DeleteMedia(replies[1]->Id_0))
    } else if !(replies[4] is Done) {
        WatchStep::End
    } else {
        commit_at(replies, 5)
    }
}

/// Commits after `k` replies.
fn commit_after(replies: &Vec<WatchReply>, k: usize) -> (r: WatchStep)
    ensures
        r == commit_at(replies@, k as int),
{
    if replies.len() <= k {
        WatchStep::Do(WatchOp::Commit)
    } else {
        WatchStep::End
    }
}

/// What the indexing of new files has come to.
#[derive(Clone, Copy, Debug, PartialEq, Eq, Structural)]
pub enum CreateStep {
    /// Store the files.
    Insert,
    /// Open a transaction.
    Open,
    /// Match the files that were stored.
    Match,
    Commit,
    End,
}

/// What came of a step in the indexing of new files.
#[derive(Clone, Copy, Debug, PartialEq, Eq, Structural)]
pub enum CreateReply {
    Failed,
    Done,
    /// So many files were stored.
    Stored(usize),
}

/// The indexing of new files: those that were stored, if any, are matched, and nothing is committed where
/// that fails.
pub open spec fn creation(replies: Seq<CreateReply>) -> CreateStep {
    if replies.len() == 0 {
        CreateStep::Insert
    } else if !(replies[0] is Stored) || replies[0]->Stored_0 == 0 {
        CreateStep::End
    } else if replies.len() == 1 {
        CreateStep::Open
    } else if replies[1] is Failed {
        CreateStep::End
    } else if replies.len() == 2 {
        CreateStep::Match
    } else if replies[2] is Failed {
        CreateStep::End
    } else if replies.len() == 3 {
        CreateStep::Commit
    } else {
        CreateStep::End
    }
}

/// Goes on with the indexing of new files.
pub fn handle_create_files(replies: &Vec<CreateReply>) -> (r: CreateStep)
    ensures
        r == creation(replies@),
{
    let n: usize = replies.len();
    if n == 0 {
        return CreateStep::Insert;
    }
    let stored: usize = match replies[0] {
        CreateReply::Stored(k) => k,
        _ => 0,
    };
    if stored == 0 {
        return CreateStep::End;
    }
    if n == 1 {
        return CreateStep::Open;
    }
    if replies[1] == CreateReply::Failed {
        return CreateStep::End;
    }
    if n == 2 {
        return CreateStep::Match;
    }
    if replies[2] == CreateReply::Failed {
        return CreateStep::End;
    }
    if n == 3 {
        CreateStep::Commit
    } else {
        CreateStep::End
    }
}

/// Goes on with handling a removed file.
pub fn handle_remove(path: &String, replies: &Vec<WatchReply>) -> (r: WatchStep)
    ensures
        r == removal(*path, replies@),
{
    let n: usize = replies.len();
    if n == 0 {
        return WatchStep::Do(WatchOp::FileByPath(path.clone()));
    }
    let id: i64 = match replies[0] {
        WatchReply::Id(id) => id,
        _ => {
            return WatchStep::End;
        },
    };
    if n == 1 {
        return WatchStep::Do(WatchOp::MediaOfFile(id));
    }
    if n == 2 {
        return WatchStep::Do(WatchOp::DeleteFile(id));
    }
    if replies[2] != WatchReply::Done {
        return WatchStep::End;
    }
    let media: i64 = match replies[1] {
        WatchReply::Id(media) => media,
        _ => {
            return commit_after(replies, 3);
        },
    };
    if n == 3 {
        return WatchStep::Do(WatchOp::FilesOfMedia(media));
    }
    if replies[3] != WatchReply::Count(0) {
        return commit_after(replies, 4);
    }
    if n == 4 {
        return WatchStep::Do(WatchOp::DeleteMedia(media));
    }
    if replies[4] != WatchReply::Done {
        return WatchStep::End;
    }
    commit_after(replies, 5)
}

/// The handling of a renamed file.
pub open spec fn renaming(from: String, to: String, replies: Seq<WatchReply>) -> WatchStep {
    if replies.len() == 0 {
        WatchStep::Do(WatchOp::FileByPath(from))
    } else if !(replies[0] is Id) {
        WatchStep::End
    } else if replies.len() == 1 {
        WatchStep::Do(WatchOp::MoveFile { id: replies[0]->Id_0, to })
    } else {
        commit_at(replies, 2)
    }
}

/// Goes on with handling a renamed file.
pub fn handle_rename(from: &String, to: &String, replies: &Vec<WatchReply>) -> (r: WatchStep)
    ensures
        r == renaming(*from, *to, replies@),
{
    let n: usize = replies.len();
    if n == 0 {
        return WatchStep::Do(WatchOp::FileByPath(from.clone()));
    }
    let id: i64 = match replies[0] {
        WatchReply::Id(id) => id,
        _ => {
            return WatchStep::End;
        },
    };
    if n == 1 {
        return WatchStep::Do(WatchOp::MoveFile { id, to: to.clone() });
    }
    commit_after(replies, 2)
}

/// A media item is deleted only after its last file: its files were counted and there was none.
pub proof fn law_media_with_files_stay(path: String, replies: Seq<WatchReply>)
    requires
        removal(path, replies) is Do,
        removal(path, replies)->Do_0 is DeleteMedia,
    ensures
        replies.last() == WatchReply::Count(0),
        removal(path, replies.drop_last()) == WatchStep::Do(
            WatchOp::FilesOfMedia(removal(path, replies)->Do_0->DeleteMedia_0),
        ),
{
}

/// A file is not indexed by itself where a directory above it is scanned.
pub proof fn law_scanned_files_are_not_indexed(events: Seq<FsEvent>, i: int)
    requires
        0 <= i < indexed_files(events).len(),
    ensures
        !covered(indexed_files(events)[i], scanned_dirs(events)),
{
    let tops = scanned_dirs(events);
    let all = tidy(created_files(events, events.len() as int));
    let f = |f: Seq<char>| !covered(f, tops);
    all.lemma_filter_pred(f, i);
}

/// The new directories of a batch of events are those of its creations.
proof fn lemma_dirs_in(paths: Seq<SeenPath>, k: int, i: int)
    requires
        0 <= i < k <= paths.len(),
    ensures
        paths[i].is_dir ==> dirs_in(paths, k).contains(paths[i].path@),
        is_new_file(paths[i]) ==> files_in(paths, k).contains(paths[i].path@),
    decreases k,
{
    let d = dirs_in(paths, k - 1);
    let f = files_in(paths, k - 1);
    if i < k - 1 {
        lemma_dirs_in(paths, k - 1, i);
        if paths[i].is_dir {
            let j = choose|j: int| 0 <= j < d.len() && d[j] == paths[i].path@;
            assert(dirs_in(paths, k)[j] == paths[i].path@);
        }
        if is_new_file(paths[i]) {
            let j = choose|j: int| 0 <= j < f.len() && f[j] == paths[i].path@;
            assert(files_in(paths, k)[j] == paths[i].path@);
        }
    } else {
        if paths[i].is_dir {
            assert(dirs_in(paths, k)[d.len() as int] == paths[i].path@);
        }
        if is_new_file(paths[i]) {
            assert(files_in(paths, k)[f.len() as int] == paths[i].path@);
        }
    }
}

/// What an event has created is among what the batch has created.
proof fn lemma_created(events: Seq<FsEvent>, k: int, e: int, i: int)
    requires
        0 <= e < k <= events.len(),
        events[e].kind is Created,
        0 <= i < events[e].paths@.len(),
    ensures
        events[e].paths@[i].is_dir ==> created_dirs(events, k).contains(events[e].paths@[i].path@),
        is_new_file(events[e].paths@[i]) ==> created_files(events, k).contains(
            events[e].paths@[i].path@,
        ),
    decreases k,
{
    let p = events[e].paths@[i];
    let d = created_dirs(events, k);
    let f = created_files(events, k);
    let d0 = created_dirs(events, k - 1);
    let f0 = created_files(events, k - 1);
    if e < k - 1 {
        lemma_created(events, k - 1, e, i);
        if p.is_dir {
            let j = choose|j: int| 0 <= j < d0.len() && d0[j] == p.path@;
            assert(d[j] == p.path@);
        }
        if is_new_file(p) {
            let j = choose|j: int| 0 <= j < f0.len() && f0[j] == p.path@;
            assert(f[j] == p.path@);
        }
    } else {
        let paths = events[e].paths@;
        lemma_dirs_in(paths, paths.len() as int, i);
        let dn = dirs_in(paths, paths.len() as int);
        let fnew = files_in(paths, paths.len() as int);
        if p.is_dir {
            let j = choose|j: int| 0 <= j < dn.len() && dn[j] == p.path@;
            assert(d[d0.len() + j] == p.path@);
        }
        if is_new_file(p) {
            let j = choose|j: int| 0 <= j < fnew.len() && fnew[j] == p.path@;
            assert(f[f0.len() + j] == p.path@);
        }
    }
}

/// A new directory is scanned, or one above it is.
pub proof fn law_new_directories_are_scanned(events: Seq<FsEvent>, e: int, i: int)
    requires
        0 <= e < events.len(),
        events[e].kind is Created,
        0 <= i < events[e].paths@.len(),
        events[e].paths@[i].is_dir,
    ensures
        exists|d: Seq<char>|
            #[trigger] batch_deeds(events).contains(Deed::Scan(d)) && is_under(
                events[e].paths@[i].path@,
                d,
            ),
{
    let path = events[e].paths@[i].path@;
    let dirs = created_dirs(events, events.len() as int);
    lemma_created(events, events.len() as int, e, i);
    law_tidy_paths_are_in_order(dirs);
    law_topmost_cover(tidy(dirs));
    let n = choose|n: int| 0 <= n < dirs.len() && dirs[n] == path;
    assert(holds_path(tidy(dirs), dirs[n]));
    let t = tidy(dirs);
    let j = choose|j: int| 0 <= j < t.len() && components(#[trigger] t[j]) == components(path);
    assert(covered(t[j], topmost(t)));
    let tops = scanned_dirs(events);
    let m = choose|m: int| 0 <= m < tops.len() && is_under(t[j], #[trigger] tops[m]);
    lemma_scans_are_deeds(events, m);
    assert(is_under(path, tops[m]));
}

/// Every directory that is scanned is a deed.
proof fn lemma_scans_are_deeds(events: Seq<FsEvent>, m: int)
    requires
        0 <= m < scanned_dirs(events).len(),
    ensures
        batch_deeds(events).contains(Deed::Scan(scanned_dirs(events)[m])),
{
    let first = all_at_once(events, events.len() as int);
    let all = batch_deeds(events);
    assert(all[first.len() + m] == Deed::Scan(scanned_dirs(events)[m]));
}

/// A new media file is indexed, or lies under a directory that is scanned.
pub proof fn law_new_files_are_indexed_or_scanned(events: Seq<FsEvent>, e: int, i: int)
    requires
        0 <= e < events.len(),
        events[e].kind is Created,
        0 <= i < events[e].paths@.len(),
        ({
            let p = events[e].paths@[i];
            !p.is_dir && p.is_file && extension_of(p.path@) is Some && supported(extension_of(p.path@)->0)
        }),
    ensures
        covered(events[e].paths@[i].path@, scanned_dirs(events)) || holds_path(
            indexed_files(events),
            events[e].paths@[i].path@,
        ),
        indexed_files(events).len() > 0 ==> batch_deeds(events).contains(
            Deed::Index(indexed_files(events)),
        ),
{
    let path = events[e].paths@[i].path@;
    let files = created_files(events, events.len() as int);
    lemma_created(events, events.len() as int, e, i);
    law_tidy_paths_are_in_order(files);
    let n = choose|n: int| 0 <= n < files.len() && files[n] == path;
    assert(holds_path(tidy(files), files[n]));
    let t = tidy(files);
    let j = choose|j: int| 0 <= j < t.len() && components(#[trigger] t[j]) == components(path);
    let tops = scanned_dirs(events);
    let f = |x: Seq<char>| !covered(x, tops);
    if covered(t[j], tops) {
        let m = choose|m: int| 0 <= m < tops.len() && is_under(t[j], #[trigger] tops[m]);
        assert(is_under(path, tops[m]));
    } else {
        t.lemma_filter_contains(f, j);
        let r = indexed_files(events);
        let k = choose|k: int| 0 <= k < r.len() && r[k] == t[j];
        assert(components(r[k]) == components(path));
    }
    if indexed_files(events).len() > 0 {
        let all = batch_deeds(events);
        assert(all[all.len() - 1] == Deed::Index(indexed_files(events)));
    }
}

/// What is done at once about an event is done.
proof fn lemma_at_once(events: Seq<FsEvent>, k: int, e: int, i: int)
    requires
        0 <= e < k <= events.len(),
        0 <= i < at_once(events[e]).len(),
    ensures
        all_at_once(events, k).contains(at_once(events[e])[i]),
    decreases k,
{
    let before = all_at_once(events, k - 1);
    let now = all_at_once(events, k);
    if e < k - 1 {
        lemma_at_once(events, k - 1, e, i);
        let j = choose|j: int| 0 <= j < before.len() && before[j] == at_once(events[e])[i];
        assert(now[j] == at_once(events[e])[i]);
    } else {
        assert(now[before.len() + i] == at_once(events[e])[i]);
    }
}

/// Every path that was removed is taken out, and a file that was renamed is renamed.
pub proof fn law_removals_and_renames_are_followed(events: Seq<FsEvent>, e: int, i: int)
    requires
        0 <= e < events.len(),
        0 <= i < events[e].paths@.len(),
    ensures
        events[e].kind is Removed ==> batch_deeds(events).contains(
            Deed::Remove(events[e].paths@[i].path@),
        ),
        events[e].kind is Renamed && events[e].paths@.len() == 2 ==> batch_deeds(events).contains(
            Deed::Rename(events[e].paths@[0].path@, events[e].paths@[1].path@),
        ),
{
    let n = events.len() as int;
    let first = all_at_once(events, n);
    let all = batch_deeds(events);
    if events[e].kind is Removed {
        lemma_at_once(events, n, e, i);
        let d = Deed::Remove(events[e].paths@[i].path@);
        assert(at_once(events[e])[i] == d);
        let j = choose|j: int| 0 <= j < first.len() && first[j] == d;
        assert(all[j] == d);
    }
    if events[e].kind is Renamed && events[e].paths@.len() == 2 {
        lemma_at_once(events, n, e, 0);
        let d = Deed::Rename(events[e].paths@[0].path@, events[e].paths@[1].path@);
        assert(at_once(events[e])[0] == d);
        let j = choose|j: int| 0 <= j < first.len() && first[j] == d;
        assert(all[j] == d);
    }
}

/// A removed file is looked up, deleted, and with it its media item where that has no other file; all that is
/// committed.
pub proof fn law_removed_files_are_deleted(path: String, file: i64, media: i64, n: u64)
    ensures
        removal(path, Seq::empty()) == WatchStep::Do(WatchOp::FileByPath(path)),
        removal(path, seq![WatchReply::Id(file)]) == WatchStep::Do(WatchOp::MediaOfFile(file)),
        removal(path, seq![WatchReply::Id(file), WatchReply::Id(media)]) == WatchStep::Do(
            WatchOp::DeleteFile(file),
        ),
        ({
            let deleted = seq![WatchReply::Id(file), WatchReply::Id(media), WatchReply::Done];
            let counted = deleted.push(WatchReply::Count(n));
            &&& removal(path, deleted) == WatchStep::Do(WatchOp::FilesOfMedia(media))
            &&& n == 0 ==> removal(path, counted) == WatchStep::Do(WatchOp::DeleteMedia(media))
            &&& n > 0 ==> removal(path, counted) == WatchStep::Do(WatchOp::Commit)
            &&& n == 0 ==> removal(path, counted.push(WatchReply::Done)) == WatchStep::Do(WatchOp::Commit)
        }),
{
}

/// A file that is not known, or that cannot be deleted, changes nothing.
pub proof fn law_unknown_files_are_not_deleted(path: String, replies: Seq<WatchReply>)
    requires
        replies.len() > 0,
        !(replies[0] is Id) || replies.len() > 2 && !(replies[2] is Done),
    ensures
        removal(path, replies) is End,
{
}

/// A renamed file is looked up by its old path and given the new one.
pub proof fn law_renamed_files_are_moved(from: String, to: String, file: i64, x: WatchReply)
    ensures
        renaming(from, to, Seq::empty()) == WatchStep::Do(WatchOp::FileByPath(from)),
        renaming(from, to, seq![WatchReply::Id(file)]) == WatchStep::Do(
            (WatchOp::MoveFile { id: file, to }),
        ),
        renaming(from, to, seq![WatchReply::Id(file), x]) == WatchStep::Do(WatchOp::Commit),
        !(x is Id) ==> renaming(from, to, seq![x]) is End,
{
}

/// New files are stored, and those that were stored are matched in a transaction.
pub proof fn law_new_files_are_matched(n: usize)
    requires
        n > 0,
    ensures
        creation(Seq::empty()) is Insert,
        creation(seq![CreateReply::Stored(n)]) is Open,
        creation(seq![CreateReply::Stored(n), CreateReply::Done]) is Match,
        creation(seq![CreateReply::Stored(n), CreateReply::Done, CreateReply::Done]) is Commit,
        creation(seq![CreateReply::Stored(n), CreateReply::Done, CreateReply::Failed]) is End,
        creation(seq![CreateReply::Stored(n), CreateReply::Failed]) is End,
        creation(seq![CreateReply::Stored(0)]) is End,
        creation(seq![CreateReply::Failed]) is End,
{
}

/// A library is followed by watching all of its directories.
pub proof fn law_libraries_are_followed(
    step: DaemonStep,
    library_id: i64,
    replies: Seq<DaemonReply>,
    locations: Vec<String>,
)
    requires
        is_start(step, library_id, replies),
    ensures
        replies.len() == 0 ==> step == DaemonStep::Do(DaemonOp::Open),
        replies == seq![DaemonReply::Done] ==> step == DaemonStep::Do((DaemonOp::Library { library_id })),
        replies == seq![DaemonReply::Done, DaemonReply::Locations(locations)] ==> (step matches DaemonStep::Do(
            op,
        ) && (op matches DaemonOp::Watch { paths } && views(paths@) == views(locations@))),
        replies == seq![DaemonReply::Done, DaemonReply::Locations(locations), DaemonReply::Done]
            ==> step is Follow,
        replies == seq![DaemonReply::Done, DaemonReply::Locations(locations), DaemonReply::Failed] ==> step
            == DaemonStep::Failed(FsWatcherError::NotifyError),
{
}

}
