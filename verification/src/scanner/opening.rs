//! How a scan of a library of shows opens: from the library to its unmatched files.

use vstd::prelude::*;

use crate::events::{Message, PushEventType};
use crate::external::ExternalSeason;
use crate::filename::{Meta, Metadata};
use crate::scanner::episodes::{resolve_from, Resolving};
use crate::scanner::lookup::{episodes_in, seasons_in, LookupReply};
use crate::scanner::parse::{folder_season, opt_metas};
use crate::scanner::scan::LibraryScanError;
use crate::scanner::scan_run::{batching, identifying, scanning, Identified, Ids, ScanAct, Scanning};
use crate::scanner::smart_scan::{absolute_number, filled, numbering, KnownFile};

verus! {

/// A step in the opening of a scan.
#[derive(Clone, Copy, Debug, PartialEq, Eq, Structural)]
pub enum OpeningOp {
    LoadLibrary,
    /// Tell that the scan has started.
    AnnounceStart,
    /// Store the files that are found.
    InsertFiles,
    /// Load the matched files with their shows.
    LoadMappings,
    /// Load the unmatched files.
    LoadUnmatched,
    /// Tell that the scan has stopped.
    AnnounceStop,
}

/// What came of a step in the opening of a scan.
#[derive(Clone, Copy, Debug, PartialEq, Eq, Structural)]
pub enum OpeningReply {
    /// The database could not be asked, nobody could be told, or the files could not be stored.
    Failed,
    /// The database was asked, and had no answer.
    Missing,
    Done,
    /// So many were loaded.
    Loaded(usize),
}

/// What the opening of a scan has come to.
#[derive(Clone, Copy, Debug, PartialEq, Eq, Structural)]
pub enum OpeningStep {
    Do(OpeningOp),
    /// Match the unmatched files, with the help of the matched ones where these were loaded, and else as if
    /// there were none.
    Match { mapped: bool },
    /// No file is unmatched.
    Finished,
    Stopped(LibraryScanError),
}

/// The opening of a scan: the library is looked up, the start is told, new files are stored, and the matched
/// and the unmatched files are loaded. What cannot be loaded of these counts as none. Where no file is
/// unmatched, the end is told.
pub open spec fn opening(replies: Seq<OpeningReply>) -> OpeningStep {
    if replies.len() == 0 {
        OpeningStep::Do(OpeningOp::LoadLibrary)
    } else if replies[0] is Failed {
        OpeningStep::Stopped(LibraryScanError::DatabaseError)
    } else if replies[0] is Missing {
        OpeningStep::Stopped(LibraryScanError::LibraryNotFound)
    } else if replies.len() == 1 {
        OpeningStep::Do(OpeningOp::AnnounceStart)
    } else if replies[1] is Failed {
        OpeningStep::Stopped(LibraryScanError::EventDispatch)
    } else if replies.len() == 2 {
        OpeningStep::Do(OpeningOp::InsertFiles)
    } else if replies[2] is Failed {
        OpeningStep::Stopped(LibraryScanError::Creator)
    } else if replies.len() == 3 {
        OpeningStep::Do(OpeningOp::LoadMappings)
    } else if replies[3] is Failed {
        OpeningStep::Stopped(LibraryScanError::DatabaseError)
    } else if replies.len() == 4 {
        OpeningStep::Do(OpeningOp::LoadUnmatched)
    } else if replies[4] is Failed {
        OpeningStep::Stopped(LibraryScanError::DatabaseError)
    } else if replies[4] is Loaded && replies[4]->Loaded_0 > 0 {
        OpeningStep::Match { mapped: replies[3] is Loaded }
    } else if replies.len() == 5 {
        OpeningStep::Do(OpeningOp::AnnounceStop)
    } else if replies[5] is Failed {
        OpeningStep::Stopped(LibraryScanError::EventDispatch)
    } else {
        OpeningStep::Finished
    }
}

/// Goes on with the opening of a scan.
pub fn smart_scan_opening(replies: &Vec<OpeningReply>) -> (r: OpeningStep)
    ensures
        r == opening(replies@),
{
    let n: usize = replies.len();
    if n == 0 {
        return OpeningStep::Do(OpeningOp::LoadLibrary);
    }
    match replies[0] {
        OpeningReply::Failed => {
            return OpeningStep::Stopped(LibraryScanError::DatabaseError);
        },
        OpeningReply::Missing => {
            return OpeningStep::Stopped(LibraryScanError::LibraryNotFound);
        },
        _ => {},
    }
    if n == 1 {
        return OpeningStep::Do(OpeningOp::AnnounceStart);
    }
    if replies[1] == OpeningReply::Failed {
        return OpeningStep::Stopped(LibraryScanError::EventDispatch);
    }
    if n == 2 {
        return OpeningStep::Do(OpeningOp::InsertFiles);
    }
    if replies[2] == OpeningReply::Failed {
        return OpeningStep::Stopped(LibraryScanError::Creator);
    }
    if n == 3 {
        return OpeningStep::Do(OpeningOp::LoadMappings);
    }
    let mapped = match replies[3] {
        OpeningReply::Failed => {
            return OpeningStep::Stopped(LibraryScanError::DatabaseError);
        },
        OpeningReply::Loaded(_) => true,
        _ => false,
    };
    if n == 4 {
        return OpeningStep::Do(OpeningOp::LoadUnmatched);
    }
    let unmatched: usize = match replies[4] {
        OpeningReply::Failed => {
            return OpeningStep::Stopped(LibraryScanError::DatabaseError);
        },
        OpeningReply::Loaded(k) => k,
        _ => 0,
    };
    if unmatched > 0 {
        return OpeningStep::Match { mapped };
    }
    if n == 5 {
        return OpeningStep::Do(OpeningOp::AnnounceStop);
    }
    if replies[5] == OpeningReply::Failed {
        OpeningStep::Stopped(LibraryScanError::EventDispatch)
    } else {
        OpeningStep::Finished
    }
}

/// The message that tells of the start or the end of a scan.
pub fn scan_message(library_id: i64, started: bool) -> (r: Message)
    ensures
        r.id == library_id,
        started ==> r.event_type is EventStartedScanning,
        !started ==> r.event_type is EventStoppedScanning,
{
    Message {
        id: library_id,
        event_type: if started {
            PushEventType::EventStartedScanning
        } else {
            PushEventType::EventStoppedScanning
        },
    }
}

/// What is told of a scan.
pub enum Announcement {
    Start,
    Stop,
}

/// What was told in the first `k` steps of an opening.
pub open spec fn told_in_opening(replies: Seq<OpeningReply>, k: int) -> Seq<Announcement>
    decreases k,
{
    if k <= 0 {
        Seq::empty()
    } else {
        let before = told_in_opening(replies, k - 1);
        match opening(replies.take(k - 1)) {
            OpeningStep::Do(OpeningOp::AnnounceStart) => before.push(Announcement::Start),
            OpeningStep::Do(OpeningOp::AnnounceStop) => before.push(Announcement::Stop),
            _ => before,
        }
    }
}

/// What was told in the first `k` steps of the matching.
pub open spec fn told_in_matching(
    known: Seq<KnownFile>,
    parsed: Seq<Option<Vec<Metadata>>>,
    batches: int,
    replies: Seq<LookupReply>,
    k: int,
) -> Seq<Announcement>
    decreases k,
{
    if k <= 0 {
        Seq::empty()
    } else {
        let before = told_in_matching(known, parsed, batches, replies, k - 1);
        match scanning(known, parsed, batches, 0, Map::empty(), replies.take(k - 1), 0) {
            Scanning::Do(ScanAct::AnnounceStop) => before.push(Announcement::Stop),
            _ => before,
        }
    }
}

/// A scan that ends well has told of its start once, and then of its end once, whether files were unmatched
/// or not, and whatever came of matching them.
pub proof fn law_scans_are_announced_once(
    first: Seq<OpeningReply>,
    known: Seq<KnownFile>,
    parsed: Seq<Option<Vec<Metadata>>>,
    batches: int,
    then: Seq<LookupReply>,
)
    ensures
        opening(first) is Finished ==> told_in_opening(first, first.len() as int) == seq![
            Announcement::Start,
            Announcement::Stop,
        ],
        opening(first) is Match && scanning(known, parsed, batches, 0, Map::empty(), then, 0) is Done
            ==> told_in_opening(first, first.len() as int) + told_in_matching(
            known,
            parsed,
            batches,
            then,
            then.len() as int,
        ) == seq![Announcement::Start, Announcement::Stop],
{
    if opening(first) is Finished || opening(first) is Match {
        lemma_told_in_opening(first, first.len() as int);
    }
    if opening(first) is Match && scanning(known, parsed, batches, 0, Map::empty(), then, 0) is Done {
        let e = lemma_stops_once(known, parsed, batches, 0, Map::empty(), then, 0);
        lemma_told_in_matching(known, parsed, batches, then, then.len() as int, e);
        assert(seq![Announcement::Start] + seq![Announcement::Stop] =~= seq![
            Announcement::Start,
            Announcement::Stop,
        ]);
    }
}

/// Where there is no such library, the scan fails so, and nothing is told.
pub proof fn law_missing_libraries_are_not_announced(replies: Seq<OpeningReply>)
    requires
        replies.len() > 0,
        replies[0] is Missing,
    ensures
        opening(replies) == OpeningStep::Stopped(LibraryScanError::LibraryNotFound),
        told_in_opening(replies, replies.len() as int) == Seq::<Announcement>::empty(),
{
    lemma_untold(replies, replies.len() as int);
}

proof fn lemma_untold(replies: Seq<OpeningReply>, k: int)
    requires
        0 <= k <= replies.len(),
        replies.len() > 0,
        replies[0] is Missing,
    ensures
        told_in_opening(replies, k) == Seq::<Announcement>::empty(),
    decreases k,
{
    if k > 0 {
        lemma_untold(replies, k - 1);
        if k > 1 {
            assert(replies.take(k - 1)[0] == replies[0]);
        }
    }
}

/// What was told in the first `k` steps of an opening that has come to its end.
proof fn lemma_told_in_opening(replies: Seq<OpeningReply>, k: int)
    requires
        0 <= k <= replies.len(),
        opening(replies) is Finished || opening(replies) is Match,
    ensures
        told_in_opening(replies, k) == if k <= 1 {
            Seq::empty()
        } else if k <= 5 || opening(replies) is Match {
            seq![Announcement::Start]
        } else {
            seq![Announcement::Start, Announcement::Stop]
        },
    decreases k,
{
    if k > 0 {
        lemma_told_in_opening(replies, k - 1);
        let t = replies.take(k - 1);
        assert forall|i: int| 0 <= i < t.len() implies #[trigger] t[i] == replies[i] by {}
        if k == 2 {
            assert(told_in_opening(replies, k) =~= seq![Announcement::Start]);
        } else if k == 6 && opening(replies) is Finished {
            assert(told_in_opening(replies, k) =~= seq![Announcement::Start, Announcement::Stop]);
        }
    }
}

/// What was told in the first `k` steps of a matching that tells of its end in the step at `e`.
proof fn lemma_told_in_matching(
    known: Seq<KnownFile>,
    parsed: Seq<Option<Vec<Metadata>>>,
    batches: int,
    replies: Seq<LookupReply>,
    k: int,
    e: int,
)
    requires
        0 <= k <= replies.len(),
        0 <= e < replies.len(),
        forall|j: int|
            0 <= j <= replies.len() ==> (stops(
                known,
                parsed,
                batches,
                0,
                Map::empty(),
                #[trigger] replies.take(j),
                0,
            ) <==> j == e),
    ensures
        told_in_matching(known, parsed, batches, replies, k) == if k <= e {
            Seq::empty()
        } else {
            seq![Announcement::Stop]
        },
    decreases k,
{
    if k > 0 {
        lemma_told_in_matching(known, parsed, batches, replies, k - 1, e);
        assert(stops(known, parsed, batches, 0, Map::empty(), replies.take(k - 1), 0) <==> k - 1 == e);
        if k - 1 == e {
            assert(told_in_matching(known, parsed, batches, replies, k) =~= seq![Announcement::Stop]);
        }
    }
}

/// The next step of the matching tells of its end.
spec fn stops(
    known: Seq<KnownFile>,
    parsed: Seq<Option<Vec<Metadata>>>,
    batches: int,
    k: int,
    ids: Ids,
    replies: Seq<LookupReply>,
    c: int,
) -> bool {
    scanning(known, parsed, batches, k, ids, replies, c) == Scanning::Do(ScanAct::AnnounceStop)
}

/// A matching that has come to its end told of it in one step, which is given.
proof fn lemma_stops_once(
    known: Seq<KnownFile>,
    parsed: Seq<Option<Vec<Metadata>>>,
    batches: int,
    k: int,
    ids: Ids,
    replies: Seq<LookupReply>,
    c: int,
) -> (e: int)
    requires
        0 <= k,
        0 <= c <= replies.len(),
        scanning(known, parsed, batches, k, ids, replies, c) is Done,
    ensures
        c <= e < replies.len(),
        forall|j: int|
            c <= j <= replies.len() ==> (stops(
                known,
                parsed,
                batches,
                k,
                ids,
                #[trigger] replies.take(j),
                c,
            ) <==> j == e),
    decreases known.len() - k,
{
    if k >= known.len() {
        let e = lemma_batches_stop_once(batches, 0, replies, c);
        assert forall|j: int| c <= j <= replies.len() implies (stops(
            known,
            parsed,
            batches,
            k,
            ids,
            #[trigger] replies.take(j),
            c,
        ) <==> j == e) by {
            assert(batching(batches, 0, replies.take(j), c) == Scanning::Do(ScanAct::AnnounceStop) <==> j
                == e);
        }
        e
    } else {
        let got = identifying(known, k, ids, replies, c);
        let (id, more, d) = (got->Got_0, got->Got_1, got->Got_2);
        if id is None || parsed[k] is None {
            let e = lemma_stops_once(known, parsed, batches, k + 1, more, replies, d);
            assert forall|j: int| c <= j <= replies.len() implies (stops(
                known,
                parsed,
                batches,
                k,
                ids,
                #[trigger] replies.take(j),
                c,
            ) <==> j == e) by {
                lemma_identifying_prefix(known, k, ids, replies, c, j);
                if j >= d {
                    assert(stops(known, parsed, batches, k + 1, more, replies.take(j), d) <==> j == e);
                }
            }
            e
        } else {
            let path = known[k].file.target_file@;
            let ms = opt_metas(parsed[k])->0;
            let settled = numbering(path, ms, id->0, replies, d);
            let n = settled->Settled_1;
            lemma_numbering_prefix(path, ms, id->0, replies, d, replies.len() as int);
            let e = lemma_stops_once(known, parsed, batches, k + 1, more, replies, n + 3);
            assert forall|j: int| c <= j <= replies.len() implies (stops(
                known,
                parsed,
                batches,
                k,
                ids,
                #[trigger] replies.take(j),
                c,
            ) <==> j == e) by {
                let t = replies.take(j);
                lemma_identifying_prefix(known, k, ids, replies, c, j);
                if j >= d {
                    lemma_numbering_prefix(path, ms, id->0, replies, d, j);
                    if j >= n + 3 {
                        assert(t[n] == replies[n]);
                        assert(t[n + 2] == replies[n + 2]);
                        assert(stops(known, parsed, batches, k + 1, more, t, n + 3) <==> j == e);
                    } else if j > n {
                        assert(t[n] == replies[n]);
                    }
                }
            }
            e
        }
    }
}

/// The batches tell of the end in one step, which is given.
proof fn lemma_batches_stop_once(batches: int, b: int, replies: Seq<LookupReply>, c: int) -> (e: int)
    requires
        0 <= c <= replies.len(),
        batching(batches, b, replies, c) is Done,
    ensures
        c <= e < replies.len(),
        forall|j: int|
            c <= j <= replies.len() ==> (batching(batches, b, #[trigger] replies.take(j), c)
                == Scanning::Do(ScanAct::AnnounceStop) <==> j == e),
    decreases batches - b,
{
    if b >= batches {
        c
    } else {
        let e = lemma_batches_stop_once(batches, b + 1, replies, c + 3);
        assert forall|j: int| c <= j <= replies.len() implies (batching(
            batches,
            b,
            #[trigger] replies.take(j),
            c,
        ) == Scanning::Do(ScanAct::AnnounceStop) <==> j == e) by {
            let t = replies.take(j);
            if j > c {
                assert(t[c] == replies[c]);
            }
            if j >= c + 3 {
                assert(t[c + 2] == replies[c + 2]);
                assert(batching(batches, b + 1, t, c + 3) == Scanning::Do(ScanAct::AnnounceStop) <==> j
                    == e);
            }
        }
        e
    }
}

/// With fewer replies than it took to find the id of a show, something is still asked; with as many, the
/// same is found.
proof fn lemma_identifying_prefix(
    known: Seq<KnownFile>,
    k: int,
    ids: Ids,
    replies: Seq<LookupReply>,
    c: int,
    j: int,
)
    requires
        0 <= c <= j <= replies.len(),
        identifying(known, k, ids, replies, c) is Got,
    ensures
        ({
            let got = identifying(known, k, ids, replies, c);
            let then = identifying(known, k, ids, replies.take(j), c);
            &&& c < got->Got_2 <= replies.len()
            &&& j >= got->Got_2 ==> then == got
            &&& j < got->Got_2 ==> (then matches Identified::Do(act) && !(act is AnnounceStop))
        }),
{
    let t = replies.take(j);
    if j > c {
        assert(t[c] == replies[c]);
    }
    if j > c + 1 {
        assert(t[c + 1] == replies[c + 1]);
    }
}

/// With fewer replies than it took to work out the numbers of a file, something is still asked; with as
/// many, the same comes out.
proof fn lemma_numbering_prefix(
    path: Seq<char>,
    parsed: Seq<Meta>,
    id: Seq<char>,
    replies: Seq<LookupReply>,
    c: int,
    j: int,
)
    requires
        0 <= c <= j <= replies.len(),
        numbering(path, parsed, id, replies, c) is Settled,
    ensures
        ({
            let end = numbering(path, parsed, id, replies, c)->Settled_1;
            let then = numbering(path, parsed, id, replies.take(j), c);
            &&& c <= end <= replies.len()
            &&& j >= end ==> then == numbering(path, parsed, id, replies, c)
            &&& j < end ==> then is Ask
        }),
{
    let ms = filled(parsed, folder_season(path));
    if let Some(absolute) = absolute_number(ms) {
        let t = replies.take(j);
        if j > c {
            assert(t[c] == replies[c]);
        }
        if let Some(seasons) = seasons_in(replies[c]) {
            if j > c {
                lemma_resolve_prefix(id, absolute as int, seasons, 0, 0, replies, c + 1, j);
            } else {
                lemma_resolve_prefix(id, absolute as int, seasons, 0, 0, replies, c + 1, c + 1);
            }
        }
    }
}

/// Where the replies that it took to resolve a number end.
spec fn resolve_end(r: Resolving) -> int {
    match r {
        Resolving::Ask(q) => 0,
        Resolving::Unresolved(d) => d,
        Resolving::Resolved(a, d, e) => d + 1,
    }
}

proof fn lemma_resolve_prefix(
    id: Seq<char>,
    absolute: int,
    seasons: Seq<ExternalSeason>,
    s: int,
    running: int,
    replies: Seq<LookupReply>,
    c: int,
    j: int,
)
    requires
        0 <= s,
        0 <= c <= j <= replies.len(),
        !(resolve_from(id, absolute, seasons, s, running, replies, c) is Ask),
    ensures
        ({
            let r = resolve_from(id, absolute, seasons, s, running, replies, c);
            let then = resolve_from(id, absolute, seasons, s, running, replies.take(j), c);
            &&& c <= resolve_end(r) <= replies.len()
            &&& r matches Resolving::Resolved(a, d, e) ==> c <= d
            &&& j >= resolve_end(r) ==> then == r
            &&& j < resolve_end(r) ==> then is Ask
        }),
    decreases seasons.len() - s,
{
    if s < seasons.len() {
        if seasons[s].season_number == 0 {
            lemma_resolve_prefix(id, absolute, seasons, s + 1, running, replies, c, j);
        } else {
            if j > c {
                assert(replies.take(j)[c] == replies[c]);
            }
            if let Some(eps) = episodes_in(replies[c]) {
                if absolute > running + eps.len() {
                    lemma_resolve_prefix(
                        id,
                        absolute,
                        seasons,
                        s + 1,
                        running + eps.len(),
                        replies,
                        c + 1,
                        if j > c {
                            j
                        } else {
                            c + 1
                        },
                    );
                }
            }
        }
    }
}

/// The opening of a scan goes step by step: the library is looked up, the start is told, new files are stored,
/// the matched files and the unmatched ones are loaded; and where some are unmatched they are matched, with the
/// help of the matched ones if these were loaded, and else the end is told.
pub proof fn law_scans_open_step_by_step(replies: Seq<OpeningReply>, n: usize, m: usize)
    requires
        forall|i: int| 0 <= i < replies.len() ==> (#[trigger] replies[i]) is Done || replies[i] is Loaded,
    ensures
        replies.len() < 5 ==> opening(replies) == OpeningStep::Do(
            seq![
                OpeningOp::LoadLibrary,
                OpeningOp::AnnounceStart,
                OpeningOp::InsertFiles,
                OpeningOp::LoadMappings,
                OpeningOp::LoadUnmatched,
            ][replies.len() as int],
        ),
        replies.len() == 5 && replies[3] == OpeningReply::Loaded(m) && replies[4] == OpeningReply::Loaded(n)
            && n > 0 ==> opening(replies) == (OpeningStep::Match { mapped: true }),
        replies.len() == 5 && replies[4] == OpeningReply::Loaded(0) ==> opening(replies) == OpeningStep::Do(
            OpeningOp::AnnounceStop,
        ),
        replies.len() == 6 && replies[4] == OpeningReply::Loaded(0) ==> opening(replies) is Finished,
{
    if replies.len() < 5 {
        assert(forall|i: int| 0 <= i < replies.len() ==> !(#[trigger] replies[i] is Failed) && !(replies[i]
            is Missing));
    }
    if replies.len() >= 5 {
        assert(!(replies[0] is Failed) && !(replies[0] is Missing) && !(replies[1] is Failed) && !(replies[2]
            is Failed) && !(replies[3] is Failed) && !(replies[4] is Failed));
    }
}

/// A step that fails stops the scan, with the error that goes with it.
pub proof fn law_scans_stop_where_a_step_fails(replies: Seq<OpeningReply>, i: int)
    requires
        0 <= i < 5,
        i < replies.len(),
        replies[i] is Failed,
        forall|j: int| 0 <= j < i ==> (#[trigger] replies[j]) is Done || replies[j] is Loaded,
    ensures
        opening(replies) == OpeningStep::Stopped(
            seq![
                LibraryScanError::DatabaseError,
                LibraryScanError::EventDispatch,
                LibraryScanError::Creator,
                LibraryScanError::DatabaseError,
                LibraryScanError::DatabaseError,
            ][i],
        ),
{
    assert(forall|j: int| 0 <= j < i ==> !(#[trigger] replies[j] is Failed) && !(replies[j] is Missing));
    if i > 0 {
        assert(!(replies[0] is Failed));
    }
    if i > 1 {
        assert(!(replies[1] is Failed));
    }
    if i > 2 {
        assert(!(replies[2] is Failed));
    }
    if i > 3 {
        assert(!(replies[3] is Failed));
    }
}

}
