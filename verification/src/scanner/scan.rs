//! A scan of a library by the names of its files: storing the files that were found, and matching them
//! batch by batch.

use vstd::prelude::*;

use crate::filename::Metadata;
use crate::scanner::matcher::WorkUnit;
use crate::scanner::records::MediaFile;
use crate::scanner::walk::{copy_file, is_paired, pair_units};

verus! {

/// How many files are stored at once.
pub const STORED_AT_ONCE: usize = 256;

/// What came of a step of storing files.
#[derive(Debug)]
pub enum InsertReply {
    /// The record of a file is ready to be stored.
    Ready,
    /// The file is stored already.
    FileExists,
    /// The file cannot be read, or the records cannot be stored.
    Failed,
    /// The records were stored as these files.
    Stored(Vec<MediaFile>),
}

/// What storing files has come to.
#[derive(Debug)]
pub enum InsertStep {
    /// Make a record of the file at this place, from the first that its name may say.
    Construct(usize),
    /// Store the records of the files at these places.
    Insert(Vec<usize>),
    /// Records could not be stored.
    Failed,
    /// These files are to be matched.
    Done(Vec<WorkUnit>),
}

/// What storing files has come to, with the files that were stored.
pub enum Inserting {
    Construct(usize),
    Insert(Seq<usize>),
    Failed,
    Done(Seq<MediaFile>),
}

/// The places of the files, of the first `k`, whose records are ready.
pub open spec fn ready_places(replies: Seq<InsertReply>, k: int) -> Seq<usize>
    decreases k,
{
    if k <= 0 {
        Seq::empty()
    } else if replies[k - 1] is Ready {
        ready_places(replies, k - 1).push((k - 1) as usize)
    } else {
        ready_places(replies, k - 1)
    }
}

/// Where the records end that are stored together, beginning with the one at `from`.
pub open spec fn batch_end(places: Seq<usize>, from: int) -> int {
    if from + STORED_AT_ONCE < places.len() {
        from + STORED_AT_ONCE
    } else {
        places.len() as int
    }
}

/// Storing the records from the one at `from` on, after these files were stored.
pub open spec fn storing_from(
    places: Seq<usize>,
    from: int,
    stored: Seq<MediaFile>,
    replies: Seq<InsertReply>,
    c: int,
) -> Inserting
    decreases places.len() - from,
{
    if from >= places.len() {
        Inserting::Done(stored)
    } else if c >= replies.len() {
        Inserting::Insert(places.subrange(from, batch_end(places, from)))
    } else {
        match replies[c] {
            InsertReply::Stored(files) => storing_from(
                places,
                batch_end(places, from),
                stored + files@,
                replies,
                c + 1,
            ),
            _ => Inserting::Failed,
        }
    }
}

/// Storing `n` files: a record is made of each, those that could be made are stored, and where some
/// cannot be stored it fails.
pub open spec fn inserting(n: int, replies: Seq<InsertReply>) -> Inserting {
    if replies.len() < n {
        Inserting::Construct(replies.len() as usize)
    } else {
        storing_from(ready_places(replies, n), 0, Seq::empty(), replies, n)
    }
}

/// Goes on with storing the files of which the names say something. A file that is stored already or
/// cannot be read is skipped, and the others are stored.
pub fn insert_mediafiles(parsed: &Vec<(String, Vec<Metadata>)>, replies: &Vec<InsertReply>) -> (r:
    InsertStep)
    ensures
        match (r, inserting(parsed@.len() as int, replies@)) {
            (InsertStep::Construct(i), Inserting::Construct(j)) => i == j < parsed@.len(),
            (InsertStep::Insert(v), Inserting::Insert(places)) => v@ == places,
            (InsertStep::Failed, Inserting::Failed) => true,
            (InsertStep::Done(units), Inserting::Done(files)) => is_paired(parsed@, files, units@),
            _ => false,
        },
{
    let n: usize = parsed.len();
    let len: usize = replies.len();
    if len < n {
        return InsertStep::Construct(len);
    }
    let mut places: Vec<usize> = Vec::new();
    let mut i: usize = 0;
    while i < n
        invariant
            0 <= i <= n <= replies@.len(),
            places@ == ready_places(replies@, i as int),
        decreases n - i,
    {
        if let InsertReply::Ready = &replies[i] {
            places.push(i);
        }
        i = i + 1;
    }
    let mut stored: Vec<MediaFile> = Vec::new();
    let mut from: usize = 0;
    let mut c: usize = n;
    assert(stored@ =~= Seq::<MediaFile>::empty());
    while from < places.len()
        invariant
            0 <= from,
            n <= c <= len == replies@.len(),
            n == parsed@.len(),
            inserting(n as int, replies@) == storing_from(
                places@,
                from as int,
                stored@,
                replies@,
                c as int,
            ),
        decreases places@.len() - from,
    {
        let total: usize = places.len();
        let to: usize = if total - from > STORED_AT_ONCE {
            from + STORED_AT_ONCE
        } else {
            total
        };
        if c >= len {
            let mut batch: Vec<usize> = Vec::new();
            let mut k: usize = from;
            while k < to
                invariant
                    from <= k <= to <= places@.len(),
                    batch@ =~= places@.subrange(from as int, k as int),
                decreases to - k,
            {
                batch.push(places[k]);
                k = k + 1;
            }
            return InsertStep::Insert(batch);
        }
        match &replies[c] {
            InsertReply::Stored(files) => {
                let ghost before = stored@;
                let mut k: usize = 0;
                while k < files.len()
                    invariant
                        0 <= k <= files@.len(),
                        stored@ =~= before + files@.take(k as int),
                    decreases files@.len() - k,
                {
                    stored.push(copy_file(&files[k]));
                    k = k + 1;
                }
                assert(files@.take(k as int) =~= files@);
            },
            _ => {
                return InsertStep::Failed;
            },
        }
        from = to;
        c = c + 1;
    }
    InsertStep::Done(pair_units(parsed, &stored))
}

/// What keeps a scan from being finished.
#[derive(Clone, Copy, Debug, PartialEq, Eq, Structural)]
pub enum LibraryScanError {
    LibraryNotFound,
    /// Nobody can be told of the scan.
    EventDispatch,
    /// The files cannot be stored.
    Creator,
    DatabaseError,
}

/// A step of a scan.
#[derive(Clone, Copy, Debug, PartialEq, Eq, Structural)]
pub enum LibraryScanOp {
    /// Tell that the scan has started.
    AnnounceStart,
    /// Store the files that are found, and cut what is to be matched into batches.
    InsertFiles,
    /// Open a transaction for the batch at this place.
    Open(usize),
    Match(usize),
    Commit(usize),
    /// Tell that the scan has stopped.
    AnnounceStop,
}

/// What came of a step of a scan.
#[derive(Clone, Copy, Debug, PartialEq, Eq, Structural)]
pub enum LibraryScanReply {
    Failed,
    Done,
    /// There are so many batches.
    Batches(usize),
}

/// What a scan has come to.
#[derive(Clone, Copy, Debug, PartialEq, Eq, Structural)]
pub enum LibraryScanStep {
    Do(LibraryScanOp),
    Finished,
    Stopped(LibraryScanError),
}

/// The scan from batch `b` of `n` on.
pub open spec fn scanning_from(n: int, b: int, replies: Seq<LibraryScanReply>, c: int) -> LibraryScanStep
    decreases n - b,
{
    if b >= n {
        if c >= replies.len() {
            LibraryScanStep::Do(LibraryScanOp::AnnounceStop)
        } else if replies[c] is Failed {
            LibraryScanStep::Stopped(LibraryScanError::EventDispatch)
        } else {
            LibraryScanStep::Finished
        }
    } else if c >= replies.len() {
        LibraryScanStep::Do(LibraryScanOp::Open(b as usize))
    } else if replies[c] is Failed {
        LibraryScanStep::Stopped(LibraryScanError::DatabaseError)
    } else if c + 1 >= replies.len() {
        LibraryScanStep::Do(LibraryScanOp::Match(b as usize))
    } else if c + 2 >= replies.len() {
        LibraryScanStep::Do(LibraryScanOp::Commit(b as usize))
    } else if replies[c + 2] is Failed {
        LibraryScanStep::Stopped(LibraryScanError::DatabaseError)
    } else {
        scanning_from(n, b + 1, replies, c + 3)
    }
}

/// A scan: its start is told, the files are stored, each batch is matched in a transaction of its own,
/// and its end is told.
pub open spec fn scanning(replies: Seq<LibraryScanReply>) -> LibraryScanStep {
    if replies.len() == 0 {
        LibraryScanStep::Do(LibraryScanOp::AnnounceStart)
    } else if replies[0] is Failed {
        LibraryScanStep::Stopped(LibraryScanError::EventDispatch)
    } else if replies.len() == 1 {
        LibraryScanStep::Do(LibraryScanOp::InsertFiles)
    } else {
        match replies[1] {
            LibraryScanReply::Batches(n) => scanning_from(n as int, 0, replies, 2),
            _ => LibraryScanStep::Stopped(LibraryScanError::Creator),
        }
    }
}

/// Goes on with a scan. A batch that cannot be matched does not keep the others from being matched, but a
/// transaction that cannot be opened or committed ends the scan.
pub fn start_custom(replies: &Vec<LibraryScanReply>) -> (r: LibraryScanStep)
    ensures
        r == scanning(replies@),
{
    let len: usize = replies.len();
    if len == 0 {
        return LibraryScanStep::Do(LibraryScanOp::AnnounceStart);
    }
    if replies[0] == LibraryScanReply::Failed {
        return LibraryScanStep::Stopped(LibraryScanError::EventDispatch);
    }
    if len == 1 {
        return LibraryScanStep::Do(LibraryScanOp::InsertFiles);
    }
    let n: usize = match replies[1] {
        LibraryScanReply::Batches(n) => n,
        _ => {
            return LibraryScanStep::Stopped(LibraryScanError::Creator);
        },
    };
    let mut b: usize = 0;
    let mut c: usize = 2;
    while b < n
        invariant
            0 <= b <= n,
            2 <= c <= len == replies@.len(),
            scanning(replies@) == scanning_from(n as int, b as int, replies@, c as int),
        decreases n - b,
    {
        if c >= len {
            return LibraryScanStep::Do(LibraryScanOp::Open(b));
        }
        if replies[c] == LibraryScanReply::Failed {
            return LibraryScanStep::Stopped(LibraryScanError::DatabaseError);
        }
        if len - c <= 1 {
            return LibraryScanStep::Do(LibraryScanOp::Match(b));
        }
        if len - c <= 2 {
            return LibraryScanStep::Do(LibraryScanOp::Commit(b));
        }
        if replies[c + 2] == LibraryScanReply::Failed {
            return LibraryScanStep::Stopped(LibraryScanError::DatabaseError);
        }
        c = c + 3;
        b = b + 1;
    }
    if c >= len {
        LibraryScanStep::Do(LibraryScanOp::AnnounceStop)
    } else if replies[c] == LibraryScanReply::Failed {
        LibraryScanStep::Stopped(LibraryScanError::EventDispatch)
    } else {
        LibraryScanStep::Finished
    }
}

/// What came of the search for a library.
#[derive(Clone, Copy, Debug, PartialEq, Eq, Structural)]
pub enum LibraryReply {
    /// The database could not be asked.
    Unreachable,
    Missing,
    Found,
}

/// Goes on with a scan of a library, once it was looked for.
pub fn start(library: LibraryReply, replies: &Vec<LibraryScanReply>) -> (r: LibraryScanStep)
    ensures
        r == match library {
            LibraryReply::Unreachable => LibraryScanStep::Stopped(LibraryScanError::DatabaseError),
            LibraryReply::Missing => LibraryScanStep::Stopped(LibraryScanError::LibraryNotFound),
            LibraryReply::Found => scanning(replies@),
        },
{
    match library {
        LibraryReply::Unreachable => LibraryScanStep::Stopped(LibraryScanError::DatabaseError),
        LibraryReply::Missing => LibraryScanStep::Stopped(LibraryScanError::LibraryNotFound),
        LibraryReply::Found => start_custom(replies),
    }
}

/// A file is stored if and only if its record could be made, and no file twice: the places that are stored
/// are in order, and are those with a record.
pub proof fn law_readable_files_are_stored(replies: Seq<InsertReply>, n: int)
    requires
        0 <= n <= replies.len(),
        n <= usize::MAX,
    ensures
        forall|i: int, j: int|
            0 <= i < j < ready_places(replies, n).len() ==> ready_places(replies, n)[i]
                < ready_places(replies, n)[j],
        forall|p: usize| #[trigger]
            ready_places(replies, n).contains(p) <==> p < n && replies[p as int] is Ready,
    decreases n,
{
    if n > 0 {
        law_readable_files_are_stored(replies, n - 1);
        let t = ready_places(replies, n - 1);
        let r = ready_places(replies, n);
        assert forall|i: int, j: int| 0 <= i < j < r.len() implies r[i] < r[j] by {
            if j == t.len() {
                assert(t.contains(t[i]));
            }
        }
        assert forall|p: usize| #[trigger]
            r.contains(p) <==> p < n && replies[p as int] is Ready by {
            if r.contains(p) {
                let i = choose|i: int| 0 <= i < r.len() && r[i] == p;
                if i < t.len() {
                    assert(t[i] == p);
                    assert(t.contains(p));
                }
            }
            if p < n && replies[p as int] is Ready {
                if p < n - 1 {
                    assert(t.contains(p));
                    let i = choose|i: int| 0 <= i < t.len() && t[i] == p;
                    assert(r[i] == p);
                } else {
                    assert(r[t.len() as int] == p);
                }
            }
        }
    }
}

/// A batch that cannot be matched changes nothing about the scan: whatever came of matching the batches,
/// the scan goes on in the same way.
pub proof fn law_failed_batches_do_not_stop_a_scan(
    first: Seq<LibraryScanReply>,
    second: Seq<LibraryScanReply>,
)
    requires
        first.len() == second.len(),
        forall|i: int|
            0 <= i < first.len() && !(i >= 3 && i % 3 == 0) ==> #[trigger] first[i] == second[i],
    ensures
        scanning(first) == scanning(second),
{
    if first.len() >= 2 {
        assert(first[0] == second[0]);
        assert(first[1] == second[1]);
        if let LibraryScanReply::Batches(n) = first[1] {
            lemma_same_batches(n as int, 0, first, second, 2);
        }
    } else if first.len() == 1 {
        assert(first[0] == second[0]);
    }
}

proof fn lemma_same_batches(
    n: int,
    b: int,
    first: Seq<LibraryScanReply>,
    second: Seq<LibraryScanReply>,
    c: int,
)
    requires
        first.len() == second.len(),
        c >= 2,
        c % 3 == 2,
        forall|i: int|
            0 <= i < first.len() && !(i >= 3 && i % 3 == 0) ==> #[trigger] first[i] == second[i],
    ensures
        scanning_from(n, b, first, c) == scanning_from(n, b, second, c),
    decreases n - b,
{
    if c < first.len() {
        assert(first[c] == second[c]);
    }
    if c + 2 < first.len() {
        assert(first[c + 2] == second[c + 2]);
    }
    if b < n {
        lemma_same_batches(n, b + 1, first, second, c + 3);
    }
}

/// How a scan of `n` batches goes on: every batch is matched in a transaction of its own, the next one
/// whatever came of matching the one before it, and after the last the end of the scan is told.
pub open spec fn scan_goes_on(
    n: int,
    now: LibraryScanStep,
    x: LibraryScanReply,
    next: LibraryScanStep,
) -> bool {
    match now {
        LibraryScanStep::Do(op) => match op {
            LibraryScanOp::AnnounceStart => next == if x is Failed {
                LibraryScanStep::Stopped(LibraryScanError::EventDispatch)
            } else {
                LibraryScanStep::Do(LibraryScanOp::InsertFiles)
            },
            LibraryScanOp::InsertFiles => match x {
                LibraryScanReply::Batches(m) => next == if m > 0 {
                    LibraryScanStep::Do(LibraryScanOp::Open(0))
                } else {
                    LibraryScanStep::Do(LibraryScanOp::AnnounceStop)
                },
                _ => next == LibraryScanStep::Stopped(LibraryScanError::Creator),
            },
            LibraryScanOp::Open(b) => b < n && next == if x is Failed {
                LibraryScanStep::Stopped(LibraryScanError::DatabaseError)
            } else {
                LibraryScanStep::Do(LibraryScanOp::Match(b))
            },
            LibraryScanOp::Match(b) => b < n && next == LibraryScanStep::Do(LibraryScanOp::Commit(b)),
            LibraryScanOp::Commit(b) => b < n && next == if x is Failed {
                LibraryScanStep::Stopped(LibraryScanError::DatabaseError)
            } else if b + 1 < n {
                LibraryScanStep::Do(LibraryScanOp::Open((b + 1) as usize))
            } else {
                LibraryScanStep::Do(LibraryScanOp::AnnounceStop)
            },
            LibraryScanOp::AnnounceStop => next == if x is Failed {
                LibraryScanStep::Stopped(LibraryScanError::EventDispatch)
            } else {
                LibraryScanStep::Finished
            },
        },
        _ => true,
    }
}

/// A scan goes on from any batch.
proof fn lemma_scan_goes_on(
    n: int,
    b: int,
    replies: Seq<LibraryScanReply>,
    c: int,
    x: LibraryScanReply,
)
    requires
        0 <= b <= n <= usize::MAX,
        0 <= c <= replies.len(),
    ensures
        scanning_from(n, b, replies, c) matches LibraryScanStep::Do(op) ==> !(op is AnnounceStart)
            && !(op is InsertFiles),
        scan_goes_on(n, scanning_from(n, b, replies, c), x, scanning_from(n, b, replies.push(x), c)),
    decreases n - b,
{
    let more = replies.push(x);
    reveal_with_fuel(scanning_from, 2);
    if b < n && c + 2 < replies.len() {
        assert(more[c] == replies[c] && more[c + 2] == replies[c + 2]);
        lemma_scan_goes_on(n, b + 1, replies, c + 3, x);
    } else if b < n && c < replies.len() {
        assert(more[c] == replies[c]);
        if c + 2 == replies.len() {
            assert(more[c + 2] == x);
        }
    } else if c < replies.len() {
        assert(more[c] == replies[c]);
    } else {
        assert(more[c] == x);
    }
}

/// A scan begins by being told, and every reply takes it on by one step.
pub proof fn law_scans_match_every_batch(replies: Seq<LibraryScanReply>, x: LibraryScanReply)
    ensures
        scanning(Seq::empty()) == LibraryScanStep::Do(LibraryScanOp::AnnounceStart),
        scan_goes_on(
            if replies.len() > 1 && replies[1] is Batches {
                replies[1]->Batches_0 as int
            } else {
                0
            },
            scanning(replies),
            x,
            scanning(replies.push(x)),
        ),
{
    let more = replies.push(x);
    reveal_with_fuel(scanning_from, 2);
    if replies.len() == 0 {
        assert(more[0] == x);
    } else {
        assert(more[0] == replies[0]);
        if replies.len() == 1 {
            assert(more[1] == x);
        } else {
            assert(more[1] == replies[1]);
            if let LibraryScanReply::Batches(n) = replies[1] {
                lemma_scan_goes_on(n as int, 0, replies, 2, x);
            }
        }
    }
}

/// Every record that is ready is stored, in the order of the files, at most so many at once: from each place on
/// the next ones are stored, and after the last the files that came of them are given, all of them.
pub proof fn law_records_are_stored_in_order(
    places: Seq<usize>,
    from: int,
    stored: Seq<MediaFile>,
    replies: Seq<InsertReply>,
    c: int,
    files: Vec<MediaFile>,
)
    requires
        0 <= from <= places.len(),
        0 <= c <= replies.len(),
        storing_from(places, from, stored, replies, c) is Insert,
    ensures
        ({
            let now = storing_from(places, from, stored, replies, c)->Insert_0;
            let next = storing_from(
                places,
                from,
                stored,
                replies.push(InsertReply::Stored(files)),
                c,
            );
            &&& 0 < now.len() <= 256
            &&& exists|a: int|
                from <= a < places.len() && now == #[trigger] places.subrange(a, a + now.len()) && (if a
                    + now.len() < places.len() {
                    next matches Inserting::Insert(more) && now.len() == 256 && more[0] == places[a
                        + now.len()]
                } else {
                    next matches Inserting::Done(all) && files@ == all.subrange(
                        all.len() - files@.len(),
                        all.len() as int,
                    )
                })
        }),
    decreases places.len() - from,
{
    let more = replies.push(InsertReply::Stored(files));
    reveal_with_fuel(storing_from, 2);
    if c >= replies.len() {
        assert(more[c] == InsertReply::Stored(files));
        let end = batch_end(places, from);
        let now = places.subrange(from, end);
        assert(now == places.subrange(from, from + now.len()));
        let all = stored + files@;
        assert(all.subrange(all.len() - files@.len(), all.len() as int) =~= files@);
    } else {
        assert(more[c] == replies[c]);
        if let InsertReply::Stored(f) = replies[c] {
            law_records_are_stored_in_order(
                places,
                batch_end(places, from),
                stored + f@,
                replies,
                c + 1,
                files,
            );
        }
    }
}

/// The files that were stored are given, whatever was stored before them.
pub proof fn law_stored_files_are_given(
    places: Seq<usize>,
    from: int,
    stored: Seq<MediaFile>,
    replies: Seq<InsertReply>,
    c: int,
    i: int,
    f: MediaFile,
)
    requires
        0 <= from <= places.len(),
        0 <= c,
        storing_from(places, from, stored, replies, c) is Done,
        stored.contains(f) || c <= i < replies.len() && from < places.len() && i < c + (places.len() - from
            + 255) / 256 && (replies[i] matches InsertReply::Stored(files) && files@.contains(f)),
    ensures
        storing_from(places, from, stored, replies, c)->Done_0.contains(f),
    decreases places.len() - from,
{
    if from < places.len() {
        if let InsertReply::Stored(files) = replies[c] {
            let all = stored + files@;
            if stored.contains(f) {
                let k = choose|k: int| 0 <= k < stored.len() && stored[k] == f;
                assert(all[k] == f);
            } else if i == c {
                let k = choose|k: int| 0 <= k < files@.len() && files@[k] == f;
                assert(all[stored.len() + k] == f);
            }
            law_stored_files_are_given(
                places,
                batch_end(places, from),
                all,
                replies,
                c + 1,
                i,
                f,
            );
        }
    }
}

}
