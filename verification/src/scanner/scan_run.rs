//! The matching of the unmatched files of a library of shows, step by step.
//!
//! The files in the directories of known shows come first, each matched to the id of its show; the
//! others follow in batches, matched by their names.

use vstd::prelude::*;

use crate::filename::{Meta, Metadata};
use crate::scanner::lookup::{media_in, LookupQuery, LookupReply, Question};
use crate::scanner::parse::{metas_of, opt_metas};
use crate::scanner::scan::LibraryScanError;
use crate::scanner::smart_scan::{
    lookup_external_id, number_known_file, numbering, searched_id, text_of, IdCache, IdSource,
    KnownFile, NumberStep, Numbering,
};

verus! {

/// A step of a scan, with texts as sequences.
pub enum ScanAct {
    /// Get the id that is stored with the show of the file at this place.
    Stored(int),
    Ask(Question),
    /// Open a transaction.
    Open,
    /// Match the file at this place to an id, with this metadata.
    Match(int, Seq<char>, Seq<Meta>),
    /// Match the batch at this place by names.
    MatchBatch(int),
    Commit,
    /// Tell that the scan has stopped.
    AnnounceStop,
}

/// A step of a scan.
#[derive(Debug)]
pub enum ScanOp {
    /// Get the id that is stored with the show of the file at this place.
    Stored(usize),
    Ask(LookupQuery),
    /// Open a transaction.
    Open,
    /// Match the file at this place to an id, with this metadata.
    Match { file: usize, external_id: String, metadata: Vec<Metadata> },
    /// Match the batch at this place by names.
    MatchBatch(usize),
    Commit,
    /// Tell that the scan has stopped.
    AnnounceStop,
}

impl ScanOp {
    /// The step.
    pub open spec fn act(self) -> ScanAct {
        match self {
            ScanOp::Stored(k) => ScanAct::Stored(k as int),
            ScanOp::Ask(q) => ScanAct::Ask(q.question()),
            ScanOp::Open => ScanAct::Open,
            ScanOp::Match { file, external_id, metadata } => ScanAct::Match(
                file as int,
                external_id@,
                metas_of(metadata@),
            ),
            ScanOp::MatchBatch(b) => ScanAct::MatchBatch(b as int),
            ScanOp::Commit => ScanAct::Commit,
            ScanOp::AnnounceStop => ScanAct::AnnounceStop,
        }
    }
}

/// What a scan has come to.
pub enum Scanning {
    Do(ScanAct),
    Failed(LibraryScanError),
    Done,
}

/// The ids that searches have given, by the names of shows.
pub type Ids = Map<Seq<char>, Option<Seq<char>>>;

/// How far finding the id of a show has come: the id, what searches have given, and the next reply.
pub enum Identified {
    Do(ScanAct),
    Failed(LibraryScanError),
    Got(Option<Seq<char>>, Ids, int),
}

/// Finding the id of the show of the file at `k`: the stored one, or one that a search has given, or a
/// new search.
pub open spec fn identifying(
    known: Seq<KnownFile>,
    k: int,
    ids: Ids,
    replies: Seq<LookupReply>,
    c: int,
) -> Identified {
    let name = known[k].show_name@;
    if c >= replies.len() {
        Identified::Do(ScanAct::Stored(k))
    } else {
        match replies[c] {
            LookupReply::Stored(Some(id)) => Identified::Got(Some(id@), ids, c + 1),
            LookupReply::Stored(None) => if ids.contains_key(name) {
                Identified::Got(ids[name], ids, c + 1)
            } else if c + 1 >= replies.len() {
                Identified::Do(ScanAct::Ask(Question::Search(name, None, None)))
            } else {
                let id = searched_id(name, media_in(replies[c + 1]));
                Identified::Got(id, ids.insert(name, id), c + 2)
            },
            _ => Identified::Failed(LibraryScanError::DatabaseError),
        }
    }
}

/// The scan from the known file at `k` on, and then of the batches.
pub open spec fn scanning(
    known: Seq<KnownFile>,
    parsed: Seq<Option<Vec<Metadata>>>,
    batches: int,
    k: int,
    ids: Ids,
    replies: Seq<LookupReply>,
    c: int,
) -> Scanning
    decreases known.len() - k,
{
    if k < 0 || k >= known.len() {
        batching(batches, 0, replies, c)
    } else {
        match identifying(known, k, ids, replies, c) {
            Identified::Do(act) => Scanning::Do(act),
            Identified::Failed(e) => Scanning::Failed(e),
            Identified::Got(id, more, d) => if id is None || parsed[k] is None {
                scanning(known, parsed, batches, k + 1, more, replies, d)
            } else {
                match numbering(
                    known[k].file.target_file@,
                    opt_metas(parsed[k])->0,
                    id->0,
                    replies,
                    d,
                ) {
                    Numbering::Ask(q) => Scanning::Do(ScanAct::Ask(q)),
                    Numbering::Settled(ms, e) => if e >= replies.len() {
                        Scanning::Do(ScanAct::Open)
                    } else if replies[e] is Failed {
                        Scanning::Failed(LibraryScanError::DatabaseError)
                    } else if e + 1 >= replies.len() {
                        Scanning::Do(ScanAct::Match(k, id->0, ms))
                    } else if e + 2 >= replies.len() {
                        Scanning::Do(ScanAct::Commit)
                    } else if replies[e + 2] is Failed {
                        Scanning::Failed(LibraryScanError::DatabaseError)
                    } else {
                        scanning(known, parsed, batches, k + 1, more, replies, e + 3)
                    },
                }
            },
        }
    }
}

/// The scan from the batch at `b` on. A file or a batch that cannot be matched does not end the scan; a
/// transaction that cannot be opened or committed does.
pub open spec fn batching(batches: int, b: int, replies: Seq<LookupReply>, c: int) -> Scanning
    decreases batches - b,
{
    if b >= batches {
        if c >= replies.len() {
            Scanning::Do(ScanAct::AnnounceStop)
        } else if replies[c] is Failed {
            Scanning::Failed(LibraryScanError::EventDispatch)
        } else {
            Scanning::Done
        }
    } else if c >= replies.len() {
        Scanning::Do(ScanAct::Open)
    } else if replies[c] is Failed {
        Scanning::Failed(LibraryScanError::DatabaseError)
    } else if c + 1 >= replies.len() {
        Scanning::Do(ScanAct::MatchBatch(b))
    } else if c + 2 >= replies.len() {
        Scanning::Do(ScanAct::Commit)
    } else if replies[c + 2] is Failed {
        Scanning::Failed(LibraryScanError::DatabaseError)
    } else {
        batching(batches, b + 1, replies, c + 3)
    }
}

/// What a scan has come to.
#[derive(Debug)]
pub enum ScanStep {
    Do(ScanOp),
    Failed(LibraryScanError),
    Done,
}

/// `step` is the state `s`.
pub open spec fn is_scan_step(step: ScanStep, s: Scanning) -> bool {
    match (step, s) {
        (ScanStep::Do(op), Scanning::Do(act)) => op.act() == act,
        (ScanStep::Failed(e), Scanning::Failed(f)) => e == f,
        (ScanStep::Done, Scanning::Done) => true,
        _ => false,
    }
}

/// The cache knows what the searches have given.
spec fn agrees(cache: IdCache, ids: Ids) -> bool {
    forall|name: Seq<char>|
        #[trigger] cache.id_of(name) == if ids.contains_key(name) {
            Some(ids[name])
        } else {
            None
        }
}

/// Goes on with the batches.
fn run_batches(batches: usize, replies: &Vec<LookupReply>, c: usize) -> (r: ScanStep)
    requires
        c <= replies@.len(),
    ensures
        is_scan_step(r, batching(batches as int, 0, replies@, c as int)),
{
    let len: usize = replies.len();
    let mut at: usize = c;
    let mut b: usize = 0;
    while b < batches
        invariant
            0 <= b <= batches,
            at <= len == replies@.len(),
            batching(batches as int, 0, replies@, c as int) == batching(
                batches as int,
                b as int,
                replies@,
                at as int,
            ),
        decreases batches - b,
    {
        if at >= len {
            return ScanStep::Do(ScanOp::Open);
        }
        if matches!(&replies[at], LookupReply::Failed) {
            return ScanStep::Failed(LibraryScanError::DatabaseError);
        }
        if len - at <= 1 {
            return ScanStep::Do(ScanOp::MatchBatch(b));
        }
        if len - at <= 2 {
            return ScanStep::Do(ScanOp::Commit);
        }
        if matches!(&replies[at + 2], LookupReply::Failed) {
            return ScanStep::Failed(LibraryScanError::DatabaseError);
        }
        at = at + 3;
        b = b + 1;
    }
    if at >= len {
        return ScanStep::Do(ScanOp::AnnounceStop);
    }
    if matches!(&replies[at], LookupReply::Failed) {
        return ScanStep::Failed(LibraryScanError::EventDispatch);
    }
    ScanStep::Done
}

/// How far finding the id of a show has come.
enum IdTurn {
    Do(ScanOp),
    Failed(LibraryScanError),
    Got(Option<String>, usize),
}

/// Goes on with finding the id of the show of a file.
fn identify(
    known: &Vec<KnownFile>,
    k: usize,
    cache: &mut IdCache,
    replies: &Vec<LookupReply>,
    c: usize,
    Ghost(ids): Ghost<Ids>,
) -> (r: IdTurn)
    requires
        k < known@.len(),
        c <= replies@.len(),
        agrees(*old(cache), ids),
    ensures
        match (r, identifying(known@, k as int, ids, replies@, c as int)) {
            (IdTurn::Do(op), Identified::Do(act)) => op.act() == act,
            (IdTurn::Failed(e), Identified::Failed(f)) => e == f,
            (IdTurn::Got(id, d), Identified::Got(want, more, e)) => text_of(id) == want && d == e && d
                <= replies@.len() && agrees(*final(cache), more),
            _ => false,
        },
{
    let len: usize = replies.len();
    if c >= len {
        return IdTurn::Do(ScanOp::Stored(k));
    }
    let name = &known[k].show_name;
    let stored: &Option<String> = match &replies[c] {
        LookupReply::Stored(stored) => stored,
        _ => {
            return IdTurn::Failed(LibraryScanError::DatabaseError);
        },
    };
    assert(cache.id_of(name@) == if ids.contains_key(name@) {
        Some(ids[name@])
    } else {
        None
    });
    match cache.source(stored, name.as_str()) {
        IdSource::Known(id) => IdTurn::Got(id, c + 1),
        IdSource::Search => {
            if len - c <= 1 {
                return IdTurn::Do(
                    ScanOp::Ask(
                        LookupQuery::Search { name: name.clone(), year: None, language: None },
                    ),
                );
            }
            let id: Option<String> = match &replies[c + 1] {
                LookupReply::Media(list) => lookup_external_id(name.as_str(), list),
                _ => None,
            };
            cache.keep(name, &id);
            IdTurn::Got(id, c + 2)
        },
    }
}

/// Goes on with a scan, given the replies so far. `parsed` holds what the names of the known files say.
pub fn smart_scan(
    known: &Vec<KnownFile>,
    parsed: &Vec<Option<Vec<Metadata>>>,
    batches: usize,
    replies: &Vec<LookupReply>,
) -> (r: ScanStep)
    requires
        parsed@.len() == known@.len(),
    ensures
        is_scan_step(
            r,
            scanning(known@, parsed@, batches as int, 0, Map::empty(), replies@, 0),
        ),
{
    let len: usize = replies.len();
    let mut cache = IdCache::new();
    let ghost mut ids: Ids = Map::empty();
    let mut c: usize = 0;
    let mut k: usize = 0;
    while k < known.len()
        invariant
            0 <= k <= known@.len() == parsed@.len(),
            c <= len == replies@.len(),
            agrees(cache, ids),
            scanning(known@, parsed@, batches as int, 0, Map::empty(), replies@, 0) == scanning(
                known@,
                parsed@,
                batches as int,
                k as int,
                ids,
                replies@,
                c as int,
            ),
        decreases known@.len() - k,
    {
        let (id, d): (Option<String>, usize) = match identify(
            known,
            k,
            &mut cache,
            replies,
            c,
            Ghost(ids),
        ) {
            IdTurn::Do(op) => {
                return ScanStep::Do(op);
            },
            IdTurn::Failed(e) => {
                return ScanStep::Failed(e);
            },
            IdTurn::Got(id, d) => (id, d),
        };
        proof {
            ids = identifying(known@, k as int, ids, replies@, c as int)->Got_1;
        }
        c = d;
        if let Some(id) = id {
            if let Some(ms) = &parsed[k] {
                match number_known_file(known[k].file.target_file.as_str(), ms, &id, replies, c) {
                    NumberStep::Ask(q) => {
                        return ScanStep::Do(ScanOp::Ask(q));
                    },
                    NumberStep::Settled(metadata, e) => {
                        if e >= len {
                            return ScanStep::Do(ScanOp::Open);
                        }
                        if matches!(&replies[e], LookupReply::Failed) {
                            return ScanStep::Failed(LibraryScanError::DatabaseError);
                        }
                        if len - e <= 1 {
                            return ScanStep::Do(
                                ScanOp::Match { file: k, external_id: id, metadata },
                            );
                        }
                        if len - e <= 2 {
                            return ScanStep::Do(ScanOp::Commit);
                        }
                        if matches!(&replies[e + 2], LookupReply::Failed) {
                            return ScanStep::Failed(LibraryScanError::DatabaseError);
                        }
                        c = e + 3;
                    },
                }
            }
        }
        k = k + 1;
    }
    run_batches(batches, replies, c)
}

/// A file of a known show is matched to the id that is stored with the show, where one is: no search
/// takes place.
pub proof fn law_stored_ids_are_used(
    known: Seq<KnownFile>,
    k: int,
    ids: Ids,
    replies: Seq<LookupReply>,
    c: int,
    id: String,
)
    requires
        0 <= c < replies.len(),
        replies[c] == LookupReply::Stored(Some(id)),
    ensures
        identifying(known, k, ids, replies, c) == Identified::Got(Some(id@), ids, c + 1),
{
}

/// A show is searched for once in a scan: after that its id, or that it has none, is known.
pub proof fn law_shows_are_searched_once(
    known: Seq<KnownFile>,
    j: int,
    k: int,
    ids: Ids,
    replies: Seq<LookupReply>,
    c: int,
    later: Seq<LookupReply>,
    d: int,
)
    requires
        known[j].show_name@ == known[k].show_name@,
        0 <= c < replies.len(),
        replies[c] == LookupReply::Stored(None),
        identifying(known, j, ids, replies, c) is Got,
        0 <= d < later.len(),
        later[d] == LookupReply::Stored(None),
    ensures
        ({
            let first = identifying(known, j, ids, replies, c);
            identifying(known, k, first->Got_1, later, d) == Identified::Got(
                first->Got_0,
                first->Got_1,
                d + 1,
            )
        }),
{
}

/// A file of a known show is matched to the id of its show with what its name and its directory say, in a
/// transaction of its own; and then the scan goes on with the next file, whatever came of matching this one.
pub proof fn law_known_files_are_matched_to_their_show(
    known: Seq<KnownFile>,
    parsed: Seq<Option<Vec<Metadata>>>,
    batches: int,
    k: int,
    ids: Ids,
    replies: Seq<LookupReply>,
    c: int,
    id: String,
    ms: Seq<Meta>,
    e: int,
)
    requires
        0 <= k < known.len(),
        0 <= c < e <= replies.len(),
        replies[c] == LookupReply::Stored(Some(id)),
        parsed[k] is Some,
        numbering(known[k].file.target_file@, metas_of(parsed[k]->0@), id@, replies, c + 1)
            == Numbering::Settled(ms, e),
    ensures
        ({
            let s = scanning(known, parsed, batches, k, ids, replies, c);
            &&& replies.len() == e ==> s == Scanning::Do(ScanAct::Open)
            &&& replies.len() == e + 1 && !(replies[e] is Failed) ==> s == Scanning::Do(
                ScanAct::Match(k, id@, ms),
            )
            &&& replies.len() == e + 2 && !(replies[e] is Failed) ==> s == Scanning::Do(ScanAct::Commit)
            &&& replies.len() > e && replies[e] is Failed ==> s == Scanning::Failed(
                LibraryScanError::DatabaseError,
            )
            &&& replies.len() == e + 3 && !(replies[e] is Failed) && !(replies[e + 2] is Failed) && k + 1
                < known.len() ==> s == Scanning::Do(ScanAct::Stored(k + 1))
        }),
{
    reveal_with_fuel(scanning, 2);
}

/// The show of a file is asked for by its name where no id is stored with it and no search has given one yet.
/// A file whose show cannot be found, or whose name says nothing, is passed over.
pub proof fn law_unknown_ids_are_searched_for(
    known: Seq<KnownFile>,
    parsed: Seq<Option<Vec<Metadata>>>,
    batches: int,
    k: int,
    ids: Ids,
    replies: Seq<LookupReply>,
    c: int,
)
    requires
        0 <= k < known.len(),
        0 <= c <= replies.len(),
        !ids.contains_key(known[k].show_name@),
    ensures
        ({
            let s = scanning(known, parsed, batches, k, ids, replies, c);
            &&& replies.len() == c ==> s == Scanning::Do(ScanAct::Stored(k))
            &&& replies.len() == c + 1 && replies[c] == LookupReply::Stored(None) ==> s == Scanning::Do(
                ScanAct::Ask(Question::Search(known[k].show_name@, None, None)),
            )
            &&& replies.len() == c + 2 && replies[c] == LookupReply::Stored(None) && media_in(
                replies[c + 1],
            ) is None && k + 1 < known.len() ==> s == Scanning::Do(ScanAct::Stored(k + 1))
        }),
{
    reveal_with_fuel(scanning, 2);
}

/// How the batches of a scan go on.
pub open spec fn batches_go_on(
    batches: int,
    b: int,
    now: Scanning,
    x: LookupReply,
    next: Scanning,
) -> bool {
    match now {
        Scanning::Do(ScanAct::Open) => next == if x is Failed {
            Scanning::Failed(LibraryScanError::DatabaseError)
        } else {
            Scanning::Do(ScanAct::MatchBatch(b))
        },
        Scanning::Do(ScanAct::MatchBatch(i)) => i == b && next == Scanning::Do(ScanAct::Commit),
        Scanning::Do(ScanAct::Commit) => next == if x is Failed {
            Scanning::Failed(LibraryScanError::DatabaseError)
        } else if b + 1 < batches {
            Scanning::Do(ScanAct::Open)
        } else {
            Scanning::Do(ScanAct::AnnounceStop)
        },
        Scanning::Do(ScanAct::AnnounceStop) => next == if x is Failed {
            Scanning::Failed(LibraryScanError::EventDispatch)
        } else {
            Scanning::Done
        },
        _ => true,
    }
}

/// The batches are matched one after the other, each in a transaction of its own and whatever came of matching
/// the one before, and after the last the end of the scan is told. The batch at hand is the one after as many
/// as there are three replies for.
pub proof fn law_batches_of_a_scan_are_matched(
    batches: int,
    b: int,
    replies: Seq<LookupReply>,
    c: int,
    x: LookupReply,
)
    requires
        0 <= b <= batches,
        0 <= c <= replies.len(),
    ensures
        batches_go_on(
            batches,
            b + (replies.len() - c) / 3,
            batching(batches, b, replies, c),
            x,
            batching(batches, b, replies.push(x), c),
        ),
    decreases batches - b,
{
    let more = replies.push(x);
    reveal_with_fuel(batching, 2);
    if b < batches && c + 2 < replies.len() {
        assert(more[c] == replies[c] && more[c + 2] == replies[c + 2]);
        law_batches_of_a_scan_are_matched(batches, b + 1, replies, c + 3, x);
    } else if c < replies.len() {
        assert(more[c] == replies[c]);
        if c + 2 == replies.len() {
            assert(more[c + 2] == x);
        }
    } else {
        assert(more[c] == x);
    }
}

}
