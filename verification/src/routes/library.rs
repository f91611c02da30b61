//! Requests on libraries.

use vstd::prelude::*;

use crate::components::{
    comes_before, components, law_paths_are_ordered_one_way, path_before, split_path,
};
use crate::filename::no_nul;
use crate::scanner::matcher::WorkUnit;
use crate::scanner::records::{MediaFile, MediaType};
use crate::scanner::smart_scan::{may_be_units, unknown_batches};
use crate::scanner::walk::is_chunked;
use crate::status::Status;
use crate::text::{comes_first, lemma_lex_total, lex_le, views};

verus! {

/// Why a request on a library is refused.
#[derive(Clone, Copy, Debug, PartialEq, Eq, Structural)]
pub enum LibraryError {
    /// The user is not the owner.
    Unauthorized,
    LibraryNotFound,
}

/// Whether the owner's request on a library can be met.
pub open spec fn authorization(is_owner: bool, found: bool) -> Result<(), LibraryError> {
    if !is_owner {
        Err(LibraryError::Unauthorized)
    } else if !found {
        Err(LibraryError::LibraryNotFound)
    } else {
        Ok(())
    }
}

/// Tells if the owner's request on a library can be met. Adding, scanning, matching and deleting are for
/// the owner alone, whether there is such a library or not.
pub fn authorize(is_owner: bool, found: bool) -> (r: Result<(), LibraryError>)
    ensures
        r == authorization(is_owner, found),
{
    if !is_owner {
        Err(LibraryError::Unauthorized)
    } else if !found {
        Err(LibraryError::LibraryNotFound)
    } else {
        Ok(())
    }
}

/// A step of adding a library.
#[derive(Clone, Copy, Debug, PartialEq, Eq, Structural)]
pub enum AddOp {
    /// Open a transaction.
    Open,
    Insert,
    Commit,
    /// Answer with the id of the library.
    Answer,
    /// Scan the library.
    Scan,
    /// Follow its directories.
    Watch,
}

/// What adding a library has come to.
#[derive(Clone, Copy, Debug, PartialEq, Eq, Structural)]
pub enum AddStep {
    Do(AddOp),
    Refused(Status),
    End,
}

/// Adding a library, by whether each of the steps so far was done. Only the owner may; the library is
/// stored, the request answered, the library scanned, and then its directories are followed, whatever came
/// of the scan.
pub open spec fn adding(is_owner: bool, done: Seq<bool>) -> AddStep {
    if !is_owner {
        AddStep::Refused(Status::Unauthorized)
    } else if exists|i: int| 0 <= i < 3 && i < done.len() && !#[trigger] done[i] {
        AddStep::Refused(Status::InternalServerError)
    } else if done.len() == 0 {
        AddStep::Do(AddOp::Open)
    } else if done.len() == 1 {
        AddStep::Do(AddOp::Insert)
    } else if done.len() == 2 {
        AddStep::Do(AddOp::Commit)
    } else if done.len() == 3 {
        AddStep::Do(AddOp::Answer)
    } else if done.len() == 4 {
        AddStep::Do(AddOp::Scan)
    } else if done.len() == 5 {
        AddStep::Do(AddOp::Watch)
    } else {
        AddStep::End
    }
}

/// Goes on with adding a library.
pub fn library_post(is_owner: bool, done: &Vec<bool>) -> (r: AddStep)
    ensures
        r == adding(is_owner, done@),
{
    if !is_owner {
        return AddStep::Refused(Status::Unauthorized);
    }
    let mut i: usize = 0;
    while i < 3 && i < done.len()
        invariant
            is_owner,
            0 <= i <= 3,
            i <= done@.len(),
            forall|j: int| 0 <= j < i ==> #[trigger] done@[j],
        decreases 3 - i,
    {
        if !done[i] {
            return AddStep::Refused(Status::InternalServerError);
        }
        i = i + 1;
    }
    match done.len() {
        0 => AddStep::Do(AddOp::Open),
        1 => AddStep::Do(AddOp::Insert),
        2 => AddStep::Do(AddOp::Commit),
        3 => AddStep::Do(AddOp::Answer),
        4 => AddStep::Do(AddOp::Scan),
        5 => AddStep::Do(AddOp::Watch),
        _ => AddStep::End,
    }
}

/// The directories of a new library are followed only after its scan has come to an end, so the two never
/// work on the same files at once.
pub proof fn law_watching_follows_the_scan(is_owner: bool, done: Seq<bool>)
    requires
        adding(is_owner, done) == AddStep::Do(AddOp::Watch),
    ensures
        done.len() > 0,
        adding(is_owner, done.drop_last()) == AddStep::Do(AddOp::Scan),
{
    let before = done.drop_last();
    assert forall|i: int| 0 <= i < 3 && i < before.len() implies #[trigger] before[i] by {
        assert(before[i] == done[i]);
    }
}

/// How a library is scanned.
#[derive(Clone, Copy, Debug, PartialEq, Eq, Structural)]
pub enum ScanKind {
    /// With the help of the directories.
    Smart,
    /// By names alone.
    Standard,
}

/// How a library is scanned.
pub open spec fn scan_kind(media_type: MediaType) -> ScanKind {
    if media_type is Tv {
        ScanKind::Smart
    } else {
        ScanKind::Standard
    }
}

/// Libraries of shows are scanned with the help of the directories.
pub fn library_scan(media_type: MediaType) -> (r: ScanKind)
    ensures
        r == scan_kind(media_type),
{
    match media_type {
        MediaType::Tv => ScanKind::Smart,
        _ => ScanKind::Standard,
    }
}

/// The answer to a request to delete a library.
pub open spec fn deletion(hidden: u64) -> Result<Status, LibraryError> {
    if hidden < 1 {
        Err(LibraryError::LibraryNotFound)
    } else {
        Ok(Status::NoContent)
    }
}

/// The answer to a request to delete a library, by the number of libraries that were hidden.
pub fn library_delete(hidden: u64) -> (r: Result<Status, LibraryError>)
    ensures
        r == deletion(hidden),
{
    if hidden < 1 {
        Err(LibraryError::LibraryNotFound)
    } else {
        Ok(Status::NoContent)
    }
}

/// A step of matching all unmatched files of a library.
#[derive(Clone, Copy, Debug, PartialEq, Eq, Structural)]
pub enum AutomatchOp {
    /// Tell that the scan has started.
    AnnounceStart,
    /// Load the unmatched files and cut them into batches.
    LoadUnmatched,
    /// Open a transaction for the batch at this place.
    Open(usize),
    Match(usize),
    Commit(usize),
    /// Tell that the scan has stopped.
    AnnounceStop,
}

/// What came of a step.
#[derive(Clone, Copy, Debug, PartialEq, Eq, Structural)]
pub enum AutomatchReply {
    Failed,
    Done,
    /// There are so many batches.
    Batches(usize),
}

/// What matching all unmatched files has come to.
#[derive(Clone, Copy, Debug, PartialEq, Eq, Structural)]
pub enum AutomatchStep {
    Do(AutomatchOp),
    End,
}

/// The matching from batch `b` of `n` on. A batch that fails does not keep the others from being matched,
/// but where no transaction can be opened it ends.
pub open spec fn batches_from(n: int, b: int, replies: Seq<AutomatchReply>, c: int) -> AutomatchStep
    decreases n - b,
{
    if b >= n {
        if c >= replies.len() {
            AutomatchStep::Do(AutomatchOp::AnnounceStop)
        } else {
            AutomatchStep::End
        }
    } else if c >= replies.len() {
        AutomatchStep::Do(AutomatchOp::Open(b as usize))
    } else if replies[c] is Failed {
        AutomatchStep::End
    } else if c + 1 >= replies.len() {
        AutomatchStep::Do(AutomatchOp::Match(b as usize))
    } else if c + 2 >= replies.len() {
        AutomatchStep::Do(AutomatchOp::Commit(b as usize))
    } else {
        batches_from(n, b + 1, replies, c + 3)
    }
}

/// Matching all unmatched files.
pub open spec fn automatching(replies: Seq<AutomatchReply>) -> AutomatchStep {
    if replies.len() == 0 {
        AutomatchStep::Do(AutomatchOp::AnnounceStart)
    } else if replies.len() == 1 {
        AutomatchStep::Do(AutomatchOp::LoadUnmatched)
    } else {
        match replies[1] {
            AutomatchReply::Batches(n) => batches_from(n as int, 0, replies, 2),
            _ => AutomatchStep::End,
        }
    }
}

/// Goes on with matching all unmatched files.
pub fn library_automatch(replies: &Vec<AutomatchReply>) -> (r: AutomatchStep)
    ensures
        r == automatching(replies@),
{
    let len: usize = replies.len();
    if len == 0 {
        return AutomatchStep::Do(AutomatchOp::AnnounceStart);
    }
    if len == 1 {
        return AutomatchStep::Do(AutomatchOp::LoadUnmatched);
    }
    let n: usize = match replies[1] {
        AutomatchReply::Batches(n) => n,
        _ => {
            return AutomatchStep::End;
        },
    };
    let mut b: usize = 0;
    let mut c: usize = 2;
    while b < n
        invariant
            0 <= b <= n,
            2 <= c <= len == replies@.len(),
            automatching(replies@) == batches_from(n as int, b as int, replies@, c as int),
        decreases n - b,
    {
        if c >= len {
            return AutomatchStep::Do(AutomatchOp::Open(b));
        }
        if replies[c] == AutomatchReply::Failed {
            return AutomatchStep::End;
        }
        if len - c <= 1 {
            return AutomatchStep::Do(AutomatchOp::Match(b));
        }
        if len - c <= 2 {
            return AutomatchStep::Do(AutomatchOp::Commit(b));
        }
        c = c + 3;
        b = b + 1;
    }
    if c >= len {
        AutomatchStep::Do(AutomatchOp::AnnounceStop)
    } else {
        AutomatchStep::End
    }
}

/// Reads what the names of the unmatched files say, and cuts them into batches.
pub fn automatch_batches(files: &Vec<MediaFile>) -> (r: Vec<Vec<WorkUnit>>)
    requires
        forall|i: int| 0 <= i < files@.len() ==> no_nul((#[trigger] files@[i]).target_file@),
    ensures
        exists|units: Seq<WorkUnit>|
            may_be_units(files@, units) && #[trigger] is_chunked(units, 128, r@),
{
    unknown_batches(files)
}

/// A media item of a library.
#[derive(Debug)]
pub struct MediaRecord {
    pub id: i64,
    pub name: String,
    pub poster_path: Option<String>,
}

/// Where a name goes in a list that is in order: after those that come before it or are the same.
pub open spec fn name_place(t: Seq<MediaRecord>, name: Seq<char>, from: int) -> int
    decreases t.len() - from,
{
    if 0 <= from < t.len() && lex_le(t[from].name@, name) {
        name_place(t, name, from + 1)
    } else {
        from
    }
}

/// The first `k` media items in the order of their names.
pub open spec fn by_name(data: Seq<MediaRecord>, k: int) -> Seq<MediaRecord>
    decreases k,
{
    if k <= 0 {
        Seq::empty()
    } else {
        let t = by_name(data, k - 1);
        t.insert(name_place(t, data[k - 1].name@, 0), data[k - 1])
    }
}

/// Lists the media items of a library in the order of their names; a library without any is not found.
pub fn library_get_media(data: Vec<MediaRecord>) -> (r: Result<Vec<MediaRecord>, Status>)
    ensures
        match r {
            Ok(list) => data@.len() > 0 && list@ == by_name(data@, data@.len() as int),
            Err(s) => data@.len() == 0 && s == Status::NotFound,
        },
{
    if data.len() == 0 {
        return Err(Status::NotFound);
    }
    let mut rest = data;
    let ghost all = rest@;
    let ghost mut k: int = 0;
    let mut t: Vec<MediaRecord> = Vec::new();
    assert(all.skip(0) =~= all);
    while rest.len() > 0
        invariant
            0 <= k <= all.len(),
            rest@ == all.skip(k),
            t@ == by_name(all, k),
        decreases rest@.len(),
    {
        let m = rest.remove(0);
        assert(m == all[k]);
        assert(rest@ =~= all.skip(k + 1));
        let mut p: usize = 0;
        let ghost before = t@;
        let mut going = true;
        while going && p < t.len()
            invariant
                0 <= p <= t@.len(),
                t@ == before,
                name_place(before, m.name@, 0) == name_place(before, m.name@, p as int),
                !going ==> p < before.len() && !lex_le(before[p as int].name@, m.name@),
            decreases t@.len() - p + if going { 1int } else { 0int },
        {
            if comes_first(t[p].name.as_str(), m.name.as_str()) {
                p = p + 1;
            } else {
                going = false;
            }
        }
        t.insert(p, m);
        proof {
            k = k + 1;
        }
    }
    Ok(t)
}

/// What a list of unmatched files is searched for.
#[derive(Debug)]
pub struct UnmatchedArgs {
    pub search: Option<String>,
}

/// A file without a match.
#[derive(Debug)]
pub struct UnmatchedFile {
    pub id: i64,
    pub name: String,
    pub duration: Option<i64>,
    pub target_file: String,
}

/// Where a path goes in a list that is in order: before the first that comes after it.
pub open spec fn file_place(t: Seq<UnmatchedFile>, path: Seq<char>, from: int) -> int
    decreases t.len() - from,
{
    if 0 <= from < t.len() && !path_before(components(path), components(t[from].target_file@)) {
        file_place(t, path, from + 1)
    } else {
        from
    }
}

/// The first `k` files in the order of their paths.
pub open spec fn by_path(files: Seq<UnmatchedFile>, k: int) -> Seq<UnmatchedFile>
    decreases k,
{
    if k <= 0 {
        Seq::empty()
    } else {
        let t = by_path(files, k - 1);
        t.insert(file_place(t, files[k - 1].target_file@, 0), files[k - 1])
    }
}

/// Puts files into the order of their paths.
fn sort_by_path(files: Vec<UnmatchedFile>) -> (r: Vec<UnmatchedFile>)
    ensures
        r@ == by_path(files@, files@.len() as int),
{
    let mut rest = files;
    let ghost all = rest@;
    let ghost mut k: int = 0;
    let mut t: Vec<UnmatchedFile> = Vec::new();
    assert(all.skip(0) =~= all);
    while rest.len() > 0
        invariant
            0 <= k <= all.len(),
            rest@ == all.skip(k),
            t@ == by_path(all, k),
        decreases rest@.len(),
    {
        let f = rest.remove(0);
        assert(f == all[k]);
        assert(rest@ =~= all.skip(k + 1));
        let parts = split_path(f.target_file.as_str());
        let ghost before = t@;
        let mut p: usize = 0;
        let mut going = true;
        while going && p < t.len()
            invariant
                0 <= p <= t@.len(),
                t@ == before,
                views(parts@) == components(f.target_file@),
                file_place(before, f.target_file@, 0) == file_place(
                    before,
                    f.target_file@,
                    p as int,
                ),
                !going ==> p < before.len() && path_before(
                    components(f.target_file@),
                    components(before[p as int].target_file@),
                ),
            decreases t@.len() - p + if going { 1int } else { 0int },
        {
            let other = split_path(t[p].target_file.as_str());
            if comes_before(&parts, &other) {
                going = false;
            } else {
                p = p + 1;
            }
        }
        t.insert(p, f);
        proof {
            k = k + 1;
        }
    }
    t
}

/// The score that `fuzzy_matcher::skim::SkimMatcherV2`, as it is by default, gives a text for a pattern;
/// nothing where the pattern does not match.
pub uninterp spec fn fuzzy_score(choice: Seq<char>, pattern: Seq<char>) -> Option<i64>;

/// The length up to which texts are matched: scores have 32 bits.
pub const FUZZY_LIMIT: usize = 0x100_0000;

/// A text that can be matched.
pub open spec fn fits(s: Seq<char>) -> bool {
    s.len() <= FUZZY_LIMIT
}

/// Calls `fuzzy_matcher::FuzzyMatcher::fuzzy_match` on a new `SkimMatcherV2`. The result is a function
/// of the text and the pattern.
#[verifier::external_body]
fn fuzzy_match(choice: &str, pattern: &str) -> (r: Option<i64>)
    requires
        fits(choice@),
        fits(pattern@),
    ensures
        r == fuzzy_score(choice@, pattern@),
{
    let matcher = fuzzy_matcher::skim::SkimMatcherV2::default();
    fuzzy_matcher::FuzzyMatcher::fuzzy_match(&matcher, choice, pattern)
}

/// Where a score goes in a list of places that is in order: after those that are not lower.
pub open spec fn score_place(t: Seq<usize>, scores: Seq<Option<i64>>, s: i64, from: int) -> int
    decreases t.len() - from,
{
    if 0 <= from < t.len() && scores[t[from] as int]->0 >= s {
        score_place(t, scores, s, from + 1)
    } else {
        from
    }
}

/// The places of the first `k` scores that are there, the highest first.
pub open spec fn ranked(scores: Seq<Option<i64>>, k: int) -> Seq<usize>
    decreases k,
{
    if k <= 0 {
        Seq::empty()
    } else {
        let t = ranked(scores, k - 1);
        match scores[k - 1] {
            Some(s) => t.insert(score_place(t, scores, s, 0), (k - 1) as usize),
            None => t,
        }
    }
}

/// Ranked places are places of scores.
proof fn lemma_ranked(scores: Seq<Option<i64>>, k: int)
    requires
        0 <= k <= scores.len() <= usize::MAX,
    ensures
        forall|j: int|
            0 <= j < ranked(scores, k).len() ==> (#[trigger] ranked(scores, k)[j]) < k
                && scores[ranked(scores, k)[j] as int] is Some,
    decreases k,
{
    if k > 0 {
        lemma_ranked(scores, k - 1);
        let t = ranked(scores, k - 1);
        if let Some(s) = scores[k - 1] {
            lemma_score_place(t, scores, s, 0);
            let p = score_place(t, scores, s, 0);
            let r = ranked(scores, k);
            assert forall|j: int| 0 <= j < r.len() implies (#[trigger] r[j]) < k && scores[r[j] as int] is Some by {
                if j < p {
                    assert(r[j] == t[j]);
                } else if j > p {
                    assert(r[j] == t[j - 1]);
                }
            }
        }
    }
}

/// The place of a score is in the list.
proof fn lemma_score_place(t: Seq<usize>, scores: Seq<Option<i64>>, s: i64, from: int)
    requires
        0 <= from <= t.len(),
    ensures
        from <= score_place(t, scores, s, from) <= t.len(),
        forall|j: int|
            from <= j < score_place(t, scores, s, from) ==> scores[(#[trigger] t[j]) as int]->0 >= s,
        score_place(t, scores, s, from) < t.len() ==> scores[t[score_place(
            t,
            scores,
            s,
            from,
        )] as int]->0 < s,
    decreases t.len() - from,
{
    if from < t.len() && scores[t[from] as int]->0 >= s {
        lemma_score_place(t, scores, s, from + 1);
    }
}

/// Ranks the places of scores, the highest first and of equal ones the first.
pub fn rank(scores: &Vec<Option<i64>>) -> (r: Vec<usize>)
    ensures
        r@ == ranked(scores@, scores@.len() as int),
        forall|j: int| 0 <= j < r@.len() ==> (#[trigger] r@[j]) < scores@.len(),
{
    let mut t: Vec<usize> = Vec::new();
    let mut k: usize = 0;
    while k < scores.len()
        invariant
            0 <= k <= scores@.len(),
            t@ == ranked(scores@, k as int),
        decreases scores@.len() - k,
    {
        if let Some(s) = scores[k] {
            proof {
                lemma_ranked(scores@, k as int);
            }
            let ghost before = t@;
            let mut p: usize = 0;
            let mut going = true;
            while going && p < t.len()
                invariant
                    0 <= p <= t@.len(),
                    t@ == before,
                    forall|j: int|
                        0 <= j < before.len() ==> (#[trigger] before[j]) < scores@.len()
                            && scores@[before[j] as int] is Some,
                    score_place(before, scores@, s, 0) == score_place(
                        before,
                        scores@,
                        s,
                        p as int,
                    ),
                    !going ==> p < before.len() && scores@[before[p as int] as int]->0 < s,
                decreases t@.len() - p + if going { 1int } else { 0int },
            {
                assert(before[p as int] < scores@.len());
                let other: i64 = match scores[t[p]] {
                    Some(other) => other,
                    None => s,
                };
                if other >= s {
                    p = p + 1;
                } else {
                    going = false;
                }
            }
            t.insert(p, k);
        }
        k = k + 1;
    }
    proof {
        lemma_ranked(scores@, k as int);
    }
    t
}

/// The scores of files for a pattern.
pub open spec fn scores_of(files: Seq<UnmatchedFile>, pattern: Seq<char>) -> Seq<Option<i64>> {
    files.map_values(|f: UnmatchedFile| fuzzy_score(f.target_file@, pattern))
}

/// The files at places.
pub open spec fn picked(files: Seq<UnmatchedFile>, places: Seq<usize>) -> Seq<UnmatchedFile> {
    places.map_values(|i: usize| files[i as int])
}

/// The files that a request lists: all in the order of their paths, or those that the search finds, the
/// best first.
pub open spec fn unmatched(files: Seq<UnmatchedFile>, args: UnmatchedArgs) -> Seq<UnmatchedFile> {
    let all = by_path(files, files.len() as int);
    match args.search {
        None => all,
        Some(search) => {
            let scores = scores_of(all, search@);
            picked(all, ranked(scores, scores.len() as int))
        },
    }
}

/// Copies a file.
fn copy_unmatched(f: &UnmatchedFile) -> (r: UnmatchedFile)
    ensures
        r == *f,
{
    UnmatchedFile {
        id: f.id,
        name: f.name.clone(),
        duration: f.duration,
        target_file: f.target_file.clone(),
    }
}

/// Sorting leaves only files that were there.
proof fn lemma_by_path(files: Seq<UnmatchedFile>, k: int)
    requires
        0 <= k <= files.len(),
        forall|i: int| 0 <= i < files.len() ==> fits((#[trigger] files[i]).target_file@),
    ensures
        forall|i: int|
            0 <= i < by_path(files, k).len() ==> fits((#[trigger] by_path(files, k)[i]).target_file@),
    decreases k,
{
    if k > 0 {
        lemma_by_path(files, k - 1);
        let t = by_path(files, k - 1);
        let path = files[k - 1].target_file@;
        lemma_file_place(t, path, 0);
        let p = file_place(t, path, 0);
        let r = by_path(files, k);
        assert forall|i: int| 0 <= i < r.len() implies fits((#[trigger] r[i]).target_file@) by {
            if i < p {
                assert(r[i] == t[i]);
            } else if i > p {
                assert(r[i] == t[i - 1]);
            }
        }
    }
}

/// The place of a path is in the list.
proof fn lemma_file_place(t: Seq<UnmatchedFile>, path: Seq<char>, from: int)
    requires
        0 <= from <= t.len(),
    ensures
        from <= file_place(t, path, from) <= t.len(),
    decreases t.len() - from,
{
    if from < t.len() && !path_before(components(path), components(t[from].target_file@)) {
        lemma_file_place(t, path, from + 1);
    }
}

/// Lists the files of a library that have no match.
pub fn library_get_unmatched(files: Vec<UnmatchedFile>, args: &UnmatchedArgs) -> (r: Vec<UnmatchedFile>)
    requires
        args.search matches Some(s) ==> fits(s@),
        forall|i: int| 0 <= i < files@.len() ==> fits((#[trigger] files@[i]).target_file@),
    ensures
        r@ == unmatched(files@, *args),
{
    let ghost given = files@;
    proof {
        lemma_by_path(given, given.len() as int);
    }
    let all = sort_by_path(files);
    let search = match &args.search {
        Some(search) => search,
        None => {
            return all;
        },
    };
    let mut scores: Vec<Option<i64>> = Vec::new();
    let mut i: usize = 0;
    while i < all.len()
        invariant
            0 <= i <= all@.len(),
            fits(search@),
            forall|i: int| 0 <= i < all@.len() ==> fits((#[trigger] all@[i]).target_file@),
            scores@ =~= scores_of(all@.take(i as int), search@),
        decreases all@.len() - i,
    {
        scores.push(fuzzy_match(all[i].target_file.as_str(), search.as_str()));
        i = i + 1;
    }
    assert(all@.take(i as int) =~= all@);
    let places = rank(&scores);
    let mut r: Vec<UnmatchedFile> = Vec::new();
    let mut j: usize = 0;
    while j < places.len()
        invariant
            0 <= j <= places@.len(),
            forall|j: int| 0 <= j < places@.len() ==> (#[trigger] places@[j]) < all@.len(),
            r@ =~= picked(all@, places@.take(j as int)),
        decreases places@.len() - j,
    {
        r.push(copy_unmatched(&all[places[j]]));
        j = j + 1;
    }
    assert(places@.take(j as int) =~= places@);
    r
}

/// The best matches come first.
pub proof fn law_best_matches_come_first(scores: Seq<Option<i64>>, k: int)
    requires
        0 <= k <= scores.len() <= usize::MAX,
    ensures
        forall|i: int, j: int|
            0 <= i < j < ranked(scores, k).len() ==> scores[(#[trigger] ranked(scores, k)[i]) as int]->0
                >= scores[(#[trigger] ranked(scores, k)[j]) as int]->0,
    decreases k,
{
    if k > 0 {
        law_best_matches_come_first(scores, k - 1);
        let t = ranked(scores, k - 1);
        if let Some(s) = scores[k - 1] {
            lemma_score_place(t, scores, s, 0);
            let p = score_place(t, scores, s, 0);
            let r = ranked(scores, k);
            assert forall|i: int, j: int| 0 <= i < j < r.len() implies scores[(
            #[trigger] r[i]) as int]->0 >= scores[(#[trigger] r[j]) as int]->0 by {
                if j < p {
                    assert(r[i] == t[i] && r[j] == t[j]);
                } else if j == p {
                    assert(r[i] == t[i]);
                } else if i < p {
                    assert(r[i] == t[i] && r[j] == t[j - 1]);
                } else if i == p {
                    assert(r[j] == t[j - 1]);
                    if j - 1 > p {
                        assert(scores[t[p] as int]->0 >= scores[t[j - 1] as int]->0);
                    }
                } else {
                    assert(r[i] == t[i - 1] && r[j] == t[j - 1]);
                }
            }
        }
    }
}

/// How matching all files goes on.
pub open spec fn automatch_goes_on(
    n: int,
    now: AutomatchStep,
    x: AutomatchReply,
    next: AutomatchStep,
) -> bool {
    match now {
        AutomatchStep::Do(op) => match op {
            AutomatchOp::AnnounceStart => next == AutomatchStep::Do(AutomatchOp::LoadUnmatched),
            AutomatchOp::LoadUnmatched => match x {
                AutomatchReply::Batches(m) => next == AutomatchStep::Do(
                    if m > 0 {
                        AutomatchOp::Open(0)
                    } else {
                        AutomatchOp::AnnounceStop
                    },
                ),
                _ => next is End,
            },
            AutomatchOp::Open(b) => b < n && next == if x is Failed {
                AutomatchStep::End
            } else {
                AutomatchStep::Do(AutomatchOp::Match(b))
            },
            AutomatchOp::Match(b) => b < n && next == AutomatchStep::Do(AutomatchOp::Commit(b)),
            AutomatchOp::Commit(b) => b < n && next == AutomatchStep::Do(
                if b + 1 < n {
                    AutomatchOp::Open((b + 1) as usize)
                } else {
                    AutomatchOp::AnnounceStop
                },
            ),
            AutomatchOp::AnnounceStop => next is End,
        },
        AutomatchStep::End => true,
    }
}

/// Matching goes on from any batch.
proof fn lemma_automatch_goes_on(
    n: int,
    b: int,
    replies: Seq<AutomatchReply>,
    c: int,
    x: AutomatchReply,
)
    requires
        0 <= b <= n <= usize::MAX,
        0 <= c <= replies.len(),
    ensures
        batches_from(n, b, replies, c) matches AutomatchStep::Do(op) ==> !(op is AnnounceStart)
            && !(op is LoadUnmatched),
        automatch_goes_on(n, batches_from(n, b, replies, c), x, batches_from(n, b, replies.push(x), c)),
    decreases n - b,
{
    let more = replies.push(x);
    reveal_with_fuel(batches_from, 2);
    if b < n && c + 2 < replies.len() {
        assert(more[c] == replies[c]);
        lemma_automatch_goes_on(n, b + 1, replies, c + 3, x);
    } else if c < replies.len() {
        assert(more[c] == replies[c]);
    } else {
        assert(more[c] == x);
    }
}

/// Matching all unmatched files is told, takes the batches one after the other whatever came of matching or
/// committing the one before, and its end is told.
pub proof fn law_every_batch_is_matched(replies: Seq<AutomatchReply>, x: AutomatchReply)
    ensures
        automatching(Seq::empty()) == AutomatchStep::Do(AutomatchOp::AnnounceStart),
        automatch_goes_on(
            if replies.len() > 1 && replies[1] is Batches {
                replies[1]->Batches_0 as int
            } else {
                0
            },
            automatching(replies),
            x,
            automatching(replies.push(x)),
        ),
{
    let more = replies.push(x);
    reveal_with_fuel(batches_from, 2);
    if replies.len() == 1 {
        assert(more[1] == x);
    } else if replies.len() > 1 {
        assert(more[1] == replies[1]);
        if let AutomatchReply::Batches(n) = replies[1] {
            lemma_automatch_goes_on(n as int, 0, replies, 2, x);
        }
    }
}

/// Only the owner adds a library. It is stored in a transaction, the request is answered, and then it is scanned
/// and followed, whatever came of the answer and of the scan.
pub proof fn law_new_libraries_are_scanned(done: Seq<bool>)
    requires
        forall|i: int| 0 <= i < done.len() && i < 3 ==> #[trigger] done[i],
    ensures
        adding(false, done) == AddStep::Refused(Status::Unauthorized),
        done.len() < 6 ==> adding(true, done) == AddStep::Do(
            seq![
                AddOp::Open,
                AddOp::Insert,
                AddOp::Commit,
                AddOp::Answer,
                AddOp::Scan,
                AddOp::Watch,
            ][done.len() as int],
        ),
        done.len() >= 6 ==> adding(true, done) is End,
{
}

/// A library that could not be stored is refused.
pub proof fn law_libraries_that_are_not_stored_are_refused(done: Seq<bool>, i: int)
    requires
        0 <= i < 3,
        i < done.len(),
        !done[i],
    ensures
        adding(true, done) == AddStep::Refused(Status::InternalServerError),
{
}

/// The place of a name is after those that come before it.
proof fn lemma_name_place(t: Seq<MediaRecord>, name: Seq<char>, from: int)
    requires
        0 <= from <= t.len(),
    ensures
        from <= name_place(t, name, from) <= t.len(),
        name_place(t, name, from) > from ==> lex_le(t[name_place(t, name, from) - 1].name@, name),
        name_place(t, name, from) < t.len() ==> !lex_le(t[name_place(t, name, from)].name@, name),
    decreases t.len() - from,
{
    if from < t.len() && lex_le(t[from].name@, name) {
        lemma_name_place(t, name, from + 1);
    }
}

/// The media items of a library are listed once each, in the order of their names.
#[verifier::spinoff_prover]
#[verifier::rlimit(40)]
pub proof fn law_media_are_listed_by_name(data: Seq<MediaRecord>, k: int)
    requires
        0 <= k <= data.len(),
    ensures
        by_name(data, k).to_multiset() == data.take(k).to_multiset(),
        by_name(data, k).len() == k,
        forall|i: int|
            0 < i < by_name(data, k).len() ==> lex_le(by_name(data, k)[i - 1].name@, (#[trigger] by_name(
                data,
                k,
            )[i]).name@),
    decreases k,
{
    if k > 0 {
        law_media_are_listed_by_name(data, k - 1);
        let t = by_name(data, k - 1);
        let x = data[k - 1];
        lemma_name_place(t, x.name@, 0);
        let p = name_place(t, x.name@, 0);
        let r = by_name(data, k);
        vstd::seq_lib::to_multiset_insert(t, p, x);
        assert(data.take(k) == data.take(k - 1).insert(k - 1, x));
        vstd::seq_lib::to_multiset_insert(data.take(k - 1), k - 1, x);
        assert forall|i: int| 0 < i < r.len() implies lex_le(r[i - 1].name@, (#[trigger] r[i]).name@) by {
            if i < p {
                assert(r[i - 1] == t[i - 1] && r[i] == t[i]);
            } else if i == p {
                assert(r[i - 1] == t[p - 1] && r[i] == x);
            } else if i == p + 1 {
                assert(r[i - 1] == x && r[i] == t[p]);
                lemma_lex_total(t[p].name@, x.name@);
            } else {
                assert(r[i - 1] == t[i - 2] && r[i] == t[i - 1]);
            }
        }
    } else {
        assert(data.take(0) =~= Seq::empty());
    }
}

/// The place of a path is before those that come after it.
proof fn lemma_path_place(t: Seq<UnmatchedFile>, path: Seq<char>, from: int)
    requires
        0 <= from <= t.len(),
    ensures
        from <= file_place(t, path, from) <= t.len(),
        file_place(t, path, from) > from ==> !path_before(
            components(path),
            components(t[file_place(t, path, from) - 1].target_file@),
        ),
        file_place(t, path, from) < t.len() ==> path_before(
            components(path),
            components(t[file_place(t, path, from)].target_file@),
        ),
    decreases t.len() - from,
{
    if from < t.len() && !path_before(components(path), components(t[from].target_file@)) {
        lemma_path_place(t, path, from + 1);
    }
}

/// Sorting keeps the files.
#[verifier::spinoff_prover]
#[verifier::rlimit(40)]
proof fn lemma_sorting_keeps_files(files: Seq<UnmatchedFile>, k: int)
    requires
        0 <= k <= files.len(),
    ensures
        by_path(files, k).to_multiset() == files.take(k).to_multiset(),
        by_path(files, k).len() == k,
    decreases k,
{
    if k > 0 {
        lemma_sorting_keeps_files(files, k - 1);
        let t = by_path(files, k - 1);
        let x = files[k - 1];
        lemma_path_place(t, x.target_file@, 0);
        let p = file_place(t, x.target_file@, 0);
        let u = files.take(k - 1);
        assert(by_path(files, k) == t.insert(p, x));
        vstd::seq_lib::to_multiset_insert(t, p, x);
        assert(files.take(k) == u.insert(k - 1, x));
        vstd::seq_lib::to_multiset_insert(u, k - 1, x);
    } else {
        assert(files.take(0) =~= Seq::empty());
    }
}

/// The files without a match are listed once each, none before one whose path comes before its own.
#[verifier::spinoff_prover]
#[verifier::rlimit(40)]
pub proof fn law_unmatched_files_are_listed_by_path(files: Seq<UnmatchedFile>, k: int)
    requires
        0 <= k <= files.len(),
    ensures
        by_path(files, k).to_multiset() == files.take(k).to_multiset(),
        by_path(files, k).len() == k,
        forall|i: int|
            0 < i < by_path(files, k).len() ==> !path_before(
                components((#[trigger] by_path(files, k)[i]).target_file@),
                components(by_path(files, k)[i - 1].target_file@),
            ),
    decreases k,
{
    lemma_sorting_keeps_files(files, k);
    if k > 0 {
        law_unmatched_files_are_listed_by_path(files, k - 1);
        let t = by_path(files, k - 1);
        let x = files[k - 1];
        lemma_path_place(t, x.target_file@, 0);
        let p = file_place(t, x.target_file@, 0);
        let r = by_path(files, k);
        assert forall|i: int| 0 < i < r.len() implies !path_before(
            components((#[trigger] r[i]).target_file@),
            components(r[i - 1].target_file@),
        ) by {
            if i < p {
                assert(r[i - 1] == t[i - 1] && r[i] == t[i]);
            } else if i == p {
                assert(r[i - 1] == t[p - 1] && r[i] == x);
            } else if i == p + 1 {
                assert(r[i - 1] == x && r[i] == t[p]);
                law_paths_are_ordered_one_way(components(x.target_file@), components(t[p].target_file@));
            } else {
                assert(r[i - 1] == t[i - 2] && r[i] == t[i - 1]);
            }
        }
    }
}

/// Every place with a score is ranked, and no other.
pub proof fn law_every_match_is_ranked(scores: Seq<Option<i64>>, k: int, p: usize)
    requires
        0 <= k <= scores.len() <= usize::MAX,
    ensures
        ranked(scores, k).contains(p) <==> p < k && scores[p as int] is Some,
    decreases k,
{
    if k > 0 {
        law_every_match_is_ranked(scores, k - 1, p);
        let t = ranked(scores, k - 1);
        let r = ranked(scores, k);
        if let Some(s) = scores[k - 1] {
            lemma_score_place(t, scores, s, 0);
            let at = score_place(t, scores, s, 0);
            assert(r[at] == k - 1);
            if t.contains(p) {
                let i = choose|i: int| 0 <= i < t.len() && t[i] == p;
                if i < at {
                    assert(r[i] == p);
                } else {
                    assert(r[i + 1] == p);
                }
            }
            if r.contains(p) && p != k - 1 {
                let i = choose|i: int| 0 <= i < r.len() && r[i] == p;
                if i < at {
                    assert(t[i] == p);
                } else {
                    assert(t[i - 1] == p);
                }
            }
        }
    }
}

/// Without a search all files are listed; with one, those that the search finds.
pub proof fn law_searches_list_what_they_find(files: Seq<UnmatchedFile>, search: Option<String>, f: UnmatchedFile)
    requires
        files.len() <= usize::MAX,
    ensures
        unmatched(files, (UnmatchedArgs { search })).contains(f) <==> files.contains(f) && (search matches Some(
            s,
        ) ==> fuzzy_score(f.target_file@, s@) is Some),
        search is None ==> unmatched(files, (UnmatchedArgs { search })).len() == files.len(),
{
    let n = files.len() as int;
    let all = by_path(files, n);
    law_unmatched_files_are_listed_by_path(files, n);
    assert(files.take(n) =~= files);
    all.to_multiset_ensures();
    files.to_multiset_ensures();
    assert(all.contains(f) <==> files.contains(f)) by {
        assert(all.contains(f) <==> all.to_multiset().count(f) > 0);
        assert(files.contains(f) <==> files.to_multiset().count(f) > 0);
    }
    if let Some(s) = search {
        let scores = scores_of(all, s@);
        let places = ranked(scores, scores.len() as int);
        let r = picked(all, places);
        if r.contains(f) {
            let i = choose|i: int| 0 <= i < r.len() && r[i] == f;
            law_every_match_is_ranked(scores, scores.len() as int, places[i]);
            assert(places.contains(places[i]));
            assert(all[places[i] as int] == f);
            assert(all.contains(f));
        }
        if all.contains(f) && fuzzy_score(f.target_file@, s@) is Some {
            let j = choose|j: int| 0 <= j < all.len() && all[j] == f;
            law_every_match_is_ranked(scores, scores.len() as int, j as usize);
            let i = choose|i: int| 0 <= i < places.len() && places[i] == j as usize;
            assert(r[i] == f);
        }
    }
}

/// Requests on libraries are for the owner alone, and need a library.
pub proof fn law_libraries_belong_to_the_owner(found: bool)
    ensures
        authorization(false, found) == Err::<(), LibraryError>(LibraryError::Unauthorized),
        authorization(true, false) == Err::<(), LibraryError>(LibraryError::LibraryNotFound),
        authorization(true, true) is Ok,
{
}

/// Libraries of shows, and only those, are scanned with the help of the directories.
pub proof fn law_shows_are_scanned_by_directory(media_type: MediaType)
    ensures
        scan_kind(media_type) is Smart <==> media_type is Tv,
{
}

/// A library that was hidden is gone; one that was not is not found.
pub proof fn law_deleted_libraries_are_hidden(hidden: u64)
    ensures
        hidden == 0 ==> deletion(hidden) == Err::<Status, LibraryError>(LibraryError::LibraryNotFound),
        hidden > 0 ==> deletion(hidden) == Ok::<Status, LibraryError>(Status::NoContent),
{
}

}
