//! Finding the files that webhooks speak of.

use vstd::prelude::*;

use crate::components::slash;
use crate::paths::{file_name, file_name_of, join_name, join_of};
use crate::scanner::records::MediaType;
use crate::scanner::smart_scan::text_of;
use crate::text::{
    cat, cat3, chars_of, count_bytes, byte_len, same, starts_with, strip_suffix, suffix_cut,
};
use crate::webhook::payload::ArrPaths;

verus! {

/// A library, with its locations.
#[derive(Debug)]
pub struct Library {
    pub id: i64,
    pub media_type: MediaType,
    pub provider: String,
    pub locations: Vec<String>,
}

/// The places of the libraries of a type.
pub open spec fn places_of(all: Seq<Library>, media_type: MediaType, k: int) -> Seq<usize>
    decreases k,
{
    if k <= 0 {
        Seq::empty()
    } else if all[k - 1].media_type == media_type {
        places_of(all, media_type, k - 1).push((k - 1) as usize)
    } else {
        places_of(all, media_type, k - 1)
    }
}

/// Finds the libraries of a type.
pub fn libraries_of(all: &Vec<Library>, media_type: MediaType) -> (r: Vec<usize>)
    ensures
        r@ == places_of(all@, media_type, all@.len() as int),
{
    let mut r: Vec<usize> = Vec::new();
    let mut k: usize = 0;
    while k < all.len()
        invariant
            0 <= k <= all@.len(),
            r@ == places_of(all@, media_type, k as int),
        decreases all@.len() - k,
    {
        if all[k].media_type == media_type {
            r.push(k);
        }
        k = k + 1;
    }
    r
}

/// A path put behind another; one that begins with a slash stands by itself.
pub open spec fn under(dir: Seq<char>, rest: Seq<char>) -> Seq<char> {
    if rest.len() > 0 && rest[0] == '/' {
        rest
    } else {
        join_of(dir, rest)
    }
}

/// Puts a path behind another.
pub fn join_path(dir: &str, rest: &str) -> (r: String)
    ensures
        r@ == under(dir@, rest@),
{
    let v = chars_of(rest);
    if v.len() > 0 && v[0] == '/' {
        rest.to_string()
    } else {
        join_name(dir, rest)
    }
}

/// The last component of the reported folder.
pub open spec fn folder_base(folder: Option<String>) -> Option<Seq<char>> {
    match folder {
        Some(f) => file_name_of(f@),
        None => None,
    }
}

/// Gets the last component of the reported folder.
pub fn base_of(folder: &Option<String>) -> (r: Option<String>)
    ensures
        text_of(r) == folder_base(*folder),
{
    match folder {
        Some(f) => file_name(f.as_str()),
        None => None,
    }
}

/// The reported path, if it is under a location.
pub open spec fn reported_at(loc: Seq<char>, p: ArrPaths) -> Seq<Seq<char>> {
    match p.file {
        Some(f) => if loc.is_prefix_of(f@) {
            seq![f@]
        } else {
            Seq::empty()
        },
        None => Seq::empty(),
    }
}

/// Where the reported file can be under a location whatever its prefix is: at its place in the folder, or
/// without the folder, since the two applications can see the same tree under different prefixes.
pub open spec fn rerooted_at(loc: Seq<char>, p: ArrPaths) -> Seq<Seq<char>> {
    match p.relative {
        Some(rel) => (match folder_base(p.folder) {
            Some(base) => seq![under(under(loc, base), rel@)],
            None => Seq::empty(),
        }).push(under(loc, rel@)),
        None => Seq::empty(),
    }
}

/// Where the file can be under a location, as it is reported or rerooted.
pub open spec fn candidates_at(loc: Seq<char>, p: ArrPaths, as_is: bool) -> Seq<Seq<char>> {
    if as_is {
        reported_at(loc, p)
    } else {
        rerooted_at(loc, p)
    }
}

/// A library and a path.
pub type Spot = (i64, Seq<char>);

/// Paths with the library that they are in.
pub open spec fn spots_at(lib: i64, paths: Seq<Seq<char>>) -> Seq<Spot> {
    paths.map_values(|p: Seq<char>| (lib, p))
}

/// Where the file can be under the first `k` locations of a library, as it is reported or rerooted.
pub open spec fn spots_in(lib: Library, p: ArrPaths, as_is: bool, k: int) -> Seq<Spot>
    decreases k,
{
    if k <= 0 {
        Seq::empty()
    } else {
        spots_in(lib, p, as_is, k - 1) + spots_at(
            lib.id,
            candidates_at(lib.locations@[k - 1]@, p, as_is),
        )
    }
}

/// Where the file can be in the first `k` libraries, as it is reported or rerooted.
pub open spec fn spots_among(libraries: Seq<Library>, p: ArrPaths, as_is: bool, k: int) -> Seq<Spot>
    decreases k,
{
    if k <= 0 {
        Seq::empty()
    } else {
        spots_among(libraries, p, as_is, k - 1) + spots_in(
            libraries[k - 1],
            p,
            as_is,
            libraries[k - 1].locations@.len() as int,
        )
    }
}

/// Where the file can be: first at the reported path, under whatever location that is, and then rerooted
/// onto each location.
pub open spec fn spots(libraries: Seq<Library>, p: ArrPaths) -> Seq<Spot> {
    spots_among(libraries, p, true, libraries.len() as int) + spots_among(
        libraries,
        p,
        false,
        libraries.len() as int,
    )
}

/// A list of libraries and paths.
pub open spec fn spots_of(v: Seq<(i64, String)>) -> Seq<Spot> {
    v.map_values(|s: (i64, String)| (s.0, s.1@))
}

/// Adds where the file can be under a location.
fn add_candidates(r: &mut Vec<(i64, String)>, lib: i64, loc: &str, p: &ArrPaths, as_is: bool)
    ensures
        spots_of(final(r)@) == spots_of(old(r)@) + spots_at(lib, candidates_at(loc@, *p, as_is)),
{
    let ghost before = spots_of(r@);
    if as_is {
        if let Some(f) = &p.file {
            if starts_with(f.as_str(), loc) {
                r.push((lib, f.clone()));
            }
        }
    } else {
        if let Some(rel) = &p.relative {
            if let Some(base) = base_of(&p.folder) {
                let dir = join_path(loc, base.as_str());
                r.push((lib, join_path(dir.as_str(), rel.as_str())));
            }
            r.push((lib, join_path(loc, rel.as_str())));
        }
    }
    assert(spots_of(r@) =~= before + spots_at(lib, candidates_at(loc@, *p, as_is)));
}

/// Adds where the file can be in all libraries.
fn add_spots(r: &mut Vec<(i64, String)>, libraries: &Vec<Library>, p: &ArrPaths, as_is: bool)
    ensures
        spots_of(final(r)@) == spots_of(old(r)@) + spots_among(
            libraries@,
            *p,
            as_is,
            libraries@.len() as int,
        ),
{
    let ghost start = spots_of(r@);
    let mut k: usize = 0;
    while k < libraries.len()
        invariant
            0 <= k <= libraries@.len(),
            spots_of(r@) =~= start + spots_among(libraries@, *p, as_is, k as int),
        decreases libraries@.len() - k,
    {
        let lib = &libraries[k];
        let ghost before = spots_of(r@);
        let mut j: usize = 0;
        while j < lib.locations.len()
            invariant
                0 <= j <= lib.locations@.len(),
                spots_of(r@) =~= before + spots_in(*lib, *p, as_is, j as int),
            decreases lib.locations@.len() - j,
        {
            add_candidates(r, lib.id, lib.locations[j].as_str(), p, as_is);
            j = j + 1;
        }
        k = k + 1;
    }
}

/// Lists where a reported file can be, the likeliest first.
pub fn disk_candidates(libraries: &Vec<Library>, p: &ArrPaths) -> (r: Vec<(i64, String)>)
    ensures
        spots_of(r@) == spots(libraries@, *p),
{
    let mut r: Vec<(i64, String)> = Vec::new();
    add_spots(&mut r, libraries, p, true);
    add_spots(&mut r, libraries, p, false);
    assert(spots_of(r@) =~= spots(libraries@, *p));
    r
}

/// The first place that has a file, from `from` on.
pub open spec fn first_file(present: Seq<bool>, from: int) -> Option<int>
    decreases present.len() - from,
{
    if from < 0 || from >= present.len() {
        None
    } else if present[from] {
        Some(from)
    } else {
        first_file(present, from + 1)
    }
}

/// Picks the first candidate that is a file.
pub fn resolve_on_disk(candidates: &Vec<(i64, String)>, present: &Vec<bool>) -> (r: Option<(
    i64,
    String,
)>)
    requires
        present@.len() == candidates@.len(),
    ensures
        r is Some <==> first_file(present@, 0) is Some,
        r matches Some(s) ==> s == candidates@[first_file(present@, 0)->0],
{
    let mut i: usize = 0;
    while i < present.len()
        invariant
            0 <= i <= present@.len(),
            present@.len() == candidates@.len(),
            first_file(present@, 0) == first_file(present@, i as int),
        decreases present@.len() - i,
    {
        if present[i] {
            return Some((candidates[i].0, candidates[i].1.clone()));
        }
        i = i + 1;
    }
    None
}

/// A question to the index.
#[derive(Debug)]
pub enum FindOp {
    ByPath(String),
    /// The ids of the files whose paths are like a pattern.
    ByPattern(String),
    ById(i64),
}

/// An answer of the index.
#[derive(Debug)]
pub enum FindReply {
    Missing,
    File,
    Ids(Vec<i64>),
}

/// What finding an indexed file has come to: the file is in a reply.
#[derive(Debug)]
pub enum FindStep {
    Ask(FindOp),
    Found(usize),
    Missing,
}

/// The pattern of the files at a place in a folder.
pub open spec fn suffix_pattern(base: Seq<char>, relative: Seq<char>) -> Seq<char> {
    "%/"@ + base + "/"@ + relative
}

/// `r` is what finding an indexed file has come to: the file at the reported path, or else the only one
/// at the same place in a folder of the same name.
pub open spec fn is_finding(
    file: Option<String>,
    folder: Option<String>,
    relative: Option<String>,
    replies: Seq<FindReply>,
    r: FindStep,
) -> bool {
    let c: int = if file is Some {
        1
    } else {
        0
    };
    if file is Some && replies.len() == 0 {
        r matches FindStep::Ask(FindOp::ByPath(p)) && p@ == file->0@
    } else if file is Some && replies[0] is File {
        r == FindStep::Found(0)
    } else if folder_base(folder) is None || relative is None {
        r is Missing
    } else if replies.len() == c {
        r matches FindStep::Ask(FindOp::ByPattern(p)) && p@ == suffix_pattern(
            folder_base(folder)->0,
            relative->0@,
        )
    } else if !(replies[c] matches FindReply::Ids(ids) && ids@.len() == 1) {
        r is Missing
    } else if replies.len() == c + 1 {
        r == FindStep::Ask(FindOp::ById(replies[c]->Ids_0@[0]))
    } else if replies[c + 1] is File {
        r == FindStep::Found((c + 1) as usize)
    } else {
        r is Missing
    }
}

/// Goes on with finding an indexed file.
pub fn find_indexed_mediafile(
    file: &Option<String>,
    folder: &Option<String>,
    relative: &Option<String>,
    replies: &Vec<FindReply>,
) -> (r: FindStep)
    ensures
        is_finding(*file, *folder, *relative, replies@, r),
{
    let n: usize = replies.len();
    let mut c: usize = 0;
    if let Some(f) = file {
        if n == 0 {
            return FindStep::Ask(FindOp::ByPath(f.clone()));
        }
        if let FindReply::File = &replies[0] {
            return FindStep::Found(0);
        }
        c = 1;
    }
    let base = match base_of(folder) {
        Some(base) => base,
        None => {
            return FindStep::Missing;
        },
    };
    let rel = match relative {
        Some(rel) => rel,
        None => {
            return FindStep::Missing;
        },
    };
    if n == c {
        let head = cat3("%/", base.as_str(), "/");
        return FindStep::Ask(FindOp::ByPattern(cat(head.as_str(), rel.as_str())));
    }
    match &replies[c] {
        FindReply::Ids(ids) => {
            if ids.len() != 1 {
                return FindStep::Missing;
            }
            if n == c + 1 {
                return FindStep::Ask(FindOp::ById(ids[0]));
            }
            match &replies[c + 1] {
                FindReply::File => FindStep::Found(c + 1),
                _ => FindStep::Missing,
            }
        },
        _ => FindStep::Missing,
    }
}

/// The new path of a renamed file: the old one, with the part in the folder replaced, so that the prefix
/// stays.
pub open spec fn new_target(target: Seq<char>, previous: Option<String>, relative: Option<String>) -> Option<
    Seq<char>,
> {
    match (previous, relative) {
        (Some(previous), Some(relative)) => match suffix_cut(target, previous@) {
            Some(prefix) => Some(prefix + relative@),
            None => None,
        },
        _ => None,
    }
}

/// Works out the new path of a renamed file.
pub fn renamed_target(target: &str, previous: &Option<String>, relative: &Option<String>) -> (r: Option<
    String,
>)
    ensures
        text_of(r) == new_target(target@, *previous, *relative),
{
    match (previous, relative) {
        (Some(previous), Some(relative)) => match strip_suffix(target, previous.as_str()) {
            Some(prefix) => Some(cat(prefix.as_str(), relative.as_str())),
            None => None,
        },
        _ => None,
    }
}

/// A rename that the file's path agrees with keeps its prefix and gives it the new place in the folder.
pub proof fn law_rename_keeps_the_prefix(prefix: Seq<char>, previous: String, relative: String)
    ensures
        new_target(prefix + previous@, Some(previous), Some(relative)) == Some(prefix + relative@),
{
    let target = prefix + previous@;
    assert(target.subrange(target.len() - previous@.len(), target.len() as int) =~= previous@);
    assert(target.subrange(0, target.len() - previous@.len()) =~= prefix);
}

/// The pattern of the files of a folder, where its name has at least two bytes.
pub open spec fn delete_pattern(folder: Option<String>) -> Option<Seq<char>> {
    match folder_base(folder) {
        Some(base) => if byte_len(base) >= 2 {
            Some("%/"@ + base + "/%"@)
        } else {
            None
        },
        None => None,
    }
}

/// Makes the pattern of the files of a deleted folder.
pub fn media_delete_pattern(folder: &Option<String>) -> (r: Option<String>)
    ensures
        text_of(r) == delete_pattern(*folder),
{
    match base_of(folder) {
        None => None,
        Some(base) => {
            let v = chars_of(base.as_str());
            let len: usize = v.len();
            let n = count_bytes(&v, len);
            assert(v@.subrange(0, len as int) =~= v@);
            if n >= 2 {
                Some(cat3("%/", base.as_str(), "/%"))
            } else {
                None
            }
        },
    }
}

/// Tells if a file is in one of the libraries; a folder's name alone can be that of another library's
/// folder.
pub fn is_in_libraries(library_ids: &Vec<i64>, library_id: i64) -> (r: bool)
    ensures
        r == library_ids@.contains(library_id),
{
    let mut i: usize = 0;
    while i < library_ids.len()
        invariant
            0 <= i <= library_ids@.len(),
            forall|j: int| 0 <= j < i ==> library_ids@[j] != library_id,
        decreases library_ids@.len() - i,
    {
        if library_ids[i] == library_id {
            return true;
        }
        i = i + 1;
    }
    false
}

/// A step in the removal of a file.
#[derive(Clone, Copy, Debug, PartialEq, Eq, Structural)]
pub enum PurgeOp {
    MediaOfFile(i64),
    DeleteFile(i64),
    /// Counts the files of a media item.
    FilesOfMedia(i64),
    DeleteMedia(i64),
}

/// What came of a step.
#[derive(Clone, Copy, Debug, PartialEq, Eq, Structural)]
pub enum PurgeReply {
    Failed,
    Done,
    Id(i64),
    Count(u64),
}

/// What the removal of a file has come to.
#[derive(Clone, Copy, Debug, PartialEq, Eq, Structural)]
pub enum PurgeStep {
    Do(PurgeOp),
    End,
}

/// The removal of a file, and of its media item if no file is left of it.
pub open spec fn purging(id: i64, replies: Seq<PurgeReply>) -> PurgeStep {
    if replies.len() == 0 {
        PurgeStep::Do(PurgeOp::MediaOfFile(id))
    } else if replies.len() == 1 {
        PurgeStep::Do(PurgeOp::DeleteFile(id))
    } else if !(replies[1] is Done) || !(replies[0] is Id) {
        PurgeStep::End
    } else if replies.len() == 2 {
        PurgeStep::Do(PurgeOp::FilesOfMedia(replies[0]->Id_0))
    } else if replies[2] == PurgeReply::Count(0) && replies.len() == 3 {
        PurgeStep::Do(PurgeOp::DeleteMedia(replies[0]->Id_0))
    } else {
        PurgeStep::End
    }
}

/// Goes on with the removal of a file.
pub fn remove_mediafile(id: i64, replies: &Vec<PurgeReply>) -> (r: PurgeStep)
    ensures
        r == purging(id, replies@),
{
    let n: usize = replies.len();
    if n == 0 {
        return PurgeStep::Do(PurgeOp::MediaOfFile(id));
    }
    if n == 1 {
        return PurgeStep::Do(PurgeOp::DeleteFile(id));
    }
    if replies[1] != PurgeReply::Done {
        return PurgeStep::End;
    }
    let media: i64 = match replies[0] {
        PurgeReply::Id(media) => media,
        _ => {
            return PurgeStep::End;
        },
    };
    if n == 2 {
        return PurgeStep::Do(PurgeOp::FilesOfMedia(media));
    }
    if n == 3 && replies[2] == PurgeReply::Count(0) {
        return PurgeStep::Do(PurgeOp::DeleteMedia(media));
    }
    PurgeStep::End
}

/// Under every location of every library, the reported file is looked for at its place in a folder of
/// the same name: it is found whatever the prefix is that the other application sees.
pub proof fn law_files_are_looked_for_under_every_location(
    libraries: Seq<Library>,
    p: ArrPaths,
    i: int,
    j: int,
)
    requires
        0 <= i < libraries.len(),
        0 <= j < libraries[i].locations@.len(),
        p.relative is Some,
        folder_base(p.folder) is Some,
    ensures
        spots(libraries, p).contains(
            (
                libraries[i].id,
                under(
                    under(libraries[i].locations@[j]@, folder_base(p.folder)->0),
                    p.relative->0@,
                ),
            ),
        ),
{
    let lib = libraries[i];
    let loc = lib.locations@[j]@;
    let path = under(under(loc, folder_base(p.folder)->0), p.relative->0@);
    let own = candidates_at(loc, p, false);
    assert(own[0] == path);
    assert(spots_at(lib.id, own)[0] == (lib.id, path));
    lemma_spots_in(lib, p, false, j, lib.locations@.len() as int, (lib.id, path));
    lemma_spots_among(libraries, p, false, i, libraries.len() as int, (lib.id, path));
    let first = spots_among(libraries, p, true, libraries.len() as int);
    let rest = spots_among(libraries, p, false, libraries.len() as int);
    let n = choose|n: int| 0 <= n < rest.len() && rest[n] == (lib.id, path);
    assert((first + rest)[first.len() + n] == (lib.id, path));
}

/// A reported path that is a file under some location is taken as it is: no rerooted path, in whichever
/// library, takes its place. `present` says of each candidate whether it is a file, the same of the same
/// path. The library is one that has a location above the path.
pub proof fn law_reported_paths_come_first(
    libraries: Seq<Library>,
    p: ArrPaths,
    present: Seq<bool>,
    i: int,
    j: int,
)
    requires
        0 <= i < libraries.len(),
        0 <= j < libraries[i].locations@.len(),
        p.file is Some,
        libraries[i].locations@[j]@.is_prefix_of(p.file->0@),
        present.len() == spots(libraries, p).len(),
        forall|n: int|
            0 <= n < present.len() && (#[trigger] spots(libraries, p)[n]).1 == p.file->0@ ==> present[n],
    ensures
        first_file(present, 0) == Some(0int),
        spots(libraries, p)[0].1 == p.file->0@,
        exists|a: int, b: int|
            #![trigger libraries[a].locations@[b]]
            0 <= a < libraries.len() && 0 <= b < libraries[a].locations@.len()
                && spots(libraries, p)[0].0 == libraries[a].id
                && libraries[a].locations@[b]@.is_prefix_of(p.file->0@),
{
    let lib = libraries[i];
    let f = p.file->0@;
    let own = candidates_at(lib.locations@[j]@, p, true);
    assert(spots_at(lib.id, own)[0] == (lib.id, f));
    lemma_spots_in(lib, p, true, j, lib.locations@.len() as int, (lib.id, f));
    lemma_spots_among(libraries, p, true, i, libraries.len() as int, (lib.id, f));
    let first = spots_among(libraries, p, true, libraries.len() as int);
    lemma_reported(libraries, p, libraries.len() as int);
    assert(spots(libraries, p)[0] == first[0]);
}

/// What is listed as reported is the reported path, under a location above it.
proof fn lemma_reported(libraries: Seq<Library>, p: ArrPaths, k: int)
    requires
        k <= libraries.len(),
        p.file is Some,
    ensures
        forall|n: int|
            0 <= n < spots_among(libraries, p, true, k).len() ==> is_reported(
                libraries,
                p,
                #[trigger] spots_among(libraries, p, true, k)[n],
            ),
    decreases k,
{
    if k > 0 {
        lemma_reported(libraries, p, k - 1);
        lemma_reported_in(libraries, p, k - 1, libraries[k - 1].locations@.len() as int);
        let before = spots_among(libraries, p, true, k - 1);
        let last = spots_in(libraries[k - 1], p, true, libraries[k - 1].locations@.len() as int);
        let out = spots_among(libraries, p, true, k);
        assert forall|n: int| 0 <= n < out.len() implies is_reported(libraries, p, #[trigger] out[n]) by {
            if n < before.len() {
                assert(out[n] == before[n]);
            } else {
                assert(out[n] == last[n - before.len()]);
            }
        }
    }
}

/// A spot is the reported path, under a location above it.
spec fn is_reported(libraries: Seq<Library>, p: ArrPaths, s: Spot) -> bool {
    &&& s.1 == p.file->0@
    &&& exists|a: int, b: int|
        #![trigger libraries[a].locations@[b]]
        0 <= a < libraries.len() && 0 <= b < libraries[a].locations@.len() && s.0 == libraries[a].id
            && libraries[a].locations@[b]@.is_prefix_of(p.file->0@)
}

/// What is listed as reported for one library is so.
proof fn lemma_reported_in(libraries: Seq<Library>, p: ArrPaths, a: int, k: int)
    requires
        0 <= a < libraries.len(),
        k <= libraries[a].locations@.len(),
        p.file is Some,
    ensures
        forall|n: int|
            0 <= n < spots_in(libraries[a], p, true, k).len() ==> is_reported(
                libraries,
                p,
                #[trigger] spots_in(libraries[a], p, true, k)[n],
            ),
    decreases k,
{
    if k > 0 {
        lemma_reported_in(libraries, p, a, k - 1);
        let before = spots_in(libraries[a], p, true, k - 1);
        let out = spots_in(libraries[a], p, true, k);
        let loc = libraries[a].locations@[k - 1];
        assert forall|n: int| 0 <= n < out.len() implies is_reported(libraries, p, #[trigger] out[n]) by {
            if n < before.len() {
                assert(out[n] == before[n]);
            } else {
                assert(reported_at(loc@, p).len() > 0);
                assert(out[n] == (libraries[a].id, p.file->0@));
            }
        }
    }
}

/// What is under a location is in the library.
proof fn lemma_spots_in(lib: Library, p: ArrPaths, as_is: bool, j: int, k: int, s: Spot)
    requires
        0 <= j < k,
        spots_at(lib.id, candidates_at(lib.locations@[j]@, p, as_is)).contains(s),
    ensures
        spots_in(lib, p, as_is, k).contains(s),
    decreases k,
{
    let before = spots_in(lib, p, as_is, k - 1);
    let last = spots_at(lib.id, candidates_at(lib.locations@[k - 1]@, p, as_is));
    if j < k - 1 {
        lemma_spots_in(lib, p, as_is, j, k - 1, s);
        let n = choose|n: int| 0 <= n < before.len() && before[n] == s;
        assert((before + last)[n] == s);
    } else {
        let n = choose|n: int| 0 <= n < last.len() && last[n] == s;
        assert((before + last)[before.len() + n] == s);
    }
}

/// What is in a library is in the list.
proof fn lemma_spots_among(
    libraries: Seq<Library>,
    p: ArrPaths,
    as_is: bool,
    i: int,
    k: int,
    s: Spot,
)
    requires
        0 <= i < k,
        spots_in(libraries[i], p, as_is, libraries[i].locations@.len() as int).contains(s),
    ensures
        spots_among(libraries, p, as_is, k).contains(s),
    decreases k,
{
    let before = spots_among(libraries, p, as_is, k - 1);
    let last = spots_in(libraries[k - 1], p, as_is, libraries[k - 1].locations@.len() as int);
    if i < k - 1 {
        lemma_spots_among(libraries, p, as_is, i, k - 1, s);
        let n = choose|n: int| 0 <= n < before.len() && before[n] == s;
        assert((before + last)[n] == s);
    } else {
        let n = choose|n: int| 0 <= n < last.len() && last[n] == s;
        assert((before + last)[before.len() + n] == s);
    }
}

/// The libraries of a type are found, all of them and no others, in their order.
pub proof fn law_libraries_of_a_type_are_found(all: Seq<Library>, media_type: MediaType, k: int)
    requires
        0 <= k <= all.len() <= usize::MAX,
    ensures
        forall|p: usize|
            #[trigger] places_of(all, media_type, k).contains(p) <==> p < k && all[p as int].media_type
                == media_type,
        forall|i: int, j: int|
            0 <= i < j < places_of(all, media_type, k).len() ==> (#[trigger] places_of(all, media_type, k)[i])
                < (#[trigger] places_of(all, media_type, k)[j]),
    decreases k,
{
    if k > 0 {
        law_libraries_of_a_type_are_found(all, media_type, k - 1);
        let before = places_of(all, media_type, k - 1);
        let now = places_of(all, media_type, k);
        assert forall|p: usize| #[trigger] now.contains(p) <==> p < k && all[p as int].media_type
            == media_type by {
            if now.contains(p) {
                let i = choose|i: int| 0 <= i < now.len() && now[i] == p;
                if i < before.len() {
                    assert(before[i] == p);
                    assert(before.contains(p));
                }
            }
            if before.contains(p) {
                let i = choose|i: int| 0 <= i < before.len() && before[i] == p;
                assert(now[i] == p);
            }
            if p == k - 1 && all[p as int].media_type == media_type {
                assert(now[before.len() as int] == p);
            }
        }
        assert forall|i: int, j: int| 0 <= i < j < now.len() implies (#[trigger] now[i]) < (
        #[trigger] now[j]) by {
            assert(before.contains(before[i]));
        }
    }
}

/// The first candidate that is a file is taken.
pub proof fn law_the_first_file_is_taken(present: Seq<bool>, from: int)
    requires
        0 <= from <= present.len(),
    ensures
        match first_file(present, from) {
            Some(i) => from <= i < present.len() && present[i] && forall|j: int|
                from <= j < i ==> !#[trigger] present[j],
            None => forall|j: int| from <= j < present.len() ==> !#[trigger] present[j],
        },
    decreases present.len() - from,
{
    if from < present.len() && !present[from] {
        law_the_first_file_is_taken(present, from + 1);
    }
}

/// An indexed file is asked for by its path, and where that is not known by its place in a folder of the same
/// name. It is taken where it is found by its path, or where a single file stands at that place.
pub proof fn law_indexed_files_are_found(
    file: Option<String>,
    folder: Option<String>,
    relative: Option<String>,
    replies: Seq<FindReply>,
    r: FindStep,
)
    requires
        is_finding(file, folder, relative, replies, r),
    ensures
        file matches Some(f) ==> (replies.len() == 0 ==> (r matches FindStep::Ask(FindOp::ByPath(p)) && p@
            == f@)) && (replies.len() > 0 && replies[0] is File ==> r == FindStep::Found(0)),
        ({
            let c: int = if file is Some {
                1
            } else {
                0
            };
            let known = folder matches Some(f) && file_name_of(f@) is Some;
            (file is None || replies.len() > 0 && !(replies[0] is File)) && known && relative is Some ==> {
                &&& replies.len() == c ==> (r matches FindStep::Ask(FindOp::ByPattern(p)) && p@ == "%/"@
                    + file_name_of(folder->0@)->0 + "/"@ + relative->0@)
                &&& replies.len() == c + 1 && replies[c] is Ids && replies[c]->Ids_0@.len() == 1 ==> r
                    == FindStep::Ask(FindOp::ById(replies[c]->Ids_0@[0]))
                &&& replies.len() == c + 2 && replies[c] is Ids && replies[c]->Ids_0@.len() == 1 && replies[c
                    + 1] is File ==> r == FindStep::Found((c + 1) as usize)
                &&& replies.len() > c && replies[c] is Ids && replies[c]->Ids_0@.len() != 1 ==> r is Missing
            }
        }),
        r matches FindStep::Found(k) ==> k < replies.len() && replies[k as int] is File,
{
}

/// The removal of a file deletes the file and, where that was the last one of its media item, the media item.
pub proof fn law_removal_deletes_the_file(id: i64, media: i64, first: PurgeReply, n: u64)
    ensures
        purging(id, Seq::empty()) == PurgeStep::Do(PurgeOp::MediaOfFile(id)),
        purging(id, seq![first]) == PurgeStep::Do(PurgeOp::DeleteFile(id)),
        purging(id, seq![PurgeReply::Id(media), PurgeReply::Done]) == PurgeStep::Do(
            PurgeOp::FilesOfMedia(media),
        ),
        purging(id, seq![PurgeReply::Id(media), PurgeReply::Done, PurgeReply::Count(n)]) == (if n == 0 {
            PurgeStep::Do(PurgeOp::DeleteMedia(media))
        } else {
            PurgeStep::End
        }),
{
}

/// A media item is deleted only where its file was removed and no other file is left of it.
pub proof fn law_media_with_files_are_kept(id: i64, replies: Seq<PurgeReply>, media: i64)
    requires
        purging(id, replies) == PurgeStep::Do(PurgeOp::DeleteMedia(media)),
    ensures
        replies == seq![PurgeReply::Id(media), PurgeReply::Done, PurgeReply::Count(0)],
{
}

/// A folder is searched for by the whole of its name, if that is no single letter.
pub proof fn law_deleted_folders_are_matched_by_name(folder: String, base: Seq<char>)
    requires
        file_name_of(folder@) == Some(base),
    ensures
        byte_len(base) >= 2 ==> delete_pattern(Some(folder)) == Some("%/"@ + base + "/%"@),
        byte_len(base) < 2 ==> delete_pattern(Some(folder)) is None,
        delete_pattern(None) is None,
{
}

}
