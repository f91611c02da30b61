//! From the files of a library to what is to be matched.

use vstd::prelude::*;

use crate::components::{components, split_path};
use crate::filename::Metadata;
use crate::paths::{extension, extension_of};
use crate::scanner::matcher::WorkUnit;
use crate::scanner::parse::metas_of;
use crate::scanner::records::MediaFile;
use crate::text::{chars_of, same, views};

verus! {

/// How many files are matched in one transaction.
pub const MATCHED_AT_ONCE: usize = 128;

/// An extension of media files.
pub open spec fn supported(e: Seq<char>) -> bool {
    e == "001"@ || e == "3g2"@ || e == "3gp"@ || e == "amv"@ || e == "asf"@ || e == "asx"@
    || e == "avi"@ || e == "bin"@ || e == "bivx"@ || e == "divx"@ || e == "dv"@ || e == "dvr-ms"@
    || e == "f4v"@ || e == "fli"@ || e == "flv"@ || e == "ifo"@ || e == "img"@ || e == "iso"@
    || e == "m2t"@ || e == "m2ts"@ || e == "m2v"@ || e == "m4v"@ || e == "mkv"@ || e == "mk3d"@
    || e == "mov"@ || e == "mp4"@ || e == "mpe"@ || e == "mpeg"@ || e == "mpg"@ || e == "mts"@
    || e == "mxf"@ || e == "nrg"@ || e == "nsv"@ || e == "nuv"@ || e == "ogg"@ || e == "ogm"@
    || e == "ogv"@ || e == "pva"@ || e == "qt"@ || e == "rec"@ || e == "rm"@ || e == "rmvb"@
    || e == "strm"@ || e == "svq3"@ || e == "tp"@ || e == "ts"@ || e == "ty"@ || e == "viv"@
    || e == "vob"@ || e == "vp3"@ || e == "webm"@ || e == "wmv"@ || e == "wtv"@ || e == "xvid"@
}

/// Tells if an extension is one of media files.
pub fn is_supported(e: &str) -> (r: bool)
    ensures
        r == supported(e@),
{
    same(e, "001") || same(e, "3g2") || same(e, "3gp") || same(e, "amv") || same(e, "asf")
    || same(e, "asx") || same(e, "avi") || same(e, "bin") || same(e, "bivx") || same(e, "divx")
    || same(e, "dv") || same(e, "dvr-ms") || same(e, "f4v") || same(e, "fli") || same(e, "flv")
    || same(e, "ifo") || same(e, "img") || same(e, "iso") || same(e, "m2t") || same(e, "m2ts")
    || same(e, "m2v") || same(e, "m4v") || same(e, "mkv") || same(e, "mk3d") || same(e, "mov")
    || same(e, "mp4") || same(e, "mpe") || same(e, "mpeg") || same(e, "mpg") || same(e, "mts")
    || same(e, "mxf") || same(e, "nrg") || same(e, "nsv") || same(e, "nuv") || same(e, "ogg")
    || same(e, "ogm") || same(e, "ogv") || same(e, "pva") || same(e, "qt") || same(e, "rec")
    || same(e, "rm") || same(e, "rmvb") || same(e, "strm") || same(e, "svq3") || same(e, "tp")
    || same(e, "ts") || same(e, "ty") || same(e, "viv") || same(e, "vob") || same(e, "vp3")
    || same(e, "webm") || same(e, "wmv") || same(e, "wtv") || same(e, "xvid")
}

/// A path with a component that begins with a dot.
pub open spec fn hidden(path: Seq<char>) -> bool {
    exists|i: int|
        0 <= i < components(path).len() && (#[trigger] components(path)[i]).len() > 0 && components(
            path,
        )[i][0] == '.'
}

/// The path of a media file that is not hidden.
pub open spec fn is_media(path: Seq<char>) -> bool {
    !hidden(path) && extension_of(path) is Some && supported(extension_of(path)->0)
}

/// Tells if a path has a component that begins with a dot.
pub fn is_hidden(path: &str) -> (r: bool)
    ensures
        r == hidden(path@),
{
    let parts = split_path(path);
    let mut i: usize = 0;
    while i < parts.len()
        invariant
            0 <= i <= parts@.len(),
            views(parts@) == components(path@),
            forall|j: int|
                0 <= j < i ==> !((#[trigger] components(path@)[j]).len() > 0 && components(
                    path@,
                )[j][0] == '.'),
        decreases parts@.len() - i,
    {
        let v = chars_of(parts[i].as_str());
        assert(components(path@)[i as int] == v@);
        if v.len() > 0 && v[0] == '.' {
            return true;
        }
        i = i + 1;
    }
    false
}

/// Tells if a path has an extension of media files.
pub fn has_media_extension(path: &str) -> (r: bool)
    ensures
        r == (extension_of(path@) is Some && supported(extension_of(path@)->0)),
{
    match extension(path) {
        Some(e) => is_supported(e.as_str()),
        None => false,
    }
}

/// Those of the paths that are media files.
pub open spec fn media_of(paths: Seq<Seq<char>>) -> Seq<Seq<char>> {
    paths.filter(|p: Seq<char>| is_media(p))
}

/// Keeps, of the paths that a walk has found, the media files that are not hidden.
pub fn get_subfiles(paths: &Vec<String>) -> (r: Vec<String>)
    ensures
        views(r@) == media_of(views(paths@)),
{
    let ghost f = |p: Seq<char>| is_media(p);
    let mut r: Vec<String> = Vec::new();
    let mut i: usize = 0;
    proof {
        reveal(Seq::filter);
        assert(views(r@) =~= views(paths@).take(0).filter(f));
    }
    while i < paths.len()
        invariant
            0 <= i <= paths@.len(),
            f == (|p: Seq<char>| is_media(p)),
            views(r@) == views(paths@).take(i as int).filter(f),
        decreases paths@.len() - i,
    {
        let ghost before = views(r@);
        proof {
            reveal(Seq::filter);
            let next = views(paths@).take(i + 1);
            assert(next.drop_last() =~= views(paths@).take(i as int));
            assert(next.last() == paths@[i as int]@);
        }
        if !is_hidden(paths[i].as_str()) && has_media_extension(paths[i].as_str()) {
            r.push(paths[i].clone());
            assert(views(r@) =~= before.push(paths@[i as int]@));
        }
        i = i + 1;
    }
    assert(views(paths@).take(i as int) =~= views(paths@));
    r
}

/// The last of the first `k` entries that is for this path.
pub open spec fn entry_for(parsed: Seq<(String, Vec<Metadata>)>, path: Seq<char>, k: int) -> Option<int>
    decreases k,
{
    if k <= 0 {
        None
    } else if parsed[k - 1].0@ == path {
        Some(k - 1)
    } else {
        entry_for(parsed, path, k - 1)
    }
}

/// `r` pairs the files, in their order, with the entries for their paths; a file without one is left
/// out.
pub open spec fn is_paired(
    parsed: Seq<(String, Vec<Metadata>)>,
    files: Seq<MediaFile>,
    r: Seq<WorkUnit>,
) -> bool
    decreases files.len(),
{
    if files.len() == 0 {
        r.len() == 0
    } else {
        match entry_for(parsed, files.last().target_file@, parsed.len() as int) {
            None => is_paired(parsed, files.drop_last(), r),
            Some(i) => r.len() > 0 && r.last().0 == files.last() && metas_of(r.last().1@)
                == metas_of(parsed[i].1@) && is_paired(parsed, files.drop_last(), r.drop_last()),
        }
    }
}

/// Copies metadata.
pub fn copy_metas(ms: &Vec<Metadata>) -> (r: Vec<Metadata>)
    ensures
        metas_of(r@) == metas_of(ms@),
{
    let mut r: Vec<Metadata> = Vec::new();
    let mut i: usize = 0;
    while i < ms.len()
        invariant
            0 <= i <= ms@.len(),
            metas_of(r@) =~= metas_of(ms@).take(i as int),
        decreases ms@.len() - i,
    {
        let ghost before = metas_of(r@);
        let copy = ms[i].copy();
        r.push(copy);
        assert(metas_of(r@) =~= before.push(copy@));
        assert(metas_of(ms@).take(i + 1) =~= metas_of(ms@).take(i as int).push(ms@[i as int]@));
        i = i + 1;
    }
    assert(metas_of(ms@).take(i as int) =~= metas_of(ms@));
    r
}

/// Copies a file.
pub fn copy_file(f: &MediaFile) -> (r: MediaFile)
    ensures
        r == *f,
{
    MediaFile {
        id: f.id,
        library_id: f.library_id,
        media_id: f.media_id,
        target_file: f.target_file.clone(),
    }
}

/// Pairs the files that were stored with what their names say, whichever files were skipped.
pub fn pair_units(parsed: &Vec<(String, Vec<Metadata>)>, files: &Vec<MediaFile>) -> (r: Vec<WorkUnit>)
    ensures
        is_paired(parsed@, files@, r@),
{
    let mut r: Vec<WorkUnit> = Vec::new();
    let mut i: usize = 0;
    while i < files.len()
        invariant
            0 <= i <= files@.len(),
            is_paired(parsed@, files@.take(i as int), r@),
        decreases files@.len() - i,
    {
        let ghost before = r@;
        let ghost path = files@[i as int].target_file@;
        proof {
            let next = files@.take(i + 1);
            assert(next.drop_last() =~= files@.take(i as int));
            assert(next.last() == files@[i as int]);
        }
        let mut k: usize = parsed.len();
        let mut found: Option<usize> = None;
        while k > 0 && found.is_none()
            invariant
                0 <= k <= parsed@.len(),
                i < files@.len(),
                path == files@[i as int].target_file@,
                found matches Some(x) ==> x < parsed@.len() && entry_for(
                    parsed@,
                    path,
                    parsed@.len() as int,
                ) == Some(x as int),
                found is None ==> entry_for(parsed@, path, parsed@.len() as int) == entry_for(
                    parsed@,
                    path,
                    k as int,
                ),
            decreases k,
        {
            k = k - 1;
            if same(parsed[k].0.as_str(), files[i].target_file.as_str()) {
                found = Some(k);
            }
        }
        if let Some(x) = found {
            r.push(WorkUnit(copy_file(&files[i]), copy_metas(&parsed[x].1)));
            assert(r@.drop_last() =~= before);
        }
        i = i + 1;
    }
    assert(files@.take(i as int) =~= files@);
    r
}

/// `r` is the list in chunks of `n`, the last of which may be shorter.
pub open spec fn is_chunked<T>(list: Seq<T>, n: int, r: Seq<Vec<T>>) -> bool {
    &&& r.len() * n < list.len() + n
    &&& list.len() <= r.len() * n
    &&& forall|i: int|
        0 <= i < r.len() ==> (#[trigger] r[i])@ == list.subrange(
            i * n,
            if (i + 1) * n < list.len() {
                (i + 1) * n
            } else {
                list.len() as int
            },
        )
}

/// Cuts a list into chunks.
pub fn chunks<T>(list: Vec<T>, n: usize) -> (r: Vec<Vec<T>>)
    requires
        n > 0,
    ensures
        is_chunked(list@, n as int, r@),
{
    let mut list = list;
    let ghost all = list@;
    let mut r: Vec<Vec<T>> = Vec::new();
    let ghost mut cut: int = 0;
    assert(list@ =~= all.subrange(0, all.len() as int));
    assert(r@.len() * n == 0) by (nonlinear_arith)
        requires
            r@.len() == 0,
    ;
    while list.len() > 0
        invariant
            n > 0,
            cut == r@.len() * n,
            cut < all.len() + n,
            list@ == (if cut <= all.len() {
                all.subrange(cut, all.len() as int)
            } else {
                Seq::empty()
            }),
            forall|i: int|
                0 <= i < r@.len() ==> (#[trigger] r@[i])@ == all.subrange(
                    i * n,
                    if (i + 1) * n < all.len() {
                        (i + 1) * n
                    } else {
                        all.len() as int
                    },
                ),
        decreases list@.len(),
    {
        let size: usize = if list.len() < n {
            list.len()
        } else {
            n
        };
        let rest = list.split_off(size);
        proof {
            let k = r@.len() as int;
            assert((k + 1) * n == k * n + n) by (nonlinear_arith);
            assert(list@ =~= all.subrange(cut, cut + size));
            cut = cut + n;
        }
        r.push(list);
        list = rest;
        proof {
            if cut <= all.len() {
                assert(list@ =~= all.subrange(cut, all.len() as int));
            } else {
                assert(list@ =~= Seq::empty());
            }
        }
    }
    r
}

/// The extensions of media files.
pub open spec fn media_extensions() -> Seq<Seq<char>> {
    seq![
        "001"@, "3g2"@, "3gp"@, "amv"@, "asf"@, "asx"@, "avi"@, "bin"@, "bivx"@, "divx"@, "dv"@,
        "dvr-ms"@, "f4v"@, "fli"@, "flv"@, "ifo"@, "img"@, "iso"@, "m2t"@, "m2ts"@, "m2v"@, "m4v"@,
        "mkv"@, "mk3d"@, "mov"@, "mp4"@, "mpe"@, "mpeg"@, "mpg"@, "mts"@, "mxf"@, "nrg"@, "nsv"@,
        "nuv"@, "ogg"@, "ogm"@, "ogv"@, "pva"@, "qt"@, "rec"@, "rm"@, "rmvb"@, "strm"@, "svq3"@, "tp"@,
        "ts"@, "ty"@, "viv"@, "vob"@, "vp3"@, "webm"@, "wmv"@, "wtv"@, "xvid"@,
    ]
}

/// A scan keeps every path with an extension of media files that has no hidden component, in the order in
/// which the paths were found, and no other.
pub proof fn law_scans_keep_the_media_files(paths: Seq<Seq<char>>, p: Seq<char>)
    ensures
        media_of(paths).contains(p) <==> paths.contains(p) && extension_of(p) is Some
            && media_extensions().contains(extension_of(p)->0) && forall|i: int|
            0 <= i < components(p).len() && (#[trigger] components(p)[i]).len() > 0 ==> components(p)[i][0]
                != '.',
{
    let f = |q: Seq<char>| is_media(q);
    if extension_of(p) is Some {
        lemma_supported(extension_of(p)->0);
    }
    if media_of(paths).contains(p) {
        let i = choose|i: int| 0 <= i < media_of(paths).len() && media_of(paths)[i] == p;
        paths.lemma_filter_pred(f, i);
        paths.lemma_filter_contains_rev(f, p);
        assert(!hidden(p));
    } else if paths.contains(p) && is_media(p) {
        let i = choose|i: int| 0 <= i < paths.len() && paths[i] == p;
        paths.lemma_filter_contains(f, i);
    }
}

/// The extensions that are supported are those that are listed.
#[verifier::rlimit(50)]
proof fn lemma_supported(e: Seq<char>)
    ensures
        supported(e) <==> media_extensions().contains(e),
{
    let all = media_extensions();
    if all.contains(e) {
        let i = choose|i: int| 0 <= i < all.len() && all[i] == e;
        assert(0 <= i < 54);
    } else {
        assert(forall|i: int| 0 <= i < 54 ==> #[trigger] all[i] != e);
        assert(all[0] == "001"@ && all[1] == "3g2"@ && all[2] == "3gp"@ && all[3] == "amv"@ && all[4]
            == "asf"@ && all[5] == "asx"@ && all[6] == "avi"@ && all[7] == "bin"@ && all[8] == "bivx"@
            && all[9] == "divx"@ && all[10] == "dv"@ && all[11] == "dvr-ms"@ && all[12] == "f4v"@
            && all[13] == "fli"@ && all[14] == "flv"@ && all[15] == "ifo"@ && all[16] == "img"@ && all[17]
            == "iso"@ && all[18] == "m2t"@ && all[19] == "m2ts"@ && all[20] == "m2v"@ && all[21] == "m4v"@
            && all[22] == "mkv"@ && all[23] == "mk3d"@ && all[24] == "mov"@ && all[25] == "mp4"@ && all[26]
            == "mpe"@ && all[27] == "mpeg"@ && all[28] == "mpg"@ && all[29] == "mts"@ && all[30] == "mxf"@
            && all[31] == "nrg"@ && all[32] == "nsv"@ && all[33] == "nuv"@ && all[34] == "ogg"@ && all[35]
            == "ogm"@ && all[36] == "ogv"@ && all[37] == "pva"@ && all[38] == "qt"@ && all[39] == "rec"@
            && all[40] == "rm"@ && all[41] == "rmvb"@ && all[42] == "strm"@ && all[43] == "svq3"@ && all[44]
            == "tp"@ && all[45] == "ts"@ && all[46] == "ty"@ && all[47] == "viv"@ && all[48] == "vob"@
            && all[49] == "vp3"@ && all[50] == "webm"@ && all[51] == "wmv"@ && all[52] == "wtv"@ && all[53]
            == "xvid"@);
    }
}

/// A unit holds a file with what is said of its path.
pub open spec fn says_of(parsed: Seq<(String, Vec<Metadata>)>, file: MediaFile, unit: WorkUnit) -> bool {
    &&& unit.0 == file
    &&& exists|d: int|
        0 <= d < parsed.len() && (#[trigger] parsed[d]).0@ == file.target_file@ && metas_of(unit.1@)
            == metas_of(parsed[d].1@)
}

/// Every file whose path was parsed is paired, whichever other files there are.
pub proof fn law_parsed_files_are_paired(
    parsed: Seq<(String, Vec<Metadata>)>,
    files: Seq<MediaFile>,
    r: Seq<WorkUnit>,
    i: int,
    d: int,
) -> (k: int)
    requires
        is_paired(parsed, files, r),
        0 <= i < files.len(),
        0 <= d < parsed.len(),
        parsed[d].0@ == files[i].target_file@,
    ensures
        0 <= k < r.len(),
        r[k].0 == files[i],
    decreases files.len(),
{
    let n = files.len() - 1;
    lemma_entry_for(parsed, files[n].target_file@, parsed.len() as int);
    if i == n {
        r.len() - 1
    } else {
        let rest = if entry_for(parsed, files[n].target_file@, parsed.len() as int) is Some {
            r.drop_last()
        } else {
            r
        };
        law_parsed_files_are_paired(parsed, files.drop_last(), rest, i, d)
    }
}

/// A unit is one of the files, with what was parsed for its path.
pub proof fn law_units_are_files_that_were_parsed(
    parsed: Seq<(String, Vec<Metadata>)>,
    files: Seq<MediaFile>,
    r: Seq<WorkUnit>,
    k: int,
) -> (i: int)
    requires
        is_paired(parsed, files, r),
        0 <= k < r.len(),
    ensures
        0 <= i < files.len(),
        says_of(parsed, files[i], r[k]),
        r.len() <= files.len(),
    decreases files.len(),
{
    let n = files.len() - 1;
    let at = entry_for(parsed, files[n].target_file@, parsed.len() as int);
    lemma_entry_for(parsed, files[n].target_file@, parsed.len() as int);
    if at is None {
        law_units_are_files_that_were_parsed(parsed, files.drop_last(), r, k)
    } else if k == r.len() - 1 {
        assert(parsed[at->0].0@ == files[n].target_file@);
        lemma_no_more_units(parsed, files.drop_last(), r.drop_last());
        n
    } else {
        law_units_are_files_that_were_parsed(parsed, files.drop_last(), r.drop_last(), k)
    }
}

/// There are at most as many units as files.
proof fn lemma_no_more_units(
    parsed: Seq<(String, Vec<Metadata>)>,
    files: Seq<MediaFile>,
    r: Seq<WorkUnit>,
)
    requires
        is_paired(parsed, files, r),
    ensures
        r.len() <= files.len(),
    decreases files.len(),
{
    if files.len() > 0 {
        match entry_for(parsed, files.last().target_file@, parsed.len() as int) {
            None => {
                lemma_no_more_units(parsed, files.drop_last(), r);
            },
            Some(_) => {
                lemma_no_more_units(parsed, files.drop_last(), r.drop_last());
            },
        }
    }
}

/// An entry that is found is for the path, and one for the path is found.
proof fn lemma_entry_for(parsed: Seq<(String, Vec<Metadata>)>, path: Seq<char>, k: int)
    requires
        0 <= k <= parsed.len(),
    ensures
        match entry_for(parsed, path, k) {
            Some(d) => 0 <= d < k && parsed[d].0@ == path,
            None => forall|d: int| 0 <= d < k ==> (#[trigger] parsed[d]).0@ != path,
        },
    decreases k,
{
    if k > 0 && parsed[k - 1].0@ != path {
        lemma_entry_for(parsed, path, k - 1);
    }
}

/// Cutting a list into chunks loses nothing and keeps the order: the item at `i` stands in the chunk `i / n` at
/// `i % n`. All chunks but the last are full.
pub proof fn law_chunks_hold_the_list<T>(list: Seq<T>, n: int, r: Seq<Vec<T>>, i: int)
    requires
        is_chunked(list, n, r),
        n > 0,
        0 <= i < list.len(),
    ensures
        0 <= i / n < r.len(),
        i % n < r[i / n]@.len() <= n,
        r[i / n]@[i % n] == list[i],
        i / n < r.len() - 1 ==> r[i / n]@.len() == n,
{
    let c = i / n;
    let l = list.len() as int;
    let m = r.len() as int;
    assert(c * n <= i < (c + 1) * n && c >= 0 && i % n == i - c * n) by (nonlinear_arith)
        requires
            n > 0,
            i >= 0,
            c == i / n,
    ;
    assert(c < m) by (nonlinear_arith)
        requires
            n > 0,
            c * n <= i < l,
            l <= m * n,
    ;
    if c < m - 1 {
        assert((c + 1) * n < l) by (nonlinear_arith)
            requires
                n > 0,
                c + 1 <= m - 1,
                m * n < l + n,
        ;
    }
    assert((c + 1) * n == c * n + n) by (nonlinear_arith);
    let end = if (c + 1) * n < l {
        (c + 1) * n
    } else {
        l
    };
    assert(r[c]@ == list.subrange(c * n, end));
}

}
