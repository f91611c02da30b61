//! From paths to titles, seasons and episodes.

use vstd::prelude::*;

use crate::filename::{
    detect_language, language_in, no_nul, normalize_title, normalized, opt, opt_meta,
    strip_release_group, without_group, Anitomy, CombinedExtractor, FilenameMetadata, Meta,
    Metadata, TorrentMetadata,
};
use crate::paths::{file_name, file_name_of, file_stem, file_stem_of, parent, parent_of};
use crate::scanner::names::{
    dash, extract_season_from_dir, generic_name, is_generic_dir_name, mark_freed,
    mark_from, marker_cut, precleaned, preclean_filename, run_len, season_of_lower,
    split_trailing_year, without_hashes, without_uuids, year_split,
};
use crate::text::{
    all_digits, are_digits, ascii_digit, cat, chars_of, contains, dec, dec_u64, contains_str,
    lowercase, parse_digits, prefix_cut, rfind_char, same, string_of, strip_prefix, strip_suffix,
    suffix_cut, to_lowercase, trim, trim_end_matches, trimmed, value, without_suffixes,
};

verus! {

/// The contents of a list of metadata.
pub open spec fn metas_of(v: Seq<Metadata>) -> Seq<Meta> {
    v.map_values(|m: Metadata| m@)
}

/// What follows the digits of an episode in a title is nothing, or a version: `v` and digits.
pub open spec fn is_version(rest: Seq<char>) -> bool {
    rest.len() == 0 || (rest[0] == 'v' && all_digits(rest.drop_first()))
}

/// A title with an episode stuck to its end gives it up: "Boku-04" is episode 4 of "Boku". One to three
/// digits after the last dash count, with a version after them or not. An opening bracket left at the
/// end goes too.
pub open spec fn title_fixed(m: Meta) -> Meta {
    let name = trimmed(without_suffixes(m.name, " ["@));
    match rfind_char(name, dash(), name.len() as int) {
        Some(d) => {
            let n = run_len(name, d + 1, name.len() as int);
            let digits = name.subrange(d + 1, d + 1 + n);
            let rest = name.subrange(d + 1 + n, name.len() as int);
            if 1 <= n <= 3 && is_version(rest) {
                Meta {
                    name: trimmed(name.subrange(0, d)),
                    episode: if m.episode is None && value(digits) > 0 {
                        Some(value(digits) as i64)
                    } else {
                        m.episode
                    },
                    ..m
                }
            } else {
                Meta { name, ..m }
            }
        },
        None => Meta { name, ..m },
    }
}

/// The common widths of video.
pub open spec fn common_width(n: int) -> bool {
    n == 640 || n == 720 || n == 1280 || n == 1920 || n == 2560 || n == 3840 || n == 7680
}

/// The common heights of video.
pub open spec fn common_height(n: int) -> bool {
    n == 360 || n == 480 || n == 576 || n == 720 || n == 1080 || n == 1440 || n == 2160 || n == 4320
}

/// Seasons, episodes and years that cannot be right are dropped: a season above 100, an episode above
/// 10000 or of 0, and numbers that come from a resolution such as `1920x1080`.
pub open spec fn sanitized(m: Meta, filename: Seq<char>) -> Meta {
    let season = match m.season {
        Some(s) if s > 100 => None,
        _ => m.season,
    };
    let episode = match m.episode {
        Some(e) if e > 10000 || e == 0 => None,
        _ => m.episode,
    };
    let resolution = m.year is Some && episode is Some && common_width(m.year->0 as int)
        && common_height(episode->0 as int);
    let year = match m.year {
        Some(y) if resolution || (common_width(y as int) && contains_str(
            filename,
            dec(y as nat) + "x"@,
        )) => None,
        _ => m.year,
    };
    Meta {
        season,
        episode: if resolution {
            None
        } else {
            episode
        },
        year,
        ..m
    }
}

/// What one parser found, made consistent with the file's name and directory.
pub open spec fn refined(
    m: Meta,
    filename: Seq<char>,
    language: Option<Seq<char>>,
    dir_season: Option<i64>,
) -> Meta {
    let s = sanitized(title_fixed(m), filename);
    Meta {
        language: if s.language is None {
            language
        } else {
            s.language
        },
        season: if dir_season is Some {
            dir_season
        } else {
            s.season
        },
        ..s
    }
}

/// A directory's name as a title, unless it says nothing of one.
pub open spec fn dir_title(name: Option<Seq<char>>) -> Option<Seq<char>> {
    match name {
        Some(n) => if normalized(n).len() > 0 && !generic_name(lowercase(normalized(n))) {
            Some(normalized(n))
        } else {
            None
        },
        None => None,
    }
}

/// The name of the directory that a path is in.
pub open spec fn dir_name(path: Seq<char>) -> Option<Seq<char>> {
    match parent_of(path) {
        Some(p) => file_name_of(p),
        None => None,
    }
}

/// The title that the directories of a file give: that of its own, or, where that says nothing, that of
/// the one above it.
pub open spec fn folder_title(path: Seq<char>) -> Option<Seq<char>> {
    match dir_name(path) {
        Some(name) => match dir_title(Some(name)) {
            Some(t) => Some(t),
            None => dir_title(dir_name(parent_of(path)->0)),
        },
        None => None,
    }
}

/// The season that a file's directory is for.
pub open spec fn folder_season(path: Seq<char>) -> Option<i64> {
    match dir_name(path) {
        Some(name) => season_of_lower(lowercase(name)),
        None => None,
    }
}

/// The first season that is known.
pub open spec fn first_season(ms: Seq<Meta>) -> Option<i64>
    decreases ms.len(),
{
    if ms.len() == 0 {
        None
    } else if ms[0].season is Some {
        ms[0].season
    } else {
        first_season(ms.drop_first())
    }
}

/// The first episode that is known.
pub open spec fn first_episode(ms: Seq<Meta>) -> Option<i64>
    decreases ms.len(),
{
    if ms.len() == 0 {
        None
    } else if ms[0].episode is Some {
        ms[0].episode
    } else {
        first_episode(ms.drop_first())
    }
}

/// The list with what the directories say added at its end.
pub open spec fn with_folder(
    ms: Seq<Meta>,
    title: Option<Seq<char>>,
    dir_season: Option<i64>,
    language: Option<Seq<char>>,
) -> Seq<Meta> {
    match title {
        Some(t) => ms.push(
            Meta {
                name: year_split(t).0,
                year: year_split(t).1,
                season: if dir_season is Some {
                    dir_season
                } else {
                    first_season(ms)
                },
                episode: first_episode(ms),
                language,
            },
        ),
        None => ms,
    }
}

/// The entries whose title begins with a release group, without it.
pub open spec fn group_variants(ms: Seq<Meta>) -> Seq<Meta>
    decreases ms.len(),
{
    if ms.len() == 0 {
        Seq::empty()
    } else {
        let before = group_variants(ms.drop_last());
        match without_group(ms.last().name) {
            Some(name) => if name.len() > 0 {
                before.push(Meta { name, ..ms.last() })
            } else {
                before
            },
            None => before,
        }
    }
}

/// Two entries would be searched for in the same way.
pub open spec fn same_search(a: Meta, b: Meta) -> bool {
    lowercase(a.name) == lowercase(b.name) && a.year == b.year
}

/// `kept`, with what it lacks filled in from `other`.
pub open spec fn merged(kept: Meta, other: Meta) -> Meta {
    Meta {
        season: if kept.season is None {
            other.season
        } else {
            kept.season
        },
        episode: if kept.episode is None {
            other.episode
        } else {
            kept.episode
        },
        language: if kept.language is None {
            other.language
        } else {
            kept.language
        },
        ..kept
    }
}

/// The first of the entries that would be searched for as `m` is, from `from` on.
pub open spec fn alike_from(d: Seq<Meta>, m: Meta, from: int) -> Option<int>
    decreases d.len() - from,
{
    if from < 0 || from >= d.len() {
        None
    } else if same_search(m, d[from]) {
        Some(from)
    } else {
        alike_from(d, m, from + 1)
    }
}

/// Entries that would be searched for in the same way are merged, at the place of the first of them.
pub open spec fn deduped(ms: Seq<Meta>) -> Seq<Meta>
    decreases ms.len(),
{
    if ms.len() == 0 {
        Seq::empty()
    } else {
        let d = deduped(ms.drop_last());
        match alike_from(d, ms.last(), 0) {
            Some(k) => d.update(k, merged(d[k], ms.last())),
            None => d.push(ms.last()),
        }
    }
}

/// No two of the entries would be searched for in the same way.
pub open spec fn all_differ(ms: Seq<Meta>) -> bool {
    forall|i: int, j: int| 0 <= i < j < ms.len() ==> !same_search(#[trigger] ms[i], #[trigger] ms[j])
}

/// The entries for a file, where `found` is what the parsers found; none where there are none.
pub open spec fn entries_for(path: Seq<char>, filename: Seq<char>, found: Seq<Meta>) -> Option<
    Seq<Meta>,
> {
    let language = language_in(filename);
    let dir_season = folder_season(path);
    let ms = found.map_values(|m: Meta| refined(m, filename, language, dir_season));
    let all = with_folder(ms, folder_title(path), dir_season, language);
    if all.len() == 0 {
        None
    } else {
        Some(deduped(all + group_variants(all)))
    }
}

/// Takes an episode off the end of a title.
pub fn fix_title(m: &Metadata) -> (r: Metadata)
    ensures
        r@ == title_fixed(m@),
{
    proof {
        reveal_strlit(" [");
    }
    let name = trim(trim_end_matches(m.name.as_str(), " [").as_str());
    let mut fixed = m.copy();
    let v = chars_of(name.as_str());
    let len: usize = v.len();
    let ghost f = dash();
    let mut k: usize = len;
    while k > 0 && v[k - 1] != '-'
        invariant
            k <= len == v@.len(),
            v@ == name@,
            f == dash(),
            rfind_char(name@, f, name@.len() as int) == rfind_char(name@, f, k as int),
        decreases k,
    {
        k = k - 1;
    }
    if k > 0 {
        let mut end: usize = k;
        while end < len && '0' <= v[end] && v[end] <= '9'
            invariant
                k <= end <= len == v@.len(),
                run_len(v@, k as int, len as int) == end - k + run_len(
                    v@,
                    end as int,
                    len - (end - k),
                ),
                forall|j: int| k <= j < end ==> ascii_digit(#[trigger] v@[j]),
            decreases len - end,
        {
            end = end + 1;
        }
        assert(run_len(v@, end as int, len - (end - k)) == 0);
        let n: usize = end - k;
        assert(n == run_len(name@, k as int, len as int));
        let version = if end == len {
            true
        } else if v[end] == 'v' {
            assert(name@.subrange(end as int, len as int).drop_first() =~= v@.subrange(
                end + 1,
                len as int,
            ));
            are_digits(&v, end + 1, len)
        } else {
            false
        };
        if 1 <= n && n <= 3 && version {
            let ghost digits = name@.subrange(k as int, end as int);
            let episode: u64 = match parse_digits(&v, k, end, 999) {
                Some(e) => e,
                None => 0,
            };
            proof {
                assert(all_digits(digits)) by {
                    assert forall|j: int| 0 <= j < digits.len() implies ascii_digit(
                        #[trigger] digits[j],
                    ) by {
                        assert(digits[j] == v@[k + j]);
                    }
                }
                lemma_three_digits(digits);
            }
            if episode > 0 && fixed.episode.is_none() {
                fixed.episode = Some(episode as i64);
            }
            fixed.name = trim(string_of(&v, 0, k - 1).as_str());
            return fixed;
        }
    }
    fixed.name = name;
    fixed
}

/// Up to three digits denote a number below a thousand.
proof fn lemma_three_digits(s: Seq<char>)
    requires
        1 <= s.len() <= 3,
        all_digits(s),
    ensures
        value(s) <= 999,
{
    reveal_with_fuel(value, 4);
    assert(ascii_digit(s[0]));
    assert(ascii_digit(s[s.len() - 1]));
    if s.len() == 2 {
        assert(s.drop_last().last() == s[0]);
    } else if s.len() == 3 {
        assert(ascii_digit(s[1]));
        assert(s.drop_last().last() == s[1]);
        assert(s.drop_last().drop_last().last() == s[0]);
    }
}

/// Whether a number is a common width of video.
fn is_common_width(n: i64) -> (r: bool)
    ensures
        r == common_width(n as int),
{
    n == 640 || n == 720 || n == 1280 || n == 1920 || n == 2560 || n == 3840 || n == 7680
}

/// Whether a number is a common height of video.
fn is_common_height(n: i64) -> (r: bool)
    ensures
        r == common_height(n as int),
{
    n == 360 || n == 480 || n == 576 || n == 720 || n == 1080 || n == 1440 || n == 2160 || n == 4320
}

/// Drops seasons, episodes and years that cannot be right.
pub fn sanitize(m: Metadata, filename: &str) -> (r: Metadata)
    ensures
        r@ == sanitized(m@, filename@),
{
    let mut m = m;
    if let Some(s) = m.season {
        if s > 100 {
            m.season = None;
        }
    }
    if let Some(e) = m.episode {
        if e > 10000 || e == 0 {
            m.episode = None;
        }
    }
    if let Some(y) = m.year {
        if let Some(e) = m.episode {
            if is_common_width(y) && is_common_height(e) {
                m.year = None;
                m.episode = None;
                return m;
            }
        }
        if is_common_width(y) && contains(filename, cat(dec_u64(y as u64).as_str(), "x").as_str()) {
            m.year = None;
        }
    }
    m
}

/// A copy of an optional string.
fn copy_opt(s: &Option<String>) -> (r: Option<String>)
    ensures
        opt(r) == opt(*s),
{
    match s {
        Some(t) => Some(t.clone()),
        None => None,
    }
}

/// Makes what one parser found consistent with the file's name and directory.
pub fn refine(
    m: &Metadata,
    filename: &str,
    language: &Option<String>,
    dir_season: Option<i64>,
) -> (r: Metadata)
    ensures
        r@ == refined(m@, filename@, opt(*language), dir_season),
{
    let mut s = sanitize(fix_title(m), filename);
    if s.language.is_none() {
        s.language = copy_opt(language);
    }
    if dir_season.is_some() {
        s.season = dir_season;
    }
    s
}

/// Takes a directory's name for a title, unless it says nothing of one.
pub fn title_from_dir(name: &str) -> (r: Option<String>)
    ensures
        opt(r) == dir_title(Some(name@)),
{
    let t = normalize_title(name);
    if !t.as_str().is_empty() && !is_generic_dir_name(t.as_str()) {
        Some(t)
    } else {
        None
    }
}

/// The title that the directories of a file give.
pub fn title_from_folders(path: &str) -> (r: Option<String>)
    ensures
        opt(r) == folder_title(path@),
{
    let p = match parent(path) {
        Some(p) => p,
        None => {
            return None;
        },
    };
    let name = match file_name(p.as_str()) {
        Some(name) => name,
        None => {
            return None;
        },
    };
    if let Some(t) = title_from_dir(name.as_str()) {
        return Some(t);
    }
    match parent(p.as_str()) {
        Some(gp) => match file_name(gp.as_str()) {
            Some(gname) => title_from_dir(gname.as_str()),
            None => None,
        },
        None => None,
    }
}

/// The season that a file's directory is for.
pub fn season_from_folder(path: &str) -> (r: Option<i64>)
    ensures
        r == folder_season(path@),
{
    match parent(path) {
        Some(p) => match file_name(p.as_str()) {
            Some(name) => extract_season_from_dir(name.as_str()),
            None => None,
        },
        None => None,
    }
}

/// Finds the first season that is known.
pub fn find_season(ms: &Vec<Metadata>) -> (r: Option<i64>)
    ensures
        r == first_season(metas_of(ms@)),
{
    let ghost all = metas_of(ms@);
    let mut i: usize = 0;
    assert(all.subrange(0, all.len() as int) =~= all);
    while i < ms.len()
        invariant
            0 <= i <= ms@.len(),
            all == metas_of(ms@),
            first_season(all) == first_season(all.subrange(i as int, all.len() as int)),
        decreases ms@.len() - i,
    {
        assert(all.subrange(i as int, all.len() as int)[0] == ms@[i as int]@);
        assert(all.subrange(i as int, all.len() as int).drop_first() =~= all.subrange(
            i + 1,
            all.len() as int,
        ));
        if ms[i].season.is_some() {
            return ms[i].season;
        }
        i = i + 1;
    }
    None
}

/// Finds the first episode that is known.
pub fn find_episode(ms: &Vec<Metadata>) -> (r: Option<i64>)
    ensures
        r == first_episode(metas_of(ms@)),
{
    let ghost all = metas_of(ms@);
    let mut i: usize = 0;
    assert(all.subrange(0, all.len() as int) =~= all);
    while i < ms.len()
        invariant
            0 <= i <= ms@.len(),
            all == metas_of(ms@),
            first_episode(all) == first_episode(all.subrange(i as int, all.len() as int)),
        decreases ms@.len() - i,
    {
        assert(all.subrange(i as int, all.len() as int)[0] == ms@[i as int]@);
        assert(all.subrange(i as int, all.len() as int).drop_first() =~= all.subrange(
            i + 1,
            all.len() as int,
        ));
        if ms[i].episode.is_some() {
            return ms[i].episode;
        }
        i = i + 1;
    }
    None
}

/// Lists the entries whose title begins with a release group, without it.
pub fn strip_groups(ms: &Vec<Metadata>) -> (r: Vec<Metadata>)
    ensures
        metas_of(r@) == group_variants(metas_of(ms@)),
{
    let ghost all = metas_of(ms@);
    let mut r: Vec<Metadata> = Vec::new();
    let mut i: usize = 0;
    assert(all.subrange(0, 0) =~= Seq::empty());
    assert(metas_of(r@) =~= Seq::<Meta>::empty());
    while i < ms.len()
        invariant
            0 <= i <= ms@.len(),
            all == metas_of(ms@),
            metas_of(r@) == group_variants(all.subrange(0, i as int)),
        decreases ms@.len() - i,
    {
        let ghost before = metas_of(r@);
        proof {
            assert(all.subrange(0, i + 1).drop_last() =~= all.subrange(0, i as int));
            assert(all.subrange(0, i + 1).last() == ms@[i as int]@);
        }
        if let Some(name) = strip_release_group(ms[i].name.as_str()) {
            if !name.as_str().is_empty() {
                let mut m = ms[i].copy();
                m.name = name;
                r.push(m);
                assert(metas_of(r@) =~= before.push(m@));
            }
        }
        i = i + 1;
    }
    assert(all.subrange(0, i as int) =~= all);
    r
}

/// Finds the entry that would be searched for as another is.
fn find_alike(d: &Vec<Metadata>, m: &Metadata) -> (r: Option<usize>)
    ensures
        match r {
            Some(k) => k < d@.len() && alike_from(metas_of(d@), m@, 0) == Some(k as int),
            None => alike_from(metas_of(d@), m@, 0) is None,
        },
{
    let lower = to_lowercase(m.name.as_str());
    let ghost all = metas_of(d@);
    let mut k: usize = 0;
    while k < d.len()
        invariant
            0 <= k <= d@.len(),
            all == metas_of(d@),
            lower@ == lowercase(m.name@),
            alike_from(all, m@, 0) == alike_from(all, m@, k as int),
        decreases d@.len() - k,
    {
        assert(all[k as int] == d@[k as int]@);
        let same_year = match (d[k].year, m.year) {
            (Some(a), Some(b)) => a == b,
            (None, None) => true,
            _ => false,
        };
        if same_year && same(lower.as_str(), to_lowercase(d[k].name.as_str()).as_str()) {
            return Some(k);
        }
        k = k + 1;
    }
    None
}

/// Merges what an entry has into another that lacks it.
fn merge(kept: &Metadata, other: &Metadata) -> (r: Metadata)
    ensures
        r@ == merged(kept@, other@),
{
    let mut r = kept.copy();
    if r.season.is_none() {
        r.season = other.season;
    }
    if r.episode.is_none() {
        r.episode = other.episode;
    }
    if r.language.is_none() {
        r.language = copy_opt(&other.language);
    }
    r
}

/// Merges entries that would be searched for in the same way.
pub fn dedup(ms: &Vec<Metadata>) -> (r: Vec<Metadata>)
    ensures
        metas_of(r@) == deduped(metas_of(ms@)),
        all_differ(metas_of(r@)),
{
    let ghost all = metas_of(ms@);
    let mut r: Vec<Metadata> = Vec::new();
    let mut i: usize = 0;
    assert(all.subrange(0, 0) =~= Seq::empty());
    assert(metas_of(r@) =~= Seq::<Meta>::empty());
    while i < ms.len()
        invariant
            0 <= i <= ms@.len(),
            all == metas_of(ms@),
            metas_of(r@) == deduped(all.subrange(0, i as int)),
        decreases ms@.len() - i,
    {
        let ghost before = metas_of(r@);
        proof {
            assert(all.subrange(0, i + 1).drop_last() =~= all.subrange(0, i as int));
            assert(all.subrange(0, i + 1).last() == ms@[i as int]@);
        }
        match find_alike(&r, &ms[i]) {
            Some(k) => {
                let m = merge(&r[k], &ms[i]);
                let ghost y = m@;
                assert(before[k as int] == r@[k as int]@);
                r.set(k, m);
                assert(metas_of(r@) =~= before.update(k as int, y));
            },
            None => {
                r.push(ms[i].copy());
                assert(metas_of(r@) =~= before.push(ms@[i as int]@));
            },
        }
        i = i + 1;
    }
    assert(all.subrange(0, i as int) =~= all);
    proof {
        law_searches_differ(all);
    }
    r
}

/// Makes the entries for a file out of what the parsers found in its precleaned name.
pub fn refine_metadata(path: &str, filename: &str, found: &Vec<Metadata>) -> (r: Option<Vec<Metadata>>)
    ensures
        r is Some <==> entries_for(path@, filename@, metas_of(found@)) is Some,
        r matches Some(v) ==> Some(metas_of(v@)) == entries_for(
            path@,
            filename@,
            metas_of(found@),
        ) && all_differ(metas_of(v@)),
{
    let language = detect_language(filename);
    let dir_season = season_from_folder(path);
    let ghost goal = metas_of(found@).map_values(
        |m: Meta| refined(m, filename@, opt(language), dir_season),
    );
    let mut ms: Vec<Metadata> = Vec::new();
    let mut i: usize = 0;
    while i < found.len()
        invariant
            0 <= i <= found@.len(),
            goal == metas_of(found@).map_values(
                |m: Meta| refined(m, filename@, opt(language), dir_season),
            ),
            metas_of(ms@) == goal.subrange(0, i as int),
        decreases found@.len() - i,
    {
        let ghost before = metas_of(ms@);
        let m = refine(&found[i], filename, &language, dir_season);
        ms.push(m);
        i = i + 1;
        assert(metas_of(ms@) =~= before.push(m@));
        assert(metas_of(ms@) =~= goal.subrange(0, i as int));
    }
    assert(metas_of(ms@) =~= goal);
    if let Some(title) = title_from_folders(path) {
        let (name, year) = split_trailing_year(title.as_str());
        let season = if dir_season.is_some() {
            dir_season
        } else {
            find_season(&ms)
        };
        let episode = find_episode(&ms);
        let folder = Metadata { name, year, season, episode, language: copy_opt(&language) };
        ms.push(folder);
        assert(metas_of(ms@) =~= goal.push(folder@));
    }
    let ghost all = with_folder(goal, folder_title(path@), dir_season, opt(language));
    assert(metas_of(ms@) == all);
    if ms.len() == 0 {
        return None;
    }
    let mut variants = strip_groups(&ms);
    let ghost vs = metas_of(variants@);
    ms.append(&mut variants);
    assert(metas_of(ms@) =~= all + vs);
    Some(dedup(&ms))
}

/// A name in brackets, "(Vigilante S01E08)", without them.
pub open spec fn unwrapped(name: Seq<char>) -> Seq<char> {
    match prefix_cut(name, "("@) {
        Some(rest) => match suffix_cut(rest, ")"@) {
            Some(inner) => inner,
            None => name,
        },
        None => name,
    }
}

/// Takes a name out of its brackets.
pub fn strip_parentheses(name: &str) -> (r: String)
    ensures
        r@ == unwrapped(name@),
{
    match strip_prefix(name, "(") {
        Some(rest) => match strip_suffix(rest.as_str(), ")") {
            Some(inner) => inner,
            None => name.to_owned(),
        },
        None => name.to_owned(),
    }
}

/// What is there of three.
pub open spec fn present(a: Option<Meta>, b: Option<Meta>, c: Option<Meta>) -> Seq<Meta> {
    let x = match a {
        Some(m) => seq![m],
        None => Seq::empty(),
    };
    let y = match b {
        Some(m) => seq![m],
        None => Seq::empty(),
    };
    let z = match c {
        Some(m) => seq![m],
        None => Seq::empty(),
    };
    x + y + z
}

/// `r` are entries that may be made for a file: each of the parsers finds what it may find in the
/// precleaned name.
pub open spec fn may_read(path: Seq<char>, r: Option<Seq<Meta>>) -> bool {
    match file_stem_of(path) {
        None => r is None,
        Some(stem) => {
            let name = precleaned(unwrapped(stem));
            exists|a: Option<Meta>, b: Option<Meta>, c: Option<Meta>|
                {
                    &&& #[trigger] TorrentMetadata::may_give(name, a)
                    &&& #[trigger] Anitomy::may_give(name, b)
                    &&& #[trigger] CombinedExtractor::may_give(name, c)
                    &&& r == entries_for(path, name, present(a, b, c))
                }
        },
    }
}

/// The contents of an optional list of metadata.
pub open spec fn opt_metas(v: Option<Vec<Metadata>>) -> Option<Seq<Meta>> {
    match v {
        Some(ms) => Some(metas_of(ms@)),
        None => None,
    }
}

/// Taking checksums out brings in no NUL.
proof fn lemma_hashes_no_nul(s: Seq<char>, i: int)
    requires
        no_nul(s),
    ensures
        no_nul(without_hashes(s, i)),
    decreases s.len() - i,
{
    if 0 <= i < s.len() {
        if crate::scanner::names::hash_at(s, i) {
            lemma_hashes_no_nul(s, i + 10);
        }
        lemma_hashes_no_nul(s, i + 1);
    }
}

/// Taking UUIDs out brings in no NUL.
proof fn lemma_uuids_no_nul(s: Seq<char>, i: int)
    requires
        no_nul(s),
    ensures
        no_nul(without_uuids(s, i)),
    decreases s.len() - i,
{
    if 0 <= i < s.len() {
        if crate::scanner::names::uuid_at(s, i) {
            lemma_uuids_no_nul(s, i + 36);
        }
        lemma_uuids_no_nul(s, i + 1);
    }
}

/// Cutting a marker off brings in no NUL.
proof fn lemma_marker_no_nul(s: Seq<char>, marker: Seq<char>)
    requires
        no_nul(s),
    ensures
        marker_cut(s, marker) matches Some(t) ==> no_nul(t),
{
    crate::text::lemma_find_from(s, marker + " ["@, 0);
}

/// Where a mark ends is within the name.
proof fn lemma_mark_from(s: Seq<char>, i: int)
    ensures
        mark_from(s, i) matches Some(p) ==> 0 <= p.0 < p.1 <= s.len(),
    decreases s.len() - i,
{
    if 0 <= i < s.len() {
        lemma_mark_from(s, i + 1);
        crate::scanner::parse::lemma_run_len(s, i + 1, 2);
        let j = i + 1 + run_len(s, i + 1, 2);
        crate::scanner::parse::lemma_run_len(s, j + 1, 4);
    }
}

/// A run of digits is within the name.
proof fn lemma_run_len(s: Seq<char>, from: int, max: int)
    ensures
        0 <= run_len(s, from, max),
        0 <= from <= s.len() ==> from + run_len(s, from, max) <= s.len(),
    decreases max,
{
    if max > 0 && 0 <= from < s.len() {
        lemma_run_len(s, from + 1, max - 1);
    }
}

/// A precleaned name has no NUL where the name has none.
proof fn lemma_precleaned_no_nul(name: Seq<char>)
    requires
        no_nul(name),
    ensures
        no_nul(precleaned(name)),
{
    let a = without_hashes(name, 0);
    lemma_hashes_no_nul(name, 0);
    let b = without_uuids(a, 0);
    lemma_uuids_no_nul(a, 0);
    lemma_mark_from(b, 0);
    if let Some(p) = mark_from(b, 0) {
        lemma_run_len(b, p.1 + 1, b.len() as int);
    }
    let c = mark_freed(b);
    assert(no_nul(c));
    lemma_marker_no_nul(c, " END"@);
    lemma_marker_no_nul(c, " end"@);
    lemma_marker_no_nul(c, " FIN"@);
    lemma_marker_no_nul(c, " FINAL"@);
}

/// The parts of a path have no NUL where the path has none.
proof fn lemma_stem_no_nul(path: Seq<char>)
    requires
        no_nul(path),
    ensures
        file_stem_of(path) matches Some(stem) ==> no_nul(unwrapped(stem)),
{
    crate::paths::lemma_trim_tail(path);
    let t = crate::paths::trim_tail(path);
    crate::paths::lemma_last_start(t);
    if let Some(name) = file_name_of(path) {
        assert(no_nul(t));
        assert(no_nul(name));
        crate::scanner::parse::lemma_rfind_char(name, |c: char| c == '.', name.len() as int);
    }
}

/// What `rfind_char` finds is within the string.
proof fn lemma_rfind_char(s: Seq<char>, f: spec_fn(char) -> bool, to: int)
    ensures
        rfind_char(s, f, to) matches Some(i) ==> 0 <= i < s.len(),
    decreases to,
{
    if 0 < to <= s.len() {
        lemma_rfind_char(s, f, to - 1);
    }
}

/// Adds what a parser found to a list.
fn add_found(found: &mut Vec<Metadata>, m: Option<Metadata>)
    ensures
        metas_of(final(found)@) == metas_of(old(found)@) + (match opt_meta(m) {
            Some(x) => seq![x],
            None => Seq::empty(),
        }),
{
    let ghost before = metas_of(found@);
    match m {
        Some(x) => {
            let ghost y = x@;
            found.push(x);
            assert(metas_of(found@) =~= before + seq![y]);
        },
        None => {
            assert(metas_of(found@) =~= before + Seq::<Meta>::empty());
        },
    }
}

/// Reads what the name and the directories of one file say.
pub fn parse_filename(path: &str) -> (r: Option<Vec<Metadata>>)
    requires
        no_nul(path@),
    ensures
        may_read(path@, opt_metas(r)),
        r matches Some(ms) ==> all_differ(metas_of(ms@)),
{
    let stem = match file_stem(path) {
        Some(stem) => stem,
        None => {
            return None;
        },
    };
    let inner = strip_parentheses(stem.as_str());
    let filename = preclean_filename(inner.as_str());
    proof {
        lemma_stem_no_nul(path@);
        lemma_precleaned_no_nul(inner@);
    }
    let a = TorrentMetadata::from_str(filename.as_str());
    let b = Anitomy::from_str(filename.as_str());
    let c = CombinedExtractor::from_str(filename.as_str());
    let ghost (x, y, z) = (opt_meta(a), opt_meta(b), opt_meta(c));
    let mut found: Vec<Metadata> = Vec::new();
    assert(metas_of(found@) =~= Seq::<Meta>::empty());
    add_found(&mut found, a);
    add_found(&mut found, b);
    add_found(&mut found, c);
    assert(metas_of(found@) =~= present(x, y, z));
    proof {
        assert(TorrentMetadata::may_give(filename@, x));
        assert(Anitomy::may_give(filename@, y));
        assert(CombinedExtractor::may_give(filename@, z));
    }
    refine_metadata(path, filename.as_str(), &found)
}

/// `r` are the files, in their order, that entries may be made for, and the entries.
pub open spec fn may_parse(files: Seq<String>, r: Seq<(String, Vec<Metadata>)>) -> bool
    decreases files.len(),
{
    if files.len() == 0 {
        r.len() == 0
    } else {
        ||| {
            &&& r.len() > 0
            &&& r.last().0 == files.last()
            &&& may_read(files.last()@, Some(metas_of(r.last().1@)))
            &&& may_parse(files.drop_last(), r.drop_last())
        }
        ||| {
            &&& may_read(files.last()@, None)
            &&& may_parse(files.drop_last(), r)
        }
    }
}

/// Reads what the names and the directories of files say. A file of which nothing can be said is left
/// out.
pub fn parse_filenames(files: &Vec<String>) -> (r: Vec<(String, Vec<Metadata>)>)
    requires
        forall|i: int| 0 <= i < files@.len() ==> no_nul((#[trigger] files@[i])@),
    ensures
        may_parse(files@, r@),
        forall|k: int| 0 <= k < r@.len() ==> all_differ(metas_of((#[trigger] r@[k]).1@)),
{
    let mut r: Vec<(String, Vec<Metadata>)> = Vec::new();
    let mut i: usize = 0;
    assert(files@.subrange(0, 0) =~= Seq::empty());
    while i < files.len()
        invariant
            0 <= i <= files@.len(),
            forall|i: int| 0 <= i < files@.len() ==> no_nul((#[trigger] files@[i])@),
            may_parse(files@.subrange(0, i as int), r@),
            forall|k: int| 0 <= k < r@.len() ==> all_differ(metas_of((#[trigger] r@[k]).1@)),
        decreases files@.len() - i,
    {
        let ghost before = r@;
        proof {
            let next = files@.subrange(0, i + 1);
            assert(next.drop_last() =~= files@.subrange(0, i as int));
            assert(next.last() == files@[i as int]);
        }
        if let Some(ms) = parse_filename(files[i].as_str()) {
            r.push((files[i].clone(), ms));
            assert(r@.drop_last() =~= before);
        }
        i = i + 1;
    }
    assert(files@.subrange(0, i as int) =~= files@);
    r
}

/// Whatever the parsers find, a file that is in a season's directory gets that season in every entry,
/// and so does its directory's title.
pub proof fn law_season_directory_decides(path: Seq<char>, filename: Seq<char>, found: Seq<Meta>)
    requires
        folder_season(path) is Some,
        entries_for(path, filename, found) is Some,
    ensures
        forall|i: int|
            0 <= i < entries_for(path, filename, found)->0.len() ==> (
            #[trigger] entries_for(path, filename, found)->0[i]).season == folder_season(path),
{
    let language = language_in(filename);
    let season = folder_season(path);
    let ms = found.map_values(|m: Meta| refined(m, filename, language, season));
    let all = with_folder(ms, folder_title(path), season, language);
    assert forall|i: int| 0 <= i < all.len() implies (#[trigger] all[i]).season == season by {}
    lemma_variants_season(all, season);
    let both = all + group_variants(all);
    assert forall|i: int| 0 <= i < both.len() implies (#[trigger] both[i]).season == season by {
        if i >= all.len() {
            assert(both[i] == group_variants(all)[i - all.len()]);
        } else {
            assert(both[i] == all[i]);
        }
    }
    lemma_deduped_season(both, season);
}

/// Stripping release groups keeps a season that all entries have.
proof fn lemma_variants_season(ms: Seq<Meta>, season: Option<i64>)
    requires
        forall|i: int| 0 <= i < ms.len() ==> (#[trigger] ms[i]).season == season,
    ensures
        forall|i: int|
            0 <= i < group_variants(ms).len() ==> (#[trigger] group_variants(ms)[i]).season == season,
    decreases ms.len(),
{
    if ms.len() > 0 {
        assert forall|i: int| 0 <= i < ms.drop_last().len() implies (
        #[trigger] ms.drop_last()[i]).season == season by {
            assert(ms.drop_last()[i] == ms[i]);
        }
        lemma_variants_season(ms.drop_last(), season);
        assert(ms[ms.len() - 1].season == season);
    }
}

/// Merging entries keeps a season that all entries have.
proof fn lemma_deduped_season(ms: Seq<Meta>, season: Option<i64>)
    requires
        forall|i: int| 0 <= i < ms.len() ==> (#[trigger] ms[i]).season == season,
    ensures
        forall|i: int| 0 <= i < deduped(ms).len() ==> (#[trigger] deduped(ms)[i]).season == season,
    decreases ms.len(),
{
    if ms.len() > 0 {
        assert forall|i: int| 0 <= i < ms.drop_last().len() implies (
        #[trigger] ms.drop_last()[i]).season == season by {
            assert(ms.drop_last()[i] == ms[i]);
        }
        lemma_deduped_season(ms.drop_last(), season);
        lemma_alike(deduped(ms.drop_last()), ms.last(), 0);
        assert(ms[ms.len() - 1].season == season);
    }
}

/// No season above 100, no episode above 10000 and no episode 0 survives.
pub proof fn law_no_impossible_numbers(m: Meta, filename: Seq<char>)
    ensures
        sanitized(m, filename).season matches Some(s) ==> s <= 100,
        sanitized(m, filename).episode matches Some(e) ==> e <= 10000 && e != 0,
        !(sanitized(m, filename).year is Some && sanitized(m, filename).episode is Some
            && common_width(sanitized(m, filename).year->0 as int) && common_height(
            sanitized(m, filename).episode->0 as int,
        )),
{
}

/// No two of the entries that are left would be searched for in the same way, and every entry is searched
/// for by one that is left.
pub proof fn law_searches_differ(ms: Seq<Meta>)
    ensures
        all_differ(deduped(ms)),
        forall|i: int|
            0 <= i < ms.len() ==> exists|j: int|
                0 <= j < deduped(ms).len() && same_search(#[trigger] ms[i], #[trigger] deduped(ms)[j]),
    decreases ms.len(),
{
    if ms.len() > 0 {
        let rest = ms.drop_last();
        let d = deduped(rest);
        let m = ms.last();
        let out = deduped(ms);
        law_searches_differ(rest);
        lemma_alike(d, m, 0);
        assert forall|i: int, j: int| 0 <= i < j < out.len() implies !same_search(
            #[trigger] out[i],
            #[trigger] out[j],
        ) by {
            if alike_from(d, m, 0) is Some {
                assert(!same_search(d[i], d[j]));
            } else if j < d.len() {
                assert(!same_search(d[i], d[j]));
            } else {
                assert(!same_search(m, d[i]));
            }
        }
        assert forall|i: int| 0 <= i < ms.len() implies exists|j: int|
            0 <= j < out.len() && same_search(#[trigger] ms[i], #[trigger] out[j]) by {
            if i < rest.len() {
                assert(rest[i] == ms[i]);
                let j = choose|j: int| 0 <= j < d.len() && same_search(rest[i], #[trigger] d[j]);
                assert(same_search(ms[i], out[j]));
            } else {
                match alike_from(d, m, 0) {
                    Some(k) => {
                        assert(same_search(ms[i], out[k]));
                    },
                    None => {
                        assert(same_search(ms[i], out[d.len() as int]));
                    },
                }
            }
        }
    }
}

/// What `alike_from` finds.
proof fn lemma_alike(d: Seq<Meta>, m: Meta, from: int)
    requires
        0 <= from,
    ensures
        alike_from(d, m, from) matches Some(k) ==> from <= k < d.len() && same_search(m, d[k]),
        alike_from(d, m, from) is None ==> forall|k: int|
            from <= k < d.len() ==> !same_search(m, #[trigger] d[k]),
    decreases d.len() - from,
{
    if from < d.len() && !same_search(m, d[from]) {
        lemma_alike(d, m, from + 1);
    }
}

/// Numbers that can be right are kept.
pub proof fn law_possible_numbers_are_kept(m: Meta, filename: Seq<char>)
    ensures
        m.season matches Some(s) ==> (s <= 100 ==> sanitized(m, filename).season == Some(s)),
        m.episode matches Some(e) ==> (0 < e <= 10000 && (m.year matches Some(y) ==> !common_width(y as int))
            ==> sanitized(m, filename).episode == Some(e)),
        m.year matches Some(y) ==> (!common_width(y as int) ==> sanitized(m, filename).year == Some(y)),
        sanitized(m, filename).name == m.name,
        sanitized(m, filename).language == m.language,
        m.season is None ==> sanitized(m, filename).season is None,
        m.episode is None ==> sanitized(m, filename).episode is None,
        m.year is None ==> sanitized(m, filename).year is None,
{
}

/// The usual sizes of pictures.
pub proof fn law_usual_sizes(n: int)
    ensures
        common_width(n) <==> seq![640int, 720, 1280, 1920, 2560, 3840, 7680].contains(n),
        common_height(n) <==> seq![360int, 480, 576, 720, 1080, 1440, 2160, 4320].contains(n),
{
    let w = seq![640int, 720, 1280, 1920, 2560, 3840, 7680];
    assert(w[0] == 640 && w[1] == 720 && w[2] == 1280 && w[3] == 1920 && w[4] == 2560 && w[5] == 3840 && w[6]
        == 7680);
    let h = seq![360int, 480, 576, 720, 1080, 1440, 2160, 4320];
    assert(h[0] == 360 && h[1] == 480 && h[2] == 576 && h[3] == 720 && h[4] == 1080 && h[5] == 1440 && h[6]
        == 2160 && h[7] == 4320);
}

/// The season of the directory counts before that of the name, and the language of the name before that of the
/// file; nothing else is changed by them.
pub proof fn law_directories_and_languages_fill_in(
    m: Meta,
    filename: Seq<char>,
    language: Option<Seq<char>>,
    season: i64,
)
    ensures
        refined(m, filename, language, Some(season)).season == Some(season),
        refined(m, filename, language, None).season == sanitized(title_fixed(m), filename).season,
        m.language is Some ==> refined(m, filename, language, None).language == m.language,
        m.language is None ==> refined(m, filename, language, None).language == language,
        refined(m, filename, language, None).episode == sanitized(title_fixed(m), filename).episode,
        refined(m, filename, language, None).year == sanitized(title_fixed(m), filename).year,
        refined(m, filename, language, None).name == title_fixed(m).name,
        title_fixed(m).season == m.season,
        title_fixed(m).year == m.year,
        m.episode is Some ==> title_fixed(m).episode == m.episode,
{
}

/// An entry takes from another what it lacks and keeps what it has.
pub proof fn law_entries_are_merged(a: Meta, b: Meta)
    ensures
        merged(a, b).name == a.name,
        merged(a, b).year == a.year,
        merged(a, b).season == (if a.season is Some {
            a.season
        } else {
            b.season
        }),
        merged(a, b).episode == (if a.episode is Some {
            a.episode
        } else {
            b.episode
        }),
        merged(a, b).language == (if a.language is Some {
            a.language
        } else {
            b.language
        }),
{
}

/// The first entry stays the first, under its own title and with the numbers that it has.
pub proof fn law_the_first_entry_stays_first(ms: Seq<Meta>)
    requires
        ms.len() > 0,
    ensures
        deduped(ms).len() > 0,
        deduped(ms)[0].name == ms[0].name,
        deduped(ms)[0].year == ms[0].year,
        ms[0].season is Some ==> deduped(ms)[0].season == ms[0].season,
        ms[0].episode is Some ==> deduped(ms)[0].episode == ms[0].episode,
        ms[0].language is Some ==> deduped(ms)[0].language == ms[0].language,
    decreases ms.len(),
{
    if ms.len() > 1 {
        law_the_first_entry_stays_first(ms.drop_last());
        assert(ms.drop_last()[0] == ms[0]);
        let d = deduped(ms.drop_last());
        lemma_alike(d, ms.last(), 0);
        match alike_from(d, ms.last(), 0) {
            Some(k) => {
                assert(deduped(ms) == d.update(k, merged(d[k], ms.last())));
            },
            None => {
                assert(deduped(ms) == d.push(ms.last()));
            },
        }
    } else {
        let d = deduped(ms.drop_last());
        assert(d =~= Seq::empty());
        assert(alike_from(d, ms.last(), 0) is None);
        assert(deduped(ms) == d.push(ms.last()));
    }
}

/// The title of the directory is added as an entry of its own, with its year, and with the numbers that the
/// names have given; the entries before it stay.
pub proof fn law_directories_add_an_entry(
    ms: Seq<Meta>,
    title: Seq<char>,
    season: Option<i64>,
    language: Option<Seq<char>>,
)
    ensures
        with_folder(ms, None, season, language) == ms,
        ({
            let r = with_folder(ms, Some(title), season, language);
            &&& r.len() == ms.len() + 1
            &&& r.take(ms.len() as int) == ms
            &&& r.last().name == year_split(title).0
            &&& r.last().year == year_split(title).1
            &&& season is Some ==> r.last().season == season
            &&& season is None ==> r.last().season == first_season(ms)
            &&& r.last().episode == first_episode(ms)
            &&& r.last().language == language
        }),
{
    let r = with_folder(ms, Some(title), season, language);
    assert(r.take(ms.len() as int) =~= ms);
}

/// A file for which any parser finds something has entries, and what was found first is searched for first.
pub proof fn law_what_is_found_is_searched_for(path: Seq<char>, filename: Seq<char>, found: Seq<Meta>)
    requires
        found.len() > 0,
    ensures
        entries_for(path, filename, found) is Some,
        entries_for(path, filename, found)->0.len() > 0,
        entries_for(path, filename, found)->0[0].name == title_fixed(found[0]).name,
{
    let language = language_in(filename);
    let season = folder_season(path);
    let ms = found.map_values(|m: Meta| refined(m, filename, language, season));
    let all = with_folder(ms, folder_title(path), season, language);
    let both = all + group_variants(all);
    assert(ms[0].name == title_fixed(found[0]).name);
    assert(all[0] == ms[0]);
    assert(both[0] == all[0]);
    law_the_first_entry_stays_first(both);
}

/// A directory gives the title, and where it says nothing the one above it does.
pub proof fn law_directories_give_the_title(
    path: Seq<char>,
    dir: Seq<char>,
    name: Seq<char>,
    above: Seq<char>,
    upper: Seq<char>,
)
    requires
        parent_of(path) == Some(dir),
        file_name_of(dir) == Some(name),
        parent_of(dir) == Some(above),
        file_name_of(above) == Some(upper),
    ensures
        normalized(name).len() > 0 && !generic_name(lowercase(normalized(name))) ==> folder_title(path)
            == Some(normalized(name)),
        generic_name(lowercase(normalized(name))) && normalized(upper).len() > 0 && !generic_name(
            lowercase(normalized(upper)),
        ) ==> folder_title(path) == Some(normalized(upper)),
        folder_season(path) == season_of_lower(lowercase(name)),
{
}

/// A file of which something can be read is kept with what can be read of it, and the files keep their order.
pub proof fn law_readable_files_are_kept(
    files: Seq<String>,
    r: Seq<(String, Vec<Metadata>)>,
    i: int,
)
    requires
        may_parse(files, r),
        0 <= i < files.len(),
        !may_read(files[i]@, None),
    ensures
        exists|k: int|
            0 <= k < r.len() && (#[trigger] r[k]).0 == files[i] && may_read(
                files[i]@,
                Some(metas_of(r[k].1@)),
            ),
    decreases files.len(),
{
    let fewer = files.drop_last();
    if i == files.len() - 1 {
        assert(r[r.len() - 1].0 == files[i]);
    } else {
        assert(fewer[i] == files[i]);
        if r.len() > 0 && r.last().0 == files.last() && may_read(
            files.last()@,
            Some(metas_of(r.last().1@)),
        ) && may_parse(fewer, r.drop_last()) {
            law_readable_files_are_kept(fewer, r.drop_last(), i);
            let rest = r.drop_last();
            let k = choose|k: int|
                0 <= k < rest.len() && (#[trigger] rest[k]).0 == fewer[i] && may_read(
                    fewer[i]@,
                    Some(metas_of(rest[k].1@)),
                );
            assert(r[k] == rest[k]);
        } else {
            law_readable_files_are_kept(fewer, r, i);
        }
    }
}

}
