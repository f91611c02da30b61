//! Scanning shows with the help of their directories.
//!
//! Files in the same directory mostly belong to the same show. Where a directory already holds files of
//! a known show, a new file needs its season and its episode only, and no search by title.

use vstd::prelude::*;

use crate::external::{ExternalMedia, ExternalSeason};
use crate::filename::{no_nul, Meta, Metadata};
use crate::paths::{file_name, file_name_of, parent, parent_of};
use crate::scanner::episodes::{
    lemma_episode_from, resolve_absolute_episode, resolve_from, resolving, signed, ResolveStep,
    Resolving,
};
use crate::scanner::lookup::{
    best_of, episodes_in, is_match, pick_best, seasons_in, LookupQuery, LookupReply, Question,
};
use crate::scanner::matcher::WorkUnit;
use crate::scanner::names::{generic_name, is_generic_dir_name};
use crate::scanner::parse::{
    find_episode, find_season, first_episode, first_season, folder_season, may_read, metas_of,
    opt_metas, parse_filename, season_from_folder,
};
use crate::scanner::records::MediaFile;
use crate::scanner::similarity::{best_title_similarity, is_at_least, Score};
use crate::scanner::walk::{chunks, copy_file, is_chunked, MATCHED_AT_ONCE};
use crate::text::{lowercase, same, views};

verus! {

/// The directory of the show that a file belongs to: its own, or the one above where its own is for a
/// season or says nothing.
pub open spec fn show_dir(path: Seq<char>) -> Option<Seq<char>> {
    match parent_of(path) {
        None => None,
        Some(p) => match file_name_of(p) {
            None => None,
            Some(name) => if generic_name(lowercase(name)) {
                parent_of(p)
            } else {
                Some(p)
            },
        },
    }
}

/// Finds the directory of the show that a file belongs to.
pub fn show_directory(path: &str) -> (r: Option<String>)
    ensures
        r is Some <==> show_dir(path@) is Some,
        r matches Some(d) ==> show_dir(path@) == Some(d@),
{
    match parent(path) {
        None => None,
        Some(p) => match file_name(p.as_str()) {
            None => None,
            Some(name) => if is_generic_dir_name(name.as_str()) {
                parent(p.as_str())
            } else {
                Some(p)
            },
        },
    }
}

/// A file that has been matched, and the show that it belongs to.
#[derive(Debug)]
pub struct ShowMapping {
    pub target_file: String,
    pub show_name: String,
    pub show_id: i64,
}

/// A new file in the directory of a known show.
#[derive(Debug)]
pub struct KnownFile {
    pub file: MediaFile,
    pub show_name: String,
    pub show_id: i64,
}

/// The first matched file, from `from` on, of the show with this directory.
pub open spec fn first_in_dir(mappings: Seq<ShowMapping>, dir: Seq<char>, from: int) -> Option<int>
    decreases mappings.len() - from,
{
    if from < 0 || from >= mappings.len() {
        None
    } else if show_dir(mappings[from].target_file@) == Some(dir) {
        Some(from)
    } else {
        first_in_dir(mappings, dir, from + 1)
    }
}

/// The matched file that tells the show of a new one.
pub open spec fn sibling_of(mappings: Seq<ShowMapping>, path: Seq<char>) -> Option<int> {
    match show_dir(path) {
        Some(dir) => first_in_dir(mappings, dir, 0),
        None => None,
    }
}

/// The new files, among the first `k`, that are in the directories of known shows.
pub open spec fn known_files(mappings: Seq<ShowMapping>, files: Seq<MediaFile>, k: int) -> Seq<KnownFile>
    decreases k,
{
    if k <= 0 {
        Seq::empty()
    } else {
        let before = known_files(mappings, files, k - 1);
        match sibling_of(mappings, files[k - 1].target_file@) {
            Some(i) => before.push(
                KnownFile {
                    file: files[k - 1],
                    show_name: mappings[i].show_name,
                    show_id: mappings[i].show_id,
                },
            ),
            None => before,
        }
    }
}

/// The new files, among the first `k`, that are in other directories.
pub open spec fn unknown_files(mappings: Seq<ShowMapping>, files: Seq<MediaFile>, k: int) -> Seq<MediaFile>
    decreases k,
{
    if k <= 0 {
        Seq::empty()
    } else {
        let before = unknown_files(mappings, files, k - 1);
        if sibling_of(mappings, files[k - 1].target_file@) is None {
            before.push(files[k - 1])
        } else {
            before
        }
    }
}

/// Finds the directories of the shows of matched files.
fn directories(mappings: &Vec<ShowMapping>) -> (r: Vec<Option<String>>)
    ensures
        r@.len() == mappings@.len(),
        forall|i: int|
            0 <= i < r@.len() ==> match #[trigger] r@[i] {
                Some(d) => show_dir(mappings@[i].target_file@) == Some(d@),
                None => show_dir(mappings@[i].target_file@) is None,
            },
{
    let mut r: Vec<Option<String>> = Vec::new();
    let mut i: usize = 0;
    while i < mappings.len()
        invariant
            0 <= i <= mappings@.len(),
            r@.len() == i,
            forall|i: int|
                0 <= i < r@.len() ==> match #[trigger] r@[i] {
                    Some(d) => show_dir(mappings@[i].target_file@) == Some(d@),
                    None => show_dir(mappings@[i].target_file@) is None,
                },
        decreases mappings@.len() - i,
    {
        r.push(show_directory(mappings[i].target_file.as_str()));
        i = i + 1;
    }
    r
}

/// Parts new files into those in the directories of known shows and the others. Of several shows with
/// one directory the first counts.
pub fn partition(mappings: &Vec<ShowMapping>, files: &Vec<MediaFile>) -> (r: (
    Vec<KnownFile>,
    Vec<MediaFile>,
))
    ensures
        r.0@ == known_files(mappings@, files@, files@.len() as int),
        r.1@ == unknown_files(mappings@, files@, files@.len() as int),
{
    let dirs = directories(mappings);
    let mut known: Vec<KnownFile> = Vec::new();
    let mut unknown: Vec<MediaFile> = Vec::new();
    let mut k: usize = 0;
    while k < files.len()
        invariant
            0 <= k <= files@.len(),
            dirs@.len() == mappings@.len(),
            forall|i: int|
                0 <= i < dirs@.len() ==> match #[trigger] dirs@[i] {
                    Some(d) => show_dir(mappings@[i].target_file@) == Some(d@),
                    None => show_dir(mappings@[i].target_file@) is None,
                },
            known@ == known_files(mappings@, files@, k as int),
            unknown@ == unknown_files(mappings@, files@, k as int),
        decreases files@.len() - k,
    {
        let mut found: Option<usize> = None;
        if let Some(dir) = show_directory(files[k].target_file.as_str()) {
            let mut i: usize = 0;
            while i < dirs.len() && found.is_none()
                invariant
                    0 <= i <= dirs@.len(),
                    dirs@.len() == mappings@.len(),
                    forall|i: int|
                        0 <= i < dirs@.len() ==> match #[trigger] dirs@[i] {
                            Some(d) => show_dir(mappings@[i].target_file@) == Some(d@),
                            None => show_dir(mappings@[i].target_file@) is None,
                        },
                    found matches Some(x) ==> x < mappings@.len() && first_in_dir(
                        mappings@,
                        dir@,
                        0,
                    ) == Some(x as int),
                    found is None ==> first_in_dir(mappings@, dir@, 0) == first_in_dir(
                        mappings@,
                        dir@,
                        i as int,
                    ),
                decreases dirs@.len() - i,
            {
                assert(match dirs@[i as int] {
                    Some(d) => show_dir(mappings@[i as int].target_file@) == Some(d@),
                    None => show_dir(mappings@[i as int].target_file@) is None,
                });
                if let Some(d) = &dirs[i] {
                    if same(d.as_str(), dir.as_str()) {
                        found = Some(i);
                    }
                }
                i = i + 1;
            }
        }
        match found {
            Some(i) => {
                known.push(
                    KnownFile {
                        file: copy_file(&files[k]),
                        show_name: mappings[i].show_name.clone(),
                        show_id: mappings[i].show_id,
                    },
                );
            },
            None => {
                unknown.push(copy_file(&files[k]));
            },
        }
        k = k + 1;
    }
    (known, unknown)
}

/// Every new file goes one way or the other.
pub proof fn law_partition_is_complete(mappings: Seq<ShowMapping>, files: Seq<MediaFile>, k: int)
    requires
        0 <= k <= files.len(),
    ensures
        known_files(mappings, files, k).len() + unknown_files(mappings, files, k).len() == k,
    decreases k,
{
    if k > 0 {
        law_partition_is_complete(mappings, files, k - 1);
    }
}

/// The provider's id of a show, from what a search for its name gave: that of the result that is most
/// like the name, if it is like it at all.
pub open spec fn searched_id(name: Seq<char>, results: Option<Seq<ExternalMedia>>) -> Option<Seq<char>> {
    match results {
        None => None,
        Some(list) => match best_of(name, list, list.len() as int) {
            None => None,
            Some(b) => if is_match(name, list[b]) {
                Some(list[b].external_id@)
            } else {
                None
            },
        },
    }
}

/// An optional text.
pub open spec fn text_of(s: Option<String>) -> Option<Seq<char>> {
    match s {
        Some(s) => Some(s@),
        None => None,
    }
}

/// Picks the provider's id of a show from what a search for its name gave.
pub fn lookup_external_id(show_name: &str, results: &Vec<ExternalMedia>) -> (r: Option<String>)
    ensures
        text_of(r) == searched_id(show_name@, Some(results@)),
{
    match pick_best(show_name, results) {
        None => None,
        Some(b) => {
            let score = best_title_similarity(show_name, &results[b]);
            if is_at_least(score, Score { num: 3, den: 10 }) {
                Some(results[b].external_id.clone())
            } else {
                None
            }
        },
    }
}

/// The ids that searches have given in this scan, by the names of shows.
#[derive(Debug)]
pub struct IdCache {
    pub entries: Vec<(String, Option<String>)>,
}

/// What the first `k` entries say of a show; what came later counts.
pub open spec fn cached(entries: Seq<(String, Option<String>)>, name: Seq<char>, k: int) -> Option<
    Option<Seq<char>>,
>
    decreases k,
{
    if k <= 0 {
        None
    } else if entries[k - 1].0@ == name {
        Some(text_of(entries[k - 1].1))
    } else {
        cached(entries, name, k - 1)
    }
}

/// Where the provider's id of a show comes from.
#[derive(Debug)]
pub enum IdSource {
    /// It is known, or it is known that there is none.
    Known(Option<String>),
    /// The provider is asked for the name.
    Search,
}

impl IdCache {
    /// What is known of a show.
    pub open spec fn id_of(self, name: Seq<char>) -> Option<Option<Seq<char>>> {
        cached(self.entries@, name, self.entries@.len() as int)
    }

    /// A cache that knows nothing.
    pub fn new() -> (r: Self)
        ensures
            forall|name: Seq<char>| r.id_of(name) is None,
    {
        IdCache { entries: Vec::new() }
    }

    /// Tells where the id of a show comes from: the one that is stored with the show, then the one that
    /// a search gave before, and a new search only where there is neither. A search by name can lead to
    /// another show, and would then split this one.
    pub fn source(&self, stored: &Option<String>, show_name: &str) -> (r: IdSource)
        ensures
            match (text_of(*stored), self.id_of(show_name@)) {
                (Some(id), _) => r matches IdSource::Known(x) && text_of(x) == Some(id),
                (None, Some(id)) => r matches IdSource::Known(x) && text_of(x) == id,
                (None, None) => r is Search,
            },
    {
        if let Some(id) = stored {
            return IdSource::Known(Some(id.clone()));
        }
        let mut k: usize = self.entries.len();
        while k > 0
            invariant
                0 <= k <= self.entries@.len(),
                *stored is None,
                self.id_of(show_name@) == cached(self.entries@, show_name@, k as int),
            decreases k,
        {
            k = k - 1;
            if same(self.entries[k].0.as_str(), show_name) {
                return match &self.entries[k].1 {
                    Some(id) => IdSource::Known(Some(id.clone())),
                    None => IdSource::Known(None),
                };
            }
        }
        IdSource::Search
    }

    /// Keeps what a search gave.
    pub fn keep(&mut self, show_name: &String, id: &Option<String>)
        ensures
            final(self).id_of(show_name@) == Some(text_of(*id)),
            forall|name: Seq<char>|
                name != show_name@ ==> #[trigger] final(self).id_of(name) == old(self).id_of(name),
    {
        let ghost before = self.entries@;
        let copy: Option<String> = match id {
            Some(id) => Some(id.clone()),
            None => None,
        };
        self.entries.push((show_name.clone(), copy));
        proof {
            assert forall|name: Seq<char>| name != show_name@ implies #[trigger] self.id_of(name)
                == old(self).id_of(name) by {
                lemma_cached_prefix(before, self.entries@, name, before.len() as int);
            }
        }
    }
}

/// What earlier entries say does not depend on later ones.
proof fn lemma_cached_prefix(
    a: Seq<(String, Option<String>)>,
    b: Seq<(String, Option<String>)>,
    name: Seq<char>,
    k: int,
)
    requires
        k <= a.len(),
        a.len() <= b.len(),
        forall|i: int| 0 <= i < a.len() ==> a[i] == b[i],
    ensures
        cached(a, name, k) == cached(b, name, k),
    decreases k,
{
    if k > 0 {
        lemma_cached_prefix(a, b, name, k - 1);
    }
}

/// The metadata with a season where none is known.
pub open spec fn with_season(m: Meta, season: Option<i64>) -> Meta {
    if m.season is None {
        Meta { season, ..m }
    } else {
        m
    }
}

/// A list of metadata with a season where none is known.
pub open spec fn filled(ms: Seq<Meta>, season: Option<i64>) -> Seq<Meta> {
    ms.map_values(|m: Meta| with_season(m, season))
}

/// Sets the season of the directory where none is known.
pub fn fill_seasons(metadata: &Vec<Metadata>, season: Option<i64>) -> (r: Vec<Metadata>)
    ensures
        metas_of(r@) == filled(metas_of(metadata@), season),
{
    let mut r: Vec<Metadata> = Vec::new();
    let mut i: usize = 0;
    while i < metadata.len()
        invariant
            0 <= i <= metadata@.len(),
            r@.len() == i,
            forall|j: int|
                0 <= j < i ==> (#[trigger] r@[j])@ == with_season(metadata@[j]@, season),
        decreases metadata@.len() - i,
    {
        let mut m = metadata[i].copy();
        if season.is_some() && m.season.is_none() {
            m.season = season;
        }
        r.push(m);
        i = i + 1;
    }
    assert(metas_of(r@) =~= filled(metas_of(metadata@), season));
    r
}

/// The absolute number of an episode: where no season is known at all, the first episode that is.
pub open spec fn absolute_number(ms: Seq<Meta>) -> Option<i64> {
    if first_season(ms) is None {
        first_episode(ms)
    } else {
        None
    }
}

/// A list of metadata with this season and episode.
pub open spec fn renumbered(ms: Seq<Meta>, season: i64, episode: i64) -> Seq<Meta> {
    ms.map_values(|m: Meta| Meta { season: Some(season), episode: Some(episode), ..m })
}

/// Sets season and episode.
fn renumber(metadata: &Vec<Metadata>, season: i64, episode: i64) -> (r: Vec<Metadata>)
    ensures
        metas_of(r@) == renumbered(metas_of(metadata@), season, episode),
{
    let mut r: Vec<Metadata> = Vec::new();
    let mut i: usize = 0;
    while i < metadata.len()
        invariant
            0 <= i <= metadata@.len(),
            r@.len() == i,
            forall|j: int|
                0 <= j < i ==> (#[trigger] r@[j])@ == (Meta {
                    season: Some(season),
                    episode: Some(episode),
                    ..metadata@[j]@
                }),
        decreases metadata@.len() - i,
    {
        let mut m = metadata[i].copy();
        m.season = Some(season);
        m.episode = Some(episode);
        r.push(m);
        i = i + 1;
    }
    assert(metas_of(r@) =~= renumbered(metas_of(metadata@), season, episode));
    r
}

/// What working out the numbers of a file has come to.
pub enum Numbering {
    Ask(Question),
    /// The metadata, after so many replies.
    Settled(Seq<Meta>, int),
}

/// Working out the numbers of a file of a known show: the directory gives a season that is missing, and
/// an absolute number is resolved with the provider, by the replies from `c` on.
pub open spec fn numbering(
    path: Seq<char>,
    parsed: Seq<Meta>,
    id: Seq<char>,
    replies: Seq<LookupReply>,
    c: int,
) -> Numbering {
    let ms = filled(parsed, folder_season(path));
    match absolute_number(ms) {
        None => Numbering::Settled(ms, c),
        Some(absolute) => match resolving(id, absolute as int, replies, c) {
            Resolving::Ask(q) => Numbering::Ask(q),
            Resolving::Unresolved(d) => Numbering::Settled(ms, d),
            Resolving::Resolved(j, d, e) => Numbering::Settled(
                renumbered(
                    ms,
                    seasons_in(replies[c])->0[j].season_number as i64,
                    episodes_in(replies[d])->0[e].episode_number as i64,
                ),
                d + 1,
            ),
        },
    }
}

/// What working out the numbers of a file has come to.
#[derive(Debug)]
pub enum NumberStep {
    Ask(LookupQuery),
    /// The file is matched to the id with this metadata, after so many replies.
    Settled(Vec<Metadata>, usize),
}

/// `step` is the state `n`.
pub open spec fn is_number_step(step: NumberStep, n: Numbering) -> bool {
    match (step, n) {
        (NumberStep::Ask(q), Numbering::Ask(p)) => q.question() == p,
        (NumberStep::Settled(ms, c), Numbering::Settled(want, d)) => metas_of(ms@) == want && c == d,
        _ => false,
    }
}

/// A resolved episode is in the replies.
proof fn lemma_resolved_in_range(
    id: Seq<char>,
    absolute: int,
    seasons: Seq<ExternalSeason>,
    j: int,
    running: int,
    replies: Seq<LookupReply>,
    c: int,
)
    requires
        0 <= c,
        0 <= j,
    ensures
        resolve_from(id, absolute, seasons, j, running, replies, c) matches Resolving::Resolved(
            a,
            b,
            e,
        ) ==> 0 <= a < seasons.len() && 0 <= b < replies.len() && episodes_in(replies[b]) is Some && 0
            <= e < episodes_in(replies[b])->0.len(),
    decreases seasons.len() - j,
{
    if j < seasons.len() {
        if seasons[j].season_number == 0 {
            lemma_resolved_in_range(id, absolute, seasons, j + 1, running, replies, c);
        } else if c < replies.len() {
            if let Some(eps) = episodes_in(replies[c]) {
                if absolute <= running + eps.len() {
                    lemma_episode_from(eps, absolute - running, 0);
                } else {
                    lemma_resolved_in_range(
                        id,
                        absolute,
                        seasons,
                        j + 1,
                        running + eps.len(),
                        replies,
                        c + 1,
                    );
                }
            }
        }
    }
}

/// Goes on with working out the numbers of a file of a known show, with the replies from `c` on.
pub fn number_known_file(
    path: &str,
    parsed: &Vec<Metadata>,
    external_id: &String,
    replies: &Vec<LookupReply>,
    c: usize,
) -> (r: NumberStep)
    requires
        c <= replies@.len(),
    ensures
        is_number_step(r, numbering(path@, metas_of(parsed@), external_id@, replies@, c as int)),
        r matches NumberStep::Settled(_, d) ==> d <= replies@.len(),
{
    let ms = fill_seasons(parsed, season_from_folder(path));
    if find_season(&ms).is_some() {
        return NumberStep::Settled(ms, c);
    }
    let absolute: i64 = match find_episode(&ms) {
        Some(n) => n,
        None => {
            return NumberStep::Settled(ms, c);
        },
    };
    match resolve_absolute_episode(external_id, absolute, replies, c) {
        ResolveStep::Ask(q) => NumberStep::Ask(q),
        ResolveStep::Unresolved(d) => NumberStep::Settled(ms, d),
        ResolveStep::Resolved { season, episodes, episode } => {
            proof {
                lemma_resolved_in_range(
                    external_id@,
                    absolute as int,
                    seasons_in(replies@[c as int])->0,
                    0,
                    0,
                    replies@,
                    c + 1,
                );
            }
            let s: i64 = match &replies[c] {
                LookupReply::Seasons(list) => signed(list[season].season_number),
                _ => 0,
            };
            let e: i64 = match &replies[episodes] {
                LookupReply::Episodes(list) => signed(list[episode].episode_number),
                _ => 0,
            };
            let len: usize = replies.len();
            assert(episodes < len);
            NumberStep::Settled(renumber(&ms, s, e), episodes + 1)
        },
    }
}

/// `units` are the files, in their order, of which something can be read, and what may be read of them.
pub open spec fn may_be_units(files: Seq<MediaFile>, units: Seq<WorkUnit>) -> bool
    decreases files.len(),
{
    if files.len() == 0 {
        units.len() == 0
    } else {
        ||| may_read(files.last().target_file@, None) && may_be_units(files.drop_last(), units)
        ||| units.len() > 0 && units.last().0 == files.last() && may_read(
            files.last().target_file@,
            Some(metas_of(units.last().1@)),
        ) && may_be_units(files.drop_last(), units.drop_last())
    }
}

/// Reads what the names of files in other directories say, and cuts them into batches.
pub fn unknown_batches(files: &Vec<MediaFile>) -> (r: Vec<Vec<WorkUnit>>)
    requires
        forall|i: int| 0 <= i < files@.len() ==> no_nul((#[trigger] files@[i]).target_file@),
    ensures
        exists|units: Seq<WorkUnit>|
            may_be_units(files@, units) && #[trigger] is_chunked(units, 128, r@),
{
    let mut units: Vec<WorkUnit> = Vec::new();
    let mut i: usize = 0;
    while i < files.len()
        invariant
            0 <= i <= files@.len(),
            forall|i: int| 0 <= i < files@.len() ==> no_nul((#[trigger] files@[i]).target_file@),
            may_be_units(files@.take(i as int), units@),
        decreases files@.len() - i,
    {
        let ghost before = units@;
        proof {
            let next = files@.take(i + 1);
            assert(next.drop_last() =~= files@.take(i as int));
            assert(next.last() == files@[i as int]);
        }
        if let Some(ms) = parse_filename(files[i].target_file.as_str()) {
            units.push(WorkUnit(copy_file(&files[i]), ms));
            assert(units@.drop_last() =~= before);
        }
        i = i + 1;
    }
    assert(files@.take(i as int) =~= files@);
    let ghost all = units@;
    let r = chunks(units, MATCHED_AT_ONCE);
    assert(is_chunked(all, 128, r@));
    r
}

/// The directories that are searched for siblings of a file: that of its show, and its own where it is
/// another.
pub open spec fn searched_dirs(path: Seq<char>) -> Seq<Seq<char>> {
    match show_dir(path) {
        None => Seq::empty(),
        Some(dir) => match parent_of(path) {
            Some(own) => if own != dir {
                seq![dir, own]
            } else {
                seq![dir]
            },
            None => seq![dir],
        },
    }
}

/// Lists the directories that are searched for siblings of a file.
pub fn sibling_dirs(path: &str) -> (r: Vec<String>)
    ensures
        views(r@) == searched_dirs(path@),
{
    let mut r: Vec<String> = Vec::new();
    let dir = match show_directory(path) {
        Some(dir) => dir,
        None => {
            assert(views(r@) =~= searched_dirs(path@));
            return r;
        },
    };
    match parent(path) {
        Some(own) => {
            let differs = !same(own.as_str(), dir.as_str());
            r.push(dir);
            if differs {
                r.push(own);
            }
        },
        None => {
            r.push(dir);
        },
    }
    assert(views(r@) =~= searched_dirs(path@));
    r
}

/// Where a file goes in a list that is in the order of ids.
pub open spec fn id_place(t: Seq<MediaFile>, id: i64, from: int) -> int
    decreases t.len() - from,
{
    if 0 <= from < t.len() && t[from].id < id {
        id_place(t, id, from + 1)
    } else {
        from
    }
}

/// The first `k` files in the order of their ids, of those with the same id the first alone.
pub open spec fn by_file_id(files: Seq<MediaFile>, k: int) -> Seq<MediaFile>
    decreases k,
{
    if k <= 0 {
        Seq::empty()
    } else {
        let t = by_file_id(files, k - 1);
        let x = files[k - 1];
        let p = id_place(t, x.id, 0);
        if p < t.len() && t[p].id == x.id {
            t
        } else {
            t.insert(p, x)
        }
    }
}

/// Puts files into the order of their ids and leaves out repeated ones.
pub fn distinct_siblings(files: &Vec<MediaFile>) -> (r: Vec<MediaFile>)
    ensures
        r@ == by_file_id(files@, files@.len() as int),
{
    let mut r: Vec<MediaFile> = Vec::new();
    let mut k: usize = 0;
    while k < files.len()
        invariant
            0 <= k <= files@.len(),
            r@ == by_file_id(files@, k as int),
        decreases files@.len() - k,
    {
        let id = files[k].id;
        let mut p: usize = 0;
        while p < r.len() && r[p].id < id
            invariant
                0 <= p <= r@.len(),
                id_place(r@, id, 0) == id_place(r@, id, p as int),
            decreases r@.len() - p,
        {
            p = p + 1;
        }
        if !(p < r.len() && r[p].id == id) {
            r.insert(p, copy_file(&files[k]));
        }
        k = k + 1;
    }
    r
}

/// The place of an id: the ids before it are smaller, the one there is not.
proof fn lemma_id_place(t: Seq<MediaFile>, id: i64, from: int)
    requires
        0 <= from <= t.len(),
    ensures
        from <= id_place(t, id, from) <= t.len(),
        forall|j: int| from <= j < id_place(t, id, from) ==> (#[trigger] t[j]).id < id,
        id_place(t, id, from) < t.len() ==> t[id_place(t, id, from)].id >= id,
    decreases t.len() - from,
{
    if from < t.len() && t[from].id < id {
        lemma_id_place(t, id, from + 1);
    }
}

/// No file is matched twice: the ids are strictly in order.
pub proof fn law_siblings_are_distinct(files: Seq<MediaFile>, k: int)
    requires
        0 <= k <= files.len(),
    ensures
        forall|i: int, j: int|
            0 <= i < j < by_file_id(files, k).len() ==> (#[trigger] by_file_id(files, k)[i]).id < (
            #[trigger] by_file_id(files, k)[j]).id,
    decreases k,
{
    if k > 0 {
        law_siblings_are_distinct(files, k - 1);
        let t = by_file_id(files, k - 1);
        let x = files[k - 1];
        lemma_id_place(t, x.id, 0);
        let p = id_place(t, x.id, 0);
        let r = by_file_id(files, k);
        if !(p < t.len() && t[p].id == x.id) {
            assert forall|i: int, j: int| 0 <= i < j < r.len() implies (#[trigger] r[i]).id < (
            #[trigger] r[j]).id by {
                if j < p {
                    assert(r[i] == t[i] && r[j] == t[j]);
                } else if j == p {
                    assert(r[i] == t[i] && r[j] == x);
                } else if i < p {
                    assert(r[i] == t[i] && r[j] == t[j - 1]);
                } else if i == p {
                    assert(r[i] == x && r[j] == t[j - 1]);
                    if j - 1 > p {
                        assert(t[p].id < t[j - 1].id);
                    }
                } else {
                    assert(r[i] == t[i - 1] && r[j] == t[j - 1]);
                }
            }
        }
    }
}

/// `ms` is what a sibling may be matched with: what may be read of its name, with the season of its
/// directory where none is known.
pub open spec fn may_match_sibling(path: Seq<char>, ms: Option<Seq<Meta>>) -> bool {
    match ms {
        None => may_read(path, None),
        Some(ms) => exists|parsed: Seq<Meta>|
            may_read(path, Some(parsed)) && ms == #[trigger] filled(parsed, folder_season(path)),
    }
}

/// Reads what the name of a sibling says.
pub fn sibling_metadata(path: &str) -> (r: Option<Vec<Metadata>>)
    requires
        no_nul(path@),
    ensures
        may_match_sibling(path@, opt_metas(r)),
{
    match parse_filename(path) {
        None => None,
        Some(parsed) => {
            let r = fill_seasons(&parsed, season_from_folder(path));
            assert(metas_of(r@) == filled(metas_of(parsed@), folder_season(path@)));
            Some(r)
        },
    }
}

/// `units` may be the siblings of which something can be read, with what they may be matched with.
pub open spec fn may_be_siblings(files: Seq<MediaFile>, units: Seq<WorkUnit>) -> bool
    decreases files.len(),
{
    if files.len() == 0 {
        units.len() == 0
    } else {
        ||| may_match_sibling(files.last().target_file@, None) && may_be_siblings(
            files.drop_last(),
            units,
        )
        ||| units.len() > 0 && units.last().0 == files.last() && may_match_sibling(
            files.last().target_file@,
            Some(metas_of(units.last().1@)),
        ) && may_be_siblings(files.drop_last(), units.drop_last())
    }
}

/// Reads what the names of siblings say; one of which nothing can be said is left out.
pub fn sibling_units(files: &Vec<MediaFile>) -> (r: Vec<WorkUnit>)
    requires
        forall|i: int| 0 <= i < files@.len() ==> no_nul((#[trigger] files@[i]).target_file@),
    ensures
        may_be_siblings(files@, r@),
{
    let mut units: Vec<WorkUnit> = Vec::new();
    let mut i: usize = 0;
    while i < files.len()
        invariant
            0 <= i <= files@.len(),
            forall|i: int| 0 <= i < files@.len() ==> no_nul((#[trigger] files@[i]).target_file@),
            may_be_siblings(files@.take(i as int), units@),
        decreases files@.len() - i,
    {
        let ghost before = units@;
        proof {
            let next = files@.take(i + 1);
            assert(next.drop_last() =~= files@.take(i as int));
            assert(next.last() == files@[i as int]);
        }
        if let Some(ms) = sibling_metadata(files[i].target_file.as_str()) {
            units.push(WorkUnit(copy_file(&files[i]), ms));
            assert(units@.drop_last() =~= before);
        }
        i = i + 1;
    }
    assert(files@.take(i as int) =~= files@);
    units
}

/// What the matching of siblings has come to.
#[derive(Clone, Copy, Debug, PartialEq, Eq, Structural)]
pub enum SiblingStep {
    /// Open a transaction for the sibling at this place.
    Open(usize),
    Match(usize),
    Commit(usize),
    End,
}

/// The matching of the siblings from the `i`th of `n` on, by whether each of the steps so far was done.
pub open spec fn siblings_from(n: int, i: int, done: Seq<bool>, c: int) -> SiblingStep
    decreases n - i,
{
    if i >= n {
        SiblingStep::End
    } else if c >= done.len() {
        SiblingStep::Open(i as usize)
    } else if !done[c] {
        SiblingStep::End
    } else if c + 1 >= done.len() {
        SiblingStep::Match(i as usize)
    } else if c + 2 >= done.len() {
        SiblingStep::Commit(i as usize)
    } else if !done[c + 2] {
        SiblingStep::End
    } else {
        siblings_from(n, i + 1, done, c + 3)
    }
}

/// Goes on with the matching of `n` siblings, each in a transaction of its own. One that cannot be matched
/// does not keep the others from being matched.
pub fn match_siblings(n: usize, done: &Vec<bool>) -> (r: SiblingStep)
    ensures
        r == siblings_from(n as int, 0, done@, 0),
{
    let len: usize = done.len();
    let mut i: usize = 0;
    let mut c: usize = 0;
    while i < n
        invariant
            0 <= i <= n,
            0 <= c <= len == done@.len(),
            siblings_from(n as int, 0, done@, 0) == siblings_from(n as int, i as int, done@, c as int),
        decreases n - i,
    {
        if c >= len {
            return SiblingStep::Open(i);
        }
        if !done[c] {
            return SiblingStep::End;
        }
        if len - c <= 1 {
            return SiblingStep::Match(i);
        }
        if len - c <= 2 {
            return SiblingStep::Commit(i);
        }
        if !done[c + 2] {
            return SiblingStep::End;
        }
        c = c + 3;
        i = i + 1;
    }
    SiblingStep::End
}

/// A new file in the directory of a show of which a file was matched goes with a matched file of the same
/// directory: its show is not guessed anew.
pub proof fn law_new_files_join_their_directory(mappings: Seq<ShowMapping>, path: Seq<char>, i: int)
    requires
        0 <= i < mappings.len(),
        show_dir(path) is Some,
        show_dir(mappings[i].target_file@) == show_dir(path),
    ensures
        sibling_of(mappings, path) is Some,
        0 <= sibling_of(mappings, path)->0 <= i,
        show_dir(mappings[sibling_of(mappings, path)->0].target_file@) == show_dir(path),
{
    lemma_first_in_dir(mappings, show_dir(path)->0, 0, i);
}

/// The first matched file of a directory is not after any other.
proof fn lemma_first_in_dir(mappings: Seq<ShowMapping>, dir: Seq<char>, from: int, i: int)
    requires
        0 <= from <= i < mappings.len(),
        show_dir(mappings[i].target_file@) == Some(dir),
    ensures
        first_in_dir(mappings, dir, from) matches Some(k) && from <= k <= i && show_dir(
            mappings[k].target_file@,
        ) == Some(dir),
    decreases i - from,
{
    if show_dir(mappings[from].target_file@) != Some(dir) {
        lemma_first_in_dir(mappings, dir, from + 1, i);
    }
}

/// How the matching of siblings goes on: each in a transaction of its own, the next one whatever came of
/// matching the one before.
pub open spec fn siblings_go_on(n: int, now: SiblingStep, x: bool, next: SiblingStep) -> bool {
    match now {
        SiblingStep::Open(i) => i < n && next == if x {
            SiblingStep::Match(i)
        } else {
            SiblingStep::End
        },
        SiblingStep::Match(i) => i < n && next == SiblingStep::Commit(i),
        SiblingStep::Commit(i) => i < n && next == if x && i + 1 < n {
            SiblingStep::Open((i + 1) as usize)
        } else {
            SiblingStep::End
        },
        SiblingStep::End => true,
    }
}

/// Every reply takes the matching of siblings on by one step, so that every sibling is matched.
pub proof fn law_every_sibling_is_matched(n: int, i: int, done: Seq<bool>, c: int, x: bool)
    requires
        0 <= i <= n <= usize::MAX,
        0 <= c <= done.len(),
    ensures
        i < n ==> siblings_from(n, i, done.take(c), c) == SiblingStep::Open(i as usize),
        siblings_go_on(n, siblings_from(n, i, done, c), x, siblings_from(n, i, done.push(x), c)),
    decreases n - i,
{
    let more = done.push(x);
    reveal_with_fuel(siblings_from, 2);
    if i < n && c + 2 < done.len() {
        assert(more[c] == done[c] && more[c + 2] == done[c + 2]);
        law_every_sibling_is_matched(n, i + 1, done, c + 3, x);
    } else if c < done.len() {
        assert(more[c] == done[c]);
        if c + 2 == done.len() {
            assert(more[c + 2] == x);
        }
    } else {
        assert(more[c] == x);
    }
}

/// A new file in the directory of a known show goes with that show, under its name and its id; one in another
/// directory does not.
pub proof fn law_new_files_go_with_their_show(
    mappings: Seq<ShowMapping>,
    files: Seq<MediaFile>,
    k: int,
    i: int,
)
    requires
        0 <= i < k <= files.len(),
    ensures
        match sibling_of(mappings, files[i].target_file@) {
            Some(m) => exists|j: int|
                0 <= j < known_files(mappings, files, k).len() && (#[trigger] known_files(mappings, files, k)[j]).file
                    == files[i] && known_files(mappings, files, k)[j].show_name == mappings[m].show_name
                    && known_files(mappings, files, k)[j].show_id == mappings[m].show_id,
            None => unknown_files(mappings, files, k).contains(files[i]),
        },
    decreases k,
{
    let known = known_files(mappings, files, k);
    let before = known_files(mappings, files, k - 1);
    let others = unknown_files(mappings, files, k);
    let fewer = unknown_files(mappings, files, k - 1);
    if i < k - 1 {
        law_new_files_go_with_their_show(mappings, files, k - 1, i);
        match sibling_of(mappings, files[i].target_file@) {
            Some(m) => {
                let j = choose|j: int|
                    0 <= j < before.len() && (#[trigger] before[j]).file == files[i] && before[j].show_name
                        == mappings[m].show_name && before[j].show_id == mappings[m].show_id;
                assert(known[j] == before[j]);
            },
            None => {
                let j = choose|j: int| 0 <= j < fewer.len() && fewer[j] == files[i];
                assert(others[j] == files[i]);
            },
        }
    } else {
        match sibling_of(mappings, files[i].target_file@) {
            Some(m) => {
                assert(known[before.len() as int].file == files[i]);
            },
            None => {
                assert(others[fewer.len() as int] == files[i]);
            },
        }
    }
}

/// A file in the directory of a season, or in one that says nothing, belongs to the directory above; any other
/// to its own.
pub proof fn law_shows_have_a_directory(path: Seq<char>, dir: Seq<char>, name: Seq<char>)
    requires
        parent_of(path) == Some(dir),
        file_name_of(dir) == Some(name),
    ensures
        !generic_name(lowercase(name)) ==> show_dir(path) == Some(dir),
        generic_name(lowercase(name)) ==> show_dir(path) == parent_of(dir),
{
}

/// A show is known by the id of a result only where that result is like its name and none is more like it.
pub proof fn law_shows_are_known_by_the_most_alike(name: Seq<char>, list: Seq<ExternalMedia>)
    ensures
        searched_id(name, None) is None,
        searched_id(name, Some(list)) matches Some(id) ==> exists|b: int|
            0 <= b < list.len() && (#[trigger] list[b]).external_id@ == id && is_match(name, list[b]),
        best_of(name, list, list.len() as int) matches Some(b) ==> (is_match(name, list[b]) ==> searched_id(
            name,
            Some(list),
        ) == Some(list[b].external_id@)),
{
    lemma_best_in(name, list, list.len() as int);
}

/// The result that is most like a name is one of the results.
proof fn lemma_best_in(name: Seq<char>, list: Seq<ExternalMedia>, k: int)
    requires
        0 <= k <= list.len(),
    ensures
        best_of(name, list, k) matches Some(b) ==> 0 <= b < k,
        k > 0 ==> best_of(name, list, k) is Some,
    decreases k,
{
    if k > 0 {
        lemma_best_in(name, list, k - 1);
    }
}

/// The season of a directory is taken where a name says none, and one that is known stays.
pub proof fn law_directories_give_the_season(ms: Seq<Meta>, season: Option<i64>, i: int)
    requires
        0 <= i < ms.len(),
    ensures
        filled(ms, season).len() == ms.len(),
        filled(ms, season)[i].season == (if ms[i].season is Some {
            ms[i].season
        } else {
            season
        }),
        filled(ms, season)[i].episode == ms[i].episode,
        filled(ms, season)[i].name == ms[i].name,
        filled(ms, season)[i].year == ms[i].year,
{
}

/// An episode has an absolute number only where no season is known at all.
pub proof fn law_absolute_numbers_need_no_season(ms: Seq<Meta>, i: int)
    requires
        0 <= i < ms.len(),
    ensures
        ms[i].season is Some ==> absolute_number(ms) is None,
        (forall|j: int| 0 <= j < ms.len() ==> (#[trigger] ms[j]).season is None) && ms[i].episode is Some && (
        forall|j: int| 0 <= j < i ==> (#[trigger] ms[j]).episode is None) ==> absolute_number(ms)
            == ms[i].episode,
{
    if ms[i].season is Some {
        lemma_some_season(ms, i);
    }
    if forall|j: int| 0 <= j < ms.len() ==> (#[trigger] ms[j]).season is None {
        lemma_no_season(ms);
    }
    if ms[i].episode is Some && forall|j: int| 0 <= j < i ==> (#[trigger] ms[j]).episode is None {
        lemma_nth_episode(ms, i);
    }
}

/// A season that is known is found.
proof fn lemma_some_season(ms: Seq<Meta>, i: int)
    requires
        0 <= i < ms.len(),
        ms[i].season is Some,
    ensures
        first_season(ms) is Some,
    decreases ms.len(),
{
    if ms[0].season is None {
        assert(ms.drop_first()[i - 1] == ms[i]);
        lemma_some_season(ms.drop_first(), i - 1);
    }
}

/// Where no season is known none is found.
proof fn lemma_no_season(ms: Seq<Meta>)
    requires
        forall|j: int| 0 <= j < ms.len() ==> (#[trigger] ms[j]).season is None,
    ensures
        first_season(ms) is None,
    decreases ms.len(),
{
    if ms.len() > 0 {
        assert(ms[0].season is None);
        assert forall|j: int| 0 <= j < ms.drop_first().len() implies (#[trigger] ms.drop_first()[j]).season
            is None by {
            assert(ms.drop_first()[j] == ms[j + 1]);
        }
        lemma_no_season(ms.drop_first());
    }
}

/// The first episode that is known is found.
proof fn lemma_nth_episode(ms: Seq<Meta>, i: int)
    requires
        0 <= i < ms.len(),
        ms[i].episode is Some,
        forall|j: int| 0 <= j < i ==> (#[trigger] ms[j]).episode is None,
    ensures
        first_episode(ms) == ms[i].episode,
    decreases ms.len(),
{
    if i > 0 {
        let rest = ms.drop_first();
        assert(ms[0].episode is None);
        assert(rest[i - 1] == ms[i]);
        assert forall|j: int| 0 <= j < i - 1 implies (#[trigger] rest[j]).episode is None by {
            assert(rest[j] == ms[j + 1]);
        }
        lemma_nth_episode(rest, i - 1);
    }
}

/// A number that was resolved takes the place of the absolute one, and leaves the rest as it is.
pub proof fn law_resolved_numbers_are_taken(ms: Seq<Meta>, season: i64, episode: i64, i: int)
    requires
        0 <= i < ms.len(),
    ensures
        renumbered(ms, season, episode).len() == ms.len(),
        renumbered(ms, season, episode)[i].season == Some(season),
        renumbered(ms, season, episode)[i].episode == Some(episode),
        renumbered(ms, season, episode)[i].name == ms[i].name,
        renumbered(ms, season, episode)[i].year == ms[i].year,
{
}

/// A file whose season is known, by its name or by its directory, is matched with that, and nothing is asked.
pub proof fn law_known_seasons_are_not_asked_for(
    path: Seq<char>,
    parsed: Seq<Meta>,
    id: Seq<char>,
    replies: Seq<LookupReply>,
    c: int,
    i: int,
)
    requires
        0 <= i < parsed.len(),
        parsed[i].season is Some || folder_season(path) is Some,
    ensures
        numbering(path, parsed, id, replies, c) == Numbering::Settled(
            filled(parsed, folder_season(path)),
            c,
        ),
{
    let ms = filled(parsed, folder_season(path));
    assert(ms[i].season is Some);
    law_absolute_numbers_need_no_season(ms, i);
}

/// The siblings of a file are looked for in the directory of its show and in its own.
pub proof fn law_siblings_are_looked_for(path: Seq<char>, dir: Seq<char>, own: Seq<char>)
    requires
        show_dir(path) == Some(dir),
        parent_of(path) == Some(own),
    ensures
        searched_dirs(path).contains(dir),
        searched_dirs(path).contains(own),
        forall|d: Seq<char>| #[trigger] searched_dirs(path).contains(d) ==> d == dir || d == own,
{
    let s = searched_dirs(path);
    assert(s[0] == dir);
    if own != dir {
        assert(s[1] == own);
    }
}

/// Every sibling is kept, whatever order the files come in: of the files with an id one is.
pub proof fn law_every_sibling_is_kept(files: Seq<MediaFile>, k: int, i: int)
    requires
        0 <= i < k <= files.len(),
    ensures
        exists|j: int|
            0 <= j < by_file_id(files, k).len() && (#[trigger] by_file_id(files, k)[j]).id == files[i].id,
    decreases k,
{
    let t = by_file_id(files, k - 1);
    let r = by_file_id(files, k);
    let x = files[k - 1];
    let p = id_place(t, x.id, 0);
    lemma_id_in(t, x.id, 0);
    if i < k - 1 {
        law_every_sibling_is_kept(files, k - 1, i);
        let j = choose|j: int| 0 <= j < t.len() && (#[trigger] t[j]).id == files[i].id;
        if p < t.len() && t[p].id == x.id {
            assert(r[j] == t[j]);
        } else if j < p {
            assert(r[j] == t[j]);
        } else {
            assert(r[j + 1] == t[j]);
        }
    } else {
        assert(r[p].id == x.id);
    }
}

/// The place of an id is in the list.
proof fn lemma_id_in(t: Seq<MediaFile>, id: i64, from: int)
    requires
        0 <= from <= t.len(),
    ensures
        from <= id_place(t, id, from) <= t.len(),
    decreases t.len() - from,
{
    if from < t.len() && t[from].id < id {
        lemma_id_in(t, id, from + 1);
    }
}

}
