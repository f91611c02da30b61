//! Imports that webhooks report: the file is found, ingested, matched by the ids of the report, and
//! announced.

use vstd::prelude::*;

use crate::filename::{Meta, Metadata};
use crate::scanner::matcher::is_scannable;
use crate::scanner::parse::metas_of;
use crate::scanner::records::{copy_text, MediaType};
use crate::scanner::smart_scan::text_of;
use crate::scanner::walk::copy_metas;
use crate::text::{cat, cat3, dec, dec_i64, dec_int, dec_padded2, padded};
use crate::webhook::files::Library;
use crate::webhook::payload::Import;

verus! {

/// How often a file is looked for: a network mount can lag behind.
pub const ATTEMPTS: usize = 3;

/// How long it is waited before another look, in milliseconds.
pub const RETRY_MILLIS: u64 = 2000;

/// A number with at least two places.
pub open spec fn two_places(n: int) -> Seq<char> {
    if n >= 0 {
        padded(dec(n as nat), 2)
    } else {
        dec_int(n)
    }
}

/// Writes a number with at least two places.
fn write_two_places(n: i64) -> (r: String)
    ensures
        r@ == two_places(n as int),
{
    if n >= 0 {
        dec_padded2(n as u64)
    } else {
        dec_i64(n)
    }
}

/// The title under which an import is announced: with the episodes of a show, or else with the year.
pub open spec fn announced(
    media_type: MediaType,
    title: Seq<char>,
    year: Option<i64>,
    episodes: Option<(i64, i64, i64)>,
) -> Seq<char> {
    match (media_type, episodes) {
        (MediaType::Tv, Some((season, first, last))) => {
            let start = title + " S"@ + two_places(season as int) + "E"@ + two_places(first as int);
            if first != last {
                start + "-E"@ + two_places(last as int)
            } else {
                start
            }
        },
        _ => match year {
            Some(year) => title + " ("@ + dec_int(year as int) + ")"@,
            None => title,
        },
    }
}

/// Makes the title under which an import is announced.
pub fn display_title(
    media_type: MediaType,
    title: &str,
    year: Option<i64>,
    episodes: Option<(i64, i64, i64)>,
) -> (r: String)
    ensures
        r@ == announced(media_type, title@, year, episodes),
{
    if let MediaType::Tv = media_type {
        if let Some((season, first, last)) = episodes {
            let s = write_two_places(season);
            let e = write_two_places(first);
            let head = cat3(title, " S", s.as_str());
            let start = cat3(head.as_str(), "E", e.as_str());
            if first != last {
                let l = write_two_places(last);
                return cat3(start.as_str(), "-E", l.as_str());
            }
            return start;
        }
    }
    match year {
        Some(year) => {
            let y = dec_i64(year);
            let head = cat3(title, " (", y.as_str());
            cat(head.as_str(), ")")
        },
        None => title.to_string(),
    }
}

/// The provider of the first library with this id from `from` on; "tmdb" where there is none.
pub open spec fn provider_name_of(libraries: Seq<Library>, id: i64, from: int) -> Seq<char>
    decreases libraries.len() - from,
{
    if from < 0 || from >= libraries.len() {
        "tmdb"@
    } else if libraries[from].id == id {
        libraries[from].provider@
    } else {
        provider_name_of(libraries, id, from + 1)
    }
}

/// Finds the provider of a library.
pub fn provider_name(libraries: &Vec<Library>, id: i64) -> (r: String)
    ensures
        r@ == provider_name_of(libraries@, id, 0),
{
    let mut i: usize = 0;
    while i < libraries.len()
        invariant
            0 <= i <= libraries@.len(),
            provider_name_of(libraries@, id, 0) == provider_name_of(libraries@, id, i as int),
        decreases libraries@.len() - i,
    {
        if libraries[i].id == id {
            return libraries[i].provider.clone();
        }
        i = i + 1;
    }
    "tmdb".to_string()
}

/// What the report says of a file: its season and its first episode.
pub open spec fn reported(i: Import) -> Meta {
    Meta {
        name: i.title@,
        year: i.year,
        season: match i.episodes {
            Some((season, _, _)) => Some(season),
            None => None,
        },
        episode: match i.episodes {
            Some((_, first, _)) => Some(first),
            None => None,
        },
        language: None,
    }
}

/// What is known of a file: what the report says, and then what its name says.
pub open spec fn known_of(i: Import, metadata: Seq<Metadata>) -> Seq<Meta> {
    seq![reported(i)] + metas_of(metadata)
}

/// Puts what the report says before what the file's name says: the report is right.
pub fn with_report(import: &Import, metadata: &Vec<Metadata>) -> (r: Vec<Metadata>)
    ensures
        metas_of(r@) == known_of(*import, metadata@),
{
    let (season, episode): (Option<i64>, Option<i64>) = match import.episodes {
        Some((season, first, _)) => (Some(season), Some(first)),
        None => (None, None),
    };
    let m = Metadata {
        name: import.title.clone(),
        year: import.year,
        season,
        episode,
        language: None,
    };
    assert(m@ =~= reported(*import));
    let mut r = copy_metas(metadata);
    let ghost before = metas_of(r@);
    r.insert(0, m);
    assert(metas_of(r@) =~= seq![m@] + before);
    r
}

/// A step of an import, with texts as sequences.
pub enum Act {
    /// Look for the file on disk.
    Resolve,
    /// Wait so many milliseconds before another look.
    Sleep(int),
    /// Ingest the file into a library.
    Insert(i64, Seq<char>),
    /// Take the file as it is in the index already.
    Reindex(Seq<char>),
    /// Open the index for writing.
    Open,
    /// Match a unit to the id at this place.
    TryId(int, int),
    /// Match a unit by its name.
    Fallback(int),
    Commit,
    /// Find out which media item the file has come to.
    Target(Seq<char>),
    /// Announce: title, text, media item, poster.
    Notify(Seq<char>, Option<Seq<char>>, Option<i64>, Option<Seq<char>>),
}

/// A step of an import.
#[derive(Debug)]
pub enum ImportOp {
    /// Look for the file on disk.
    Resolve,
    /// Wait before another look.
    Sleep { millis: u64 },
    /// Ingest the file into a library.
    Insert { library_id: i64, path: String },
    /// Take the file as it is in the index already.
    Reindex { path: String },
    /// Open the index for writing.
    Open,
    /// Match a unit to the id at this place.
    TryId { unit: usize, id: usize },
    /// Match a unit by its name.
    Fallback { unit: usize },
    Commit,
    /// Find out which media item the file has come to.
    Target { path: String },
    Notify {
        title: String,
        body: Option<String>,
        media_id: Option<i64>,
        poster_path: Option<String>,
    },
}

impl ImportOp {
    /// The step.
    pub open spec fn act(self) -> Act {
        match self {
            ImportOp::Resolve => Act::Resolve,
            ImportOp::Sleep { millis } => Act::Sleep(millis as int),
            ImportOp::Insert { library_id, path } => Act::Insert(library_id, path@),
            ImportOp::Reindex { path } => Act::Reindex(path@),
            ImportOp::Open => Act::Open,
            ImportOp::TryId { unit, id } => Act::TryId(unit as int, id as int),
            ImportOp::Fallback { unit } => Act::Fallback(unit as int),
            ImportOp::Commit => Act::Commit,
            ImportOp::Target { path } => Act::Target(path@),
            ImportOp::Notify { title, body, media_id, poster_path } => Act::Notify(
                title@,
                text_of(body),
                media_id,
                text_of(poster_path),
            ),
        }
    }
}

/// What came of a step.
#[derive(Debug)]
pub enum ImportReply {
    Failed,
    Done,
    /// The file is there: its library and its path.
    Resolved(i64, String),
    /// How many units there are to match.
    Units(usize),
    Target { media_id: Option<i64>, poster_path: Option<String> },
}

/// What an import has come to.
pub enum Importing {
    Do(Act),
    End,
}

/// How far the matching of units has come: the next step, or whether any matched, after so many replies.
pub enum Trying {
    Do(Act),
    Past(bool, int),
}

/// The matching from unit `u` and id `k` on: the ids in their order until one works, and the name where
/// none does.
pub open spec fn trying(
    units: int,
    ids: int,
    u: int,
    k: int,
    matched: bool,
    replies: Seq<ImportReply>,
    c: int,
) -> Trying
    decreases replies.len() - c,
{
    if u >= units {
        Trying::Past(matched, c)
    } else if c < 0 || c >= replies.len() {
        Trying::Do(
            if k < ids {
                Act::TryId(u, k)
            } else {
                Act::Fallback(u)
            },
        )
    } else if k < ids {
        if replies[c] is Done {
            trying(units, ids, u + 1, 0, true, replies, c + 1)
        } else {
            trying(units, ids, u, k + 1, matched, replies, c + 1)
        }
    } else {
        trying(units, ids, u + 1, 0, matched || replies[c] is Done, replies, c + 1)
    }
}

/// The announcement of an import.
pub open spec fn announcement(i: Import, media_type: MediaType) -> Seq<char> {
    announced(media_type, i.title@, i.year, i.episodes) + " added"@
}

/// What is said of a file that is not there.
pub open spec fn not_visible(i: Import) -> Seq<char> {
    "File not visible to Dim: "@ + match (i.paths.file, i.paths.relative) {
        (Some(f), _) => f@,
        (None, Some(r)) => r@,
        (None, None) => Seq::empty(),
    }
}

/// The import once there are units to match. They are matched where the index can be opened, and the
/// import is announced where any matched.
pub open spec fn matching(
    i: Import,
    media_type: MediaType,
    path: Seq<char>,
    units: int,
    replies: Seq<ImportReply>,
    c: int,
) -> Importing {
    if c >= replies.len() {
        Importing::Do(Act::Open)
    } else if !(replies[c] is Done) {
        Importing::End
    } else {
        match trying(units, i.external_ids@.len() as int, 0, 0, false, replies, c + 1) {
            Trying::Do(act) => Importing::Do(act),
            Trying::Past(matched, d) => if d >= replies.len() {
                Importing::Do(Act::Commit)
            } else if !(replies[d] is Done) || !matched {
                Importing::End
            } else if d + 1 >= replies.len() {
                Importing::Do(Act::Target(path))
            } else if d + 2 >= replies.len() {
                let (media_id, poster) = match replies[d + 1] {
                    ImportReply::Target { media_id, poster_path } => (media_id, text_of(poster_path)),
                    _ => (None, None),
                };
                Importing::Do(
                    Act::Notify(
                        announcement(i, media_type),
                        text_of(i.episode_title),
                        media_id,
                        poster,
                    ),
                )
            } else {
                Importing::End
            },
        }
    }
}

/// The import once the file is found. A file that is in the index already is matched anew.
pub open spec fn ingesting(
    i: Import,
    media_type: MediaType,
    library: i64,
    path: Seq<char>,
    replies: Seq<ImportReply>,
    c: int,
) -> Importing {
    if c >= replies.len() {
        Importing::Do(Act::Insert(library, path))
    } else {
        match replies[c] {
            ImportReply::Units(n) => if n > 0 {
                matching(i, media_type, path, n as int, replies, c + 1)
            } else if c + 1 >= replies.len() {
                Importing::Do(Act::Reindex(path))
            } else {
                match replies[c + 1] {
                    ImportReply::Units(m) => if m > 0 {
                        matching(i, media_type, path, m as int, replies, c + 2)
                    } else {
                        Importing::End
                    },
                    _ => Importing::End,
                }
            },
            _ => Importing::End,
        }
    }
}

/// The import from attempt `a` on to find the file.
pub open spec fn looking(
    i: Import,
    media_type: MediaType,
    a: int,
    replies: Seq<ImportReply>,
    c: int,
) -> Importing
    decreases 3 - a,
{
    if a >= 3 {
        if c >= replies.len() {
            Importing::Do(
                Act::Notify(announcement(i, media_type), Some(not_visible(i)), None, None),
            )
        } else {
            Importing::End
        }
    } else if a > 0 && c >= replies.len() {
        Importing::Do(Act::Sleep(2000))
    } else {
        let d = if a > 0 {
            c + 1
        } else {
            c
        };
        if d >= replies.len() {
            Importing::Do(Act::Resolve)
        } else {
            match replies[d] {
                ImportReply::Resolved(library, path) => ingesting(
                    i,
                    media_type,
                    library,
                    path@,
                    replies,
                    d + 1,
                ),
                _ => looking(i, media_type, a + 1, replies, d + 1),
            }
        }
    }
}

/// What an import has come to.
#[derive(Debug)]
pub enum ImportStep {
    Do(ImportOp),
    End,
}

/// `step` is the state `i`.
pub open spec fn is_import_step(step: ImportStep, i: Importing) -> bool {
    match (step, i) {
        (ImportStep::Do(op), Importing::Do(act)) => op.act() == act,
        (ImportStep::End, Importing::End) => true,
        _ => false,
    }
}

/// Goes on with the matching of units.
fn try_units(import: &Import, units: usize, replies: &Vec<ImportReply>, c: usize) -> (r: Result<
    (bool, usize),
    ImportOp,
>)
    requires
        c <= replies@.len(),
    ensures
        match (
            r,
            trying(
                units as int,
                import.external_ids@.len() as int,
                0,
                0,
                false,
                replies@,
                c as int,
            ),
        ) {
            (Err(op), Trying::Do(act)) => op.act() == act,
            (Ok((m, d)), Trying::Past(matched, e)) => m == matched && d == e && d <= replies@.len(),
            _ => false,
        },
{
    let ids: usize = import.external_ids.len();
    let len: usize = replies.len();
    let mut u: usize = 0;
    let mut k: usize = 0;
    let mut matched = false;
    let mut at: usize = c;
    while u < units
        invariant
            u <= units,
            k <= ids == import.external_ids@.len(),
            c <= at <= len == replies@.len(),
            trying(units as int, ids as int, 0, 0, false, replies@, c as int) == trying(
                units as int,
                ids as int,
                u as int,
                k as int,
                matched,
                replies@,
                at as int,
            ),
        decreases len - at + (units - u),
    {
        if at >= len {
            return Err(
                if k < ids {
                    ImportOp::TryId { unit: u, id: k }
                } else {
                    ImportOp::Fallback { unit: u }
                },
            );
        }
        let ok = matches!(&replies[at], ImportReply::Done);
        if k < ids {
            if ok {
                matched = true;
                u = u + 1;
                k = 0;
            } else {
                k = k + 1;
            }
        } else {
            matched = matched || ok;
            u = u + 1;
            k = 0;
        }
        at = at + 1;
    }
    Ok((matched, at))
}

/// Goes on with an import once there are units to match.
fn match_units(
    import: &Import,
    media_type: MediaType,
    path: &String,
    units: usize,
    replies: &Vec<ImportReply>,
    c: usize,
) -> (r: ImportStep)
    requires
        c <= replies@.len(),
    ensures
        is_import_step(r, matching(*import, media_type, path@, units as int, replies@, c as int)),
{
    let len: usize = replies.len();
    if c >= len {
        return ImportStep::Do(ImportOp::Open);
    }
    if !matches!(&replies[c], ImportReply::Done) {
        return ImportStep::End;
    }
    let (matched, d): (bool, usize) = match try_units(import, units, replies, c + 1) {
        Err(op) => {
            return ImportStep::Do(op);
        },
        Ok(x) => x,
    };
    if d >= len {
        return ImportStep::Do(ImportOp::Commit);
    }
    if !matches!(&replies[d], ImportReply::Done) || !matched {
        return ImportStep::End;
    }
    if len - d <= 1 {
        return ImportStep::Do(ImportOp::Target { path: path.clone() });
    }
    if len - d > 2 {
        return ImportStep::End;
    }
    let (media_id, poster_path): (Option<i64>, Option<String>) = match &replies[d + 1] {
        ImportReply::Target { media_id, poster_path } => (*media_id, copy_text(poster_path)),
        _ => (None, None),
    };
    let title = announce(import, media_type);
    ImportStep::Do(
        ImportOp::Notify {
            title,
            body: copy_text(&import.episode_title),
            media_id,
            poster_path,
        },
    )
}

/// Makes the announcement of an import.
fn announce(import: &Import, media_type: MediaType) -> (r: String)
    ensures
        r@ == announcement(*import, media_type),
{
    let title = display_title(media_type, import.title.as_str(), import.year, import.episodes);
    cat(title.as_str(), " added")
}

/// Goes on with an import once the file is found.
fn ingest(
    import: &Import,
    media_type: MediaType,
    library: i64,
    path: &String,
    replies: &Vec<ImportReply>,
    c: usize,
) -> (r: ImportStep)
    requires
        c <= replies@.len(),
    ensures
        is_import_step(r, ingesting(*import, media_type, library, path@, replies@, c as int)),
{
    let len: usize = replies.len();
    if c >= len {
        return ImportStep::Do(ImportOp::Insert { library_id: library, path: path.clone() });
    }
    match &replies[c] {
        ImportReply::Units(n) => {
            if *n > 0 {
                return match_units(import, media_type, path, *n, replies, c + 1);
            }
            if c + 1 >= len {
                return ImportStep::Do(ImportOp::Reindex { path: path.clone() });
            }
            match &replies[c + 1] {
                ImportReply::Units(m) => {
                    if *m > 0 {
                        match_units(import, media_type, path, *m, replies, c + 2)
                    } else {
                        ImportStep::End
                    }
                },
                _ => ImportStep::End,
            }
        },
        _ => ImportStep::End,
    }
}

/// Goes on with an import, given the replies so far. A file that was found is matched with the providers
/// for movies or for shows; there are none for anything else.
pub fn process_import(import: &Import, media_type: MediaType, replies: &Vec<ImportReply>) -> (r: ImportStep)
    requires
        is_scannable(media_type) || forall|i: int|
            0 <= i < replies@.len() ==> !((#[trigger] replies@[i]) is Resolved),
    ensures
        is_import_step(r, looking(*import, media_type, 0, replies@, 0)),
{
    let len: usize = replies.len();
    let mut c: usize = 0;
    let mut a: usize = 0;
    while a < ATTEMPTS
        invariant
            a <= 3,
            c <= len == replies@.len(),
            looking(*import, media_type, 0, replies@, 0) == looking(
                *import,
                media_type,
                a as int,
                replies@,
                c as int,
            ),
        decreases 3 - a,
    {
        if a > 0 {
            if c >= len {
                return ImportStep::Do(ImportOp::Sleep { millis: RETRY_MILLIS });
            }
            c = c + 1;
        }
        if c >= len {
            return ImportStep::Do(ImportOp::Resolve);
        }
        if let ImportReply::Resolved(library, path) = &replies[c] {
            return ingest(import, media_type, *library, path, replies, c + 1);
        }
        c = c + 1;
        a = a + 1;
    }
    if c < len {
        return ImportStep::End;
    }
    let empty = String::new();
    let path: &String = match &import.paths.file {
        Some(f) => f,
        None => match &import.paths.relative {
            Some(r) => r,
            None => &empty,
        },
    };
    assert(empty@ =~= Seq::empty());
    let body = cat("File not visible to Dim: ", path.as_str());
    ImportStep::Do(
        ImportOp::Notify {
            title: announce(import, media_type),
            body: Some(body),
            media_id: None,
            poster_path: None,
        },
    )
}

/// A question to the index about where a file has come to.
#[derive(Debug)]
pub enum TargetOp {
    FileByPath(String),
    MediaOfFile(i64),
    SeasonOfEpisode(i64),
    ShowOfSeason(i64),
    Media(i64),
}

/// An answer of the index.
#[derive(Debug)]
pub enum TargetReply {
    Failed,
    Id(i64),
    Media { id: i64, is_episode: bool, poster_path: Option<String> },
}

/// What finding out where a file has come to has come to: the next question, or the media item and its
/// poster.
#[derive(Debug)]
pub enum TargetStep {
    Ask(TargetOp),
    Found(Option<i64>, Option<String>),
}

/// Finding out where a file has come to. An announcement links to the show of an episode, not to the
/// episode.
pub open spec fn targeting(path: String, replies: Seq<TargetReply>) -> TargetStep {
    if replies.len() == 0 {
        TargetStep::Ask(TargetOp::FileByPath(path))
    } else if !(replies[0] is Id) {
        TargetStep::Found(None, None)
    } else if replies.len() == 1 {
        TargetStep::Ask(TargetOp::MediaOfFile(replies[0]->Id_0))
    } else {
        match replies[1] {
            TargetReply::Media { id, is_episode, poster_path } => if !is_episode {
                TargetStep::Found(Some(id), poster_path)
            } else if replies.len() == 2 {
                TargetStep::Ask(TargetOp::SeasonOfEpisode(id))
            } else if !(replies[2] is Id) {
                TargetStep::Found(None, None)
            } else if replies.len() == 3 {
                TargetStep::Ask(TargetOp::ShowOfSeason(replies[2]->Id_0))
            } else if !(replies[3] is Id) {
                TargetStep::Found(None, None)
            } else if replies.len() == 4 {
                TargetStep::Ask(TargetOp::Media(replies[3]->Id_0))
            } else {
                match replies[4] {
                    TargetReply::Media { id, is_episode, poster_path } => TargetStep::Found(
                        Some(id),
                        poster_path,
                    ),
                    _ => TargetStep::Found(None, None),
                }
            },
            _ => TargetStep::Found(None, None),
        }
    }
}

/// Goes on with finding out where a file has come to.
pub fn notification_target(path: &String, replies: &Vec<TargetReply>) -> (r: TargetStep)
    ensures
        r == targeting(*path, replies@),
{
    let n: usize = replies.len();
    if n == 0 {
        return TargetStep::Ask(TargetOp::FileByPath(path.clone()));
    }
    let file: i64 = match &replies[0] {
        TargetReply::Id(id) => *id,
        _ => {
            return TargetStep::Found(None, None);
        },
    };
    if n == 1 {
        return TargetStep::Ask(TargetOp::MediaOfFile(file));
    }
    let episode: i64 = match &replies[1] {
        TargetReply::Media { id, is_episode, poster_path } => {
            if !*is_episode {
                return TargetStep::Found(Some(*id), copy_text(poster_path));
            }
            *id
        },
        _ => {
            return TargetStep::Found(None, None);
        },
    };
    if n == 2 {
        return TargetStep::Ask(TargetOp::SeasonOfEpisode(episode));
    }
    let season: i64 = match &replies[2] {
        TargetReply::Id(id) => *id,
        _ => {
            return TargetStep::Found(None, None);
        },
    };
    if n == 3 {
        return TargetStep::Ask(TargetOp::ShowOfSeason(season));
    }
    let show: i64 = match &replies[3] {
        TargetReply::Id(id) => *id,
        _ => {
            return TargetStep::Found(None, None);
        },
    };
    if n == 4 {
        return TargetStep::Ask(TargetOp::Media(show));
    }
    match &replies[4] {
        TargetReply::Media { id, poster_path, .. } => TargetStep::Found(
            Some(*id),
            copy_text(poster_path),
        ),
        _ => TargetStep::Found(None, None),
    }
}

/// An import whose file is found at no attempt is announced as not visible, after three looks.
pub proof fn law_missing_files_are_announced(i: Import, media_type: MediaType, replies: Seq<ImportReply>)
    requires
        replies.len() == 5,
        forall|k: int| 0 <= k < 5 ==> !(#[trigger] replies[k] is Resolved),
    ensures
        looking(i, media_type, 0, replies, 0) == Importing::Do(
            Act::Notify(announcement(i, media_type), Some(not_visible(i)), None, None),
        ),
{
    reveal_with_fuel(looking, 4);
    assert(!(replies[0] is Resolved));
    assert(!(replies[2] is Resolved));
    assert(!(replies[4] is Resolved));
}

/// A unit is matched by its name only where each of the ids has been refused.
pub proof fn law_ids_come_before_names(
    units: int,
    ids: int,
    replies: Seq<ImportReply>,
    c: int,
    n: int,
)
    requires
        units > 0,
        0 <= n <= ids,
        0 <= c,
        c + n == replies.len(),
        forall|k: int| c <= k < replies.len() ==> !(#[trigger] replies[k] is Done),
    ensures
        trying(units, ids, 0, 0, false, replies, c) == Trying::Do(
            if n < ids {
                Act::TryId(0, n)
            } else {
                Act::Fallback(0)
            },
        ),
{
    lemma_refused(units, ids, 0, replies, c, n);
}

/// Refused ids lead to the next one.
proof fn lemma_refused(units: int, ids: int, k: int, replies: Seq<ImportReply>, c: int, n: int)
    requires
        units > 0,
        0 <= k,
        0 <= n,
        k + n <= ids,
        0 <= c,
        c + n == replies.len(),
        forall|k: int| c <= k < replies.len() ==> !(#[trigger] replies[k] is Done),
    ensures
        trying(units, ids, 0, k, false, replies, c) == Trying::Do(
            if k + n < ids {
                Act::TryId(0, k + n)
            } else {
                Act::Fallback(0)
            },
        ),
    decreases n,
{
    if n > 0 {
        assert(!(replies[c] is Done));
        lemma_refused(units, ids, k + 1, replies, c + 1, n - 1);
    }
}

/// What is tried first for a unit: the first id, or the name where there are no ids.
pub open spec fn first_try(ids: int, u: int) -> Act {
    if ids > 0 {
        Act::TryId(u, 0)
    } else {
        Act::Fallback(u)
    }
}

/// What is tried after another reply.
proof fn lemma_trying_goes_on(
    units: int,
    ids: int,
    u: int,
    k: int,
    matched: bool,
    replies: Seq<ImportReply>,
    c: int,
    x: ImportReply,
)
    requires
        0 <= c <= replies.len(),
        0 <= u <= units,
        0 <= k <= ids,
    ensures
        trying(units, ids, u, k, matched, replies, c) matches Trying::Past(m, d) ==> c <= d
            <= replies.len() && trying(units, ids, u, k, matched, replies.push(x), c) == Trying::Past(m, d)
            && (m <==> matched || exists|j: int| c <= j < d && #[trigger] replies[j] is Done),
        trying(units, ids, u, k, matched, replies, c) matches Trying::Do(act) ==> {
            let next = trying(units, ids, u, k, matched, replies.push(x), c);
            match act {
                Act::TryId(v, j) => {
                    &&& u <= v < units
                    &&& 0 <= j < ids
                    &&& !(x is Done) && j + 1 < ids ==> next == Trying::Do(Act::TryId(v, j + 1))
                    &&& !(x is Done) && j + 1 == ids ==> next == Trying::Do(Act::Fallback(v))
                    &&& x is Done && v + 1 < units ==> next == Trying::Do(first_try(ids, v + 1))
                    &&& x is Done && v + 1 == units ==> next is Past
                },
                Act::Fallback(v) => {
                    &&& u <= v < units
                    &&& v + 1 < units ==> next == Trying::Do(first_try(ids, v + 1))
                    &&& v + 1 == units ==> next is Past
                },
                _ => false,
            }
        },
    decreases replies.len() - c,
{
    let more = replies.push(x);
    if u < units {
        if c >= replies.len() {
            reveal_with_fuel(trying, 2);
            assert(more[c] == x);
        } else {
            assert(more[c] == replies[c]);
            if k < ids {
                if replies[c] is Done {
                    lemma_trying_goes_on(units, ids, u + 1, 0, true, replies, c + 1, x);
                } else {
                    lemma_trying_goes_on(units, ids, u, k + 1, matched, replies, c + 1, x);
                }
            } else {
                lemma_trying_goes_on(
                    units,
                    ids,
                    u + 1,
                    0,
                    matched || replies[c] is Done,
                    replies,
                    c + 1,
                    x,
                );
            }
        }
    }
}

/// An import goes on step by step. The file is looked for, and again after two seconds where it is not there;
/// it is ingested where it was found, or taken out of the index where it is there already; the index is opened;
/// each unit is matched to the ids in their order, and by its name where none fits; and after the commit it is
/// found out which media item the file has come to, and that is announced.
pub open spec fn import_goes_on(
    i: Import,
    media_type: MediaType,
    now: Importing,
    x: ImportReply,
    next: Importing,
) -> bool {
    let ids = i.external_ids@.len() as int;
    match now {
        Importing::End => true,
        Importing::Do(act) => match act {
            Act::Resolve => match x {
                ImportReply::Resolved(library, path) => next == Importing::Do(Act::Insert(library, path@)),
                _ => next == Importing::Do(Act::Sleep(2000)) || next == Importing::Do(
                    Act::Notify(announcement(i, media_type), Some(not_visible(i)), None, None),
                ),
            },
            Act::Sleep(_) => next == Importing::Do(Act::Resolve),
            Act::Insert(_, path) => match x {
                ImportReply::Units(n) => next == Importing::Do(
                    if n > 0 {
                        Act::Open
                    } else {
                        Act::Reindex(path)
                    },
                ),
                _ => next is End,
            },
            Act::Reindex(_) => match x {
                ImportReply::Units(n) => if n > 0 {
                    next == Importing::Do(Act::Open)
                } else {
                    next is End
                },
                _ => next is End,
            },
            Act::Open => if x is Done {
                next == Importing::Do(first_try(ids, 0))
            } else {
                next is End
            },
            Act::TryId(u, k) => if x is Done {
                next == Importing::Do(Act::Commit) || next == Importing::Do(first_try(ids, u + 1))
            } else if k + 1 < ids {
                next == Importing::Do(Act::TryId(u, k + 1))
            } else {
                next == Importing::Do(Act::Fallback(u))
            },
            Act::Fallback(u) => next == Importing::Do(Act::Commit) || next == Importing::Do(
                first_try(ids, u + 1),
            ),
            Act::Commit => if x is Done {
                next is End || next matches Importing::Do(Act::Target(_))
            } else {
                next is End
            },
            Act::Target(_) => {
                let (media_id, poster) = match x {
                    ImportReply::Target { media_id, poster_path } => (media_id, text_of(poster_path)),
                    _ => (None, None),
                };
                next == Importing::Do(
                    Act::Notify(
                        announcement(i, media_type),
                        text_of(i.episode_title),
                        media_id,
                        poster,
                    ),
                )
            },
            Act::Notify(_, _, _, _) => next is End,
        },
    }
}

/// The matching of an import goes on step by step.
proof fn lemma_matching_goes_on(
    i: Import,
    media_type: MediaType,
    path: Seq<char>,
    units: int,
    replies: Seq<ImportReply>,
    c: int,
    x: ImportReply,
)
    requires
        0 <= c <= replies.len(),
        units > 0,
    ensures
        import_goes_on(
            i,
            media_type,
            matching(i, media_type, path, units, replies, c),
            x,
            matching(i, media_type, path, units, replies.push(x), c),
        ),
{
    let more = replies.push(x);
    let ids = i.external_ids@.len() as int;
    if c >= replies.len() {
        assert(more[c] == x);
        reveal_with_fuel(trying, 2);
    } else {
        assert(more[c] == replies[c]);
        if replies[c] is Done {
            lemma_trying_goes_on(units, ids, 0, 0, false, replies, c + 1, x);
            let t = trying(units, ids, 0, 0, false, replies, c + 1);
            let n = trying(units, ids, 0, 0, false, more, c + 1);
            if let Trying::Past(m, d) = t {
                if d == replies.len() {
                    assert(more[d] == x);
                } else {
                    assert(more[d] == replies[d]);
                    if d + 1 == replies.len() {
                        assert(more[d + 1] == x);
                    } else {
                        assert(more[d + 1] == replies[d + 1]);
                    }
                }
            } else {
                if n is Past {
                    lemma_trying_goes_on(units, ids, 0, 0, false, more, c + 1, x);
                    lemma_past_is_late(units, ids, 0, 0, false, replies, c + 1, x);
                }
            }
        }
    }
}

/// Where another reply ends the matching, it is the last reply that counts for it.
proof fn lemma_past_is_late(
    units: int,
    ids: int,
    u: int,
    k: int,
    matched: bool,
    replies: Seq<ImportReply>,
    c: int,
    x: ImportReply,
)
    requires
        0 <= c <= replies.len(),
        0 <= u <= units,
        0 <= k <= ids,
        trying(units, ids, u, k, matched, replies, c) is Do,
        trying(units, ids, u, k, matched, replies.push(x), c) is Past,
    ensures
        trying(units, ids, u, k, matched, replies.push(x), c)->Past_1 == replies.len() + 1,
    decreases replies.len() - c,
{
    let more = replies.push(x);
    if c >= replies.len() {
        reveal_with_fuel(trying, 2);
    } else {
        assert(more[c] == replies[c]);
        if k < ids {
            if replies[c] is Done {
                lemma_past_is_late(units, ids, u + 1, 0, true, replies, c + 1, x);
            } else {
                lemma_past_is_late(units, ids, u, k + 1, matched, replies, c + 1, x);
            }
        } else {
            lemma_past_is_late(units, ids, u + 1, 0, matched || replies[c] is Done, replies, c + 1, x);
        }
    }
}

/// The ingestion of an import goes on step by step.
proof fn lemma_ingesting_goes_on(
    i: Import,
    media_type: MediaType,
    library: i64,
    path: Seq<char>,
    replies: Seq<ImportReply>,
    c: int,
    x: ImportReply,
)
    requires
        0 <= c <= replies.len(),
    ensures
        import_goes_on(
            i,
            media_type,
            ingesting(i, media_type, library, path, replies, c),
            x,
            ingesting(i, media_type, library, path, replies.push(x), c),
        ),
{
    let more = replies.push(x);
    if c >= replies.len() {
        assert(more[c] == x);
    } else {
        assert(more[c] == replies[c]);
        if let ImportReply::Units(n) = replies[c] {
            if n > 0 {
                lemma_matching_goes_on(i, media_type, path, n as int, replies, c + 1, x);
            } else if c + 1 >= replies.len() {
                assert(more[c + 1] == x);
            } else {
                assert(more[c + 1] == replies[c + 1]);
                if let ImportReply::Units(m) = replies[c + 1] {
                    if m > 0 {
                        lemma_matching_goes_on(i, media_type, path, m as int, replies, c + 2, x);
                    }
                }
            }
        }
    }
}

/// The search for the file of an import goes on step by step.
proof fn lemma_looking_goes_on(
    i: Import,
    media_type: MediaType,
    a: int,
    replies: Seq<ImportReply>,
    c: int,
    x: ImportReply,
)
    requires
        0 <= a <= 3,
        0 <= c <= replies.len(),
    ensures
        import_goes_on(
            i,
            media_type,
            looking(i, media_type, a, replies, c),
            x,
            looking(i, media_type, a, replies.push(x), c),
        ),
    decreases 3 - a,
{
    let more = replies.push(x);
    if a < 3 && !(a > 0 && c >= replies.len()) {
        let d = if a > 0 {
            c + 1
        } else {
            c
        };
        if d >= replies.len() {
            assert(more[d] == x);
            reveal_with_fuel(looking, 2);
        } else {
            assert(more[d] == replies[d]);
            if let ImportReply::Resolved(library, path) = replies[d] {
                lemma_ingesting_goes_on(i, media_type, library, path@, replies, d + 1, x);
            } else {
                lemma_looking_goes_on(i, media_type, a + 1, replies, d + 1, x);
            }
        }
    }
}

/// An import begins by looking for the file, and every reply takes it on by one step.
pub proof fn law_imports_go_on(
    i: Import,
    media_type: MediaType,
    replies: Seq<ImportReply>,
    x: ImportReply,
)
    ensures
        looking(i, media_type, 0, Seq::empty(), 0) == Importing::Do(Act::Resolve),
        import_goes_on(
            i,
            media_type,
            looking(i, media_type, 0, replies, 0),
            x,
            looking(i, media_type, 0, replies.push(x), 0),
        ),
{
    lemma_looking_goes_on(i, media_type, 0, replies, 0, x);
}

/// An import is announced exactly where a unit was matched, by an id or by its name, and the commit was done.
pub proof fn law_matched_imports_are_announced(
    i: Import,
    media_type: MediaType,
    path: Seq<char>,
    units: int,
    replies: Seq<ImportReply>,
    c: int,
    d: int,
)
    requires
        0 <= c < d < replies.len(),
        units > 0,
        matching(i, media_type, path, units, replies.take(d), c) == Importing::Do(Act::Commit),
        replies.len() == d + 1,
    ensures
        matching(i, media_type, path, units, replies, c) == (if replies[d] is Done && exists|j: int|
            c < j < d && #[trigger] replies[j] is Done {
            Importing::Do(Act::Target(path))
        } else {
            Importing::End
        }),
{
    let before = replies.take(d);
    let ids = i.external_ids@.len() as int;
    assert(before.push(replies[d]) =~= replies);
    assert(before[c] == replies[c]);
    lemma_trying_goes_on(units, ids, 0, 0, false, before, c + 1, replies[d]);
    let t = trying(units, ids, 0, 0, false, before, c + 1);
    assert(t is Past && t->Past_1 == d);
    if exists|j: int| c < j < d && #[trigger] replies[j] is Done {
        let j = choose|j: int| c < j < d && #[trigger] replies[j] is Done;
        assert(before[j] == replies[j]);
    }
    if exists|j: int| c + 1 <= j < d && #[trigger] before[j] is Done {
        let j = choose|j: int| c + 1 <= j < d && #[trigger] before[j] is Done;
        assert(replies[j] == before[j]);
    }
}

/// The announcement of a show names its episodes, with two places each; that of anything else, or without
/// episodes, names the year.
pub proof fn law_announcements_name_the_episodes(title: Seq<char>, year: Option<i64>, e: (i64, i64, i64))
    ensures
        e.1 == e.2 ==> announced(MediaType::Tv, title, year, Some(e)) == title + " S"@ + two_places(
            e.0 as int,
        ) + "E"@ + two_places(e.1 as int),
        e.1 != e.2 ==> announced(MediaType::Tv, title, year, Some(e)) == title + " S"@ + two_places(
            e.0 as int,
        ) + "E"@ + two_places(e.1 as int) + "-E"@ + two_places(e.2 as int),
        year matches Some(y) ==> announced(MediaType::Movie, title, year, Some(e)) == title + " ("@
            + dec_int(y as int) + ")"@ && announced(MediaType::Tv, title, year, None) == title + " ("@
            + dec_int(y as int) + ")"@,
        announced(MediaType::Movie, title, None, Some(e)) == title,
{
}

/// The provider that is asked is that of the library.
pub proof fn law_libraries_have_their_provider(libraries: Seq<Library>, id: i64, i: int, from: int)
    requires
        0 <= from <= i < libraries.len(),
        libraries[i].id == id,
        forall|j: int| from <= j < i ==> (#[trigger] libraries[j]).id != id,
    ensures
        provider_name_of(libraries, id, from) == libraries[i].provider@,
    decreases i - from,
{
    if from < i {
        law_libraries_have_their_provider(libraries, id, i, from + 1);
    }
}

/// An announcement links to the movie of a file, or to the show of its episode.
pub proof fn law_announcements_link_to_the_show(
    path: String,
    file: i64,
    id: i64,
    season: i64,
    show: i64,
    poster: Option<String>,
    still: Option<String>,
)
    ensures
        targeting(path, Seq::empty()) == TargetStep::Ask(TargetOp::FileByPath(path)),
        targeting(path, seq![TargetReply::Id(file)]) == TargetStep::Ask(TargetOp::MediaOfFile(file)),
        targeting(
            path,
            seq![
                TargetReply::Id(file),
                (TargetReply::Media { id, is_episode: false, poster_path: poster }),
            ],
        ) == TargetStep::Found(Some(id), poster),
        ({
            let known = seq![
                TargetReply::Id(file),
                (TargetReply::Media { id, is_episode: true, poster_path: still }),
            ];
            let found = known.push(TargetReply::Id(season)).push(TargetReply::Id(show));
            &&& targeting(path, known) == TargetStep::Ask(TargetOp::SeasonOfEpisode(id))
            &&& targeting(path, known.push(TargetReply::Id(season))) == TargetStep::Ask(
                TargetOp::ShowOfSeason(season),
            )
            &&& targeting(path, found) == TargetStep::Ask(TargetOp::Media(show))
            &&& targeting(
                path,
                found.push((TargetReply::Media { id: show, is_episode: false, poster_path: poster })),
            ) == TargetStep::Found(Some(show), poster)
        }),
{
}

/// What a report says is looked up first: the title, the year and, of the episodes, the season and the first
/// number. What the file's name says comes after it, in its order.
pub proof fn law_reports_come_first(i: Import, metadata: Seq<Metadata>)
    ensures
        ({
            let all = known_of(i, metadata);
            &&& all.len() == metas_of(metadata).len() + 1
            &&& all.skip(1) == metas_of(metadata)
            &&& all[0].name == i.title@ && all[0].year == i.year && all[0].language is None
            &&& i.episodes matches Some(e) ==> all[0].season == Some(e.0) && all[0].episode == Some(e.1)
            &&& i.episodes is None ==> all[0].season is None && all[0].episode is None
        }),
{
    assert(known_of(i, metadata).skip(1) =~= metas_of(metadata));
}

/// The message on a file that cannot be seen ends with the path that was reported, the full one where there
/// is one.
pub proof fn law_unseen_files_are_named(i: Import)
    ensures
        ({
            let m = not_visible(i);
            let n = "File not visible to Dim: "@.len() as int;
            &&& n <= m.len() && m.take(n) == "File not visible to Dim: "@
            &&& i.paths.file matches Some(f) ==> m.skip(n) == f@
            &&& i.paths.file is None && i.paths.relative is Some ==> m.skip(n) == i.paths.relative->0@
            &&& i.paths.file is None && i.paths.relative is None ==> m.len() == n
        }),
{
    let h = "File not visible to Dim: "@;
    let m = not_visible(i);
    assert(m.take(h.len() as int) =~= h);
    if let Some(f) = i.paths.file {
        assert(m.skip(h.len() as int) =~= f@);
    } else if let Some(r) = i.paths.relative {
        assert(m.skip(h.len() as int) =~= r@);
    }
}

}
