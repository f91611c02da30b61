//! What the webhooks of Sonarr and Radarr say.

use vstd::prelude::*;

use crate::scanner::records::{copy_text, MediaType};
use crate::status::Status;
use crate::text::{cat, dec_i64, dec_int, same, views};

verus! {

/// What Sonarr reports.
#[derive(Debug)]
pub struct SonarrPayload {
    pub event_type: String,
    pub series: Option<SonarrSeries>,
    pub episodes: Vec<SonarrEpisode>,
    pub episode_file: Option<ArrFile>,
    pub renamed_episode_files: Vec<ArrRenamedFile>,
}

/// A series of Sonarr.
#[derive(Debug)]
pub struct SonarrSeries {
    pub title: String,
    pub path: Option<String>,
    pub year: Option<i64>,
    pub tvdb_id: Option<i64>,
    pub tmdb_id: Option<i64>,
    pub imdb_id: Option<String>,
}

/// An episode of Sonarr.
#[derive(Debug)]
pub struct SonarrEpisode {
    pub season_number: i64,
    pub episode_number: i64,
    pub title: Option<String>,
}

/// What Radarr reports.
#[derive(Debug)]
pub struct RadarrPayload {
    pub event_type: String,
    pub movie: Option<RadarrMovie>,
    pub movie_file: Option<ArrFile>,
    pub renamed_movie_files: Vec<ArrRenamedFile>,
}

/// A movie of Radarr.
#[derive(Debug)]
pub struct RadarrMovie {
    pub title: String,
    pub year: Option<i64>,
    pub folder_path: Option<String>,
    pub tmdb_id: Option<i64>,
    pub imdb_id: Option<String>,
}

/// A file of either.
#[derive(Debug)]
pub struct ArrFile {
    pub path: Option<String>,
    pub relative_path: Option<String>,
}

/// A file that was renamed.
#[derive(Debug)]
pub struct ArrRenamedFile {
    pub previous_path: Option<String>,
    pub previous_relative_path: Option<String>,
    pub relative_path: Option<String>,
}

/// Paths as they are reported: the file, the folder of the series or movie, and the path of the file in
/// it.
#[derive(Debug)]
pub struct ArrPaths {
    pub file: Option<String>,
    pub folder: Option<String>,
    pub relative: Option<String>,
}

/// An import.
#[derive(Debug)]
pub struct Import {
    pub title: String,
    pub year: Option<i64>,
    /// Season, first and last episode, for shows.
    pub episodes: Option<(i64, i64, i64)>,
    pub episode_title: Option<String>,
    /// Ids with their schemes, the preferred first.
    pub external_ids: Vec<String>,
    pub paths: ArrPaths,
}

/// What has happened.
#[derive(Debug)]
pub enum ArrEvent {
    Test,
    Ignored,
    Import(Import),
    FileDelete { paths: ArrPaths },
    Rename { folder: Option<String>, files: Vec<ArrRenamedFile> },
    MediaDelete { folder: Option<String> },
}

/// A positive number under a scheme, if there is one.
pub open spec fn numbered_id(scheme: Seq<char>, id: Option<i64>) -> Seq<Seq<char>> {
    match id {
        Some(n) => if n > 0 {
            seq![scheme + dec_int(n as int)]
        } else {
            Seq::empty()
        },
        None => Seq::empty(),
    }
}

/// A text that is not empty under a scheme, if there is one.
pub open spec fn named_id(scheme: Seq<char>, id: Option<String>) -> Seq<Seq<char>> {
    match id {
        Some(s) => if s@.len() > 0 {
            seq![scheme + s@]
        } else {
            Seq::empty()
        },
        None => Seq::empty(),
    }
}

/// The ids of a series.
pub open spec fn series_ids(s: SonarrSeries) -> Seq<Seq<char>> {
    numbered_id("tmdb:"@, s.tmdb_id) + numbered_id("tvdb:"@, s.tvdb_id) + named_id(
        "imdb:"@,
        s.imdb_id,
    )
}

/// The ids of a movie.
pub open spec fn movie_ids(m: RadarrMovie) -> Seq<Seq<char>> {
    numbered_id("tmdb:"@, m.tmdb_id) + named_id("imdb:"@, m.imdb_id)
}

/// The season of the first episode, its number, and that of the last.
pub open spec fn episode_span(eps: Seq<SonarrEpisode>) -> Option<(i64, i64, i64)> {
    if eps.len() == 0 {
        None
    } else {
        Some((eps[0].season_number, eps[0].episode_number, eps.last().episode_number))
    }
}

/// The paths of a file in a folder.
pub open spec fn are_paths(p: ArrPaths, file: Option<ArrFile>, folder: Option<String>) -> bool {
    &&& p.folder == folder
    &&& match file {
        Some(f) => p.file == f.path && p.relative == f.relative_path,
        None => p.file is None && p.relative is None,
    }
}

/// The folder of a series.
pub open spec fn series_folder(s: Option<SonarrSeries>) -> Option<String> {
    match s {
        Some(s) => s.path,
        None => None,
    }
}

/// The folder of a movie.
pub open spec fn movie_folder(m: Option<RadarrMovie>) -> Option<String> {
    match m {
        Some(m) => m.folder_path,
        None => None,
    }
}

/// Adds a positive number under a scheme.
fn add_numbered(ids: &mut Vec<String>, scheme: &str, id: Option<i64>)
    ensures
        views(final(ids)@) == views(old(ids)@) + numbered_id(scheme@, id),
{
    let ghost before = views(ids@);
    if let Some(n) = id {
        if n > 0 {
            let digits = dec_i64(n);
            ids.push(cat(scheme, digits.as_str()));
        }
    }
    assert(views(ids@) =~= before + numbered_id(scheme@, id));
}

/// Adds a text under a scheme.
fn add_named(ids: &mut Vec<String>, scheme: &str, id: &Option<String>)
    ensures
        views(final(ids)@) == views(old(ids)@) + named_id(scheme@, *id),
{
    let ghost before = views(ids@);
    if let Some(s) = id {
        proof {
            reveal_strlit("");
            if s@.len() == 0 {
                assert(s@ =~= ""@);
            }
        }
        if !same(s.as_str(), "") {
            ids.push(cat(scheme, s.as_str()));
        }
    }
    assert(views(ids@) =~= before + named_id(scheme@, *id));
}

/// The paths of a file in a folder.
fn paths_of(file: &Option<ArrFile>, folder: Option<String>) -> (r: ArrPaths)
    ensures
        are_paths(r, *file, folder),
{
    match file {
        Some(f) => ArrPaths {
            file: copy_text(&f.path),
            folder,
            relative: copy_text(&f.relative_path),
        },
        None => ArrPaths { file: None, folder, relative: None },
    }
}

/// `r` is what a report of Sonarr means.
pub open spec fn sonarr_means(p: SonarrPayload, r: Result<ArrEvent, Status>) -> bool {
    let t = p.event_type@;
    let folder = series_folder(p.series);
    if t == "Test"@ {
        r matches Ok(ArrEvent::Test)
    } else if t == "Download"@ || t == "EpisodeFileImported"@ {
        match p.series {
            None => r == Err::<ArrEvent, Status>(Status::BadRequest),
            Some(s) => r matches Ok(ArrEvent::Import(i)) && i.title == s.title && i.year == s.year
                && i.episodes == episode_span(p.episodes@) && i.episode_title == (
            if p.episodes@.len() > 0 {
                p.episodes@[0].title
            } else {
                None
            }) && views(i.external_ids@) == series_ids(s) && are_paths(
                i.paths,
                p.episode_file,
                folder,
            ),
        }
    } else if t == "EpisodeFileDelete"@ {
        r matches Ok(ArrEvent::FileDelete { paths }) && are_paths(paths, p.episode_file, folder)
    } else if t == "SeriesDelete"@ {
        r == Ok::<ArrEvent, Status>(ArrEvent::MediaDelete { folder })
    } else if t == "Rename"@ {
        r == Ok::<ArrEvent, Status>(ArrEvent::Rename { folder, files: p.renamed_episode_files })
    } else {
        r matches Ok(ArrEvent::Ignored)
    }
}

/// Works out what a report of Sonarr means.
pub fn normalize_sonarr(payload: SonarrPayload) -> (r: Result<ArrEvent, Status>)
    ensures
        sonarr_means(payload, r),
{
    let folder: Option<String> = match &payload.series {
        Some(s) => copy_text(&s.path),
        None => None,
    };
    let t = payload.event_type.as_str();
    if same(t, "Test") {
        Ok(ArrEvent::Test)
    } else if same(t, "Download") || same(t, "EpisodeFileImported") {
        match &payload.series {
            None => Err(Status::BadRequest),
            Some(s) => {
                let mut external_ids: Vec<String> = Vec::new();
                assert(views(external_ids@) =~= Seq::empty());
                add_numbered(&mut external_ids, "tmdb:", s.tmdb_id);
                add_numbered(&mut external_ids, "tvdb:", s.tvdb_id);
                add_named(&mut external_ids, "imdb:", &s.imdb_id);
                assert(views(external_ids@) =~= series_ids(*s));
                let n: usize = payload.episodes.len();
                let episodes: Option<(i64, i64, i64)> = if n == 0 {
                    None
                } else {
                    Some(
                        (
                            payload.episodes[0].season_number,
                            payload.episodes[0].episode_number,
                            payload.episodes[n - 1].episode_number,
                        ),
                    )
                };
                let episode_title: Option<String> = if n == 0 {
                    None
                } else {
                    copy_text(&payload.episodes[0].title)
                };
                Ok(
                    ArrEvent::Import(
                        Import {
                            title: s.title.clone(),
                            year: s.year,
                            episodes,
                            episode_title,
                            external_ids,
                            paths: paths_of(&payload.episode_file, folder),
                        },
                    ),
                )
            },
        }
    } else if same(t, "EpisodeFileDelete") {
        Ok(ArrEvent::FileDelete { paths: paths_of(&payload.episode_file, folder) })
    } else if same(t, "SeriesDelete") {
        Ok(ArrEvent::MediaDelete { folder })
    } else if same(t, "Rename") {
        Ok(ArrEvent::Rename { folder, files: payload.renamed_episode_files })
    } else {
        Ok(ArrEvent::Ignored)
    }
}

/// `r` is what a report of Radarr means.
pub open spec fn radarr_means(p: RadarrPayload, r: Result<ArrEvent, Status>) -> bool {
    let t = p.event_type@;
    let folder = movie_folder(p.movie);
    if t == "Test"@ {
        r matches Ok(ArrEvent::Test)
    } else if t == "Download"@ || t == "MovieFileImported"@ {
        match p.movie {
            None => r == Err::<ArrEvent, Status>(Status::BadRequest),
            Some(m) => r matches Ok(ArrEvent::Import(i)) && i.title == m.title && i.year == m.year
                && i.episodes is None && i.episode_title is None && views(i.external_ids@)
                == movie_ids(m) && are_paths(i.paths, p.movie_file, folder),
        }
    } else if t == "MovieFileDelete"@ {
        r matches Ok(ArrEvent::FileDelete { paths }) && are_paths(paths, p.movie_file, folder)
    } else if t == "MovieDelete"@ {
        r == Ok::<ArrEvent, Status>(ArrEvent::MediaDelete { folder })
    } else if t == "Rename"@ {
        r == Ok::<ArrEvent, Status>(ArrEvent::Rename { folder, files: p.renamed_movie_files })
    } else {
        r matches Ok(ArrEvent::Ignored)
    }
}

/// Works out what a report of Radarr means.
pub fn normalize_radarr(payload: RadarrPayload) -> (r: Result<ArrEvent, Status>)
    ensures
        radarr_means(payload, r),
{
    let folder: Option<String> = match &payload.movie {
        Some(m) => copy_text(&m.folder_path),
        None => None,
    };
    let t = payload.event_type.as_str();
    if same(t, "Test") {
        Ok(ArrEvent::Test)
    } else if same(t, "Download") || same(t, "MovieFileImported") {
        match &payload.movie {
            None => Err(Status::BadRequest),
            Some(m) => {
                let mut external_ids: Vec<String> = Vec::new();
                assert(views(external_ids@) =~= Seq::empty());
                add_numbered(&mut external_ids, "tmdb:", m.tmdb_id);
                add_named(&mut external_ids, "imdb:", &m.imdb_id);
                assert(views(external_ids@) =~= movie_ids(*m));
                Ok(
                    ArrEvent::Import(
                        Import {
                            title: m.title.clone(),
                            year: m.year,
                            episodes: None,
                            episode_title: None,
                            external_ids,
                            paths: paths_of(&payload.movie_file, folder),
                        },
                    ),
                )
            },
        }
    } else if same(t, "MovieFileDelete") {
        Ok(ArrEvent::FileDelete { paths: paths_of(&payload.movie_file, folder) })
    } else if same(t, "MovieDelete") {
        Ok(ArrEvent::MediaDelete { folder })
    } else if same(t, "Rename") {
        Ok(ArrEvent::Rename { folder, files: payload.renamed_movie_files })
    } else {
        Ok(ArrEvent::Ignored)
    }
}

/// The query of a webhook's address.
#[derive(Debug)]
pub struct WebhookQuery {
    pub apikey: String,
}

/// Tells which application calls, or why its call is refused: the key must be the one that is set, and
/// none is accepted where none is set.
pub fn receive_webhook(source: &str, query: &WebhookQuery, api_key: &str) -> (r: Result<MediaType, Status>)
    ensures
        r == if api_key@.len() == 0 || query.apikey@ != api_key@ {
            Err::<MediaType, Status>(Status::Unauthorized)
        } else if source@ == "sonarr"@ {
            Ok(MediaType::Tv)
        } else if source@ == "radarr"@ {
            Ok(MediaType::Movie)
        } else {
            Err(Status::NotFound)
        },
{
    proof {
        reveal_strlit("");
        if api_key@.len() == 0 {
            assert(api_key@ =~= ""@);
        }
    }
    if same(api_key, "") || !same(query.apikey.as_str(), api_key) {
        return Err(Status::Unauthorized);
    }
    if same(source, "sonarr") {
        Ok(MediaType::Tv)
    } else if same(source, "radarr") {
        Ok(MediaType::Movie)
    } else {
        Err(Status::NotFound)
    }
}

/// The status that an event is answered with: work is done after the answer.
pub fn answer_to(event: &ArrEvent) -> (r: Status)
    ensures
        r == if *event is Test || *event is Ignored {
            Status::Success
        } else {
            Status::Accepted
        },
{
    match event {
        ArrEvent::Test => Status::Success,
        ArrEvent::Ignored => Status::Success,
        _ => Status::Accepted,
    }
}

/// A report of Radarr removes a movie if and only if it says that a movie was deleted, and then the folder
/// is that of the movie.
pub proof fn law_radarr_deletes_only_what_was_deleted(p: RadarrPayload, r: Result<ArrEvent, Status>)
    requires
        radarr_means(p, r),
    ensures
        (r matches Ok(e) && e is MediaDelete) <==> p.event_type@ == "MovieDelete"@,
        r matches Ok(ArrEvent::MediaDelete { folder }) ==> folder == (match p.movie {
            Some(m) => m.folder_path,
            None => None,
        }),
        (r matches Ok(e) && e is FileDelete) <==> p.event_type@ == "MovieFileDelete"@,
        r matches Ok(ArrEvent::FileDelete { paths }) ==> paths.file == (match p.movie_file {
            Some(f) => f.path,
            None => None,
        }) && paths.relative == (match p.movie_file {
            Some(f) => f.relative_path,
            None => None,
        }) && paths.folder == (match p.movie {
            Some(m) => m.folder_path,
            None => None,
        }),
{
    lemma_radarr_types_differ();
}

/// A report of Radarr is a rename if and only if it says so, and it carries all files that were renamed,
/// and the folder.
pub proof fn law_radarr_renames_carry_their_files(p: RadarrPayload, r: Result<ArrEvent, Status>)
    requires
        radarr_means(p, r),
    ensures
        (r matches Ok(e) && e is Rename) <==> p.event_type@ == "Rename"@,
        r matches Ok(ArrEvent::Rename { folder, files }) ==> files@ == p.renamed_movie_files@ && folder == (
        match p.movie {
            Some(m) => m.folder_path,
            None => None,
        }),
{
    lemma_radarr_types_differ();
}

/// A report of Radarr is an import if and only if something was downloaded or imported and it is said what,
/// and it is refused where that is not said. Tests are tests, and any other report is ignored.
pub proof fn law_radarr_imports_what_arrived(p: RadarrPayload, r: Result<ArrEvent, Status>)
    requires
        radarr_means(p, r),
    ensures
        (r matches Ok(e) && e is Import) <==> p.movie is Some && (p.event_type@ == "Download"@
            || p.event_type@ == "MovieFileImported"@),
        r is Err <==> p.movie is None && (p.event_type@ == "Download"@ || p.event_type@
            == "MovieFileImported"@),
        r matches Err(e) ==> e == Status::BadRequest,
        (r matches Ok(e) && e is Test) <==> p.event_type@ == "Test"@,
        (r matches Ok(e) && e is Ignored) <==> !seq![
            "Test"@,
            "Download"@,
            "MovieFileImported"@,
            "MovieFileDelete"@,
            "MovieDelete"@,
            "Rename"@,
        ].contains(p.event_type@),
        r matches Ok(ArrEvent::Import(i)) ==> {
            &&& i.title@ == p.movie->0.title@
            &&& i.year == p.movie->0.year
            &&& i.paths.folder == p.movie->0.folder_path
            &&& p.movie_file matches Some(f) ==> i.paths.file == f.path && i.paths.relative
                == f.relative_path
            &&& p.movie_file is None ==> i.paths.file is None && i.paths.relative is None
        },
{
    lemma_radarr_types_differ();
    let all = seq![
        "Test"@,
        "Download"@,
        "MovieFileImported"@,
        "MovieFileDelete"@,
        "MovieDelete"@,
        "Rename"@,
    ];
    assert(all[0] == "Test"@);
    assert(all[1] == "Download"@);
    assert(all[2] == "MovieFileImported"@);
    assert(all[3] == "MovieFileDelete"@);
    assert(all[4] == "MovieDelete"@);
    assert(all[5] == "Rename"@);
}

/// The types of reports of Radarr differ.
proof fn lemma_radarr_types_differ()
    ensures
        "Test"@.len() == 4,
        "Download"@.len() == 8,
        "MovieFileImported"@.len() == 17,
        "MovieFileDelete"@.len() == 15,
        "MovieDelete"@.len() == 11,
        "Rename"@.len() == 6,
{
    reveal_strlit("Test");
    reveal_strlit("Download");
    reveal_strlit("MovieFileImported");
    reveal_strlit("MovieFileDelete");
    reveal_strlit("MovieDelete");
    reveal_strlit("Rename");
}

/// A report of Sonarr removes a series if and only if it says that a series was deleted, and then the folder
/// is that of the series.
pub proof fn law_sonarr_deletes_only_what_was_deleted(p: SonarrPayload, r: Result<ArrEvent, Status>)
    requires
        sonarr_means(p, r),
    ensures
        (r matches Ok(e) && e is MediaDelete) <==> p.event_type@ == "SeriesDelete"@,
        r matches Ok(ArrEvent::MediaDelete { folder }) ==> folder == (match p.series {
            Some(m) => m.path,
            None => None,
        }),
        (r matches Ok(e) && e is FileDelete) <==> p.event_type@ == "EpisodeFileDelete"@,
        r matches Ok(ArrEvent::FileDelete { paths }) ==> paths.file == (match p.episode_file {
            Some(f) => f.path,
            None => None,
        }) && paths.relative == (match p.episode_file {
            Some(f) => f.relative_path,
            None => None,
        }) && paths.folder == (match p.series {
            Some(m) => m.path,
            None => None,
        }),
{
    lemma_sonarr_types_differ();
}

/// A report of Sonarr is a rename if and only if it says so, and it carries all files that were renamed,
/// and the folder.
pub proof fn law_sonarr_renames_carry_their_files(p: SonarrPayload, r: Result<ArrEvent, Status>)
    requires
        sonarr_means(p, r),
    ensures
        (r matches Ok(e) && e is Rename) <==> p.event_type@ == "Rename"@,
        r matches Ok(ArrEvent::Rename { folder, files }) ==> files@ == p.renamed_episode_files@ && folder == (
        match p.series {
            Some(m) => m.path,
            None => None,
        }),
{
    lemma_sonarr_types_differ();
}

/// A report of Sonarr is an import if and only if something was downloaded or imported and it is said what,
/// and it is refused where that is not said. Tests are tests, and any other report is ignored.
pub proof fn law_sonarr_imports_what_arrived(p: SonarrPayload, r: Result<ArrEvent, Status>)
    requires
        sonarr_means(p, r),
    ensures
        (r matches Ok(e) && e is Import) <==> p.series is Some && (p.event_type@ == "Download"@
            || p.event_type@ == "EpisodeFileImported"@),
        r is Err <==> p.series is None && (p.event_type@ == "Download"@ || p.event_type@
            == "EpisodeFileImported"@),
        r matches Err(e) ==> e == Status::BadRequest,
        (r matches Ok(e) && e is Test) <==> p.event_type@ == "Test"@,
        (r matches Ok(e) && e is Ignored) <==> !seq![
            "Test"@,
            "Download"@,
            "EpisodeFileImported"@,
            "EpisodeFileDelete"@,
            "SeriesDelete"@,
            "Rename"@,
        ].contains(p.event_type@),
        r matches Ok(ArrEvent::Import(i)) ==> {
            &&& i.title@ == p.series->0.title@
            &&& i.year == p.series->0.year
            &&& i.paths.folder == p.series->0.path
            &&& p.episode_file matches Some(f) ==> i.paths.file == f.path && i.paths.relative
                == f.relative_path
            &&& p.episode_file is None ==> i.paths.file is None && i.paths.relative is None
        },
{
    lemma_sonarr_types_differ();
    let all = seq![
        "Test"@,
        "Download"@,
        "EpisodeFileImported"@,
        "EpisodeFileDelete"@,
        "SeriesDelete"@,
        "Rename"@,
    ];
    assert(all[0] == "Test"@);
    assert(all[1] == "Download"@);
    assert(all[2] == "EpisodeFileImported"@);
    assert(all[3] == "EpisodeFileDelete"@);
    assert(all[4] == "SeriesDelete"@);
    assert(all[5] == "Rename"@);
}

/// The types of reports of Sonarr differ.
proof fn lemma_sonarr_types_differ()
    ensures
        "Test"@.len() == 4,
        "Download"@.len() == 8,
        "EpisodeFileImported"@.len() == 19,
        "EpisodeFileDelete"@.len() == 17,
        "SeriesDelete"@.len() == 12,
        "Rename"@.len() == 6,
{
    reveal_strlit("Test");
    reveal_strlit("Download");
    reveal_strlit("EpisodeFileImported");
    reveal_strlit("EpisodeFileDelete");
    reveal_strlit("SeriesDelete");
    reveal_strlit("Rename");
}

/// An import of Radarr is matched by the ids that the report gives: that of TMDB first, then that of IMDb.
pub proof fn law_radarr_imports_have_the_ids_of_the_movie(p: RadarrPayload, r: Result<ArrEvent, Status>)
    requires
        radarr_means(p, r),
        r matches Ok(ArrEvent::Import(i)),
    ensures
        r matches Ok(ArrEvent::Import(i)) && {
            let m = p.movie->0;
            let tmdb = m.tmdb_id is Some && m.tmdb_id->0 > 0;
            let imdb = m.imdb_id is Some && m.imdb_id->0@.len() > 0;
            let ids = views(i.external_ids@);
            &&& ids.len() == (if tmdb {
                1int
            } else {
                0
            }) + (if imdb {
                1int
            } else {
                0
            })
            &&& tmdb ==> ids[0] == "tmdb:"@ + dec_int(m.tmdb_id->0 as int)
            &&& imdb ==> ids.last() == "imdb:"@ + m.imdb_id->0@
            &&& i.episodes is None
            &&& i.episode_title is None
        },
{
    lemma_radarr_types_differ();
}

/// An import of Sonarr is matched by the ids that the report gives: that of TMDB first, then that of TVDB,
/// then that of IMDb. Its episodes are those from the first to the last that are reported, in the season of
/// the first, and its title is that of the first.
pub proof fn law_sonarr_imports_have_the_ids_of_the_series(p: SonarrPayload, r: Result<ArrEvent, Status>)
    requires
        sonarr_means(p, r),
        r matches Ok(ArrEvent::Import(i)),
    ensures
        r matches Ok(ArrEvent::Import(i)) && {
            let s = p.series->0;
            let tmdb = s.tmdb_id is Some && s.tmdb_id->0 > 0;
            let tvdb = s.tvdb_id is Some && s.tvdb_id->0 > 0;
            let imdb = s.imdb_id is Some && s.imdb_id->0@.len() > 0;
            let ids = views(i.external_ids@);
            let n = p.episodes@.len();
            &&& ids.len() == (if tmdb {
                1int
            } else {
                0
            }) + (if tvdb {
                1int
            } else {
                0
            }) + (if imdb {
                1int
            } else {
                0
            })
            &&& tmdb ==> ids[0] == "tmdb:"@ + dec_int(s.tmdb_id->0 as int)
            &&& tvdb ==> ids[if tmdb {
                1
            } else {
                0
            }] == "tvdb:"@ + dec_int(s.tvdb_id->0 as int)
            &&& imdb ==> ids.last() == "imdb:"@ + s.imdb_id->0@
            &&& n == 0 ==> i.episodes is None && i.episode_title is None
            &&& n > 0 ==> i.episodes == Some(
                (
                    p.episodes@[0].season_number,
                    p.episodes@[0].episode_number,
                    p.episodes@[n - 1].episode_number,
                ),
            ) && i.episode_title == p.episodes@[0].title
        },
{
    lemma_sonarr_types_differ();
}

}
