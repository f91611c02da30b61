use dim::scanner::records::MediaType;
use dim::status::Status;
use dim::webhook::changes::{
    process_file_delete, process_media_delete, process_rename, ChangeReply, FileDeleteStep,
    MediaDeleteStep, RenameStep,
};
use dim::webhook::files::{
    disk_candidates, find_indexed_mediafile, is_in_libraries, libraries_of, media_delete_pattern,
    remove_mediafile, renamed_target, resolve_on_disk, FindOp, FindReply, FindStep, Library,
    PurgeOp, PurgeReply, PurgeStep,
};
use dim::webhook::import::{
    display_title, notification_target, process_import, provider_name, with_report, ImportOp,
    ImportReply, ImportStep, TargetOp, TargetReply, TargetStep,
};
use dim::webhook::payload::{
    answer_to, normalize_radarr, normalize_sonarr, receive_webhook, ArrEvent, ArrFile, ArrPaths,
    ArrRenamedFile, Import, RadarrMovie, RadarrPayload, SonarrEpisode, SonarrPayload, SonarrSeries, WebhookQuery,
};

fn s(x: &str) -> Option<String> {
    Some(x.to_string())
}

fn sonarr(event: &str) -> SonarrPayload {
    SonarrPayload {
        event_type: event.to_string(),
        series: Some(SonarrSeries {
            title: "Breaking Bad".to_string(),
            path: s("/tv/Breaking Bad"),
            year: Some(2008),
            tvdb_id: Some(81189),
            tmdb_id: Some(0),
            imdb_id: s("tt0903747"),
        }),
        episodes: vec![
            SonarrEpisode { season_number: 1, episode_number: 2, title: s("Cat's in the Bag") },
            SonarrEpisode { season_number: 1, episode_number: 3, title: None },
        ],
        episode_file: Some(ArrFile {
            path: s("/tv/Breaking Bad/S1/e2.mkv"),
            relative_path: s("S1/e2.mkv"),
        }),
        renamed_episode_files: vec![],
    }
}

fn radarr(event: &str) -> RadarrPayload {
    RadarrPayload {
        event_type: event.to_string(),
        movie: Some(RadarrMovie {
            title: "The Matrix".to_string(),
            year: Some(1999),
            folder_path: s("/movies/The Matrix"),
            tmdb_id: Some(603),
            imdb_id: s(""),
        }),
        movie_file: None,
        renamed_movie_files: vec![],
    }
}

#[test]
fn sonarr_reports_are_understood() {
    match normalize_sonarr(sonarr("Download")) {
        Ok(ArrEvent::Import(i)) => {
            assert_eq!(i.title, "Breaking Bad");
            assert_eq!(i.episodes, Some((1, 2, 3)));
            assert_eq!(i.episode_title, s("Cat's in the Bag"));
            assert_eq!(i.external_ids, vec!["tvdb:81189", "imdb:tt0903747"]);
            assert_eq!(i.paths.relative, s("S1/e2.mkv"));
        }
        other => panic!("{other:?}"),
    }
    assert!(matches!(normalize_sonarr(sonarr("Test")), Ok(ArrEvent::Test)));
    assert!(matches!(normalize_sonarr(sonarr("EpisodeFileDelete")), Ok(ArrEvent::FileDelete { .. })));
    assert!(matches!(normalize_sonarr(sonarr("SeriesDelete")), Ok(ArrEvent::MediaDelete { .. })));
    assert!(matches!(normalize_sonarr(sonarr("Rename")), Ok(ArrEvent::Rename { .. })));
    assert!(matches!(normalize_sonarr(sonarr("Health")), Ok(ArrEvent::Ignored)));
    let mut bare = sonarr("Download");
    bare.series = None;
    assert_eq!(normalize_sonarr(bare).err(), Some(Status::BadRequest));
}

#[test]
fn radarr_reports_are_understood() {
    match normalize_radarr(radarr("MovieFileImported")) {
        Ok(ArrEvent::Import(i)) => {
            assert_eq!((i.title.as_str(), i.year, i.episodes), ("The Matrix", Some(1999), None));
            assert_eq!(i.external_ids, vec!["tmdb:603"]);
            assert_eq!(i.paths.folder, s("/movies/The Matrix"));
        }
        other => panic!("{other:?}"),
    }
    assert!(matches!(normalize_radarr(radarr("MovieDelete")), Ok(ArrEvent::MediaDelete { .. })));
    let mut bare = radarr("Download");
    bare.movie = None;
    assert_eq!(normalize_radarr(bare).err(), Some(Status::BadRequest));
}

#[test]
fn webhooks_need_the_key() {
    let q = |k: &str| WebhookQuery { apikey: k.to_string() };
    assert_eq!(receive_webhook("sonarr", &q(""), ""), Err(Status::Unauthorized));
    assert_eq!(receive_webhook("sonarr", &q("x"), "k"), Err(Status::Unauthorized));
    assert_eq!(receive_webhook("sonarr", &q("k"), "k"), Ok(MediaType::Tv));
    assert_eq!(receive_webhook("radarr", &q("k"), "k"), Ok(MediaType::Movie));
    assert_eq!(receive_webhook("lidarr", &q("k"), "k"), Err(Status::NotFound));
    assert_eq!(answer_to(&ArrEvent::Test), Status::Success);
    assert_eq!(answer_to(&ArrEvent::MediaDelete { folder: None }).code(), 202);
}

fn library(id: i64, media_type: MediaType, locations: &[&str]) -> Library {
    Library {
        id,
        media_type,
        provider: "anilist".to_string(),
        locations: locations.iter().map(|l| l.to_string()).collect(),
    }
}

fn paths() -> ArrPaths {
    ArrPaths {
        file: s("/tv/Breaking Bad/S1/e2.mkv"),
        folder: s("/tv/Breaking Bad/"),
        relative: s("S1/e2.mkv"),
    }
}

#[test]
fn files_are_looked_for_under_the_locations() {
    let libs = vec![library(1, MediaType::Tv, &["/tv", "/mnt/tv/"])];
    let c = disk_candidates(&libs, &paths());
    let texts: Vec<&str> = c.iter().map(|x| x.1.as_str()).collect();
    assert_eq!(
        texts,
        vec![
            "/tv/Breaking Bad/S1/e2.mkv",
            "/tv/Breaking Bad/S1/e2.mkv",
            "/tv/S1/e2.mkv",
            "/mnt/tv/Breaking Bad/S1/e2.mkv",
            "/mnt/tv/S1/e2.mkv",
        ]
    );
    let found = resolve_on_disk(&c, &vec![false, false, false, true, true]).unwrap();
    assert_eq!(found, (1, "/mnt/tv/Breaking Bad/S1/e2.mkv".to_string()));
    assert_eq!(resolve_on_disk(&c, &vec![false; 5]), None);
    assert_eq!(libraries_of(&libs, MediaType::Movie), Vec::<usize>::new());
    assert_eq!(provider_name(&libs, 1), "anilist");
    assert_eq!(provider_name(&libs, 2), "tmdb");
}

#[test]
fn indexed_files_are_found_by_path_or_suffix() {
    let p = paths();
    let find = |replies: Vec<FindReply>| {
        find_indexed_mediafile(&p.file, &p.folder, &p.relative, &replies)
    };
    assert!(matches!(find(vec![]), FindStep::Ask(FindOp::ByPath(_))));
    assert!(matches!(find(vec![FindReply::File]), FindStep::Found(0)));
    match find(vec![FindReply::Missing]) {
        FindStep::Ask(FindOp::ByPattern(p)) => assert_eq!(p, "%/Breaking Bad/S1/e2.mkv"),
        other => panic!("{other:?}"),
    }
    let ids = |v: Vec<i64>| vec![FindReply::Missing, FindReply::Ids(v)];
    assert!(matches!(find(ids(vec![7])), FindStep::Ask(FindOp::ById(7))));
    assert!(matches!(find(ids(vec![7, 8])), FindStep::Missing));
    assert!(matches!(find(ids(vec![])), FindStep::Missing));
}

#[test]
fn renames_keep_the_prefix() {
    assert_eq!(
        renamed_target("/mnt/tv/BB/S1/a.mkv", &s("S1/a.mkv"), &s("S1/b.mkv")),
        s("/mnt/tv/BB/S1/b.mkv")
    );
    assert_eq!(renamed_target("/mnt/x.mkv", &s("S1/a.mkv"), &s("S1/b.mkv")), None);
    assert_eq!(renamed_target("/mnt/x.mkv", &None, &s("b")), None);
}

#[test]
fn folders_are_deleted_by_their_names() {
    assert_eq!(media_delete_pattern(&s("/tv/Breaking Bad")), s("%/Breaking Bad/%"));
    assert_eq!(media_delete_pattern(&s("/tv/B")), None);
    assert_eq!(media_delete_pattern(&s("/tv/é")), s("%/é/%"));
    assert_eq!(media_delete_pattern(&None), None);
    assert!(is_in_libraries(&vec![1, 2], 2));
    assert!(!is_in_libraries(&vec![1, 2], 3));
}

#[test]
fn files_without_siblings_take_their_media() {
    let step = |r: Vec<PurgeReply>| remove_mediafile(4, &r);
    assert_eq!(step(vec![]), PurgeStep::Do(PurgeOp::MediaOfFile(4)));
    assert_eq!(step(vec![PurgeReply::Id(9)]), PurgeStep::Do(PurgeOp::DeleteFile(4)));
    let mut r = vec![PurgeReply::Id(9), PurgeReply::Done];
    assert_eq!(step(r.clone()), PurgeStep::Do(PurgeOp::FilesOfMedia(9)));
    r.push(PurgeReply::Count(0));
    assert_eq!(step(r.clone()), PurgeStep::Do(PurgeOp::DeleteMedia(9)));
    r[2] = PurgeReply::Count(1);
    assert_eq!(step(r), PurgeStep::End);
}

#[test]
fn imports_have_titles() {
    let t = |m, e| display_title(m, "Show", Some(2008), e);
    assert_eq!(t(MediaType::Tv, Some((1, 2, 2))), "Show S01E02");
    assert_eq!(t(MediaType::Tv, Some((10, 2, 13))), "Show S10E02-E13");
    assert_eq!(t(MediaType::Tv, None), "Show (2008)");
    assert_eq!(t(MediaType::Movie, Some((1, 2, 2))), "Show (2008)");
    assert_eq!(display_title(MediaType::Movie, "Show", None, None), "Show");
}

fn import() -> Import {
    match normalize_sonarr(sonarr("Download")) {
        Ok(ArrEvent::Import(i)) => i,
        other => panic!("{other:?}"),
    }
}

#[test]
fn imports_run_to_their_announcement() {
    let i = import();
    let mut replies = vec![];
    let mut step = |r: Option<ImportReply>| {
        if let Some(r) = r {
            replies.push(r);
        }
        process_import(&i, MediaType::Tv, &replies)
    };
    assert!(matches!(step(None), ImportStep::Do(ImportOp::Resolve)));
    assert!(matches!(step(Some(ImportReply::Failed)), ImportStep::Do(ImportOp::Sleep { millis: 2000 })));
    assert!(matches!(step(Some(ImportReply::Done)), ImportStep::Do(ImportOp::Resolve)));
    assert!(matches!(
        step(Some(ImportReply::Resolved(1, "/m/e.mkv".to_string()))),
        ImportStep::Do(ImportOp::Insert { library_id: 1, .. })
    ));
    assert!(matches!(
        step(Some(ImportReply::Units(0))),
        ImportStep::Do(ImportOp::Reindex { .. })
    ));
    assert!(matches!(
        step(Some(ImportReply::Units(1))),
        ImportStep::Do(ImportOp::Open)
    ));
    assert!(matches!(
        step(Some(ImportReply::Done)),
        ImportStep::Do(ImportOp::TryId { unit: 0, id: 0 })
    ));
    assert!(matches!(
        step(Some(ImportReply::Failed)),
        ImportStep::Do(ImportOp::TryId { unit: 0, id: 1 })
    ));
    assert!(matches!(
        step(Some(ImportReply::Failed)),
        ImportStep::Do(ImportOp::Fallback { unit: 0 })
    ));
    assert!(matches!(step(Some(ImportReply::Done)), ImportStep::Do(ImportOp::Commit)));
    assert!(matches!(step(Some(ImportReply::Done)), ImportStep::Do(ImportOp::Target { .. })));
    let target = ImportReply::Target { media_id: Some(5), poster_path: None };
    match step(Some(target)) {
        ImportStep::Do(ImportOp::Notify { title, body, media_id, .. }) => {
            assert_eq!(title, "Breaking Bad S01E02-E03 added");
            assert_eq!(body, s("Cat's in the Bag"));
            assert_eq!(media_id, Some(5));
        }
        other => panic!("{other:?}"),
    }
    assert!(matches!(step(Some(ImportReply::Done)), ImportStep::End));
}

#[test]
fn imports_end_where_the_index_cannot_be_opened() {
    let mut replies = vec![
        ImportReply::Resolved(1, "/m/e.mkv".to_string()),
        ImportReply::Units(2),
    ];
    assert!(matches!(
        process_import(&import(), MediaType::Tv, &replies),
        ImportStep::Do(ImportOp::Open)
    ));
    replies.push(ImportReply::Failed);
    assert!(matches!(process_import(&import(), MediaType::Tv, &replies), ImportStep::End));
}

#[test]
fn missing_files_are_announced() {
    let replies: Vec<ImportReply> = (0..5).map(|_| ImportReply::Failed).collect();
    match process_import(&import(), MediaType::Tv, &replies) {
        ImportStep::Do(ImportOp::Notify { body, .. }) => {
            assert_eq!(body, s("File not visible to Dim: /tv/Breaking Bad/S1/e2.mkv"))
        }
        other => panic!("{other:?}"),
    }
}

#[test]
fn reports_come_before_names() {
    let ms = with_report(&import(), &vec![]);
    assert_eq!(ms.len(), 1);
    assert_eq!((ms[0].season, ms[0].episode), (Some(1), Some(2)));
}

#[test]
fn announcements_link_to_shows() {
    let path = "/m/e.mkv".to_string();
    let step = |r: Vec<TargetReply>| notification_target(&path, &r);
    assert!(matches!(step(vec![]), TargetStep::Ask(TargetOp::FileByPath(_))));
    assert!(matches!(step(vec![TargetReply::Failed]), TargetStep::Found(None, None)));
    let found = |is_episode| {
        vec![
            TargetReply::Id(3),
            TargetReply::Media { id: 30, is_episode, poster_path: s("p.jpg") },
        ]
    };
    assert!(matches!(step(found(false)), TargetStep::Found(Some(30), Some(_))));
    let mut r = found(true);
    r.push(TargetReply::Id(20));
    r.push(TargetReply::Id(10));
    assert!(matches!(
        notification_target(&path, &r),
        TargetStep::Ask(TargetOp::Media(10))
    ));
    r.push(TargetReply::Media { id: 10, is_episode: false, poster_path: None });
    assert!(matches!(step(r), TargetStep::Found(Some(10), None)));
}

#[test]
fn deleted_files_are_removed_where_they_are_indexed() {
    let mut done = vec![];
    let mut seen = vec![];
    loop {
        match process_file_delete(&done) {
            FileDeleteStep::End => break,
            step => seen.push(step),
        }
        done.push(true);
    }
    assert_eq!(
        seen,
        vec![
            FileDeleteStep::Open,
            FileDeleteStep::Find,
            FileDeleteStep::Remove,
            FileDeleteStep::Commit
        ]
    );
    assert_eq!(process_file_delete(&vec![false]), FileDeleteStep::End);
    assert_eq!(process_file_delete(&vec![true, false]), FileDeleteStep::End);
}

#[test]
fn renamed_files_get_their_new_paths() {
    let renamed = |previous: &str, relative: &str| ArrRenamedFile {
        previous_path: None,
        previous_relative_path: s(previous),
        relative_path: s(relative),
    };
    let files = vec![renamed("S1/a.mkv", "S1/b.mkv"), renamed("S1/c.mkv", "S1/d.mkv")];
    assert!(matches!(process_rename(&files, &vec![]), RenameStep::Open));
    assert!(matches!(process_rename(&files, &vec![ChangeReply::Failed]), RenameStep::End));
    let mut replies = vec![ChangeReply::Done];
    assert!(matches!(process_rename(&files, &replies), RenameStep::Find(0)));
    replies.push(ChangeReply::Target("/mnt/tv/BB/S1/a.mkv".to_string()));
    match process_rename(&files, &replies) {
        RenameStep::Update(0, target) => assert_eq!(target, "/mnt/tv/BB/S1/b.mkv"),
        other => panic!("{other:?}"),
    }
    replies.push(ChangeReply::Failed);
    assert!(matches!(process_rename(&files, &replies), RenameStep::Find(1)));
    replies.push(ChangeReply::Target("/mnt/tv/BB/elsewhere.mkv".to_string()));
    assert!(matches!(process_rename(&files, &replies), RenameStep::Commit));
    replies.push(ChangeReply::Done);
    assert!(matches!(process_rename(&files, &replies), RenameStep::End));
}

#[test]
fn deleted_media_leave_other_libraries_alone() {
    let folder = s("/tv/Breaking Bad");
    let ours = vec![1];
    assert!(matches!(process_media_delete(&s("/tv/B"), &ours, &vec![]), MediaDeleteStep::End));
    let mut replies = vec![];
    let mut removed = vec![];
    loop {
        replies.push(match process_media_delete(&folder, &ours, &replies) {
            MediaDeleteStep::Open | MediaDeleteStep::Commit => ChangeReply::Done,
            MediaDeleteStep::ByPattern(pattern) => {
                assert_eq!(pattern, "%/Breaking Bad/%");
                ChangeReply::Ids(vec![10, 20, 30])
            }
            MediaDeleteStep::LibraryOf(10) => ChangeReply::Library(2),
            MediaDeleteStep::LibraryOf(20) => ChangeReply::Library(1),
            MediaDeleteStep::LibraryOf(_) => ChangeReply::Failed,
            MediaDeleteStep::Remove(id) => {
                removed.push(id);
                ChangeReply::Done
            }
            MediaDeleteStep::End => break,
        });
    }
    assert_eq!(removed, vec![20]);
    assert_eq!(replies.len(), 7);
}

#[test]
fn reported_paths_win_over_rerooted_ones() {
    let libs = vec![library(1, MediaType::Tv, &["/mnt/tv"]), library(2, MediaType::Tv, &["/tv"])];
    let c = disk_candidates(&libs, &paths());
    assert_eq!(c[0], (2, "/tv/Breaking Bad/S1/e2.mkv".to_string()));
    assert_eq!(c[1], (1, "/mnt/tv/Breaking Bad/S1/e2.mkv".to_string()));
    let found = resolve_on_disk(&c, &vec![true; c.len()]).unwrap();
    assert_eq!(found, (2, "/tv/Breaking Bad/S1/e2.mkv".to_string()));
}
