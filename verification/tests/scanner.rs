use dim::events::PushEventType;
use dim::external::{ExternalEpisode, ExternalMedia, ExternalSeason};
use dim::filename::Metadata;
use dim::scanner::assets::{
    asset_from_url, enqueue_asset_download, format_path, Asset, NewAsset,
};
use dim::scanner::daemon::{
    handle_create_files, handle_remove, handle_rename, keeps_draining, plan_batch, CreateReply,
    CreateStep, DaemonOp, DaemonReply, DaemonStep, FsEvent, FsEventKind, FsWatcher, FsWatcherError,
    SeenPath, WatchAction, WatchOp, WatchReply, WatchStep,
};
use dim::scanner::episodes::{resolve_absolute_episode, FoundEpisode, ResolveStep};
use dim::scanner::lookup::{pick_best, LookupQuery, LookupReply};
use dim::scanner::matcher::{batch_order, MatchStep, Matcher, MediaMatcher, WorkUnit};
use dim::scanner::movie::{MovieError, MovieMatcher, MovieRecord};
use dim::scanner::opening::{
    scan_message, smart_scan_opening, OpeningOp, OpeningReply, OpeningStep,
};
use dim::scanner::records::{MediaFile, MediaType, RecordOp, RecordReply, RecordStep};
use dim::scanner::scan::{
    insert_mediafiles, start, start_custom, InsertReply, InsertStep, LibraryReply,
    LibraryScanError, LibraryScanOp, LibraryScanReply, LibraryScanStep,
};
use dim::scanner::scan_run::{smart_scan, ScanOp, ScanStep};
use dim::scanner::smart_scan::{
    distinct_siblings, lookup_external_id, match_siblings, number_known_file, partition,
    show_directory, sibling_dirs, sibling_metadata, sibling_units, unknown_batches, IdCache,
    IdSource, KnownFile, NumberStep, ShowMapping, SiblingStep,
};
use dim::scanner::tv_show::{ShowError, ShowRecord, TvMatchCache, TvMatcher};
use dim::scanner::walk::{chunks, is_supported, pair_units};

fn file(id: i64, path: &str) -> MediaFile {
    MediaFile { id, library_id: 1, media_id: None, target_file: path.to_string() }
}

fn media(id: &str, title: &str) -> ExternalMedia {
    ExternalMedia {
        external_id: id.to_string(),
        title: title.to_string(),
        original_title: None,
        description: None,
        release_date: None,
        posters: vec![],
        backdrops: vec![],
        genres: vec![],
        rating: None,
        duration: None,
        imdb_id: None,
    }
}

fn season(n: u64) -> ExternalSeason {
    ExternalSeason {
        external_id: format!("s{n}"),
        title: None,
        description: None,
        posters: vec![],
        season_number: n,
    }
}

fn episode(n: u64) -> ExternalEpisode {
    ExternalEpisode {
        external_id: format!("e{n}"),
        title: None,
        description: None,
        episode_number: n,
        stills: vec![],
        duration: None,
    }
}

fn episodes(range: std::ops::RangeInclusive<u64>) -> LookupReply {
    LookupReply::Episodes(range.map(episode).collect())
}

fn meta(name: &str, season: Option<i64>, episode: Option<i64>) -> Metadata {
    Metadata { name: name.to_string(), year: None, season, episode, language: None }
}

#[test]
fn movies_are_found_by_their_titles() {
    let mut m = meta("The Matrix", None, None);
    m.year = Some(1999);
    m.language = Some("de-DE".to_string());
    let ms = vec![m];
    let mut replies = vec![];
    match MovieMatcher.batch_match(&ms, &None, &replies) {
        MatchStep::Ask(LookupQuery::Search { name, year, language }) => {
            assert_eq!(name, "The Matrix");
            assert_eq!(year, Some(1999));
            assert_eq!(language, Some("de-DE".to_string()));
        }
        other => panic!("{other:?}"),
    }
    // Nothing in the year: asked again without it, then without the language.
    replies.push(LookupReply::Media(vec![]));
    replies.push(LookupReply::Media(vec![]));
    match MovieMatcher.batch_match(&ms, &None, &replies) {
        MatchStep::Ask(LookupQuery::Search { language, .. }) => assert_eq!(language, None),
        other => panic!("{other:?}"),
    }
    replies.push(LookupReply::Media(vec![media("1", "Something"), media("2", "The Matrix")]));
    assert!(matches!(
        MovieMatcher.batch_match(&ms, &None, &replies),
        MatchStep::Movie { reply: 2, place: 1 }
    ));
}

#[test]
fn unlike_titles_are_checked_against_other_titles() {
    let ms = vec![meta("Kimi no Na wa", None, None)];
    let mut replies = vec![LookupReply::Media(vec![media("9", "Your Name")])];
    assert!(matches!(
        MovieMatcher.batch_match(&ms, &None, &replies),
        MatchStep::Ask(LookupQuery::AlternativeTitles(_))
    ));
    replies.push(LookupReply::Titles(vec!["Kimi no na wa.".to_string()]));
    assert!(matches!(
        MovieMatcher.batch_match(&ms, &None, &replies),
        MatchStep::Movie { reply: 0, place: 0 }
    ));
    replies[1] = LookupReply::Failed;
    assert!(matches!(MovieMatcher.batch_match(&ms, &None, &replies), MatchStep::NotFound));
}

#[test]
fn the_earliest_of_equals_is_picked() {
    let list = vec![media("1", "Titans"), media("2", "Titans")];
    assert_eq!(pick_best("Titans", &list), Some(0));
    assert_eq!(pick_best("Titans", &vec![]), None);
}

#[test]
fn explicit_ids_need_no_search() {
    let ms = vec![meta("x", Some(1), Some(2))];
    let id = Some("tmdb:5".to_string());
    assert!(matches!(
        MovieMatcher.batch_match(&ms, &id, &vec![]),
        MatchStep::Ask(LookupQuery::ById(_))
    ));
    assert!(matches!(
        MovieMatcher.batch_match(&ms, &id, &vec![LookupReply::Failed]),
        MatchStep::InvalidExternalId
    ));
    let replies = vec![
        LookupReply::Media(vec![media("5", "X")]),
        LookupReply::Seasons(vec![season(1)]),
        episodes(1..=3),
    ];
    match TvMatcher.match_to_id(&ms, &"tmdb:5".to_string(), &replies) {
        MatchStep::Episode(f) => assert_eq!((f.season, f.episodes, f.episode), (0, 2, 1)),
        other => panic!("{other:?}"),
    }
    let gone = vec![LookupReply::Media(vec![media("5", "X")]), LookupReply::Failed];
    assert!(matches!(
        TvMatcher.match_to_id(&ms, &"tmdb:5".to_string(), &gone),
        MatchStep::SeasonNotFound
    ));
}

#[test]
fn absolute_numbers_are_resolved_through_the_seasons() {
    // Episode 13 in the second season of a show with twelve episodes in each.
    let ms = vec![meta("Berserk", Some(2), Some(13))];
    let replies = vec![
        LookupReply::Media(vec![media("7", "Berserk")]),
        LookupReply::Seasons(vec![season(2), season(0), season(1)]),
        episodes(1..=12),
        episodes(1..=12),
        episodes(1..=12),
    ];
    match TvMatcher.batch_match(&ms, &None, &replies) {
        MatchStep::Episode(f) => assert_eq!(
            f,
            FoundEpisode { shows: 0, show: 0, seasons: 1, season: 0, episodes: 4, episode: 0 }
        ),
        other => panic!("{other:?}"),
    }
}

#[test]
fn numbers_of_episodes_are_counted_as_signed() {
    let ms = vec![meta("Berserk", Some(2), Some(13))];
    let replies = vec![
        LookupReply::Media(vec![media("7", "Berserk")]),
        LookupReply::Seasons(vec![season(2), season(1)]),
        episodes(14..=15),
        episodes(u64::MAX..=u64::MAX),
        episodes(14..=15),
    ];
    match TvMatcher.batch_match(&ms, &None, &replies) {
        MatchStep::Episode(f) => assert_eq!((f.season, f.episodes, f.episode), (0, 4, 0)),
        other => panic!("{other:?}"),
    }
}

#[test]
fn implausible_numbers_are_skipped() {
    let ms = vec![meta("X", Some(1920), Some(1080)), meta("X", Some(1), Some(10001))];
    assert!(matches!(TvMatcher.batch_match(&ms, &None, &vec![]), MatchStep::NotFound));
}

#[test]
fn other_seasons_are_searched_last() {
    let ms = vec![meta("Show", Some(3), Some(5))];
    let replies = vec![
        LookupReply::Media(vec![media("7", "Show")]),
        LookupReply::Seasons(vec![season(1), season(3)]),
        episodes(1..=2),
        episodes(1..=8),
        episodes(1..=8),
    ];
    match TvMatcher.batch_match(&ms, &None, &replies) {
        MatchStep::Episode(f) => assert_eq!((f.season, f.episodes, f.episode), (0, 4, 4)),
        other => panic!("{other:?}"),
    }
}

#[test]
fn absolute_numbers_skip_specials() {
    let id = "7".to_string();
    let replies = vec![
        LookupReply::Seasons(vec![season(0), season(1), season(2)]),
        episodes(1..=12),
        episodes(1..=12),
    ];
    assert!(matches!(
        resolve_absolute_episode(&id, 15, &replies, 0),
        ResolveStep::Resolved { season: 2, episodes: 2, episode: 2 }
    ));
    assert!(matches!(resolve_absolute_episode(&id, 99, &replies, 0), ResolveStep::Unresolved(3)));
}

fn asset(id: i64) -> RecordReply {
    RecordReply::Asset(Asset {
        id,
        remote_url: Some("https://img/x.png".to_string()),
        local_path: "images/x.jpg".to_string(),
    })
}

#[test]
fn movies_are_recorded_step_by_step() {
    let mut f = file(3, "test.mp4");
    f.media_id = Some(40);
    let mut m = media("123", "Test Title");
    m.posters = vec!["https://img/a.png".to_string(), "no address".to_string()];
    m.genres = vec!["Comedy".to_string()];
    let record = MovieRecord::new(f, m);
    assert_eq!(record.posters.len(), 1);
    let mut replies = vec![];
    let mut step = |reply: Option<RecordReply>| {
        if let Some(r) = reply {
            replies.push(r);
        }
        MovieMatcher.match_to_result(&record, &replies)
    };
    assert!(matches!(step(None), RecordStep::Do(RecordOp::InsertAsset(_))));
    match step(Some(asset(8))) {
        RecordStep::Do(RecordOp::InsertMedia { media, external_id }) => {
            assert_eq!((media.name.as_str(), media.poster), ("Test Title", Some(8)));
            assert_eq!(external_id, "123");
        }
        other => panic!("{other:?}"),
    }
    assert!(matches!(
        step(Some(RecordReply::Media { id: 50, created: true })),
        RecordStep::Do(RecordOp::LinkPoster { asset_id: 8, media_id: 50 })
    ));
    assert!(matches!(step(Some(RecordReply::Failed)), RecordStep::Do(RecordOp::Enqueue(_))));
    assert!(matches!(
        step(Some(RecordReply::Done)),
        RecordStep::Do(RecordOp::DecoupleGenres { media_id: 50 })
    ));
    assert!(matches!(
        step(Some(RecordReply::Done)),
        RecordStep::Do(RecordOp::InsertGenre { .. })
    ));
    assert!(matches!(
        step(Some(RecordReply::Id(6))),
        RecordStep::Do(RecordOp::CoupleGenre { genre_id: 6, media_id: 50 })
    ));
    assert!(matches!(
        step(Some(RecordReply::Done)),
        RecordStep::Do(RecordOp::UpdateFile { file_id: 3, media_id: 50, .. })
    ));
    assert!(matches!(
        step(Some(RecordReply::Done)),
        RecordStep::Do(RecordOp::CountFiles { media_id: 40 })
    ));
    assert!(matches!(
        step(Some(RecordReply::Count(0))),
        RecordStep::Do(RecordOp::DeleteMedia { media_id: 40 })
    ));
    assert!(matches!(step(Some(RecordReply::Done)), RecordStep::Done(50)));
}

#[test]
fn movie_failures_have_names() {
    let mut m = media("1", "T");
    m.posters = vec!["https://img/a.png".to_string()];
    m.backdrops = vec!["https://img/b.png".to_string()];
    m.genres = vec!["G".to_string()];
    let mut f = file(3, "t.mp4");
    f.media_id = Some(40);
    let record = MovieRecord::new(f, m);
    let good = || {
        vec![
            asset(1),
            asset(2),
            RecordReply::Media { id: 50, created: true },
            RecordReply::Done,
            RecordReply::Done,
            RecordReply::Done,
            RecordReply::Done,
            RecordReply::Done,
            RecordReply::Id(1),
            RecordReply::Done,
            RecordReply::Done,
            RecordReply::Count(0),
            RecordReply::Done,
        ]
    };
    assert!(matches!(MovieMatcher.match_to_result(&record, &good()), RecordStep::Done(50)));
    for (at, error) in [
        (0, MovieError::PosterInsert),
        (1, MovieError::BackdropInsert),
        (2, MovieError::GetOrInsertMedia),
        (7, MovieError::GenreDecouple),
        (8, MovieError::GetOrInsertGenre),
        (9, MovieError::CoupleGenre),
        (10, MovieError::UpdateMediafile),
        (11, MovieError::ChildrenCount),
        (12, MovieError::ChildCleanup),
    ] {
        let mut replies = good();
        replies[at] = RecordReply::Failed;
        match MovieMatcher.match_to_result(&record, &replies) {
            RecordStep::Failed(e) => assert_eq!(e, error),
            other => panic!("{at}: {other:?}"),
        }
    }
}

fn show_record(force: bool, old: Option<i64>) -> ShowRecord {
    let mut f = file(3, "test.mp4");
    f.media_id = old;
    ShowRecord::new(
        f,
        media("tmdb:1", "Show 1"),
        season(1),
        episode(1),
        "Episode 1".to_string(),
        force,
    )
}

#[test]
fn shows_are_ensured_once_per_batch() {
    let mut cache = TvMatchCache::new();
    let record = show_record(false, None);
    let replies = vec![
        RecordReply::Media { id: 10, created: true },
        RecordReply::Done,
        RecordReply::Id(20),
        RecordReply::Id(30),
        RecordReply::Done,
    ];
    assert!(matches!(
        TvMatcher.match_to_result(&record, &cache, &replies),
        RecordStep::Done((10, 20, 30))
    ));
    cache.learn(&record, &replies);
    // The next episode goes straight to its own row.
    assert!(matches!(
        TvMatcher.match_to_result(&show_record(false, None), &cache, &vec![]),
        RecordStep::Do(RecordOp::InsertEpisode { season_id: 20, .. })
    ));
    // A match by hand starts over with the show.
    assert!(matches!(
        TvMatcher.match_to_result(&show_record(true, None), &cache, &vec![]),
        RecordStep::Do(RecordOp::InsertMedia { .. })
    ));
}

#[test]
fn old_episodes_are_cleaned_up_to_the_show() {
    let cache = TvMatchCache::new();
    let record = show_record(false, Some(99));
    let good = || {
        vec![
            RecordReply::Media { id: 10, created: false },
            RecordReply::Id(20),
            RecordReply::Id(30),
            RecordReply::Done,
            RecordReply::Id(21),
            RecordReply::Id(11),
            RecordReply::Count(0),
            RecordReply::Done,
            RecordReply::Count(0),
            RecordReply::Done,
            RecordReply::Count(1),
        ]
    };
    assert!(matches!(
        TvMatcher.match_to_result(&record, &cache, &good()),
        RecordStep::Done((10, 20, 30))
    ));
    for (at, error) in [
        (0, ShowError::GetOrInsertMedia),
        (1, ShowError::GetOrInsertSeason),
        (2, ShowError::GetOrInsertEpisode),
        (3, ShowError::UpdateMediafile),
        (4, ShowError::GetSeasonId),
        (5, ShowError::GetTvId),
        (6, ShowError::ChildrenCount),
        (7, ShowError::ChildCleanup),
    ] {
        let mut replies = good();
        replies[at] = RecordReply::Failed;
        match TvMatcher.match_to_result(&record, &cache, &replies) {
            RecordStep::Failed(e) => assert_eq!(e, error),
            other => panic!("{at}: {other:?}"),
        }
    }
    let kept = show_record(false, Some(30));
    assert!(matches!(
        TvMatcher.match_to_result(&kept, &cache, &good()[..4].iter().map(copy_reply).collect()),
        RecordStep::Done((10, 20, 30))
    ));
}

fn copy_reply(r: &RecordReply) -> RecordReply {
    match r {
        RecordReply::Media { id, created } => RecordReply::Media { id: *id, created: *created },
        RecordReply::Id(id) => RecordReply::Id(*id),
        RecordReply::Count(n) => RecordReply::Count(*n),
        RecordReply::Done => RecordReply::Done,
        _ => RecordReply::Failed,
    }
}

#[test]
fn assets_have_normal_addresses_and_random_names() {
    let a: NewAsset = asset_from_url("HTTPS://Image.Host/a b.png").unwrap();
    assert_eq!(a.remote_url, Some("https://image.host/a%20b.png".to_string()));
    assert_eq!(a.file_ext, "jpg");
    assert_eq!(a.local_path.len(), "images/".len() + 36 + ".jpg".len());
    assert_eq!(a.local_path.as_bytes()["images/".len() + 14], b'4');
    let b = asset_from_url("https://image.host/").unwrap();
    assert_ne!(a.local_path, b.local_path);
    assert!(asset_from_url("not an address").is_none());
}

#[test]
fn assets_are_downloaded_to_where_they_are_served() {
    assert_eq!(format_path(Some("//x.jpg".to_string())), "images/x.jpg");
    assert_eq!(format_path(None), "");
    let mut a = Asset {
        id: 1,
        remote_url: Some("https://h/x".to_string()),
        local_path: "images/x.jpg".to_string(),
    };
    assert_eq!(
        enqueue_asset_download(&a),
        Some(("https://h/x".to_string(), "x.jpg".to_string()))
    );
    a.remote_url = None;
    assert_eq!(enqueue_asset_download(&a), None);
}

fn seen(path: &str, is_dir: bool) -> SeenPath {
    SeenPath { path: path.to_string(), is_dir, is_file: !is_dir }
}

#[test]
fn bursts_of_events_become_few_actions() {
    let event = |kind, paths| FsEvent { kind, paths };
    let events = vec![
        event(FsEventKind::Created, vec![seen("/m/Show/S1", true)]),
        event(FsEventKind::Created, vec![seen("/m/Show", true), seen("/m/Show/S1/e.mkv", false)]),
        event(FsEventKind::Created, vec![seen("/m/b.mkv", false), seen("/m/b.txt", false)]),
        event(FsEventKind::Created, vec![seen("/m/a.mkv", false), seen("/m//b.mkv", false)]),
        event(FsEventKind::Removed, vec![seen("/m/gone.mkv", false)]),
        event(FsEventKind::Renamed, vec![seen("/m/x.mkv", false), seen("/m/y.mkv", false)]),
        event(FsEventKind::Renamed, vec![seen("/m/x.mkv", false)]),
        event(FsEventKind::Other, vec![seen("/m/z.mkv", false)]),
    ];
    let actions = plan_batch(&events);
    assert_eq!(actions.len(), 4);
    assert!(matches!(&actions[0], WatchAction::Remove { path } if path == "/m/gone.mkv"));
    assert!(matches!(&actions[1], WatchAction::Rename { from, to }
        if from == "/m/x.mkv" && to == "/m/y.mkv"));
    assert!(matches!(&actions[2], WatchAction::Scan { dir } if dir == "/m/Show"));
    match &actions[3] {
        WatchAction::Index { files } => assert_eq!(files, &vec!["/m/a.mkv", "/m/b.mkv"]),
        other => panic!("{other:?}"),
    }
}

#[test]
fn batches_of_events_are_bounded() {
    assert!(keeps_draining(30_000_000_000, 4095));
    assert!(!keeps_draining(30_000_000_001, 1));
    assert!(!keeps_draining(0, 4096));
    let w = FsWatcher::new(4, MediaType::Tv);
    assert!(matches!(w.matcher, Matcher::Tv(_)));
}

#[test]
fn removed_files_take_empty_media_with_them() {
    let path = "/m/a.mkv".to_string();
    let mut replies = vec![];
    assert!(matches!(handle_remove(&path, &replies), WatchStep::Do(WatchOp::FileByPath(_))));
    replies.push(WatchReply::Id(3));
    assert!(matches!(handle_remove(&path, &replies), WatchStep::Do(WatchOp::MediaOfFile(3))));
    replies.push(WatchReply::Id(9));
    assert!(matches!(handle_remove(&path, &replies), WatchStep::Do(WatchOp::DeleteFile(3))));
    replies.push(WatchReply::Done);
    assert!(matches!(handle_remove(&path, &replies), WatchStep::Do(WatchOp::FilesOfMedia(9))));
    replies.push(WatchReply::Count(0));
    assert!(matches!(handle_remove(&path, &replies), WatchStep::Do(WatchOp::DeleteMedia(9))));
    replies.push(WatchReply::Done);
    assert!(matches!(handle_remove(&path, &replies), WatchStep::Do(WatchOp::Commit)));
    replies.push(WatchReply::Done);
    assert!(matches!(handle_remove(&path, &replies), WatchStep::End));
    assert!(matches!(handle_remove(&path, &vec![WatchReply::Failed]), WatchStep::End));
    let to = "/m/b.mkv".to_string();
    assert!(matches!(
        handle_rename(&path, &to, &vec![WatchReply::Id(3)]),
        WatchStep::Do(WatchOp::MoveFile { id: 3, .. })
    ));
}

#[test]
fn units_are_paired_and_cut_into_chunks() {
    let parsed = vec![
        ("/a.mkv".to_string(), vec![meta("A", None, None)]),
        ("/b.mkv".to_string(), vec![meta("B", None, None)]),
        ("/a.mkv".to_string(), vec![meta("A2", None, None)]),
    ];
    let units: Vec<WorkUnit> = pair_units(&parsed, &vec![file(1, "/a.mkv"), file(2, "/c.mkv")]);
    assert_eq!(units.len(), 1);
    assert_eq!((units[0].0.id, units[0].1[0].name.as_str()), (1, "A2"));
    assert_eq!(chunks(vec![1, 2, 3, 4, 5], 2), vec![vec![1, 2], vec![3, 4], vec![5]]);
    assert_eq!(chunks(Vec::<u8>::new(), 2), Vec::<Vec<u8>>::new());
    assert!(is_supported("mkv") && !is_supported("MKV"));
}

#[test]
fn directories_tell_the_show() {
    assert_eq!(show_directory("/m/Show/Season 2/e.mkv"), Some("/m/Show".to_string()));
    assert_eq!(show_directory("/m/Show/e.mkv"), Some("/m/Show".to_string()));
    assert_eq!(show_directory("/e.mkv"), None);
    let mapping = |path: &str, name: &str, id| ShowMapping {
        target_file: path.to_string(),
        show_name: name.to_string(),
        show_id: id,
    };
    let mappings = vec![
        mapping("/m/Show/Season 1/e1.mkv", "Show", 5),
        mapping("/m/Show/Season 2/e1.mkv", "Other", 6),
    ];
    let files = vec![file(1, "/m/Show/Season 3/e.mkv"), file(2, "/m/New/e.mkv")];
    let (known, unknown) = partition(&mappings, &files);
    assert_eq!(known.len(), 1);
    assert_eq!((known[0].file.id, known[0].show_name.as_str(), known[0].show_id), (1, "Show", 5));
    assert_eq!(unknown.len(), 1);
    assert_eq!(unknown[0].id, 2);
}

#[test]
fn ids_are_searched_once() {
    let mut cache = IdCache::new();
    let stored = Some("tmdb:1".to_string());
    assert!(matches!(cache.source(&stored, "Show"), IdSource::Known(Some(id)) if id == "tmdb:1"));
    assert!(matches!(cache.source(&None, "Show"), IdSource::Search));
    let id = lookup_external_id("Show", &vec![media("tmdb:9", "Show")]);
    assert_eq!(id, Some("tmdb:9".to_string()));
    cache.keep(&"Show".to_string(), &id);
    assert!(matches!(cache.source(&None, "Show"), IdSource::Known(Some(id)) if id == "tmdb:9"));
    assert_eq!(lookup_external_id("Show", &vec![media("1", "Quite different")]), None);
    assert_eq!(lookup_external_id("Show", &vec![]), None);
}

#[test]
fn known_files_are_numbered() {
    let id = "1".to_string();
    let parsed = vec![meta("Show", None, Some(14))];
    match number_known_file("/m/Show/Season 2/x.mkv", &parsed, &id, &vec![], 0) {
        NumberStep::Settled(ms, _) => assert_eq!(ms[0].season, Some(2)),
        other => panic!("{other:?}"),
    }
    let replies = vec![
        LookupReply::Seasons(vec![season(1), season(2)]),
        episodes(1..=12),
        episodes(1..=12),
    ];
    match number_known_file("/m/Show/x.mkv", &parsed, &id, &replies, 0) {
        NumberStep::Settled(ms, _) => assert_eq!((ms[0].season, ms[0].episode), (Some(2), Some(2))),
        other => panic!("{other:?}"),
    }
    assert!(matches!(
        number_known_file("/m/Show/x.mkv", &parsed, &id, &vec![], 0),
        NumberStep::Ask(LookupQuery::Seasons(_))
    ));
}

#[test]
fn unknown_files_are_matched_in_batches() {
    let files: Vec<MediaFile> =
        (0..130).map(|n| file(n, &format!("/m/New/Show.S01E{:02}.mkv", n % 90 + 1))).collect();
    let batches = unknown_batches(&files);
    assert_eq!(batches.len(), 2);
    assert_eq!((batches[0].len(), batches[1].len()), (128, 2));
}

#[test]
fn siblings_are_found_once() {
    assert_eq!(
        sibling_dirs("/m/Show/Season 1/e.mkv"),
        vec!["/m/Show".to_string(), "/m/Show/Season 1".to_string()]
    );
    assert_eq!(sibling_dirs("/m/Show/e.mkv"), vec!["/m/Show".to_string()]);
    assert!(sibling_dirs("/e.mkv").is_empty());
    let files = vec![file(3, "c"), file(1, "a"), file(3, "d")];
    let distinct = distinct_siblings(&files);
    let ids: Vec<(i64, &str)> = distinct.iter().map(|f| (f.id, f.target_file.as_str())).collect();
    assert_eq!(ids, vec![(1, "a"), (3, "c")]);
    let ms = sibling_metadata("/m/Show/Season 4/Show - 07.mkv").unwrap();
    assert!(ms.iter().all(|m| m.season == Some(4)));
}

fn known(id: i64, path: &str, show: &str) -> KnownFile {
    KnownFile { file: file(id, path), show_name: show.to_string(), show_id: 70 }
}

#[test]
fn scans_match_known_files_first_and_then_batches() {
    let files = vec![
        known(1, "/m/Show/Season 1/a.mkv", "Show"),
        known(2, "/m/Show/Season 1/b.mkv", "Show"),
    ];
    let parsed = vec![Some(vec![meta("a", None, Some(1))]), Some(vec![meta("b", None, Some(2))])];
    let mut replies = vec![];
    let mut step = |r: Option<LookupReply>| {
        if let Some(r) = r {
            replies.push(r);
        }
        smart_scan(&files, &parsed, 1, &replies)
    };
    assert!(matches!(step(None), ScanStep::Do(ScanOp::Stored(0))));
    assert!(matches!(
        step(Some(LookupReply::Stored(None))),
        ScanStep::Do(ScanOp::Ask(LookupQuery::Search { .. }))
    ));
    assert!(matches!(
        step(Some(LookupReply::Media(vec![media("tmdb:9", "Show")]))),
        ScanStep::Do(ScanOp::Open)
    ));
    match step(Some(LookupReply::Done)) {
        ScanStep::Do(ScanOp::Match { file: 0, external_id, metadata }) => {
            assert_eq!(external_id, "tmdb:9");
            assert_eq!((metadata[0].season, metadata[0].episode), (Some(1), Some(1)));
        }
        other => panic!("{other:?}"),
    }
    // A file that cannot be matched does not end the scan.
    assert!(matches!(step(Some(LookupReply::Failed)), ScanStep::Do(ScanOp::Commit)));
    assert!(matches!(step(Some(LookupReply::Done)), ScanStep::Do(ScanOp::Stored(1))));
    // The search is not repeated.
    assert!(matches!(step(Some(LookupReply::Stored(None))), ScanStep::Do(ScanOp::Open)));
    assert!(matches!(
        step(Some(LookupReply::Done)),
        ScanStep::Do(ScanOp::Match { file: 1, .. })
    ));
    assert!(matches!(step(Some(LookupReply::Done)), ScanStep::Do(ScanOp::Commit)));
    assert!(matches!(step(Some(LookupReply::Done)), ScanStep::Do(ScanOp::Open)));
    assert!(matches!(step(Some(LookupReply::Done)), ScanStep::Do(ScanOp::MatchBatch(0))));
    assert!(matches!(step(Some(LookupReply::Done)), ScanStep::Do(ScanOp::Commit)));
    assert!(matches!(step(Some(LookupReply::Done)), ScanStep::Do(ScanOp::AnnounceStop)));
    assert!(matches!(step(Some(LookupReply::Done)), ScanStep::Done));
}

#[test]
fn scans_end_where_the_database_fails() {
    let run = |replies: Vec<LookupReply>| smart_scan(&vec![], &vec![], 1, &replies);
    assert!(matches!(run(vec![LookupReply::Failed]), ScanStep::Failed(LibraryScanError::DatabaseError)));
    assert!(matches!(
        smart_scan(&vec![], &vec![], 0, &vec![LookupReply::Failed]),
        ScanStep::Failed(LibraryScanError::EventDispatch)
    ));
    let files = vec![known(1, "/m/Show/a.mkv", "Show")];
    assert!(matches!(
        smart_scan(&files, &vec![None], 0, &vec![LookupReply::Failed]),
        ScanStep::Failed(LibraryScanError::DatabaseError)
    ));
}

#[test]
fn files_that_cannot_be_read_are_skipped() {
    let parsed: Vec<(String, Vec<Metadata>)> = (0..600)
        .map(|i| {
            let meta = Metadata {
                name: format!("n{i}"),
                year: None,
                season: None,
                episode: None,
                language: None,
            };
            (format!("/{i}.mkv"), vec![meta])
        })
        .collect();
    let mut replies = vec![];
    let mut sizes = vec![];
    let units = loop {
        match insert_mediafiles(&parsed, &replies) {
            InsertStep::Construct(i) => replies.push(match i {
                0 => InsertReply::Failed,
                1 => InsertReply::FileExists,
                _ => InsertReply::Ready,
            }),
            InsertStep::Insert(places) => {
                sizes.push(places.len());
                let stored = places.iter().map(|p| file(*p as i64, &parsed[*p].0)).collect();
                replies.push(InsertReply::Stored(stored));
            }
            InsertStep::Failed => panic!("stored"),
            InsertStep::Done(units) => break units,
        }
    };
    assert_eq!(sizes, vec![256, 256, 86]);
    assert_eq!(units.len(), 598);
    assert_eq!(units[0].0.target_file, "/2.mkv");
    assert_eq!(units[0].1[0].name, "n2");
    assert_eq!(units[597].0.target_file, "/599.mkv");
    replies.truncate(601);
    replies.push(InsertReply::Failed);
    assert!(matches!(insert_mediafiles(&parsed, &replies), InsertStep::Failed));
}

#[test]
fn scans_match_every_batch() {
    let mut replies = vec![];
    let mut seen = vec![];
    while let LibraryScanStep::Do(op) = start_custom(&replies) {
        seen.push(op);
        replies.push(match op {
            LibraryScanOp::InsertFiles => LibraryScanReply::Batches(2),
            LibraryScanOp::Match(0) => LibraryScanReply::Failed,
            _ => LibraryScanReply::Done,
        });
    }
    assert_eq!(
        seen,
        vec![
            LibraryScanOp::AnnounceStart,
            LibraryScanOp::InsertFiles,
            LibraryScanOp::Open(0),
            LibraryScanOp::Match(0),
            LibraryScanOp::Commit(0),
            LibraryScanOp::Open(1),
            LibraryScanOp::Match(1),
            LibraryScanOp::Commit(1),
            LibraryScanOp::AnnounceStop,
        ]
    );
    assert_eq!(start(LibraryReply::Found, &replies), LibraryScanStep::Finished);
    let stopped = |place: usize| {
        let mut replies = replies[..place].to_vec();
        replies.push(LibraryScanReply::Failed);
        start_custom(&replies)
    };
    assert_eq!(stopped(0), LibraryScanStep::Stopped(LibraryScanError::EventDispatch));
    assert_eq!(stopped(1), LibraryScanStep::Stopped(LibraryScanError::Creator));
    assert_eq!(stopped(2), LibraryScanStep::Stopped(LibraryScanError::DatabaseError));
    assert_eq!(stopped(4), LibraryScanStep::Stopped(LibraryScanError::DatabaseError));
    assert_eq!(stopped(8), LibraryScanStep::Stopped(LibraryScanError::EventDispatch));
    assert_eq!(
        start(LibraryReply::Missing, &replies),
        LibraryScanStep::Stopped(LibraryScanError::LibraryNotFound)
    );
    assert_eq!(
        start(LibraryReply::Unreachable, &replies),
        LibraryScanStep::Stopped(LibraryScanError::DatabaseError)
    );
}

#[test]
fn files_that_name_an_id_are_matched_first() {
    assert_eq!(batch_order(&vec![false, true, false, true]), vec![1, 3, 0, 2]);
    assert_eq!(batch_order(&vec![]), Vec::<usize>::new());
}

#[test]
fn new_files_are_stored_and_matched() {
    let mut replies = vec![];
    let mut seen = vec![];
    loop {
        match handle_create_files(&replies) {
            CreateStep::End => break,
            step => seen.push(step),
        }
        replies.push(if seen.len() == 1 { CreateReply::Stored(2) } else { CreateReply::Done });
    }
    let all = vec![CreateStep::Insert, CreateStep::Open, CreateStep::Match, CreateStep::Commit];
    assert_eq!(seen, all);
    assert_eq!(handle_create_files(&vec![CreateReply::Stored(0)]), CreateStep::End);
    assert_eq!(handle_create_files(&vec![CreateReply::Failed]), CreateStep::End);
    let failed = vec![CreateReply::Stored(1), CreateReply::Done, CreateReply::Failed];
    assert_eq!(handle_create_files(&failed), CreateStep::End);
}

#[test]
fn siblings_are_matched_one_by_one() {
    let units = sibling_units(&vec![file(1, "/tv/Show/Season 2/Show.E03.mkv")]);
    assert_eq!(units.len(), 1);
    assert_eq!(units[0].1[0].season, Some(2));
    let mut done = vec![];
    let mut seen = vec![];
    loop {
        let step = match_siblings(2, &done);
        if step == SiblingStep::End {
            break;
        }
        seen.push(step);
        done.push(!matches!(step, SiblingStep::Match(0)));
    }
    assert_eq!(seen.len(), 6);
    assert_eq!(seen[3], SiblingStep::Open(1));
    assert_eq!(match_siblings(2, &vec![false]), SiblingStep::End);
    assert_eq!(match_siblings(2, &vec![true, true, false]), SiblingStep::End);
}

#[test]
fn smart_scans_open_with_the_library_and_an_announcement() {
    let run = |replies: &[OpeningReply]| smart_scan_opening(&replies.to_vec());
    let (done, failed, missing) = (OpeningReply::Done, OpeningReply::Failed, OpeningReply::Missing);
    let stopped = |e| OpeningStep::Stopped(e);
    let lib = OpeningReply::Loaded(1);
    assert_eq!(run(&[]), OpeningStep::Do(OpeningOp::LoadLibrary));
    assert_eq!(run(&[failed]), stopped(LibraryScanError::DatabaseError));
    assert_eq!(run(&[missing]), stopped(LibraryScanError::LibraryNotFound));
    assert_eq!(run(&[lib]), OpeningStep::Do(OpeningOp::AnnounceStart));
    assert_eq!(run(&[lib, failed]), stopped(LibraryScanError::EventDispatch));
    assert_eq!(run(&[lib, done]), OpeningStep::Do(OpeningOp::InsertFiles));
    assert_eq!(run(&[lib, done, failed]), stopped(LibraryScanError::Creator));
    assert_eq!(run(&[lib, done, done]), OpeningStep::Do(OpeningOp::LoadMappings));
    assert_eq!(run(&[lib, done, done, failed]), stopped(LibraryScanError::DatabaseError));
    assert_eq!(run(&[lib, done, done, missing]), OpeningStep::Do(OpeningOp::LoadUnmatched));
    assert_eq!(
        run(&[lib, done, done, missing, OpeningReply::Loaded(2)]),
        OpeningStep::Match { mapped: false }
    );
    assert_eq!(
        run(&[lib, done, done, lib, OpeningReply::Loaded(2)]),
        OpeningStep::Match { mapped: true }
    );
    for none in [missing, OpeningReply::Loaded(0)] {
        assert_eq!(
            run(&[lib, done, done, lib, none]),
            OpeningStep::Do(OpeningOp::AnnounceStop)
        );
        assert_eq!(run(&[lib, done, done, lib, none, done]), OpeningStep::Finished);
        assert_eq!(
            run(&[lib, done, done, lib, none, failed]),
            stopped(LibraryScanError::EventDispatch)
        );
    }
    let message = scan_message(7, true);
    assert_eq!(message.id, 7);
    assert!(matches!(message.event_type, PushEventType::EventStartedScanning));
    assert!(matches!(scan_message(7, false).event_type, PushEventType::EventStoppedScanning));
}

#[test]
fn libraries_are_followed_where_they_are() {
    let watcher = FsWatcher::new(7, MediaType::Tv);
    let mut replies = vec![];
    assert!(matches!(watcher.start_daemon(&replies), DaemonStep::Do(DaemonOp::Open)));
    assert!(matches!(watcher.start_daemon(&vec![DaemonReply::Failed]), DaemonStep::End));
    replies.push(DaemonReply::Done);
    assert!(matches!(
        watcher.start_daemon(&replies),
        DaemonStep::Do(DaemonOp::Library { library_id: 7 })
    ));
    assert!(matches!(
        watcher.start_daemon(&vec![DaemonReply::Done, DaemonReply::Failed]),
        DaemonStep::Failed(FsWatcherError::DatabaseError)
    ));
    replies.push(DaemonReply::Locations(vec!["/tv".to_string(), "/more".to_string()]));
    match watcher.start_daemon(&replies) {
        DaemonStep::Do(DaemonOp::Watch { paths }) => assert_eq!(paths, ["/tv", "/more"]),
        other => panic!("{other:?}"),
    }
    replies.push(DaemonReply::Failed);
    assert!(matches!(
        watcher.start_daemon(&replies),
        DaemonStep::Failed(FsWatcherError::NotifyError)
    ));
    replies.pop();
    replies.push(DaemonReply::Done);
    assert!(matches!(watcher.start_daemon(&replies), DaemonStep::Follow));
}
