use dim::components::{split_path, tidy_paths, top_dirs};
use dim::paths::{extension, file_name, file_stem, join_name, parent, with_extension};
use dim::routes::library::{
    authorize, automatch_batches, library_automatch, library_delete, library_get_media,
    library_get_unmatched, library_post, library_scan, rank, AddOp, AddStep, AutomatchOp,
    AutomatchReply, AutomatchStep, LibraryError, MediaRecord, ScanKind, UnmatchedArgs, UnmatchedFile,
};
use dim::routes::notifications::{
    media_added, push_event, Notification, NotificationListParams,
};
use dim::routes::proxy::{
    connect_error, proxy_address, relay, syncplay_proxy, ProxyParams, RelayAction, SocketMessage,
};
use dim::routes::rooms::{
    change_media_status, join_room_status, media_for_change, CreateRoomBody,
};
use dim::scanner::records::{MediaFile, MediaType};
use dim::settings::{
    cpu_features, default_tmdb_key, deserialize_hwaccel, get_global_settings,
    http_get_global_settings, http_set_global_settings, init_global_settings, set_global_settings,
    version_line, DecodeMethod, DefaultCodec, GlobalSettings, HwAccelCompat, HwAccelMethod, SettingsStore,
};
use dim::status::Status;
use dim::sync_engine::room::ControlMode;
use dim::text::{dec_i64, parse_i64, split_whitespace, strip_suffix};

fn s(x: &str) -> Option<String> {
    Some(x.to_string())
}

#[test]
fn settings_have_defaults() {
    let d = GlobalSettings::defaults(true, true);
    assert_eq!(d.port, 8000);
    assert_eq!(d.syncplay_port, 8999);
    assert_eq!(d.metadata_dir, "/opt/dim/config/metadata");
    assert_eq!(GlobalSettings::defaults(true, false).metadata_dir, "/opt/dim/metadata");
    assert_eq!(GlobalSettings::defaults(false, true).cache_dir, "./streaming_cache");
    assert_eq!(d.tmdb_api_key, default_tmdb_key());
    assert_eq!(HwAccelMethod::default(), HwAccelMethod::Off);
    assert_eq!(DecodeMethod::default(), DecodeMethod::Auto);
    assert_eq!(DefaultCodec::default(), DefaultCodec::H264);
}

#[test]
fn settings_are_kept() {
    let mut store = SettingsStore { current: GlobalSettings::defaults(true, false) };
    let mut new = get_global_settings(&store);
    new.port = 9000;
    new.webhook_api_key = "k".to_string();
    assert_eq!(set_global_settings(&mut store, new).port, 9000);
    assert_eq!(get_global_settings(&store).webhook_api_key, "k");
    init_global_settings(&mut store, None, true, false);
    assert_eq!(get_global_settings(&store).port, 8000);
}

#[test]
fn older_files_have_a_switch() {
    let read = |v| deserialize_hwaccel(&v);
    assert_eq!(read(HwAccelCompat::Legacy(true)), Some(HwAccelMethod::Auto));
    assert_eq!(read(HwAccelCompat::Legacy(false)), Some(HwAccelMethod::Off));
    assert_eq!(read(HwAccelCompat::New("vaapi".to_string())), Some(HwAccelMethod::Vaapi));
    assert_eq!(read(HwAccelCompat::New("Vaapi".to_string())), None);
}

#[test]
fn versions_are_shown() {
    let features = cpu_features("", &vec!["avx2".to_string(), "sse4.1".to_string()]);
    assert_eq!(features, "avx2,sse4.1");
    assert_eq!(cpu_features("neon", &vec![]), "neon");
    assert_eq!(cpu_features("", &vec![]), "none");
    assert_eq!(
        version_line("x86_64", "release", "today", "none"),
        "x86_64 release | today | cpu: none"
    );
}

#[test]
fn libraries_are_for_their_owner() {
    assert_eq!(authorize(false, true), Err(LibraryError::Unauthorized));
    assert_eq!(authorize(true, false), Err(LibraryError::LibraryNotFound));
    assert_eq!(authorize(true, true), Ok(()));
    assert_eq!(library_scan(MediaType::Tv), ScanKind::Smart);
    assert_eq!(library_scan(MediaType::Movie), ScanKind::Standard);
    assert_eq!(library_delete(0), Err(LibraryError::LibraryNotFound));
    assert_eq!(library_delete(1), Ok(Status::NoContent));
}

#[test]
fn libraries_are_added_scanned_and_then_followed() {
    assert_eq!(library_post(false, &vec![]), AddStep::Refused(Status::Unauthorized));
    let mut done = vec![];
    let mut seen = vec![];
    while let AddStep::Do(op) = library_post(true, &done) {
        seen.push(op);
        done.push(op != AddOp::Scan);
    }
    assert_eq!(
        seen,
        vec![AddOp::Open, AddOp::Insert, AddOp::Commit, AddOp::Answer, AddOp::Scan, AddOp::Watch]
    );
    assert_eq!(
        library_post(true, &vec![true, false]),
        AddStep::Refused(Status::InternalServerError)
    );
}

#[test]
fn only_the_owner_sets_the_settings() {
    let mut store = SettingsStore { current: GlobalSettings::defaults(true, false) };
    let mut wanted = GlobalSettings::defaults(true, false);
    wanted.cache_dir = "/elsewhere".to_string();
    wanted.version = "posted".to_string();
    let line = version_line("x86_64", "release", "2024-05-01", "none");
    let refused = http_set_global_settings(&mut store, false, wanted.copy(), line.clone());
    assert!(refused.is_none());
    assert_ne!(store.current.cache_dir, "/elsewhere");
    let now = http_set_global_settings(&mut store, true, wanted, line.clone()).unwrap();
    assert_eq!(now.cache_dir, "/elsewhere");
    assert_eq!(now.version, "x86_64 release | 2024-05-01 | cpu: none");
    assert_eq!(store.current.cache_dir, "/elsewhere");
    assert_eq!(store.current.version, "posted");
    let read = http_get_global_settings(&store, line);
    assert_eq!(read.cache_dir, "/elsewhere");
    assert_eq!(read.version, "x86_64 release | 2024-05-01 | cpu: none");
}

#[test]
fn all_batches_are_matched() {
    let mut replies = vec![];
    let mut seen = vec![];
    loop {
        match library_automatch(&replies) {
            AutomatchStep::Do(op) => {
                seen.push(op);
                replies.push(match op {
                    AutomatchOp::LoadUnmatched => AutomatchReply::Batches(2),
                    AutomatchOp::Match(_) => AutomatchReply::Failed,
                    _ => AutomatchReply::Done,
                });
            }
            AutomatchStep::End => break,
        }
    }
    assert_eq!(seen.len(), 9);
    assert_eq!(seen[5], AutomatchOp::Open(1));
    assert_eq!(seen[8], AutomatchOp::AnnounceStop);
    let failed = vec![AutomatchReply::Done, AutomatchReply::Failed];
    assert_eq!(library_automatch(&failed), AutomatchStep::End);
    let files = vec![MediaFile {
        id: 1,
        library_id: 1,
        media_id: None,
        target_file: "/m/Show.S01E01.mkv".to_string(),
    }];
    assert_eq!(automatch_batches(&files)[0][0].0.id, 1);
}

#[test]
fn media_are_listed_by_name() {
    let card = |id, name: &str| MediaRecord { id, name: name.to_string(), poster_path: None };
    let list = library_get_media(vec![card(1, "b"), card(2, "a"), card(3, "b"), card(4, "B")]).unwrap();
    assert_eq!(list.iter().map(|m| m.id).collect::<Vec<_>>(), vec![4, 2, 1, 3]);
    assert_eq!(library_get_media(vec![]).err(), Some(Status::NotFound));
}

fn unmatched(id: i64, path: &str) -> UnmatchedFile {
    UnmatchedFile { id, name: String::new(), duration: None, target_file: path.to_string() }
}

#[test]
fn unmatched_files_are_listed_and_searched() {
    let files = || {
        vec![
            unmatched(1, "/m/zebra.mkv"),
            unmatched(2, "/m/alpha one.mkv"),
            unmatched(3, "/m/sub/alpha.mkv"),
        ]
    };
    let ids = |search: Option<String>| -> Vec<i64> {
        library_get_unmatched(files(), &UnmatchedArgs { search }).iter().map(|f| f.id).collect()
    };
    assert_eq!(ids(None), vec![2, 3, 1]);
    let found = ids(s("alpha"));
    assert_eq!(found.len(), 2);
    assert!(found.contains(&2) && found.contains(&3));
    assert_eq!(ids(s("zebra")), vec![1]);
    assert_eq!(ids(s("")), vec![2, 3, 1]);
    assert_eq!(ids(s("nothing")), Vec::<i64>::new());
    assert_eq!(rank(&vec![Some(1), None, Some(7), Some(7)]), vec![2, 3, 0]);
}

#[test]
fn rooms_answer_with_statuses() {
    assert_eq!(change_media_status("Room not found").code(), 404);
    assert_eq!(change_media_status("Room media has changed").code(), 409);
    assert_eq!(change_media_status("Only the host can change the media").code(), 403);
    assert_eq!(join_room_status("Invalid password").code(), 403);
    assert_eq!(join_room_status("Room not found").code(), 404);
    assert_eq!(media_for_change(None, None).err().unwrap().1, "Media file not found");
    assert_eq!(media_for_change(Some(None), None).err().unwrap().0, Status::BadRequest);
    assert_eq!(media_for_change(Some(Some(3)), None).err().unwrap().1, "Media not found");
    assert_eq!(media_for_change(Some(Some(3)), s("x")).ok(), Some((3, "x".to_string())));
    let body = |mode: Option<String>| CreateRoomBody {
        media_file_id: 1,
        media_id: 1,
        media_name: String::new(),
        control_mode: mode,
        password: None,
    };
    assert_eq!(body(s("egalitarian")).mode(), Some(ControlMode::Egalitarian));
    assert_eq!(body(s("host_only")).mode(), Some(ControlMode::HostOnly));
    assert_eq!(body(s("chaos")).mode(), None);
    assert_eq!(Status::BadRequest.code(), 400);
    assert_eq!(Status::InternalServerError.code(), 500);
}

#[test]
fn relays_need_a_user() {
    let params = |token| ProxyParams { host: "sync.example".to_string(), port: 8995, token };
    assert_eq!(syncplay_proxy(&params(s("t")), Some(1), true), Ok(()));
    assert_eq!(syncplay_proxy(&params(None), Some(1), true), Err(Status::Unauthorized));
    assert_eq!(syncplay_proxy(&params(s("t")), None, true), Err(Status::Unauthorized));
    assert_eq!(syncplay_proxy(&params(s("t")), Some(1), false), Err(Status::Unauthorized));
    assert_eq!(proxy_address(&params(None)), "sync.example:8995");
    assert_eq!(connect_error("a:1", "no"), "Failed to connect to a:1: no");
    assert!(matches!(relay(SocketMessage::Text("x".to_string())),
        RelayAction::Forward(line) if line == "x\r\n"));
    assert!(matches!(relay(SocketMessage::Ping(vec![1])), RelayAction::Pong(p) if p == vec![1]));
    assert!(matches!(relay(SocketMessage::Close), RelayAction::Stop));
    assert!(matches!(relay(SocketMessage::Other), RelayAction::Nothing));
}

#[test]
fn notifications_are_told() {
    let n = Notification::inserted(4, media_added(&"T added".to_string(), &s("b"), Some(2), &None), 99);
    assert_eq!((n.id, n.user_id, n.category.as_str(), n.created_at), (4, None, "media_added", 99));
    assert_eq!(push_event(&n).id, 4);
    assert_eq!(NotificationListParams::new(None).limit, 50);
    assert_eq!(NotificationListParams::new(Some(3)).limit, 3);
}

#[test]
fn paths_have_parts() {
    assert_eq!(file_name("/a/b.tar.gz/"), s("b.tar.gz"));
    assert_eq!(parent("/a/b"), s("/a"));
    assert_eq!(parent("/"), None);
    assert_eq!(file_stem("/a/.hidden"), s(".hidden"));
    assert_eq!(extension("/a/b.tar.gz"), s("gz"));
    assert_eq!(extension("/a/.hidden"), None);
    assert_eq!(with_extension("/a/b.mkv", "nfo"), "/a/b.nfo");
    assert_eq!(join_name("/a", "b"), "/a/b");
    assert_eq!(split_path("/a//b/./c/"), vec!["/", "a", "b", "c"]);
    assert_eq!(split_path("./a"), vec![".", "a"]);
    let paths: Vec<String> =
        ["/b", "/a/c", "/a", "/a/", "/a-b", "/b/x"].iter().map(|p| p.to_string()).collect();
    let tidy = tidy_paths(&paths);
    assert_eq!(tidy, vec!["/a", "/a/c", "/a-b", "/b", "/b/x"]);
    assert_eq!(top_dirs(&tidy), vec!["/a", "/a-b", "/b"]);
}

#[test]
fn numbers_and_words_are_read() {
    assert_eq!(dec_i64(i64::MIN), "-9223372036854775808");
    assert_eq!(parse_i64("-9223372036854775808"), Some(i64::MIN));
    assert_eq!(parse_i64("9223372036854775808"), None);
    assert_eq!(parse_i64("+7"), Some(7));
    assert_eq!(split_whitespace(" a\u{3000}b \n"), vec!["a", "b"]);
    assert_eq!(strip_suffix("abc", "bc"), s("a"));
}
