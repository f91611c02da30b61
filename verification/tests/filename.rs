use dim::filename::{
    detect_language, normalize_title, strip_release_group, try_tnp_parse, Anitomy,
    CombinedExtractor, FilenameMetadata, TorrentMetadata,
};

#[test]
fn detect_german_from_scene_release() {
    assert_eq!(
        detect_language("Alles.Steht.Kopf.2.2024.German.DL.EAC3.2160p.WEB.DV.HDR.HEVC-Lansen"),
        Some("de-DE".into())
    );
}

#[test]
fn detect_german_spaced() {
    assert_eq!(
        detect_language("Die Schule der magischen Tiere 3 2024 German DTS 1080p BluRay x264 - EVKAN"),
        Some("de-DE".into())
    );
}

#[test]
fn detect_french() {
    assert_eq!(
        detect_language("Le.Petit.Prince.2015.French.1080p.BluRay"),
        Some("fr-FR".into())
    );
}

#[test]
fn detect_none_for_english() {
    assert_eq!(
        detect_language("Inside.Out.2.2024.1080p.BluRay.x264"),
        None
    );
}

#[test]
fn normalize_strips_zdfmediathek() {
    assert_eq!(
        normalize_title("Die Olchis - Willkommen in Schmuddelfing - ZDFmediathek"),
        "Die Olchis - Willkommen in Schmuddelfing"
    );
}

#[test]
fn normalize_strips_ardmediathek() {
    assert_eq!(
        normalize_title("Some Show - ARDmediathek"),
        "Some Show"
    );
}

#[test]
fn normalize_dots_and_platform() {
    assert_eq!(
        normalize_title("Die.Olchis.Willkommen.in.Schmuddelfing.-.ZDFmediathek"),
        "Die Olchis Willkommen in Schmuddelfing"
    );
}

#[test]
fn normalize_no_platform_unchanged() {
    assert_eq!(
        normalize_title("Inside.Out.2"),
        "Inside Out 2"
    );
}

#[test]
fn detect_jpn_abbreviation() {
    assert_eq!(
        detect_language("Orb.On.the.Movements.of.the.Earth.S01E15.1080p.NF.WEB-DL.JPN.AAC2.0.H.264"),
        Some("ja-JP".into())
    );
}

#[test]
fn detect_ger_abbreviation() {
    assert_eq!(
        detect_language("Movie.2024.GER.DTS.1080p.BluRay"),
        Some("de-DE".into())
    );
}

#[test]
fn strip_release_group_hdmedia() {
    assert_eq!(
        strip_release_group("hdmedia grinch 2018"),
        Some("grinch 2018".into())
    );
}

#[test]
fn strip_release_group_sneakman() {
    assert_eq!(
        strip_release_group("sneakman der wilde roboter"),
        Some("der wilde roboter".into())
    );
}

#[test]
fn strip_release_group_preserves_articles() {
    // "the grinch" starts with "the" — a common word, not a release group
    assert_eq!(strip_release_group("the grinch 2018"), None);
}

#[test]
fn strip_release_group_too_short() {
    // Only 2 words total — don't strip
    assert_eq!(strip_release_group("hdmedia grinch"), None);
}

#[test]
fn release_names_are_read() {
    let m = TorrentMetadata::from_str("Titans.S03E05.Lazarus.1080p.BluRay").unwrap();
    assert_eq!((m.name.as_str(), m.season, m.episode), ("Titans", Some(3), Some(5)));
    let m = TorrentMetadata::from_str("Inside.Out.2.2024.1080p.BluRay.x264").unwrap();
    assert_eq!(m.year, Some(2024));
}

#[test]
fn anime_names_are_read() {
    let m = Anitomy::from_str("[SubsPlease] Trigun Stargaze - 17 (1080p)").unwrap();
    assert_eq!((m.name.as_str(), m.episode), ("Trigun Stargaze", Some(17)));
    let m = CombinedExtractor::from_str("[SubsPlease] Trigun Stargaze - 17 (1080p)");
    assert!(m.is_some());
}

#[test]
fn numbers_that_cannot_be_read_are_not_asked_for() {
    for name in [
        "Show.S٠١E02.mkv",
        "Show.S01E٠٢.mkv",
        "Show ٣x٤",
        "Show S01 - ٢",
        "Season ٣",
        "Show.ſ٣.",
        "Show.s٣.e",
        "Episode.7 episode ٣",
        "E01-E٣",
        "E01E02e٣",
        "Film 19٩٩",
        "Film 2019 20٢٤",
        "Show 12345678901",
    ] {
        assert!(try_tnp_parse(name).is_none(), "{name}");
    }
}

#[test]
fn digits_that_are_not_numbers_are_no_hindrance() {
    let f = try_tnp_parse("٣ Idiots 2009 1080p").unwrap();
    assert_eq!((f.title.as_str(), f.year), ("٣ Idiots", Some(2009)));
    let f = try_tnp_parse("Show.S01E02.Part.e٣").unwrap();
    assert_eq!((f.season, f.episode), (Some(1), Some(2)));
    assert_eq!(try_tnp_parse("Film 20٢٤ 2019").unwrap().year, Some(2019));
    assert_eq!(try_tnp_parse("Film 919٩٩ 2019").unwrap().year, Some(2019));
    assert_eq!(try_tnp_parse("Film 2019 19٩٩1").unwrap().year, Some(2019));
    assert_eq!(try_tnp_parse("Film.٣.1999").unwrap().year, Some(1999));
    assert_eq!(try_tnp_parse("Show.S01E02 - ٣").unwrap().episode, Some(2));
    assert_eq!(try_tnp_parse("Show E01 ٣, E02").unwrap().episode, Some(1));
    assert_eq!(try_tnp_parse("Show e1234٣").unwrap().episode, Some(123));
    assert!(TorrentMetadata::from_str("Film ٣").is_some());
}

#[test]
fn normalized_titles_are_tidy() {
    let t = normalize_title("  The._Great  Escape_.");
    assert_eq!(t, "The Great Escape");
    assert_eq!(normalize_title(&t), t);
}

#[test]
fn the_torrent_name_parser_reads_these_numbers() {
    let read = |name: &str| {
        let f = try_tnp_parse(name).unwrap();
        (f.season, f.episode, f.year)
    };
    assert_eq!(read("Show.S13.x"), (Some(3), None, None));
    assert_eq!(read("Show.\u{17f}13.x"), (Some(3), None, None));
    assert_eq!(read("Show SEASON-12"), (Some(12), None, None));
    assert_eq!(read("Show S04 - 17"), (Some(4), Some(17), None));
    assert_eq!(read("Show 4x17"), (Some(4), Some(17), None));
    assert_eq!(read("Show 4 e17"), (Some(4), Some(17), None));
    assert_eq!(read("Show EPISODE 17"), (None, Some(17), None));
    assert_eq!(read("Show e-1234"), (None, Some(123), None));
    assert_eq!(read("Film 1999 2019"), (None, None, Some(2019)));
    assert_eq!(read("Film 1999 20199"), (None, None, Some(1999)));
    assert_eq!(read("Film 19992019"), (None, None, None));
}
