use dim::filename::Metadata;
use dim::scanner::names::preclean_filename;
use dim::scanner::parse::{dedup, parse_filenames};
use dim::scanner::walk::get_subfiles;

/// Verify that parse_filenames strips outer parentheses.
#[test]
fn parse_parenthesized_filename() {
    let files = vec!["/media/Vigilante/Season 1/(Vigilante S01E08).mkv".to_string()];
    let parsed = parse_filenames(&files);
    assert_eq!(parsed.len(), 1);

    let (_, metas) = &parsed[0];
    // At least one metadata entry should have the title "Vigilante"
    assert!(
        metas.iter().any(|m| m.name.to_lowercase().contains("vigilante")
            && !m.name.contains('(')),
        "Should extract 'Vigilante' without parens, got: {metas:?}"
    );
    // Should extract season 1, episode 8
    assert!(
        metas.iter().any(|m| m.season == Some(1) && m.episode == Some(8)),
        "Should extract S01E08, got: {metas:?}"
    );
}

/// Verify grandparent directory fallback when parent is "Season N".
#[test]
fn parse_grandparent_fallback() {
    let files = vec!["/media/You and I Are Polar Opposites/Season 1/[Erai-raws].Seihantai.na.Kimi.to.Boku-04.[1080p].mkv".to_string()];
    let parsed = parse_filenames(&files);
    assert_eq!(parsed.len(), 1);

    let (_, metas) = &parsed[0];
    // Grandparent "You and I Are Polar Opposites" should appear as a fallback
    assert!(
        metas.iter().any(|m| m.name == "You and I Are Polar Opposites"),
        "Should have grandparent dir fallback, got: {metas:?}"
    );
}

/// Verify trailing -NN episode numbers are extracted from titles.
#[test]
fn parse_trailing_dash_episode() {
    let files = vec!["/media/Show/Season 1/[Erai-raws].Seihantai.na.Kimi.to.Boku-04.[1080p].mkv".to_string()];
    let parsed = parse_filenames(&files);
    assert_eq!(parsed.len(), 1);

    let (_, metas) = &parsed[0];
    // At least one entry should have the title cleaned (no "-04") and episode=4
    assert!(
        metas.iter().any(|m| !m.name.contains("-04") && m.episode == Some(4)),
        "Should strip -04 from title and extract episode 4, got: {metas:?}"
    );
}

/// Verify trailing -NNvN version suffix is handled (e.g. "-09v2" → episode 9).
#[test]
fn parse_trailing_dash_episode_with_version() {
    let files = vec!["/media/Demon Slayer/Season 1/[SubsPlease] Kimetsu no Yaiba-09v2 [1080p].mkv".to_string()];
    let parsed = parse_filenames(&files);
    assert_eq!(parsed.len(), 1);

    let (_, metas) = &parsed[0];
    // At least one entry should strip -09v2 and extract episode=9
    assert!(
        metas.iter().any(|m| !m.name.contains("-09") && m.episode == Some(9)),
        "Should strip -09v2 from title and extract episode 9, got: {metas:?}"
    );
    // Grandparent fallback should provide "Demon Slayer"
    assert!(
        metas.iter().any(|m| m.name == "Demon Slayer"),
        "Should have grandparent dir fallback, got: {metas:?}"
    );
}

/// Verify that resolution values (1920x1080) are not misinterpreted as season/episode.
#[test]
fn parse_sanitizes_resolution_as_season() {
    let files = vec!["/media/Gargantia on the Verdurous Planet/Season 1/[Moozzi2] Suisei no Gargantia-10 [BD 1920x1080 x265-10Bit Flac].mkv".to_string()];
    let parsed = parse_filenames(&files);
    assert_eq!(parsed.len(), 1);

    let (_, metas) = &parsed[0];
    // No metadata entry should have season=1920 or episode=1080
    assert!(
        !metas.iter().any(|m| m.season == Some(1920)),
        "Should not have season=1920 (resolution misparse), got: {metas:?}"
    );
    assert!(
        !metas.iter().any(|m| m.episode == Some(1080)),
        "Should not have episode=1080 (resolution misparse), got: {metas:?}"
    );
    // Should extract episode=10 from the trailing -10
    assert!(
        metas.iter().any(|m| m.episode == Some(10)),
        "Should extract episode 10 from '-10', got: {metas:?}"
    );
    // Grandparent fallback should have reasonable season/episode
    let gp = metas.iter().find(|m| m.name == "Gargantia on the Verdurous Planet");
    assert!(gp.is_some(), "Should have grandparent fallback, got: {metas:?}");
    let gp = gp.unwrap();
    assert!(
        gp.season.unwrap_or(0) <= 100,
        "Grandparent should not inherit bogus season, got: {gp:?}"
    );
}

/// Verify that hash values in brackets are not misinterpreted as season.
#[test]
fn parse_sanitizes_hash_as_season() {
    let files = vec!["/media/TRIGUN STAMPEDE/Season 1/[SubsPlease] Trigun Stargaze-16 [1080p] [47218EED].mkv".to_string()];
    let parsed = parse_filenames(&files);
    assert_eq!(parsed.len(), 1);

    let (_, metas) = &parsed[0];
    // No metadata entry should have season=47218
    assert!(
        !metas.iter().any(|m| m.season == Some(47218)),
        "Should not have season=47218 (hash misparse), got: {metas:?}"
    );
}

#[test]
fn debug_unmatched_live_filenames() {
    let files = [
        "/media/tv/An Adventurer's Daily Grind at Age 29/Season 1/[Erai-raws].29 sai.Dokushin.Chuuken.Boukensha.no.Nichijou-06.[1080p.CR.WEB-DL.AVC.AAC][MultiSub][97B0C3E0].mkv",
        "/media/tv/Berserk (2016)/Season 2/[Yellow-Flash] Berserk - 13 [10bit][1080p][26B52C41].mkv",
        "/media/tv/Berserk (2016)/Season 2/[Yellow-Flash].Berserk-23.[10bit][1080p][03C218B5].mkv",
        "/media/tv/Berserk - The Golden Age Arc - Memorial Edition/Season 1/Izu B~1.mkv",
        "/media/tv/DARK MOON - THE BLOOD ALTAR/Season 1/[LbE3L] DARK MOON. THE BLOOD ALTAR S01E04v2 [1080p CR WEBRip AV1 Opus 2.0 Multi-Audio MSubs].mkv",
        "/media/tv/Flower of Evil/Season 1/Agui.kkot.S01E08.Flower.of.Evil.1080p.AMZN.WEB-DL.DD+2.0.H.264-playWEB.mkv",
        "/media/tv/From Old Country Bumpkin to Master Swordsman/Season 1/[Erai-raws].Katainaka.no.Ossan.Kensei.ni.Naru-08.[1080p.AMZN.WEB-DL.AVC.EAC3][MultiSub][8A3AE688].mkv",
        "/media/tv/GOOD BOY/Season 1/NZB 18a9b70c-f419-4962-a072-2b2e54543d16.mkv",
        "/media/tv/JUJUTSU KAISEN/Season 1/[Kaizoku].Jujutsu.Kaisen-22.BD.1080p.[E63F0771].mkv",
        "/media/tv/Mushoku Tensei - Jobless Reincarnation/Season 1/[Moozzi2] Mushoku Tensei Isekai Ittara Honki Dasu-23 END [BD 1920x1080 x265-10Bit Flac].mkv",
        "/media/tv/My Love Story!!/Season 1/[Datte13].My.Love.Story-S01E02.[BD.1080p.Hi10].[Dual-Audio.FLAC].mkv",
        "/media/tv/TRIGUN STAMPEDE/Season 2/[SubsPlease] Trigun Stargaze - 17 (1080p) [4D2EEF39].mkv",
        "/media/tv/TRIGUN STAMPEDE/Season 2/[SubsPlease] Trigun Stargaze-16 [1080p] [47218EED].mkv",
        "/media/tv/The Failed Sage's Academy Domination/Season 1/[SubsPlease] Rakudai Kenja no Gakuin Musou - 01 (1080p) [EFD70185].mkv",
        "/media/tv/Titans (2018)/Season 3/Titans.S03E05.Lazarus.1080p.BluRay.Dts-HDMa5.1.AVC-PiR8.mkv",
    ];

    let files: Vec<String> = files.iter().map(|f| f.to_string()).collect();
    let parsed = parse_filenames(&files);
    for (path, metas) in &parsed {
        println!("== {}", path);
        for m in metas {
            println!(
                "   name={:?} year={:?} season={:?} episode={:?}",
                m.name, m.year, m.season, m.episode
            );
        }
    }

    // (name, year, season, episode) tuples that must be present for each file.
    let has = |idx: usize, name: &str, year: Option<i64>, season: i64, episode: i64| {
        assert!(
            parsed[idx].1.iter().any(|m| m.name == name
                && m.year == year
                && m.season == Some(season)
                && m.episode == Some(episode)),
            "file {} missing expected meta {:?}",
            parsed[idx].0,
            name,
        );
    };

    has(0, "An Adventurer's Daily Grind at Age 29", None, 1, 6);
    has(1, "Berserk", Some(2016), 2, 13); // CRC hash must not become the episode
    has(2, "Berserk", Some(2016), 2, 23);
    has(4, "DARK MOON - THE BLOOD ALTAR", None, 1, 4); // v2 suffix
    has(5, "Flower of Evil", None, 1, 8);
    has(6, "From Old Country Bumpkin to Master Swordsman", None, 1, 8); // was ep 688
    has(8, "Jujutsu Kaisen", None, 1, 22); // was ep 63
    has(9, "Mushoku Tensei - Jobless Reincarnation", None, 1, 23); // "-23 END"
    has(10, "My Love Story!!", None, 1, 2); // glued "-S01E02"
    has(11, "TRIGUN STAMPEDE", None, 2, 17);
    has(12, "TRIGUN STAMPEDE", None, 2, 16);
    has(13, "The Failed Sage's Academy Domination", None, 1, 1);
    has(14, "Titans", Some(2018), 3, 5);

    // uuid junk must not poison the folder fallback with fake season/episode
    let good_boy = &parsed[7].1;
    assert!(good_boy
        .iter()
        .any(|m| m.name == "GOOD BOY" && m.season == Some(1) && m.episode.is_none()));
    assert!(!good_boy.iter().any(|m| m.episode == Some(545)));
}

#[test]
fn media_files_are_kept_and_hidden_ones_are_not() {
    let found: Vec<String> = [
        "/t/file1.mkv",
        "/t/file2.avi",
        "/t/file3.txt",
        "/t/a/b/file4.webm",
        "/t/a/file5.mp4",
        "/t/.hidden.mp4",
        "/t/.dir/file6.mkv",
        "/t/upper.MKV",
    ]
    .iter()
    .map(|f| f.to_string())
    .collect();
    assert_eq!(
        get_subfiles(&found),
        vec!["/t/file1.mkv", "/t/file2.avi", "/t/a/b/file4.webm", "/t/a/file5.mp4"]
    );
}

#[test]
fn season_directories_decide() {
    let files = vec!["/media/Show/Season 3/Show.S01E02.mkv".to_string()];
    let parsed = parse_filenames(&files);
    let metas: &Vec<Metadata> = &parsed[0].1;
    assert!(metas.iter().all(|m| m.season == Some(3)));
}

#[test]
fn names_without_markers_are_kept() {
    assert_eq!(preclean_filename("Amélie"), "Amélie");
    assert_eq!(preclean_filename("Die Wächter [8A3AE688]"), "Die Wächter ");
    assert_eq!(preclean_filename("Pokémon-S01E04v2"), "Pokémon S01E04");
    assert_eq!(preclean_filename("進撃の巨人-23 END"), "進撃の巨人-23");
}

#[test]
fn names_beyond_ascii_are_read() {
    let files = vec!["/films/Amélie (2001)/Amélie.2001.1080p.mkv".to_string()];
    let parsed = parse_filenames(&files);
    let metas: &Vec<Metadata> = &parsed[0].1;
    assert!(metas.iter().any(|m| m.name == "Amélie" && m.year == Some(2001)));
}

#[test]
fn searches_are_not_repeated() {
    let meta = |name: &str, year, season, episode| Metadata {
        name: name.to_string(),
        year,
        season,
        episode,
        language: None,
    };
    let all = vec![
        meta("Show", None, None, Some(4)),
        meta("Other", None, Some(1), None),
        meta("SHOW", None, Some(2), Some(5)),
        meta("Show", Some(2020), None, None),
    ];
    let merged = dedup(&all);
    assert_eq!(merged.len(), 3);
    assert_eq!(merged[0].name, "Show");
    assert_eq!((merged[0].season, merged[0].episode), (Some(2), Some(4)));
    let files = vec!["/media/Boku no Hero/[Group] Boku no Hero - 04 [1080p].mkv".to_string()];
    let metas = &parse_filenames(&files)[0].1;
    for (i, a) in metas.iter().enumerate() {
        for b in &metas[i + 1..] {
            assert!(a.name.to_lowercase() != b.name.to_lowercase() || a.year != b.year);
        }
    }
}
