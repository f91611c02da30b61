use dim::scanner::nfo::{
    discover_external_id, extract_id_tag, is_nfo_size, nfo_candidates, parse_nfo_content,
};

#[test]
fn folder_tags() {
    assert_eq!(
        extract_id_tag("Breaking Bad (2008) {tmdb-1396}"),
        Some("tmdb:1396".into())
    );
    assert_eq!(
        extract_id_tag("Breaking Bad [tvdbid-81189]"),
        Some("tvdb:81189".into())
    );
    assert_eq!(
        extract_id_tag("The Matrix (1999) [imdbid-tt0133093]"),
        Some("imdb:tt0133093".into())
    );
    assert_eq!(
        extract_id_tag("Show {tmdbid=456}"),
        Some("tmdb:456".into())
    );
    // No bracket introduction — must not match.
    assert_eq!(extract_id_tag("tmdb-123 the movie"), None);
    assert_eq!(extract_id_tag("Plain Show Name (2020)"), None);
}

#[test]
fn nfo_uniqueid() {
    let nfo = r#"<?xml version="1.0"?>
            <tvshow>
              <title>Breaking Bad</title>
              <uniqueid type="imdb">tt0903747</uniqueid>
              <uniqueid type="tmdb" default="true">1396</uniqueid>
            </tvshow>"#;
    assert_eq!(parse_nfo_content(nfo), Some("tmdb:1396".into()));
}

#[test]
fn nfo_legacy_tags() {
    assert_eq!(
        parse_nfo_content("<movie><tmdbid>603</tmdbid></movie>"),
        Some("tmdb:603".into())
    );
    assert_eq!(
        parse_nfo_content("<movie><imdbid>tt0133093</imdbid></movie>"),
        Some("imdb:tt0133093".into())
    );
}

#[test]
fn nfo_urls() {
    assert_eq!(
        parse_nfo_content("https://www.themoviedb.org/tv/1396-breaking-bad"),
        Some("tmdb:1396".into())
    );
    assert_eq!(
        parse_nfo_content("see https://www.imdb.com/title/tt0133093/"),
        Some("imdb:tt0133093".into())
    );
}

#[test]
fn nfo_garbage() {
    assert_eq!(parse_nfo_content("not xml at all"), None);
    assert_eq!(parse_nfo_content("<uniqueid type=\"tmdb\">"), None);
}

#[test]
fn directories_and_sidecars_give_ids() {
    let file = "/media/Breaking Bad {tvdb-81189}/Season 1/e1.mkv";
    let nfos = vec![None; nfo_candidates(file).len()];
    assert_eq!(discover_external_id(file, &nfos), Some("tvdb:81189".to_string()));
    let plain = "/media/Breaking Bad/Season 1/e1.mkv";
    let mut nfos = vec![None; nfo_candidates(plain).len()];
    assert_eq!(discover_external_id(plain, &nfos), None);
    nfos[0] = Some("<TMDBID>1396</TMDBID>".to_string());
    assert_eq!(discover_external_id(plain, &nfos), Some("tmdb:1396".to_string()));
}

#[test]
fn sidecars_are_small_files() {
    assert!(is_nfo_size(true, 100));
    assert!(!is_nfo_size(false, 100));
}

#[test]
fn bare_imdb_ids_are_read() {
    assert_eq!(
        parse_nfo_content("<movie><id>tt0133093</id></movie>"),
        Some("imdb:tt0133093".to_string())
    );
    assert_eq!(parse_nfo_content("<movie><id>12345</id></movie>"), None);
    assert_eq!(
        parse_nfo_content("<movie><id>tt0133093</id><tmdbid>603</tmdbid></movie>"),
        Some("tmdb:603".to_string())
    );
}
