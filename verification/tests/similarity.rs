use dim::external::ExternalMedia;
use dim::scanner::similarity::{best_title_similarity, title_similarity, Score};

fn ratio(s: Score) -> f64 {
    s.num as f64 / s.den as f64
}

fn media(title: &str, original: Option<&str>) -> ExternalMedia {
    ExternalMedia {
        external_id: String::new(),
        title: title.to_string(),
        original_title: original.map(|s| s.to_string()),
        description: None,
        release_date: None,
        posters: vec![],
        backdrops: vec![],
        genres: vec![],
        rating: None,
        duration: None,
        imdb_id: None,
    }
}

#[test]
fn similarity_exact_match() {
    assert_eq!(ratio(title_similarity("Dunkelstadt", "Dunkelstadt")), 1.0);
}

#[test]
fn similarity_case_insensitive() {
    assert_eq!(ratio(title_similarity("dunkelstadt", "Dunkelstadt")), 1.0);
}

#[test]
fn similarity_substring() {
    assert!(ratio(title_similarity("Dunkelstadt", "Dunkelstadt S01E01")) >= 0.8);
}

#[test]
fn similarity_cjk_exact() {
    assert_eq!(ratio(title_similarity("進撃の巨人", "進撃の巨人")), 1.0);
}

#[test]
fn similarity_cjk_partial() {
    let score = ratio(title_similarity("進撃の巨人", "進撃の巨人 Season 2"));
    assert!(score >= 0.3, "CJK partial score {score} should be >= 0.3");
}

#[test]
fn similarity_cross_language_zero() {
    let score = ratio(title_similarity("進撃の巨人", "Attack on Titan"));
    assert!(score < 0.3, "Cross-language score {score} should be < 0.3");
}

#[test]
fn best_similarity_uses_original_title() {
    let m = media("Attack on Titan", Some("進撃の巨人"));
    let score = ratio(best_title_similarity("進撃の巨人", &m));
    assert_eq!(score, 1.0, "Should match via original_title");
}

#[test]
fn similarity_apostrophe_stripped() {
    let score = ratio(title_similarity("Cats Eye", "Cat's Eye"));
    assert_eq!(score, 1.0, "Apostrophe should be stripped: {score}");
}

#[test]
fn similarity_colon_stripped() {
    let score = ratio(title_similarity("Star Wars The Clone Wars", "Star Wars: The Clone Wars"));
    assert_eq!(score, 1.0);
}

#[test]
fn best_similarity_german_show() {
    let m = media("Dunkelstadt", Some("Dunkelstadt"));
    assert_eq!(ratio(best_title_similarity("Dunkelstadt", &m)), 1.0);
}

#[test]
fn similarity_counts_common_words() {
    let s = title_similarity("the blue house", "the red house by the sea");
    assert_eq!((s.num, s.den), (2, 5));
    let s = title_similarity("the red house by the sea", "the blue house");
    assert_eq!((s.num, s.den), (2, 5));
}

#[test]
fn similarity_folds_letters_beyond_ascii() {
    assert_eq!(ratio(title_similarity("ÜBER ALLES", "über alles")), 1.0);
}

#[test]
fn case_and_punctuation_do_not_matter() {
    let plain = title_similarity("cats eye", "The Cats Eye Story");
    assert_eq!(title_similarity("Cat's EYE!", "The Cats Eye Story"), plain);
    assert_eq!(title_similarity("The Cats Eye Story", "C.a.t's-- Eye"), plain);
    assert_eq!(ratio(title_similarity("Cat's Eye", "CATS EYE")), 1.0);
}
