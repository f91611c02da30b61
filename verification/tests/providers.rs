use dim::providers::anilist::{
    entry_number, episodes_for_season, parse_streaming_title, seasons_for_id, AniListCover,
    AniListMedia, AniListStreamingEpisode, AniListTitle,
};
use dim::providers::chain::{
    provider_for, tmdb_api_key, ChainReply, ChainStep, ChainedProvider, Provider,
};
use dim::providers::dates::{parse_release_date, start_of, FuzzyDate};
use dim::providers::markup::{strip_html, urlencoding_encode};
use dim::providers::tvmaze::{
    cast, raw_id, search_path, show_path, TvMazeCastEntry, TvMazeEpisode, TvMazeImage,
    TvMazeSeason, TvMazeShow,
};
use dim::scanner::records::MediaType;
use dim::settings::GlobalSettings;

fn s(x: &str) -> Option<String> {
    Some(x.to_string())
}

fn image(original: Option<String>) -> Option<TvMazeImage> {
    Some(TvMazeImage { original, medium: s("medium.png") })
}

fn show(id: u64, premiered: &str) -> TvMazeShow {
    TvMazeShow {
        id,
        name: "Girls".to_string(),
        premiered: s(premiered),
        summary: s("<p>This <b>Emmy</b> winner</p> "),
        genres: vec!["Drama".to_string()],
        rating: Some(0.65f64.to_bits()),
        image: image(None),
        average_runtime: Some(30),
        imdb: s("tt1723816"),
    }
}

#[test]
fn tvmaze_shows_become_media() {
    let m = show(139, "2012-04-15").into_media();
    assert_eq!(m.external_id, "tvmaze:139");
    assert_eq!(m.description, s("This Emmy winner"));
    let d = m.release_date.unwrap();
    assert_eq!((d.year, d.month, d.day), (2012, 4, 15));
    assert_eq!(m.posters, vec!["medium.png"]);
    assert_eq!(m.duration, Some(1800));
    assert_eq!(m.imdb_id, s("tt1723816"));
}

#[test]
fn searches_prefer_the_year() {
    let shows = || vec![show(1, "2012-04-15"), show(2, "2020-01-01"), show(3, "gone")];
    let year = |y| -> Vec<String> {
        dim::providers::tvmaze::search_results(shows(), y)
            .into_iter()
            .map(|m| m.external_id)
            .collect()
    };
    assert_eq!(year(Some(2020)), vec!["tvmaze:2"]);
    assert_eq!(year(Some(1990)), vec!["tvmaze:1", "tvmaze:2", "tvmaze:3"]);
    assert_eq!(year(None).len(), 3);
}

#[test]
fn tvmaze_seasons_and_episodes_are_in_order() {
    let seasons = [2, -1, 1]
        .iter()
        .map(|n| TvMazeSeason { id: 7, number: *n, image: image(s("o.png")) })
        .collect();
    let seasons = dim::providers::tvmaze::seasons_for_id(&seasons);
    assert_eq!(seasons.iter().map(|x| x.season_number).collect::<Vec<_>>(), vec![1, 2]);
    assert_eq!(seasons[0].posters, vec!["o.png"]);
    let episodes: Vec<TvMazeEpisode> = [(1, Some(2)), (1, None), (2, Some(1)), (1, Some(1))]
        .iter()
        .map(|(season, number)| TvMazeEpisode {
            id: 9,
            name: s("Name"),
            season: *season,
            number: *number,
            summary: None,
            image: None,
            runtime: None,
        })
        .collect();
    let episodes = dim::providers::tvmaze::episodes_for_season(&episodes, 1);
    assert_eq!(episodes.iter().map(|x| x.episode_number).collect::<Vec<_>>(), vec![1, 2]);
}

#[test]
fn casts_have_pictures() {
    let entry = TvMazeCastEntry {
        person_id: 3,
        person_name: "Lena".to_string(),
        image: image(s("o.png")),
        character: "Hannah".to_string(),
    };
    let actors = cast(vec![entry]);
    assert_eq!(actors[0].external_id, "tvmaze:3");
    assert_eq!(actors[0].profile_path, s("o.png"));
}

#[test]
fn paths_of_requests_are_encoded() {
    assert_eq!(search_path("Cat's Eye é"), "/search/shows?q=Cat%27s+Eye+%C3%A9");
    assert_eq!(urlencoding_encode("a-Z_0.~/"), "a-Z_0.~%2F");
    assert_eq!(show_path("12", "/cast"), "/shows/12/cast");
    assert_eq!(raw_id("tvmaze", "tvmaze:12", &s("tvmaze"), "12"), "12");
    assert_eq!(raw_id("tvmaze", "tmdb:12", &s("tmdb"), "12"), "tmdb:12");
}

#[test]
fn markup_is_stripped() {
    assert_eq!(strip_html(" <p>a</p> b > c "), "a b  c");
    assert_eq!(strip_html("<open"), "");
}

#[test]
fn dates_are_days_of_the_calendar() {
    assert!(parse_release_date(&s("2012-02-30")).is_none());
    assert!(parse_release_date(&s("soon")).is_none());
    assert!(parse_release_date(&None).is_none());
    let date = |year, month, day| start_of(&Some(FuzzyDate { year, month, day }));
    let d = date(Some(2024), Some(2), Some(29)).unwrap();
    assert_eq!((d.year, d.month, d.day), (2024, 2, 29));
    assert!(date(Some(2023), Some(2), Some(29)).is_none());
    assert!(date(None, Some(2), Some(1)).is_none());
    let d = date(Some(2023), None, None).unwrap();
    assert_eq!((d.month, d.day), (1, 1));
    assert!(date(Some(1900), Some(2), Some(29)).is_none());
    assert!(date(Some(262142), Some(12), Some(31)).is_some());
    assert!(date(Some(262143), Some(1), Some(1)).is_none());
    assert!(date(Some(-262143), Some(1), Some(1)).is_some());
    assert!(date(Some(-262144), Some(1), Some(1)).is_none());
}

fn entry(titles: &[&str], episodes: Option<u64>) -> AniListMedia {
    AniListMedia {
        id: 21,
        title: AniListTitle { romaji: s("Wan Pisu"), english: None, native: s("ワンピース") },
        description: s("<i>Gold</i> Roger"),
        start_date: Some(FuzzyDate { year: Some(1999), month: Some(10), day: None }),
        cover_image: Some(AniListCover { extra_large: None, large: s("l.png") }),
        banner_image: s("b.png"),
        genres: vec![],
        average_score: None,
        episodes,
        duration: Some(24),
        streaming_episodes: titles
            .iter()
            .map(|t| AniListStreamingEpisode { title: s(t), thumbnail: None })
            .collect(),
    }
}

#[test]
fn anilist_entries_become_media() {
    let m = entry(&[], None).into_media();
    assert_eq!((m.external_id.as_str(), m.title.as_str()), ("anilist:21", "Wan Pisu"));
    assert_eq!(m.original_title, s("Wan Pisu"));
    assert_eq!(m.description, s("Gold Roger"));
    assert_eq!((m.posters, m.backdrops), (vec!["l.png".to_string()], vec!["b.png".to_string()]));
    assert_eq!(m.duration, Some(1440));
    assert_eq!(m.release_date.unwrap().month, 10);
    let found = dim::providers::anilist::search_results(vec![entry(&[], None)], Some(1999));
    assert_eq!(found.len(), 1);
    assert_eq!(seasons_for_id(&entry(&[], None))[0].season_number, 1);
    assert_eq!(entry_number("21"), Some(21));
    assert_eq!(entry_number("x"), None);
}

#[test]
fn streaming_titles_give_numbers() {
    assert_eq!(parse_streaming_title("Episode 5 - The Name"), (Some(5), s("The Name")));
    assert_eq!(parse_streaming_title(" Episode 12:"), (Some(12), None));
    assert_eq!(parse_streaming_title("7 - Seven"), (Some(7), s("Seven")));
    assert_eq!(parse_streaming_title("Recap"), (None, s("Recap")));
    assert_eq!(parse_streaming_title("99999999999999999999 x"), (None, s("x")));
}

#[test]
fn declared_episodes_are_filled_in() {
    let a = entry(&["Episode 3 - C", "Episode 1 - A"], Some(4));
    let eps = episodes_for_season(&a, 1);
    let got: Vec<(u64, Option<String>)> =
        eps.iter().map(|e| (e.episode_number, e.title.clone())).collect();
    assert_eq!(got, vec![(1, s("A")), (2, None), (3, s("C")), (4, None)]);
    assert_eq!(eps[0].external_id, "anilist:21:2");
    assert_eq!(eps[1].external_id, "anilist:21:2");
    assert!(episodes_for_season(&a, 2).is_empty());
    assert_eq!(episodes_for_season(&entry(&[], None), 1).len(), 100);
}

#[test]
fn chains_ask_one_provider_after_the_other() {
    let chain = provider_for("tvmaze", MediaType::Tv);
    assert_eq!(chain.children, vec![Provider::TvMaze, Provider::TmdbShows]);
    assert_eq!(chain.provider_scheme(), "tvmaze");
    assert_eq!(chain.search(&vec![]), ChainStep::Ask(0));
    assert_eq!(chain.search(&vec![ChainReply::Found]), ChainStep::Answer(0));
    assert_eq!(chain.search(&vec![ChainReply::Failed]), ChainStep::Ask(1));
    assert_eq!(
        chain.search(&vec![ChainReply::Failed, ChainReply::Empty]),
        ChainStep::Failed(0)
    );
    assert_eq!(chain.search(&vec![ChainReply::Empty, ChainReply::Empty]), ChainStep::Empty);
    assert_eq!(chain.child_for_id(&s("tmdb")), 1);
    assert_eq!(chain.child_for_id(&s("imdb")), 0);
    assert_eq!(chain.child_for_id(&None), 0);
}

#[test]
fn libraries_have_their_providers() {
    let children = |name, t| provider_for(name, t).children;
    assert_eq!(children("tmdb", MediaType::Movie), vec![Provider::TmdbMovies]);
    assert_eq!(
        children("anilist", MediaType::Movie),
        vec![Provider::AniList, Provider::TmdbMovies]
    );
    assert_eq!(children("tmdb", MediaType::Tv), vec![Provider::TmdbShows, Provider::TvMaze]);
    assert_eq!(children("anilist", MediaType::Tv), vec![Provider::AniList, Provider::TmdbShows]);
    let movies = ChainedProvider::new(vec![Provider::TmdbMovies, Provider::TvMaze]);
    assert!(!movies.as_query_show());
    assert_eq!(movies.show_child(&s("tmdb")), None);
    assert_eq!(movies.show_child(&s("tvmaze")), Some(1));
}

#[test]
fn blank_keys_are_replaced() {
    let mut settings = GlobalSettings::defaults(true, false);
    settings.tmdb_api_key = " \t".to_string();
    let shared = tmdb_api_key(&settings);
    assert_eq!(shared.len(), 32);
    settings.tmdb_api_key = "mine".to_string();
    assert_eq!(tmdb_api_key(&settings), "mine");
}
