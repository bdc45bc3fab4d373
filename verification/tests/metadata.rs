use media_sub::error::AppError;
use media_sub::metadata::{
    apply_tv_details, append_season_episodes, choose_best_match, media_type_compatible,
    metadata_score, normalize_title, search_results, search_target, tmdb_episode_season_numbers,
    tmdb_image_url, tmdb_search_endpoint, SearchTarget, TmdbEpisode, TmdbSearchItem, TmdbSeason,
    TmdbTvDetails,
};
use media_sub::model::{MediaMetadata, MetadataProvider};

fn hit(id: i64, media_type: Option<&str>, title: Option<&str>, name: Option<&str>) -> TmdbSearchItem {
    TmdbSearchItem {
        id,
        media_type: media_type.map(|s| s.to_string()),
        title: title.map(|s| s.to_string()),
        name: name.map(|s| s.to_string()),
        original_title: None,
        original_name: None,
        overview: None,
        poster_path: None,
        backdrop_path: None,
        release_date: None,
        first_air_date: None,
        rating: None,
    }
}

fn metadata(id: &str, title: &str, original: &str, media_type: &str, poster: Option<&str>) -> MediaMetadata {
    MediaMetadata {
        provider: MetadataProvider::Tmdb,
        provider_id: id.to_string(),
        title: title.to_string(),
        original_title: original.to_string(),
        media_type: media_type.to_string(),
        overview: "overview".to_string(),
        poster_url: poster.map(|s| s.to_string()),
        backdrop_url: None,
        release_date: None,
        rating: None,
        number_of_episodes: None,
        number_of_seasons: None,
        seasons: vec![],
        next_episode_to_air: None,
        episodes: vec![],
    }
}

#[test]
fn test_tmdb_item_into_metadata() {
    let item = TmdbSearchItem {
        id: 1399,
        media_type: Some("tv".to_string()),
        title: None,
        name: Some("Game of Thrones".to_string()),
        original_title: None,
        original_name: Some("Game of Thrones".to_string()),
        overview: Some("overview".to_string()),
        poster_path: Some("/poster.jpg".to_string()),
        backdrop_path: None,
        release_date: None,
        first_air_date: Some("2011-04-17".to_string()),
        rating: Some("8.4".to_string()),
    };

    let metadata = item.into_metadata().unwrap();
    assert_eq!(metadata.provider, MetadataProvider::Tmdb);
    assert_eq!(metadata.media_type, "series");
    assert_eq!(
        metadata.poster_url.as_deref(),
        Some("https://image.tmdb.org/t/p/w500/poster.jpg")
    );
    assert_eq!(metadata.provider_id, "1399");
    assert_eq!(metadata.release_date.as_deref(), Some("2011-04-17"));
}

#[test]
fn test_choose_best_match_prefers_compatible_exact_title() {
    let candidates = vec![
        metadata("1", "Other Show", "Other Show", "movie", None),
        metadata("2", "Joy of Life", "庆余年", "series", Some("poster")),
    ];
    let votes = vec![9, 7];
    let selected = choose_best_match("Joy of Life", "series", candidates, &votes).unwrap();
    assert_eq!(selected.provider_id, "2");
}

#[test]
fn best_match_falls_back_to_all_and_prefers_the_last_tie() {
    let candidates = vec![
        metadata("1", "Show", "Show", "movie", None),
        metadata("2", "Show", "Show", "movie", None),
    ];
    let selected = choose_best_match("Show", "anime", candidates, &vec![0, 0]).unwrap();
    assert_eq!(selected.provider_id, "2");
    assert!(choose_best_match("Show", "", vec![], &vec![]).is_none());
}

#[test]
fn scores_add_title_matches_poster_overview_and_vote() {
    let item = metadata("1", "Joy of Life", "庆余年", "series", Some("p"));
    assert_eq!(metadata_score("joy of life", &item, 7), 100 + 40 + 5 + 7);
    assert_eq!(metadata_score("庆余年", &item, 0), 90 + 30 + 5);
    let mut blank = metadata("2", "Other", "", "movie", None);
    blank.overview = "  ".to_string();
    assert_eq!(metadata_score("", &blank, 3), -5 + 3);
    assert_eq!(normalize_title("Joy of Life: S2!"), "joyoflifes2");
}

#[test]
fn kinds_fit_and_endpoints() {
    assert!(media_type_compatible("anime", "series"));
    assert!(media_type_compatible("", "movie"));
    assert!(!media_type_compatible("movie", "series"));
    assert_eq!(tmdb_search_endpoint(Some("movie")), "https://api.themoviedb.org/3/search/movie");
    assert_eq!(tmdb_search_endpoint(Some("anime")), "https://api.themoviedb.org/3/search/tv");
    assert_eq!(tmdb_search_endpoint(None), "https://api.themoviedb.org/3/search/multi");
    assert_eq!(tmdb_image_url(Some(" ".to_string())), None);
}

#[test]
fn search_target_checks_query_and_provider() {
    assert_eq!(
        search_target("tmdb", "key", "  ").unwrap_err(),
        AppError::Validation("搜索关键词不能为空".to_string())
    );
    assert_eq!(
        search_target("tmdb", " ", "Show").unwrap_err(),
        AppError::Config("未配置 TMDB API Key".to_string())
    );
    assert_eq!(
        search_target("tmdb", "key", " Show ").unwrap(),
        SearchTarget::Tmdb { query: "Show".to_string() }
    );
    assert!(search_target("douban", "", "Show").is_err());
    assert_eq!(search_target("", "", "Show").unwrap(), SearchTarget::Nothing);
    assert_eq!(search_target("none", "", "Show").unwrap(), SearchTarget::Nothing);
    assert_eq!(
        search_target("bangumi", "", "Show").unwrap_err(),
        AppError::Config("不支持的元数据提供方: bangumi".to_string())
    );
}

#[test]
fn search_results_drop_persons_and_label_anime() {
    let mut items = vec![
        hit(1, Some("person"), None, Some("Actor")),
        hit(2, None, None, Some("Show")),
        hit(3, Some("movie"), Some("Film"), None),
        hit(4, Some("tv"), None, None),
    ];
    for i in 0..12 {
        items.push(hit(10 + i, Some("tv"), None, Some("More")));
    }
    let results = search_results(items, Some("anime"));
    assert_eq!(results.len(), 10);
    assert_eq!(results[0].provider_id, "2");
    assert_eq!(results[0].media_type, "anime");
    assert_eq!(results[1].media_type, "movie");
    let plain = search_results(vec![hit(2, None, None, Some("Show"))], None);
    assert_eq!(plain[0].media_type, "series");
}

fn season(number: i32, count: Option<i32>) -> TmdbSeason {
    TmdbSeason {
        season_number: number,
        episode_count: count,
        name: format!("Season {number}"),
        air_date: None,
        poster_path: Some("/s.jpg".to_string()),
    }
}

fn episode(season_number: i32, episode_number: i32) -> TmdbEpisode {
    TmdbEpisode {
        season_number,
        episode_number,
        name: "E".to_string(),
        overview: String::new(),
        air_date: None,
        still_path: None,
    }
}

#[test]
fn details_pick_seasons_and_fill_the_result() {
    let details = TmdbTvDetails {
        number_of_episodes: Some(30),
        number_of_seasons: Some(7),
        seasons: vec![
            season(0, Some(3)),
            season(1, Some(10)),
            season(2, None),
            season(3, Some(10)),
            season(4, Some(1)),
            season(5, Some(1)),
            season(6, Some(1)),
            season(7, Some(1)),
        ],
        next_episode_to_air: Some(episode(8, 1)),
    };
    assert_eq!(tmdb_episode_season_numbers(&details), vec![1, 3, 4, 5, 6, 8]);
    let mut item = metadata("1", "Show", "Show", "series", None);
    let numbers = apply_tv_details(&mut item, details);
    assert_eq!(numbers, vec![1, 3, 4, 5, 6, 8]);
    assert_eq!(item.number_of_episodes, Some(30));
    assert_eq!(item.seasons.len(), 8);
    assert_eq!(
        item.seasons[1].poster_url.as_deref(),
        Some("https://image.tmdb.org/t/p/w500/s.jpg")
    );
    assert_eq!(item.next_episode_to_air.as_ref().unwrap().season_number, 8);
    append_season_episodes(&mut item, 3, vec![episode(0, 1), episode(3, 2)]);
    assert_eq!(item.episodes.len(), 2);
    assert_eq!(item.episodes[0].season_number, 3);
    assert_eq!(item.episodes[1].episode_number, 2);
}
