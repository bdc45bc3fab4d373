use media_sub::media_metadata_files::{
    accept_image_chunk, build_movie_nfo, build_season_nfo, check_image_answer, check_image_body, build_tvshow_nfo, metadata_file_plan, partial_failure,
    record_image_write, record_write, release_year, resolve_layout, season_poster_url, xml_escape,
    MediaMetadataFilesOutcome, WriteResult,
};
use media_sub::error::AppError;
use media_sub::model::{MediaMetadata, MediaMetadataSeason, MetadataProvider, Settings};

fn tmdb_metadata() -> MediaMetadata {
    MediaMetadata {
        provider: MetadataProvider::Tmdb,
        provider_id: "123".to_string(),
        title: "庆余年".to_string(),
        original_title: "Joy of Life".to_string(),
        media_type: "series".to_string(),
        overview: "一个范闲的故事。".to_string(),
        poster_url: Some("http://127.0.0.1:1/poster.jpg".to_string()),
        backdrop_url: Some("http://127.0.0.1:1/backdrop.jpg".to_string()),
        release_date: Some("2024-01-01".to_string()),
        rating: Some("8.25".to_string()),
        number_of_episodes: Some(12),
        number_of_seasons: Some(1),
        seasons: vec![MediaMetadataSeason {
            season_number: 1,
            episode_count: Some(12),
            name: "Season 1".to_string(),
            air_date: Some("2024-01-01".to_string()),
            poster_url: Some("http://127.0.0.1:1/season1.jpg".to_string()),
        }],
        next_episode_to_air: None,
        episodes: vec![],
    }
}

#[test]
fn tvshow_nfo_contains_full_standard_fields() {
    let xml = build_tvshow_nfo(&tmdb_metadata());
    assert!(xml.starts_with("<?xml version=\"1.0\""));
    assert!(xml.contains("<tvshow>"));
    assert!(xml.contains("</tvshow>"));
    assert!(xml.contains("<title>庆余年</title>"));
    assert!(xml.contains("<originaltitle>Joy of Life</originaltitle>"));
    assert!(xml.contains("<year>2024</year>"));
    assert!(xml.contains("<plot>一个范闲的故事。</plot>"));
    assert!(xml.contains("<rating>8.25</rating>"));
    assert!(xml.contains("<premiered>2024-01-01</premiered>"));
    assert!(xml.contains("<uniqueid type=\"tmdb\">123</uniqueid>"));
}

#[test]
fn tvshow_nfo_omits_missing_optional_fields() {
    let mut metadata = tmdb_metadata();
    metadata.original_title = String::new();
    metadata.release_date = None;
    metadata.rating = None;
    metadata.overview = String::new();
    let xml = build_tvshow_nfo(&metadata);
    assert!(!xml.contains("<originaltitle>"));
    assert!(!xml.contains("<year>"));
    assert!(!xml.contains("<premiered>"));
    assert!(!xml.contains("<rating>"));
    assert!(!xml.contains("<plot>"));
    assert!(xml.contains("<uniqueid type=\"tmdb\">123</uniqueid>"));
}

#[test]
fn douban_provider_omits_uniqueid() {
    let mut metadata = tmdb_metadata();
    metadata.provider = MetadataProvider::Douban;
    let xml = build_tvshow_nfo(&metadata);
    assert!(!xml.contains("uniqueid"));

    let mut metadata = tmdb_metadata();
    metadata.provider_id = String::new();
    let xml = build_tvshow_nfo(&metadata);
    assert!(!xml.contains("uniqueid"));
}

#[test]
fn xml_escape_handles_special_and_control_chars() {
    assert_eq!(
        xml_escape("A&B <C> \"D\" 'E'"),
        "A&amp;B &lt;C&gt; &quot;D&quot; &apos;E&apos;"
    );
    assert_eq!(xml_escape("庆余年"), "庆余年");
    assert_eq!(xml_escape("bad\u{1}text\u{7}"), "badtext");
    assert_eq!(xml_escape("tab\tnewline\n"), "tab\tnewline\n");
}

#[test]
fn movie_nfo_uses_movie_root() {
    let xml = build_movie_nfo(&tmdb_metadata());
    assert!(xml.contains("<movie>"));
    assert!(xml.contains("</movie>"));
    assert!(xml.contains("<title>庆余年</title>"));
    assert!(!xml.contains("tvshow"));
}

#[test]
fn season_nfo_contains_season_number() {
    let xml = build_season_nfo(1);
    assert!(xml.contains("<season>"));
    assert!(xml.contains("<seasonnumber>1</seasonnumber>"));
    assert!(xml.contains("</season>"));
}

#[test]
fn release_year_extracts_four_digits() {
    assert_eq!(
        release_year(&Some("2024-01-01".to_string())),
        Some("2024".to_string())
    );
    assert_eq!(release_year(&Some("2024".to_string())), Some("2024".to_string()));
    assert_eq!(release_year(&Some("abc".to_string())), None);
    assert_eq!(release_year(&None), None);
}

#[test]
fn season_nfo_raises_season_below_one_to_one() {
    assert!(build_season_nfo(12).contains("<seasonnumber>12</seasonnumber>"));
    assert!(build_season_nfo(0).contains("<seasonnumber>1</seasonnumber>"));
    assert!(build_season_nfo(-3).contains("<seasonnumber>1</seasonnumber>"));
}

#[test]
fn season_poster_is_looked_up_by_season_number() {
    let metadata = tmdb_metadata();
    assert_eq!(
        season_poster_url(&metadata, 1),
        Some("http://127.0.0.1:1/season1.jpg".to_string())
    );
    assert_eq!(season_poster_url(&metadata, 2), None);
}

#[test]
fn escaped_title_appears_in_nfo() {
    let mut metadata = tmdb_metadata();
    metadata.title = "A & B".to_string();
    let xml = build_movie_nfo(&metadata);
    assert!(xml.contains("<title>A &amp; B</title>"));
}

#[test]
fn resolve_layout_parses_show_root_and_season() {
    assert_eq!(
        resolve_layout("series", "/media/Show (2024)/Season 1"),
        Some(("/media/Show (2024)".to_string(), Some(1)))
    );
    assert_eq!(
        resolve_layout("anime", "/media/Show/season 3"),
        Some(("/media/Show".to_string(), Some(3)))
    );
    assert_eq!(resolve_layout("series", "/media/Show (2024)"), None);
    assert_eq!(resolve_layout("series", "/media/Show/SeasonX"), None);
    assert_eq!(
        resolve_layout("movie", "/movies/Show Season 1"),
        Some(("/movies/Show Season 1".to_string(), None))
    );
    assert_eq!(resolve_layout("series", ""), None);
    assert_eq!(resolve_layout("series", "/"), None);
    assert_eq!(resolve_layout("movie", "/"), None);
    assert_eq!(resolve_layout("series", "Season 1"), None);
    assert_eq!(resolve_layout("custom_1", "/media/Show/Season 1"), None);
    assert_eq!(
        resolve_layout("series", "C:\\media\\Show\\Season 2"),
        Some(("C:/media/Show".to_string(), Some(2)))
    );
}

#[test]
fn plan_lists_root_and_season_files() {
    let mut settings = Settings::default();
    let metadata = tmdb_metadata();
    assert!(metadata_file_plan(&settings, &metadata, "series", "/media/Show/Season 1").is_none());
    settings.media_metadata_files_enabled = true;
    let plan = metadata_file_plan(&settings, &metadata, "series", "/media/Show/Season 1/").unwrap();
    assert_eq!(plan.root_dir, "/media/Show");
    assert_eq!(plan.root_nfo_name, "tvshow.nfo");
    assert!(plan.root_nfo.contains("<tvshow>"));
    assert_eq!(plan.season_dir, Some("/media/Show/Season 1".to_string()));
    assert_eq!(
        plan.season_poster_url,
        Some("http://127.0.0.1:1/season1.jpg".to_string())
    );
    let movie = metadata_file_plan(&settings, &metadata, "movie", "/movies/Film").unwrap();
    assert_eq!(movie.root_nfo_name, "movie.nfo");
    assert!(movie.season_dir.is_none());
    assert!(metadata_file_plan(&settings, &metadata, "series", "/media/Show").is_none());
}

#[test]
fn tally_counts_each_file_and_lists_failures() {
    let mut outcome = MediaMetadataFilesOutcome::default();
    let mut failures = Vec::new();
    record_write(&mut outcome, &mut failures, "/a/tvshow.nfo", WriteResult::Written);
    record_write(&mut outcome, &mut failures, "/a/season.nfo", WriteResult::Unchanged);
    record_image_write(&mut outcome, &mut failures, "poster.jpg", "/a/poster.jpg", None);
    record_image_write(
        &mut outcome,
        &mut failures,
        "backdrop.jpg",
        "/a/backdrop.jpg",
        Some(Err("HTTP 404".to_string())),
    );
    record_image_write(
        &mut outcome,
        &mut failures,
        "poster.jpg",
        "/a/poster.jpg",
        Some(Ok(WriteResult::Failed("denied".to_string()))),
    );
    assert_eq!((outcome.written, outcome.skipped, outcome.failed), (1, 1, 2));
    assert_eq!(
        failures,
        vec!["backdrop.jpg: HTTP 404".to_string(), "/a/poster.jpg: denied".to_string()]
    );
    let error = partial_failure(&outcome, &failures).unwrap();
    assert_eq!(
        error.message_text(),
        "媒体库元数据写入部分失败（写入 1，跳过 1，失败 2）: backdrop.jpg: HTTP 404; /a/poster.jpg: denied"
    );
    assert!(partial_failure(&outcome, &vec![]).is_none());
}

#[test]
fn second_plan_for_same_inputs_is_identical() {
    let mut settings = Settings::default();
    settings.media_metadata_files_enabled = true;
    let metadata = tmdb_metadata();
    let first = metadata_file_plan(&settings, &metadata, "series", "/media/Show/Season 1").unwrap();
    let second = metadata_file_plan(&settings, &metadata, "series", "/media/Show/Season 1").unwrap();
    assert_eq!(first.root_nfo, second.root_nfo);
    assert_eq!(first.season_nfo, second.season_nfo);
    assert_eq!(first.season_dir, second.season_dir);
    assert_eq!(first.poster_url, second.poster_url);
}

#[test]
fn image_answers_are_checked_before_and_while_reading() {
    assert!(check_image_answer(true, "200 OK", Some(10), Some("image/jpeg; charset=binary")).is_ok());
    assert_eq!(
        check_image_answer(false, "404 Not Found", None, Some("image/jpeg")).unwrap_err(),
        AppError::Http("海报图片请求失败: HTTP 404 Not Found".to_string())
    );
    assert_eq!(
        check_image_answer(true, "200 OK", Some(9 * 1024 * 1024), Some("image/png")).unwrap_err(),
        AppError::Validation("海报图片超过大小限制".to_string())
    );
    assert_eq!(
        check_image_answer(true, "200 OK", None, Some("text/html")).unwrap_err(),
        AppError::Http("上游返回了非图片内容".to_string())
    );
    assert!(check_image_answer(true, "200 OK", None, None).is_err());
    assert!(accept_image_chunk(8 * 1024 * 1024 - 1, 1).is_ok());
    assert!(accept_image_chunk(8 * 1024 * 1024, 1).is_err());
    assert!(check_image_body(0).is_err());
    assert!(check_image_body(3).is_ok());
}
