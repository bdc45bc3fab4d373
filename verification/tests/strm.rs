use media_sub::model::Settings;
use media_sub::strm::{
    httpstrm_url, normalized_relative_parts, sanitize_path_segment, strm_file_name,
    unique_strm_file_name, StringHashSet,
};

#[test]
fn httpstrm_url_encodes_path_and_query() {
    let settings = Settings {
        strm_public_base_url: "https://media.example.com/".to_string(),
        strm_access_token: "token with space".to_string(),
        ..Default::default()
    };

    let url = httpstrm_url(&settings, "fid/1", "庆余年 S01E01.mkv").unwrap();

    assert_eq!(
        url,
        "https://media.example.com/strm/quark/fid%2F1/%E5%BA%86%E4%BD%99%E5%B9%B4%20S01E01.mkv?token=token%20with%20space"
    );
}

#[test]
fn httpstrm_url_requires_base_and_token() {
    let mut settings = Settings::default();
    assert!(httpstrm_url(&settings, "f", "n").is_err());
    settings.strm_public_base_url = " ///".to_string();
    assert!(httpstrm_url(&settings, "f", "n").is_err());
    settings.strm_public_base_url = "http://host//".to_string();
    assert!(httpstrm_url(&settings, "f", "n").is_err());
    settings.strm_access_token = "t".to_string();
    assert_eq!(httpstrm_url(&settings, "f", "n").unwrap(), "http://host/strm/quark/f/n?token=t");
}

#[test]
fn strm_names_and_segments_are_safe() {
    assert_eq!(sanitize_path_segment("a/b:c*  d"), "a b c d");
    assert_eq!(sanitize_path_segment("  "), "未命名");
    assert_eq!(strm_file_name("庆余年.S01E01.mkv"), "庆余年.S01E01.strm");
    assert_eq!(strm_file_name("video"), "video.strm");
    assert_eq!(
        normalized_relative_parts("/连续剧/庆余年（2024）/../Season 1\\. /x"),
        vec!["连续剧", "庆余年（2024）", "Season 1", "x"]
    );
}

#[test]
fn strm_names_never_collide() {
    let mut used = StringHashSet::new();
    assert_eq!(unique_strm_file_name("video.mp4", &mut used), "video.strm");
    assert_eq!(unique_strm_file_name("video.mkv", &mut used), "video.mkv.strm");
    used.insert("video.mkv.1.strm".to_string());
    assert_eq!(unique_strm_file_name("video.mkv", &mut used), "video.mkv.2.strm");
    assert_eq!(unique_strm_file_name("video.mkv", &mut used), "video.mkv.3.strm");
    assert_eq!(used.len(), 5);
}
