use media_sub::media_library::{refresh_request, validate_media_library_settings, TokenPlacement};
use media_sub::model::Settings;

#[test]
fn media_library_configuration_is_safe_and_compatible() {
    let mut settings = Settings::default();
    assert!(validate_media_library_settings(&settings).is_ok());
    settings.media_library_refresh_enabled = true;
    assert!(validate_media_library_settings(&settings).is_err());
    settings.media_library_refresh_url = "https://media.example/refresh".to_string();
    for kind in ["jellyfin", "emby", "plex", "webhook"] {
        settings.media_library_type = kind.to_string();
        assert!(validate_media_library_settings(&settings).is_ok());
    }
    settings.media_library_type = "unsupported".to_string();
    assert!(validate_media_library_settings(&settings).is_err());
}

#[test]
fn refresh_requests_follow_the_library_kind() {
    let mut settings = Settings::default();
    assert!(refresh_request(&settings).is_none());
    settings.media_library_refresh_enabled = true;
    settings.media_library_refresh_url = "  https://plex.local/refresh ".to_string();
    settings.media_library_type = " Plex ".to_string();
    settings.media_library_token = "tok".to_string();
    let request = refresh_request(&settings).unwrap();
    assert_eq!(request.provider, "plex");
    assert_eq!(request.url, "https://plex.local/refresh");
    assert!(request.use_get);
    assert_eq!(request.token_placement, TokenPlacement::PlexQuery);
    settings.media_library_type = "emby".to_string();
    assert_eq!(refresh_request(&settings).unwrap().token_placement, TokenPlacement::EmbyHeader);
    settings.media_library_token = " ".to_string();
    assert_eq!(refresh_request(&settings).unwrap().token_placement, TokenPlacement::Absent);
}
