use media_sub::media_library::MediaLibraryRefreshReport;
use media_sub::post_transfer::{media_library_refresh_outcome, PostTransferStatus};

#[test]
fn refresh_step_skipped_without_report() {
    let outcome = media_library_refresh_outcome(None);
    assert_eq!(outcome.module, "media_library_refresh");
    assert_eq!(outcome.status, PostTransferStatus::Skipped);
    assert_eq!(outcome.message, "媒体库刷新未启用");
}

#[test]
fn refresh_step_reports_provider_result() {
    let ok = media_library_refresh_outcome(Some(MediaLibraryRefreshReport {
        provider: "Jellyfin".to_string(),
        success: true,
        status: Some(204),
        error: None,
    }));
    assert_eq!(ok.status, PostTransferStatus::Succeeded);
    assert_eq!(ok.message, "Jellyfin 刷新成功");

    let failed = media_library_refresh_outcome(Some(MediaLibraryRefreshReport {
        provider: "Emby".to_string(),
        success: false,
        status: Some(500),
        error: Some("server error".to_string()),
    }));
    assert_eq!(failed.status, PostTransferStatus::Failed);
    assert_eq!(failed.message, "server error");

    let bare = media_library_refresh_outcome(Some(MediaLibraryRefreshReport {
        provider: "Plex".to_string(),
        success: false,
        status: None,
        error: None,
    }));
    assert_eq!(bare.message, "Plex 刷新失败");
}
