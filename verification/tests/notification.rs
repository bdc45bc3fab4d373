use media_sub::model::Settings;
use media_sub::notification::{digest_notice, dispatch_route, DispatchRoute, PushDispatchRequest};
use media_sub::push::{PushEvent, PushLevel};

fn request(notification_id: Option<&str>) -> PushDispatchRequest {
    PushDispatchRequest {
        notification_id: notification_id.map(|s| s.to_string()),
        subscription_id: Some("sub-1".to_string()),
        event: PushEvent::SubscriptionUpdated,
        title: "更新".to_string(),
        message: "新增 1 集".to_string(),
        level: PushLevel::Info,
    }
}

fn settings_with_channel() -> Settings {
    let mut settings = Settings::default();
    settings.wecom_bot_url = "https://example.invalid/hook".to_string();
    settings
}

#[test]
fn recent_duplicate_is_skipped_only_with_a_window() {
    let mut settings = settings_with_channel();
    settings.push_dedup_window_seconds = 60;
    assert_eq!(dispatch_route(&settings, &request(None), true, true), DispatchRoute::SkipDuplicate);
    settings.push_dedup_window_seconds = 0;
    assert_eq!(dispatch_route(&settings, &request(None), true, true), DispatchRoute::Queue);
}

#[test]
fn digest_holds_pushes_tied_to_a_notification() {
    let mut settings = settings_with_channel();
    settings.push_digest_enabled = true;
    settings.push_digest_window_minutes = 0;
    assert_eq!(
        dispatch_route(&settings, &request(Some("n1")), false, true),
        DispatchRoute::Digest { delay_minutes: 1 }
    );
    settings.push_digest_window_minutes = 5000;
    assert_eq!(
        dispatch_route(&settings, &request(Some("n1")), false, false),
        DispatchRoute::Digest { delay_minutes: 1440 }
    );
    settings.push_digest_window_minutes = 15;
    assert_eq!(
        dispatch_route(&settings, &request(Some("n1")), false, false),
        DispatchRoute::Digest { delay_minutes: 15 }
    );
    assert_eq!(dispatch_route(&settings, &request(None), false, false), DispatchRoute::Direct);
}

#[test]
fn queue_drops_disabled_events_and_missing_channels() {
    let settings = Settings::default();
    assert_eq!(dispatch_route(&settings, &request(None), false, true), DispatchRoute::SkipDisabled);
    let mut settings = settings_with_channel();
    settings.push_on_update = false;
    assert_eq!(dispatch_route(&settings, &request(None), false, true), DispatchRoute::SkipDisabled);
    settings.push_on_update = true;
    assert_eq!(dispatch_route(&settings, &request(None), false, true), DispatchRoute::Queue);
    assert_eq!(dispatch_route(&settings, &request(None), false, false), DispatchRoute::Direct);
}

#[test]
fn digest_counts_all_and_lists_twenty() {
    let mut items = Vec::new();
    for i in 0..25 {
        let level = if i == 22 { "error" } else { "info" };
        items.push((level.to_string(), format!("t{}", i)));
    }
    let (title, message, level) = digest_notice(&items);
    assert_eq!(title, "通知摘要（25 条）");
    assert_eq!(message.lines().count(), 20);
    assert!(message.starts_with("• [info] t0\n• [info] t1\n"));
    assert!(message.ends_with("• [info] t19"));
    assert_eq!(level, PushLevel::Error);
}

#[test]
fn digest_of_few_infos_is_info() {
    let items = vec![
        ("info".to_string(), "a".to_string()),
        ("warning".to_string(), "b".to_string()),
    ];
    let (title, message, level) = digest_notice(&items);
    assert_eq!(title, "通知摘要（2 条）");
    assert_eq!(message, "• [info] a\n• [warning] b");
    assert_eq!(level, PushLevel::Info);
}
