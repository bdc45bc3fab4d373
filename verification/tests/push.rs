use media_sub::model::{Notification, NotificationMeta, Settings};
use media_sub::push::{
    delivery_error_message, enabled_push_channels, merge_push_level, push_event_enabled,
    sanitize_push_error, PushDeliveryReport, PushEvent, PushLevel, PushRetryPolicy,
};
use std::time::Duration;

#[test]
fn test_push_level() {
    assert_eq!(PushLevel::Info.as_str(), "info");
    assert_eq!(PushLevel::Success.emoji(), "✅");
    assert_eq!(PushLevel::Warning.emoji(), "⚠️");
    assert_eq!(PushLevel::Error.emoji(), "❌");
}

#[test]
fn test_retry_policy_uses_exponential_backoff_with_cap() {
    let policy = PushRetryPolicy {
        max_attempts: 0,
        initial_delay: Duration::from_secs(2),
        max_delay: Duration::from_secs(5),
    };

    assert_eq!(policy.attempts(), 1);
    assert_eq!(policy.delay_for_retry(0), Duration::from_secs(2));
    assert_eq!(policy.delay_for_retry(1), Duration::from_secs(4));
    assert_eq!(policy.delay_for_retry(2), Duration::from_secs(5));
}

#[test]
fn level_and_event_names_round_trip() {
    for level in [PushLevel::Info, PushLevel::Success, PushLevel::Warning, PushLevel::Error] {
        assert_eq!(PushLevel::from_name(level.as_str()), Some(level));
    }
    for event in [
        PushEvent::SubscriptionUpdated,
        PushEvent::SubscriptionFailed,
        PushEvent::SubscriptionCompleted,
        PushEvent::TransferSaved,
        PushEvent::DownloadCompleted,
        PushEvent::QuarkSignin,
    ] {
        assert_eq!(PushEvent::from_name(event.as_str()), Some(event));
    }
    assert_eq!(PushLevel::from_name("fatal"), None);
    assert_eq!(PushEvent::from_name("unknown"), None);
}

#[test]
fn retry_policies_have_documented_shapes() {
    let single = PushRetryPolicy::single_attempt();
    assert_eq!(single.attempts(), 1);
    assert_eq!(single.delay_for_retry(3), Duration::ZERO);
    assert_eq!(single.next_retry_delay(0), None);

    let background = PushRetryPolicy::background_default();
    assert_eq!(background.attempts(), 3);
    assert_eq!(background.next_retry_delay(0), Some(Duration::from_secs(2)));
    assert_eq!(background.next_retry_delay(1), Some(Duration::from_secs(4)));
    assert_eq!(background.next_retry_delay(2), None);
    assert_eq!(background.delay_for_retry(10), Duration::from_secs(10));
}

#[test]
fn enabled_channels_follow_configuration_order() {
    let settings = Settings {
        wecom_bot_url: "https://test".to_string(),
        telegram_bot_token: "token".to_string(),
        telegram_chat_id: "123".to_string(),
        ..Settings::default()
    };
    assert_eq!(enabled_push_channels(&settings), vec!["wecom", "telegram"]);

    let mut settings = Settings::default();
    assert!(enabled_push_channels(&settings).is_empty());
    settings.telegram_bot_token = "token".to_string();
    assert!(enabled_push_channels(&settings).is_empty());
    settings.webhook_urls = vec!["https://hook".to_string()];
    assert!(enabled_push_channels(&settings).is_empty());
    settings.webhook_enabled = true;
    assert_eq!(enabled_push_channels(&settings), vec!["webhook"]);

    settings.push_on_failed = false;
    assert!(!push_event_enabled(&settings, PushEvent::SubscriptionFailed));
    assert!(push_event_enabled(&settings, PushEvent::SubscriptionUpdated));
}

#[test]
fn push_errors_are_masked_and_reported_with_attempts() {
    let error = "request failed: https://example.com/message?token=abc123&key=secret bot123456:ABC_def SCTabcdef";
    let sanitized = sanitize_push_error(error);
    assert!(sanitized.contains("token=***"));
    assert!(sanitized.contains("key=***"));
    assert!(sanitized.contains("bot***"));
    assert!(sanitized.contains("SCT***"));
    assert!(!sanitized.contains("abc123"));

    let long = "x".repeat(400);
    let cut = sanitize_push_error(&long);
    assert_eq!(cut.chars().count(), 303);
    assert!(cut.ends_with("..."));

    assert_eq!(delivery_error_message(1, "boom"), "boom");
    assert_eq!(delivery_error_message(3, "boom"), "尝试 3 次后失败: boom");
}

#[test]
fn delivery_report_records_each_channel_once() {
    let mut report = PushDeliveryReport::new();
    report.record_unavailable("bark");
    report.record_delivery("telegram", false, 3, "timeout");
    report.record_delivery("wecom", true, 1, "");
    report.record_delivery("telegram", true, 1, "");
    assert_eq!(report.results.len(), 3);
    assert!(report.results.contains(&("telegram".to_string(), true)));
    assert!(report.results.contains(&("bark".to_string(), false)));
    assert!(report.errors.contains(&("bark".to_string(), "渠道未配置或未启用".to_string())));
    assert!(report.errors.contains(&("telegram".to_string(), "尝试 3 次后失败: timeout".to_string())));
    assert!(report.attempts.contains(&("bark".to_string(), 0)));
    assert!(report.attempts.contains(&("telegram".to_string(), 1)));
    assert_eq!(report.success_count(), 2);
    assert_eq!(report.failed_count(), 1);
    assert_eq!(report.record_level(PushLevel::Success), "warning");
}

#[test]
fn delivery_report_without_failures_keeps_level() {
    let mut report = PushDeliveryReport::new();
    report.record_delivery("wecom", true, 2, "");
    assert_eq!(report.record_level(PushLevel::Success), "success");
    assert!(report.errors.is_empty());
}

#[test]
fn failed_push_raises_notification_to_unread_warning() {
    let mut notification = Notification {
        id: "n1".to_string(),
        level: "info".to_string(),
        event: "subscription_updated".to_string(),
        title: "t".to_string(),
        message: "m".to_string(),
        meta: NotificationMeta::empty(),
        read: true,
        created_at: 1,
    };
    merge_push_level(&mut notification, "info");
    assert_eq!(notification.level, "info");
    assert!(notification.read);
    merge_push_level(&mut notification, "warning");
    assert_eq!(notification.level, "warning");
    assert!(!notification.read);
    notification.level = "error".to_string();
    notification.read = true;
    merge_push_level(&mut notification, "warning");
    assert_eq!(notification.level, "error");
    assert!(notification.read);
}

#[test]
fn test_enabled_channels() {
    let settings = Settings {
        wecom_bot_url: "https://test".to_string(),
        telegram_bot_token: "token".to_string(),
        telegram_chat_id: "123".to_string(),
        ..Settings::default()
    };

    let channels = enabled_push_channels(&settings);

    assert_eq!(channels.len(), 2);
    assert!(channels.iter().any(|c| *c == "wecom"));
    assert!(channels.iter().any(|c| *c == "telegram"));
}

#[test]
fn test_sanitize_push_error_masks_tokens() {
    let error = "request failed: https://example.com/message?token=abc123&key=secret bot123456:ABC_def SCTabcdef";
    let sanitized = sanitize_push_error(error);

    assert!(sanitized.contains("token=***"));
    assert!(sanitized.contains("key=***"));
    assert!(sanitized.contains("bot***"));
    assert!(sanitized.contains("SCT***"));
    assert!(!sanitized.contains("abc123"));
    assert!(!sanitized.contains("secret"));
    assert!(!sanitized.contains("ABC_def"));
}
