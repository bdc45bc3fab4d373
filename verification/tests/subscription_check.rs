use media_sub::model::{Subscription, TransferRules};
use media_sub::progress::should_mark_completed_from_known_episodes;
use media_sub::subscription_check::{
    batch_check_ids, extract_episode_number, normalize_check_interval_minutes, should_write_back,
    subscription_due_for_check,
};

fn sample_sub(interval: i32, last_checked: i64, weekdays: Vec<i32>) -> Subscription {
    Subscription {
        id: "sub1".into(),
        title: "Show".into(),
        source_title: String::new(),
        media_type: "series".into(),
        season: 1,
        season_end: None,
        start_episode_number: None,
        current_episode_number: 0,
        total_episode_number: None,
        metadata: None,
        url: "u".into(),
        password: String::new(),
        known_files: vec![],
        known_file_keys: vec![],
        known_episodes: vec![],
        transferred_files: vec![],
        transferred_file_keys: vec![],
        last_probe: None,
        notify_only: false,
        sync_download_enabled: false,
        sync_downloads: vec![],
        strm_enabled: false,
        enabled: true,
        completed: false,
        rules: TransferRules {
            check_interval_minutes: interval,
            check_weekdays: weekdays,
            ..TransferRules::default()
        },
        last_checked_at: last_checked,
        last_new_files: vec![],
        last_new_episodes: vec![],
        last_check_summary: String::new(),
        status: "active".into(),
        invalid_since: None,
        last_error: String::new(),
        source_candidates: vec![],
        previous_share_links: vec![],
        source_failure_count: 0,
        last_source_switch_at: None,
        source_switch_history: vec![],
        cloud_type: "quark".into(),
        created_at: 0,
        updated_at: 0,
        check_history: vec![],
        last_source_search_time: None,
    }
}

#[test]
fn never_checked_is_due() {
    let sub = sample_sub(60, 0, vec![]);
    assert!(subscription_due_for_check(&sub, 60, 1_000, 1));
}

#[test]
fn respects_per_subscription_interval() {
    let sub = sample_sub(30, 1_000, vec![]);
    assert!(!subscription_due_for_check(&sub, 60, 1_000 + 29 * 60, 1));
    assert!(subscription_due_for_check(&sub, 60, 1_000 + 30 * 60, 1));
}

#[test]
fn respects_check_weekdays() {
    let sub = sample_sub(5, 0, vec![1, 3, 5]);
    assert!(subscription_due_for_check(&sub, 60, 1, 1));
    assert!(!subscription_due_for_check(&sub, 60, 1, 2));
}

#[test]
fn global_interval_applies_when_subscription_has_none() {
    let sub = sample_sub(0, 1_000, vec![]);
    assert!(!subscription_due_for_check(&sub, 60, 1_000 + 59 * 60, 1));
    assert!(subscription_due_for_check(&sub, 60, 1_000 + 60 * 60, 1));
}

#[test]
fn test_extract_episode_number() {
    assert_eq!(extract_episode_number("动画名称 E01 1080p.mkv"), Some(1));
    assert_eq!(
        extract_episode_number("[字幕组] 动画名称 第12集.mp4"),
        Some(12)
    );
    assert_eq!(extract_episode_number("Show.S01E05.720p.mkv"), Some(5));
    assert_eq!(extract_episode_number("[01][1080p].mkv"), Some(1));
    assert_eq!(extract_episode_number("EP 03.mkv"), Some(3));
    assert_eq!(extract_episode_number("03.mkv"), Some(3));
    assert_eq!(extract_episode_number("129 4K.mp4"), Some(129));
    assert_eq!(extract_episode_number("23(1).mp4"), Some(23));
    assert_eq!(extract_episode_number("178重置版.mp4"), Some(178));
    assert_eq!(extract_episode_number("4K.mp4"), None);
    assert_eq!(
        extract_episode_number("S01E144.2025.2160p.WEB-DL.HQ.H265.30fps.10bit.AAC.mp4"),
        Some(144)
    );
    assert_eq!(extract_episode_number("Movie.2024.mkv"), None);
}

#[test]
fn test_should_mark_completed() {
    let mut sub = sample_sub(0, 0, vec![]);
    sub.current_episode_number = 11;
    sub.known_episodes = vec![1, 2, 11];
    sub.url = "https://pan.quark.cn/s/test".to_string();
    sub.rules = TransferRules {
        finish_after_episode: Some(12),
        ..Default::default()
    };

    assert!(should_mark_completed_from_known_episodes(&sub, &[12]));
    assert!(!should_mark_completed_from_known_episodes(&sub, &[10]));

    sub.completed = true;
    assert!(!should_mark_completed_from_known_episodes(&sub, &[12]));
}

#[test]
fn batch_takes_enabled_due_and_reopenable_subscriptions_in_order() {
    let now = 1_000_000;
    let mut due = sample_sub(10, now - 3600, vec![]);
    due.id = "due".into();
    let mut fresh = sample_sub(60, now - 60, vec![]);
    fresh.id = "fresh".into();
    let mut disabled = sample_sub(10, 0, vec![]);
    disabled.id = "disabled".into();
    disabled.enabled = false;
    let mut done = sample_sub(10, 0, vec![]);
    done.id = "done".into();
    done.completed = true;
    done.status = "completed".into();
    let mut reopen = sample_sub(10, 0, vec![]);
    reopen.id = "reopen".into();
    reopen.completed = true;
    reopen.status = "completed".into();
    reopen.total_episode_number = Some(12);
    reopen.current_episode_number = 3;
    let subs = vec![due, fresh, disabled, done, reopen];

    assert_eq!(batch_check_ids(&subs, true, 60, now, 1), vec!["due", "reopen"]);
    assert_eq!(batch_check_ids(&subs, false, 60, now, 1), vec!["due", "fresh", "reopen"]);
}

#[test]
fn only_touched_batch_records_are_written_back() {
    let original = sample_sub(10, 100, vec![]);
    let mut checked = original.clone();
    assert!(!should_write_back(&checked, Some(&original)));
    checked.last_checked_at = 200;
    assert!(should_write_back(&checked, Some(&original)));
    assert!(!should_write_back(&checked, None));
}

#[test]
fn check_interval_is_kept_within_bounds() {
    assert_eq!(normalize_check_interval_minutes(1), 5);
    assert_eq!(normalize_check_interval_minutes(100_000), 1440);
    assert_eq!(normalize_check_interval_minutes(30), 30);
    assert_eq!(normalize_check_interval_minutes(normalize_check_interval_minutes(2) as i64), 5);
}
