use media_sub::download_monitor::{
    batch_records_settled, claim_finished_downloads, completed_after_download_notice,
    completed_download_already_recorded, completed_subscription_download_files,
    completion_action, download_batch_for_task, download_completed_title_message,
    download_completion, download_dedupe_keys, download_failed_title_message, download_owner_ids,
    failed_download_already_recorded, failed_download_gids, failure_notice,
    mark_completed_after_download, mark_sync_download_completed, merged_download_message,
    subscription_id_for_download_gid, sync_download_matches_by_file, Aria2Task, CompletionAction,
    DedupeKeyCache, MAX_TRACKED_DEDUPE_KEYS,
};
use media_sub::model::{
    DownloadRef, Notification, NotificationMeta, Subscription, SyncDownloadRecord, TransferRules,
};

fn completed_task() -> Aria2Task {
    Aria2Task {
        gid: "gid-1".to_string(),
        status: "complete".to_string(),
        file_name: "Show.S01E01.mkv".to_string(),
        total_length: 1024,
        completed_length: 1024,
        dir: "/downloads/anime".to_string(),
        error_code: String::new(),
        error_message: String::new(),
    }
}

fn task_with(gid: &str, file_name: &str, status: &str) -> Aria2Task {
    let failed = status == "error";
    Aria2Task {
        gid: gid.to_string(),
        status: status.to_string(),
        file_name: file_name.to_string(),
        total_length: 1024,
        completed_length: if failed { 0 } else { 1024 },
        dir: "/downloads/anime".to_string(),
        error_code: if failed { "1".to_string() } else { String::new() },
        error_message: if failed {
            "下载地址失效".to_string()
        } else {
            String::new()
        },
    }
}

fn notification(event: &str, title: &str, message: &str, meta: NotificationMeta) -> Notification {
    Notification {
        id: "n1".to_string(),
        level: "success".to_string(),
        event: event.to_string(),
        title: title.to_string(),
        message: message.to_string(),
        meta,
        read: false,
        created_at: 1,
    }
}

fn record(gid: &str, file_name: &str, submitted_at: i64, completed_at: Option<i64>) -> SyncDownloadRecord {
    SyncDownloadRecord {
        gid: gid.to_string(),
        file_name: file_name.to_string(),
        download_dir: "/downloads/anime".to_string(),
        target_dir: "/series/Show/Season 1".to_string(),
        submitted_at,
        completed_at,
    }
}

fn subscription(id: &str, records: Vec<SyncDownloadRecord>) -> Subscription {
    Subscription {
        id: id.to_string(),
        title: "Show".to_string(),
        source_title: String::new(),
        media_type: "series".to_string(),
        season: 1,
        season_end: None,
        start_episode_number: None,
        current_episode_number: 0,
        total_episode_number: Some(2),
        metadata: None,
        url: "https://pan.quark.cn/s/test".to_string(),
        password: String::new(),
        known_files: vec![],
        known_file_keys: vec![],
        known_episodes: vec![],
        transferred_files: vec![],
        transferred_file_keys: vec![],
        last_probe: None,
        notify_only: false,
        sync_download_enabled: true,
        sync_downloads: records,
        strm_enabled: false,
        enabled: true,
        completed: false,
        rules: TransferRules::default(),
        last_checked_at: 0,
        last_new_files: vec![],
        last_new_episodes: vec![],
        last_check_summary: String::new(),
        status: "active".to_string(),
        invalid_since: None,
        last_error: String::new(),
        source_candidates: vec![],
        previous_share_links: vec![],
        source_failure_count: 0,
        last_source_switch_at: None,
        source_switch_history: vec![],
        cloud_type: "quark".to_string(),
        created_at: 0,
        updated_at: 0,
        check_history: vec![],
        last_source_search_time: None,
    }
}

fn evicts_oldest_keys_beyond_cap() {
    let mut cache = DedupeKeyCache::default();
    for index in 0..(MAX_TRACKED_DEDUPE_KEYS + 10) {
        cache.insert(format!("gid:{index}"));
    }
    assert_eq!(cache.snapshot().len(), MAX_TRACKED_DEDUPE_KEYS);
    assert_eq!(cache.order.len(), MAX_TRACKED_DEDUPE_KEYS);
    assert!(!cache.contains("gid:0"));
    assert!(!cache.contains("gid:9"));
    assert!(cache.contains("gid:10"));
    assert!(cache.contains(&format!("gid:{}", MAX_TRACKED_DEDUPE_KEYS + 9)));

    let newest = format!("gid:{}", MAX_TRACKED_DEDUPE_KEYS + 9);
    cache.insert(newest.clone());
    assert_eq!(cache.order.len(), MAX_TRACKED_DEDUPE_KEYS);
    assert!(cache.contains(&newest));
}

fn failed_claim_removed_for_retry() {
    let mut cache = DedupeKeyCache::default();
    cache.insert("gid:retry".to_string());
    cache.insert("file:retry".to_string());

    cache.remove("gid:retry");
    cache.remove("file:retry");

    assert!(!cache.contains("gid:retry"));
    assert!(!cache.contains("file:retry"));
    assert!(cache.order.is_empty());
}

fn pushed_jobs_cover_cleared_history() {
    let task = completed_task();
    let (title, message) = download_completed_title_message(&task);
    let pushed_downloads = vec![(title, message)];

    assert!(completed_download_already_recorded(&[], &pushed_downloads, &task));
}

#[test]
fn download_monitor_dedupe_key_cache_evicts_oldest_keys_beyond_cap() {
    evicts_oldest_keys_beyond_cap();
}

#[test]
fn tests_dedupe_key_cache_evicts_oldest_keys_beyond_cap() {
    evicts_oldest_keys_beyond_cap();
}

#[test]
fn download_monitor_failed_claim_can_be_removed_for_retry() {
    failed_claim_removed_for_retry();
}

#[test]
fn tests_failed_claim_can_be_removed_for_retry() {
    failed_claim_removed_for_retry();
}

#[test]
fn download_monitor_completed_download_history_uses_push_jobs_when_notifications_were_cleared() {
    pushed_jobs_cover_cleared_history();
}

#[test]
fn tests_completed_download_history_uses_push_jobs_when_notifications_were_cleared() {
    pushed_jobs_cover_cleared_history();
}

#[test]
fn tests_merged_download_notification_matches_any_batch_gid() {
    let task = completed_task();
    let mut meta = NotificationMeta::empty();
    meta.gids = Some(vec![Some("gid-1".to_string()), Some("gid-2".to_string())]);
    let history = vec![notification(
        "download_completed",
        "下载完成: Show（2 个文件）",
        "• Show.S01E01.mkv\n• Show.S01E02.mkv",
        meta,
    )];

    assert!(completed_download_already_recorded(&history, &[], &task));
}

#[test]
fn tests_completed_download_history_matches_when_gid_changes() {
    let task = completed_task();
    let mut meta = NotificationMeta::empty();
    meta.gid = Some("old-gid".to_string());
    meta.file_name = Some("Show.S01E01.mkv".to_string());
    meta.dir = Some("/downloads/anime".to_string());
    meta.total_length = Some(1024);
    let history = vec![notification(
        "download_completed",
        "下载完成: Show.S01E01.mkv",
        "文件：Show.S01E01.mkv\n目录：/downloads/anime\n大小：1.00 KB",
        meta,
    )];

    assert!(completed_download_already_recorded(&history, &[], &task));
}

#[test]
fn completed_title_and_message_list_file_directory_and_size() {
    let (title, message) = download_completed_title_message(&completed_task());
    assert_eq!(title, "下载完成: Show.S01E01.mkv");
    assert_eq!(message, "文件：Show.S01E01.mkv\n目录：/downloads/anime\n大小：1.00 KB");

    let mut bare = completed_task();
    bare.file_name = "  ".to_string();
    bare.dir = String::new();
    bare.total_length = 0;
    let (title, message) = download_completed_title_message(&bare);
    assert_eq!(title, "下载完成: gid-1");
    assert_eq!(message, "文件：gid-1");
}

#[test]
fn failed_message_prefers_error_message_then_code() {
    let task = task_with("gid-9", "Show.S01E02.mkv", "error");
    let (title, message) = download_failed_title_message(&task);
    assert_eq!(title, "下载失败: Show.S01E02.mkv");
    assert_eq!(message, "文件：Show.S01E02.mkv\n目录：/downloads/anime\n错误：下载地址失效");

    let mut coded = task.clone();
    coded.error_message = String::new();
    assert!(download_failed_title_message(&coded).1.ends_with("错误：错误码 1"));
    coded.error_code = String::new();
    assert!(download_failed_title_message(&coded).1.ends_with("错误：Aria2 任务失败"));
}

#[test]
fn dedupe_keys_distinguish_failures() {
    assert_eq!(
        download_dedupe_keys(&completed_task()),
        vec![
            "gid:gid-1".to_string(),
            "file:Show.S01E01.mkv\n/downloads/anime\n1024".to_string()
        ]
    );
    let failed = task_with("gid-2", "a.mkv", "error");
    assert_eq!(
        download_dedupe_keys(&failed),
        vec![
            "failed:gid:gid-2".to_string(),
            "failed:file:a.mkv\n/downloads/anime\n1024".to_string()
        ]
    );
    let mut no_gid = completed_task();
    no_gid.gid = " ".to_string();
    assert_eq!(download_dedupe_keys(&no_gid).len(), 1);
}

#[test]
fn failed_downloads_are_recorded_by_gid_or_file() {
    let task = task_with("gid-2", "a.mkv", "error");
    let mut meta = NotificationMeta::empty();
    meta.gid = Some("gid-2".to_string());
    let history = vec![notification("download_failed", "x", "y", meta)];
    assert!(failed_download_already_recorded(&history, &[], &task));
    assert!(!failed_download_already_recorded(&[], &[], &task));
    assert_eq!(failed_download_gids(&history), vec!["gid-2".to_string()]);
    assert!(failure_notice(&None, &history, &[], &task).is_none());
    let notice = failure_notice(&Some("p.jpg".to_string()), &[], &[], &task).unwrap();
    assert_eq!(notice.0, "下载失败: a.mkv");
    assert_eq!(notice.2.poster_url, Some("p.jpg".to_string()));
    assert_eq!(notice.2.error_code, Some("1".to_string()));
}

#[test]
fn file_match_ignores_ascii_case_and_trailing_slashes() {
    let task = completed_task();
    let mut r = record("other", "show.s01e01.MKV", 1, None);
    r.download_dir = "/downloads/anime///".to_string();
    assert!(sync_download_matches_by_file(&r, &task));
    r.download_dir = "/elsewhere".to_string();
    assert!(!sync_download_matches_by_file(&r, &task));
    r.download_dir = String::new();
    assert!(sync_download_matches_by_file(&r, &task));
    r.file_name = " ".to_string();
    assert!(!sync_download_matches_by_file(&r, &task));
}

#[test]
fn batch_collects_records_submitted_together() {
    let subs = vec![
        subscription("a", vec![record("x", "Other.mkv", 5, None)]),
        subscription(
            "b",
            vec![
                record("gid-1", "Show.S01E01.mkv", 7, None),
                record("gid-2", "Show.S01E02.mkv", 7, Some(3)),
                record("gid-3", "Show.S01E03.mkv", 8, None),
            ],
        ),
    ];
    let batch = download_batch_for_task(&subs, &completed_task()).unwrap();
    assert_eq!(batch.subscription_index, 1);
    assert_eq!(batch.subscription_id, "b");
    assert_eq!(batch.records.len(), 2);
    assert_eq!(batch.records[1].gid, "gid-2");

    let stray = task_with("nope", "Nothing.mkv", "complete");
    assert!(download_batch_for_task(&subs, &stray).is_none());
}

#[test]
fn merged_message_lists_finished_files_with_sizes() {
    let subs = vec![subscription(
        "b",
        vec![
            record("gid-1", "Show.S01E01.mkv", 7, Some(2)),
            record("gid-2", "Show.S01E02.mkv", 7, Some(3)),
            record("gid-3", "Show.S01E03.mkv", 7, None),
        ],
    )];
    let batch = download_batch_for_task(&subs, &completed_task()).unwrap();
    let tasks = vec![completed_task()];
    let (title, message, meta) = merged_download_message(&batch, &tasks);
    assert_eq!(title, "下载完成: Show（2 个文件）");
    assert_eq!(message, "• Show.S01E01.mkv（1.00 KB）\n• Show.S01E02.mkv");
    assert_eq!(meta.file_count, Some(2));
    assert_eq!(
        meta.gids,
        Some(vec![Some("gid-1".to_string()), Some("gid-2".to_string())])
    );
    assert_eq!(meta.gid, Some("gid-1".to_string()));
    assert_eq!(meta.batch_submitted_at, Some(7));
}

#[test]
fn batch_waits_until_every_file_settles() {
    let subs = vec![subscription(
        "b",
        vec![
            record("gid-1", "Show.S01E01.mkv", 7, Some(2)),
            record("gid-2", "Show.S01E02.mkv", 7, None),
        ],
    )];
    let batch = download_batch_for_task(&subs, &completed_task());
    let tasks = vec![completed_task()];
    assert!(matches!(
        completion_action(&batch, &[], &[], &completed_task(), &tasks),
        CompletionAction::Defer
    ));

    let mut meta = NotificationMeta::empty();
    meta.gid = Some("gid-2".to_string());
    let history = vec![notification("download_failed", "t", "m", meta)];
    assert!(batch_records_settled(
        &subs[0].sync_downloads,
        &failed_download_gids(&history)
    ));
    match completion_action(&batch, &history, &[], &completed_task(), &tasks) {
        CompletionAction::NotifyBatch { subscription_id, title, .. } => {
            assert_eq!(subscription_id, "b");
            assert_eq!(title, "下载完成: Show（1 个文件）");
        }
        other => panic!("unexpected {:?}", other),
    }
}

#[test]
fn lone_download_is_notified_once() {
    let task = completed_task();
    match completion_action(&None, &[], &[], &task, &[task.clone()]) {
        CompletionAction::NotifySingle { title, meta, .. } => {
            assert_eq!(title, "下载完成: Show.S01E01.mkv");
            assert_eq!(meta.total_length, Some(1024));
        }
        other => panic!("unexpected {:?}", other),
    }
    let (title, message) = download_completed_title_message(&task);
    assert!(matches!(
        completion_action(&None, &[], &[(title, message)], &task, &[]),
        CompletionAction::AlreadyRecorded
    ));
}

#[test]
fn scan_claims_each_finished_task_once() {
    let mut cache = DedupeKeyCache::default();
    let tasks = vec![
        completed_task(),
        task_with("gid-2", "b.mkv", "active"),
        task_with("gid-3", "c.mkv", "error"),
        completed_task(),
    ];
    let claims = claim_finished_downloads(&mut cache, &tasks);
    assert_eq!(claims.len(), 2);
    assert_eq!(claims[0].0, "gid-1");
    assert_eq!(claims[1].0, "gid-3");
    assert!(claim_finished_downloads(&mut cache, &tasks).is_empty());
    for key in &claims[1].1 {
        cache.remove(key);
    }
    let again = claim_finished_downloads(&mut cache, &tasks);
    assert_eq!(again.len(), 1);
    assert_eq!(again[0].0, "gid-3");
}

#[test]
fn finished_task_marks_matching_records() {
    let mut sub = subscription(
        "b",
        vec![
            record("gid-1", "Show.S01E01.mkv", 7, None),
            record("gid-2", "Show.S01E01.mkv", 7, None),
        ],
    );
    mark_sync_download_completed(&mut sub, &completed_task(), 99);
    assert_eq!(sub.sync_downloads[0].completed_at, Some(99));
    assert_eq!(sub.sync_downloads[1].completed_at, None);
    assert_eq!(sub.updated_at, 99);

    let mut by_file = subscription("c", vec![record("old", "show.s01e01.mkv", 7, None)]);
    mark_sync_download_completed(&mut by_file, &completed_task(), 5);
    assert_eq!(by_file.sync_downloads[0].completed_at, Some(5));
}

#[test]
fn owners_come_from_records_and_older_transfer_notifications() {
    let subs = vec![
        subscription("a", vec![record("gid-1", "Show.S01E01.mkv", 7, None)]),
        subscription("b", vec![record("zzz", "Show.S01E01.mkv", 7, None)]),
    ];
    let mut meta = NotificationMeta::empty();
    meta.subscription_id = Some("legacy".to_string());
    meta.sync_downloads = Some(vec![DownloadRef {
        gid: Some("gid-1".to_string()),
        file_name: Some("Show.S01E01.mkv".to_string()),
    }]);
    let history = vec![notification("subscription_transferred", "t", "m", meta)];
    assert_eq!(
        subscription_id_for_download_gid(&history, "gid-1"),
        Some("legacy".to_string())
    );
    let (durable, all) = download_owner_ids(&subs, &history, &completed_task());
    assert_eq!(durable, vec!["a".to_string()]);
    assert_eq!(all, vec!["a".to_string(), "legacy".to_string()]);
}

#[test]
fn finished_downloads_complete_a_synced_subscription() {
    let mut sub = subscription(
        "b",
        vec![
            record("gid-1", "Show.S01E01.mkv", 7, Some(1)),
            record("gid-2", "Show.S01E02.mkv", 7, None),
        ],
    );
    let mut meta = NotificationMeta::empty();
    meta.subscription_id = Some("b".to_string());
    meta.sync_downloads = Some(vec![DownloadRef {
        gid: Some("gid-2".to_string()),
        file_name: Some("Show.S01E02.mkv".to_string()),
    }]);
    let history = vec![notification("subscription_transferred", "t", "m", meta)];
    assert_eq!(
        completed_subscription_download_files(&history, "b", "gid-2"),
        vec!["Show.S01E02.mkv".to_string()]
    );
    let (files, complete) = download_completion(&sub, &history, "gid-2");
    assert_eq!(
        files,
        vec!["Show.S01E01.mkv".to_string(), "Show.S01E02.mkv".to_string()]
    );
    assert!(complete);
    let (_, not_yet) = download_completion(&sub, &[], "gid-9");
    assert!(!not_yet);

    assert!(mark_completed_after_download(&mut sub, Some(2), 50));
    assert!(sub.completed);
    assert_eq!(sub.status, "completed");
    assert_eq!(sub.current_episode_number, 2);
    assert!(!mark_completed_after_download(&mut sub, Some(2), 60));
    assert_eq!(sub.updated_at, 50);

    let (title, message, meta) = completed_after_download_notice(&sub, &files);
    assert_eq!(title, "订阅已完结: Show");
    assert_eq!(message, "已下载到第 2 集");
    assert_eq!(meta.completed_download_files, Some(files.clone()));
}
