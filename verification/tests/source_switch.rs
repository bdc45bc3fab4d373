use media_sub::model::{
    ProbeFile, ProbeResult, Settings, SourceCandidate, SourceQuality, Subscription, TransferRules,
};
use media_sub::source_switch::{
    auto_source_switch_allowed, auto_switch_notice, is_previewable, is_switchable,
    source_search_keywords, SubscriptionSourceSwitchService,
};

fn test_subscription() -> Subscription {
    Subscription {
        id: "test".to_string(),
        title: "测试剧集".to_string(),
        source_title: String::new(),
        media_type: String::new(),
        season: 2,
        season_end: None,
        start_episode_number: None,
        current_episode_number: 0,
        total_episode_number: None,
        metadata: None,
        url: "".to_string(),
        password: String::new(),
        known_files: vec![],
        known_file_keys: vec![],
        known_episodes: vec![],
        transferred_files: vec![],
        transferred_file_keys: vec![],
        last_probe: None,
        notify_only: false,
        sync_download_enabled: false,
        sync_downloads: vec![],
        strm_enabled: false,
        enabled: true,
        completed: false,
        rules: TransferRules::default(),
        last_checked_at: 0,
        last_new_files: vec![],
        last_new_episodes: vec![],
        last_check_summary: String::new(),
        status: "active".to_string(),
        invalid_since: None,
        last_error: String::new(),
        source_candidates: vec![],
        previous_share_links: vec![],
        source_failure_count: 0,
        last_source_switch_at: None,
        source_switch_history: vec![],
        cloud_type: "quark".to_string(),
        created_at: 0,
        updated_at: 0,
        check_history: vec![],
        last_source_search_time: None,
    }
}

fn unix_now() -> i64 {
    std::time::SystemTime::now()
        .duration_since(std::time::UNIX_EPOCH)
        .unwrap()
        .as_secs() as i64
}

#[test]
fn test_source_search_keywords_include_plain_title_before_season_variants() {
    let sub = test_subscription();
    let keywords = source_search_keywords(&sub);

    assert_eq!(keywords[0], "测试剧集");
    assert!(keywords.contains(&"测试剧集 S02".to_string()));
    assert!(keywords.contains(&"测试剧集 第二季".to_string()));
}

#[test]
fn test_source_search_keywords_clean_subtitle_group() {
    let mut sub = test_subscription();
    sub.source_title = "【字幕组】 测试剧集 - 1080p".to_string();

    let keywords = source_search_keywords(&sub);

    assert!(keywords.contains(&"测试剧集 1080p".to_string()));
    assert!(keywords.contains(&"测试剧集 1080p S02".to_string()));
}

#[test]
fn test_apply_source_switch_reactivates_subscription() {
    let mut sub = test_subscription();
    sub.url = "https://pan.quark.cn/s/old".to_string();
    sub.password = "oldpwd".to_string();
    sub.status = "invalid".to_string();
    sub.invalid_since = Some(123);
    sub.last_error = "分享已失效".to_string();
    sub.media_type = "anime".to_string();
    sub.current_episode_number = 12;
    sub.start_episode_number = Some(10);
    sub.known_files = vec!["old.mkv".to_string()];
    sub.known_file_keys = vec!["old-key".to_string()];
    sub.known_episodes = vec![1, 12];
    sub.transferred_files = vec!["old.mkv".to_string()];
    sub.transferred_file_keys = vec!["ep:12".to_string()];
    sub.last_probe = Some(ProbeResult {
        ok: true,
        state: "success".to_string(),
        message: "old".to_string(),
        files: vec![],
    });
    sub.last_new_files = vec!["old.mkv".to_string()];
    sub.last_new_episodes = vec![12];
    sub.last_check_summary = "旧检查结果".to_string();
    sub.source_candidates = vec![SourceCandidate {
        id: "candidate-1".to_string(),
        source: "pansou".to_string(),
        url: "https://pan.quark.cn/s/new".to_string(),
        password: "newpwd".to_string(),
        note: "新资源".to_string(),
        discovered_at: 456,
        probe_info: None,
        quality: SourceQuality::default(),
    }];

    let service = SubscriptionSourceSwitchService::new();
    service.apply_source_switch(&mut sub, "candidate-1").unwrap();

    assert_eq!(sub.url, "https://pan.quark.cn/s/new");
    assert_eq!(sub.password, "newpwd");
    assert_eq!(sub.previous_share_links, vec!["https://pan.quark.cn/s/old"]);
    assert_eq!(sub.status, "active");
    assert_eq!(sub.invalid_since, None);
    assert!(sub.last_error.is_empty());
    assert!(!sub.completed);
    assert_eq!(sub.start_episode_number, Some(13));
    assert!(sub.source_candidates.is_empty());
    assert_eq!(sub.known_files, vec!["old.mkv"]);
    assert_eq!(sub.known_file_keys, vec!["old-key"]);
    assert_eq!(sub.known_episodes, vec![1, 12]);
    assert_eq!(sub.transferred_file_keys, vec!["ep:12"]);
    assert!(sub.last_probe.is_none());
    assert!(sub.last_new_files.is_empty());
    assert!(sub.last_new_episodes.is_empty());
    assert_eq!(sub.last_check_summary, "已更换订阅资源，等待立即检查");
    assert_eq!(sub.source_switch_history.len(), 1);
    assert_eq!(sub.source_switch_history[0].status, "succeeded");
}

fn eligible_candidate() -> SourceCandidate {
    SourceCandidate {
        id: "candidate-good".to_string(),
        source: "fixture".to_string(),
        url: "https://pan.quark.cn/s/good".to_string(),
        password: String::new(),
        note: "测试剧集 S02 2160P HDR H265".to_string(),
        discovered_at: 1_700_000_000,
        probe_info: Some(ProbeResult {
            ok: true,
            state: "success".to_string(),
            message: String::new(),
            files: vec![ProbeFile {
                name: "Show.S02E13.2160p.HDR.HEVC.mkv".to_string(),
                is_dir: false,
                parent_path: "Season 2".to_string(),
                size: 4_000_000_000,
                updated_at: Some("2026-07-10T00:00:00Z".to_string()),
                file_key: "ep13".to_string(),
            }],
        }),
        quality: SourceQuality {
            score: 92,
            grade: "旗舰".to_string(),
            tone: "excellent".to_string(),
            tags: vec!["4K".to_string(), "HDR".to_string()],
            risks: vec![],
            resolution: "4K".to_string(),
            file_count: 1,
            video_count: 1,
            episode_count: 1,
            episode_start: Some(13),
            episode_end: Some(13),
            total_size: 4_000_000_000,
            updated_at: Some("2026-07-10T00:00:00Z".to_string()),
            recommendation_reasons: vec!["综合质量优秀".to_string()],
        },
    }
}

fn threshold_settings() -> Settings {
    Settings {
        source_switch_min_score: 70,
        source_switch_min_score_delta: 10,
        source_switch_failure_threshold: 2,
        source_switch_cooldown_hours: 24,
        ..Settings::default()
    }
}

#[test]
fn preview_requires_probe_season_progress_score_and_failure_threshold() {
    let service = SubscriptionSourceSwitchService::new();
    let mut sub = test_subscription();
    sub.url = "https://pan.quark.cn/s/current".to_string();
    sub.media_type = "series".to_string();
    sub.season = 2;
    sub.current_episode_number = 12;
    sub.start_episode_number = Some(13);
    sub.source_failure_count = 2;
    let settings = threshold_settings();

    let preview = service.preview_candidate(&sub, eligible_candidate(), &settings, 1_783_656_000);

    assert!(preview.probe_ok);
    assert!(preview.season_matches);
    assert!(preview.covers_progress);
    assert!(preview.can_apply);
    assert!(preview.auto_eligible);
    assert!(preview.score_delta >= 10);
}

#[test]
fn preview_blocks_historical_and_recent_failed_candidates() {
    let service = SubscriptionSourceSwitchService::new();
    let mut sub = test_subscription();
    sub.url = "https://pan.quark.cn/s/current".to_string();
    sub.media_type = "series".to_string();
    sub.season = 2;
    sub.current_episode_number = 12;
    sub.source_failure_count = 3;
    let candidate = eligible_candidate();
    sub.previous_share_links.push(candidate.url.clone());
    service.record_candidate_failure(&mut sub, &candidate, "probe failed", true);
    let settings = Settings::default();
    let preview = service.preview_candidate(&sub, candidate, &settings, unix_now());

    assert!(preview.historical_link);
    assert!(preview.recent_failure);
    assert!(!preview.can_apply);
    assert!(!preview.auto_eligible);
}

#[test]
fn rollback_restores_previous_url_and_preserves_progress() {
    let service = SubscriptionSourceSwitchService::new();
    let mut sub = test_subscription();
    sub.url = "https://pan.quark.cn/s/current".to_string();
    sub.password = "old".to_string();
    sub.known_episodes = vec![1, 12];
    sub.transferred_file_keys = vec!["ep:12".to_string()];
    sub.source_candidates = vec![eligible_candidate()];
    service
        .apply_source_switch_with_audit(&mut sub, "candidate-good", true, "自动策略")
        .unwrap();
    assert_eq!(sub.url, "https://pan.quark.cn/s/good");

    let result = service.rollback_last_source(&mut sub).unwrap();

    assert!(result.success);
    assert_eq!(sub.url, "https://pan.quark.cn/s/current");
    assert_eq!(sub.password, "old");
    assert_eq!(sub.known_episodes, vec![1, 12]);
    assert_eq!(sub.transferred_file_keys, vec!["ep:12"]);
    assert_eq!(sub.source_switch_history[0].status, "rolled_back");
    assert!(sub.source_switch_history[1].rolled_back_at.is_some());
}

#[test]
fn automatic_selection_uses_highest_eligible_candidate() {
    let service = SubscriptionSourceSwitchService::new();
    let mut sub = test_subscription();
    sub.url = "https://pan.quark.cn/s/current".to_string();
    sub.media_type = "series".to_string();
    sub.season = 2;
    sub.current_episode_number = 12;
    sub.start_episode_number = Some(13);
    sub.source_failure_count = 2;
    let mut lower = eligible_candidate();
    lower.id = "lower".to_string();
    lower.url = "https://pan.quark.cn/s/lower".to_string();
    lower.quality.score = 86;
    let higher = eligible_candidate();
    let settings = threshold_settings();

    let best = service
        .best_auto_candidate(&sub, &[lower, higher], &settings, 1_783_656_000)
        .unwrap();

    assert_eq!(best.candidate.id, "candidate-good");
    assert!(best.auto_eligible);
}

#[test]
fn cooldown_and_duplicate_application_are_enforced() {
    let service = SubscriptionSourceSwitchService::new();
    let now = 1_783_656_000;
    let mut sub = test_subscription();
    sub.url = "https://pan.quark.cn/s/current".to_string();
    sub.media_type = "series".to_string();
    sub.season = 2;
    sub.current_episode_number = 12;
    sub.start_episode_number = Some(13);
    sub.source_failure_count = 3;
    sub.last_source_switch_at = Some(now - 60);
    let candidate = eligible_candidate();
    sub.source_candidates = vec![candidate.clone()];
    let settings = Settings {
        source_switch_failure_threshold: 2,
        source_switch_cooldown_hours: 24,
        ..Settings::default()
    };
    let preview = service.preview_candidate(&sub, candidate, &settings, now);
    assert!(preview.can_apply);
    assert!(preview.cooldown_active);
    assert!(!preview.auto_eligible);

    service.apply_source_switch(&mut sub, "candidate-good").unwrap();
    assert_eq!(sub.source_switch_history.len(), 1);
    assert!(service.apply_source_switch(&mut sub, "candidate-good").is_err());
    assert_eq!(sub.source_switch_history.len(), 1);
}

#[test]
fn settle_auto_candidates_records_failures_and_switches_to_best() {
    let service = SubscriptionSourceSwitchService::new();
    let now = 1_783_656_000;
    let mut sub = test_subscription();
    sub.url = "https://pan.quark.cn/s/current".to_string();
    sub.media_type = "series".to_string();
    sub.season = 2;
    sub.current_episode_number = 12;
    sub.start_episode_number = Some(13);
    sub.source_failure_count = 2;
    let mut broken = eligible_candidate();
    broken.id = "broken".to_string();
    broken.url = "https://pan.quark.cn/s/broken".to_string();
    broken.probe_info = None;
    let settings = Settings {
        auto_source_switch_enabled: true,
        auto_source_switch_mode: "apply".to_string(),
        ..threshold_settings()
    };
    assert!(auto_source_switch_allowed(&settings, &sub));
    assert!(is_previewable(&sub, now));
    assert!(is_switchable(&sub));

    let switched = service
        .settle_auto_candidates(&mut sub, vec![broken, eligible_candidate()], &settings, now)
        .unwrap();

    assert_eq!(switched.0.id, "candidate-good");
    assert!(switched.1 >= 10);
    assert_eq!(sub.url, "https://pan.quark.cn/s/good");
    assert_eq!(sub.updated_at, now);
    assert!(sub.source_candidates.is_empty());
    assert!(sub
        .source_switch_history
        .iter()
        .any(|entry| entry.to_url == "https://pan.quark.cn/s/broken" && entry.error == "候选探测失败"));
    assert_eq!(
        auto_switch_notice(&sub.title, switched.0.quality.score),
        "订阅「测试剧集」已自动切换到质量分 92 的候选来源"
    );
}

#[test]
fn settle_auto_candidates_without_eligible_keeps_source() {
    let service = SubscriptionSourceSwitchService::new();
    let now = 1_783_656_000;
    let mut sub = test_subscription();
    sub.url = "https://pan.quark.cn/s/current".to_string();
    sub.source_failure_count = 2;
    let mut weak = eligible_candidate();
    weak.quality.score = 10;
    let settings = threshold_settings();
    let result = service.settle_auto_candidates(&mut sub, vec![weak], &settings, now);
    assert!(result.is_none());
    assert_eq!(sub.url, "https://pan.quark.cn/s/current");
    assert_eq!(sub.source_candidates.len(), 1);
}

#[test]
fn auto_switch_needs_apply_mode_and_threshold() {
    let mut sub = test_subscription();
    sub.source_failure_count = 1;
    let mut settings = Settings {
        auto_source_switch_enabled: true,
        auto_source_switch_mode: "apply".to_string(),
        source_switch_failure_threshold: 0,
        ..Settings::default()
    };
    assert!(auto_source_switch_allowed(&settings, &sub));
    settings.auto_source_switch_mode = "suggest".to_string();
    assert!(!auto_source_switch_allowed(&settings, &sub));
    settings.auto_source_switch_mode = "apply".to_string();
    settings.source_switch_failure_threshold = 3;
    assert!(!auto_source_switch_allowed(&settings, &sub));
}
