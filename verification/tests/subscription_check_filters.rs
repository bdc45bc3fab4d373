use media_sub::check_update::{apply_check_result, sort_numbers};
use media_sub::file_filter::{
    build_check_details, contains_any_rule_word, find_new_files, is_before_start_episode,
    looks_like_derived_content, normalized_rule_words, parse_episodes,
    primary_season_new_episodes, transfer_candidate_file_names, transfer_rule_skip_reason,
};
use media_sub::model::{ProbeFile, ProbeResult, Settings, Subscription, TransferRules};
use media_sub::subscription_check::{
    auto_transfer_disabled_reason, candidates_found_notice, check_refusal, check_summary,
    completed_notice, completion_after_check, invalid_notice, invalid_summary, mark_invalid,
    update_notice,
};

fn make_subscription() -> Subscription {
    Subscription {
        id: "sub1".to_string(),
        title: "Show".to_string(),
        source_title: String::new(),
        media_type: "series".to_string(),
        season: 1,
        season_end: None,
        start_episode_number: None,
        current_episode_number: 0,
        total_episode_number: None,
        metadata: None,
        url: "https://pan.quark.cn/s/test".to_string(),
        password: String::new(),
        known_files: vec![],
        known_file_keys: vec![],
        known_episodes: vec![],
        transferred_files: vec![],
        transferred_file_keys: vec![],
        last_probe: None,
        notify_only: false,
        sync_download_enabled: false,
        sync_downloads: vec![],
        strm_enabled: false,
        enabled: true,
        completed: false,
        rules: TransferRules::default(),
        last_checked_at: 0,
        last_new_files: vec![],
        last_new_episodes: vec![],
        last_check_summary: String::new(),
        status: "active".to_string(),
        invalid_since: None,
        last_error: String::new(),
        source_candidates: vec![],
        previous_share_links: vec![],
        source_failure_count: 0,
        last_source_switch_at: None,
        source_switch_history: vec![],
        cloud_type: "quark".to_string(),
        created_at: 0,
        updated_at: 0,
        check_history: vec![],
        last_source_search_time: None,
    }
}

fn probe_file(name: &str, parent_path: &str, file_key: &str) -> ProbeFile {
    ProbeFile {
        name: name.to_string(),
        is_dir: false,
        parent_path: parent_path.to_string(),
        size: 1,
        updated_at: None,
        file_key: file_key.to_string(),
    }
}

fn probe_dir(name: &str, parent_path: &str, file_key: &str) -> ProbeFile {
    ProbeFile {
        name: name.to_string(),
        is_dir: true,
        parent_path: parent_path.to_string(),
        size: 0,
        updated_at: None,
        file_key: file_key.to_string(),
    }
}

fn new_names(sub: &Subscription, files: &[ProbeFile]) -> Vec<String> {
    find_new_files(sub, files)
        .into_iter()
        .map(|file| file.name)
        .collect()
}

#[test]
fn test_find_new_files_respects_start_episode_number() {
    let mut sub = make_subscription();
    sub.start_episode_number = Some(5);
    let files = vec![
        probe_file("Show.S01E04.mkv", "", "old-ep"),
        probe_file("Show.S01E05.mkv", "", "start-ep"),
        probe_file("special.mkv", "", "special"),
    ];
    assert_eq!(new_names(&sub, &files), vec!["Show.S01E05.mkv"]);
}

#[test]
fn test_find_new_files_dedups_episode_video_variants() {
    let sub = make_subscription();
    let files = vec![
        probe_file("178.mkv", "", "ep178"),
        probe_file("178-4k.mkv", "", "ep178-4k"),
    ];
    assert_eq!(new_names(&sub, &files), vec!["178-4k.mkv"]);
}

#[test]
fn test_find_new_files_skips_known_episode_video_variant() {
    let mut sub = make_subscription();
    sub.known_episodes = vec![178];
    let files = vec![probe_file("178-4k.mkv", "", "ep178-4k")];
    assert!(find_new_files(&sub, &files).is_empty());
}

#[test]
fn test_find_new_files_skips_non_episode_extras_and_non_videos() {
    let mut sub = make_subscription();
    sub.media_type = "anime".to_string();
    sub.start_episode_number = Some(181);
    let files = vec![
        probe_file("181 4K.mp4", "", "ep181-4k"),
        probe_file("《不凡》MV：管它快意或失落 重要的是 我还是我.mp4", "", "mv1"),
        probe_file("不凡-王铮亮【《魔道争锋》片头】.修炼尘世中 千万年仿佛一刹.mp4", "", "op1"),
        probe_file("Show.S01E182.OP1.mp4", "", "op-with-episode"),
        probe_file("Show.S01E183.片尾曲.mp4", "", "ed-song"),
        probe_file("4K.mp4", "", "quality-only"),
        probe_file("欢迎各大影视站长来谈商务《网盘推广》.txt", "", "ad-txt"),
    ];
    assert_eq!(new_names(&sub, &files), vec!["181 4K.mp4"]);
}

#[test]
fn test_find_new_files_respects_exclude_keywords() {
    let mut sub = make_subscription();
    sub.rules.exclude_keywords.push("特别篇".to_string());
    let files = vec![
        probe_file("Show.S01E05.mkv", "", "ep5"),
        probe_file("Show.S01E06.特别篇.mkv", "", "special-ep6"),
    ];
    assert_eq!(new_names(&sub, &files), vec!["Show.S01E05.mkv"]);
}

#[test]
fn test_derived_content_filter_does_not_match_plain_substrings() {
    let sub = make_subscription();
    let files = vec![
        probe_file("Show.S01E05.Encoded.WEB-DL.mkv", "", "encoded"),
        probe_file("Show.S01E06.Topaz.WEB-DL.mkv", "", "topaz"),
    ];
    assert_eq!(
        new_names(&sub, &files),
        vec!["Show.S01E05.Encoded.WEB-DL.mkv", "Show.S01E06.Topaz.WEB-DL.mkv"]
    );
}

#[test]
fn test_find_new_files_skips_directories_and_other_seasons() {
    let mut sub = make_subscription();
    sub.media_type = "anime".to_string();
    sub.season = 6;
    sub.start_episode_number = Some(25);
    let files = vec![
        probe_dir("第6季", "", "dir-s6"),
        probe_dir("前五季+番外+剧场版", "", "dir-archive"),
        probe_file("25 4K.mp4", "一人之下 第六季/第6季", "s6-25"),
        probe_file("26 4K.mp4", "一人之下 第六季/第6季", "s6-26"),
        probe_file("01.mp4", "前五季+番外+剧场版/第1季（2016）4K", "s1-01"),
        probe_file(
            "S03E01.2020.1080p.WEB-DL.H265.mp4",
            "前五季+番外+剧场版/第3季（2020）",
            "s3-01",
        ),
        probe_file("4K.mp4", "前五季+番外+剧场版/锈铁重现（2024）4K", "movie-extra"),
    ];
    let details = build_check_details(&sub, &files);
    assert_eq!(new_names(&sub, &files), vec!["25 4K.mp4", "26 4K.mp4"]);
    assert_eq!(details.new_count, 2);
    assert_eq!(details.skipped_directory_count, 2);
    assert_eq!(details.skipped_other_season_count, 3);
}

#[test]
fn test_build_check_details_classifies_probe_files() {
    let mut sub = make_subscription();
    sub.known_file_keys = vec!["known-key".to_string()];
    sub.start_episode_number = Some(5);
    let files = vec![
        probe_file("Show.S01E03.mkv", "", "known-key"),
        probe_file("Show.S01E04.mkv", "", "before-start"),
        probe_file("Show.S01E05.mkv", "", "new-key"),
    ];
    let details = build_check_details(&sub, &files);
    assert_eq!(details.scanned_count, 3);
    assert_eq!(details.known_count, 1);
    assert_eq!(details.skipped_before_start_count, 1);
    assert_eq!(details.new_count, 1);
    assert_eq!(details.items[0].action, "known");
    assert_eq!(details.items[1].action, "skip");
    assert_eq!(details.items[2].action, "new");
}

#[test]
fn test_build_check_details_marks_duplicate_episode_video() {
    let sub = make_subscription();
    let files = vec![
        probe_file("178.mkv", "", "ep178"),
        probe_file("178-4k.mkv", "", "ep178-4k"),
    ];
    let details = build_check_details(&sub, &files);
    assert_eq!(details.new_count, 1);
    assert_eq!(details.skipped_duplicate_episode_count, 1);
    assert_eq!(details.items[0].action, "skip");
    assert_eq!(details.items[0].reason, "同集重复视频，已保留清晰度最高版本");
    assert_eq!(details.items[1].action, "new");
}

#[test]
fn rule_reasons_name_the_failed_rule() {
    let mut sub = make_subscription();
    sub.total_episode_number = Some(10);
    let reason = |sub: &Subscription, name: &str| transfer_rule_skip_reason(sub, &probe_file(name, "", "k"));
    assert_eq!(reason(&sub, "notes.txt"), Some("非视频文件".to_string()));
    assert_eq!(reason(&sub, "Show.S01E02.trailer.mkv"), Some("疑似衍生内容".to_string()));
    assert_eq!(reason(&sub, "Show.S01E12.mkv"), Some("集数超过订阅总集数：第 12 集".to_string()));
    assert_eq!(reason(&sub, "Show.S01E02.mkv"), None);
    sub.rules.include_keywords = vec![" 1080P ".to_string()];
    assert_eq!(reason(&sub, "Show.S01E02.mkv"), Some("不含包含关键词".to_string()));
    assert_eq!(reason(&sub, "Show.S01E02.1080p.mkv"), None);
    sub.rules.match_regex = "(".to_string();
    assert!(reason(&sub, "Show.S01E02.1080p.mkv")
        .unwrap()
        .starts_with("match_regex 无效："));
    sub.rules.match_regex = "web-dl".to_string();
    assert_eq!(reason(&sub, "Show.S01E02.1080p.mkv"), Some("未命中匹配正则".to_string()));
}

#[test]
fn derived_markers_are_whole_words() {
    assert!(looks_like_derived_content("show op2 clip"));
    assert!(looks_like_derived_content("show.ed"));
    assert!(looks_like_derived_content("第1集 花絮"));
    assert!(!looks_like_derived_content("topaz.encoded"));
    assert!(!looks_like_derived_content("opx"));
}

#[test]
fn rule_words_are_trimmed_and_lowercased() {
    let words = normalized_rule_words(&[" A ".to_string(), "  ".to_string(), "Bc".to_string()]);
    assert_eq!(words, vec!["a".to_string(), "bc".to_string()]);
    assert!(contains_any_rule_word("xbcx", &words));
    assert!(!contains_any_rule_word("xyz", &words));
}

#[test]
fn start_episode_only_limits_the_first_season() {
    let mut sub = make_subscription();
    sub.start_episode_number = Some(5);
    sub.season_end = Some(2);
    assert!(is_before_start_episode(&sub, "Show.S01E04.mkv", ""));
    assert!(!is_before_start_episode(&sub, "Show.S02E04.mkv", ""));
    sub.start_episode_number = Some(1);
    assert!(!is_before_start_episode(&sub, "Show.S01E00.mkv", ""));
}

#[test]
fn episodes_are_sorted_and_distinct() {
    let sub = make_subscription();
    let names = vec![
        "Show.S01E03.mkv".to_string(),
        "Show.S01E01.mkv".to_string(),
        "Show.S01E03.1080p.mkv".to_string(),
        "notes.txt".to_string(),
    ];
    assert_eq!(parse_episodes(&sub, &names), vec![1, 3]);
    let files = vec![
        probe_file("Show.S01E03.mkv", "", "a"),
        probe_file("Show.S02E04.mkv", "", "b"),
    ];
    let all = vec!["Show.S01E03.mkv".to_string(), "Show.S02E04.mkv".to_string()];
    assert_eq!(primary_season_new_episodes(&sub, &files, &all), vec![3]);
    assert_eq!(sort_numbers(&vec![3, -1, 3, 2]), vec![-1, 2, 3, 3]);
}

fn two_file_probe(first_key: &str, second_key: &str) -> ProbeResult {
    ProbeResult {
        ok: true,
        state: "ok".to_string(),
        message: String::new(),
        files: vec![
            probe_file("Show.S01E01.mkv", "", first_key),
            probe_file("Show.S01E02.mkv", "", second_key),
        ],
    }
}

#[test]
fn test_update_subscription_after_check_records_new_files() {
    let mut sub = make_subscription();
    sub.known_file_keys = vec!["old-key".to_string()];
    sub.status = "invalid".to_string();
    sub.invalid_since = Some(1);
    let probe = two_file_probe("old-key", "new-key");
    let new_names: Vec<String> = find_new_files(&sub, &probe.files)
        .iter()
        .map(|file| file.name.clone())
        .collect();
    let new_episodes = parse_episodes(&sub, &new_names);
    let details = build_check_details(&sub, &probe.files);
    let mut updated = sub.clone();
    apply_check_result(&mut updated, &probe, &new_names, &new_episodes, "发现 1 个新文件", false, &details, 100);
    assert_eq!(new_names, vec!["Show.S01E02.mkv"]);
    assert_eq!(new_episodes, vec![2]);
    assert_eq!(updated.current_episode_number, 2);
    assert_eq!(updated.status, "active");
    assert!(updated.invalid_since.is_none());
    assert!(updated.known_file_keys.contains(&"new-key".to_string()));
    assert_eq!(updated.check_history.len(), 1);
    assert_eq!(updated.check_history[0].new_count, 1);
    assert_eq!(updated.check_history[0].known_count, 1);
}

#[test]
fn test_start_episode_skips_old_files_but_records_known_keys() {
    let mut sub = make_subscription();
    sub.start_episode_number = Some(5);
    let probe = ProbeResult {
        ok: true,
        state: "ok".to_string(),
        message: String::new(),
        files: vec![
            probe_file("Show.S01E04.mkv", "", "ep4-key"),
            probe_file("Show.S01E05.mkv", "", "ep5-key"),
        ],
    };
    let new_names: Vec<String> = find_new_files(&sub, &probe.files)
        .iter()
        .map(|file| file.name.clone())
        .collect();
    let new_episodes = parse_episodes(&sub, &new_names);
    let details = build_check_details(&sub, &probe.files);
    let mut updated = sub.clone();
    apply_check_result(&mut updated, &probe, &new_names, &new_episodes, "发现 1 个新文件", false, &details, 100);
    assert_eq!(new_names, vec!["Show.S01E05.mkv"]);
    assert_eq!(new_episodes, vec![5]);
    assert!(updated.known_file_keys.contains(&"ep4-key".to_string()));
    assert!(updated.known_file_keys.contains(&"ep5-key".to_string()));
    assert_eq!(updated.last_new_files, vec!["Show.S01E05.mkv"]);
}

#[test]
fn check_history_keeps_thirty_newest_entries() {
    let mut sub = make_subscription();
    sub.total_episode_number = Some(3);
    sub.known_episodes = vec![7, 2];
    let probe = two_file_probe("a", "b");
    let details = build_check_details(&sub, &probe.files);
    for round in 0..35 {
        apply_check_result(&mut sub, &probe, &vec![], &vec![1], "无更新", false, &details, round);
    }
    assert_eq!(sub.check_history.len(), 30);
    assert_eq!(sub.check_history[0].time, 34);
    assert_eq!(sub.known_episodes, vec![1, 2]);
    assert_eq!(sub.current_episode_number, 2);
    assert_eq!(sub.known_file_keys, vec!["a".to_string(), "b".to_string()]);
}

#[test]
fn test_mark_subscription_invalid_sets_status() {
    let mut sub = make_subscription();
    sub.rules.notify_on_invalid = false;
    mark_invalid(&mut sub, "invalid share", 10);
    assert_eq!(sub.status, "invalid");
    assert_eq!(sub.last_error, "invalid share");
    assert!(sub.invalid_since.is_some());
    assert_eq!(sub.source_failure_count, 1);
    assert!(invalid_notice(&sub, "invalid share").is_none());
}

#[test]
fn test_auto_transfer_disabled_reason_respects_switches() {
    let mut sub = make_subscription();
    let mut settings = Settings::default();
    assert_eq!(auto_transfer_disabled_reason(&sub, false, &settings), Some("自动下载新订阅项未启用"));
    assert_eq!(auto_transfer_disabled_reason(&sub, true, &settings), Some("全局自动转存未启用"));
    settings.auto_download_new_subscription_items = true;
    settings.quark_save_enabled = false;
    assert_eq!(auto_transfer_disabled_reason(&sub, false, &settings), Some("全局自动转存未启用"));
    assert_eq!(auto_transfer_disabled_reason(&sub, true, &settings), Some("全局自动转存未启用"));
    settings.quark_save_enabled = true;
    assert_eq!(auto_transfer_disabled_reason(&sub, false, &settings), None);
    settings.auto_download_new_subscription_items = false;
    assert_eq!(auto_transfer_disabled_reason(&sub, false, &settings), Some("自动下载新订阅项未启用"));
    assert_eq!(auto_transfer_disabled_reason(&sub, true, &settings), None);
    sub.notify_only = true;
    assert_eq!(auto_transfer_disabled_reason(&sub, true, &settings), Some("订阅设置为仅通知模式"));
}

#[test]
fn check_reports_read_as_written() {
    let mut sub = make_subscription();
    assert_eq!(check_summary(&vec![]), "无更新");
    assert_eq!(check_summary(&vec!["a".to_string(), "b".to_string()]), "发现 2 个新文件");
    assert_eq!(invalid_summary("分享已取消", 0), "链接失效: 分享已取消");
    assert_eq!(invalid_summary("分享已取消", 3), "链接失效: 分享已取消，已找到 3 个替代源");
    let (title, message) = update_notice(&sub, &vec!["a.mkv".to_string(), "b.mkv".to_string()], &vec![]);
    assert_eq!(title, "订阅有更新: Show");
    assert_eq!(message, "发现新文件: a.mkv、b.mkv");
    let (_, message) = update_notice(&sub, &vec![], &vec![3, 4]);
    assert_eq!(message, "发现新集: 第 3、4 集");
    sub.total_episode_number = Some(12);
    assert_eq!(completed_notice(&sub).1, "已达到完结集数：第 12 集");
    sub.total_episode_number = None;
    assert_eq!(completed_notice(&sub).1, "订阅已标记为完结");
    let (title, message) = candidates_found_notice(&sub, 2);
    assert_eq!(title, "订阅链接失效: Show");
    assert_eq!(message, "订阅「Show」链接失效，已自动找到 2 个替代源，请在 WebUI 中选择换源。");
    assert_eq!(invalid_notice(&sub, "x"), Some(("订阅链接疑似失效: Show".to_string(), "x".to_string())));
}

#[test]
fn disabled_or_completed_subscriptions_are_not_checked() {
    let mut sub = make_subscription();
    assert!(check_refusal(&sub).is_none());
    sub.completed = true;
    assert_eq!(check_refusal(&sub).unwrap().message_text(), "订阅已完成");
    sub.enabled = false;
    assert_eq!(check_refusal(&sub).unwrap().message_text(), "订阅未启用");
}

#[test]
fn completion_after_check_follows_the_mode() {
    let mut sub = make_subscription();
    sub.rules.finish_after_episode = Some(2);
    sub.known_episodes = vec![1];
    assert!(completion_after_check(&sub, &vec![2], true));
    assert!(!completion_after_check(&sub, &vec![2], false));
    sub.transferred_files = vec!["Show.S01E02.mkv".to_string()];
    assert!(completion_after_check(&sub, &vec![], false));
    sub.sync_download_enabled = true;
    assert!(!completion_after_check(&sub, &vec![2], true));
}

fn strings(v: &[&str]) -> Vec<String> {
    v.iter().map(|s| s.to_string()).collect()
}

#[test]
fn test_transfer_candidates_retry_known_untransferred_episode() {
    let mut sub = make_subscription();
    sub.media_type = "anime".to_string();
    sub.start_episode_number = Some(144);
    sub.known_episodes = vec![144, 145, 146, 147];
    sub.transferred_files = vec![
        "145.mkv".to_string(),
        "146.mkv".to_string(),
        "S01E144.2025.2160p.WEB-DL.HQ.H265.30fps.10bit.AAC.mp4".to_string(),
    ];
    sub.transferred_file_keys = vec![];
    let files = vec![
        probe_file("144-1.mp4", "", "ep144-new-name"),
        probe_file("145.mkv", "", "ep145"),
        probe_file("146.mkv", "", "ep146"),
        probe_file("147.mp4", "", "ep147"),
    ];
    let file_keys = strings(&["ep:144", "ep:145", "ep:146", "ep:147"]);
    let transferred_name_keys = strings(&["ep:145", "ep:146", "ep:144"]);

    let candidates = transfer_candidate_file_names(&sub, &files, &[], &file_keys, &transferred_name_keys);

    assert_eq!(candidates, vec!["147.mp4".to_string()]);
}

#[test]
fn transfer_candidates_keep_new_names_first_and_take_each_name_once() {
    let sub = make_subscription();
    let files = vec![
        probe_file("Show.S01E01.mkv", "", "k1"),
        probe_file("Show.S01E02.mkv", "", "k2"),
        probe_file("Show.S01E02.mkv", "", "k2b"),
    ];
    let keys = strings(&["ep:1", "ep:2", "ep:2"]);
    let new_names = strings(&["Show.S01E02.mkv"]);
    let candidates = transfer_candidate_file_names(&sub, &files, &new_names, &keys, &[]);
    assert_eq!(candidates, vec!["Show.S01E02.mkv".to_string(), "Show.S01E01.mkv".to_string()]);
}

#[test]
fn transfer_candidates_respect_stored_episode_keys_and_films() {
    let mut sub = make_subscription();
    sub.transferred_file_keys = vec!["ep:1".to_string()];
    let files = vec![probe_file("Show.S01E01.mkv", "", "k1"), probe_file("Show.S01E02.mkv", "", "k2")];
    let keys = strings(&["ep:1", "ep:2"]);
    assert_eq!(
        transfer_candidate_file_names(&sub, &files, &[], &keys, &[]),
        vec!["Show.S01E02.mkv".to_string()]
    );

    let mut film = make_subscription();
    film.media_type = "movie".to_string();
    let files = vec![
        probe_file("Film.2024.1080p.mkv", "", "f1"),
        probe_file("Film.2024.poster.jpg", "", "f2"),
        probe_file("Film.2024.2160p.mkv", "", "f3"),
    ];
    let keys = strings(&["name:film 1080p", "name:poster", "name:film 2160p"]);
    let held = strings(&["name:film 2160p"]);
    assert_eq!(
        transfer_candidate_file_names(&film, &files, &[], &keys, &held),
        vec!["Film.2024.1080p.mkv".to_string()]
    );
}
