use media_sub::automation_events::{AutomationStage, AutomationStatus};
use media_sub::check_flow::{check_step, CheckAction, CheckEvent, CheckState, TransferPlan};
use media_sub::error::AppError;
use media_sub::model::{ProbeFile, ProbeResult, Settings, Subscription, TransferRules};

fn make_subscription() -> Subscription {
    Subscription {
        id: "sub1".to_string(),
        title: "Show".to_string(),
        source_title: String::new(),
        media_type: "series".to_string(),
        season: 1,
        season_end: None,
        start_episode_number: None,
        current_episode_number: 0,
        total_episode_number: None,
        metadata: None,
        url: "https://pan.quark.cn/s/test".to_string(),
        password: String::new(),
        known_files: vec![],
        known_file_keys: vec![],
        known_episodes: vec![],
        transferred_files: vec![],
        transferred_file_keys: vec![],
        last_probe: None,
        notify_only: false,
        sync_download_enabled: false,
        sync_downloads: vec![],
        strm_enabled: false,
        enabled: true,
        completed: false,
        rules: TransferRules::default(),
        last_checked_at: 0,
        last_new_files: vec![],
        last_new_episodes: vec![],
        last_check_summary: String::new(),
        status: "active".to_string(),
        invalid_since: None,
        last_error: String::new(),
        source_candidates: vec![],
        previous_share_links: vec![],
        source_failure_count: 0,
        last_source_switch_at: None,
        source_switch_history: vec![],
        cloud_type: "quark".to_string(),
        created_at: 0,
        updated_at: 0,
        check_history: vec![],
        last_source_search_time: None,
    }
}

fn probe_file(name: &str, parent_path: &str, file_key: &str) -> ProbeFile {
    ProbeFile {
        name: name.to_string(),
        is_dir: false,
        parent_path: parent_path.to_string(),
        size: 1,
        updated_at: None,
        file_key: file_key.to_string(),
    }
}

fn probe(ok: bool) -> ProbeResult {
    ProbeResult {
        ok,
        state: if ok { "ok".to_string() } else { "invalid".to_string() },
        message: if ok { String::new() } else { "分享已失效".to_string() },
        files: vec![
            probe_file("Show.S01E01.mkv", "", "k1"),
            probe_file("Show.S01E02.mkv", "", "k2"),
        ],
    }
}

fn keyed(file_keys: &[&str], transferred_name_keys: &[&str], now: i64) -> CheckEvent {
    CheckEvent::Keyed {
        file_keys: file_keys.iter().map(|k| k.to_string()).collect(),
        transferred_name_keys: transferred_name_keys.iter().map(|k| k.to_string()).collect(),
        now,
    }
}

#[test]
fn check_flow_refuses_missing_and_disabled() {
    let settings = Settings::default();
    let (state, action, stages) = check_step(&settings, false, CheckState::Start, CheckEvent::Loaded(None));
    assert!(matches!(state, CheckState::Done));
    assert!(matches!(action, CheckAction::Fail(AppError::NotFound(_))));
    assert!(stages.is_empty());
    let mut sub = make_subscription();
    sub.enabled = false;
    let (_, action, stages) = check_step(&settings, false, CheckState::Start, CheckEvent::Loaded(Some(sub)));
    assert!(matches!(action, CheckAction::Fail(AppError::Validation(m)) if m == "订阅未启用"));
    assert!(stages.is_empty());
}

#[test]
fn check_flow_records_new_files_and_plans_transfer() {
    let settings = Settings { quark_save_enabled: true, ..Settings::default() };
    let mut sub = make_subscription();
    sub.known_file_keys = vec!["k1".to_string()];
    let (state, action, stages) = check_step(&settings, true, CheckState::Start, CheckEvent::Loaded(Some(sub)));
    assert!(matches!(action, CheckAction::Probe { reopened: false }));
    assert_eq!(stages.len(), 1);
    assert_eq!(stages[0].stage, AutomationStage::SourceCheck);
    assert_eq!(stages[0].status, AutomationStatus::Running);
    assert_eq!(stages[0].message, "正在探测订阅来源");
    let (state, action, stages) =
        check_step(&settings, true, state, CheckEvent::Probed { result: Ok(probe(true)), now: 100 });
    assert!(matches!(action, CheckAction::KeyFiles));
    assert_eq!(stages.len(), 2);
    assert_eq!(stages[0].stage, AutomationStage::SourceCheck);
    assert_eq!(stages[0].status, AutomationStatus::Succeeded);
    assert_eq!(stages[0].message, "来源探测成功，共 2 个项目");
    assert_eq!(stages[1].stage, AutomationStage::FileFilter);
    assert_eq!(stages[1].status, AutomationStatus::Succeeded);
    assert_eq!(stages[1].message, "扫描 2 项，识别 1 个新增文件");
    assert_eq!(stages[1].counts, vec![("known_count", 1), ("new_count", 1), ("scanned_count", 2)]);
    let (state, action, stages) = check_step(&settings, true, state, keyed(&["ep:1", "ep:2"], &[], 100));
    assert!(matches!(state, CheckState::Done));
    assert_eq!(stages.len(), 1);
    assert_eq!(stages[0].stage, AutomationStage::VersionSelect);
    assert_eq!(stages[0].status, AutomationStatus::Succeeded);
    assert_eq!(stages[0].message, "已选择 2 个待转存版本");
    assert_eq!(stages[0].counts, vec![("selected_count", 2)]);
    match action {
        CheckAction::Finish { save, result, update_notice, transfer, .. } => {
            assert_eq!(result.new_files, vec!["Show.S01E02.mkv"]);
            assert_eq!(result.new_episodes, vec![2]);
            assert_eq!(result.summary, "发现 1 个新文件");
            assert!(update_notice.is_some());
            assert!(matches!(transfer, TransferPlan::Transfer(files)
                if files == vec!["Show.S01E02.mkv", "Show.S01E01.mkv"]));
            let saved = save.unwrap();
            assert_eq!(saved.last_checked_at, 100);
            assert_eq!(saved.current_episode_number, 2);
        }
        _ => panic!("the check should finish"),
    }
}

#[test]
fn check_flow_leaves_out_known_files_whose_episode_key_is_held() {
    let settings = Settings { quark_save_enabled: true, ..Settings::default() };
    let mut sub = make_subscription();
    sub.known_file_keys = vec!["k1".to_string()];
    let (state, _, _) = check_step(&settings, true, CheckState::Start, CheckEvent::Loaded(Some(sub)));
    let (state, _, _) = check_step(&settings, true, state, CheckEvent::Probed { result: Ok(probe(true)), now: 100 });
    let (_, action, _) = check_step(&settings, true, state, keyed(&["ep:1", "ep:2"], &["ep:1"], 100));
    match action {
        CheckAction::Finish { transfer, .. } => {
            assert!(matches!(transfer, TransferPlan::Transfer(files) if files == vec!["Show.S01E02.mkv"]));
        }
        _ => panic!("the check should finish"),
    }
}

#[test]
fn check_flow_refuses_keys_that_do_not_match_the_probe() {
    let settings = Settings { quark_save_enabled: true, ..Settings::default() };
    let (state, _, _) = check_step(&settings, true, CheckState::Start, CheckEvent::Loaded(Some(make_subscription())));
    let (state, _, _) = check_step(&settings, true, state, CheckEvent::Probed { result: Ok(probe(true)), now: 100 });
    let (state, action, stages) = check_step(&settings, true, state, keyed(&["ep:1"], &[], 100));
    assert!(matches!(state, CheckState::Done));
    assert!(matches!(action, CheckAction::Fail(AppError::Internal(_))));
    assert!(stages.is_empty());
}

#[test]
fn check_flow_records_probe_errors_and_failures() {
    let settings = Settings::default();
    let (state, _, _) = check_step(&settings, false, CheckState::Start, CheckEvent::Loaded(Some(make_subscription())));
    let (state, action, stages) = check_step(
        &settings,
        false,
        state,
        CheckEvent::Probed { result: Err(AppError::Http("超时".to_string())), now: 50 },
    );
    assert!(matches!(state, CheckState::Done));
    assert!(matches!(action, CheckAction::Fail(AppError::Http(_))));
    assert_eq!(stages.len(), 1);
    assert_eq!(stages[0].status, AutomationStatus::Failed);
    assert_eq!(stages[0].message, "订阅来源探测异常");
    assert_eq!(stages[0].error, "HTTP error: 超时");
    let (state, _, _) = check_step(&settings, false, CheckState::Start, CheckEvent::Loaded(Some(make_subscription())));
    let (_, _, stages) = check_step(&settings, false, state, CheckEvent::Probed { result: Ok(probe(false)), now: 50 });
    assert_eq!(stages.len(), 1);
    assert_eq!(stages[0].stage, AutomationStage::SourceCheck);
    assert_eq!(stages[0].status, AutomationStatus::Failed);
    assert_eq!(stages[0].message, "订阅来源探测失败");
    assert_eq!(stages[0].error, "分享已失效");
}

#[test]
fn check_flow_failed_probe_searches_then_reports_invalid() {
    let settings = Settings::default();
    let (state, _, _) = check_step(&settings, false, CheckState::Start, CheckEvent::Loaded(Some(make_subscription())));
    let (state, action, _) = check_step(&settings, false, state, CheckEvent::Probed { result: Ok(probe(false)), now: 50 });
    assert!(matches!(action, CheckAction::SaveInvalidAndSearch { .. }));
    let (state, action, _) = check_step(&settings, false, state, CheckEvent::SourcesFound(2));
    assert!(matches!(action, CheckAction::AnnounceAndTryFound));
    let (state, action, _) =
        check_step(&settings, false, state, CheckEvent::SourceTried { applied: false, stored_left: false });
    assert!(matches!(state, CheckState::Done));
    match action {
        CheckAction::Finish { save, result, .. } => {
            assert!(save.is_none());
            assert!(result.became_invalid);
            assert_eq!(result.summary, "链接失效: 分享已失效，已找到 2 个替代源");
        }
        _ => panic!("the check should finish"),
    }
    let (state, _, _) = check_step(&settings, false, CheckState::Start, CheckEvent::Loaded(Some(make_subscription())));
    let (state, _, _) = check_step(&settings, false, state, CheckEvent::Probed { result: Ok(probe(false)), now: 50 });
    let (state, action, _) = check_step(&settings, false, state, CheckEvent::SourcesFound(0));
    assert!(matches!(action, CheckAction::TryStored));
    let (state, action, _) =
        check_step(&settings, false, state, CheckEvent::SourceTried { applied: true, stored_left: true });
    assert!(matches!(state, CheckState::Start));
    assert!(matches!(action, CheckAction::Recheck));
}

#[test]
fn check_flow_skips_transfer_when_saving_is_off() {
    let settings = Settings::default();
    let mut sub = make_subscription();
    sub.known_file_keys = vec!["k1".to_string()];
    let (state, _, _) = check_step(&settings, true, CheckState::Start, CheckEvent::Loaded(Some(sub)));
    let (state, _, _) = check_step(&settings, true, state, CheckEvent::Probed { result: Ok(probe(true)), now: 100 });
    let (_, action, stages) = check_step(&settings, true, state, keyed(&[], &[], 100));
    assert_eq!(stages[0].message, "已选择 1 个待转存版本");
    match action {
        CheckAction::Finish { transfer, .. } => {
            assert!(matches!(transfer, TransferPlan::Skip(reason) if reason == "全局自动转存未启用"));
        }
        _ => panic!("the check should finish"),
    }
}
