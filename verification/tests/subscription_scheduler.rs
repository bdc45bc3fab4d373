use media_sub::subscription_check::{CheckDetails, CheckResult};
use media_sub::subscription_scheduler::{
    file_preview_suffix, normalize_interval_minutes, should_dispatch_subscription_check_summary,
    subscription_check_summary_message,
};

fn check_result(title: &str, new_files: Vec<&str>) -> CheckResult {
    CheckResult {
        subscription_id: title.to_string(),
        subscription_title: title.to_string(),
        new_files: new_files.into_iter().map(ToString::to_string).collect(),
        new_episodes: vec![],
        details: CheckDetails::default(),
        became_invalid: false,
        became_completed: false,
        summary: "无更新".to_string(),
    }
}

#[test]
fn normalizes_interval_minutes_for_scheduler() {
    assert_eq!(normalize_interval_minutes(-1), 5);
    assert_eq!(normalize_interval_minutes(0), 5);
    assert_eq!(normalize_interval_minutes(60), 60);
    assert_eq!(normalize_interval_minutes(720), 720);
}

#[test]
fn summary_message_lists_updated_and_unchanged_subscriptions() {
    let message = subscription_check_summary_message(&[
        check_result("庆余年", vec!["S02E01.mkv", "S02E02.mkv"]),
        check_result("孤独摇滚", vec![]),
    ]);

    assert!(message.contains("本次检查 2 个订阅，1 个有更新，1 个无更新。"));
    assert!(message.contains("有更新：庆余年：2 个新文件"));
    assert!(message.contains("无更新：孤独摇滚"));
}

#[test]
fn summary_dispatches_only_for_noteworthy_results() {
    assert!(!should_dispatch_subscription_check_summary(&[check_result(
        "孤独摇滚",
        vec![]
    )]));
    assert!(should_dispatch_subscription_check_summary(&[check_result(
        "庆余年",
        vec!["S02E01.mkv"]
    )]));

    let mut invalid = check_result("凡人修仙传", vec![]);
    invalid.became_invalid = true;
    assert!(should_dispatch_subscription_check_summary(&[invalid]));

    let mut completed = check_result("凡人修仙传", vec![]);
    completed.became_completed = true;
    assert!(should_dispatch_subscription_check_summary(&[completed]));
    assert!(!should_dispatch_subscription_check_summary(&[]));
}

#[test]
fn file_preview_lists_at_most_three_files() {
    let files: Vec<String> = vec!["a", "b", "c", "d", "e"]
        .into_iter()
        .map(ToString::to_string)
        .collect();
    let preview = file_preview_suffix(&files);
    assert!(preview.starts_with("（a、b、c"));
    assert!(preview.contains("另 2 个"));
    assert_eq!(file_preview_suffix(&vec![]), "");
}

#[test]
fn interval_is_capped_at_one_day() {
    assert_eq!(normalize_interval_minutes(100_000), 1440);
}
