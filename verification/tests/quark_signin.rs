use chrono::Timelike;
use media_sub::error::AppError;
use media_sub::quark_signin::{
    format_bytes, member_type_label, normalize_hour, shanghai_day_index,
    should_run_startup_catchup, signin_failure_message, signin_message, QuarkSigninResult,
};

#[test]
fn test_normalize_hour() {
    assert_eq!(normalize_hour(-1), 0);
    assert_eq!(normalize_hour(8), 8);
    assert_eq!(normalize_hour(24), 23);
}

#[test]
fn test_signin_message() {
    let message = signin_message(&QuarkSigninResult {
        signed: true,
        already_signed: false,
        daily_reward_bytes: 5 * 1024 * 1024,
        total_capacity_bytes: 1024 * 1024 * 1024,
        used_capacity_bytes: Some(256 * 1024 * 1024),
        sign_reward_bytes: 10 * 1024 * 1024,
        member_type: "SUPER_VIP".to_string(),
        sign_progress: 2,
        sign_target: 7,
    });

    assert!(message.contains("今日签到 +5.00 MB"));
    assert!(message.contains("连签进度 2/7"));
    assert!(message.contains("SVIP 总空间 1.00 GB"));
}

#[test]
fn test_signin_failure_message() {
    let message =
        signin_failure_message(&AppError::Validation("未配置夸克签到 Cookie".to_string()));
    assert_eq!(
        message,
        "夸克签到失败：Validation error: 未配置夸克签到 Cookie"
    );
}

#[test]
fn bytes_are_shown_in_the_largest_unit_with_two_decimals() {
    assert_eq!(format_bytes(-5), "0 B");
    assert_eq!(format_bytes(1023), "1023 B");
    assert_eq!(format_bytes(1024), "1.00 KB");
    assert_eq!(format_bytes(1536), "1.50 KB");
    assert_eq!(format_bytes(5 * 1024 * 1024), "5.00 MB");
    assert_eq!(format_bytes(3 * 1024 * 1024 * 1024 * 1024), "3.00 TB");
    assert_eq!(format_bytes(2048 * 1024 * 1024 * 1024 * 1024), "2048.00 TB");
    assert_eq!(format!("{:.2}", 1152.0_f64 / 1024.0), format_bytes(1152).replace(" KB", ""));
}

#[test]
fn membership_labels_and_check_in_days() {
    assert_eq!(member_type_label("NORMAL"), "普通用户");
    assert_eq!(member_type_label("EXP_SVIP"), "88VIP");
    assert_eq!(member_type_label("Z_VIP"), "SVIP+");
    assert_eq!(member_type_label("OTHER"), "OTHER");
    assert_eq!(shanghai_day_index(0), 0);
    assert_eq!(shanghai_day_index(86_400 - 28_800), 1);
    assert_eq!(shanghai_day_index(86_400 - 28_801), 0);
    assert!(should_run_startup_catchup(8, 8));
    assert!(!should_run_startup_catchup(8, 7));
    assert!(should_run_startup_catchup(30, 23));
}

#[test]
fn startup_catchup_runs_after_configured_hour() {
    let shanghai = chrono::FixedOffset::east_opt(8 * 3600).unwrap();
    let now = chrono::DateTime::parse_from_rfc3339("2026-06-29T08:00:00+08:00")
        .unwrap()
        .with_timezone(&shanghai);
    assert!(should_run_startup_catchup(8, now.hour()));

    let before = chrono::DateTime::parse_from_rfc3339("2026-06-29T07:59:59+08:00")
        .unwrap()
        .with_timezone(&shanghai);
    assert!(!should_run_startup_catchup(8, before.hour()));
}
