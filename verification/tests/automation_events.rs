use media_sub::automation_events::{
    correlation_id_of, job_kind_name, job_stage, job_status, stage_status,
    transfer_episode_numbers, transfer_stage_events, AutomationStage, AutomationStatus, JobKind,
    JobStatus, TransferStageReport,
};

#[test]
fn completed_transfer_projects_episode_stage_outcomes() {
    let report = TransferStageReport {
        renamed_count: Some(1),
        strm_generated_count: Some(1),
        strm_error: None,
        aria2_submitted_count: Some(0),
        aria2_error: Some("aria2 unavailable".to_string()),
        notification_id: Some("notification-1".to_string()),
    };
    let events = transfer_stage_events(
        "job-transfer",
        "check-1",
        &Some("sub-1".to_string()),
        &vec!["Show.S01E04.mkv".to_string()],
        &report,
        7,
    );
    assert_eq!(events.len(), 4);
    assert!(events.iter().any(|event| event.stage == AutomationStage::Rename
        && event.status == AutomationStatus::Succeeded
        && event.episode == Some(4)));
    assert!(events.iter().any(|event| event.stage == AutomationStage::Strm
        && event.status == AutomationStatus::Succeeded
        && event.episode == Some(4)));
    assert!(events.iter().any(|event| event.stage == AutomationStage::Aria2
        && event.status == AutomationStatus::Failed
        && event.episode == Some(4)
        && event.error == "aria2 unavailable"));
    assert!(events.iter().any(|event| event.stage == AutomationStage::Notification
        && event.status == AutomationStatus::Succeeded
        && event.episode == Some(4)));
    assert_eq!(events[0].id, "job:job-transfer:rename:4");
    assert_eq!(events[3].count, 1);
}

#[test]
fn transfer_without_episodes_reports_once_for_all() {
    let report = TransferStageReport {
        renamed_count: None,
        strm_generated_count: None,
        strm_error: Some("  ".to_string()),
        aria2_submitted_count: None,
        aria2_error: None,
        notification_id: Some(String::new()),
    };
    let events = transfer_stage_events("j", "c", &None, &vec![], &report, 1);
    assert_eq!(events.len(), 4);
    assert_eq!(events[1].id, "job:j:strm:all");
    assert!(events.iter().all(|event| event.status == AutomationStatus::Skipped));
    assert!(events.iter().all(|event| event.episode.is_none()));
}

#[test]
fn transfer_episodes_are_sorted_and_distinct() {
    let names = vec![
        "Show.S01E05.mkv".to_string(),
        "Show.S01E04.mkv".to_string(),
        "Show.S01E05.1080p.mkv".to_string(),
    ];
    assert_eq!(transfer_episode_numbers(&names), vec![4, 5]);
}

#[test]
fn job_projection_uses_stage_status_and_correlation() {
    assert_eq!(job_stage(&JobKind::SubscriptionTransfer), AutomationStage::CloudTransfer);
    assert_eq!(job_stage(&JobKind::MetadataScrape), AutomationStage::VersionSelect);
    assert_eq!(job_status(&JobStatus::Queued), AutomationStatus::Pending);
    assert_eq!(job_status(&JobStatus::Succeeded), AutomationStatus::Succeeded);
    assert_eq!(job_kind_name(&JobKind::PushDispatch), "push_dispatch");
    assert_eq!(correlation_id_of(&Some("check-1".to_string()), "job-1"), "check-1");
    assert_eq!(correlation_id_of(&Some(String::new()), "job-1"), "job-1");
    assert_eq!(correlation_id_of(&None, "job-1"), "job-1");
    assert_eq!(stage_status(0, Some("boom")), AutomationStatus::Failed);
    assert_eq!(stage_status(2, Some(" ")), AutomationStatus::Succeeded);
    assert_eq!(stage_status(0, None), AutomationStatus::Skipped);
}
