use media_sub::storage::{evaluate_storage, StorageDecisionInput};

#[test]
fn keeps_json_below_all_thresholds() {
    let decision = evaluate_storage(StorageDecisionInput {
        subscriptions: 120,
        jobs: 500,
        notifications: 300,
        automation_events: 5_000,
        largest_store_bytes: 8 * 1024 * 1024,
        complex_query_required: false,
    });
    assert!(!decision.sqlite_required);
    assert_eq!(decision.recommendation, "keep_json");
}

#[test]
fn recommends_migration_only_after_a_gate_is_reached() {
    let decision = evaluate_storage(StorageDecisionInput {
        subscriptions: 500,
        jobs: 10_000,
        notifications: 10_000,
        automation_events: 10_000,
        largest_store_bytes: 40 * 1024 * 1024,
        complex_query_required: false,
    });
    assert!(decision.sqlite_required);
    assert_eq!(decision.recommendation, "prepare_sqlite_migration");
    assert!(decision.migration_contract.preserve_json_source);
    assert!(decision.migration_contract.repeatable_import);
    assert!(decision.migration_contract.validate_counts_and_checksums);
    assert!(decision.migration_contract.rollback_before_cutover);
    assert!(decision.migration_contract.no_long_term_dual_write);
}
