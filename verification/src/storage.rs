//! When the JSON stores should give way to SQLite.
use vstd::prelude::*;
use crate::text::{int_decimal, owned, push_count, push_str, views};

verus! {

pub const SQLITE_SUBSCRIPTION_THRESHOLD: usize = 500;
pub const SQLITE_HISTORY_THRESHOLD: usize = 10_000;
pub const SQLITE_FILE_SIZE_THRESHOLD: u64 = 33554432;

/// Current size of the stores.
#[derive(Debug, Clone)]
pub struct StorageDecisionInput {
    pub subscriptions: usize,
    pub jobs: usize,
    pub notifications: usize,
    pub automation_events: usize,
    pub largest_store_bytes: u64,
    pub complex_query_required: bool,
}

/// The thresholds a decision was made against.
#[derive(Debug, Clone)]
pub struct StorageThresholds {
    pub subscriptions: usize,
    pub history_records: usize,
    pub file_bytes: u64,
}

/// What a migration to SQLite must guarantee.
#[derive(Debug, Clone)]
pub struct SqliteMigrationContract {
    pub preserve_json_source: bool,
    pub repeatable_import: bool,
    pub validate_counts_and_checksums: bool,
    pub rollback_before_cutover: bool,
    pub no_long_term_dual_write: bool,
}

/// Storage recommendation and its reasons.
#[derive(Debug, Clone)]
pub struct StorageDecision {
    pub recommendation: &'static str,
    pub sqlite_required: bool,
    pub reasons: Vec<String>,
    pub input: StorageDecisionInput,
    pub thresholds: StorageThresholds,
    pub migration_contract: SqliteMigrationContract,
}

/// Jobs, notifications and automation events together, saturating.
pub open spec fn history_records(input: StorageDecisionInput) -> int {
    let total = input.jobs + input.notifications + input.automation_events;
    if total > usize::MAX {
        usize::MAX as int
    } else {
        total
    }
}

/// The reasons for migrating, in order: one per threshold reached.
pub open spec fn storage_reasons(input: StorageDecisionInput) -> Seq<Seq<char>> {
    let a: Seq<Seq<char>> = if input.subscriptions >= SQLITE_SUBSCRIPTION_THRESHOLD {
        seq![
            "订阅数 "@ + int_decimal(input.subscriptions as int) + " 达到阈值 "@ + int_decimal(
                SQLITE_SUBSCRIPTION_THRESHOLD as int,
            ),
        ]
    } else {
        seq![]
    };
    let b: Seq<Seq<char>> = if history_records(input) >= SQLITE_HISTORY_THRESHOLD {
        seq![
            "历史记录 "@ + int_decimal(history_records(input)) + " 达到阈值 "@ + int_decimal(
                SQLITE_HISTORY_THRESHOLD as int,
            ),
        ]
    } else {
        seq![]
    };
    let c: Seq<Seq<char>> = if input.largest_store_bytes >= SQLITE_FILE_SIZE_THRESHOLD {
        seq![
            "最大 Store "@ + int_decimal(input.largest_store_bytes as int) + " bytes 达到阈值 "@
                + int_decimal(SQLITE_FILE_SIZE_THRESHOLD as int) + " bytes"@,
        ]
    } else {
        seq![]
    };
    let d: Seq<Seq<char>> = if input.complex_query_required {
        seq!["出现 JSON 内存索引无法满足的复杂查询"@]
    } else {
        seq![]
    };
    a + b + c + d
}

fn push_u64_decimal(s: &mut String, n: u64)
    ensures
        final(s)@ == old(s)@ + int_decimal(n as int),
{
    let mut out: Vec<char> = Vec::new();
    crate::text::push_nat_decimal_pub(n, &mut out);
    push_chars_into(s, &out);
}

fn push_chars_into(s: &mut String, v: &Vec<char>)
    ensures
        final(s)@ == old(s)@ + v@,
{
    crate::text::push_chars(s, v.as_slice());
}

/// Recommends SQLite once any threshold is reached (subscriptions, history
/// records, largest store size, or a need for complex queries), listing the
/// reasons; otherwise keeps JSON with one explanatory reason.
pub fn evaluate_storage(input: StorageDecisionInput) -> (r: StorageDecision)
    ensures
        r.sqlite_required == (storage_reasons(input).len() > 0),
        views(r.reasons@) == if r.sqlite_required {
            storage_reasons(input)
        } else {
            seq!["当前规模低于迁移门槛，继续使用紧凑 JSON 与内存索引"@]
        },
        r.recommendation@ == if r.sqlite_required {
            "prepare_sqlite_migration"@
        } else {
            "keep_json"@
        },
        r.input == input,
        r.thresholds == (StorageThresholds {
            subscriptions: SQLITE_SUBSCRIPTION_THRESHOLD,
            history_records: SQLITE_HISTORY_THRESHOLD,
            file_bytes: SQLITE_FILE_SIZE_THRESHOLD,
        }),
        r.migration_contract == (SqliteMigrationContract {
            preserve_json_source: true,
            repeatable_import: true,
            validate_counts_and_checksums: true,
            rollback_before_cutover: true,
            no_long_term_dual_write: true,
        }),
{
    let history = input.jobs.saturating_add(input.notifications).saturating_add(
        input.automation_events,
    );
    assert(history == history_records(input));
    let mut reasons: Vec<String> = Vec::new();
    let ghost a: Seq<Seq<char>> = seq![];
    if input.subscriptions >= SQLITE_SUBSCRIPTION_THRESHOLD {
        let mut m = owned("订阅数 ");
        push_count(&mut m, input.subscriptions);
        push_str(&mut m, " 达到阈值 ");
        push_count(&mut m, SQLITE_SUBSCRIPTION_THRESHOLD);
        reasons.push(m);
    }
    if history >= SQLITE_HISTORY_THRESHOLD {
        let mut m = owned("历史记录 ");
        push_count(&mut m, history);
        push_str(&mut m, " 达到阈值 ");
        push_count(&mut m, SQLITE_HISTORY_THRESHOLD);
        let ghost before = views(reasons@);
        reasons.push(m);
        assert(views(reasons@) =~= before.push(m@));
    }
    if input.largest_store_bytes >= SQLITE_FILE_SIZE_THRESHOLD {
        let mut m = owned("最大 Store ");
        push_u64_decimal(&mut m, input.largest_store_bytes);
        push_str(&mut m, " bytes 达到阈值 ");
        push_u64_decimal(&mut m, SQLITE_FILE_SIZE_THRESHOLD);
        push_str(&mut m, " bytes");
        let ghost before = views(reasons@);
        reasons.push(m);
        assert(views(reasons@) =~= before.push(m@));
    }
    if input.complex_query_required {
        let ghost before = views(reasons@);
        let m = owned("出现 JSON 内存索引无法满足的复杂查询");
        reasons.push(m);
        assert(views(reasons@) =~= before.push(m@));
    }
    assert(views(reasons@) =~= storage_reasons(input));
    let sqlite_required = reasons.len() > 0;
    if !sqlite_required {
        let m = owned("当前规模低于迁移门槛，继续使用紧凑 JSON 与内存索引");
        reasons.push(m);
        assert(views(reasons@) =~= seq![m@]);
    }
    StorageDecision {
        recommendation: if sqlite_required {
            "prepare_sqlite_migration"
        } else {
            "keep_json"
        },
        sqlite_required,
        reasons,
        input,
        thresholds: StorageThresholds {
            subscriptions: SQLITE_SUBSCRIPTION_THRESHOLD,
            history_records: SQLITE_HISTORY_THRESHOLD,
            file_bytes: SQLITE_FILE_SIZE_THRESHOLD,
        },
        migration_contract: SqliteMigrationContract {
            preserve_json_source: true,
            repeatable_import: true,
            validate_counts_and_checksums: true,
            rollback_before_cutover: true,
            no_long_term_dual_write: true,
        },
    }
}

} // verus!
