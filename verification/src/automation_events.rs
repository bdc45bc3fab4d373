//! Structured automation events: the stage and status of background jobs, and
//! the per-episode stage outcomes of a finished subscription transfer.
use vstd::prelude::*;
use crate::episode::{detect_episode, detection_of};
use crate::progress::{insert_sorted, strictly_sorted};
use crate::text::{int_decimal, owned, push_decimal, push_str, str_nonempty, trim_seq, trim_str, views};

verus! {

/// A step of the automation pipeline.
#[derive(Debug, Clone, Copy, PartialEq, Eq)]
pub enum AutomationStage {
    SourceCheck,
    FileFilter,
    VersionSelect,
    CloudTransfer,
    Rename,
    Strm,
    Aria2,
    Notification,
}

/// How a step went.
#[derive(Debug, Clone, Copy, PartialEq, Eq)]
pub enum AutomationStatus {
    Pending,
    Running,
    Succeeded,
    Failed,
    Skipped,
    Canceled,
}

/// The kind of a background job.
#[derive(Debug, Clone, Copy, PartialEq, Eq)]
pub enum JobKind {
    ManualTransfer,
    SubscriptionTransfer,
    MetadataScrape,
    PushDispatch,
}

/// The state of a background job.
#[derive(Debug, Clone, Copy, PartialEq, Eq)]
pub enum JobStatus {
    Queued,
    Running,
    Succeeded,
    Failed,
    Canceled,
}

pub const STAGE_SOURCE_CHECK: &'static str = "source_check";
pub const STAGE_FILE_FILTER: &'static str = "file_filter";
pub const STAGE_VERSION_SELECT: &'static str = "version_select";
pub const STAGE_CLOUD_TRANSFER: &'static str = "cloud_transfer";
pub const STAGE_RENAME: &'static str = "rename";
pub const STAGE_STRM: &'static str = "strm";
pub const STAGE_ARIA2: &'static str = "aria2";
pub const STAGE_NOTIFICATION: &'static str = "notification";

/// The name of a stage.
pub open spec fn stage_name(s: AutomationStage) -> Seq<char> {
    match s {
        AutomationStage::SourceCheck => STAGE_SOURCE_CHECK@,
        AutomationStage::FileFilter => STAGE_FILE_FILTER@,
        AutomationStage::VersionSelect => STAGE_VERSION_SELECT@,
        AutomationStage::CloudTransfer => STAGE_CLOUD_TRANSFER@,
        AutomationStage::Rename => STAGE_RENAME@,
        AutomationStage::Strm => STAGE_STRM@,
        AutomationStage::Aria2 => STAGE_ARIA2@,
        AutomationStage::Notification => STAGE_NOTIFICATION@,
    }
}

impl AutomationStage {
    /// The name of the stage.
    pub fn as_str(&self) -> (r: &'static str)
        ensures
            r@ == stage_name(*self),
    {
        match self {
            AutomationStage::SourceCheck => STAGE_SOURCE_CHECK,
            AutomationStage::FileFilter => STAGE_FILE_FILTER,
            AutomationStage::VersionSelect => STAGE_VERSION_SELECT,
            AutomationStage::CloudTransfer => STAGE_CLOUD_TRANSFER,
            AutomationStage::Rename => STAGE_RENAME,
            AutomationStage::Strm => STAGE_STRM,
            AutomationStage::Aria2 => STAGE_ARIA2,
            AutomationStage::Notification => STAGE_NOTIFICATION,
        }
    }
}

/// The stage a job kind belongs to.
pub fn job_stage(kind: &JobKind) -> (r: AutomationStage)
    ensures
        r == match *kind {
            JobKind::ManualTransfer | JobKind::SubscriptionTransfer => AutomationStage::CloudTransfer,
            JobKind::MetadataScrape => AutomationStage::VersionSelect,
            JobKind::PushDispatch => AutomationStage::Notification,
        },
{
    match kind {
        JobKind::ManualTransfer | JobKind::SubscriptionTransfer => AutomationStage::CloudTransfer,
        JobKind::MetadataScrape => AutomationStage::VersionSelect,
        JobKind::PushDispatch => AutomationStage::Notification,
    }
}

/// The status a job state is shown as.
pub fn job_status(status: &JobStatus) -> (r: AutomationStatus)
    ensures
        r == match *status {
            JobStatus::Queued => AutomationStatus::Pending,
            JobStatus::Running => AutomationStatus::Running,
            JobStatus::Succeeded => AutomationStatus::Succeeded,
            JobStatus::Failed => AutomationStatus::Failed,
            JobStatus::Canceled => AutomationStatus::Canceled,
        },
{
    match status {
        JobStatus::Queued => AutomationStatus::Pending,
        JobStatus::Running => AutomationStatus::Running,
        JobStatus::Succeeded => AutomationStatus::Succeeded,
        JobStatus::Failed => AutomationStatus::Failed,
        JobStatus::Canceled => AutomationStatus::Canceled,
    }
}

pub const KIND_MANUAL_TRANSFER: &'static str = "manual_transfer";
pub const KIND_SUBSCRIPTION_TRANSFER: &'static str = "subscription_transfer";
pub const KIND_METADATA_SCRAPE: &'static str = "metadata_scrape";
pub const KIND_PUSH_DISPATCH: &'static str = "push_dispatch";

/// The name of a job kind.
pub fn job_kind_name(kind: &JobKind) -> (r: &'static str)
    ensures
        r@ == match *kind {
            JobKind::ManualTransfer => KIND_MANUAL_TRANSFER@,
            JobKind::SubscriptionTransfer => KIND_SUBSCRIPTION_TRANSFER@,
            JobKind::MetadataScrape => KIND_METADATA_SCRAPE@,
            JobKind::PushDispatch => KIND_PUSH_DISPATCH@,
        },
{
    match kind {
        JobKind::ManualTransfer => KIND_MANUAL_TRANSFER,
        JobKind::SubscriptionTransfer => KIND_SUBSCRIPTION_TRANSFER,
        JobKind::MetadataScrape => KIND_METADATA_SCRAPE,
        JobKind::PushDispatch => KIND_PUSH_DISPATCH,
    }
}

/// The outcome of a stage: failed where an error is given that is not
/// blank, else succeeded where it handled something, else skipped.
pub open spec fn stage_status_of(count: u64, error: Option<Seq<char>>) -> AutomationStatus {
    if error matches Some(e) && trim_seq(e).len() > 0 {
        AutomationStatus::Failed
    } else if count > 0 {
        AutomationStatus::Succeeded
    } else {
        AutomationStatus::Skipped
    }
}

/// The outcome of a stage.
pub fn stage_status(count: u64, error: Option<&str>) -> (r: AutomationStatus)
    ensures
        r == stage_status_of(
            count,
            match error {
                Some(e) => Some(e@),
                None => None,
            },
        ),
{
    let failed = match error {
        Some(e) => trim_str(e).len() > 0,
        None => false,
    };
    if failed {
        AutomationStatus::Failed
    } else if count > 0 {
        AutomationStatus::Succeeded
    } else {
        AutomationStatus::Skipped
    }
}

/// The correlation of a job's events: the one its payload names where not
/// empty, else the job's id.
pub fn correlation_id_of(payload_correlation: &Option<String>, job_id: &str) -> (r: String)
    ensures
        r@ == match payload_correlation {
            Some(c) => if c@.len() > 0 {
                c@
            } else {
                job_id@
            },
            None => job_id@,
        },
{
    match payload_correlation {
        Some(c) => {
            if str_nonempty(c.as_str()) {
                c.clone()
            } else {
                owned(job_id)
            }
        },
        None => owned(job_id),
    }
}

// ---------------------------------------------------------------------------
// Stage outcomes of a subscription transfer
// ---------------------------------------------------------------------------

/// What a finished subscription transfer reports of its later stages.
#[derive(Debug, Clone, PartialEq, Eq)]
pub struct TransferStageReport {
    pub renamed_count: Option<u64>,
    pub strm_generated_count: Option<u64>,
    pub strm_error: Option<String>,
    pub aria2_submitted_count: Option<u64>,
    pub aria2_error: Option<String>,
    pub notification_id: Option<String>,
}

/// One event of a stage (for one episode, or for all where none is known).
#[derive(Debug, Clone)]
pub struct StageEvent {
    pub id: String,
    pub correlation_id: String,
    pub stage: AutomationStage,
    pub status: AutomationStatus,
    pub subscription_id: Option<String>,
    pub episode: Option<i32>,
    pub job_id: String,
    pub message: String,
    pub error: String,
    pub created_at: i64,
    pub count: u64,
}

pub const MSG_RENAME: &'static str = "重命名阶段";
pub const MSG_STRM: &'static str = "STRM 阶段";
pub const MSG_ARIA2: &'static str = "Aria2 阶段";
pub const MSG_NOTIFICATION: &'static str = "通知阶段";
pub const EVENT_ID_PREFIX: &'static str = "job:";
pub const EVENT_ID_SEP: &'static str = ":";
pub const EPISODE_ALL: &'static str = "all";

/// Some file name is recognised as episode `e`.
pub open spec fn files_give_episode(names: Seq<Seq<char>>, e: i32) -> bool {
    exists|k: int| 0 <= k < names.len() && detection_of(#[trigger] names[k]).episode == Some(e)
}

/// The episodes a transfer concerns, sorted and each once.
pub fn transfer_episode_numbers(file_names: &Vec<String>) -> (r: Vec<i32>)
    ensures
        strictly_sorted(r@),
        forall|e: i32| r@.contains(e) <==> files_give_episode(views(file_names@), e),
{
    let mut out: Vec<i32> = Vec::new();
    let mut i: usize = 0;
    while i < file_names.len()
        invariant
            i <= file_names.len(),
            strictly_sorted(out@),
            forall|e: i32| out@.contains(e) <==> files_give_episode(views(file_names@).take(i as int), e),
        decreases file_names.len() - i,
    {
        if let Some(e) = detect_episode(file_names[i].as_str()).episode {
            insert_sorted(&mut out, e);
        }
        proof {
            let t = views(file_names@).take(i + 1);
            let u = views(file_names@).take(i as int);
            assert(t[i as int] == file_names@[i as int]@);
            assert forall|e: i32| out@.contains(e) <==> files_give_episode(t, e) by {
                if files_give_episode(u, e) {
                    let k = choose|k: int| 0 <= k < u.len() && detection_of(#[trigger] u[k]).episode == Some(e);
                    assert(t[k] == u[k]);
                }
                if files_give_episode(t, e) {
                    let k = choose|k: int| 0 <= k < t.len() && detection_of(#[trigger] t[k]).episode == Some(e);
                    if k < i {
                        assert(u[k] == t[k]);
                    }
                }
            }
        }
        i += 1;
    }
    assert(views(file_names@).take(file_names.len() as int) =~= views(file_names@));
    out
}

/// The four stages a transfer reports, in order.
pub open spec fn report_stage(k: int) -> AutomationStage {
    if k == 0 {
        AutomationStage::Rename
    } else if k == 1 {
        AutomationStage::Strm
    } else if k == 2 {
        AutomationStage::Aria2
    } else {
        AutomationStage::Notification
    }
}

/// A notification was recorded (its id is not empty).
pub open spec fn notified(r: TransferStageReport) -> bool {
    r.notification_id matches Some(id) && id@.len() > 0
}

/// A reported count, zero where none is reported.
pub open spec fn count_or_zero(c: Option<u64>) -> u64 {
    match c {
        Some(n) => n,
        None => 0,
    }
}

/// A reported error, if any.
pub open spec fn error_view(o: Option<String>) -> Option<Seq<char>> {
    match o {
        Some(e) => Some(e@),
        None => None,
    }
}

/// A reported error, empty where none is reported.
pub open spec fn error_text(o: Option<String>) -> Seq<char> {
    match o {
        Some(e) => e@,
        None => Seq::empty(),
    }
}

/// The count, status, message and error a transfer reports for a stage.
pub open spec fn stage_outcome(r: TransferStageReport, s: AutomationStage) -> (u64, AutomationStatus, Seq<char>, Seq<char>) {
    match s {
        AutomationStage::Rename => (
            count_or_zero(r.renamed_count),
            stage_status_of(count_or_zero(r.renamed_count), None),
            MSG_RENAME@,
            Seq::empty(),
        ),
        AutomationStage::Strm => (
            count_or_zero(r.strm_generated_count),
            stage_status_of(count_or_zero(r.strm_generated_count), error_view(r.strm_error)),
            MSG_STRM@,
            error_text(r.strm_error),
        ),
        AutomationStage::Aria2 => (
            count_or_zero(r.aria2_submitted_count),
            stage_status_of(count_or_zero(r.aria2_submitted_count), error_view(r.aria2_error)),
            MSG_ARIA2@,
            error_text(r.aria2_error),
        ),
        _ => (
            if notified(r) {
                1u64
            } else {
                0u64
            },
            if notified(r) {
                AutomationStatus::Succeeded
            } else {
                AutomationStatus::Skipped
            },
            MSG_NOTIFICATION@,
            Seq::empty(),
        ),
    }
}

/// The event id of a stage for an episode (`all` where none is known).
pub open spec fn stage_event_id(job_id: Seq<char>, s: AutomationStage, episode: Option<i32>) -> Seq<char> {
    EVENT_ID_PREFIX@ + job_id + EVENT_ID_SEP@ + stage_name(s) + EVENT_ID_SEP@ + match episode {
        Some(e) => int_decimal(e as int),
        None => EPISODE_ALL@,
    }
}

/// The episodes events are written for: each recognised one, or a single
/// event for all where none is.
pub open spec fn event_episodes(eps: Seq<i32>) -> Seq<Option<i32>> {
    if eps.len() == 0 {
        seq![None]
    } else {
        eps.map_values(|e: i32| Some(e))
    }
}

/// The event is the one of stage `k` for `episode`.
pub open spec fn stage_event_of(
    ev: StageEvent,
    job_id: Seq<char>,
    correlation_id: Seq<char>,
    subscription_id: Option<Seq<char>>,
    report: TransferStageReport,
    updated_at: i64,
    episode: Option<i32>,
    k: int,
) -> bool {
    let s = report_stage(k);
    let o = stage_outcome(report, s);
    &&& ev.id@ == stage_event_id(job_id, s, episode)
    &&& ev.correlation_id@ == correlation_id
    &&& ev.stage == s
    &&& ev.status == o.1
    &&& (match ev.subscription_id {
        Some(x) => Some(x@),
        None => None,
    }) == subscription_id
    &&& ev.episode == episode
    &&& ev.job_id@ == job_id
    &&& ev.message@ == o.2
    &&& ev.error@ == o.3
    &&& ev.created_at == updated_at
    &&& ev.count == o.0
}

fn stage_of_index(k: usize) -> (r: AutomationStage)
    ensures
        r == report_stage(k as int),
{
    if k == 0 {
        AutomationStage::Rename
    } else if k == 1 {
        AutomationStage::Strm
    } else if k == 2 {
        AutomationStage::Aria2
    } else {
        AutomationStage::Notification
    }
}

fn text_or_empty(o: &Option<String>) -> (r: String)
    ensures
        r@ == match o {
            Some(e) => e@,
            None => Seq::<char>::empty(),
        },
{
    match o {
        Some(e) => e.clone(),
        None => String::new(),
    }
}

fn stage_outcome_exec(report: &TransferStageReport, s: AutomationStage) -> (r: (u64, AutomationStatus, &'static str, String))
    ensures
        r.0 == stage_outcome(*report, s).0,
        r.1 == stage_outcome(*report, s).1,
        r.2@ == stage_outcome(*report, s).2,
        r.3@ == stage_outcome(*report, s).3,
{
    match s {
        AutomationStage::Rename => {
            let n = match report.renamed_count {
                Some(n) => n,
                None => 0,
            };
            (n, stage_status(n, None), MSG_RENAME, String::new())
        },
        AutomationStage::Strm => {
            let n = match report.strm_generated_count {
                Some(n) => n,
                None => 0,
            };
            let st = stage_status(
                n,
                match &report.strm_error {
                    Some(e) => Some(e.as_str()),
                    None => None,
                },
            );
            (n, st, MSG_STRM, text_or_empty(&report.strm_error))
        },
        AutomationStage::Aria2 => {
            let n = match report.aria2_submitted_count {
                Some(n) => n,
                None => 0,
            };
            let st = stage_status(
                n,
                match &report.aria2_error {
                    Some(e) => Some(e.as_str()),
                    None => None,
                },
            );
            (n, st, MSG_ARIA2, text_or_empty(&report.aria2_error))
        },
        _ => {
            let ok = match &report.notification_id {
                Some(id) => str_nonempty(id.as_str()),
                None => false,
            };
            if ok {
                (1, AutomationStatus::Succeeded, MSG_NOTIFICATION, String::new())
            } else {
                (0, AutomationStatus::Skipped, MSG_NOTIFICATION, String::new())
            }
        },
    }
}

/// The events of a finished subscription transfer: for each episode of its
/// files (or once for all where none is recognised), one event per stage
/// (rename, STRM, Aria2, notification) with the outcome the transfer reports.
pub fn transfer_stage_events(
    job_id: &str,
    correlation_id: &str,
    subscription_id: &Option<String>,
    file_names: &Vec<String>,
    report: &TransferStageReport,
    updated_at: i64,
) -> (r: Vec<StageEvent>)
    ensures
        ({
            let eps = event_episodes(transfer_episode_set(views(file_names@)));
            &&& r@.len() == eps.len() * 4
            &&& forall|e: int, k: int|
                0 <= e < eps.len() && 0 <= k < 4 ==> stage_event_of(
                    #[trigger] r@[e * 4 + k],
                    job_id@,
                    correlation_id@,
                    match subscription_id {
                        Some(x) => Some(x@),
                        None => None,
                    },
                    *report,
                    updated_at,
                    eps[e],
                    k,
                )
        }),
{
    let numbers = transfer_episode_numbers(file_names);
    proof {
        lemma_episode_set_unique(views(file_names@), numbers@);
    }
    let mut episodes: Vec<Option<i32>> = Vec::new();
    if numbers.len() == 0 {
        episodes.push(None);
        assert(episodes@ =~= event_episodes(numbers@));
    } else {
        let mut j: usize = 0;
        while j < numbers.len()
            invariant
                j <= numbers.len(),
                episodes@ == numbers@.take(j as int).map_values(|e: i32| Some(e)),
            decreases numbers.len() - j,
        {
            episodes.push(Some(numbers[j]));
            assert(episodes@ =~= numbers@.take(j + 1).map_values(|e: i32| Some(e)));
            j += 1;
        }
        assert(numbers@.take(numbers.len() as int) =~= numbers@);
    }
    let ghost eps = episodes@;
    assert(eps == event_episodes(transfer_episode_set(views(file_names@))));
    let mut out: Vec<StageEvent> = Vec::new();
    let mut e: usize = 0;
    while e < episodes.len()
        invariant
            e <= episodes.len(),
            eps == episodes@,
            out@.len() == e * 4,
            forall|x: int, k: int|
                0 <= x < e && 0 <= k < 4 ==> stage_event_of(
                    #[trigger] out@[x * 4 + k],
                    job_id@,
                    correlation_id@,
                    match subscription_id {
                        Some(s) => Some(s@),
                        None => None,
                    },
                    *report,
                    updated_at,
                    eps[x],
                    k,
                ),
        decreases episodes.len() - e,
    {
        let episode = episodes[e];
        let mut k: usize = 0;
        while k < 4
            invariant
                k <= 4,
                e < episodes.len(),
                episode == eps[e as int],
                eps == episodes@,
                out@.len() == e * 4 + k,
                forall|x: int, j: int|
                    0 <= x < e && 0 <= j < 4 ==> stage_event_of(
                        #[trigger] out@[x * 4 + j],
                        job_id@,
                        correlation_id@,
                        match subscription_id {
                            Some(s) => Some(s@),
                            None => None,
                        },
                        *report,
                        updated_at,
                        eps[x],
                        j,
                    ),
                forall|j: int|
                    0 <= j < k ==> stage_event_of(
                        #[trigger] out@[e * 4 + j],
                        job_id@,
                        correlation_id@,
                        match subscription_id {
                            Some(s) => Some(s@),
                            None => None,
                        },
                        *report,
                        updated_at,
                        eps[e as int],
                        j,
                    ),
            decreases 4 - k,
        {
            let stage = stage_of_index(k);
            let (count, status, message, error) = stage_outcome_exec(report, stage);
            let mut id = owned(EVENT_ID_PREFIX);
            push_str(&mut id, job_id);
            push_str(&mut id, EVENT_ID_SEP);
            push_str(&mut id, stage.as_str());
            push_str(&mut id, EVENT_ID_SEP);
            match episode {
                Some(n) => push_decimal(&mut id, n as i64),
                None => push_str(&mut id, EPISODE_ALL),
            }
            let ev = StageEvent {
                id,
                correlation_id: owned(correlation_id),
                stage,
                status,
                subscription_id: match subscription_id {
                    Some(s) => Some(s.clone()),
                    None => None,
                },
                episode,
                job_id: owned(job_id),
                message: owned(message),
                error,
                created_at: updated_at,
                count,
            };
            let ghost before = out@;
            out.push(ev);
            assert forall|x: int, j: int|
                0 <= x < e && 0 <= j < 4 implies stage_event_of(
                    #[trigger] out@[x * 4 + j],
                    job_id@,
                    correlation_id@,
                    match subscription_id {
                        Some(s) => Some(s@),
                        None => None,
                    },
                    *report,
                    updated_at,
                    eps[x],
                    j,
                ) by {
                assert(x * 4 + j < e * 4) by (nonlinear_arith)
                    requires
                        0 <= x < e,
                        0 <= j < 4,
                ;
                assert(out@[x * 4 + j] == before[x * 4 + j]);
            }
            assert forall|j: int| 0 <= j < k + 1 implies stage_event_of(
                #[trigger] out@[e * 4 + j],
                job_id@,
                correlation_id@,
                match subscription_id {
                    Some(s) => Some(s@),
                    None => None,
                },
                *report,
                updated_at,
                eps[e as int],
                j,
            ) by {
                if j < k {
                    assert(out@[e * 4 + j] == before[e * 4 + j]);
                }
            }
            k += 1;
        }
        assert forall|x: int, j: int|
            0 <= x < e + 1 && 0 <= j < 4 implies stage_event_of(
                #[trigger] out@[x * 4 + j],
                job_id@,
                correlation_id@,
                match subscription_id {
                    Some(s) => Some(s@),
                    None => None,
                },
                *report,
                updated_at,
                eps[x],
                j,
            ) by {
            if x == e {
            }
        }
        e += 1;
    }
    out
}

/// The sorted distinct episodes the names are recognised as.
pub open spec fn transfer_episode_set(names: Seq<Seq<char>>) -> Seq<i32> {
    choose|s: Seq<i32>| strictly_sorted(s) && forall|e: i32| s.contains(e) <==> files_give_episode(names, e)
}

/// Two strictly sorted sequences with the same elements are equal.
proof fn lemma_sorted_same_elements(a: Seq<i32>, b: Seq<i32>)
    requires
        strictly_sorted(a),
        strictly_sorted(b),
        forall|e: i32| a.contains(e) <==> b.contains(e),
    ensures
        a == b,
    decreases a.len() + b.len(),
{
    if a.len() == 0 {
        if b.len() > 0 {
            assert(b.contains(b[0]));
        }
        assert(a =~= b);
    } else if b.len() == 0 {
        assert(a.contains(a[0]));
    } else {
        assert(a.contains(a[0]));
        assert(b.contains(b[0]));
        let ia = choose|i: int| 0 <= i < a.len() && a[i] == b[0];
        let ib = choose|i: int| 0 <= i < b.len() && b[i] == a[0];
        assert(a[0] == b[0]) by {
            if a[0] < b[0] {
                if ib > 0 {
                    assert(b[0] < b[ib]);
                }
            } else if a[0] > b[0] {
                if ia > 0 {
                    assert(a[0] < a[ia]);
                }
            }
        }
        let a1 = a.drop_first();
        let b1 = b.drop_first();
        assert forall|e: i32| a1.contains(e) <==> b1.contains(e) by {
            if a1.contains(e) {
                let i = choose|i: int| 0 <= i < a1.len() && a1[i] == e;
                assert(a[i + 1] == e);
                assert(a.contains(e));
                let j = choose|j: int| 0 <= j < b.len() && b[j] == e;
                assert(e > a[0]);
                assert(j != 0);
                assert(b1[j - 1] == e);
            }
            if b1.contains(e) {
                let i = choose|i: int| 0 <= i < b1.len() && b1[i] == e;
                assert(b[i + 1] == e);
                assert(b.contains(e));
                let j = choose|j: int| 0 <= j < a.len() && a[j] == e;
                assert(e > b[0]);
                assert(j != 0);
                assert(a1[j - 1] == e);
            }
        }
        lemma_sorted_same_elements(a1, b1);
        assert(a =~= seq![a[0]] + a1);
        assert(b =~= seq![b[0]] + b1);
    }
}

proof fn lemma_episode_set_unique(names: Seq<Seq<char>>, s: Seq<i32>)
    requires
        strictly_sorted(s),
        forall|e: i32| s.contains(e) <==> files_give_episode(names, e),
    ensures
        transfer_episode_set(names) == s,
{
    let t = transfer_episode_set(names);
    assert(strictly_sorted(t) && forall|e: i32| t.contains(e) <==> files_give_episode(names, e));
    lemma_sorted_same_elements(s, t);
}

} // verus!
