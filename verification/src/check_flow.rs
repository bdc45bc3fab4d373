//! The course of one subscription check, as steps from a state and what
//! the outside world reported to the next state, what to do next and the
//! automation stage events to record: load and refuse or reopen, probe the
//! share, on a failed probe mark the link invalid and look for other sources,
//! on a good probe find the new files, choose the files to transfer, record
//! the check and say what to notify and transfer.
use vstd::prelude::*;
use crate::automation_events::{AutomationStage, AutomationStatus};
use crate::check_update::{apply_check_result, check_recorded};
use crate::error::AppError;
use crate::file_filter::{
    build_check_details, details_of, find_new_files, names_give_episode, new_files_of, parse_episodes,
    transfer_candidate_file_names, transfer_candidates_of,
};
use crate::model::{ProbeResult, Settings, Subscription};
use crate::progress::{reactivated, reopen_completed_subscription_status, reopen_wanted, same_but_completion, strictly_sorted};
use crate::subscription_check::{
    auto_transfer_disabled_reason, check_summary, check_summary_text, completed_message, completed_notice,
    completes_after_check, completion_after_check, invalid_summary, invalid_summary_text, mark_invalid,
    marked_invalid, search_allowed, should_search_source_candidates, transfer_block, update_message,
    update_notice, CheckDetails, CheckResult, TITLE_COMPLETED, TITLE_UPDATED,
};
use crate::text::{int_decimal, owned, push_count, push_str, views};

verus! {

pub const MSG_NOT_FOUND: &'static str = "订阅不存在";
pub const MSG_DISABLED: &'static str = "订阅未启用";
pub const MSG_COMPLETED: &'static str = "订阅已完成";
pub const MSG_OUT_OF_ORDER: &'static str = "检查步骤与事件不匹配";
pub const STAGE_PROBING: &'static str = "正在探测订阅来源";
pub const STAGE_PROBE_ERROR: &'static str = "订阅来源探测异常";
pub const STAGE_PROBE_FAILED: &'static str = "订阅来源探测失败";
pub const STAGE_PROBED_PREFIX: &'static str = "来源探测成功，共 ";
pub const STAGE_PROBED_SUFFIX: &'static str = " 个项目";
pub const STAGE_FILTER_PREFIX: &'static str = "扫描 ";
pub const STAGE_FILTER_MIDDLE: &'static str = " 项，识别 ";
pub const STAGE_FILTER_SUFFIX: &'static str = " 个新增文件";
pub const STAGE_SELECTED_PREFIX: &'static str = "已选择 ";
pub const STAGE_SELECTED_SUFFIX: &'static str = " 个待转存版本";
pub const STAGE_NOTHING_SELECTED: &'static str = "没有需要选择的新增版本";
pub const COUNT_KNOWN: &'static str = "known_count";
pub const COUNT_NEW: &'static str = "new_count";
pub const COUNT_SCANNED: &'static str = "scanned_count";
pub const COUNT_SELECTED: &'static str = "selected_count";

/// A stage event a check records: the stage, how it went, a message, an
/// error text, and named counts (in the order of their names).
pub struct CheckStageEvent {
    pub stage: AutomationStage,
    pub status: AutomationStatus,
    pub message: String,
    pub error: String,
    pub counts: Vec<(&'static str, usize)>,
}

/// The stage event holds exactly these parts.
pub open spec fn stage_is(
    e: CheckStageEvent,
    stage: AutomationStage,
    status: AutomationStatus,
    message: Seq<char>,
    error: Seq<char>,
    counts: Seq<(Seq<char>, int)>,
) -> bool {
    &&& e.stage == stage
    &&& e.status == status
    &&& e.message@ == message
    &&& e.error@ == error
    &&& e.counts@.len() == counts.len()
    &&& forall|i: int|
        0 <= i < counts.len() ==> (#[trigger] e.counts@[i]).0@ == counts[i].0 && e.counts@[i].1 == counts[i].1
}

/// The message of a successful probe of `n` items.
pub open spec fn probed_message(n: int) -> Seq<char> {
    STAGE_PROBED_PREFIX@ + int_decimal(n) + STAGE_PROBED_SUFFIX@
}

/// The message of the file filter's stage.
pub open spec fn filter_message(scanned: int, new_count: int) -> Seq<char> {
    STAGE_FILTER_PREFIX@ + int_decimal(scanned) + STAGE_FILTER_MIDDLE@ + int_decimal(new_count) + STAGE_FILTER_SUFFIX@
}

/// The version choice's stage: skipped where nothing was chosen, else
/// succeeded with the number chosen.
pub open spec fn version_stage(e: CheckStageEvent, chosen: int) -> bool {
    if chosen == 0 {
        stage_is(
            e,
            AutomationStage::VersionSelect,
            AutomationStatus::Skipped,
            STAGE_NOTHING_SELECTED@,
            Seq::empty(),
            seq![(COUNT_SELECTED@, 0int)],
        )
    } else {
        stage_is(
            e,
            AutomationStage::VersionSelect,
            AutomationStatus::Succeeded,
            STAGE_SELECTED_PREFIX@ + int_decimal(chosen) + STAGE_SELECTED_SUFFIX@,
            Seq::empty(),
            seq![(COUNT_SELECTED@, chosen)],
        )
    }
}

/// Where a check of one subscription stands.
pub enum CheckState {
    /// The subscription is to be loaded.
    Start,
    /// The subscription (reopened where it had to be) is to be probed.
    Probing { sub: Subscription },
    /// The probe failed and the link was marked invalid; other sources are
    /// looked for (or not).
    SearchingSources { sub: Subscription, message: String },
    /// Sources were looked for (`found` of them); one found now is tried
    /// automatically.
    ApplyingFound { sub: Subscription, message: String, found: usize },
    /// A source kept from earlier searches is tried automatically.
    ApplyingStored { sub: Subscription, message: String, found: usize },
    /// The probe succeeded; the files to transfer are to be chosen.
    Selecting {
        sub: Subscription,
        probe: ProbeResult,
        new_files: Vec<String>,
        new_episodes: Vec<i32>,
        details: CheckDetails,
        blocked: Option<&'static str>,
    },
    /// The check is over.
    Done,
}

/// What the outside world reports to a step.
pub enum CheckEvent {
    /// The stored subscription, if there is one.
    Loaded(Option<Subscription>),
    /// The outcome of probing the share, at `now`.
    Probed { result: Result<ProbeResult, AppError>, now: i64 },
    /// How many sources a search found (0 where none was made or it failed).
    SourcesFound(usize),
    /// Whether a source was applied automatically; `stored_left` tells
    /// whether the subscription still keeps sources from earlier searches.
    SourceTried { applied: bool, stored_left: bool },
    /// The transfer key of each probed file, in probe order, and of each
    /// file the subscription has transferred, at `now`.
    Keyed { file_keys: Vec<String>, transferred_name_keys: Vec<String>, now: i64 },
}

/// What the files of a check lead to.
pub enum TransferPlan {
    /// Nothing new to transfer.
    Nothing,
    /// Transfer is off for this subscription, for the reason given.
    Skip(&'static str),
    /// Transfer these files.
    Transfer(Vec<String>),
}

/// What to do after a step.
pub enum CheckAction {
    /// The check fails with this error.
    Fail(AppError),
    /// Probe the share; save the subscription first where it was reopened.
    Probe { reopened: bool },
    /// Save the subscription marked invalid, then look for other sources
    /// where `search` is set.
    SaveInvalidAndSearch { search: bool },
    /// Announce the sources found, then try to apply one automatically.
    AnnounceAndTryFound,
    /// Try to apply a source kept from earlier searches.
    TryStored,
    /// A source was applied: check the subscription again from the start.
    Recheck,
    /// Work out the transfer keys of the probed files and of the files the
    /// subscription has transferred.
    KeyFiles,
    /// The check is over: save the subscription, send the notices, plan the
    /// transfer and report the result.
    Finish {
        save: Option<Subscription>,
        result: CheckResult,
        update_notice: Option<(String, String)>,
        completed_notice: Option<(String, String)>,
        transfer: TransferPlan,
    },
}

/// The report of a check that found the link invalid.
pub open spec fn invalid_result(r: CheckResult, sub: Subscription, message: Seq<char>, found: int) -> bool {
    &&& r.subscription_id == sub.id
    &&& r.subscription_title == sub.title
    &&& r.new_files@.len() == 0
    &&& r.new_episodes@.len() == 0
    &&& r.details.scanned_count == 0 && r.details.new_count == 0 && r.details.known_count == 0
    &&& r.details.items@.len() == 0
    &&& r.became_invalid
    &&& !r.became_completed
    &&& r.summary@ == invalid_summary_text(message, found)
}

/// The names of the new files of a probe.
pub open spec fn new_names(sub: Subscription, probe: ProbeResult) -> Seq<Seq<char>> {
    new_files_of(sub, probe.files@).map_values(|f: crate::model::ProbeFile| f.name@)
}

/// The episodes the new files hold, ascending.
pub open spec fn episodes_of(sub: Subscription, names: Seq<Seq<char>>, eps: Seq<i32>) -> bool {
    strictly_sorted(eps) && forall|e: i32| eps.contains(e) <==> names_give_episode(sub, names, e)
}

/// The files chosen for transfer in a step on the files' keys: all new files
/// where transfer is off, else the new files and the known ones still
/// waiting for their transfer.
pub open spec fn chosen_files(
    sub: Subscription,
    probe: ProbeResult,
    new_files: Seq<Seq<char>>,
    blocked: Option<&'static str>,
    file_keys: Seq<Seq<char>>,
    transferred_name_keys: Seq<Seq<char>>,
) -> Seq<Seq<char>> {
    match blocked {
        Some(_) => new_files,
        None => transfer_candidates_of(sub, probe.files@, file_keys, transferred_name_keys, new_files),
    }
}

/// The step of a check from `state` on `event` to the next state, the
/// action, and the stage events to record first (`sub` stands for the
/// subscription of the state).
pub open spec fn check_transition(
    settings: Settings,
    force_transfer: bool,
    state: CheckState,
    event: CheckEvent,
    r: (CheckState, CheckAction, Vec<CheckStageEvent>),
) -> bool {
    match (state, event) {
        (CheckState::Start, CheckEvent::Loaded(None)) => {
            r.0 is Done && (r.1 matches CheckAction::Fail(e) && e is NotFound && e.message() == MSG_NOT_FOUND@)
                && r.2@.len() == 0
        },
        (CheckState::Start, CheckEvent::Loaded(Some(sub))) => if !sub.enabled {
            r.0 is Done && (r.1 matches CheckAction::Fail(e) && e is Validation && e.message() == MSG_DISABLED@)
                && r.2@.len() == 0
        } else if !reopen_wanted(sub) && sub.completed {
            r.0 is Done && (r.1 matches CheckAction::Fail(e) && e is Validation && e.message() == MSG_COMPLETED@)
                && r.2@.len() == 0
        } else {
            &&& if reopen_wanted(sub) {
                r.0 matches CheckState::Probing { sub: s } && same_but_completion(sub, s) && reactivated(s)
                    && r.1 == CheckAction::Probe { reopened: true }
            } else {
                r.0 == CheckState::Probing { sub } && r.1 == CheckAction::Probe { reopened: false }
            }
            &&& r.2@.len() == 1
            &&& stage_is(
                r.2@[0],
                AutomationStage::SourceCheck,
                AutomationStatus::Running,
                STAGE_PROBING@,
                Seq::empty(),
                Seq::empty(),
            )
        },
        (CheckState::Probing { sub }, CheckEvent::Probed { result: Err(e), now }) => {
            &&& r.0 is Done && r.1 == CheckAction::Fail(e)
            &&& r.2@.len() == 1
            &&& stage_is(
                r.2@[0],
                AutomationStage::SourceCheck,
                AutomationStatus::Failed,
                STAGE_PROBE_ERROR@,
                e.description(),
                Seq::empty(),
            )
        },
        (CheckState::Probing { sub }, CheckEvent::Probed { result: Ok(p), now }) => if !p.ok {
            &&& r.0 matches CheckState::SearchingSources { sub: s, message: m } && marked_invalid(
                sub,
                s,
                p.message@,
                now,
            ) && m@ == p.message@
            &&& r.1 == CheckAction::SaveInvalidAndSearch { search: search_allowed(sub, settings, now) }
            &&& r.2@.len() == 1
            &&& stage_is(
                r.2@[0],
                AutomationStage::SourceCheck,
                AutomationStatus::Failed,
                STAGE_PROBE_FAILED@,
                p.message@,
                Seq::empty(),
            )
        } else {
            &&& r.0 matches CheckState::Selecting {
                sub: s,
                probe: q,
                new_files: n,
                new_episodes: e,
                details: d,
                blocked: b,
            } && s == sub && q == p && views(n@) == new_names(sub, p) && episodes_of(sub, new_names(sub, p), e@)
                && details_of(d, sub, p.files@) && match b {
                Some(x) => transfer_block(sub, force_transfer, settings) == Some(x@),
                None => transfer_block(sub, force_transfer, settings) is None,
            } && r.2@.len() == 2 && stage_is(
                r.2@[0],
                AutomationStage::SourceCheck,
                AutomationStatus::Succeeded,
                probed_message(p.files@.len() as int),
                Seq::empty(),
                Seq::empty(),
            ) && stage_is(
                r.2@[1],
                AutomationStage::FileFilter,
                AutomationStatus::Succeeded,
                filter_message(d.scanned_count as int, d.new_count as int),
                Seq::empty(),
                seq![
                    (COUNT_KNOWN@, d.known_count as int),
                    (COUNT_NEW@, d.new_count as int),
                    (COUNT_SCANNED@, d.scanned_count as int),
                ],
            )
            &&& r.1 is KeyFiles
        },
        (CheckState::SearchingSources { sub, message }, CheckEvent::SourcesFound(n)) => r.2@.len() == 0 && if n > 0 {
            r.0 == CheckState::ApplyingFound { sub, message, found: n } && r.1 is AnnounceAndTryFound
        } else {
            r.0 == CheckState::ApplyingStored { sub, message, found: 0 } && r.1 is TryStored
        },
        (CheckState::ApplyingFound { sub, message, found }, CheckEvent::SourceTried { applied, stored_left }) => {
            r.2@.len() == 0 && if applied {
                r.0 is Start && r.1 is Recheck
            } else if stored_left {
                r.0 == CheckState::ApplyingStored { sub, message, found } && r.1 is TryStored
            } else {
                r.0 is Done && (r.1 matches CheckAction::Finish {
                    save: None,
                    result,
                    update_notice: None,
                    completed_notice: None,
                    transfer: TransferPlan::Nothing,
                } && invalid_result(result, sub, message@, found as int))
            }
        },
        (CheckState::ApplyingStored { sub, message, found }, CheckEvent::SourceTried { applied, stored_left }) => {
            r.2@.len() == 0 && if applied {
                r.0 is Start && r.1 is Recheck
            } else {
                r.0 is Done && (r.1 matches CheckAction::Finish {
                    save: None,
                    result,
                    update_notice: None,
                    completed_notice: None,
                    transfer: TransferPlan::Nothing,
                } && invalid_result(result, sub, message@, found as int))
            }
        },
        (
            CheckState::Selecting { sub, probe, new_files, new_episodes, details, blocked },
            CheckEvent::Keyed { file_keys, transferred_name_keys, now },
        ) => if blocked is None && file_keys@.len() != probe.files@.len() {
            r.0 is Done && (r.1 matches CheckAction::Fail(e) && e is Internal && e.message() == MSG_OUT_OF_ORDER@)
                && r.2@.len() == 0
        } else {
            let chosen = chosen_files(
                sub,
                probe,
                views(new_files@),
                blocked,
                views(file_keys@),
                views(transferred_name_keys@),
            );
            let completed = completes_after_check(sub, new_episodes@, chosen.len() == 0);
            let summary = check_summary_text(new_files@.len() as int);
            &&& r.0 is Done
            &&& r.2@.len() == 1 && version_stage(r.2@[0], chosen.len() as int)
            &&& r.1 matches CheckAction::Finish {
                save: Some(saved),
                result,
                update_notice: un,
                completed_notice: cn,
                transfer: t,
            } && {
                &&& check_recorded(sub, saved, probe, views(new_files@), new_episodes@, summary, completed, result.details, now)
                &&& result.subscription_id == sub.id
                &&& result.subscription_title == sub.title
                &&& result.new_files == new_files
                &&& result.new_episodes == new_episodes
                &&& result.details == details
                &&& !result.became_invalid
                &&& result.became_completed == completed
                &&& result.summary@ == summary
                &&& match un {
                    Some(n) => new_files@.len() > 0 && sub.rules.notify_on_update && n.0@ == TITLE_UPDATED@
                        + sub.title@ && n.1@ == update_message(views(new_files@), new_episodes@),
                    None => !(new_files@.len() > 0 && sub.rules.notify_on_update),
                }
                &&& match cn {
                    Some(n) => completed && n.0@ == TITLE_COMPLETED@ + sub.title@ && n.1@ == completed_message(sub),
                    None => !completed,
                }
                &&& match t {
                    TransferPlan::Nothing => chosen.len() == 0,
                    TransferPlan::Skip(reason) => chosen.len() > 0 && blocked == Some(reason),
                    TransferPlan::Transfer(files) => chosen.len() > 0 && blocked is None && views(files@) == chosen,
                }
            }
        },
        _ => r.0 is Done && (r.1 matches CheckAction::Fail(e) && e is Internal && e.message() == MSG_OUT_OF_ORDER@)
            && r.2@.len() == 0,
    }
}

/// Probe files are few enough to count in an `i64`.
pub open spec fn event_fits(event: CheckEvent) -> bool {
    match event {
        CheckEvent::Probed { result: Ok(p), now } => p.files@.len() <= i64::MAX,
        _ => true,
    }
}

fn names_of(files: &Vec<crate::model::ProbeFile>) -> (r: Vec<String>)
    ensures
        views(r@) == files@.map_values(|f: crate::model::ProbeFile| f.name@),
{
    let mut out: Vec<String> = Vec::new();
    let mut i: usize = 0;
    while i < files.len()
        invariant
            i <= files.len(),
            views(out@) == files@.take(i as int).map_values(|f: crate::model::ProbeFile| f.name@),
        decreases files.len() - i,
    {
        let ghost before = views(out@);
        out.push(files[i].name.clone());
        assert(views(out@) =~= before.push(files@[i as int].name@));
        assert(views(out@) =~= files@.take(i + 1).map_values(|f: crate::model::ProbeFile| f.name@));
        i += 1;
    }
    assert(files@.take(files.len() as int) =~= files@);
    out
}

fn invalid_report(sub: &Subscription, message: &str, found: usize) -> (r: CheckResult)
    ensures
        invalid_result(r, *sub, message@, found as int),
{
    CheckResult {
        subscription_id: sub.id.clone(),
        subscription_title: sub.title.clone(),
        new_files: Vec::new(),
        new_episodes: Vec::new(),
        details: CheckDetails::default(),
        became_invalid: true,
        became_completed: false,
        summary: invalid_summary(message, found),
    }
}

fn stage_event(
    stage: AutomationStage,
    status: AutomationStatus,
    message: String,
    error: String,
    counts: Vec<(&'static str, usize)>,
) -> (r: CheckStageEvent)
    ensures
        r.stage == stage && r.status == status && r.message == message && r.error == error && r.counts == counts,
{
    CheckStageEvent { stage, status, message, error, counts }
}

fn count_message(prefix: &str, n: usize, suffix: &str) -> (r: String)
    ensures
        r@ == prefix@ + int_decimal(n as int) + suffix@,
{
    let mut m = owned(prefix);
    push_count(&mut m, n);
    push_str(&mut m, suffix);
    m
}

fn version_stage_event(chosen: usize) -> (r: CheckStageEvent)
    ensures
        version_stage(r, chosen as int),
{
    let counts: Vec<(&'static str, usize)> = vec![(COUNT_SELECTED, chosen)];
    if chosen == 0 {
        stage_event(
            AutomationStage::VersionSelect,
            AutomationStatus::Skipped,
            owned(STAGE_NOTHING_SELECTED),
            String::new(),
            counts,
        )
    } else {
        stage_event(
            AutomationStage::VersionSelect,
            AutomationStatus::Succeeded,
            count_message(STAGE_SELECTED_PREFIX, chosen, STAGE_SELECTED_SUFFIX),
            String::new(),
            counts,
        )
    }
}

fn found_stage_events(files: usize, details: &CheckDetails) -> (r: Vec<CheckStageEvent>)
    ensures
        r@.len() == 2,
        stage_is(
            r@[0],
            AutomationStage::SourceCheck,
            AutomationStatus::Succeeded,
            probed_message(files as int),
            Seq::empty(),
            Seq::empty(),
        ),
        stage_is(
            r@[1],
            AutomationStage::FileFilter,
            AutomationStatus::Succeeded,
            filter_message(details.scanned_count as int, details.new_count as int),
            Seq::empty(),
            seq![
                (COUNT_KNOWN@, details.known_count as int),
                (COUNT_NEW@, details.new_count as int),
                (COUNT_SCANNED@, details.scanned_count as int),
            ],
        ),
{
    let probed = stage_event(
        AutomationStage::SourceCheck,
        AutomationStatus::Succeeded,
        count_message(STAGE_PROBED_PREFIX, files, STAGE_PROBED_SUFFIX),
        String::new(),
        Vec::new(),
    );
    let mut filtered = count_message(STAGE_FILTER_PREFIX, details.scanned_count, STAGE_FILTER_MIDDLE);
    push_count(&mut filtered, details.new_count);
    push_str(&mut filtered, STAGE_FILTER_SUFFIX);
    let counts: Vec<(&'static str, usize)> = vec![
        (COUNT_KNOWN, details.known_count),
        (COUNT_NEW, details.new_count),
        (COUNT_SCANNED, details.scanned_count),
    ];
    let filter = stage_event(AutomationStage::FileFilter, AutomationStatus::Succeeded, filtered, String::new(), counts);
    proof {
        assert(filter.message@ =~= filter_message(details.scanned_count as int, details.new_count as int));
    }
    vec![probed, filter]
}

/// One step of a check: from `state`, on what the world reported, to the
/// next state, what to do, and the stage events to record first (see
/// `check_transition`).
pub fn check_step(settings: &Settings, force_transfer: bool, state: CheckState, event: CheckEvent) -> (r: (
    CheckState,
    CheckAction,
    Vec<CheckStageEvent>,
))
    requires
        event_fits(event),
    ensures
        check_transition(*settings, force_transfer, state, event, r),
{
    match (state, event) {
        (CheckState::Start, CheckEvent::Loaded(None)) => (
            CheckState::Done,
            CheckAction::Fail(AppError::NotFound(owned(MSG_NOT_FOUND))),
            Vec::new(),
        ),
        (CheckState::Start, CheckEvent::Loaded(Some(mut sub))) => {
            if !sub.enabled {
                return (CheckState::Done, CheckAction::Fail(AppError::Validation(owned(MSG_DISABLED))), Vec::new());
            }
            let reopened = reopen_completed_subscription_status(&mut sub);
            if !reopened && sub.completed {
                return (CheckState::Done, CheckAction::Fail(AppError::Validation(owned(MSG_COMPLETED))), Vec::new());
            }
            let running = stage_event(
                AutomationStage::SourceCheck,
                AutomationStatus::Running,
                owned(STAGE_PROBING),
                String::new(),
                Vec::new(),
            );
            (CheckState::Probing { sub }, CheckAction::Probe { reopened }, vec![running])
        },
        (CheckState::Probing { sub }, CheckEvent::Probed { result: Err(e), now }) => {
            let failed = stage_event(
                AutomationStage::SourceCheck,
                AutomationStatus::Failed,
                owned(STAGE_PROBE_ERROR),
                e.describe(),
                Vec::new(),
            );
            (CheckState::Done, CheckAction::Fail(e), vec![failed])
        },
        (CheckState::Probing { sub }, CheckEvent::Probed { result: Ok(p), now }) => {
            if !p.ok {
                let search = should_search_source_candidates(&sub, settings, now);
                let failed = stage_event(
                    AutomationStage::SourceCheck,
                    AutomationStatus::Failed,
                    owned(STAGE_PROBE_FAILED),
                    p.message.clone(),
                    Vec::new(),
                );
                let mut marked = sub;
                mark_invalid(&mut marked, p.message.as_str(), now);
                return (
                    CheckState::SearchingSources { sub: marked, message: p.message },
                    CheckAction::SaveInvalidAndSearch { search },
                    vec![failed],
                );
            }
            let blocked = auto_transfer_disabled_reason(&sub, force_transfer, settings);
            let found = find_new_files(&sub, p.files.as_slice());
            let names = names_of(&found);
            let episodes = parse_episodes(&sub, names.as_slice());
            let details = build_check_details(&sub, p.files.as_slice());
            let stages = found_stage_events(p.files.len(), &details);
            (
                CheckState::Selecting { sub, probe: p, new_files: names, new_episodes: episodes, details, blocked },
                CheckAction::KeyFiles,
                stages,
            )
        },
        (CheckState::SearchingSources { sub, message }, CheckEvent::SourcesFound(n)) => {
            if n > 0 {
                (CheckState::ApplyingFound { sub, message, found: n }, CheckAction::AnnounceAndTryFound, Vec::new())
            } else {
                (CheckState::ApplyingStored { sub, message, found: 0 }, CheckAction::TryStored, Vec::new())
            }
        },
        (CheckState::ApplyingFound { sub, message, found }, CheckEvent::SourceTried { applied, stored_left }) => {
            if applied {
                (CheckState::Start, CheckAction::Recheck, Vec::new())
            } else if stored_left {
                (CheckState::ApplyingStored { sub, message, found }, CheckAction::TryStored, Vec::new())
            } else {
                let result = invalid_report(&sub, message.as_str(), found);
                (
                    CheckState::Done,
                    CheckAction::Finish {
                        save: None,
                        result,
                        update_notice: None,
                        completed_notice: None,
                        transfer: TransferPlan::Nothing,
                    },
                    Vec::new(),
                )
            }
        },
        (CheckState::ApplyingStored { sub, message, found }, CheckEvent::SourceTried { applied, stored_left }) => {
            if applied {
                (CheckState::Start, CheckAction::Recheck, Vec::new())
            } else {
                let result = invalid_report(&sub, message.as_str(), found);
                (
                    CheckState::Done,
                    CheckAction::Finish {
                        save: None,
                        result,
                        update_notice: None,
                        completed_notice: None,
                        transfer: TransferPlan::Nothing,
                    },
                    Vec::new(),
                )
            }
        },
        (
            CheckState::Selecting { sub, probe, new_files, new_episodes, details, blocked },
            CheckEvent::Keyed { file_keys, transferred_name_keys, now },
        ) => {
            if blocked.is_none() && file_keys.len() != probe.files.len() {
                return (CheckState::Done, CheckAction::Fail(AppError::Internal(owned(MSG_OUT_OF_ORDER))), Vec::new());
            }
            let chosen = match blocked {
                Some(_) => crate::model::copy_strings(&new_files),
                None => transfer_candidate_file_names(
                    &sub,
                    probe.files.as_slice(),
                    new_files.as_slice(),
                    file_keys.as_slice(),
                    transferred_name_keys.as_slice(),
                ),
            };
            let version = version_stage_event(chosen.len());
            let completed = completion_after_check(&sub, &new_episodes, chosen.len() == 0);
            let summary = check_summary(&new_files);
            let update = if new_files.len() > 0 && sub.rules.notify_on_update {
                Some(update_notice(&sub, &new_files, &new_episodes))
            } else {
                None
            };
            let done = if completed {
                Some(completed_notice(&sub))
            } else {
                None
            };
            let id = sub.id.clone();
            let title = sub.title.clone();
            let mut saved = sub;
            apply_check_result(&mut saved, &probe, &new_files, &new_episodes, summary.as_str(), completed, &details, now);
            let transfer = if chosen.len() == 0 {
                TransferPlan::Nothing
            } else {
                match blocked {
                    Some(reason) => TransferPlan::Skip(reason),
                    None => TransferPlan::Transfer(chosen),
                }
            };
            let result = CheckResult {
                subscription_id: id,
                subscription_title: title,
                new_files,
                new_episodes,
                details,
                became_invalid: false,
                became_completed: completed,
                summary,
            };
            (
                CheckState::Done,
                CheckAction::Finish {
                    save: Some(saved),
                    result,
                    update_notice: update,
                    completed_notice: done,
                    transfer,
                },
                vec![version],
            )
        },
        _ => (CheckState::Done, CheckAction::Fail(AppError::Internal(owned(MSG_OUT_OF_ORDER))), Vec::new()),
    }
}

} // verus!
