//! Checking subscriptions: when one is due, what a check records, what a
//! failed probe records, and how a batch of checks is merged back.
use vstd::prelude::*;
use crate::episode::{detect_episode, detection_of};
use crate::model::{
    candidates_view, check_history_view, copy_candidates, copy_check_history, copy_history,
    copy_numbers, copy_candidate, copy_probe, copy_strings, history_view, probe_view, CandidateView,
    CheckHistoryItem, HistoryView, ProbeResultView, Settings, SourceCandidate,
    SourceSwitchHistoryItem, Subscription,
};
use crate::source_switch::saturating_diff;
use crate::error::AppError;
use crate::progress::{
    complete_by_known, complete_by_names, completion_target_episode, reopen_wanted,
    should_reopen_completed_subscription,
    should_mark_completed_from_known_episodes, should_mark_completed_from_transferred_files, target_of,
};
use crate::text::{
    decimal_string, int_decimal, join_strings, joined, owned, push_count, push_decimal, push_str,
    str_eq, string_of, trim_seq, trim_str, views,
};

verus! {

// ---------------------------------------------------------------------------
// Results
// ---------------------------------------------------------------------------

/// What checking one subscription found.
#[derive(Debug, Clone)]
pub struct CheckResult {
    pub subscription_id: String,
    pub subscription_title: String,
    pub new_files: Vec<String>,
    pub new_episodes: Vec<i32>,
    pub details: CheckDetails,
    pub became_invalid: bool,
    pub became_completed: bool,
    pub summary: String,
}

/// How the files of a probe were classified.
#[derive(Debug, Clone)]
pub struct CheckDetails {
    pub scanned_count: usize,
    pub new_count: usize,
    pub known_count: usize,
    pub skipped_directory_count: usize,
    pub skipped_other_season_count: usize,
    pub skipped_before_start_count: usize,
    pub skipped_duplicate_episode_count: usize,
    pub items: Vec<CheckDetailItem>,
}

impl Default for CheckDetails {
    fn default() -> (r: Self)
        ensures
            r.scanned_count == 0,
            r.new_count == 0,
            r.known_count == 0,
            r.skipped_directory_count == 0,
            r.skipped_other_season_count == 0,
            r.skipped_before_start_count == 0,
            r.skipped_duplicate_episode_count == 0,
            r.items@.len() == 0,
    {
        CheckDetails {
            scanned_count: 0,
            new_count: 0,
            known_count: 0,
            skipped_directory_count: 0,
            skipped_other_season_count: 0,
            skipped_before_start_count: 0,
            skipped_duplicate_episode_count: 0,
            items: Vec::new(),
        }
    }
}

/// How one probed file was classified.
#[derive(Debug, Clone)]
pub struct CheckDetailItem {
    pub name: String,
    pub episode: Option<i32>,
    pub episodes: Vec<i32>,
    pub special_kind: Option<String>,
    pub detection_method: String,
    pub detection_confidence: String,
    pub is_dir: bool,
    pub parent_path: String,
    pub file_key: String,
    pub action: String,
    pub reason: String,
}

// ---------------------------------------------------------------------------
// When a check is due
// ---------------------------------------------------------------------------

/// The shortest and longest check intervals, in minutes.
pub const MIN_CHECK_INTERVAL_MINUTES: i64 = 5;
pub const MAX_CHECK_INTERVAL_MINUTES: i64 = 1440;

/// A check interval kept within five minutes and a day.
pub open spec fn interval_minutes(minutes: int) -> int {
    if minutes < MIN_CHECK_INTERVAL_MINUTES {
        MIN_CHECK_INTERVAL_MINUTES as int
    } else if minutes > MAX_CHECK_INTERVAL_MINUTES {
        MAX_CHECK_INTERVAL_MINUTES as int
    } else {
        minutes
    }
}

/// Keeps a check interval within five minutes and a day.
pub fn normalize_check_interval_minutes(minutes: i64) -> (r: i32)
    ensures
        r == interval_minutes(minutes as int),
{
    if minutes < MIN_CHECK_INTERVAL_MINUTES {
        MIN_CHECK_INTERVAL_MINUTES as i32
    } else if minutes > MAX_CHECK_INTERVAL_MINUTES {
        MAX_CHECK_INTERVAL_MINUTES as i32
    } else {
        minutes as i32
    }
}

/// Whether a subscription is due for a scheduled check at `now` on
/// `weekday` (1 = Monday ... 7 = Sunday): on one of its weekdays, if it
/// names any; never checked before, or its interval (its own where positive,
/// else the global one) has passed since the last check.
pub open spec fn due_for_check(sub: Subscription, global_interval: i32, now: i64, weekday: i32) -> bool {
    let days = sub.rules.check_weekdays@;
    if days.len() > 0 && !days.contains(weekday) {
        false
    } else if sub.last_checked_at <= 0 {
        true
    } else {
        let interval = if sub.rules.check_interval_minutes > 0 {
            interval_minutes(sub.rules.check_interval_minutes as int)
        } else {
            global_interval as int
        };
        saturating_diff(now, sub.last_checked_at) >= interval * 60
    }
}

/// Whether a subscription is due for a scheduled check.
pub fn subscription_due_for_check(
    sub: &Subscription,
    global_interval_minutes: i32,
    now: i64,
    weekday: i32,
) -> (r: bool)
    ensures
        r == due_for_check(*sub, global_interval_minutes, now, weekday),
{
    let days = &sub.rules.check_weekdays;
    if days.len() > 0 {
        let mut found = false;
        let mut i: usize = 0;
        while i < days.len()
            invariant
                i <= days.len(),
                found == exists|j: int| 0 <= j < i && days@[j] == weekday,
            decreases days.len() - i,
        {
            if days[i] == weekday {
                found = true;
            }
            i = i + 1;
        }
        if !found {
            return false;
        }
    }
    if sub.last_checked_at <= 0 {
        return true;
    }
    let interval: i32 = if sub.rules.check_interval_minutes > 0 {
        normalize_check_interval_minutes(sub.rules.check_interval_minutes as i64)
    } else {
        global_interval_minutes
    };
    let interval_secs: i64 = interval as i64 * 60;
    let d: i128 = now as i128 - sub.last_checked_at as i128;
    let elapsed: i128 = if d > i64::MAX as i128 {
        i64::MAX as i128
    } else if d < i64::MIN as i128 {
        i64::MIN as i128
    } else {
        d
    };
    elapsed >= interval_secs as i128
}

/// Whether a batch check takes the subscription: it is enabled, not
/// completed unless it must be reopened, and due where only due ones are
/// taken.
pub open spec fn batch_eligible(sub: Subscription, due_only: bool, global_interval: i32, now: i64, weekday: i32) -> bool {
    &&& sub.enabled
    &&& !sub.completed || reopen_wanted(sub)
    &&& !due_only || due_for_check(sub, global_interval, now, weekday)
}

/// The ids of the subscriptions a batch check takes, in order.
pub open spec fn batch_ids(subs: Seq<Subscription>, due_only: bool, global_interval: i32, now: i64, weekday: i32) -> Seq<Seq<char>>
    decreases subs.len(),
{
    if subs.len() == 0 {
        seq![]
    } else {
        let prev = batch_ids(subs.drop_last(), due_only, global_interval, now, weekday);
        if batch_eligible(subs.last(), due_only, global_interval, now, weekday) {
            prev.push(subs.last().id@)
        } else {
            prev
        }
    }
}

/// The ids of the subscriptions a batch check takes, in their order.
pub fn batch_check_ids(
    subs: &Vec<Subscription>,
    due_only: bool,
    global_interval_minutes: i32,
    now: i64,
    weekday: i32,
) -> (r: Vec<String>)
    ensures
        views(r@) == batch_ids(subs@, due_only, global_interval_minutes, now, weekday),
{
    let mut ids: Vec<String> = Vec::new();
    let mut i: usize = 0;
    while i < subs.len()
        invariant
            i <= subs.len(),
            views(ids@) == batch_ids(subs@.take(i as int), due_only, global_interval_minutes, now, weekday),
        decreases subs.len() - i,
    {
        assert(subs@.take(i + 1).drop_last() =~= subs@.take(i as int));
        assert(subs@.take(i + 1).last() == subs@[i as int]);
        let sub = &subs[i];
        let take = sub.enabled && (!sub.completed || should_reopen_completed_subscription(sub)) && (!due_only
            || subscription_due_for_check(sub, global_interval_minutes, now, weekday));
        if take {
            let id = sub.id.clone();
            ids.push(id);
            assert(views(ids@) =~= batch_ids(subs@.take(i as int), due_only, global_interval_minutes, now, weekday).push(
                subs@[i as int].id@,
            ));
        }
        i += 1;
    }
    assert(subs@.take(subs.len() as int) =~= subs@);
    ids
}

/// Whether a checked record is written back after a batch: it was in the
/// batch and the check touched it.
pub open spec fn write_back_wanted(checked: Subscription, original: Option<Subscription>) -> bool {
    match original {
        Some(o) => checked.last_checked_at != o.last_checked_at || checked.updated_at != o.updated_at,
        None => false,
    }
}

/// Whether a checked record is written back after a batch.
pub fn should_write_back(checked: &Subscription, original: Option<&Subscription>) -> (r: bool)
    ensures
        r == write_back_wanted(
            *checked,
            match original {
                Some(o) => Some(*o),
                None => None,
            },
        ),
{
    match original {
        Some(o) => checked.last_checked_at != o.last_checked_at || checked.updated_at != o.updated_at,
        None => false,
    }
}

// ---------------------------------------------------------------------------
// Small rules
// ---------------------------------------------------------------------------

/// The search service address: the trimmed value, none where blank.
pub fn pansou_api_url_option(value: &str) -> (r: Option<String>)
    ensures
        r is None <==> trim_seq(value@).len() == 0,
        r matches Some(s) ==> s@ == trim_seq(value@),
{
    let t = trim_str(value);
    if t.len() == 0 {
        None
    } else {
        Some(string_of(t.as_slice()))
    }
}

/// The episode number a file name gives.
pub fn extract_episode_number(filename: &str) -> (r: Option<i32>)
    ensures
        r == detection_of(filename@).episode,
{
    detect_episode(filename).episode
}

pub const NOTIFY_ONLY: &'static str = "订阅设置为仅通知模式";
pub const AUTO_DOWNLOAD_OFF: &'static str = "自动下载新订阅项未启用";
pub const AUTO_SAVE_OFF: &'static str = "全局自动转存未启用";

/// Why new files are not transferred automatically, if they are not: the
/// subscription only notifies, automatic download is off (unless forced), or
/// saving is off globally.
pub open spec fn transfer_block(sub: Subscription, force_transfer: bool, settings: Settings) -> Option<
    Seq<char>,
> {
    if sub.notify_only {
        Some(NOTIFY_ONLY@)
    } else if !force_transfer && !settings.auto_download_new_subscription_items {
        Some(AUTO_DOWNLOAD_OFF@)
    } else if !settings.quark_save_enabled {
        Some(AUTO_SAVE_OFF@)
    } else {
        None
    }
}

/// Why new files are not transferred automatically, if they are not.
pub fn auto_transfer_disabled_reason(sub: &Subscription, force_transfer: bool, settings: &Settings) -> (r:
    Option<&'static str>)
    ensures
        match r {
            Some(s) => transfer_block(*sub, force_transfer, *settings) == Some(s@),
            None => transfer_block(*sub, force_transfer, *settings) is None,
        },
{
    if sub.notify_only {
        return Some(NOTIFY_ONLY);
    }
    if !force_transfer && !settings.auto_download_new_subscription_items {
        return Some(AUTO_DOWNLOAD_OFF);
    }
    if !settings.quark_save_enabled {
        return Some(AUTO_SAVE_OFF);
    }
    None
}

/// Whether replacement sources are searched for: not within the cooldown of
/// the last search.
pub open spec fn search_allowed(sub: Subscription, settings: Settings, now: i64) -> bool {
    match sub.last_source_search_time {
        Some(last) => !(saturating_diff(now, last) < crate::source_switch::cooldown_seconds(settings)),
        None => true,
    }
}

/// Whether replacement sources are searched for at `now`.
pub fn should_search_source_candidates(sub: &Subscription, settings: &Settings, now: i64) -> (r: bool)
    ensures
        r == search_allowed(*sub, *settings, now),
{
    let hours: i64 = if settings.source_switch_cooldown_hours < 1 {
        1
    } else {
        settings.source_switch_cooldown_hours as i64
    };
    let cooldown: i64 = hours * 3600;
    match sub.last_source_search_time {
        Some(last) => {
            let d: i128 = now as i128 - last as i128;
            let elapsed: i128 = if d > i64::MAX as i128 {
                i64::MAX as i128
            } else if d < i64::MIN as i128 {
                i64::MIN as i128
            } else {
                d
            };
            !(elapsed < cooldown as i128)
        },
        None => true,
    }
}

// ---------------------------------------------------------------------------
// A failed probe
// ---------------------------------------------------------------------------

pub const STATUS_INVALID: &'static str = "invalid";

/// `new` is `old` marked invalid at `now` with `error`: status, error and
/// check time set, the first invalid time kept, one more failure counted
/// (saturating); nothing else changes.
pub open spec fn marked_invalid(old: Subscription, new: Subscription, error: Seq<char>, now: i64) -> bool {
    &&& new.status@ == STATUS_INVALID@
    &&& new.last_error@ == error
    &&& new.last_checked_at == now
    &&& new.updated_at == now
    &&& new.invalid_since == match old.invalid_since {
        Some(t) => Some(t),
        None => Some(now),
    }
    &&& new.source_failure_count == if old.source_failure_count == u32::MAX {
        u32::MAX
    } else {
        (old.source_failure_count + 1) as u32
    }
    &&& new == Subscription {
        status: new.status,
        last_error: new.last_error,
        last_checked_at: new.last_checked_at,
        updated_at: new.updated_at,
        invalid_since: new.invalid_since,
        source_failure_count: new.source_failure_count,
        ..old
    }
}

/// Marks a subscription invalid at `now` with `error`.
pub fn mark_invalid(sub: &mut Subscription, error: &str, now: i64)
    ensures
        marked_invalid(*old(sub), *final(sub), error@, now),
{
    sub.status = owned(STATUS_INVALID);
    sub.last_error = owned(error);
    sub.last_checked_at = now;
    sub.updated_at = now;
    if sub.invalid_since.is_none() {
        sub.invalid_since = Some(now);
    }
    sub.source_failure_count = if sub.source_failure_count == u32::MAX {
        u32::MAX
    } else {
        sub.source_failure_count + 1
    };
}

// ---------------------------------------------------------------------------
// Merging a batch back
// ---------------------------------------------------------------------------

/// Whether the batch switched the subscription's source: no original record,
/// or link, password or switch time changed.
pub open spec fn switched_in_batch(original: Option<Subscription>, checked: Subscription) -> bool {
    match original {
        None => true,
        Some(o) => checked.url@ != o.url@ || checked.password@ != o.password@
            || checked.last_source_switch_at != o.last_source_switch_at,
    }
}

/// `new` is `current` with the results of a batch check `checked` merged in:
/// what the check maintains is taken from `checked`, the update time is the
/// later one, the source fields are taken only where the batch switched the
/// source, and everything else (including transfer records, titles, rules and
/// the enabled flag) stays as it is.
pub open spec fn merged(
    current: Subscription,
    new: Subscription,
    original: Option<Subscription>,
    checked: Subscription,
) -> bool {
    &&& views(new.known_files@) == views(checked.known_files@)
    &&& views(new.known_file_keys@) == views(checked.known_file_keys@)
    &&& new.known_episodes@ == checked.known_episodes@
    &&& new.current_episode_number == checked.current_episode_number
    &&& new.last_checked_at == checked.last_checked_at
    &&& views(new.last_new_files@) == views(checked.last_new_files@)
    &&& new.last_new_episodes@ == checked.last_new_episodes@
    &&& new.last_check_summary@ == checked.last_check_summary@
    &&& probe_view(new.last_probe) == probe_view(checked.last_probe)
    &&& check_history_view(new.check_history@) == check_history_view(checked.check_history@)
    &&& new.status@ == checked.status@
    &&& new.invalid_since == checked.invalid_since
    &&& new.last_error@ == checked.last_error@
    &&& new.source_failure_count == checked.source_failure_count
    &&& new.completed == checked.completed
    &&& new.total_episode_number == checked.total_episode_number
    &&& candidates_view(new.source_candidates@) == candidates_view(checked.source_candidates@)
    &&& new.last_source_search_time == checked.last_source_search_time
    &&& new.updated_at == if current.updated_at >= checked.updated_at {
        current.updated_at
    } else {
        checked.updated_at
    }
    &&& if switched_in_batch(original, checked) {
        &&& new.url@ == checked.url@
        &&& new.password@ == checked.password@
        &&& views(new.previous_share_links@) == views(checked.previous_share_links@)
        &&& new.last_source_switch_at == checked.last_source_switch_at
        &&& history_view(new.source_switch_history@) == history_view(
            checked.source_switch_history@,
        )
    } else {
        &&& new.url == current.url
        &&& new.password == current.password
        &&& new.previous_share_links == current.previous_share_links
        &&& new.last_source_switch_at == current.last_source_switch_at
        &&& new.source_switch_history == current.source_switch_history
    }
    &&& new.id == current.id
    &&& new.title == current.title
    &&& new.source_title == current.source_title
    &&& new.media_type == current.media_type
    &&& new.season == current.season
    &&& new.season_end == current.season_end
    &&& new.start_episode_number == current.start_episode_number
    &&& new.metadata == current.metadata
    &&& new.transferred_files == current.transferred_files
    &&& new.transferred_file_keys == current.transferred_file_keys
    &&& new.notify_only == current.notify_only
    &&& new.sync_download_enabled == current.sync_download_enabled
    &&& new.sync_downloads == current.sync_downloads
    &&& new.strm_enabled == current.strm_enabled
    &&& new.enabled == current.enabled
    &&& new.rules == current.rules
    &&& new.cloud_type == current.cloud_type
    &&& new.created_at == current.created_at
}

/// Merges the fields a batch check maintains into the current record.
pub fn merge_check_results(
    current: &mut Subscription,
    original: Option<&Subscription>,
    checked: &Subscription,
)
    ensures
        merged(
            *old(current),
            *final(current),
            match original {
                Some(o) => Some(*o),
                None => None,
            },
            *checked,
        ),
{
    current.known_files = copy_strings(&checked.known_files);
    current.known_file_keys = copy_strings(&checked.known_file_keys);
    current.known_episodes = copy_numbers(&checked.known_episodes);
    current.current_episode_number = checked.current_episode_number;
    current.last_checked_at = checked.last_checked_at;
    current.last_new_files = copy_strings(&checked.last_new_files);
    current.last_new_episodes = copy_numbers(&checked.last_new_episodes);
    current.last_check_summary = checked.last_check_summary.clone();
    current.last_probe = match &checked.last_probe {
        Some(p) => Some(copy_probe(p)),
        None => None,
    };
    current.check_history = copy_check_history(&checked.check_history);
    current.status = checked.status.clone();
    current.invalid_since = checked.invalid_since;
    current.last_error = checked.last_error.clone();
    current.source_failure_count = checked.source_failure_count;
    current.completed = checked.completed;
    current.total_episode_number = checked.total_episode_number;
    current.source_candidates = copy_candidates(&checked.source_candidates);
    current.last_source_search_time = checked.last_source_search_time;
    if checked.updated_at > current.updated_at {
        current.updated_at = checked.updated_at;
    }
    let switched = match original {
        None => true,
        Some(o) => !str_eq(checked.url.as_str(), o.url.as_str()) || !str_eq(
            checked.password.as_str(),
            o.password.as_str(),
        ) || checked.last_source_switch_at != o.last_source_switch_at,
    };
    if switched {
        current.url = checked.url.clone();
        current.password = checked.password.clone();
        current.previous_share_links = copy_strings(&checked.previous_share_links);
        current.last_source_switch_at = checked.last_source_switch_at;
        current.source_switch_history = copy_history(&checked.source_switch_history);
    }
}


// ---------------------------------------------------------------------------
// What a check reports
// ---------------------------------------------------------------------------

pub const SUMMARY_NO_UPDATE: &'static str = "无更新";
pub const SUMMARY_FOUND_PREFIX: &'static str = "发现 ";
pub const SUMMARY_FOUND_SUFFIX: &'static str = " 个新文件";
pub const SUMMARY_INVALID_PREFIX: &'static str = "链接失效: ";
pub const SUMMARY_ALTERNATIVES_PREFIX: &'static str = "，已找到 ";
pub const SUMMARY_ALTERNATIVES_SUFFIX: &'static str = " 个替代源";
pub const TITLE_UPDATED: &'static str = "订阅有更新: ";
pub const MSG_NEW_FILES: &'static str = "发现新文件: ";
pub const MSG_NEW_EPISODES: &'static str = "发现新集: 第 ";
pub const MSG_EPISODES_SUFFIX: &'static str = " 集";
pub const LIST_JOIN: &'static str = "、";
pub const TITLE_COMPLETED: &'static str = "订阅已完结: ";
pub const MSG_REACHED_PREFIX: &'static str = "已达到完结集数：第 ";
pub const MSG_MARKED_COMPLETED: &'static str = "订阅已标记为完结";
pub const TITLE_INVALID: &'static str = "订阅链接疑似失效: ";
pub const TITLE_INVALID_WITH_CANDIDATES: &'static str = "订阅链接失效: ";
pub const MSG_CANDIDATES_PREFIX: &'static str = "订阅「";
pub const MSG_CANDIDATES_MIDDLE: &'static str = "」链接失效，已自动找到 ";
pub const MSG_CANDIDATES_SUFFIX: &'static str = " 个替代源，请在 WebUI 中选择换源。";
pub const REFUSED_DISABLED: &'static str = "订阅未启用";
pub const REFUSED_COMPLETED: &'static str = "订阅已完成";

/// Why a subscription is not checked: it is disabled, or (after reopening)
/// completed.
pub open spec fn check_refusal_of(sub: Subscription) -> Option<Seq<char>> {
    if !sub.enabled {
        Some(REFUSED_DISABLED@)
    } else if sub.completed {
        Some(REFUSED_COMPLETED@)
    } else {
        None
    }
}

/// The validation error a check is refused with, if it is.
pub fn check_refusal(sub: &Subscription) -> (r: Option<AppError>)
    ensures
        match check_refusal_of(*sub) {
            Some(m) => r matches Some(e) && e is Validation && e.message() == m,
            None => r is None,
        },
{
    if !sub.enabled {
        return Some(AppError::Validation(owned(REFUSED_DISABLED)));
    }
    if sub.completed {
        return Some(AppError::Validation(owned(REFUSED_COMPLETED)));
    }
    None
}

/// The summary of a check: no update, or the number of new files.
pub open spec fn check_summary_text(count: int) -> Seq<char> {
    if count == 0 {
        SUMMARY_NO_UPDATE@
    } else {
        SUMMARY_FOUND_PREFIX@ + int_decimal(count) + SUMMARY_FOUND_SUFFIX@
    }
}

/// The summary of a check that found `new_files`.
pub fn check_summary(new_files: &Vec<String>) -> (r: String)
    ensures
        r@ == check_summary_text(new_files@.len() as int),
{
    if new_files.len() == 0 {
        return owned(SUMMARY_NO_UPDATE);
    }
    let mut s = owned(SUMMARY_FOUND_PREFIX);
    push_count(&mut s, new_files.len());
    push_str(&mut s, SUMMARY_FOUND_SUFFIX);
    s
}

/// The summary of a check whose probe failed, with the number of
/// replacement sources found where there are any.
pub open spec fn invalid_summary_text(message: Seq<char>, candidates: int) -> Seq<char> {
    if candidates > 0 {
        SUMMARY_INVALID_PREFIX@ + message + SUMMARY_ALTERNATIVES_PREFIX@ + int_decimal(candidates)
            + SUMMARY_ALTERNATIVES_SUFFIX@
    } else {
        SUMMARY_INVALID_PREFIX@ + message
    }
}

/// The summary of a check whose probe failed.
pub fn invalid_summary(message: &str, candidates: usize) -> (r: String)
    ensures
        r@ == invalid_summary_text(message@, candidates as int),
{
    let mut s = owned(SUMMARY_INVALID_PREFIX);
    push_str(&mut s, message);
    if candidates > 0 {
        push_str(&mut s, SUMMARY_ALTERNATIVES_PREFIX);
        push_count(&mut s, candidates);
        push_str(&mut s, SUMMARY_ALTERNATIVES_SUFFIX);
    }
    s
}

/// The decimal texts of the episodes.
pub open spec fn episode_texts(eps: Seq<i32>) -> Seq<Seq<char>> {
    eps.map_values(|e: i32| int_decimal(e as int))
}

/// The message of an update: the new episodes where any were recognised,
/// else the new files.
pub open spec fn update_message(new_files: Seq<Seq<char>>, new_eps: Seq<i32>) -> Seq<char> {
    if new_eps.len() == 0 {
        MSG_NEW_FILES@ + joined(new_files, LIST_JOIN@)
    } else {
        MSG_NEW_EPISODES@ + joined(episode_texts(new_eps), LIST_JOIN@) + MSG_EPISODES_SUFFIX@
    }
}

/// The title and message of an update notification.
pub fn update_notice(sub: &Subscription, new_files: &Vec<String>, new_episodes: &Vec<i32>) -> (r: (String, String))
    ensures
        r.0@ == TITLE_UPDATED@ + sub.title@,
        r.1@ == update_message(views(new_files@), new_episodes@),
{
    let mut title = owned(TITLE_UPDATED);
    push_str(&mut title, sub.title.as_str());
    let message = if new_episodes.len() == 0 {
        let mut m = owned(MSG_NEW_FILES);
        let list = join_strings(new_files.as_slice(), LIST_JOIN);
        push_str(&mut m, list.as_str());
        m
    } else {
        let mut texts: Vec<String> = Vec::new();
        let mut i: usize = 0;
        while i < new_episodes.len()
            invariant
                i <= new_episodes.len(),
                views(texts@) == episode_texts(new_episodes@.take(i as int)),
            decreases new_episodes.len() - i,
        {
            let ghost before = views(texts@);
            let t = decimal_string(new_episodes[i] as i64);
            texts.push(t);
            assert(views(texts@) =~= before.push(int_decimal(new_episodes@[i as int] as int)));
            assert(new_episodes@.take(i + 1) =~= new_episodes@.take(i as int).push(new_episodes@[i as int]));
            assert(episode_texts(new_episodes@.take(i + 1)) =~= episode_texts(new_episodes@.take(i as int)).push(
                int_decimal(new_episodes@[i as int] as int),
            ));
            i += 1;
        }
        assert(new_episodes@.take(new_episodes.len() as int) =~= new_episodes@);
        let mut m = owned(MSG_NEW_EPISODES);
        let list = join_strings(texts.as_slice(), LIST_JOIN);
        push_str(&mut m, list.as_str());
        push_str(&mut m, MSG_EPISODES_SUFFIX);
        m
    };
    (title, message)
}

/// The message of a completed subscription: the final episode where known.
pub open spec fn completed_message(sub: Subscription) -> Seq<char> {
    let total = match target_of(sub) {
        Some(t) => t as int,
        None => sub.current_episode_number as int,
    };
    if total > 0 {
        MSG_REACHED_PREFIX@ + int_decimal(total) + MSG_EPISODES_SUFFIX@
    } else {
        MSG_MARKED_COMPLETED@
    }
}

/// The title and message of a completion notification.
pub fn completed_notice(sub: &Subscription) -> (r: (String, String))
    ensures
        r.0@ == TITLE_COMPLETED@ + sub.title@,
        r.1@ == completed_message(*sub),
{
    let mut title = owned(TITLE_COMPLETED);
    push_str(&mut title, sub.title.as_str());
    let total: i64 = match completion_target_episode(sub) {
        Some(t) => t as i64,
        None => sub.current_episode_number as i64,
    };
    let message = if total > 0 {
        let mut m = owned(MSG_REACHED_PREFIX);
        push_decimal(&mut m, total);
        push_str(&mut m, MSG_EPISODES_SUFFIX);
        m
    } else {
        owned(MSG_MARKED_COMPLETED)
    };
    (title, message)
}

/// The notification of an invalid link, where the subscription asks for it.
pub fn invalid_notice(sub: &Subscription, error: &str) -> (r: Option<(String, String)>)
    ensures
        !sub.rules.notify_on_invalid ==> r is None,
        sub.rules.notify_on_invalid ==> (r matches Some(n) && n.0@ == TITLE_INVALID@ + sub.title@ && n.1@
            == error@),
{
    if !sub.rules.notify_on_invalid {
        return None;
    }
    let mut title = owned(TITLE_INVALID);
    push_str(&mut title, sub.title.as_str());
    Some((title, owned(error)))
}

/// The title and message announcing replacement sources found for a broken
/// link.
pub fn candidates_found_notice(sub: &Subscription, count: usize) -> (r: (String, String))
    ensures
        r.0@ == TITLE_INVALID_WITH_CANDIDATES@ + sub.title@,
        r.1@ == MSG_CANDIDATES_PREFIX@ + sub.title@ + MSG_CANDIDATES_MIDDLE@ + int_decimal(count as int)
            + MSG_CANDIDATES_SUFFIX@,
{
    let mut title = owned(TITLE_INVALID_WITH_CANDIDATES);
    push_str(&mut title, sub.title.as_str());
    let mut m = owned(MSG_CANDIDATES_PREFIX);
    push_str(&mut m, sub.title.as_str());
    push_str(&mut m, MSG_CANDIDATES_MIDDLE);
    push_count(&mut m, count);
    push_str(&mut m, MSG_CANDIDATES_SUFFIX);
    (title, m)
}

/// Whether a check completes the subscription: for notify-only ones by the
/// known episodes, never for those downloading in sync, by the known
/// episodes when nothing is to be transferred, else by the transferred files.
pub open spec fn completes_after_check(sub: Subscription, new_eps: Seq<i32>, nothing_to_transfer: bool) -> bool {
    if sub.notify_only {
        complete_by_known(sub, new_eps)
    } else if sub.sync_download_enabled {
        false
    } else if nothing_to_transfer {
        complete_by_known(sub, new_eps)
    } else {
        complete_by_names(sub, views(sub.transferred_files@))
    }
}

/// Whether a check completes the subscription.
pub fn completion_after_check(sub: &Subscription, new_episodes: &Vec<i32>, nothing_to_transfer: bool) -> (r: bool)
    ensures
        r == completes_after_check(*sub, new_episodes@, nothing_to_transfer),
{
    if sub.notify_only {
        should_mark_completed_from_known_episodes(sub, new_episodes.as_slice())
    } else if sub.sync_download_enabled {
        false
    } else if nothing_to_transfer {
        should_mark_completed_from_known_episodes(sub, new_episodes.as_slice())
    } else {
        let r = should_mark_completed_from_transferred_files(sub, &[]);
        proof {
            let empty: Seq<String> = Seq::empty();
            assert(views(sub.transferred_files@) + views(empty) =~= views(sub.transferred_files@));
        }
        r
    }
}

/// A check interval always lies within five minutes and a day, and keeping
/// it there again changes nothing.
pub proof fn check_interval_is_bounded_and_stable(minutes: int)
    ensures
        MIN_CHECK_INTERVAL_MINUTES <= interval_minutes(minutes) <= MAX_CHECK_INTERVAL_MINUTES,
        interval_minutes(interval_minutes(minutes)) == interval_minutes(minutes),
{
}

/// A subscription never checked before is due on any weekday it allows.
pub proof fn never_checked_is_due(sub: Subscription, global_interval: i32, now: i64, weekday: i32)
    requires
        sub.last_checked_at <= 0,
        sub.rules.check_weekdays@.len() == 0 || sub.rules.check_weekdays@.contains(weekday),
    ensures
        due_for_check(sub, global_interval, now, weekday),
{
}

} // verus!
