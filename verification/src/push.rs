//! Push notifications: levels, events, which channels are configured, how
//! failed deliveries are retried and how errors are reported.
use vstd::prelude::*;
use std::time::Duration;
use crate::model::{Notification, Settings};
use crate::regex_ops::{regex_replace, replaced};
use crate::text::{chars_of, int_decimal, owned, push_count, push_str, str_eq, string_of, views};

verus! {

// ---------------------------------------------------------------------------
// Levels and events
// ---------------------------------------------------------------------------

/// How important a push is.
#[derive(Debug, Clone, Copy, PartialEq, Eq)]
pub enum PushLevel {
    Info,
    Success,
    Warning,
    Error,
}

pub const LEVEL_INFO: &'static str = "info";
pub const LEVEL_SUCCESS: &'static str = "success";
pub const LEVEL_WARNING: &'static str = "warning";
pub const LEVEL_ERROR: &'static str = "error";
pub const EMOJI_INFO: &'static str = "ℹ️";
pub const EMOJI_SUCCESS: &'static str = "✅";
pub const EMOJI_WARNING: &'static str = "⚠️";
pub const EMOJI_ERROR: &'static str = "❌";

/// The name of a level.
pub open spec fn level_name(level: PushLevel) -> Seq<char> {
    match level {
        PushLevel::Info => LEVEL_INFO@,
        PushLevel::Success => LEVEL_SUCCESS@,
        PushLevel::Warning => LEVEL_WARNING@,
        PushLevel::Error => LEVEL_ERROR@,
    }
}

/// The level a name denotes.
pub open spec fn level_named(name: Seq<char>) -> Option<PushLevel> {
    if name == LEVEL_INFO@ {
        Some(PushLevel::Info)
    } else if name == LEVEL_SUCCESS@ {
        Some(PushLevel::Success)
    } else if name == LEVEL_WARNING@ {
        Some(PushLevel::Warning)
    } else if name == LEVEL_ERROR@ {
        Some(PushLevel::Error)
    } else {
        None
    }
}

/// The emoji a level is shown with.
pub open spec fn level_emoji(level: PushLevel) -> Seq<char> {
    match level {
        PushLevel::Info => EMOJI_INFO@,
        PushLevel::Success => EMOJI_SUCCESS@,
        PushLevel::Warning => EMOJI_WARNING@,
        PushLevel::Error => EMOJI_ERROR@,
    }
}

impl PushLevel {
    /// The level named `value`, if any.
    pub fn from_name(value: &str) -> (r: Option<PushLevel>)
        ensures
            r == level_named(value@),
    {
        if str_eq(value, LEVEL_INFO) {
            Some(PushLevel::Info)
        } else if str_eq(value, LEVEL_SUCCESS) {
            Some(PushLevel::Success)
        } else if str_eq(value, LEVEL_WARNING) {
            Some(PushLevel::Warning)
        } else if str_eq(value, LEVEL_ERROR) {
            Some(PushLevel::Error)
        } else {
            None
        }
    }

    /// The name of the level.
    pub fn as_str(&self) -> (r: &'static str)
        ensures
            r@ == level_name(*self),
    {
        match self {
            PushLevel::Info => LEVEL_INFO,
            PushLevel::Success => LEVEL_SUCCESS,
            PushLevel::Warning => LEVEL_WARNING,
            PushLevel::Error => LEVEL_ERROR,
        }
    }

    /// The emoji the level is shown with.
    pub fn emoji(&self) -> (r: &'static str)
        ensures
            r@ == level_emoji(*self),
    {
        match self {
            PushLevel::Info => EMOJI_INFO,
            PushLevel::Success => EMOJI_SUCCESS,
            PushLevel::Warning => EMOJI_WARNING,
            PushLevel::Error => EMOJI_ERROR,
        }
    }
}

/// A business event that can be pushed.
#[derive(Debug, Clone, Copy, PartialEq, Eq)]
pub enum PushEvent {
    SubscriptionUpdated,
    SubscriptionFailed,
    SubscriptionCompleted,
    TransferSaved,
    DownloadCompleted,
    QuarkSignin,
}

pub const EVENT_SUBSCRIPTION_UPDATED: &'static str = "subscription_updated";
pub const EVENT_SUBSCRIPTION_FAILED: &'static str = "subscription_failed";
pub const EVENT_SUBSCRIPTION_COMPLETED: &'static str = "subscription_completed";
pub const EVENT_TRANSFER_SAVED: &'static str = "transfer_saved";
pub const EVENT_DOWNLOAD_COMPLETED: &'static str = "download_completed";
pub const EVENT_QUARK_SIGNIN: &'static str = "quark_signin";

/// The name of an event.
pub open spec fn event_name(event: PushEvent) -> Seq<char> {
    match event {
        PushEvent::SubscriptionUpdated => EVENT_SUBSCRIPTION_UPDATED@,
        PushEvent::SubscriptionFailed => EVENT_SUBSCRIPTION_FAILED@,
        PushEvent::SubscriptionCompleted => EVENT_SUBSCRIPTION_COMPLETED@,
        PushEvent::TransferSaved => EVENT_TRANSFER_SAVED@,
        PushEvent::DownloadCompleted => EVENT_DOWNLOAD_COMPLETED@,
        PushEvent::QuarkSignin => EVENT_QUARK_SIGNIN@,
    }
}

/// The event a name denotes.
pub open spec fn event_named(name: Seq<char>) -> Option<PushEvent> {
    if name == EVENT_SUBSCRIPTION_UPDATED@ {
        Some(PushEvent::SubscriptionUpdated)
    } else if name == EVENT_SUBSCRIPTION_FAILED@ {
        Some(PushEvent::SubscriptionFailed)
    } else if name == EVENT_SUBSCRIPTION_COMPLETED@ {
        Some(PushEvent::SubscriptionCompleted)
    } else if name == EVENT_TRANSFER_SAVED@ {
        Some(PushEvent::TransferSaved)
    } else if name == EVENT_DOWNLOAD_COMPLETED@ {
        Some(PushEvent::DownloadCompleted)
    } else if name == EVENT_QUARK_SIGNIN@ {
        Some(PushEvent::QuarkSignin)
    } else {
        None
    }
}

impl PushEvent {
    /// The event named `value`, if any.
    pub fn from_name(value: &str) -> (r: Option<PushEvent>)
        ensures
            r == event_named(value@),
    {
        if str_eq(value, EVENT_SUBSCRIPTION_UPDATED) {
            Some(PushEvent::SubscriptionUpdated)
        } else if str_eq(value, EVENT_SUBSCRIPTION_FAILED) {
            Some(PushEvent::SubscriptionFailed)
        } else if str_eq(value, EVENT_SUBSCRIPTION_COMPLETED) {
            Some(PushEvent::SubscriptionCompleted)
        } else if str_eq(value, EVENT_TRANSFER_SAVED) {
            Some(PushEvent::TransferSaved)
        } else if str_eq(value, EVENT_DOWNLOAD_COMPLETED) {
            Some(PushEvent::DownloadCompleted)
        } else if str_eq(value, EVENT_QUARK_SIGNIN) {
            Some(PushEvent::QuarkSignin)
        } else {
            None
        }
    }

    /// The name of the event.
    pub fn as_str(&self) -> (r: &'static str)
        ensures
            r@ == event_name(*self),
    {
        match self {
            PushEvent::SubscriptionUpdated => EVENT_SUBSCRIPTION_UPDATED,
            PushEvent::SubscriptionFailed => EVENT_SUBSCRIPTION_FAILED,
            PushEvent::SubscriptionCompleted => EVENT_SUBSCRIPTION_COMPLETED,
            PushEvent::TransferSaved => EVENT_TRANSFER_SAVED,
            PushEvent::DownloadCompleted => EVENT_DOWNLOAD_COMPLETED,
            PushEvent::QuarkSignin => EVENT_QUARK_SIGNIN,
        }
    }
}

/// A level's name denotes that level again.
pub proof fn level_name_round_trip(level: PushLevel)
    ensures
        level_named(level_name(level)) == Some(level),
{
    reveal_strlit("info");
    reveal_strlit("success");
    reveal_strlit("warning");
    reveal_strlit("error");
    assert(LEVEL_INFO@.len() == 4 && LEVEL_SUCCESS@.len() == 7 && LEVEL_WARNING@.len() == 7
        && LEVEL_ERROR@.len() == 5);
    assert(LEVEL_SUCCESS@[0] != LEVEL_WARNING@[0]);
}

/// An event's name denotes that event again.
pub proof fn event_name_round_trip(event: PushEvent)
    ensures
        event_named(event_name(event)) == Some(event),
{
    reveal_strlit("subscription_updated");
    reveal_strlit("subscription_failed");
    reveal_strlit("subscription_completed");
    reveal_strlit("transfer_saved");
    reveal_strlit("download_completed");
    reveal_strlit("quark_signin");
    assert(EVENT_SUBSCRIPTION_UPDATED@.len() == 20 && EVENT_SUBSCRIPTION_FAILED@.len() == 19
        && EVENT_SUBSCRIPTION_COMPLETED@.len() == 22 && EVENT_TRANSFER_SAVED@.len() == 14
        && EVENT_DOWNLOAD_COMPLETED@.len() == 18 && EVENT_QUARK_SIGNIN@.len() == 12);
}

// ---------------------------------------------------------------------------
// Channels
// ---------------------------------------------------------------------------

pub const CHANNEL_WECOM: &'static str = "wecom";
pub const CHANNEL_WXPUSHER: &'static str = "wxpusher";
pub const CHANNEL_TELEGRAM: &'static str = "telegram";
pub const CHANNEL_BARK: &'static str = "bark";
pub const CHANNEL_GOTIFY: &'static str = "gotify";
pub const CHANNEL_PUSHPLUS: &'static str = "pushplus";
pub const CHANNEL_SERVERCHAN: &'static str = "serverchan";
pub const CHANNEL_BROWSER: &'static str = "browser";
pub const CHANNEL_WEBHOOK: &'static str = "webhook";

/// The configured channels, in their fixed order.
pub open spec fn enabled_channel_names(s: Settings) -> Seq<Seq<char>> {
    let c1: Seq<Seq<char>> = if s.wecom_bot_url@.len() > 0 {
        seq![CHANNEL_WECOM@]
    } else {
        seq![]
    };
    let c2 = if s.wxpusher_app_token@.len() > 0 {
        c1.push(CHANNEL_WXPUSHER@)
    } else {
        c1
    };
    let c3 = if s.telegram_bot_token@.len() > 0 && s.telegram_chat_id@.len() > 0 {
        c2.push(CHANNEL_TELEGRAM@)
    } else {
        c2
    };
    let c4 = if s.bark_url@.len() > 0 {
        c3.push(CHANNEL_BARK@)
    } else {
        c3
    };
    let c5 = if s.gotify_url@.len() > 0 && s.gotify_token@.len() > 0 {
        c4.push(CHANNEL_GOTIFY@)
    } else {
        c4
    };
    let c6 = if s.pushplus_token@.len() > 0 {
        c5.push(CHANNEL_PUSHPLUS@)
    } else {
        c5
    };
    let c7 = if s.serverchan_key@.len() > 0 {
        c6.push(CHANNEL_SERVERCHAN@)
    } else {
        c6
    };
    let c8 = if s.browser_push_subscriptions@.len() > 0 {
        c7.push(CHANNEL_BROWSER@)
    } else {
        c7
    };
    if s.webhook_enabled && s.webhook_urls@.len() > 0 {
        c8.push(CHANNEL_WEBHOOK@)
    } else {
        c8
    }
}

/// Appends `name` where `on` holds.
fn push_if(v: &mut Vec<String>, on: bool, name: &str)
    ensures
        views(final(v)@) == if on {
            views(old(v)@).push(name@)
        } else {
            views(old(v)@)
        },
{
    if on {
        let ghost before = views(v@);
        v.push(owned(name));
        assert(views(v@) =~= before.push(name@));
    }
}

/// The ids of the channels the settings configure.
pub fn enabled_push_channels(settings: &Settings) -> (r: Vec<String>)
    ensures
        views(r@) == enabled_channel_names(*settings),
{
    let mut v: Vec<String> = Vec::new();
    assert(views(v@) =~= seq![]);
    push_if(&mut v, !settings.wecom_bot_url.as_str().is_empty(), CHANNEL_WECOM);
    push_if(&mut v, !settings.wxpusher_app_token.as_str().is_empty(), CHANNEL_WXPUSHER);
    push_if(
        &mut v,
        !settings.telegram_bot_token.as_str().is_empty() && !settings.telegram_chat_id.as_str().is_empty(),
        CHANNEL_TELEGRAM,
    );
    push_if(&mut v, !settings.bark_url.as_str().is_empty(), CHANNEL_BARK);
    push_if(
        &mut v,
        !settings.gotify_url.as_str().is_empty() && !settings.gotify_token.as_str().is_empty(),
        CHANNEL_GOTIFY,
    );
    push_if(&mut v, !settings.pushplus_token.as_str().is_empty(), CHANNEL_PUSHPLUS);
    push_if(&mut v, !settings.serverchan_key.as_str().is_empty(), CHANNEL_SERVERCHAN);
    push_if(&mut v, settings.browser_push_subscriptions.len() > 0, CHANNEL_BROWSER);
    push_if(&mut v, settings.webhook_enabled && settings.webhook_urls.len() > 0, CHANNEL_WEBHOOK);
    v
}

/// Whether the settings let an event be pushed.
pub open spec fn event_allowed(s: Settings, event: PushEvent) -> bool {
    match event {
        PushEvent::SubscriptionUpdated => s.push_on_update,
        PushEvent::SubscriptionFailed => s.push_on_failed,
        PushEvent::SubscriptionCompleted => s.push_on_completed,
        PushEvent::TransferSaved => s.push_on_save,
        PushEvent::DownloadCompleted => s.push_on_download_completed,
        PushEvent::QuarkSignin => s.push_on_quark_signin,
    }
}

/// Whether the settings let an event be pushed.
pub fn push_event_enabled(settings: &Settings, event: PushEvent) -> (r: bool)
    ensures
        r == event_allowed(*settings, event),
{
    match event {
        PushEvent::SubscriptionUpdated => settings.push_on_update,
        PushEvent::SubscriptionFailed => settings.push_on_failed,
        PushEvent::SubscriptionCompleted => settings.push_on_completed,
        PushEvent::TransferSaved => settings.push_on_save,
        PushEvent::DownloadCompleted => settings.push_on_download_completed,
        PushEvent::QuarkSignin => settings.push_on_quark_signin,
    }
}

// ---------------------------------------------------------------------------
// Retries
// ---------------------------------------------------------------------------

/// The whole length of a duration in nanoseconds, as `Duration::as_nanos`
/// reports it.
pub uninterp spec fn duration_nanos(d: Duration) -> int;

/// The longest duration, `Duration::MAX`, in nanoseconds.
pub const MAX_DURATION_NANOS: u128 = 18_446_744_073_709_551_615_999_999_999;

/// `Duration::as_nanos`: the length in nanoseconds, at most that of
/// `Duration::MAX`.
#[verifier::external_body]
fn nanos_of(d: Duration) -> (r: u128)
    ensures
        r == duration_nanos(d),
        r <= MAX_DURATION_NANOS,
{
    d.as_nanos()
}

/// `Duration::new(secs, nanos)`; with `nanos` below a second no carry happens.
#[verifier::external_body]
pub(crate) fn duration_new(secs: u64, nanos: u32) -> (r: Duration)
    requires
        nanos < 1_000_000_000,
    ensures
        duration_nanos(r) == secs * 1_000_000_000 + nanos,
{
    Duration::new(secs, nanos)
}

/// How often and how patiently a delivery is retried.
#[derive(Debug, Clone, Copy)]
pub struct PushRetryPolicy {
    pub max_attempts: usize,
    pub initial_delay: Duration,
    pub max_delay: Duration,
}

/// `2^n`.
pub open spec fn two_pow(n: nat) -> nat
    decreases n,
{
    if n == 0 {
        1
    } else {
        2 * two_pow((n - 1) as nat)
    }
}

/// `2_u32.saturating_pow(n)`.
pub open spec fn saturating_two_pow(n: nat) -> int {
    if two_pow(n) > u32::MAX {
        u32::MAX as int
    } else {
        two_pow(n) as int
    }
}

/// The delay before retry `retry_index` (counted from zero), in nanoseconds:
/// none without an initial delay, else the initial delay doubled per retry
/// (saturating) and capped by the maximum delay.
pub open spec fn retry_delay_nanos(initial: int, max: int, retry_index: nat) -> int {
    if initial == 0 {
        0
    } else {
        let grown = initial * saturating_two_pow(retry_index);
        let capped = if grown > MAX_DURATION_NANOS {
            MAX_DURATION_NANOS as int
        } else {
            grown
        };
        if capped <= max {
            capped
        } else {
            max
        }
    }
}

proof fn lemma_two_pow_positive(n: nat)
    ensures
        two_pow(n) >= 1,
    decreases n,
{
    if n > 0 {
        lemma_two_pow_positive((n - 1) as nat);
    }
}

/// `2_u32.saturating_pow(n)`.
fn saturating_pow2(n: u32) -> (r: u32)
    ensures
        r == saturating_two_pow(n as nat),
        r >= 1,
{
    let mut m: u32 = 1;
    let mut i: u32 = 0;
    while i < n
        invariant
            i <= n,
            m >= 1,
            m == saturating_two_pow(i as nat),
        decreases n - i,
    {
        assert(two_pow((i + 1) as nat) == 2 * two_pow(i as nat));
        proof {
            lemma_two_pow_positive(i as nat);
        }
        if m > u32::MAX / 2 {
            m = u32::MAX;
        } else {
            m = m * 2;
        }
        i = i + 1;
    }
    m
}

/// A duration of `n` nanoseconds, `n` at most that of `Duration::MAX`.
fn duration_from_nanos(n: u128) -> (r: Duration)
    requires
        n <= MAX_DURATION_NANOS,
    ensures
        duration_nanos(r) == n,
{
    let secs = n / 1_000_000_000;
    let nanos = n % 1_000_000_000;
    duration_new(secs as u64, nanos as u32)
}

impl PushRetryPolicy {
    /// One attempt, no delay.
    pub fn single_attempt() -> (r: Self)
        ensures
            r.max_attempts == 1,
            duration_nanos(r.initial_delay) == 0,
            duration_nanos(r.max_delay) == 0,
    {
        PushRetryPolicy {
            max_attempts: 1,
            initial_delay: duration_new(0, 0),
            max_delay: duration_new(0, 0),
        }
    }

    /// Three attempts, two seconds apart at first and at most ten.
    pub fn background_default() -> (r: Self)
        ensures
            r.max_attempts == 3,
            duration_nanos(r.initial_delay) == 2_000_000_000,
            duration_nanos(r.max_delay) == 10_000_000_000,
    {
        PushRetryPolicy {
            max_attempts: 3,
            initial_delay: duration_new(2, 0),
            max_delay: duration_new(10, 0),
        }
    }

    /// How many attempts are made: at least one.
    pub fn attempts(&self) -> (r: usize)
        ensures
            r == if self.max_attempts < 1 {
                1
            } else {
                self.max_attempts
            },
    {
        if self.max_attempts < 1 {
            1
        } else {
            self.max_attempts
        }
    }

    /// The delay before retry `retry_index` (counted from zero).
    pub fn delay_for_retry(&self, retry_index: u32) -> (r: Duration)
        ensures
            duration_nanos(r) == retry_delay_nanos(
                duration_nanos(self.initial_delay),
                duration_nanos(self.max_delay),
                retry_index as nat,
            ),
    {
        let initial = nanos_of(self.initial_delay);
        let max = nanos_of(self.max_delay);
        if initial == 0 {
            return duration_from_nanos(0);
        }
        let multiplier = saturating_pow2(retry_index) as u128;
        let grown: u128 = if initial > MAX_DURATION_NANOS / multiplier {
            MAX_DURATION_NANOS
        } else {
            assert(initial * multiplier <= MAX_DURATION_NANOS) by (nonlinear_arith)
                requires
                    initial <= MAX_DURATION_NANOS / multiplier,
                    multiplier >= 1,
            ;
            initial * multiplier
        };
        proof {
            if initial > MAX_DURATION_NANOS / multiplier {
                assert(initial * multiplier > MAX_DURATION_NANOS) by (nonlinear_arith)
                    requires
                        initial > MAX_DURATION_NANOS / multiplier,
                        multiplier >= 1,
                ;
            }
        }
        let delay = if grown <= max {
            grown
        } else {
            max
        };
        duration_from_nanos(delay)
    }

    /// The delay to wait after attempt `attempt_index` (counted from zero) has
    /// failed, or `None` when it was the last; the index is cut to `u32` as
    /// `as u32` does.
    pub fn next_retry_delay(&self, attempt_index: usize) -> (r: Option<Duration>)
        ensures
            match r {
                Some(d) => attempt_index + 1 < (if self.max_attempts < 1 {
                    1
                } else {
                    self.max_attempts as int
                }) && duration_nanos(d) == retry_delay_nanos(
                    duration_nanos(self.initial_delay),
                    duration_nanos(self.max_delay),
                    (attempt_index as u32) as nat,
                ),
                None => attempt_index + 1 >= (if self.max_attempts < 1 {
                    1
                } else {
                    self.max_attempts as int
                }),
            },
    {
        let attempts = self.attempts();
        if attempt_index < attempts - 1 {
            Some(self.delay_for_retry(#[verifier::truncate] (attempt_index as u32)))
        } else {
            None
        }
    }
}

// ---------------------------------------------------------------------------
// Error reports
// ---------------------------------------------------------------------------

pub const PAT_SECRET_PARAM: &'static str = r"(?i)(token|key|sendkey|access_token)=([^&\s]+)";
pub const PAT_BOT_TOKEN: &'static str = r"(?i)bot[0-9]+:[A-Za-z0-9_-]+";
pub const PAT_SERVERCHAN_KEY: &'static str = r"SCT[A-Za-z0-9]+";
pub const MASKED_PARAM: &'static str = "$1=***";
pub const MASKED_BOT: &'static str = "bot***";
pub const MASKED_SERVERCHAN: &'static str = "SCT***";
pub const ELLIPSIS: &'static str = "...";
pub const REFUSED_BY_CHANNEL: &'static str = "渠道返回失败状态";
pub const RETRIES_PREFIX: &'static str = "尝试 ";
pub const RETRIES_SUFFIX: &'static str = " 次后失败: ";

/// How many characters of an error are kept.
pub const MAX_ERROR_LEN: usize = 300;

/// An error with secrets masked (token-like query values, bot tokens,
/// ServerChan keys) and cut to 300 characters followed by `...`.
pub open spec fn sanitized_error(value: Seq<char>) -> Seq<char> {
    let a = replaced(PAT_SECRET_PARAM@, value, MASKED_PARAM@);
    let b = replaced(PAT_BOT_TOKEN@, a, MASKED_BOT@);
    let c = replaced(PAT_SERVERCHAN_KEY@, b, MASKED_SERVERCHAN@);
    if c.len() > MAX_ERROR_LEN {
        c.take(MAX_ERROR_LEN as int) + ELLIPSIS@
    } else {
        c
    }
}

/// Masks secrets in an error message and cuts it to 300 characters.
pub fn sanitize_push_error(value: &str) -> (r: String)
    ensures
        r@ == sanitized_error(value@),
{
    let a = regex_replace(PAT_SECRET_PARAM, value, MASKED_PARAM);
    let b = regex_replace(PAT_BOT_TOKEN, a.as_str(), MASKED_BOT);
    let c = regex_replace(PAT_SERVERCHAN_KEY, b.as_str(), MASKED_SERVERCHAN);
    let chars = chars_of(c.as_str());
    if chars.len() > MAX_ERROR_LEN {
        let mut kept: Vec<char> = Vec::new();
        let mut i: usize = 0;
        while i < MAX_ERROR_LEN
            invariant
                i <= MAX_ERROR_LEN,
                MAX_ERROR_LEN < chars@.len(),
                kept@ == chars@.take(i as int),
            decreases MAX_ERROR_LEN - i,
        {
            kept.push(chars[i]);
            assert(chars@.take(i + 1) =~= chars@.take(i as int).push(chars@[i as int]));
            i = i + 1;
        }
        let mut out = string_of(kept.as_slice());
        push_str(&mut out, ELLIPSIS);
        out
    } else {
        c
    }
}

/// The error reported for a channel after its last failed attempt: the last
/// error, prefixed by the number of attempts where there were several.
pub open spec fn delivery_error(attempts: int, last_error: Seq<char>) -> Seq<char> {
    if attempts > 1 {
        RETRIES_PREFIX@ + int_decimal(attempts) + RETRIES_SUFFIX@ + last_error
    } else {
        last_error
    }
}

/// The error reported for a channel after its last failed attempt.
pub fn delivery_error_message(attempts: usize, last_error: &str) -> (r: String)
    ensures
        r@ == delivery_error(attempts as int, last_error@),
{
    if attempts > 1 {
        let mut s = owned(RETRIES_PREFIX);
        push_count(&mut s, attempts);
        push_str(&mut s, RETRIES_SUFFIX);
        push_str(&mut s, last_error);
        s
    } else {
        owned(last_error)
    }
}

// ---------------------------------------------------------------------------
// Delivery reports
// ---------------------------------------------------------------------------

/// The channel names of keyed entries.
pub open spec fn entry_keys<V>(v: Seq<(String, V)>) -> Seq<Seq<char>> {
    v.map_values(|e: (String, V)| e.0@)
}

/// Keyed entries read as a map; a later entry for a key wins.
pub open spec fn entry_map<V>(v: Seq<(String, V)>) -> Map<Seq<char>, V>
    decreases v.len(),
{
    if v.len() == 0 {
        Map::empty()
    } else {
        entry_map(v.drop_last()).insert(v.last().0@, v.last().1)
    }
}

proof fn lemma_entry_map_update<V>(v: Seq<(String, V)>, i: int, e: (String, V))
    requires
        entry_keys(v).no_duplicates(),
        0 <= i < v.len(),
        e.0@ == v[i].0@,
    ensures
        entry_map(v.update(i, e)) == entry_map(v).insert(e.0@, e.1),
    decreases v.len(),
{
    let w = v.update(i, e);
    if i == v.len() - 1 {
        assert(w.drop_last() =~= v.drop_last());
        assert(entry_map(w) =~= entry_map(v).insert(e.0@, e.1));
    } else {
        let d = v.drop_last();
        assert(w.drop_last() =~= d.update(i, e));
        assert(entry_keys(d).no_duplicates()) by {
            assert forall|a: int, b: int| 0 <= a < b < entry_keys(d).len() implies entry_keys(d)[a]
                != entry_keys(d)[b] by {
                assert(entry_keys(d)[a] == entry_keys(v)[a]);
                assert(entry_keys(d)[b] == entry_keys(v)[b]);
            }
        }
        lemma_entry_map_update(d, i, e);
        assert(entry_keys(v)[i] != entry_keys(v)[v.len() - 1]);
        assert(w.last() == v.last());
        assert(entry_map(w) =~= entry_map(v).insert(e.0@, e.1));
    }
}

/// Sets the entry for `key`, in place where there is one, else at the end.
fn put_entry<V>(v: &mut Vec<(String, V)>, key: &str, value: V)
    requires
        entry_keys(old(v)@).no_duplicates(),
    ensures
        entry_keys(final(v)@).no_duplicates(),
        entry_map(final(v)@) == entry_map(old(v)@).insert(key@, value),
{
    let mut i: usize = 0;
    while i < v.len()
        invariant
            i <= v.len(),
            v@ == old(v)@,
            entry_keys(v@).no_duplicates(),
            forall|j: int| 0 <= j < i ==> (#[trigger] v@[j]).0@ != key@,
        decreases v.len() - i,
    {
        if str_eq(v[i].0.as_str(), key) {
            let ghost before = v@;
            let e = (owned(key), value);
            proof {
                lemma_entry_map_update(before, i as int, e);
            }
            v.set(i, e);
            proof {
                assert(v@ == before.update(i as int, e));
                assert(entry_keys(v@) =~= entry_keys(before));
            }
            return;
        }
        i += 1;
    }
    let ghost before = v@;
    let e = (owned(key), value);
    v.push(e);
    proof {
        assert(v@.drop_last() =~= before);
        assert(entry_keys(v@) =~= entry_keys(before).push(key@));
        assert(!entry_keys(before).contains(key@)) by {
            if entry_keys(before).contains(key@) {
                let j = choose|j: int| 0 <= j < entry_keys(before).len() && entry_keys(before)[j] == key@;
                assert(before[j].0@ == key@);
            }
        }
        assert forall|a: int, b: int| 0 <= a < b < entry_keys(v@).len() implies entry_keys(v@)[a]
            != entry_keys(v@)[b] by {
            if b == entry_keys(v@).len() - 1 {
                assert(entry_keys(v@)[a] == entry_keys(before)[a]);
            } else {
                assert(entry_keys(v@)[a] == entry_keys(before)[a]);
                assert(entry_keys(v@)[b] == entry_keys(before)[b]);
            }
        }
    }
}

/// How many entries hold `true`.
pub open spec fn count_true(v: Seq<(String, bool)>) -> nat
    decreases v.len(),
{
    if v.len() == 0 {
        0
    } else {
        count_true(v.drop_last()) + if v.last().1 {
            1nat
        } else {
            0nat
        }
    }
}

pub const MSG_CHANNEL_UNAVAILABLE: &'static str = "渠道未配置或未启用";
pub const LEVEL_OF_PARTIAL_FAILURE: &'static str = "warning";

/// What a push did on each channel: whether it was delivered, the error
/// where it was not, and how many attempts were made; each channel is
/// listed at most once in each list.
#[derive(Debug, Clone, Default)]
pub struct PushDeliveryReport {
    pub results: Vec<(String, bool)>,
    pub errors: Vec<(String, String)>,
    pub attempts: Vec<(String, usize)>,
}

impl PushDeliveryReport {
    /// Each channel is listed at most once in each list.
    pub open spec fn wf(&self) -> bool {
        &&& entry_keys(self.results@).no_duplicates()
        &&& entry_keys(self.errors@).no_duplicates()
        &&& entry_keys(self.attempts@).no_duplicates()
    }

    /// An empty report.
    pub fn new() -> (r: Self)
        ensures
            r.wf(),
            entry_map(r.results@) == Map::<Seq<char>, bool>::empty(),
            entry_map(r.errors@) == Map::<Seq<char>, String>::empty(),
            entry_map(r.attempts@) == Map::<Seq<char>, usize>::empty(),
    {
        let r = PushDeliveryReport { results: Vec::new(), errors: Vec::new(), attempts: Vec::new() };
        assert(entry_keys(r.results@) =~= seq![]);
        assert(entry_keys(r.errors@) =~= seq![]);
        assert(entry_keys(r.attempts@) =~= seq![]);
        r
    }

    /// Records a channel that is unknown or not configured: not delivered,
    /// with no attempt.
    pub fn record_unavailable(&mut self, channel: &str)
        requires
            old(self).wf(),
        ensures
            final(self).wf(),
            entry_map(final(self).results@) == entry_map(old(self).results@).insert(channel@, false),
            entry_map(final(self).attempts@) == entry_map(old(self).attempts@).insert(channel@, 0usize),
            entry_map(final(self).errors@).dom() == entry_map(old(self).errors@).dom().insert(channel@),
            entry_map(final(self).errors@)[channel@]@ == MSG_CHANNEL_UNAVAILABLE@,
            forall|k: Seq<char>|
                k != channel@ && #[trigger] entry_map(old(self).errors@).dom().contains(k)
                    ==> entry_map(final(self).errors@)[k] == entry_map(old(self).errors@)[k],
    {
        put_entry(&mut self.results, channel, false);
        put_entry(&mut self.errors, channel, owned(MSG_CHANNEL_UNAVAILABLE));
        put_entry(&mut self.attempts, channel, 0);
    }

    /// Records the outcome of the attempts on a channel; a failure keeps the
    /// last error, prefixed by the number of attempts where there were
    /// several.
    pub fn record_delivery(&mut self, channel: &str, success: bool, attempts: usize, last_error: &str)
        requires
            old(self).wf(),
        ensures
            final(self).wf(),
            entry_map(final(self).results@) == entry_map(old(self).results@).insert(channel@, success),
            entry_map(final(self).attempts@) == entry_map(old(self).attempts@).insert(channel@, attempts),
            success ==> final(self).errors == old(self).errors,
            !success ==> entry_map(final(self).errors@).dom() == entry_map(old(self).errors@).dom().insert(
                channel@,
            ),
            !success ==> entry_map(final(self).errors@)[channel@]@ == delivery_error(attempts as int, last_error@),
            !success ==> forall|k: Seq<char>|
                k != channel@ && #[trigger] entry_map(old(self).errors@).dom().contains(k)
                    ==> entry_map(final(self).errors@)[k] == entry_map(old(self).errors@)[k],
    {
        put_entry(&mut self.results, channel, success);
        put_entry(&mut self.attempts, channel, attempts);
        if !success {
            let error = delivery_error_message(attempts, last_error);
            put_entry(&mut self.errors, channel, error);
        }
    }

    /// How many channels received the push.
    pub fn success_count(&self) -> (r: usize)
        ensures
            r == count_true(self.results@),
    {
        let mut n: usize = 0;
        let mut i: usize = 0;
        while i < self.results.len()
            invariant
                i <= self.results.len(),
                n == count_true(self.results@.take(i as int)),
                n <= i,
            decreases self.results.len() - i,
        {
            assert(self.results@.take(i + 1).drop_last() =~= self.results@.take(i as int));
            if self.results[i].1 {
                n += 1;
            }
            i += 1;
        }
        assert(self.results@.take(self.results.len() as int) =~= self.results@);
        n
    }

    /// How many channels did not receive the push.
    pub fn failed_count(&self) -> (r: usize)
        ensures
            r == self.results@.len() - count_true(self.results@),
    {
        proof {
            lemma_count_true_bounded(self.results@);
        }
        self.results.len() - self.success_count()
    }

    /// The level a push record is kept at: a warning where any channel
    /// failed, else the push's own level.
    pub fn record_level(&self, level: PushLevel) -> (r: &'static str)
        ensures
            count_true(self.results@) < self.results@.len() ==> r@ == LEVEL_OF_PARTIAL_FAILURE@,
            count_true(self.results@) >= self.results@.len() ==> r@ == level_name(level),
    {
        if self.failed_count() > 0 {
            LEVEL_OF_PARTIAL_FAILURE
        } else {
            level.as_str()
        }
    }
}

proof fn lemma_count_true_bounded(v: Seq<(String, bool)>)
    ensures
        count_true(v) <= v.len(),
    decreases v.len(),
{
    if v.len() > 0 {
        lemma_count_true_bounded(v.drop_last());
    }
}

/// A push record merged into its notification raises it to a warning, and
/// marks it unread, where a channel failed and it is not an error already.
pub fn merge_push_level(notification: &mut Notification, record_level: &str)
    ensures
        ({
            let raised = old(notification).level@ != LEVEL_ERROR@ && record_level@ == LEVEL_OF_PARTIAL_FAILURE@;
            &&& raised ==> final(notification).level@ == LEVEL_OF_PARTIAL_FAILURE@
            &&& raised ==> !final(notification).read
            &&& !raised ==> *final(notification) == *old(notification)
        }),
        final(notification).id == old(notification).id,
        final(notification).meta == old(notification).meta,
        final(notification).title == old(notification).title,
        final(notification).message == old(notification).message,
        final(notification).event == old(notification).event,
        final(notification).created_at == old(notification).created_at,
{
    if !str_eq(notification.level.as_str(), LEVEL_ERROR) && str_eq(record_level, LEVEL_OF_PARTIAL_FAILURE) {
        notification.level = owned(LEVEL_OF_PARTIAL_FAILURE);
        notification.read = false;
    }
}

} // verus!
