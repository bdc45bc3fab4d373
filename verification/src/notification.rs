//! Routing push messages: duplicates, digests, the job queue, and the text
//! of a digest.
use vstd::prelude::*;
use crate::model::Settings;
use crate::push::{
    enabled_channel_names, enabled_push_channels, event_allowed, push_event_enabled, PushEvent,
    PushLevel,
};
use crate::text::{int_decimal, join_strings, joined, owned, push_count, push_str, str_eq, views};

verus! {

/// A push to send for a business event, possibly tied to a stored
/// notification and a subscription.
#[derive(Debug, Clone)]
pub struct PushDispatchRequest {
    pub notification_id: Option<String>,
    pub subscription_id: Option<String>,
    pub event: PushEvent,
    pub title: String,
    pub message: String,
    pub level: PushLevel,
}

/// Where a push goes.
#[derive(Debug, Clone, Copy, PartialEq, Eq)]
pub enum DispatchRoute {
    /// The same push went out within the duplicate window.
    SkipDuplicate,
    /// Its notification waits for the next digest, flushed after so many
    /// minutes.
    Digest { delay_minutes: u64 },
    /// The event is off or no channel is configured.
    SkipDisabled,
    /// Hand it to the job queue.
    Queue,
    /// Send it directly in the background.
    Direct,
}

/// A digest window kept within a minute and a day.
pub open spec fn digest_delay(minutes: i64) -> u64 {
    if minutes < 1 {
        1
    } else if minutes > 1440 {
        1440
    } else {
        minutes as u64
    }
}

/// Where a push goes: a recent duplicate is dropped (where the window is
/// on); with digests on, a push tied to a notification waits for the
/// digest; with a job queue, a push for an event that is off or without
/// channels is dropped and any other is queued; else it is sent directly.
pub open spec fn route_of(settings: Settings, request: PushDispatchRequest, recent_duplicate: bool, has_queue: bool) -> DispatchRoute {
    if settings.push_dedup_window_seconds > 0 && recent_duplicate {
        DispatchRoute::SkipDuplicate
    } else if settings.push_digest_enabled && request.notification_id is Some {
        DispatchRoute::Digest { delay_minutes: digest_delay(settings.push_digest_window_minutes) }
    } else if has_queue {
        if !event_allowed(settings, request.event) || enabled_channel_names(settings).len() == 0 {
            DispatchRoute::SkipDisabled
        } else {
            DispatchRoute::Queue
        }
    } else {
        DispatchRoute::Direct
    }
}

/// Where a push goes (see [`route_of`]).
pub fn dispatch_route(settings: &Settings, request: &PushDispatchRequest, recent_duplicate: bool, has_queue: bool) -> (r: DispatchRoute)
    ensures
        r == route_of(*settings, *request, recent_duplicate, has_queue),
{
    if settings.push_dedup_window_seconds > 0 && recent_duplicate {
        return DispatchRoute::SkipDuplicate;
    }
    if settings.push_digest_enabled && request.notification_id.is_some() {
        let m = settings.push_digest_window_minutes;
        let delay: u64 = if m < 1 {
            1
        } else if m > 1440 {
            1440
        } else {
            m as u64
        };
        return DispatchRoute::Digest { delay_minutes: delay };
    }
    if has_queue {
        let channels = enabled_push_channels(settings);
        if !push_event_enabled(settings, request.event) || channels.len() == 0 {
            return DispatchRoute::SkipDisabled;
        }
        return DispatchRoute::Queue;
    }
    DispatchRoute::Direct
}

pub const DIGEST_TITLE_PREFIX: &'static str = "通知摘要（";
pub const DIGEST_TITLE_SUFFIX: &'static str = " 条）";
pub const DIGEST_LINE_OPEN: &'static str = "• [";
pub const DIGEST_LINE_CLOSE: &'static str = "] ";
pub const DIGEST_JOIN: &'static str = "\n";
pub const DIGEST_MAX_LINES: usize = 20;
pub const LEVEL_ERROR_NAME: &'static str = "error";

/// One line of a digest.
pub open spec fn digest_line(item: (String, String)) -> Seq<char> {
    DIGEST_LINE_OPEN@ + item.0@ + DIGEST_LINE_CLOSE@ + item.1@
}

/// The lines of the first twenty notifications.
pub open spec fn digest_lines(items: Seq<(String, String)>) -> Seq<Seq<char>> {
    let shown = if items.len() > DIGEST_MAX_LINES {
        items.take(DIGEST_MAX_LINES as int)
    } else {
        items
    };
    shown.map_values(|i: (String, String)| digest_line(i))
}

/// The digest of pending notifications (level, title): its title counts them
/// all, its message lists the first twenty, and it is an error where any of
/// them is one.
pub fn digest_notice(items: &Vec<(String, String)>) -> (r: (String, String, PushLevel))
    ensures
        r.0@ == DIGEST_TITLE_PREFIX@ + int_decimal(items@.len() as int) + DIGEST_TITLE_SUFFIX@,
        r.1@ == joined(digest_lines(items@), DIGEST_JOIN@),
        r.2 == if exists|k: int| 0 <= k < items@.len() && (#[trigger] items@[k]).0@ == LEVEL_ERROR_NAME@ {
            PushLevel::Error
        } else {
            PushLevel::Info
        },
{
    let mut lines: Vec<String> = Vec::new();
    let mut any_error = false;
    let mut i: usize = 0;
    while i < items.len()
        invariant
            i <= items.len(),
            any_error == exists|k: int| 0 <= k < i && (#[trigger] items@[k]).0@ == LEVEL_ERROR_NAME@,
            lines@.len() == (if i <= DIGEST_MAX_LINES { i } else { DIGEST_MAX_LINES }),
            forall|k: int| 0 <= k < lines@.len() ==> (#[trigger] lines@[k])@ == digest_line(items@[k]),
        decreases items.len() - i,
    {
        let (level, title) = (&items[i].0, &items[i].1);
        if str_eq(level.as_str(), LEVEL_ERROR_NAME) {
            any_error = true;
        }
        if i < DIGEST_MAX_LINES {
            let mut line = owned(DIGEST_LINE_OPEN);
            push_str(&mut line, level.as_str());
            push_str(&mut line, DIGEST_LINE_CLOSE);
            push_str(&mut line, title.as_str());
            assert(line@ == digest_line(items@[i as int]));
            lines.push(line);
        }
        i += 1;
    }
    assert(views(lines@) =~= digest_lines(items@)) by {
        if items@.len() <= DIGEST_MAX_LINES {
            assert(lines@.len() == items@.len());
        }
    }
    let mut title = owned(DIGEST_TITLE_PREFIX);
    push_count(&mut title, items.len());
    push_str(&mut title, DIGEST_TITLE_SUFFIX);
    let message = join_strings(lines.as_slice(), DIGEST_JOIN);
    (title, message, if any_error {
        PushLevel::Error
    } else {
        PushLevel::Info
    })
}

/// A digest lists one line per pending notification, at most twenty, in
/// their order.
pub proof fn digest_lists_at_most_twenty(items: Seq<(String, String)>)
    ensures
        digest_lines(items).len() == if items.len() > DIGEST_MAX_LINES {
            DIGEST_MAX_LINES as int
        } else {
            items.len() as int
        },
        forall|k: int| 0 <= k < digest_lines(items).len() ==> #[trigger] digest_lines(items)[k] == digest_line(items[k]),
{
}

} // verus!
