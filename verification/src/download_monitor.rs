use vstd::prelude::*;
use std::collections::VecDeque;
use vstd::hash_set::StringHashSet;
use crate::model::{
    copy_strings, BatchFileMeta, DownloadRef, Notification, NotificationMeta, Subscription, SyncDownloadRecord,
};
use crate::progress::{
    complete_by_names, completion_target_episode, should_mark_completed_from_file_names, target_of,
};
use crate::push::EVENT_DOWNLOAD_COMPLETED;
use crate::quark_signin::{bytes_text, format_byte_count};
use crate::text::{
    ascii_lower_seq, ascii_lowercase, chars_eq, chars_of, int_decimal, join_strings, joined,
    occurs_at, occurs_at_exec, owned, push_chars, push_count, push_decimal, push_nat_decimal_pub,
    push_str,
    sorted_distinct, sorted_unique, str_eq, strings_contain, string_of, trim_seq, trim_str, views,
};

verus! {

// ---------------------------------------------------------------------------
// Keys of downloads already handled
// ---------------------------------------------------------------------------

/// How many keys the cache of handled downloads keeps (two per download).
pub const MAX_TRACKED_DEDUPE_KEYS: usize = 2000;

/// `keys` with `key` appended, and the oldest dropped beyond the cap.
pub open spec fn appended_capped(keys: Seq<Seq<char>>, key: Seq<char>) -> Seq<Seq<char>> {
    let t = keys.push(key);
    if t.len() > MAX_TRACKED_DEDUPE_KEYS {
        t.skip(t.len() - MAX_TRACKED_DEDUPE_KEYS)
    } else {
        t
    }
}

/// The keys of downloads already handled, oldest first, each at most once,
/// with the set of the same keys for lookups.
pub struct DedupeKeyCache {
    pub order: VecDeque<String>,
    pub members: StringHashSet,
}

impl DedupeKeyCache {
    /// The keys, oldest first.
    pub open spec fn keys(&self) -> Seq<Seq<char>> {
        views(self.order@)
    }

    /// Every key once, no more than the cap, and the set holds exactly the
    /// keys of the queue.
    pub open spec fn wf(&self) -> bool {
        &&& self.order@.len() <= MAX_TRACKED_DEDUPE_KEYS
        &&& self.keys().no_duplicates()
        &&& self.members@ == self.keys().to_set()
    }

    /// An empty cache.
    pub fn new() -> (r: Self)
        ensures
            r.wf(),
            r.keys().len() == 0,
    {
        let r = DedupeKeyCache { order: VecDeque::new(), members: StringHashSet::new() };
        assert(r.keys().to_set() =~= Set::<Seq<char>>::empty());
        r
    }

    /// Whether `key` is held.
    pub fn contains(&self, key: &str) -> (r: bool)
        requires
            self.wf(),
        ensures
            r == self.keys().contains(key@),
    {
        self.members.contains(key)
    }

    /// Adds `key` unless it is held; beyond the cap the oldest key goes.
    pub fn insert(&mut self, key: String)
        requires
            old(self).wf(),
        ensures
            final(self).wf(),
            old(self).keys().contains(key@) ==> final(self).keys() == old(self).keys(),
            !old(self).keys().contains(key@) ==> final(self).keys() == appended_capped(
                old(self).keys(),
                key@,
            ),
    {
        if !self.members.insert(key.clone()) {
            assert(self.members@ =~= old(self).members@);
            return;
        }
        let ghost before = self.keys();
        self.order.push_back(key);
        assert(self.keys() =~= before.push(key@));
        assert(self.keys().no_duplicates()) by {
            assert forall|a: int, b: int|
                0 <= a < self.keys().len() && 0 <= b < self.keys().len() && a != b implies
                self.keys()[a] != self.keys()[b] by {
                if a < before.len() && b < before.len() {
                } else if a == before.len() {
                    assert(before.contains(before[b]));
                } else {
                    assert(before.contains(before[a]));
                }
            }
        }
        assert(self.members@ =~= self.keys().to_set()) by {
            assert forall|x: Seq<char>| self.members@.contains(x) <==> self.keys().to_set().contains(x) by {
                if self.keys().contains(x) && x != key@ {
                    let t = choose|t: int| 0 <= t < self.keys().len() && self.keys()[t] == x;
                    assert(before[t] == x);
                }
                if before.contains(x) {
                    let t = choose|t: int| 0 <= t < before.len() && before[t] == x;
                    assert(self.keys()[t] == x);
                }
                assert(self.keys()[before.len() as int] == key@);
            }
        }
        if self.order.len() > MAX_TRACKED_DEDUPE_KEYS {
            let ghost pushed = self.keys();
            match self.order.pop_front() {
                Some(oldest) => {
                    self.members.remove(oldest.as_str());
                    assert(self.keys() =~= pushed.skip(1));
                    assert(self.members@ =~= self.keys().to_set()) by {
                        assert forall|x: Seq<char>|
                            self.members@.contains(x) <==> self.keys().to_set().contains(x) by {
                            if pushed.contains(x) && x != oldest@ {
                                let t = choose|t: int| 0 <= t < pushed.len() && pushed[t] == x;
                                assert(t != 0);
                                assert(self.keys()[t - 1] == x);
                            }
                            if self.keys().contains(x) {
                                let t = choose|t: int| 0 <= t < self.keys().len() && self.keys()[t] == x;
                                assert(pushed[t + 1] == x);
                                assert(pushed[0] == oldest@);
                            }
                        }
                    }
                },
                None => {},
            }
        }
    }

    /// Drops `key` if it is held, keeping the order of the others.
    pub fn remove(&mut self, key: &str)
        requires
            old(self).wf(),
        ensures
            final(self).wf(),
            !old(self).keys().contains(key@) ==> final(self).keys() == old(self).keys(),
            old(self).keys().contains(key@) ==> exists|i: int|
                0 <= i < old(self).keys().len() && old(self).keys()[i] == key@
                    && final(self).keys() == old(self).keys().remove(i),
    {
        if !self.members.remove(key) {
            assert(self.members@ =~= old(self).members@);
            return;
        }
        let ghost start = old(self).keys();
        let mut i: usize = 0;
        while i < self.order.len()
            invariant
                i <= self.order.len(),
                self.keys() == start,
                start == old(self).keys(),
                start.no_duplicates(),
                start.contains(key@),
                self.order@.len() <= MAX_TRACKED_DEDUPE_KEYS,
                self.members@ == start.to_set().remove(key@),
                forall|j: int| 0 <= j < i ==> self.keys()[j] != key@,
            decreases self.order.len() - i,
        {
            if str_eq(self.order[i].as_str(), key) {
                let _removed = self.order.remove(i);
                assert(self.keys() =~= start.remove(i as int));
                assert(start[i as int] == key@);
                assert(self.keys().no_duplicates()) by {
                    let k = self.keys();
                    assert forall|a: int, b: int|
                        0 <= a < k.len() && 0 <= b < k.len() && a != b implies k[a] != k[b] by {
                        let a2 = if a < i { a } else { a + 1 };
                        let b2 = if b < i { b } else { b + 1 };
                        assert(k[a] == start[a2]);
                        assert(k[b] == start[b2]);
                    }
                }
                assert(self.members@ =~= self.keys().to_set()) by {
                    let k = self.keys();
                    assert forall|x: Seq<char>| self.members@.contains(x) <==> k.to_set().contains(x) by {
                        if start.contains(x) && x != key@ {
                            let t = choose|t: int| 0 <= t < start.len() && start[t] == x;
                            assert(t != i);
                            if t < i {
                                assert(k[t] == x);
                            } else {
                                assert(k[t - 1] == x);
                            }
                        }
                        if k.contains(x) {
                            let t = choose|t: int| 0 <= t < k.len() && k[t] == x;
                            let t2 = if t < i { t } else { t + 1 };
                            assert(start[t2] == x);
                            assert(t2 != i);
                        }
                    }
                }
                return;
            }
            i += 1;
        }
        assert(false);
    }

    /// The keys held.
    pub fn snapshot(&self) -> (r: Vec<String>)
        ensures
            views(r@) == self.keys(),
    {
        let mut out: Vec<String> = Vec::new();
        let mut i: usize = 0;
        while i < self.order.len()
            invariant
                i <= self.order.len(),
                views(out@) == self.keys().take(i as int),
            decreases self.order.len() - i,
        {
            let ghost before = views(out@);
            out.push(self.order[i].clone());
            assert(views(out@) =~= before.push(self.order@[i as int]@));
            assert(self.keys().take(i + 1) =~= self.keys().take(i as int).push(self.order@[i as int]@));
            i += 1;
        }
        assert(self.keys().take(self.order.len() as int) =~= self.keys());
        out
    }
}

impl Default for DedupeKeyCache {
    fn default() -> (r: Self)
        ensures
            r.wf(),
            r.keys().len() == 0,
    {
        DedupeKeyCache::new()
    }
}

// ---------------------------------------------------------------------------
// Downloader tasks and their messages
// ---------------------------------------------------------------------------

/// What the monitor reads of a finished downloader task.
#[derive(Debug, Clone, PartialEq, Eq)]
pub struct Aria2Task {
    pub gid: String,
    pub status: String,
    pub file_name: String,
    pub total_length: u64,
    pub completed_length: u64,
    pub dir: String,
    pub error_code: String,
    pub error_message: String,
}

pub const STATUS_COMPLETE: &'static str = "complete";
pub const STATUS_ERROR: &'static str = "error";
pub const EVENT_DOWNLOAD_FAILED: &'static str = "download_failed";
pub const EVENT_SUBSCRIPTION_TRANSFERRED: &'static str = "subscription_transferred";
pub const TITLE_COMPLETED: &'static str = "下载完成: ";
pub const TITLE_FAILED: &'static str = "下载失败: ";
pub const LABEL_FILE: &'static str = "文件：";
pub const LABEL_DIR: &'static str = "目录：";
pub const LABEL_SIZE: &'static str = "大小：";
pub const LABEL_ERROR: &'static str = "错误：";
pub const ERROR_CODE_PREFIX: &'static str = "错误码 ";
pub const ERROR_FALLBACK: &'static str = "Aria2 任务失败";
pub const NEWLINE: &'static str = "\n";
pub const KEY_GID: &'static str = "gid:";
pub const KEY_FAILED_GID: &'static str = "failed:gid:";
pub const KEY_FILE: &'static str = "file:";
pub const KEY_FAILED_FILE: &'static str = "failed:file:";

/// The name a task is shown by: its trimmed file name, or its gid.
pub open spec fn shown_name(t: Aria2Task) -> Seq<char> {
    if trim_seq(t.file_name@).len() == 0 {
        t.gid@
    } else {
        trim_seq(t.file_name@)
    }
}

/// The directory line of a task's message, where it has a directory.
pub open spec fn dir_line(t: Aria2Task) -> Seq<char> {
    if trim_seq(t.dir@).len() == 0 {
        Seq::empty()
    } else {
        NEWLINE@ + LABEL_DIR@ + trim_seq(t.dir@)
    }
}

/// The title of a finished download's notification.
pub open spec fn completed_title(t: Aria2Task) -> Seq<char> {
    TITLE_COMPLETED@ + shown_name(t)
}

/// The message of a finished download's notification: file, directory and
/// size, the last two where known.
pub open spec fn completed_message(t: Aria2Task) -> Seq<char> {
    LABEL_FILE@ + shown_name(t) + dir_line(t) + if t.total_length > 0 {
        NEWLINE@ + LABEL_SIZE@ + bytes_text(t.total_length as int)
    } else {
        Seq::empty()
    }
}

/// The error a failed download is reported with.
pub open spec fn error_text(t: Aria2Task) -> Seq<char> {
    if trim_seq(t.error_message@).len() > 0 {
        trim_seq(t.error_message@)
    } else if trim_seq(t.error_code@).len() > 0 {
        ERROR_CODE_PREFIX@ + trim_seq(t.error_code@)
    } else {
        ERROR_FALLBACK@
    }
}

/// The title of a failed download's notification.
pub open spec fn failed_title(t: Aria2Task) -> Seq<char> {
    TITLE_FAILED@ + shown_name(t)
}

/// The message of a failed download's notification.
pub open spec fn failed_message(t: Aria2Task) -> Seq<char> {
    LABEL_FILE@ + shown_name(t) + dir_line(t) + NEWLINE@ + LABEL_ERROR@ + error_text(t)
}

/// Whether the task failed.
pub open spec fn task_failed(t: Aria2Task) -> bool {
    t.status@ == STATUS_ERROR@
}

/// The key of a task by file, directory and size.
pub open spec fn file_key(t: Aria2Task) -> Seq<char> {
    (if task_failed(t) {
        KEY_FAILED_FILE@
    } else {
        KEY_FILE@
    }) + trim_seq(t.file_name@) + NEWLINE@ + trim_seq(t.dir@) + NEWLINE@ + int_decimal(
        t.total_length as int,
    )
}

/// The keys a task is remembered by: its gid where it has one, then its file.
pub open spec fn dedupe_keys(t: Aria2Task) -> Seq<Seq<char>> {
    let g = trim_seq(t.gid@);
    if g.len() > 0 {
        seq![
            (if task_failed(t) {
                KEY_FAILED_GID@
            } else {
                KEY_GID@
            }) + g,
            file_key(t),
        ]
    } else {
        seq![file_key(t)]
    }
}

fn shown_name_of(task: &Aria2Task) -> (r: Vec<char>)
    ensures
        r@ == shown_name(*task),
{
    let name = trim_str(task.file_name.as_str());
    if name.len() == 0 {
        chars_of(task.gid.as_str())
    } else {
        name
    }
}

fn push_dir_line(s: &mut String, task: &Aria2Task)
    ensures
        final(s)@ == old(s)@ + dir_line(*task),
{
    let dir = trim_str(task.dir.as_str());
    if dir.len() > 0 {
        push_str(s, NEWLINE);
        push_str(s, LABEL_DIR);
        push_chars(s, dir.as_slice());
        assert(final(s)@ =~= old(s)@ + dir_line(*task));
    } else {
        assert(final(s)@ =~= old(s)@ + dir_line(*task));
    }
}

/// The title and message of a finished download's notification.
pub fn download_completed_title_message(task: &Aria2Task) -> (r: (String, String))
    ensures
        r.0@ == completed_title(*task),
        r.1@ == completed_message(*task),
{
    let name = shown_name_of(task);
    let mut title = owned(TITLE_COMPLETED);
    push_chars(&mut title, name.as_slice());
    let mut message = owned(LABEL_FILE);
    push_chars(&mut message, name.as_slice());
    push_dir_line(&mut message, task);
    let ghost head = message@;
    if task.total_length > 0 {
        push_str(&mut message, NEWLINE);
        push_str(&mut message, LABEL_SIZE);
        let size = format_byte_count(task.total_length);
        push_str(&mut message, size.as_str());
        assert(message@ =~= head + (NEWLINE@ + LABEL_SIZE@ + bytes_text(task.total_length as int)));
    } else {
        assert(message@ =~= head + Seq::<char>::empty());
    }
    (title, message)
}

/// The title and message of a failed download's notification.
pub fn download_failed_title_message(task: &Aria2Task) -> (r: (String, String))
    ensures
        r.0@ == failed_title(*task),
        r.1@ == failed_message(*task),
{
    let name = shown_name_of(task);
    let mut title = owned(TITLE_FAILED);
    push_chars(&mut title, name.as_slice());
    let mut message = owned(LABEL_FILE);
    push_chars(&mut message, name.as_slice());
    push_dir_line(&mut message, task);
    push_str(&mut message, NEWLINE);
    push_str(&mut message, LABEL_ERROR);
    let ghost head = message@;
    let error_message = trim_str(task.error_message.as_str());
    if error_message.len() > 0 {
        push_chars(&mut message, error_message.as_slice());
    } else {
        let code = trim_str(task.error_code.as_str());
        if code.len() > 0 {
            push_str(&mut message, ERROR_CODE_PREFIX);
            push_chars(&mut message, code.as_slice());
        } else {
            push_str(&mut message, ERROR_FALLBACK);
        }
    }
    assert(message@ =~= head + error_text(*task));
    (title, message)
}

/// The keys a task is remembered by once handled.
pub fn download_dedupe_keys(task: &Aria2Task) -> (r: Vec<String>)
    ensures
        views(r@) == dedupe_keys(*task),
{
    let failed = str_eq(task.status.as_str(), STATUS_ERROR);
    let mut keys: Vec<String> = Vec::new();
    let gid = trim_str(task.gid.as_str());
    if gid.len() > 0 {
        let mut k = owned(if failed {
            KEY_FAILED_GID
        } else {
            KEY_GID
        });
        push_chars(&mut k, gid.as_slice());
        keys.push(k);
    }
    let mut fk = owned(if failed {
        KEY_FAILED_FILE
    } else {
        KEY_FILE
    });
    let name = trim_str(task.file_name.as_str());
    push_chars(&mut fk, name.as_slice());
    push_str(&mut fk, NEWLINE);
    let dir = trim_str(task.dir.as_str());
    push_chars(&mut fk, dir.as_slice());
    push_str(&mut fk, NEWLINE);
    let mut digits: Vec<char> = Vec::new();
    push_nat_decimal_pub(task.total_length, &mut digits);
    push_chars(&mut fk, digits.as_slice());
    assert(fk@ == file_key(*task));
    let ghost before = views(keys@);
    keys.push(fk);
    assert(views(keys@) =~= before.push(file_key(*task)));
    assert(views(keys@) =~= dedupe_keys(*task));
    keys
}

// ---------------------------------------------------------------------------
// What the history already records
// ---------------------------------------------------------------------------

/// The attribute is the text `t`.
pub open spec fn text_is(o: Option<String>, t: Seq<char>) -> bool {
    o matches Some(x) && x@ == t
}

/// The list of ids holds the text `t`.
pub open spec fn gids_include(g: Option<Vec<Option<String>>>, t: Seq<char>) -> bool {
    g matches Some(v) && exists|k: int| 0 <= k < v@.len() && text_is(#[trigger] v@[k], t)
}

/// Some pushed message has this title and message.
pub open spec fn pushed_has(pushed: Seq<(String, String)>, title: Seq<char>, message: Seq<char>) -> bool {
    exists|k: int| 0 <= k < pushed.len() && (#[trigger] pushed[k]).0@ == title && pushed[k].1@ == message
}

/// A notification records this finished download: by gid, by a merged list
/// of gids, by its title and message, or by file, directory and size.
pub open spec fn completed_match(n: Notification, t: Aria2Task) -> bool {
    &&& n.event@ == EVENT_DOWNLOAD_COMPLETED@
    &&& {
        ||| text_is(n.meta.gid, t.gid@)
        ||| gids_include(n.meta.gids, t.gid@)
        ||| (n.title@ == completed_title(t) && n.message@ == completed_message(t))
        ||| (text_is(n.meta.file_name, t.file_name@) && text_is(n.meta.dir, t.dir@)
            && n.meta.total_length == Some(t.total_length))
    }
}

/// The finished download was already notified or pushed.
pub open spec fn completed_recorded(history: Seq<Notification>, pushed: Seq<(String, String)>, t: Aria2Task) -> bool {
    ||| pushed_has(pushed, completed_title(t), completed_message(t))
    ||| exists|k: int| 0 <= k < history.len() && completed_match(#[trigger] history[k], t)
}

/// A notification records this failed download: by title and message, by
/// gid, or by file and directory.
pub open spec fn failed_match(n: Notification, t: Aria2Task) -> bool {
    &&& n.event@ == EVENT_DOWNLOAD_FAILED@
    &&& {
        ||| (n.title@ == failed_title(t) && n.message@ == failed_message(t))
        ||| text_is(n.meta.gid, t.gid@)
        ||| (text_is(n.meta.file_name, t.file_name@) && text_is(n.meta.dir, t.dir@))
    }
}

/// The failed download was already notified or pushed.
pub open spec fn failed_recorded(history: Seq<Notification>, pushed: Seq<(String, String)>, t: Aria2Task) -> bool {
    ||| pushed_has(pushed, failed_title(t), failed_message(t))
    ||| exists|k: int| 0 <= k < history.len() && failed_match(#[trigger] history[k], t)
}

/// Whether the attribute is the text `t`.
pub fn text_attr_is(o: &Option<String>, t: &str) -> (r: bool)
    ensures
        r == text_is(*o, t@),
{
    match o {
        Some(x) => str_eq(x.as_str(), t),
        None => false,
    }
}

/// Whether one of the ids is the text `t`.
fn ids_include(v: &[Option<String>], t: &str) -> (r: bool)
    ensures
        r == exists|k: int| 0 <= k < v@.len() && text_is(#[trigger] v@[k], t@),
{
    let mut i: usize = 0;
    while i < v.len()
        invariant
            i <= v.len(),
            forall|k: int| 0 <= k < i ==> !text_is(#[trigger] v@[k], t@),
        decreases v.len() - i,
    {
        if text_attr_is(&v[i], t) {
            assert(text_is(v@[i as int], t@));
            return true;
        }
        i += 1;
    }
    false
}

/// Whether the list of ids holds the text `t`.
pub fn gid_list_includes(g: &Option<Vec<Option<String>>>, t: &str) -> (r: bool)
    ensures
        r == gids_include(*g, t@),
{
    match g {
        None => false,
        Some(v) => ids_include(v.as_slice(), t),
    }
}

/// Whether some pushed message has this title and message.
pub fn pushed_contains(pushed: &[(String, String)], title: &str, message: &str) -> (r: bool)
    ensures
        r == pushed_has(pushed@, title@, message@),
{
    let mut i: usize = 0;
    while i < pushed.len()
        invariant
            i <= pushed.len(),
            forall|k: int| 0 <= k < i ==> !((#[trigger] pushed@[k]).0@ == title@ && pushed@[k].1@ == message@),
        decreases pushed.len() - i,
    {
        if str_eq(pushed[i].0.as_str(), title) && str_eq(pushed[i].1.as_str(), message) {
            return true;
        }
        i += 1;
    }
    false
}

fn notification_matches_completed_download(n: &Notification, task: &Aria2Task, title: &str, message: &str) -> (r: bool)
    requires
        title@ == completed_title(*task),
        message@ == completed_message(*task),
    ensures
        r == completed_match(*n, *task),
{
    if !str_eq(n.event.as_str(), EVENT_DOWNLOAD_COMPLETED) {
        return false;
    }
    if text_attr_is(&n.meta.gid, task.gid.as_str()) {
        return true;
    }
    if gid_list_includes(&n.meta.gids, task.gid.as_str()) {
        return true;
    }
    if str_eq(n.title.as_str(), title) && str_eq(n.message.as_str(), message) {
        return true;
    }
    let same_file = text_attr_is(&n.meta.file_name, task.file_name.as_str());
    let same_dir = text_attr_is(&n.meta.dir, task.dir.as_str());
    let same_size = match n.meta.total_length {
        Some(v) => v == task.total_length,
        None => false,
    };
    same_file && same_dir && same_size
}

/// Whether a finished download was already notified (in the history) or
/// pushed.
pub fn completed_download_already_recorded(
    history: &[Notification],
    pushed_downloads: &[(String, String)],
    task: &Aria2Task,
) -> (r: bool)
    ensures
        r == completed_recorded(history@, pushed_downloads@, *task),
{
    let (title, message) = download_completed_title_message(task);
    if pushed_contains(pushed_downloads, title.as_str(), message.as_str()) {
        return true;
    }
    let mut i: usize = 0;
    while i < history.len()
        invariant
            i <= history.len(),
            title@ == completed_title(*task),
            message@ == completed_message(*task),
            forall|k: int| 0 <= k < i ==> !completed_match(#[trigger] history@[k], *task),
        decreases history.len() - i,
    {
        if notification_matches_completed_download(&history[i], task, title.as_str(), message.as_str()) {
            return true;
        }
        i += 1;
    }
    false
}

/// Whether a failed download was already notified (in the history) or
/// pushed.
pub fn failed_download_already_recorded(
    history: &[Notification],
    pushed_failures: &[(String, String)],
    task: &Aria2Task,
) -> (r: bool)
    ensures
        r == failed_recorded(history@, pushed_failures@, *task),
{
    let (title, message) = download_failed_title_message(task);
    if pushed_contains(pushed_failures, title.as_str(), message.as_str()) {
        return true;
    }
    let mut i: usize = 0;
    while i < history.len()
        invariant
            i <= history.len(),
            title@ == failed_title(*task),
            message@ == failed_message(*task),
            forall|k: int| 0 <= k < i ==> !failed_match(#[trigger] history@[k], *task),
        decreases history.len() - i,
    {
        let n = &history[i];
        if str_eq(n.event.as_str(), EVENT_DOWNLOAD_FAILED) {
            if str_eq(n.title.as_str(), title.as_str()) && str_eq(n.message.as_str(), message.as_str()) {
                return true;
            }
            let same_gid = text_attr_is(&n.meta.gid, task.gid.as_str());
            let same_file = text_attr_is(&n.meta.file_name, task.file_name.as_str());
            let same_dir = text_attr_is(&n.meta.dir, task.dir.as_str());
            if same_gid || (same_file && same_dir) {
                return true;
            }
        }
        i += 1;
    }
    false
}

/// Among the first `n` notifications, one reports the download with id `g`
/// as failed.
pub open spec fn failed_gid_upto(history: Seq<Notification>, n: int, g: Seq<char>) -> bool {
    exists|k: int|
        0 <= k < n && (#[trigger] history[k]).event@ == EVENT_DOWNLOAD_FAILED@ && text_is(
            history[k].meta.gid,
            g,
        )
}

/// The history reports the download with id `g` as failed.
pub open spec fn failed_gid_in(history: Seq<Notification>, g: Seq<char>) -> bool {
    failed_gid_upto(history, history.len() as int, g)
}

/// The ids of the downloads the history reports as failed.
pub fn failed_download_gids(history: &[Notification]) -> (r: Vec<String>)
    ensures
        forall|g: Seq<char>| views(r@).contains(g) <==> failed_gid_in(history@, g),
{
    let mut out: Vec<String> = Vec::new();
    let mut i: usize = 0;
    while i < history.len()
        invariant
            i <= history.len(),
            forall|g: Seq<char>| views(out@).contains(g) <==> failed_gid_upto(history@, i as int, g),
        decreases history.len() - i,
    {
        let ghost before = views(out@);
        let n = &history[i];
        let mut added = false;
        if str_eq(n.event.as_str(), EVENT_DOWNLOAD_FAILED) {
            if let Some(g) = &n.meta.gid {
                out.push(g.clone());
                added = true;
            }
        }
        proof {
            let v = views(out@);
            if added {
                assert(v =~= before.push(history@[i as int].meta.gid->0@));
            } else {
                assert(v =~= before);
            }
            assert forall|g: Seq<char>| v.contains(g) <==> failed_gid_upto(history@, i + 1, g) by {
                if v.contains(g) {
                    if before.contains(g) {
                        let k = choose|k: int|
                            0 <= k < i && (#[trigger] history@[k]).event@ == EVENT_DOWNLOAD_FAILED@
                                && text_is(history@[k].meta.gid, g);
                        assert(history@[k].event@ == EVENT_DOWNLOAD_FAILED@);
                    } else {
                        let j = choose|j: int| 0 <= j < v.len() && v[j] == g;
                        assert(j == before.len()) by {
                            if j < before.len() {
                                assert(before[j] == g);
                            }
                        }
                        assert(history@[i as int].event@ == EVENT_DOWNLOAD_FAILED@);
                    }
                }
                if failed_gid_upto(history@, i + 1, g) {
                    let k = choose|k: int|
                        0 <= k < i + 1 && (#[trigger] history@[k]).event@ == EVENT_DOWNLOAD_FAILED@
                            && text_is(history@[k].meta.gid, g);
                    if k < i {
                        assert(history@[k].event@ == EVENT_DOWNLOAD_FAILED@);
                        assert(before.contains(g));
                        let j = choose|j: int| 0 <= j < before.len() && before[j] == g;
                        assert(v[j] == g);
                    } else {
                        assert(v[v.len() - 1] == g);
                    }
                }
            }
        }
        i += 1;
    }
    out
}

/// Every record of the batch finished or failed.
pub open spec fn records_settled(records: Seq<SyncDownloadRecord>, failed: Seq<Seq<char>>) -> bool {
    forall|k: int|
        0 <= k < records.len() ==> (#[trigger] records[k]).completed_at is Some || failed.contains(
            trim_seq(records[k].gid@),
        )
}

/// Whether every record of a batch finished or failed.
pub fn batch_records_settled(records: &[SyncDownloadRecord], failed_gids: &[String]) -> (r: bool)
    ensures
        r == records_settled(records@, views(failed_gids@)),
{
    let mut i: usize = 0;
    while i < records.len()
        invariant
            i <= records.len(),
            forall|k: int|
                0 <= k < i ==> (#[trigger] records@[k]).completed_at is Some || views(failed_gids@).contains(
                    trim_seq(records@[k].gid@),
                ),
        decreases records.len() - i,
    {
        if records[i].completed_at.is_none() {
            let g = trim_str(records[i].gid.as_str());
            if !strings_contain(failed_gids, g.as_slice()) {
                return false;
            }
        }
        i += 1;
    }
    true
}

// ---------------------------------------------------------------------------
// Which subscription a download belongs to
// ---------------------------------------------------------------------------

/// `s` without its trailing slashes (`trim_end_matches('/')`).
pub open spec fn strip_trailing_slashes(s: Seq<char>) -> Seq<char>
    decreases s.len(),
{
    if s.len() > 0 && s.last() == '/' {
        strip_trailing_slashes(s.drop_last())
    } else {
        s
    }
}

/// A record matches a task by file: the same non-empty file name up to ASCII
/// case, and the same directory unless one of them has none.
pub open spec fn record_matches_file(r: SyncDownloadRecord, t: Aria2Task) -> bool {
    let rn = trim_seq(r.file_name@);
    let tn = trim_seq(t.file_name@);
    let rd = strip_trailing_slashes(trim_seq(r.download_dir@));
    let td = strip_trailing_slashes(trim_seq(t.dir@));
    &&& rn.len() > 0
    &&& tn.len() > 0
    &&& ascii_lower_seq(rn) == ascii_lower_seq(tn)
    &&& (rd.len() == 0 || td.len() == 0 || rd == td)
}

pub fn strip_slashes(v: Vec<char>) -> (r: Vec<char>)
    ensures
        r@ == strip_trailing_slashes(v@),
{
    let mut end: usize = v.len();
    assert(v@.take(end as int) =~= v@);
    while end > 0 && v[end - 1] == '/'
        invariant
            end <= v.len(),
            strip_trailing_slashes(v@.take(end as int)) == strip_trailing_slashes(v@),
        decreases end,
    {
        assert(v@.take(end as int).drop_last() =~= v@.take(end - 1));
        end -= 1;
    }
    assert(v@.take(end as int) =~= v@.subrange(0, end as int));
    let mut out: Vec<char> = Vec::new();
    let mut i: usize = 0;
    while i < end
        invariant
            i <= end <= v.len(),
            out@ == v@.take(i as int),
        decreases end - i,
    {
        out.push(v[i]);
        assert(out@ =~= v@.take(i + 1));
        i += 1;
    }
    out
}

/// Whether a record matches a task by file.
pub fn sync_download_matches_by_file(record: &SyncDownloadRecord, task: &Aria2Task) -> (r: bool)
    ensures
        r == record_matches_file(*record, *task),
{
    let rn = trim_str(record.file_name.as_str());
    let tn = trim_str(task.file_name.as_str());
    if rn.len() == 0 || tn.len() == 0 {
        return false;
    }
    let rl = ascii_lowercase(rn.as_slice());
    let tl = ascii_lowercase(tn.as_slice());
    if !chars_eq(rl.as_slice(), tl.as_slice()) {
        return false;
    }
    let rd = strip_slashes(trim_str(record.download_dir.as_str()));
    let td = strip_slashes(trim_str(task.dir.as_str()));
    rd.len() == 0 || td.len() == 0 || chars_eq(rd.as_slice(), td.as_slice())
}

/// One of the records has the gid `g` (trimmed).
pub open spec fn has_gid_record(records: Seq<SyncDownloadRecord>, g: Seq<char>) -> bool {
    exists|k: int| 0 <= k < records.len() && trim_seq((#[trigger] records[k]).gid@) == g
}

/// One of the records matches the task by file.
pub open spec fn has_file_record(records: Seq<SyncDownloadRecord>, t: Aria2Task) -> bool {
    exists|k: int| 0 <= k < records.len() && record_matches_file(#[trigger] records[k], t)
}

/// The first subscription from `from` on with a record of gid `g`, or the
/// number of subscriptions.
pub open spec fn first_gid_owner(subs: Seq<Subscription>, g: Seq<char>, from: int) -> int
    decreases subs.len() - from,
{
    if from < 0 || from >= subs.len() {
        subs.len() as int
    } else if has_gid_record(subs[from].sync_downloads@, g) {
        from
    } else {
        first_gid_owner(subs, g, from + 1)
    }
}

/// The first subscription from `from` on with a record matching the task by
/// file, or the number of subscriptions.
pub open spec fn first_file_owner(subs: Seq<Subscription>, t: Aria2Task, from: int) -> int
    decreases subs.len() - from,
{
    if from < 0 || from >= subs.len() {
        subs.len() as int
    } else if has_file_record(subs[from].sync_downloads@, t) {
        from
    } else {
        first_file_owner(subs, t, from + 1)
    }
}

/// The subscription a task belongs to: the first one with its gid, else the
/// first one with its file.
pub open spec fn batch_owner(subs: Seq<Subscription>, t: Aria2Task) -> int {
    let e = first_gid_owner(subs, trim_seq(t.gid@), 0);
    if e < subs.len() {
        e
    } else {
        first_file_owner(subs, t, 0)
    }
}

/// The record matches the task by trimmed gid or by file.
pub open spec fn record_matches_task(r: SyncDownloadRecord, t: Aria2Task) -> bool {
    trim_seq(r.gid@) == trim_seq(t.gid@) || record_matches_file(r, t)
}

/// The first record from `from` on matching the task, or the number of
/// records.
pub open spec fn first_task_record(records: Seq<SyncDownloadRecord>, t: Aria2Task, from: int) -> int
    decreases records.len() - from,
{
    if from < 0 || from >= records.len() {
        records.len() as int
    } else if record_matches_task(records[from], t) {
        from
    } else {
        first_task_record(records, t, from + 1)
    }
}

/// The records submitted at `at`, in order.
pub open spec fn submitted_together(records: Seq<SyncDownloadRecord>, at: i64) -> Seq<SyncDownloadRecord>
    decreases records.len(),
{
    if records.len() == 0 {
        Seq::empty()
    } else {
        let prev = submitted_together(records.drop_last(), at);
        if records.last().submitted_at == at {
            prev.push(records.last())
        } else {
            prev
        }
    }
}

/// The poster of a subscription's metadata.
pub open spec fn metadata_poster(sub: Subscription) -> Option<String> {
    match sub.metadata {
        Some(m) => m.poster_url,
        None => None,
    }
}

/// The downloads a subscription submitted together with one task.
#[derive(Debug, Clone)]
pub struct DownloadBatch {
    pub subscription_index: usize,
    pub subscription_id: String,
    pub title: String,
    pub poster_url: Option<String>,
    pub media_type: String,
    pub records: Vec<SyncDownloadRecord>,
}

/// The batch of a task: the subscription it belongs to, and the records that
/// subscription submitted at the time of the task's record; none where no
/// subscription owns the task or its record has no submission time.
pub open spec fn batch_of(subs: Seq<Subscription>, t: Aria2Task, b: Option<DownloadBatch>) -> bool {
    let o = batch_owner(subs, t);
    if o >= subs.len() {
        b is None
    } else {
        let sub = subs[o];
        let j = first_task_record(sub.sync_downloads@, t, 0);
        if j >= sub.sync_downloads@.len() || sub.sync_downloads@[j].submitted_at <= 0 {
            b is None
        } else {
            b matches Some(batch) && {
                &&& batch.subscription_index == o
                &&& batch.subscription_id == sub.id
                &&& batch.title == sub.title
                &&& batch.poster_url == metadata_poster(sub)
                &&& batch.media_type == sub.media_type
                &&& batch.records@ == submitted_together(
                    sub.sync_downloads@,
                    sub.sync_downloads@[j].submitted_at,
                )
            }
        }
    }
}

/// A copy of a download record.
pub fn copy_record(r: &SyncDownloadRecord) -> (c: SyncDownloadRecord)
    ensures
        c == *r,
{
    SyncDownloadRecord {
        gid: r.gid.clone(),
        file_name: r.file_name.clone(),
        download_dir: r.download_dir.clone(),
        target_dir: r.target_dir.clone(),
        submitted_at: r.submitted_at,
        completed_at: r.completed_at,
    }
}

fn records_have_gid(records: &Vec<SyncDownloadRecord>, g: &[char]) -> (r: bool)
    ensures
        r == has_gid_record(records@, g@),
{
    let mut i: usize = 0;
    while i < records.len()
        invariant
            i <= records.len(),
            forall|k: int| 0 <= k < i ==> trim_seq((#[trigger] records@[k]).gid@) != g@,
        decreases records.len() - i,
    {
        let rg = trim_str(records[i].gid.as_str());
        if chars_eq(rg.as_slice(), g) {
            return true;
        }
        i += 1;
    }
    false
}

fn records_have_file(records: &Vec<SyncDownloadRecord>, task: &Aria2Task) -> (r: bool)
    ensures
        r == has_file_record(records@, *task),
{
    let mut i: usize = 0;
    while i < records.len()
        invariant
            i <= records.len(),
            forall|k: int| 0 <= k < i ==> !record_matches_file(#[trigger] records@[k], *task),
        decreases records.len() - i,
    {
        if sync_download_matches_by_file(&records[i], task) {
            return true;
        }
        i += 1;
    }
    false
}

fn find_gid_owner(subs: &[Subscription], g: &[char]) -> (r: usize)
    ensures
        r as int == first_gid_owner(subs@, g@, 0),
{
    let mut i: usize = 0;
    while i < subs.len()
        invariant
            i <= subs.len(),
            first_gid_owner(subs@, g@, i as int) == first_gid_owner(subs@, g@, 0),
        decreases subs.len() - i,
    {
        if records_have_gid(&subs[i].sync_downloads, g) {
            return i;
        }
        i += 1;
    }
    i
}

fn find_file_owner(subs: &[Subscription], task: &Aria2Task) -> (r: usize)
    ensures
        r as int == first_file_owner(subs@, *task, 0),
{
    let mut i: usize = 0;
    while i < subs.len()
        invariant
            i <= subs.len(),
            first_file_owner(subs@, *task, i as int) == first_file_owner(subs@, *task, 0),
        decreases subs.len() - i,
    {
        if records_have_file(&subs[i].sync_downloads, task) {
            return i;
        }
        i += 1;
    }
    i
}

/// The index of the subscription a task belongs to, or the number of
/// subscriptions.
pub fn download_owner_index(subs: &[Subscription], task: &Aria2Task) -> (r: usize)
    ensures
        r as int == batch_owner(subs@, *task),
{
    let g = trim_str(task.gid.as_str());
    let e = find_gid_owner(subs, g.as_slice());
    if e < subs.len() {
        e
    } else {
        find_file_owner(subs, task)
    }
}

fn find_task_record(records: &Vec<SyncDownloadRecord>, task: &Aria2Task) -> (r: usize)
    ensures
        r as int == first_task_record(records@, *task, 0),
{
    let g = trim_str(task.gid.as_str());
    let mut i: usize = 0;
    while i < records.len()
        invariant
            i <= records.len(),
            g@ == trim_seq(task.gid@),
            first_task_record(records@, *task, i as int) == first_task_record(records@, *task, 0),
        decreases records.len() - i,
    {
        let rg = trim_str(records[i].gid.as_str());
        if chars_eq(rg.as_slice(), g.as_slice()) || sync_download_matches_by_file(&records[i], task) {
            return i;
        }
        i += 1;
    }
    i
}

/// The batch a finished task belongs to.
pub fn download_batch_for_task(subs: &[Subscription], task: &Aria2Task) -> (r: Option<DownloadBatch>)
    ensures
        batch_of(subs@, *task, r),
{
    let o = download_owner_index(subs, task);
    if o >= subs.len() {
        return None;
    }
    let sub = &subs[o];
    let j = find_task_record(&sub.sync_downloads, task);
    if j >= sub.sync_downloads.len() || sub.sync_downloads[j].submitted_at <= 0 {
        return None;
    }
    let at = sub.sync_downloads[j].submitted_at;
    let mut records: Vec<SyncDownloadRecord> = Vec::new();
    let mut i: usize = 0;
    while i < sub.sync_downloads.len()
        invariant
            i <= sub.sync_downloads.len(),
            records@ == submitted_together(sub.sync_downloads@.take(i as int), at),
        decreases sub.sync_downloads.len() - i,
    {
        assert(sub.sync_downloads@.take(i + 1).drop_last() =~= sub.sync_downloads@.take(i as int));
        if sub.sync_downloads[i].submitted_at == at {
            records.push(copy_record(&sub.sync_downloads[i]));
        }
        i += 1;
    }
    assert(sub.sync_downloads@.take(sub.sync_downloads.len() as int) =~= sub.sync_downloads@);
    let poster_url = match &sub.metadata {
        Some(m) => match &m.poster_url {
            Some(p) => Some(p.clone()),
            None => None,
        },
        None => None,
    };
    Some(
        DownloadBatch {
            subscription_index: o,
            subscription_id: sub.id.clone(),
            title: sub.title.clone(),
            poster_url,
            media_type: sub.media_type.clone(),
            records,
        },
    )
}

// ---------------------------------------------------------------------------
// Merged notification of a batch
// ---------------------------------------------------------------------------

pub const COUNT_OPEN: &'static str = "（";
pub const COUNT_CLOSE: &'static str = " 个文件）";
pub const BULLET: &'static str = "• ";
pub const SIZE_OPEN: &'static str = "（";
pub const SIZE_CLOSE: &'static str = "）";

/// The records that finished, in order.
pub open spec fn completed_records(rs: Seq<SyncDownloadRecord>) -> Seq<SyncDownloadRecord>
    decreases rs.len(),
{
    if rs.len() == 0 {
        Seq::empty()
    } else {
        let prev = completed_records(rs.drop_last());
        if rs.last().completed_at is Some {
            prev.push(rs.last())
        } else {
            prev
        }
    }
}

/// The size of the first task from `from` on with gid `gid`.
pub open spec fn task_size_from(tasks: Seq<Aria2Task>, gid: Seq<char>, from: int) -> Option<u64>
    decreases tasks.len() - from,
{
    if from < 0 || from >= tasks.len() {
        None
    } else if tasks[from].gid@ == gid {
        Some(tasks[from].total_length)
    } else {
        task_size_from(tasks, gid, from + 1)
    }
}

/// The line of one file of a merged notification, with its size where the
/// task of its gid has one.
pub open spec fn record_line(r: SyncDownloadRecord, tasks: Seq<Aria2Task>) -> Seq<char> {
    let name = trim_seq(r.file_name@);
    match task_size_from(tasks, r.gid@, 0) {
        Some(size) => if size > 0 {
            BULLET@ + name + SIZE_OPEN@ + bytes_text(size as int) + SIZE_CLOSE@
        } else {
            BULLET@ + name
        },
        None => BULLET@ + name,
    }
}

/// The lines of the records with a file name.
pub open spec fn record_lines(rs: Seq<SyncDownloadRecord>, tasks: Seq<Aria2Task>) -> Seq<Seq<char>>
    decreases rs.len(),
{
    if rs.len() == 0 {
        Seq::empty()
    } else {
        let prev = record_lines(rs.drop_last(), tasks);
        if trim_seq(rs.last().file_name@).len() == 0 {
            prev
        } else {
            prev.push(record_line(rs.last(), tasks))
        }
    }
}

/// The title of a batch's merged notification: its title and the number of
/// finished files.
pub open spec fn merged_title(b: DownloadBatch) -> Seq<char> {
    TITLE_COMPLETED@ + b.title@ + COUNT_OPEN@ + int_decimal(
        completed_records(b.records@).len() as int,
    ) + COUNT_CLOSE@
}

/// The message of a batch's merged notification: one line per finished file.
pub open spec fn merged_message(b: DownloadBatch, tasks: Seq<Aria2Task>) -> Seq<char> {
    joined(record_lines(completed_records(b.records@), tasks), NEWLINE@)
}

/// The attributes of a batch's merged notification.
pub open spec fn merged_meta(m: NotificationMeta, b: DownloadBatch) -> bool {
    let c = completed_records(b.records@);
    &&& m.subscription_id == Some(b.subscription_id)
    &&& m.subscription_title == Some(b.title)
    &&& m.batch_submitted_at == Some(
        if c.len() > 0 {
            c[0].submitted_at
        } else {
            0i64
        },
    )
    &&& m.file_count == Some(c.len() as u64)
    &&& m.gids matches Some(g) && g@.len() == c.len() && forall|k: int|
        0 <= k < c.len() ==> #[trigger] g@[k] == Some(c[k].gid)
    &&& m.files matches Some(f) && f@.len() == c.len() && forall|k: int|
        0 <= k < c.len() ==> (#[trigger] f@[k]).gid == c[k].gid && f@[k].file_name == c[k].file_name
            && f@[k].dir == c[k].download_dir
    &&& m.poster_url == b.poster_url
    &&& m.gid == if c.len() > 0 {
        Some(c[0].gid)
    } else {
        None
    }
    &&& m.file_name == if c.len() > 0 {
        Some(c[0].file_name)
    } else {
        None
    }
    &&& m.dir is None
    &&& m.total_length is None
    &&& m.completed_length is None
    &&& m.error_code is None
    &&& m.error_message is None
    &&& m.sync_downloads is None
    &&& m.completed_download_files is None
}

fn find_task_size(tasks: &[Aria2Task], gid: &str) -> (r: Option<u64>)
    ensures
        r == task_size_from(tasks@, gid@, 0),
{
    let mut i: usize = 0;
    while i < tasks.len()
        invariant
            i <= tasks.len(),
            task_size_from(tasks@, gid@, i as int) == task_size_from(tasks@, gid@, 0),
        decreases tasks.len() - i,
    {
        if str_eq(tasks[i].gid.as_str(), gid) {
            return Some(tasks[i].total_length);
        }
        i += 1;
    }
    None
}

fn finished_records(records: &Vec<SyncDownloadRecord>) -> (r: Vec<SyncDownloadRecord>)
    ensures
        r@ == completed_records(records@),
{
    let mut out: Vec<SyncDownloadRecord> = Vec::new();
    let mut i: usize = 0;
    while i < records.len()
        invariant
            i <= records.len(),
            out@ == completed_records(records@.take(i as int)),
        decreases records.len() - i,
    {
        assert(records@.take(i + 1).drop_last() =~= records@.take(i as int));
        if records[i].completed_at.is_some() {
            out.push(copy_record(&records[i]));
        }
        i += 1;
    }
    assert(records@.take(records.len() as int) =~= records@);
    out
}

/// The title, message and attributes of a batch's merged notification.
pub fn merged_download_message(batch: &DownloadBatch, tasks: &[Aria2Task]) -> (r: (String, String, NotificationMeta))
    ensures
        r.0@ == merged_title(*batch),
        r.1@ == merged_message(*batch, tasks@),
        merged_meta(r.2, *batch),
{
    let completed = finished_records(&batch.records);
    let mut title = owned(TITLE_COMPLETED);
    push_str(&mut title, batch.title.as_str());
    push_str(&mut title, COUNT_OPEN);
    push_count(&mut title, completed.len());
    push_str(&mut title, COUNT_CLOSE);
    let mut parts: Vec<String> = Vec::new();
    let mut gids: Vec<Option<String>> = Vec::new();
    let mut files: Vec<BatchFileMeta> = Vec::new();
    let mut i: usize = 0;
    while i < completed.len()
        invariant
            i <= completed.len(),
            completed@ == completed_records(batch.records@),
            views(parts@) == record_lines(completed@.take(i as int), tasks@),
            gids@.len() == i,
            files@.len() == i,
            forall|k: int| 0 <= k < i ==> #[trigger] gids@[k] == Some(completed@[k].gid),
            forall|k: int|
                0 <= k < i ==> (#[trigger] files@[k]).gid == completed@[k].gid && files@[k].file_name
                    == completed@[k].file_name && files@[k].dir == completed@[k].download_dir,
        decreases completed.len() - i,
    {
        let rec = &completed[i];
        assert(completed@.take(i + 1).drop_last() =~= completed@.take(i as int));
        assert(completed@.take(i + 1).last() == completed@[i as int]);
        let name = trim_str(rec.file_name.as_str());
        if name.len() > 0 {
            let mut line = owned(BULLET);
            push_chars(&mut line, name.as_slice());
            let size = find_task_size(tasks, rec.gid.as_str());
            match size {
                Some(n) => {
                    if n > 0 {
                        push_str(&mut line, SIZE_OPEN);
                        let b = format_byte_count(n);
                        push_str(&mut line, b.as_str());
                        push_str(&mut line, SIZE_CLOSE);
                    }
                },
                None => {},
            }
            assert(line@ == record_line(*rec, tasks@));
            let ghost before = views(parts@);
            parts.push(line);
            assert(views(parts@) =~= before.push(record_line(*rec, tasks@)));
        }
        gids.push(Some(rec.gid.clone()));
        files.push(
            BatchFileMeta {
                gid: rec.gid.clone(),
                file_name: rec.file_name.clone(),
                dir: rec.download_dir.clone(),
            },
        );
        i += 1;
    }
    assert(completed@.take(completed.len() as int) =~= completed@);
    let message = join_strings(parts.as_slice(), NEWLINE);
    let mut meta = NotificationMeta::empty();
    meta.subscription_id = Some(batch.subscription_id.clone());
    meta.subscription_title = Some(batch.title.clone());
    meta.batch_submitted_at = Some(
        if completed.len() > 0 {
            completed[0].submitted_at
        } else {
            0
        },
    );
    meta.file_count = Some(completed.len() as u64);
    meta.gids = Some(gids);
    meta.files = Some(files);
    meta.poster_url = match &batch.poster_url {
        Some(p) => Some(p.clone()),
        None => None,
    };
    if completed.len() > 0 {
        meta.gid = Some(completed[0].gid.clone());
        meta.file_name = Some(completed[0].file_name.clone());
    }
    (title, message, meta)
}

/// One of the records has the gid `x` as written.
pub open spec fn batch_has_gid(records: Seq<SyncDownloadRecord>, x: Seq<char>) -> bool {
    exists|j: int| 0 <= j < records.len() && (#[trigger] records[j]).gid@ == x
}

/// A notification records the batch: by its merged title and message, or as
/// a merged notification of the same subscription naming one of its gids.
pub open spec fn merged_match(n: Notification, b: DownloadBatch, tasks: Seq<Aria2Task>) -> bool {
    &&& n.event@ == EVENT_DOWNLOAD_COMPLETED@
    &&& {
        ||| (n.title@ == merged_title(b) && n.message@ == merged_message(b, tasks))
        ||| (n.meta.gids matches Some(g) && text_is(n.meta.subscription_id, b.subscription_id@)
            && exists|k: int|
            0 <= k < g@.len() && ((#[trigger] g@[k]) matches Some(x) && batch_has_gid(
                b.records@,
                x@,
            )))
    }
}

/// The directory line of a record's own notification.
pub open spec fn record_dir_line(r: SyncDownloadRecord) -> Seq<char> {
    if trim_seq(r.download_dir@).len() > 0 {
        NEWLINE@ + LABEL_DIR@ + trim_seq(r.download_dir@)
    } else {
        Seq::empty()
    }
}

/// A record was notified on its own: the history names its gid in a finished
/// download's notification, or a pushed message for its file starts with the
/// file and directory lines.
pub open spec fn record_covered(h: Seq<Notification>, pushed: Seq<(String, String)>, r: SyncDownloadRecord) -> bool {
    let g = trim_seq(r.gid@);
    let name = trim_seq(r.file_name@);
    ||| exists|k: int|
        0 <= k < h.len() && (#[trigger] h[k]).event@ == EVENT_DOWNLOAD_COMPLETED@ && (text_is(
            h[k].meta.gid,
            g,
        ) || gids_include(h[k].meta.gids, g))
    ||| (name.len() > 0 && exists|p: int|
        0 <= p < pushed.len() && (#[trigger] pushed[p]).0@ == TITLE_COMPLETED@ + name && occurs_at(
            pushed[p].1@,
            LABEL_FILE@ + name + record_dir_line(r),
            0,
        ))
}

/// Every record of the batch was notified on its own.
pub open spec fn individually_notified(h: Seq<Notification>, pushed: Seq<(String, String)>, b: DownloadBatch) -> bool {
    forall|j: int| 0 <= j < b.records@.len() ==> record_covered(h, pushed, #[trigger] b.records@[j])
}

/// The batch was already notified: its merged message was pushed or stored,
/// or each of its files was notified on its own.
pub open spec fn merged_recorded(h: Seq<Notification>, pushed: Seq<(String, String)>, b: DownloadBatch, tasks: Seq<Aria2Task>) -> bool {
    ||| pushed_has(pushed, merged_title(b), merged_message(b, tasks))
    ||| exists|k: int| 0 <= k < h.len() && merged_match(#[trigger] h[k], b, tasks)
    ||| individually_notified(h, pushed, b)
}

fn records_have_exact_gid(records: &Vec<SyncDownloadRecord>, x: &str) -> (r: bool)
    ensures
        r == batch_has_gid(records@, x@),
{
    let mut i: usize = 0;
    while i < records.len()
        invariant
            i <= records.len(),
            forall|j: int| 0 <= j < i ==> (#[trigger] records@[j]).gid@ != x@,
        decreases records.len() - i,
    {
        if str_eq(records[i].gid.as_str(), x) {
            return true;
        }
        i += 1;
    }
    false
}

fn merged_gids_hit(g: &Vec<Option<String>>, records: &Vec<SyncDownloadRecord>) -> (r: bool)
    ensures
        r == exists|k: int|
            0 <= k < g@.len() && ((#[trigger] g@[k]) matches Some(x) && batch_has_gid(records@, x@)),
{
    let mut i: usize = 0;
    while i < g.len()
        invariant
            i <= g.len(),
            forall|k: int|
                0 <= k < i ==> !((#[trigger] g@[k]) matches Some(x) && batch_has_gid(records@, x@)),
        decreases g.len() - i,
    {
        if let Some(x) = &g[i] {
            if records_have_exact_gid(records, x.as_str()) {
                return true;
            }
        }
        i += 1;
    }
    false
}

fn record_is_covered(history: &[Notification], pushed: &[(String, String)], r: &SyncDownloadRecord) -> (res: bool)
    ensures
        res == record_covered(history@, pushed@, *r),
{
    let g = string_of(trim_str(r.gid.as_str()).as_slice());
    let mut k: usize = 0;
    while k < history.len()
        invariant
            k <= history.len(),
            g@ == trim_seq(r.gid@),
            forall|i: int|
                0 <= i < k ==> !((#[trigger] history@[i]).event@ == EVENT_DOWNLOAD_COMPLETED@ && (
                text_is(history@[i].meta.gid, g@) || gids_include(history@[i].meta.gids, g@))),
        decreases history.len() - k,
    {
        let n = &history[k];
        if str_eq(n.event.as_str(), EVENT_DOWNLOAD_COMPLETED) && (text_attr_is(
            &n.meta.gid,
            g.as_str(),
        ) || gid_list_includes(&n.meta.gids, g.as_str())) {
            return true;
        }
        k += 1;
    }
    let name = trim_str(r.file_name.as_str());
    if name.len() == 0 {
        return false;
    }
    let mut title = owned(TITLE_COMPLETED);
    push_chars(&mut title, name.as_slice());
    let mut head = owned(LABEL_FILE);
    push_chars(&mut head, name.as_slice());
    let dir = trim_str(r.download_dir.as_str());
    if dir.len() > 0 {
        push_str(&mut head, NEWLINE);
        push_str(&mut head, LABEL_DIR);
        push_chars(&mut head, dir.as_slice());
    }
    assert(head@ =~= LABEL_FILE@ + name@ + record_dir_line(*r));
    let head_chars = chars_of(head.as_str());
    let mut p: usize = 0;
    while p < pushed.len()
        invariant
            p <= pushed.len(),
            name@ == trim_seq(r.file_name@),
            name@.len() > 0,
            title@ == TITLE_COMPLETED@ + name@,
            head_chars@ == LABEL_FILE@ + name@ + record_dir_line(*r),
            forall|i: int|
                0 <= i < p ==> !((#[trigger] pushed@[i]).0@ == title@ && occurs_at(
                    pushed@[i].1@,
                    head_chars@,
                    0,
                )),
        decreases pushed.len() - p,
    {
        if str_eq(pushed[p].0.as_str(), title.as_str()) {
            let m = chars_of(pushed[p].1.as_str());
            if occurs_at_exec(m.as_slice(), head_chars.as_slice(), 0) {
                assert(pushed@[p as int].0@ == TITLE_COMPLETED@ + trim_seq(r.file_name@));
                assert(occurs_at(
                    pushed@[p as int].1@,
                    LABEL_FILE@ + trim_seq(r.file_name@) + record_dir_line(*r),
                    0,
                ));
                return true;
            }
        }
        p += 1;
    }
    false
}

/// Whether every record of the batch was notified on its own.
pub fn batch_records_individually_notified(
    history: &[Notification],
    pushed: &[(String, String)],
    batch: &DownloadBatch,
) -> (r: bool)
    ensures
        r == individually_notified(history@, pushed@, *batch),
{
    let mut j: usize = 0;
    while j < batch.records.len()
        invariant
            j <= batch.records.len(),
            forall|i: int| 0 <= i < j ==> record_covered(history@, pushed@, #[trigger] batch.records@[i]),
        decreases batch.records.len() - j,
    {
        if !record_is_covered(history, pushed, &batch.records[j]) {
            return false;
        }
        j += 1;
    }
    true
}

/// Whether the batch was already notified as a whole or file by file.
pub fn merged_download_already_recorded(
    history: &[Notification],
    pushed: &[(String, String)],
    batch: &DownloadBatch,
    tasks: &[Aria2Task],
) -> (r: bool)
    ensures
        r == merged_recorded(history@, pushed@, *batch, tasks@),
{
    let (title, message, _meta) = merged_download_message(batch, tasks);
    if pushed_contains(pushed, title.as_str(), message.as_str()) {
        return true;
    }
    let mut k: usize = 0;
    while k < history.len()
        invariant
            k <= history.len(),
            title@ == merged_title(*batch),
            message@ == merged_message(*batch, tasks@),
            forall|i: int| 0 <= i < k ==> !merged_match(#[trigger] history@[i], *batch, tasks@),
        decreases history.len() - k,
    {
        let n = &history[k];
        if str_eq(n.event.as_str(), EVENT_DOWNLOAD_COMPLETED) {
            if str_eq(n.title.as_str(), title.as_str()) && str_eq(n.message.as_str(), message.as_str()) {
                return true;
            }
            if let Some(g) = &n.meta.gids {
                if text_attr_is(&n.meta.subscription_id, batch.subscription_id.as_str())
                    && merged_gids_hit(g, &batch.records) {
                    return true;
                }
            }
        }
        k += 1;
    }
    batch_records_individually_notified(history, pushed, batch)
}

// ---------------------------------------------------------------------------
// What transfer notifications say about downloads
// ---------------------------------------------------------------------------

/// The strings of `a + b` hold `x` exactly where those of `a` or of `b` do.
pub proof fn lemma_views_concat_contains(a: Seq<String>, b: Seq<String>, x: Seq<char>)
    ensures
        views(a + b).contains(x) <==> (views(a).contains(x) || views(b).contains(x)),
{
    assert(views(a + b) =~= views(a) + views(b));
    if views(a + b).contains(x) {
        let j = choose|j: int| 0 <= j < views(a + b).len() && views(a + b)[j] == x;
        if j < a.len() {
            assert(views(a)[j] == x);
        } else {
            assert(views(b)[j - a.len()] == x);
        }
    }
    if views(a).contains(x) {
        let j = choose|j: int| 0 <= j < views(a).len() && views(a)[j] == x;
        assert(views(a + b)[j] == x);
    }
    if views(b).contains(x) {
        let j = choose|j: int| 0 <= j < views(b).len() && views(b)[j] == x;
        assert(views(a + b)[a.len() + j] == x);
    }
}

/// A transfer notification lists a download with gid `g`.
pub open spec fn transfer_lists_gid(n: Notification, g: Seq<char>) -> bool {
    &&& n.event@ == EVENT_SUBSCRIPTION_TRANSFERRED@
    &&& n.meta.sync_downloads matches Some(d) && exists|k: int|
        0 <= k < d@.len() && text_is((#[trigger] d@[k]).gid, g)
}

/// The subscription of the first transfer notification from `from` on that
/// lists the gid and names its subscription.
pub open spec fn first_transfer_owner(h: Seq<Notification>, g: Seq<char>, from: int) -> Option<String>
    decreases h.len() - from,
{
    if from < 0 || from >= h.len() {
        None
    } else if transfer_lists_gid(h[from], g) && h[from].meta.subscription_id is Some {
        h[from].meta.subscription_id
    } else {
        first_transfer_owner(h, g, from + 1)
    }
}

fn refs_include_gid(d: &Vec<DownloadRef>, g: &str) -> (r: bool)
    ensures
        r == exists|k: int| 0 <= k < d@.len() && text_is((#[trigger] d@[k]).gid, g@),
{
    let mut i: usize = 0;
    while i < d.len()
        invariant
            i <= d.len(),
            forall|k: int| 0 <= k < i ==> !text_is((#[trigger] d@[k]).gid, g@),
        decreases d.len() - i,
    {
        if text_attr_is(&d[i].gid, g) {
            return true;
        }
        i += 1;
    }
    false
}

fn lists_gid(n: &Notification, g: &str) -> (r: bool)
    ensures
        r == transfer_lists_gid(*n, g@),
{
    if !str_eq(n.event.as_str(), EVENT_SUBSCRIPTION_TRANSFERRED) {
        return false;
    }
    match &n.meta.sync_downloads {
        Some(d) => refs_include_gid(d, g),
        None => false,
    }
}

/// The subscription an older transfer notification assigned a download to.
pub fn subscription_id_for_download_gid(history: &[Notification], gid: &str) -> (r: Option<String>)
    ensures
        r == first_transfer_owner(history@, gid@, 0),
{
    let mut i: usize = 0;
    while i < history.len()
        invariant
            i <= history.len(),
            first_transfer_owner(history@, gid@, i as int) == first_transfer_owner(history@, gid@, 0),
        decreases history.len() - i,
    {
        let n = &history[i];
        if lists_gid(n, gid) {
            if let Some(id) = &n.meta.subscription_id {
                return Some(id.clone());
            }
        }
        i += 1;
    }
    None
}

/// The download with gid `g` finished: it is the current one, or a finished
/// download's notification names it.
pub open spec fn gid_completed(h: Seq<Notification>, current: Seq<char>, g: Seq<char>) -> bool {
    ||| g == current
    ||| exists|k: int|
        0 <= k < h.len() && (#[trigger] h[k]).event@ == EVENT_DOWNLOAD_COMPLETED@ && (text_is(
            h[k].meta.gid,
            g,
        ) || gids_include(h[k].meta.gids, g))
}

/// Whether the download with gid `g` finished.
pub fn download_gid_completed(history: &[Notification], current_gid: &str, g: &str) -> (r: bool)
    ensures
        r == gid_completed(history@, current_gid@, g@),
{
    if str_eq(g, current_gid) {
        return true;
    }
    let mut k: usize = 0;
    while k < history.len()
        invariant
            k <= history.len(),
            forall|i: int|
                0 <= i < k ==> !((#[trigger] history@[i]).event@ == EVENT_DOWNLOAD_COMPLETED@ && (
                text_is(history@[i].meta.gid, g@) || gids_include(history@[i].meta.gids, g@))),
        decreases history.len() - k,
    {
        let n = &history[k];
        if str_eq(n.event.as_str(), EVENT_DOWNLOAD_COMPLETED) && (text_attr_is(&n.meta.gid, g)
            || gid_list_includes(&n.meta.gids, g)) {
            return true;
        }
        k += 1;
    }
    false
}

/// A listed download of a transfer notification is a finished file of the
/// subscription: the notification is the subscription's, the download's gid
/// finished and its file name is not blank.
pub open spec fn ref_is_finished_file(
    h: Seq<Notification>,
    n: Notification,
    d: DownloadRef,
    sub_id: Seq<char>,
    current: Seq<char>,
    f: Seq<char>,
) -> bool {
    &&& n.event@ == EVENT_SUBSCRIPTION_TRANSFERRED@
    &&& text_is(n.meta.subscription_id, sub_id)
    &&& d.gid matches Some(g) && gid_completed(h, current, g@)
    &&& d.file_name matches Some(x) && x@ == f
    &&& trim_seq(f).len() > 0
}

/// The notification lists the finished file `f` of the subscription.
pub open spec fn note_lists_finished_file(
    h: Seq<Notification>,
    n: Notification,
    sub_id: Seq<char>,
    current: Seq<char>,
    f: Seq<char>,
) -> bool {
    n.meta.sync_downloads matches Some(d) && exists|j: int|
        0 <= j < d@.len() && ref_is_finished_file(h, n, #[trigger] d@[j], sub_id, current, f)
}

/// Some transfer notification of the subscription lists the finished file
/// `f`.
pub open spec fn transferred_finished_file(h: Seq<Notification>, sub_id: Seq<char>, current: Seq<char>, f: Seq<char>) -> bool {
    exists|k: int| 0 <= k < h.len() && note_lists_finished_file(h, #[trigger] h[k], sub_id, current, f)
}

fn finished_files_of(history: &[Notification], n: &Notification, sub_id: &str, current_gid: &str) -> (r: Vec<String>)
    ensures
        forall|f: Seq<char>|
            views(r@).contains(f) <==> note_lists_finished_file(history@, *n, sub_id@, current_gid@, f),
{
    let mut out: Vec<String> = Vec::new();
    if !str_eq(n.event.as_str(), EVENT_SUBSCRIPTION_TRANSFERRED) || !text_attr_is(&n.meta.subscription_id, sub_id) {
        assert(views(out@) =~= Seq::<Seq<char>>::empty());
        return out;
    }
    match &n.meta.sync_downloads {
        None => {
            assert(views(out@) =~= Seq::<Seq<char>>::empty());
            out
        },
        Some(d) => {
            let mut j: usize = 0;
            while j < d.len()
                invariant
                    j <= d.len(),
                    n.meta.sync_downloads == Some(*d),
                    n.event@ == EVENT_SUBSCRIPTION_TRANSFERRED@,
                    text_is(n.meta.subscription_id, sub_id@),
                    forall|f: Seq<char>|
                        views(out@).contains(f) <==> exists|i: int|
                            0 <= i < j && ref_is_finished_file(history@, *n, #[trigger] d@[i], sub_id@, current_gid@, f),
                decreases d.len() - j,
            {
                let ghost before = out@;
                let item = &d[j];
                let mut added: Vec<String> = Vec::new();
                if let Some(g) = &item.gid {
                    if download_gid_completed(history, current_gid, g.as_str()) {
                        if let Some(name) = &item.file_name {
                            let t = trim_str(name.as_str());
                            if t.len() > 0 {
                                added.push(name.clone());
                            }
                        }
                    }
                }
                let ghost add = added@;
                proof {
                    assert forall|f: Seq<char>| views(add).contains(f) <==> ref_is_finished_file(history@, *n, d@[j as int], sub_id@, current_gid@, f) by {
                        if views(add).contains(f) {
                            assert(views(add)[0] == f);
                        }
                        if ref_is_finished_file(history@, *n, d@[j as int], sub_id@, current_gid@, f) {
                            assert(views(add)[0] == f);
                        }
                    }
                }
                out.append(&mut added);
                proof {
                    assert(out@ == before + add);
                    assert forall|f: Seq<char>|
                        views(out@).contains(f) <==> exists|i: int|
                            0 <= i < j + 1 && ref_is_finished_file(history@, *n, #[trigger] d@[i], sub_id@, current_gid@, f) by {
                        lemma_views_concat_contains(before, add, f);
                        if exists|i: int|
                            0 <= i < j + 1 && ref_is_finished_file(history@, *n, #[trigger] d@[i], sub_id@, current_gid@, f) {
                            let i = choose|i: int|
                                0 <= i < j + 1 && ref_is_finished_file(history@, *n, #[trigger] d@[i], sub_id@, current_gid@, f);
                            if i == j {
                                assert(views(add).contains(f));
                            }
                        }
                    }
                }
                j += 1;
            }
            out
        },
    }
}

/// The finished files that transfer notifications list for a subscription,
/// sorted and each once.
pub fn completed_subscription_download_files(
    history: &[Notification],
    subscription_id: &str,
    current_gid: &str,
) -> (r: Vec<String>)
    ensures
        sorted_distinct(views(r@)),
        forall|f: Seq<char>|
            views(r@).contains(f) <==> transferred_finished_file(history@, subscription_id@, current_gid@, f),
{
    let mut all: Vec<String> = Vec::new();
    let mut k: usize = 0;
    while k < history.len()
        invariant
            k <= history.len(),
            forall|f: Seq<char>|
                views(all@).contains(f) <==> exists|i: int|
                    0 <= i < k && note_lists_finished_file(history@, #[trigger] history@[i], subscription_id@, current_gid@, f),
        decreases history.len() - k,
    {
        let ghost before = all@;
        let mut part = finished_files_of(history, &history[k], subscription_id, current_gid);
        let ghost add = part@;
        all.append(&mut part);
        proof {
            assert(all@ == before + add);
            assert forall|f: Seq<char>|
                views(all@).contains(f) <==> exists|i: int|
                    0 <= i < k + 1 && note_lists_finished_file(history@, #[trigger] history@[i], subscription_id@, current_gid@, f) by {
                lemma_views_concat_contains(before, add, f);
                if exists|i: int|
                    0 <= i < k + 1 && note_lists_finished_file(history@, #[trigger] history@[i], subscription_id@, current_gid@, f) {
                    let i = choose|i: int|
                        0 <= i < k + 1 && note_lists_finished_file(history@, #[trigger] history@[i], subscription_id@, current_gid@, f);
                    if i == k {
                        assert(views(add).contains(f));
                    }
                }
            }
        }
        k += 1;
    }
    sorted_unique(all)
}

// ---------------------------------------------------------------------------
// Completing subscriptions from finished downloads
// ---------------------------------------------------------------------------

/// Some subscription has a record with the gid `g`.
pub open spec fn some_gid_owner(subs: Seq<Subscription>, g: Seq<char>) -> bool {
    exists|i: int| 0 <= i < subs.len() && has_gid_record((#[trigger] subs[i]).sync_downloads@, g)
}

/// The subscription owns the task durably: it has a record with the task's
/// gid, or, where no subscription has, a record matching its file.
pub open spec fn durable_owner(subs: Seq<Subscription>, t: Aria2Task, sub: Subscription) -> bool {
    let g = trim_seq(t.gid@);
    if some_gid_owner(subs, g) {
        has_gid_record(sub.sync_downloads@, g)
    } else {
        has_file_record(sub.sync_downloads@, t)
    }
}

/// The id `x` belongs to a durable owner of the task.
pub open spec fn durable_owner_id(subs: Seq<Subscription>, t: Aria2Task, x: Seq<char>) -> bool {
    exists|i: int| 0 <= i < subs.len() && (#[trigger] subs[i]).id@ == x && durable_owner(subs, t, subs[i])
}

/// The subscriptions a finished task concerns: its durable owners, and the
/// subscription an older transfer notification assigned its gid to.
pub fn download_owner_ids(subs: &[Subscription], history: &[Notification], task: &Aria2Task) -> (r: (Vec<String>, Vec<String>))
    ensures
        trim_seq(task.gid@).len() == 0 ==> r.0@.len() == 0 && r.1@.len() == 0,
        views(r.0@).no_duplicates(),
        views(r.1@).no_duplicates(),
        trim_seq(task.gid@).len() > 0 ==> {
            &&& forall|x: Seq<char>| views(r.0@).contains(x) <==> durable_owner_id(subs@, *task, x)
            &&& forall|x: Seq<char>|
                views(r.1@).contains(x) <==> (durable_owner_id(subs@, *task, x) || (first_transfer_owner(
                    history@,
                    trim_seq(task.gid@),
                    0,
                ) matches Some(o) && o@ == x))
        },
{
    let gv = trim_str(task.gid.as_str());
    if gv.len() == 0 {
        let r: (Vec<String>, Vec<String>) = (Vec::new(), Vec::new());
        assert(views(r.0@) =~= seq![]);
        assert(views(r.1@) =~= seq![]);
        return r;
    }
    let g = string_of(gv.as_slice());
    let exact = find_gid_owner(subs, gv.as_slice()) < subs.len();
    proof {
        if exact {
            let e = first_gid_owner(subs@, g@, 0);
            lemma_first_gid_owner_found(subs@, g@, 0);
            assert(has_gid_record(subs@[e].sync_downloads@, g@));
        } else {
            lemma_first_gid_owner_none(subs@, g@, 0);
        }
    }
    let mut durable: Vec<String> = Vec::new();
    let mut i: usize = 0;
    while i < subs.len()
        invariant
            i <= subs.len(),
            g@ == trim_seq(task.gid@),
            gv@ == trim_seq(task.gid@),
            exact == some_gid_owner(subs@, g@),
            views(durable@).no_duplicates(),
            forall|x: Seq<char>|
                views(durable@).contains(x) <==> exists|k: int|
                    0 <= k < i && (#[trigger] subs@[k]).id@ == x && durable_owner(subs@, *task, subs@[k]),
        decreases subs.len() - i,
    {
        let ghost before = durable@;
        let owns = if exact {
            records_have_gid(&subs[i].sync_downloads, gv.as_slice())
        } else {
            records_have_file(&subs[i].sync_downloads, task)
        };
        let mut added: Vec<String> = Vec::new();
        if owns && !strings_contain(durable.as_slice(), chars_of(subs[i].id.as_str()).as_slice()) {
            added.push(subs[i].id.clone());
        }
        let ghost add = added@;
        durable.append(&mut added);
        proof {
            assert(durable@ == before + add);
            assert(views(durable@) =~= views(before) + views(add));
            if add.len() > 0 {
                assert(views(durable@) =~= views(before).push(views(add)[0]));
                assert(!views(before).contains(views(add)[0]));
            }
            assert forall|x: Seq<char>|
                views(durable@).contains(x) <==> exists|k: int|
                    0 <= k < i + 1 && (#[trigger] subs@[k]).id@ == x && durable_owner(subs@, *task, subs@[k]) by {
                lemma_views_concat_contains(before, add, x);
                if views(add).contains(x) {
                    assert(views(add)[0] == x);
                    assert(subs@[i as int].id@ == x && durable_owner(subs@, *task, subs@[i as int]));
                }
                if exists|k: int|
                    0 <= k < i + 1 && (#[trigger] subs@[k]).id@ == x && durable_owner(subs@, *task, subs@[k]) {
                    let k = choose|k: int|
                        0 <= k < i + 1 && (#[trigger] subs@[k]).id@ == x && durable_owner(subs@, *task, subs@[k]);
                    if k == i && !views(before).contains(x) {
                        assert(views(add)[0] == x);
                    }
                }
            }
        }
        i += 1;
    }
    let mut all = copy_strings(&durable);
    let legacy = subscription_id_for_download_gid(history, g.as_str());
    let ghost before = all@;
    let mut added: Vec<String> = Vec::new();
    match legacy {
        Some(id) => {
            if !strings_contain(all.as_slice(), chars_of(id.as_str()).as_slice()) {
                added.push(id);
            }
        },
        None => {},
    }
    let ghost add = added@;
    all.append(&mut added);
    proof {
        assert(views(before) == views(durable@));
        assert(views(all@) =~= views(before) + views(add));
        if add.len() > 0 {
            assert(views(all@) =~= views(before).push(views(add)[0]));
            assert(!views(before).contains(views(add)[0]));
        }
        assert forall|x: Seq<char>|
            views(all@).contains(x) <==> (durable_owner_id(subs@, *task, x) || (first_transfer_owner(
                history@,
                trim_seq(task.gid@),
                0,
            ) matches Some(o) && o@ == x)) by {
            lemma_views_concat_contains(before, add, x);
            assert(views(durable@).contains(x) <==> durable_owner_id(subs@, *task, x));
            if views(add).contains(x) {
                assert(views(add)[0] == x);
            }
            if first_transfer_owner(history@, trim_seq(task.gid@), 0) matches Some(o) && o@ == x {
                if !views(before).contains(x) {
                    assert(views(add)[0] == x);
                }
            }
        }
    }
    (durable, all)
}

proof fn lemma_first_gid_owner_found(subs: Seq<Subscription>, g: Seq<char>, from: int)
    requires
        0 <= from,
        first_gid_owner(subs, g, from) < subs.len(),
    ensures
        has_gid_record(subs[first_gid_owner(subs, g, from)].sync_downloads@, g),
    decreases subs.len() - from,
{
    if from < subs.len() && !has_gid_record(subs[from].sync_downloads@, g) {
        lemma_first_gid_owner_found(subs, g, from + 1);
    }
}

proof fn lemma_first_gid_owner_none(subs: Seq<Subscription>, g: Seq<char>, from: int)
    requires
        0 <= from,
        first_gid_owner(subs, g, from) >= subs.len(),
    ensures
        forall|i: int| from <= i < subs.len() ==> !has_gid_record((#[trigger] subs[i]).sync_downloads@, g),
    decreases subs.len() - from,
{
    if from < subs.len() {
        lemma_first_gid_owner_none(subs, g, from + 1);
    }
}

/// A record after a finished task: marked finished now where it matches the
/// task (by gid where `exact`, else by file) and had not finished yet.
pub open spec fn marked_record(r: SyncDownloadRecord, exact: bool, t: Aria2Task, at: i64) -> SyncDownloadRecord {
    let m = if exact {
        trim_seq(r.gid@) == trim_seq(t.gid@)
    } else {
        record_matches_file(r, t)
    };
    if m && r.completed_at is None {
        SyncDownloadRecord { completed_at: Some(at), ..r }
    } else {
        r
    }
}

/// Marks the subscription's records of a finished task as finished at
/// `completed_at`: those with its gid where some record has it, else those
/// matching its file.
pub fn mark_sync_download_completed(sub: &mut Subscription, task: &Aria2Task, completed_at: i64)
    ensures
        *final(sub) == (Subscription {
            sync_downloads: final(sub).sync_downloads,
            updated_at: completed_at,
            ..*old(sub)
        }),
        final(sub).sync_downloads@.len() == old(sub).sync_downloads@.len(),
        forall|k: int|
            0 <= k < old(sub).sync_downloads@.len() ==> #[trigger] final(sub).sync_downloads@[k]
                == marked_record(
                old(sub).sync_downloads@[k],
                has_gid_record(old(sub).sync_downloads@, trim_seq(task.gid@)),
                *task,
                completed_at,
            ),
{
    let g = trim_str(task.gid.as_str());
    let exact = records_have_gid(&sub.sync_downloads, g.as_slice());
    let mut out: Vec<SyncDownloadRecord> = Vec::new();
    let mut i: usize = 0;
    while i < sub.sync_downloads.len()
        invariant
            i <= sub.sync_downloads.len(),
            *sub == *old(sub),
            g@ == trim_seq(task.gid@),
            exact == has_gid_record(old(sub).sync_downloads@, trim_seq(task.gid@)),
            out@.len() == i,
            forall|k: int|
                0 <= k < i ==> #[trigger] out@[k] == marked_record(
                    old(sub).sync_downloads@[k],
                    exact,
                    *task,
                    completed_at,
                ),
        decreases sub.sync_downloads.len() - i,
    {
        let r = &sub.sync_downloads[i];
        let m = if exact {
            let rg = trim_str(r.gid.as_str());
            chars_eq(rg.as_slice(), g.as_slice())
        } else {
            sync_download_matches_by_file(r, task)
        };
        let mut c = copy_record(r);
        if m && c.completed_at.is_none() {
            c.completed_at = Some(completed_at);
        }
        out.push(c);
        i += 1;
    }
    sub.sync_downloads = out;
    sub.updated_at = completed_at;
}

/// The file name is one of a finished record of the subscription.
pub open spec fn finished_record_file(sub: Subscription, f: Seq<char>) -> bool {
    exists|k: int|
        0 <= k < sub.sync_downloads@.len() && (#[trigger] sub.sync_downloads@[k]).completed_at is Some
            && sub.sync_downloads@[k].file_name@ == f && trim_seq(f).len() > 0
}

/// The files a subscription finished downloading, sorted and each once: those
/// of its finished records and those transfer notifications list as finished;
/// and whether they complete it (only where it downloads in sync).
pub fn download_completion(sub: &Subscription, history: &[Notification], current_gid: &str) -> (r: (Vec<String>, bool))
    ensures
        sorted_distinct(views(r.0@)),
        forall|f: Seq<char>|
            views(r.0@).contains(f) <==> (finished_record_file(*sub, f) || transferred_finished_file(
                history@,
                sub.id@,
                current_gid@,
                f,
            )),
        r.1 == (sub.sync_download_enabled && complete_by_names(*sub, views(r.0@))),
{
    let mut names: Vec<String> = Vec::new();
    let mut i: usize = 0;
    while i < sub.sync_downloads.len()
        invariant
            i <= sub.sync_downloads.len(),
            forall|f: Seq<char>|
                views(names@).contains(f) <==> exists|k: int|
                    0 <= k < i && (#[trigger] sub.sync_downloads@[k]).completed_at is Some
                        && sub.sync_downloads@[k].file_name@ == f && trim_seq(f).len() > 0,
        decreases sub.sync_downloads.len() - i,
    {
        let ghost before = names@;
        let r = &sub.sync_downloads[i];
        let mut added: Vec<String> = Vec::new();
        if r.completed_at.is_some() && trim_str(r.file_name.as_str()).len() > 0 {
            added.push(r.file_name.clone());
        }
        let ghost add = added@;
        names.append(&mut added);
        proof {
            assert forall|f: Seq<char>|
                views(names@).contains(f) <==> exists|k: int|
                    0 <= k < i + 1 && (#[trigger] sub.sync_downloads@[k]).completed_at is Some
                        && sub.sync_downloads@[k].file_name@ == f && trim_seq(f).len() > 0 by {
                lemma_views_concat_contains(before, add, f);
                if views(add).contains(f) {
                    assert(views(add)[0] == f);
                    assert(sub.sync_downloads@[i as int].completed_at is Some);
                }
                if exists|k: int|
                    0 <= k < i + 1 && (#[trigger] sub.sync_downloads@[k]).completed_at is Some
                        && sub.sync_downloads@[k].file_name@ == f && trim_seq(f).len() > 0 {
                    let k = choose|k: int|
                        0 <= k < i + 1 && (#[trigger] sub.sync_downloads@[k]).completed_at is Some
                            && sub.sync_downloads@[k].file_name@ == f && trim_seq(f).len() > 0;
                    if k == i {
                        assert(views(add)[0] == f);
                    }
                }
            }
        }
        i += 1;
    }
    let ghost first = names@;
    let mut more = completed_subscription_download_files(history, sub.id.as_str(), current_gid);
    let ghost second = more@;
    names.append(&mut more);
    proof {
        assert forall|f: Seq<char>|
            views(names@).contains(f) <==> (finished_record_file(*sub, f) || transferred_finished_file(
                history@,
                sub.id@,
                current_gid@,
                f,
            )) by {
            lemma_views_concat_contains(first, second, f);
        }
    }
    let files = sorted_unique(names);
    let complete = sub.sync_download_enabled && should_mark_completed_from_file_names(sub, files.as_slice());
    (files, complete)
}

/// The subscription after a download completed it: completed, active errors
/// cleared, progress raised to `target` and the total taken from the rule
/// where it had none.
pub open spec fn completed_by_download(old: Subscription, new: Subscription, target: Option<i32>, now: i64) -> bool {
    &&& new.completed
    &&& new.status@ == STATUS_COMPLETED@
    &&& new.invalid_since is None
    &&& new.last_error@.len() == 0
    &&& new.current_episode_number == match target {
        Some(t) => if old.current_episode_number >= t {
            old.current_episode_number
        } else {
            t
        },
        None => old.current_episode_number,
    }
    &&& new.total_episode_number == match old.total_episode_number {
        Some(n) => Some(n),
        None => old.rules.finish_after_episode,
    }
    &&& new.updated_at == now
    &&& new == (Subscription {
        completed: new.completed,
        status: new.status,
        invalid_since: new.invalid_since,
        last_error: new.last_error,
        current_episode_number: new.current_episode_number,
        total_episode_number: new.total_episode_number,
        updated_at: new.updated_at,
        ..old
    })
}

pub const STATUS_COMPLETED: &'static str = "completed";

/// Marks a subscription completed after its downloads finished; unchanged
/// and `false` where it already was.
pub fn mark_completed_after_download(sub: &mut Subscription, target_episode: Option<i32>, now: i64) -> (r: bool)
    ensures
        r == !old(sub).completed,
        old(sub).completed ==> *final(sub) == *old(sub),
        !old(sub).completed ==> completed_by_download(*old(sub), *final(sub), target_episode, now),
{
    if sub.completed {
        return false;
    }
    sub.completed = true;
    sub.status = owned(STATUS_COMPLETED);
    sub.invalid_since = None;
    sub.last_error = String::new();
    if let Some(t) = target_episode {
        if sub.current_episode_number < t {
            sub.current_episode_number = t;
        }
    }
    if sub.total_episode_number.is_none() {
        sub.total_episode_number = sub.rules.finish_after_episode;
    }
    sub.updated_at = now;
    true
}

pub const TITLE_SUB_COMPLETED: &'static str = "订阅已完结: ";
pub const MSG_DOWNLOADED_TO: &'static str = "已下载到第 ";
pub const MSG_EPISODE_SUFFIX: &'static str = " 集";
pub const MSG_MARKED_COMPLETED: &'static str = "订阅已标记为完结";

/// The episode a completed subscription is reported at: its target, else its
/// progress.
pub open spec fn reported_total(sub: Subscription) -> int {
    match target_of(sub) {
        Some(t) => t as int,
        None => sub.current_episode_number as int,
    }
}

/// The message of a subscription completed by downloads.
pub open spec fn download_completed_sub_message(sub: Subscription) -> Seq<char> {
    if reported_total(sub) > 0 {
        MSG_DOWNLOADED_TO@ + int_decimal(reported_total(sub)) + MSG_EPISODE_SUFFIX@
    } else {
        MSG_MARKED_COMPLETED@
    }
}

/// The title, message and attributes of the notification that a download
/// completed a subscription.
pub fn completed_after_download_notice(updated: &Subscription, completed_files: &Vec<String>) -> (r: (String, String, NotificationMeta))
    ensures
        r.0@ == TITLE_SUB_COMPLETED@ + updated.title@,
        r.1@ == download_completed_sub_message(*updated),
        r.2 == (NotificationMeta {
            subscription_id: Some(updated.id),
            subscription_title: Some(updated.title),
            completed_download_files: r.2.completed_download_files,
            ..r.2
        }),
        r.2.completed_download_files matches Some(v) && views(v@) == views(completed_files@),
        r.2.gid is None && r.2.gids is None && r.2.file_name is None && r.2.dir is None,
        r.2.total_length is None && r.2.completed_length is None && r.2.error_code is None,
        r.2.error_message is None && r.2.poster_url is None && r.2.batch_submitted_at is None,
        r.2.file_count is None && r.2.files is None && r.2.sync_downloads is None,
{
    let total: i64 = match completion_target_episode(updated) {
        Some(t) => t as i64,
        None => updated.current_episode_number as i64,
    };
    let mut title = owned(TITLE_SUB_COMPLETED);
    push_str(&mut title, updated.title.as_str());
    let message = if total > 0 {
        let mut m = owned(MSG_DOWNLOADED_TO);
        push_decimal(&mut m, total);
        push_str(&mut m, MSG_EPISODE_SUFFIX);
        m
    } else {
        owned(MSG_MARKED_COMPLETED)
    };
    let mut meta = NotificationMeta::empty();
    meta.subscription_id = Some(updated.id.clone());
    meta.subscription_title = Some(updated.title.clone());
    meta.completed_download_files = Some(copy_strings(completed_files));
    (title, message, meta)
}

// ---------------------------------------------------------------------------
// What to do with a finished task
// ---------------------------------------------------------------------------

/// The attributes of a finished download's own notification.
pub open spec fn completed_meta(m: NotificationMeta, t: Aria2Task, poster: Option<String>) -> bool {
    m == (NotificationMeta {
        gid: Some(t.gid),
        file_name: Some(t.file_name),
        dir: Some(t.dir),
        total_length: Some(t.total_length),
        completed_length: Some(t.completed_length),
        poster_url: poster,
        ..m
    }) && m.gids is None && m.error_code is None && m.error_message is None
        && m.subscription_id is None && m.subscription_title is None && m.batch_submitted_at is None
        && m.file_count is None && m.files is None && m.sync_downloads is None
        && m.completed_download_files is None
}

/// The attributes of a failed download's notification.
pub open spec fn failed_meta(m: NotificationMeta, t: Aria2Task, poster: Option<String>) -> bool {
    m == (NotificationMeta {
        gid: Some(t.gid),
        file_name: Some(t.file_name),
        dir: Some(t.dir),
        error_code: Some(t.error_code),
        error_message: Some(t.error_message),
        poster_url: poster,
        ..m
    }) && m.gids is None && m.total_length is None && m.completed_length is None
        && m.subscription_id is None && m.subscription_title is None && m.batch_submitted_at is None
        && m.file_count is None && m.files is None && m.sync_downloads is None
        && m.completed_download_files is None
}

fn copy_poster(p: &Option<String>) -> (r: Option<String>)
    ensures
        r == *p,
{
    match p {
        Some(x) => Some(x.clone()),
        None => None,
    }
}

/// The attributes of a finished download's own notification.
pub fn download_completed_meta(task: &Aria2Task, poster_url: &Option<String>) -> (r: NotificationMeta)
    ensures
        completed_meta(r, *task, *poster_url),
{
    let mut m = NotificationMeta::empty();
    m.gid = Some(task.gid.clone());
    m.file_name = Some(task.file_name.clone());
    m.dir = Some(task.dir.clone());
    m.total_length = Some(task.total_length);
    m.completed_length = Some(task.completed_length);
    m.poster_url = copy_poster(poster_url);
    m
}

/// The attributes of a failed download's notification.
pub fn download_failed_meta(task: &Aria2Task, poster_url: &Option<String>) -> (r: NotificationMeta)
    ensures
        failed_meta(r, *task, *poster_url),
{
    let mut m = NotificationMeta::empty();
    m.gid = Some(task.gid.clone());
    m.file_name = Some(task.file_name.clone());
    m.dir = Some(task.dir.clone());
    m.error_code = Some(task.error_code.clone());
    m.error_message = Some(task.error_message.clone());
    m.poster_url = copy_poster(poster_url);
    m
}

/// Every record of the batch finished, or the history reports it failed.
pub open spec fn batch_settled(h: Seq<Notification>, records: Seq<SyncDownloadRecord>) -> bool {
    forall|k: int|
        0 <= k < records.len() ==> (#[trigger] records[k]).completed_at is Some || failed_gid_in(
            h,
            trim_seq(records[k].gid@),
        )
}

/// What to do about a finished download.
#[derive(Debug)]
pub enum CompletionAction {
    /// Its batch is still downloading: try again later.
    Defer,
    /// It, or its batch, was notified already.
    AlreadyRecorded,
    /// Notify its whole batch at once.
    NotifyBatch { subscription_id: String, title: String, message: String, meta: NotificationMeta },
    /// Notify it alone.
    NotifySingle { title: String, message: String, meta: NotificationMeta },
}

/// The poster of a batch, if the task has one.
pub open spec fn batch_poster(batch: Option<DownloadBatch>) -> Option<String> {
    match batch {
        Some(b) => b.poster_url,
        None => None,
    }
}

/// What is done about a finished download: a batch of several files waits
/// until every file finished or failed and is then notified once, unless
/// already notified; a lone file is notified unless already notified.
pub open spec fn completion_action_for(
    a: CompletionAction,
    batch: Option<DownloadBatch>,
    h: Seq<Notification>,
    pushed: Seq<(String, String)>,
    t: Aria2Task,
    tasks: Seq<Aria2Task>,
) -> bool {
    match batch {
        Some(b) => if b.records@.len() > 1 {
            if !batch_settled(h, b.records@) {
                a is Defer
            } else if merged_recorded(h, pushed, b, tasks) {
                a is AlreadyRecorded
            } else {
                a matches CompletionAction::NotifyBatch { subscription_id, title, message, meta }
                    && subscription_id == b.subscription_id && title@ == merged_title(b) && message@
                    == merged_message(b, tasks) && merged_meta(meta, b)
            }
        } else {
            single_action_for(a, batch, h, pushed, t)
        },
        None => single_action_for(a, batch, h, pushed, t),
    }
}

/// What is done about a download notified alone: nothing where it was
/// already notified, else its own notification.
pub open spec fn single_action_for(
    a: CompletionAction,
    batch: Option<DownloadBatch>,
    h: Seq<Notification>,
    pushed: Seq<(String, String)>,
    t: Aria2Task,
) -> bool {
    if completed_recorded(h, pushed, t) {
        a is AlreadyRecorded
    } else {
        a matches CompletionAction::NotifySingle { title, message, meta } && title@ == completed_title(
            t,
        ) && message@ == completed_message(t) && completed_meta(meta, t, batch_poster(batch))
    }
}

/// What to do about a finished download, given its batch.
pub fn completion_action(
    batch: &Option<DownloadBatch>,
    history: &[Notification],
    pushed: &[(String, String)],
    task: &Aria2Task,
    tasks: &[Aria2Task],
) -> (r: CompletionAction)
    ensures
        completion_action_for(r, *batch, history@, pushed@, *task, tasks@),
{
    if let Some(b) = batch {
        if b.records.len() > 1 {
            let failed = failed_download_gids(history);
            let settled = batch_records_settled(b.records.as_slice(), failed.as_slice());
            proof {
                assert(settled == batch_settled(history@, b.records@)) by {
                    if settled && !batch_settled(history@, b.records@) {
                        let k = choose|k: int|
                            0 <= k < b.records@.len() && !((#[trigger] b.records@[k]).completed_at is Some
                                || failed_gid_in(history@, trim_seq(b.records@[k].gid@)));
                        assert(views(failed@).contains(trim_seq(b.records@[k].gid@)));
                    }
                    if !settled && batch_settled(history@, b.records@) {
                        let k = choose|k: int|
                            0 <= k < b.records@.len() && !((#[trigger] b.records@[k]).completed_at is Some
                                || views(failed@).contains(trim_seq(b.records@[k].gid@)));
                        assert(failed_gid_in(history@, trim_seq(b.records@[k].gid@)));
                    }
                }
            }
            if !settled {
                return CompletionAction::Defer;
            }
            if merged_download_already_recorded(history, pushed, b, tasks) {
                return CompletionAction::AlreadyRecorded;
            }
            let (title, message, meta) = merged_download_message(b, tasks);
            return CompletionAction::NotifyBatch {
                subscription_id: b.subscription_id.clone(),
                title,
                message,
                meta,
            };
        }
    }
    if completed_download_already_recorded(history, pushed, task) {
        return CompletionAction::AlreadyRecorded;
    }
    let poster = match batch {
        Some(b) => copy_poster(&b.poster_url),
        None => None,
    };
    let (title, message) = download_completed_title_message(task);
    let meta = download_completed_meta(task, &poster);
    CompletionAction::NotifySingle { title, message, meta }
}

/// The notification of a failed download (title, message, attributes),
/// unless it was already notified or pushed.
pub fn failure_notice(
    poster_url: &Option<String>,
    history: &[Notification],
    pushed_failures: &[(String, String)],
    task: &Aria2Task,
) -> (r: Option<(String, String, NotificationMeta)>)
    ensures
        failed_recorded(history@, pushed_failures@, *task) ==> r is None,
        !failed_recorded(history@, pushed_failures@, *task) ==> (r matches Some(n) && n.0@
            == failed_title(*task) && n.1@ == failed_message(*task) && failed_meta(n.2, *task, *poster_url)),
{
    if failed_download_already_recorded(history, pushed_failures, task) {
        return None;
    }
    let (title, message) = download_failed_title_message(task);
    let meta = download_failed_meta(task, poster_url);
    Some((title, message, meta))
}

// ---------------------------------------------------------------------------
// Claiming finished tasks
// ---------------------------------------------------------------------------

/// The keys after remembering `k`.
pub open spec fn insert_key(keys: Seq<Seq<char>>, k: Seq<char>) -> Seq<Seq<char>> {
    if keys.contains(k) {
        keys
    } else {
        appended_capped(keys, k)
    }
}

/// The keys after remembering each of `ks` in turn.
pub open spec fn insert_keys(keys: Seq<Seq<char>>, ks: Seq<Seq<char>>) -> Seq<Seq<char>>
    decreases ks.len(),
{
    if ks.len() == 0 {
        keys
    } else {
        insert_key(insert_keys(keys, ks.drop_last()), ks.last())
    }
}

/// None of the task's keys is among `keys`.
pub open spec fn keys_unseen(keys: Seq<Seq<char>>, t: Aria2Task) -> bool {
    forall|j: int| 0 <= j < dedupe_keys(t).len() ==> !keys.contains(#[trigger] dedupe_keys(t)[j])
}

/// A task is claimed: it finished or failed, has a gid, and none of its keys
/// was remembered before the scan (`seen`) nor is now (`live`).
pub open spec fn claimable(seen: Seq<Seq<char>>, live: Seq<Seq<char>>, t: Aria2Task) -> bool {
    &&& (t.status@ == STATUS_COMPLETE@ || t.status@ == STATUS_ERROR@)
    &&& trim_seq(t.gid@).len() > 0
    &&& keys_unseen(seen, t)
    &&& keys_unseen(live, t)
}

/// The keys remembered and the tasks claimed (gid and keys) after a scan of
/// `tasks`, starting from `seen`.
pub open spec fn claims_after(seen: Seq<Seq<char>>, tasks: Seq<Aria2Task>) -> (Seq<Seq<char>>, Seq<(Seq<char>, Seq<Seq<char>>)>)
    decreases tasks.len(),
{
    if tasks.len() == 0 {
        (seen, Seq::empty())
    } else {
        let prev = claims_after(seen, tasks.drop_last());
        let t = tasks.last();
        if claimable(seen, prev.0, t) {
            (insert_keys(prev.0, dedupe_keys(t)), prev.1.push((t.gid@, dedupe_keys(t))))
        } else {
            prev
        }
    }
}

/// The view of claimed tasks.
pub open spec fn claim_views(v: Seq<(String, Vec<String>)>) -> Seq<(Seq<char>, Seq<Seq<char>>)> {
    v.map_values(|c: (String, Vec<String>)| (c.0@, views(c.1@)))
}

fn any_key_in(cache: &DedupeKeyCache, keys: &Vec<String>) -> (r: bool)
    requires
        cache.wf(),
    ensures
        r == exists|j: int| 0 <= j < keys@.len() && cache.keys().contains(#[trigger] views(keys@)[j]),
{
    let mut j: usize = 0;
    while j < keys.len()
        invariant
            j <= keys.len(),
            cache.wf(),
            forall|i: int| 0 <= i < j ==> !cache.keys().contains(#[trigger] views(keys@)[i]),
        decreases keys.len() - j,
    {
        if cache.contains(keys[j].as_str()) {
            assert(cache.keys().contains(views(keys@)[j as int]));
            return true;
        }
        j += 1;
    }
    false
}

fn any_key_in_seen(seen: &Vec<String>, keys: &Vec<String>) -> (r: bool)
    ensures
        r == exists|j: int| 0 <= j < keys@.len() && views(seen@).contains(#[trigger] views(keys@)[j]),
{
    let mut j: usize = 0;
    while j < keys.len()
        invariant
            j <= keys.len(),
            forall|i: int| 0 <= i < j ==> !views(seen@).contains(#[trigger] views(keys@)[i]),
        decreases keys.len() - j,
    {
        let k = chars_of(keys[j].as_str());
        if strings_contain(seen.as_slice(), k.as_slice()) {
            assert(views(seen@).contains(views(keys@)[j as int]));
            return true;
        }
        j += 1;
    }
    false
}

/// Claims the finished and failed tasks not handled yet: remembers their keys
/// and returns their gids with the keys to release if handling them fails.
pub fn claim_finished_downloads(cache: &mut DedupeKeyCache, tasks: &[Aria2Task]) -> (r: Vec<(String, Vec<String>)>)
    requires
        old(cache).wf(),
    ensures
        final(cache).wf(),
        final(cache).keys() == claims_after(old(cache).keys(), tasks@).0,
        claim_views(r@) == claims_after(old(cache).keys(), tasks@).1,
{
    let seen = cache.snapshot();
    let ghost start = cache.keys();
    let mut claimed: Vec<(String, Vec<String>)> = Vec::new();
    let mut i: usize = 0;
    while i < tasks.len()
        invariant
            i <= tasks.len(),
            cache.wf(),
            views(seen@) == start,
            start == old(cache).keys(),
            cache.keys() == claims_after(start, tasks@.take(i as int)).0,
            claim_views(claimed@) == claims_after(start, tasks@.take(i as int)).1,
        decreases tasks.len() - i,
    {
        let task = &tasks[i];
        assert(tasks@.take(i + 1).drop_last() =~= tasks@.take(i as int));
        assert(tasks@.take(i + 1).last() == tasks@[i as int]);
        let ghost live = cache.keys();
        let status_ok = str_eq(task.status.as_str(), STATUS_COMPLETE) || str_eq(task.status.as_str(), STATUS_ERROR);
        let has_gid = trim_str(task.gid.as_str()).len() > 0;
        let keys = download_dedupe_keys(task);
        let unseen_before = !any_key_in_seen(&seen, &keys);
        let unseen_now = !any_key_in(cache, &keys);
        let ok = status_ok && has_gid && unseen_before && unseen_now;
        assert(ok == claimable(start, live, *task)) by {
            assert(views(keys@) == dedupe_keys(*task));
            if unseen_before {
                assert forall|j: int| 0 <= j < dedupe_keys(*task).len() implies !start.contains(
                    #[trigger] dedupe_keys(*task)[j],
                ) by {
                    assert(views(keys@)[j] == dedupe_keys(*task)[j]);
                }
            }
        }
        if ok {
            let mut j: usize = 0;
            while j < keys.len()
                invariant
                    j <= keys.len(),
                    cache.wf(),
                    cache.keys() == insert_keys(live, views(keys@).take(j as int)),
                decreases keys.len() - j,
            {
                assert(views(keys@).take(j + 1).drop_last() =~= views(keys@).take(j as int));
                cache.insert(keys[j].clone());
                j += 1;
            }
            assert(views(keys@).take(keys.len() as int) =~= views(keys@));
            let ghost before = claim_views(claimed@);
            claimed.push((task.gid.clone(), keys));
            assert(claim_views(claimed@) =~= before.push((task.gid@, dedupe_keys(*task))));
        }
        i += 1;
    }
    assert(tasks@.take(tasks.len() as int) =~= tasks@);
    claimed
}

// ---------------------------------------------------------------------------
// Laws of the dedupe keys
// ---------------------------------------------------------------------------

/// A remembered key is held afterwards, and the cache stays within its cap.
pub proof fn remembered_key_is_held(keys: Seq<Seq<char>>, key: Seq<char>)
    requires
        keys.len() <= MAX_TRACKED_DEDUPE_KEYS,
    ensures
        insert_key(keys, key).contains(key),
        insert_key(keys, key).len() <= MAX_TRACKED_DEDUPE_KEYS,
{
    if !keys.contains(key) {
        let t = keys.push(key);
        assert(t[t.len() - 1] == key);
        if t.len() > MAX_TRACKED_DEDUPE_KEYS {
            let r = t.skip(t.len() - MAX_TRACKED_DEDUPE_KEYS);
            assert(r[r.len() - 1] == key);
        }
    }
}

/// A forgotten key is no longer held (each key is held once).
pub proof fn forgotten_key_is_gone(keys: Seq<Seq<char>>, i: int)
    requires
        keys.no_duplicates(),
        0 <= i < keys.len(),
    ensures
        !keys.remove(i).contains(keys[i]),
{
    let r = keys.remove(i);
    if r.contains(keys[i]) {
        let j = choose|j: int| 0 <= j < r.len() && r[j] == keys[i];
        if j < i {
            assert(keys[j] == keys[i]);
        } else {
            assert(keys[j + 1] == keys[i]);
        }
    }
}

proof fn lemma_insert_key_grows(keys: Seq<Seq<char>>, k: Seq<char>)
    requires
        keys.len() < MAX_TRACKED_DEDUPE_KEYS,
    ensures
        insert_key(keys, k).contains(k),
        insert_key(keys, k).len() <= keys.len() + 1,
        forall|x: Seq<char>| keys.contains(x) ==> #[trigger] insert_key(keys, k).contains(x),
{
    if !keys.contains(k) {
        let t = keys.push(k);
        assert(t[t.len() - 1] == k);
        assert forall|x: Seq<char>| keys.contains(x) implies #[trigger] insert_key(keys, k).contains(x) by {
            let j = choose|j: int| 0 <= j < keys.len() && keys[j] == x;
            assert(t[j] == x);
        }
    }
}

proof fn lemma_insert_keys_grows(keys: Seq<Seq<char>>, ks: Seq<Seq<char>>)
    requires
        keys.len() + ks.len() <= MAX_TRACKED_DEDUPE_KEYS,
    ensures
        insert_keys(keys, ks).len() <= keys.len() + ks.len(),
        forall|x: Seq<char>| keys.contains(x) ==> #[trigger] insert_keys(keys, ks).contains(x),
        forall|j: int| 0 <= j < ks.len() ==> insert_keys(keys, ks).contains(#[trigger] ks[j]),
    decreases ks.len(),
{
    if ks.len() > 0 {
        let prev = insert_keys(keys, ks.drop_last());
        lemma_insert_keys_grows(keys, ks.drop_last());
        lemma_insert_key_grows(prev, ks.last());
        assert forall|j: int| 0 <= j < ks.len() implies insert_keys(keys, ks).contains(#[trigger] ks[j]) by {
            if j < ks.len() - 1 {
                assert(ks.drop_last()[j] == ks[j]);
                assert(prev.contains(ks[j]));
            }
        }
    }
}

/// A task that finished (or failed) with a gid has, after the scan, one of
/// its keys remembered.
pub open spec fn task_remembered(keys: Seq<Seq<char>>, t: Aria2Task) -> bool {
    (t.status@ == STATUS_COMPLETE@ || t.status@ == STATUS_ERROR@) && trim_seq(t.gid@).len() > 0 ==> !keys_unseen(keys, t)
}

proof fn lemma_first_scan(seen: Seq<Seq<char>>, tasks: Seq<Aria2Task>)
    requires
        seen.len() + 2 * tasks.len() <= MAX_TRACKED_DEDUPE_KEYS,
    ensures
        claims_after(seen, tasks).0.len() <= seen.len() + 2 * tasks.len(),
        forall|x: Seq<char>| seen.contains(x) ==> #[trigger] claims_after(seen, tasks).0.contains(x),
        forall|i: int| 0 <= i < tasks.len() ==> task_remembered(claims_after(seen, tasks).0, #[trigger] tasks[i]),
    decreases tasks.len(),
{
    if tasks.len() > 0 {
        let init = tasks.drop_last();
        lemma_first_scan(seen, init);
        let prev = claims_after(seen, init);
        let t = tasks.last();
        let next = claims_after(seen, tasks).0;
        if claimable(seen, prev.0, t) {
            lemma_insert_keys_grows(prev.0, dedupe_keys(t));
            assert(dedupe_keys(t).len() <= 2);
        }
        assert forall|x: Seq<char>| prev.0.contains(x) implies #[trigger] next.contains(x) by {
            if claimable(seen, prev.0, t) {
                lemma_insert_keys_grows(prev.0, dedupe_keys(t));
            }
        }
        assert forall|i: int| 0 <= i < tasks.len() implies task_remembered(next, #[trigger] tasks[i]) by {
            if i < tasks.len() - 1 {
                assert(init[i] == tasks[i]);
                assert(task_remembered(prev.0, init[i]));
                if (tasks[i].status@ == STATUS_COMPLETE@ || tasks[i].status@ == STATUS_ERROR@) && trim_seq(
                    tasks[i].gid@,
                ).len() > 0 {
                    let j = choose|j: int| 0 <= j < dedupe_keys(tasks[i]).len() && prev.0.contains(
                        #[trigger] dedupe_keys(tasks[i])[j],
                    );
                    assert(next.contains(dedupe_keys(tasks[i])[j]));
                }
            } else {
                assert(tasks[i] == t);
                if (t.status@ == STATUS_COMPLETE@ || t.status@ == STATUS_ERROR@) && trim_seq(t.gid@).len() > 0 {
                    if claimable(seen, prev.0, t) {
                        lemma_insert_keys_grows(prev.0, dedupe_keys(t));
                        assert(next.contains(dedupe_keys(t)[0]));
                    } else if !keys_unseen(seen, t) {
                        let j = choose|j: int| 0 <= j < dedupe_keys(t).len() && seen.contains(
                            #[trigger] dedupe_keys(t)[j],
                        );
                        assert(next.contains(dedupe_keys(t)[j]));
                    } else {
                        let j = choose|j: int| 0 <= j < dedupe_keys(t).len() && prev.0.contains(
                            #[trigger] dedupe_keys(t)[j],
                        );
                        assert(next.contains(dedupe_keys(t)[j]));
                    }
                }
            }
        }
    }
}

proof fn lemma_second_scan(keys: Seq<Seq<char>>, tasks: Seq<Aria2Task>)
    requires
        forall|i: int| 0 <= i < tasks.len() ==> task_remembered(keys, #[trigger] tasks[i]),
    ensures
        claims_after(keys, tasks).0 == keys,
        claims_after(keys, tasks).1.len() == 0,
    decreases tasks.len(),
{
    if tasks.len() > 0 {
        let init = tasks.drop_last();
        assert forall|i: int| 0 <= i < init.len() implies task_remembered(keys, #[trigger] init[i]) by {
            assert(init[i] == tasks[i]);
        }
        lemma_second_scan(keys, init);
        assert(task_remembered(keys, tasks[tasks.len() - 1]));
    }
}

/// Scanning the same tasks a second time claims none of them again, while
/// the keys both scans remember stay within the cap.
pub proof fn rescan_claims_nothing(seen: Seq<Seq<char>>, tasks: Seq<Aria2Task>)
    requires
        seen.len() + 2 * tasks.len() <= MAX_TRACKED_DEDUPE_KEYS,
    ensures
        claims_after(claims_after(seen, tasks).0, tasks).1.len() == 0,
        claims_after(claims_after(seen, tasks).0, tasks).0 == claims_after(seen, tasks).0,
{
    lemma_first_scan(seen, tasks);
    lemma_second_scan(claims_after(seen, tasks).0, tasks);
}

} // verus!
