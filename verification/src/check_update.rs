use vstd::prelude::*;
use vstd::relations::{sorted_by, total_ordering};
use crate::file_filter::{records_known, should_record_known_probe_file};
use crate::model::{
    copy_numbers, copy_probe, copy_strings, probe_view, CheckHistoryItem, ProbeFile, ProbeResult,
    Subscription,
};
use crate::progress::{completion_target_episode, target_of};
use crate::subscription_check::CheckDetails;
use crate::text::{chars_of, owned, strings_contain, views};

verus! {

// ---------------------------------------------------------------------------
// Sorting episode numbers
// ---------------------------------------------------------------------------

/// The order episode numbers are sorted by.
pub open spec fn episode_leq() -> spec_fn(i32, i32) -> bool {
    |a: i32, b: i32| a <= b
}

proof fn lemma_episode_leq_total()
    ensures
        total_ordering(episode_leq()),
{
}

/// The numbers sorted in increasing order (`sort`).
pub fn sort_numbers(v: &Vec<i32>) -> (r: Vec<i32>)
    ensures
        r@ == v@.sort_by(episode_leq()),
{
    let mut out: Vec<i32> = Vec::new();
    let mut i: usize = 0;
    assert(v@.take(0) =~= Seq::<i32>::empty());
    while i < v.len()
        invariant
            i <= v.len(),
            sorted_by(out@, episode_leq()),
            out@.to_multiset() == v@.take(i as int).to_multiset(),
        decreases v.len() - i,
    {
        let x = v[i];
        let mut pos: usize = 0;
        while pos < out.len() && out[pos] <= x
            invariant
                pos <= out.len(),
                forall|j: int| 0 <= j < pos ==> out@[j] <= x,
            decreases out.len() - pos,
        {
            pos += 1;
        }
        let ghost before = out@;
        out.insert(pos, x);
        assert(out@ == before.insert(pos as int, x));
        assert(sorted_by(out@, episode_leq())) by {
            assert forall|a: int, b: int| 0 <= a < b < out@.len() implies #[trigger] episode_leq()(
                out@[a],
                out@[b],
            ) by {
                if a < pos && b < pos {
                    assert(episode_leq()(before[a], before[b]));
                } else if a < pos && b == pos {
                } else if a < pos {
                    assert(episode_leq()(before[a], before[b - 1]));
                } else if a == pos {
                    if (pos as int) < before.len() {
                        assert(before[pos as int] > x);
                        if b - 1 > pos {
                            assert(episode_leq()(before[pos as int], before[b - 1]));
                        }
                    }
                } else {
                    assert(episode_leq()(before[a - 1], before[b - 1]));
                }
            }
        }
        assert(v@.take(i + 1) =~= v@.take(i as int).push(x));
        proof {
            vstd::seq_lib::to_multiset_insert(before, pos as int, x);
            vstd::seq_lib::to_multiset_build(v@.take(i as int), x);
        }
        i += 1;
    }
    assert(v@.take(v.len() as int) =~= v@);
    proof {
        lemma_episode_leq_total();
        v@.lemma_sort_by_ensures(episode_leq());
        vstd::seq_lib::lemma_sorted_unique(out@, v@.sort_by(episode_leq()), episode_leq());
    }
    out
}

// ---------------------------------------------------------------------------
// Recording a check
// ---------------------------------------------------------------------------

pub const STATUS_ACTIVE: &'static str = "active";
pub const STATUS_COMPLETED: &'static str = "completed";
pub const MAX_CHECK_HISTORY: usize = 30;

/// The known file names and keys after a probe: each probed file the
/// subscription remembers, and whose key is not known yet, is added in order.
pub open spec fn known_after(s: Subscription, files: Seq<ProbeFile>) -> (Seq<Seq<char>>, Seq<Seq<char>>)
    decreases files.len(),
{
    if files.len() == 0 {
        (views(s.known_files@), views(s.known_file_keys@))
    } else {
        let prev = known_after(s, files.drop_last());
        let f = files.last();
        if records_known(s, f) && !prev.1.contains(f.file_key@) {
            (prev.0.push(f.name@), prev.1.push(f.file_key@))
        } else {
            prev
        }
    }
}

/// The episodes kept under the target episode, if there is one.
pub open spec fn episodes_within(eps: Seq<i32>, target: Option<i32>) -> Seq<i32>
    decreases eps.len(),
{
    if eps.len() == 0 {
        Seq::empty()
    } else {
        let prev = episodes_within(eps.drop_last(), target);
        match target {
            Some(t) => if eps.last() <= t {
                prev.push(eps.last())
            } else {
                prev
            },
            None => prev.push(eps.last()),
        }
    }
}

/// `base` with each of `new` appended that it does not hold yet.
pub open spec fn append_missing(base: Seq<i32>, new: Seq<i32>) -> Seq<i32>
    decreases new.len(),
{
    if new.len() == 0 {
        base
    } else {
        let prev = append_missing(base, new.drop_last());
        if prev.contains(new.last()) {
            prev
        } else {
            prev.push(new.last())
        }
    }
}

/// The known episodes after a check: those within the target, with the new
/// ones added, sorted.
pub open spec fn known_episodes_after(s: Subscription, new_eps: Seq<i32>) -> Seq<i32> {
    append_missing(episodes_within(s.known_episodes@, target_of(s)), new_eps).sort_by(episode_leq())
}

/// The history entry of a check.
pub open spec fn history_entry(
    item: CheckHistoryItem,
    probe: ProbeResult,
    details: CheckDetails,
    new_files: Seq<Seq<char>>,
    new_eps: Seq<i32>,
    summary: Seq<char>,
    now: i64,
) -> bool {
    &&& item.time == now
    &&& item.state@ == probe.state@
    &&& item.matched_count == probe.files@.len() as i32
    &&& item.transfer_count == 0
    &&& item.scanned_count == details.scanned_count as i32
    &&& item.new_count == details.new_count as i32
    &&& item.known_count == details.known_count as i32
    &&& item.skipped_directory_count == details.skipped_directory_count as i32
    &&& item.skipped_other_season_count == details.skipped_other_season_count as i32
    &&& item.skipped_before_start_count == details.skipped_before_start_count as i32
    &&& item.skipped_duplicate_episode_count == details.skipped_duplicate_episode_count as i32
    &&& views(item.new_files@) == new_files
    &&& item.new_episodes@ == new_eps
    &&& item.summary@ == summary
}

/// A subscription after a check was recorded: known files and episodes
/// extended, progress set to the highest known episode, the check's facts
/// stored, errors cleared where the probe succeeded, completion applied, and
/// the check put first in a history of at most thirty entries.
pub open spec fn check_recorded(
    old: Subscription,
    new: Subscription,
    probe: ProbeResult,
    new_files: Seq<Seq<char>>,
    new_eps: Seq<i32>,
    summary: Seq<char>,
    completed: bool,
    details: CheckDetails,
    now: i64,
) -> bool {
    let known = known_after(old, probe.files@);
    let eps = known_episodes_after(old, new_eps);
    &&& views(new.known_files@) == known.0
    &&& views(new.known_file_keys@) == known.1
    &&& new.known_episodes@ == eps
    &&& new.current_episode_number == if eps.len() == 0 {
        0
    } else {
        eps.last()
    }
    &&& new.last_checked_at == now
    &&& new.updated_at == now
    &&& views(new.last_new_files@) == new_files
    &&& new.last_new_episodes@ == new_eps
    &&& new.last_check_summary@ == summary
    &&& probe_view(new.last_probe) == Some(probe@)
    &&& if probe.ok {
        &&& new.last_error@.len() == 0
        &&& new.invalid_since is None
        &&& new.source_failure_count == 0
        &&& new.status@ == if completed {
            STATUS_COMPLETED@
        } else {
            STATUS_ACTIVE@
        }
    } else {
        &&& new.last_error == old.last_error
        &&& new.invalid_since == old.invalid_since
        &&& new.source_failure_count == old.source_failure_count
        &&& new.status == old.status
    }
    &&& if completed {
        &&& new.completed
        &&& new.total_episode_number == match old.total_episode_number {
            Some(n) => Some(n),
            None => old.rules.finish_after_episode,
        }
    } else {
        &&& new.completed == old.completed
        &&& new.total_episode_number == old.total_episode_number
    }
    &&& new.check_history@.len() == if old.check_history@.len() + 1 > MAX_CHECK_HISTORY {
        MAX_CHECK_HISTORY as int
    } else {
        old.check_history@.len() + 1 as int
    }
    &&& history_entry(new.check_history@[0], probe, details, new_files, new_eps, summary, now)
    &&& forall|k: int|
        1 <= k < new.check_history@.len() ==> #[trigger] new.check_history@[k] == old.check_history@[k
            - 1]
    &&& new == (Subscription {
        known_files: new.known_files,
        known_file_keys: new.known_file_keys,
        known_episodes: new.known_episodes,
        current_episode_number: new.current_episode_number,
        last_checked_at: new.last_checked_at,
        updated_at: new.updated_at,
        last_new_files: new.last_new_files,
        last_new_episodes: new.last_new_episodes,
        last_check_summary: new.last_check_summary,
        last_probe: new.last_probe,
        last_error: new.last_error,
        invalid_since: new.invalid_since,
        source_failure_count: new.source_failure_count,
        status: new.status,
        completed: new.completed,
        total_episode_number: new.total_episode_number,
        check_history: new.check_history,
        ..old
    })
}

/// Records a check's outcome on the subscription.
pub fn apply_check_result(
    s: &mut Subscription,
    probe: &ProbeResult,
    new_files: &Vec<String>,
    new_episodes: &Vec<i32>,
    summary: &str,
    completed: bool,
    details: &CheckDetails,
    now: i64,
)
    ensures
        check_recorded(
            *old(s),
            *final(s),
            *probe,
            views(new_files@),
            new_episodes@,
            summary@,
            completed,
            *details,
            now,
        ),
{
    let mut known_files = copy_strings(&s.known_files);
    let mut known_keys = copy_strings(&s.known_file_keys);
    let mut i: usize = 0;
    while i < probe.files.len()
        invariant
            i <= probe.files.len(),
            *s == *old(s),
            (views(known_files@), views(known_keys@)) == known_after(*s, probe.files@.take(i as int)),
        decreases probe.files.len() - i,
    {
        assert(probe.files@.take(i + 1).drop_last() =~= probe.files@.take(i as int));
        assert(probe.files@.take(i + 1).last() == probe.files@[i as int]);
        let f = &probe.files[i];
        if should_record_known_probe_file(s, f) {
            let key = chars_of(f.file_key.as_str());
            if !strings_contain(known_keys.as_slice(), key.as_slice()) {
                let ghost a = views(known_files@);
                let ghost b = views(known_keys@);
                known_files.push(f.name.clone());
                known_keys.push(f.file_key.clone());
                assert(views(known_files@) =~= a.push(f.name@));
                assert(views(known_keys@) =~= b.push(f.file_key@));
            }
        }
        i += 1;
    }
    assert(probe.files@.take(probe.files.len() as int) =~= probe.files@);
    let target = completion_target_episode(s);
    let mut eps: Vec<i32> = Vec::new();
    let mut j: usize = 0;
    while j < s.known_episodes.len()
        invariant
            j <= s.known_episodes.len(),
            *s == *old(s),
            target == target_of(*s),
            eps@ == episodes_within(s.known_episodes@.take(j as int), target),
        decreases s.known_episodes.len() - j,
    {
        assert(s.known_episodes@.take(j + 1).drop_last() =~= s.known_episodes@.take(j as int));
        let e = s.known_episodes[j];
        let keep = match target {
            Some(t) => e <= t,
            None => true,
        };
        if keep {
            eps.push(e);
        }
        j += 1;
    }
    assert(s.known_episodes@.take(s.known_episodes.len() as int) =~= s.known_episodes@);
    let ghost within = eps@;
    let mut k: usize = 0;
    while k < new_episodes.len()
        invariant
            k <= new_episodes.len(),
            eps@ == append_missing(within, new_episodes@.take(k as int)),
        decreases new_episodes.len() - k,
    {
        assert(new_episodes@.take(k + 1).drop_last() =~= new_episodes@.take(k as int));
        let e = new_episodes[k];
        if !crate::file_filter::numbers_contain(&eps, e) {
            eps.push(e);
        }
        k += 1;
    }
    assert(new_episodes@.take(new_episodes.len() as int) =~= new_episodes@);
    let sorted = sort_numbers(&eps);
    let current = if sorted.len() == 0 {
        0
    } else {
        sorted[sorted.len() - 1]
    };
    let item = CheckHistoryItem {
        time: now,
        state: probe.state.clone(),
        matched_count: probe.files.len() as i32,
        transfer_count: 0,
        scanned_count: details.scanned_count as i32,
        new_count: details.new_count as i32,
        known_count: details.known_count as i32,
        skipped_directory_count: details.skipped_directory_count as i32,
        skipped_other_season_count: details.skipped_other_season_count as i32,
        skipped_before_start_count: details.skipped_before_start_count as i32,
        skipped_duplicate_episode_count: details.skipped_duplicate_episode_count as i32,
        new_files: copy_strings(new_files),
        new_episodes: copy_numbers(new_episodes),
        summary: owned(summary),
    };
    s.known_files = known_files;
    s.known_file_keys = known_keys;
    s.known_episodes = sorted;
    s.current_episode_number = current;
    s.last_checked_at = now;
    s.last_new_files = copy_strings(new_files);
    s.last_new_episodes = copy_numbers(new_episodes);
    s.last_check_summary = owned(summary);
    s.last_probe = Some(copy_probe(probe));
    s.updated_at = now;
    if probe.ok {
        s.last_error = String::new();
        s.invalid_since = None;
        s.source_failure_count = 0;
        s.status = owned(
            if completed {
                STATUS_COMPLETED
            } else {
                STATUS_ACTIVE
            },
        );
    }
    if completed {
        s.completed = true;
        if s.total_episode_number.is_none() {
            s.total_episode_number = s.rules.finish_after_episode;
        }
    }
    let ghost history = s.check_history@;
    s.check_history.insert(0, item);
    if s.check_history.len() > MAX_CHECK_HISTORY {
        s.check_history.truncate(MAX_CHECK_HISTORY);
    }
    assert forall|k: int| 1 <= k < s.check_history@.len() implies #[trigger] s.check_history@[k]
        == history[k - 1] by {
    }
}

/// A check keeps at most thirty history entries, its own first.
pub proof fn check_history_stays_bounded(
    old: Subscription,
    new: Subscription,
    probe: ProbeResult,
    new_files: Seq<Seq<char>>,
    new_eps: Seq<i32>,
    summary: Seq<char>,
    completed: bool,
    details: CheckDetails,
    now: i64,
)
    requires
        check_recorded(old, new, probe, new_files, new_eps, summary, completed, details, now),
    ensures
        new.check_history@.len() <= MAX_CHECK_HISTORY,
        new.check_history@[0].time == now,
{
}

} // verus!
