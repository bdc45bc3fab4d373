//! Subscription progress: completion targets, completion and reopening.
use vstd::prelude::*;
use crate::episode::{detect_episode, detection_of, is_video, is_video_name, or_else};
use crate::model::{episode_count_for_season, season_episode_count, Subscription};
use crate::text::{owned, views};

verus! {

// ---------------------------------------------------------------------------
// Specifications
// ---------------------------------------------------------------------------

/// The episode at which a subscription is complete: the rule's
/// `finish_after_episode`, else the total episode count, when positive.
pub open spec fn target_of(sub: Subscription) -> Option<i32> {
    match or_else(sub.rules.finish_after_episode, sub.total_episode_number) {
        Some(e) => if e > 0 {
            Some(e)
        } else {
            None
        },
        None => None,
    }
}

/// Some file name in the list is recognised as episode `e`.
pub open spec fn names_have_episode(names: Seq<Seq<char>>, e: i32) -> bool {
    exists|i: int| 0 <= i < names.len() && detection_of(#[trigger] names[i]).episode == Some(e)
}

/// Some file name in the list is a video.
pub open spec fn names_have_video(names: Seq<Seq<char>>) -> bool {
    exists|i: int| 0 <= i < names.len() && is_video(#[trigger] names[i])
}

pub open spec fn is_movie(sub: Subscription) -> bool {
    sub.media_type@ == "movie"@
}

pub open spec fn is_completed_status(sub: Subscription) -> bool {
    sub.status@ == "completed"@
}

/// The target episode is already current, known, among `additional`, or
/// among the transferred files.
pub open spec fn reached_target(sub: Subscription, additional: Seq<i32>) -> bool {
    match target_of(sub) {
        Some(t) => sub.current_episode_number == t || sub.known_episodes@.contains(t)
            || additional.contains(t) || names_have_episode(views(sub.transferred_files@), t),
        None => false,
    }
}

/// A completed (or completed-status) series whose target is not reached.
pub open spec fn reopen_wanted(sub: Subscription) -> bool {
    (sub.completed || is_completed_status(sub)) && !is_movie(sub) && target_of(sub) is Some
        && !reached_target(sub, seq![])
}

/// Completion from discovered evidence.
pub open spec fn complete_by_known(sub: Subscription, new_episodes: Seq<i32>) -> bool {
    !sub.completed && if is_movie(sub) {
        names_have_video(views(sub.known_files@) + views(sub.transferred_files@))
    } else {
        reached_target(sub, new_episodes)
    }
}

/// Completion from a list of file names.
pub open spec fn complete_by_names(sub: Subscription, names: Seq<Seq<char>>) -> bool {
    !sub.completed && if is_movie(sub) {
        names_have_video(names)
    } else {
        match target_of(sub) {
            Some(t) => names_have_episode(names, t),
            None => false,
        }
    }
}

/// `after` is `before` with only the completion fields (`completed`, `status`,
/// `invalid_since`, `last_error`) possibly changed.
pub open spec fn same_but_completion(before: Subscription, after: Subscription) -> bool {
    after == Subscription {
        completed: after.completed,
        status: after.status,
        invalid_since: after.invalid_since,
        last_error: after.last_error,
        ..before
    }
}

/// The completion fields of an active, error-free subscription.
pub open spec fn reactivated(after: Subscription) -> bool {
    !after.completed && after.status@ == "active"@ && after.invalid_since is None
        && after.last_error@.len() == 0
}

/// The completion fields of a completed, error-free subscription.
pub open spec fn marked_completed(after: Subscription) -> bool {
    after.completed && after.status@ == "completed"@ && after.invalid_since is None
        && after.last_error@.len() == 0
}

/// Whether the metadata's episode count would be recorded as the total.
pub open spec fn backfill_wanted(sub: Subscription) -> bool {
    !is_movie(sub) && !sub.spans_seasons() && sub.total_episode_number is None && match
    season_episode_count(sub.metadata, sub.season) {
        Some(c) => c > 0,
        None => false,
    }
}

/// The subscription after recording the metadata's episode count as its total
/// (when [`backfill_wanted`]).
pub open spec fn backfilled(sub: Subscription) -> Subscription {
    if backfill_wanted(sub) {
        Subscription { total_episode_number: season_episode_count(sub.metadata, sub.season), ..sub }
    } else {
        sub
    }
}

/// Sorted strictly ascending.
pub open spec fn strictly_sorted(s: Seq<i32>) -> bool {
    forall|i: int, j: int| 0 <= i < j < s.len() ==> s[i] < s[j]
}

// ---------------------------------------------------------------------------
// Executable code
// ---------------------------------------------------------------------------

/// The episode at which the subscription is complete, if any.
pub fn completion_target_episode(sub: &Subscription) -> (r: Option<i32>)
    ensures
        r == target_of(*sub),
{
    let e = match sub.rules.finish_after_episode {
        Some(e) => Some(e),
        None => sub.total_episode_number,
    };
    match e {
        Some(e) => if e > 0 {
            Some(e)
        } else {
            None
        },
        None => None,
    }
}

fn is_movie_exec(sub: &Subscription) -> (r: bool)
    ensures
        r == is_movie(*sub),
{
    crate::text::str_eq(sub.media_type.as_str(), "movie")
}

fn is_completed_status_exec(sub: &Subscription) -> (r: bool)
    ensures
        r == is_completed_status(*sub),
{
    crate::text::str_eq(sub.status.as_str(), "completed")
}

/// Records the metadata's episode count for the subscription's season as its
/// total, for a single-season series without a total. Returns whether it did.
pub fn backfill_total_episode_from_metadata(sub: &mut Subscription) -> (r: bool)
    ensures
        r == backfill_wanted(*old(sub)),
        *final(sub) == backfilled(*old(sub)),
{
    if is_movie_exec(sub) || sub.is_multi_season() || sub.total_episode_number.is_some() {
        return false;
    }
    let count = match episode_count_for_season(sub.metadata.as_ref(), sub.season) {
        Some(c) => if c > 0 {
            c
        } else {
            return false;
        },
        None => {
            return false;
        },
    };
    sub.total_episode_number = Some(count);
    true
}

fn contains_i32(v: &[i32], x: i32) -> (r: bool)
    ensures
        r == v@.contains(x),
{
    let mut i: usize = 0;
    while i < v.len()
        invariant
            i <= v.len(),
            forall|m: int| 0 <= m < i ==> v@[m] != x,
        decreases v.len() - i,
    {
        if v[i] == x {
            assert(v@[i as int] == x);
            return true;
        }
        i = i + 1;
    }
    false
}

/// Inserts `x` into a strictly ascending vector unless present.
pub(crate) fn insert_sorted(v: &mut Vec<i32>, x: i32)
    requires
        strictly_sorted(old(v)@),
    ensures
        strictly_sorted(final(v)@),
        forall|y: i32| final(v)@.contains(y) <==> (old(v)@.contains(y) || y == x),
{
    let mut i: usize = 0;
    while i < v.len() && v[i] < x
        invariant
            i <= v.len(),
            forall|m: int| 0 <= m < i ==> v@[m] < x,
        decreases v.len() - i,
    {
        i = i + 1;
    }
    if i < v.len() && v[i] == x {
        return;
    }
    let ghost before = v@;
    v.insert(i, x);
    assert(v@ =~= before.insert(i as int, x));
    assert forall|y: i32| #[trigger] v@.contains(y) implies (before.contains(y) || y == x) by {
        let k = choose|k: int| 0 <= k < v@.len() && v@[k] == y;
        if k < i {
            assert(before[k] == y);
        } else if k > i {
            assert(before[k - 1] == y);
        }
    }
    assert forall|y: i32| (before.contains(y) || y == x) implies #[trigger] v@.contains(y) by {
        if y == x {
            assert(v@[i as int] == x);
        } else {
            let k = choose|k: int| 0 <= k < before.len() && before[k] == y;
            if k < i {
                assert(v@[k] == y);
            } else {
                assert(v@[k + 1] == y);
            }
        }
    }
    assert(strictly_sorted(v@)) by {
        assert forall|a: int, b: int| 0 <= a < b < v@.len() implies v@[a] < v@[b] by {
            if b < i {
            } else if b == i {
                assert(v@[a] == before[a]);
            } else if a < i {
                assert(v@[b] == before[b - 1]);
                if i < before.len() {
                    assert(before[i as int] > x);
                    assert(before[i as int] <= before[b - 1]);
                }
            } else if a == i {
                assert(v@[b] == before[b - 1]);
                assert(before[i as int] > x);
            } else {
                assert(v@[b] == before[b - 1]);
                assert(v@[a] == before[a - 1]);
            }
        }
    }
}

/// The episodes recognised in the file names, ascending and without
/// duplicates.
pub fn episode_numbers_from_file_names(file_names: &[String]) -> (r: Vec<i32>)
    ensures
        strictly_sorted(r@),
        forall|e: i32| r@.contains(e) <==> names_have_episode(views(file_names@), e),
{
    let mut episodes: Vec<i32> = Vec::new();
    let mut i: usize = 0;
    while i < file_names.len()
        invariant
            i <= file_names.len(),
            strictly_sorted(episodes@),
            forall|e: i32| episodes@.contains(e) <==> names_have_episode(
                views(file_names@).take(i as int),
                e,
            ),
        decreases file_names.len() - i,
    {
        let info = detect_episode(file_names[i].as_str());
        let ghost prefix = views(file_names@).take(i as int);
        let ghost next = views(file_names@).take(i + 1);
        assert(next[i as int] == file_names@[i as int]@);
        match info.episode {
            Some(e) => {
                insert_sorted(&mut episodes, e);
            },
            None => {},
        }
        assert forall|e: i32| episodes@.contains(e) <==> names_have_episode(next, e) by {
            if names_have_episode(next, e) {
                let k = choose|k: int| 0 <= k < next.len() && detection_of(#[trigger] next[k]).episode
                    == Some(e);
                if k < i {
                    assert(prefix[k] == next[k]);
                    assert(names_have_episode(prefix, e));
                }
            }
            if names_have_episode(prefix, e) {
                let k = choose|k: int| 0 <= k < prefix.len() && detection_of(#[trigger] prefix[k]).episode
                    == Some(e);
                assert(next[k] == prefix[k]);
            }
        }
        i = i + 1;
    }
    assert(views(file_names@).take(file_names.len() as int) =~= views(file_names@));
    episodes
}

fn names_have_episode_exec(names: &[String], e: i32) -> (r: bool)
    ensures
        r == names_have_episode(views(names@), e),
{
    let mut i: usize = 0;
    while i < names.len()
        invariant
            i <= names.len(),
            forall|m: int| 0 <= m < i ==> detection_of(#[trigger] views(names@)[m]).episode != Some(e),
        decreases names.len() - i,
    {
        let info = detect_episode(names[i].as_str());
        assert(views(names@)[i as int] == names@[i as int]@);
        if info.episode == Some(e) {
            return true;
        }
        i = i + 1;
    }
    false
}

fn names_have_video_exec(names: &[String]) -> (r: bool)
    ensures
        r == names_have_video(views(names@)),
{
    let mut i: usize = 0;
    while i < names.len()
        invariant
            i <= names.len(),
            forall|m: int| 0 <= m < i ==> !is_video(#[trigger] views(names@)[m]),
        decreases names.len() - i,
    {
        assert(views(names@)[i as int] == names@[i as int]@);
        if is_video_name(names[i].as_str()) {
            return true;
        }
        i = i + 1;
    }
    false
}

/// The highest episode among the known episodes, the transferred files and the
/// current episode.
pub fn progress_max_episode(sub: &Subscription) -> (r: i32)
    ensures
        r >= sub.current_episode_number,
        forall|i: int| 0 <= i < sub.known_episodes@.len() ==> sub.known_episodes@[i] <= r,
        forall|e: i32| names_have_episode(views(sub.transferred_files@), e) ==> e <= r,
        r == sub.current_episode_number || sub.known_episodes@.contains(r) || names_have_episode(
            views(sub.transferred_files@),
            r,
        ),
{
    let transferred = episode_numbers_from_file_names(sub.transferred_files.as_slice());
    let mut best = sub.current_episode_number;
    let mut i: usize = 0;
    while i < sub.known_episodes.len()
        invariant
            i <= sub.known_episodes.len(),
            best >= sub.current_episode_number,
            forall|m: int| 0 <= m < i ==> sub.known_episodes@[m] <= best,
            best == sub.current_episode_number || sub.known_episodes@.contains(best),
        decreases sub.known_episodes.len() - i,
    {
        if sub.known_episodes[i] > best {
            best = sub.known_episodes[i];
            assert(sub.known_episodes@[i as int] == best);
        }
        i = i + 1;
    }
    let mut j: usize = 0;
    while j < transferred.len()
        invariant
            j <= transferred.len(),
            best >= sub.current_episode_number,
            forall|m: int| 0 <= m < sub.known_episodes@.len() ==> sub.known_episodes@[m] <= best,
            forall|m: int| 0 <= m < j ==> transferred@[m] <= best,
            forall|e: i32| transferred@.contains(e) <==> names_have_episode(
                views(sub.transferred_files@),
                e,
            ),
            best == sub.current_episode_number || sub.known_episodes@.contains(best)
                || transferred@.contains(best),
        decreases transferred.len() - j,
    {
        if transferred[j] > best {
            best = transferred[j];
            assert(transferred@[j as int] == best);
        }
        j = j + 1;
    }
    assert forall|e: i32| names_have_episode(views(sub.transferred_files@), e) implies e <= best by {
        assert(transferred@.contains(e));
        let k = choose|k: int| 0 <= k < transferred@.len() && transferred@[k] == e;
    }
    best
}

fn has_reached_target_episode(sub: &Subscription, additional_episodes: &[i32]) -> (r: bool)
    ensures
        r == reached_target(*sub, additional_episodes@),
{
    let target = match completion_target_episode(sub) {
        Some(t) => t,
        None => {
            return false;
        },
    };
    sub.current_episode_number == target || contains_i32(sub.known_episodes.as_slice(), target)
        || contains_i32(additional_episodes, target) || names_have_episode_exec(
        sub.transferred_files.as_slice(),
        target,
    )
}

/// Whether a completed subscription must be reopened because its target
/// episode has not been reached (films are never reopened).
pub fn should_reopen_completed_subscription(sub: &Subscription) -> (r: bool)
    ensures
        r == reopen_wanted(*sub),
{
    if !sub.completed && !is_completed_status_exec(sub) {
        return false;
    }
    if is_movie_exec(sub) {
        return false;
    }
    let empty: Vec<i32> = Vec::new();
    assert(empty@ =~= seq![]);
    completion_target_episode(sub).is_some() && !has_reached_target_episode(sub, empty.as_slice())
}

/// Reopens a completed subscription whose target is not reached: not
/// completed, status `active`, no invalid time, no error. Returns whether it
/// did.
pub fn reopen_completed_subscription_status(sub: &mut Subscription) -> (r: bool)
    ensures
        r == reopen_wanted(*old(sub)),
        r ==> same_but_completion(*old(sub), *final(sub)) && reactivated(*final(sub)),
        !r ==> *final(sub) == *old(sub),
{
    if !should_reopen_completed_subscription(sub) {
        return false;
    }
    sub.completed = false;
    sub.status = owned("active");
    sub.invalid_since = None;
    sub.last_error = String::new();
    true
}

/// Whether discovered evidence completes the subscription: a film once a
/// video is known or transferred, a series once its target episode is
/// current, known, among `new_episodes` or transferred.
pub fn should_mark_completed_from_known_episodes(sub: &Subscription, new_episodes: &[i32]) -> (r:
    bool)
    ensures
        r == complete_by_known(*sub, new_episodes@),
{
    if sub.completed {
        return false;
    }
    if is_movie_exec(sub) {
        let known = names_have_video_exec(sub.known_files.as_slice());
        let transferred = names_have_video_exec(sub.transferred_files.as_slice());
        proof {
            let a = views(sub.known_files@);
            let b = views(sub.transferred_files@);
            if names_have_video(a + b) {
                let k = choose|k: int| 0 <= k < (a + b).len() && is_video(#[trigger] (a + b)[k]);
                if k < a.len() {
                    assert(a[k] == (a + b)[k]);
                } else {
                    assert(b[k - a.len()] == (a + b)[k]);
                }
            }
            if names_have_video(a) {
                let k = choose|k: int| 0 <= k < a.len() && is_video(#[trigger] a[k]);
                assert((a + b)[k] == a[k]);
            }
            if names_have_video(b) {
                let k = choose|k: int| 0 <= k < b.len() && is_video(#[trigger] b[k]);
                assert((a + b)[k + a.len()] == b[k]);
            }
        }
        return known || transferred;
    }
    has_reached_target_episode(sub, new_episodes)
}

/// Whether the file names complete the subscription: a film once one is a
/// video, a series once one is its target episode.
pub fn should_mark_completed_from_file_names(sub: &Subscription, file_names: &[String]) -> (r: bool)
    ensures
        r == complete_by_names(*sub, views(file_names@)),
{
    if sub.completed {
        return false;
    }
    if is_movie_exec(sub) {
        return names_have_video_exec(file_names);
    }
    let target = match completion_target_episode(sub) {
        Some(t) => t,
        None => {
            return false;
        },
    };
    let episodes = episode_numbers_from_file_names(file_names);
    contains_i32(episodes.as_slice(), target)
}

/// Copies of the strings, in order.
pub fn clone_strings(v: &[String]) -> (r: Vec<String>)
    ensures
        r@ == v@,
{
    let mut out: Vec<String> = Vec::new();
    let mut i: usize = 0;
    while i < v.len()
        invariant
            i <= v.len(),
            out@ == v@.take(i as int),
        decreases v.len() - i,
    {
        out.push(v[i].clone());
        assert(v@.take(i as int).push(v@[i as int]) =~= v@.take(i + 1));
        i = i + 1;
    }
    assert(v@.take(v.len() as int) =~= v@);
    out
}

/// Whether the transferred files, with `additional_file_names`, complete the
/// subscription.
pub fn should_mark_completed_from_transferred_files(
    sub: &Subscription,
    additional_file_names: &[String],
) -> (r: bool)
    ensures
        r == complete_by_names(
            *sub,
            views(sub.transferred_files@) + views(additional_file_names@),
        ),
{
    let mut file_names = clone_strings(sub.transferred_files.as_slice());
    let mut extra = clone_strings(additional_file_names);
    file_names.append(&mut extra);
    assert(views(file_names@) =~= views(sub.transferred_files@) + views(additional_file_names@));
    should_mark_completed_from_file_names(sub, file_names.as_slice())
}

/// Brings the completion flags in line with totals, rules and metadata:
/// backfills the total, reopens an unfinished completed series, repairs a
/// completed subscription whose status still reads `active`, and completes a
/// subscription whose evidence reaches its target (transferred files, or
/// discovered ones when it only notifies). Returns whether it reopened or
/// completed the subscription.
pub fn reconcile_completed_subscription_status(sub: &mut Subscription) -> (r: bool)
    ensures
        ({
            let b = backfilled(*old(sub));
            if reopen_wanted(b) {
                r && same_but_completion(b, *final(sub)) && reactivated(*final(sub))
            } else if b.completed || is_completed_status(b) {
                !r && if b.completed && b.status@ == "active"@ {
                    *final(sub) == Subscription { status: final(sub).status, ..b }
                        && final(sub).status@ == "completed"@
                } else {
                    *final(sub) == b
                }
            } else if (if b.notify_only {
                complete_by_known(b, seq![])
            } else {
                complete_by_names(b, views(b.transferred_files@))
            }) {
                r && same_but_completion(b, *final(sub)) && marked_completed(*final(sub))
            } else {
                !r && *final(sub) == b
            }
        }),
{
    backfill_total_episode_from_metadata(sub);
    if reopen_completed_subscription_status(sub) {
        return true;
    }
    if sub.completed || is_completed_status_exec(sub) {
        if sub.completed && crate::text::str_eq(sub.status.as_str(), "active") {
            sub.status = owned("completed");
        }
        return false;
    }
    let empty: Vec<i32> = Vec::new();
    assert(empty@ =~= seq![]);
    let no_names: Vec<String> = Vec::new();
    assert(views(sub.transferred_files@) + views(no_names@) =~= views(sub.transferred_files@));
    let reached = if sub.notify_only {
        should_mark_completed_from_known_episodes(sub, empty.as_slice())
    } else {
        should_mark_completed_from_transferred_files(sub, no_names.as_slice())
    };
    if !reached {
        return false;
    }
    sub.completed = true;
    sub.status = owned("completed");
    sub.invalid_since = None;
    sub.last_error = String::new();
    true
}

/// A film is never reopened, whatever its status and known episodes.
pub proof fn movies_are_never_reopened(sub: Subscription)
    requires
        is_movie(sub),
    ensures
        !reopen_wanted(sub),
{
}

/// A reopened subscription is active again and is not reopened a second
/// time.
pub proof fn reopened_is_not_reopened_again(sub: Subscription)
    requires
        reactivated(sub),
    ensures
        !reopen_wanted(sub),
{
    reveal_strlit("active");
    reveal_strlit("completed");
    assert("active"@ != "completed"@) by {
        assert("active"@[0] != "completed"@[0]);
    }
}


/// The episode a subscription completes at is the one its rules stop after,
/// when that is set and positive, whatever the total number of episodes; the
/// total counts only when the rules set none; a target is always positive.
/// A series whose stop episode arrives is then completed by it.
pub proof fn completion_target_follows_rules(sub: Subscription, new_episodes: Seq<i32>)
    ensures
        forall|e: i32| sub.rules.finish_after_episode == Some(e) && e > 0 ==> target_of(sub) == Some(e),
        forall|e: i32| sub.rules.finish_after_episode == Some(e) && e <= 0 ==> target_of(sub) is None,
        sub.rules.finish_after_episode is None ==> target_of(sub) == match sub.total_episode_number {
            Some(t) => if t > 0 {
                Some(t)
            } else {
                None
            },
            None => None,
        },
        forall|t: i32| target_of(sub) == Some(t) ==> t > 0,
        forall|e: i32|
            sub.rules.finish_after_episode == Some(e) && e > 0 && !sub.completed && !is_movie(sub)
                && new_episodes.contains(e) ==> complete_by_known(sub, new_episodes),
{
}

} // verus!
