//! Which seasons a share holds, from the names and paths of its video files.
use vstd::prelude::*;
use crate::episode::{
    context_season, detect_episode, detection_of, is_video, is_video_name, max_i32,
    season_hint_from_context,
};
use crate::model::ProbeFile;
use crate::progress::strictly_sorted;
use crate::text::{int_decimal, int_decimal_02, joined, owned, push_count, push_decimal_02, push_str, views};

verus! {

/// One season found in a share, with its evidence.
#[derive(Debug, Clone, PartialEq)]
pub struct DetectedSeason {
    pub season: i32,
    /// Number of video files of the season.
    pub file_count: usize,
    /// Episodes recognised among them, ascending and without duplicates.
    pub episodes: Vec<i32>,
    /// The first (at most three) file names.
    pub sample_files: Vec<String>,
    /// The season was inferred (no file carried any season marker).
    pub inferred: bool,
}

/// Season analysis of a share.
#[derive(Debug, Clone, PartialEq)]
pub struct SeasonDetection {
    pub ok: bool,
    pub message: String,
    /// Seasons found, ascending.
    pub seasons: Vec<DetectedSeason>,
    /// Video files without a season hint (when nothing was inferred).
    pub unspecified_file_count: usize,
    /// All video files.
    pub total_file_count: usize,
}

/// A regular file with a video extension.
pub open spec fn is_video_file(f: ProbeFile) -> bool {
    !f.is_dir && is_video(f.name@)
}

/// Season a video file is hinted to belong to (at least 1).
pub open spec fn hinted_season(f: ProbeFile) -> Option<i32> {
    match context_season(f.name@, f.parent_path@) {
        Some(h) => Some(max_i32(h, 1)),
        None => None,
    }
}

/// Whether the video file counts towards `season`.
pub open spec fn in_season(f: ProbeFile, season: i32) -> bool {
    is_video_file(f) && hinted_season(f) == Some(season)
}

pub open spec fn video_files(files: Seq<ProbeFile>) -> Seq<ProbeFile> {
    files.filter(|f: ProbeFile| is_video_file(f))
}

pub open spec fn unmarked_files(files: Seq<ProbeFile>) -> Seq<ProbeFile> {
    files.filter(|f: ProbeFile| is_video_file(f) && hinted_season(f) is None)
}

pub open spec fn files_of_season(files: Seq<ProbeFile>, season: i32) -> Seq<ProbeFile> {
    files.filter(|f: ProbeFile| in_season(f, season))
}

/// Whether some video file is hinted to `season`.
pub open spec fn has_season(files: Seq<ProbeFile>, season: i32) -> bool {
    exists|i: int| 0 <= i < files.len() && in_season(#[trigger] files[i], season)
}

/// Some file of the list is episode `e`.
pub open spec fn files_have_episode(files: Seq<ProbeFile>, e: i32) -> bool {
    exists|i: int| 0 <= i < files.len() && detection_of((#[trigger] files[i]).name@).episode == Some(
        e,
    )
}

/// The evidence of one season: count, sorted distinct episodes and the first
/// three names of its files.
pub open spec fn describes(d: DetectedSeason, season: i32, files: Seq<ProbeFile>, inferred: bool) -> bool {
    &&& d.season == season
    &&& d.file_count == files.len()
    &&& strictly_sorted(d.episodes@)
    &&& (forall|e: i32| d.episodes@.contains(e) <==> files_have_episode(files, e))
    &&& views(d.sample_files@) == files.take(if files.len() < 3 {
        files.len() as int
    } else {
        3
    }).map_values(|f: ProbeFile| f.name@)
    &&& d.inferred == inferred
}

/// Whether some entry is for `season`.
pub open spec fn season_listed(seasons: Seq<DetectedSeason>, season: i32) -> bool {
    exists|i: int| 0 <= i < seasons.len() && (#[trigger] seasons[i]).season == season
}

/// `S01`-style labels of the seasons.
pub open spec fn season_labels(seasons: Seq<DetectedSeason>) -> Seq<Seq<char>> {
    seasons.map_values(|d: DetectedSeason| "S"@ + int_decimal_02(d.season as int))
}

fn video_file(f: &ProbeFile) -> (r: bool)
    ensures
        r == is_video_file(*f),
{
    !f.is_dir && is_video_name(f.name.as_str())
}

fn file_season(f: &ProbeFile) -> (r: Option<i32>)
    ensures
        r == hinted_season(*f),
{
    match season_hint_from_context(f.name.as_str(), f.parent_path.as_str()) {
        Some(h) => Some(
            if h >= 1 {
                h
            } else {
                1
            },
        ),
        None => None,
    }
}

proof fn lemma_filter_step(s: Seq<ProbeFile>, i: int, pred: spec_fn(ProbeFile) -> bool)
    requires
        0 <= i < s.len(),
    ensures
        s.take(i + 1).filter(pred) == if pred(s[i]) {
            s.take(i).filter(pred).push(s[i])
        } else {
            s.take(i).filter(pred)
        },
{
    reveal(Seq::filter);
    assert(s.take(i + 1).drop_last() =~= s.take(i));
    assert(s.take(i + 1).last() == s[i]);
}

proof fn lemma_filter_all(s: Seq<ProbeFile>, pred: spec_fn(ProbeFile) -> bool)
    ensures
        s.take(s.len() as int).filter(pred) == s.filter(pred),
{
    assert(s.take(s.len() as int) =~= s);
}

proof fn lemma_files_have_episode_push(before: Seq<ProbeFile>, f: ProbeFile)
    ensures
        forall|e: i32| files_have_episode(before.push(f), e) <==> (files_have_episode(before, e)
            || detection_of(f.name@).episode == Some(e)),
{
    let after = before.push(f);
    assert forall|e: i32| files_have_episode(after, e) <==> (files_have_episode(before, e)
        || detection_of(f.name@).episode == Some(e)) by {
        if files_have_episode(after, e) {
            let k = choose|k: int| 0 <= k < after.len() && detection_of((#[trigger] after[k]).name@).episode
                == Some(e);
            if k < before.len() {
                assert(before[k] == after[k]);
            } else {
                assert(after[k] == f);
            }
        }
        if files_have_episode(before, e) {
            let k = choose|k: int| 0 <= k < before.len() && detection_of((#[trigger] before[k]).name@).episode
                == Some(e);
            assert(after[k] == before[k]);
        }
        if detection_of(f.name@).episode == Some(e) {
            assert(after[before.len() as int] == f);
        }
    }
}

fn insert_sorted_i32(v: &mut Vec<i32>, x: i32)
    requires
        strictly_sorted(old(v)@),
    ensures
        strictly_sorted(final(v)@),
        forall|y: i32| final(v)@.contains(y) <==> (old(v)@.contains(y) || y == x),
{
    crate::progress::insert_sorted(v, x);
}

/// The evidence of one season, gathered from the files hinted to it (or from
/// all video files when the season is inferred).
fn describe_season(files: &[ProbeFile], season: i32, inferred: bool) -> (r: DetectedSeason)
    ensures
        describes(
            r,
            season,
            if inferred {
                unmarked_files(files@)
            } else {
                files_of_season(files@, season)
            },
            inferred,
        ),
{
    let ghost pred = if inferred {
        |f: ProbeFile| is_video_file(f) && hinted_season(f) is None
    } else {
        |f: ProbeFile| in_season(f, season)
    };
    let mut count: usize = 0;
    let mut episodes: Vec<i32> = Vec::new();
    let mut samples: Vec<String> = Vec::new();
    let mut i: usize = 0;
    assert(files@.take(0).filter(pred) =~= seq![]) by {
        reveal(Seq::filter);
    }
    while i < files.len()
        invariant
            i <= files.len(),
            pred == (if inferred {
                |f: ProbeFile| is_video_file(f) && hinted_season(f) is None
            } else {
                |f: ProbeFile| in_season(f, season)
            }),
            count == files@.take(i as int).filter(pred).len(),
            count <= i,
            strictly_sorted(episodes@),
            forall|e: i32| episodes@.contains(e) <==> files_have_episode(
                files@.take(i as int).filter(pred),
                e,
            ),
            views(samples@) == files@.take(i as int).filter(pred).take(
                if count < 3 {
                    count as int
                } else {
                    3
                },
            ).map_values(|f: ProbeFile| f.name@),
        decreases files.len() - i,
    {
        let f = &files[i];
        let ghost before = files@.take(i as int).filter(pred);
        proof {
            lemma_filter_step(files@, i as int, pred);
        }
        let is_video_f = video_file(f);
        let hint = file_season(f);
        let belongs = if inferred {
            is_video_f && hint.is_none()
        } else {
            is_video_f && hint == Some(season)
        };
        assert(belongs == pred(files@[i as int]));
        if belongs {
            let ghost after = before.push(*f);
            count = count + 1;
            let info = detect_episode(f.name.as_str());
            match info.episode {
                Some(e) => {
                    insert_sorted_i32(&mut episodes, e);
                },
                None => {},
            }
            proof {
                lemma_files_have_episode_push(before, *f);
            }
            if samples.len() < 3 {
                let ghost old_samples = views(samples@);
                samples.push(f.name.clone());
                assert(views(samples@) =~= old_samples.push(f.name@));
                assert(after.take(count as int).map_values(|g: ProbeFile| g.name@) =~= before.take(
                    (count - 1) as int,
                ).map_values(|g: ProbeFile| g.name@).push(f.name@));
            } else {
                assert(after.take(3).map_values(|g: ProbeFile| g.name@) =~= before.take(3).map_values(
                    |g: ProbeFile| g.name@,
                ));
            }
        }
        i = i + 1;
    }
    proof {
        lemma_filter_all(files@, pred);
    }
    DetectedSeason { season, file_count: count, episodes, sample_files: samples, inferred }
}

/// What the analysis of a share's files reports: the video files counted,
/// those without a season hint (none where season 1 was inferred), whether
/// any was found, the seasons ascending with their evidence, and the
/// message.
pub open spec fn season_analysis(files: Seq<ProbeFile>, r: SeasonDetection) -> bool {
    &&& r.total_file_count == video_files(files).len()
    &&& ({
        let inferred = (forall|s: i32| !has_season(files, s)) && unmarked_files(files).len()
            > 0;
        &&& r.unspecified_file_count == if inferred {
            0
        } else {
            unmarked_files(files).len()
        }
        &&& r.ok == (video_files(files).len() > 0)
        &&& if inferred {
            r.seasons@.len() == 1 && describes(r.seasons@[0], 1, unmarked_files(files), true)
        } else {
            &&& forall|i: int, j: int| 0 <= i < j < r.seasons@.len() ==> r.seasons@[i].season
                < r.seasons@[j].season
            &&& forall|s: i32| has_season(files, s) <==> season_listed(r.seasons@, s)
            &&& forall|i: int| 0 <= i < r.seasons@.len() ==> describes(
                #[trigger] r.seasons@[i],
                r.seasons@[i].season,
                files_of_season(files, r.seasons@[i].season),
                false,
            )
        }
        &&& r.message@ == if !r.ok {
            "分享中没有识别到视频文件"@
        } else if inferred {
            "未检测到季度标记，已按第一季处理（共 "@ + int_decimal(r.total_file_count as int)
                + " 个视频文件）"@
        } else if r.seasons@.len() == 0 {
            "未识别到季度标记（"@ + int_decimal(r.unspecified_file_count as int)
                + " 个视频文件都在根目录或文件名无 Sxx/Season 标记），可手动填写季号"@
        } else {
            "检测到 "@ + joined(season_labels(r.seasons@), "、"@) + "，共 "@ + int_decimal(
                r.total_file_count as int,
            ) + " 个视频文件"@
        }
    })
}

/// Analyses which seasons the video files of a share belong to. Seasons come
/// from the file name or parent path (at least 1); when no file carries any
/// season hint, every video file is taken as season 1 and the season is marked
/// inferred.
pub fn analyze_seasons(files: &[ProbeFile]) -> (r: SeasonDetection)
    ensures
        season_analysis(files@, r),
{
    // Pass over the files: totals and the set of hinted seasons.
    let mut total: usize = 0;
    let mut unmarked: usize = 0;
    let mut keys: Vec<i32> = Vec::new();
    let mut i: usize = 0;
    let ghost vpred = |f: ProbeFile| is_video_file(f);
    let ghost upred = |f: ProbeFile| is_video_file(f) && hinted_season(f) is None;
    assert(files@.take(0).filter(vpred) =~= seq![]) by {
        reveal(Seq::filter);
    }
    assert(files@.take(0).filter(upred) =~= seq![]) by {
        reveal(Seq::filter);
    }
    while i < files.len()
        invariant
            i <= files.len(),
            vpred == |f: ProbeFile| is_video_file(f),
            upred == |f: ProbeFile| is_video_file(f) && hinted_season(f) is None,
            total == files@.take(i as int).filter(vpred).len(),
            unmarked == files@.take(i as int).filter(upred).len(),
            total <= i,
            unmarked <= i,
            strictly_sorted(keys@),
            forall|s: i32| keys@.contains(s) <==> has_season(files@.take(i as int), s),
        decreases files.len() - i,
    {
        let f = &files[i];
        proof {
            lemma_filter_step(files@, i as int, vpred);
            lemma_filter_step(files@, i as int, upred);
        }
        let ghost prefix = files@.take(i as int);
        let ghost next = files@.take(i + 1);
        assert(next[i as int] == *f);
        if video_file(f) {
            total = total + 1;
            match file_season(f) {
                Some(s) => {
                    insert_sorted_i32(&mut keys, s);
                },
                None => {
                    unmarked = unmarked + 1;
                },
            }
        }
        assert forall|s: i32| keys@.contains(s) <==> has_season(next, s) by {
            if has_season(next, s) {
                let k = choose|k: int| 0 <= k < next.len() && in_season(#[trigger] next[k], s);
                if k < i {
                    assert(prefix[k] == next[k]);
                    assert(has_season(prefix, s));
                }
            }
            if has_season(prefix, s) {
                let k = choose|k: int| 0 <= k < prefix.len() && in_season(#[trigger] prefix[k], s);
                assert(next[k] == prefix[k]);
            }
        }
        i = i + 1;
    }
    proof {
        lemma_filter_all(files@, vpred);
        lemma_filter_all(files@, upred);
        assert(files@.take(files.len() as int) =~= files@);
    }
    let inferred = keys.len() == 0 && unmarked > 0;
    proof {
        if keys.len() == 0 {
            assert forall|s: i32| !has_season(files@, s) by {
                assert(!keys@.contains(s));
            }
        } else {
            assert(keys@.contains(keys@[0]));
            assert(has_season(files@, keys@[0]));
        }
    }
    let mut seasons: Vec<DetectedSeason> = Vec::new();
    if inferred {
        let d = describe_season(files, 1, true);
        seasons.push(d);
    } else {
        let mut k: usize = 0;
        while k < keys.len()
            invariant
                k <= keys.len(),
                strictly_sorted(keys@),
                seasons@.len() == k,
                forall|m: int| 0 <= m < k ==> (#[trigger] seasons@[m]).season == keys@[m],
                forall|m: int| 0 <= m < k ==> describes(
                    #[trigger] seasons@[m],
                    keys@[m],
                    files_of_season(files@, keys@[m]),
                    false,
                ),
            decreases keys.len() - k,
        {
            let d = describe_season(files, keys[k], false);
            seasons.push(d);
            k = k + 1;
        }
        assert forall|s: i32| has_season(files@, s) <==> season_listed(seasons@, s) by {
            if has_season(files@, s) {
                assert(keys@.contains(s));
                let m = choose|m: int| 0 <= m < keys@.len() && keys@[m] == s;
                assert(seasons@[m].season == s);
            }
            if season_listed(seasons@, s) {
                let m = choose|m: int| 0 <= m < seasons@.len() && (#[trigger] seasons@[m]).season
                    == s;
                assert(keys@[m] == s);
                assert(keys@.contains(s));
            }
        }
    }
    let unspecified = if inferred {
        0
    } else {
        unmarked
    };
    let ok = total > 0;
    let message = if !ok {
        owned("分享中没有识别到视频文件")
    } else if inferred {
        let mut m = owned("未检测到季度标记，已按第一季处理（共 ");
        push_count(&mut m, total);
        push_str(&mut m, " 个视频文件）");
        m
    } else if seasons.len() == 0 {
        let mut m = owned("未识别到季度标记（");
        push_count(&mut m, unspecified);
        push_str(&mut m, " 个视频文件都在根目录或文件名无 Sxx/Season 标记），可手动填写季号");
        m
    } else {
        let mut labels: Vec<String> = Vec::new();
        let mut k: usize = 0;
        while k < seasons.len()
            invariant
                k <= seasons.len(),
                views(labels@) == season_labels(seasons@).take(k as int),
            decreases seasons.len() - k,
        {
            let mut label = owned("S");
            push_decimal_02(&mut label, seasons[k].season as i64);
            let ghost before = views(labels@);
            labels.push(label);
            assert(views(labels@) =~= before.push(label@));
            assert(season_labels(seasons@)[k as int] == "S"@ + int_decimal_02(seasons@[k as int].season as int));
            assert(season_labels(seasons@).take(k + 1) =~= season_labels(seasons@).take(k as int).push(season_labels(seasons@)[k as int]));
            k = k + 1;
        }
        assert(season_labels(seasons@).take(seasons.len() as int) =~= season_labels(seasons@));
        let names = crate::text::join_strings(labels.as_slice(), "、");
        let mut m = owned("检测到 ");
        push_str(&mut m, names.as_str());
        push_str(&mut m, "，共 ");
        push_count(&mut m, total);
        push_str(&mut m, " 个视频文件");
        m
    };
    let ghost inferred_spec = (forall|s: i32| !has_season(files@, s)) && unmarked_files(files@).len() > 0;
    assert(inferred == inferred_spec);
    assert(total == video_files(files@).len());
    proof {
        if !inferred {
            assert forall|s: i32| has_season(files@, s) implies season_listed(seasons@, s) by {
                assert(keys@.contains(s));
                let m = choose|m: int| 0 <= m < keys@.len() && keys@[m] == s;
                assert(seasons@[m].season == s);
            }
        }
    }
    SeasonDetection {
        ok,
        message,
        seasons,
        unspecified_file_count: unspecified,
        total_file_count: total,
    }
}

// ---------------------------------------------------------------------------
// The counts add up
// ---------------------------------------------------------------------------

/// A video file with a season hint.
pub open spec fn marked_video(f: ProbeFile) -> bool {
    is_video_file(f) && hinted_season(f) is Some
}

/// The files of each listed season, counted.
pub open spec fn listed_file_count(files: Seq<ProbeFile>, ds: Seq<DetectedSeason>) -> int
    decreases ds.len(),
{
    if ds.len() == 0 {
        0
    } else {
        listed_file_count(files, ds.drop_last()) + files_of_season(files, ds.last().season).len()
    }
}

/// The file counts of the seasons added up.
pub open spec fn season_file_total(ds: Seq<DetectedSeason>) -> int
    decreases ds.len(),
{
    if ds.len() == 0 {
        0
    } else {
        season_file_total(ds.drop_last()) + ds.last().file_count
    }
}

/// How many of the listed seasons the file counts towards.
pub open spec fn season_hits(f: ProbeFile, ds: Seq<DetectedSeason>) -> int
    decreases ds.len(),
{
    if ds.len() == 0 {
        0
    } else {
        season_hits(f, ds.drop_last()) + if in_season(f, ds.last().season) {
            1int
        } else {
            0
        }
    }
}

/// Seasons strictly ascending.
pub open spec fn ascending_seasons(ds: Seq<DetectedSeason>) -> bool {
    forall|i: int, j: int| 0 <= i < j < ds.len() ==> ds[i].season < ds[j].season
}

proof fn lemma_season_hits(f: ProbeFile, ds: Seq<DetectedSeason>)
    requires
        ascending_seasons(ds),
    ensures
        season_hits(f, ds) == if marked_video(f) && season_listed(ds, hinted_season(f)->0) {
            1int
        } else {
            0
        },
    decreases ds.len(),
{
    if ds.len() > 0 {
        let dl = ds.drop_last();
        assert(ascending_seasons(dl)) by {
            assert forall|i: int, j: int| 0 <= i < j < dl.len() implies dl[i].season < dl[j].season by {
                assert(dl[i] == ds[i] && dl[j] == ds[j]);
            }
        }
        lemma_season_hits(f, dl);
        let last = ds.last();
        assert(ds[ds.len() - 1] == last);
        if marked_video(f) {
            let h = hinted_season(f)->0;
            if season_listed(dl, h) {
                let i = choose|i: int| 0 <= i < dl.len() && (#[trigger] dl[i]).season == h;
                assert(ds[i] == dl[i]);
                assert(last.season != h);
                assert(season_listed(ds, h));
            } else if last.season == h {
                assert(season_listed(ds, h));
            } else {
                assert(!season_listed(ds, h)) by {
                    if season_listed(ds, h) {
                        let i = choose|i: int| 0 <= i < ds.len() && (#[trigger] ds[i]).season == h;
                        if i < ds.len() - 1 {
                            assert(dl[i] == ds[i]);
                        }
                    }
                }
            }
        }
    }
}

proof fn lemma_listed_count_step(files: Seq<ProbeFile>, ds: Seq<DetectedSeason>, k: int)
    requires
        0 <= k < files.len(),
    ensures
        listed_file_count(files.take(k + 1), ds) == listed_file_count(files.take(k), ds) + season_hits(
            files[k],
            ds,
        ),
    decreases ds.len(),
{
    if ds.len() > 0 {
        lemma_listed_count_step(files, ds.drop_last(), k);
        let s = ds.last().season;
        lemma_filter_step(files, k, |f: ProbeFile| in_season(f, s));
    }
}

proof fn lemma_listed_count(files: Seq<ProbeFile>, ds: Seq<DetectedSeason>, k: int)
    requires
        0 <= k <= files.len(),
        ascending_seasons(ds),
        forall|i: int|
            0 <= i < files.len() && marked_video(#[trigger] files[i]) ==> season_listed(
                ds,
                hinted_season(files[i])->0,
            ),
    ensures
        listed_file_count(files.take(k), ds) == files.take(k).filter(|f: ProbeFile| marked_video(f)).len(),
    decreases k,
{
    if k == 0 {
        assert(files.take(0) =~= Seq::<ProbeFile>::empty());
        assert(listed_file_count(files.take(0), ds) == 0) by {
            lemma_listed_count_empty(files.take(0), ds);
        }
    } else {
        lemma_listed_count(files, ds, k - 1);
        lemma_listed_count_step(files, ds, k - 1);
        lemma_season_hits(files[k - 1], ds);
        lemma_filter_step(files, k - 1, |f: ProbeFile| marked_video(f));
    }
}

proof fn lemma_listed_count_empty(files: Seq<ProbeFile>, ds: Seq<DetectedSeason>)
    requires
        files.len() == 0,
    ensures
        listed_file_count(files, ds) == 0,
    decreases ds.len(),
{
    if ds.len() > 0 {
        lemma_listed_count_empty(files, ds.drop_last());
        assert(files.filter(|f: ProbeFile| in_season(f, ds.last().season)).len() == 0) by {
            reveal(Seq::filter);
        }
    }
}

proof fn lemma_video_partition(files: Seq<ProbeFile>, k: int)
    requires
        0 <= k <= files.len(),
    ensures
        files.take(k).filter(|f: ProbeFile| is_video_file(f)).len() == files.take(k).filter(
            |f: ProbeFile| is_video_file(f) && hinted_season(f) is None,
        ).len() + files.take(k).filter(|f: ProbeFile| marked_video(f)).len(),
    decreases k,
{
    if k == 0 {
        assert(files.take(0) =~= Seq::<ProbeFile>::empty());
        reveal(Seq::filter);
    } else {
        lemma_video_partition(files, k - 1);
        lemma_filter_step(files, k - 1, |f: ProbeFile| is_video_file(f));
        lemma_filter_step(files, k - 1, |f: ProbeFile| is_video_file(f) && hinted_season(f) is None);
        lemma_filter_step(files, k - 1, |f: ProbeFile| marked_video(f));
    }
}

proof fn lemma_counts_match(files: Seq<ProbeFile>, ds: Seq<DetectedSeason>)
    requires
        forall|i: int|
            0 <= i < ds.len() ==> (#[trigger] ds[i]).file_count == files_of_season(files, ds[i].season).len(),
    ensures
        season_file_total(ds) == listed_file_count(files, ds),
    decreases ds.len(),
{
    if ds.len() > 0 {
        let dl = ds.drop_last();
        assert forall|i: int| 0 <= i < dl.len() implies (#[trigger] dl[i]).file_count == files_of_season(
            files,
            dl[i].season,
        ).len() by {
            assert(dl[i] == ds[i]);
        }
        lemma_counts_match(files, dl);
        assert(ds[ds.len() - 1] == ds.last());
    }
}

/// The files of the seasons found plus the files without a season hint are
/// all the video files of the share.
pub proof fn season_counts_add_up(files: Seq<ProbeFile>, r: SeasonDetection)
    requires
        season_analysis(files, r),
    ensures
        season_file_total(r.seasons@) + r.unspecified_file_count == r.total_file_count,
{
    let n = files.len() as int;
    lemma_video_partition(files, n);
    assert(files.take(n) =~= files);
    assert(video_files(files).len() == files.filter(|f: ProbeFile| is_video_file(f)).len());
    assert(unmarked_files(files).len() == files.filter(|f: ProbeFile| is_video_file(f) && hinted_season(f) is None).len());
    assert(r.total_file_count == unmarked_files(files).len() + files.filter(|f: ProbeFile| marked_video(f)).len());
    let inferred = (forall|s: i32| !has_season(files, s)) && unmarked_files(files).len() > 0;
    if inferred {
        let empty = Seq::<DetectedSeason>::empty();
        assert forall|i: int| 0 <= i < files.len() && marked_video(#[trigger] files[i]) implies season_listed(
            empty,
            hinted_season(files[i])->0,
        ) by {
            assert(in_season(files[i], hinted_season(files[i])->0));
            assert(has_season(files, hinted_season(files[i])->0));
        }
        lemma_listed_count(files, empty, n);
        assert(listed_file_count(files, empty) == 0);
        assert(r.seasons@.drop_last() =~= Seq::<DetectedSeason>::empty());
        assert(r.seasons@.last() == r.seasons@[0]);
        assert(season_file_total(r.seasons@.drop_last()) == 0);
        assert(season_file_total(r.seasons@) == r.seasons@[0].file_count);
    } else {
        let ds = r.seasons@;
        assert forall|i: int| 0 <= i < files.len() && marked_video(#[trigger] files[i]) implies season_listed(
            ds,
            hinted_season(files[i])->0,
        ) by {
            assert(in_season(files[i], hinted_season(files[i])->0));
            assert(has_season(files, hinted_season(files[i])->0));
        }
        lemma_listed_count(files, ds, n);
        assert forall|i: int| 0 <= i < ds.len() implies (#[trigger] ds[i]).file_count == files_of_season(
            files,
            ds[i].season,
        ).len() by {
            assert(describes(ds[i], ds[i].season, files_of_season(files, ds[i].season), false));
        }
        lemma_counts_match(files, ds);
    }
}


/// A season analysis lists its seasons in ascending order, each at least the
/// first, each with its episodes ascending and at most three sample names
/// (never more than its files); a season is marked inferred exactly when no
/// video file carries a season hint, and then it is the only one, the first,
/// and no file is left without a season.
pub proof fn season_analysis_is_well_shaped(files: Seq<ProbeFile>, r: SeasonDetection)
    requires
        season_analysis(files, r),
    ensures
        ascending_seasons(r.seasons@),
        forall|i: int| 0 <= i < r.seasons@.len() ==> (#[trigger] r.seasons@[i]).season >= 1,
        forall|i: int| 0 <= i < r.seasons@.len() ==> strictly_sorted((#[trigger] r.seasons@[i]).episodes@),
        forall|i: int|
            0 <= i < r.seasons@.len() ==> (#[trigger] r.seasons@[i]).sample_files@.len() <= 3
                && r.seasons@[i].sample_files@.len() <= r.seasons@[i].file_count,
        forall|i: int|
            0 <= i < r.seasons@.len() ==> ((#[trigger] r.seasons@[i]).inferred <==> forall|s: i32|
                !has_season(files, s)),
        (exists|i: int| 0 <= i < r.seasons@.len() && (#[trigger] r.seasons@[i]).inferred) ==> r.seasons@.len()
            == 1 && r.seasons@[0].season == 1 && r.unspecified_file_count == 0,
{
    let inferred = (forall|s: i32| !has_season(files, s)) && unmarked_files(files).len() > 0;
    let ds = r.seasons@;
    assert forall|i: int| 0 <= i < ds.len() implies (#[trigger] ds[i]).sample_files@.len() <= 3
        && ds[i].sample_files@.len() <= ds[i].file_count by {
        assert(views(ds[i].sample_files@).len() == ds[i].sample_files@.len());
    }
    if !inferred {
        assert forall|i: int| 0 <= i < ds.len() implies (#[trigger] ds[i]).season >= 1 by {
            let s = ds[i].season;
            assert(season_listed(ds, s));
            assert(has_season(files, s));
            let j = choose|j: int| 0 <= j < files.len() && in_season(#[trigger] files[j], s);
            assert(hinted_season(files[j]) == Some(s));
        }
        assert forall|i: int| 0 <= i < ds.len() implies ((#[trigger] ds[i]).inferred <==> forall|s: i32|
            !has_season(files, s)) by {
            assert(season_listed(ds, ds[i].season));
            assert(has_season(files, ds[i].season));
        }
    }
}

} // verus!
