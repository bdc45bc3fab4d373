//! Replacing a subscription's share source: search keywords, the preview of a
//! candidate, applying a switch with its audit trail, and rolling it back.
use vstd::prelude::*;
use crate::clock::unix_now;
use crate::error::AppError;
use crate::episode::{in_season_range, is_video, is_video_name, matches_subscription_season};
use crate::model::{
    candidates_view, copy_candidate, copy_quality, history_view, probe_view, CandidateView, HistoryView, QualityView, ProbeFile, ProbeFileView, ProbeResult, ProbeResultView, Settings,
    SourceCandidate, SourceQuality, SourceSwitchHistoryItem, Subscription,
};
use crate::source_quality::{
    first_n,
    assesses, files_view, score_of, score_source, size_total, FileView, InputView, SourceQualityFile,
    SourceQualityInput,
};
use crate::text::{
    chars_of, decimal_string, int_decimal, opt_view, trim_seq, trim_str, int_decimal_02, is_ws, is_ws_char, join_strings, joined, owned,
    push_chars, push_decimal, push_decimal_02, push_str, sorted_distinct, sorted_unique, str_eq,
    string_of, views,
};

verus! {

// ---------------------------------------------------------------------------
// Search keywords
// ---------------------------------------------------------------------------

pub const MEDIA_TYPE_MOVIE: &'static str = "movie";
pub const KEYWORD_SEASON_CODE: &'static str = " S";
pub const KEYWORD_SEASON_WORD: &'static str = " Season ";
pub const KEYWORD_SEASON_CN_PREFIX: &'static str = " 第";
pub const KEYWORD_SEASON_CN_SUFFIX: &'static str = "季";

pub const CN_ONE: &'static str = "一";
pub const CN_TWO: &'static str = "二";
pub const CN_THREE: &'static str = "三";
pub const CN_FOUR: &'static str = "四";
pub const CN_FIVE: &'static str = "五";
pub const CN_SIX: &'static str = "六";
pub const CN_SEVEN: &'static str = "七";
pub const CN_EIGHT: &'static str = "八";
pub const CN_NINE: &'static str = "九";
pub const CN_TEN: &'static str = "十";

/// Pieces of `s` between white-space characters (empty pieces included).
pub open spec fn ws_pieces(s: Seq<char>) -> Seq<Seq<char>>
    decreases s.len(),
{
    if s.len() == 0 {
        seq![seq![]]
    } else {
        let rest = ws_pieces(s.drop_last());
        if is_ws(s.last()) {
            rest.push(seq![])
        } else {
            rest.update(rest.len() - 1, rest.last().push(s.last()))
        }
    }
}

/// The non-empty pieces, in order.
pub open spec fn non_empty(parts: Seq<Seq<char>>) -> Seq<Seq<char>>
    decreases parts.len(),
{
    if parts.len() == 0 {
        seq![]
    } else {
        let rest = non_empty(parts.drop_last());
        if parts.last().len() > 0 {
            rest.push(parts.last())
        } else {
            rest
        }
    }
}

/// The words of `s` joined by single spaces (`split_whitespace` and
/// `join(" ")`).
pub open spec fn normalized(s: Seq<char>) -> Seq<char> {
    joined(non_empty(ws_pieces(s)), " "@)
}

pub open spec fn is_open_bracket(c: char) -> bool {
    c == '[' || c == '【' || c == '(' || c == '（'
}

pub open spec fn is_close_bracket(c: char) -> bool {
    c == ']' || c == '】' || c == ')' || c == '）'
}

/// Bracket depth after `s` and the text kept from it: characters outside
/// brackets, with `.`, `_` and `-` turned into spaces.
pub open spec fn clean_scan(s: Seq<char>) -> (nat, Seq<char>)
    decreases s.len(),
{
    if s.len() == 0 {
        (0, seq![])
    } else {
        let (depth, out) = clean_scan(s.drop_last());
        let c = s.last();
        if is_open_bracket(c) {
            ((depth + 1) as nat, out)
        } else if is_close_bracket(c) {
            (
                if depth > 0 {
                    (depth - 1) as nat
                } else {
                    0
                },
                out,
            )
        } else if c == '.' || c == '_' || c == '-' {
            (
                depth,
                if depth == 0 {
                    out.push(' ')
                } else {
                    out
                },
            )
        } else if depth == 0 {
            (depth, out.push(c))
        } else {
            (depth, out)
        }
    }
}

/// A title without bracketed parts and separators, spaces normalized.
pub open spec fn cleaned_title(s: Seq<char>) -> Seq<char> {
    normalized(clean_scan(s).1)
}

/// Appends the normalized `v` unless it is empty or already there.
pub open spec fn push_normalized(items: Seq<Seq<char>>, v: Seq<char>) -> Seq<Seq<char>> {
    let n = normalized(v);
    if n.len() == 0 || items.contains(n) {
        items
    } else {
        items.push(n)
    }
}

/// The titles a subscription is searched by.
pub open spec fn search_titles(sub: Subscription) -> Seq<Seq<char>> {
    let t = push_normalized(push_normalized(seq![], sub.source_title@), sub.title@);
    match sub.metadata {
        Some(m) => push_normalized(push_normalized(t, m.title@), m.original_title@),
        None => t,
    }
}

/// For each title, its cleaned form and itself.
pub open spec fn base_titles(titles: Seq<Seq<char>>) -> Seq<Seq<char>>
    decreases titles.len(),
{
    if titles.len() == 0 {
        seq![]
    } else {
        push_normalized(
            push_normalized(base_titles(titles.drop_last()), cleaned_title(titles.last())),
            titles.last(),
        )
    }
}

/// The season searched for: none for a film, else at least 1.
pub open spec fn search_season(sub: Subscription) -> int {
    if sub.media_type@ == MEDIA_TYPE_MOVIE@ {
        0
    } else if sub.season < 1 {
        1
    } else {
        sub.season as int
    }
}

/// The Chinese numeral of a season from 1 to 10.
pub open spec fn chinese_numeral(season: int) -> Option<Seq<char>> {
    if season == 1 {
        Some(CN_ONE@)
    } else if season == 2 {
        Some(CN_TWO@)
    } else if season == 3 {
        Some(CN_THREE@)
    } else if season == 4 {
        Some(CN_FOUR@)
    } else if season == 5 {
        Some(CN_FIVE@)
    } else if season == 6 {
        Some(CN_SIX@)
    } else if season == 7 {
        Some(CN_SEVEN@)
    } else if season == 8 {
        Some(CN_EIGHT@)
    } else if season == 9 {
        Some(CN_NINE@)
    } else if season == 10 {
        Some(CN_TEN@)
    } else {
        None
    }
}

/// The keywords for one title: the title, then its season variants.
pub open spec fn title_keywords(items: Seq<Seq<char>>, title: Seq<char>, season: int) -> Seq<
    Seq<char>,
> {
    let k0 = push_normalized(items, title);
    if season > 0 {
        let k1 = push_normalized(k0, title + KEYWORD_SEASON_CODE@ + int_decimal_02(season));
        let k2 = push_normalized(k1, title + KEYWORD_SEASON_WORD@ + int_decimal(season));
        let k3 = push_normalized(
            k2,
            title + KEYWORD_SEASON_CN_PREFIX@ + int_decimal(season) + KEYWORD_SEASON_CN_SUFFIX@,
        );
        match chinese_numeral(season) {
            Some(c) => push_normalized(
                k3,
                title + KEYWORD_SEASON_CN_PREFIX@ + c + KEYWORD_SEASON_CN_SUFFIX@,
            ),
            None => k3,
        }
    } else {
        k0
    }
}

/// The keywords for a list of titles.
pub open spec fn keywords_over(titles: Seq<Seq<char>>, season: int) -> Seq<Seq<char>>
    decreases titles.len(),
{
    if titles.len() == 0 {
        seq![]
    } else {
        title_keywords(keywords_over(titles.drop_last(), season), titles.last(), season)
    }
}

/// The keywords a replacement source is searched by.
pub open spec fn search_keywords(sub: Subscription) -> Seq<Seq<char>> {
    keywords_over(base_titles(search_titles(sub)), search_season(sub))
}

proof fn lemma_ws_pieces_nonempty(s: Seq<char>)
    ensures
        ws_pieces(s).len() >= 1,
    decreases s.len(),
{
    if s.len() > 0 {
        lemma_ws_pieces_nonempty(s.drop_last());
    }
}

/// The words of `value` joined by single spaces.
pub fn normalize_spaces(value: &str) -> (r: String)
    ensures
        r@ == normalized(value@),
{
    let v = chars_of(value);
    let mut words: Vec<String> = Vec::new();
    let mut cur: Vec<char> = Vec::new();
    let mut i: usize = 0;
    assert(v@.take(0) =~= seq![]);
    assert(views(words@) =~= seq![]);
    assert(ws_pieces(v@.take(0)) =~= seq![Seq::<char>::empty()]);
    assert(seq![Seq::<char>::empty()].drop_last() =~= Seq::<Seq<char>>::empty());
    assert(non_empty(Seq::<Seq<char>>::empty()) =~= Seq::<Seq<char>>::empty());
    assert(seq![Seq::<char>::empty()].last().len() == 0);
    assert(non_empty(seq![Seq::<char>::empty()]) =~= Seq::<Seq<char>>::empty());
    assert(views(words@) + Seq::<Seq<char>>::empty() =~= views(words@));
    while i < v.len()
        invariant
            i <= v.len(),
            ws_pieces(v@.take(i as int)).len() >= 1,
            ws_pieces(v@.take(i as int)).last() == cur@,
            non_empty(ws_pieces(v@.take(i as int))) == views(words@) + if cur@.len() > 0 {
                seq![cur@]
            } else {
                Seq::<Seq<char>>::empty()
            },
        decreases v.len() - i,
    {
        let c = v[i];
        let ghost p = ws_pieces(v@.take(i as int));
        assert(v@.take(i + 1).drop_last() =~= v@.take(i as int));
        assert(v@.take(i + 1).last() == c);
        assert(non_empty(p) == non_empty(p.drop_last()) + if p.last().len() > 0 {
            seq![p.last()]
        } else {
            Seq::<Seq<char>>::empty()
        }) by {
            if p.last().len() > 0 {
                assert(non_empty(p) =~= non_empty(p.drop_last()).push(p.last()));
            } else {
                assert(non_empty(p) =~= non_empty(p.drop_last()));
            }
        }
        if is_ws_char(c) {
            let ghost q = p.push(seq![]);
            assert(q.drop_last() =~= p);
            assert(non_empty(q) =~= non_empty(p));
            if cur.len() > 0 {
                let ghost before = views(words@);
                let w = string_of(cur.as_slice());
                words.push(w);
                assert(views(words@) =~= before.push(cur@));
                assert(before + seq![cur@] =~= before.push(cur@));
            } else {
                assert(views(words@) + Seq::<Seq<char>>::empty() =~= views(words@));
            }
            cur = Vec::new();
            assert(views(words@) + Seq::<Seq<char>>::empty() =~= views(words@));
        } else {
            let ghost q = p.update(p.len() - 1, p.last().push(c));
            assert(q.drop_last() =~= p.drop_last());
            assert(q.last() == p.last().push(c));
            assert(non_empty(q) =~= non_empty(p.drop_last()).push(p.last().push(c)));
            let ghost w0 = views(words@);
            proof {
                if cur@.len() > 0 {
                    assert(non_empty(p.drop_last()) + seq![cur@] =~= w0 + seq![cur@]);
                    assert(non_empty(p.drop_last()) =~= w0) by {
                        assert((non_empty(p.drop_last()) + seq![cur@]).drop_last() =~= non_empty(
                            p.drop_last(),
                        ));
                        assert((w0 + seq![cur@]).drop_last() =~= w0);
                    }
                } else {
                    assert(non_empty(p.drop_last()) =~= non_empty(p.drop_last())
                        + Seq::<Seq<char>>::empty());
                    assert(w0 =~= w0 + Seq::<Seq<char>>::empty());
                }
            }
            cur.push(c);
            assert(w0 + seq![cur@] =~= w0.push(cur@));
        }
        i = i + 1;
    }
    assert(v@.take(v.len() as int) =~= v@);
    if cur.len() > 0 {
        let ghost before = views(words@);
        let w = string_of(cur.as_slice());
        words.push(w);
        assert(views(words@) =~= before + seq![cur@]);
    } else {
        assert(views(words@) + Seq::<Seq<char>>::empty() =~= views(words@));
    }
    join_strings(words.as_slice(), " ")
}

/// Drops bracketed parts of a title, turns `.`, `_` and `-` into spaces and
/// normalizes spaces.
pub fn clean_search_title(title: &str) -> (r: String)
    ensures
        r@ == cleaned_title(title@),
{
    let v = chars_of(title);
    let mut out: Vec<char> = Vec::new();
    let mut depth: usize = 0;
    let mut i: usize = 0;
    assert(v@.take(0) =~= seq![]);
    while i < v.len()
        invariant
            i <= v.len(),
            depth <= i,
            clean_scan(v@.take(i as int)) == (depth as nat, out@),
        decreases v.len() - i,
    {
        let c = v[i];
        assert(v@.take(i + 1).drop_last() =~= v@.take(i as int));
        assert(v@.take(i + 1).last() == c);
        if c == '[' || c == '【' || c == '(' || c == '（' {
            depth = depth + 1;
        } else if c == ']' || c == '】' || c == ')' || c == '）' {
            if depth > 0 {
                depth = depth - 1;
            }
        } else if c == '.' || c == '_' || c == '-' {
            if depth == 0 {
                out.push(' ');
            }
        } else if depth == 0 {
            out.push(c);
        }
        i = i + 1;
    }
    assert(v@.take(v.len() as int) =~= v@);
    let text = string_of(out.as_slice());
    normalize_spaces(text.as_str())
}

/// Appends the normalized `value` unless it is empty or already there.
fn push_unique(items: &mut Vec<String>, value: &str)
    ensures
        views(final(items)@) == push_normalized(views(old(items)@), value@),
{
    let n = normalize_spaces(value);
    if n.as_str().is_empty() {
        return;
    }
    let mut i: usize = 0;
    while i < items.len()
        invariant
            i <= items.len(),
            n@ == normalized(value@),
            forall|j: int| 0 <= j < i ==> views(items@)[j] != n@,
        decreases items.len() - i,
    {
        if str_eq(items[i].as_str(), n.as_str()) {
            assert(views(items@)[i as int] == n@);
            assert(views(items@).contains(n@));
            return;
        }
        i = i + 1;
    }
    let ghost before = views(items@);
    items.push(n);
    assert(views(items@) =~= before.push(normalized(value@)));
}

/// The Chinese numeral of a season from 1 to 10.
fn chinese_season_number(season: i32) -> (r: Option<&'static str>)
    ensures
        match r {
            Some(s) => chinese_numeral(season as int) == Some(s@),
            None => chinese_numeral(season as int) is None,
        },
{
    match season {
        1 => Some(CN_ONE),
        2 => Some(CN_TWO),
        3 => Some(CN_THREE),
        4 => Some(CN_FOUR),
        5 => Some(CN_FIVE),
        6 => Some(CN_SIX),
        7 => Some(CN_SEVEN),
        8 => Some(CN_EIGHT),
        9 => Some(CN_NINE),
        10 => Some(CN_TEN),
        _ => None,
    }
}

/// The keywords a replacement source is searched by: each title (source
/// title, title, metadata titles) cleaned and as is, each followed by its
/// season variants (`S02`, `Season 2`, `第2季`, `第二季`) unless it is a film.
pub fn source_search_keywords(sub: &Subscription) -> (r: Vec<String>)
    ensures
        views(r@) == search_keywords(*sub),
{
    let mut titles: Vec<String> = Vec::new();
    assert(views(titles@) =~= seq![]);
    push_unique(&mut titles, sub.source_title.as_str());
    push_unique(&mut titles, sub.title.as_str());
    match &sub.metadata {
        Some(m) => {
            push_unique(&mut titles, m.title.as_str());
            push_unique(&mut titles, m.original_title.as_str());
        },
        None => {},
    }
    let ghost ts = views(titles@);
    assert(ts == search_titles(*sub));
    let mut base: Vec<String> = Vec::new();
    let mut i: usize = 0;
    assert(ts.take(0) =~= seq![]);
    assert(views(base@) =~= seq![]);
    while i < titles.len()
        invariant
            i <= titles.len(),
            ts == views(titles@),
            views(base@) == base_titles(ts.take(i as int)),
        decreases titles.len() - i,
    {
        assert(ts.take(i + 1).drop_last() =~= ts.take(i as int));
        assert(ts.take(i + 1).last() == titles@[i as int]@);
        let cleaned = clean_search_title(titles[i].as_str());
        push_unique(&mut base, cleaned.as_str());
        push_unique(&mut base, titles[i].as_str());
        i = i + 1;
    }
    assert(ts.take(titles.len() as int) =~= ts);
    let season: i32 = if str_eq(sub.media_type.as_str(), MEDIA_TYPE_MOVIE) {
        0
    } else if sub.season < 1 {
        1
    } else {
        sub.season
    };
    assert(season == search_season(*sub));
    let ghost bs = views(base@);
    let mut keywords: Vec<String> = Vec::new();
    let mut k: usize = 0;
    assert(bs.take(0) =~= seq![]);
    assert(views(keywords@) =~= seq![]);
    while k < base.len()
        invariant
            k <= base.len(),
            bs == views(base@),
            season >= 0,
            views(keywords@) == keywords_over(bs.take(k as int), season as int),
        decreases base.len() - k,
    {
        assert(bs.take(k + 1).drop_last() =~= bs.take(k as int));
        assert(bs.take(k + 1).last() == base@[k as int]@);
        let title = &base[k];
        push_unique(&mut keywords, title.as_str());
        if season > 0 {
            let mut a = title.clone();
            push_str(&mut a, KEYWORD_SEASON_CODE);
            push_decimal_02(&mut a, season as i64);
            push_unique(&mut keywords, a.as_str());
            let mut b = title.clone();
            push_str(&mut b, KEYWORD_SEASON_WORD);
            push_decimal(&mut b, season as i64);
            push_unique(&mut keywords, b.as_str());
            let mut c = title.clone();
            push_str(&mut c, KEYWORD_SEASON_CN_PREFIX);
            push_decimal(&mut c, season as i64);
            push_str(&mut c, KEYWORD_SEASON_CN_SUFFIX);
            push_unique(&mut keywords, c.as_str());
            match chinese_season_number(season) {
                Some(numeral) => {
                    let mut d = title.clone();
                    push_str(&mut d, KEYWORD_SEASON_CN_PREFIX);
                    push_str(&mut d, numeral);
                    push_str(&mut d, KEYWORD_SEASON_CN_SUFFIX);
                    push_unique(&mut keywords, d.as_str());
                },
                None => {},
            }
        }
        k = k + 1;
    }
    assert(bs.take(base.len() as int) =~= bs);
    keywords
}

// ---------------------------------------------------------------------------
// Scoring the current source and a candidate
// ---------------------------------------------------------------------------

/// What scoring reads of the files of a probe.
pub open spec fn probe_files_view(files: Seq<ProbeFileView>) -> Seq<FileView> {
    files.map_values(
        |f: ProbeFileView|
            FileView {
                name: f.name,
                is_dir: f.is_dir,
                size: f.size,
                updated_at: f.updated_at,
                category: None,
            },
    )
}

/// The scoring input of a share from its title, date and probe.
pub open spec fn probed_input(title: Seq<char>, datetime: Seq<char>, probe: Option<ProbeResultView>) -> InputView {
    InputView {
        title,
        datetime,
        validity: match probe {
            Some(p) => Some(p.ok),
            None => None,
        },
        probe_ok: match probe {
            Some(p) => Some(p.ok),
            None => None,
        },
        probe_file_count: match probe {
            Some(p) => p.files.len() as usize,
            None => 0,
        },
        probe_episode_count: 0,
        files: match probe {
            Some(p) => probe_files_view(p.files),
            None => seq![],
        },
    }
}

/// The scoring input of a subscription's current source: its source title (or
/// its title when that is blank), its last check time and its last probe.
pub open spec fn current_source_input(sub: Subscription) -> InputView {
    probed_input(
        if trim_seq(sub.source_title@).len() == 0 {
            sub.title@
        } else {
            sub.source_title@
        },
        int_decimal(sub.last_checked_at as int),
        probe_view(sub.last_probe),
    )
}

/// The scoring input of a candidate: its note, the update time of its last
/// assessment (else its discovery time) and its probe.
pub open spec fn candidate_input(c: CandidateView) -> InputView {
    probed_input(
        c.note,
        match c.quality.updated_at {
            Some(u) => u,
            None => int_decimal(c.discovered_at as int),
        },
        c.probe_info,
    )
}

/// Scores a probed share.
fn probed_quality(title: &String, datetime: String, probe: Option<&ProbeResult>, now_ms: i64) -> (q:
    SourceQuality)
    requires
        size_total(
            probed_input(
                title@,
                datetime@,
                match probe {
                    Some(p) => Some(p@),
                    None => None,
                },
            ).files,
        ) <= i64::MAX,
    ensures
        assesses(
            q,
            probed_input(
                title@,
                datetime@,
                match probe {
                    Some(p) => Some(p@),
                    None => None,
                },
            ),
            now_ms,
        ),
{
    let ghost owned_probe = match probe {
        Some(p) => Some(p@),
        None => None::<ProbeResultView>,
    };
    let mut files: Vec<SourceQualityFile> = Vec::new();
    let (validity, file_count) = match probe {
        Some(p) => {
            let mut i: usize = 0;
            assert(files_view(files@) =~= probe_files_view(p@.files).take(0));
            while i < p.files.len()
                invariant
                    i <= p.files.len(),
                    files_view(files@) == probe_files_view(p@.files).take(i as int),
                decreases p.files.len() - i,
            {
                let f = &p.files[i];
                let ghost before = files_view(files@);
                files.push(
                    SourceQualityFile {
                        name: f.name.clone(),
                        is_dir: f.is_dir,
                        size: f.size,
                        updated_at: f.updated_at.clone(),
                        category: None,
                    },
                );
                assert(files_view(files@) =~= before.push(probe_files_view(p@.files)[i as int]));
                assert(probe_files_view(p@.files).take(i + 1) =~= probe_files_view(p@.files).take(
                    i as int,
                ).push(probe_files_view(p@.files)[i as int]));
                i = i + 1;
            }
            assert(probe_files_view(p@.files).take(p.files.len() as int) =~= probe_files_view(
                p@.files,
            ));
            (Some(p.ok), p.files.len())
        },
        None => {
            assert(files_view(files@) =~= seq![]);
            (None, 0)
        },
    };
    let input = SourceQualityInput {
        title: title.clone(),
        datetime,
        validity,
        probe_ok: validity,
        probe_file_count: file_count,
        probe_episode_count: 0,
        files,
    };
    assert(input@ == probed_input(title@, input.datetime@, owned_probe));
    score_source(&input, now_ms)
}

/// The quality of a subscription's current source at `now_ms`.
fn quality_for_current_source(sub: &Subscription, now_ms: i64) -> (q: SourceQuality)
    requires
        size_total(current_source_input(*sub).files) <= i64::MAX,
    ensures
        assesses(q, current_source_input(*sub), now_ms),
{
    let blank = trim_str(sub.source_title.as_str()).len() == 0;
    let title = if blank {
        &sub.title
    } else {
        &sub.source_title
    };
    let datetime = decimal_string(sub.last_checked_at);
    probed_quality(title, datetime, sub.last_probe.as_ref(), now_ms)
}

/// The quality of a candidate at `now_ms`, from its note and probe.
fn quality_for_candidate(candidate: &SourceCandidate, now_ms: i64) -> (q: SourceQuality)
    requires
        size_total(candidate_input(candidate@).files) <= i64::MAX,
    ensures
        assesses(q, candidate_input(candidate@), now_ms),
{
    let datetime = match &candidate.quality.updated_at {
        Some(u) => u.clone(),
        None => decimal_string(candidate.discovered_at),
    };
    probed_quality(&candidate.note, datetime, candidate.probe_info.as_ref(), now_ms)
}

// ---------------------------------------------------------------------------
// Preview of a candidate
// ---------------------------------------------------------------------------

pub const STATUS_FAILED: &'static str = "failed";
pub const STATUS_SUCCEEDED: &'static str = "succeeded";
pub const STATUS_ROLLED_BACK: &'static str = "rolled_back";

pub const REASON_SCORE_PREFIX: &'static str = "质量分达到 ";
pub const REASON_DELTA_PREFIX: &'static str = "比当前来源高 ";
pub const REASON_DELTA_SUFFIX: &'static str = " 分";
pub const REASON_COVERS_PROGRESS: &'static str = "候选覆盖当前追更进度";

pub const WARN_NOT_PROBED: &'static str = "候选尚未探测成功";
pub const WARN_SEASON_MISMATCH: &'static str = "候选季度与订阅不匹配";
pub const WARN_NOT_COVERING: &'static str = "候选未覆盖当前追更进度";
pub const WARN_HISTORICAL: &'static str = "候选属于当前或历史分享链接";
pub const WARN_RECENT_FAILURE: &'static str = "候选近期应用或探测失败，仍在冷却期";
pub const WARN_COOLDOWN: &'static str = "订阅仍在换源冷却期";
pub const WARN_FAILURES_PREFIX: &'static str = "连续失效 ";
pub const WARN_FAILURES_MIDDLE: &'static str = " 次，尚未达到阈值 ";
pub const WARN_SCORE_PREFIX: &'static str = "候选质量分 ";
pub const WARN_DELTA_PREFIX: &'static str = "候选分差 ";
pub const WARN_BELOW_THRESHOLD: &'static str = " 低于阈值 ";

/// What a candidate would mean for a subscription.
#[derive(Debug, Clone)]
pub struct SourceSwitchPreview {
    pub candidate: SourceCandidate,
    pub current_quality: SourceQuality,
    pub score_delta: i32,
    pub probe_ok: bool,
    pub season_matches: bool,
    pub covers_progress: bool,
    pub historical_link: bool,
    pub recent_failure: bool,
    pub cooldown_active: bool,
    pub failure_threshold_met: bool,
    pub can_apply: bool,
    pub auto_eligible: bool,
    pub reasons: Vec<String>,
    pub warnings: Vec<String>,
}

/// `a - b`, saturating at the bounds of `i64`.
pub open spec fn saturating_diff(a: i64, b: i64) -> int {
    let d = a - b;
    if d > i64::MAX {
        i64::MAX as int
    } else if d < i64::MIN {
        i64::MIN as int
    } else {
        d
    }
}

/// The switch cooldown in seconds (at least one hour).
pub open spec fn cooldown_seconds(settings: Settings) -> int {
    (if settings.source_switch_cooldown_hours < 1 {
        1
    } else {
        settings.source_switch_cooldown_hours as int
    }) * 3600
}

/// The number of failed checks before an automatic switch (at least one).
pub open spec fn failure_threshold(settings: Settings) -> int {
    if settings.source_switch_failure_threshold < 1 {
        1
    } else {
        settings.source_switch_failure_threshold as int
    }
}

/// Whether a switch to `url` failed within the cooldown before `now`.
pub open spec fn recently_failed(
    history: Seq<SourceSwitchHistoryItem>,
    url: Seq<char>,
    now: i64,
    cooldown: int,
) -> bool {
    exists|k: int|
        0 <= k < history.len() && #[trigger] history[k].to_url@ == url && history[k].status@
            == STATUS_FAILED@ && saturating_diff(now, history[k].created_at) < cooldown
}

/// Whether the last switch lies within the cooldown before `now`.
pub open spec fn in_cooldown(last: Option<i64>, now: i64, cooldown: int) -> bool {
    match last {
        Some(t) => saturating_diff(now, t) < cooldown,
        None => false,
    }
}

/// Whether the candidate's probe succeeded.
pub open spec fn probe_succeeded(c: CandidateView) -> bool {
    match c.probe_info {
        Some(p) => p.ok,
        None => false,
    }
}

/// Whether the candidate holds a video of the subscription's season (always
/// for a film).
pub open spec fn season_fits(sub: Subscription, c: CandidateView) -> bool {
    if sub.media_type@ == MEDIA_TYPE_MOVIE@ {
        true
    } else {
        match c.probe_info {
            Some(p) => p.ok && exists|k: int|
                0 <= k < p.files.len() && is_video(#[trigger] p.files[k].name)
                    && in_season_range(
                    p.files[k].name,
                    p.files[k].parent_path,
                    sub.season,
                    sub.season,
                ),
            None => false,
        }
    }
}

/// The first episode the subscription still needs.
pub open spec fn required_episode(sub: Subscription) -> int {
    match sub.start_episode_number {
        Some(s) => s as int,
        None => {
            let next = if sub.current_episode_number == i32::MAX {
                i32::MAX as int
            } else {
                sub.current_episode_number + 1
            };
            if next < 1 {
                1
            } else {
                next
            }
        },
    }
}

/// Whether the candidate reaches the subscription's progress: a video for a
/// film, else episodes up to the required one.
pub open spec fn covers_progress_of(sub: Subscription, c: CandidateView) -> bool {
    if sub.media_type@ == MEDIA_TYPE_MOVIE@ {
        c.quality.video_count > 0
    } else {
        match c.quality.episode_end {
            Some(e) => e >= required_episode(sub),
            None => false,
        }
    }
}

/// Whether `url` is the subscription's current or an earlier share link.
pub open spec fn is_historical(sub: Subscription, url: Seq<char>) -> bool {
    views(sub.previous_share_links@).contains(url) || sub.url@ == url
}

/// The score of the subscription's current source at `now` (seconds).
pub open spec fn current_score(sub: Subscription, now: i64) -> int {
    score_of(current_source_input(sub), (now * 1000) as i64)
}

/// How many points the candidate scores above the current source.
pub open spec fn score_delta_of(sub: Subscription, c: CandidateView, now: i64) -> int {
    c.quality.score as int - current_score(sub, now)
}

pub open spec fn score_ok(c: CandidateView, settings: Settings) -> bool {
    c.quality.score as int >= settings.source_switch_min_score
}

pub open spec fn delta_ok(sub: Subscription, c: CandidateView, settings: Settings, now: i64) -> bool {
    score_delta_of(sub, c, now) >= settings.source_switch_min_score_delta
}

/// Whether the candidate may be applied by hand.
pub open spec fn can_apply_of(sub: Subscription, c: CandidateView, settings: Settings, now: i64) -> bool {
    &&& probe_succeeded(c)
    &&& season_fits(sub, c)
    &&& covers_progress_of(sub, c)
    &&& !is_historical(sub, c.url)
    &&& !recently_failed(sub.source_switch_history@, c.url, now, cooldown_seconds(settings))
}

/// Whether the candidate may be applied automatically.
pub open spec fn auto_eligible_of(sub: Subscription, c: CandidateView, settings: Settings, now: i64) -> bool {
    &&& can_apply_of(sub, c, settings, now)
    &&& score_ok(c, settings)
    &&& delta_ok(sub, c, settings, now)
    &&& !in_cooldown(sub.last_source_switch_at, now, cooldown_seconds(settings))
    &&& sub.source_failure_count as int >= failure_threshold(settings)
}

/// The reasons of a preview before sorting: the candidate's own reasons, then
/// the score, the lead over the current source and the coverage of the
/// progress where they hold.
pub open spec fn reasons_list(
    base: Seq<Seq<char>>,
    score_ok: bool,
    score: int,
    delta_ok: bool,
    delta: int,
    covers_series: bool,
) -> Seq<Seq<char>> {
    let a = if score_ok {
        base.push(REASON_SCORE_PREFIX@ + int_decimal(score))
    } else {
        base
    };
    let b = if delta_ok {
        a.push(REASON_DELTA_PREFIX@ + int_decimal(delta) + REASON_DELTA_SUFFIX@)
    } else {
        a
    };
    if covers_series {
        b.push(REASON_COVERS_PROGRESS@)
    } else {
        b
    }
}

/// The warnings of a preview, in order.
pub open spec fn warnings_list(
    probe_ok: bool,
    season_matches: bool,
    covers: bool,
    historical: bool,
    recent_failure: bool,
    cooldown_active: bool,
    threshold_met: bool,
    failures: int,
    threshold: int,
    score_ok: bool,
    score: int,
    min_score: int,
    delta_ok: bool,
    delta: int,
    min_delta: int,
) -> Seq<Seq<char>> {
    let w1 = if !probe_ok {
        seq![WARN_NOT_PROBED@]
    } else {
        seq![]
    };
    let w2 = if !season_matches {
        w1.push(WARN_SEASON_MISMATCH@)
    } else {
        w1
    };
    let w3 = if !covers {
        w2.push(WARN_NOT_COVERING@)
    } else {
        w2
    };
    let w4 = if historical {
        w3.push(WARN_HISTORICAL@)
    } else {
        w3
    };
    let w5 = if recent_failure {
        w4.push(WARN_RECENT_FAILURE@)
    } else {
        w4
    };
    let w6 = if cooldown_active {
        w5.push(WARN_COOLDOWN@)
    } else {
        w5
    };
    let w7 = if !threshold_met {
        w6.push(
            WARN_FAILURES_PREFIX@ + int_decimal(failures) + WARN_FAILURES_MIDDLE@ + int_decimal(
                threshold,
            ),
        )
    } else {
        w6
    };
    let w8 = if !score_ok {
        w7.push(WARN_SCORE_PREFIX@ + int_decimal(score) + WARN_BELOW_THRESHOLD@ + int_decimal(min_score))
    } else {
        w7
    };
    if !delta_ok {
        w8.push(WARN_DELTA_PREFIX@ + int_decimal(delta) + WARN_BELOW_THRESHOLD@ + int_decimal(min_delta))
    } else {
        w8
    }
}

/// The reasons for the candidate before sorting.
pub open spec fn candidate_reasons(sub: Subscription, c: CandidateView, settings: Settings, now: i64) -> Seq<
    Seq<char>,
> {
    reasons_list(
        c.quality.recommendation_reasons,
        score_ok(c, settings),
        c.quality.score as int,
        delta_ok(sub, c, settings, now),
        score_delta_of(sub, c, now),
        covers_progress_of(sub, c) && sub.media_type@ != MEDIA_TYPE_MOVIE@,
    )
}

/// The warnings about the candidate, in order.
pub open spec fn candidate_warnings(sub: Subscription, c: CandidateView, settings: Settings, now: i64) -> Seq<
    Seq<char>,
> {
    let cooldown = cooldown_seconds(settings);
    warnings_list(
        probe_succeeded(c),
        season_fits(sub, c),
        covers_progress_of(sub, c),
        is_historical(sub, c.url),
        recently_failed(sub.source_switch_history@, c.url, now, cooldown),
        in_cooldown(sub.last_source_switch_at, now, cooldown),
        sub.source_failure_count as int >= failure_threshold(settings),
        sub.source_failure_count as int,
        failure_threshold(settings),
        score_ok(c, settings),
        c.quality.score as int,
        settings.source_switch_min_score as int,
        delta_ok(sub, c, settings, now),
        score_delta_of(sub, c, now),
        settings.source_switch_min_score_delta as int,
    )
}

/// What `preview_candidate` owes: `p` is the preview of candidate `c` for
/// `sub` under `settings` at `now` (seconds).
pub open spec fn previews(
    p: SourceSwitchPreview,
    sub: Subscription,
    c: CandidateView,
    settings: Settings,
    now: i64,
) -> bool {
    let cooldown = cooldown_seconds(settings);
    &&& p.candidate@ == c
    &&& assesses(p.current_quality, current_source_input(sub), (now * 1000) as i64)
    &&& p.score_delta as int == score_delta_of(sub, c, now)
    &&& p.probe_ok == probe_succeeded(c)
    &&& p.season_matches == season_fits(sub, c)
    &&& p.covers_progress == covers_progress_of(sub, c)
    &&& p.historical_link == is_historical(sub, c.url)
    &&& p.recent_failure == recently_failed(sub.source_switch_history@, c.url, now, cooldown)
    &&& p.cooldown_active == in_cooldown(sub.last_source_switch_at, now, cooldown)
    &&& p.failure_threshold_met == (sub.source_failure_count as int >= failure_threshold(settings))
    &&& p.can_apply == can_apply_of(sub, c, settings, now)
    &&& p.auto_eligible == auto_eligible_of(sub, c, settings, now)
    &&& sorted_distinct(views(p.reasons@))
    &&& forall|y: Seq<char>| #[trigger] views(p.reasons@).contains(y) <==> candidate_reasons(
        sub,
        c,
        settings,
        now,
    ).contains(y)
    &&& views(p.warnings@) == candidate_warnings(sub, c, settings, now)
}

/// What `preview_candidate` needs: the current source's files sum to a size
/// that fits `i64`, and `now` in milliseconds fits `i64`.
pub open spec fn previewable(sub: Subscription, now: i64) -> bool {
    &&& size_total(current_source_input(sub).files) <= i64::MAX
    &&& i64::MIN <= now * 1000 <= i64::MAX
}

/// `a - b` saturating at the bounds of `i64`.
fn saturating_diff_exec(a: i64, b: i64) -> (r: i64)
    ensures
        r == saturating_diff(a, b),
{
    let d: i128 = a as i128 - b as i128;
    if d > i64::MAX as i128 {
        i64::MAX
    } else if d < i64::MIN as i128 {
        i64::MIN
    } else {
        d as i64
    }
}

/// Whether any file of the candidate's successful probe is a video of the
/// subscription's season (always for a film).
fn candidate_matches_season(sub: &Subscription, candidate: &SourceCandidate) -> (r: bool)
    ensures
        r == season_fits(*sub, candidate@),
{
    if str_eq(sub.media_type.as_str(), MEDIA_TYPE_MOVIE) {
        return true;
    }
    let probe = match &candidate.probe_info {
        Some(p) => p,
        None => {
            return false;
        },
    };
    if !probe.ok {
        return false;
    }
    let mut i: usize = 0;
    while i < probe.files.len()
        invariant
            i <= probe.files.len(),
            sub.media_type@ != MEDIA_TYPE_MOVIE@,
            candidate@.probe_info == Some(probe@),
            probe.ok,
            forall|k: int|
                0 <= k < i ==> !(is_video(#[trigger] probe.files@[k].name@) && in_season_range(
                    probe.files@[k].name@,
                    probe.files@[k].parent_path@,
                    sub.season,
                    sub.season,
                )),
        decreases probe.files.len() - i,
    {
        let file = &probe.files[i];
        if is_video_name(file.name.as_str()) && matches_subscription_season(
            file.name.as_str(),
            file.parent_path.as_str(),
            sub.season,
        ) {
            assert(is_video(probe.files@[i as int].name@));
            assert(probe@.files[i as int] == probe.files@[i as int]@);
            assert(is_video(probe@.files[i as int].name));
            return true;
        }
        i = i + 1;
    }
    assert forall|k: int| 0 <= k < probe@.files.len() implies !(is_video(
        #[trigger] probe@.files[k].name,
    ) && in_season_range(probe@.files[k].name, probe@.files[k].parent_path, sub.season, sub.season)) by {
        assert(probe@.files[k] == probe.files@[k]@);
    }
    false
}

/// Whether the candidate reaches the subscription's progress.
fn candidate_covers_progress(sub: &Subscription, candidate: &SourceCandidate) -> (r: bool)
    ensures
        r == covers_progress_of(*sub, candidate@),
{
    if str_eq(sub.media_type.as_str(), MEDIA_TYPE_MOVIE) {
        return candidate.quality.video_count > 0;
    }
    let required: i32 = match sub.start_episode_number {
        Some(s) => s,
        None => {
            let next = if sub.current_episode_number == i32::MAX {
                i32::MAX
            } else {
                sub.current_episode_number + 1
            };
            if next < 1 {
                1
            } else {
                next
            }
        },
    };
    match candidate.quality.episode_end {
        Some(e) => e >= required,
        None => false,
    }
}

/// Whether `url` is among `links`.
fn contains_text(links: &Vec<String>, url: &str) -> (r: bool)
    ensures
        r == views(links@).contains(url@),
{
    let mut i: usize = 0;
    while i < links.len()
        invariant
            i <= links.len(),
            forall|j: int| 0 <= j < i ==> views(links@)[j] != url@,
        decreases links.len() - i,
    {
        if str_eq(links[i].as_str(), url) {
            assert(views(links@)[i as int] == url@);
            return true;
        }
        i = i + 1;
    }
    false
}

/// Whether a switch to `url` failed within the cooldown before `now`.
fn failed_within(history: &Vec<SourceSwitchHistoryItem>, url: &str, now: i64, cooldown: i64) -> (r:
    bool)
    ensures
        r == recently_failed(history@, url@, now, cooldown as int),
{
    let mut i: usize = 0;
    while i < history.len()
        invariant
            i <= history.len(),
            forall|k: int|
                0 <= k < i ==> !(#[trigger] history@[k].to_url@ == url@ && history@[k].status@
                    == STATUS_FAILED@ && saturating_diff(now, history@[k].created_at) < cooldown),
        decreases history.len() - i,
    {
        let item = &history[i];
        if str_eq(item.to_url.as_str(), url) && str_eq(item.status.as_str(), STATUS_FAILED)
            && saturating_diff_exec(now, item.created_at) < cooldown {
            assert(history@[i as int].to_url@ == url@);
            return true;
        }
        i = i + 1;
    }
    false
}

/// `text` followed by the decimal rendering of `n`.
fn with_number(text: &str, n: i64) -> (r: String)
    ensures
        r@ == text@ + int_decimal(n as int),
{
    let mut s = owned(text);
    push_decimal(&mut s, n);
    s
}

/// The reasons of a preview, sorted and without duplicates.
fn preview_reasons(
    base: &Vec<String>,
    score_ok: bool,
    score: u8,
    delta_ok: bool,
    delta: i32,
    covers_series: bool,
) -> (r: Vec<String>)
    ensures
        sorted_distinct(views(r@)),
        forall|y: Seq<char>| views(r@).contains(y) <==> reasons_list(
            views(base@),
            score_ok,
            score as int,
            delta_ok,
            delta as int,
            covers_series,
        ).contains(y),
{
    let mut reasons: Vec<String> = Vec::new();
    let mut i: usize = 0;
    while i < base.len()
        invariant
            i <= base.len(),
            views(reasons@) == views(base@).take(i as int),
        decreases base.len() - i,
    {
        let ghost before = views(reasons@);
        reasons.push(base[i].clone());
        assert(views(reasons@) =~= before.push(base@[i as int]@));
        assert(views(base@).take(i + 1) =~= views(base@).take(i as int).push(base@[i as int]@));
        i = i + 1;
    }
    assert(views(base@).take(base.len() as int) =~= views(base@));
    let ghost r0 = views(reasons@);
    if score_ok {
        reasons.push(with_number(REASON_SCORE_PREFIX, score as i64));
        assert(views(reasons@) =~= r0.push(REASON_SCORE_PREFIX@ + int_decimal(score as int)));
    }
    let ghost r1 = views(reasons@);
    if delta_ok {
        let mut line = with_number(REASON_DELTA_PREFIX, delta as i64);
        push_str(&mut line, REASON_DELTA_SUFFIX);
        reasons.push(line);
        assert(views(reasons@) =~= r1.push(
            REASON_DELTA_PREFIX@ + int_decimal(delta as int) + REASON_DELTA_SUFFIX@,
        ));
    }
    let ghost r2 = views(reasons@);
    if covers_series {
        reasons.push(owned(REASON_COVERS_PROGRESS));
        assert(views(reasons@) =~= r2.push(REASON_COVERS_PROGRESS@));
    }
    sorted_unique(reasons)
}

/// `prefix`, `a`, `middle`, `b` with the numbers in decimal.
fn two_numbers(prefix: &str, a: i64, middle: &str, b: i64) -> (r: String)
    ensures
        r@ == prefix@ + int_decimal(a as int) + middle@ + int_decimal(b as int),
{
    let mut s = with_number(prefix, a);
    push_str(&mut s, middle);
    push_decimal(&mut s, b);
    s
}

/// The warnings of a preview.
fn preview_warnings(
    probe_ok: bool,
    season_matches: bool,
    covers: bool,
    historical: bool,
    recent_failure: bool,
    cooldown_active: bool,
    threshold_met: bool,
    failures: u32,
    threshold: i32,
    score_ok: bool,
    score: u8,
    min_score: i32,
    delta_ok: bool,
    delta: i32,
    min_delta: i32,
) -> (r: Vec<String>)
    ensures
        views(r@) == warnings_list(
            probe_ok,
            season_matches,
            covers,
            historical,
            recent_failure,
            cooldown_active,
            threshold_met,
            failures as int,
            threshold as int,
            score_ok,
            score as int,
            min_score as int,
            delta_ok,
            delta as int,
            min_delta as int,
        ),
{
    let mut w: Vec<String> = Vec::new();
    if !probe_ok {
        w.push(owned(WARN_NOT_PROBED));
    }
    assert(views(w@) =~= if !probe_ok {
        seq![WARN_NOT_PROBED@]
    } else {
        Seq::<Seq<char>>::empty()
    });
    let ghost a1 = views(w@);
    if !season_matches {
        w.push(owned(WARN_SEASON_MISMATCH));
        assert(views(w@) =~= a1.push(WARN_SEASON_MISMATCH@));
    }
    let ghost a2 = views(w@);
    if !covers {
        w.push(owned(WARN_NOT_COVERING));
        assert(views(w@) =~= a2.push(WARN_NOT_COVERING@));
    }
    let ghost a3 = views(w@);
    if historical {
        w.push(owned(WARN_HISTORICAL));
        assert(views(w@) =~= a3.push(WARN_HISTORICAL@));
    }
    let ghost a4 = views(w@);
    if recent_failure {
        w.push(owned(WARN_RECENT_FAILURE));
        assert(views(w@) =~= a4.push(WARN_RECENT_FAILURE@));
    }
    let ghost a5 = views(w@);
    if cooldown_active {
        w.push(owned(WARN_COOLDOWN));
        assert(views(w@) =~= a5.push(WARN_COOLDOWN@));
    }
    let ghost a6 = views(w@);
    if !threshold_met {
        w.push(two_numbers(WARN_FAILURES_PREFIX, failures as i64, WARN_FAILURES_MIDDLE, threshold as i64));
        assert(views(w@) =~= a6.push(
            WARN_FAILURES_PREFIX@ + int_decimal(failures as int) + WARN_FAILURES_MIDDLE@
                + int_decimal(threshold as int),
        ));
    }
    let ghost a7 = views(w@);
    if !score_ok {
        w.push(two_numbers(WARN_SCORE_PREFIX, score as i64, WARN_BELOW_THRESHOLD, min_score as i64));
        assert(views(w@) =~= a7.push(
            WARN_SCORE_PREFIX@ + int_decimal(score as int) + WARN_BELOW_THRESHOLD@ + int_decimal(
                min_score as int,
            ),
        ));
    }
    let ghost a8 = views(w@);
    if !delta_ok {
        w.push(two_numbers(WARN_DELTA_PREFIX, delta as i64, WARN_BELOW_THRESHOLD, min_delta as i64));
        assert(views(w@) =~= a8.push(
            WARN_DELTA_PREFIX@ + int_decimal(delta as int) + WARN_BELOW_THRESHOLD@ + int_decimal(
                min_delta as int,
            ),
        ));
    }
    w
}

/// The service that finds, previews, applies and rolls back replacement
/// sources of subscriptions.
#[derive(Debug, Clone)]
pub struct SubscriptionSourceSwitchService {
    /// The search service's address, when one is configured.
    pub pansou_api_url: Option<String>,
}

impl SubscriptionSourceSwitchService {
    /// A service using the default search address.
    pub fn new() -> (r: Self)
        ensures
            r.pansou_api_url is None,
    {
        Self::with_pansou_api_url(None)
    }

    /// A service using the given search address.
    pub fn with_pansou_api_url(pansou_api_url: Option<String>) -> (r: Self)
        ensures
            r.pansou_api_url == pansou_api_url,
    {
        SubscriptionSourceSwitchService { pansou_api_url }
    }

    /// What switching `sub` to `candidate` would mean at `now` (seconds): the
    /// current source's quality, the lead of the candidate, whether it may be
    /// applied by hand or automatically, and why.
    pub fn preview_candidate(
        &self,
        sub: &Subscription,
        candidate: SourceCandidate,
        settings: &Settings,
        now: i64,
    ) -> (p: SourceSwitchPreview)
        requires
            previewable(*sub, now),
        ensures
            previews(p, *sub, candidate@, *settings, now),
    {
        let current_quality = quality_for_current_source(sub, now * 1000);
        let score_delta: i32 = candidate.quality.score as i32 - current_quality.score as i32;
        let probe_ok = match &candidate.probe_info {
            Some(p) => p.ok,
            None => false,
        };
        let season_matches = candidate_matches_season(sub, &candidate);
        let covers_progress = candidate_covers_progress(sub, &candidate);
        let historical_link = contains_text(&sub.previous_share_links, candidate.url.as_str())
            || str_eq(sub.url.as_str(), candidate.url.as_str());
        let hours: i64 = if settings.source_switch_cooldown_hours < 1 {
            1
        } else {
            settings.source_switch_cooldown_hours as i64
        };
        let cooldown: i64 = hours * 3600;
        let recent_failure = failed_within(
            &sub.source_switch_history,
            candidate.url.as_str(),
            now,
            cooldown,
        );
        let cooldown_active = match sub.last_source_switch_at {
            Some(last) => saturating_diff_exec(now, last) < cooldown,
            None => false,
        };
        let threshold: i32 = if settings.source_switch_failure_threshold < 1 {
            1
        } else {
            settings.source_switch_failure_threshold
        };
        let failure_threshold_met = sub.source_failure_count >= threshold as u32;
        let score_ok = candidate.quality.score as i32 >= settings.source_switch_min_score;
        let delta_ok = score_delta >= settings.source_switch_min_score_delta;
        let can_apply = probe_ok && season_matches && covers_progress && !historical_link
            && !recent_failure;
        let auto_eligible = can_apply && score_ok && delta_ok && !cooldown_active
            && failure_threshold_met;
        let not_movie = !str_eq(sub.media_type.as_str(), MEDIA_TYPE_MOVIE);
        let reasons = preview_reasons(
            &candidate.quality.recommendation_reasons,
            score_ok,
            candidate.quality.score,
            delta_ok,
            score_delta,
            covers_progress && not_movie,
        );
        let warnings = preview_warnings(
            probe_ok,
            season_matches,
            covers_progress,
            historical_link,
            recent_failure,
            cooldown_active,
            failure_threshold_met,
            sub.source_failure_count,
            threshold,
            score_ok,
            candidate.quality.score,
            settings.source_switch_min_score,
            delta_ok,
            score_delta,
            settings.source_switch_min_score_delta,
        );
        SourceSwitchPreview {
            candidate,
            current_quality,
            score_delta,
            probe_ok,
            season_matches,
            covers_progress,
            historical_link,
            recent_failure,
            cooldown_active,
            failure_threshold_met,
            can_apply,
            auto_eligible,
            reasons,
            warnings,
        }
    }
}

// ---------------------------------------------------------------------------
// Applying, recording and rolling back switches
// ---------------------------------------------------------------------------

pub const STATUS_ACTIVE: &'static str = "active";
pub const SUMMARY_SWITCHED: &'static str = "已更换订阅资源，等待立即检查";
pub const SUMMARY_ROLLED_BACK: &'static str = "已回滚到上一来源，等待立即检查";
pub const MANUAL_REASON: &'static str = "手动应用候选";
pub const FAILURE_REASON: &'static str = "候选探测或策略应用失败";
pub const ROLLBACK_REASON: &'static str = "回滚上一来源";
pub const ROLLBACK_MESSAGE: &'static str = "已回滚到上一来源";
pub const NO_CANDIDATE: &'static str = "候选项不存在";
pub const NO_ROLLBACK: &'static str = "没有可回滚的换源历史";
pub const SWITCH_ID_PREFIX: &'static str = "switch-";
pub const FAILED_ID_PREFIX: &'static str = "switch-failed-";
pub const ROLLBACK_ID_PREFIX: &'static str = "switch-rollback-";

/// How many earlier links and audit entries a subscription keeps.
pub const HISTORY_LIMIT: usize = 50;

/// Outcome of rolling back a switch.
#[derive(Debug, Clone)]
pub struct SourceSwitchRollbackResult {
    pub success: bool,
    pub restored_url: String,
    pub message: String,
}

/// `k` is the first candidate with identifier `id`.
pub open spec fn first_with_id(cands: Seq<SourceCandidate>, id: Seq<char>, k: int) -> bool {
    &&& 0 <= k < cands.len()
    &&& cands[k].id@ == id
    &&& forall|j: int| 0 <= j < k ==> (#[trigger] cands[j]).id@ != id
}

/// Whether some candidate has identifier `id`.
pub open spec fn has_candidate(cands: Seq<SourceCandidate>, id: Seq<char>) -> bool {
    exists|k: int| 0 <= k < cands.len() && (#[trigger] cands[k]).id@ == id
}

/// The earlier links with `url` remembered: appended unless present, and only
/// the last fifty kept.
pub open spec fn remember_link(links: Seq<Seq<char>>, url: Seq<char>) -> Seq<Seq<char>> {
    if links.contains(url) {
        links
    } else {
        let l = links.push(url);
        if l.len() > HISTORY_LIMIT {
            l.skip(l.len() - HISTORY_LIMIT)
        } else {
            l
        }
    }
}

/// `item` put first in the audit trail, keeping at most fifty entries.
pub open spec fn record(history: Seq<HistoryView>, item: HistoryView) -> Seq<HistoryView> {
    first_n(seq![item] + history, HISTORY_LIMIT as int)
}

/// The fields a switch or a rollback leaves as they were: identity, progress
/// and settings.
pub open spec fn keeps_progress(old: Subscription, new: Subscription) -> bool {
    &&& new.id == old.id
    &&& new.title == old.title
    &&& new.source_title == old.source_title
    &&& new.media_type == old.media_type
    &&& new.season == old.season
    &&& new.season_end == old.season_end
    &&& new.current_episode_number == old.current_episode_number
    &&& new.total_episode_number == old.total_episode_number
    &&& new.metadata == old.metadata
    &&& new.known_files == old.known_files
    &&& new.known_file_keys == old.known_file_keys
    &&& new.known_episodes == old.known_episodes
    &&& new.transferred_files == old.transferred_files
    &&& new.transferred_file_keys == old.transferred_file_keys
    &&& new.notify_only == old.notify_only
    &&& new.sync_download_enabled == old.sync_download_enabled
    &&& new.sync_downloads == old.sync_downloads
    &&& new.strm_enabled == old.strm_enabled
    &&& new.enabled == old.enabled
    &&& new.rules == old.rules
    &&& new.last_checked_at == old.last_checked_at
    &&& new.cloud_type == old.cloud_type
    &&& new.created_at == old.created_at
    &&& new.updated_at == old.updated_at
    &&& new.check_history == old.check_history
    &&& new.last_source_search_time == old.last_source_search_time
}

/// The state every switch and rollback resets: active, no error, not
/// completed, no probe and no news, waiting for a check.
pub open spec fn reactivated(new: Subscription, summary: Seq<char>, now: i64) -> bool {
    &&& new.status@ == STATUS_ACTIVE@
    &&& new.invalid_since is None
    &&& new.last_error@.len() == 0
    &&& !new.completed
    &&& new.last_probe is None
    &&& new.last_new_files@.len() == 0
    &&& new.last_new_episodes@.len() == 0
    &&& new.last_check_summary@ == summary
    &&& new.last_source_switch_at == Some(now)
    &&& new.source_candidates@.len() == 0
}

/// The audit entry of a successful switch.
pub open spec fn switch_entry(
    old: Subscription,
    c: CandidateView,
    automatic: bool,
    reason: Seq<char>,
    now: i64,
) -> HistoryView {
    HistoryView {
        id: SWITCH_ID_PREFIX@ + int_decimal(now as int) + "-"@ + c.id,
        candidate_id: c.id,
        from_url: old.url@,
        from_password: old.password@,
        to_url: c.url,
        to_password: c.password,
        quality: c.quality,
        reason,
        status: STATUS_SUCCEEDED@,
        error: seq![],
        automatic,
        created_at: now,
        rolled_back_at: None,
    }
}

/// `new` is `old` switched to candidate `c` at `now`.
pub open spec fn switched(
    old: Subscription,
    new: Subscription,
    c: CandidateView,
    automatic: bool,
    reason: Seq<char>,
    now: i64,
) -> bool {
    &&& keeps_progress(old, new)
    &&& reactivated(new, SUMMARY_SWITCHED@, now)
    &&& new.url@ == c.url
    &&& new.password@ == c.password
    &&& new.source_failure_count == 0
    &&& new.start_episode_number == if old.media_type@ != MEDIA_TYPE_MOVIE@
        && old.current_episode_number > 0 {
        Some((old.current_episode_number + 1) as i32)
    } else {
        old.start_episode_number
    }
    &&& views(new.previous_share_links@) == remember_link(views(old.previous_share_links@), old.url@)
    &&& history_view(new.source_switch_history@) == record(
        history_view(old.source_switch_history@),
        switch_entry(old, c, automatic, reason, now),
    )
}

/// What applying a switch needs: the next episode number fits `i32` where a
/// series' start moves past its current episode.
pub open spec fn switchable(sub: Subscription) -> bool {
    sub.media_type@ != MEDIA_TYPE_MOVIE@ && sub.current_episode_number > 0
        ==> sub.current_episode_number < i32::MAX
}

/// The audit entry of a failed candidate.
pub open spec fn failure_entry(
    sub: Subscription,
    c: CandidateView,
    error: Seq<char>,
    automatic: bool,
    now: i64,
) -> HistoryView {
    HistoryView {
        id: FAILED_ID_PREFIX@ + int_decimal(now as int) + "-"@ + c.id,
        candidate_id: c.id,
        from_url: sub.url@,
        from_password: sub.password@,
        to_url: c.url,
        to_password: c.password,
        quality: c.quality,
        reason: FAILURE_REASON@,
        status: STATUS_FAILED@,
        error,
        automatic,
        created_at: now,
        rolled_back_at: None,
    }
}

/// `k` is the newest switch that succeeded and was not rolled back.
pub open spec fn first_rollbackable(history: Seq<HistoryView>, k: int) -> bool {
    &&& 0 <= k < history.len()
    &&& history[k].status == STATUS_SUCCEEDED@
    &&& history[k].rolled_back_at is None
    &&& forall|j: int|
        0 <= j < k ==> !((#[trigger] history[j]).status == STATUS_SUCCEEDED@
            && history[j].rolled_back_at is None)
}

/// Whether some switch can be rolled back.
pub open spec fn can_roll_back(history: Seq<HistoryView>) -> bool {
    exists|k: int|
        0 <= k < history.len() && (#[trigger] history[k]).status == STATUS_SUCCEEDED@
            && history[k].rolled_back_at is None
}

/// The quality assessment with no score and no findings.
pub open spec fn empty_quality() -> QualityView {
    QualityView {
        score: 0,
        grade: seq![],
        tone: seq![],
        tags: seq![],
        risks: seq![],
        resolution: seq![],
        file_count: 0,
        video_count: 0,
        episode_count: 0,
        episode_start: None,
        episode_end: None,
        total_size: 0,
        updated_at: None,
        recommendation_reasons: seq![],
    }
}

/// The audit entry of a rollback of entry `h`.
pub open spec fn rollback_entry(sub: Subscription, h: HistoryView, now: i64) -> HistoryView {
    HistoryView {
        id: ROLLBACK_ID_PREFIX@ + int_decimal(now as int),
        candidate_id: h.candidate_id,
        from_url: sub.url@,
        from_password: sub.password@,
        to_url: h.from_url,
        to_password: h.from_password,
        quality: empty_quality(),
        reason: ROLLBACK_REASON@,
        status: STATUS_ROLLED_BACK@,
        error: seq![],
        automatic: false,
        created_at: now,
        rolled_back_at: None,
    }
}

/// `new` is `old` with its switch `k` rolled back at `now`.
pub open spec fn rolled_back(old: Subscription, new: Subscription, k: int, now: i64) -> bool {
    let h = history_view(old.source_switch_history@);
    &&& first_rollbackable(h, k)
    &&& keeps_progress(old, new)
    &&& reactivated(new, SUMMARY_ROLLED_BACK@, now)
    &&& new.url@ == h[k].from_url
    &&& new.password@ == h[k].from_password
    &&& new.start_episode_number == old.start_episode_number
    &&& new.source_failure_count == old.source_failure_count
    &&& new.previous_share_links == old.previous_share_links
    &&& history_view(new.source_switch_history@) == record(
        h.update(k, HistoryView { rolled_back_at: Some(now), ..h[k] }),
        rollback_entry(old, h[k], now),
    )
}

/// Prepends `item` to the audit trail and keeps at most fifty entries.
fn record_entry(history: &mut Vec<SourceSwitchHistoryItem>, item: SourceSwitchHistoryItem)
    ensures
        history_view(final(history)@) == record(history_view(old(history)@), item@),
{
    let ghost before = history_view(history@);
    history.insert(0, item);
    assert(history_view(history@) =~= seq![item@] + before);
    history.truncate(HISTORY_LIMIT);
    proof {
        let l = seq![item@] + before;
        if l.len() > HISTORY_LIMIT {
            assert(history_view(history@) =~= l.take(HISTORY_LIMIT as int));
        }
    }
}

/// Remembers `url` among the earlier links, keeping the last fifty.
fn remember_previous_link(links: &mut Vec<String>, url: &String)
    ensures
        views(final(links)@) == remember_link(views(old(links)@), url@),
{
    if contains_text(links, url.as_str()) {
        return;
    }
    let ghost before = views(links@);
    links.push(url.clone());
    assert(views(links@) =~= before.push(url@));
    if links.len() > HISTORY_LIMIT {
        let remove = links.len() - HISTORY_LIMIT;
        let ghost l = views(links@);
        let kept = links.split_off(remove);
        *links = kept;
        assert(views(links@) =~= l.skip(l.len() - HISTORY_LIMIT));
    }
}

/// The id of an audit entry: `prefix`, the time, and `-` with the candidate's
/// id where given.
fn entry_id(prefix: &str, now: i64, candidate_id: Option<&String>) -> (r: String)
    ensures
        r@ == match candidate_id {
            Some(c) => prefix@ + int_decimal(now as int) + "-"@ + c@,
            None => prefix@ + int_decimal(now as int),
        },
{
    let mut id = with_number(prefix, now);
    match candidate_id {
        Some(c) => {
            push_str(&mut id, "-");
            push_str(&mut id, c.as_str());
        },
        None => {},
    }
    id
}

/// Resets the state a switch or rollback starts over with.
fn reactivate(sub: &mut Subscription, summary: &str, now: i64)
    ensures
        keeps_progress(*old(sub), *final(sub)),
        reactivated(*final(sub), summary@, now),
        final(sub).url == old(sub).url,
        final(sub).password == old(sub).password,
        final(sub).start_episode_number == old(sub).start_episode_number,
        final(sub).source_failure_count == old(sub).source_failure_count,
        final(sub).previous_share_links == old(sub).previous_share_links,
        final(sub).source_switch_history == old(sub).source_switch_history,
{
    sub.status = owned(STATUS_ACTIVE);
    sub.invalid_since = None;
    sub.last_error = String::new();
    sub.completed = false;
    sub.last_probe = None;
    sub.last_new_files.clear();
    sub.last_new_episodes.clear();
    sub.last_check_summary = owned(summary);
    sub.last_source_switch_at = Some(now);
    sub.source_candidates.clear();
}

/// The index of the first candidate with identifier `id`.
fn find_candidate(cands: &Vec<SourceCandidate>, id: &str) -> (r: Option<usize>)
    ensures
        match r {
            Some(k) => first_with_id(cands@, id@, k as int),
            None => !has_candidate(cands@, id@),
        },
{
    let mut i: usize = 0;
    while i < cands.len()
        invariant
            i <= cands.len(),
            forall|j: int| 0 <= j < i ==> (#[trigger] cands@[j]).id@ != id@,
        decreases cands.len() - i,
    {
        if str_eq(cands[i].id.as_str(), id) {
            return Some(i);
        }
        i = i + 1;
    }
    None
}

/// The index of the newest switch that succeeded and was not rolled back.
fn find_rollbackable(history: &Vec<SourceSwitchHistoryItem>) -> (r: Option<usize>)
    ensures
        match r {
            Some(k) => first_rollbackable(history_view(history@), k as int),
            None => !can_roll_back(history_view(history@)),
        },
{
    let ghost h = history_view(history@);
    let mut i: usize = 0;
    while i < history.len()
        invariant
            i <= history.len(),
            h == history_view(history@),
            forall|j: int|
                0 <= j < i ==> !((#[trigger] h[j]).status == STATUS_SUCCEEDED@
                    && h[j].rolled_back_at is None),
        decreases history.len() - i,
    {
        assert(h[i as int] == history@[i as int]@);
        if str_eq(history[i].status.as_str(), STATUS_SUCCEEDED) && history[i].rolled_back_at.is_none() {
            return Some(i);
        }
        i = i + 1;
    }
    None
}

/// Only the audit trail differs between `old` and `new`.
pub open spec fn only_history_changed(old: Subscription, new: Subscription) -> bool {
    &&& keeps_progress(old, new)
    &&& new.url == old.url
    &&& new.password == old.password
    &&& new.status == old.status
    &&& new.invalid_since == old.invalid_since
    &&& new.last_error == old.last_error
    &&& new.completed == old.completed
    &&& new.last_probe == old.last_probe
    &&& new.last_new_files == old.last_new_files
    &&& new.last_new_episodes == old.last_new_episodes
    &&& new.last_check_summary == old.last_check_summary
    &&& new.source_candidates == old.source_candidates
    &&& new.previous_share_links == old.previous_share_links
    &&& new.source_failure_count == old.source_failure_count
    &&& new.last_source_switch_at == old.last_source_switch_at
    &&& new.start_episode_number == old.start_episode_number
}

impl SubscriptionSourceSwitchService {
    /// The preview of the highest-scoring candidate that may be applied
    /// automatically (the last one among equals), if any.
    pub fn best_auto_candidate(
        &self,
        sub: &Subscription,
        candidates: &[SourceCandidate],
        settings: &Settings,
        now: i64,
    ) -> (r: Option<SourceSwitchPreview>)
        requires
            previewable(*sub, now),
        ensures
            match r {
                None => forall|k: int|
                    0 <= k < candidates@.len() ==> !auto_eligible_of(
                        *sub,
                        #[trigger] candidates@[k]@,
                        *settings,
                        now,
                    ),
                Some(p) => exists|k: int|
                    0 <= k < candidates@.len() && previews(
                        p,
                        *sub,
                        #[trigger] candidates@[k]@,
                        *settings,
                        now,
                    ) && p.auto_eligible && (forall|j: int|
                        0 <= j < candidates@.len() && auto_eligible_of(
                            *sub,
                            #[trigger] candidates@[j]@,
                            *settings,
                            now,
                        ) ==> candidates@[j].quality.score <= candidates@[k].quality.score) && (
                    forall|j: int|
                        k < j < candidates@.len() && auto_eligible_of(
                            *sub,
                            #[trigger] candidates@[j]@,
                            *settings,
                            now,
                        ) ==> candidates@[j].quality.score < candidates@[k].quality.score),
            },
    {
        let mut best: Option<SourceSwitchPreview> = None;
        let ghost mut best_k: int = 0;
        let mut i: usize = 0;
        while i < candidates.len()
            invariant
                i <= candidates.len(),
                previewable(*sub, now),
                match best {
                    None => forall|j: int|
                        0 <= j < i ==> !auto_eligible_of(
                            *sub,
                            #[trigger] candidates@[j]@,
                            *settings,
                            now,
                        ),
                    Some(b) => 0 <= best_k < i && previews(
                        b,
                        *sub,
                        candidates@[best_k]@,
                        *settings,
                        now,
                    ) && b.auto_eligible && (forall|j: int|
                        0 <= j < i && auto_eligible_of(
                            *sub,
                            #[trigger] candidates@[j]@,
                            *settings,
                            now,
                        ) ==> candidates@[j].quality.score <= candidates@[best_k].quality.score)
                        && (forall|j: int|
                        best_k < j < i && auto_eligible_of(
                            *sub,
                            #[trigger] candidates@[j]@,
                            *settings,
                            now,
                        ) ==> candidates@[j].quality.score < candidates@[best_k].quality.score),
                },
            decreases candidates.len() - i,
        {
            let p = self.preview_candidate(sub, copy_candidate(&candidates[i]), settings, now);
            assert(p.candidate.quality.score == candidates@[i as int].quality.score) by {
                assert(p.candidate@.quality.score == candidates@[i as int]@.quality.score);
            }
            if p.auto_eligible {
                let replace = match &best {
                    Some(b) => p.candidate.quality.score >= b.candidate.quality.score,
                    None => true,
                };
                if replace {
                    proof {
                        assert(best matches Some(b) ==> b.candidate@.quality.score
                            == candidates@[best_k]@.quality.score);
                        assert(best matches Some(b) ==> b.candidate.quality.score
                            == candidates@[best_k].quality.score);
                        best_k = i as int;
                    }
                    best = Some(p);
                } else {
                    proof {
                        assert(best matches Some(b) ==> b.candidate@.quality.score
                            == candidates@[best_k]@.quality.score);
                        assert(best matches Some(b) ==> b.candidate.quality.score
                            == candidates@[best_k].quality.score);
                    }
                }
            }
            i = i + 1;
        }
        best
    }

    /// Switches `sub` to its candidate `candidate_id` at `now` (seconds): the
    /// old link is remembered, the new one taken, the subscription reactivated
    /// with its progress kept, and the switch recorded first in the audit
    /// trail. Fails, changing nothing, when there is no such candidate.
    pub fn apply_source_switch_at(
        &self,
        sub: &mut Subscription,
        candidate_id: &str,
        automatic: bool,
        reason: &str,
        now: i64,
    ) -> (r: Result<(), AppError>)
        requires
            switchable(*old(sub)),
        ensures
            r is Ok <==> has_candidate(old(sub).source_candidates@, candidate_id@),
            r is Ok ==> exists|k: int|
                first_with_id(old(sub).source_candidates@, candidate_id@, k) && switched(
                    *old(sub),
                    *final(sub),
                    #[trigger] old(sub).source_candidates@[k]@,
                    automatic,
                    reason@,
                    now,
                ),
            r matches Err(e) ==> *final(sub) == *old(sub) && e is NotFound && e.message()
                == NO_CANDIDATE@,
    {
        let k = match find_candidate(&sub.source_candidates, candidate_id) {
            Some(k) => k,
            None => {
                return Err(AppError::NotFound(owned(NO_CANDIDATE)));
            },
        };
        let ghost old_sub = *sub;
        let candidate = copy_candidate(&sub.source_candidates[k]);
        let from_url = sub.url.clone();
        let from_password = sub.password.clone();
        remember_previous_link(&mut sub.previous_share_links, &from_url);
        sub.url = candidate.url.clone();
        sub.password = candidate.password.clone();
        reactivate(sub, SUMMARY_SWITCHED, now);
        sub.source_failure_count = 0;
        if !str_eq(sub.media_type.as_str(), MEDIA_TYPE_MOVIE) && sub.current_episode_number > 0 {
            sub.start_episode_number = Some(sub.current_episode_number + 1);
        }
        let item = SourceSwitchHistoryItem {
            id: entry_id(SWITCH_ID_PREFIX, now, Some(&candidate.id)),
            candidate_id: candidate.id.clone(),
            from_url,
            from_password,
            to_url: candidate.url.clone(),
            to_password: candidate.password.clone(),
            quality: copy_quality(&candidate.quality),
            reason: owned(reason),
            status: owned(STATUS_SUCCEEDED),
            error: String::new(),
            automatic,
            created_at: now,
            rolled_back_at: None,
        };
        assert(item@ == switch_entry(old_sub, old_sub.source_candidates@[k as int]@, automatic, reason@, now));
        record_entry(&mut sub.source_switch_history, item);
        assert(switched(old_sub, *sub, old_sub.source_candidates@[k as int]@, automatic, reason@, now));
        Ok(())
    }

    /// `apply_source_switch_at` at the current time.
    pub fn apply_source_switch_with_audit(
        &self,
        sub: &mut Subscription,
        candidate_id: &str,
        automatic: bool,
        reason: &str,
    ) -> (r: Result<(), AppError>)
        requires
            switchable(*old(sub)),
        ensures
            r is Ok <==> has_candidate(old(sub).source_candidates@, candidate_id@),
            r is Ok ==> exists|k: int, now: i64|
                first_with_id(old(sub).source_candidates@, candidate_id@, k) && #[trigger] switched(
                    *old(sub),
                    *final(sub),
                    old(sub).source_candidates@[k]@,
                    automatic,
                    reason@,
                    now,
                ),
            r matches Err(e) ==> *final(sub) == *old(sub) && e is NotFound && e.message()
                == NO_CANDIDATE@,
    {
        let now = unix_now();
        self.apply_source_switch_at(sub, candidate_id, automatic, reason, now)
    }

    /// Switches `sub` to its candidate `candidate_id` by hand, now.
    pub fn apply_source_switch(&self, sub: &mut Subscription, candidate_id: &str) -> (r: Result<
        (),
        AppError,
    >)
        requires
            switchable(*old(sub)),
        ensures
            r is Ok <==> has_candidate(old(sub).source_candidates@, candidate_id@),
            r is Ok ==> exists|k: int, now: i64|
                first_with_id(old(sub).source_candidates@, candidate_id@, k) && #[trigger] switched(
                    *old(sub),
                    *final(sub),
                    old(sub).source_candidates@[k]@,
                    false,
                    MANUAL_REASON@,
                    now,
                ),
            r matches Err(e) ==> *final(sub) == *old(sub) && e is NotFound && e.message()
                == NO_CANDIDATE@,
    {
        self.apply_source_switch_with_audit(sub, candidate_id, false, MANUAL_REASON)
    }

    /// Records at `now` that `candidate` failed with `error`, first in the
    /// audit trail; nothing else changes.
    pub fn record_candidate_failure_at(
        &self,
        sub: &mut Subscription,
        candidate: &SourceCandidate,
        error: &str,
        automatic: bool,
        now: i64,
    )
        ensures
            only_history_changed(*old(sub), *final(sub)),
            history_view(final(sub).source_switch_history@) == record(
                history_view(old(sub).source_switch_history@),
                failure_entry(*old(sub), candidate@, error@, automatic, now),
            ),
    {
        let item = SourceSwitchHistoryItem {
            id: entry_id(FAILED_ID_PREFIX, now, Some(&candidate.id)),
            candidate_id: candidate.id.clone(),
            from_url: sub.url.clone(),
            from_password: sub.password.clone(),
            to_url: candidate.url.clone(),
            to_password: candidate.password.clone(),
            quality: copy_quality(&candidate.quality),
            reason: owned(FAILURE_REASON),
            status: owned(STATUS_FAILED),
            error: owned(error),
            automatic,
            created_at: now,
            rolled_back_at: None,
        };
        record_entry(&mut sub.source_switch_history, item);
    }

    /// Records now that `candidate` failed with `error`.
    pub fn record_candidate_failure(
        &self,
        sub: &mut Subscription,
        candidate: &SourceCandidate,
        error: &str,
        automatic: bool,
    )
        ensures
            only_history_changed(*old(sub), *final(sub)),
            exists|now: i64|
                history_view(final(sub).source_switch_history@) == record(
                    history_view(old(sub).source_switch_history@),
                    #[trigger] failure_entry(*old(sub), candidate@, error@, automatic, now),
                ),
    {
        let now = unix_now();
        self.record_candidate_failure_at(sub, candidate, error, automatic, now);
    }

    /// Rolls back, at `now` (seconds), the newest switch that succeeded and was
    /// not rolled back: the link it replaced is restored, the subscription
    /// reactivated with its progress kept, the switch marked rolled back and the
    /// rollback recorded first. Fails, changing nothing, when there is none.
    pub fn rollback_last_source_at(&self, sub: &mut Subscription, now: i64) -> (r: Result<
        SourceSwitchRollbackResult,
        AppError,
    >)
        ensures
            r is Ok <==> can_roll_back(history_view(old(sub).source_switch_history@)),
            r matches Ok(res) ==> (exists|k: int| rolled_back(*old(sub), *final(sub), k, now))
                && res.success && res.restored_url@ == final(sub).url@ && res.message@
                == ROLLBACK_MESSAGE@,
            r matches Err(e) ==> *final(sub) == *old(sub) && e is Validation && e.message()
                == NO_ROLLBACK@,
    {
        let k = match find_rollbackable(&sub.source_switch_history) {
            Some(k) => k,
            None => {
                return Err(AppError::Validation(owned(NO_ROLLBACK)));
            },
        };
        let ghost old_sub = *sub;
        let ghost h = history_view(sub.source_switch_history@);
        assert(h[k as int] == sub.source_switch_history@[k as int]@);
        let from_url = sub.source_switch_history[k].from_url.clone();
        let from_password = sub.source_switch_history[k].from_password.clone();
        let candidate_id = sub.source_switch_history[k].candidate_id.clone();
        let current_url = sub.url.clone();
        let current_password = sub.password.clone();
        sub.url = from_url.clone();
        sub.password = from_password.clone();
        reactivate(sub, SUMMARY_ROLLED_BACK, now);
        let mut entry = sub.source_switch_history.remove(k);
        entry.rolled_back_at = Some(now);
        sub.source_switch_history.insert(k, entry);
        assert(history_view(sub.source_switch_history@) =~= h.update(
            k as int,
            HistoryView { rolled_back_at: Some(now), ..h[k as int] },
        ));
        let quality = SourceQuality::default();
        assert(quality@ =~= empty_quality()) by {
            assert(views(quality.tags@) =~= seq![]);
            assert(views(quality.risks@) =~= seq![]);
            assert(views(quality.recommendation_reasons@) =~= seq![]);
        }
        let item = SourceSwitchHistoryItem {
            id: entry_id(ROLLBACK_ID_PREFIX, now, None),
            candidate_id,
            from_url: current_url,
            from_password: current_password,
            to_url: from_url.clone(),
            to_password: from_password,
            quality,
            reason: owned(ROLLBACK_REASON),
            status: owned(STATUS_ROLLED_BACK),
            error: String::new(),
            automatic: false,
            created_at: now,
            rolled_back_at: None,
        };
        assert(item@ == rollback_entry(old_sub, h[k as int], now));
        record_entry(&mut sub.source_switch_history, item);
        assert(rolled_back(old_sub, *sub, k as int, now));
        Ok(
            SourceSwitchRollbackResult {
                success: true,
                restored_url: from_url,
                message: owned(ROLLBACK_MESSAGE),
            },
        )
    }

    /// Rolls back the newest switch now.
    pub fn rollback_last_source(&self, sub: &mut Subscription) -> (r: Result<
        SourceSwitchRollbackResult,
        AppError,
    >)
        ensures
            r is Ok <==> can_roll_back(history_view(old(sub).source_switch_history@)),
            r matches Ok(res) ==> (exists|k: int, now: i64|
                rolled_back(*old(sub), *final(sub), k, now)) && res.success && res.restored_url@
                == final(sub).url@ && res.message@ == ROLLBACK_MESSAGE@,
            r matches Err(e) ==> *final(sub) == *old(sub) && e is Validation && e.message()
                == NO_ROLLBACK@,
    {
        let now = unix_now();
        self.rollback_last_source_at(sub, now)
    }
}

// ---------------------------------------------------------------------------
// Laws
// ---------------------------------------------------------------------------

/// A switch followed by a rollback restores the link and password the
/// subscription had before the switch, and keeps its progress throughout; the
/// rollback undoes exactly that switch, the newest entry.
pub proof fn switch_then_rollback_restores_source(
    s0: Subscription,
    s1: Subscription,
    s2: Subscription,
    c: CandidateView,
    automatic: bool,
    reason: Seq<char>,
    t1: i64,
    k: int,
    t2: i64,
)
    requires
        switched(s0, s1, c, automatic, reason, t1),
        rolled_back(s1, s2, k, t2),
    ensures
        k == 0,
        s2.url@ == s0.url@,
        s2.password@ == s0.password@,
        keeps_progress(s0, s2),
{
    let h1 = history_view(s1.source_switch_history@);
    let entry = switch_entry(s0, c, automatic, reason, t1);
    assert(h1.len() > 0);
    assert(h1[0] == entry);
    if k > 0 {
        assert(!(h1[0].status == STATUS_SUCCEEDED@ && h1[0].rolled_back_at is None));
    }
}

/// After a switch no candidate is left, so applying the same candidate again
/// fails.
pub proof fn switched_subscription_has_no_candidates(
    s0: Subscription,
    s1: Subscription,
    c: CandidateView,
    automatic: bool,
    reason: Seq<char>,
    now: i64,
    id: Seq<char>,
)
    requires
        switched(s0, s1, c, automatic, reason, now),
    ensures
        !has_candidate(s1.source_candidates@, id),
{
}

/// A switch keeps at most fifty audit entries, and at most fifty earlier links
/// where there were at most fifty before.
pub proof fn switch_keeps_bounded_history(
    s0: Subscription,
    s1: Subscription,
    c: CandidateView,
    automatic: bool,
    reason: Seq<char>,
    now: i64,
)
    requires
        switched(s0, s1, c, automatic, reason, now),
    ensures
        s1.source_switch_history@.len() <= HISTORY_LIMIT,
        s0.previous_share_links@.len() <= HISTORY_LIMIT ==> s1.previous_share_links@.len()
            <= HISTORY_LIMIT,
{
    assert(history_view(s1.source_switch_history@).len() == s1.source_switch_history@.len());
    assert(views(s1.previous_share_links@).len() == s1.previous_share_links@.len());
    assert(views(s0.previous_share_links@).len() == s0.previous_share_links@.len());
}

/// A rollback keeps at most fifty audit entries.
pub proof fn rollback_keeps_bounded_history(s0: Subscription, s1: Subscription, k: int, now: i64)
    requires
        rolled_back(s0, s1, k, now),
    ensures
        s1.source_switch_history@.len() <= HISTORY_LIMIT,
{
    assert(history_view(s1.source_switch_history@).len() == s1.source_switch_history@.len());
}

/// A candidate whose link is the current or an earlier one, or whose switch
/// failed within the cooldown, can be applied neither by hand nor
/// automatically; whatever may be applied automatically may be applied by
/// hand.
pub proof fn blocked_candidates_are_not_applicable(
    sub: Subscription,
    c: CandidateView,
    settings: Settings,
    now: i64,
)
    ensures
        is_historical(sub, c.url) ==> !can_apply_of(sub, c, settings, now),
        recently_failed(sub.source_switch_history@, c.url, now, cooldown_seconds(settings))
            ==> !can_apply_of(sub, c, settings, now),
        auto_eligible_of(sub, c, settings, now) ==> can_apply_of(sub, c, settings, now),
{
}


// ---------------------------------------------------------------------------
// Automatic switching after a failed check
// ---------------------------------------------------------------------------

proof fn lemma_size_total_grows(files: Seq<FileView>, i: int, j: int)
    requires
        0 <= i <= j <= files.len(),
    ensures
        size_total(files.take(i)) <= size_total(files.take(j)),
    decreases j - i,
{
    if i < j {
        assert(files.take(j).drop_last() =~= files.take(j - 1));
        lemma_size_total_grows(files, i, j - 1);
    }
}

/// Whether previewing can score the current source at `now`: its probed
/// sizes add up within `i64` and `now` in milliseconds fits.
pub fn is_previewable(sub: &Subscription, now: i64) -> (r: bool)
    ensures
        r == previewable(*sub, now),
{
    if now < -9223372036854775 || now > 9223372036854775 {
        return false;
    }
    match &sub.last_probe {
        None => {
            assert(current_source_input(*sub).files =~= Seq::<FileView>::empty());
            true
        },
        Some(p) => {
            let ghost fv = probe_files_view(p@.files);
            assert(current_source_input(*sub).files == fv);
            let mut total: i128 = 0;
            let mut i: usize = 0;
            while i < p.files.len()
                invariant
                    i <= p.files.len(),
                    fv == probe_files_view(p@.files),
                    fv == current_source_input(*sub).files,
                    fv.len() == p.files@.len(),
                    total == size_total(fv.take(i as int)),
                    0 <= total <= i64::MAX,
                decreases p.files.len() - i,
            {
                assert(fv.take(i + 1).drop_last() =~= fv.take(i as int));
                assert(fv.take(i + 1).last() == fv[i as int]);
                assert(fv[i as int].size == p.files@[i as int].size);
                assert(fv[i as int].is_dir == p.files@[i as int].is_dir);
                let f = &p.files[i];
                if !f.is_dir && f.size >= 0 {
                    total = total + f.size as i128;
                }
                assert(total == size_total(fv.take(i + 1)));
                if total > i64::MAX as i128 {
                    proof {
                        lemma_size_total_grows(fv, i + 1, fv.len() as int);
                        assert(fv.take(fv.len() as int) =~= fv);
                    }
                    return false;
                }
                i += 1;
            }
            assert(fv.take(fv.len() as int) =~= fv);
            true
        },
    }
}

/// Whether a switch can keep the subscription's progress (its episode can
/// still be raised by one).
pub fn is_switchable(sub: &Subscription) -> (r: bool)
    ensures
        r == switchable(*sub),
{
    !(!str_eq(sub.media_type.as_str(), MEDIA_TYPE_MOVIE) && sub.current_episode_number > 0)
        || sub.current_episode_number < i32::MAX
}

pub const AUTO_SWITCH_MODE_APPLY: &'static str = "apply";
pub const PROBE_FAILED_FALLBACK: &'static str = "候选探测失败";
pub const AUTO_REASON_PREFIX: &'static str = "连续失效达到阈值，候选 ";
pub const AUTO_REASON_MIDDLE: &'static str = " 分，分差 ";
pub const AUTO_NOTICE_TITLE: &'static str = "自动换源成功";
pub const AUTO_NOTICE_PREFIX: &'static str = "订阅「";
pub const AUTO_NOTICE_MIDDLE: &'static str = "」已自动切换到质量分 ";
pub const AUTO_NOTICE_SUFFIX: &'static str = " 的候选来源";

/// Automatic switching may run: it is on, in the mode that applies, and the
/// subscription failed at least as often as the threshold (at least 1).
pub open spec fn auto_switch_allowed(settings: Settings, sub: Subscription) -> bool {
    &&& settings.auto_source_switch_enabled
    &&& settings.auto_source_switch_mode@ == AUTO_SWITCH_MODE_APPLY@
    &&& sub.source_failure_count as int >= if settings.source_switch_failure_threshold < 1 {
        1
    } else {
        settings.source_switch_failure_threshold as int
    }
}

/// Whether automatic switching may run for the subscription.
pub fn auto_source_switch_allowed(settings: &Settings, sub: &Subscription) -> (r: bool)
    ensures
        r == auto_switch_allowed(*settings, *sub),
{
    if !settings.auto_source_switch_enabled || !str_eq(settings.auto_source_switch_mode.as_str(), AUTO_SWITCH_MODE_APPLY) {
        return false;
    }
    let threshold: i64 = if settings.source_switch_failure_threshold < 1 {
        1
    } else {
        settings.source_switch_failure_threshold as i64
    };
    sub.source_failure_count as i64 >= threshold
}

/// The audit reason of an automatic switch.
pub open spec fn auto_reason(score: u8, delta: i32) -> Seq<char> {
    AUTO_REASON_PREFIX@ + int_decimal(score as int) + AUTO_REASON_MIDDLE@ + int_decimal(delta as int)
}

/// The message announcing an automatic switch.
pub open spec fn auto_notice(title: Seq<char>, score: u8) -> Seq<char> {
    AUTO_NOTICE_PREFIX@ + title + AUTO_NOTICE_MIDDLE@ + int_decimal(score as int) + AUTO_NOTICE_SUFFIX@
}

/// The message announcing an automatic switch.
pub fn auto_switch_notice(title: &str, score: u8) -> (r: String)
    ensures
        r@ == auto_notice(title@, score),
{
    let mut m = owned(AUTO_NOTICE_PREFIX);
    push_str(&mut m, title);
    push_str(&mut m, AUTO_NOTICE_MIDDLE);
    push_decimal(&mut m, score as i64);
    push_str(&mut m, AUTO_NOTICE_SUFFIX);
    m
}

/// The message a failed candidate probe is recorded with.
pub open spec fn probe_failure_message(c: CandidateView) -> Seq<char> {
    match c.probe_info {
        Some(p) => p.message,
        None => PROBE_FAILED_FALLBACK@,
    }
}

/// The candidate's probe succeeded.
pub open spec fn probe_ok_of(c: CandidateView) -> bool {
    match c.probe_info {
        Some(p) => p.ok,
        None => false,
    }
}

/// The audit trail once each candidate whose probe failed is recorded, in
/// order, as an automatic failure at `now`.
pub open spec fn failure_history(sub: Subscription, scored: Seq<CandidateView>, now: i64) -> Seq<HistoryView>
    decreases scored.len(),
{
    if scored.len() == 0 {
        history_view(sub.source_switch_history@)
    } else {
        let prev = failure_history(sub, scored.drop_last(), now);
        let c = scored.last();
        if probe_ok_of(c) {
            prev
        } else {
            record(prev, failure_entry(sub, c, probe_failure_message(c), true, now))
        }
    }
}

/// The subscription once the probed candidates are settled: their failures
/// recorded and the candidates replaced by them; nothing else changed.
pub open spec fn candidates_settled(old: Subscription, mid: Subscription, scored: Seq<SourceCandidate>, now: i64) -> bool {
    &&& mid.source_candidates@ == scored
    &&& history_view(mid.source_switch_history@) == failure_history(old, candidates_view(scored), now)
    &&& mid == (Subscription {
        source_candidates: mid.source_candidates,
        source_switch_history: mid.source_switch_history,
        ..old
    })
}

impl SubscriptionSourceSwitchService {
    /// After the first candidates were probed and scored: records each one
    /// whose probe failed as an automatic failure, makes them the
    /// subscription's candidates, and switches at `now` to the best one that
    /// qualifies, if any, returning it with its score lead.
    pub fn settle_auto_candidates(
        &self,
        sub: &mut Subscription,
        scored: Vec<SourceCandidate>,
        settings: &Settings,
        now: i64,
    ) -> (r: Option<(SourceCandidate, i32)>)
        requires
            previewable(*old(sub), now),
            switchable(*old(sub)),
        ensures
            exists|mid: Subscription|
                candidates_settled(*old(sub), mid, scored@, now) && match r {
                    None => *final(sub) == mid && forall|k: int|
                        0 <= k < scored@.len() ==> !auto_eligible_of(mid, #[trigger] scored@[k]@, *settings, now),
                    Some(x) => {
                        &&& exists|k: int|
                            0 <= k < scored@.len() && x.0@ == (#[trigger] scored@[k])@ && auto_eligible_of(
                                mid,
                                scored@[k]@,
                                *settings,
                                now,
                            ) && x.1 as int == score_delta_of(mid, scored@[k]@, now) && (forall|j: int|
                                0 <= j < scored@.len() && auto_eligible_of(
                                    mid,
                                    #[trigger] scored@[j]@,
                                    *settings,
                                    now,
                                ) ==> scored@[j].quality.score <= scored@[k].quality.score)
                        &&& exists|k: int|
                            first_with_id(mid.source_candidates@, x.0.id@, k) && switched(
                                mid,
                                (Subscription { updated_at: mid.updated_at, ..*final(sub) }),
                                #[trigger] mid.source_candidates@[k]@,
                                true,
                                auto_reason(x.0.quality.score, x.1),
                                now,
                            )
                        &&& final(sub).updated_at == now
                    },
                },
    {
        let ghost start = *sub;
        let mut i: usize = 0;
        while i < scored.len()
            invariant
                i <= scored.len(),
                *sub == (Subscription { source_switch_history: sub.source_switch_history, ..start }),
                history_view(sub.source_switch_history@) == failure_history(
                    start,
                    candidates_view(scored@.take(i as int)),
                    now,
                ),
            decreases scored.len() - i,
        {
            assert(candidates_view(scored@.take(i + 1)).drop_last() =~= candidates_view(scored@.take(i as int)));
            assert(candidates_view(scored@.take(i + 1)).last() == scored@[i as int]@);
            let c = &scored[i];
            let probe_ok = match &c.probe_info {
                Some(p) => p.ok,
                None => false,
            };
            if !probe_ok {
                let message = match &c.probe_info {
                    Some(p) => p.message.clone(),
                    None => owned(PROBE_FAILED_FALLBACK),
                };
                self.record_candidate_failure_at(sub, c, message.as_str(), true, now);
            }
            i += 1;
        }
        assert(scored@.take(scored.len() as int) =~= scored@);
        sub.source_candidates = scored;
        let ghost mid = *sub;
        assert(candidates_settled(start, mid, mid.source_candidates@, now));
        let best = self.best_auto_candidate(sub, sub.source_candidates.as_slice(), settings, now);
        match best {
            None => None,
            Some(p) => {
                let c = copy_candidate(&p.candidate);
                let mut reason = owned(AUTO_REASON_PREFIX);
                push_decimal(&mut reason, c.quality.score as i64);
                push_str(&mut reason, AUTO_REASON_MIDDLE);
                push_decimal(&mut reason, p.score_delta as i64);
                assert(reason@ == auto_reason(c.quality.score, p.score_delta));
                proof {
                    let k = choose|k: int|
                        0 <= k < mid.source_candidates@.len() && previews(
                            p,
                            mid,
                            #[trigger] mid.source_candidates@[k]@,
                            *settings,
                            now,
                        );
                    assert(mid.source_candidates@[k].id@ == c.id@);
                    assert(has_candidate(mid.source_candidates@, c.id@));
                }
                match self.apply_source_switch_at(sub, c.id.as_str(), true, reason.as_str(), now) {
                    Ok(()) => {
                        sub.updated_at = now;
                        let delta = p.score_delta;
                        Some((c, delta))
                    },
                    Err(_) => None,
                }
            },
        }
    }
}


/// A preview says a show's candidate covers the subscription's progress
/// exactly when the candidate's episodes end at or after the first episode
/// still needed: the start episode where one is set, else the episode after
/// the current one (at least the first). A candidate that covers stays
/// covering when its episodes end later, and one that does not cover can
/// never be applied.
pub proof fn preview_covers_progress_by_last_episode(
    p: SourceSwitchPreview,
    sub: Subscription,
    c: CandidateView,
    d: CandidateView,
    settings: Settings,
    now: i64,
)
    requires
        previews(p, sub, c, settings, now),
    ensures
        sub.media_type@ != MEDIA_TYPE_MOVIE@ ==> (p.covers_progress <==> c.quality.episode_end is Some
            && c.quality.episode_end->0 >= match sub.start_episode_number {
            Some(s) => s as int,
            None => if sub.current_episode_number < 1 {
                1
            } else if sub.current_episode_number == i32::MAX {
                i32::MAX as int
            } else {
                sub.current_episode_number + 1
            },
        }),
        sub.media_type@ != MEDIA_TYPE_MOVIE@ && p.covers_progress && c.quality.episode_end is Some
            && d.quality.episode_end is Some && d.quality.episode_end->0 >= c.quality.episode_end->0
            ==> covers_progress_of(sub, d),
        !p.covers_progress ==> !p.can_apply,
{
}

} // verus!
