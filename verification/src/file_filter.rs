use vstd::prelude::*;
use crate::episode::{
    candidate_scores, context_season, detect_episode_explained, detect_episode_with_override,
    detection_of, override_detection, strategy_of, normalize_duplicate_episode_strategy,
    DetectionModel, EpisodeDetection, episode_state_key_with_override,
    episode_video_key, in_season_range, is_better_episode_duplicate_candidate, is_video,
    is_video_name, keys_greater, matches_subscription_season_range, max_i32,
    resolve_file_season, state_key_with_override, video_key, EpisodeDuplicateCandidate,
};
use crate::subscription_check::{extract_episode_number, CheckDetailItem, CheckDetails};
use crate::model::{ProbeFile, Subscription};
use crate::progress::{completion_target_episode, insert_sorted, strictly_sorted, target_of};
use crate::regex_ops::{regex_compiles, regex_error_message, regex_finds, regex_matches, regex_named_groups};
use crate::text::{
    ascii_lower_seq, ascii_lowercase, chars_of, contains_chars, contains_seq, file_stem_of,
    int_decimal, opt_view, owned, path_file_stem, str_eq, push_chars, push_decimal, push_str, str_contains,
    string_of, strings_contain, trim_seq, trim_str, views,
};

verus! {

// ---------------------------------------------------------------------------
// Rules on single files
// ---------------------------------------------------------------------------

pub const MEDIA_MOVIE: &'static str = "movie";
pub const REASON_NOT_VIDEO: &'static str = "非视频文件";
pub const REASON_DERIVED: &'static str = "疑似衍生内容";
pub const REASON_NO_EPISODE: &'static str = "无法识别剧集集数";
pub const REASON_OVER_TOTAL_PREFIX: &'static str = "集数超过订阅总集数：第 ";
pub const REASON_OVER_TOTAL_SUFFIX: &'static str = " 集";
pub const REASON_NO_INCLUDE: &'static str = "不含包含关键词";
pub const REASON_EXCLUDED: &'static str = "命中排除关键词";
pub const REASON_NO_REGEX_MATCH: &'static str = "未命中匹配正则";
pub const REASON_BAD_REGEX_PREFIX: &'static str = "match_regex 无效：";

/// The name the rules look at: the file stem where extensions are ignored.
pub open spec fn display_name(name: Seq<char>, ignore_extensions: bool) -> Seq<char> {
    if !ignore_extensions {
        name
    } else {
        match file_stem_of(name) {
            Some(s) => s,
            None => name,
        }
    }
}

/// The name the rules look at.
pub fn rule_display_name(name: &str, ignore_extensions: bool) -> (r: String)
    ensures
        r@ == display_name(name@, ignore_extensions),
{
    if !ignore_extensions {
        return owned(name);
    }
    match path_file_stem(name) {
        Some(s) => s,
        None => owned(name),
    }
}

/// The keywords of a rule: trimmed, ASCII-lowercased, blank ones dropped.
pub open spec fn rule_words(words: Seq<Seq<char>>) -> Seq<Seq<char>>
    decreases words.len(),
{
    if words.len() == 0 {
        Seq::empty()
    } else {
        let prev = rule_words(words.drop_last());
        let w = ascii_lower_seq(trim_seq(words.last()));
        if w.len() == 0 {
            prev
        } else {
            prev.push(w)
        }
    }
}

/// The keywords of a rule.
pub fn normalized_rule_words(words: &[String]) -> (r: Vec<String>)
    ensures
        views(r@) == rule_words(views(words@)),
{
    let mut out: Vec<String> = Vec::new();
    let mut i: usize = 0;
    while i < words.len()
        invariant
            i <= words.len(),
            views(out@) == rule_words(views(words@).take(i as int)),
        decreases words.len() - i,
    {
        assert(views(words@).take(i + 1).drop_last() =~= views(words@).take(i as int));
        assert(views(words@).take(i + 1).last() == words@[i as int]@);
        let w = ascii_lowercase(trim_str(words[i].as_str()).as_slice());
        if w.len() > 0 {
            let ghost before = views(out@);
            out.push(string_of(w.as_slice()));
            assert(views(out@) =~= before.push(w@));
        }
        i += 1;
    }
    assert(views(words@).take(words.len() as int) =~= views(words@));
    out
}

/// Some keyword occurs in the value.
pub open spec fn any_rule_word(value: Seq<char>, words: Seq<Seq<char>>) -> bool {
    exists|k: int| 0 <= k < words.len() && contains_seq(value, #[trigger] words[k])
}

/// Whether some keyword occurs in the value.
pub fn contains_any_rule_word(value: &str, words: &[String]) -> (r: bool)
    ensures
        r == any_rule_word(value@, views(words@)),
{
    let mut i: usize = 0;
    while i < words.len()
        invariant
            i <= words.len(),
            forall|k: int| 0 <= k < i ==> !contains_seq(value@, #[trigger] views(words@)[k]),
        decreases words.len() - i,
    {
        if str_contains(value, words[i].as_str()) {
            assert(contains_seq(value@, views(words@)[i as int]));
            return true;
        }
        i += 1;
    }
    false
}

pub const DERIVED_OPENING: &'static str = "片头";
pub const DERIVED_ENDING: &'static str = "片尾";
pub const DERIVED_CLIP: &'static str = "片花";
pub const DERIVED_INSERT_SONG: &'static str = "插曲";
pub const DERIVED_THEME_SONG: &'static str = "主题曲";
pub const DERIVED_ENDING_SONG: &'static str = "片尾曲";
pub const DERIVED_OPENING_SONG: &'static str = "片头曲";
pub const DERIVED_EXTRAS: &'static str = "花絮";
pub const DERIVED_PREVIEW: &'static str = "预告";
pub const DERIVED_EASTER_EGG: &'static str = "彩蛋";
pub const DERIVED_FEATURE: &'static str = "特辑";

/// The Chinese words that mark derived content (openings, songs, trailers,
/// extras).
pub open spec fn cjk_derived_words() -> Seq<Seq<char>> {
    seq![
        DERIVED_OPENING@,
        DERIVED_ENDING@,
        DERIVED_CLIP@,
        DERIVED_INSERT_SONG@,
        DERIVED_THEME_SONG@,
        DERIVED_ENDING_SONG@,
        DERIVED_OPENING_SONG@,
        DERIVED_EXTRAS@,
        DERIVED_PREVIEW@,
        DERIVED_EASTER_EGG@,
        DERIVED_FEATURE@,
    ]
}

pub open spec fn is_ascii_alnum(c: char) -> bool {
    ('0' <= c && c <= '9') || ('a' <= c && c <= 'z') || ('A' <= c && c <= 'Z')
}

/// The pieces of `s` between characters that are not ASCII letters or
/// digits (`split` on that predicate), empty pieces included.
pub open spec fn alnum_pieces(s: Seq<char>) -> Seq<Seq<char>>
    decreases s.len(),
{
    if s.len() == 0 {
        seq![Seq::empty()]
    } else {
        let prev = alnum_pieces(s.drop_last());
        if is_ascii_alnum(s.last()) {
            prev.update(prev.len() - 1, prev.last().push(s.last()))
        } else {
            prev.push(Seq::empty())
        }
    }
}

pub open spec fn all_ascii_digits(s: Seq<char>) -> bool {
    forall|i: int| 0 <= i < s.len() ==> '0' <= #[trigger] s[i] && s[i] <= '9'
}

/// A word that marks derived content: `mv`, `ost`, `op`, `ed`, `reaction`,
/// `trailer`, `preview`, or `op`/`ed` followed by digits.
pub open spec fn derived_token(t: Seq<char>) -> bool {
    ||| t == "mv"@
    ||| t == "ost"@
    ||| t == "op"@
    ||| t == "ed"@
    ||| t == "reaction"@
    ||| t == "trailer"@
    ||| t == "preview"@
    ||| (t.len() > 2 && (t.take(2) == "op"@ || t.take(2) == "ed"@) && all_ascii_digits(t.skip(2)))
}

/// The value looks like derived content: it holds one of the Chinese marker
/// words, or one of its ASCII words is a marker.
pub open spec fn derived_content(value: Seq<char>) -> bool {
    ||| any_rule_word(value, cjk_derived_words())
    ||| exists|k: int|
        0 <= k < alnum_pieces(value).len() && (#[trigger] alnum_pieces(value)[k]).len() > 0
            && derived_token(alnum_pieces(value)[k])
}

proof fn lemma_alnum_pieces_nonempty(s: Seq<char>)
    ensures
        alnum_pieces(s).len() >= 1,
    decreases s.len(),
{
    if s.len() > 0 {
        lemma_alnum_pieces_nonempty(s.drop_last());
    }
}

fn is_ascii_alnum_char(c: char) -> (r: bool)
    ensures
        r == is_ascii_alnum(c),
{
    ('0' <= c && c <= '9') || ('a' <= c && c <= 'z') || ('A' <= c && c <= 'Z')
}

fn chars_are(t: &[char], word: &str) -> (r: bool)
    ensures
        r == (t@ == word@),
{
    let w = chars_of(word);
    crate::text::chars_eq(t, w.as_slice())
}

fn is_derived_token(t: &[char]) -> (r: bool)
    ensures
        r == derived_token(t@),
{
    proof {
        reveal_strlit("mv");
        reveal_strlit("ost");
        reveal_strlit("op");
        reveal_strlit("ed");
        reveal_strlit("reaction");
        reveal_strlit("trailer");
        reveal_strlit("preview");
    }
    if chars_are(t, "mv") || chars_are(t, "ost") || chars_are(t, "op") || chars_are(t, "ed")
        || chars_are(t, "reaction") || chars_are(t, "trailer") || chars_are(t, "preview") {
        return true;
    }
    if t.len() <= 2 {
        return false;
    }
    let marked = (t[0] == 'o' && t[1] == 'p') || (t[0] == 'e' && t[1] == 'd');
    assert(marked == (t@.take(2) == "op"@ || t@.take(2) == "ed"@)) by {
        if t@.take(2) == "op"@ {
            assert(t@.take(2)[0] == 'o' && t@.take(2)[1] == 'p');
        }
        if t@.take(2) == "ed"@ {
            assert(t@.take(2)[0] == 'e' && t@.take(2)[1] == 'd');
        }
        if t[0] == 'o' && t[1] == 'p' {
            assert(t@.take(2) =~= "op"@);
        }
        if t[0] == 'e' && t[1] == 'd' {
            assert(t@.take(2) =~= "ed"@);
        }
    }
    if !marked {
        return false;
    }
    let mut i: usize = 2;
    while i < t.len()
        invariant
            2 <= i <= t.len(),
            t@ != "mv"@ && t@ != "ost"@ && t@ != "op"@ && t@ != "ed"@,
            t@ != "reaction"@ && t@ != "trailer"@ && t@ != "preview"@,
            forall|j: int| 2 <= j < i ==> '0' <= #[trigger] t@[j] && t@[j] <= '9',
        decreases t.len() - i,
    {
        if !('0' <= t[i] && t[i] <= '9') {
            assert(t@.skip(2)[i - 2] == t@[i as int]);
            assert(!all_ascii_digits(t@.skip(2)));
            assert(t@ != "mv"@ && t@ != "ost"@ && t@ != "op"@ && t@ != "ed"@);
            assert(t@ != "reaction"@ && t@ != "trailer"@ && t@ != "preview"@);
            return false;
        }
        i += 1;
    }
    assert forall|j: int| 0 <= j < t@.skip(2).len() implies '0' <= #[trigger] t@.skip(2)[j] && t@.skip(2)[j]
        <= '9' by {
        assert(t@.skip(2)[j] == t@[j + 2]);
    }
    true
}

/// Whether the value looks like derived content.
pub fn looks_like_derived_content(value: &str) -> (r: bool)
    ensures
        r == derived_content(value@),
{
    let words: [&str; 11] = [
        DERIVED_OPENING,
        DERIVED_ENDING,
        DERIVED_CLIP,
        DERIVED_INSERT_SONG,
        DERIVED_THEME_SONG,
        DERIVED_ENDING_SONG,
        DERIVED_OPENING_SONG,
        DERIVED_EXTRAS,
        DERIVED_PREVIEW,
        DERIVED_EASTER_EGG,
        DERIVED_FEATURE,
    ];
    assert(words@.map_values(|w: &str| w@) =~= cjk_derived_words());
    let mut k: usize = 0;
    while k < 11
        invariant
            k <= 11,
            words@.map_values(|w: &str| w@) == cjk_derived_words(),
            forall|j: int| 0 <= j < k ==> !contains_seq(value@, #[trigger] cjk_derived_words()[j]),
        decreases 11 - k,
    {
        assert(cjk_derived_words()[k as int] == words@[k as int]@);
        if str_contains(value, words[k]) {
            assert(contains_seq(value@, cjk_derived_words()[k as int]));
            return true;
        }
        k += 1;
    }
    let v = chars_of(value);
    let mut cur: Vec<char> = Vec::new();
    let mut i: usize = 0;
    proof {
        lemma_alnum_pieces_nonempty(v@);
    }
    assert(v@.take(0) =~= Seq::<char>::empty());
    while i < v.len()
        invariant
            i <= v.len(),
            v@ == value@,
            cur@ == alnum_pieces(v@.take(i as int)).last(),
            alnum_pieces(v@.take(i as int)).len() >= 1,
            forall|j: int|
                0 <= j < alnum_pieces(v@.take(i as int)).len() - 1 ==> !((#[trigger] alnum_pieces(
                    v@.take(i as int),
                )[j]).len() > 0 && derived_token(alnum_pieces(v@.take(i as int))[j])),
        decreases v.len() - i,
    {
        let ghost p = alnum_pieces(v@.take(i as int));
        assert(v@.take(i + 1).drop_last() =~= v@.take(i as int));
        assert(v@.take(i + 1).last() == v@[i as int]);
        let c = v[i];
        if is_ascii_alnum_char(c) {
            cur.push(c);
        } else {
            if cur.len() > 0 && is_derived_token(cur.as_slice()) {
                proof {
                    let k = p.len() - 1;
                    assert(alnum_pieces(v@.take(i + 1)) == p.push(Seq::<char>::empty()));
                    assert(alnum_pieces(v@.take(i + 1))[k] == cur@);
                    lemma_pieces_grow(v@, i + 1, v.len() as int);
                    assert(v@.take(v.len() as int) =~= v@);
                    assert(alnum_pieces(v@)[k] == cur@);
                    assert(derived_token(alnum_pieces(v@)[k]));
                }
                return true;
            }
            cur = Vec::new();
        }
        i += 1;
    }
    assert(v@.take(v.len() as int) =~= v@);
    let last_is = cur.len() > 0 && is_derived_token(cur.as_slice());
    proof {
        if !last_is {
            let p = alnum_pieces(v@);
            assert forall|j: int| 0 <= j < p.len() implies !((#[trigger] p[j]).len() > 0
                && derived_token(p[j])) by {
                if j < p.len() - 1 {
                } else {
                    assert(p[j] == cur@);
                }
            }
        }
    }
    last_is
}

/// Pieces, once closed by a separator, never change as the prefix grows.
proof fn lemma_pieces_grow(s: Seq<char>, m: int, n: int)
    requires
        0 <= m <= n <= s.len(),
    ensures
        alnum_pieces(s.take(n)).len() >= alnum_pieces(s.take(m)).len(),
        forall|j: int|
            0 <= j < alnum_pieces(s.take(m)).len() - 1 ==> #[trigger] alnum_pieces(s.take(n))[j]
                == alnum_pieces(s.take(m))[j],
    decreases n - m,
{
    lemma_alnum_pieces_nonempty(s.take(m));
    if m < n {
        assert(s.take(m + 1).drop_last() =~= s.take(m));
        assert(s.take(m + 1).last() == s[m]);
        lemma_pieces_grow(s, m + 1, n);
        lemma_alnum_pieces_nonempty(s.take(m + 1));
    }
}

/// The value the rules test a name by: its display name, ASCII-lowercased.
pub open spec fn comparable_name(sub: Subscription, name: Seq<char>) -> Seq<char> {
    ascii_lower_seq(display_name(name, sub.rules.ignore_extensions))
}

/// The subscription is a film.
pub open spec fn is_movie_sub(sub: Subscription) -> bool {
    sub.media_type@ == MEDIA_MOVIE@
}

/// The episode of a name beyond the subscription's last episode, if it is.
pub open spec fn over_target_episode(sub: Subscription, name: Seq<char>) -> Option<i32> {
    match video_key(name, sub.season) {
        Some(k) => match target_of(sub) {
            Some(t) => if k.1 > t {
                Some(k.1)
            } else {
                None
            },
            None => None,
        },
        None => None,
    }
}

/// Why the match pattern rejects a value: it does not compile, or it does not
/// match; nothing for a blank pattern.
pub open spec fn regex_rule_reason(pattern: Seq<char>, value: Seq<char>) -> Option<Seq<char>> {
    if pattern.len() == 0 {
        None
    } else if !regex_compiles(pattern) {
        Some(REASON_BAD_REGEX_PREFIX@ + regex_error_message(pattern))
    } else if !regex_finds(pattern, value) {
        Some(REASON_NO_REGEX_MATCH@)
    } else {
        None
    }
}

/// Why the transfer rules reject a file, checked in this order: not a video;
/// for shows, derived content, no episode, or an episode past the last one;
/// then the wanted and unwanted keywords and the match pattern.
pub open spec fn skip_reason(sub: Subscription, name: Seq<char>) -> Option<Seq<char>> {
    let value = comparable_name(sub, name);
    let wanted = rule_words(views(sub.rules.include_keywords@));
    let exclude = rule_words(views(sub.rules.exclude_keywords@));
    if !is_video(name) {
        Some(REASON_NOT_VIDEO@)
    } else if !is_movie_sub(sub) && derived_content(value) {
        Some(REASON_DERIVED@)
    } else if !is_movie_sub(sub) && video_key(name, sub.season) is None {
        Some(REASON_NO_EPISODE@)
    } else if !is_movie_sub(sub) && over_target_episode(sub, name) is Some {
        Some(
            REASON_OVER_TOTAL_PREFIX@ + int_decimal(over_target_episode(sub, name)->0 as int)
                + REASON_OVER_TOTAL_SUFFIX@,
        )
    } else if wanted.len() > 0 && !any_rule_word(value, wanted) {
        Some(REASON_NO_INCLUDE@)
    } else if exclude.len() > 0 && any_rule_word(value, exclude) {
        Some(REASON_EXCLUDED@)
    } else {
        regex_rule_reason(trim_seq(sub.rules.match_regex@), value)
    }
}

/// Why the transfer rules reject a file, if they do.
pub fn transfer_rule_skip_reason(sub: &Subscription, file: &ProbeFile) -> (r: Option<String>)
    ensures
        opt_view(r) == skip_reason(*sub, file.name@),
{
    let name = file.name.as_str();
    if !is_video_name(name) {
        return Some(owned(REASON_NOT_VIDEO));
    }
    let display = rule_display_name(name, sub.rules.ignore_extensions);
    let comparable = string_of(ascii_lowercase(chars_of(display.as_str()).as_slice()).as_slice());
    let movie = str_eq(sub.media_type.as_str(), MEDIA_MOVIE);
    if !movie && looks_like_derived_content(comparable.as_str()) {
        return Some(owned(REASON_DERIVED));
    }
    if !movie {
        match episode_video_key(name, sub.season) {
            None => {
                return Some(owned(REASON_NO_EPISODE));
            },
            Some(key) => {
                match completion_target_episode(sub) {
                    Some(target) => {
                        if key.1 > target {
                            let mut reason = owned(REASON_OVER_TOTAL_PREFIX);
                            push_decimal(&mut reason, key.1 as i64);
                            push_str(&mut reason, REASON_OVER_TOTAL_SUFFIX);
                            return Some(reason);
                        }
                    },
                    None => {},
                }
            },
        }
    }
    let wanted = normalized_rule_words(sub.rules.include_keywords.as_slice());
    if wanted.len() > 0 && !contains_any_rule_word(comparable.as_str(), wanted.as_slice()) {
        return Some(owned(REASON_NO_INCLUDE));
    }
    let exclude = normalized_rule_words(sub.rules.exclude_keywords.as_slice());
    if exclude.len() > 0 && contains_any_rule_word(comparable.as_str(), exclude.as_slice()) {
        return Some(owned(REASON_EXCLUDED));
    }
    let pattern_chars = trim_str(sub.rules.match_regex.as_str());
    if pattern_chars.len() == 0 {
        return None;
    }
    let pattern = string_of(pattern_chars.as_slice());
    match regex_named_groups(pattern.as_str()) {
        Err(e) => {
            let mut reason = owned(REASON_BAD_REGEX_PREFIX);
            push_str(&mut reason, e.as_str());
            Some(reason)
        },
        Ok(_) => {
            if regex_matches(pattern.as_str(), comparable.as_str()) {
                None
            } else {
                Some(owned(REASON_NO_REGEX_MATCH))
            }
        },
    }
}

// ---------------------------------------------------------------------------
// Which probed files are new
// ---------------------------------------------------------------------------

pub const EP_KEY_PREFIX: &'static str = "ep:";

/// The last season of a subscription.
pub open spec fn season_end_of(sub: Subscription) -> i32 {
    match sub.season_end {
        Some(e) => e,
        None => sub.season,
    }
}

/// The file belongs to the subscription's seasons (every file of a film does).
pub open spec fn season_file(sub: Subscription, f: ProbeFile) -> bool {
    is_movie_sub(sub) || in_season_range(f.name@, f.parent_path@, sub.season, season_end_of(sub))
}

/// The first season of a subscription, at least 1.
pub open spec fn primary_season(sub: Subscription) -> i32 {
    max_i32(sub.season, 1)
}

/// The (season, episode) slot of a name under the subscription's pattern.
pub open spec fn file_state_key(sub: Subscription, name: Seq<char>) -> Option<(i32, i32)> {
    state_key_with_override(name, sub.season, sub.rules.episode_regex@)
}

/// A transferred file fills the slot `k`.
pub open spec fn transferred_episode(sub: Subscription, k: (i32, i32)) -> bool {
    exists|j: int|
        0 <= j < sub.transferred_files@.len() && file_state_key(
            sub,
            (#[trigger] sub.transferred_files@[j])@,
        ) == Some(k)
}

/// The episode slot of a show's file is already filled: a transferred file
/// has it, the first season's episode is known, or (for one season) an
/// `ep:N` transfer key names it.
pub open spec fn episode_already_saved(sub: Subscription, name: Seq<char>) -> bool {
    !is_movie_sub(sub) && match file_state_key(sub, name) {
        Some(k) => {
            ||| transferred_episode(sub, k)
            ||| (k.0 == primary_season(sub) && sub.known_episodes@.contains(k.1))
            ||| (!sub.spans_seasons() && views(sub.transferred_file_keys@).contains(
                EP_KEY_PREFIX@ + int_decimal(k.1 as int),
            ))
        },
        None => false,
    }
}

/// The season a file resolves to.
pub open spec fn resolved_season(name: Seq<char>, parent: Seq<char>, default_season: i32) -> i32 {
    match context_season(name, parent) {
        Some(x) => max_i32(x, 1),
        None => max_i32(default_season, 1),
    }
}

/// A show's file of the first season lies before the start episode (only a
/// start above 1 counts).
pub open spec fn before_start(sub: Subscription, name: Seq<char>, parent: Seq<char>) -> bool {
    !is_movie_sub(sub) && match sub.start_episode_number {
        Some(s) => s > 1 && resolved_season(name, parent, sub.season) == primary_season(sub) && (
        detection_of(name).episode matches Some(e) && e < s),
        None => false,
    }
}

/// A probed file may be new: a file of the subscription's seasons, not known,
/// not before the start, accepted by the rules, its episode slot not filled.
pub open spec fn new_file_candidate(sub: Subscription, f: ProbeFile) -> bool {
    &&& !episode_already_saved(sub, f.name@)
    &&& !f.is_dir
    &&& season_file(sub, f)
    &&& !views(sub.known_file_keys@).contains(f.file_key@)
    &&& !before_start(sub, f.name@, f.parent_path@)
    &&& skip_reason(sub, f.name@) is None
}

/// The indices of the first `n` files that satisfy `p`, in order.
pub open spec fn indices_where(files: Seq<ProbeFile>, p: spec_fn(ProbeFile) -> bool, n: int) -> Seq<usize>
    decreases n,
{
    if n <= 0 {
        Seq::empty()
    } else {
        let prev = indices_where(files, p, n - 1);
        if p(files[n - 1]) {
            prev.push((n - 1) as usize)
        } else {
            prev
        }
    }
}

/// The file at `i` ranks above the one at `c` under the duplicate strategy.
pub open spec fn dup_better(files: Seq<ProbeFile>, i: int, c: int, strategy: Seq<char>) -> bool {
    keys_greater(
        candidate_scores(files[i].name@, files[i].size as int, opt_view(files[i].updated_at), i, strategy),
        candidate_scores(files[c].name@, files[c].size as int, opt_view(files[c].updated_at), c, strategy),
    )
}

/// The slot a candidate competes for: its episode slot where it is of the
/// subscription's seasons.
pub open spec fn group_key(sub: Subscription, f: ProbeFile) -> Option<(i32, i32)> {
    if season_file(sub, f) {
        file_state_key(sub, f.name@)
    } else {
        None
    }
}

/// The best candidate for slot `key`, scanning the candidates in order and
/// replacing the current one only by a better one.
pub open spec fn best_for_key(sub: Subscription, files: Seq<ProbeFile>, cands: Seq<usize>, key: (i32, i32)) -> Option<usize>
    decreases cands.len(),
{
    if cands.len() == 0 {
        None
    } else {
        let prev = best_for_key(sub, files, cands.drop_last(), key);
        let i = cands.last();
        if group_key(sub, files[i as int]) == Some(key) {
            match prev {
                None => Some(i),
                Some(c) => if dup_better(files, i as int, c as int, sub.rules.duplicate_episode_strategy@) {
                    Some(i)
                } else {
                    Some(c)
                },
            }
        } else {
            prev
        }
    }
}

/// A candidate stays: a film's file, a file without an episode slot, or the
/// best candidate of its slot.
pub open spec fn keep_index(sub: Subscription, files: Seq<ProbeFile>, cands: Seq<usize>, i: usize) -> bool {
    is_movie_sub(sub) || (season_file(sub, files[i as int]) && match file_state_key(sub, files[i as int].name@) {
        None => true,
        Some(k) => best_for_key(sub, files, cands, k) == Some(i),
    })
}

/// The files of the candidates in `prefix` that stay, in order.
pub open spec fn kept_files(sub: Subscription, files: Seq<ProbeFile>, cands: Seq<usize>, prefix: Seq<usize>) -> Seq<ProbeFile>
    decreases prefix.len(),
{
    if prefix.len() == 0 {
        Seq::empty()
    } else {
        let prev = kept_files(sub, files, cands, prefix.drop_last());
        let i = prefix.last();
        if keep_index(sub, files, cands, i) {
            prev.push(files[i as int])
        } else {
            prev
        }
    }
}

/// The new files of a probe: the candidates that stay, in probe order.
pub open spec fn new_files_of(sub: Subscription, files: Seq<ProbeFile>) -> Seq<ProbeFile> {
    let cands = indices_where(files, |f: ProbeFile| new_file_candidate(sub, f), files.len() as int);
    kept_files(sub, files, cands, cands)
}

/// A copy of a probed file.
pub fn copy_probe_file(f: &ProbeFile) -> (r: ProbeFile)
    ensures
        r == *f,
{
    ProbeFile {
        name: f.name.clone(),
        is_dir: f.is_dir,
        parent_path: f.parent_path.clone(),
        size: f.size,
        updated_at: match &f.updated_at {
            Some(u) => Some(u.clone()),
            None => None,
        },
        file_key: f.file_key.clone(),
    }
}

/// Whether the file belongs to the subscription's seasons.
pub fn is_current_subscription_season_file(sub: &Subscription, file: &ProbeFile) -> (r: bool)
    ensures
        r == season_file(*sub, *file),
{
    if str_eq(sub.media_type.as_str(), MEDIA_MOVIE) {
        return true;
    }
    let end = match sub.season_end {
        Some(e) => e,
        None => sub.season,
    };
    matches_subscription_season_range(file.name.as_str(), file.parent_path.as_str(), sub.season, end)
}

/// The slots the subscription's transferred files fill.
pub fn transferred_state_keys(sub: &Subscription) -> (r: Vec<(i32, i32)>)
    ensures
        forall|k: (i32, i32)| r@.contains(k) <==> transferred_episode(*sub, k),
{
    let mut out: Vec<(i32, i32)> = Vec::new();
    let mut j: usize = 0;
    while j < sub.transferred_files.len()
        invariant
            j <= sub.transferred_files.len(),
            forall|k: (i32, i32)|
                out@.contains(k) <==> exists|i: int|
                    0 <= i < j && file_state_key(*sub, (#[trigger] sub.transferred_files@[i])@) == Some(k),
        decreases sub.transferred_files.len() - j,
    {
        let ghost before = out@;
        let key = episode_state_key_with_override(
            sub.transferred_files[j].as_str(),
            sub.season,
            sub.rules.episode_regex.as_str(),
        );
        if let Some(k) = key {
            out.push(k);
        }
        proof {
            assert forall|k: (i32, i32)|
                out@.contains(k) <==> exists|i: int|
                    0 <= i < j + 1 && file_state_key(*sub, (#[trigger] sub.transferred_files@[i])@) == Some(k) by {
                if out@.contains(k) {
                    let x = choose|x: int| 0 <= x < out@.len() && out@[x] == k;
                    if x < before.len() {
                        assert(before.contains(k));
                    } else {
                        assert(file_state_key(*sub, sub.transferred_files@[j as int]@) == Some(k));
                    }
                }
                if exists|i: int|
                    0 <= i < j + 1 && file_state_key(*sub, (#[trigger] sub.transferred_files@[i])@) == Some(k) {
                    let i = choose|i: int|
                        0 <= i < j + 1 && file_state_key(*sub, (#[trigger] sub.transferred_files@[i])@) == Some(k);
                    if i < j {
                        assert(before.contains(k));
                        let x = choose|x: int| 0 <= x < before.len() && before[x] == k;
                        assert(out@[x] == k);
                    } else {
                        assert(out@[out@.len() - 1] == k);
                    }
                }
            }
        }
        j += 1;
    }
    out
}

fn pairs_contain(v: &Vec<(i32, i32)>, k: (i32, i32)) -> (r: bool)
    ensures
        r == v@.contains(k),
{
    let mut i: usize = 0;
    while i < v.len()
        invariant
            i <= v.len(),
            forall|j: int| 0 <= j < i ==> v@[j] != k,
        decreases v.len() - i,
    {
        if v[i].0 == k.0 && v[i].1 == k.1 {
            assert(v@[i as int] == k);
            return true;
        }
        i += 1;
    }
    false
}

pub fn numbers_contain(v: &Vec<i32>, x: i32) -> (r: bool)
    ensures
        r == v@.contains(x),
{
    let mut i: usize = 0;
    while i < v.len()
        invariant
            i <= v.len(),
            forall|j: int| 0 <= j < i ==> v@[j] != x,
        decreases v.len() - i,
    {
        if v[i] == x {
            assert(v@[i as int] == x);
            return true;
        }
        i += 1;
    }
    false
}

fn episode_slot_saved(sub: &Subscription, name: &str, saved: &Vec<(i32, i32)>) -> (r: bool)
    requires
        !is_movie_sub(*sub) ==> forall|k: (i32, i32)| saved@.contains(k) <==> transferred_episode(*sub, k),
    ensures
        r == episode_already_saved(*sub, name@),
{
    if str_eq(sub.media_type.as_str(), MEDIA_MOVIE) {
        return false;
    }
    match episode_state_key_with_override(name, sub.season, sub.rules.episode_regex.as_str()) {
        None => false,
        Some(k) => {
            if pairs_contain(saved, k) {
                return true;
            }
            let primary = if sub.season >= 1 {
                sub.season
            } else {
                1
            };
            if k.0 == primary && numbers_contain(&sub.known_episodes, k.1) {
                return true;
            }
            if !sub.is_multi_season() {
                let mut key = owned(EP_KEY_PREFIX);
                push_decimal(&mut key, k.1 as i64);
                let kc = chars_of(key.as_str());
                return strings_contain(sub.transferred_file_keys.as_slice(), kc.as_slice());
            }
            false
        },
    }
}

/// Whether a show's file of the first season lies before the start episode.
pub fn is_before_start_episode(sub: &Subscription, file_name: &str, parent_path: &str) -> (r: bool)
    ensures
        r == before_start(*sub, file_name@, parent_path@),
{
    if str_eq(sub.media_type.as_str(), MEDIA_MOVIE) {
        return false;
    }
    let start = match sub.start_episode_number {
        Some(s) => s,
        None => {
            return false;
        },
    };
    if start <= 1 {
        return false;
    }
    let primary = if sub.season >= 1 {
        sub.season
    } else {
        1
    };
    let season = resolve_file_season(file_name, parent_path, sub.season, sub.is_multi_season());
    if season != Some(primary) {
        return false;
    }
    match extract_episode_number(file_name) {
        Some(e) => e < start,
        None => false,
    }
}

fn is_new_file_candidate(sub: &Subscription, f: &ProbeFile, saved: &Vec<(i32, i32)>) -> (r: bool)
    requires
        !is_movie_sub(*sub) ==> forall|k: (i32, i32)| saved@.contains(k) <==> transferred_episode(*sub, k),
    ensures
        r == new_file_candidate(*sub, *f),
{
    if episode_slot_saved(sub, f.name.as_str(), saved) {
        return false;
    }
    if f.is_dir || !is_current_subscription_season_file(sub, f) {
        return false;
    }
    let key = chars_of(f.file_key.as_str());
    if strings_contain(sub.known_file_keys.as_slice(), key.as_slice()) {
        return false;
    }
    if is_before_start_episode(sub, f.name.as_str(), f.parent_path.as_str()) {
        return false;
    }
    transfer_rule_skip_reason(sub, f).is_none()
}

fn best_candidate_for_key(sub: &Subscription, files: &[ProbeFile], cands: &Vec<usize>, key: (i32, i32)) -> (r: Option<usize>)
    requires
        files@.len() <= i64::MAX,
        forall|j: int| 0 <= j < cands@.len() ==> (#[trigger] cands@[j]) < files@.len(),
    ensures
        r == best_for_key(*sub, files@, cands@, key),
{
    let mut best: Option<usize> = None;
    let mut j: usize = 0;
    while j < cands.len()
        invariant
            j <= cands.len(),
            files@.len() <= i64::MAX,
            forall|x: int| 0 <= x < cands@.len() ==> (#[trigger] cands@[x]) < files@.len(),
            best == best_for_key(*sub, files@, cands@.take(j as int), key),
            best matches Some(c) ==> c < files@.len(),
        decreases cands.len() - j,
    {
        assert(cands@.take(j + 1).drop_last() =~= cands@.take(j as int));
        assert(cands@.take(j + 1).last() == cands@[j as int]);
        let i = cands[j];
        let f = &files[i];
        if is_current_subscription_season_file(sub, f) {
            let k = episode_state_key_with_override(f.name.as_str(), sub.season, sub.rules.episode_regex.as_str());
            if k == Some(key) {
                best = match best {
                    None => Some(i),
                    Some(c) => {
                        let candidate = EpisodeDuplicateCandidate {
                            name: f.name.as_str(),
                            size: f.size,
                            updated_at: match &f.updated_at {
                                Some(u) => Some(u.as_str()),
                                None => None,
                            },
                            order: i,
                        };
                        let fc = &files[c];
                        let current = EpisodeDuplicateCandidate {
                            name: fc.name.as_str(),
                            size: fc.size,
                            updated_at: match &fc.updated_at {
                                Some(u) => Some(u.as_str()),
                                None => None,
                            },
                            order: c,
                        };
                        if is_better_episode_duplicate_candidate(
                            candidate,
                            current,
                            sub.rules.duplicate_episode_strategy.as_str(),
                        ) {
                            Some(i)
                        } else {
                            Some(c)
                        }
                    },
                };
            }
        }
        j += 1;
    }
    assert(cands@.take(cands.len() as int) =~= cands@);
    best
}

/// Whether a candidate stays (see [`keep_index`]).
pub fn keep_episode_video_index(sub: &Subscription, files: &[ProbeFile], cands: &Vec<usize>, index: usize) -> (r: bool)
    requires
        files@.len() <= i64::MAX,
        index < files@.len(),
        forall|j: int| 0 <= j < cands@.len() ==> (#[trigger] cands@[j]) < files@.len(),
    ensures
        r == keep_index(*sub, files@, cands@, index),
{
    if str_eq(sub.media_type.as_str(), MEDIA_MOVIE) {
        return true;
    }
    let f = &files[index];
    if !is_current_subscription_season_file(sub, f) {
        return false;
    }
    match episode_state_key_with_override(f.name.as_str(), sub.season, sub.rules.episode_regex.as_str()) {
        None => true,
        Some(k) => best_candidate_for_key(sub, files, cands, k) == Some(index),
    }
}

/// The new files of a probe, in probe order.
pub fn find_new_files(sub: &Subscription, files: &[ProbeFile]) -> (r: Vec<ProbeFile>)
    requires
        files@.len() <= i64::MAX,
    ensures
        r@ == new_files_of(*sub, files@),
{
    let saved = if str_eq(sub.media_type.as_str(), MEDIA_MOVIE) {
        Vec::new()
    } else {
        transferred_state_keys(sub)
    };
    let ghost p = |f: ProbeFile| new_file_candidate(*sub, f);
    let mut cands: Vec<usize> = Vec::new();
    let mut i: usize = 0;
    while i < files.len()
        invariant
            i <= files.len(),
            cands@ == indices_where(files@, p, i as int),
            forall|j: int| 0 <= j < cands@.len() ==> (#[trigger] cands@[j]) < i,
            !is_movie_sub(*sub) ==> forall|k: (i32, i32)| saved@.contains(k) <==> transferred_episode(*sub, k),
            p == (|f: ProbeFile| new_file_candidate(*sub, f)),
        decreases files.len() - i,
    {
        assert(p(files@[i as int]) == new_file_candidate(*sub, files@[i as int]));
        if is_new_file_candidate(sub, &files[i], &saved) {
            cands.push(i);
        }
        i += 1;
    }
    let mut out: Vec<ProbeFile> = Vec::new();
    let mut j: usize = 0;
    while j < cands.len()
        invariant
            j <= cands.len(),
            files@.len() <= i64::MAX,
            forall|x: int| 0 <= x < cands@.len() ==> (#[trigger] cands@[x]) < files@.len(),
            out@ == kept_files(*sub, files@, cands@, cands@.take(j as int)),
        decreases cands.len() - j,
    {
        assert(cands@.take(j + 1).drop_last() =~= cands@.take(j as int));
        assert(cands@.take(j + 1).last() == cands@[j as int]);
        let idx = cands[j];
        if keep_episode_video_index(sub, files, &cands, idx) {
            out.push(copy_probe_file(&files[idx]));
        }
        j += 1;
    }
    assert(cands@.take(cands.len() as int) =~= cands@);
    out
}

// ---------------------------------------------------------------------------
// Which files a check hands to the transfer
// ---------------------------------------------------------------------------

/// A transfer key counts as transferred: the subscription stores it, or it is
/// the key of one of the transferred files.
pub open spec fn key_held(sub: Subscription, transferred_name_keys: Seq<Seq<char>>, key: Seq<char>) -> bool {
    views(sub.transferred_file_keys@).contains(key) || transferred_name_keys.contains(key)
}

/// A probed file (whose transfer key is `key`) still waits for its transfer.
/// A film's video waits while its key is not held. A show's file of the
/// subscription's seasons, not before the start and accepted by the rules,
/// waits while its episode slot is not filled by a transferred file nor, in
/// the first season, by an `ep:N` key; a file without a slot waits while
/// neither its key nor its name was transferred.
pub open spec fn awaits_transfer(
    sub: Subscription,
    f: ProbeFile,
    key: Seq<char>,
    transferred_name_keys: Seq<Seq<char>>,
) -> bool {
    if is_movie_sub(sub) {
        !f.is_dir && skip_reason(sub, f.name@) is None && !key_held(sub, transferred_name_keys, key)
    } else {
        &&& !f.is_dir
        &&& season_file(sub, f)
        &&& !before_start(sub, f.name@, f.parent_path@)
        &&& skip_reason(sub, f.name@) is None
        &&& match file_state_key(sub, f.name@) {
            None => !key_held(sub, transferred_name_keys, key) && !views(sub.transferred_files@).contains(f.name@),
            Some(k) => !transferred_episode(sub, k) && !(k.0 == primary_season(sub) && key_held(
                sub,
                transferred_name_keys,
                EP_KEY_PREFIX@ + int_decimal(k.1 as int),
            )),
        }
    }
}

/// The names to transfer after looking at the first `n` probed files: the new
/// names, then each waiting file's name not taken yet, in probe order.
pub open spec fn transfer_candidates_upto(
    sub: Subscription,
    files: Seq<ProbeFile>,
    file_keys: Seq<Seq<char>>,
    transferred_name_keys: Seq<Seq<char>>,
    new_names: Seq<Seq<char>>,
    n: int,
) -> Seq<Seq<char>>
    decreases n,
{
    if n <= 0 {
        new_names
    } else {
        let prev = transfer_candidates_upto(sub, files, file_keys, transferred_name_keys, new_names, n - 1);
        let f = files[n - 1];
        if awaits_transfer(sub, f, file_keys[n - 1], transferred_name_keys) && !prev.contains(f.name@) {
            prev.push(f.name@)
        } else {
            prev
        }
    }
}

/// The names a check hands to the transfer: the new files and the known ones
/// still waiting for their transfer.
pub open spec fn transfer_candidates_of(
    sub: Subscription,
    files: Seq<ProbeFile>,
    file_keys: Seq<Seq<char>>,
    transferred_name_keys: Seq<Seq<char>>,
    new_names: Seq<Seq<char>>,
) -> Seq<Seq<char>> {
    transfer_candidates_upto(sub, files, file_keys, transferred_name_keys, new_names, files.len() as int)
}

fn is_key_held(sub: &Subscription, transferred_name_keys: &[String], key: &[char]) -> (r: bool)
    ensures
        r == key_held(*sub, views(transferred_name_keys@), key@),
{
    strings_contain(sub.transferred_file_keys.as_slice(), key) || strings_contain(transferred_name_keys, key)
}

fn awaits_transfer_check(
    sub: &Subscription,
    f: &ProbeFile,
    key: &str,
    transferred_name_keys: &[String],
    saved: &Vec<(i32, i32)>,
) -> (r: bool)
    requires
        !is_movie_sub(*sub) ==> forall|k: (i32, i32)| saved@.contains(k) <==> transferred_episode(*sub, k),
    ensures
        r == awaits_transfer(*sub, *f, key@, views(transferred_name_keys@)),
{
    let key_chars = chars_of(key);
    if str_eq(sub.media_type.as_str(), MEDIA_MOVIE) {
        return !f.is_dir && transfer_rule_skip_reason(sub, f).is_none() && !is_key_held(
            sub,
            transferred_name_keys,
            key_chars.as_slice(),
        );
    }
    if f.is_dir || !is_current_subscription_season_file(sub, f) {
        return false;
    }
    if is_before_start_episode(sub, f.name.as_str(), f.parent_path.as_str()) {
        return false;
    }
    if transfer_rule_skip_reason(sub, f).is_some() {
        return false;
    }
    match episode_state_key_with_override(f.name.as_str(), sub.season, sub.rules.episode_regex.as_str()) {
        None => {
            let name_chars = chars_of(f.name.as_str());
            !is_key_held(sub, transferred_name_keys, key_chars.as_slice()) && !strings_contain(
                sub.transferred_files.as_slice(),
                name_chars.as_slice(),
            )
        },
        Some(k) => {
            if pairs_contain(saved, k) {
                return false;
            }
            let primary = if sub.season >= 1 {
                sub.season
            } else {
                1
            };
            if k.0 == primary {
                let mut ep = owned(EP_KEY_PREFIX);
                push_decimal(&mut ep, k.1 as i64);
                let ep_chars = chars_of(ep.as_str());
                return !is_key_held(sub, transferred_name_keys, ep_chars.as_slice());
            }
            true
        },
    }
}

/// The names a check hands to the transfer: the new names, then the names of
/// the probed files still waiting for their transfer (see
/// [`awaits_transfer`]), each once. `file_keys` holds the transfer key of
/// each probed file, in probe order, and `transferred_name_keys` those of the
/// subscription's transferred files.
pub fn transfer_candidate_file_names(
    sub: &Subscription,
    files: &[ProbeFile],
    new_file_names: &[String],
    file_keys: &[String],
    transferred_name_keys: &[String],
) -> (r: Vec<String>)
    requires
        file_keys@.len() == files@.len(),
    ensures
        views(r@) == transfer_candidates_of(
            *sub,
            files@,
            views(file_keys@),
            views(transferred_name_keys@),
            views(new_file_names@),
        ),
{
    let saved = if str_eq(sub.media_type.as_str(), MEDIA_MOVIE) {
        Vec::new()
    } else {
        transferred_state_keys(sub)
    };
    let mut names: Vec<String> = Vec::new();
    let mut j: usize = 0;
    while j < new_file_names.len()
        invariant
            j <= new_file_names.len(),
            views(names@) == views(new_file_names@).take(j as int),
        decreases new_file_names.len() - j,
    {
        let ghost before = views(names@);
        names.push(new_file_names[j].clone());
        assert(views(names@) =~= before.push(new_file_names@[j as int]@));
        assert(views(new_file_names@).take(j + 1) =~= views(new_file_names@).take(j as int).push(
            new_file_names@[j as int]@,
        ));
        j += 1;
    }
    assert(views(new_file_names@).take(new_file_names.len() as int) =~= views(new_file_names@));
    let mut i: usize = 0;
    while i < files.len()
        invariant
            i <= files.len(),
            file_keys@.len() == files@.len(),
            !is_movie_sub(*sub) ==> forall|k: (i32, i32)| saved@.contains(k) <==> transferred_episode(*sub, k),
            views(names@) == transfer_candidates_upto(
                *sub,
                files@,
                views(file_keys@),
                views(transferred_name_keys@),
                views(new_file_names@),
                i as int,
            ),
        decreases files.len() - i,
    {
        let f = &files[i];
        let ghost before = views(names@);
        if awaits_transfer_check(sub, f, file_keys[i].as_str(), transferred_name_keys, &saved) {
            let name_chars = chars_of(f.name.as_str());
            if !strings_contain(names.as_slice(), name_chars.as_slice()) {
                names.push(f.name.clone());
                assert(views(names@) =~= before.push(f.name@));
            }
        }
        i += 1;
    }
    names
}

// ---------------------------------------------------------------------------
// How each probed file was classified
// ---------------------------------------------------------------------------

pub const REASON_SAME_EPISODE_KNOWN: &'static str = "同集已记录";
pub const REASON_DUP_LATEST: &'static str = "同集重复视频，已保留上传时间最新版本";
pub const REASON_DUP_LARGEST: &'static str = "同集重复视频，已保留文件最大版本";
pub const REASON_DUP_FIRST: &'static str = "同集重复视频，已保留最先出现版本";
pub const REASON_DUP_QUALITY: &'static str = "同集重复视频，已保留清晰度最高版本";
pub const REASON_DIRECTORY: &'static str = "目录不参与订阅检查";
pub const REASON_KNOWN_FILE: &'static str = "已知文件";
pub const REASON_OTHER_SEASON: &'static str = "非当前订阅季";
pub const REASON_BEFORE_START: &'static str = "低于起始转存集数";
pub const REASON_NEW_FILE: &'static str = "新增文件";
pub const ACTION_SKIP: &'static str = "skip";
pub const ACTION_KNOWN: &'static str = "known";
pub const ACTION_NEW: &'static str = "new";

/// A show's file repeats an episode of the first season already known.
pub open spec fn known_episode_reason(sub: Subscription, name: Seq<char>) -> Option<Seq<char>> {
    if is_movie_sub(sub) {
        None
    } else {
        match file_state_key(sub, name) {
            Some(k) => if k.0 == primary_season(sub) && sub.known_episodes@.contains(k.1) {
                Some(REASON_SAME_EPISODE_KNOWN@)
            } else {
                None
            },
            None => None,
        }
    }
}

/// Why a duplicate of an episode was left out, by strategy.
pub open spec fn duplicate_reason(strategy: Seq<char>) -> Seq<char> {
    let s = strategy_of(strategy);
    if s == "latest_upload"@ {
        REASON_DUP_LATEST@
    } else if s == "largest_size"@ {
        REASON_DUP_LARGEST@
    } else if s == "first"@ {
        REASON_DUP_FIRST@
    } else {
        REASON_DUP_QUALITY@
    }
}

/// Why a show's file repeats a known episode, if it does.
pub fn known_episode_video_reason(sub: &Subscription, file: &ProbeFile) -> (r: Option<&'static str>)
    ensures
        r matches Some(x) ==> known_episode_reason(*sub, file.name@) == Some(x@),
        r is None ==> known_episode_reason(*sub, file.name@) is None,
{
    if str_eq(sub.media_type.as_str(), MEDIA_MOVIE) {
        return None;
    }
    match episode_state_key_with_override(file.name.as_str(), sub.season, sub.rules.episode_regex.as_str()) {
        None => None,
        Some(k) => {
            let primary = if sub.season >= 1 {
                sub.season
            } else {
                1
            };
            if k.0 == primary && numbers_contain(&sub.known_episodes, k.1) {
                Some(REASON_SAME_EPISODE_KNOWN)
            } else {
                None
            }
        },
    }
}

/// Why a duplicate of an episode was left out.
pub fn duplicate_episode_skip_reason(sub: &Subscription) -> (r: &'static str)
    ensures
        r@ == duplicate_reason(sub.rules.duplicate_episode_strategy@),
{
    let s = normalize_duplicate_episode_strategy(sub.rules.duplicate_episode_strategy.as_str());
    proof {
        reveal_strlit("latest_upload");
        reveal_strlit("largest_size");
        reveal_strlit("first");
    }
    if str_eq(s, "latest_upload") {
        REASON_DUP_LATEST
    } else if str_eq(s, "largest_size") {
        REASON_DUP_LARGEST
    } else if str_eq(s, "first") {
        REASON_DUP_FIRST
    } else {
        REASON_DUP_QUALITY
    }
}

/// A probed file is remembered as known: a file of the subscription's
/// seasons that the rules accept.
pub open spec fn records_known(sub: Subscription, f: ProbeFile) -> bool {
    !f.is_dir && season_file(sub, f) && skip_reason(sub, f.name@) is None
}

/// Whether a probed file is remembered as known.
pub fn should_record_known_probe_file(sub: &Subscription, file: &ProbeFile) -> (r: bool)
    ensures
        r == records_known(*sub, *file),
{
    !file.is_dir && is_current_subscription_season_file(sub, file) && transfer_rule_skip_reason(sub, file).is_none()
}

/// A probed file competes for its episode in the classification: as for new
/// files, but a known episode of the first season rules it out instead of
/// the transferred evidence.
pub open spec fn detail_candidate(sub: Subscription, f: ProbeFile) -> bool {
    &&& !f.is_dir
    &&& season_file(sub, f)
    &&& !views(sub.known_file_keys@).contains(f.file_key@)
    &&& !before_start(sub, f.name@, f.parent_path@)
    &&& known_episode_reason(sub, f.name@) is None
    &&& skip_reason(sub, f.name@) is None
}

/// The counter a classification raises.
pub enum DetailCounter {
    Nothing,
    Directory,
    Known,
    OtherSeason,
    BeforeStart,
    Duplicate,
    New,
}

/// How the file at `i` is classified (action, reason, counter), in this
/// order: directory, known file, other season, before the start, rejected by
/// the rules, known episode, duplicate of a better file, else new.
pub open spec fn detail_class(sub: Subscription, files: Seq<ProbeFile>, dc: Seq<usize>, i: int) -> (Seq<char>, Seq<char>, DetailCounter) {
    let f = files[i];
    if f.is_dir {
        (ACTION_SKIP@, REASON_DIRECTORY@, DetailCounter::Directory)
    } else if views(sub.known_file_keys@).contains(f.file_key@) {
        (ACTION_KNOWN@, REASON_KNOWN_FILE@, DetailCounter::Known)
    } else if !season_file(sub, f) {
        (ACTION_SKIP@, REASON_OTHER_SEASON@, DetailCounter::OtherSeason)
    } else if before_start(sub, f.name@, f.parent_path@) {
        (ACTION_SKIP@, REASON_BEFORE_START@, DetailCounter::BeforeStart)
    } else if skip_reason(sub, f.name@) is Some {
        (ACTION_SKIP@, skip_reason(sub, f.name@)->0, DetailCounter::Nothing)
    } else if known_episode_reason(sub, f.name@) is Some {
        (ACTION_SKIP@, known_episode_reason(sub, f.name@)->0, DetailCounter::Duplicate)
    } else if !keep_index(sub, files, dc, i as usize) {
        (ACTION_SKIP@, duplicate_reason(sub.rules.duplicate_episode_strategy@), DetailCounter::Duplicate)
    } else {
        (ACTION_NEW@, REASON_NEW_FILE@, DetailCounter::New)
    }
}

/// How many of the first `n` files raise the counter `c`.
pub open spec fn count_class(sub: Subscription, files: Seq<ProbeFile>, dc: Seq<usize>, n: int, c: DetailCounter) -> nat
    decreases n,
{
    if n <= 0 {
        0
    } else {
        count_class(sub, files, dc, n - 1, c) + if detail_class(sub, files, dc, n - 1).2 == c {
            1nat
        } else {
            0nat
        }
    }
}

/// What recognition reports of a name under the subscription's pattern; the
/// plain recognition where the pattern is rejected.
pub open spec fn item_detection(name: Seq<char>, pattern: Seq<char>) -> DetectionModel {
    match override_detection(name, pattern) {
        Ok(d) => d,
        Err(_) => detection_of(name),
    }
}

/// The item of the file at `i`.
pub open spec fn item_of(item: CheckDetailItem, sub: Subscription, files: Seq<ProbeFile>, dc: Seq<usize>, i: int) -> bool {
    let f = files[i];
    let d = item_detection(f.name@, sub.rules.episode_regex@);
    let c = detail_class(sub, files, dc, i);
    &&& item.name@ == f.name@
    &&& item.episode == d.episode
    &&& item.episodes@ == d.episodes
    &&& opt_view(item.special_kind) == d.special_kind
    &&& item.detection_method@ == d.method
    &&& item.detection_confidence@ == d.confidence
    &&& item.is_dir == f.is_dir
    &&& item.parent_path@ == f.parent_path@
    &&& item.file_key@ == f.file_key@
    &&& item.action@ == c.0
    &&& item.reason@ == c.1
}

/// The classification of a probe: every file in order with its action and
/// reason, and the count of each kind.
pub open spec fn details_of(d: CheckDetails, sub: Subscription, files: Seq<ProbeFile>) -> bool {
    let dc = indices_where(files, |f: ProbeFile| detail_candidate(sub, f), files.len() as int);
    let n = files.len() as int;
    &&& d.scanned_count == files.len()
    &&& d.skipped_directory_count == count_class(sub, files, dc, n, DetailCounter::Directory)
    &&& d.known_count == count_class(sub, files, dc, n, DetailCounter::Known)
    &&& d.skipped_other_season_count == count_class(sub, files, dc, n, DetailCounter::OtherSeason)
    &&& d.skipped_before_start_count == count_class(sub, files, dc, n, DetailCounter::BeforeStart)
    &&& d.skipped_duplicate_episode_count == count_class(sub, files, dc, n, DetailCounter::Duplicate)
    &&& d.new_count == count_class(sub, files, dc, n, DetailCounter::New)
    &&& d.items@.len() == files.len()
    &&& forall|i: int| 0 <= i < files.len() ==> item_of(#[trigger] d.items@[i], sub, files, dc, i)
}

fn is_detail_candidate(sub: &Subscription, f: &ProbeFile) -> (r: bool)
    ensures
        r == detail_candidate(*sub, *f),
{
    if f.is_dir || !is_current_subscription_season_file(sub, f) {
        return false;
    }
    let key = chars_of(f.file_key.as_str());
    if strings_contain(sub.known_file_keys.as_slice(), key.as_slice()) {
        return false;
    }
    if is_before_start_episode(sub, f.name.as_str(), f.parent_path.as_str()) {
        return false;
    }
    if known_episode_video_reason(sub, f).is_some() {
        return false;
    }
    transfer_rule_skip_reason(sub, f).is_none()
}

fn detection_for_item(name: &str, pattern: &str) -> (r: EpisodeDetection)
    ensures
        r@ == item_detection(name@, pattern@),
{
    match detect_episode_with_override(name, pattern) {
        Ok(d) => d,
        Err(_) => detect_episode_explained(name),
    }
}

fn classify_file(sub: &Subscription, files: &[ProbeFile], dc: &Vec<usize>, i: usize) -> (r: (&'static str, String, DetailCounter))
    requires
        files@.len() <= i64::MAX,
        i < files@.len(),
        forall|j: int| 0 <= j < dc@.len() ==> (#[trigger] dc@[j]) < files@.len(),
    ensures
        r.0@ == detail_class(*sub, files@, dc@, i as int).0,
        r.1@ == detail_class(*sub, files@, dc@, i as int).1,
        r.2 == detail_class(*sub, files@, dc@, i as int).2,
{
    let f = &files[i];
    if f.is_dir {
        return (ACTION_SKIP, owned(REASON_DIRECTORY), DetailCounter::Directory);
    }
    let key = chars_of(f.file_key.as_str());
    if strings_contain(sub.known_file_keys.as_slice(), key.as_slice()) {
        return (ACTION_KNOWN, owned(REASON_KNOWN_FILE), DetailCounter::Known);
    }
    if !is_current_subscription_season_file(sub, f) {
        return (ACTION_SKIP, owned(REASON_OTHER_SEASON), DetailCounter::OtherSeason);
    }
    if is_before_start_episode(sub, f.name.as_str(), f.parent_path.as_str()) {
        return (ACTION_SKIP, owned(REASON_BEFORE_START), DetailCounter::BeforeStart);
    }
    if let Some(reason) = transfer_rule_skip_reason(sub, f) {
        return (ACTION_SKIP, reason, DetailCounter::Nothing);
    }
    if let Some(reason) = known_episode_video_reason(sub, f) {
        return (ACTION_SKIP, owned(reason), DetailCounter::Duplicate);
    }
    if !keep_episode_video_index(sub, files, dc, i) {
        return (ACTION_SKIP, owned(duplicate_episode_skip_reason(sub)), DetailCounter::Duplicate);
    }
    (ACTION_NEW, owned(REASON_NEW_FILE), DetailCounter::New)
}

/// Classifies every probed file and counts each kind.
pub fn build_check_details(sub: &Subscription, files: &[ProbeFile]) -> (r: CheckDetails)
    requires
        files@.len() <= i64::MAX,
    ensures
        details_of(r, *sub, files@),
{
    let ghost p = |f: ProbeFile| detail_candidate(*sub, f);
    let mut dc: Vec<usize> = Vec::new();
    let mut i: usize = 0;
    while i < files.len()
        invariant
            i <= files.len(),
            dc@ == indices_where(files@, p, i as int),
            forall|j: int| 0 <= j < dc@.len() ==> (#[trigger] dc@[j]) < i,
            p == (|f: ProbeFile| detail_candidate(*sub, f)),
        decreases files.len() - i,
    {
        assert(p(files@[i as int]) == detail_candidate(*sub, files@[i as int]));
        if is_detail_candidate(sub, &files[i]) {
            dc.push(i);
        }
        i += 1;
    }
    let mut details = CheckDetails::default();
    details.scanned_count = files.len();
    let mut k: usize = 0;
    while k < files.len()
        invariant
            k <= files.len(),
            files@.len() <= i64::MAX,
            forall|j: int| 0 <= j < dc@.len() ==> (#[trigger] dc@[j]) < files@.len(),
            details.scanned_count == files.len(),
            details.skipped_directory_count == count_class(*sub, files@, dc@, k as int, DetailCounter::Directory),
            details.known_count == count_class(*sub, files@, dc@, k as int, DetailCounter::Known),
            details.skipped_other_season_count == count_class(*sub, files@, dc@, k as int, DetailCounter::OtherSeason),
            details.skipped_before_start_count == count_class(*sub, files@, dc@, k as int, DetailCounter::BeforeStart),
            details.skipped_duplicate_episode_count == count_class(*sub, files@, dc@, k as int, DetailCounter::Duplicate),
            details.new_count == count_class(*sub, files@, dc@, k as int, DetailCounter::New),
            details.skipped_directory_count <= k,
            details.known_count <= k,
            details.skipped_other_season_count <= k,
            details.skipped_before_start_count <= k,
            details.skipped_duplicate_episode_count <= k,
            details.new_count <= k,
            details.items@.len() == k,
            forall|j: int| 0 <= j < k ==> item_of(#[trigger] details.items@[j], *sub, files@, dc@, j),
        decreases files.len() - k,
    {
        let f = &files[k];
        let d = detection_for_item(f.name.as_str(), sub.rules.episode_regex.as_str());
        let (action, reason, counter) = classify_file(sub, files, &dc, k);
        match counter {
            DetailCounter::Directory => {
                details.skipped_directory_count += 1;
            },
            DetailCounter::Known => {
                details.known_count += 1;
            },
            DetailCounter::OtherSeason => {
                details.skipped_other_season_count += 1;
            },
            DetailCounter::BeforeStart => {
                details.skipped_before_start_count += 1;
            },
            DetailCounter::Duplicate => {
                details.skipped_duplicate_episode_count += 1;
            },
            DetailCounter::New => {
                details.new_count += 1;
            },
            DetailCounter::Nothing => {},
        }
        let item = CheckDetailItem {
            name: f.name.clone(),
            episode: d.episode,
            episodes: d.episodes,
            special_kind: match d.special_kind {
                Some(x) => Some(owned(x)),
                None => None,
            },
            detection_method: owned(d.method),
            detection_confidence: owned(d.confidence),
            is_dir: f.is_dir,
            parent_path: f.parent_path.clone(),
            file_key: f.file_key.clone(),
            action: owned(action),
            reason,
        };
        details.items.push(item);
        k += 1;
    }
    details
}

// ---------------------------------------------------------------------------
// Episodes of new files
// ---------------------------------------------------------------------------

/// Some name has the episode `e` in its slot.
pub open spec fn names_give_episode(sub: Subscription, names: Seq<Seq<char>>, e: i32) -> bool {
    exists|k: int| 0 <= k < names.len() && (file_state_key(sub, #[trigger] names[k]) matches Some(key) && key.1 == e)
}

/// The episodes the names fill, sorted and each once.
pub fn parse_episodes(sub: &Subscription, file_names: &[String]) -> (r: Vec<i32>)
    ensures
        strictly_sorted(r@),
        forall|e: i32| r@.contains(e) <==> names_give_episode(*sub, views(file_names@), e),
{
    let mut out: Vec<i32> = Vec::new();
    let mut i: usize = 0;
    while i < file_names.len()
        invariant
            i <= file_names.len(),
            strictly_sorted(out@),
            forall|e: i32| out@.contains(e) <==> names_give_episode(*sub, views(file_names@).take(i as int), e),
        decreases file_names.len() - i,
    {
        let ghost before = out@;
        let key = episode_state_key_with_override(file_names[i].as_str(), sub.season, sub.rules.episode_regex.as_str());
        if let Some(k) = key {
            insert_sorted(&mut out, k.1);
        }
        proof {
            let t = views(file_names@).take(i + 1);
            assert(t[i as int] == file_names@[i as int]@);
            assert forall|e: i32| out@.contains(e) <==> names_give_episode(*sub, t, e) by {
                if names_give_episode(*sub, views(file_names@).take(i as int), e) {
                    let k = choose|k: int| 0 <= k < i && (file_state_key(*sub, #[trigger] views(file_names@).take(i as int)[k]) matches Some(key) && key.1 == e);
                    assert(t[k] == views(file_names@).take(i as int)[k]);
                }
                if names_give_episode(*sub, t, e) {
                    let k = choose|k: int| 0 <= k < i + 1 && (file_state_key(*sub, #[trigger] t[k]) matches Some(key) && key.1 == e);
                    if k < i {
                        assert(views(file_names@).take(i as int)[k] == t[k]);
                    }
                }
            }
        }
        i += 1;
    }
    assert(views(file_names@).take(file_names.len() as int) =~= views(file_names@));
    out
}

/// A probed file among the new names gives the first season's episode `e`.
pub open spec fn primary_episode_of(sub: Subscription, probe: Seq<ProbeFile>, names: Seq<Seq<char>>, e: i32) -> bool {
    exists|k: int|
        0 <= k < probe.len() && names.contains((#[trigger] probe[k]).name@) && resolved_season(
            probe[k].name@,
            probe[k].parent_path@,
            sub.season,
        ) == primary_season(sub) && (file_state_key(sub, probe[k].name@) matches Some(key) && key.1 == e)
}

/// The first season's episodes among the new files, sorted and each once.
pub fn primary_season_new_episodes(sub: &Subscription, probe_files: &[ProbeFile], new_files: &[String]) -> (r: Vec<i32>)
    ensures
        strictly_sorted(r@),
        forall|e: i32| r@.contains(e) <==> primary_episode_of(*sub, probe_files@, views(new_files@), e),
{
    let primary = if sub.season >= 1 {
        sub.season
    } else {
        1
    };
    let mut out: Vec<i32> = Vec::new();
    let mut i: usize = 0;
    while i < probe_files.len()
        invariant
            i <= probe_files.len(),
            primary == primary_season(*sub),
            strictly_sorted(out@),
            forall|e: i32| out@.contains(e) <==> primary_episode_of(*sub, probe_files@.take(i as int), views(new_files@), e),
        decreases probe_files.len() - i,
    {
        let f = &probe_files[i];
        let name = chars_of(f.name.as_str());
        if strings_contain(new_files, name.as_slice()) {
            let season = resolve_file_season(f.name.as_str(), f.parent_path.as_str(), sub.season, sub.is_multi_season());
            if season == Some(primary) {
                if let Some(k) = episode_state_key_with_override(f.name.as_str(), sub.season, sub.rules.episode_regex.as_str()) {
                    insert_sorted(&mut out, k.1);
                }
            }
        }
        proof {
            let t = probe_files@.take(i + 1);
            let u = probe_files@.take(i as int);
            assert(t[i as int] == probe_files@[i as int]);
            assert forall|e: i32| out@.contains(e) <==> primary_episode_of(*sub, t, views(new_files@), e) by {
                if primary_episode_of(*sub, u, views(new_files@), e) {
                    let k = choose|k: int|
                        0 <= k < u.len() && views(new_files@).contains((#[trigger] u[k]).name@) && resolved_season(
                            u[k].name@,
                            u[k].parent_path@,
                            sub.season,
                        ) == primary_season(*sub) && (file_state_key(*sub, u[k].name@) matches Some(key) && key.1 == e);
                    assert(t[k] == u[k]);
                }
                if primary_episode_of(*sub, t, views(new_files@), e) {
                    let k = choose|k: int|
                        0 <= k < t.len() && views(new_files@).contains((#[trigger] t[k]).name@) && resolved_season(
                            t[k].name@,
                            t[k].parent_path@,
                            sub.season,
                        ) == primary_season(*sub) && (file_state_key(*sub, t[k].name@) matches Some(key) && key.1 == e);
                    if k < i {
                        assert(u[k] == t[k]);
                    }
                }
            }
        }
        i += 1;
    }
    assert(probe_files@.take(probe_files.len() as int) =~= probe_files@);
    out
}


proof fn lemma_indices_where_hold(files: Seq<ProbeFile>, p: spec_fn(ProbeFile) -> bool, n: int)
    requires
        n <= files.len() <= usize::MAX,
    ensures
        forall|j: int|
            0 <= j < indices_where(files, p, n).len() ==> (#[trigger] indices_where(files, p, n)[j]) < n && p(
                files[indices_where(files, p, n)[j] as int],
            ),
    decreases n,
{
    if n > 0 {
        lemma_indices_where_hold(files, p, n - 1);
        let prev = indices_where(files, p, n - 1);
        if p(files[n - 1]) {
            assert forall|j: int| 0 <= j < prev.push((n - 1) as usize).len() implies (#[trigger] prev.push(
                (n - 1) as usize,
            )[j]) < n && p(files[prev.push((n - 1) as usize)[j] as int]) by {
                if j < prev.len() {
                    assert(prev.push((n - 1) as usize)[j] == prev[j]);
                } else {
                    assert(prev.push((n - 1) as usize)[j] == (n - 1) as usize);
                    assert(((n - 1) as usize) as int == n - 1);
                }
            }
        }
    }
}

proof fn lemma_kept_files_come_from(sub: Subscription, files: Seq<ProbeFile>, cands: Seq<usize>, prefix: Seq<usize>)
    ensures
        forall|m: int|
            0 <= m < kept_files(sub, files, cands, prefix).len() ==> exists|j: int|
                0 <= j < prefix.len() && #[trigger] kept_files(sub, files, cands, prefix)[m] == files[prefix[j] as int],
    decreases prefix.len(),
{
    if prefix.len() > 0 {
        let init = prefix.drop_last();
        lemma_kept_files_come_from(sub, files, cands, init);
        let prev = kept_files(sub, files, cands, init);
        let kept = kept_files(sub, files, cands, prefix);
        assert forall|m: int| 0 <= m < kept.len() implies exists|j: int|
            0 <= j < prefix.len() && #[trigger] kept[m] == files[prefix[j] as int] by {
            if m < prev.len() {
                assert(kept[m] == prev[m]);
                let j = choose|j: int| 0 <= j < init.len() && prev[m] == files[init[j] as int];
                assert(prefix[j] == init[j]);
            } else {
                assert(kept[m] == files[prefix[prefix.len() - 1] as int]);
            }
        }
    }
}

proof fn lemma_candidate_slot_not_transferred(sub: Subscription, f: ProbeFile, t: int)
    requires
        new_file_candidate(sub, f),
        !is_movie_sub(sub),
        file_state_key(sub, f.name@) is Some,
        0 <= t < sub.transferred_files@.len(),
    ensures
        file_state_key(sub, sub.transferred_files@[t]@) != file_state_key(sub, f.name@),
{
    if file_state_key(sub, sub.transferred_files@[t]@) == file_state_key(sub, f.name@) {
        assert(transferred_episode(sub, file_state_key(sub, f.name@)->0));
    }
}

proof fn lemma_new_files_are_candidates(sub: Subscription, files: Seq<ProbeFile>)
    requires
        files.len() <= usize::MAX,
    ensures
        forall|m: int|
            0 <= m < new_files_of(sub, files).len() ==> new_file_candidate(sub, #[trigger] new_files_of(sub, files)[m])
                && exists|i: int| 0 <= i < files.len() && files[i] == new_files_of(sub, files)[m],
{
    let p = |f: ProbeFile| new_file_candidate(sub, f);
    let cands = indices_where(files, p, files.len() as int);
    lemma_indices_where_hold(files, p, files.len() as int);
    lemma_kept_files_come_from(sub, files, cands, cands);
    let out = new_files_of(sub, files);
    assert(out == kept_files(sub, files, cands, cands));
    assert forall|m: int| 0 <= m < out.len() implies new_file_candidate(sub, #[trigger] out[m]) && exists|i: int|
        0 <= i < files.len() && files[i] == out[m] by {
        let j = choose|j: int| 0 <= j < cands.len() && out[m] == files[cands[j] as int];
        assert(p(files[cands[j] as int]));
        assert(cands[j] < files.len());
    }
}

/// A show never gets as new a file whose episode slot (season and episode)
/// is the slot of a file it has already transferred, nor a first-season
/// episode it already knows; every new file is a file of the probe.
pub proof fn new_files_skip_transferred_episodes(sub: Subscription, files: Seq<ProbeFile>)
    requires
        files.len() <= usize::MAX,
    ensures
        forall|m: int|
            0 <= m < new_files_of(sub, files).len() ==> exists|i: int|
                0 <= i < files.len() && files[i] == #[trigger] new_files_of(sub, files)[m],
        !is_movie_sub(sub) ==> forall|m: int, t: int|
            0 <= m < new_files_of(sub, files).len() && 0 <= t < sub.transferred_files@.len()
                && (#[trigger] file_state_key(sub, new_files_of(sub, files)[m].name@)) is Some ==> file_state_key(
                sub,
                (#[trigger] sub.transferred_files@[t])@,
            ) != file_state_key(sub, new_files_of(sub, files)[m].name@),
        !is_movie_sub(sub) ==> forall|m: int|
            0 <= m < new_files_of(sub, files).len() ==> match #[trigger] file_state_key(
                sub,
                new_files_of(sub, files)[m].name@,
            ) {
                Some(k) => !(k.0 == max_i32(sub.season, 1) && sub.known_episodes@.contains(k.1)) && !(
                !sub.spans_seasons() && views(sub.transferred_file_keys@).contains(
                    "ep:"@ + int_decimal(k.1 as int),
                )),
                None => true,
            },
        forall|m: int|
            0 <= m < new_files_of(sub, files).len() ==> !(#[trigger] new_files_of(sub, files)[m]).is_dir
                && !views(sub.known_file_keys@).contains(new_files_of(sub, files)[m].file_key@)
                && !before_start(sub, new_files_of(sub, files)[m].name@, new_files_of(sub, files)[m].parent_path@),
{
    lemma_new_files_are_candidates(sub, files);
    let out = new_files_of(sub, files);
    if !is_movie_sub(sub) {
        assert forall|m: int, t: int|
            0 <= m < out.len() && 0 <= t < sub.transferred_files@.len()
                && (#[trigger] file_state_key(sub, out[m].name@)) is Some implies file_state_key(
                sub,
                (#[trigger] sub.transferred_files@[t])@,
            ) != file_state_key(sub, out[m].name@) by {
            lemma_candidate_slot_not_transferred(sub, out[m], t);
        }
        assert forall|m: int| 0 <= m < out.len() implies match #[trigger] file_state_key(sub, out[m].name@) {
            Some(k) => !(k.0 == max_i32(sub.season, 1) && sub.known_episodes@.contains(k.1)) && !(
            !sub.spans_seasons() && views(sub.transferred_file_keys@).contains(
                "ep:"@ + int_decimal(k.1 as int),
            )),
            None => true,
        } by {
            assert(new_file_candidate(sub, out[m]));
        }
    }
}

} // verus!
