//! Episode and season recognition from file names and paths.
use vstd::prelude::*;
use crate::regex_ops::{
    captures, captures_view, finds, regex_capture_table, regex_compiles, regex_error_message,
    regex_group_names, regex_captures, regex_matches, regex_named_groups,
};
use crate::text::{
    all_digits, ascii_upper_seq, chars_of, contains_seq, ends_with_chars, ends_with_seq,
    file_stem_of, int_decimal, is_digit, is_ws, lowercase_of, parse_i32_spec, parse_i32_str,
    split_char_seq, split_chars, string_of, to_lowercase, trim_chars, trim_seq, trim_start_seq,
    trim_str, opt_view, push_str, push_decimal, ascii_uppercase, contains_chars, is_ws_char,
    is_digit_char, trim_start_index, parse_i32_chars, path_file_stem, owned, str_eq, views,
    ascii_lower_seq, ascii_lowercase, chars_eq, parse_i64_chars, parse_i64_spec, trim_end_seq,
};
use crate::regex_ops::{replaced, regex_replace};
use crate::clock::{naive_utc_seconds, parse_naive_utc_seconds, parse_rfc3339_seconds, rfc3339_seconds};

verus! {

// ---------------------------------------------------------------------------
// Patterns
// ---------------------------------------------------------------------------

pub const SEASON_HINT_SXXEXX: &'static str = r"(?i)S(?P<num>\d{1,2})[._\-\s]*E\d{1,4}";
pub const SEASON_HINT_SXX: &'static str = r"(?i)(?:^|[^\p{L}\d])S(?P<num>\d{1,2})(?:$|[^\p{L}\d])";
pub const SEASON_HINT_WORD: &'static str = r"(?i)(?:season|series)[._\-\s]*(?P<num>\d{1,2})";
pub const SEASON_HINT_CN_DIGITS: &'static str = r"第\s*(?P<num>\d{1,2})\s*季";
pub const SEASON_HINT_CN_NUMERAL: &'static str = r"第\s*(?P<cn>[一二三四五六七八九十两]+)\s*季";

pub const NON_CURRENT_EXTRAS: &'static str = r"(?i)(番外|剧场版|剧场|特别篇|特别版|special|ova|oad)";
pub const NON_CURRENT_SP: &'static str = r"(?i)(?:^|[^\p{L}\d])sp(?:$|[^\p{L}\d])";
pub const NON_CURRENT_EARLIER_SEASONS: &'static str = r"前\s*(?:\d+|[一二三四五六七八九十两]+)\s*季";

pub const EXT_MKV: &'static str = ".mkv";
pub const EXT_MP4: &'static str = ".mp4";
pub const EXT_AVI: &'static str = ".avi";
pub const EXT_TS: &'static str = ".ts";
pub const EXT_MOV: &'static str = ".mov";
pub const EXT_WMV: &'static str = ".wmv";
pub const EXT_FLV: &'static str = ".flv";
pub const EXT_M4V: &'static str = ".m4v";
pub const EXT_RMVB: &'static str = ".rmvb";
pub const EXT_WEBM: &'static str = ".webm";

/// Video file extensions.
pub open spec fn video_exts() -> Seq<Seq<char>> {
    seq![
        EXT_MKV@,
        EXT_MP4@,
        EXT_AVI@,
        EXT_TS@,
        EXT_MOV@,
        EXT_WMV@,
        EXT_FLV@,
        EXT_M4V@,
        EXT_RMVB@,
        EXT_WEBM@,
    ]
}

// ---------------------------------------------------------------------------
// Specifications
// ---------------------------------------------------------------------------

pub open spec fn or_else<T>(a: Option<T>, b: Option<T>) -> Option<T> {
    match a {
        Some(x) => Some(x),
        None => b,
    }
}

pub open spec fn opt_parse_i32(o: Option<Seq<char>>) -> Option<i32> {
    match o {
        Some(s) => parse_i32_spec(s),
        None => None,
    }
}

pub open spec fn chinese_digit(c: char) -> Option<i32> {
    if c == '零' || c == '〇' {
        Some(0)
    } else if c == '一' {
        Some(1)
    } else if c == '二' || c == '两' {
        Some(2)
    } else if c == '三' {
        Some(3)
    } else if c == '四' {
        Some(4)
    } else if c == '五' {
        Some(5)
    } else if c == '六' {
        Some(6)
    } else if c == '七' {
        Some(7)
    } else if c == '八' {
        Some(8)
    } else if c == '九' {
        Some(9)
    } else {
        None
    }
}

/// Position of the first `c` in `s`.
pub open spec fn first_index_of(s: Seq<char>, c: char) -> Option<int>
    decreases s.len(),
{
    if s.len() == 0 {
        None
    } else if s[0] == c {
        Some(0)
    } else {
        match first_index_of(s.drop_first(), c) {
            Some(k) => Some(k + 1),
            None => None,
        }
    }
}

/// A Chinese numeral up to the tens (`十`, `十二`, `二十`, `三`, ...).
pub open spec fn chinese_number(v: Seq<char>) -> Option<i32> {
    let t = trim_seq(v);
    if t.len() == 0 {
        None
    } else if t == seq!['十'] {
        Some(10)
    } else {
        match first_index_of(t, '十') {
            Some(k) => {
                let left = t.take(k);
                let right = t.skip(k + 1);
                let tens = if left.len() == 0 {
                    Some(1i32)
                } else {
                    chinese_digit(left[0])
                };
                let ones = if right.len() == 0 {
                    Some(0i32)
                } else {
                    chinese_digit(right[0])
                };
                match (tens, ones) {
                    (Some(a), Some(b)) => Some((a * 10 + b) as i32),
                    _ => None,
                }
            },
            None => chinese_digit(t[0]),
        }
    }
}

/// Season named by one match: the `num` group, else the `cn` group.
pub open spec fn match_season(m: Seq<Option<Seq<char>>>) -> Option<i32> {
    match opt_parse_i32(m[0]) {
        Some(v) => Some(v),
        None => match m[1] {
            Some(s) => chinese_number(s),
            None => None,
        },
    }
}

/// The season named by the first match that names one.
pub open spec fn first_match_season(ms: Seq<Seq<Option<Seq<char>>>>) -> Option<i32>
    decreases ms.len(),
{
    if ms.len() == 0 {
        None
    } else {
        or_else(match_season(ms[0]), first_match_season(ms.drop_first()))
    }
}

pub open spec fn season_groups() -> Seq<Seq<char>> {
    seq!["num"@, "cn"@]
}

pub open spec fn pattern_season(pattern: Seq<char>, text: Seq<char>) -> Option<i32> {
    first_match_season(captures(pattern, text, season_groups()))
}

/// Season hint found in a text, trying each season pattern in turn.
pub open spec fn season_hint_of(text: Seq<char>) -> Option<i32> {
    or_else(
        pattern_season(SEASON_HINT_SXXEXX@, text),
        or_else(
            pattern_season(SEASON_HINT_SXX@, text),
            or_else(
                pattern_season(SEASON_HINT_WORD@, text),
                or_else(
                    pattern_season(SEASON_HINT_CN_DIGITS@, text),
                    pattern_season(SEASON_HINT_CN_NUMERAL@, text),
                ),
            ),
        ),
    )
}

/// Season hint of the last non-empty (trimmed) path segment that has one.
pub open spec fn last_segment_season(segments: Seq<Seq<char>>) -> Option<i32>
    decreases segments.len(),
{
    if segments.len() == 0 {
        None
    } else {
        let t = trim_seq(segments.last());
        if t.len() > 0 && season_hint_of(t) is Some {
            season_hint_of(t)
        } else {
            last_segment_season(segments.drop_last())
        }
    }
}

/// Season hint of a file: its name first, then its parent path from the
/// innermost segment outwards.
pub open spec fn context_season(name: Seq<char>, parent_path: Seq<char>) -> Option<i32> {
    or_else(season_hint_of(name), last_segment_season(split_char_seq(parent_path, '/')))
}

/// Whether a parent path looks like a collection of other seasons or extras.
pub open spec fn non_current_collection(parent_path: Seq<char>) -> bool {
    trim_seq(parent_path).len() != 0 && (finds(NON_CURRENT_EXTRAS@, parent_path) || finds(
        NON_CURRENT_SP@,
        parent_path,
    ) || finds(NON_CURRENT_EARLIER_SEASONS@, parent_path))
}

pub open spec fn max_i32(a: i32, b: i32) -> i32 {
    if a >= b {
        a
    } else {
        b
    }
}

/// Whether a file belongs to the closed season range `[start, end]`.
pub open spec fn in_season_range(
    name: Seq<char>,
    parent_path: Seq<char>,
    season_start: i32,
    season_end: i32,
) -> bool {
    let start = max_i32(season_start, 1);
    let end = max_i32(season_end, start);
    match context_season(name, parent_path) {
        Some(season) => start <= season && season <= end,
        None => !non_current_collection(parent_path),
    }
}

/// Whether a file name has a video extension (compared in lower case).
pub open spec fn is_video(name: Seq<char>) -> bool {
    exists|i: int| 0 <= i < 10 && ends_with_seq(lowercase_of(name), #[trigger] video_exts()[i])
}

// ---------------------------------------------------------------------------
// Executable code
// ---------------------------------------------------------------------------

fn chinese_digit_value(c: char) -> (r: Option<i32>)
    ensures
        r == chinese_digit(c),
{
    if c == '零' || c == '〇' {
        Some(0)
    } else if c == '一' {
        Some(1)
    } else if c == '二' || c == '两' {
        Some(2)
    } else if c == '三' {
        Some(3)
    } else if c == '四' {
        Some(4)
    } else if c == '五' {
        Some(5)
    } else if c == '六' {
        Some(6)
    } else if c == '七' {
        Some(7)
    } else if c == '八' {
        Some(8)
    } else if c == '九' {
        Some(9)
    } else {
        None
    }
}

fn find_char(v: &[char], c: char) -> (r: Option<usize>)
    ensures
        match r {
            Some(k) => k < v@.len() && first_index_of(v@, c) == Some(k as int),
            None => first_index_of(v@, c) is None,
        },
{
    let mut i: usize = 0;
    while i < v.len()
        invariant
            i <= v.len(),
            forall|m: int| 0 <= m < i ==> v@[m] != c,
        decreases v.len() - i,
    {
        if v[i] == c {
            proof {
                lemma_first_index_of(v@, c, i as int);
            }
            return Some(i);
        }
        i = i + 1;
    }
    proof {
        lemma_first_index_none(v@, c);
    }
    None
}

proof fn lemma_first_index_of(s: Seq<char>, c: char, i: int)
    requires
        0 <= i < s.len(),
        s[i] == c,
        forall|m: int| 0 <= m < i ==> s[m] != c,
    ensures
        first_index_of(s, c) == Some(i),
    decreases i,
{
    if i > 0 {
        lemma_first_index_of(s.drop_first(), c, i - 1);
    }
}

proof fn lemma_first_index_none(s: Seq<char>, c: char)
    requires
        forall|m: int| 0 <= m < s.len() ==> s[m] != c,
    ensures
        first_index_of(s, c) is None,
    decreases s.len(),
{
    if s.len() > 0 {
        lemma_first_index_none(s.drop_first(), c);
    }
}

/// Value of a Chinese numeral such as `十二`.
fn parse_chinese_number(value: &[char]) -> (r: Option<i32>)
    ensures
        r == chinese_number(value@),
{
    let t = trim_chars(value);
    if t.len() == 0 {
        return None;
    }
    if t.len() == 1 && t[0] == '十' {
        assert(t@ =~= seq!['十']);
        return Some(10);
    }
    assert(t@ != seq!['十']);
    match find_char(t.as_slice(), '十') {
        Some(k) => {
            let tens = if k == 0 {
                Some(1i32)
            } else {
                chinese_digit_value(t[0])
            };
            let ones = if k + 1 == t.len() {
                Some(0i32)
            } else {
                chinese_digit_value(t[k + 1])
            };
            assert(t@.take(k as int).len() == k);
            assert(k > 0 ==> t@.take(k as int)[0] == t@[0]);
            assert(k + 1 < t.len() ==> t@.skip(k + 1)[0] == t@[k + 1]);
            match (tens, ones) {
                (Some(a), Some(b)) => Some(a * 10 + b),
                _ => None,
            }
        },
        None => chinese_digit_value(t[0]),
    }
}

/// Season named by the captures of one season pattern.
fn season_from_pattern(pattern: &str, text: &str) -> (r: Option<i32>)
    ensures
        r == pattern_season(pattern@, text@),
{
    let groups: [&str; 2] = ["num", "cn"];
    let table = regex_capture_table(pattern, text, &groups);
    assert(groups@.len() == 2);
    assert(groups@.map_values(|g: &str| g@) =~= season_groups());
    let ghost ms = captures_view(table@);
    let mut i: usize = 0;
    assert(ms.skip(0) =~= ms);
    while i < table.len()
        invariant
            i <= table.len(),
            ms == captures_view(table@),
            ms == captures(pattern@, text@, season_groups()),
            forall|j: int| 0 <= j < table@.len() ==> (#[trigger] table@[j]).len() == 2,
            first_match_season(ms) == first_match_season(ms.skip(i as int)),
        decreases table.len() - i,
    {
        let row = &table[i];
        assert(ms[i as int] == captures_view(table@)[i as int]);
        let ghost m = ms[i as int];
        assert(ms.skip(i as int)[0] == m);
        assert(ms.skip(i as int).drop_first() =~= ms.skip(i + 1));
        assert(table@[i as int].len() == 2);
        assert(m.len() == 2);
        {
            let num = match &row[0] {
                Some(s) => parse_i32_str(s.as_str()),
                None => None,
            };
            assert(num == opt_parse_i32(m[0]));
            if num.is_some() {
                return num;
            }
            let cn = match &row[1] {
                Some(s) => {
                    let v = chars_of(s.as_str());
                    parse_chinese_number(v.as_slice())
                },
                None => None,
            };
            if cn.is_some() {
                return cn;
            }
        }
        i = i + 1;
    }
    None
}

/// Season number hinted by a text (`S02E01`, `S02`, `Season 2`, `第2季`,
/// `第二季`), trying each form in that order.
pub fn season_hint_from_text(value: &str) -> (r: Option<i32>)
    ensures
        r == season_hint_of(value@),
{
    let a = season_from_pattern(SEASON_HINT_SXXEXX, value);
    if a.is_some() {
        return a;
    }
    let b = season_from_pattern(SEASON_HINT_SXX, value);
    if b.is_some() {
        return b;
    }
    let c = season_from_pattern(SEASON_HINT_WORD, value);
    if c.is_some() {
        return c;
    }
    let d = season_from_pattern(SEASON_HINT_CN_DIGITS, value);
    if d.is_some() {
        return d;
    }
    season_from_pattern(SEASON_HINT_CN_NUMERAL, value)
}

/// Season hint of a file from its name, else from its parent path, searched
/// from the innermost segment outwards.
pub fn season_hint_from_context(name: &str, parent_path: &str) -> (r: Option<i32>)
    ensures
        r == context_season(name@, parent_path@),
{
    let own = season_hint_from_text(name);
    if own.is_some() {
        return own;
    }
    let path = chars_of(parent_path);
    let segments = split_chars(path.as_slice(), '/');
    let ghost segs = split_char_seq(parent_path@, '/');
    assert(segments@.map_values(|x: Vec<char>| x@) == segs);
    let mut i: usize = segments.len();
    assert(segs.take(segs.len() as int) =~= segs);
    while i > 0
        invariant
            i <= segments.len(),
            segs == segments@.map_values(|x: Vec<char>| x@),
            segs == split_char_seq(parent_path@, '/'),
            season_hint_of(name@) is None,
            last_segment_season(segs) == last_segment_season(segs.take(i as int)),
        decreases i,
    {
        let segment = trim_chars(segments[i - 1].as_slice());
        let ghost prefix = segs.take(i as int);
        assert(prefix.last() == segments@[i - 1]@);
        assert(prefix.drop_last() =~= segs.take(i - 1));
        assert(segment@ == trim_seq(prefix.last()));
        if segment.len() > 0 {
            let text = string_of(segment.as_slice());
            let hint = season_hint_from_text(text.as_str());
            if hint.is_some() {
                assert(prefix.len() > 0);
                assert(last_segment_season(prefix) == hint);
                return hint;
            }
        }
        i = i - 1;
    }
    None
}

/// Whether a parent path names extras or earlier seasons rather than the
/// current one.
pub fn has_non_current_collection_hint(parent_path: &str) -> (r: bool)
    ensures
        r == non_current_collection(parent_path@),
{
    let trimmed = trim_str(parent_path);
    if trimmed.len() == 0 {
        return false;
    }
    regex_matches(NON_CURRENT_EXTRAS, parent_path) || regex_matches(NON_CURRENT_SP, parent_path)
        || regex_matches(NON_CURRENT_EARLIER_SEASONS, parent_path)
}

/// Whether a file belongs to the subscription's season.
pub fn matches_subscription_season(name: &str, parent_path: &str, subscription_season: i32) -> (r:
    bool)
    ensures
        r == in_season_range(name@, parent_path@, subscription_season, subscription_season),
{
    matches_subscription_season_range(name, parent_path, subscription_season, subscription_season)
}

/// Whether a file belongs to the closed season range `[season_start,
/// season_end]`: a hinted season must lie in the range; a file without a hint
/// is accepted unless its path names extras or earlier seasons.
pub fn matches_subscription_season_range(
    name: &str,
    parent_path: &str,
    season_start: i32,
    season_end: i32,
) -> (r: bool)
    ensures
        r == in_season_range(name@, parent_path@, season_start, season_end),
{
    let start = if season_start >= 1 {
        season_start
    } else {
        1
    };
    let end = if season_end >= start {
        season_end
    } else {
        start
    };
    match season_hint_from_context(name, parent_path) {
        Some(season) => season >= start && season <= end,
        None => !has_non_current_collection_hint(parent_path),
    }
}

/// Season a file belongs to: its hint, else `default_season`, at least 1.
pub fn resolve_file_season(
    name: &str,
    parent_path: &str,
    default_season: i32,
    multi_season: bool,
) -> (r: Option<i32>)
    ensures
        r == Some(
            match context_season(name@, parent_path@) {
                Some(season) => max_i32(season, 1),
                None => max_i32(default_season, 1),
            },
        ),
{
    let _ = multi_season;
    match season_hint_from_context(name, parent_path) {
        Some(season) => Some(
            if season >= 1 {
                season
            } else {
                1
            },
        ),
        None => Some(
            if default_season >= 1 {
                default_season
            } else {
                1
            },
        ),
    }
}

/// Whether a file name has a video extension.
pub fn is_video_name(name: &str) -> (r: bool)
    ensures
        r == is_video(name@),
{
    let lower_string = to_lowercase(name);
    let lower = chars_of(lower_string.as_str());
    let exts: [&str; 10] = [
        EXT_MKV,
        EXT_MP4,
        EXT_AVI,
        EXT_TS,
        EXT_MOV,
        EXT_WMV,
        EXT_FLV,
        EXT_M4V,
        EXT_RMVB,
        EXT_WEBM,
    ];
    assert(exts@.map_values(|e: &str| e@) =~= video_exts());
    let mut i: usize = 0;
    while i < 10
        invariant
            i <= 10,
            lower@ == lowercase_of(name@),
            exts@.map_values(|e: &str| e@) == video_exts(),
            forall|j: int| 0 <= j < i ==> !ends_with_seq(lowercase_of(name@), #[trigger] video_exts()[j]),
        decreases 10 - i,
    {
        let ext = chars_of(exts[i]);
        assert(exts@[i as int]@ == video_exts()[i as int]);
        if ends_with_chars(lower.as_slice(), ext.as_slice()) {
            return true;
        }
        i = i + 1;
    }
    false
}

// ---------------------------------------------------------------------------
// Episode detection
// ---------------------------------------------------------------------------

pub const RANGE_SEASON_EPISODE: &'static str = r"(?i)S(?P<season>\d{1,2})[._\-\s]*E(?P<start>\d{1,4})[._\-\s]+(?:E)?(?P<end>\d{1,4})";
pub const RANGE_EPISODE: &'static str = r"(?i)(?:^|[^\p{L}\d])E(?:P)?[._\-\s]*(?P<start>\d{1,4})[._\-\s]+(?:E(?:P)?)?(?P<end>\d{1,4})";
pub const RANGE_COLLECTION: &'static str = r"第?\s*(?P<start>\d{1,4})\s*[-~～至到]\s*(?P<end>\d{1,4})\s*[集话話]?(?:合集)?";

pub const EPISODE_SEASON_EPISODE: &'static str = r"(?i)S(?P<season>\d{1,2})[._\-\s]*E(?P<episode>\d{1,4})";
pub const EPISODE_MARKER: &'static str = r"(?i)(?:^|[^\p{L}\d])EP?[._\-\s]*(?P<episode>\d{1,4})";
pub const EPISODE_SPECIAL_MARKER: &'static str = r"(?i)(?:^|[^\p{L}\d])(?:SP|OVA|OAD)[._\-\s]*(?P<episode>\d{1,4})(?:$|[^\p{L}\d])";
pub const EPISODE_CHINESE: &'static str = r"第\s*(?P<episode>\d{1,4})\s*[集话話期]";
pub const EPISODE_BRACKET: &'static str = r"[\[【]\s*(?P<episode>\d{1,4})\s*[\]】]";

pub const SPECIAL_MARKER: &'static str = r"(?i)(?:^|[^\p{L}\d])(?:SP|OVA|OAD)[._\-\s]*\d{1,4}(?:$|[^\p{L}\d])";

pub const NOISE_VIDEO_CODEC_NUMBER: &'static str = r"(?i)(?:^|[^\p{L}\d])(?:x|h)[._\-\s]*26[0-9](?:$|[^\p{L}\d])";
pub const NOISE_VIDEO_CODEC_NAME: &'static str = r"(?i)(?:^|[^\p{L}\d])(?:hevc|avc|xvid|divx)(?:$|[^\p{L}\d])";
pub const NOISE_AUDIO: &'static str = r"(?i)(?:^|[^\p{L}\d])(?:dd|ddp|dd+|eac-?3|ac-?3|dts(?:[._\-\s]*hd)?|truehd|atmos|flac|aac|opus)(?:[._\-\s]*\d)?(?:[._]\d)?(?:ch)?(?:$|[^\p{L}\d])";

/// Episode recognised in a file name.
#[derive(Debug, Clone, PartialEq)]
pub struct EpisodeInfo {
    pub episode: Option<i32>,
    pub season: Option<i32>,
}

/// Explainable episode recognition, for previews and diagnostics.
#[derive(Debug, Clone, PartialEq, Eq)]
pub struct EpisodeDetection {
    pub episode: Option<i32>,
    pub episodes: Vec<i32>,
    pub season: Option<i32>,
    pub special_kind: Option<&'static str>,
    pub method: &'static str,
    pub confidence: &'static str,
    pub reason: String,
}

/// The mathematical content of an [`EpisodeDetection`].
pub struct DetectionModel {
    pub episode: Option<i32>,
    pub episodes: Seq<i32>,
    pub season: Option<i32>,
    pub special_kind: Option<Seq<char>>,
    pub method: Seq<char>,
    pub confidence: Seq<char>,
    pub reason: Seq<char>,
}

impl View for EpisodeDetection {
    type V = DetectionModel;

    open spec fn view(&self) -> DetectionModel {
        DetectionModel {
            episode: self.episode,
            episodes: self.episodes@,
            season: self.season,
            special_kind: match self.special_kind {
                Some(k) => Some(k@),
                None => None,
            },
            method: self.method@,
            confidence: self.confidence@,
            reason: self.reason@,
        }
    }
}

pub open spec fn plausible_year(e: int) -> bool {
    1900 <= e && e <= 2099
}

/// Whether a bare number can stand for an episode: positive, not a year and not
/// a resolution.
pub open spec fn likely_fallback_episode(e: int) -> bool {
    e > 0 && !plausible_year(e) && e != 480 && e != 720 && e != 1080 && e != 2160 && e != 4320
}

pub open spec fn range_groups() -> Seq<Seq<char>> {
    seq!["season"@, "start"@, "end"@]
}

pub open spec fn episode_groups() -> Seq<Seq<char>> {
    seq!["episode"@, "season"@]
}

pub open spec fn positive_or_none(o: Option<i32>) -> Option<i32> {
    match o {
        Some(v) => if v > 0 {
            Some(v)
        } else {
            None
        },
        None => None,
    }
}

pub open spec fn zero_to_none(o: Option<i32>) -> Option<i32> {
    if o == Some(0i32) {
        None
    } else {
        o
    }
}

/// `start..=end`.
pub open spec fn episodes_between(start: int, end: int) -> Seq<i32> {
    Seq::new((end - start + 1) as nat, |i: int| (start + i) as i32)
}

pub open spec fn range_reason(method: Seq<char>, start: int, end: int) -> Seq<char> {
    "通过 "@ + method + " 识别为第 "@ + int_decimal(start) + "–"@ + int_decimal(end)
        + " 集多集文件"@
}

pub open spec fn explicit_reason(method: Seq<char>, episode: int) -> Seq<char> {
    "通过 "@ + method + " 明确格式识别到第 "@ + int_decimal(episode) + " 集"@
}

pub open spec fn fallback_reason(episode: int) -> Seq<char> {
    "未匹配明确标记，使用独立数字兜底识别为第 "@ + int_decimal(episode) + " 集"@
}

/// Multi-episode file named by the first match of a range pattern.
pub open spec fn range_detection(
    method: Seq<char>,
    pattern: Seq<char>,
    collection: bool,
    name: Seq<char>,
) -> Option<DetectionModel> {
    let ms = captures(pattern, name, range_groups());
    if ms.len() == 0 {
        None
    } else {
        let m = ms[0];
        match (opt_parse_i32(m[1]), opt_parse_i32(m[2])) {
            (Some(start), Some(end)) => if start > 0 && end >= start && end - start <= 100 && !(
            collection && plausible_year(start as int) && plausible_year(end as int)) {
                Some(
                    DetectionModel {
                        episode: Some(start),
                        episodes: episodes_between(start as int, end as int),
                        season: positive_or_none(opt_parse_i32(m[0])),
                        special_kind: None,
                        method,
                        confidence: "high"@,
                        reason: range_reason(method, start as int, end as int),
                    },
                )
            } else {
                None
            },
            _ => None,
        }
    }
}

/// `OVA`, `OAD` or `SP`, by what the upper-cased name contains.
pub open spec fn special_kind_of(name: Seq<char>) -> Seq<char> {
    let upper = ascii_upper_seq(name);
    if contains_seq(upper, "OVA"@) {
        "ova"@
    } else if contains_seq(upper, "OAD"@) {
        "oad"@
    } else {
        "sp"@
    }
}

/// Episode named by the first acceptable match of an explicit pattern.
pub open spec fn explicit_in(
    ms: Seq<Seq<Option<Seq<char>>>>,
    method: Seq<char>,
    special: bool,
    name: Seq<char>,
) -> Option<DetectionModel>
    decreases ms.len(),
{
    if ms.len() == 0 {
        None
    } else {
        let m = ms[0];
        let episode = opt_parse_i32(m[0]);
        match episode {
            Some(e) => if e > 0 && !plausible_year(e as int) {
                Some(
                    DetectionModel {
                        episode: Some(e),
                        episodes: seq![e],
                        season: zero_to_none(opt_parse_i32(m[1])),
                        special_kind: if special {
                            Some(special_kind_of(name))
                        } else {
                            None
                        },
                        method,
                        confidence: "high"@,
                        reason: explicit_reason(method, e as int),
                    },
                )
            } else {
                explicit_in(ms.drop_first(), method, special, name)
            },
            None => explicit_in(ms.drop_first(), method, special, name),
        }
    }
}

pub open spec fn explicit_detection(
    method: Seq<char>,
    pattern: Seq<char>,
    special: bool,
    name: Seq<char>,
) -> Option<DetectionModel> {
    explicit_in(captures(pattern, name, episode_groups()), method, special, name)
}

/// Separators between the parts of a name tried as a bare episode number.
pub open spec fn is_fallback_sep(c: char) -> bool {
    is_ws(c) || c == '.' || c == '_' || c == '-' || c == '[' || c == ']' || c == '(' || c == ')'
        || c == '【' || c == '】' || c == '（' || c == '）'
}

/// Pieces of `s` between fallback separators.
pub open spec fn split_fallback(s: Seq<char>) -> Seq<Seq<char>>
    decreases s.len(),
{
    if s.len() == 0 {
        seq![seq![]]
    } else {
        let rest = split_fallback(s.drop_last());
        if is_fallback_sep(s.last()) {
            rest.push(seq![])
        } else {
            rest.update(rest.len() - 1, rest.last().push(s.last()))
        }
    }
}

/// First all-digit part that is a plausible episode number.
pub open spec fn fallback_pick(parts: Seq<Seq<char>>) -> Option<i32>
    decreases parts.len(),
{
    if parts.len() == 0 {
        None
    } else {
        let p = parts[0];
        let here = if p.len() > 0 && all_digits(p) {
            match parse_i32_spec(p) {
                Some(v) => if likely_fallback_episode(v as int) {
                    Some(v)
                } else {
                    None
                },
                None => None,
            }
        } else {
            None
        };
        or_else(here, fallback_pick(parts.drop_first()))
    }
}

pub open spec fn leading_digit_count(s: Seq<char>) -> nat
    decreases s.len(),
{
    if s.len() > 0 && is_digit(s[0]) {
        1 + leading_digit_count(s.drop_first())
    } else {
        0
    }
}

/// Episode number the name starts with, unless it is followed by a
/// resolution suffix (`p`, `k`).
pub open spec fn leading_episode(s: Seq<char>) -> Option<i32> {
    let n = leading_digit_count(s);
    if n == 0 {
        None
    } else {
        let suffix = trim_start_seq(s.skip(n as int));
        if suffix.len() > 0 && (suffix[0] == 'p' || suffix[0] == 'P' || suffix[0] == 'k'
            || suffix[0] == 'K') {
            None
        } else {
            match parse_i32_spec(s.take(n as int)) {
                Some(v) => if likely_fallback_episode(v as int) {
                    Some(v)
                } else {
                    None
                },
                None => None,
            }
        }
    }
}

/// The file stem with codec and audio-channel noise removed.
pub open spec fn fallback_text(name: Seq<char>) -> Seq<char> {
    let stem = match file_stem_of(name) {
        Some(x) => x,
        None => name,
    };
    replaced(
        NOISE_AUDIO@,
        replaced(NOISE_VIDEO_CODEC_NAME@, replaced(NOISE_VIDEO_CODEC_NUMBER@, stem, ""@), ""@),
        ""@,
    )
}

/// Bare-number episode of a name without explicit markers.
pub open spec fn numeric_fallback(name: Seq<char>) -> Option<i32> {
    let stripped = fallback_text(name);
    or_else(fallback_pick(split_fallback(stripped)), leading_episode(stripped))
}

pub open spec fn unrecognized() -> DetectionModel {
    DetectionModel {
        episode: None,
        episodes: seq![],
        season: None,
        special_kind: None,
        method: "unrecognized"@,
        confidence: "none"@,
        reason: "未找到有效的季度或集数标记"@,
    }
}

pub open spec fn explicit_detections(name: Seq<char>) -> Option<DetectionModel> {
    or_else(
        explicit_detection("season_episode"@, EPISODE_SEASON_EPISODE@, false, name),
        or_else(
            explicit_detection("episode_marker"@, EPISODE_MARKER@, false, name),
            or_else(
                explicit_detection("special_marker"@, EPISODE_SPECIAL_MARKER@, true, name),
                or_else(
                    explicit_detection("chinese_episode"@, EPISODE_CHINESE@, false, name),
                    explicit_detection("bracket_number"@, EPISODE_BRACKET@, false, name),
                ),
            ),
        ),
    )
}

/// Recognition of a file name: multi-episode ranges first, then explicit
/// markers, then a bare number.
pub open spec fn detection_of(name: Seq<char>) -> DetectionModel {
    match or_else(
        range_detection("season_episode_range"@, RANGE_SEASON_EPISODE@, false, name),
        or_else(
            range_detection("episode_range"@, RANGE_EPISODE@, false, name),
            or_else(
                range_detection("collection_range"@, RANGE_COLLECTION@, true, name),
                explicit_detections(name),
            ),
        ),
    ) {
        Some(d) => d,
        None => match numeric_fallback(name) {
            Some(e) => DetectionModel {
                episode: Some(e),
                episodes: seq![e],
                season: None,
                special_kind: None,
                method: "numeric_fallback"@,
                confidence: "low"@,
                reason: fallback_reason(e as int),
            },
            None => unrecognized(),
        },
    }
}

pub open spec fn det_view(o: Option<EpisodeDetection>) -> Option<DetectionModel> {
    match o {
        Some(d) => Some(d@),
        None => None,
    }
}

fn range_reason_string(method: &str, start: i32, end: i32) -> (r: String)
    ensures
        r@ == range_reason(method@, start as int, end as int),
{
    let mut s = String::new();
    push_str(&mut s, "通过 ");
    push_str(&mut s, method);
    push_str(&mut s, " 识别为第 ");
    push_decimal(&mut s, start as i64);
    push_str(&mut s, "–");
    push_decimal(&mut s, end as i64);
    push_str(&mut s, " 集多集文件");
    s
}

fn explicit_reason_string(method: &str, episode: i32) -> (r: String)
    ensures
        r@ == explicit_reason(method@, episode as int),
{
    let mut s = String::new();
    push_str(&mut s, "通过 ");
    push_str(&mut s, method);
    push_str(&mut s, " 明确格式识别到第 ");
    push_decimal(&mut s, episode as i64);
    push_str(&mut s, " 集");
    s
}

fn fallback_reason_string(episode: i32) -> (r: String)
    ensures
        r@ == fallback_reason(episode as int),
{
    let mut s = String::new();
    push_str(&mut s, "未匹配明确标记，使用独立数字兜底识别为第 ");
    push_decimal(&mut s, episode as i64);
    push_str(&mut s, " 集");
    s
}

fn parse_capture(o: &Option<String>) -> (r: Option<i32>)
    ensures
        r == opt_parse_i32(opt_view(*o)),
{
    match o {
        Some(s) => parse_i32_str(s.as_str()),
        None => None,
    }
}

fn is_plausible_year(e: i32) -> (r: bool)
    ensures
        r == plausible_year(e as int),
{
    1900 <= e && e <= 2099
}

fn is_likely_numeric_fallback_episode(e: i32) -> (r: bool)
    ensures
        r == likely_fallback_episode(e as int),
{
    if e <= 0 {
        return false;
    }
    if 1900 <= e && e <= 2099 {
        return false;
    }
    !(e == 480 || e == 720 || e == 1080 || e == 2160 || e == 4320)
}

/// Multi-episode detection by one range pattern (first match only).
fn range_for(name: &str, method: &'static str, pattern: &str, collection: bool) -> (r: Option<
    EpisodeDetection,
>)
    ensures
        det_view(r) == range_detection(method@, pattern@, collection, name@),
{
    let groups: [&str; 3] = ["season", "start", "end"];
    let table = regex_capture_table(pattern, name, &groups);
    assert(groups@.len() == 3);
    assert(groups@.map_values(|g: &str| g@) =~= range_groups());
    if table.len() == 0 {
        return None;
    }
    let row = &table[0];
    assert(row@.len() == 3);
    let ghost m = captures_view(table@)[0];
    assert(m[0] == opt_view(row@[0]) && m[1] == opt_view(row@[1]) && m[2] == opt_view(row@[2]));
    let start = parse_capture(&row[0 + 1]);
    let end = parse_capture(&row[2]);
    match (start, end) {
        (Some(start), Some(end)) => {
            if start > 0 && end >= start && end - start <= 100 && !(collection
                && is_plausible_year(start) && is_plausible_year(end)) {
                let season = match parse_capture(&row[0]) {
                    Some(v) => if v > 0 {
                        Some(v)
                    } else {
                        None
                    },
                    None => None,
                };
                let mut episodes: Vec<i32> = Vec::new();
                let mut e: i64 = start as i64;
                while e <= end as i64
                    invariant
                        start <= e <= end + 1,
                        end - start <= 100,
                        start > 0,
                        episodes@ =~= episodes_between(start as int, (e - 1) as int),
                    decreases end + 1 - e,
                {
                    episodes.push(e as i32);
                    e = e + 1;
                }
                let reason = range_reason_string(method, start, end);
                Some(
                    EpisodeDetection {
                        episode: Some(start),
                        episodes,
                        season,
                        special_kind: None,
                        method,
                        confidence: "high",
                        reason,
                    },
                )
            } else {
                None
            }
        },
        _ => None,
    }
}

/// `ova`, `oad` or `sp`, by what the upper-cased name contains.
fn special_kind_for(name: &str) -> (r: Option<&'static str>)
    ensures
        r matches Some(k) && k@ == special_kind_of(name@),
{
    let v = chars_of(name);
    let upper = ascii_uppercase(v.as_slice());
    let ova = chars_of("OVA");
    let oad = chars_of("OAD");
    if contains_chars(upper.as_slice(), ova.as_slice()) {
        Some("ova")
    } else if contains_chars(upper.as_slice(), oad.as_slice()) {
        Some("oad")
    } else {
        Some("sp")
    }
}

/// Detection by one explicit pattern: the first match whose episode is
/// positive and not a year.
fn explicit_for(name: &str, method: &'static str, pattern: &str, special: bool) -> (r: Option<
    EpisodeDetection,
>)
    ensures
        det_view(r) == explicit_detection(method@, pattern@, special, name@),
{
    let groups: [&str; 2] = ["episode", "season"];
    let table = regex_capture_table(pattern, name, &groups);
    assert(groups@.len() == 2);
    assert(groups@.map_values(|g: &str| g@) =~= episode_groups());
    let ghost ms = captures_view(table@);
    let mut i: usize = 0;
    assert(ms.skip(0) =~= ms);
    while i < table.len()
        invariant
            i <= table.len(),
            ms == captures_view(table@),
            ms == captures(pattern@, name@, episode_groups()),
            forall|j: int| 0 <= j < table@.len() ==> (#[trigger] table@[j]).len() == 2,
            explicit_in(ms, method@, special, name@) == explicit_in(
                ms.skip(i as int),
                method@,
                special,
                name@,
            ),
        decreases table.len() - i,
    {
        let row = &table[i];
        let ghost m = ms[i as int];
        assert(table@[i as int].len() == 2);
        assert(m[0] == opt_view(row@[0]) && m[1] == opt_view(row@[1]));
        assert(ms.skip(i as int)[0] == m);
        assert(ms.skip(i as int).drop_first() =~= ms.skip(i + 1));
        let episode = parse_capture(&row[0]);
        match episode {
            Some(e) => {
                if e > 0 && !is_plausible_year(e) {
                    let season = match parse_capture(&row[1]) {
                        Some(v) => if v == 0 {
                            None
                        } else {
                            Some(v)
                        },
                        None => None,
                    };
                    let special_kind = if special {
                        special_kind_for(name)
                    } else {
                        None
                    };
                    let mut episodes: Vec<i32> = Vec::new();
                    episodes.push(e);
                    assert(episodes@ =~= seq![e]);
                    let reason = explicit_reason_string(method, e);
                    return Some(
                        EpisodeDetection {
                            episode: Some(e),
                            episodes,
                            season,
                            special_kind,
                            method,
                            confidence: "high",
                            reason,
                        },
                    );
                }
            },
            None => {},
        }
        i = i + 1;
    }
    None
}

fn is_fallback_sep_char(c: char) -> (r: bool)
    ensures
        r == is_fallback_sep(c),
{
    is_ws_char(c) || c == '.' || c == '_' || c == '-' || c == '[' || c == ']' || c == '(' || c
        == ')' || c == '【' || c == '】' || c == '（' || c == '）'
}

fn split_fallback_chars(v: &[char]) -> (r: Vec<Vec<char>>)
    ensures
        r@.map_values(|x: Vec<char>| x@) == split_fallback(v@),
{
    let mut done: Vec<Vec<char>> = Vec::new();
    let mut cur: Vec<char> = Vec::new();
    let mut i: usize = 0;
    assert(v@.take(0) =~= seq![]);
    while i < v.len()
        invariant
            i <= v.len(),
            split_fallback(v@.take(i as int)) == done@.map_values(|x: Vec<char>| x@).push(cur@),
        decreases v.len() - i,
    {
        let c = v[i];
        assert(v@.take(i + 1).drop_last() =~= v@.take(i as int));
        assert(v@.take(i + 1).last() == c);
        if is_fallback_sep_char(c) {
            let ghost before = done@.map_values(|x: Vec<char>| x@);
            let piece = cur;
            done.push(piece);
            cur = Vec::new();
            assert(done@.map_values(|x: Vec<char>| x@) =~= before.push(piece@));
        } else {
            let ghost before = done@.map_values(|x: Vec<char>| x@);
            let ghost old_cur = cur@;
            cur.push(c);
            assert(before.push(old_cur).update(before.len() as int, old_cur.push(c)) =~= before.push(
                cur@,
            ));
        }
        i = i + 1;
    }
    assert(v@.take(v.len() as int) =~= v@);
    let ghost before = done@.map_values(|x: Vec<char>| x@);
    done.push(cur);
    assert(done@.map_values(|x: Vec<char>| x@) =~= before.push(cur@));
    done
}

fn all_digit_chars(v: &[char]) -> (r: bool)
    ensures
        r == all_digits(v@),
{
    let mut i: usize = 0;
    while i < v.len()
        invariant
            i <= v.len(),
            forall|m: int| 0 <= m < i ==> is_digit(#[trigger] v@[m]),
        decreases v.len() - i,
    {
        if !is_digit_char(v[i]) {
            return false;
        }
        i = i + 1;
    }
    true
}

proof fn lemma_leading_count_step(s: Seq<char>, i: int)
    requires
        0 <= i < s.len(),
        is_digit(s[i]),
    ensures
        leading_digit_count(s.skip(i)) == 1 + leading_digit_count(s.skip(i + 1)),
{
    assert(s.skip(i).drop_first() =~= s.skip(i + 1));
}

/// Number the stem starts with, unless a resolution suffix follows it.
fn leading_numeric_episode(stem: &[char]) -> (r: Option<i32>)
    ensures
        r == leading_episode(stem@),
{
    let mut n: usize = 0;
    assert(stem@.skip(0) =~= stem@);
    while n < stem.len() && is_digit_char(stem[n])
        invariant
            n <= stem.len(),
            leading_digit_count(stem@) == n + leading_digit_count(stem@.skip(n as int)),
        decreases stem.len() - n,
    {
        proof {
            lemma_leading_count_step(stem@, n as int);
        }
        n = n + 1;
    }
    proof {
        if n < stem.len() {
            assert(stem@.skip(n as int)[0] == stem@[n as int]);
        }
        assert(leading_digit_count(stem@.skip(n as int)) == 0);
    }
    if n == 0 {
        return None;
    }
    let rest = slice_from(stem, n);
    let k = trim_start_index(rest.as_slice());
    if k < rest.len() {
        let c = rest[k];
        assert(trim_start_seq(stem@.skip(n as int))[0] == c);
        if c == 'p' || c == 'P' || c == 'k' || c == 'K' {
            return None;
        }
    }
    let digits = slice_to(stem, n);
    match parse_i32_chars(digits.as_slice()) {
        Some(v) => if is_likely_numeric_fallback_episode(v) {
            Some(v)
        } else {
            None
        },
        None => None,
    }
}

/// The characters from position `start` on.
fn slice_from(v: &[char], start: usize) -> (r: Vec<char>)
    requires
        start <= v@.len(),
    ensures
        r@ == v@.skip(start as int),
{
    let mut out: Vec<char> = Vec::new();
    let mut i: usize = start;
    while i < v.len()
        invariant
            start <= i <= v.len(),
            out@ == v@.subrange(start as int, i as int),
        decreases v.len() - i,
    {
        out.push(v[i]);
        assert(v@.subrange(start as int, i as int).push(v@[i as int]) =~= v@.subrange(
            start as int,
            i + 1,
        ));
        i = i + 1;
    }
    assert(v@.subrange(start as int, v.len() as int) =~= v@.skip(start as int));
    out
}

/// The first `end` characters.
fn slice_to(v: &[char], end: usize) -> (r: Vec<char>)
    requires
        end <= v@.len(),
    ensures
        r@ == v@.take(end as int),
{
    let mut out: Vec<char> = Vec::new();
    let mut i: usize = 0;
    while i < end
        invariant
            i <= end <= v.len(),
            out@ == v@.take(i as int),
        decreases end - i,
    {
        out.push(v[i]);
        assert(v@.take(i as int).push(v@[i as int]) =~= v@.take(i + 1));
        i = i + 1;
    }
    out
}

/// Bare-number episode: the stem without codec and audio noise, split at
/// separators, first part that is a plausible episode; else its leading
/// number.
fn numeric_fallback_episode(name: &str) -> (r: Option<i32>)
    ensures
        r == numeric_fallback(name@),
{
    let stem = match path_file_stem(name) {
        Some(x) => x,
        None => owned(name),
    };
    let a = regex_replace(NOISE_VIDEO_CODEC_NUMBER, stem.as_str(), "");
    let b = regex_replace(NOISE_VIDEO_CODEC_NAME, a.as_str(), "");
    let stripped_string = regex_replace(NOISE_AUDIO, b.as_str(), "");
    let stripped = chars_of(stripped_string.as_str());
    assert(stripped@ == fallback_text(name@));
    let parts = split_fallback_chars(stripped.as_slice());
    let ghost ps = split_fallback(stripped@);
    let mut i: usize = 0;
    assert(ps.skip(0) =~= ps);
    while i < parts.len()
        invariant
            i <= parts.len(),
            ps == parts@.map_values(|x: Vec<char>| x@),
            ps == split_fallback(stripped@),
            stripped@ == fallback_text(name@),
            fallback_pick(ps) == fallback_pick(ps.skip(i as int)),
        decreases parts.len() - i,
    {
        let part = &parts[i];
        assert(ps.skip(i as int)[0] == part@);
        assert(ps.skip(i as int).drop_first() =~= ps.skip(i + 1));
        if part.len() > 0 && all_digit_chars(part.as_slice()) {
            match parse_i32_chars(part.as_slice()) {
                Some(v) => {
                    if is_likely_numeric_fallback_episode(v) {
                        return Some(v);
                    }
                },
                None => {},
            }
        }
        i = i + 1;
    }
    assert(ps.skip(parts.len() as int).len() == 0);
    leading_numeric_episode(stripped.as_slice())
}

/// Recognises the episode (and season) of a file name, explaining how:
/// multi-episode ranges first, then explicit markers (`S01E05`, `EP08`, `SP01`,
/// `第12集`, `[05]`), then a bare number.
pub fn detect_episode_explained(name: &str) -> (r: EpisodeDetection)
    ensures
        r@ == detection_of(name@),
{
    let a = range_for(name, "season_episode_range", RANGE_SEASON_EPISODE, false);
    if let Some(d) = a {
        return d;
    }
    let b = range_for(name, "episode_range", RANGE_EPISODE, false);
    if let Some(d) = b {
        return d;
    }
    let c = range_for(name, "collection_range", RANGE_COLLECTION, true);
    if let Some(d) = c {
        return d;
    }
    let e1 = explicit_for(name, "season_episode", EPISODE_SEASON_EPISODE, false);
    if let Some(d) = e1 {
        return d;
    }
    let e2 = explicit_for(name, "episode_marker", EPISODE_MARKER, false);
    if let Some(d) = e2 {
        return d;
    }
    let e3 = explicit_for(name, "special_marker", EPISODE_SPECIAL_MARKER, true);
    if let Some(d) = e3 {
        return d;
    }
    let e4 = explicit_for(name, "chinese_episode", EPISODE_CHINESE, false);
    if let Some(d) = e4 {
        return d;
    }
    let e5 = explicit_for(name, "bracket_number", EPISODE_BRACKET, false);
    if let Some(d) = e5 {
        return d;
    }
    match numeric_fallback_episode(name) {
        Some(episode) => {
            let mut episodes: Vec<i32> = Vec::new();
            episodes.push(episode);
            assert(episodes@ =~= seq![episode]);
            EpisodeDetection {
                episode: Some(episode),
                episodes,
                season: None,
                special_kind: None,
                method: "numeric_fallback",
                confidence: "low",
                reason: fallback_reason_string(episode),
            }
        },
        None => {
            let episodes: Vec<i32> = Vec::new();
            assert(episodes@ =~= seq![]);
            EpisodeDetection {
                episode: None,
                episodes,
                season: None,
                special_kind: None,
                method: "unrecognized",
                confidence: "none",
                reason: owned("未找到有效的季度或集数标记"),
            }
        },
    }
}

/// Episode and season of a file name.
pub fn detect_episode(name: &str) -> (r: EpisodeInfo)
    ensures
        r.episode == detection_of(name@).episode,
        r.season == detection_of(name@).season,
{
    let detected = detect_episode_explained(name);
    EpisodeInfo { episode: detected.episode, season: detected.season }
}

// ---------------------------------------------------------------------------
// Episode keys
// ---------------------------------------------------------------------------

/// `(season, episode)` of a video file, the season defaulting to
/// `default_season` and being at least 1.
pub open spec fn video_key(name: Seq<char>, default_season: i32) -> Option<(i32, i32)> {
    if !is_video(name) {
        None
    } else {
        let d = detection_of(name);
        match d.episode {
            Some(e) => Some(
                (
                    max_i32(
                        match d.season {
                            Some(x) => x,
                            None => default_season,
                        },
                        1,
                    ),
                    e,
                ),
            ),
            None => None,
        }
    }
}

/// Whether a name carries an `SP`/`OVA`/`OAD` number.
pub open spec fn is_special(name: Seq<char>) -> bool {
    finds(SPECIAL_MARKER@, name)
}

/// Same-episode key of the check and transfer pipeline: specials have none.
pub open spec fn state_key(name: Seq<char>, default_season: i32) -> Option<(i32, i32)> {
    if is_special(name) {
        None
    } else {
        video_key(name, default_season)
    }
}

/// `(season, episode)` of a video file, or `None` when it is not a video or
/// has no recognisable episode.
pub fn episode_video_key(name: &str, default_season: i32) -> (r: Option<(i32, i32)>)
    ensures
        r == video_key(name@, default_season),
{
    if !is_video_name(name) {
        return None;
    }
    let info = detect_episode(name);
    let episode = match info.episode {
        Some(e) => e,
        None => {
            return None;
        },
    };
    let season = match info.season {
        Some(x) => x,
        None => default_season,
    };
    Some(
        (
            if season >= 1 {
                season
            } else {
                1
            },
            episode,
        ),
    )
}

/// Whether a name carries an `SP`/`OVA`/`OAD` number.
pub fn is_special_episode_name(name: &str) -> (r: bool)
    ensures
        r == is_special(name@),
{
    regex_matches(SPECIAL_MARKER, name)
}

/// Same-episode key of the check and transfer pipeline; specials get none so
/// that `SP01` never takes the slot of episode 1.
pub fn episode_state_key(name: &str, default_season: i32) -> (r: Option<(i32, i32)>)
    ensures
        r == state_key(name@, default_season),
{
    if is_special_episode_name(name) {
        return None;
    }
    episode_video_key(name, default_season)
}

// ---------------------------------------------------------------------------
// Subscription override
// ---------------------------------------------------------------------------

pub open spec fn override_groups() -> Seq<Seq<char>> {
    seq!["episode"@, "season"@]
}

pub open spec fn override_reason(episode: int) -> Seq<char> {
    "通过订阅覆盖正则识别为第 "@ + int_decimal(episode) + " 集"@
}

/// Recognition with a subscription's own episode pattern: the pattern (trimmed)
/// must compile and have an `episode` group; where it does not match, the
/// default recognition applies; where it matches, its `episode` capture must be
/// a positive number.
pub open spec fn override_detection(name: Seq<char>, override_regex: Seq<char>) -> Result<
    DetectionModel,
    Seq<char>,
> {
    let pattern = trim_seq(override_regex);
    if pattern.len() == 0 {
        Ok(detection_of(name))
    } else if !regex_compiles(pattern) {
        Err("episode_regex 无效："@ + regex_error_message(pattern))
    } else if !regex_group_names(pattern).contains("episode"@) {
        Err("episode_regex 必须包含命名捕获 (?P<episode>...)"@)
    } else {
        let ms = regex_captures(pattern, name, override_groups());
        if ms.len() == 0 {
            Ok(detection_of(name))
        } else {
            match positive_or_none(opt_parse_i32(ms[0][0])) {
                Some(e) => Ok(
                    DetectionModel {
                        episode: Some(e),
                        episodes: seq![e],
                        season: positive_or_none(opt_parse_i32(ms[0][1])),
                        special_kind: None,
                        method: "subscription_override"@,
                        confidence: "high"@,
                        reason: override_reason(e as int),
                    },
                ),
                None => Err("episode_regex 的 episode 捕获不是有效正整数"@),
            }
        }
    }
}

fn contains_name(names: &Vec<String>, wanted: &str) -> (r: bool)
    ensures
        r == views(names@).contains(wanted@),
{
    let mut i: usize = 0;
    while i < names.len()
        invariant
            i <= names.len(),
            forall|m: int| 0 <= m < i ==> views(names@)[m] != wanted@,
        decreases names.len() - i,
    {
        if str_eq(names[i].as_str(), wanted) {
            assert(views(names@)[i as int] == wanted@);
            return true;
        }
        i = i + 1;
    }
    false
}

/// Recognition with a subscription-level pattern that must name an `episode`
/// group (and may name `season`); an empty pattern or one that does not match
/// falls back to [`detect_episode_explained`].
pub fn detect_episode_with_override(name: &str, override_regex: &str) -> (r: Result<
    EpisodeDetection,
    String,
>)
    ensures
        match r {
            Ok(d) => override_detection(name@, override_regex@) == Ok::<DetectionModel, Seq<char>>(
                d@,
            ),
            Err(e) => override_detection(name@, override_regex@) == Err::<DetectionModel, Seq<
                char,
            >>(e@),
        },
{
    let trimmed = trim_str(override_regex);
    if trimmed.len() == 0 {
        return Ok(detect_episode_explained(name));
    }
    let pattern = string_of(trimmed.as_slice());
    let names = match regex_named_groups(pattern.as_str()) {
        Ok(names) => names,
        Err(error) => {
            let mut message = owned("episode_regex 无效：");
            push_str(&mut message, error.as_str());
            return Err(message);
        },
    };
    if !contains_name(&names, "episode") {
        return Err(owned("episode_regex 必须包含命名捕获 (?P<episode>...)"));
    }
    let groups: [&str; 2] = ["episode", "season"];
    let table = regex_capture_table(pattern.as_str(), name, &groups);
    assert(groups@.len() == 2);
    assert(groups@.map_values(|g: &str| g@) =~= override_groups());
    if table.len() == 0 {
        return Ok(detect_episode_explained(name));
    }
    let row = &table[0];
    assert(row@.len() == 2);
    let ghost m = captures_view(table@)[0];
    assert(m[0] == opt_view(row@[0]) && m[1] == opt_view(row@[1]));
    let episode = match parse_capture(&row[0]) {
        Some(v) => if v > 0 {
            v
        } else {
            return Err(owned("episode_regex 的 episode 捕获不是有效正整数"));
        },
        None => {
            return Err(owned("episode_regex 的 episode 捕获不是有效正整数"));
        },
    };
    let season = match parse_capture(&row[1]) {
        Some(v) => if v > 0 {
            Some(v)
        } else {
            None
        },
        None => None,
    };
    let mut episodes: Vec<i32> = Vec::new();
    episodes.push(episode);
    assert(episodes@ =~= seq![episode]);
    let mut reason = owned("通过订阅覆盖正则识别为第 ");
    push_decimal(&mut reason, episode as i64);
    push_str(&mut reason, " 集");
    Ok(
        EpisodeDetection {
            episode: Some(episode),
            episodes,
            season,
            special_kind: None,
            method: "subscription_override",
            confidence: "high",
            reason,
        },
    )
}

/// The state key under a subscription-level override pattern; an invalid
/// override falls back to the default recognition.
pub open spec fn state_key_with_override(
    name: Seq<char>,
    default_season: i32,
    override_regex: Seq<char>,
) -> Option<(i32, i32)> {
    if is_special(name) || !is_video(name) {
        None
    } else {
        let d = match override_detection(name, override_regex) {
            Ok(d) => d,
            Err(_) => detection_of(name),
        };
        match d.episode {
            Some(e) => Some(
                (
                    max_i32(
                        match d.season {
                            Some(x) => x,
                            None => default_season,
                        },
                        1,
                    ),
                    e,
                ),
            ),
            None => None,
        }
    }
}

/// Like [`episode_state_key`], honouring a subscription-level override pattern.
pub fn episode_state_key_with_override(
    name: &str,
    default_season: i32,
    override_regex: &str,
) -> (r: Option<(i32, i32)>)
    ensures
        r == state_key_with_override(name@, default_season, override_regex@),
{
    if is_special_episode_name(name) {
        return None;
    }
    if !is_video_name(name) {
        return None;
    }
    let detected = match detect_episode_with_override(name, override_regex) {
        Ok(detected) => detected,
        Err(_) => detect_episode_explained(name),
    };
    let episode = match detected.episode {
        Some(e) => e,
        None => {
            return None;
        },
    };
    let season = match detected.season {
        Some(x) => x,
        None => default_season,
    };
    Some(
        (
            if season >= 1 {
                season
            } else {
                1
            },
            episode,
        ),
    )
}

// ---------------------------------------------------------------------------
// Duplicate episodes
// ---------------------------------------------------------------------------

pub const QUALITY_8K: &'static str = r"(?i)(?:^|[^\p{L}\d])(?:8k|4320p)(?:$|[^\p{L}\d])";
pub const QUALITY_4K: &'static str = r"(?i)(?:^|[^\p{L}\d])(?:4k|2160p)(?:$|[^\p{L}\d])";
pub const QUALITY_2K: &'static str = r"(?i)(?:^|[^\p{L}\d])(?:2k|1440p)(?:$|[^\p{L}\d])";
pub const QUALITY_1080P: &'static str = r"(?i)(?:^|[^\p{L}\d])1080p(?:$|[^\p{L}\d])";
pub const QUALITY_720P: &'static str = r"(?i)(?:^|[^\p{L}\d])720p(?:$|[^\p{L}\d])";
pub const QUALITY_480P: &'static str = r"(?i)(?:^|[^\p{L}\d])480p(?:$|[^\p{L}\d])";

pub const FILE_TIME_FORMAT: &'static str = "%Y-%m-%d %H:%M:%S";

/// A file competing for an episode slot.
#[derive(Debug, Clone, Copy)]
pub struct EpisodeDuplicateCandidate<'a> {
    pub name: &'a str,
    pub size: i64,
    pub updated_at: Option<&'a str>,
    pub order: usize,
}

/// Canonical name of a duplicate-episode strategy; unknown names mean
/// `highest_quality`.
pub open spec fn strategy_of(strategy: Seq<char>) -> Seq<char> {
    let key = ascii_lower_seq(trim_seq(strategy));
    if key == "latest_upload"@ || key == "latest_uploaded"@ || key == "latest_time"@ || key
        == "latest"@ || key == "newest"@ {
        "latest_upload"@
    } else if key == "largest_size"@ || key == "size"@ || key == "biggest"@ {
        "largest_size"@
    } else if key == "first"@ || key == "first_seen"@ {
        "first"@
    } else {
        "highest_quality"@
    }
}

/// Resolution score of a name: the vertical resolution of the first tag found,
/// from 8K down to 480p, else 0.
pub open spec fn quality_score(name: Seq<char>) -> i64 {
    if finds(QUALITY_8K@, name) {
        4320
    } else if finds(QUALITY_4K@, name) {
        2160
    } else if finds(QUALITY_2K@, name) {
        1440
    } else if finds(QUALITY_1080P@, name) {
        1080
    } else if finds(QUALITY_720P@, name) {
        720
    } else if finds(QUALITY_480P@, name) {
        480
    } else {
        0
    }
}

/// Unix seconds of a file time: an integer (milliseconds above 10^10 are
/// divided by 1000), an RFC 3339 date-time or `%Y-%m-%d %H:%M:%S`; else 0.
pub open spec fn file_time_score(value: Option<Seq<char>>) -> i64 {
    match value {
        None => 0,
        Some(v) => {
            let t = trim_seq(v);
            if t.len() == 0 {
                0
            } else {
                match parse_i64_spec(t) {
                    Some(ts) => if ts > 10_000_000_000 {
                        (ts / 1000) as i64
                    } else {
                        ts
                    },
                    None => match rfc3339_seconds(t) {
                        Some(x) => x,
                        None => match naive_utc_seconds(t, FILE_TIME_FORMAT@) {
                            Some(x) => x,
                            None => 0,
                        },
                    },
                }
            }
        },
    }
}

pub open spec fn candidate_view<'a>(c: EpisodeDuplicateCandidate<'a>) -> (
    Seq<char>,
    int,
    Option<Seq<char>>,
    int,
) {
    (
        c.name@,
        c.size as int,
        match c.updated_at {
            Some(u) => Some(u@),
            None => None,
        },
        c.order as int,
    )
}

/// Ranking keys of a candidate under a strategy, most significant first.
pub open spec fn candidate_scores(
    name: Seq<char>,
    size: int,
    updated_at: Option<Seq<char>>,
    order: int,
    strategy: Seq<char>,
) -> (int, int, int, int) {
    let quality = quality_score(name) as int;
    let time = file_time_score(updated_at) as int;
    let size = if size > 0 {
        size
    } else {
        0
    };
    let first_order = -order;
    let s = strategy_of(strategy);
    if s == "latest_upload"@ {
        (time, quality, size, first_order)
    } else if s == "largest_size"@ {
        (size, quality, time, first_order)
    } else if s == "first"@ {
        (first_order, quality, size, time)
    } else {
        (quality, size, time, first_order)
    }
}

/// Lexicographic `>` on ranking keys.
pub open spec fn keys_greater(a: (int, int, int, int), b: (int, int, int, int)) -> bool {
    a.0 > b.0 || (a.0 == b.0 && (a.1 > b.1 || (a.1 == b.1 && (a.2 > b.2 || (a.2 == b.2 && a.3
        > b.3)))))
}

/// Canonical name of a duplicate-episode strategy.
pub fn normalize_duplicate_episode_strategy(strategy: &str) -> (r: &'static str)
    ensures
        r@ == strategy_of(strategy@),
{
    let trimmed = trim_str(strategy);
    let key = ascii_lowercase(trimmed.as_slice());
    let k = key.as_slice();
    if chars_eq(k, chars_of("latest_upload").as_slice()) || chars_eq(
        k,
        chars_of("latest_uploaded").as_slice(),
    ) || chars_eq(k, chars_of("latest_time").as_slice()) || chars_eq(
        k,
        chars_of("latest").as_slice(),
    ) || chars_eq(k, chars_of("newest").as_slice()) {
        "latest_upload"
    } else if chars_eq(k, chars_of("largest_size").as_slice()) || chars_eq(
        k,
        chars_of("size").as_slice(),
    ) || chars_eq(k, chars_of("biggest").as_slice()) {
        "largest_size"
    } else if chars_eq(k, chars_of("first").as_slice()) || chars_eq(
        k,
        chars_of("first_seen").as_slice(),
    ) {
        "first"
    } else {
        "highest_quality"
    }
}

/// Resolution score of a file name (4320, 2160, 1440, 1080, 720, 480 or 0).
pub fn episode_quality_score(name: &str) -> (r: i64)
    ensures
        r == quality_score(name@),
{
    if regex_matches(QUALITY_8K, name) {
        4320
    } else if regex_matches(QUALITY_4K, name) {
        2160
    } else if regex_matches(QUALITY_2K, name) {
        1440
    } else if regex_matches(QUALITY_1080P, name) {
        1080
    } else if regex_matches(QUALITY_720P, name) {
        720
    } else if regex_matches(QUALITY_480P, name) {
        480
    } else {
        0
    }
}

/// Unix seconds of a file's update time, 0 where it cannot be read.
pub fn parse_file_time_score(value: Option<&str>) -> (r: i64)
    ensures
        r == file_time_score(
            match value {
                Some(v) => Some(v@),
                None => None,
            },
        ),
{
    let v = match value {
        Some(v) => v,
        None => {
            return 0;
        },
    };
    let trimmed = trim_str(v);
    if trimmed.len() == 0 {
        return 0;
    }
    match parse_i64_chars(trimmed.as_slice()) {
        Some(ts) => {
            return if ts > 10_000_000_000 {
                ts / 1000
            } else {
                ts
            };
        },
        None => {},
    }
    let text = string_of(trimmed.as_slice());
    match parse_rfc3339_seconds(text.as_str()) {
        Some(x) => {
            return x;
        },
        None => {},
    }
    match parse_naive_utc_seconds(text.as_str(), FILE_TIME_FORMAT) {
        Some(x) => x,
        None => 0,
    }
}

fn duplicate_candidate_scores(candidate: EpisodeDuplicateCandidate<'_>, strategy: &str) -> (r: (
    i64,
    i64,
    i64,
    i64,
))
    requires
        candidate.order <= i64::MAX,
    ensures
        (r.0 as int, r.1 as int, r.2 as int, r.3 as int) == candidate_scores(
            candidate_view(candidate).0,
            candidate_view(candidate).1,
            candidate_view(candidate).2,
            candidate_view(candidate).3,
            strategy@,
        ),
{
    let quality = episode_quality_score(candidate.name);
    let time = parse_file_time_score(candidate.updated_at);
    let size = if candidate.size > 0 {
        candidate.size
    } else {
        0
    };
    let first_order = -(candidate.order as i64);
    let s = normalize_duplicate_episode_strategy(strategy);
    if str_eq(s, "latest_upload") {
        (time, quality, size, first_order)
    } else if str_eq(s, "largest_size") {
        (size, quality, time, first_order)
    } else if str_eq(s, "first") {
        (first_order, quality, size, time)
    } else {
        (quality, size, time, first_order)
    }
}

/// Whether `candidate` should replace `current` for the same episode under
/// `strategy`: its ranking keys are lexicographically greater.
pub fn is_better_episode_duplicate_candidate(
    candidate: EpisodeDuplicateCandidate<'_>,
    current: EpisodeDuplicateCandidate<'_>,
    strategy: &str,
) -> (r: bool)
    requires
        candidate.order <= i64::MAX,
        current.order <= i64::MAX,
    ensures
        r == keys_greater(
            candidate_scores(
                candidate_view(candidate).0,
                candidate_view(candidate).1,
                candidate_view(candidate).2,
                candidate_view(candidate).3,
                strategy@,
            ),
            candidate_scores(
                candidate_view(current).0,
                candidate_view(current).1,
                candidate_view(current).2,
                candidate_view(current).3,
                strategy@,
            ),
        ),
{
    let a = duplicate_candidate_scores(candidate, strategy);
    let b = duplicate_candidate_scores(current, strategy);
    a.0 > b.0 || (a.0 == b.0 && (a.1 > b.1 || (a.1 == b.1 && (a.2 > b.2 || (a.2 == b.2 && a.3
        > b.3)))))
}

// ---------------------------------------------------------------------------
// Keywords and file rules
// ---------------------------------------------------------------------------

pub open spec fn is_word_sep(c: char) -> bool {
    c == ',' || c == '，' || c == '\n'
}

/// Pieces of `s` between keyword separators (`,`, `，`, newline).
pub open spec fn split_words_seq(s: Seq<char>) -> Seq<Seq<char>>
    decreases s.len(),
{
    if s.len() == 0 {
        seq![seq![]]
    } else {
        let rest = split_words_seq(s.drop_last());
        if is_word_sep(s.last()) {
            rest.push(seq![])
        } else {
            rest.update(rest.len() - 1, rest.last().push(s.last()))
        }
    }
}

/// The trimmed, non-empty pieces.
pub open spec fn kept_words(parts: Seq<Seq<char>>) -> Seq<Seq<char>>
    decreases parts.len(),
{
    if parts.len() == 0 {
        seq![]
    } else {
        let rest = kept_words(parts.drop_last());
        let t = trim_seq(parts.last());
        if t.len() > 0 {
            rest.push(t)
        } else {
            rest
        }
    }
}

/// Keywords of a list of keyword strings, in order.
pub open spec fn words_of(values: Seq<Seq<char>>) -> Seq<Seq<char>>
    decreases values.len(),
{
    if values.len() == 0 {
        seq![]
    } else {
        words_of(values.drop_last()) + kept_words(split_words_seq(values.last()))
    }
}

fn split_words_chars(v: &[char]) -> (r: Vec<Vec<char>>)
    ensures
        r@.map_values(|x: Vec<char>| x@) == split_words_seq(v@),
{
    let mut done: Vec<Vec<char>> = Vec::new();
    let mut cur: Vec<char> = Vec::new();
    let mut i: usize = 0;
    assert(v@.take(0) =~= seq![]);
    while i < v.len()
        invariant
            i <= v.len(),
            split_words_seq(v@.take(i as int)) == done@.map_values(|x: Vec<char>| x@).push(cur@),
        decreases v.len() - i,
    {
        let c = v[i];
        assert(v@.take(i + 1).drop_last() =~= v@.take(i as int));
        assert(v@.take(i + 1).last() == c);
        if c == ',' || c == '，' || c == '\n' {
            let ghost before = done@.map_values(|x: Vec<char>| x@);
            let piece = cur;
            done.push(piece);
            cur = Vec::new();
            assert(done@.map_values(|x: Vec<char>| x@) =~= before.push(piece@));
        } else {
            let ghost before = done@.map_values(|x: Vec<char>| x@);
            let ghost old_cur = cur@;
            cur.push(c);
            assert(before.push(old_cur).update(before.len() as int, old_cur.push(c)) =~= before.push(
                cur@,
            ));
        }
        i = i + 1;
    }
    assert(v@.take(v.len() as int) =~= v@);
    let ghost before = done@.map_values(|x: Vec<char>| x@);
    done.push(cur);
    assert(done@.map_values(|x: Vec<char>| x@) =~= before.push(cur@));
    done
}

/// Splits keyword strings at `,`, `，` and newlines, keeping the trimmed,
/// non-empty words in order.
pub fn split_words(value: &[String]) -> (r: Vec<String>)
    ensures
        views(r@) == words_of(views(value@)),
{
    let mut result: Vec<String> = Vec::new();
    let mut i: usize = 0;
    assert(views(value@).take(0) =~= seq![]);
    while i < value.len()
        invariant
            i <= value.len(),
            views(result@) == words_of(views(value@).take(i as int)),
        decreases value.len() - i,
    {
        let v = chars_of(value[i].as_str());
        let parts = split_words_chars(v.as_slice());
        let ghost ps = split_words_seq(value@[i as int]@);
        let ghost base = views(result@);
        let mut j: usize = 0;
        assert(ps.take(0) =~= seq![]);
        assert(base + kept_words(ps.take(0)) =~= base);
        while j < parts.len()
            invariant
                j <= parts.len(),
                ps == parts@.map_values(|x: Vec<char>| x@),
                views(result@) == base + kept_words(ps.take(j as int)),
            decreases parts.len() - j,
        {
            let t = trim_chars(parts[j].as_slice());
            assert(ps.take(j + 1).drop_last() =~= ps.take(j as int));
            assert(ps.take(j + 1).last() == parts@[j as int]@);
            if t.len() > 0 {
                let ghost before = views(result@);
                let w = string_of(t.as_slice());
                result.push(w);
                assert(views(result@) =~= before.push(t@));
                assert(base + kept_words(ps.take(j as int)).push(t@) =~= base + kept_words(ps.take(
                    j + 1,
                )));
            }
            j = j + 1;
        }
        assert(ps.take(parts.len() as int) =~= ps);
        assert(views(value@).take(i + 1).drop_last() =~= views(value@).take(i as int));
        assert(views(value@).take(i + 1).last() == value@[i as int]@);
        i = i + 1;
    }
    assert(views(value@).take(value.len() as int) =~= views(value@));
    result
}

/// Whether some keyword (lower-cased) occurs in the lower-cased text.
pub open spec fn any_keyword_in(lower: Seq<char>, keywords: Seq<Seq<char>>) -> bool {
    exists|i: int| 0 <= i < keywords.len() && contains_seq(lower, lowercase_of(#[trigger] keywords[i]))
}

/// File rule: some include keyword present (when any are given), no exclude
/// keyword present (both compared in lower case), and the pattern (when
/// given) compiles and matches.
pub open spec fn file_matches(
    name: Seq<char>,
    included: Seq<Seq<char>>,
    excluded: Seq<Seq<char>>,
    pattern: Seq<char>,
) -> bool {
    let lower = lowercase_of(name);
    &&& (included.len() == 0 || any_keyword_in(lower, included))
    &&& !any_keyword_in(lower, excluded)
    &&& (pattern.len() == 0 || finds(pattern, name))
}

fn any_keyword_exec(lower: &[char], keywords: &[String]) -> (r: bool)
    ensures
        r == any_keyword_in(lower@, views(keywords@)),
{
    let mut i: usize = 0;
    while i < keywords.len()
        invariant
            i <= keywords.len(),
            forall|m: int| 0 <= m < i ==> !contains_seq(lower@, lowercase_of(#[trigger] views(keywords@)[m])),
        decreases keywords.len() - i,
    {
        let kw = to_lowercase(keywords[i].as_str());
        let kw_chars = chars_of(kw.as_str());
        assert(views(keywords@)[i as int] == keywords@[i as int]@);
        if contains_chars(lower, kw_chars.as_slice()) {
            return true;
        }
        i = i + 1;
    }
    false
}

/// Keyword and pattern rule for a file name.
pub fn match_file(name: &str, include_keywords: &[String], exclude_keywords: &[String], regex: &str) -> (r:
    bool)
    ensures
        r == file_matches(name@, views(include_keywords@), views(exclude_keywords@), regex@),
{
    let lower_string = to_lowercase(name);
    let lower = chars_of(lower_string.as_str());
    if include_keywords.len() > 0 && !any_keyword_exec(lower.as_slice(), include_keywords) {
        return false;
    }
    if any_keyword_exec(lower.as_slice(), exclude_keywords) {
        return false;
    }
    let pattern = chars_of(regex);
    if pattern.len() > 0 {
        if !regex_matches(regex, name) {
            return false;
        }
    }
    true
}

/// A special (SP, OVA, OAD) takes no episode slot, so it never displaces a
/// regular episode with the same number.
pub proof fn specials_take_no_episode_slot(name: Seq<char>, default_season: i32)
    requires
        is_special(name),
    ensures
        state_key(name, default_season) is None,
{
}

/// `candidate` ranks above `current` under `strategy`, as
/// `is_better_episode_duplicate_candidate` decides.
pub open spec fn ranks_above<'a, 'b>(
    candidate: EpisodeDuplicateCandidate<'a>,
    current: EpisodeDuplicateCandidate<'b>,
    strategy: Seq<char>,
) -> bool {
    keys_greater(
        candidate_scores(
            candidate_view(candidate).0,
            candidate_view(candidate).1,
            candidate_view(candidate).2,
            candidate_view(candidate).3,
            strategy,
        ),
        candidate_scores(
            candidate_view(current).0,
            candidate_view(current).1,
            candidate_view(current).2,
            candidate_view(current).3,
            strategy,
        ),
    )
}

proof fn lemma_canonical_name_fixed(n: Seq<char>)
    requires
        n.len() > 0,
        forall|i: int| 0 <= i < n.len() ==> ('a' <= #[trigger] n[i] && n[i] <= 'z') || n[i] == '_',
    ensures
        ascii_lower_seq(trim_seq(n)) == n,
{
    assert(!is_ws(n[0]));
    assert(trim_start_seq(n) == n);
    assert(!is_ws(n.last())) by {
        assert(n.last() == n[n.len() - 1]);
    }
    assert(trim_end_seq(n) == n);
    assert(trim_seq(n) == n);
    assert(ascii_lower_seq(n) =~= n);
}

/// A strategy name always becomes one of the four canonical names, and a
/// canonical name stays as it is.
pub proof fn strategy_names_are_canonical(strategy: Seq<char>)
    ensures
        strategy_of(strategy) == "latest_upload"@ || strategy_of(strategy) == "largest_size"@
            || strategy_of(strategy) == "first"@ || strategy_of(strategy) == "highest_quality"@,
        strategy_of(strategy_of(strategy)) == strategy_of(strategy),
{
    reveal_strlit("latest_upload");
    reveal_strlit("latest_uploaded");
    reveal_strlit("latest_time");
    reveal_strlit("latest");
    reveal_strlit("newest");
    reveal_strlit("largest_size");
    reveal_strlit("size");
    reveal_strlit("biggest");
    reveal_strlit("first");
    reveal_strlit("first_seen");
    reveal_strlit("highest_quality");
    let n = strategy_of(strategy);
    lemma_canonical_name_fixed(n);
    assert("highest_quality"@[0] != "latest_uploaded"@[0]);
}

/// Ranking duplicates is a strict order: no candidate ranks above itself,
/// never two above each other, it is transitive, it decides between any two
/// candidates found at different places, and it is the same under a
/// strategy's canonical name.
pub proof fn duplicate_ranking_is_strict_order<'a, 'b, 'c>(
    x: EpisodeDuplicateCandidate<'a>,
    y: EpisodeDuplicateCandidate<'b>,
    z: EpisodeDuplicateCandidate<'c>,
    strategy: Seq<char>,
)
    ensures
        !ranks_above(x, x, strategy),
        ranks_above(x, y, strategy) ==> !ranks_above(y, x, strategy),
        ranks_above(x, y, strategy) && ranks_above(y, z, strategy) ==> ranks_above(x, z, strategy),
        x.order != y.order ==> ranks_above(x, y, strategy) || ranks_above(y, x, strategy),
        ranks_above(x, y, strategy) == ranks_above(x, y, strategy_of(strategy)),
{
    strategy_names_are_canonical(strategy);
}

} // verus!
