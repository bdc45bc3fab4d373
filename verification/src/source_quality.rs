//! Quality scoring of a share source: resolution, codecs, episodes, freshness
//! and risks read from its title and file list.
use vstd::prelude::*;
use crate::text::{
    all_digits, ascii_lower_seq, ascii_lowercase, chars_of, contains_chars, contains_seq,
    digits_value, is_digit, is_digit_char, string_of, trim_seq, trim_str, views,
};
use crate::clock::{millis_to_rfc3339, parse_rfc3339_millis, rfc3339_millis, rfc3339_of_millis};
use crate::model::SourceQuality;
use crate::episode::opt_parse_i32;
use crate::progress::{insert_sorted, strictly_sorted};
use crate::regex_ops::{captures, captures_view, finds, regex_capture_table, regex_matches};
use crate::text::{join_strings, joined, int_decimal, opt_view, owned, parse_i32_str, push_count, push_str, str_eq};

verus! {

// ---------------------------------------------------------------------------
// Constants
// ---------------------------------------------------------------------------

pub const EXT_MP4: &'static str = "mp4";
pub const EXT_MKV: &'static str = "mkv";
pub const EXT_AVI: &'static str = "avi";
pub const EXT_MOV: &'static str = "mov";
pub const EXT_WMV: &'static str = "wmv";
pub const EXT_FLV: &'static str = "flv";
pub const EXT_WEBM: &'static str = "webm";
pub const EXT_M4V: &'static str = "m4v";
pub const EXT_TS: &'static str = "ts";
pub const EXT_M2TS: &'static str = "m2ts";
pub const EXT_RMVB: &'static str = "rmvb";
pub const EXT_ISO: &'static str = "iso";

/// The word a file category must contain to mark a video.
pub const VIDEO_CATEGORY: &'static str = "video";

// ---------------------------------------------------------------------------
// Files
// ---------------------------------------------------------------------------

/// A file of a share, as far as scoring reads it.
#[derive(Debug, Clone, Default)]
pub struct SourceQualityFile {
    pub name: String,
    pub is_dir: bool,
    pub size: i64,
    pub updated_at: Option<String>,
    pub category: Option<String>,
}

/// What is known of a share when it is scored.
#[derive(Debug, Clone, Default)]
pub struct SourceQualityInput {
    pub title: String,
    pub datetime: String,
    pub validity: Option<bool>,
    pub probe_ok: Option<bool>,
    pub probe_file_count: usize,
    pub probe_episode_count: usize,
    pub files: Vec<SourceQualityFile>,
}

/// What scoring reads of a file.
pub struct FileView {
    pub name: Seq<char>,
    pub is_dir: bool,
    pub size: i64,
    pub updated_at: Option<Seq<char>>,
    pub category: Option<Seq<char>>,
}

/// What scoring reads of a share.
pub struct InputView {
    pub title: Seq<char>,
    pub datetime: Seq<char>,
    pub validity: Option<bool>,
    pub probe_ok: Option<bool>,
    pub probe_file_count: usize,
    pub probe_episode_count: usize,
    pub files: Seq<FileView>,
}

impl View for SourceQualityFile {
    type V = FileView;

    open spec fn view(&self) -> FileView {
        FileView {
            name: self.name@,
            is_dir: self.is_dir,
            size: self.size,
            updated_at: opt_view(self.updated_at),
            category: opt_view(self.category),
        }
    }
}

/// The views of a list of files.
pub open spec fn files_view(files: Seq<SourceQualityFile>) -> Seq<FileView> {
    files.map_values(|f: SourceQualityFile| f@)
}

impl View for SourceQualityInput {
    type V = InputView;

    open spec fn view(&self) -> InputView {
        InputView {
            title: self.title@,
            datetime: self.datetime@,
            validity: self.validity,
            probe_ok: self.probe_ok,
            probe_file_count: self.probe_file_count,
            probe_episode_count: self.probe_episode_count,
            files: files_view(self.files@),
        }
    }
}

/// Extensions (lower case, without the dot) of video files.
pub open spec fn source_video_exts() -> Seq<Seq<char>> {
    seq![
        EXT_MP4@,
        EXT_MKV@,
        EXT_AVI@,
        EXT_MOV@,
        EXT_WMV@,
        EXT_FLV@,
        EXT_WEBM@,
        EXT_M4V@,
        EXT_TS@,
        EXT_M2TS@,
        EXT_RMVB@,
        EXT_ISO@,
    ]
}

/// The text after the last `.`, if there is a `.` (`str::rsplit_once('.')`).
pub open spec fn last_dot_suffix(s: Seq<char>) -> Option<Seq<char>>
    decreases s.len(),
{
    if s.len() == 0 {
        None
    } else if s.last() == '.' {
        Some(seq![])
    } else {
        match last_dot_suffix(s.drop_last()) {
            Some(t) => Some(t.push(s.last())),
            None => None,
        }
    }
}

/// The lower-cased extension of a file name; empty when it has no `.`.
pub open spec fn extension_of(name: Seq<char>) -> Seq<char> {
    match last_dot_suffix(name) {
        Some(t) => ascii_lower_seq(t),
        None => seq![],
    }
}

/// Whether a category marks a video (`video` in it, in any ASCII case).
pub open spec fn category_is_video(category: Option<Seq<char>>) -> bool {
    match category {
        Some(c) => contains_seq(ascii_lower_seq(c), VIDEO_CATEGORY@),
        None => false,
    }
}

/// Whether a file is a video: not a directory, and either its category says so
/// or its extension is a video extension.
pub open spec fn is_video_file_spec(f: FileView) -> bool {
    !f.is_dir && (category_is_video(f.category) || source_video_exts().contains(
        extension_of(f.name),
    ))
}

/// The names of the video files, in order.
pub open spec fn video_names(files: Seq<FileView>) -> Seq<Seq<char>>
    decreases files.len(),
{
    if files.len() == 0 {
        seq![]
    } else {
        let rest = video_names(files.drop_last());
        if is_video_file_spec(files.last()) {
            rest.push(files.last().name)
        } else {
            rest
        }
    }
}

/// Sum of the sizes of the regular files, negative sizes counted as zero.
pub open spec fn size_total(files: Seq<FileView>) -> int
    decreases files.len(),
{
    if files.len() == 0 {
        0
    } else {
        size_total(files.drop_last()) + if files.last().is_dir || files.last().size < 0 {
            0
        } else {
            files.last().size as int
        }
    }
}

// ---------------------------------------------------------------------------
// Timestamps
// ---------------------------------------------------------------------------

/// Index of the first `c` in `s`, or `s.len()` when there is none.
pub open spec fn index_of_char(s: Seq<char>, c: char) -> int
    decreases s.len(),
{
    if s.len() == 0 {
        0
    } else if s[0] == c {
        0
    } else {
        1 + index_of_char(s.drop_first(), c)
    }
}

/// A plain decimal number: an optional sign, digits, and an optional `.`
/// followed by digits, with at least one digit in all. Gives whether it is
/// negative, the integer digits and the fraction digits.
pub open spec fn decimal_parts(t: Seq<char>) -> Option<(bool, Seq<char>, Seq<char>)> {
    let signed = t.len() > 0 && (t[0] == '-' || t[0] == '+');
    let body = if signed {
        t.drop_first()
    } else {
        t
    };
    let d = index_of_char(body, '.');
    let whole = body.take(d);
    let frac = if d < body.len() {
        body.skip(d + 1)
    } else {
        seq![]
    };
    if all_digits(whole) && all_digits(frac) && whole.len() + frac.len() > 0 {
        Some((signed && t[0] == '-', whole, frac))
    } else {
        None
    }
}

/// Whether every character is `0`.
pub open spec fn all_zeros(s: Seq<char>) -> bool {
    forall|i: int| 0 <= i < s.len() ==> s[i] == '0'
}

/// The first three fraction digits as milliseconds (missing digits are zeros).
pub open spec fn fraction_millis(frac: Seq<char>) -> int {
    digits_value((frac + seq!['0', '0', '0']).take(3))
}

/// A number read as a Unix time: below 10^12 in magnitude it counts seconds
/// and is turned into milliseconds (truncated toward zero); otherwise it
/// already counts milliseconds and is truncated to an integer, saturating at
/// the bounds of `i64`. Zero and non-numbers give `None`.
pub open spec fn numeric_millis(t: Seq<char>) -> Option<i64> {
    match decimal_parts(t) {
        Some((negative, whole, frac)) => {
            let w = digits_value(whole);
            if w == 0 && all_zeros(frac) {
                None
            } else {
                let magnitude = if w < 1_000_000_000_000 {
                    w * 1000 + fraction_millis(frac)
                } else {
                    w
                };
                if negative {
                    Some(
                        if magnitude > 0x8000_0000_0000_0000 {
                            i64::MIN
                        } else {
                            (-magnitude) as i64
                        },
                    )
                } else {
                    Some(
                        if magnitude > i64::MAX {
                            i64::MAX
                        } else {
                            magnitude as i64
                        },
                    )
                }
            }
        },
        None => None,
    }
}

/// A time stamp in milliseconds: a number (see `numeric_millis`), or else an
/// RFC 3339 date-time; nothing for blank text.
pub open spec fn timestamp_ms(v: Seq<char>) -> Option<i64> {
    let t = trim_seq(v);
    if t.len() == 0 {
        None
    } else {
        match numeric_millis(t) {
            Some(x) => Some(x),
            None => rfc3339_millis(t),
        }
    }
}

/// The later of two optional time stamps.
pub open spec fn later(a: Option<i64>, b: Option<i64>) -> Option<i64> {
    match (a, b) {
        (Some(x), Some(y)) => Some(
            if x >= y {
                x
            } else {
                y
            },
        ),
        (Some(x), None) => Some(x),
        (None, y) => y,
    }
}

/// The text of an optional string, empty when absent.
pub open spec fn opt_text(o: Option<Seq<char>>) -> Seq<char> {
    match o {
        Some(s) => s,
        None => seq![],
    }
}

/// The latest update time among the files.
pub open spec fn latest_file_stamp(files: Seq<FileView>) -> Option<i64>
    decreases files.len(),
{
    if files.len() == 0 {
        None
    } else {
        later(latest_file_stamp(files.drop_last()), timestamp_ms(opt_text(files.last().updated_at)))
    }
}

// ---------------------------------------------------------------------------
// Executable helpers
// ---------------------------------------------------------------------------

/// The lower-cased extension of a file name (`rsplit_once('.')`); empty when it
/// has no `.`.
fn extension_lower(name: &str) -> (r: Vec<char>)
    ensures
        r@ == extension_of(name@),
{
    let v = chars_of(name);
    let mut dot: usize = 0;
    let mut found = false;
    let mut i: usize = 0;
    while i < v.len()
        invariant
            i <= v.len(),
            dot < i || (!found && dot == 0),
            last_dot_suffix(v@.take(i as int)) == if found {
                Some(v@.subrange(dot + 1, i as int))
            } else {
                None::<Seq<char>>
            },
        decreases v.len() - i,
    {
        assert(v@.take(i + 1).drop_last() =~= v@.take(i as int));
        assert(v@.take(i + 1).last() == v@[i as int]);
        if v[i] == '.' {
            dot = i;
            found = true;
            assert(v@.subrange(dot + 1, i + 1) =~= seq![]);
        } else if found {
            assert(v@.subrange(dot + 1, i as int).push(v@[i as int]) =~= v@.subrange(
                dot + 1,
                i + 1,
            ));
        }
        i = i + 1;
    }
    assert(v@.take(v.len() as int) =~= v@);
    if found {
        let mut tail: Vec<char> = Vec::new();
        let mut k: usize = dot + 1;
        while k < v.len()
            invariant
                dot < v.len(),
                dot + 1 <= k <= v.len(),
                tail@ == v@.subrange(dot + 1, k as int),
            decreases v.len() - k,
        {
            tail.push(v[k]);
            assert(v@.subrange(dot + 1, k + 1) =~= v@.subrange(dot + 1, k as int).push(
                v@[k as int],
            ));
            k = k + 1;
        }
        ascii_lowercase(tail.as_slice())
    } else {
        Vec::new()
    }
}

/// Whether a file is a video file.
fn is_video_file(file: &SourceQualityFile) -> (r: bool)
    ensures
        r == is_video_file_spec(file@),
{
    if file.is_dir {
        return false;
    }
    match &file.category {
        Some(category) => {
            let lower = ascii_lowercase(chars_of(category.as_str()).as_slice());
            let word = chars_of(VIDEO_CATEGORY);
            if contains_chars(lower.as_slice(), word.as_slice()) {
                return true;
            }
        },
        None => {},
    }
    let ext = extension_lower(file.name.as_str());
    let exts: [&str; 12] = [
        EXT_MP4,
        EXT_MKV,
        EXT_AVI,
        EXT_MOV,
        EXT_WMV,
        EXT_FLV,
        EXT_WEBM,
        EXT_M4V,
        EXT_TS,
        EXT_M2TS,
        EXT_RMVB,
        EXT_ISO,
    ];
    assert(exts@.map_values(|e: &str| e@) =~= source_video_exts());
    let mut i: usize = 0;
    while i < 12
        invariant
            i <= 12,
            !file.is_dir,
            ext@ == extension_of(file.name@),
            exts@.map_values(|e: &str| e@) == source_video_exts(),
            forall|j: int| 0 <= j < i ==> source_video_exts()[j] != ext@,
        decreases 12 - i,
    {
        let e = chars_of(exts[i]);
        assert(exts@[i as int]@ == source_video_exts()[i as int]);
        if crate::text::chars_eq(e.as_slice(), ext.as_slice()) {
            assert(source_video_exts()[i as int] == ext@);
            assert(source_video_exts().contains(ext@));
            return true;
        }
        i = i + 1;
    }
    assert(!source_video_exts().contains(ext@));
    false
}

proof fn lemma_digits_value_push(s: Seq<char>, c: char)
    ensures
        digits_value(s.push(c)) == digits_value(s) * 10 + ((c as u32) - ('0' as u32)),
{
    assert(s.push(c).drop_last() =~= s);
}

proof fn lemma_digits_value_nonneg(s: Seq<char>)
    requires
        all_digits(s),
    ensures
        digits_value(s) >= 0,
    decreases s.len(),
{
    if s.len() > 0 {
        assert(all_digits(s.drop_last())) by {
            assert forall|i: int| 0 <= i < s.drop_last().len() implies is_digit(
                #[trigger] s.drop_last()[i],
            ) by {
                assert(s.drop_last()[i] == s[i]);
            }
        }
        lemma_digits_value_nonneg(s.drop_last());
        assert(is_digit(s[s.len() - 1]));
    }
}

proof fn lemma_index_of_char(s: Seq<char>, c: char, k: int)
    requires
        0 <= k <= s.len(),
        forall|j: int| 0 <= j < k ==> s[j] != c,
        k == s.len() || s[k] == c,
    ensures
        index_of_char(s, c) == k,
    decreases k,
{
    if k > 0 {
        assert forall|j: int| 0 <= j < k - 1 implies s.drop_first()[j] != c by {
            assert(s.drop_first()[j] == s[j + 1]);
        }
        if k < s.len() {
            assert(s.drop_first()[k - 1] == s[k]);
        }
        lemma_index_of_char(s.drop_first(), c, k - 1);
    }
}

/// Whether `v[lo..hi]` is all ASCII digits.
fn all_digits_in(v: &[char], lo: usize, hi: usize) -> (r: bool)
    requires
        lo <= hi <= v.len(),
    ensures
        r == all_digits(v@.subrange(lo as int, hi as int)),
{
    let mut i: usize = lo;
    while i < hi
        invariant
            lo <= i <= hi <= v.len(),
            forall|j: int| lo <= j < i ==> is_digit(v@[j]),
        decreases hi - i,
    {
        if !is_digit_char(v[i]) {
            assert(v@.subrange(lo as int, hi as int)[i - lo] == v@[i as int]);
            return false;
        }
        i = i + 1;
    }
    assert forall|j: int| 0 <= j < v@.subrange(lo as int, hi as int).len() implies is_digit(
        #[trigger] v@.subrange(lo as int, hi as int)[j],
    ) by {
        assert(v@.subrange(lo as int, hi as int)[j] == v@[lo + j]);
    }
    true
}

/// Whether `v[lo..hi]` is all `0`.
fn all_zeros_in(v: &[char], lo: usize, hi: usize) -> (r: bool)
    requires
        lo <= hi <= v.len(),
    ensures
        r == all_zeros(v@.subrange(lo as int, hi as int)),
{
    let mut i: usize = lo;
    while i < hi
        invariant
            lo <= i <= hi <= v.len(),
            forall|j: int| lo <= j < i ==> v@[j] == '0',
        decreases hi - i,
    {
        if v[i] != '0' {
            assert(v@.subrange(lo as int, hi as int)[i - lo] == v@[i as int]);
            return false;
        }
        i = i + 1;
    }
    assert forall|j: int| 0 <= j < v@.subrange(lo as int, hi as int).len() implies v@.subrange(
        lo as int,
        hi as int,
    )[j] == '0' by {
        assert(v@.subrange(lo as int, hi as int)[j] == v@[lo + j]);
    }
    true
}

/// The value of the digits `v[lo..hi]`, or `cap` where it exceeds `cap`.
fn digits_value_capped(v: &[char], lo: usize, hi: usize, cap: u128) -> (r: u128)
    requires
        lo <= hi <= v.len(),
        all_digits(v@.subrange(lo as int, hi as int)),
        cap <= 0x1_0000_0000_0000_0000,
    ensures
        r == if digits_value(v@.subrange(lo as int, hi as int)) > cap {
            cap as int
        } else {
            digits_value(v@.subrange(lo as int, hi as int))
        },
{
    let mut acc: u128 = 0;
    let mut capped = false;
    let mut i: usize = lo;
    assert(v@.subrange(lo as int, lo as int) =~= seq![]);
    while i < hi
        invariant
            lo <= i <= hi <= v.len(),
            cap <= 0x1_0000_0000_0000_0000,
            all_digits(v@.subrange(lo as int, hi as int)),
            capped ==> digits_value(v@.subrange(lo as int, i as int)) > cap,
            !capped ==> acc == digits_value(v@.subrange(lo as int, i as int)) && acc <= cap,
        decreases hi - i,
    {
        let c = v[i];
        assert(v@.subrange(lo as int, hi as int)[i - lo] == c);
        assert(is_digit(c));
        proof {
            lemma_digits_value_push(v@.subrange(lo as int, i as int), c);
            assert(v@.subrange(lo as int, i as int).push(c) =~= v@.subrange(lo as int, i + 1));
            assert(all_digits(v@.subrange(lo as int, i as int))) by {
                assert forall|j: int| 0 <= j < v@.subrange(lo as int, i as int).len() implies is_digit(
                    #[trigger] v@.subrange(lo as int, i as int)[j],
                ) by {
                    assert(v@.subrange(lo as int, i as int)[j] == v@.subrange(lo as int, hi as int)[j]);
                }
            }
            lemma_digits_value_nonneg(v@.subrange(lo as int, i as int));
        }
        if !capped {
            let next = acc * 10 + ((c as u32) - ('0' as u32)) as u128;
            if next > cap {
                capped = true;
            } else {
                acc = next;
            }
        }
        i = i + 1;
    }
    if capped {
        cap
    } else {
        acc
    }
}


/// `fraction_millis` of the digits `t[lo..]`.
fn fraction_millis_exec(t: &[char], frac_lo: usize) -> (r: u128)
    requires
        frac_lo <= t.len(),
        all_digits(t@.subrange(frac_lo as int, t.len() as int)),
    ensures
        r == fraction_millis(t@.subrange(frac_lo as int, t.len() as int)),
        r < 1000,
{
    let ghost frac = t@.subrange(frac_lo as int, t.len() as int);
    proof {
        if frac_lo < t.len() {
            assert(frac[0] == t@[frac_lo as int]);
        }
        if frac_lo + 1 < t.len() {
            assert(frac[1] == t@[frac_lo + 1]);
        }
        if frac_lo + 2 < t.len() {
            assert(frac[2] == t@[frac_lo + 2]);
        }
    }
    let f0: u128 = if frac_lo < t.len() {
        ((t[frac_lo] as u32) - ('0' as u32)) as u128
    } else {
        0
    };
    let f1: u128 = if t.len() - frac_lo > 1 {
        ((t[frac_lo + 1] as u32) - ('0' as u32)) as u128
    } else {
        0
    };
    let f2: u128 = if t.len() - frac_lo > 2 {
        ((t[frac_lo + 2] as u32) - ('0' as u32)) as u128
    } else {
        0
    };
    proof {
        let p = (frac + seq!['0', '0', '0']).take(3);
        assert(p.len() == 3);
        assert(frac_lo < t.len() ==> frac[0] == t@[frac_lo as int] && is_digit(frac[0]));
        assert(frac_lo + 1 < t.len() ==> frac[1] == t@[frac_lo + 1] && is_digit(frac[1]));
        assert(frac_lo + 2 < t.len() ==> frac[2] == t@[frac_lo + 2] && is_digit(frac[2]));
        assert(p[0] as u32 - '0' as u32 == f0);
        assert(p[1] as u32 - '0' as u32 == f1);
        assert(p[2] as u32 - '0' as u32 == f2);
        assert(p.take(0) =~= seq![]);
        lemma_digits_value_push(p.take(0), p[0]);
        assert(p.take(0).push(p[0]) =~= p.take(1));
        lemma_digits_value_push(p.take(1), p[1]);
        assert(p.take(1).push(p[1]) =~= p.take(2));
        lemma_digits_value_push(p.take(2), p[2]);
        assert(p.take(2).push(p[2]) =~= p);
        assert(fraction_millis(frac) == f0 * 100 + f1 * 10 + f2);
    }
    f0 * 100 + f1 * 10 + f2
}

/// `numeric_millis` on characters.
fn numeric_millis_exec(t: &[char]) -> (r: Option<i64>)
    ensures
        r == numeric_millis(t@),
{
    let signed = t.len() > 0 && (t[0] == '-' || t[0] == '+');
    let negative = signed && t[0] == '-';
    let start: usize = if signed {
        1
    } else {
        0
    };
    let ghost body = if signed {
        t@.drop_first()
    } else {
        t@
    };
    assert(body =~= t@.skip(start as int));
    let mut d: usize = start;
    while d < t.len() && t[d] != '.'
        invariant
            start <= d <= t.len(),
            forall|j: int| start <= j < d ==> t@[j] != '.',
        decreases t.len() - d,
    {
        d = d + 1;
    }
    proof {
        assert forall|j: int| 0 <= j < d - start implies body[j] != '.' by {
            assert(body[j] == t@[start + j]);
        }
        if d < t.len() {
            assert(body[d - start] == t@[d as int]);
        }
        lemma_index_of_char(body, '.', d - start);
        assert(body.take(d - start) =~= t@.subrange(start as int, d as int));
        if d < t.len() {
            assert(body.skip(d - start + 1) =~= t@.subrange(d + 1, t.len() as int));
        }
    }
    let frac_lo: usize = if d < t.len() {
        d + 1
    } else {
        t.len()
    };
    assert(d >= t.len() ==> t@.subrange(frac_lo as int, t.len() as int) =~= seq![]);
    let ghost whole = t@.subrange(start as int, d as int);
    let ghost frac = t@.subrange(frac_lo as int, t.len() as int);
    if !(all_digits_in(t, start, d) && all_digits_in(t, frac_lo, t.len()) && (d - start) + (t.len()
        - frac_lo) > 0) {
        return None;
    }
    assert(decimal_parts(t@) == Some((negative, whole, frac)));
    let w = digits_value_capped(t, start, d, 0x1_0000_0000_0000_0000);
    proof {
        lemma_digits_value_nonneg(whole);
    }
    if w == 0 && all_zeros_in(t, frac_lo, t.len()) {
        return None;
    }
    let fm = fraction_millis_exec(t, frac_lo);
    let magnitude: u128 = if w < 1_000_000_000_000 {
        w * 1000 + fm
    } else {
        w
    };
    if negative {
        if magnitude > 0x8000_0000_0000_0000 {
            Some(i64::MIN)
        } else {
            Some((-(magnitude as i128)) as i64)
        }
    } else {
        if magnitude > 0x7fff_ffff_ffff_ffff {
            Some(i64::MAX)
        } else {
            Some(magnitude as i64)
        }
    }
}

/// Reads a time stamp in milliseconds: a plain number (seconds below 10^12,
/// milliseconds from there on) or an RFC 3339 date-time.
fn parse_timestamp_ms(value: &str) -> (r: Option<i64>)
    ensures
        r == timestamp_ms(value@),
{
    let t = trim_str(value);
    if t.len() == 0 {
        return None;
    }
    match numeric_millis_exec(t.as_slice()) {
        Some(x) => Some(x),
        None => {
            let s = string_of(t.as_slice());
            parse_rfc3339_millis(s.as_str())
        },
    }
}

// ---------------------------------------------------------------------------
// Episodes
// ---------------------------------------------------------------------------

pub const EP_SEASON_EPISODE: &'static str = r"(?i)S\d{1,2}E(?P<episode>\d{1,4})";
pub const EP_MARKER: &'static str = r"(?i)(?:^|[\s._\-\[【(])EP?\s*(?P<episode>\d{1,4})(?:$|[\s._\-\]】)])";
pub const EP_CHINESE: &'static str = r"第\s*(?P<episode>\d{1,4})\s*[集话]";

pub open spec fn episode_group() -> Seq<Seq<char>> {
    seq!["episode"@]
}

/// The positive episode number a match captured, if any.
pub open spec fn row_episode(row: Seq<Option<Seq<char>>>) -> Option<i32> {
    if row.len() > 0 {
        match opt_parse_i32(row[0]) {
            Some(e) => if e > 0 {
                Some(e)
            } else {
                None
            },
            None => None,
        }
    } else {
        None
    }
}

/// The positive episode numbers of a list of matches, in order.
pub open spec fn row_episodes(rows: Seq<Seq<Option<Seq<char>>>>) -> Seq<i32>
    decreases rows.len(),
{
    if rows.len() == 0 {
        seq![]
    } else {
        let rest = row_episodes(rows.drop_last());
        match row_episode(rows.last()) {
            Some(e) => rest.push(e),
            None => rest,
        }
    }
}

/// The episode numbers one pattern finds in a name.
pub open spec fn pattern_episodes(pattern: Seq<char>, name: Seq<char>) -> Seq<i32> {
    row_episodes(captures(pattern, name, episode_group()))
}

/// The episode numbers of a file name: those of the first pattern that finds
/// any.
pub open spec fn name_episodes(name: Seq<char>) -> Seq<i32> {
    let a = pattern_episodes(EP_SEASON_EPISODE@, name);
    if a.len() > 0 {
        a
    } else {
        let b = pattern_episodes(EP_MARKER@, name);
        if b.len() > 0 {
            b
        } else {
            pattern_episodes(EP_CHINESE@, name)
        }
    }
}

/// Whether one of the names yields episode `e`.
pub open spec fn mentions_episode(names: Seq<Seq<char>>, e: i32) -> bool {
    exists|k: int| 0 <= k < names.len() && #[trigger] name_episodes(names[k]).contains(e)
}

/// The episode numbers one pattern finds in a name.
fn pattern_episodes_exec(pattern: &str, name: &str) -> (r: Vec<i32>)
    ensures
        r@ == pattern_episodes(pattern@, name@),
{
    let groups: [&str; 1] = ["episode"];
    let table = regex_capture_table(pattern, name, &groups);
    assert(groups@.len() == 1);
    assert(groups@.map_values(|g: &str| g@) =~= episode_group());
    let ghost ms = captures_view(table@);
    let mut out: Vec<i32> = Vec::new();
    let mut i: usize = 0;
    assert(ms.take(0) =~= seq![]);
    while i < table.len()
        invariant
            i <= table.len(),
            ms == captures_view(table@),
            ms == captures(pattern@, name@, episode_group()),
            forall|j: int| 0 <= j < table@.len() ==> (#[trigger] table@[j]).len() == 1,
            out@ == row_episodes(ms.take(i as int)),
        decreases table.len() - i,
    {
        let row = &table[i];
        assert(table@[i as int].len() == 1);
        let ghost m = ms[i as int];
        assert(m == row@.map_values(|o: Option<String>| opt_view(o)));
        assert(m[0] == opt_view(row@[0]));
        assert(ms.take(i + 1).drop_last() =~= ms.take(i as int));
        assert(ms.take(i + 1).last() == m);
        let parsed = match &row[0] {
            Some(text) => parse_i32_str(text.as_str()),
            None => None,
        };
        match parsed {
            Some(e) => {
                if e > 0 {
                    out.push(e);
                }
            },
            None => {},
        }
        i = i + 1;
    }
    assert(ms.take(table.len() as int) =~= ms);
    out
}

/// The episode numbers of a file name.
fn name_episodes_exec(name: &str) -> (r: Vec<i32>)
    ensures
        r@ == name_episodes(name@),
{
    let a = pattern_episodes_exec(EP_SEASON_EPISODE, name);
    if a.len() > 0 {
        return a;
    }
    let b = pattern_episodes_exec(EP_MARKER, name);
    if b.len() > 0 {
        return b;
    }
    pattern_episodes_exec(EP_CHINESE, name)
}

/// The distinct episode numbers of the video names, in increasing order.
fn infer_episodes(names: &[String]) -> (r: Vec<i32>)
    ensures
        strictly_sorted(r@),
        forall|e: i32| r@.contains(e) <==> mentions_episode(views(names@), e),
{
    let mut episodes: Vec<i32> = Vec::new();
    let mut i: usize = 0;
    while i < names.len()
        invariant
            i <= names.len(),
            strictly_sorted(episodes@),
            forall|e: i32| episodes@.contains(e) <==> mentions_episode(
                views(names@).take(i as int),
                e,
            ),
        decreases names.len() - i,
    {
        let found = name_episodes_exec(names[i].as_str());
        let ghost prefix = views(names@).take(i as int);
        let ghost next = views(names@).take(i + 1);
        assert(next[i as int] == names@[i as int]@);
        let mut j: usize = 0;
        while j < found.len()
            invariant
                j <= found.len(),
                strictly_sorted(episodes@),
                forall|e: i32| #![trigger episodes@.contains(e)] episodes@.contains(e) <==> (
                mentions_episode(prefix, e) || exists|m: int| 0 <= m < j && #[trigger] found@[m] == e),
            decreases found.len() - j,
        {
            let ghost before = episodes@;
            insert_sorted(&mut episodes, found[j]);
            assert forall|e: i32| episodes@.contains(e) <==> (mentions_episode(prefix, e)
                || exists|m: int| 0 <= m < j + 1 && #[trigger] found@[m] == e) by {
                assert(episodes@.contains(e) <==> (before.contains(e) || e == found@[j as int]));
                assert(before.contains(e) <==> (mentions_episode(prefix, e) || exists|m: int|
                    0 <= m < j && #[trigger] found@[m] == e));
                if e == found@[j as int] {
                    assert(found@[j as int] == e);
                }
                if exists|m: int| 0 <= m < j && #[trigger] found@[m] == e {
                    let m = choose|m: int| 0 <= m < j && #[trigger] found@[m] == e;
                    assert(found@[m] == e);
                }
                if exists|m: int| 0 <= m < j + 1 && #[trigger] found@[m] == e {
                    let m = choose|m: int| 0 <= m < j + 1 && #[trigger] found@[m] == e;
                    if m < j {
                        assert(exists|m: int| 0 <= m < j && #[trigger] found@[m] == e);
                    }
                }
            }
            j = j + 1;
        }
        assert forall|e: i32| episodes@.contains(e) <==> mentions_episode(next, e) by {
            if mentions_episode(next, e) {
                let k = choose|k: int| 0 <= k < next.len() && #[trigger] name_episodes(next[k]).contains(
                    e,
                );
                if k < i {
                    assert(prefix[k] == next[k]);
                    assert(mentions_episode(prefix, e));
                }
            }
            if mentions_episode(prefix, e) {
                let k = choose|k: int| 0 <= k < prefix.len() && #[trigger] name_episodes(prefix[k]).contains(
                    e,
                );
                assert(prefix[k] == next[k]);
                assert(mentions_episode(next, e));
            }
            if exists|m: int| 0 <= m < found.len() && #[trigger] found@[m] == e {
                let m = choose|m: int| 0 <= m < found.len() && #[trigger] found@[m] == e;
                assert(name_episodes(next[i as int]).contains(e));
                assert(mentions_episode(next, e));
            }
            if mentions_episode(next, e) && !mentions_episode(prefix, e) {
                let k = choose|k: int| 0 <= k < next.len() && #[trigger] name_episodes(next[k]).contains(
                    e,
                );
                if k == i {
                    let m = choose|m: int| 0 <= m < found@.len() && found@[m] == e;
                    assert(found@[m] == e);
                }
            }
        }
        i = i + 1;
    }
    assert(views(names@).take(names.len() as int) =~= views(names@));
    episodes
}

// ---------------------------------------------------------------------------
// Resolution, tags and risks
// ---------------------------------------------------------------------------

pub const RES_8K: &'static str = r"(?i)\b(?:8k|4320p)\b";
pub const RES_4K: &'static str = r"(?i)\b(?:4k|uhd|2160p)\b";
pub const RES_2K: &'static str = r"(?i)\b(?:1440p|2k)\b";
pub const RES_1080P: &'static str = r"(?i)\b(?:1080p?|fhd)\b";
pub const RES_720P: &'static str = r"(?i)\b(?:720p?|hd)\b";
pub const RES_SD: &'static str = r"(?i)\b(?:480p?|sd)\b";

pub const LABEL_8K: &'static str = "8K";
pub const LABEL_4K: &'static str = "4K";
pub const LABEL_2K: &'static str = "2K";
pub const LABEL_1080P: &'static str = "1080P";
pub const LABEL_720P: &'static str = "720P";
pub const LABEL_SD: &'static str = "SD";
pub const UNKNOWN_RESOLUTION: &'static str = "未知清晰度";

pub const PAT_DOLBY_VISION: &'static str = r"(?i)\b(?:dolby[ ._-]?vision|dovi|dv)\b";
pub const PAT_HDR: &'static str = r"(?i)\b(?:hdr10\+?|hdr)\b";
pub const PAT_AV1: &'static str = r"(?i)\bav1\b";
pub const PAT_H265: &'static str = r"(?i)\b(?:x265|h\.?265|hevc)\b";
pub const PAT_H264: &'static str = r"(?i)\b(?:x264|h\.?264|avc)\b";
pub const PAT_HIGH_AUDIO: &'static str = r"(?i)\b(?:atmos|truehd|dts[ ._-]?hd)\b";
pub const PAT_WEB: &'static str = r"(?i)\b(?:web[ ._-]?dl|webrip)\b";
pub const PAT_BLURAY: &'static str = r"(?i)\b(?:blu[ ._-]?ray|bdrip|remux)\b";
pub const PAT_ADVERTISING: &'static str = r"广告|推广|公众号|加群|解压密码|防失联";
pub const PAT_COLLECTION: &'static str = r"前\s*[一二三四五六七八九十\d]+\s*季|全\s*[一二三四五六七八九十\d]+\s*季|多季|合集|大合集";

pub const TAG_DOLBY_VISION: &'static str = "杜比视界";
pub const TAG_HDR: &'static str = "HDR";
pub const TAG_AV1: &'static str = "AV1";
pub const TAG_H265: &'static str = "H.265";
pub const TAG_H264: &'static str = "H.264";
pub const TAG_HIGH_AUDIO: &'static str = "高规格音轨";
pub const TAG_WEB: &'static str = "WEB";
pub const TAG_BLURAY: &'static str = "蓝光";
pub const EPISODE_TAG_SUFFIX: &'static str = " 集";

pub const RISK_INVALID_LINK: &'static str = "链接已失效";
pub const RISK_ADVERTISING: &'static str = "疑似广告内容";
pub const RISK_COLLECTION: &'static str = "合集或跨季风险";
pub const RISK_NO_VIDEO: &'static str = "未发现视频文件";

/// The resolution label a text names, with its score; `("", 0)` when none.
pub open spec fn resolution_of(text: Seq<char>) -> (Seq<char>, int) {
    if finds(RES_8K@, text) {
        (LABEL_8K@, 32)
    } else if finds(RES_4K@, text) {
        (LABEL_4K@, 28)
    } else if finds(RES_2K@, text) {
        (LABEL_2K@, 23)
    } else if finds(RES_1080P@, text) {
        (LABEL_1080P@, 19)
    } else if finds(RES_720P@, text) {
        (LABEL_720P@, 11)
    } else if finds(RES_SD@, text) {
        (LABEL_SD@, 4)
    } else {
        (seq![], 0)
    }
}

/// Appends `v` unless it is empty or already there.
pub open spec fn push_unique_spec(items: Seq<Seq<char>>, v: Seq<char>) -> Seq<Seq<char>> {
    if v.len() == 0 || items.contains(v) {
        items
    } else {
        items.push(v)
    }
}

/// The tags of a source, from its text and episode count.
pub open spec fn tags_of(text: Seq<char>, episode_count: int) -> Seq<Seq<char>> {
    let t0 = push_unique_spec(seq![], resolution_of(text).0);
    let t1 = if finds(PAT_DOLBY_VISION@, text) {
        push_unique_spec(t0, TAG_DOLBY_VISION@)
    } else if finds(PAT_HDR@, text) {
        push_unique_spec(t0, TAG_HDR@)
    } else {
        t0
    };
    let t2 = if finds(PAT_AV1@, text) {
        push_unique_spec(t1, TAG_AV1@)
    } else if finds(PAT_H265@, text) {
        push_unique_spec(t1, TAG_H265@)
    } else if finds(PAT_H264@, text) {
        push_unique_spec(t1, TAG_H264@)
    } else {
        t1
    };
    let t3 = if finds(PAT_HIGH_AUDIO@, text) {
        push_unique_spec(t2, TAG_HIGH_AUDIO@)
    } else {
        t2
    };
    let t4 = if finds(PAT_WEB@, text) {
        push_unique_spec(t3, TAG_WEB@)
    } else if finds(PAT_BLURAY@, text) {
        push_unique_spec(t3, TAG_BLURAY@)
    } else {
        t3
    };
    if episode_count > 0 {
        push_unique_spec(t4, int_decimal(episode_count) + EPISODE_TAG_SUFFIX@)
    } else {
        t4
    }
}

/// The risks of a source.
pub open spec fn risks_of(
    validity: Option<bool>,
    probe_ok: Option<bool>,
    text: Seq<char>,
    file_count: int,
    video_count: int,
) -> Seq<Seq<char>> {
    let r1 = if validity == Some(false) {
        push_unique_spec(seq![], RISK_INVALID_LINK@)
    } else {
        seq![]
    };
    let r2 = if finds(PAT_ADVERTISING@, text) {
        push_unique_spec(r1, RISK_ADVERTISING@)
    } else {
        r1
    };
    let r3 = if finds(PAT_COLLECTION@, text) {
        push_unique_spec(r2, RISK_COLLECTION@)
    } else {
        r2
    };
    if probe_ok == Some(true) && file_count > 0 && video_count == 0 {
        push_unique_spec(r3, RISK_NO_VIDEO@)
    } else {
        r3
    }
}

/// How many risks other than an invalid link there are.
pub open spec fn other_risk_count(risks: Seq<Seq<char>>) -> int
    decreases risks.len(),
{
    if risks.len() == 0 {
        0
    } else {
        other_risk_count(risks.drop_last()) + if risks.last() == RISK_INVALID_LINK@ {
            0int
        } else {
            1int
        }
    }
}

/// The resolution label of a text and its score.
fn resolution_info(text: &str) -> (r: (&'static str, i32))
    ensures
        r.0@ == resolution_of(text@).0,
        r.1 == resolution_of(text@).1,
{
    if regex_matches(RES_8K, text) {
        (LABEL_8K, 32)
    } else if regex_matches(RES_4K, text) {
        (LABEL_4K, 28)
    } else if regex_matches(RES_2K, text) {
        (LABEL_2K, 23)
    } else if regex_matches(RES_1080P, text) {
        (LABEL_1080P, 19)
    } else if regex_matches(RES_720P, text) {
        (LABEL_720P, 11)
    } else if regex_matches(RES_SD, text) {
        (LABEL_SD, 4)
    } else {
        let empty = "";
        proof {
            reveal_strlit("");
        }
        assert(empty@ =~= seq![]);
        (empty, 0)
    }
}

/// Whether `items` holds `value`.
fn has_tag(items: &Vec<String>, value: &str) -> (r: bool)
    ensures
        r == views(items@).contains(value@),
{
    let mut i: usize = 0;
    while i < items.len()
        invariant
            i <= items.len(),
            forall|j: int| 0 <= j < i ==> views(items@)[j] != value@,
        decreases items.len() - i,
    {
        if str_eq(items[i].as_str(), value) {
            assert(views(items@)[i as int] == value@);
            return true;
        }
        i = i + 1;
    }
    false
}

/// Appends `value` unless it is empty or already there.
fn push_unique(items: &mut Vec<String>, value: &str)
    ensures
        views(final(items)@) == push_unique_spec(views(old(items)@), value@),
{
    if value.is_empty() {
        return;
    }
    if has_tag(items, value) {
        return;
    }
    let ghost before = views(items@);
    items.push(owned(value));
    assert(views(items@) =~= before.push(value@));
}

/// The tags of a source.
fn collect_tags(text: &str, resolution: &str, episode_count: usize) -> (r: Vec<String>)
    requires
        resolution@ == resolution_of(text@).0,
    ensures
        views(r@) == tags_of(text@, episode_count as int),
{
    let mut tags: Vec<String> = Vec::new();
    assert(views(tags@) =~= seq![]);
    push_unique(&mut tags, resolution);
    if regex_matches(PAT_DOLBY_VISION, text) {
        push_unique(&mut tags, TAG_DOLBY_VISION);
    } else if regex_matches(PAT_HDR, text) {
        push_unique(&mut tags, TAG_HDR);
    }
    if regex_matches(PAT_AV1, text) {
        push_unique(&mut tags, TAG_AV1);
    } else if regex_matches(PAT_H265, text) {
        push_unique(&mut tags, TAG_H265);
    } else if regex_matches(PAT_H264, text) {
        push_unique(&mut tags, TAG_H264);
    }
    if regex_matches(PAT_HIGH_AUDIO, text) {
        push_unique(&mut tags, TAG_HIGH_AUDIO);
    }
    if regex_matches(PAT_WEB, text) {
        push_unique(&mut tags, TAG_WEB);
    } else if regex_matches(PAT_BLURAY, text) {
        push_unique(&mut tags, TAG_BLURAY);
    }
    if episode_count > 0 {
        let mut label = String::new();
        push_count(&mut label, episode_count);
        push_str(&mut label, EPISODE_TAG_SUFFIX);
        push_unique(&mut tags, label.as_str());
    }
    tags
}

/// The risks of a source.
fn collect_risks(
    validity: Option<bool>,
    probe_ok: Option<bool>,
    text: &str,
    file_count: usize,
    video_count: usize,
) -> (r: Vec<String>)
    ensures
        views(r@) == risks_of(validity, probe_ok, text@, file_count as int, video_count as int),
        r@.len() <= 4,
{
    let mut risks: Vec<String> = Vec::new();
    assert(views(risks@) =~= seq![]);
    if validity == Some(false) {
        push_unique(&mut risks, RISK_INVALID_LINK);
    }
    if regex_matches(PAT_ADVERTISING, text) {
        push_unique(&mut risks, RISK_ADVERTISING);
    }
    if regex_matches(PAT_COLLECTION, text) {
        push_unique(&mut risks, RISK_COLLECTION);
    }
    if probe_ok == Some(true) && file_count > 0 && video_count == 0 {
        push_unique(&mut risks, RISK_NO_VIDEO);
    }
    risks
}

/// How many risks other than an invalid link there are.
fn count_other_risks(risks: &Vec<String>) -> (r: usize)
    ensures
        r == other_risk_count(views(risks@)),
{
    let mut n: usize = 0;
    let mut i: usize = 0;
    assert(views(risks@).take(0) =~= seq![]);
    while i < risks.len()
        invariant
            i <= risks.len(),
            n == other_risk_count(views(risks@).take(i as int)),
            n <= i,
        decreases risks.len() - i,
    {
        assert(views(risks@).take(i + 1).drop_last() =~= views(risks@).take(i as int));
        assert(views(risks@).take(i + 1).last() == risks@[i as int]@);
        if !str_eq(risks[i].as_str(), RISK_INVALID_LINK) {
            n = n + 1;
        }
        i = i + 1;
    }
    assert(views(risks@).take(risks.len() as int) =~= views(risks@));
    n
}

// ---------------------------------------------------------------------------
// Score
// ---------------------------------------------------------------------------

/// Seven, thirty and one hundred eighty days, in milliseconds.
pub const WEEK_MS: i64 = 604_800_000;
pub const MONTH_MS: i64 = 2_592_000_000;
pub const HALF_YEAR_MS: i64 = 15_552_000_000;

pub const GRADE_FLAGSHIP: &'static str = "旗舰";
pub const GRADE_PREMIUM: &'static str = "优质";
pub const GRADE_CLEAR: &'static str = "清晰";
pub const GRADE_ORDINARY: &'static str = "普通";
pub const GRADE_CAUTION: &'static str = "谨慎";
pub const TONE_EXCELLENT: &'static str = "excellent";
pub const TONE_GOOD: &'static str = "good";
pub const TONE_FAIR: &'static str = "fair";
pub const TONE_MUTED: &'static str = "muted";
pub const TONE_DANGER: &'static str = "danger";

pub const REASON_EXCELLENT: &'static str = "综合质量优秀";
pub const REASON_HIGH: &'static str = "综合质量较高";
pub const REASON_VALID_LINK: &'static str = "分享链接探测有效";
pub const REASON_RESOLUTION_PREFIX: &'static str = "清晰度识别为 ";
pub const REASON_EPISODES_PREFIX: &'static str = "识别到 ";
pub const REASON_EPISODES_SUFFIX: &'static str = " 集视频";
pub const REASON_FRESH: &'static str = "最近 7 天有更新";
pub const REASON_NO_RISK: &'static str = "未发现明显风险";

/// At most the first `n` items.
pub open spec fn first_n<T>(s: Seq<T>, n: int) -> Seq<T> {
    if s.len() <= n {
        s
    } else {
        s.take(n)
    }
}

/// The text the quality markers are searched in: the title and the names of
/// the first thirty video files, separated by spaces.
pub open spec fn searchable_text(input: InputView) -> Seq<char> {
    joined(seq![input.title] + first_n(video_names(input.files), 30), " "@)
}

/// The link's validity: the given one, else the probe's outcome.
pub open spec fn validity_of(input: InputView) -> Option<bool> {
    match input.validity {
        Some(v) => Some(v),
        None => input.probe_ok,
    }
}

/// The larger of the probed file count and the number of listed files.
pub open spec fn file_count_of(input: InputView) -> int {
    if input.probe_file_count >= input.files.len() {
        input.probe_file_count as int
    } else {
        input.files.len() as int
    }
}

/// The episode numbers the video file names yield.
pub open spec fn episode_set(input: InputView) -> Set<i32> {
    Set::new(|e: i32| mentions_episode(video_names(input.files), e))
}

/// The larger of the probed episode count and the number of episodes found.
pub open spec fn episode_count_of(input: InputView) -> int {
    if input.probe_episode_count >= episode_set(input).len() {
        input.probe_episode_count as int
    } else {
        episode_set(input).len() as int
    }
}

/// The latest time stamp among the share's date and its files' dates.
pub open spec fn updated_ms(input: InputView) -> Option<i64> {
    later(timestamp_ms(input.datetime), latest_file_stamp(input.files))
}

/// Whether the update lies at most `span` milliseconds before `now`.
pub open spec fn within(updated: Option<i64>, now: i64, span: int) -> bool {
    match updated {
        Some(ts) => now - ts <= span,
        None => false,
    }
}

/// The bonus for the episode count: `min(11, 4 + (count as i32 + 5) / 6)`.
pub open spec fn episode_bonus(episode_count: int) -> int {
    let x = (episode_count as i32) as int + 5;
    let q = if x >= 0 {
        x / 6
    } else {
        -((-x) / 6)
    };
    if 4 + q < 11 {
        4 + q
    } else {
        11
    }
}

/// Points for the quality markers among the tags.
pub open spec fn tag_points(tags: Seq<Seq<char>>) -> int {
    (if tags.contains(TAG_DOLBY_VISION@) || tags.contains(TAG_HDR@) {
        7int
    } else {
        0int
    }) + (if tags.contains(TAG_AV1@) || tags.contains(TAG_H265@) {
        6int
    } else if tags.contains(TAG_H264@) {
        3int
    } else {
        0int
    }) + (if tags.contains(TAG_HIGH_AUDIO@) {
        5int
    } else {
        0int
    }) + (if tags.contains(TAG_BLURAY@) {
        5int
    } else if tags.contains(TAG_WEB@) {
        3int
    } else {
        0int
    })
}

/// Points for a recent update: within a week, a month or half a year.
pub open spec fn freshness_points(updated: Option<i64>, now: i64) -> int {
    if within(updated, now, WEEK_MS as int) {
        8
    } else if within(updated, now, MONTH_MS as int) {
        5
    } else if within(updated, now, HALF_YEAR_MS as int) {
        2
    } else {
        0
    }
}

/// The points of a source before clamping.
pub open spec fn score_points(
    res_score: int,
    validity: Option<bool>,
    tags: Seq<Seq<char>>,
    risks: Seq<Seq<char>>,
    video_count: int,
    episode_count: int,
    file_count: int,
    updated: Option<i64>,
    now: i64,
) -> int {
    24 + res_score + (match validity {
        Some(true) => 18int,
        None => 5int,
        Some(false) => -32int,
    }) + tag_points(tags) + (if video_count > 0 {
        7int
    } else {
        0int
    }) + (if episode_count > 0 {
        episode_bonus(episode_count)
    } else {
        0int
    }) + (if file_count > 0 {
        3int
    } else {
        0int
    }) + freshness_points(updated, now) - 9 * other_risk_count(risks)
}

/// The points clamped to `0..=100`, and at most 24 for an invalid link.
pub open spec fn capped_score(points: int, validity: Option<bool>) -> int {
    let s = if points < 0 {
        0
    } else if points > 100 {
        100
    } else {
        points
    };
    if validity == Some(false) && s > 24 {
        24
    } else {
        s
    }
}

pub open spec fn grade_of(score: int) -> Seq<char> {
    if score >= 85 {
        GRADE_FLAGSHIP@
    } else if score >= 70 {
        GRADE_PREMIUM@
    } else if score >= 55 {
        GRADE_CLEAR@
    } else if score >= 35 {
        GRADE_ORDINARY@
    } else {
        GRADE_CAUTION@
    }
}

pub open spec fn tone_of(score: int) -> Seq<char> {
    if score >= 85 {
        TONE_EXCELLENT@
    } else if score >= 70 {
        TONE_GOOD@
    } else if score >= 55 {
        TONE_FAIR@
    } else if score >= 35 {
        TONE_MUTED@
    } else {
        TONE_DANGER@
    }
}

/// The reasons to recommend a source, at most five.
pub open spec fn reasons_of(
    score: int,
    validity: Option<bool>,
    resolution: Seq<char>,
    episode_count: int,
    fresh: bool,
    risks: Seq<Seq<char>>,
) -> Seq<Seq<char>> {
    let a = if score >= 85 {
        seq![REASON_EXCELLENT@]
    } else if score >= 70 {
        seq![REASON_HIGH@]
    } else {
        seq![]
    };
    let b = if validity == Some(true) {
        a.push(REASON_VALID_LINK@)
    } else {
        a
    };
    let c = if resolution.len() > 0 {
        b.push(REASON_RESOLUTION_PREFIX@ + resolution)
    } else {
        b
    };
    let d = if episode_count > 0 {
        c.push(REASON_EPISODES_PREFIX@ + int_decimal(episode_count) + REASON_EPISODES_SUFFIX@)
    } else {
        c
    };
    let e = if fresh {
        d.push(REASON_FRESH@)
    } else {
        d
    };
    let f = if risks.len() == 0 {
        e.push(REASON_NO_RISK@)
    } else {
        e
    };
    first_n(f, 5)
}

/// The tags of a source.
pub open spec fn tags_for(input: InputView) -> Seq<Seq<char>> {
    tags_of(searchable_text(input), episode_count_of(input))
}

/// The risks of a source.
pub open spec fn risks_for(input: InputView) -> Seq<Seq<char>> {
    risks_of(
        validity_of(input),
        input.probe_ok,
        searchable_text(input),
        file_count_of(input),
        video_names(input.files).len() as int,
    )
}

/// The score of a source at time `now`.
pub open spec fn score_of(input: InputView, now: i64) -> int {
    capped_score(
        score_points(
            resolution_of(searchable_text(input)).1,
            validity_of(input),
            tags_for(input),
            risks_for(input),
            video_names(input.files).len() as int,
            episode_count_of(input),
            file_count_of(input),
            updated_ms(input),
            now,
        ),
        validity_of(input),
    )
}

/// `x` is the least element of `s`.
pub open spec fn is_least(s: Set<i32>, x: i32) -> bool {
    s.contains(x) && forall|y: i32| s.contains(y) ==> x <= y
}

/// `x` is the greatest element of `s`.
pub open spec fn is_greatest(s: Set<i32>, x: i32) -> bool {
    s.contains(x) && forall|y: i32| s.contains(y) ==> y <= x
}

/// `q` is the quality assessment of `input` at time `now`.
pub open spec fn assesses(q: SourceQuality, input: InputView, now: i64) -> bool {
    let text = searchable_text(input);
    let label = resolution_of(text).0;
    let score = score_of(input, now);
    let episodes = episode_set(input);
    &&& q.score as int == score
    &&& q.grade@ == grade_of(score)
    &&& q.tone@ == tone_of(score)
    &&& views(q.tags@) == first_n(tags_for(input), 6)
    &&& views(q.risks@) == risks_for(input)
    &&& q.resolution@ == (if label.len() == 0 {
        UNKNOWN_RESOLUTION@
    } else {
        label
    })
    &&& q.file_count == file_count_of(input)
    &&& q.video_count == video_names(input.files).len()
    &&& q.episode_count == episode_count_of(input)
    &&& episodes.finite()
    &&& match q.episode_start {
        Some(x) => is_least(episodes, x),
        None => episodes.is_empty(),
    }
    &&& match q.episode_end {
        Some(x) => is_greatest(episodes, x),
        None => episodes.is_empty(),
    }
    &&& q.total_size == size_total(input.files)
    &&& opt_view(q.updated_at) == match updated_ms(input) {
        Some(ts) => rfc3339_of_millis(ts),
        None => None,
    }
    &&& views(q.recommendation_reasons@) == reasons_of(
        score,
        validity_of(input),
        label,
        episode_count_of(input),
        within(updated_ms(input), now, WEEK_MS as int),
        risks_for(input),
    )
}

proof fn lemma_size_total_prefix(files: Seq<FileView>, k: int)
    requires
        0 <= k <= files.len(),
    ensures
        size_total(files.take(k)) <= size_total(files),
        size_total(files.take(k)) >= 0,
    decreases files.len(),
{
    if k == files.len() {
        assert(files.take(k) =~= files);
        lemma_size_total_nonneg(files);
    } else {
        lemma_size_total_prefix(files.drop_last(), k);
        assert(files.drop_last().take(k) =~= files.take(k));
    }
}

proof fn lemma_size_total_nonneg(files: Seq<FileView>)
    ensures
        size_total(files) >= 0,
    decreases files.len(),
{
    if files.len() > 0 {
        lemma_size_total_nonneg(files.drop_last());
    }
}

/// One pass over the files: the names of the video files, the total size of
/// the regular files, and the latest time stamp (starting from the share's
/// own date).
fn scan_files(files: &Vec<SourceQualityFile>, datetime: &str) -> (r: (Vec<String>, i64, Option<i64>))
    requires
        size_total(files_view(files@)) <= i64::MAX,
    ensures
        views(r.0@) == video_names(files_view(files@)),
        r.1 == size_total(files_view(files@)),
        r.2 == later(timestamp_ms(datetime@), latest_file_stamp(files_view(files@))),
{
    let mut names: Vec<String> = Vec::new();
    let mut total: i64 = 0;
    let first = parse_timestamp_ms(datetime);
    let mut latest = first;
    let mut i: usize = 0;
    assert(files_view(files@).take(0) =~= seq![]);
    assert(views(names@) =~= seq![]);
    while i < files.len()
        invariant
            i <= files.len(),
            size_total(files_view(files@)) <= i64::MAX,
            views(names@) == video_names(files_view(files@).take(i as int)),
            total == size_total(files_view(files@).take(i as int)),
            first == timestamp_ms(datetime@),
            latest == later(first, latest_file_stamp(files_view(files@).take(i as int))),
        decreases files.len() - i,
    {
        let file = &files[i];
        let ghost next = files_view(files@).take(i + 1);
        assert(next.drop_last() =~= files_view(files@).take(i as int));
        assert(next.last() == file@);
        proof {
            lemma_size_total_prefix(files_view(files@), i + 1);
        }
        if !file.is_dir && file.size > 0 {
            total = total + file.size;
        }
        if is_video_file(file) {
            let ghost before = views(names@);
            names.push(file.name.clone());
            assert(views(names@) =~= before.push(file.name@));
        }
        let stamp = match &file.updated_at {
            Some(text) => parse_timestamp_ms(text.as_str()),
            None => {
                assert(trim_seq(seq![]) =~= seq![]);
                None
            },
        };
        latest = match (latest, stamp) {
            (Some(a), Some(b)) => Some(
                if a >= b {
                    a
                } else {
                    b
                },
            ),
            (Some(a), None) => Some(a),
            (None, b) => b,
        };
        i = i + 1;
    }
    assert(files_view(files@).take(files.len() as int) =~= files_view(files@));
    (names, total, latest)
}

/// The title and the first thirty video names, separated by spaces.
fn searchable_text_exec(title: &String, names: &Vec<String>) -> (r: String)
    ensures
        r@ == joined(seq![title@] + first_n(views(names@), 30), " "@),
{
    let mut parts: Vec<String> = Vec::new();
    parts.push(title.clone());
    let mut k: usize = 0;
    assert(views(parts@) =~= seq![title@] + views(names@).take(0));
    while k < names.len() && k < 30
        invariant
            k <= names.len(),
            k <= 30,
            views(parts@) == seq![title@] + views(names@).take(k as int),
        decreases names.len() - k,
    {
        let ghost before = views(parts@);
        parts.push(names[k].clone());
        assert(views(parts@) =~= before.push(names@[k as int]@));
        assert(views(names@).take(k + 1) =~= views(names@).take(k as int).push(names@[k as int]@));
        k = k + 1;
    }
    if names.len() <= 30 {
        assert(views(names@).take(k as int) =~= views(names@));
    }
    join_strings(parts.as_slice(), " ")
}

/// Points for the quality markers among the tags.
fn tag_points_exec(tags: &Vec<String>) -> (r: i64)
    ensures
        r == tag_points(views(tags@)),
        0 <= r <= 23,
{
    let mut points: i64 = 0;
    if has_tag(tags, TAG_DOLBY_VISION) || has_tag(tags, TAG_HDR) {
        points = points + 7;
    }
    if has_tag(tags, TAG_AV1) || has_tag(tags, TAG_H265) {
        points = points + 6;
    } else if has_tag(tags, TAG_H264) {
        points = points + 3;
    }
    if has_tag(tags, TAG_HIGH_AUDIO) {
        points = points + 5;
    }
    if has_tag(tags, TAG_BLURAY) {
        points = points + 5;
    } else if has_tag(tags, TAG_WEB) {
        points = points + 3;
    }
    points
}

/// Points for a recent update.
fn freshness_points_exec(updated: Option<i64>, now_ms: i64) -> (r: i64)
    ensures
        r == freshness_points(updated, now_ms),
        0 <= r <= 8,
{
    match updated {
        Some(ts) => {
            let age: i128 = now_ms as i128 - ts as i128;
            if age <= WEEK_MS as i128 {
                8
            } else if age <= MONTH_MS as i128 {
                5
            } else if age <= HALF_YEAR_MS as i128 {
                2
            } else {
                0
            }
        },
        None => 0,
    }
}

/// The bonus for a positive episode count.
fn episode_bonus_exec(episode_count: usize) -> (r: i64)
    ensures
        r == episode_bonus(episode_count as int),
        r <= 11,
        r >= -400_000_000,
{
    let e32: i32 = episode_count as i32;
    let x: i64 = e32 as i64 + 5;
    let q: i64 = if x >= 0 {
        (x as u64 / 6) as i64
    } else {
        -(((-x) as u64 / 6) as i64)
    };
    if 4 + q < 11 {
        4 + q
    } else {
        11
    }
}

/// The score of a source from its parts.
fn score_value(
    res_score: i32,
    validity: Option<bool>,
    tags: &Vec<String>,
    risks: &Vec<String>,
    video_count: usize,
    episode_count: usize,
    file_count: usize,
    updated: Option<i64>,
    now_ms: i64,
) -> (r: u8)
    requires
        0 <= res_score <= 32,
        risks@.len() <= 4,
    ensures
        r as int == capped_score(
            score_points(
                res_score as int,
                validity,
                views(tags@),
                views(risks@),
                video_count as int,
                episode_count as int,
                file_count as int,
                updated,
                now_ms,
            ),
            validity,
        ),
{
    let validity_points: i64 = match validity {
        Some(true) => 18,
        None => 5,
        Some(false) => -32,
    };
    let tag_part = tag_points_exec(tags);
    let video_part: i64 = if video_count > 0 {
        7
    } else {
        0
    };
    let episode_part: i64 = if episode_count > 0 {
        episode_bonus_exec(episode_count)
    } else {
        0
    };
    let file_part: i64 = if file_count > 0 {
        3
    } else {
        0
    };
    let fresh_part = freshness_points_exec(updated, now_ms);
    let others = count_other_risks(risks);
    proof {
        lemma_other_risk_count_le(views(risks@));
    }
    let mut score: i64 = 24 + res_score as i64 + validity_points + tag_part + video_part
        + episode_part + file_part + fresh_part - (others as i64) * 9;
    if score < 0 {
        score = 0;
    }
    if score > 100 {
        score = 100;
    }
    if validity == Some(false) && score > 24 {
        score = 24;
    }
    score as u8
}

proof fn lemma_other_risk_count_le(risks: Seq<Seq<char>>)
    ensures
        0 <= other_risk_count(risks) <= risks.len(),
    decreases risks.len(),
{
    if risks.len() > 0 {
        lemma_other_risk_count_le(risks.drop_last());
    }
}

/// The grade and tone of a score.
fn grade_for(score: u8) -> (r: (&'static str, &'static str))
    ensures
        r.0@ == grade_of(score as int),
        r.1@ == tone_of(score as int),
{
    if score >= 85 {
        (GRADE_FLAGSHIP, TONE_EXCELLENT)
    } else if score >= 70 {
        (GRADE_PREMIUM, TONE_GOOD)
    } else if score >= 55 {
        (GRADE_CLEAR, TONE_FAIR)
    } else if score >= 35 {
        (GRADE_ORDINARY, TONE_MUTED)
    } else {
        (GRADE_CAUTION, TONE_DANGER)
    }
}

/// The reasons to recommend a source, at most five.
fn recommendation_reasons(
    score: u8,
    validity: Option<bool>,
    resolution: &str,
    episode_count: usize,
    fresh_within_week: bool,
    risks: &Vec<String>,
) -> (r: Vec<String>)
    ensures
        views(r@) == reasons_of(
            score as int,
            validity,
            resolution@,
            episode_count as int,
            fresh_within_week,
            views(risks@),
        ),
{
    let mut reasons: Vec<String> = Vec::new();
    let ghost r0 = views(reasons@);
    assert(r0 =~= seq![]);
    if score >= 85 {
        reasons.push(owned(REASON_EXCELLENT));
    } else if score >= 70 {
        reasons.push(owned(REASON_HIGH));
    }
    let ghost a = views(reasons@);
    if validity == Some(true) {
        reasons.push(owned(REASON_VALID_LINK));
        assert(views(reasons@) =~= a.push(REASON_VALID_LINK@));
    }
    let ghost b = views(reasons@);
    if !resolution.is_empty() {
        let mut line = owned(REASON_RESOLUTION_PREFIX);
        push_str(&mut line, resolution);
        reasons.push(line);
        assert(views(reasons@) =~= b.push(REASON_RESOLUTION_PREFIX@ + resolution@));
    }
    let ghost c = views(reasons@);
    if episode_count > 0 {
        let mut line = owned(REASON_EPISODES_PREFIX);
        push_count(&mut line, episode_count);
        push_str(&mut line, REASON_EPISODES_SUFFIX);
        reasons.push(line);
        assert(views(reasons@) =~= c.push(
            REASON_EPISODES_PREFIX@ + int_decimal(episode_count as int) + REASON_EPISODES_SUFFIX@,
        ));
    }
    let ghost d = views(reasons@);
    if fresh_within_week {
        reasons.push(owned(REASON_FRESH));
        assert(views(reasons@) =~= d.push(REASON_FRESH@));
    }
    let ghost e = views(reasons@);
    if risks.len() == 0 {
        reasons.push(owned(REASON_NO_RISK));
        assert(views(reasons@) =~= e.push(REASON_NO_RISK@));
    }
    let ghost f = views(reasons@);
    reasons.truncate(5);
    proof {
        if f.len() > 5 {
            assert(views(reasons@) =~= f.take(5));
        }
    }
    reasons
}

/// Scores a share source from its title, probe outcome and files, at time
/// `now_ms` (Unix milliseconds).
pub fn score_source(input: &SourceQualityInput, now_ms: i64) -> (q: SourceQuality)
    requires
        size_total(input@.files) <= i64::MAX,
    ensures
        assesses(q, input@, now_ms),
{
    let (names, total_size, updated) = scan_files(&input.files, input.datetime.as_str());
    let text = searchable_text_exec(&input.title, &names);
    let validity = match input.validity {
        Some(v) => Some(v),
        None => input.probe_ok,
    };
    let (resolution, resolution_score) = resolution_info(text.as_str());
    let file_count = if input.probe_file_count >= input.files.len() {
        input.probe_file_count
    } else {
        input.files.len()
    };
    let video_count = names.len();
    let episodes = infer_episodes(names.as_slice());
    proof {
        let set = episode_set(input@);
        assert(episodes@.to_set() =~= set) by {
            assert forall|e: i32| episodes@.to_set().contains(e) <==> set.contains(e) by {}
        }
        assert(episodes@.no_duplicates()) by {
            assert forall|a: int, b: int| 0 <= a < episodes@.len() && 0 <= b < episodes@.len() && a
                != b implies episodes@[a] != episodes@[b] by {
                if a < b {
                    assert(episodes@[a] < episodes@[b]);
                } else {
                    assert(episodes@[b] < episodes@[a]);
                }
            }
        }
        episodes@.unique_seq_to_set();
    }
    let episode_count = if input.probe_episode_count >= episodes.len() {
        input.probe_episode_count
    } else {
        episodes.len()
    };
    let tags = collect_tags(text.as_str(), resolution, episode_count);
    let risks = collect_risks(validity, input.probe_ok, text.as_str(), file_count, video_count);
    let score = score_value(
        resolution_score,
        validity,
        &tags,
        &risks,
        video_count,
        episode_count,
        file_count,
        updated,
        now_ms,
    );
    let (grade, tone) = grade_for(score);
    let updated_at = match updated {
        Some(ts) => millis_to_rfc3339(ts),
        None => None,
    };
    let fresh_within_week = match updated {
        Some(ts) => (now_ms as i128 - ts as i128) <= WEEK_MS as i128,
        None => false,
    };
    let episode_start = if episodes.len() > 0 {
        Some(episodes[0])
    } else {
        None
    };
    let episode_end = if episodes.len() > 0 {
        Some(episodes[episodes.len() - 1])
    } else {
        None
    };
    proof {
        let set = episode_set(input@);
        if episodes.len() > 0 {
            assert forall|y: i32| set.contains(y) implies episodes@[0] <= y by {
                assert(episodes@.to_set().contains(y));
                let k = choose|k: int| 0 <= k < episodes@.len() && episodes@[k] == y;
                if k > 0 {
                    assert(episodes@[0] < episodes@[k]);
                }
            }
            assert forall|y: i32| set.contains(y) implies y <= episodes@[episodes@.len() - 1] by {
                assert(episodes@.to_set().contains(y));
                let k = choose|k: int| 0 <= k < episodes@.len() && episodes@[k] == y;
                if k < episodes@.len() - 1 {
                    assert(episodes@[k] < episodes@[episodes@.len() - 1]);
                }
            }
            assert(episodes@.to_set().contains(episodes@[0]));
            assert(episodes@.to_set().contains(episodes@[episodes@.len() - 1]));
        } else {
            assert(set =~= Set::<i32>::empty());
        }
    }
    let reasons = recommendation_reasons(
        score,
        validity,
        resolution,
        episode_count,
        fresh_within_week,
        &risks,
    );
    let mut shown_tags: Vec<String> = Vec::new();
    let mut k: usize = 0;
    while k < tags.len() && k < 6
        invariant
            k <= tags.len(),
            k <= 6,
            views(shown_tags@) == views(tags@).take(k as int),
        decreases tags.len() - k,
    {
        let ghost before = views(shown_tags@);
        shown_tags.push(tags[k].clone());
        assert(views(shown_tags@) =~= before.push(tags@[k as int]@));
        assert(views(tags@).take(k + 1) =~= views(tags@).take(k as int).push(tags@[k as int]@));
        k = k + 1;
    }
    if tags.len() <= 6 {
        assert(views(tags@).take(k as int) =~= views(tags@));
    }
    let resolution_text = if resolution.is_empty() {
        owned(UNKNOWN_RESOLUTION)
    } else {
        owned(resolution)
    };
    SourceQuality {
        score,
        grade: owned(grade),
        tone: owned(tone),
        tags: shown_tags,
        risks,
        resolution: resolution_text,
        file_count,
        video_count,
        episode_count,
        episode_start,
        episode_end,
        total_size,
        updated_at,
        recommendation_reasons: reasons,
    }
}

proof fn lemma_push_unique_keeps(items: Seq<Seq<char>>, v: Seq<char>, x: Seq<char>)
    requires
        items.contains(x),
    ensures
        push_unique_spec(items, v).contains(x),
{
    if !(v.len() == 0 || items.contains(v)) {
        let i = choose|i: int| 0 <= i < items.len() && items[i] == x;
        assert(items.push(v)[i] == x);
    }
}

/// An assessed source scores within 0 to 100, its grade and tone follow its
/// score, it carries at most six tags, and an invalid link scores at most 24
/// and is listed among the risks.
pub proof fn assessed_quality_is_bounded(q: SourceQuality, input: InputView, now: i64)
    requires
        assesses(q, input, now),
    ensures
        q.score <= 100,
        q.grade@ == grade_of(q.score as int),
        q.tone@ == tone_of(q.score as int),
        q.tags@.len() <= 6,
        q.file_count == file_count_of(input),
        q.total_size == size_total(input.files),
        validity_of(input) == Some(false) ==> q.score <= 24 && views(q.risks@).contains(RISK_INVALID_LINK@),
{
    assert(views(q.tags@).len() == q.tags@.len());
    if validity_of(input) == Some(false) {
        reveal_strlit("链接已失效");
        let r1 = push_unique_spec(seq![], RISK_INVALID_LINK@);
        assert(r1 =~= seq![RISK_INVALID_LINK@]);
        assert(r1[0] == RISK_INVALID_LINK@);
        let text = searchable_text(input);
        let r2 = if finds(PAT_ADVERTISING@, text) {
            push_unique_spec(r1, RISK_ADVERTISING@)
        } else {
            r1
        };
        lemma_push_unique_keeps(r1, RISK_ADVERTISING@, RISK_INVALID_LINK@);
        let r3 = if finds(PAT_COLLECTION@, text) {
            push_unique_spec(r2, RISK_COLLECTION@)
        } else {
            r2
        };
        lemma_push_unique_keeps(r2, RISK_COLLECTION@, RISK_INVALID_LINK@);
        lemma_push_unique_keeps(r3, RISK_NO_VIDEO@, RISK_INVALID_LINK@);
    }
}


/// The resolution a text names is decided by the highest tier whose pattern
/// it matches, with points that grow with the tier: 8K 32, 4K 28, 2K 23,
/// 1080P 19, 720P 11, SD 4, and nothing 0.
pub proof fn resolution_takes_highest_tier(text: Seq<char>)
    ensures
        finds(RES_8K@, text) ==> resolution_of(text) == ("8K"@, 32int),
        !finds(RES_8K@, text) && finds(RES_4K@, text) ==> resolution_of(text) == ("4K"@, 28int),
        !finds(RES_8K@, text) && !finds(RES_4K@, text) && finds(RES_2K@, text) ==> resolution_of(text) == (
            "2K"@,
            23int,
        ),
        !finds(RES_8K@, text) && !finds(RES_4K@, text) && !finds(RES_2K@, text) && finds(RES_1080P@, text)
            ==> resolution_of(text) == ("1080P"@, 19int),
        !finds(RES_8K@, text) && !finds(RES_4K@, text) && !finds(RES_2K@, text) && !finds(RES_1080P@, text)
            && finds(RES_720P@, text) ==> resolution_of(text) == ("720P"@, 11int),
        !finds(RES_8K@, text) && !finds(RES_4K@, text) && !finds(RES_2K@, text) && !finds(RES_1080P@, text)
            && !finds(RES_720P@, text) && finds(RES_SD@, text) ==> resolution_of(text) == ("SD"@, 4int),
        !finds(RES_8K@, text) && !finds(RES_4K@, text) && !finds(RES_2K@, text) && !finds(RES_1080P@, text)
            && !finds(RES_720P@, text) && !finds(RES_SD@, text) ==> resolution_of(text) == (
            Seq::<char>::empty(),
            0int,
        ),
        finds(RES_1080P@, text) ==> resolution_of(text).1 >= 19,
        finds(RES_720P@, text) ==> resolution_of(text).1 >= 11,
        finds(RES_SD@, text) ==> resolution_of(text).1 >= 4,
{
}

} // verus!
