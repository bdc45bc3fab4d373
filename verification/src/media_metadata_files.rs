//! The NFO files and artwork written next to downloaded media for media
//! servers to read: their contents, which files go where, and the tally of a
//! run.
use vstd::prelude::*;
use crate::model::{MediaMetadata, MediaMetadataSeason, MetadataProvider, Settings};
use crate::download_monitor::{strip_slashes, strip_trailing_slashes};
use crate::text::{
    all_digits, ascii_lower_seq, ascii_lowercase, chars_eq, chars_of, int_decimal, is_control,
    is_control_char, is_digit, is_digit_char, opt_view, owned, parse_i32_chars, parse_i32_spec,
    join_strings, joined, push_char, push_count, push_decimal, push_str, str_eq, string_of, trim_seq, trim_start_index, trim_start_seq,
    trim_str, views,
};
use crate::error::AppError;

verus! {

pub const XML_HEADER: &'static str = "<?xml version=\"1.0\" encoding=\"UTF-8\" standalone=\"yes\" ?>\n<";
pub const ROOT_TVSHOW: &'static str = "tvshow";
pub const ROOT_MOVIE: &'static str = "movie";
pub const TAG_CLOSE_LINE: &'static str = ">\n";
pub const TITLE_OPEN: &'static str = "  <title>";
pub const TITLE_CLOSE: &'static str = "</title>\n";
pub const ORIGINAL_OPEN: &'static str = "  <originaltitle>";
pub const ORIGINAL_CLOSE: &'static str = "</originaltitle>\n";
pub const YEAR_OPEN: &'static str = "  <year>";
pub const YEAR_CLOSE: &'static str = "</year>\n";
pub const PLOT_OPEN: &'static str = "  <plot>";
pub const PLOT_CLOSE: &'static str = "</plot>\n";
pub const RATING_OPEN: &'static str = "  <rating>";
pub const RATING_CLOSE: &'static str = "</rating>\n";
pub const PREMIERED_OPEN: &'static str = "  <premiered>";
pub const PREMIERED_CLOSE: &'static str = "</premiered>\n";
pub const UNIQUEID_OPEN: &'static str = "  <uniqueid type=\"tmdb\">";
pub const UNIQUEID_CLOSE: &'static str = "</uniqueid>\n";
pub const END_TAG_OPEN: &'static str = "</";
pub const SEASON_NFO_OPEN: &'static str = "<?xml version=\"1.0\" encoding=\"UTF-8\" standalone=\"yes\" ?>\n<season>\n  <seasonnumber>";
pub const SEASON_NFO_CLOSE: &'static str = "</seasonnumber>\n</season>\n";

pub const ESC_AMP: &'static str = "&amp;";
pub const ESC_LT: &'static str = "&lt;";
pub const ESC_GT: &'static str = "&gt;";
pub const ESC_QUOT: &'static str = "&quot;";
pub const ESC_APOS: &'static str = "&apos;";

// ---------------------------------------------------------------------------
// Text of the files
// ---------------------------------------------------------------------------

/// The escape of one character in XML text: entities for `& < > " '`,
/// nothing for control characters other than tab, carriage return and line
/// feed, the character itself otherwise.
pub open spec fn escape_char(c: char) -> Seq<char> {
    if c == '&' {
        ESC_AMP@
    } else if c == '<' {
        ESC_LT@
    } else if c == '>' {
        ESC_GT@
    } else if c == '"' {
        ESC_QUOT@
    } else if c == '\'' {
        ESC_APOS@
    } else if is_control(c) && c != '\t' && c != '\r' && c != '\n' {
        seq![]
    } else {
        seq![c]
    }
}

/// Text escaped for an XML element.
pub open spec fn xml_escaped(s: Seq<char>) -> Seq<char>
    decreases s.len(),
{
    if s.len() == 0 {
        seq![]
    } else {
        xml_escaped(s.drop_last()) + escape_char(s.last())
    }
}

/// Escapes text for an XML element.
pub fn xml_escape(value: &str) -> (r: String)
    ensures
        r@ == xml_escaped(value@),
{
    let v = chars_of(value);
    let mut out = String::new();
    let mut i: usize = 0;
    assert(v@.take(0) =~= seq![]);
    while i < v.len()
        invariant
            i <= v.len(),
            out@ == xml_escaped(v@.take(i as int)),
        decreases v.len() - i,
    {
        let c = v[i];
        assert(v@.take(i + 1).drop_last() =~= v@.take(i as int));
        assert(v@.take(i + 1).last() == c);
        let ghost before = out@;
        if c == '&' {
            push_str(&mut out, ESC_AMP);
        } else if c == '<' {
            push_str(&mut out, ESC_LT);
        } else if c == '>' {
            push_str(&mut out, ESC_GT);
        } else if c == '"' {
            push_str(&mut out, ESC_QUOT);
        } else if c == '\'' {
            push_str(&mut out, ESC_APOS);
        } else if is_control_char(c) && c != '\t' && c != '\r' && c != '\n' {
            assert(before + seq![] =~= before);
        } else {
            push_char(&mut out, c);
            assert(before.push(c) =~= before + seq![c]);
        }
        i = i + 1;
    }
    assert(v@.take(v.len() as int) =~= v@);
    out
}

/// The year of a release date: its first four characters where they are
/// digits.
pub open spec fn year_of(release_date: Option<Seq<char>>) -> Option<Seq<char>> {
    match release_date {
        Some(d) => if d.len() >= 4 && all_digits(d.take(4)) {
            Some(d.take(4))
        } else {
            None
        },
        None => None,
    }
}

/// The year of a release date.
pub fn release_year(release_date: &Option<String>) -> (r: Option<String>)
    ensures
        opt_view(r) == year_of(opt_view(*release_date)),
{
    match release_date {
        Some(d) => {
            let v = chars_of(d.as_str());
            if v.len() >= 4 && is_digit_char(v[0]) && is_digit_char(v[1]) && is_digit_char(v[2])
                && is_digit_char(v[3]) {
                let year: Vec<char> = vec![v[0], v[1], v[2], v[3]];
                assert(year@ =~= v@.take(4));
                Some(string_of(year.as_slice()))
            } else {
                proof {
                    if v.len() >= 4 && all_digits(v@.take(4)) {
                        assert(v@.take(4)[0] == v@[0]);
                        assert(v@.take(4)[1] == v@[1]);
                        assert(v@.take(4)[2] == v@[2]);
                        assert(v@.take(4)[3] == v@[3]);
                    }
                }
                None
            }
        },
        None => None,
    }
}

/// An element line when `present`.
pub open spec fn line_if(present: bool, open: Seq<char>, body: Seq<char>, close: Seq<char>) -> Seq<
    char,
> {
    if present {
        open + body + close
    } else {
        seq![]
    }
}

/// The title line of an NFO.
pub open spec fn title_line(m: MediaMetadata) -> Seq<char> {
    TITLE_OPEN@ + xml_escaped(m.title@) + TITLE_CLOSE@
}

/// The original-title line, where there is one.
pub open spec fn original_title_line(m: MediaMetadata) -> Seq<char> {
    line_if(
        trim_seq(m.original_title@).len() > 0,
        ORIGINAL_OPEN@,
        xml_escaped(m.original_title@),
        ORIGINAL_CLOSE@,
    )
}

/// The year line, where the release date has a year.
pub open spec fn year_line(m: MediaMetadata) -> Seq<char> {
    match year_of(opt_view(m.release_date)) {
        Some(y) => YEAR_OPEN@ + y + YEAR_CLOSE@,
        None => seq![],
    }
}

/// The plot line, where there is an overview.
pub open spec fn plot_line(m: MediaMetadata) -> Seq<char> {
    line_if(trim_seq(m.overview@).len() > 0, PLOT_OPEN@, xml_escaped(m.overview@), PLOT_CLOSE@)
}

/// The rating line, where there is a rating.
pub open spec fn rating_line(m: MediaMetadata) -> Seq<char> {
    match m.rating {
        Some(r) => RATING_OPEN@ + r@ + RATING_CLOSE@,
        None => seq![],
    }
}

/// The premiere line, where the release date is not blank.
pub open spec fn premiered_line(m: MediaMetadata) -> Seq<char> {
    match m.release_date {
        Some(d) => line_if(
            trim_seq(d@).len() > 0,
            PREMIERED_OPEN@,
            xml_escaped(d@),
            PREMIERED_CLOSE@,
        ),
        None => seq![],
    }
}

/// The TMDB id line, for TMDB metadata with an id.
pub open spec fn uniqueid_line(m: MediaMetadata) -> Seq<char> {
    line_if(
        m.provider == MetadataProvider::Tmdb && trim_seq(m.provider_id@).len() > 0,
        UNIQUEID_OPEN@,
        xml_escaped(m.provider_id@),
        UNIQUEID_CLOSE@,
    )
}

/// The element lines of a root NFO, in order.
pub open spec fn nfo_body(m: MediaMetadata) -> Seq<char> {
    title_line(m) + original_title_line(m) + year_line(m) + plot_line(m) + rating_line(m)
        + premiered_line(m) + uniqueid_line(m)
}

/// The root NFO of a show or film: title, original title, year, plot,
/// rating, premiere date and (for TMDB metadata) its id, each where present.
pub open spec fn root_nfo(m: MediaMetadata, root: Seq<char>) -> Seq<char> {
    XML_HEADER@ + root + TAG_CLOSE_LINE@ + nfo_body(m) + END_TAG_OPEN@ + root + TAG_CLOSE_LINE@
}

/// `open`, `body` and `close` where `present`, else nothing.
fn optional_line(present: bool, open: &str, body: &str, close: &str) -> (r: String)
    ensures
        r@ == line_if(present, open@, body@, close@),
{
    if present {
        let mut s = owned(open);
        push_str(&mut s, body);
        push_str(&mut s, close);
        s
    } else {
        String::new()
    }
}

/// The element lines of a root NFO.
fn nfo_body_text(m: &MediaMetadata) -> (r: String)
    ensures
        r@ == nfo_body(*m),
{
    let title = xml_escape(m.title.as_str());
    let mut out = optional_line(true, TITLE_OPEN, title.as_str(), TITLE_CLOSE);
    let original = xml_escape(m.original_title.as_str());
    let l = optional_line(
        trim_str(m.original_title.as_str()).len() > 0,
        ORIGINAL_OPEN,
        original.as_str(),
        ORIGINAL_CLOSE,
    );
    push_str(&mut out, l.as_str());
    let l = match release_year(&m.release_date) {
        Some(y) => optional_line(true, YEAR_OPEN, y.as_str(), YEAR_CLOSE),
        None => String::new(),
    };
    push_str(&mut out, l.as_str());
    let overview = xml_escape(m.overview.as_str());
    let l = optional_line(
        trim_str(m.overview.as_str()).len() > 0,
        PLOT_OPEN,
        overview.as_str(),
        PLOT_CLOSE,
    );
    push_str(&mut out, l.as_str());
    let l = match &m.rating {
        Some(rating) => optional_line(true, RATING_OPEN, rating.as_str(), RATING_CLOSE),
        None => String::new(),
    };
    push_str(&mut out, l.as_str());
    let l = match &m.release_date {
        Some(date) => {
            let escaped = xml_escape(date.as_str());
            optional_line(
                trim_str(date.as_str()).len() > 0,
                PREMIERED_OPEN,
                escaped.as_str(),
                PREMIERED_CLOSE,
            )
        },
        None => String::new(),
    };
    push_str(&mut out, l.as_str());
    let tmdb = match m.provider {
        MetadataProvider::Tmdb => true,
        MetadataProvider::Douban => false,
    };
    let id = xml_escape(m.provider_id.as_str());
    let l = optional_line(
        tmdb && trim_str(m.provider_id.as_str()).len() > 0,
        UNIQUEID_OPEN,
        id.as_str(),
        UNIQUEID_CLOSE,
    );
    push_str(&mut out, l.as_str());
    out
}

/// The root NFO of a show or film, with root element `root`.
pub fn build_root_nfo(metadata: &MediaMetadata, root: &str) -> (r: String)
    ensures
        r@ == root_nfo(*metadata, root@),
{
    let mut xml = owned(XML_HEADER);
    push_str(&mut xml, root);
    push_str(&mut xml, TAG_CLOSE_LINE);
    let body = nfo_body_text(metadata);
    push_str(&mut xml, body.as_str());
    push_str(&mut xml, END_TAG_OPEN);
    push_str(&mut xml, root);
    push_str(&mut xml, TAG_CLOSE_LINE);
    xml
}

/// The NFO of a show (`tvshow.nfo`).
pub fn build_tvshow_nfo(metadata: &MediaMetadata) -> (r: String)
    ensures
        r@ == root_nfo(*metadata, ROOT_TVSHOW@),
{
    build_root_nfo(metadata, ROOT_TVSHOW)
}

/// The NFO of a film (`movie.nfo`).
pub fn build_movie_nfo(metadata: &MediaMetadata) -> (r: String)
    ensures
        r@ == root_nfo(*metadata, ROOT_MOVIE@),
{
    build_root_nfo(metadata, ROOT_MOVIE)
}

/// The NFO of a season (`season.nfo`), the season number at least 1.
pub open spec fn season_nfo(season: int) -> Seq<char> {
    SEASON_NFO_OPEN@ + int_decimal(
        if season < 1 {
            1
        } else {
            season
        },
    ) + SEASON_NFO_CLOSE@
}

/// The NFO of a season.
pub fn build_season_nfo(season: i32) -> (r: String)
    ensures
        r@ == season_nfo(season as int),
{
    let mut xml = owned(SEASON_NFO_OPEN);
    push_decimal(
        &mut xml,
        if season < 1 {
            1
        } else {
            season as i64
        },
    );
    push_str(&mut xml, SEASON_NFO_CLOSE);
    xml
}

/// The poster of the first season entry with number `season`, if it has one.
pub open spec fn season_poster(seasons: Seq<MediaMetadataSeason>, season: i32) -> Option<Seq<char>>
    decreases seasons.len(),
{
    if seasons.len() == 0 {
        None
    } else if seasons[0].season_number == season {
        opt_view(seasons[0].poster_url)
    } else {
        season_poster(seasons.drop_first(), season)
    }
}

/// The poster of a season.
pub fn season_poster_url(metadata: &MediaMetadata, season: i32) -> (r: Option<String>)
    ensures
        opt_view(r) == season_poster(metadata.seasons@, season),
{
    let ghost ss = metadata.seasons@;
    let mut i: usize = 0;
    assert(ss.skip(0) =~= ss);
    while i < metadata.seasons.len()
        invariant
            i <= metadata.seasons.len(),
            ss == metadata.seasons@,
            season_poster(ss, season) == season_poster(ss.skip(i as int), season),
        decreases metadata.seasons.len() - i,
    {
        assert(ss.skip(i as int)[0] == ss[i as int]);
        assert(ss.skip(i as int).drop_first() =~= ss.skip(i + 1));
        if metadata.seasons[i].season_number == season {
            return match &metadata.seasons[i].poster_url {
                Some(u) => Some(u.clone()),
                None => None,
            };
        }
        i = i + 1;
    }
    None
}


// ---------------------------------------------------------------------------
// Where the files go
// ---------------------------------------------------------------------------

pub const MEDIA_SERIES: &'static str = "series";
pub const MEDIA_ANIME: &'static str = "anime";
pub const MEDIA_MOVIE: &'static str = "movie";
pub const SEASON_WORD: &'static str = "season";
pub const SEASON_FOLDER_PREFIX: &'static str = "Season ";

/// The text with back slashes turned into slashes.
pub open spec fn slashes_forward(s: Seq<char>) -> Seq<char> {
    s.map_values(|c: char| if c == '\\' { '/' } else { c })
}

/// A download directory as the layout reads it: trimmed, with forward
/// slashes and no trailing slash.
pub open spec fn layout_dir(task_dir: Seq<char>) -> Seq<char> {
    strip_trailing_slashes(slashes_forward(trim_seq(task_dir)))
}

/// The index of the last slash, or -1.
pub open spec fn last_slash(s: Seq<char>) -> int
    decreases s.len(),
{
    if s.len() == 0 {
        -1
    } else if s.last() == '/' {
        s.len() - 1
    } else {
        last_slash(s.drop_last())
    }
}

/// The season a folder name gives: `Season`, in any ASCII case, a space,
/// then only digits (after any further blanks) that fit `i32`.
pub open spec fn season_folder_number(seg: Seq<char>) -> Option<i32> {
    if seg.len() > 7 && ascii_lower_seq(seg.take(6)) == SEASON_WORD@ && seg[6] == ' ' {
        let digits = trim_start_seq(seg.skip(6));
        if digits.len() > 0 && all_digits(digits) {
            parse_i32_spec(digits)
        } else {
            None
        }
    } else {
        None
    }
}

/// Where a download's metadata files go: for a show, the folder above the
/// `Season N` download folder with that season; for a film, the download
/// folder; nothing for other kinds or where the folder cannot be derived.
pub open spec fn layout_of(media_type: Seq<char>, task_dir: Seq<char>) -> Option<(Seq<char>, Option<i32>)> {
    let d = layout_dir(task_dir);
    let k = last_slash(d);
    if d.len() == 0 {
        None
    } else if media_type == MEDIA_SERIES@ || media_type == MEDIA_ANIME@ {
        match season_folder_number(d.skip(k + 1)) {
            Some(season) => {
                let root = if k < 0 {
                    Seq::empty()
                } else {
                    d.take(k)
                };
                if root.len() == 0 || root == seq!['/'] || root == d {
                    None
                } else {
                    Some((root, Some(season)))
                }
            },
            None => None,
        }
    } else if media_type == MEDIA_MOVIE@ {
        if d == seq!['/'] {
            None
        } else {
            Some((d, None))
        }
    } else {
        None
    }
}

fn last_slash_index(v: &Vec<char>) -> (r: Option<usize>)
    ensures
        match r {
            Some(k) => k as int == last_slash(v@) && k < v@.len(),
            None => last_slash(v@) == -1,
        },
{
    let mut i: usize = v.len();
    assert(v@.take(i as int) =~= v@);
    while i > 0
        invariant
            i <= v.len(),
            last_slash(v@) == last_slash(v@.take(i as int)),
        decreases i,
    {
        assert(v@.take(i as int).drop_last() =~= v@.take(i - 1));
        if v[i - 1] == '/' {
            return Some(i - 1);
        }
        i -= 1;
    }
    None
}

fn folder_season(seg: &[char]) -> (r: Option<i32>)
    ensures
        r == season_folder_number(seg@),
{
    if seg.len() <= 7 || seg[6] != ' ' {
        return None;
    }
    let head = ascii_lowercase(&seg[0..6]);
    proof {
        assert(seg@.subrange(0, 6) =~= seg@.take(6));
        reveal_strlit("season");
    }
    if !str_eq(string_of(head.as_slice()).as_str(), SEASON_WORD) {
        return None;
    }
    let rest = &seg[6..seg.len()];
    assert(rest@ =~= seg@.skip(6));
    let start = trim_start_index(rest);
    let digits = &rest[start..rest.len()];
    assert(digits@ =~= trim_start_seq(seg@.skip(6)));
    if digits.len() == 0 {
        return None;
    }
    let mut i: usize = 0;
    while i < digits.len()
        invariant
            i <= digits.len(),
            digits@ == trim_start_seq(seg@.skip(6)),
            forall|j: int| 0 <= j < i ==> is_digit(#[trigger] digits@[j]),
        decreases digits.len() - i,
    {
        if !is_digit_char(digits[i]) {
            assert(!all_digits(digits@));
            return None;
        }
        i += 1;
    }
    parse_i32_chars(digits)
}

/// Where a download's metadata files go (see [`layout_of`]).
pub fn resolve_layout(media_type: &str, task_dir: &str) -> (r: Option<(String, Option<i32>)>)
    ensures
        match r {
            Some(x) => layout_of(media_type@, task_dir@) == Some((x.0@, x.1)),
            None => layout_of(media_type@, task_dir@) is None,
        },
{
    let trimmed = trim_str(task_dir);
    let mut forward: Vec<char> = Vec::new();
    let mut i: usize = 0;
    while i < trimmed.len()
        invariant
            i <= trimmed.len(),
            forward@ == slashes_forward(trimmed@.take(i as int)),
        decreases trimmed.len() - i,
    {
        let c = trimmed[i];
        forward.push(if c == '\\' {
            '/'
        } else {
            c
        });
        assert(forward@ =~= slashes_forward(trimmed@.take(i + 1)));
        i += 1;
    }
    assert(trimmed@.take(trimmed.len() as int) =~= trimmed@);
    let d = strip_slashes(forward);
    if d.len() == 0 {
        return None;
    }
    if str_eq(media_type, MEDIA_SERIES) || str_eq(media_type, MEDIA_ANIME) {
        let k = last_slash_index(&d);
        let seg_start: usize = match k {
            Some(k) => k + 1,
            None => 0,
        };
        let seg = &d.as_slice()[seg_start..d.len()];
        assert(seg@ =~= d@.skip(last_slash(d@) + 1));
        let season = match folder_season(seg) {
            Some(s) => s,
            None => {
                return None;
            },
        };
        let root: Vec<char> = match k {
            Some(k) => {
                let mut r: Vec<char> = Vec::new();
                let mut j: usize = 0;
                while j < k
                    invariant
                        j <= k,
                        k < d@.len(),
                        r@ == d@.take(j as int),
                    decreases k - j,
                {
                    r.push(d[j]);
                    assert(r@ =~= d@.take(j + 1));
                    j += 1;
                }
                r
            },
            None => Vec::new(),
        };
        let is_slash_only = root.len() == 1 && root[0] == '/';
        assert(is_slash_only == (root@ == seq!['/'])) by {
            if root@ == seq!['/'] {
                assert(root@[0] == '/');
            }
            if is_slash_only {
                assert(root@ =~= seq!['/']);
            }
        }
        if root.len() == 0 || is_slash_only || chars_eq(root.as_slice(), d.as_slice()) {
            return None;
        }
        return Some((string_of(root.as_slice()), Some(season)));
    }
    if str_eq(media_type, MEDIA_MOVIE) {
        let is_slash_only = d.len() == 1 && d[0] == '/';
        assert(is_slash_only == (d@ == seq!['/'])) by {
            if d@ == seq!['/'] {
                assert(d@[0] == '/');
            }
            if is_slash_only {
                assert(d@ =~= seq!['/']);
            }
        }
        if is_slash_only {
            return None;
        }
        return Some((string_of(d.as_slice()), None));
    }
    None
}


// ---------------------------------------------------------------------------
// The files of a finished download, and the tally of writing them
// ---------------------------------------------------------------------------

pub const NFO_TVSHOW: &'static str = "tvshow.nfo";
pub const NFO_MOVIE: &'static str = "movie.nfo";
pub const NFO_SEASON: &'static str = "season.nfo";
pub const IMAGE_POSTER: &'static str = "poster.jpg";
pub const IMAGE_BACKDROP: &'static str = "backdrop.jpg";
pub const PATH_SEP: &'static str = "/";

/// The files of one download's metadata: the root NFO and artwork, and for
/// shows the season's NFO and poster. Image addresses are trimmed and only
/// present where not blank.
#[derive(Debug, Clone)]
pub struct MetadataFilePlan {
    pub root_dir: String,
    pub root_nfo_name: String,
    pub root_nfo: String,
    pub poster_url: Option<String>,
    pub backdrop_url: Option<String>,
    pub season_dir: Option<String>,
    pub season_nfo: Option<String>,
    pub season_poster_url: Option<String>,
}

/// An image address worth fetching: trimmed, not blank.
pub open spec fn image_url(u: Option<Seq<char>>) -> Option<Seq<char>> {
    match u {
        Some(x) => if trim_seq(x).len() > 0 {
            Some(trim_seq(x))
        } else {
            None
        },
        None => None,
    }
}

/// The folder of a season (`Season N`).
pub open spec fn season_folder(season: i32) -> Seq<char> {
    SEASON_FOLDER_PREFIX@ + int_decimal(season as int)
}

/// The plan of a download's metadata files, for a layout that could be
/// derived.
pub open spec fn plan_of(p: MetadataFilePlan, m: MediaMetadata, media_type: Seq<char>, root: Seq<char>, season: Option<i32>) -> bool {
    let series = media_type == MEDIA_SERIES@ || media_type == MEDIA_ANIME@;
    &&& p.root_dir@ == root
    &&& p.root_nfo_name@ == if series {
        NFO_TVSHOW@
    } else {
        NFO_MOVIE@
    }
    &&& p.root_nfo@ == root_nfo(
        m,
        if series {
            ROOT_TVSHOW@
        } else {
            ROOT_MOVIE@
        },
    )
    &&& opt_view(p.poster_url) == image_url(opt_view(m.poster_url))
    &&& opt_view(p.backdrop_url) == image_url(opt_view(m.backdrop_url))
    &&& match season {
        Some(n) => {
            &&& opt_view(p.season_dir) == Some(
                root + (if root.len() > 0 {
                    PATH_SEP@
                } else {
                    Seq::empty()
                }) + season_folder(n),
            )
            &&& opt_view(p.season_nfo) == Some(season_nfo(n as int))
            &&& opt_view(p.season_poster_url) == image_url(season_poster(m.seasons@, n))
        },
        None => p.season_dir is None && p.season_nfo is None && p.season_poster_url is None,
    }
}

fn trimmed_url(u: &Option<String>) -> (r: Option<String>)
    ensures
        opt_view(r) == image_url(opt_view(*u)),
{
    match u {
        Some(x) => {
            let t = trim_str(x.as_str());
            if t.len() > 0 {
                Some(string_of(t.as_slice()))
            } else {
                None
            }
        },
        None => None,
    }
}

/// What to write next to a finished download: nothing where the feature is
/// off or the folder layout cannot be derived.
pub fn metadata_file_plan(settings: &Settings, metadata: &MediaMetadata, media_type: &str, task_dir: &str) -> (r:
    Option<MetadataFilePlan>)
    ensures
        !settings.media_metadata_files_enabled ==> r is None,
        settings.media_metadata_files_enabled ==> match layout_of(media_type@, task_dir@) {
            None => r is None,
            Some(l) => r matches Some(p) && plan_of(p, *metadata, media_type@, l.0, l.1),
        },
{
    if !settings.media_metadata_files_enabled {
        return None;
    }
    let (root, season) = match resolve_layout(media_type, task_dir) {
        Some(l) => l,
        None => {
            return None;
        },
    };
    let series = str_eq(media_type, MEDIA_SERIES) || str_eq(media_type, MEDIA_ANIME);
    let root_nfo = if series {
        build_tvshow_nfo(metadata)
    } else {
        build_movie_nfo(metadata)
    };
    let (season_dir, season_nfo, season_poster) = match season {
        Some(n) => {
            let mut dir = root.clone();
            if chars_of(dir.as_str()).len() > 0 {
                push_str(&mut dir, PATH_SEP);
            }
            push_str(&mut dir, SEASON_FOLDER_PREFIX);
            push_decimal(&mut dir, n as i64);
            assert(dir@ =~= root@ + (if root@.len() > 0 {
                PATH_SEP@
            } else {
                Seq::<char>::empty()
            }) + season_folder(n));
            (Some(dir), Some(build_season_nfo(n)), trimmed_url(&season_poster_url(metadata, n)))
        },
        None => (None, None, None),
    };
    Some(
        MetadataFilePlan {
            root_dir: root,
            root_nfo_name: owned(
                if series {
                    NFO_TVSHOW
                } else {
                    NFO_MOVIE
                },
            ),
            root_nfo,
            poster_url: trimmed_url(&metadata.poster_url),
            backdrop_url: trimmed_url(&metadata.backdrop_url),
            season_dir,
            season_nfo,
            season_poster_url: season_poster,
        },
    )
}

/// How many files a run wrote, found unchanged, or failed on.
#[derive(Debug, Clone, Default)]
pub struct MediaMetadataFilesOutcome {
    pub written: usize,
    pub skipped: usize,
    pub failed: usize,
}

/// What writing one file did.
#[derive(Debug, Clone)]
pub enum WriteResult {
    Written,
    Unchanged,
    Failed(String),
}

/// The counts can each grow by one more file.
pub open spec fn can_count(o: MediaMetadataFilesOutcome) -> bool {
    o.written < usize::MAX && o.skipped < usize::MAX && o.failed < usize::MAX
}

pub const FAILURE_SEP: &'static str = ": ";

/// Counts one file write; a failure is listed with its path.
pub fn record_write(outcome: &mut MediaMetadataFilesOutcome, failures: &mut Vec<String>, path: &str, result: WriteResult)
    requires
        can_count(*old(outcome)),
    ensures
        match result {
            WriteResult::Written => final(outcome).written == old(outcome).written + 1
                && final(outcome).skipped == old(outcome).skipped && final(outcome).failed
                == old(outcome).failed && final(failures)@ == old(failures)@,
            WriteResult::Unchanged => final(outcome).skipped == old(outcome).skipped + 1
                && final(outcome).written == old(outcome).written && final(outcome).failed
                == old(outcome).failed && final(failures)@ == old(failures)@,
            WriteResult::Failed(e) => final(outcome).failed == old(outcome).failed + 1
                && final(outcome).written == old(outcome).written && final(outcome).skipped
                == old(outcome).skipped && views(final(failures)@) == views(old(failures)@).push(
                path@ + FAILURE_SEP@ + e@,
            ),
        },
{
    match result {
        WriteResult::Written => {
            outcome.written += 1;
        },
        WriteResult::Unchanged => {
            outcome.skipped += 1;
        },
        WriteResult::Failed(e) => {
            outcome.failed += 1;
            let mut line = owned(path);
            push_str(&mut line, FAILURE_SEP);
            push_str(&mut line, e.as_str());
            let ghost before = views(failures@);
            failures.push(line);
            assert(views(failures@) =~= before.push(path@ + FAILURE_SEP@ + e@));
        },
    }
}

/// Counts one image: nothing without an address, a failed download listed by
/// the image's name, else the write.
pub fn record_image_write(
    outcome: &mut MediaMetadataFilesOutcome,
    failures: &mut Vec<String>,
    name: &str,
    path: &str,
    fetched: Option<Result<WriteResult, String>>,
)
    requires
        can_count(*old(outcome)),
    ensures
        match fetched {
            None => *final(outcome) == *old(outcome) && final(failures)@ == old(failures)@,
            Some(Err(e)) => final(outcome).failed == old(outcome).failed + 1
                && final(outcome).written == old(outcome).written && final(outcome).skipped
                == old(outcome).skipped && views(final(failures)@) == views(old(failures)@).push(
                name@ + FAILURE_SEP@ + e@,
            ),
            Some(Ok(WriteResult::Written)) => final(outcome).written == old(outcome).written + 1
                && final(outcome).skipped == old(outcome).skipped && final(outcome).failed
                == old(outcome).failed && final(failures)@ == old(failures)@,
            Some(Ok(WriteResult::Unchanged)) => final(outcome).skipped == old(outcome).skipped + 1
                && final(outcome).written == old(outcome).written && final(outcome).failed
                == old(outcome).failed && final(failures)@ == old(failures)@,
            Some(Ok(WriteResult::Failed(e))) => final(outcome).failed == old(outcome).failed + 1
                && final(outcome).written == old(outcome).written && final(outcome).skipped
                == old(outcome).skipped && views(final(failures)@) == views(old(failures)@).push(
                path@ + FAILURE_SEP@ + e@,
            ),
        },
{
    match fetched {
        None => {},
        Some(Err(e)) => {
            outcome.failed += 1;
            let mut line = owned(name);
            push_str(&mut line, FAILURE_SEP);
            push_str(&mut line, e.as_str());
            let ghost before = views(failures@);
            failures.push(line);
            assert(views(failures@) =~= before.push(name@ + FAILURE_SEP@ + e@));
        },
        Some(Ok(w)) => record_write(outcome, failures, path, w),
    }
}

pub const PARTIAL_PREFIX: &'static str = "媒体库元数据写入部分失败（写入 ";
pub const PARTIAL_SKIPPED: &'static str = "，跳过 ";
pub const PARTIAL_FAILED: &'static str = "，失败 ";
pub const PARTIAL_CLOSE: &'static str = "）: ";
pub const FAILURES_JOIN: &'static str = "; ";

/// The error a run with failures ends in: the counts and every failure.
pub open spec fn partial_failure_text(o: MediaMetadataFilesOutcome, failures: Seq<Seq<char>>) -> Seq<char> {
    PARTIAL_PREFIX@ + int_decimal(o.written as int) + PARTIAL_SKIPPED@ + int_decimal(o.skipped as int)
        + PARTIAL_FAILED@ + int_decimal(o.failed as int) + PARTIAL_CLOSE@ + joined(failures, FAILURES_JOIN@)
}

/// The error a run ends in, if any file failed.
pub fn partial_failure(outcome: &MediaMetadataFilesOutcome, failures: &Vec<String>) -> (r: Option<AppError>)
    ensures
        failures@.len() == 0 ==> r is None,
        failures@.len() > 0 ==> (r matches Some(e) && e is Internal && e.message() == partial_failure_text(
            *outcome,
            views(failures@),
        )),
{
    if failures.len() == 0 {
        return None;
    }
    let mut m = owned(PARTIAL_PREFIX);
    push_count(&mut m, outcome.written);
    push_str(&mut m, PARTIAL_SKIPPED);
    push_count(&mut m, outcome.skipped);
    push_str(&mut m, PARTIAL_FAILED);
    push_count(&mut m, outcome.failed);
    push_str(&mut m, PARTIAL_CLOSE);
    let list = join_strings(failures.as_slice(), FAILURES_JOIN);
    push_str(&mut m, list.as_str());
    Some(AppError::Internal(m))
}

/// Two runs for the same metadata and folder plan the same files with the
/// same contents, so a second run finds each file unchanged.
pub proof fn plans_for_same_inputs_agree(
    p1: MetadataFilePlan,
    p2: MetadataFilePlan,
    m: MediaMetadata,
    media_type: Seq<char>,
    root: Seq<char>,
    season: Option<i32>,
)
    requires
        plan_of(p1, m, media_type, root, season),
        plan_of(p2, m, media_type, root, season),
    ensures
        p1.root_dir@ == p2.root_dir@,
        p1.root_nfo_name@ == p2.root_nfo_name@,
        p1.root_nfo@ == p2.root_nfo@,
        opt_view(p1.poster_url) == opt_view(p2.poster_url),
        opt_view(p1.backdrop_url) == opt_view(p2.backdrop_url),
        opt_view(p1.season_dir) == opt_view(p2.season_dir),
        opt_view(p1.season_nfo) == opt_view(p2.season_nfo),
        opt_view(p1.season_poster_url) == opt_view(p2.season_poster_url),
{
}

// ---------------------------------------------------------------------------
// Checking a downloaded image
// ---------------------------------------------------------------------------

pub const MAX_IMAGE_BYTES: usize = 8388608;
pub const MSG_IMAGE_REQUEST_FAILED: &'static str = "海报图片请求失败: HTTP ";
pub const MSG_IMAGE_TOO_LARGE: &'static str = "海报图片超过大小限制";
pub const MSG_NOT_AN_IMAGE: &'static str = "上游返回了非图片内容";
pub const MSG_IMAGE_EMPTY: &'static str = "海报图片内容为空";

/// The media type of a `Content-Type` header: what comes before the first
/// `;`, trimmed.
pub open spec fn media_type_part(header: Seq<char>) -> Seq<char> {
    trim_seq(crate::text::split_char_seq(header, ';')[0])
}

/// An image type that may be saved.
pub open spec fn image_type_allowed(t: Seq<char>) -> bool {
    t == "image/jpeg"@ || t == "image/png"@ || t == "image/webp"@ || t == "image/avif"@
}

/// Whether an image answer may be read: a successful status, a stated length
/// within 8 MiB, and an image type that may be saved.
pub open spec fn image_answer_refusal(
    status_ok: bool,
    status: Seq<char>,
    content_length: Option<u64>,
    content_type: Option<Seq<char>>,
) -> Option<(bool, Seq<char>)> {
    if !status_ok {
        Some((true, MSG_IMAGE_REQUEST_FAILED@ + status))
    } else if content_length matches Some(n) && n > MAX_IMAGE_BYTES {
        Some((false, MSG_IMAGE_TOO_LARGE@))
    } else if match content_type {
        Some(t) => image_type_allowed(media_type_part(t)),
        None => false,
    } {
        None
    } else {
        Some((true, MSG_NOT_AN_IMAGE@))
    }
}

/// The error reports the refusal: an HTTP error where the flag is set, else
/// a validation error, with the message.
pub open spec fn reports_refusal(e: AppError, refusal: (bool, Seq<char>)) -> bool {
    &&& refusal.0 ==> e is Http
    &&& !refusal.0 ==> e is Validation
    &&& e.message() == refusal.1
}

/// Checks the answer to an image request before its body is read; `status`
/// is the status as it is shown.
pub fn check_image_answer(
    status_ok: bool,
    status: &str,
    content_length: Option<u64>,
    content_type: Option<&str>,
) -> (r: Result<(), AppError>)
    ensures
        match image_answer_refusal(
            status_ok,
            status@,
            content_length,
            match content_type {
                Some(t) => Some(t@),
                None => None,
            },
        ) {
            None => r is Ok,
            Some(refusal) => r matches Err(e) && reports_refusal(e, refusal),
        },
{
    if !status_ok {
        let mut m = owned(MSG_IMAGE_REQUEST_FAILED);
        push_str(&mut m, status);
        return Err(AppError::Http(m));
    }
    if let Some(n) = content_length {
        if n > MAX_IMAGE_BYTES as u64 {
            return Err(AppError::Validation(owned(MSG_IMAGE_TOO_LARGE)));
        }
    }
    let allowed = match content_type {
        Some(t) => {
            let v = chars_of(t);
            let pieces = crate::text::split_chars(v.as_slice(), ';');
            proof {
                crate::text::lemma_split_char_len(v@, ';');
            }
            let kind = crate::text::trim_chars(pieces[0].as_slice());
            let kind_text = string_of(kind.as_slice());
            str_eq(kind_text.as_str(), "image/jpeg") || str_eq(kind_text.as_str(), "image/png") || str_eq(
                kind_text.as_str(),
                "image/webp",
            ) || str_eq(kind_text.as_str(), "image/avif")
        },
        None => false,
    };
    if allowed {
        Ok(())
    } else {
        Err(AppError::Http(owned(MSG_NOT_AN_IMAGE)))
    }
}

/// Whether one more chunk of `chunk_len` bytes keeps an image body of
/// `received` bytes within 8 MiB.
pub fn accept_image_chunk(received: usize, chunk_len: usize) -> (r: Result<(), AppError>)
    ensures
        (if received + chunk_len > usize::MAX {
            usize::MAX as int
        } else {
            received + chunk_len
        }) > MAX_IMAGE_BYTES ==> (r matches Err(e) && e is Validation && e.message() == MSG_IMAGE_TOO_LARGE@),
        (if received + chunk_len > usize::MAX {
            usize::MAX as int
        } else {
            received + chunk_len
        }) <= MAX_IMAGE_BYTES ==> r is Ok,
{
    if received.saturating_add(chunk_len) > MAX_IMAGE_BYTES {
        Err(AppError::Validation(owned(MSG_IMAGE_TOO_LARGE)))
    } else {
        Ok(())
    }
}

/// A downloaded image body must not be empty.
pub fn check_image_body(len: usize) -> (r: Result<(), AppError>)
    ensures
        len == 0 ==> (r matches Err(e) && e is Validation && e.message() == MSG_IMAGE_EMPTY@),
        len > 0 ==> r is Ok,
{
    if len == 0 {
        Err(AppError::Validation(owned(MSG_IMAGE_EMPTY)))
    } else {
        Ok(())
    }
}

} // verus!
