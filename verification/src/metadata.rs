//! Scraped metadata: which provider a search goes to, how TMDB answers
//! become metadata, and which candidate best matches a title.
use vstd::prelude::*;
use crate::error::AppError;
use crate::model::{MediaMetadata, MediaMetadataEpisode, MediaMetadataSeason, MetadataProvider};
use crate::text::{
    alphanumeric, char_lowercase, char_to_lowercase, chars_of, contains_seq, decimal_string,
    is_alphanumeric_char, opt_view, owned, push_chars, push_str, str_contains, str_eq, str_nonempty,
    string_of,
    trim_seq, trim_str,
};

verus! {

// ---------------------------------------------------------------------------
// Where a search goes
// ---------------------------------------------------------------------------

pub const MSG_EMPTY_QUERY: &'static str = "搜索关键词不能为空";
pub const MSG_NO_TMDB_KEY: &'static str = "未配置 TMDB API Key";
pub const MSG_DOUBAN_DISABLED: &'static str = "豆瓣刮削适配器尚未启用，请先使用 TMDB";
pub const MSG_UNKNOWN_PROVIDER: &'static str = "不支持的元数据提供方: ";
pub const PROVIDER_TMDB: &'static str = "tmdb";
pub const PROVIDER_DOUBAN: &'static str = "douban";
pub const PROVIDER_NONE: &'static str = "none";
pub const TMDB_SEARCH_MOVIE: &'static str = "https://api.themoviedb.org/3/search/movie";
pub const TMDB_SEARCH_TV: &'static str = "https://api.themoviedb.org/3/search/tv";
pub const TMDB_SEARCH_MULTI: &'static str = "https://api.themoviedb.org/3/search/multi";
pub const MEDIA_MOVIE: &'static str = "movie";
pub const MEDIA_SERIES: &'static str = "series";
pub const MEDIA_ANIME: &'static str = "anime";

/// Where a search goes: to TMDB with the trimmed query, or nowhere, giving
/// no results.
#[derive(Debug, Clone, PartialEq, Eq)]
pub enum SearchTarget {
    Tmdb { query: String },
    Nothing,
}

/// An error of the given kind with the given message.
pub open spec fn config_error(e: AppError, m: Seq<char>) -> bool {
    e is Config && e.message() == m
}

/// The search a query leads to with the configured provider (`tmdb`,
/// `douban`, `none` or empty) and TMDB key: refused for a blank query,
/// a missing key, or a provider not supported.
pub fn search_target(provider: &str, api_key: &str, query: &str) -> (r: Result<SearchTarget, AppError>)
    ensures
        trim_seq(query@).len() == 0 ==> (r matches Err(e) && e is Validation && e.message() == MSG_EMPTY_QUERY@),
        trim_seq(query@).len() > 0 ==> if provider@ == PROVIDER_TMDB@ {
            if trim_seq(api_key@).len() == 0 {
                r matches Err(e) && config_error(e, MSG_NO_TMDB_KEY@)
            } else {
                r matches Ok(SearchTarget::Tmdb { query: q }) && q@ == trim_seq(query@)
            }
        } else if provider@ == PROVIDER_DOUBAN@ {
            r matches Err(e) && config_error(e, MSG_DOUBAN_DISABLED@)
        } else if provider@ == PROVIDER_NONE@ || provider@.len() == 0 {
            r matches Ok(SearchTarget::Nothing)
        } else {
            r matches Err(e) && config_error(e, MSG_UNKNOWN_PROVIDER@ + provider@)
        },
{
    let trimmed = trim_str(query);
    if trimmed.len() == 0 {
        return Err(AppError::Validation(owned(MSG_EMPTY_QUERY)));
    }
    if str_eq(provider, PROVIDER_TMDB) {
        if trim_str(api_key).len() == 0 {
            return Err(AppError::Config(owned(MSG_NO_TMDB_KEY)));
        }
        return Ok(SearchTarget::Tmdb { query: string_of(trimmed.as_slice()) });
    }
    if str_eq(provider, PROVIDER_DOUBAN) {
        return Err(AppError::Config(owned(MSG_DOUBAN_DISABLED)));
    }
    if str_eq(provider, PROVIDER_NONE) || !str_nonempty(provider) {
        return Ok(SearchTarget::Nothing);
    }
    let mut m = owned(MSG_UNKNOWN_PROVIDER);
    push_str(&mut m, provider);
    Err(AppError::Config(m))
}

/// The TMDB search a kind of media is looked up with.
pub open spec fn search_endpoint(media_type: Option<Seq<char>>) -> Seq<char> {
    match media_type {
        Some(t) => if t == MEDIA_MOVIE@ {
            TMDB_SEARCH_MOVIE@
        } else if t == MEDIA_SERIES@ || t == MEDIA_ANIME@ {
            TMDB_SEARCH_TV@
        } else {
            TMDB_SEARCH_MULTI@
        },
        None => TMDB_SEARCH_MULTI@,
    }
}

/// The TMDB search a kind of media is looked up with.
pub fn tmdb_search_endpoint(media_type: Option<&str>) -> (r: &'static str)
    ensures
        r@ == search_endpoint(
            match media_type {
                Some(t) => Some(t@),
                None => None,
            },
        ),
{
    match media_type {
        Some(t) => {
            if str_eq(t, MEDIA_MOVIE) {
                TMDB_SEARCH_MOVIE
            } else if str_eq(t, MEDIA_SERIES) || str_eq(t, MEDIA_ANIME) {
                TMDB_SEARCH_TV
            } else {
                TMDB_SEARCH_MULTI
            }
        },
        None => TMDB_SEARCH_MULTI,
    }
}

// ---------------------------------------------------------------------------
// TMDB answers
// ---------------------------------------------------------------------------

pub const TMDB_IMAGE_PREFIX: &'static str = "https://image.tmdb.org/t/p/w500";
pub const TMDB_TV: &'static str = "tv";
pub const TMDB_PERSON: &'static str = "person";
pub const MAX_SEARCH_RESULTS: usize = 10;
pub const MAX_DETAIL_SEASONS: usize = 5;

/// The full address of a TMDB image path that is not blank.
pub open spec fn image_address(path: Option<Seq<char>>) -> Option<Seq<char>> {
    match path {
        Some(p) => if trim_seq(p).len() > 0 {
            Some(TMDB_IMAGE_PREFIX@ + p)
        } else {
            None
        },
        None => None,
    }
}

/// The full address of a TMDB image path that is not blank.
pub fn tmdb_image_url(path: Option<String>) -> (r: Option<String>)
    ensures
        opt_view(r) == image_address(opt_view(path)),
{
    match path {
        Some(p) => {
            if trim_str(p.as_str()).len() > 0 {
                let mut url = owned(TMDB_IMAGE_PREFIX);
                push_str(&mut url, p.as_str());
                Some(url)
            } else {
                None
            }
        },
        None => None,
    }
}

/// A season as TMDB describes it.
#[derive(Debug, Clone)]
pub struct TmdbSeason {
    pub season_number: i32,
    pub episode_count: Option<i32>,
    pub name: String,
    pub air_date: Option<String>,
    pub poster_path: Option<String>,
}

/// An episode as TMDB describes it.
#[derive(Debug, Clone)]
pub struct TmdbEpisode {
    pub season_number: i32,
    pub episode_number: i32,
    pub name: String,
    pub overview: String,
    pub air_date: Option<String>,
    pub still_path: Option<String>,
}

/// The details of a show as TMDB describes them.
#[derive(Debug, Clone)]
pub struct TmdbTvDetails {
    pub number_of_episodes: Option<i32>,
    pub number_of_seasons: Option<i32>,
    pub seasons: Vec<TmdbSeason>,
    pub next_episode_to_air: Option<TmdbEpisode>,
}

/// A search hit as TMDB describes it; its vote is kept as the text it is
/// shown as.
#[derive(Debug, Clone)]
pub struct TmdbSearchItem {
    pub id: i64,
    pub media_type: Option<String>,
    pub title: Option<String>,
    pub name: Option<String>,
    pub original_title: Option<String>,
    pub original_name: Option<String>,
    pub overview: Option<String>,
    pub poster_path: Option<String>,
    pub backdrop_path: Option<String>,
    pub release_date: Option<String>,
    pub first_air_date: Option<String>,
    pub rating: Option<String>,
}

impl TmdbSeason {
    /// The season as metadata, with the poster's full address.
    pub fn into_metadata(self) -> (r: MediaMetadataSeason)
        ensures
            r.season_number == self.season_number,
            r.episode_count == self.episode_count,
            r.name == self.name,
            r.air_date == self.air_date,
            opt_view(r.poster_url) == image_address(opt_view(self.poster_path)),
    {
        MediaMetadataSeason {
            season_number: self.season_number,
            episode_count: self.episode_count,
            name: self.name,
            air_date: self.air_date,
            poster_url: tmdb_image_url(self.poster_path),
        }
    }
}

impl TmdbEpisode {
    /// The episode as metadata; an episode without a season number (0 or
    /// less) takes `fallback_season_number`.
    pub fn into_metadata(self, fallback_season_number: i32) -> (r: MediaMetadataEpisode)
        ensures
            r.season_number == if self.season_number > 0 {
                self.season_number
            } else {
                fallback_season_number
            },
            r.episode_number == self.episode_number,
            r.name == self.name,
            r.overview == self.overview,
            r.air_date == self.air_date,
            opt_view(r.still_url) == image_address(opt_view(self.still_path)),
    {
        MediaMetadataEpisode {
            season_number: if self.season_number > 0 {
                self.season_number
            } else {
                fallback_season_number
            },
            episode_number: self.episode_number,
            name: self.name,
            overview: self.overview,
            air_date: self.air_date,
            still_url: tmdb_image_url(self.still_path),
        }
    }
}

/// The kind TMDB gives a hit, or what its fields suggest: a show where it
/// has a name or a first air date, else a film.
pub open spec fn tmdb_kind(item: TmdbSearchItem) -> Seq<char> {
    match item.media_type {
        Some(t) => t@,
        None => if item.name is Some || item.first_air_date is Some {
            TMDB_TV@
        } else {
            MEDIA_MOVIE@
        },
    }
}

/// The first of two optional values that is present.
pub open spec fn first_of(a: Option<String>, b: Option<String>) -> Option<String> {
    match a {
        Some(x) => Some(x),
        None => b,
    }
}

/// A hit that becomes metadata: not a person, and with a title or name.
pub open spec fn hit_kept(item: TmdbSearchItem) -> bool {
    tmdb_kind(item) != TMDB_PERSON@ && first_of(item.title, item.name) is Some
}

/// The kind of media a hit becomes: a film for `movie`, else a show.
pub open spec fn hit_kind(item: TmdbSearchItem) -> Seq<char> {
    if tmdb_kind(item) == MEDIA_MOVIE@ {
        MEDIA_MOVIE@
    } else {
        MEDIA_SERIES@
    }
}

/// The fields of the metadata of a hit, but for its kind: its TMDB id, title
/// (else name), original title (else original name), overview, full image
/// addresses, release (else first air) date and rating; no details yet.
pub open spec fn hit_fields(item: TmdbSearchItem, m: MediaMetadata) -> bool {
    &&& m.provider == MetadataProvider::Tmdb
    &&& m.provider_id@ == crate::text::int_decimal(item.id as int)
    &&& Some(m.title) == first_of(item.title, item.name)
    &&& m.original_title@ == match first_of(item.original_title, item.original_name) {
        Some(t) => t@,
        None => Seq::<char>::empty(),
    }
    &&& m.overview@ == match item.overview {
        Some(t) => t@,
        None => Seq::<char>::empty(),
    }
    &&& opt_view(m.poster_url) == image_address(opt_view(item.poster_path))
    &&& opt_view(m.backdrop_url) == image_address(opt_view(item.backdrop_path))
    &&& m.release_date == first_of(item.release_date, item.first_air_date)
    &&& m.rating == item.rating
    &&& m.number_of_episodes is None
    &&& m.number_of_seasons is None
    &&& m.seasons@.len() == 0
    &&& m.next_episode_to_air is None
    &&& m.episodes@.len() == 0
}

/// The metadata of a search hit: none for a person or a hit without a
/// title or name.
pub open spec fn hit_metadata(item: TmdbSearchItem, r: Option<MediaMetadata>) -> bool {
    if !hit_kept(item) {
        r is None
    } else {
        r matches Some(m) && hit_fields(item, m) && m.media_type@ == hit_kind(item)
    }
}

fn first_present(a: Option<String>, b: Option<String>) -> (r: Option<String>)
    ensures
        r == first_of(a, b),
{
    match a {
        Some(x) => Some(x),
        None => b,
    }
}

impl TmdbSearchItem {
    /// The hit as metadata, unless it is a person or has no title.
    pub fn into_metadata(self) -> (r: Option<MediaMetadata>)
        ensures
            hit_metadata(self, r),
    {
        let ghost item = self;
        let kind = match self.media_type {
            Some(t) => t,
            None => {
                if self.name.is_some() || self.first_air_date.is_some() {
                    owned(TMDB_TV)
                } else {
                    owned(MEDIA_MOVIE)
                }
            },
        };
        assert(kind@ == tmdb_kind(item));
        if str_eq(kind.as_str(), TMDB_PERSON) {
            return None;
        }
        let media_type = if str_eq(kind.as_str(), MEDIA_MOVIE) {
            owned(MEDIA_MOVIE)
        } else {
            owned(MEDIA_SERIES)
        };
        let title = match first_present(self.title, self.name) {
            Some(t) => t,
            None => {
                return None;
            },
        };
        let original_title = match first_present(self.original_title, self.original_name) {
            Some(t) => t,
            None => String::new(),
        };
        let overview = match self.overview {
            Some(t) => t,
            None => String::new(),
        };
        Some(MediaMetadata {
            provider: MetadataProvider::Tmdb,
            provider_id: decimal_string(self.id),
            title,
            original_title,
            media_type,
            overview,
            poster_url: tmdb_image_url(self.poster_path),
            backdrop_url: tmdb_image_url(self.backdrop_path),
            release_date: first_present(self.release_date, self.first_air_date),
            rating: self.rating,
            number_of_episodes: None,
            number_of_seasons: None,
            seasons: Vec::new(),
            next_episode_to_air: None,
            episodes: Vec::new(),
        })
    }
}

/// The seasons whose episodes are fetched: the first five numbered seasons
/// with episodes, then the season of the next episode to air where it is
/// numbered and not among them.
pub open spec fn detail_seasons(details: TmdbTvDetails) -> Seq<i32> {
    let listed = listed_seasons(details.seasons@);
    let first = if listed.len() > MAX_DETAIL_SEASONS {
        listed.take(MAX_DETAIL_SEASONS as int)
    } else {
        listed
    };
    match details.next_episode_to_air {
        Some(next) => if next.season_number > 0 && !first.contains(next.season_number) {
            first.push(next.season_number)
        } else {
            first
        },
        None => first,
    }
}

/// The numbers of the numbered seasons that have episodes, in order.
pub open spec fn listed_seasons(seasons: Seq<TmdbSeason>) -> Seq<i32>
    decreases seasons.len(),
{
    if seasons.len() == 0 {
        seq![]
    } else {
        let prev = listed_seasons(seasons.drop_last());
        let s = seasons.last();
        if s.season_number > 0 && match s.episode_count {
            Some(n) => n > 0,
            None => false,
        } {
            prev.push(s.season_number)
        } else {
            prev
        }
    }
}

/// The seasons whose episodes are fetched for a show.
pub fn tmdb_episode_season_numbers(details: &TmdbTvDetails) -> (r: Vec<i32>)
    ensures
        r@ == detail_seasons(*details),
{
    let mut listed: Vec<i32> = Vec::new();
    let mut i: usize = 0;
    assert(details.seasons@.take(0) =~= seq![]);
    while i < details.seasons.len()
        invariant
            i <= details.seasons.len(),
            listed@ == listed_seasons(details.seasons@.take(i as int)),
        decreases details.seasons.len() - i,
    {
        assert(details.seasons@.take(i + 1).drop_last() =~= details.seasons@.take(i as int));
        assert(details.seasons@.take(i + 1).last() == details.seasons@[i as int]);
        let s = &details.seasons[i];
        let count = match s.episode_count {
            Some(n) => n,
            None => 0,
        };
        if s.season_number > 0 && count > 0 {
            listed.push(s.season_number);
        }
        i += 1;
    }
    assert(details.seasons@.take(details.seasons.len() as int) =~= details.seasons@);
    if listed.len() > MAX_DETAIL_SEASONS {
        listed.truncate(MAX_DETAIL_SEASONS);
    }
    if let Some(next) = &details.next_episode_to_air {
        if next.season_number > 0 {
            let mut found = false;
            let mut j: usize = 0;
            while j < listed.len()
                invariant
                    j <= listed.len(),
                    found == listed@.take(j as int).contains(next.season_number),
                decreases listed.len() - j,
            {
                let ghost before = listed@.take(j as int);
                let ghost after = listed@.take(j + 1);
                assert(after =~= before.push(listed@[j as int]));
                if listed[j] == next.season_number {
                    found = true;
                    assert(after[j as int] == next.season_number);
                } else {
                    assert(after.contains(next.season_number) == before.contains(next.season_number)) by {
                        if after.contains(next.season_number) {
                            let k = choose|k: int| 0 <= k < after.len() && after[k] == next.season_number;
                            assert(k < j);
                            assert(before[k] == next.season_number);
                        }
                        if before.contains(next.season_number) {
                            let k = choose|k: int| 0 <= k < before.len() && before[k] == next.season_number;
                            assert(after[k] == next.season_number);
                        }
                    }
                }
                j += 1;
            }
            assert(listed@.take(listed.len() as int) =~= listed@);
            if !found {
                listed.push(next.season_number);
            }
        }
    }
    listed
}

// ---------------------------------------------------------------------------
// Picking the best match
// ---------------------------------------------------------------------------

/// A title reduced to its letters and digits, in lower case.
pub open spec fn normalized_title(s: Seq<char>) -> Seq<char>
    decreases s.len(),
{
    if s.len() == 0 {
        seq![]
    } else {
        normalized_title(s.drop_last()) + if alphanumeric(s.last()) {
            char_lowercase(s.last())
        } else {
            Seq::<char>::empty()
        }
    }
}

/// A title reduced to its letters and digits, in lower case.
pub fn normalize_title(value: &str) -> (r: String)
    ensures
        r@ == normalized_title(value@),
{
    let v = chars_of(value);
    let mut out: Vec<char> = Vec::new();
    let mut i: usize = 0;
    assert(v@.take(0) =~= seq![]);
    while i < v.len()
        invariant
            i <= v.len(),
            v@ == value@,
            out@ == normalized_title(v@.take(i as int)),
        decreases v.len() - i,
    {
        assert(v@.take(i + 1).drop_last() =~= v@.take(i as int));
        assert(v@.take(i + 1).last() == v@[i as int]);
        let c = v[i];
        if is_alphanumeric_char(c) {
            let lower = char_to_lowercase(c);
            let mut k: usize = 0;
            let ghost start = out@;
            while k < lower.len()
                invariant
                    k <= lower.len(),
                    out@ == start + lower@.take(k as int),
                decreases lower.len() - k,
            {
                out.push(lower[k]);
                assert(out@ =~= start + lower@.take(k + 1));
                k += 1;
            }
            assert(lower@.take(lower.len() as int) =~= lower@);
        } else {
            assert(out@ =~= out@ + Seq::<char>::empty());
        }
        i += 1;
    }
    assert(v@.take(v.len() as int) =~= v@);
    string_of(out.as_slice())
}

/// Whether a hit of kind `actual` fits the kind searched for: a show fits
/// an anime search, and an empty kind fits anything.
pub open spec fn kind_fits(expected: Seq<char>, actual: Seq<char>) -> bool {
    if expected == MEDIA_ANIME@ {
        actual == MEDIA_ANIME@ || actual == MEDIA_SERIES@
    } else if expected.len() == 0 {
        true
    } else {
        expected == actual
    }
}

/// Whether a hit of kind `actual` fits the kind searched for.
pub fn media_type_compatible(expected: &str, actual: &str) -> (r: bool)
    ensures
        r == kind_fits(expected@, actual@),
{
    if str_eq(expected, MEDIA_ANIME) {
        str_eq(actual, MEDIA_ANIME) || str_eq(actual, MEDIA_SERIES)
    } else if !str_nonempty(expected) {
        true
    } else {
        str_eq(expected, actual)
    }
}

/// How well a hit matches a query, before its vote is added: 100 for the
/// same title, 90 for the same original title, 40 and 30 where they hold
/// the query, 5 for a poster, 5 off for a blank overview (titles compared
/// by their letters and digits in lower case).
pub open spec fn base_score(query: Seq<char>, item: MediaMetadata) -> int {
    let q = normalized_title(query);
    let t = normalized_title(item.title@);
    let o = normalized_title(item.original_title@);
    (if q.len() > 0 && q == t {
        100int
    } else {
        0
    }) + (if q.len() > 0 && q == o {
        90int
    } else {
        0
    }) + (if q.len() > 0 && contains_seq(t, q) {
        40int
    } else {
        0
    }) + (if q.len() > 0 && contains_seq(o, q) {
        30int
    } else {
        0
    }) + (if item.poster_url is Some {
        5int
    } else {
        0
    }) - (if trim_seq(item.overview@).len() == 0 {
        5int
    } else {
        0
    })
}

/// How well a hit matches a query: its base score plus its vote rounded to
/// a whole number (`vote_points`).
pub fn metadata_score(query: &str, item: &MediaMetadata, vote_points: i32) -> (r: i32)
    requires
        i32::MIN <= base_score(query@, *item) + vote_points <= i32::MAX,
    ensures
        r == base_score(query@, *item) + vote_points,
{
    let q = normalize_title(query);
    let t = normalize_title(item.title.as_str());
    let o = normalize_title(item.original_title.as_str());
    let has_query = str_nonempty(q.as_str());
    let mut score: i32 = 0;
    if has_query && str_eq(q.as_str(), t.as_str()) {
        score += 100;
    }
    if has_query && str_eq(q.as_str(), o.as_str()) {
        score += 90;
    }
    if has_query && str_contains(t.as_str(), q.as_str()) {
        score += 40;
    }
    if has_query && str_contains(o.as_str(), q.as_str()) {
        score += 30;
    }
    if item.poster_url.is_some() {
        score += 5;
    }
    if trim_str(item.overview.as_str()).len() == 0 {
        score -= 5;
    }
    score + vote_points
}

/// The score of candidate `i`.
pub open spec fn candidate_score(query: Seq<char>, items: Seq<MediaMetadata>, votes: Seq<i32>, i: int) -> int {
    base_score(query, items[i]) + votes[i]
}

/// Candidate `k` is the last of those that fit whose score is highest.
pub open spec fn last_best(
    query: Seq<char>,
    items: Seq<MediaMetadata>,
    votes: Seq<i32>,
    fits: spec_fn(int) -> bool,
    k: int,
) -> bool {
    &&& 0 <= k < items.len()
    &&& fits(k)
    &&& forall|j: int|
        0 <= j < items.len() && #[trigger] fits(j) ==> candidate_score(query, items, votes, j) <= candidate_score(
            query,
            items,
            votes,
            k,
        ) && (j > k ==> candidate_score(query, items, votes, j) < candidate_score(query, items, votes, k))
}

/// Every score and base score fits in an `i32`.
pub open spec fn scores_fit(query: Seq<char>, items: Seq<MediaMetadata>, votes: Seq<i32>) -> bool {
    forall|i: int|
        0 <= i < items.len() ==> i32::MIN <= #[trigger] candidate_score(query, items, votes, i) <= i32::MAX
}

/// The candidate that best matches a query: the last highest-scoring of
/// those whose kind fits, or of all where none fits; none where there are
/// no candidates. `vote_points` holds each candidate's vote, rounded.
pub fn choose_best_match(
    query: &str,
    media_type: &str,
    candidates: Vec<MediaMetadata>,
    vote_points: &Vec<i32>,
) -> (r: Option<MediaMetadata>)
    requires
        vote_points@.len() == candidates@.len(),
        scores_fit(query@, candidates@, vote_points@),
    ensures
        candidates@.len() == 0 <==> r is None,
        (exists|i: int| 0 <= i < candidates@.len() && kind_fits(media_type@, #[trigger] candidates@[i].media_type@))
            ==> exists|k: int|
            last_best(
                query@,
                candidates@,
                vote_points@,
                |i: int| kind_fits(media_type@, candidates@[i].media_type@),
                k,
            ) && r == Some(#[trigger] candidates@[k]),
        !(exists|i: int| 0 <= i < candidates@.len() && kind_fits(media_type@, #[trigger] candidates@[i].media_type@))
            ==> (candidates@.len() > 0 ==> exists|k: int|
            last_best(query@, candidates@, vote_points@, |i: int| true, k) && r == Some(#[trigger] candidates@[k])),
{
    let ghost items = candidates@;
    let ghost fits = |i: int| kind_fits(media_type@, items[i].media_type@);
    let ghost all = |i: int| true;
    let mut best_fit: Option<(usize, i32)> = None;
    let mut best_any: Option<(usize, i32)> = None;
    let mut i: usize = 0;
    while i < candidates.len()
        invariant
            i <= candidates.len(),
            items == candidates@,
            vote_points@.len() == items.len(),
            scores_fit(query@, items, vote_points@),
            fits == (|i: int| kind_fits(media_type@, items[i].media_type@)),
            all == (|i: int| true),
            match best_fit {
                None => forall|j: int| 0 <= j < i ==> !(#[trigger] fits(j)),
                Some((k, s)) => k < i && s == candidate_score(query@, items, vote_points@, k as int) && last_best(
                    query@,
                    items.take(i as int),
                    vote_points@,
                    fits,
                    k as int,
                ),
            },
            match best_any {
                None => i == 0,
                Some((k, s)) => k < i && s == candidate_score(query@, items, vote_points@, k as int) && last_best(
                    query@,
                    items.take(i as int),
                    vote_points@,
                    all,
                    k as int,
                ),
            },
        decreases candidates.len() - i,
    {
        let item = &candidates[i];
        assert(i32::MIN <= candidate_score(query@, items, vote_points@, i as int) <= i32::MAX);
        let s = metadata_score(query, item, vote_points[i]);
        proof {
            assert(s == candidate_score(query@, items, vote_points@, i as int));
            assert forall|j: int| 0 <= j <= i implies candidate_score(query@, items.take(i + 1), vote_points@, j)
                == candidate_score(query@, items, vote_points@, j) && #[trigger] items.take(i + 1)[j] == items[j] by {
            }
            assert forall|j: int| 0 <= j < i implies candidate_score(query@, items.take(i as int), vote_points@, j)
                == candidate_score(query@, items, vote_points@, j) && #[trigger] items.take(i as int)[j] == items[j] by {
            }
        }
        let fit = media_type_compatible(media_type, item.media_type.as_str());
        best_any = match best_any {
            Some((k, b)) => if s >= b {
                Some((i, s))
            } else {
                Some((k, b))
            },
            None => Some((i, s)),
        };
        if fit {
            best_fit = match best_fit {
                Some((k, b)) => if s >= b {
                    Some((i, s))
                } else {
                    Some((k, b))
                },
                None => Some((i, s)),
            };
        }
        i += 1;
    }
    assert(items.take(items.len() as int) =~= items);
    let chosen = match best_fit {
        Some((k, _)) => Some(k),
        None => match best_any {
            Some((k, _)) => Some(k),
            None => None,
        },
    };
    match chosen {
        Some(k) => {
            let mut rest = candidates;
            Some(rest.swap_remove(k))
        },
        None => None,
    }
}

// ---------------------------------------------------------------------------
// Shaping search results
// ---------------------------------------------------------------------------

/// The hits that become metadata, in order.
pub open spec fn kept_hits(items: Seq<TmdbSearchItem>) -> Seq<TmdbSearchItem>
    decreases items.len(),
{
    if items.len() == 0 {
        seq![]
    } else if hit_kept(items.last()) {
        kept_hits(items.drop_last()).push(items.last())
    } else {
        kept_hits(items.drop_last())
    }
}

/// The kind a result is shown as: a show found by an anime search is
/// anime.
pub open spec fn shown_kind(media_type: Option<Seq<char>>, kind: Seq<char>) -> Seq<char> {
    if media_type == Some(MEDIA_ANIME@) && kind == MEDIA_SERIES@ {
        MEDIA_ANIME@
    } else {
        kind
    }
}

/// The hits as metadata: persons and untitled hits dropped, shows found by
/// an anime search labelled anime, at most the first ten.
pub fn search_results(items: Vec<TmdbSearchItem>, media_type: Option<&str>) -> (r: Vec<MediaMetadata>)
    ensures
        r@.len() == if kept_hits(items@).len() > MAX_SEARCH_RESULTS {
            MAX_SEARCH_RESULTS as int
        } else {
            kept_hits(items@).len() as int
        },
        forall|k: int|
            0 <= k < r@.len() ==> hit_fields(kept_hits(items@)[k], #[trigger] r@[k]) && r@[k].media_type@
                == shown_kind(
                match media_type {
                    Some(t) => Some(t@),
                    None => None,
                },
                hit_kind(kept_hits(items@)[k]),
            ),
{
    let ghost all = items@;
    let ghost mt = match media_type {
        Some(t) => Some(t@),
        None => None::<Seq<char>>,
    };
    let anime_search = match media_type {
        Some(t) => str_eq(t, MEDIA_ANIME),
        None => false,
    };
    let mut out: Vec<MediaMetadata> = Vec::new();
    let mut i: usize = 0;
    let n = items.len();
    let mut rest = items;
    assert(all.take(0) =~= seq![]);
    while i < n
        invariant
            n == all.len(),
            i <= all.len(),
            rest@.len() == all.len() - i,
            rest@ == all.skip(i as int),
            anime_search == (mt == Some(MEDIA_ANIME@)),
            out@.len() == if kept_hits(all.take(i as int)).len() > MAX_SEARCH_RESULTS {
                MAX_SEARCH_RESULTS as int
            } else {
                kept_hits(all.take(i as int)).len() as int
            },
            forall|k: int|
                0 <= k < out@.len() ==> hit_fields(kept_hits(all.take(i as int))[k], #[trigger] out@[k])
                    && out@[k].media_type@ == shown_kind(mt, hit_kind(kept_hits(all.take(i as int))[k])),
        decreases all.len() - i,
    {
        let item = rest.remove(0);
        assert(rest@ =~= all.skip(i + 1));
        assert(item == all[i as int]);
        assert(all.take(i + 1).drop_last() =~= all.take(i as int));
        assert(all.take(i + 1).last() == all[i as int]);
        let ghost prev = kept_hits(all.take(i as int));
        let ghost next = kept_hits(all.take(i + 1));
        let converted = item.into_metadata();
        match converted {
            Some(mut m) => {
                assert(next == prev.push(all[i as int]));
                if out.len() < MAX_SEARCH_RESULTS {
                    if anime_search && str_eq(m.media_type.as_str(), MEDIA_SERIES) {
                        m.media_type = owned(MEDIA_ANIME);
                    }
                    out.push(m);
                    assert(forall|k: int| 0 <= k < prev.len() ==> next[k] == prev[k]);
                }
            },
            None => {
                assert(next == prev);
            },
        }
        i += 1;
    }
    assert(all.take(all.len() as int) =~= all);
    out
}

/// Whether a result is a show whose seasons are looked up.
pub fn wants_tv_details(item: &MediaMetadata) -> (r: bool)
    ensures
        r == (item.media_type@ == MEDIA_SERIES@ || item.media_type@ == MEDIA_ANIME@),
{
    str_eq(item.media_type.as_str(), MEDIA_SERIES) || str_eq(item.media_type.as_str(), MEDIA_ANIME)
}

/// The metadata of a TMDB season.
pub open spec fn season_meta(s: TmdbSeason, m: MediaMetadataSeason) -> bool {
    &&& m.season_number == s.season_number
    &&& m.episode_count == s.episode_count
    &&& m.name == s.name
    &&& m.air_date == s.air_date
    &&& opt_view(m.poster_url) == image_address(opt_view(s.poster_path))
}

/// The metadata of a TMDB episode, with `fallback` for an unnumbered
/// season.
pub open spec fn episode_meta(e: TmdbEpisode, fallback: i32, m: MediaMetadataEpisode) -> bool {
    &&& m.season_number == if e.season_number > 0 {
        e.season_number
    } else {
        fallback
    }
    &&& m.episode_number == e.episode_number
    &&& m.name == e.name
    &&& m.overview == e.overview
    &&& m.air_date == e.air_date
    &&& opt_view(m.still_url) == image_address(opt_view(e.still_path))
}

/// Adds a show's details to its search result: episode and season counts,
/// the next episode to air and the seasons; returns the seasons whose
/// episodes are looked up next.
pub fn apply_tv_details(item: &mut MediaMetadata, details: TmdbTvDetails) -> (r: Vec<i32>)
    ensures
        r@ == detail_seasons(details),
        final(item).number_of_episodes == details.number_of_episodes,
        final(item).number_of_seasons == details.number_of_seasons,
        match details.next_episode_to_air {
            Some(e) => final(item).next_episode_to_air matches Some(m) && episode_meta(e, e.season_number, m),
            None => final(item).next_episode_to_air is None,
        },
        final(item).seasons@.len() == details.seasons@.len(),
        forall|k: int|
            0 <= k < details.seasons@.len() ==> season_meta(details.seasons@[k], #[trigger] final(item).seasons@[k]),
        *final(item) == (MediaMetadata {
            number_of_episodes: final(item).number_of_episodes,
            number_of_seasons: final(item).number_of_seasons,
            next_episode_to_air: final(item).next_episode_to_air,
            seasons: final(item).seasons,
            ..*old(item)
        }),
{
    let numbers = tmdb_episode_season_numbers(&details);
    let ghost d = details;
    item.number_of_episodes = details.number_of_episodes;
    item.number_of_seasons = details.number_of_seasons;
    item.next_episode_to_air = match details.next_episode_to_air {
        Some(e) => {
            let n = e.season_number;
            Some(e.into_metadata(n))
        },
        None => None,
    };
    let mut seasons: Vec<MediaMetadataSeason> = Vec::new();
    let n = details.seasons.len();
    let mut rest = details.seasons;
    let mut i: usize = 0;
    while i < n
        invariant
            n == d.seasons@.len(),
            i <= d.seasons@.len(),
            rest@.len() == d.seasons@.len() - i,
            rest@ == d.seasons@.skip(i as int),
            seasons@.len() == i,
            forall|k: int| 0 <= k < i ==> season_meta(d.seasons@[k], #[trigger] seasons@[k]),
        decreases d.seasons@.len() - i,
    {
        let s = rest.remove(0);
        assert(rest@ =~= d.seasons@.skip(i + 1));
        assert(s == d.seasons@[i as int]);
        seasons.push(s.into_metadata());
        i += 1;
    }
    item.seasons = seasons;
    numbers
}

/// Adds the episodes of a season to a result, in order.
pub fn append_season_episodes(item: &mut MediaMetadata, season_number: i32, episodes: Vec<TmdbEpisode>)
    ensures
        final(item).episodes@.len() == old(item).episodes@.len() + episodes@.len(),
        forall|k: int| 0 <= k < old(item).episodes@.len() ==> #[trigger] final(item).episodes@[k] == old(item).episodes@[k],
        forall|k: int|
            0 <= k < episodes@.len() ==> episode_meta(
                episodes@[k],
                season_number,
                #[trigger] final(item).episodes@[old(item).episodes@.len() + k],
            ),
        *final(item) == (MediaMetadata { episodes: final(item).episodes, ..*old(item) }),
{
    let ghost all = episodes@;
    let ghost start = item.episodes@;
    let n = episodes.len();
    let mut rest = episodes;
    let mut i: usize = 0;
    while i < n
        invariant
            n == all.len(),
            i <= all.len(),
            rest@.len() == all.len() - i,
            rest@ == all.skip(i as int),
            item.episodes@.len() == start.len() + i,
            forall|k: int| 0 <= k < start.len() ==> #[trigger] item.episodes@[k] == start[k],
            forall|k: int| 0 <= k < i ==> episode_meta(all[k], season_number, #[trigger] item.episodes@[start.len() + k]),
            *item == (MediaMetadata { episodes: item.episodes, ..*old(item) }),
            start == old(item).episodes@,
        decreases all.len() - i,
    {
        let e = rest.remove(0);
        assert(rest@ =~= all.skip(i + 1));
        assert(e == all[i as int]);
        item.episodes.push(e.into_metadata(season_number));
        i += 1;
    }
}

} // verus!
