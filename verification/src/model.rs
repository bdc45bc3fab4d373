//! The records the services read and update.
use vstd::prelude::*;
use crate::text::{opt_view, views};

verus! {

/// A file seen when probing a share.
#[derive(Debug, Clone, PartialEq, Eq)]
pub struct ProbeFile {
    pub name: String,
    pub is_dir: bool,
    pub parent_path: String,
    pub size: i64,
    pub updated_at: Option<String>,
    pub file_key: String,
}

/// Outcome of probing a share link.
#[derive(Debug, Clone, PartialEq, Eq)]
pub struct ProbeResult {
    pub ok: bool,
    pub state: String,
    pub message: String,
    pub files: Vec<ProbeFile>,
}

/// Where a subscription's metadata came from.
#[derive(Debug, Clone, Copy, PartialEq, Eq)]
pub enum MetadataProvider {
    Tmdb,
    Douban,
}

/// One season of a show's metadata.
#[derive(Debug, Clone, PartialEq, Eq)]
pub struct MediaMetadataSeason {
    pub season_number: i32,
    pub episode_count: Option<i32>,
    pub name: String,
    pub air_date: Option<String>,
    pub poster_url: Option<String>,
}

/// One episode of a show's metadata.
#[derive(Debug, Clone, PartialEq, Eq)]
pub struct MediaMetadataEpisode {
    pub season_number: i32,
    pub episode_number: i32,
    pub name: String,
    pub overview: String,
    pub air_date: Option<String>,
    pub still_url: Option<String>,
}

/// Scraped metadata of a show or film. The rating is kept as the text it is
/// shown as.
#[derive(Debug, Clone, PartialEq, Eq)]
pub struct MediaMetadata {
    pub provider: MetadataProvider,
    pub provider_id: String,
    pub title: String,
    pub original_title: String,
    pub media_type: String,
    pub overview: String,
    pub poster_url: Option<String>,
    pub backdrop_url: Option<String>,
    pub release_date: Option<String>,
    pub rating: Option<String>,
    pub number_of_episodes: Option<i32>,
    pub number_of_seasons: Option<i32>,
    pub seasons: Vec<MediaMetadataSeason>,
    pub next_episode_to_air: Option<MediaMetadataEpisode>,
    pub episodes: Vec<MediaMetadataEpisode>,
}

/// Quality assessment of a share source.
#[derive(Debug, Clone, PartialEq, Eq)]
pub struct SourceQuality {
    pub score: u8,
    pub grade: String,
    pub tone: String,
    pub tags: Vec<String>,
    pub risks: Vec<String>,
    pub resolution: String,
    pub file_count: usize,
    pub video_count: usize,
    pub episode_count: usize,
    pub episode_start: Option<i32>,
    pub episode_end: Option<i32>,
    pub total_size: i64,
    pub updated_at: Option<String>,
    pub recommendation_reasons: Vec<String>,
}

impl Default for SourceQuality {
    fn default() -> (r: Self)
        ensures
            r.score == 0,
            r.grade@ == Seq::<char>::empty(),
            r.tone@ == Seq::<char>::empty(),
            r.tags@.len() == 0,
            r.risks@.len() == 0,
            r.resolution@ == Seq::<char>::empty(),
            r.file_count == 0,
            r.video_count == 0,
            r.episode_count == 0,
            r.episode_start is None,
            r.episode_end is None,
            r.total_size == 0,
            r.updated_at is None,
            r.recommendation_reasons@.len() == 0,
    {
        SourceQuality {
            score: 0,
            grade: String::new(),
            tone: String::new(),
            tags: Vec::new(),
            risks: Vec::new(),
            resolution: String::new(),
            file_count: 0,
            video_count: 0,
            episode_count: 0,
            episode_start: None,
            episode_end: None,
            total_size: 0,
            updated_at: None,
            recommendation_reasons: Vec::new(),
        }
    }
}

/// The settings the services read.
#[derive(Debug, Clone, PartialEq, Eq)]
pub struct Settings {
    pub source_switch_min_score: i32,
    pub source_switch_min_score_delta: i32,
    pub source_switch_failure_threshold: i32,
    pub source_switch_cooldown_hours: i32,
    pub media_library_refresh_enabled: bool,
    pub media_library_refresh_url: String,
    pub media_library_type: String,
    pub media_library_token: String,
    pub strm_enabled: bool,
    pub strm_public_base_url: String,
    pub strm_access_token: String,
    pub strm_output_dir: String,
    pub media_metadata_files_enabled: bool,
    pub subscription_check_interval_minutes: i32,
    pub push_on_update: bool,
    pub push_on_failed: bool,
    pub push_on_completed: bool,
    pub push_on_save: bool,
    pub push_on_download_completed: bool,
    pub push_on_quark_signin: bool,
    pub push_dedup_window_seconds: i64,
    pub push_digest_enabled: bool,
    pub push_digest_window_minutes: i64,
    pub wecom_bot_url: String,
    pub wxpusher_app_token: String,
    pub telegram_bot_token: String,
    pub telegram_chat_id: String,
    pub bark_url: String,
    pub gotify_url: String,
    pub gotify_token: String,
    pub pushplus_token: String,
    pub serverchan_key: String,
    pub browser_push_subscriptions: Vec<String>,
    pub webhook_enabled: bool,
    pub webhook_urls: Vec<String>,
    pub auto_download_new_subscription_items: bool,
    pub quark_save_enabled: bool,
    pub pansou_api_url: String,
    pub auto_source_switch_enabled: bool,
    pub auto_source_switch_mode: String,
}

/// The media library kind the settings start with.
pub const DEFAULT_MEDIA_LIBRARY_TYPE: &'static str = "jellyfin";

impl Default for Settings {
    fn default() -> (r: Self)
        ensures
            r.source_switch_min_score == 70,
            r.source_switch_min_score_delta == 10,
            r.source_switch_failure_threshold == 3,
            r.source_switch_cooldown_hours == 24,
            !r.media_library_refresh_enabled,
            r.media_library_refresh_url@ == Seq::<char>::empty(),
            r.media_library_type@ == DEFAULT_MEDIA_LIBRARY_TYPE@,
            r.media_library_token@ == Seq::<char>::empty(),
            !r.strm_enabled,
            r.strm_public_base_url@ == Seq::<char>::empty(),
            r.strm_access_token@ == Seq::<char>::empty(),
            r.strm_output_dir@ == Seq::<char>::empty(),
            !r.media_metadata_files_enabled,
            r.subscription_check_interval_minutes == 60,
            r.push_on_update && r.push_on_failed && r.push_on_completed && r.push_on_save
                && r.push_on_download_completed && r.push_on_quark_signin,
            r.push_dedup_window_seconds == 0,
            !r.push_digest_enabled,
            r.push_digest_window_minutes == 0,
            r.wecom_bot_url@ == Seq::<char>::empty(),
            r.wxpusher_app_token@ == Seq::<char>::empty(),
            r.telegram_bot_token@ == Seq::<char>::empty(),
            r.telegram_chat_id@ == Seq::<char>::empty(),
            r.bark_url@ == Seq::<char>::empty(),
            r.gotify_url@ == Seq::<char>::empty(),
            r.gotify_token@ == Seq::<char>::empty(),
            r.pushplus_token@ == Seq::<char>::empty(),
            r.serverchan_key@ == Seq::<char>::empty(),
            r.browser_push_subscriptions@.len() == 0,
            !r.webhook_enabled,
            r.webhook_urls@.len() == 0,
            !r.auto_download_new_subscription_items,
            !r.quark_save_enabled,
            r.pansou_api_url@ == Seq::<char>::empty(),
            !r.auto_source_switch_enabled,
            r.auto_source_switch_mode@ == Seq::<char>::empty(),
    {
        Settings {
            source_switch_min_score: 70,
            source_switch_min_score_delta: 10,
            source_switch_failure_threshold: 3,
            source_switch_cooldown_hours: 24,
            media_library_refresh_enabled: false,
            media_library_refresh_url: String::new(),
            media_library_type: crate::text::owned(DEFAULT_MEDIA_LIBRARY_TYPE),
            media_library_token: String::new(),
            strm_enabled: false,
            strm_public_base_url: String::new(),
            strm_access_token: String::new(),
            strm_output_dir: String::new(),
            media_metadata_files_enabled: false,
            subscription_check_interval_minutes: 60,
            push_on_update: true,
            push_on_failed: true,
            push_on_completed: true,
            push_on_save: true,
            push_on_download_completed: true,
            push_on_quark_signin: true,
            push_dedup_window_seconds: 0,
            push_digest_enabled: false,
            push_digest_window_minutes: 0,
            wecom_bot_url: String::new(),
            wxpusher_app_token: String::new(),
            telegram_bot_token: String::new(),
            telegram_chat_id: String::new(),
            bark_url: String::new(),
            gotify_url: String::new(),
            gotify_token: String::new(),
            pushplus_token: String::new(),
            serverchan_key: String::new(),
            browser_push_subscriptions: Vec::new(),
            webhook_enabled: false,
            webhook_urls: Vec::new(),
            auto_download_new_subscription_items: false,
            quark_save_enabled: false,
            pansou_api_url: String::new(),
            auto_source_switch_enabled: false,
            auto_source_switch_mode: String::new(),
        }
    }
}

/// A share found as a possible replacement source.
#[derive(Debug, Clone, PartialEq, Eq)]
pub struct SourceCandidate {
    pub id: String,
    pub source: String,
    pub url: String,
    pub password: String,
    pub note: String,
    pub discovered_at: i64,
    pub probe_info: Option<ProbeResult>,
    pub quality: SourceQuality,
}

/// One entry of a subscription's source-switch audit trail.
#[derive(Debug, Clone, PartialEq, Eq)]
pub struct SourceSwitchHistoryItem {
    pub id: String,
    pub candidate_id: String,
    pub from_url: String,
    pub from_password: String,
    pub to_url: String,
    pub to_password: String,
    pub quality: SourceQuality,
    pub reason: String,
    pub status: String,
    pub error: String,
    pub automatic: bool,
    pub created_at: i64,
    pub rolled_back_at: Option<i64>,
}

/// The per-subscription rules the services read.
#[derive(Debug, Clone, PartialEq, Eq)]
pub struct TransferRules {
    pub finish_after_episode: Option<i32>,
    pub check_interval_minutes: i32,
    pub check_weekdays: Vec<i32>,
    pub notify_on_update: bool,
    pub notify_on_invalid: bool,
    pub ignore_extensions: bool,
    pub include_keywords: Vec<String>,
    pub exclude_keywords: Vec<String>,
    pub match_regex: String,
    pub episode_regex: String,
    pub duplicate_episode_strategy: String,
}

impl Default for TransferRules {
    fn default() -> (r: Self)
        ensures
            r.finish_after_episode is None,
            r.check_interval_minutes == 0,
            r.check_weekdays@.len() == 0,
            r.notify_on_update,
            r.notify_on_invalid,
            !r.ignore_extensions,
            r.include_keywords@.len() == 0,
            r.exclude_keywords@.len() == 0,
            r.match_regex@ == Seq::<char>::empty(),
            r.episode_regex@ == Seq::<char>::empty(),
            r.duplicate_episode_strategy@ == Seq::<char>::empty(),
    {
        TransferRules {
            finish_after_episode: None,
            check_interval_minutes: 0,
            check_weekdays: Vec::new(),
            notify_on_update: true,
            notify_on_invalid: true,
            ignore_extensions: false,
            include_keywords: Vec::new(),
            exclude_keywords: Vec::new(),
            match_regex: String::new(),
            episode_regex: String::new(),
            duplicate_episode_strategy: String::new(),
        }
    }
}

/// One file a subscription handed to the downloader.
#[derive(Debug, Clone, PartialEq, Eq)]
pub struct SyncDownloadRecord {
    pub gid: String,
    pub file_name: String,
    pub download_dir: String,
    pub target_dir: String,
    pub submitted_at: i64,
    pub completed_at: Option<i64>,
}

/// One file of a merged download notification.
#[derive(Debug, Clone, PartialEq, Eq)]
pub struct BatchFileMeta {
    pub gid: String,
    pub file_name: String,
    pub dir: String,
}

/// One download listed in a transfer notification: its gid and file name,
/// where they are text.
#[derive(Debug, Clone, PartialEq, Eq)]
pub struct DownloadRef {
    pub gid: Option<String>,
    pub file_name: Option<String>,
}

/// The attributes a notification carries, each present only where it was
/// recorded with the type given here. `gids` holds one entry per recorded
/// id, `None` where that entry is not text.
#[derive(Debug, Clone, PartialEq, Eq)]
pub struct NotificationMeta {
    pub gid: Option<String>,
    pub gids: Option<Vec<Option<String>>>,
    pub file_name: Option<String>,
    pub dir: Option<String>,
    pub total_length: Option<u64>,
    pub completed_length: Option<u64>,
    pub error_code: Option<String>,
    pub error_message: Option<String>,
    pub poster_url: Option<String>,
    pub subscription_id: Option<String>,
    pub subscription_title: Option<String>,
    pub batch_submitted_at: Option<i64>,
    pub file_count: Option<u64>,
    pub files: Option<Vec<BatchFileMeta>>,
    pub sync_downloads: Option<Vec<DownloadRef>>,
    pub completed_download_files: Option<Vec<String>>,
}

impl NotificationMeta {
    /// No attribute at all.
    pub fn empty() -> (r: Self)
        ensures
            r.gid is None,
            r.gids is None,
            r.file_name is None,
            r.dir is None,
            r.total_length is None,
            r.completed_length is None,
            r.error_code is None,
            r.error_message is None,
            r.poster_url is None,
            r.subscription_id is None,
            r.subscription_title is None,
            r.batch_submitted_at is None,
            r.file_count is None,
            r.files is None,
            r.sync_downloads is None,
            r.completed_download_files is None,
    {
        NotificationMeta {
            gid: None,
            gids: None,
            file_name: None,
            dir: None,
            total_length: None,
            completed_length: None,
            error_code: None,
            error_message: None,
            poster_url: None,
            subscription_id: None,
            subscription_title: None,
            batch_submitted_at: None,
            file_count: None,
            files: None,
            sync_downloads: None,
            completed_download_files: None,
        }
    }
}

/// A stored notification.
#[derive(Debug, Clone, PartialEq, Eq)]
pub struct Notification {
    pub id: String,
    pub level: String,
    pub event: String,
    pub title: String,
    pub message: String,
    pub meta: NotificationMeta,
    pub read: bool,
    pub created_at: i64,
}

/// One entry of a subscription's check history.
#[derive(Debug, Clone, PartialEq, Eq)]
pub struct CheckHistoryItem {
    pub time: i64,
    pub state: String,
    pub matched_count: i32,
    pub transfer_count: i32,
    pub scanned_count: i32,
    pub new_count: i32,
    pub known_count: i32,
    pub skipped_directory_count: i32,
    pub skipped_other_season_count: i32,
    pub skipped_before_start_count: i32,
    pub skipped_duplicate_episode_count: i32,
    pub new_files: Vec<String>,
    pub new_episodes: Vec<i32>,
    pub summary: String,
}

/// A followed show or film and its progress.
#[derive(Debug, Clone, PartialEq, Eq)]
pub struct Subscription {
    pub id: String,
    pub title: String,
    pub source_title: String,
    pub media_type: String,
    pub season: i32,
    pub season_end: Option<i32>,
    pub start_episode_number: Option<i32>,
    pub current_episode_number: i32,
    pub total_episode_number: Option<i32>,
    pub metadata: Option<MediaMetadata>,
    pub url: String,
    pub password: String,
    pub known_files: Vec<String>,
    pub known_file_keys: Vec<String>,
    pub known_episodes: Vec<i32>,
    pub transferred_files: Vec<String>,
    pub transferred_file_keys: Vec<String>,
    pub last_probe: Option<ProbeResult>,
    pub notify_only: bool,
    pub sync_download_enabled: bool,
    pub sync_downloads: Vec<SyncDownloadRecord>,
    pub strm_enabled: bool,
    pub enabled: bool,
    pub completed: bool,
    pub rules: TransferRules,
    pub last_checked_at: i64,
    pub last_new_files: Vec<String>,
    pub last_new_episodes: Vec<i32>,
    pub last_check_summary: String,
    pub status: String,
    pub invalid_since: Option<i64>,
    pub last_error: String,
    pub source_candidates: Vec<SourceCandidate>,
    pub previous_share_links: Vec<String>,
    pub source_failure_count: u32,
    pub last_source_switch_at: Option<i64>,
    pub source_switch_history: Vec<SourceSwitchHistoryItem>,
    pub cloud_type: String,
    pub created_at: i64,
    pub updated_at: i64,
    pub check_history: Vec<CheckHistoryItem>,
    pub last_source_search_time: Option<i64>,
}

impl Subscription {
    /// Whether the subscription spans more than one season.
    pub open spec fn spans_seasons(&self) -> bool {
        match self.season_end {
            Some(end) => end > self.season,
            None => false,
        }
    }

    /// Whether the subscription spans more than one season.
    pub fn is_multi_season(&self) -> (r: bool)
        ensures
            r == self.spans_seasons(),
    {
        match self.season_end {
            Some(end) => end > self.season,
            None => false,
        }
    }
}

/// Episode count the metadata gives for a season.
pub open spec fn season_episode_count(metadata: Option<MediaMetadata>, season: i32) -> Option<i32> {
    match metadata {
        Some(m) => first_season_count(m.seasons@, season),
        None => None,
    }
}

pub open spec fn first_season_count(seasons: Seq<MediaMetadataSeason>, season: i32) -> Option<i32>
    decreases seasons.len(),
{
    if seasons.len() == 0 {
        None
    } else if seasons[0].season_number == season {
        seasons[0].episode_count
    } else {
        first_season_count(seasons.drop_first(), season)
    }
}

/// Episode count the metadata gives for a season (the first entry for that
/// season number).
pub fn episode_count_for_season(metadata: Option<&MediaMetadata>, season: i32) -> (r: Option<i32>)
    ensures
        r == season_episode_count(
            match metadata {
                Some(m) => Some(*m),
                None => None,
            },
            season,
        ),
{
    let m = match metadata {
        Some(m) => m,
        None => {
            return None;
        },
    };
    let mut i: usize = 0;
    let ghost ss = m.seasons@;
    assert(ss.skip(0) =~= ss);
    while i < m.seasons.len()
        invariant
            i <= m.seasons.len(),
            ss == m.seasons@,
            first_season_count(ss, season) == season_episode_count(
                match metadata {
                    Some(m) => Some(*m),
                    None => None,
                },
                season,
            ),
            first_season_count(ss, season) == first_season_count(ss.skip(i as int), season),
        decreases m.seasons.len() - i,
    {
        assert(ss.skip(i as int)[0] == ss[i as int]);
        assert(ss.skip(i as int).drop_first() =~= ss.skip(i + 1));
        if m.seasons[i].season_number == season {
            return m.seasons[i].episode_count;
        }
        i = i + 1;
    }
    None
}

// ---------------------------------------------------------------------------
// Views
// ---------------------------------------------------------------------------

/// A probed file as values.
pub struct ProbeFileView {
    pub name: Seq<char>,
    pub is_dir: bool,
    pub parent_path: Seq<char>,
    pub size: i64,
    pub updated_at: Option<Seq<char>>,
    pub file_key: Seq<char>,
}

impl View for ProbeFile {
    type V = ProbeFileView;

    open spec fn view(&self) -> ProbeFileView {
        ProbeFileView {
            name: self.name@,
            is_dir: self.is_dir,
            parent_path: self.parent_path@,
            size: self.size,
            updated_at: opt_view(self.updated_at),
            file_key: self.file_key@,
        }
    }
}

/// A probe outcome as values.
pub struct ProbeResultView {
    pub ok: bool,
    pub state: Seq<char>,
    pub message: Seq<char>,
    pub files: Seq<ProbeFileView>,
}

impl View for ProbeResult {
    type V = ProbeResultView;

    open spec fn view(&self) -> ProbeResultView {
        ProbeResultView {
            ok: self.ok,
            state: self.state@,
            message: self.message@,
            files: self.files@.map_values(|f: ProbeFile| f@),
        }
    }
}

/// The view of an optional probe outcome.
pub open spec fn probe_view(o: Option<ProbeResult>) -> Option<ProbeResultView> {
    match o {
        Some(p) => Some(p@),
        None => None,
    }
}

/// A quality assessment as values.
pub struct QualityView {
    pub score: u8,
    pub grade: Seq<char>,
    pub tone: Seq<char>,
    pub tags: Seq<Seq<char>>,
    pub risks: Seq<Seq<char>>,
    pub resolution: Seq<char>,
    pub file_count: usize,
    pub video_count: usize,
    pub episode_count: usize,
    pub episode_start: Option<i32>,
    pub episode_end: Option<i32>,
    pub total_size: i64,
    pub updated_at: Option<Seq<char>>,
    pub recommendation_reasons: Seq<Seq<char>>,
}

impl View for SourceQuality {
    type V = QualityView;

    open spec fn view(&self) -> QualityView {
        QualityView {
            score: self.score,
            grade: self.grade@,
            tone: self.tone@,
            tags: views(self.tags@),
            risks: views(self.risks@),
            resolution: self.resolution@,
            file_count: self.file_count,
            video_count: self.video_count,
            episode_count: self.episode_count,
            episode_start: self.episode_start,
            episode_end: self.episode_end,
            total_size: self.total_size,
            updated_at: opt_view(self.updated_at),
            recommendation_reasons: views(self.recommendation_reasons@),
        }
    }
}

/// A replacement candidate as values.
pub struct CandidateView {
    pub id: Seq<char>,
    pub source: Seq<char>,
    pub url: Seq<char>,
    pub password: Seq<char>,
    pub note: Seq<char>,
    pub discovered_at: i64,
    pub probe_info: Option<ProbeResultView>,
    pub quality: QualityView,
}

impl View for SourceCandidate {
    type V = CandidateView;

    open spec fn view(&self) -> CandidateView {
        CandidateView {
            id: self.id@,
            source: self.source@,
            url: self.url@,
            password: self.password@,
            note: self.note@,
            discovered_at: self.discovered_at,
            probe_info: probe_view(self.probe_info),
            quality: self.quality@,
        }
    }
}

/// A copy of a list of strings.
pub fn copy_strings(v: &Vec<String>) -> (r: Vec<String>)
    ensures
        views(r@) == views(v@),
{
    let mut out: Vec<String> = Vec::new();
    let mut i: usize = 0;
    while i < v.len()
        invariant
            i <= v.len(),
            views(out@) == views(v@).take(i as int),
        decreases v.len() - i,
    {
        let ghost before = views(out@);
        out.push(v[i].clone());
        assert(views(out@) =~= before.push(v@[i as int]@));
        assert(views(v@).take(i + 1) =~= views(v@).take(i as int).push(v@[i as int]@));
        i = i + 1;
    }
    assert(views(v@).take(v.len() as int) =~= views(v@));
    out
}

/// A copy of an optional string.
pub fn copy_opt_string(o: &Option<String>) -> (r: Option<String>)
    ensures
        opt_view(r) == opt_view(*o),
{
    match o {
        Some(s) => Some(s.clone()),
        None => None,
    }
}

/// A copy of a probe outcome.
pub fn copy_probe(p: &ProbeResult) -> (r: ProbeResult)
    ensures
        r@ == p@,
{
    let mut files: Vec<ProbeFile> = Vec::new();
    let mut i: usize = 0;
    while i < p.files.len()
        invariant
            i <= p.files.len(),
            files@.map_values(|f: ProbeFile| f@) == p.files@.map_values(|f: ProbeFile| f@).take(
                i as int,
            ),
        decreases p.files.len() - i,
    {
        let f = &p.files[i];
        let ghost before = files@.map_values(|f: ProbeFile| f@);
        files.push(
            ProbeFile {
                name: f.name.clone(),
                is_dir: f.is_dir,
                parent_path: f.parent_path.clone(),
                size: f.size,
                updated_at: copy_opt_string(&f.updated_at),
                file_key: f.file_key.clone(),
            },
        );
        assert(files@.map_values(|f: ProbeFile| f@) =~= before.push(p.files@[i as int]@));
        assert(p.files@.map_values(|f: ProbeFile| f@).take(i + 1) =~= p.files@.map_values(
            |f: ProbeFile| f@,
        ).take(i as int).push(p.files@[i as int]@));
        i = i + 1;
    }
    assert(p.files@.map_values(|f: ProbeFile| f@).take(p.files.len() as int) =~= p.files@.map_values(
        |f: ProbeFile| f@,
    ));
    ProbeResult { ok: p.ok, state: p.state.clone(), message: p.message.clone(), files }
}

/// A copy of a quality assessment.
pub fn copy_quality(q: &SourceQuality) -> (r: SourceQuality)
    ensures
        r@ == q@,
{
    SourceQuality {
        score: q.score,
        grade: q.grade.clone(),
        tone: q.tone.clone(),
        tags: copy_strings(&q.tags),
        risks: copy_strings(&q.risks),
        resolution: q.resolution.clone(),
        file_count: q.file_count,
        video_count: q.video_count,
        episode_count: q.episode_count,
        episode_start: q.episode_start,
        episode_end: q.episode_end,
        total_size: q.total_size,
        updated_at: copy_opt_string(&q.updated_at),
        recommendation_reasons: copy_strings(&q.recommendation_reasons),
    }
}

/// A copy of a replacement candidate.
pub fn copy_candidate(c: &SourceCandidate) -> (r: SourceCandidate)
    ensures
        r@ == c@,
{
    let probe_info = match &c.probe_info {
        Some(p) => Some(copy_probe(p)),
        None => None,
    };
    SourceCandidate {
        id: c.id.clone(),
        source: c.source.clone(),
        url: c.url.clone(),
        password: c.password.clone(),
        note: c.note.clone(),
        discovered_at: c.discovered_at,
        probe_info,
        quality: copy_quality(&c.quality),
    }
}

/// An audit entry as values.
pub struct HistoryView {
    pub id: Seq<char>,
    pub candidate_id: Seq<char>,
    pub from_url: Seq<char>,
    pub from_password: Seq<char>,
    pub to_url: Seq<char>,
    pub to_password: Seq<char>,
    pub quality: QualityView,
    pub reason: Seq<char>,
    pub status: Seq<char>,
    pub error: Seq<char>,
    pub automatic: bool,
    pub created_at: i64,
    pub rolled_back_at: Option<i64>,
}

impl View for SourceSwitchHistoryItem {
    type V = HistoryView;

    open spec fn view(&self) -> HistoryView {
        HistoryView {
            id: self.id@,
            candidate_id: self.candidate_id@,
            from_url: self.from_url@,
            from_password: self.from_password@,
            to_url: self.to_url@,
            to_password: self.to_password@,
            quality: self.quality@,
            reason: self.reason@,
            status: self.status@,
            error: self.error@,
            automatic: self.automatic,
            created_at: self.created_at,
            rolled_back_at: self.rolled_back_at,
        }
    }
}

/// The views of an audit trail.
pub open spec fn history_view(h: Seq<SourceSwitchHistoryItem>) -> Seq<HistoryView> {
    h.map_values(|i: SourceSwitchHistoryItem| i@)
}

/// A check history entry as values.
pub struct CheckHistoryView {
    pub time: i64,
    pub state: Seq<char>,
    pub counts: Seq<i32>,
    pub new_files: Seq<Seq<char>>,
    pub new_episodes: Seq<i32>,
    pub summary: Seq<char>,
}

impl View for CheckHistoryItem {
    type V = CheckHistoryView;

    open spec fn view(&self) -> CheckHistoryView {
        CheckHistoryView {
            time: self.time,
            state: self.state@,
            counts: seq![
                self.matched_count,
                self.transfer_count,
                self.scanned_count,
                self.new_count,
                self.known_count,
                self.skipped_directory_count,
                self.skipped_other_season_count,
                self.skipped_before_start_count,
                self.skipped_duplicate_episode_count,
            ],
            new_files: views(self.new_files@),
            new_episodes: self.new_episodes@,
            summary: self.summary@,
        }
    }
}

/// The views of a check history.
pub open spec fn check_history_view(h: Seq<CheckHistoryItem>) -> Seq<CheckHistoryView> {
    h.map_values(|i: CheckHistoryItem| i@)
}

/// The views of a list of candidates.
pub open spec fn candidates_view(c: Seq<SourceCandidate>) -> Seq<CandidateView> {
    c.map_values(|i: SourceCandidate| i@)
}

/// A copy of a list of numbers.
pub fn copy_numbers(v: &Vec<i32>) -> (r: Vec<i32>)
    ensures
        r@ == v@,
{
    let mut out: Vec<i32> = Vec::new();
    let mut i: usize = 0;
    while i < v.len()
        invariant
            i <= v.len(),
            out@ == v@.take(i as int),
        decreases v.len() - i,
    {
        out.push(v[i]);
        assert(v@.take(i + 1) =~= v@.take(i as int).push(v@[i as int]));
        i = i + 1;
    }
    assert(v@.take(v.len() as int) =~= v@);
    out
}

/// A copy of a check history entry.
pub fn copy_check_history_item(h: &CheckHistoryItem) -> (r: CheckHistoryItem)
    ensures
        r@ == h@,
{
    CheckHistoryItem {
        time: h.time,
        state: h.state.clone(),
        matched_count: h.matched_count,
        transfer_count: h.transfer_count,
        scanned_count: h.scanned_count,
        new_count: h.new_count,
        known_count: h.known_count,
        skipped_directory_count: h.skipped_directory_count,
        skipped_other_season_count: h.skipped_other_season_count,
        skipped_before_start_count: h.skipped_before_start_count,
        skipped_duplicate_episode_count: h.skipped_duplicate_episode_count,
        new_files: copy_strings(&h.new_files),
        new_episodes: copy_numbers(&h.new_episodes),
        summary: h.summary.clone(),
    }
}

/// A copy of a check history.
pub fn copy_check_history(v: &Vec<CheckHistoryItem>) -> (r: Vec<CheckHistoryItem>)
    ensures
        check_history_view(r@) == check_history_view(v@),
{
    let mut out: Vec<CheckHistoryItem> = Vec::new();
    let mut i: usize = 0;
    while i < v.len()
        invariant
            i <= v.len(),
            check_history_view(out@) == check_history_view(v@).take(i as int),
        decreases v.len() - i,
    {
        let ghost before = check_history_view(out@);
        out.push(copy_check_history_item(&v[i]));
        assert(check_history_view(out@) =~= before.push(v@[i as int]@));
        assert(check_history_view(v@).take(i + 1) =~= check_history_view(v@).take(i as int).push(
            v@[i as int]@,
        ));
        i = i + 1;
    }
    assert(check_history_view(v@).take(v.len() as int) =~= check_history_view(v@));
    out
}

/// A copy of a list of candidates.
pub fn copy_candidates(v: &Vec<SourceCandidate>) -> (r: Vec<SourceCandidate>)
    ensures
        candidates_view(r@) == candidates_view(v@),
{
    let mut out: Vec<SourceCandidate> = Vec::new();
    let mut i: usize = 0;
    while i < v.len()
        invariant
            i <= v.len(),
            candidates_view(out@) == candidates_view(v@).take(i as int),
        decreases v.len() - i,
    {
        let ghost before = candidates_view(out@);
        out.push(copy_candidate(&v[i]));
        assert(candidates_view(out@) =~= before.push(v@[i as int]@));
        assert(candidates_view(v@).take(i + 1) =~= candidates_view(v@).take(i as int).push(
            v@[i as int]@,
        ));
        i = i + 1;
    }
    assert(candidates_view(v@).take(v.len() as int) =~= candidates_view(v@));
    out
}

/// A copy of an audit entry.
pub fn copy_history_item(h: &SourceSwitchHistoryItem) -> (r: SourceSwitchHistoryItem)
    ensures
        r@ == h@,
{
    SourceSwitchHistoryItem {
        id: h.id.clone(),
        candidate_id: h.candidate_id.clone(),
        from_url: h.from_url.clone(),
        from_password: h.from_password.clone(),
        to_url: h.to_url.clone(),
        to_password: h.to_password.clone(),
        quality: copy_quality(&h.quality),
        reason: h.reason.clone(),
        status: h.status.clone(),
        error: h.error.clone(),
        automatic: h.automatic,
        created_at: h.created_at,
        rolled_back_at: h.rolled_back_at,
    }
}

/// A copy of an audit trail.
pub fn copy_history(v: &Vec<SourceSwitchHistoryItem>) -> (r: Vec<SourceSwitchHistoryItem>)
    ensures
        history_view(r@) == history_view(v@),
{
    let mut out: Vec<SourceSwitchHistoryItem> = Vec::new();
    let mut i: usize = 0;
    while i < v.len()
        invariant
            i <= v.len(),
            history_view(out@) == history_view(v@).take(i as int),
        decreases v.len() - i,
    {
        let ghost before = history_view(out@);
        out.push(copy_history_item(&v[i]));
        assert(history_view(out@) =~= before.push(v@[i as int]@));
        assert(history_view(v@).take(i + 1) =~= history_view(v@).take(i as int).push(
            v@[i as int]@,
        ));
        i = i + 1;
    }
    assert(history_view(v@).take(v.len() as int) =~= history_view(v@));
    out
}

} // verus!
