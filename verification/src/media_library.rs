//! Refreshing a media library (Jellyfin, Emby, Plex or a webhook) after new
//! files arrive: checking the settings and choosing how the request is made.
use vstd::prelude::*;
use crate::error::AppError;
use crate::model::Settings;
use crate::text::{ascii_lower_seq, ascii_lowercase, chars_of, owned, str_eq, string_of, trim_seq, trim_str};

verus! {

pub const KIND_JELLYFIN: &'static str = "jellyfin";
pub const KIND_EMBY: &'static str = "emby";
pub const KIND_PLEX: &'static str = "plex";
pub const KIND_WEBHOOK: &'static str = "webhook";
pub const URL_REQUIRED: &'static str = "启用媒体库刷新时必须配置 URL";
pub const KIND_UNSUPPORTED: &'static str = "媒体库类型必须为 jellyfin/emby/plex/webhook";

/// What a refresh request reported.
#[derive(Debug, Clone)]
pub struct MediaLibraryRefreshReport {
    pub provider: String,
    pub success: bool,
    pub status: Option<u16>,
    pub error: Option<String>,
}

/// The configured library kind, trimmed and in lower case.
pub open spec fn library_kind(settings: Settings) -> Seq<char> {
    ascii_lower_seq(trim_seq(settings.media_library_type@))
}

/// Whether a kind is one the service can refresh.
pub open spec fn supported_kind(kind: Seq<char>) -> bool {
    kind == KIND_JELLYFIN@ || kind == KIND_EMBY@ || kind == KIND_PLEX@ || kind == KIND_WEBHOOK@
}

/// The library kind of the settings: trimmed and in lower case.
pub fn media_library_kind(settings: &Settings) -> (r: String)
    ensures
        r@ == library_kind(*settings),
{
    let trimmed = trim_str(settings.media_library_type.as_str());
    let lower = ascii_lowercase(trimmed.as_slice());
    string_of(lower.as_slice())
}

/// Checks the media library settings: a refresh URL where refreshing is
/// enabled, and a supported kind.
pub fn validate_media_library_settings(settings: &Settings) -> (r: Result<(), AppError>)
    ensures
        r is Ok <==> (!(settings.media_library_refresh_enabled && trim_seq(
            settings.media_library_refresh_url@,
        ).len() == 0) && supported_kind(library_kind(*settings))),
        r matches Err(e) ==> e is Validation && e.message() == if settings.media_library_refresh_enabled
            && trim_seq(settings.media_library_refresh_url@).len() == 0 {
            URL_REQUIRED@
        } else {
            KIND_UNSUPPORTED@
        },
{
    if settings.media_library_refresh_enabled && trim_str(
        settings.media_library_refresh_url.as_str(),
    ).len() == 0 {
        return Err(AppError::Validation(owned(URL_REQUIRED)));
    }
    let kind = media_library_kind(settings);
    if !(str_eq(kind.as_str(), KIND_JELLYFIN) || str_eq(kind.as_str(), KIND_EMBY) || str_eq(
        kind.as_str(),
        KIND_PLEX,
    ) || str_eq(kind.as_str(), KIND_WEBHOOK)) {
        return Err(AppError::Validation(owned(KIND_UNSUPPORTED)));
    }
    Ok(())
}

/// How the access token is sent.
#[derive(Debug, Clone, Copy, PartialEq, Eq)]
pub enum TokenPlacement {
    /// No token is configured.
    Absent,
    /// The `X-Emby-Token` header (Jellyfin, Emby).
    EmbyHeader,
    /// The `X-Plex-Token` query parameter.
    PlexQuery,
    /// A bearer `Authorization` header.
    Bearer,
}

/// How a refresh request is made.
#[derive(Debug, Clone)]
pub struct RefreshRequest {
    /// The library kind, as reported.
    pub provider: String,
    /// The trimmed refresh URL.
    pub url: String,
    /// `GET` for Plex, else a `POST` with a JSON body.
    pub use_get: bool,
    /// The trimmed token, empty where none is configured.
    pub token: String,
    pub token_placement: TokenPlacement,
}

/// Where the token goes for a library kind.
pub open spec fn placement_for(kind: Seq<char>, token: Seq<char>) -> TokenPlacement {
    if token.len() == 0 {
        TokenPlacement::Absent
    } else if kind == KIND_JELLYFIN@ || kind == KIND_EMBY@ {
        TokenPlacement::EmbyHeader
    } else if kind == KIND_PLEX@ {
        TokenPlacement::PlexQuery
    } else {
        TokenPlacement::Bearer
    }
}

/// The refresh request the settings call for; none where refreshing is
/// disabled or no URL is configured.
pub fn refresh_request(settings: &Settings) -> (r: Option<RefreshRequest>)
    ensures
        r is None <==> (!settings.media_library_refresh_enabled || trim_seq(
            settings.media_library_refresh_url@,
        ).len() == 0),
        r matches Some(q) ==> {
            &&& q.provider@ == library_kind(*settings)
            &&& q.url@ == trim_seq(settings.media_library_refresh_url@)
            &&& q.use_get == (library_kind(*settings) == KIND_PLEX@)
            &&& q.token@ == trim_seq(settings.media_library_token@)
            &&& q.token_placement == placement_for(
                library_kind(*settings),
                trim_seq(settings.media_library_token@),
            )
        },
{
    if !settings.media_library_refresh_enabled {
        return None;
    }
    let url = trim_str(settings.media_library_refresh_url.as_str());
    if url.len() == 0 {
        return None;
    }
    let provider = media_library_kind(settings);
    let use_get = str_eq(provider.as_str(), KIND_PLEX);
    let token = trim_str(settings.media_library_token.as_str());
    let token_placement = if token.len() == 0 {
        TokenPlacement::Absent
    } else if str_eq(provider.as_str(), KIND_JELLYFIN) || str_eq(provider.as_str(), KIND_EMBY) {
        TokenPlacement::EmbyHeader
    } else if use_get {
        TokenPlacement::PlexQuery
    } else {
        TokenPlacement::Bearer
    };
    Some(
        RefreshRequest {
            provider,
            url: string_of(url.as_slice()),
            use_get,
            token: string_of(token.as_slice()),
            token_placement,
        },
    )
}

} // verus!
