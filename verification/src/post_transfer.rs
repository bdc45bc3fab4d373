//! What the steps after a transfer report.
use vstd::prelude::*;
use crate::media_library::MediaLibraryRefreshReport;
use crate::text::{owned, push_str};

verus! {

/// How a step after a transfer went.
#[derive(Debug, Clone, Copy, PartialEq, Eq)]
pub enum PostTransferStatus {
    Succeeded,
    Failed,
    Skipped,
}

/// What one step after a transfer reports.
#[derive(Debug, Clone, PartialEq, Eq)]
pub struct PostTransferOutcome {
    pub module: &'static str,
    pub status: PostTransferStatus,
    pub message: String,
}

pub const MODULE_MEDIA_LIBRARY_REFRESH: &'static str = "media_library_refresh";
pub const MSG_REFRESH_DISABLED: &'static str = "媒体库刷新未启用";
pub const MSG_REFRESH_OK: &'static str = " 刷新成功";
pub const MSG_REFRESH_FAILED: &'static str = " 刷新失败";

/// The outcome of the media library refresh step: skipped where no refresh
/// ran, succeeded with the provider's name, else failed with the error (or
/// the provider's name where none was given).
pub open spec fn refresh_outcome_of(o: PostTransferOutcome, report: Option<MediaLibraryRefreshReport>) -> bool {
    &&& o.module@ == MODULE_MEDIA_LIBRARY_REFRESH@
    &&& match report {
        None => o.status == PostTransferStatus::Skipped && o.message@ == MSG_REFRESH_DISABLED@,
        Some(r) => if r.success {
            o.status == PostTransferStatus::Succeeded && o.message@ == r.provider@ + MSG_REFRESH_OK@
        } else {
            &&& o.status == PostTransferStatus::Failed
            &&& o.message@ == match r.error {
                Some(e) => e@,
                None => r.provider@ + MSG_REFRESH_FAILED@,
            }
        },
    }
}

/// The outcome of the media library refresh step.
pub fn media_library_refresh_outcome(report: Option<MediaLibraryRefreshReport>) -> (r: PostTransferOutcome)
    ensures
        refresh_outcome_of(r, report),
{
    match report {
        None => PostTransferOutcome {
            module: MODULE_MEDIA_LIBRARY_REFRESH,
            status: PostTransferStatus::Skipped,
            message: owned(MSG_REFRESH_DISABLED),
        },
        Some(r) => {
            if r.success {
                let mut m = r.provider.clone();
                push_str(&mut m, MSG_REFRESH_OK);
                PostTransferOutcome {
                    module: MODULE_MEDIA_LIBRARY_REFRESH,
                    status: PostTransferStatus::Succeeded,
                    message: m,
                }
            } else {
                let m = match r.error {
                    Some(e) => e,
                    None => {
                        let mut m = r.provider.clone();
                        push_str(&mut m, MSG_REFRESH_FAILED);
                        m
                    },
                };
                PostTransferOutcome {
                    module: MODULE_MEDIA_LIBRARY_REFRESH,
                    status: PostTransferStatus::Failed,
                    message: m,
                }
            }
        },
    }
}

} // verus!
