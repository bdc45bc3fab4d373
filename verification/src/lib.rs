use vstd::prelude::*;

pub mod text;
pub mod regex_ops;
pub mod clock;
pub mod episode;
pub mod model;
pub mod progress;
pub mod season_detection;
pub mod storage;
pub mod source_quality;
pub mod error;
pub mod source_switch;
pub mod push;
pub mod quark_signin;
pub mod strm;
pub mod media_library;
pub mod media_metadata_files;
pub mod subscription_check;
pub mod subscription_scheduler;
pub mod download_monitor;
pub mod file_filter;
pub mod check_update;
pub mod automation_events;
pub mod post_transfer;
pub mod notification;
pub mod backup;
pub mod metadata;
pub mod check_flow;
