//! What the update engine's workers report and what waits to be downloaded.
use crate::config::AppConfig;
use crate::resolvers::UpdateInfo;
use crate::state::{AppState, ForgePlatform};
use vstd::prelude::*;

verus! {

/// The stage at which the update of an application failed.
#[derive(Clone, Copy, Debug, PartialEq, Eq, Structural)]
pub enum UpdateErrorStage {
    Check,
    Download,
}

/// A download waiting for a worker.
pub struct UpdateDownloadJob {
    pub app: AppConfig,
    pub state: AppState,
    pub from_version: Option<String>,
    pub current_path: Option<String>,
    pub info: UpdateInfo,
    pub capabilities: Vec<String>,
    pub segmented_downloads: Option<bool>,
    pub estimated_download_bytes: Option<u64>,
    pub provider: String,
    pub forge_repository: Option<String>,
    pub forge_platform: Option<ForgePlatform>,
    pub retry_without_segmented_downloads: bool,
}

/// What a check or a download of one application ended with; `elapsed` is in
/// milliseconds.
pub enum UpdateWorkResult {
    ReadyToDownload {
        app: AppConfig,
        state: AppState,
        from_version: Option<String>,
        current_path: Option<String>,
        info: UpdateInfo,
        elapsed: u64,
        capabilities: Vec<String>,
        segmented_downloads: Option<bool>,
        forge_repository: Option<String>,
        forge_platform: Option<ForgePlatform>,
    },
    Updated {
        app: AppConfig,
        from_version: Option<String>,
        info: UpdateInfo,
        new_path: String,
        old_path: Option<String>,
        elapsed: u64,
        downloaded_bytes: u64,
        download_elapsed: Option<u64>,
        capabilities: Vec<String>,
        segmented_downloads: Option<bool>,
        progress_completion_rendered: bool,
        forge_repository: Option<String>,
        forge_platform: Option<ForgePlatform>,
    },
    UpToDate {
        name: String,
        from_version: Option<String>,
        path: Option<String>,
        elapsed: u64,
        capabilities: Vec<String>,
        segmented_downloads: Option<bool>,
        forge_repository: Option<String>,
        forge_platform: Option<ForgePlatform>,
    },
    RateLimited {
        name: String,
        from_version: Option<String>,
        path: Option<String>,
        elapsed: u64,
        rate_limited_until: Option<u64>,
    },
    Error {
        stage: UpdateErrorStage,
        name: String,
        from_version: Option<String>,
        to_version: Option<String>,
        path: Option<String>,
        elapsed: u64,
        capabilities: Vec<String>,
        segmented_downloads: Option<bool>,
        rate_limited_until: Option<u64>,
        error: String,
        forge_repository: Option<String>,
        forge_platform: Option<ForgePlatform>,
        retry_job: Option<UpdateDownloadJob>,
    },
}

impl UpdateWorkResult {
    /// The time the work took.
    pub open spec fn elapsed_spec(&self) -> u64 {
        match self {
            UpdateWorkResult::ReadyToDownload { elapsed, .. } => *elapsed,
            UpdateWorkResult::Updated { elapsed, .. } => *elapsed,
            UpdateWorkResult::UpToDate { elapsed, .. } => *elapsed,
            UpdateWorkResult::Error { elapsed, .. } => *elapsed,
            UpdateWorkResult::RateLimited { elapsed, .. } => *elapsed,
        }
    }
}

/// An event from a worker: a finished check, or a finished download from a provider.
pub enum UpdateEvent {
    Check(UpdateWorkResult),
    Download { provider: String, result: UpdateWorkResult },
}

} // verus!
