//! The reports of the commands, as data.
use vstd::prelude::*;

verus! {

/// The report of `list`.
pub struct ListResponse {
    pub command: &'static str,
    pub apps: Vec<ListApp>,
}

/// One configured application in `list`.
pub struct ListApp {
    pub name: String,
    pub strategy: String,
    pub local_version: Option<String>,
    pub ignored: bool,
    pub integration: bool,
    pub symlink: bool,
}

/// The report of `check`.
pub struct CheckResponse {
    pub command: &'static str,
    pub apps: Vec<CheckApp>,
    pub error: Option<String>,
}

/// One application in `check`.
pub struct CheckApp {
    pub name: String,
    pub status: CheckStatus,
    pub local_version: Option<String>,
    pub remote_version: Option<String>,
    pub download_url: Option<String>,
    pub rate_limited_until: Option<u64>,
    pub capabilities: Vec<String>,
    pub error: Option<String>,
}

/// The outcome of checking one application.
#[derive(Clone, Copy, Debug, PartialEq, Eq, Structural)]
pub enum CheckStatus {
    UpToDate,
    UpdateAvailable,
    RateLimited,
    Error,
}

/// The report of `update`.
pub struct UpdateResponse {
    pub command: &'static str,
    pub apps: Vec<UpdateApp>,
    pub error: Option<String>,
}

/// One application in `update`. The time the update took is kept in whole
/// milliseconds.
pub struct UpdateApp {
    pub name: String,
    pub status: UpdateStatus,
    pub from_version: Option<String>,
    pub to_version: Option<String>,
    pub path: Option<String>,
    pub rate_limited_until: Option<u64>,
    pub duration_millis: Option<u64>,
    pub error: Option<String>,
}

/// The outcome of updating one application.
#[derive(Clone, Copy, Debug, PartialEq, Eq, Structural)]
pub enum UpdateStatus {
    Updated,
    UpToDate,
    RateLimited,
    Error,
}

/// The report of `remove`.
pub struct RemoveResponse {
    pub command: &'static str,
    pub apps: Vec<RemoveApp>,
    pub error: Option<String>,
}

/// One application in `remove`.
pub struct RemoveApp {
    pub name: String,
    pub status: RemoveStatus,
    pub error: Option<String>,
}

/// The outcome of removing one application.
#[derive(Clone, Copy, Debug, PartialEq, Eq, Structural)]
pub enum RemoveStatus {
    Removed,
    Error,
    NotFound,
}

/// The report of `validate`.
pub struct ValidateResponse {
    pub command: &'static str,
    pub apps: Vec<ValidateApp>,
    pub error: Option<String>,
}

/// One recipe file in `validate`.
pub struct ValidateApp {
    pub name: Option<String>,
    pub file: String,
    pub status: ValidateStatus,
    pub error: Option<String>,
}

/// Whether a recipe file is valid.
#[derive(Clone, Copy, Debug, PartialEq, Eq, Structural)]
pub enum ValidateStatus {
    Valid,
    Invalid,
}

/// The report of `doctor`.
pub struct DoctorResponse {
    pub command: &'static str,
    pub checks: Vec<DoctorCheck>,
}

/// One diagnostic of `doctor`.
pub struct DoctorCheck {
    pub name: String,
    pub status: DoctorStatus,
    pub detail: String,
}

/// Whether a diagnostic passed.
#[derive(Clone, Copy, Debug, PartialEq, Eq, Structural)]
pub enum DoctorStatus {
    Pass,
    Warn,
}

} // verus!
