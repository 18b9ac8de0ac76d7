//! What the update workers report of each check and download, and what the update
//! command reports of them and records in the state cache.
use crate::commands::check::config_error_message;
use crate::commands::helpers::cache_app_metadata;
use crate::config::{copy_opt_string, copy_strings, opt_view, strings_view, AppConfig};
use crate::output::types::{UpdateApp, UpdateStatus};
use crate::parser::AppConfigLoadError;
use crate::resolvers::{CheckResult, RateLimitInfo, UpdateInfo};
use crate::state::{empty_app_state, lookup, written, AppState, AppStateView, ForgePlatform, StateManager};
use crate::text::{cat, cat3, chars_of, lit, string_of, strictly_sorted};
use crate::update::heuristics::{retryable_message, should_retry_download_error};
use crate::update::types::{UpdateDownloadJob, UpdateErrorStage, UpdateWorkResult};
use crate::update::{record_installed_update, UpdateAppView};
use vstd::prelude::*;

verus! {

/// A row of the update report with the messages shown beside it.
pub struct WorkReport {
    pub row: UpdateApp,
    /// A message shown as a success, unless the output is JSON.
    pub status_message: Option<String>,
    /// Messages shown as warnings, none when the output is JSON.
    pub warnings: Vec<String>,
    /// The row is a rate limit, after which the note on rate limits is shown.
    pub rate_limited: bool,
}

/// The cached state of `name` before an update: the entry, or an empty one.
pub open spec fn cached_or_empty(states: Seq<(Seq<char>, AppStateView)>, name: Seq<char>) -> AppStateView {
    match lookup(states, name) {
        Some(st) => st,
        None => empty_app_state(),
    }
}

/// `after` is `before` with what a resolver learned recorded in it: the capabilities
/// (sorted, without duplicates), the segmented-download support when known, and the
/// forge; the installed version, validators, file, name and downloaded bytes stay.
pub open spec fn metadata_cached(
    before: AppStateView,
    after: AppStateView,
    capabilities: Seq<Seq<char>>,
    segmented_downloads: Option<bool>,
    forge_repository: Option<Seq<char>>,
    forge_platform: Option<ForgePlatform>,
) -> bool {
    &&& strictly_sorted(after.capabilities)
    &&& forall|x: Seq<char>| after.capabilities.contains(x) <==> capabilities.contains(x)
    &&& after.segmented_downloads == match segmented_downloads {
        Some(b) => Some(b),
        None => before.segmented_downloads,
    }
    &&& after.forge_repository == forge_repository
    &&& after.forge_platform == forge_platform
    &&& after.local_version == before.local_version
    &&& after.etag == before.etag
    &&& after.last_modified == before.last_modified
    &&& after.file_path == before.file_path
    &&& after.sanitized_name == before.sanitized_name
    &&& after.download_bytes == before.download_bytes
}

/// `Skipping NAME (WAIT)`, the wait being the rate-limit message for `until` at `now`.
pub open spec fn skip_message(name: Seq<char>, until: Option<u64>, now: u64) -> Seq<char> {
    "Skipping "@ + name + " ("@ + (RateLimitInfo { reset_at: until, retry_after_seconds: None }).message_spec(now) + ")"@
}

/// `NAME is already up to date (VERSION)`, `unknown` standing for a missing version.
pub open spec fn up_to_date_message(name: Seq<char>, version: Option<Seq<char>>) -> Seq<char> {
    name + " is already up to date ("@ + match version {
        Some(v) => v,
        None => "unknown"@,
    } + ")"@
}

/// The warning for a failure at `stage`.
pub open spec fn failure_message(stage: UpdateErrorStage, name: Seq<char>, error: Seq<char>) -> Seq<char> {
    match stage {
        UpdateErrorStage::Check => "Error checking updates for "@ + name + ": "@ + error,
        UpdateErrorStage::Download => "Download failed for "@ + name + ": "@ + error,
    }
}

/// A report row without a target version, duration or error.
pub open spec fn plain_row(name: Seq<char>, status: UpdateStatus, from_version: Option<Seq<char>>, path: Option<Seq<char>>, until: Option<u64>) -> UpdateAppView {
    UpdateAppView {
        name,
        status,
        from_version,
        to_version: None,
        path,
        rate_limited_until: until,
        duration_millis: None,
        error: None,
    }
}

/// The messages kept: none when the output is JSON.
pub open spec fn unless_quiet(quiet: bool, messages: Seq<Seq<char>>) -> Seq<Seq<char>> {
    if quiet {
        seq![]
    } else {
        messages
    }
}

fn warnings_unless_quiet(quiet: bool, message: String) -> (r: Vec<String>)
    ensures
        strings_view(r@) == unless_quiet(quiet, seq![message@]),
{
    let mut r: Vec<String> = Vec::new();
    if !quiet {
        r.push(message);
    }
    assert(strings_view(r@) =~= unless_quiet(quiet, seq![message@]));
    r
}

fn up_to_date_message_exec(name: &str, version: &Option<String>) -> (r: String)
    ensures
        r@ == up_to_date_message(name@, opt_view(*version)),
{
    let v = match version {
        Some(v) => chars_of(v.as_str()),
        None => lit("unknown"),
    };
    proof {
        reveal_strlit("unknown");
    }
    string_of(&cat3(&cat(&chars_of(name), &lit(" is already up to date (")), &v, &lit(")")))
}

fn skip_message_exec(name: &str, until: Option<u64>, now: u64) -> (r: String)
    ensures
        r@ == skip_message(name@, until, now),
{
    let info = RateLimitInfo { reset_at: until, retry_after_seconds: None };
    let wait = info.short_message(now);
    string_of(&cat3(&cat(&lit("Skipping "), &chars_of(name)), &lit(" ("), &cat(&chars_of(wait.as_str()), &lit(")"))))
}

fn failure_message_exec(stage: UpdateErrorStage, name: &str, error: &str) -> (r: String)
    ensures
        r@ == failure_message(stage, name@, error@),
{
    let head = match stage {
        UpdateErrorStage::Check => lit("Error checking updates for "),
        UpdateErrorStage::Download => lit("Download failed for "),
    };
    string_of(&cat3(&cat(&head, &chars_of(name)), &lit(": "), &chars_of(error)))
}

/// Reports a finished check or download that installs nothing and records it in the
/// state cache: an up-to-date application gets what its resolver learned cached; a
/// rate-limited one gets its deadline; a failure that is not retried gets both. Any
/// other result (a download to queue, a retry, an installed update) is handed back.
pub fn report_work_result(
    states: &mut StateManager,
    result: UpdateWorkResult,
    quiet: bool,
    show_all: bool,
    now: u64,
) -> (r: Result<WorkReport, UpdateWorkResult>)
    requires
        old(states).cached().wf(),
    ensures
        final(states).cached().wf(),
        final(states).cache_path() == old(states).cache_path(),
        match result {
            UpdateWorkResult::UpToDate {
                name,
                from_version,
                path,
                capabilities,
                segmented_downloads,
                forge_repository,
                forge_platform,
                ..
            } => {
                let before = cached_or_empty(old(states).cached()@, name@);
                &&& r matches Ok(rep) && rep.row@ == plain_row(
                    name@,
                    UpdateStatus::UpToDate,
                    opt_view(from_version),
                    opt_view(path),
                    None,
                ) && opt_view(rep.status_message) == (if !quiet && show_all {
                    Some(up_to_date_message(name@, opt_view(from_version)))
                } else {
                    None
                }) && rep.warnings@.len() == 0 && !rep.rate_limited
                &&& exists|after: AppStateView|
                    metadata_cached(
                        before,
                        after,
                        strings_view(capabilities@),
                        segmented_downloads,
                        opt_view(forge_repository),
                        forge_platform,
                    ) && after.rate_limited_until == before.rate_limited_until && final(states).cached()@
                        == written(old(states).cached()@, name@, after)
            },
            UpdateWorkResult::RateLimited { name, from_version, path, rate_limited_until, .. } => {
                let before = cached_or_empty(old(states).cached()@, name@);
                &&& r matches Ok(rep) && rep.row@ == plain_row(
                    name@,
                    UpdateStatus::RateLimited,
                    opt_view(from_version),
                    opt_view(path),
                    rate_limited_until,
                ) && rep.status_message is None && strings_view(rep.warnings@) == unless_quiet(
                    quiet,
                    seq![skip_message(name@, rate_limited_until, now)],
                ) && rep.rate_limited
                &&& final(states).cached()@ == written(
                    old(states).cached()@,
                    name@,
                    AppStateView { rate_limited_until, ..before },
                )
            },
            UpdateWorkResult::Error {
                stage,
                name,
                from_version,
                to_version,
                path,
                capabilities,
                segmented_downloads,
                rate_limited_until,
                error,
                forge_repository,
                forge_platform,
                retry_job,
                ..
            } => if retry_job is None {
                let before = cached_or_empty(old(states).cached()@, name@);
                &&& r matches Ok(rep) && rep.row@ == (UpdateAppView {
                    name: name@,
                    status: UpdateStatus::Error,
                    from_version: opt_view(from_version),
                    to_version: opt_view(to_version),
                    path: opt_view(path),
                    rate_limited_until,
                    duration_millis: None,
                    error: Some(error@),
                }) && rep.status_message is None && strings_view(rep.warnings@) == unless_quiet(
                    quiet,
                    seq![failure_message(stage, name@, error@)],
                ) && !rep.rate_limited
                &&& exists|after: AppStateView|
                    metadata_cached(
                        before,
                        after,
                        strings_view(capabilities@),
                        segmented_downloads,
                        opt_view(forge_repository),
                        forge_platform,
                    ) && final(states).cached()@ == written(
                        old(states).cached()@,
                        name@,
                        AppStateView { rate_limited_until, ..after },
                    )
            } else {
                r == Err::<WorkReport, UpdateWorkResult>(result) && final(states).cached() == old(states).cached()
            },
            _ => r == Err::<WorkReport, UpdateWorkResult>(result) && final(states).cached() == old(states).cached(),
        },
{
    match result {
        UpdateWorkResult::UpToDate {
            name,
            from_version,
            path,
            elapsed,
            capabilities,
            segmented_downloads,
            forge_repository,
            forge_platform,
        } => {
            let ghost caps = strings_view(capabilities@);
            let ghost repo = opt_view(forge_repository);
            let state = states.get_app_mut(name.as_str());
            cache_app_metadata(state, capabilities, segmented_downloads, forge_repository, forge_platform);
            let ghost after = state@;
            let status_message = if !quiet && show_all {
                Some(up_to_date_message_exec(name.as_str(), &from_version))
            } else {
                None
            };
            proof {
                let before = cached_or_empty(old(states).cached()@, name@);
                assert(metadata_cached(before, after, caps, segmented_downloads, repo, forge_platform));
            }
            Ok(WorkReport {
                row: UpdateApp {
                    name,
                    status: UpdateStatus::UpToDate,
                    from_version,
                    to_version: None,
                    path,
                    rate_limited_until: None,
                    duration_millis: None,
                    error: None,
                },
                status_message,
                warnings: Vec::new(),
                rate_limited: false,
            })
        },
        UpdateWorkResult::RateLimited { name, from_version, path, elapsed, rate_limited_until } => {
            let state = states.get_app_mut(name.as_str());
            state.rate_limited_until = rate_limited_until;
            let warnings = warnings_unless_quiet(quiet, skip_message_exec(name.as_str(), rate_limited_until, now));
            Ok(WorkReport {
                row: UpdateApp {
                    name,
                    status: UpdateStatus::RateLimited,
                    from_version,
                    to_version: None,
                    path,
                    rate_limited_until,
                    duration_millis: None,
                    error: None,
                },
                status_message: None,
                warnings,
                rate_limited: true,
            })
        },
        UpdateWorkResult::Error {
            stage,
            name,
            from_version,
            to_version,
            path,
            elapsed,
            capabilities,
            segmented_downloads,
            rate_limited_until,
            error,
            forge_repository,
            forge_platform,
            retry_job,
        } => {
            if retry_job.is_some() {
                return Err(UpdateWorkResult::Error {
                    stage,
                    name,
                    from_version,
                    to_version,
                    path,
                    elapsed,
                    capabilities,
                    segmented_downloads,
                    rate_limited_until,
                    error,
                    forge_repository,
                    forge_platform,
                    retry_job,
                });
            }
            let ghost caps = strings_view(capabilities@);
            let ghost repo = opt_view(forge_repository);
            let state = states.get_app_mut(name.as_str());
            cache_app_metadata(state, capabilities, segmented_downloads, forge_repository, forge_platform);
            let ghost after = state@;
            state.rate_limited_until = rate_limited_until;
            proof {
                let before = cached_or_empty(old(states).cached()@, name@);
                assert(metadata_cached(before, after, caps, segmented_downloads, repo, forge_platform));
                assert(state@ == AppStateView { rate_limited_until, ..after });
            }
            let warnings = warnings_unless_quiet(quiet, failure_message_exec(stage, name.as_str(), error.as_str()));
            Ok(WorkReport {
                row: UpdateApp {
                    name,
                    status: UpdateStatus::Error,
                    from_version,
                    to_version,
                    path,
                    rate_limited_until,
                    duration_millis: None,
                    error: Some(error),
                },
                status_message: None,
                warnings,
                rate_limited: false,
            })
        },
        other => Err(other),
    }
}


/// The state after an update was installed: the new version and file, the validators
/// that came with it, the bytes downloaded, and no rate limit.
pub open spec fn installed_state(
    before: AppStateView,
    to_version: Seq<char>,
    new_etag: Option<Seq<char>>,
    new_last_modified: Option<Seq<char>>,
    new_path: Seq<char>,
    downloaded_bytes: u64,
) -> AppStateView {
    AppStateView {
        local_version: Some(to_version),
        rate_limited_until: None,
        etag: match new_etag {
            Some(e) => Some(e),
            None => before.etag,
        },
        last_modified: match new_last_modified {
            Some(l) => Some(l),
            None => before.last_modified,
        },
        file_path: Some(new_path),
        download_bytes: Some(downloaded_bytes),
        ..before
    }
}

/// Records an installed update in the state cache, with what the resolver learned,
/// and gives its report row; `elapsed` is the whole update's duration in milliseconds.
pub fn record_installed(
    states: &mut StateManager,
    name: String,
    from_version: Option<String>,
    info: UpdateInfo,
    new_path: String,
    elapsed: u64,
    downloaded_bytes: u64,
    capabilities: Vec<String>,
    segmented_downloads: Option<bool>,
    forge_repository: Option<String>,
    forge_platform: Option<ForgePlatform>,
) -> (r: UpdateApp)
    requires
        old(states).cached().wf(),
    ensures
        final(states).cached().wf(),
        final(states).cache_path() == old(states).cache_path(),
        r@ == (UpdateAppView {
            name: name@,
            status: UpdateStatus::Updated,
            from_version: opt_view(from_version),
            to_version: Some(info.version@),
            path: Some(new_path@),
            rate_limited_until: None,
            duration_millis: Some(elapsed),
            error: None,
        }),
        exists|after: AppStateView|
            metadata_cached(
                installed_state(
                    cached_or_empty(old(states).cached()@, name@),
                    info.version@,
                    opt_view(info.new_etag),
                    opt_view(info.new_last_modified),
                    new_path@,
                    downloaded_bytes,
                ),
                after,
                strings_view(capabilities@),
                segmented_downloads,
                opt_view(forge_repository),
                forge_platform,
            ) && after.rate_limited_until is None && final(states).cached()@ == written(old(states).cached()@, name@, after),
{
    let ghost caps = strings_view(capabilities@);
    let ghost repo = opt_view(forge_repository);
    let ghost before = cached_or_empty(old(states).cached()@, name@);
    let ghost installed = installed_state(
        before,
        info.version@,
        opt_view(info.new_etag),
        opt_view(info.new_last_modified),
        new_path@,
        downloaded_bytes,
    );
    let to_version = info.version.clone();
    let path = new_path.clone();
    let state = states.get_app_mut(name.as_str());
    record_installed_update(state, info.version, info.new_etag, info.new_last_modified, new_path, downloaded_bytes);
    assert(state@ == installed);
    cache_app_metadata(state, capabilities, segmented_downloads, forge_repository, forge_platform);
    let ghost after = state@;
    proof {
        assert(metadata_cached(installed, after, caps, segmented_downloads, repo, forge_platform));
    }
    UpdateApp {
        name,
        status: UpdateStatus::Updated,
        from_version,
        to_version: Some(to_version),
        path: Some(path),
        rate_limited_until: None,
        duration_millis: Some(elapsed),
        error: None,
    }
}

/// The warnings after a failed installation, which is then rolled back.
pub open spec fn integration_failure_messages(name: Seq<char>, error: Seq<char>) -> Seq<Seq<char>> {
    seq![
        "Integration failed for "@ + name + ": "@ + error,
        "Rolling back "@ + name + " to its previous state..."@,
    ]
}

/// Reports an update whose installation failed with `error`, recording what the
/// resolver learned; the installed version stays.
pub fn report_integration_failure(
    states: &mut StateManager,
    name: String,
    from_version: Option<String>,
    to_version: String,
    new_path: String,
    capabilities: Vec<String>,
    segmented_downloads: Option<bool>,
    forge_repository: Option<String>,
    forge_platform: Option<ForgePlatform>,
    error: &str,
    quiet: bool,
) -> (r: WorkReport)
    requires
        old(states).cached().wf(),
    ensures
        final(states).cached().wf(),
        final(states).cache_path() == old(states).cache_path(),
        r.row@ == (UpdateAppView {
            name: name@,
            status: UpdateStatus::Error,
            from_version: opt_view(from_version),
            to_version: Some(to_version@),
            path: Some(new_path@),
            rate_limited_until: None,
            duration_millis: None,
            error: Some("Integration failed: "@ + error@),
        }),
        r.status_message is None,
        strings_view(r.warnings@) == unless_quiet(quiet, integration_failure_messages(name@, error@)),
        !r.rate_limited,
        exists|after: AppStateView|
            metadata_cached(
                cached_or_empty(old(states).cached()@, name@),
                after,
                strings_view(capabilities@),
                segmented_downloads,
                opt_view(forge_repository),
                forge_platform,
            ) && after.rate_limited_until == cached_or_empty(old(states).cached()@, name@).rate_limited_until
                && final(states).cached()@ == written(old(states).cached()@, name@, after),
{
    let ghost caps = strings_view(capabilities@);
    let ghost repo = opt_view(forge_repository);
    let state = states.get_app_mut(name.as_str());
    cache_app_metadata(state, capabilities, segmented_downloads, forge_repository, forge_platform);
    let ghost after = state@;
    proof {
        let before = cached_or_empty(old(states).cached()@, name@);
        assert(metadata_cached(before, after, caps, segmented_downloads, repo, forge_platform));
    }
    let mut warnings: Vec<String> = Vec::new();
    if !quiet {
        warnings.push(string_of(&cat3(&cat(&lit("Integration failed for "), &chars_of(name.as_str())), &lit(": "), &chars_of(error))));
        warnings.push(string_of(&cat3(&lit("Rolling back "), &chars_of(name.as_str()), &lit(" to its previous state..."))));
    }
    assert(strings_view(warnings@) =~= unless_quiet(quiet, integration_failure_messages(name@, error@)));
    WorkReport {
        row: UpdateApp {
            name,
            status: UpdateStatus::Error,
            from_version,
            to_version: Some(to_version),
            path: Some(new_path),
            rate_limited_until: None,
            duration_millis: None,
            error: Some(string_of(&cat(&lit("Integration failed: "), &chars_of(error)))),
        },
        status_message: None,
        warnings,
        rate_limited: false,
    }
}


/// Reports a recipe that could not be loaded: an error row named by the recipe's name
/// when it could be read, else by its path, with the message as a warning.
pub fn report_config_error(err: &AppConfigLoadError, quiet: bool) -> (r: WorkReport)
    ensures
        r.row@ == (UpdateAppView {
            name: match err.app_name {
                Some(n) => n@,
                None => err.path@,
            },
            status: UpdateStatus::Error,
            from_version: None,
            to_version: None,
            path: None,
            rate_limited_until: None,
            duration_millis: None,
            error: Some(config_error_message(err.path@, err.message@)),
        }),
        r.status_message is None,
        strings_view(r.warnings@) == unless_quiet(quiet, seq![config_error_message(err.path@, err.message@)]),
        !r.rate_limited,
{
    let name = match &err.app_name {
        Some(n) => n.clone(),
        None => err.path.clone(),
    };
    let text = cat3(&lit("Failed to parse app config at "), &chars_of(err.path.as_str()), &cat(&lit(": "), &chars_of(err.message.as_str())));
    assert(text@ =~= config_error_message(err.path@, err.message@));
    let message = string_of(&text);
    let warnings = warnings_unless_quiet(quiet, string_of(&text));
    WorkReport {
        row: UpdateApp {
            name,
            status: UpdateStatus::Error,
            from_version: None,
            to_version: None,
            path: None,
            rate_limited_until: None,
            duration_millis: None,
            error: Some(message),
        },
        status_message: None,
        warnings,
        rate_limited: false,
    }
}


/// What a worker reports of a download that succeeded: the job's application, versions
/// and forge, the file now in place, and the range support learnt by the download when
/// it learnt any.
pub fn download_succeeded(
    job: UpdateDownloadJob,
    new_path: String,
    elapsed: u64,
    downloaded_bytes: u64,
    download_elapsed: Option<u64>,
    segmented_support: Option<bool>,
    progress_completion_rendered: bool,
) -> (r: UpdateWorkResult)
    ensures
        r == (UpdateWorkResult::Updated {
            app: job.app,
            from_version: job.from_version,
            info: job.info,
            new_path,
            old_path: job.current_path,
            elapsed,
            downloaded_bytes,
            download_elapsed,
            capabilities: job.capabilities,
            segmented_downloads: match segmented_support {
                Some(b) => Some(b),
                None => job.segmented_downloads,
            },
            progress_completion_rendered,
            forge_repository: job.forge_repository,
            forge_platform: job.forge_platform,
        }),
{
    UpdateWorkResult::Updated {
        app: job.app,
        from_version: job.from_version,
        info: job.info,
        new_path,
        old_path: job.current_path,
        elapsed,
        downloaded_bytes,
        download_elapsed,
        capabilities: job.capabilities,
        segmented_downloads: match segmented_support {
            Some(b) => Some(b),
            None => job.segmented_downloads,
        },
        progress_completion_rendered,
        forge_repository: job.forge_repository,
        forge_platform: job.forge_platform,
    }
}

/// What a worker reports of a download that failed with `message`: a download error,
/// and the job again, to be retried without segmented ranges, when the failure is a
/// transient network problem and the job was not already such a retry.
pub fn download_failed(job: UpdateDownloadJob, message: &str, elapsed: u64) -> (r: UpdateWorkResult)
    ensures
        match r {
            UpdateWorkResult::Error {
                stage,
                name,
                from_version,
                to_version,
                path,
                elapsed: took,
                capabilities,
                segmented_downloads,
                rate_limited_until,
                error,
                forge_repository,
                forge_platform,
                retry_job,
            } => {
                &&& stage == UpdateErrorStage::Download
                &&& name@ == job.app.name@
                &&& opt_view(from_version) == opt_view(job.from_version)
                &&& to_version matches Some(v) && v@ == job.info.version@
                &&& path is None
                &&& took == elapsed
                &&& strings_view(capabilities@) == strings_view(job.capabilities@)
                &&& segmented_downloads == job.segmented_downloads
                &&& rate_limited_until is None
                &&& error@ == "Download failed: "@ + message@
                &&& opt_view(forge_repository) == opt_view(job.forge_repository)
                &&& forge_platform == job.forge_platform
                &&& retry_job == if !job.retry_without_segmented_downloads && retryable_message(message@) {
                    Some(UpdateDownloadJob { retry_without_segmented_downloads: true, ..job })
                } else {
                    None
                }
            },
            _ => false,
        },
{
    let retry = !job.retry_without_segmented_downloads && should_retry_download_error(message);
    let name = job.app.name.clone();
    let from_version = copy_opt_string(&job.from_version);
    let to_version = job.info.version.clone();
    let capabilities = copy_strings(&job.capabilities);
    let segmented_downloads = job.segmented_downloads;
    let forge_repository = copy_opt_string(&job.forge_repository);
    let forge_platform = job.forge_platform;
    let error = string_of(&cat(&lit("Download failed: "), &chars_of(message)));
    let retry_job = if retry {
        Some(UpdateDownloadJob { retry_without_segmented_downloads: true, ..job })
    } else {
        None
    };
    UpdateWorkResult::Error {
        stage: UpdateErrorStage::Download,
        name,
        from_version,
        to_version: Some(to_version),
        path: None,
        elapsed,
        capabilities,
        segmented_downloads,
        rate_limited_until: None,
        error,
        forge_repository,
        forge_platform,
        retry_job,
    }
}


/// What a worker reports of a finished update check of `app`, whose cached state was
/// `state`: `outcome` is what the resolver found, or its error message with the
/// rate-limit deadline that the error carried. No update means up to date; an update
/// is ready to download; an error with a deadline is a rate limit, any other a
/// failed check.
pub fn update_check_finished(
    app: AppConfig,
    state: AppState,
    outcome: Result<CheckResult, (String, Option<u64>)>,
    elapsed: u64,
) -> (r: UpdateWorkResult)
    ensures
        match outcome {
            Ok(res) => match res.update {
                None => r == (UpdateWorkResult::UpToDate {
                    name: app.name,
                    from_version: state.local_version,
                    path: state.file_path,
                    elapsed,
                    capabilities: res.capabilities,
                    segmented_downloads: res.segmented_downloads,
                    forge_repository: res.forge_repository,
                    forge_platform: res.forge_platform,
                }),
                Some(info) => match r {
                    UpdateWorkResult::ReadyToDownload {
                        app: a,
                        state: st,
                        from_version,
                        current_path,
                        info: i,
                        elapsed: took,
                        capabilities,
                        segmented_downloads,
                        forge_repository,
                        forge_platform,
                    } => {
                        &&& a == app && st == state && i == info && took == elapsed
                        &&& opt_view(from_version) == opt_view(state.local_version)
                        &&& opt_view(current_path) == opt_view(state.file_path)
                        &&& capabilities == res.capabilities
                        &&& segmented_downloads == res.segmented_downloads
                        &&& forge_repository == res.forge_repository
                        &&& forge_platform == res.forge_platform
                    },
                    _ => false,
                },
            },
            Err((message, until)) => if until is Some {
                r == (UpdateWorkResult::RateLimited {
                    name: app.name,
                    from_version: state.local_version,
                    path: state.file_path,
                    elapsed,
                    rate_limited_until: until,
                })
            } else {
                match r {
                    UpdateWorkResult::Error {
                        stage,
                        name,
                        from_version,
                        to_version,
                        path,
                        elapsed: took,
                        capabilities,
                        segmented_downloads,
                        rate_limited_until,
                        error,
                        forge_repository,
                        forge_platform,
                        retry_job,
                    } => {
                        &&& stage == UpdateErrorStage::Check && name == app.name && took == elapsed
                        &&& from_version == state.local_version && path == state.file_path
                        &&& to_version is None && capabilities@.len() == 0 && segmented_downloads is None
                        &&& rate_limited_until is None && error == message
                        &&& forge_repository is None && forge_platform is None && retry_job is None
                    },
                    _ => false,
                }
            },
        },
{
    match outcome {
        Ok(res) => {
            let CheckResult { update, capabilities, segmented_downloads, forge_repository, forge_platform } = res;
            match update {
                None => UpdateWorkResult::UpToDate {
                    name: app.name,
                    from_version: state.local_version,
                    path: state.file_path,
                    elapsed,
                    capabilities,
                    segmented_downloads,
                    forge_repository,
                    forge_platform,
                },
                Some(info) => {
                    let from_version = copy_opt_string(&state.local_version);
                    let current_path = copy_opt_string(&state.file_path);
                    UpdateWorkResult::ReadyToDownload {
                        app,
                        state,
                        from_version,
                        current_path,
                        info,
                        elapsed,
                        capabilities,
                        segmented_downloads,
                        forge_repository,
                        forge_platform,
                    }
                },
            }
        },
        Err((message, until)) => {
            if until.is_some() {
                UpdateWorkResult::RateLimited {
                    name: app.name,
                    from_version: state.local_version,
                    path: state.file_path,
                    elapsed,
                    rate_limited_until: until,
                }
            } else {
                UpdateWorkResult::Error {
                    stage: UpdateErrorStage::Check,
                    name: app.name,
                    from_version: state.local_version,
                    to_version: None,
                    path: state.file_path,
                    elapsed,
                    capabilities: Vec::new(),
                    segmented_downloads: None,
                    rate_limited_until: None,
                    error: message,
                    forge_repository: None,
                    forge_platform: None,
                    retry_job: None,
                }
            }
        },
    }
}

} // verus!
