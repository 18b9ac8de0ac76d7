//! The update engine's decisions: download queues, provider slots, retries, and what
//! each finished check or download reports and records.
pub mod heuristics;
pub mod queue;
pub mod report;
pub mod types;

use crate::config::{copy_opt_string, opt_view};
use crate::resolvers::UpdateInfo;
use crate::output::types::{UpdateApp, UpdateStatus};
use crate::state::{AppState, AppStateView};
use vstd::prelude::*;

verus! {

/// An update report entry as plain values.
pub struct UpdateAppView {
    pub name: Seq<char>,
    pub status: UpdateStatus,
    pub from_version: Option<Seq<char>>,
    pub to_version: Option<Seq<char>>,
    pub path: Option<Seq<char>>,
    pub rate_limited_until: Option<u64>,
    pub duration_millis: Option<u64>,
    pub error: Option<Seq<char>>,
}

impl View for UpdateApp {
    type V = UpdateAppView;

    open spec fn view(&self) -> UpdateAppView {
        UpdateAppView {
            name: self.name@,
            status: self.status,
            from_version: opt_view(self.from_version),
            to_version: opt_view(self.to_version),
            path: opt_view(self.path),
            rate_limited_until: self.rate_limited_until,
            duration_millis: self.duration_millis,
            error: opt_view(self.error),
        }
    }
}

/// The entries of a report as plain values.
pub open spec fn update_apps_view(apps: Seq<UpdateApp>) -> Seq<UpdateAppView> {
    apps.map_values(|a: UpdateApp| a@)
}

/// The entries shown: all of them, or all but the up-to-date ones, in order.
pub open spec fn shown_update_apps(apps: Seq<UpdateAppView>, show_all: bool) -> Seq<UpdateAppView> {
    if show_all {
        apps
    } else {
        apps.filter(|a: UpdateAppView| a.status != UpdateStatus::UpToDate)
    }
}

fn copy_update_app(a: &UpdateApp) -> (r: UpdateApp)
    ensures
        r@ == a@,
{
    UpdateApp {
        name: a.name.clone(),
        status: a.status,
        from_version: copy_opt_string(&a.from_version),
        to_version: copy_opt_string(&a.to_version),
        path: copy_opt_string(&a.path),
        rate_limited_until: a.rate_limited_until,
        duration_millis: a.duration_millis,
        error: copy_opt_string(&a.error),
    }
}

/// The report entries to show: every entry when `show_all`, else those that are not
/// up to date, in their order.
pub fn filter_update_apps(apps: &[UpdateApp], show_all: bool) -> (r: Vec<UpdateApp>)
    ensures
        update_apps_view(r@) == shown_update_apps(update_apps_view(apps@), show_all),
{
    let ghost all = update_apps_view(apps@);
    let ghost keep = |a: UpdateAppView| a.status != UpdateStatus::UpToDate;
    let mut out: Vec<UpdateApp> = Vec::new();
    let mut i: usize = 0;
    while i < apps.len()
        invariant
            i <= apps.len(),
            all == update_apps_view(apps@),
            keep == (|a: UpdateAppView| a.status != UpdateStatus::UpToDate),
            show_all ==> update_apps_view(out@) == all.take(i as int),
            !show_all ==> update_apps_view(out@) == all.take(i as int).filter(keep),
        decreases apps.len() - i,
    {
        proof {
            reveal(Seq::filter);
            assert(all.take(i + 1).drop_last() =~= all.take(i as int));
            assert(all.take(i + 1).last() == all[i as int]);
        }
        let ghost before = update_apps_view(out@);
        if show_all || !matches!(apps[i].status, UpdateStatus::UpToDate) {
            let c = copy_update_app(&apps[i]);
            out.push(c);
            assert(update_apps_view(out@) =~= before.push(all[i as int]));
        }
        proof {
            if show_all {
                assert(all.take(i + 1) =~= all.take(i as int).push(all[i as int]));
            }
        }
        i = i + 1;
    }
    assert(all.take(apps.len() as int) =~= all);
    out
}

/// Up-to-date applications are listed when the configuration or the command line
/// asks for it.
pub fn effective_show_all(config_show_all: bool, cli_show_all: bool) -> (r: bool)
    ensures
        r == (config_show_all || cli_show_all),
{
    config_show_all || cli_show_all
}

/// Whether a download uses segmented ranges: the job's setting, else the
/// application's, else the global one; never for a retry without segments.
pub fn download_uses_segments(job_setting: Option<bool>, app_setting: Option<bool>, global_setting: bool, retry_without_segments: bool) -> (r: bool)
    ensures
        r == (!retry_without_segments && match job_setting {
            Some(b) => b,
            None => match app_setting {
                Some(b) => b,
                None => global_setting,
            },
        }),
{
    if retry_without_segments {
        return false;
    }
    match job_setting {
        Some(b) => b,
        None => match app_setting {
            Some(b) => b,
            None => global_setting,
        },
    }
}

/// Records an installed update: the new version and file, the validators that came
/// with it, the bytes downloaded, and no rate limit.
pub fn record_installed_update(
    state: &mut AppState,
    to_version: String,
    new_etag: Option<String>,
    new_last_modified: Option<String>,
    new_path: String,
    downloaded_bytes: u64,
)
    ensures
        final(state)@ == (AppStateView {
            local_version: Some(to_version@),
            rate_limited_until: None,
            etag: match opt_view(new_etag) { Some(e) => Some(e), None => old(state)@.etag },
            last_modified: match opt_view(new_last_modified) { Some(l) => Some(l), None => old(state)@.last_modified },
            file_path: Some(new_path@),
            download_bytes: Some(downloaded_bytes),
            ..old(state)@
        }),
{
    state.local_version = Some(to_version);
    state.rate_limited_until = None;
    match new_etag {
        Some(e) => {
            state.etag = Some(e);
        },
        None => {},
    }
    match new_last_modified {
        Some(l) => {
            state.last_modified = Some(l);
        },
        None => {},
    }
    state.file_path = Some(new_path);
    state.download_bytes = Some(downloaded_bytes);
}

/// The update forced by `--debug-download-url` and `--debug-version`: both or neither
/// must be given, and only together with an application name.
pub fn forced_update_info(app_name: Option<&str>, debug_download_url: Option<&str>, debug_version: Option<&str>) -> (r: Result<Option<UpdateInfo>, String>)
    ensures
        match (debug_download_url, debug_version) {
            (Some(u), Some(v)) => if app_name is None {
                r matches Err(m) && m@ == "debug downgrade requires specifying an app name"@
            } else {
                r matches Ok(Some(info)) && info.download_url@ == u@ && info.version@ == v@
                    && info.new_etag is None && info.new_last_modified is None
            },
            (None, None) => r matches Ok(None),
            _ => r matches Err(m) && m@ == "debug downgrade requires both --debug-download-url and --debug-version"@,
        },
{
    match (debug_download_url, debug_version) {
        (Some(u), Some(v)) => {
            if app_name.is_none() {
                return Err(String::from_str("debug downgrade requires specifying an app name"));
            }
            Ok(Some(UpdateInfo {
                download_url: String::from_str(u),
                version: String::from_str(v),
                new_etag: None,
                new_last_modified: None,
            }))
        },
        (None, None) => Ok(None),
        _ => Err(String::from_str("debug downgrade requires both --debug-download-url and --debug-version")),
    }
}


/// How many entries of a report have `status`.
pub open spec fn status_count(apps: Seq<UpdateAppView>, status: UpdateStatus) -> nat {
    apps.filter(|a: UpdateAppView| a.status == status).len()
}

/// Counts the report entries with `status`, for the summary line.
pub fn count_status(apps: &[UpdateApp], status: UpdateStatus) -> (r: usize)
    ensures
        r == status_count(update_apps_view(apps@), status),
{
    let ghost all = update_apps_view(apps@);
    let ghost keep = |a: UpdateAppView| a.status == status;
    let mut n: usize = 0;
    let mut i: usize = 0;
    while i < apps.len()
        invariant
            i <= apps.len(),
            all == update_apps_view(apps@),
            keep == (|a: UpdateAppView| a.status == status),
            n == all.take(i as int).filter(keep).len(),
            n <= i,
        decreases apps.len() - i,
    {
        proof {
            reveal(Seq::filter);
            assert(all.take(i + 1).drop_last() =~= all.take(i as int));
            assert(all.take(i + 1).last() == all[i as int]);
        }
        if apps[i].status == status {
            n = n + 1;
        }
        i = i + 1;
    }
    assert(all.take(apps.len() as int) =~= all);
    n
}


/// Downloads that run at once during the retry round.
pub const RETRY_ROUND_DOWNLOAD_LIMIT: usize = 1;

/// What the update loop does next.
#[derive(Clone, Copy, Debug, PartialEq, Eq, Structural)]
pub enum LoopStep {
    /// Wait for the next worker to report.
    Wait,
    /// Every worker is idle and only downloads to retry are left: start the retry
    /// round with a fresh scheduler, `RETRY_ROUND_DOWNLOAD_LIMIT` download at a time.
    StartRetryRound,
    /// Nothing is running or left to run.
    Finish,
}

/// The next step of the update loop: wait while any check or download runs or waits;
/// once all are done, retry the downloads kept for a retry, else finish.
pub open spec fn loop_step_spec(active_checks: nat, active_downloads: nat, pending_downloads: nat, retry_downloads: nat) -> LoopStep {
    if active_checks == 0 && active_downloads == 0 && pending_downloads == 0 {
        if retry_downloads > 0 {
            LoopStep::StartRetryRound
        } else {
            LoopStep::Finish
        }
    } else {
        LoopStep::Wait
    }
}

/// Decides the next step of the update loop from what runs and what waits.
pub fn next_loop_step(active_checks: usize, active_downloads: usize, pending_downloads: usize, retry_downloads: usize) -> (r: LoopStep)
    ensures
        r == loop_step_spec(active_checks as nat, active_downloads as nat, pending_downloads as nat, retry_downloads as nat),
{
    if active_checks == 0 && active_downloads == 0 && pending_downloads == 0 {
        if retry_downloads > 0 {
            LoopStep::StartRetryRound
        } else {
            LoopStep::Finish
        }
    } else {
        LoopStep::Wait
    }
}

/// How many waiting checks to start: as many as free worker slots, at most the waiting ones.
pub fn checks_to_start(active: usize, limit: usize, waiting: usize) -> (r: usize)
    ensures
        r == if active >= limit {
            0
        } else if limit - active < waiting {
            (limit - active) as int
        } else {
            waiting as int
        },
        active + r <= limit || r == 0,
        r <= waiting,
{
    if active >= limit {
        0
    } else if limit - active < waiting {
        limit - active
    } else {
        waiting
    }
}

} // verus!
