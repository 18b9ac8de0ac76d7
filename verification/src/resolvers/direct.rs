//! Direct downloads: a file at a fixed URL, new when its `ETag` or `Last-Modified`
//! changes.
use crate::config::{opt_view, strings_view, CheckMethod};
use crate::resolvers::{capability_from_header_value, capability_spec, dedupe_capabilities, opt_str, CheckResult, UpdateInfo};
use crate::state::{AppState, AppStateView};
use crate::update::report::installed_state;
use crate::text::{chars_of, chars_of_string, eq, string_of, strictly_sorted, trim_char, trim_char_exec};
use vstd::prelude::*;

verus! {

/// The version a direct download is known by: the `ETag` without quotes, or the
/// `Last-Modified` value; an error when the chosen header is missing.
pub open spec fn direct_version(check_method: CheckMethod, etag: Option<Seq<char>>, last_modified: Option<Seq<char>>) -> Result<Seq<char>, Seq<char>> {
    match check_method {
        CheckMethod::Etag => match etag {
            Some(e) => Ok(trim_char(e, '"')),
            None => Err("ETag check requested but server did not return ETag"@),
        },
        CheckMethod::LastModified => match last_modified {
            Some(l) => Ok(l),
            None => Err("Last-Modified check requested but missing"@),
        },
    }
}

/// The value recorded for the chosen header in the cached state.
pub open spec fn recorded_value(check_method: CheckMethod, state: Option<AppState>) -> Option<Seq<char>> {
    match state {
        Some(s) => match check_method {
            CheckMethod::Etag => opt_view(s.etag),
            CheckMethod::LastModified => opt_view(s.last_modified),
        },
        None => None,
    }
}

/// A direct download is an update when its version differs from the recorded one or
/// nothing is installed.
pub open spec fn direct_is_update(check_method: CheckMethod, version: Seq<char>, state: Option<AppState>) -> bool {
    recorded_value(check_method, state) != Some(version) || match state {
        Some(s) => s.local_version is None,
        None => true,
    }
}

/// The result of checking a direct download, from the headers of a `HEAD` request on
/// it (`None` for a missing header).
pub fn direct_check_result(
    url: &str,
    check_method: CheckMethod,
    accept_ranges: Option<&str>,
    etag: Option<&str>,
    last_modified: Option<&str>,
    state: Option<&AppState>,
) -> (r: Result<CheckResult, String>)
    ensures
        ({
            let st = match state { Some(s) => Some(*s), None => None };
            match direct_version(check_method, opt_str(etag), opt_str(last_modified)) {
                Err(e) => r matches Err(m) && m@ == e,
                Ok(v) => r matches Ok(c) && {
                    let method_cap = match check_method { CheckMethod::Etag => "etag"@, CheckMethod::LastModified => "last_modified"@ };
                    &&& strictly_sorted(strings_view(c.capabilities@))
                    &&& (forall|x: Seq<char>| strings_view(c.capabilities@).contains(x) <==> (x == method_cap
                        || capability_spec("segmented_downloads"@, opt_str(accept_ranges)) == Some(x)))
                    &&& c.segmented_downloads is None && c.forge_repository is None && c.forge_platform is None
                    &&& (c.update is Some <==> direct_is_update(check_method, v, st))
                    &&& (c.update matches Some(u) ==> u.download_url@ == url@ && u.version@ == v
                        && opt_view(u.new_etag) == (match check_method { CheckMethod::Etag => Some(v), CheckMethod::LastModified => None })
                        && opt_view(u.new_last_modified) == (match check_method { CheckMethod::LastModified => Some(v), CheckMethod::Etag => None }))
                },
            }
        }),
{
    let mut capabilities: Vec<String> = Vec::new();
    match capability_from_header_value("segmented_downloads", accept_ranges) {
        Some(c) => capabilities.push(c),
        None => {},
    }
    let ghost first = strings_view(capabilities@);
    let version = match check_method {
        CheckMethod::Etag => match etag {
            Some(e) => {
                capabilities.push(String::from_str("etag"));
                string_of(&trim_char_exec(&chars_of(e), '"'))
            },
            None => return Err(String::from_str("ETag check requested but server did not return ETag")),
        },
        CheckMethod::LastModified => match last_modified {
            Some(l) => {
                capabilities.push(String::from_str("last_modified"));
                String::from_str(l)
            },
            None => return Err(String::from_str("Last-Modified check requested but missing")),
        },
    };
    proof {
        let caps = strings_view(capabilities@);
        let method_cap = match check_method { CheckMethod::Etag => "etag"@, CheckMethod::LastModified => "last_modified"@ };
        assert(caps =~= first.push(method_cap));
        assert forall|x: Seq<char>| caps.contains(x) <==> (x == method_cap
            || capability_spec("segmented_downloads"@, opt_str(accept_ranges)) == Some(x)) by {
            if x == method_cap {
                assert(caps[caps.len() - 1] == x);
            }
            if capability_spec("segmented_downloads"@, opt_str(accept_ranges)) == Some(x) {
                assert(caps[0] == x);
            }
            if caps.contains(x) {
                let k = choose|k: int| 0 <= k < caps.len() && caps[k] == x;
                if k < caps.len() - 1 {
                    assert(first[k] == x);
                }
            }
        }
    }
    let recorded = match state {
        Some(s) => match check_method {
            CheckMethod::Etag => &s.etag,
            CheckMethod::LastModified => &s.last_modified,
        },
        None => &None,
    };
    let same = match recorded {
        Some(v) => eq(&chars_of_string(v), &chars_of_string(&version)),
        None => false,
    };
    let nothing_installed = match state {
        Some(s) => s.local_version.is_none(),
        None => true,
    };
    dedupe_capabilities(&mut capabilities);
    let update = if !same || nothing_installed {
        let (new_etag, new_last_modified) = match check_method {
            CheckMethod::Etag => (Some(version.clone()), None),
            CheckMethod::LastModified => (None, Some(version.clone())),
        };
        Some(UpdateInfo { download_url: String::from_str(url), version, new_etag, new_last_modified })
    } else {
        None
    };
    Ok(CheckResult { update, capabilities, segmented_downloads: None, forge_repository: None, forge_platform: None })
}

/// With something installed, a direct download is an update exactly when the header
/// named by the check method differs from the value recorded for that same header:
/// the `ETag` is held against the recorded `etag`, `Last-Modified` against the
/// recorded `last_modified`, and the other field plays no part. With nothing
/// installed, or no state at all, every check is an update.
pub proof fn law_direct_verdict_reads_its_own_header(version: Seq<char>, s: AppState, other: Option<String>, method: CheckMethod)
    ensures
        s.local_version is Some ==> (direct_is_update(CheckMethod::Etag, version, Some(s))
            <==> opt_view(s.etag) != Some(version)),
        s.local_version is Some ==> (direct_is_update(CheckMethod::LastModified, version, Some(s))
            <==> opt_view(s.last_modified) != Some(version)),
        direct_is_update(CheckMethod::Etag, version, Some(s))
            == direct_is_update(CheckMethod::Etag, version, Some(AppState { last_modified: other, ..s })),
        direct_is_update(CheckMethod::LastModified, version, Some(s))
            == direct_is_update(CheckMethod::LastModified, version, Some(AppState { etag: other, ..s })),
        s.local_version is None ==> direct_is_update(method, version, Some(s)),
        direct_is_update(method, version, None),
{
}

/// Installing what a direct check reported and checking again with the same header
/// finds nothing new: the validator that came with the update is the one the next
/// check compares against.
pub proof fn law_direct_recheck_after_install_is_current(
    method: CheckMethod,
    version: Seq<char>,
    before: AppStateView,
    new_path: Seq<char>,
    downloaded_bytes: u64,
    after: AppState,
)
    requires
        after@ == installed_state(
            before,
            version,
            match method { CheckMethod::Etag => Some(version), CheckMethod::LastModified => None },
            match method { CheckMethod::LastModified => Some(version), CheckMethod::Etag => None },
            new_path,
            downloaded_bytes,
        ),
    ensures
        !direct_is_update(method, version, Some(after)),
{
    assert(opt_view(after.local_version) == Some(version));
}

} // verus!
