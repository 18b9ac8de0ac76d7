//! Script resolvers: a user script prints the download URL and the version.
use crate::config::{opt_view, strings_view};
use crate::resolvers::{
    capability_from_header_value, capability_spec, dedupe_capabilities, installed_version_is, is_installed_version,
    opt_str, CheckResult, UpdateInfo,
};
use crate::state::AppState;
use crate::text::{cat, cat3, chars_of, decimal, decimal_exec, lines, lines_exec, lit, string_of, strictly_sorted, trim, trim_exec, views};
use vstd::prelude::*;

verus! {

/// `<empty>` for output that is only white space, else the output.
pub open spec fn shown_output(s: Seq<char>) -> Seq<char> {
    if trim(s).len() == 0 { "<empty>"@ } else { s }
}

fn shown_output_exec(s: &str) -> (r: Vec<char>)
    ensures
        r@ == shown_output(s@),
{
    let c = chars_of(s);
    if trim_exec(&c).len() == 0 { lit("<empty>") } else { c }
}

/// The exit code as text, or the note that a signal ended the script.
pub open spec fn exit_description(code: Option<i32>) -> Seq<char> {
    match code {
        Some(c) => if c < 0 { "-"@ + decimal((-(c as int)) as nat) } else { decimal(c as nat) },
        None => "terminated by signal"@,
    }
}

fn exit_description_exec(code: Option<i32>) -> (r: Vec<char>)
    ensures
        r@ == exit_description(code),
{
    match code {
        Some(c) => {
            if c < 0 {
                let magnitude: u64 = if c == i32::MIN { 2147483648u64 } else { (-c) as u64 };
                cat(&lit("-"), &decimal_exec(magnitude))
            } else {
                decimal_exec(c as u64)
            }
        },
        None => lit("terminated by signal"),
    }
}

/// The report of a failed resolver script.
pub open spec fn script_failure_spec(app_name: Seq<char>, code: Option<i32>, script_path: Seq<char>, cwd: Seq<char>, stdout: Seq<char>, stderr: Seq<char>) -> Seq<char> {
    "Resolver script for '"@ + app_name + "' failed (exit: "@ + exit_description(code) + ").\nscript: "@ + script_path
        + "\ncwd: "@ + cwd + "\nstdout:\n"@ + shown_output(stdout) + "\nstderr:\n"@ + shown_output(stderr)
}

/// Describes a failed resolver script with everything needed to debug it.
pub fn script_failure_message(app_name: &str, code: Option<i32>, script_path: &str, cwd: &str, stdout: &str, stderr: &str) -> (r: String)
    ensures
        r@ == script_failure_spec(app_name@, code, script_path@, cwd@, stdout@, stderr@),
{
    let a = cat3(&lit("Resolver script for '"), &chars_of(app_name), &lit("' failed (exit: "));
    let b = cat3(&exit_description_exec(code), &lit(").\nscript: "), &chars_of(script_path));
    let c = cat3(&lit("\ncwd: "), &chars_of(cwd), &lit("\nstdout:\n"));
    let d = cat3(&shown_output_exec(stdout), &lit("\nstderr:\n"), &shown_output_exec(stderr));
    let all = cat(&cat(&a, &b), &cat(&c, &d));
    assert(all@ =~= script_failure_spec(app_name@, code, script_path@, cwd@, stdout@, stderr@));
    string_of(&all)
}

/// The download URL and version a script printed on its first two lines (trimmed),
/// or why they cannot be used.
pub open spec fn script_output_spec(app_name: Seq<char>, script_path: Seq<char>, cwd: Seq<char>, stdout: Seq<char>) -> Result<(Seq<char>, Seq<char>), Seq<char>> {
    let ls = lines(stdout);
    if ls.len() < 1 {
        Err("Script did not output a download URL on the first line"@)
    } else if ls.len() < 2 {
        Err("Script did not output a version on the second line"@)
    } else if trim(ls[0]).len() == 0 {
        Err("Resolver script for '"@ + app_name + "' returned an empty download URL"@ + ".\nscript: "@ + script_path + "\ncwd: "@ + cwd)
    } else if trim(ls[1]).len() == 0 {
        Err("Resolver script for '"@ + app_name + "' returned an empty version string"@ + ".\nscript: "@ + script_path + "\ncwd: "@ + cwd)
    } else {
        Ok((trim(ls[0]), trim(ls[1])))
    }
}

/// Reads the download URL and the version from a resolver script's output.
pub fn parse_script_output(app_name: &str, script_path: &str, cwd: &str, stdout: &str) -> (r: Result<(String, String), String>)
    ensures
        match script_output_spec(app_name@, script_path@, cwd@, stdout@) {
            Ok((u, v)) => r matches Ok((a, b)) && a@ == u && b@ == v,
            Err(e) => r matches Err(m) && m@ == e,
        },
{
    let ls = lines_exec(&chars_of(stdout));
    if ls.len() < 1 {
        return Err(String::from_str("Script did not output a download URL on the first line"));
    }
    if ls.len() < 2 {
        return Err(String::from_str("Script did not output a version on the second line"));
    }
    assert(views(ls@)[0] == ls@[0]@ && views(ls@)[1] == ls@[1]@);
    let url = trim_exec(&ls[0]);
    let version = trim_exec(&ls[1]);
    let tail = cat3(&lit(".\nscript: "), &chars_of(script_path), &cat(&lit("\ncwd: "), &chars_of(cwd)));
    if url.len() == 0 {
        let m = cat3(&lit("Resolver script for '"), &chars_of(app_name), &cat(&lit("' returned an empty download URL"), &tail));
        assert(m@ =~= "Resolver script for '"@ + app_name@ + "' returned an empty download URL"@ + ".\nscript: "@ + script_path@ + "\ncwd: "@ + cwd@);
        return Err(string_of(&m));
    }
    if version.len() == 0 {
        let m = cat3(&lit("Resolver script for '"), &chars_of(app_name), &cat(&lit("' returned an empty version string"), &tail));
        assert(m@ =~= "Resolver script for '"@ + app_name@ + "' returned an empty version string"@ + ".\nscript: "@ + script_path@ + "\ncwd: "@ + cwd@);
        return Err(string_of(&m));
    }
    Ok((string_of(&url), string_of(&version)))
}

/// The result of a script lookup, from the `Accept-Ranges` header of a `HEAD` request
/// on the download (`None`: the request failed; `Some(None)`: no such header).
pub fn script_check_result(
    download_url: String,
    version: String,
    head_accept_ranges: Option<Option<&str>>,
    state: Option<&AppState>,
) -> (r: CheckResult)
    ensures
        ({
            let ranges = match head_accept_ranges {
                Some(h) => capability_spec("segmented_downloads"@, opt_str(h)) is Some,
                None => false,
            };
            &&& strings_view(r.capabilities@) == if ranges { seq!["segmented_downloads"@] } else { Seq::<Seq<char>>::empty() }
            &&& r.segmented_downloads == match head_accept_ranges { Some(_) => Some(ranges), None => None::<bool> }
            &&& r.forge_repository is None && r.forge_platform is None
            &&& (r.update is None <==> is_installed_version(match state { Some(s) => Some(*s), None => None }, version@))
            &&& (r.update matches Some(u) ==> u.download_url@ == download_url@ && u.version@ == version@
                && u.new_etag is None && u.new_last_modified is None)
        }),
{
    let mut capabilities: Vec<String> = Vec::new();
    let mut segmented_downloads: Option<bool> = None;
    match head_accept_ranges {
        Some(h) => {
            segmented_downloads = Some(false);
            match capability_from_header_value("segmented_downloads", h) {
                Some(c) => {
                    capabilities.push(c);
                    segmented_downloads = Some(true);
                },
                None => {},
            }
        },
        None => {},
    }
    proof {
        reveal_strlit("segmented_downloads");
    }
    let ghost before = strings_view(capabilities@);
    dedupe_capabilities(&mut capabilities);
    proof {
        let after = strings_view(capabilities@);
        if segmented_downloads == Some(true) {
            assert(before =~= seq!["segmented_downloads"@]);
            assert(before[0] == "segmented_downloads"@);
            assert(after.contains("segmented_downloads"@));
            assert forall|k: int| 0 <= k < after.len() implies after[k] == "segmented_downloads"@ by {
                assert(after.contains(after[k]));
            }
            if after.len() > 1 {
                assert(crate::text::seq_lt(after[0], after[1]));
                crate::text::lemma_seq_lt_irreflexive(after[0]);
            }
            assert(after =~= seq!["segmented_downloads"@]);
        } else {
            assert(before.len() == 0);
            if after.len() > 0 {
                assert(after.contains(after[0]));
            }
            assert(after =~= Seq::<Seq<char>>::empty());
        }
    }
    let update = if installed_version_is(state, version.as_str()) {
        None
    } else {
        Some(UpdateInfo { download_url, version, new_etag: None, new_last_modified: None })
    };
    CheckResult { update, capabilities, segmented_downloads, forge_repository: None, forge_platform: None }
}

} // verus!
