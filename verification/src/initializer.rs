//! `init`: which starter files to write and what they hold.
use crate::cli::InitStrategy;
use crate::integrator::{join_path, join_path_exec};
use crate::text::{cat, cat3, chars_of, lit, string_of};
use vstd::prelude::*;

verus! {

/// The files that `init` wrote and the ones it left alone.
pub struct InitResult {
    pub created: Vec<String>,
    pub skipped: Vec<String>,
}

/// The recipe template for an application.
pub open spec fn app_template_spec(name: Seq<char>, strategy: InitStrategy) -> Seq<char> {
    match strategy {
        InitStrategy::Direct => "name: "@ + name + "\nstrategy:\n  strategy: direct\n  url: \"https://example.org/"@ + name
            + ".AppImage\"\n  check_method: etag\n"@,
        InitStrategy::Forge => "name: "@ + name
            + "\nstrategy:\n  strategy: forge\n  repository: \"https://github.com/OWNER/REPO\"\n  asset_match: \"*-x86_64.AppImage\"\n"@,
        InitStrategy::Script => "name: "@ + name + "\nstrategy:\n  strategy: script\n  script_path: ./"@ + name
            + "/resolver.sh\n"@,
    }
}

/// A starter recipe.
pub fn app_template(name: &str, strategy: InitStrategy) -> (r: String)
    ensures
        r@ == app_template_spec(name@, strategy),
{
    let n = chars_of(name);
    let v = match strategy {
        InitStrategy::Direct => cat(
            &cat3(&lit("name: "), &n, &lit("\nstrategy:\n  strategy: direct\n  url: \"https://example.org/")),
            &cat(&n, &lit(".AppImage\"\n  check_method: etag\n")),
        ),
        InitStrategy::Forge => cat3(
            &lit("name: "),
            &n,
            &lit("\nstrategy:\n  strategy: forge\n  repository: \"https://github.com/OWNER/REPO\"\n  asset_match: \"*-x86_64.AppImage\"\n"),
        ),
        InitStrategy::Script => cat(
            &cat3(&lit("name: "), &n, &lit("\nstrategy:\n  strategy: script\n  script_path: ./")),
            &cat(&n, &lit("/resolver.sh\n")),
        ),
    };
    string_of(&v)
}

/// The starter resolver script.
pub fn script_template() -> (r: &'static str)
    ensures
        r@ == "#!/usr/bin/env bash\nset -euo pipefail\n\necho \"https://example.org/my-app.AppImage\"\necho \"1.0.0\"\n"@,
{
    "#!/usr/bin/env bash\nset -euo pipefail\n\necho \"https://example.org/my-app.AppImage\"\necho \"1.0.0\"\n"
}

/// A file `init` means to write: its path, its content (`None`: the default global
/// configuration), and whether it is made executable.
pub struct PlannedFile {
    pub path: String,
    pub content: Option<String>,
    pub executable: bool,
}

/// The files of `init`, in order: the global configuration (asked for, or when no
/// application is named), then the application's recipe and, for a script strategy,
/// its resolver script.
pub fn planned_files(
    global_config_path: &str,
    apps_dir: &str,
    create_global: bool,
    app_name: Option<&str>,
    strategy: InitStrategy,
) -> (r: Vec<PlannedFile>)
    ensures
        ({
            let g: int = if create_global || app_name is None { 1 } else { 0 };
            let a: int = match app_name { Some(_) => if strategy == InitStrategy::Script { 2 } else { 1 }, None => 0 };
            &&& r@.len() == g + a
            &&& g == 1 ==> r@[0].path@ == global_config_path@ && r@[0].content is None && !r@[0].executable
            &&& app_name matches Some(n) ==> {
                &&& r@[g].path@ == join_path(apps_dir@, n@ + ".yml"@)
                &&& r@[g].content matches Some(c) && c@ == app_template_spec(n@, strategy)
                &&& !r@[g].executable
                &&& strategy == InitStrategy::Script ==> r@[g + 1].path@ == join_path(join_path(apps_dir@, n@), "resolver.sh"@)
                    && r@[g + 1].content is Some && r@[g + 1].executable
            }
        }),
{
    let mut files: Vec<PlannedFile> = Vec::new();
    if create_global || app_name.is_none() {
        files.push(PlannedFile { path: String::from_str(global_config_path), content: None, executable: false });
    }
    match app_name {
        Some(n) => {
            let file_name = string_of(&cat(&chars_of(n), &lit(".yml")));
            files.push(PlannedFile {
                path: join_path_exec(apps_dir, file_name.as_str()),
                content: Some(app_template(n, strategy)),
                executable: false,
            });
            if strategy == InitStrategy::Script {
                let dir = join_path_exec(apps_dir, n);
                files.push(PlannedFile {
                    path: join_path_exec(dir.as_str(), "resolver.sh"),
                    content: Some(String::from_str(script_template())),
                    executable: true,
                });
            }
        },
        None => {},
    }
    files
}

/// What to do with a planned file.
#[derive(Clone, Copy, Debug, PartialEq, Eq, Structural)]
pub enum WriteDecision {
    Write,
    Skip,
    RefuseDirectory,
}

/// An existing file is skipped unless `force` is given; a directory is never overwritten.
pub fn write_decision(file_exists: bool, is_dir: bool, force: bool) -> (r: WriteDecision)
    ensures
        file_exists && !force ==> r == WriteDecision::Skip,
        file_exists && force && is_dir ==> r == WriteDecision::RefuseDirectory,
        (!file_exists || (force && !is_dir)) ==> r == WriteDecision::Write,
{
    if file_exists && !force {
        WriteDecision::Skip
    } else if file_exists && force && is_dir {
        WriteDecision::RefuseDirectory
    } else {
        WriteDecision::Write
    }
}

} // verus!
