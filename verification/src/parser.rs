//! Where configuration, recipes, cache and lock live.
use crate::config::AppConfig;
use crate::integrator::{join_path, join_path_exec};
use crate::validator::{declared_name_spec, infer_name_from_yaml};
use vstd::prelude::*;

verus! {

/// The application's directory name under the XDG directories.
pub const APP_NAME: &'static str = "fp-appimage-updater";

/// The configuration and state directories.
#[derive(Clone)]
pub struct ConfigPaths {
    pub config_dir: String,
    pub state_dir: String,
}

/// A recipe file that could not be loaded.
#[derive(Clone)]
pub struct AppConfigLoadError {
    pub path: String,
    pub app_name: Option<String>,
    pub message: String,
}

/// The recipes that loaded and the ones that did not.
pub struct AppConfigLoadResult {
    pub apps: Vec<AppConfig>,
    pub errors: Vec<AppConfigLoadError>,
}

/// An XDG base directory: the variable when set, else the fallback under `HOME`.
pub open spec fn xdg_dir(var: Option<Seq<char>>, home: Seq<char>, fallback: Seq<char>) -> Seq<char> {
    match var {
        Some(v) => join_path(v, APP_NAME@),
        None => join_path(join_path(home, fallback), APP_NAME@),
    }
}

fn xdg_dir_exec(var: Option<&str>, home: Option<&str>, fallback: &str) -> (r: String)
    requires
        var is Some || home is Some,
    ensures
        r@ == xdg_dir(crate::resolvers::opt_str(var), match home { Some(h) => h@, None => seq![] }, fallback@),
{
    match var {
        Some(v) => join_path_exec(v, APP_NAME),
        None => {
            let h = match home {
                Some(h) => h,
                None => "",
            };
            let base = join_path_exec(h, fallback);
            join_path_exec(base.as_str(), APP_NAME)
        },
    }
}

impl ConfigPaths {
    /// The standard directories from `XDG_CONFIG_HOME`, `XDG_STATE_HOME` and `HOME`
    /// (`HOME` is needed for any of the two that is not set).
    pub fn from_environment(xdg_config_home: Option<&str>, xdg_state_home: Option<&str>, home: Option<&str>) -> (r: ConfigPaths)
        requires
            xdg_config_home is Some || home is Some,
            xdg_state_home is Some || home is Some,
        ensures
            r.config_dir@ == xdg_dir(crate::resolvers::opt_str(xdg_config_home), match home { Some(h) => h@, None => seq![] }, ".config"@),
            r.state_dir@ == xdg_dir(crate::resolvers::opt_str(xdg_state_home), match home { Some(h) => h@, None => seq![] }, ".local/state"@),
    {
        ConfigPaths {
            config_dir: xdg_dir_exec(xdg_config_home, home, ".config"),
            state_dir: xdg_dir_exec(xdg_state_home, home, ".local/state"),
        }
    }

    /// An explicit configuration directory, with the standard state directory.
    pub fn with_config_dir(config_dir: String, xdg_state_home: Option<&str>, home: Option<&str>) -> (r: ConfigPaths)
        requires
            xdg_state_home is Some || home is Some,
        ensures
            r.config_dir@ == config_dir@,
            r.state_dir@ == xdg_dir(crate::resolvers::opt_str(xdg_state_home), match home { Some(h) => h@, None => seq![] }, ".local/state"@),
    {
        ConfigPaths { config_dir, state_dir: xdg_dir_exec(xdg_state_home, home, ".local/state") }
    }

    /// `config.yml` in the configuration directory.
    pub fn global_config_path(&self) -> (r: String)
        ensures
            r@ == join_path(self.config_dir@, "config.yml"@),
    {
        join_path_exec(self.config_dir.as_str(), "config.yml")
    }

    /// The directory of application recipes.
    pub fn apps_dir(&self) -> (r: String)
        ensures
            r@ == join_path(self.config_dir@, "apps"@),
    {
        join_path_exec(self.config_dir.as_str(), "apps")
    }

    /// The state cache file.
    pub fn cache_path(&self) -> (r: String)
        ensures
            r@ == join_path(self.state_dir@, "cache.json"@),
    {
        join_path_exec(self.state_dir.as_str(), "cache.json")
    }

    /// The process lockfile.
    pub fn lock_path(&self) -> (r: String)
        ensures
            r@ == join_path(self.state_dir@, "process.lock"@),
    {
        join_path_exec(self.state_dir.as_str(), "process.lock")
    }

    /// The secrets file.
    pub fn secrets_path(&self) -> (r: String)
        ensures
            r@ == join_path(self.config_dir@, "secrets.yml"@),
    {
        join_path_exec(self.config_dir.as_str(), "secrets.yml")
    }
}


/// The error for the recipe file `path` that failed to load with `message`: named by
/// the `name` its text declares, when the text could be read (`content`) and declares one.
pub fn recipe_load_error(path: String, content: Option<&str>, message: String) -> (r: AppConfigLoadError)
    ensures
        r.path == path,
        r.message == message,
        match content {
            Some(c) => match r.app_name {
                Some(n) => declared_name_spec(c@) == Some(n@),
                None => declared_name_spec(c@) is None,
            },
            None => r.app_name is None,
        },
{
    let app_name = match content {
        Some(c) => infer_name_from_yaml(c),
        None => None,
    };
    AppConfigLoadError { path, app_name, message }
}

} // verus!
