//! The command line: commands, their options, and the init strategies.
use crate::text::{cat, chars_of, eq, lit, lower, string_of, to_lower};
use vstd::prelude::*;

verus! {

/// A command with its description and options, for the help text.
pub struct CmdInfo {
    pub name: &'static str,
    pub desc: &'static str,
    pub opts: Vec<&'static str>,
}

fn cmd(name: &'static str, desc: &'static str, opts: Vec<&'static str>) -> (r: CmdInfo)
    ensures
        r.name == name && r.desc == desc && r.opts == opts,
{
    CmdInfo { name, desc, opts }
}

/// The commands, in the order the help lists them.
pub fn command_defs() -> (r: Vec<CmdInfo>)
    ensures
        r@.len() == 9,
        r@[0].name == "init" && r@[0].desc == "Initialize starter configuration files"
            && r@[0].opts@ == seq!["--global", "--app", "--strategy", "--force"],
        r@[1].name == "validate" && r@[1].desc == "Validate application recipe files" && r@[1].opts@.len() == 0,
        r@[2].name == "doctor" && r@[2].desc == "Run health checks for local setup" && r@[2].opts@.len() == 0,
        r@[3].name == "list" && r@[3].desc == "List all configured applications and their status" && r@[3].opts@.len() == 0,
        r@[4].name == "check" && r@[4].desc == "Check for updates" && r@[4].opts@.len() == 0,
        r@[5].name == "update" && r@[5].desc == "Update applications (all, or specify one)"
            && r@[5].opts@ == seq!["--self-update", "--debug-download-url <URL>", "--debug-version <VER>"],
        r@[6].name == "remove" && r@[6].desc == "Remove an application and its symlink" && r@[6].opts@ == seq!["-a", "--all"],
        r@[7].name == "self-update" && r@[7].desc == "Update fp-appimage-updater itself" && r@[7].opts@ == seq!["--pre-release"],
        r@[8].name == "completion" && r@[8].desc == "Generate shell completion scripts" && r@[8].opts@.len() == 0,
{
    let mut v: Vec<CmdInfo> = Vec::new();
    v.push(cmd("init", "Initialize starter configuration files", vec!["--global", "--app", "--strategy", "--force"]));
    v.push(cmd("validate", "Validate application recipe files", Vec::new()));
    v.push(cmd("doctor", "Run health checks for local setup", Vec::new()));
    v.push(cmd("list", "List all configured applications and their status", Vec::new()));
    v.push(cmd("check", "Check for updates", Vec::new()));
    v.push(cmd("update", "Update applications (all, or specify one)", vec!["--self-update", "--debug-download-url <URL>", "--debug-version <VER>"]));
    v.push(cmd("remove", "Remove an application and its symlink", vec!["-a", "--all"]));
    v.push(cmd("self-update", "Update fp-appimage-updater itself", vec!["--pre-release"]));
    v.push(cmd("completion", "Generate shell completion scripts", Vec::new()));
    v
}

/// The options every command accepts.
pub fn global_opts() -> (r: Vec<&'static str>)
    ensures
        r@ == seq!["-c", "--config", "--json", "-h", "--help", "-V", "--version"],
{
    vec!["-c", "--config", "--json", "-h", "--help", "-V", "--version"]
}

/// The parsed command line.
pub struct Cli {
    pub config: Option<String>,
    pub json: bool,
    pub command: Commands,
}

/// The commands and their arguments.
pub enum Commands {
    Init { global: bool, app: Option<String>, strategy: InitStrategy, force: bool },
    Validate { app_name: Option<String> },
    Doctor,
    List,
    Check { app_name: Option<String> },
    Update {
        app_name: Option<String>,
        show_all: bool,
        self_update: bool,
        debug_download_url: Option<String>,
        debug_version: Option<String>,
    },
    Remove { app_name: Option<String>, all: bool, orphan: bool },
    SelfUpdate { pre_release: bool },
    Completion { shell: String },
}

/// The kinds of recipe that `init` can start.
#[derive(Clone, Copy, Debug, PartialEq, Eq, Structural)]
pub enum InitStrategy {
    Direct,
    Forge,
    Script,
}

/// The strategy a name selects, letter case aside.
pub open spec fn init_strategy_spec(s: Seq<char>) -> Result<InitStrategy, Seq<char>> {
    if lower(s) == "direct"@ {
        Ok(InitStrategy::Direct)
    } else if lower(s) == "forge"@ {
        Ok(InitStrategy::Forge)
    } else if lower(s) == "script"@ {
        Ok(InitStrategy::Script)
    } else {
        Err("Invalid strategy: "@ + s)
    }
}

impl InitStrategy {
    /// Reads a strategy name, letter case aside.
    pub fn parse(s: &str) -> (r: Result<InitStrategy, String>)
        ensures
            match init_strategy_spec(s@) {
                Ok(st) => r == Ok::<InitStrategy, String>(st),
                Err(e) => r matches Err(m) && m@ == e,
            },
    {
        let l = to_lower(&chars_of(s));
        if eq(&l, &chars_of("direct")) {
            Ok(InitStrategy::Direct)
        } else if eq(&l, &chars_of("forge")) {
            Ok(InitStrategy::Forge)
        } else if eq(&l, &chars_of("script")) {
            Ok(InitStrategy::Script)
        } else {
            Err(string_of(&cat(&lit("Invalid strategy: "), &chars_of(s))))
        }
    }
}

impl std::str::FromStr for InitStrategy {
    type Err = String;

    fn from_str(s: &str) -> (r: Result<InitStrategy, String>)
        ensures
            match init_strategy_spec(s@) {
                Ok(st) => r == Ok::<InitStrategy, String>(st),
                Err(e) => r matches Err(m) && m@ == e,
            },
    {
        InitStrategy::parse(s)
    }
}

} // verus!
