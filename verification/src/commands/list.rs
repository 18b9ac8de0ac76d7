//! The `list` command: what is configured and what is installed.
use crate::commands::helpers::app_is_ignored;
use crate::config::{opt_view, AppConfig, GlobalConfig, StrategyConfig};
use crate::output::types::{ListApp, ListResponse};
use crate::state::{lookup, StateManager};
use vstd::prelude::*;

verus! {

/// The label of a strategy.
pub open spec fn strategy_label_spec(s: StrategyConfig) -> Seq<char> {
    match s {
        StrategyConfig::Forge { .. } => "Forge"@,
        StrategyConfig::Direct { .. } => "Direct"@,
        StrategyConfig::Script { .. } => "Script"@,
    }
}

/// The label of a strategy.
pub fn strategy_label(strategy: &StrategyConfig) -> (r: &'static str)
    ensures
        r@ == strategy_label_spec(*strategy),
{
    match strategy {
        StrategyConfig::Forge { .. } => "Forge",
        StrategyConfig::Direct { .. } => "Direct",
        StrategyConfig::Script { .. } => "Script",
    }
}

/// What `list` shows of one application.
pub open spec fn list_entry_ok(item: ListApp, app: AppConfig, global: GlobalConfig, state: StateManager) -> bool {
    &&& item.name@ == app.name@
    &&& item.strategy@ == strategy_label_spec(app.strategy)
    &&& opt_view(item.local_version) == match lookup(state.cached()@, app.name@) {
        Some(st) => st.local_version,
        None => None,
    }
    &&& item.ignored == (app.ignore == Some(true))
    &&& item.integration == match app.integration {
        Some(b) => b,
        None => global.manage_desktop_files,
    }
    &&& item.symlink == match app.create_symlink {
        Some(b) => b,
        None => global.create_symlinks,
    }
}

/// The `list` report: one entry per configured application, in order.
pub fn run(app_configs: &[AppConfig], global_config: &GlobalConfig, state_manager: &StateManager) -> (r: ListResponse)
    requires
        state_manager.cached().wf(),
    ensures
        r.command@ == "list"@,
        r.apps@.len() == app_configs@.len(),
        forall|i: int| 0 <= i < app_configs@.len() ==> list_entry_ok(#[trigger] r.apps@[i], app_configs@[i], *global_config, *state_manager),
{
    let mut apps: Vec<ListApp> = Vec::new();
    let mut i: usize = 0;
    while i < app_configs.len()
        invariant
            i <= app_configs@.len(),
            state_manager.cached().wf(),
            apps@.len() == i,
            forall|j: int| 0 <= j < i ==> list_entry_ok(#[trigger] apps@[j], app_configs@[j], *global_config, *state_manager),
        decreases app_configs@.len() - i,
    {
        let app = &app_configs[i];
        let local_version = match state_manager.get_app(app.name.as_str()) {
            Some(s) => crate::config::copy_opt_string(&s.local_version),
            None => None,
        };
        let item = ListApp {
            name: app.name.clone(),
            strategy: String::from_str(strategy_label(&app.strategy)),
            local_version,
            ignored: app_is_ignored(app),
            integration: match app.integration {
                Some(b) => b,
                None => global_config.manage_desktop_files,
            },
            symlink: match app.create_symlink {
                Some(b) => b,
                None => global_config.create_symlinks,
            },
        };
        apps.push(item);
        i = i + 1;
    }
    ListResponse { command: "list", apps }
}

} // verus!
