use fp_appimage_updater::state::{AppState, State, StateManager};

#[test]
fn a_read_gives_back_what_was_written() {
    let mut manager = StateManager::new("/tmp/c.json".to_string(), State::new());
    assert!(manager.get_app("a").is_none());
    manager.get_app_mut("a").local_version = Some("1".to_string());
    manager.get_app_mut("b").etag = Some("e".to_string());
    manager.get_app_mut("a").local_version = Some("2".to_string());
    assert_eq!(manager.get_app("a").unwrap().local_version, Some("2".to_string()));
    assert_eq!(manager.get_app("b").unwrap().etag, Some("e".to_string()));
    assert_eq!(manager.state.apps.len(), 2);
    assert_eq!(manager.cache_path_str(), "/tmp/c.json");
    let copy = manager.get_app("a").unwrap().duplicate();
    assert_eq!(copy.local_version, Some("2".to_string()));
    let d = AppState::default();
    assert!(d.capabilities.is_empty() && d.local_version.is_none());
}

#[test]
fn removing_an_app_forgets_only_it() {
    let mut state = State::new();
    state.get_mut("a").local_version = Some("1".to_string());
    state.get_mut("b").local_version = Some("2".to_string());
    state.get_mut("c").local_version = Some("3".to_string());
    state.remove("b");
    assert!(state.get("b").is_none());
    assert_eq!(state.get("a").and_then(|s| s.local_version.clone()).as_deref(), Some("1"));
    assert_eq!(state.get("c").and_then(|s| s.local_version.clone()).as_deref(), Some("3"));
    state.remove("missing");
    assert_eq!(state.apps.len(), 2);
}

#[test]
fn get_app_mut_creates_a_default_entry_and_leaves_others() {
    let mut manager = StateManager::new("/tmp/c.json".to_string(), State::new());
    manager.get_app_mut("a").local_version = Some("1".to_string());
    assert!(manager.get_app("b").is_none());
    let b = manager.get_app_mut("b");
    assert_eq!(b.local_version, None);
    b.etag = Some("e".to_string());
    assert_eq!(manager.get_app("b").and_then(|s| s.etag.clone()).as_deref(), Some("e"));
    assert_eq!(manager.get_app("a").and_then(|s| s.local_version.clone()).as_deref(), Some("1"));
}
