use citybound::config::{name_fits, Config, ConfigEntries, ConfigFileWatcher, ConfigManager, NAME_CAPACITY};

#[derive(Clone, Debug, PartialEq)]
struct TestConfig {
    value: u32,
}

impl Config for TestConfig {}

fn test_config(value: u32) -> TestConfig {
    TestConfig { value }
}

fn test_entries(entries: &[(&str, u32)]) -> ConfigEntries<TestConfig> {
    let mut map = ConfigEntries::new();
    for (name, value) in entries {
        map.insert(name.to_string(), test_config(*value));
    }
    map
}

#[test]
fn load_if_needed_runs_only_once() {
    let mut watcher = ConfigFileWatcher::spawn("test-config.yaml");
    let mut reloads = 0;

    let load = watcher.load_if_needed();
    if load {
        reloads += 1;
    }
    assert!(load);
    assert_eq!(reloads, 1);
    assert!(watcher.loaded_once());

    let load = watcher.load_if_needed();
    if load {
        reloads += 1;
    }
    assert!(!load);
    assert_eq!(reloads, 1);
}

#[test]
fn new_watchers_start_unloaded() {
    let watcher = ConfigFileWatcher::spawn("test-config.yaml");

    assert!(!watcher.loaded_once());
    assert_eq!(watcher.file(), "test-config.yaml");
}

#[test]
fn manager_spawn_clones_initial_entries() {
    let initial_entries = test_entries(&[("alpha", 1)]);

    let manager = ConfigManager::spawn(&initial_entries);

    assert_eq!(manager.entries().get("alpha").unwrap().value, 1);
}

#[test]
fn apply_entry_update_inserts_and_removes_entries() {
    let mut manager = ConfigManager::spawn(&ConfigEntries::new());

    manager.apply_entry_update("alpha".to_string(), &Some(test_config(7)));
    assert_eq!(manager.entries().get("alpha").unwrap().value, 7);

    manager.apply_entry_update("alpha".to_string(), &None);
    assert!(manager.entries().get("alpha").is_none());
}

#[test]
fn replace_all_entries_replaces_existing_entries() {
    let mut manager = ConfigManager::spawn(&test_entries(&[("old", 1)]));

    manager.replace_all_entries(&test_entries(&[("alpha", 2), ("beta", 3)]));

    assert!(manager.entries().get("old").is_none());
    assert_eq!(manager.entries().get("alpha").unwrap().value, 2);
    assert_eq!(manager.entries().get("beta").unwrap().value, 3);
}

#[test]
fn config_user_apply_and_on_change_update_local_cache() {
    let mut cache: ConfigEntries<TestConfig> = ConfigEntries::new();

    cache.apply_change("alpha".to_string(), &Some(test_config(9)));
    assert_eq!(cache.get("alpha").unwrap().value, 9);

    cache.apply_change("beta".to_string(), &Some(test_config(11)));
    assert_eq!(cache.get("beta").unwrap().value, 11);

    cache.apply_change("alpha".to_string(), &None);
    assert!(cache.get("alpha").is_none());
}

#[test]
fn inserting_an_existing_name_replaces_its_value() {
    let mut entries = test_entries(&[("alpha", 1), ("beta", 2)]);
    entries.insert("alpha".to_string(), test_config(5));
    assert_eq!(entries.len(), 2);
    assert_eq!(entries.get("alpha"), Some(&test_config(5)));
    entries.remove("gamma");
    assert_eq!(entries.len(), 2);
}

#[test]
fn updates_announce_the_change() {
    let mut manager = ConfigManager::spawn(&test_entries(&[("alpha", 1)]));
    let (name, value) = manager.update_entry("beta".to_string(), &Some(test_config(4)));
    assert_eq!(name, "beta");
    assert_eq!(value, Some(test_config(4)));
    let (name, value) = manager.update_entry("alpha".to_string(), &None);
    assert_eq!(name, "alpha");
    assert_eq!(value, None);
    let mut current = manager.request_current();
    current.sort_by(|a, b| a.0.cmp(&b.0));
    assert_eq!(current, vec![("beta".to_string(), test_config(4))]);
}

#[test]
fn update_all_announces_every_new_entry() {
    let mut manager = ConfigManager::spawn(&test_entries(&[("old", 1)]));
    let mut announced = manager.update_all_entries(&test_entries(&[("alpha", 2), ("beta", 3)]));
    announced.sort_by(|a, b| a.0.cmp(&b.0));
    assert_eq!(
        announced,
        vec![("alpha".to_string(), test_config(2)), ("beta".to_string(), test_config(3))]
    );
    assert!(manager.entries().get("old").is_none());
}

#[test]
fn set_then_remove_leaves_the_table_as_before() {
    let mut entries = test_entries(&[("alpha", 1)]);
    entries.apply_change("beta".to_string(), &Some(test_config(2)));
    entries.apply_change("beta".to_string(), &None);
    assert_eq!(entries.len(), 1);
    assert!(entries.get("beta").is_none());
    assert_eq!(entries.get("alpha"), Some(&test_config(1)));
}

#[test]
fn names_hold_at_most_sixteen_bytes() {
    assert_eq!(NAME_CAPACITY, 16);
    assert!(name_fits(""));
    assert!(name_fits("exactly_16_bytes"));
    assert!(!name_fits("seventeen_bytes!!"));
    assert!(name_fits("\u{e9}\u{e9}\u{e9}\u{e9}\u{e9}\u{e9}\u{e9}\u{e9}"));
    assert!(!name_fits("\u{e9}\u{e9}\u{e9}\u{e9}\u{e9}\u{e9}\u{e9}\u{e9}a"));
}
