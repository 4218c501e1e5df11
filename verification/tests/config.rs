use ainv_helper::config::{
    config_dir, config_dir_in, config_path, default_action_type, default_config_version,
    default_poll_interval, default_status_source, find_app_bundle, migrate, ActionConfig,
    ActionType, Config, HostsConfig, HostsEntry, StatusSource, CONFIG_VERSION,
};

#[test]
fn entry_line_is_trimmed() {
    let e = HostsEntry { ip: " 127.0.0.1\t".into(), hostname: "\n a.test ".into() };
    assert_eq!(e.to_line(), "127.0.0.1 a.test");
}

#[test]
fn defaults() {
    assert_eq!(default_poll_interval(), 30);
    assert_eq!(default_config_version(), 1);
    assert_eq!(default_status_source(), StatusSource::Battery);
    assert_eq!(default_action_type(), ActionType::Shell);
    let c = Config::default();
    assert_eq!(c.config_version, CONFIG_VERSION);
    assert_eq!(c.poll_interval_secs, 30);
    assert!(!c.hosts.enabled);
    assert_eq!(c.actions.len(), 2);
    assert_eq!(c.actions[0].action_type, ActionType::IosSimRoute);
    assert_eq!(c.actions[1].label, "toggle-android-sim-proxy");
}

#[test]
fn migrates_old_config_once() {
    let mut c = Config::default();
    c.config_version = 1;
    c.poll_interval_secs = 5;
    c.hosts = HostsConfig { enabled: true, entries: vec![] };
    c.actions = vec![ActionConfig { label: "x".into(), command: "true".into(), action_type: ActionType::Shell }];
    assert!(migrate(&mut c));
    assert_eq!(c.config_version, 2);
    assert_eq!(c.poll_interval_secs, 5);
    assert!(!c.hosts.enabled);
    assert_eq!(c.actions.len(), 2);
    assert!(!migrate(&mut c));
    assert_eq!(c.config_version, 2);
}

#[test]
fn config_paths() {
    assert_eq!(config_dir_in(Some("/Users/me/Library/Application Support")), "/Users/me/Library/Application Support/ainv-helper");
    assert_eq!(config_dir_in(None), "./ainv-helper");
    assert_eq!(config_dir_in(Some("/tmp/")), "/tmp/ainv-helper");
    assert!(config_dir().ends_with("ainv-helper"));
    assert!(config_path().ends_with("/ainv-helper/config.toml"));
}

#[test]
fn finds_app_bundle() {
    assert_eq!(
        find_app_bundle("/Applications/AInv Helper.app/Contents/MacOS/ainv-helper"),
        Some("/Applications/AInv Helper.app".to_string())
    );
    assert_eq!(find_app_bundle("/usr/local/bin/ainv-helper"), None);
    assert_eq!(find_app_bundle("/x.app"), Some("/x.app".to_string()));
}

#[test]
fn default_config_is_not_migrated() {
    let mut c = Config::default();
    assert!(!migrate(&mut c));
    assert_eq!(c.config_version, CONFIG_VERSION);
    assert_eq!(c.actions.len(), 2);
}

#[test]
fn lock_path_is_in_config_dir() {
    assert!(ainv_helper::instance::lock_path().ends_with("/ainv-helper/ainv-helper.lock"));
}
