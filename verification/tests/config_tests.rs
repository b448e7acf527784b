use opencode_selector::config::{Config, ConfigError, ConfigFile, ThemeConfig, join_path_str};

#[test]
fn config_paths_are_resolved() {
    let config = Config::new().unwrap();
    assert!(config.selector_config_dir().contains("opencode-selector"));
    assert!(config.opencode_db_path().contains("opencode.db"));
}

#[test]
fn folders_disabled_by_default() {
    let config = Config::new().unwrap();
    assert!(!config.folders_enabled());
}

#[test]
fn config_from_dirs_lays_out_paths() {
    let config = Config::from_dirs(
        "/c/opencode-selector".to_string(),
        "/d/opencode-selector".to_string(),
        "/home/u".to_string(),
    );
    assert_eq!(config.selector_config_dir(), "/c/opencode-selector");
    assert_eq!(config.selector_data_dir(), "/d/opencode-selector");
    assert_eq!(config.opencode_db_path(), "/home/u/.local/share/opencode/opencode.db");
    assert_eq!(config.opencode_config_dir(), "/home/u/.config/opencode");
    assert_eq!(config.folders_path(), "/c/opencode-selector/folders.toml");
    assert_eq!(config.config_file_path(), "/c/opencode-selector/config.toml");
    assert!(config.theme().is_none());
}

#[test]
fn config_overrides_paths_and_file() {
    let config = Config::from_dirs("/c".to_string(), "/d".to_string(), "/h".to_string())
        .with_opencode_db_path("/tmp/x.db")
        .with_folders_path("/tmp/f.toml");
    assert_eq!(config.opencode_db_path(), "/tmp/x.db");
    assert_eq!(config.folders_path(), "/tmp/f.toml");
    let mut file = ConfigFile::default();
    file.folders_enabled = true;
    file.theme = Some(ThemeConfig { accent: Some("#ff0000".to_string()), ..ThemeConfig::default() });
    let mut config = config.with_config_file_path("/tmp/c.toml", file);
    assert_eq!(config.config_file_path(), "/tmp/c.toml");
    assert!(config.folders_enabled());
    assert_eq!(config.theme().unwrap().accent, Some("#ff0000".to_string()));
    config.set_folders_enabled(false);
    assert!(!config.folders_enabled());
}

#[test]
fn join_path_adds_one_separator() {
    assert_eq!(join_path_str("/a", "b"), "/a/b");
    assert_eq!(join_path_str("/a/", "b"), "/a/b");
}

#[test]
fn config_error_messages() {
    assert!(ConfigError::NoProjectDirs.message().contains("project directories"));
    assert!(ConfigError::NoHomeDir.message().contains("home directory"));
}

#[test]
fn selector_directories_carry_the_application_name() {
    let config = Config::new().unwrap();
    assert!(config.selector_config_dir().contains("opencode-selector"));
    assert!(config.selector_data_dir().contains("opencode-selector"));
}
