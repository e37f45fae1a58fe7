use std::path::PathBuf;

use satur8::config::{
    app_config_dir, config_dir_from_env, join_path, profiles_path, profiles_path_from_env,
    vibrance_profiles_path_from_env, ConfigError,
};

#[test]
fn config_dir_prefers_xdg_config_home() {
    assert_eq!(
        PathBuf::from(config_dir_from_env(Some("/tmp/xdg"), Some("/home/noah")).unwrap()),
        PathBuf::from("/tmp/xdg/satur8")
    );
}

#[test]
fn config_dir_falls_back_to_home_when_xdg_missing_or_empty() {
    assert_eq!(
        PathBuf::from(config_dir_from_env(None, Some("/home/noah")).unwrap()),
        PathBuf::from("/home/noah/.config/satur8")
    );
    assert_eq!(
        PathBuf::from(config_dir_from_env(Some(""), Some("/home/noah")).unwrap()),
        PathBuf::from("/home/noah/.config/satur8")
    );
}

#[test]
fn config_dir_errors_without_home_fallback() {
    assert!(config_dir_from_env(None, None).is_err());
    assert!(config_dir_from_env(Some(""), None).is_err());
}

#[test]
fn profiles_path_adds_profiles_toml() {
    assert_eq!(
        PathBuf::from(profiles_path_from_env(Some("/tmp/xdg"), Some("/home/noah")).unwrap()),
        PathBuf::from("/tmp/xdg/satur8/profiles.toml")
    );
}

#[test]
fn join_path_follows_pathbuf_push() {
    for (base, part) in [
        ("/home/noah", ".config"),
        ("/home/noah/", ".config"),
        ("", "satur8"),
        ("/home/noah", "/etc/satur8"),
        ("rel", "a/b"),
    ] {
        let mut want = PathBuf::from(base);
        want.push(part);
        assert_eq!(PathBuf::from(join_path(base, part)), want, "{base} + {part}");
    }
}

#[test]
fn config_dir_error_text_and_other_apps() {
    assert_eq!(config_dir_from_env(None, None).unwrap_err(), ConfigError::HomeNotSet);
    assert_eq!(ConfigError::HomeNotSet.to_string(), "HOME is not set");
    assert_eq!(app_config_dir("vibrance", Some("/x"), None).unwrap(), "/x/vibrance");
    assert_eq!(
        vibrance_profiles_path_from_env(None, Some("/home/noah")).unwrap(),
        "/home/noah/.config/vibrance/profiles.toml"
    );
    assert_eq!(profiles_path("/cfg/"), "/cfg/profiles.toml");
}

#[test]
fn xdg_wins_over_home() {
    let a = config_dir_from_env(Some("/tmp/xdg"), Some("/home/a")).unwrap();
    let b = config_dir_from_env(Some("/tmp/xdg"), None).unwrap();
    assert_eq!(a, b);
}
