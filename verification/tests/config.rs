use dewey::config::{check_config, config_dir, expand_tilde, modules_dir, Config};

#[test]
fn expand_tilde_replaces_home() {
    let home = "/home/reader";
    assert_eq!(expand_tilde("~", Some(home)), home);
    assert_eq!(expand_tilde("~/x", Some(home)), format!("{home}/x"));
    assert_eq!(expand_tilde("/abs/path", Some(home)), "/abs/path");
    assert_eq!(expand_tilde("relative", Some(home)), "relative");
}

#[test]
fn expand_tilde_without_home_keeps_path() {
    assert_eq!(expand_tilde("~", None), "~");
    assert_eq!(expand_tilde("~/x", None), "~/x");
    assert_eq!(expand_tilde("~user/x", Some("/h")), "~user/x");
}

#[test]
fn expanded_download_dir_follows_config() {
    let cfg = Config { default_module: Some("gutenberg".into()), download_dir: Some("~/Downloads".into()) };
    assert_eq!(cfg.expanded_download_dir(Some("/home/r")).as_deref(), Some("/home/r/Downloads"));
    let cfg = Config::default();
    assert!(cfg.expanded_download_dir(Some("/home/r")).is_none());
}

#[test]
fn blank_default_module_is_config_error() {
    let cfg = Config { default_module: Some(" \t".into()), download_dir: None };
    let err = check_config(cfg).unwrap_err();
    assert_eq!(err.exit_code(), 4);
    assert_eq!(err.message(), "config.toml: default_module must not be empty");
    let cfg = Config { default_module: Some("gutenberg".into()), download_dir: None };
    assert_eq!(check_config(cfg).unwrap().default_module.as_deref(), Some("gutenberg"));
    assert!(check_config(Config::default()).is_ok());
}

#[test]
fn directories_derive_from_home_and_env() {
    assert_eq!(config_dir(Some("/home/r")).unwrap(), "/home/r/.config/dewey");
    assert_eq!(config_dir(None).unwrap_err().exit_code(), 4);
    assert_eq!(modules_dir(None, Some("/home/r")).unwrap(), "/home/r/.config/dewey/modules");
    assert_eq!(modules_dir(Some("/opt/mods"), None).unwrap(), "/opt/mods");
    let err = modules_dir(Some(""), Some("/home/r")).unwrap_err();
    assert_eq!(err.exit_code(), 4);
    assert_eq!(err.message(), "DEWEY_MODULES is empty");
}
