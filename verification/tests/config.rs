use kittzo::infra::config::{Config, ConfigFile};

#[test]
fn load_falls_back_to_default_when_file_missing() {
    let cfg = Config::load(None);
    assert_eq!(cfg.server_port, 7878);
    assert_eq!(cfg.log_level, "info");
}

#[test]
fn a_partial_file_keeps_the_defaults_it_leaves_out() {
    let cfg = Config::load(Some(ConfigFile { server_port: Some(9000), log_level: None }));
    assert_eq!(cfg.server_port, 9000);
    assert_eq!(cfg.log_level, "info");
}

#[test]
fn a_full_file_sets_every_setting() {
    let cfg = Config::load(Some(ConfigFile {
        server_port: Some(1234),
        log_level: Some("debug".to_string()),
    }));
    assert_eq!(cfg.server_port, 1234);
    assert_eq!(cfg.log_level, "debug");
}

#[test]
fn default_config() {
    let cfg = Config::default();
    assert_eq!(cfg.server_port, 7878);
    assert_eq!(cfg.log_level, "info");
}
