use ped::config::{Config, DEFAULT_PAGE};
use ped::url_parts::UrlParts;

#[test]
fn defaults_are_valid() {
    let config = Config::default();
    assert!(config.validate().is_ok());
}

#[test]
fn invalid_loopback_binding_is_rejected() {
    let mut config = Config::default();
    config.static_server.bind = "0.0.0.0".to_owned();
    assert!(config.validate().is_err());
}

#[test]
fn url_policy_defaults_to_initial_origin() {
    let config = Config::default();
    let initial = UrlParts::parse("http://127.0.0.1:1234/index.html").unwrap();
    assert!(config.is_url_allowed(&initial, &initial));
    assert!(!config.is_url_allowed(&UrlParts::parse("http://example.com/").unwrap(), &initial));
}

#[test]
fn default_values() {
    let config = Config::default();
    assert_eq!(config.page.url, DEFAULT_PAGE);
    assert_eq!(config.display.refresh_interval_ms, 2500);
    assert_eq!(config.display.waveform, "quality");
    assert_eq!(config.control.socket, "/tmp/ped.sock");
    assert_eq!(config.control.max_request_bytes, 128 * 1024);
    assert_eq!(config.lifecycle.service, "lab126_gui");
    assert_eq!(config.static_server.bind, "127.0.0.1");
    assert!(config.source_path.is_none());
}

#[test]
fn validation_errors_are_reported_in_order() {
    let mut config = Config::default();
    config.display.refresh_interval_ms = 0;
    config.control.queue_capacity = 0;
    assert_eq!(
        config.validate().unwrap_err(),
        "display.refresh_interval_ms must be greater than zero"
    );
    let mut config = Config::default();
    config.control.max_request_bytes = 10;
    assert_eq!(
        config.validate().unwrap_err(),
        "control.max_request_bytes must cover script and event detail limits"
    );
    let mut config = Config::default();
    config.control.queue_capacity = 0;
    assert_eq!(config.validate().unwrap_err(), "control.queue_capacity must be greater than zero");
    let mut config = Config::default();
    config.display.full_refresh_interval = 0;
    assert_eq!(
        config.validate().unwrap_err(),
        "display.full_refresh_interval must be greater than zero"
    );
    let mut config = Config::default();
    config.control.max_script_bytes = 0;
    assert_eq!(config.validate().unwrap_err(), "control.max_script_bytes must be greater than zero");
    let mut config = Config::default();
    config.control.max_event_detail_bytes = 0;
    assert_eq!(
        config.validate().unwrap_err(),
        "control.max_event_detail_bytes must be greater than zero"
    );
}

#[test]
fn loopback_names_and_disabled_server_pass() {
    let mut config = Config::default();
    config.static_server.bind = "localhost".to_owned();
    assert!(config.validate().is_ok());
    config.static_server.bind = "127.0.0.2".to_owned();
    assert!(config.validate().is_ok());
    config.static_server.bind = "0.0.0.0".to_owned();
    config.static_server.enabled = false;
    assert!(config.validate().is_ok());
}

#[test]
fn page_urls_and_origins_are_checked() {
    let mut config = Config::default();
    config.page.url = "not a url".to_owned();
    assert!(config.validate().unwrap_err().starts_with("invalid page.url: "));
    let mut config = Config::default();
    config.page.trusted_origins = vec!["http://example.com/path".to_owned()];
    assert_eq!(
        config.validate().unwrap_err(),
        "origin must contain only scheme and host: http://example.com/path"
    );
    let mut config = Config::default();
    config.page.allowed_origins = vec!["::".to_owned()];
    assert!(config.validate().unwrap_err().starts_with("invalid origin ::: "));
    let mut config = Config::default();
    config.page.url = "file:///mnt/us/index.html".to_owned();
    config.static_server.enabled = false;
    assert_eq!(config.validate().unwrap_err(), "file:// pages require static_server.enabled");
}

#[test]
fn allowlisted_origins_match_scheme_host_and_port() {
    let mut config = Config::default();
    config.page.allowed_origins = vec!["https://example.com".to_owned(), "http://a.test:8080".to_owned()];
    let initial = UrlParts::parse("http://127.0.0.1/").unwrap();
    assert!(config.is_url_allowed(&UrlParts::parse("https://example.com/x?y").unwrap(), &initial));
    assert!(config.is_url_allowed(&UrlParts::parse("https://example.com:443/").unwrap(), &initial));
    assert!(!config.is_url_allowed(&UrlParts::parse("http://example.com/").unwrap(), &initial));
    assert!(config.is_url_allowed(&UrlParts::parse("http://a.test:8080/").unwrap(), &initial));
    assert!(!config.is_url_allowed(&UrlParts::parse("http://a.test/").unwrap(), &initial));
    assert!(!config.is_url_allowed(&initial, &initial));
}

#[test]
fn data_pages_allow_no_navigation_by_default() {
    let config = Config::default();
    let initial = UrlParts::parse(DEFAULT_PAGE).unwrap();
    assert!(!config.is_url_allowed(&initial, &initial));
}

#[test]
fn trust_defaults_to_loopback_pages() {
    let mut config = Config::default();
    assert!(config.is_origin_trusted(&UrlParts::parse("http://127.0.0.1:9000/").unwrap()));
    assert!(config.is_origin_trusted(&UrlParts::parse("file:///mnt/us/a.html").unwrap()));
    assert!(!config.is_origin_trusted(&UrlParts::parse("https://example.com/").unwrap()));
    assert!(!config.is_origin_trusted(&UrlParts::parse(DEFAULT_PAGE).unwrap()));
    config.page.trusted_origins = vec!["https://example.com".to_owned()];
    assert!(config.is_origin_trusted(&UrlParts::parse("https://example.com/a").unwrap()));
    assert!(!config.is_origin_trusted(&UrlParts::parse("http://127.0.0.1/").unwrap()));
}

#[test]
fn reload_applies_runtime_settings() {
    let mut config = Config::default();
    let mut next = Config::default();
    next.display.refresh_interval_ms = 1000;
    next.page.trusted_origins = vec!["https://example.com".to_owned()];
    next.control.max_script_bytes = 10;
    next.lifecycle.stop_timeout_ms = 5;
    let report = config.apply_runtime_reload(next).unwrap();
    assert!(report.applied);
    assert!(!report.restart_required);
    assert_eq!(report.messages, vec!["reloaded display/control/origin runtime settings".to_string()]);
    assert_eq!(config.display.refresh_interval_ms, 1000);
    assert_eq!(config.page.trusted_origins, vec!["https://example.com".to_string()]);
    assert_eq!(config.control.max_script_bytes, 10);
    assert_eq!(config.lifecycle.stop_timeout_ms, 5);
}

#[test]
fn reload_refuses_structural_changes() {
    let mut config = Config::default();
    let mut next = Config::default();
    next.control.socket = "/tmp/other.sock".to_owned();
    next.display.refresh_interval_ms = 1000;
    let report = config.apply_runtime_reload(next).unwrap();
    assert!(!report.applied);
    assert!(report.restart_required);
    assert_eq!(
        report.messages,
        vec!["socket/static-server/page/lifecycle/queue changes require restart".to_string()]
    );
    assert_eq!(config.display.refresh_interval_ms, 2500);
}

#[test]
fn reload_compares_paths_as_paths() {
    let mut config = Config::default();
    config.page.script = vec!["/a/b.js".to_owned()];
    let mut next = config.clone();
    next.page.script = vec!["/a//b.js".to_owned()];
    next.control.socket = "/tmp/ped.sock/".to_owned();
    let report = config.apply_runtime_reload(next).unwrap();
    assert!(report.applied);
    let mut other = config.clone();
    other.page.script = vec!["/a/c.js".to_owned()];
    assert!(config.apply_runtime_reload(other).unwrap().restart_required);
}

#[test]
fn orientation_setting_parses() {
    let mut config = Config::default();
    assert_eq!(config.orientation().unwrap(), ped::display::Orientation::Portrait);
    config.display.orientation = "90".to_owned();
    assert_eq!(config.orientation().unwrap(), ped::display::Orientation::Landscape);
    config.display.orientation = "up".to_owned();
    assert!(config.orientation().is_err());
}

#[test]
fn page_url_parses_or_explains() {
    let mut config = Config::default();
    config.page.url = "http://127.0.0.1:8000/index.html".to_owned();
    assert_eq!(config.page_url().unwrap().serialization, "http://127.0.0.1:8000/index.html");
    config.page.url = "nope".to_owned();
    assert!(config.page_url().unwrap_err().starts_with("invalid page.url: "));
}

#[test]
fn relative_paths_resolve_beside_the_config_file() {
    let mut config = Config::default();
    config.page.script = vec!["inject.js".to_owned(), "/abs/other.js".to_owned()];
    config.page.url = "dashboard/index.html".to_owned();
    let page = config.resolve_paths("/mnt/us/ped/ped.toml");
    assert_eq!(config.page.script, vec!["/mnt/us/ped/inject.js".to_string(), "/abs/other.js".to_string()]);
    assert_eq!(page.unwrap(), "/mnt/us/ped/dashboard/index.html");
    config.set_page_path("/mnt/us/ped/dashboard/index.html");
    assert_eq!(config.page.url, "file:///mnt/us/ped/dashboard/index.html");
    let mut config = Config::default();
    assert!(config.resolve_paths("/mnt/us/ped.toml").is_none());
    config.page.url = "http://x/".to_owned();
    assert!(config.resolve_paths("ped.toml").is_none());
    config.set_page_path("relative/path");
    assert_eq!(config.page.url, "relative/path");
}

#[test]
fn reloading_the_same_configuration_changes_nothing() {
    let mut config = Config::default();
    config.page.allowed_origins = vec!["https://example.com".to_owned()];
    let before = config.clone();
    let report = config.apply_runtime_reload(before.clone()).unwrap();
    assert!(report.applied);
    assert_eq!(config.page.allowed_origins, before.page.allowed_origins);
    assert_eq!(config.display.refresh_interval_ms, before.display.refresh_interval_ms);
    assert_eq!(config.control.socket, before.control.socket);
}
