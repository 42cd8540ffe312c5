use ped::commands::{plan_command, plan_emit, plan_reload_reply, reload_config, CommandPlan};
use ped::config::{Config, ReloadReport};
use ped::control::Request;
use ped::display::{Scheduler, Waveform};
use ped::runtime::{RuntimeFlags, State};
use ped::url_parts::UrlParts;

fn request(method: &str) -> Request {
    Request {
        id: 1,
        method: method.to_string(),
        url: None,
        script: None,
        event_type: None,
        detail: None,
        force: false,
    }
}

fn setup() -> (Config, UrlParts, Scheduler, State) {
    (
        Config::default(),
        UrlParts::parse("http://127.0.0.1:1234/index.html").unwrap(),
        Scheduler::new(true, 1000),
        State::Running,
    )
}

fn fail_of(plan: CommandPlan) -> (&'static str, String) {
    match plan {
        CommandPlan::Fail { code, message } => (code, message),
        other => panic!("expected failure, got {:?}", other),
    }
}

#[test]
fn status_and_unknown_methods() {
    let (config, initial, mut scheduler, mut state) = setup();
    assert!(matches!(
        plan_command(&request("status"), &config, &initial, &mut scheduler, &mut state),
        CommandPlan::Status
    ));
    let (code, message) =
        fail_of(plan_command(&request("dance"), &config, &initial, &mut scheduler, &mut state));
    assert_eq!((code, message.as_str()), ("unknown_method", "unknown control method"));
    assert_eq!(state, State::Running);
}

#[test]
fn open_is_origin_allowlisted() {
    let (config, initial, mut scheduler, mut state) = setup();
    let mut req = request("open");
    req.url = Some("http://127.0.0.1:1234/other.html".to_string());
    match plan_command(&req, &config, &initial, &mut scheduler, &mut state) {
        CommandPlan::Open { url } => assert_eq!(url, "http://127.0.0.1:1234/other.html"),
        other => panic!("unexpected {:?}", other),
    }
    req.url = Some("http://example.com/".to_string());
    let (code, message) = fail_of(plan_command(&req, &config, &initial, &mut scheduler, &mut state));
    assert_eq!((code, message.as_str()), ("url_not_allowed", "URL is not in the configured allowlist"));
    req.url = Some("::".to_string());
    let (code, _) = fail_of(plan_command(&req, &config, &initial, &mut scheduler, &mut state));
    assert_eq!(code, "invalid_url");
    req.url = None;
    let (code, message) = fail_of(plan_command(&req, &config, &initial, &mut scheduler, &mut state));
    assert_eq!((code, message.as_str()), ("invalid_url", "open requires a valid URL"));
}

#[test]
fn refresh_requests_a_frame() {
    let (config, initial, mut scheduler, mut state) = setup();
    state = State::Refreshing;
    let mut req = request("refresh");
    req.force = true;
    match plan_command(&req, &config, &initial, &mut scheduler, &mut state) {
        CommandPlan::Refresh { sequence, force } => {
            assert_eq!(sequence, 0);
            assert!(force);
        }
        other => panic!("unexpected {:?}", other),
    }
    assert!(scheduler.full_requested());
    assert_eq!(state, State::Running);
}

#[test]
fn stop_marks_the_runtime_stopping() {
    let (config, initial, mut scheduler, mut state) = setup();
    assert!(matches!(
        plan_command(&request("stop"), &config, &initial, &mut scheduler, &mut state),
        CommandPlan::Stop
    ));
    assert_eq!(state, State::Stopping);
    assert!(!scheduler.full_requested());
}

#[test]
fn eval_scripts_are_limited() {
    let (mut config, initial, mut scheduler, mut state) = setup();
    let (code, message) =
        fail_of(plan_command(&request("eval"), &config, &initial, &mut scheduler, &mut state));
    assert_eq!((code, message.as_str()), ("missing_script", "eval requires script"));
    let mut req = request("eval");
    req.script = Some("1 + 1".to_string());
    match plan_command(&req, &config, &initial, &mut scheduler, &mut state) {
        CommandPlan::Evaluate { script } => assert_eq!(script, "1 + 1"),
        other => panic!("unexpected {:?}", other),
    }
    config.control.max_script_bytes = 4;
    let (code, message) = fail_of(plan_command(&req, &config, &initial, &mut scheduler, &mut state));
    assert_eq!((code, message.as_str()), ("script_too_large", "script exceeds configured limit"));
    req.script = Some("é+é".to_string());
    let (code, _) = fail_of(plan_command(&req, &config, &initial, &mut scheduler, &mut state));
    assert_eq!(code, "script_too_large");
}

#[test]
fn emit_builds_an_event_script() {
    let (mut config, initial, mut scheduler, mut state) = setup();
    let (code, message) =
        fail_of(plan_command(&request("emit"), &config, &initial, &mut scheduler, &mut state));
    assert_eq!((code, message.as_str()), ("missing_event_type", "emit requires type"));
    let mut req = request("emit");
    req.event_type = Some("up\"date".to_string());
    match plan_command(&req, &config, &initial, &mut scheduler, &mut state) {
        CommandPlan::Emit { script } => assert_eq!(
            script,
            "window.dispatchEvent(new CustomEvent(\"up\\\"date\", {detail: null}));"
        ),
        other => panic!("unexpected {:?}", other),
    }
    req.detail = Some("{\"runtime\":\"manual-emit\"}".to_string());
    match plan_command(&req, &config, &initial, &mut scheduler, &mut state) {
        CommandPlan::Emit { script } => assert_eq!(
            script,
            "window.dispatchEvent(new CustomEvent(\"up\\\"date\", {detail: {\"runtime\":\"manual-emit\"}}));"
        ),
        other => panic!("unexpected {:?}", other),
    }
    config.control.max_event_detail_bytes = 5;
    let (code, message) = fail_of(plan_command(&req, &config, &initial, &mut scheduler, &mut state));
    assert_eq!(
        (code, message.as_str()),
        ("event_detail_too_large", "event detail exceeds configured limit")
    );
}

#[test]
fn emit_after_encoding() {
    let (code, message) = fail_of(plan_emit(Err("bad".to_string()), &None, 100));
    assert_eq!((code, message.as_str()), ("invalid_event_type", "bad"));
    match plan_emit(Ok("\"x\"".to_string()), &Some("[1]".to_string()), 3) {
        CommandPlan::Emit { script } => {
            assert_eq!(script, "window.dispatchEvent(new CustomEvent(\"x\", {detail: [1]}));")
        }
        other => panic!("unexpected {:?}", other),
    }
    let (code, _) = fail_of(plan_emit(Ok("\"x\"".to_string()), &Some("[1]".to_string()), 2));
    assert_eq!(code, "event_detail_too_large");
}

#[test]
fn reload_config_needs_a_source_path() {
    let (mut config, initial, mut scheduler, mut state) = setup();
    let (code, message) =
        fail_of(plan_command(&request("reload-config"), &config, &initial, &mut scheduler, &mut state));
    assert_eq!((code, message.as_str()), ("reload_failed", "PED was started without a config file path"));
    config.source_path = Some("/mnt/us/ped.toml".to_string());
    match plan_command(&request("reload-config"), &config, &initial, &mut scheduler, &mut state) {
        CommandPlan::Reload { path } => assert_eq!(path, "/mnt/us/ped.toml"),
        other => panic!("unexpected {:?}", other),
    }
}

#[test]
fn reloads_update_pacing_waveform_and_flags() {
    let mut config = Config::default();
    let mut scheduler = Scheduler::new(true, 2500);
    let mut flags = RuntimeFlags::from_display(&config.display);
    let mut waveform = Waveform::Quality;
    let mut next = Config::default();
    next.display.auto_refresh = false;
    next.display.refresh_interval_ms = 700;
    next.display.waveform = "fast".to_string();
    next.display.wait_for_complete = true;
    let report = reload_config(&mut config, &mut scheduler, &mut flags, &mut waveform, Ok(next)).unwrap();
    assert!(report.applied);
    assert!(!scheduler.enabled());
    assert_eq!(scheduler.interval_ms(), 700);
    assert_eq!(waveform, Waveform::Fast);
    assert!(flags.wait_for_complete);
    match plan_reload_reply(Ok(report)) {
        CommandPlan::Reloaded { report } => assert!(report.applied),
        other => panic!("unexpected {:?}", other),
    }
}

#[test]
fn reload_errors_and_restarts() {
    let mut config = Config::default();
    let mut scheduler = Scheduler::new(true, 2500);
    let mut flags = RuntimeFlags::from_display(&config.display);
    let mut waveform = Waveform::Quality;
    let r = reload_config(&mut config, &mut scheduler, &mut flags, &mut waveform, Err("invalid TOML: x".to_string()));
    assert_eq!(r.as_ref().unwrap_err(), "invalid TOML: x");
    let (code, message) = fail_of(plan_reload_reply(r));
    assert_eq!((code, message.as_str()), ("reload_failed", "invalid TOML: x"));

    let mut next = Config::default();
    next.static_server.port = 9;
    let r = reload_config(&mut config, &mut scheduler, &mut flags, &mut waveform, Ok(next));
    assert!(r.as_ref().unwrap().restart_required);
    let (code, message) = fail_of(plan_reload_reply(r));
    assert_eq!(
        (code, message.as_str()),
        ("restart_required", "socket/static-server/page/lifecycle/queue changes require restart")
    );

    let mut next = Config::default();
    next.display.waveform = "slow".to_string();
    let r = reload_config(&mut config, &mut scheduler, &mut flags, &mut waveform, Ok(next));
    assert_eq!(r.unwrap_err(), "unsupported display waveform: slow");
    assert_eq!(config.display.waveform, "slow");
    assert_eq!(waveform, Waveform::Quality);

    let empty = ReloadReport { applied: false, restart_required: true, messages: vec![] };
    let (code, message) = fail_of(plan_reload_reply(Ok(empty)));
    assert_eq!((code, message.as_str()), ("restart_required", "restart required"));
}
