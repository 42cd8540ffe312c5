use ped::kindle_lifecycle::{
    command_name, drive_service, environment_error, framework_started, framework_wait_ms,
    heartbeat_interval_s, marker_is_stale, new_marker, service_command_outcome, stale_marker_plan,
    status_says_running, LifecycleConfig, ServiceAction, ServiceEvent, ServiceGoal, SessionMarker,
    KINDLE_GUI_SERVICE, KINDLE_X_SERVICE,
};

fn marker(heartbeat_at: u64, timeout: u64) -> SessionMarker {
    new_marker(42, "x", None, heartbeat_at, timeout)
}

#[test]
fn disabled_lifecycle_settings() {
    let mut config = ped::config::LifecycleConfig::default();
    config.watchdog_timeout_s = 0;
    let lifecycle = LifecycleConfig::from_config(&config);
    assert!(!lifecycle.enabled);
    assert_eq!(lifecycle.marker, "/var/run/ped/session.json");
    assert_eq!(lifecycle.service, KINDLE_GUI_SERVICE);
    assert_eq!(lifecycle.watchdog_timeout_s, 1);
    assert_eq!(KINDLE_X_SERVICE, "x");
}

#[test]
fn markers_keep_their_start_time() {
    let m = new_marker(7, "x", Some(100), 200, 0);
    assert_eq!((m.pid, m.started_at, m.heartbeat_at, m.watchdog_timeout_s), (7, 100, 200, 1));
    assert_eq!(m.service, "x");
    let m = new_marker(7, "x", None, 200, 30);
    assert_eq!(m.started_at, 200);
}

#[test]
fn staleness() {
    assert!(marker_is_stale(&None, 100, true));
    assert!(!marker_is_stale(&Some(marker(100, 30)), 130, true));
    assert!(marker_is_stale(&Some(marker(100, 30)), 131, true));
    assert!(marker_is_stale(&Some(marker(100, 30)), 100, false));
    assert!(!marker_is_stale(&Some(marker(200, 30)), 100, true));
}

#[test]
fn live_markers_are_not_clobbered() {
    let live = Some(marker(100, 30));
    assert_eq!(stale_marker_plan("/m", false, &live, 100, true, true).unwrap(), false);
    assert_eq!(
        stale_marker_plan("/m", true, &live, 100, true, true).unwrap_err(),
        "active PED lifecycle marker already present at /m"
    );
    assert_eq!(stale_marker_plan("/m", true, &live, 100, true, false).unwrap(), true);
    assert_eq!(stale_marker_plan("/m", true, &None, 100, true, true).unwrap(), true);
}

#[test]
fn heartbeats() {
    assert_eq!(heartbeat_interval_s(30), 10);
    assert_eq!(heartbeat_interval_s(2), 1);
    assert_eq!(heartbeat_interval_s(0), 1);
}

#[test]
fn environment_checks() {
    assert_eq!(environment_error(false, "x").unwrap(), "Kindle framebuffer /dev/fb0 is unavailable");
    assert_eq!(environment_error(true, "  ").unwrap(), "Kindle UI service name is empty");
    assert!(environment_error(true, "x").is_none());
}

#[test]
fn service_command_outcomes() {
    assert!(service_command_outcome("stop", "x", true, "", "", "exit status: 0").is_ok());
    assert!(service_command_outcome("start", "x", false, "start: Job is already running: x\n", "", "exit status: 1").is_ok());
    assert!(service_command_outcome("stop", "x", false, "", "stop: Unknown instance: \n", "exit status: 1").is_ok());
    assert_eq!(
        service_command_outcome("stop", "x", false, "", "  ", "exit status: 1").unwrap_err(),
        "/sbin/stop x failed with exit status: 1"
    );
    assert_eq!(
        service_command_outcome("start", "x", false, "oops\n", "bad\n", "exit status: 2").unwrap_err(),
        "/sbin/start x failed with exit status: 2: oops\nbad"
    );
}

#[test]
fn status_and_framework_probes() {
    assert!(status_says_running("x start/running, process 123\n"));
    assert!(!status_says_running("x stop/waiting\n"));
    assert!(framework_started(true, " 1\n"));
    assert!(!framework_started(true, "0"));
    assert!(!framework_started(false, "1"));
}

#[test]
fn driving_services() {
    assert_eq!(command_name(ServiceGoal::Stopped), "stop");
    assert_eq!(command_name(ServiceGoal::Started), "start");
    assert!(matches!(
        drive_service(ServiceGoal::Stopped, "x", ServiceEvent::Initial { running: false }),
        ServiceAction::Finish(Ok(()))
    ));
    assert!(matches!(
        drive_service(ServiceGoal::Stopped, "x", ServiceEvent::Initial { running: true }),
        ServiceAction::RunCommand
    ));
    assert!(matches!(
        drive_service(ServiceGoal::Started, "x", ServiceEvent::Commanded { result: Err(("e".to_string(), true)) }),
        ServiceAction::WaitForGoal
    ));
    match drive_service(ServiceGoal::Started, "x", ServiceEvent::Commanded { result: Err(("e".to_string(), false)) }) {
        ServiceAction::Finish(Err(e)) => assert_eq!(e, "e"),
        _ => panic!("expected failure"),
    }
    match drive_service(ServiceGoal::Stopped, "x", ServiceEvent::Waited { reached: false }) {
        ServiceAction::Finish(Err(e)) => assert_eq!(e, "Kindle UI service x did not stop before timeout"),
        _ => panic!("expected failure"),
    }
    match drive_service(ServiceGoal::Started, "lab126_gui", ServiceEvent::Waited { reached: false }) {
        ServiceAction::Finish(Err(e)) => {
            assert_eq!(e, "Kindle UI service lab126_gui did not restart before timeout")
        }
        _ => panic!("expected failure"),
    }
    assert_eq!(framework_wait_ms(3000), 90_000);
    assert_eq!(framework_wait_ms(30_000), 120_000);
    assert_eq!(framework_wait_ms(u64::MAX), u64::MAX);
}

#[test]
fn clock_readings_before_the_epoch_read_as_zero() {
    assert_eq!(ped::kindle_lifecycle::seconds_or_zero(Some(1_788_992_400)), 1_788_992_400);
    assert_eq!(ped::kindle_lifecycle::seconds_or_zero(None), 0);
    assert!(ped::kindle_lifecycle::unix_now() > 1_600_000_000);
}
