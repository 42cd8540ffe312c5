use ped::device::{lipc_charging, read_network, sysfs_charging, InterfaceReading};

fn s(v: &str) -> Option<String> {
    Some(v.to_string())
}

#[test]
fn missing_sources_are_errors() {
    assert_eq!(read_network(None, None, &vec![]).unwrap_err(), "network telemetry unavailable");
    let blank = vec![InterfaceReading { operstate: s("down\n"), ip_output: None }];
    assert!(read_network(s("  \n"), s("0\n"), &blank).is_err());
}

#[test]
fn network_report_from_readings() {
    let ifaces = vec![
        InterfaceReading {
            operstate: s("up\n"),
            ip_output: s("3: wlan0    inet 127.0.0.1/8 scope host\n"),
        },
        InterfaceReading {
            operstate: s("up\n"),
            ip_output: s("2: eth0    inet 192.168.1.20/24 brd 192.168.1.255 scope global eth0\n"),
        },
    ];
    let info = read_network(s("1\n"), s(" HomeNet \n"), &ifaces).unwrap();
    assert!(info.connected);
    assert!(!info.airplane_mode);
    assert_eq!(info.ssid.as_deref(), Some("HomeNet"));
    assert_eq!(info.ip_address.as_deref(), Some("192.168.1.20"));
}

#[test]
fn airplane_mode_disconnects() {
    let info = read_network(s("FALSE"), s("Cafe"), &vec![]).unwrap();
    assert!(info.airplane_mode);
    assert!(!info.connected);
    assert_eq!(info.ssid.as_deref(), Some("Cafe"));
    let info = read_network(s("True"), None, &vec![]).unwrap();
    assert!(!info.airplane_mode);
    assert!(!info.connected);
}

#[test]
fn interfaces_that_are_down_are_skipped() {
    let ifaces = vec![
        InterfaceReading { operstate: s("down"), ip_output: s("inet 10.0.0.2/8") },
        InterfaceReading { operstate: None, ip_output: s("inet 10.0.0.3/8") },
    ];
    assert_eq!(read_network(None, None, &ifaces).unwrap_err(), "network telemetry unavailable");
    let ifaces = vec![InterfaceReading { operstate: s(" up "), ip_output: s("x/y 10.0.0.3/8") }];
    assert_eq!(read_network(None, None, &ifaces).unwrap().ip_address.as_deref(), Some("10.0.0.3"));
}

#[test]
fn charging_readings() {
    assert!(sysfs_charging(&vec![None, s("Charging\n")]));
    assert!(sysfs_charging(&vec![s("  "), s("FULL")]));
    assert!(!sysfs_charging(&vec![s("Discharging"), s("Charging")]));
    assert!(!sysfs_charging(&vec![]));
    assert!(lipc_charging(s("1\n")));
    assert!(lipc_charging(s("tRuE")));
    assert!(!lipc_charging(s("0")));
    assert!(!lipc_charging(None));
}
