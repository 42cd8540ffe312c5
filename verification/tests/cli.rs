use ped::cli::{parse_cli, CliError};

fn args(list: &[&str]) -> Vec<String> {
    list.iter().map(|s| s.to_string()).collect()
}

#[test]
fn simple_methods() {
    let r = parse_cli(&args(&["status"])).unwrap();
    assert_eq!(r.socket, "/tmp/ped.sock");
    assert_eq!(r.method, "status");
    assert!(r.url.is_none() && r.script.is_none() && r.event_type.is_none() && r.detail.is_none());
    let r = parse_cli(&args(&["reload-config", "--socket", "/s"])).unwrap();
    assert_eq!((r.socket.as_str(), r.method.as_str()), ("/s", "reload-config"));
}

#[test]
fn methods_with_arguments() {
    let r = parse_cli(&args(&["open", "http://x/"])).unwrap();
    assert_eq!(r.url.as_deref(), Some("http://x/"));
    let r = parse_cli(&args(&["eval", "1+1"])).unwrap();
    assert_eq!(r.script.as_deref(), Some("1+1"));
    let r = parse_cli(&args(&["emit", "update", "{\"a\":1}"])).unwrap();
    assert_eq!(r.event_type.as_deref(), Some("update"));
    assert_eq!(r.detail.as_deref(), Some("{\"a\":1}"));
    let r = parse_cli(&args(&["--socket", "/a", "--socket", "/b", "emit", "tick"])).unwrap();
    assert_eq!(r.socket, "/b");
    assert!(r.detail.is_none());
}

#[test]
fn client_errors() {
    assert!(matches!(parse_cli(&args(&[])), Err(CliError::Usage)));
    assert!(matches!(parse_cli(&args(&["dance"])), Err(CliError::Usage)));
    let message = |a: &[&str]| match parse_cli(&args(a)) {
        Err(CliError::Message(m)) => m,
        other => panic!("unexpected {:?}", other),
    };
    assert_eq!(message(&["open"]), "ped: open requires a URL");
    assert_eq!(message(&["eval"]), "ped: eval requires JavaScript");
    assert_eq!(message(&["emit"]), "ped: emit requires an event type");
    assert_eq!(message(&["status", "--socket"]), "ped: --socket requires a path");
}
