use ped::control::{error, fault_response, line_too_large, ok, ConnectionFault, DEFAULT_MAX_LINE_BYTES};

#[test]
fn response_helpers_encode_expected_shape() {
    let mut map = serde_json::Map::new();
    map.insert("ready".to_string(), serde_json::Value::Bool(true));
    let response = ok(7, serde_json::Value::Object(map));
    assert_eq!(response.id, 7);
    assert!(response.ok);
    assert_eq!(response.result.as_ref().unwrap()["ready"], true);
    assert!(response.error.is_none());
}

#[test]
fn error_responses() {
    let response = error(3, "unknown_method", "unknown control method".to_string());
    assert_eq!(response.id, 3);
    assert!(!response.ok);
    assert!(response.result.is_none());
    let e = response.error.unwrap();
    assert_eq!(e.code, "unknown_method");
    assert_eq!(e.message, "unknown control method");
}

#[test]
fn request_lines_are_limited() {
    assert_eq!(DEFAULT_MAX_LINE_BYTES, 128 * 1024);
    assert!(!line_too_large(100, 100));
    assert!(line_too_large(101, 100));
    assert!(line_too_large(DEFAULT_MAX_LINE_BYTES + 1, usize::MAX));
    assert!(!line_too_large(DEFAULT_MAX_LINE_BYTES, usize::MAX));
}

#[test]
fn connection_faults() {
    let r = fault_response(ConnectionFault::Oversized);
    assert_eq!(r.id, 0);
    assert_eq!(r.error.as_ref().unwrap().code, "request_too_large");
    assert_eq!(r.error.unwrap().message, "request exceeds the maximum size");
    let r = fault_response(ConnectionFault::Unparsable("expected value".to_string()));
    assert_eq!(r.error.as_ref().unwrap().code, "invalid_json");
    assert_eq!(r.error.unwrap().message, "expected value");
    let r = fault_response(ConnectionFault::QueueFull(4));
    assert_eq!(r.id, 4);
    assert_eq!(r.error.unwrap().message, "PED command queue is full");
    let r = fault_response(ConnectionFault::RuntimeStopped(5));
    assert_eq!(r.id, 5);
    assert_eq!(r.error.as_ref().unwrap().code, "runtime_stopped");
    assert_eq!(r.error.unwrap().message, "PED stopped before handling the request");
}
