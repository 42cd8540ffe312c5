use vstd::prelude::*;
use crate::text::copy_str;

verus! {

/// The longest request line the control socket accepts, whatever the
/// configured limit.
pub const DEFAULT_MAX_LINE_BYTES: usize = 131072;

/// One request read from the control socket. `detail` holds the event
/// detail as JSON text.
#[derive(Debug)]
pub struct Request {
    pub id: u64,
    pub method: String,
    pub url: Option<String>,
    pub script: Option<String>,
    pub event_type: Option<String>,
    pub detail: Option<String>,
    pub force: bool,
}

/// The error part of a response: a stable code and a message.
#[derive(Debug)]
pub struct ErrorResponse {
    pub code: &'static str,
    pub message: String,
}

/// The reply to one request.
#[derive(Debug)]
pub struct Response {
    pub id: u64,
    pub ok: bool,
    pub result: Option<serde_json::Value>,
    pub error: Option<ErrorResponse>,
}

/// Whether `r` is the error response `code`/`message` to request `id`.
pub open spec fn is_error_response(r: Response, id: u64, code: Seq<char>, message: Seq<char>) -> bool {
    &&& r.id == id
    &&& !r.ok
    &&& r.result is None
    &&& r.error matches Some(e) && e.code@ == code && e.message@ == message
}

/// A successful response to request `id`.
pub fn ok(id: u64, result: serde_json::Value) -> (r: Response)
    ensures
        r.id == id,
        r.ok,
        r.result == Some(result),
        r.error is None,
{
    Response { id, ok: true, result: Some(result), error: None }
}

/// An error response to request `id`.
pub fn error(id: u64, code: &'static str, message: String) -> (r: Response)
    ensures
        is_error_response(r, id, code@, message@),
{
    Response { id, ok: false, result: None, error: Some(ErrorResponse { code, message }) }
}

/// Whether a request line of `bytes` bytes is refused: it may not exceed
/// the configured limit, nor `DEFAULT_MAX_LINE_BYTES`.
pub fn line_too_large(bytes: usize, max_line_bytes: usize) -> (r: bool)
    ensures
        r == (bytes > max_line_bytes || bytes > DEFAULT_MAX_LINE_BYTES),
{
    let limit = if max_line_bytes < DEFAULT_MAX_LINE_BYTES {
        max_line_bytes
    } else {
        DEFAULT_MAX_LINE_BYTES
    };
    bytes > limit
}

/// What went wrong with a request before the runtime answered it.
pub enum ConnectionFault {
    /// The line was longer than the limit.
    Oversized,
    /// The line was not a valid request; the parser's message.
    Unparsable(String),
    /// The runtime's command queue was full.
    QueueFull(u64),
    /// The runtime stopped before it answered.
    RuntimeStopped(u64),
}

/// The error response the connection writes for a fault. A request that
/// could not be read is answered with id 0.
pub fn fault_response(fault: ConnectionFault) -> (r: Response)
    ensures
        match fault {
            ConnectionFault::Oversized => is_error_response(
                r,
                0,
                "request_too_large"@,
                "request exceeds the maximum size"@,
            ),
            ConnectionFault::Unparsable(m) => is_error_response(r, 0, "invalid_json"@, m@),
            ConnectionFault::QueueFull(id) => is_error_response(
                r,
                id,
                "queue_full"@,
                "PED command queue is full"@,
            ),
            ConnectionFault::RuntimeStopped(id) => is_error_response(
                r,
                id,
                "runtime_stopped"@,
                "PED stopped before handling the request"@,
            ),
        },
{
    match fault {
        ConnectionFault::Oversized => error(
            0,
            "request_too_large",
            copy_str("request exceeds the maximum size"),
        ),
        ConnectionFault::Unparsable(message) => error(0, "invalid_json", message),
        ConnectionFault::QueueFull(id) => error(id, "queue_full", copy_str("PED command queue is full")),
        ConnectionFault::RuntimeStopped(id) => error(
            id,
            "runtime_stopped",
            copy_str("PED stopped before handling the request"),
        ),
    }
}

} // verus!
