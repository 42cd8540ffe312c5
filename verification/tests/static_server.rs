use ped::static_server::{
    content_type, decode_path, hex, normalize_prefix, response_head, route_request,
    served_page_path, serves_page, static_base_url, RequestRoute,
};

#[test]
fn prefixes_are_normalized() {
    assert_eq!(normalize_prefix(""), "/");
    assert_eq!(normalize_prefix("/assets"), "/assets/");
    assert_eq!(normalize_prefix("assets/"), "/assets/");
}

#[test]
fn traversal_is_rejected_after_decoding() {
    assert!(decode_path("/%2e%2e/secret").is_none());
    assert!(decode_path("/safe/file.js").is_some());
}

#[test]
fn common_mime_types_are_available() {
    assert_eq!(content_type("index.html"), "text/html; charset=utf-8");
    assert_eq!(content_type("app.js"), "text/javascript; charset=utf-8");
    assert_eq!(content_type("font.woff2"), "font/woff2");
}

#[test]
fn prefix_normalization_trims_space_and_slashes() {
    assert_eq!(normalize_prefix("  /"), "/");
    assert_eq!(normalize_prefix(" //a/b// "), "/a/b/");
}

#[test]
fn percent_decoding() {
    assert_eq!(decode_path("/a%20b").unwrap(), "/a b");
    assert_eq!(decode_path("/%41%7a").unwrap(), "/Az");
    assert!(decode_path("/bad%2").is_none());
    assert!(decode_path("/bad%zz").is_none());
    assert!(decode_path("/..").is_none());
    assert_eq!(decode_path("/a..b/..c").unwrap(), "/a..b/..c");
}

#[test]
fn hex_digits() {
    assert_eq!(hex(b'0'), Some(0));
    assert_eq!(hex(b'f'), Some(15));
    assert_eq!(hex(b'B'), Some(11));
    assert_eq!(hex(b'g'), None);
}

#[test]
fn unknown_and_missing_extensions_are_binary() {
    assert_eq!(content_type("archive.tar"), "application/octet-stream");
    assert_eq!(content_type("README"), "application/octet-stream");
    assert_eq!(content_type("dir.d/style.css"), "text/css; charset=utf-8");
    assert_eq!(content_type("photo.jpeg"), "image/jpeg");
}

#[test]
fn requests_are_routed() {
    let r = route_request(b"GET /assets/app.js?v=1 HTTP/1.1\r\nHost: x\r\n\r\n", "/assets/");
    assert_eq!(r.route, RequestRoute::Serve { relative: "app.js".to_string() });
    assert!(!r.head_only);
    let r = route_request(b"HEAD /assets/ HTTP/1.1\r\n\r\n", "/assets/");
    assert_eq!(r.route, RequestRoute::Serve { relative: "".to_string() });
    assert!(r.head_only);
    let r = route_request(b"POST /assets/a HTTP/1.1\r\n\r\n", "/assets/");
    assert_eq!(r.route, RequestRoute::Respond { status: 405, body: "method not allowed" });
    let r = route_request(b"GET /other/a HTTP/1.1\r\n\r\n", "/assets/");
    assert_eq!(r.route, RequestRoute::Respond { status: 404, body: "not found" });
    let r = route_request(b"GET /assets/%2e%2e/x HTTP/1.1\r\n\r\n", "/assets/");
    assert_eq!(r.route, RequestRoute::Respond { status: 400, body: "bad path" });
    let r = route_request(b"", "/");
    assert_eq!(r.route, RequestRoute::Respond { status: 405, body: "method not allowed" });
    let r = route_request(&[0xff, 0xfe], "/");
    assert_eq!(r.route, RequestRoute::Respond { status: 405, body: "method not allowed" });
}

#[test]
fn response_heads() {
    assert_eq!(
        response_head(404, "text/plain", 9),
        "HTTP/1.1 404 Not Found\r\nContent-Length: 9\r\nContent-Type: text/plain\r\nConnection: close\r\n\r\n"
    );
    assert_eq!(
        response_head(500, "text/plain", 0),
        "HTTP/1.1 500 Error\r\nContent-Length: 0\r\nContent-Type: text/plain\r\nConnection: close\r\n\r\n"
    );
}

#[test]
fn served_page_urls() {
    assert_eq!(served_page_path("/assets/", "index.html"), "/assets/index.html");
    assert_eq!(served_page_path("/", "dir\\page.html"), "/dir/page.html");
    assert_eq!(static_base_url("127.0.0.1:8080", "assets"), "http://127.0.0.1:8080/assets/");
    assert!(serves_page("file", true));
    assert!(!serves_page("file", false));
    assert!(!serves_page("http", true));
}
