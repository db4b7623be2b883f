use mcproxy::debug_http::{
    bad_request_reply, blank_line, content_length_of, error_reply, fixed_reply, http_response,
    ok_reply, request_target, route_debug_request, split_whitespace, DebugRoute,
};

#[test]
fn request_line_gives_method_and_path() {
    let (m, p) = request_target("POST /debug/connect HTTP/1.1\r\n");
    assert_eq!((m.as_str(), p.as_str()), ("POST", "/debug/connect"));
    let (m, p) = request_target("  GET\t /debug/ping  \r\n");
    assert_eq!((m.as_str(), p.as_str()), ("GET", "/debug/ping"));
    let (m, p) = request_target("BROKEN\r\n");
    assert_eq!((m.as_str(), p.as_str()), ("GET", "/"));
    let words = split_whitespace(" a  bc\td ");
    assert_eq!(words, vec!["a".to_string(), "bc".to_string(), "d".to_string()]);
}

#[test]
fn content_length_headers() {
    assert_eq!(content_length_of("Content-Length: 42\r\n", 0), 42);
    assert_eq!(content_length_of("content-length:7\r\n", 3), 7);
    assert_eq!(content_length_of("Content-Length: nope\r\n", 9), 0);
    assert_eq!(content_length_of("Host: localhost\r\n", 9), 9);
    assert!(blank_line("\r\n"));
    assert!(!blank_line("Host: x\r\n"));
}

#[test]
fn routes() {
    assert_eq!(route_debug_request("OPTIONS", "/debug/status"), DebugRoute::Preflight);
    assert_eq!(route_debug_request("GET", "/debug/ping"), DebugRoute::Ping);
    assert_eq!(route_debug_request("POST", "/debug/join_room"), DebugRoute::JoinRoom);
    assert_eq!(route_debug_request("GET", "/debug/clear_events"), DebugRoute::ClearEvents);
    assert_eq!(route_debug_request("GET", "/nowhere"), DebugRoute::NotFound);
}

#[test]
fn replies() {
    assert_eq!(fixed_reply(DebugRoute::Preflight).unwrap(), "{}");
    assert_eq!(fixed_reply(DebugRoute::Ping).unwrap(), r#"{"ok":true,"service":"mcproxy"}"#);
    assert!(fixed_reply(DebugRoute::NotFound).unwrap().starts_with(r#"{"error":"not found""#));
    assert!(fixed_reply(DebugRoute::Status).is_none());
    assert_eq!(ok_reply(), r#"{"ok":true}"#);
    assert_eq!(error_reply(r#"say "hi""#), r#"{"error":"say 'hi'"}"#);
    assert_eq!(bad_request_reply("eof"), r#"{"error":"bad request: eof"}"#);
}

#[test]
fn response_counts_body_bytes() {
    let r = http_response("{\"m\":\"é\"}");
    assert!(r.starts_with("HTTP/1.1 200 OK\r\n"));
    assert!(r.contains("Content-Length: 10\r\n\r\n{\"m\":\"é\"}"));
}
