use a2native::server::{
    bad_request_response, header_line, parse_request_line, result_event, route, ws_error_message,
    ws_result_message, HeaderLine, HttpRoute, EVENT_WAITING, MAX_BODY_BYTES, RESPONSE_HEALTH,
    RESPONSE_NOT_FOUND, RESPONSE_TOO_LARGE, WS_WAITING,
};

#[test]
fn request_lines() {
    assert_eq!(
        parse_request_line("post /form HTTP/1.1\r\n"),
        Some(("POST".to_string(), "/form".to_string()))
    );
    assert_eq!(parse_request_line("  GET   /health  "), Some(("GET".to_string(), "/health".to_string())));
    assert_eq!(parse_request_line("GET"), None);
    assert_eq!(parse_request_line(""), None);
    assert_eq!(parse_request_line(" \t "), None);
}

#[test]
fn header_lines() {
    assert_eq!(header_line("\r\n"), HeaderLine::End);
    assert_eq!(header_line("Content-Length: 42\r\n"), HeaderLine::ContentLength { length: 42 });
    assert_eq!(header_line("CONTENT-LENGTH:7"), HeaderLine::ContentLength { length: 7 });
    assert_eq!(header_line("content-length: x"), HeaderLine::ContentLength { length: 0 });
    assert_eq!(header_line("Host: localhost"), HeaderLine::Other);
}

#[test]
fn routes() {
    assert_eq!(route("POST", "/form", 10), HttpRoute::ReadForm { length: 10 });
    assert_eq!(route("POST", "/form", MAX_BODY_BYTES), HttpRoute::ReadForm { length: MAX_BODY_BYTES });
    assert_eq!(route("POST", "/form", MAX_BODY_BYTES + 1), HttpRoute::TooLarge);
    assert_eq!(route("GET", "/health", 0), HttpRoute::Health);
    assert_eq!(route("GET", "/form", 0), HttpRoute::NotFound);
    assert_eq!(route("POST", "/Form", 0), HttpRoute::NotFound);
}

#[test]
fn response_texts() {
    assert_eq!(MAX_BODY_BYTES, 1024 * 1024);
    assert!(RESPONSE_TOO_LARGE.starts_with("HTTP/1.1 413 Content Too Large\r\n"));
    assert!(RESPONSE_TOO_LARGE.ends_with("\r\n\r\nRequest body exceeds 1 MB limit"));
    assert_eq!(RESPONSE_NOT_FOUND, "HTTP/1.1 404 Not Found\r\n\r\n");
    assert!(RESPONSE_HEALTH.ends_with("{\"status\":\"ok\"}"));
    assert_eq!(EVENT_WAITING, "event: waiting\ndata: {\"status\":\"waiting\"}\n\n");
    assert_eq!(
        bad_request_response("oops"),
        "HTTP/1.1 400 Bad Request\r\nContent-Type: text/plain\r\n\r\noops"
    );
    assert_eq!(result_event("{}"), "event: result\ndata: {}\n\n");
    assert_eq!(ws_error_message("bad"), "{\"error\":\"bad\"}");
    assert_eq!(ws_result_message("{\"a\":1}"), "{\"type\":\"result\",\"data\":{\"a\":1}}");
    assert_eq!(WS_WAITING, "{\"type\":\"waiting\",\"status\":\"waiting\"}");
}
