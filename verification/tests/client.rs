use srvcs_xnor::client::{
    format_request, parse_response, prepare_call, prepare_request, read_call_reply, read_reply,
    split_url,
};
use srvcs_xnor::json::JsonValue;
use srvcs_xnor::text::{chars_of, parse_u16_range};

#[test]
fn splits_url_with_scheme_and_path() {
    let (authority, path) = split_url("http://127.0.0.1:9000/eval");
    assert_eq!(authority, "127.0.0.1:9000");
    assert_eq!(path, "/eval");
}

#[test]
fn splits_url_without_path() {
    let (authority, path) = split_url("http://127.0.0.1:8080");
    assert_eq!(authority, "127.0.0.1:8080");
    assert_eq!(path, "/");
}

#[test]
fn splits_url_without_scheme() {
    let (authority, path) = split_url("localhost:1/a/b");
    assert_eq!(authority, "localhost:1");
    assert_eq!(path, "/a/b");
}

#[test]
fn splits_url_with_other_scheme() {
    let (authority, path) = split_url("https://h/x");
    assert_eq!(authority, "https:");
    assert_eq!(path, "//h/x");
}

#[test]
fn formats_request() {
    let req = format_request("POST", "/", "127.0.0.1:8080", "{\"a\":true}");
    assert_eq!(
        req,
        "POST / HTTP/1.1\r\nHost: 127.0.0.1:8080\r\nContent-Type: application/json\r\nContent-Length: 10\r\nConnection: close\r\n\r\n{\"a\":true}"
    );
}

#[test]
fn request_length_counts_bytes() {
    let req = format_request("POST", "/", "h", "\u{e9}");
    assert!(req.contains("Content-Length: 2\r\n"));
    let empty = format_request("POST", "/", "h", "");
    assert!(empty.ends_with("Content-Length: 0\r\nConnection: close\r\n\r\n"));
}

#[test]
fn reads_status_and_body() {
    let raw = b"HTTP/1.1 200 OK\r\ncontent-type: application/json\r\n\r\n{\"result\":true}";
    let (status, body) = parse_response(raw);
    assert_eq!(status, 200);
    assert_eq!(body, "{\"result\":true}");
}

#[test]
fn reads_422() {
    let (status, body) = read_reply("HTTP/1.1 422 Unprocessable Entity\r\n\r\n{}");
    assert_eq!(status, 422);
    assert_eq!(body, "{}");
}

#[test]
fn reply_without_blank_line_has_empty_body() {
    let (status, body) = read_reply("HTTP/1.1 503 Service Unavailable\r\nx: y\r\n");
    assert_eq!(status, 503);
    assert_eq!(body, "");
}

#[test]
fn unreadable_status_is_zero() {
    assert_eq!(read_reply("").0, 0);
    assert_eq!(read_reply("\r\n\r\nbody").0, 0);
    assert_eq!(read_reply("HTTP/1.1\r\n\r\n").0, 0);
    assert_eq!(read_reply("HTTP/1.1 abc\r\n\r\n").0, 0);
    assert_eq!(read_reply("HTTP/1.1 70000\r\n\r\n").0, 0);
    assert_eq!(read_reply("HTTP/1.1 -1\r\n\r\n").0, 0);
    assert_eq!(read_reply("HTTP/1.1 +\r\n\r\n").0, 0);
}

#[test]
fn status_parse_follows_u16_parsing() {
    assert_eq!(read_reply("HTTP/1.1 +200 OK\r\n\r\n").0, 200);
    assert_eq!(read_reply("HTTP/1.1 00404\r\n\r\n").0, 404);
    assert_eq!(read_reply("HTTP/1.1 65535\r\n\r\n").0, 65535);
    assert_eq!(read_reply("  HTTP/1.1 \t 201\u{a0}Created\r\n\r\n").0, 201);
}

#[test]
fn status_from_first_line_only() {
    assert_eq!(read_reply("HTTP/1.1\n200 OK\r\n\r\n").0, 0);
    assert_eq!(read_reply("HTTP/1.1 204\r\nx\r\n\r\n").0, 204);
}

#[test]
fn body_after_first_blank_line() {
    let (_, body) = read_reply("HTTP/1.1 200 OK\r\n\r\na\r\n\r\nb");
    assert_eq!(body, "a\r\n\r\nb");
}

#[test]
fn invalid_utf8_is_replaced() {
    let mut raw = b"HTTP/1.1 200 OK\r\n\r\n".to_vec();
    raw.extend_from_slice(&[b'x', 0xff, b'y']);
    let (status, body) = parse_response(&raw);
    assert_eq!(status, 200);
    assert_eq!(body, "x\u{fffd}y");
}

#[test]
fn parses_u16_text() {
    let chars = chars_of("7+12x65536");
    assert_eq!(parse_u16_range(&chars, 0, 1), Some(7));
    assert_eq!(parse_u16_range(&chars, 1, 4), Some(12));
    assert_eq!(parse_u16_range(&chars, 1, 5), None);
    assert_eq!(parse_u16_range(&chars, 5, 10), None);
    assert_eq!(parse_u16_range(&chars, 0, 0), None);
}

#[test]
fn url_parts_make_up_the_url() {
    for url in ["http://a:1/b/c", "a:1/", "http://x", "plain", "http:///p"] {
        let (authority, path) = split_url(url);
        assert!(!authority.contains('/'));
        assert!(path.starts_with('/'));
        let rest = url.strip_prefix("http://").unwrap_or(url);
        if rest.contains('/') {
            assert_eq!(format!("{authority}{path}"), rest);
        } else {
            assert_eq!(authority, rest);
            assert_eq!(path, "/");
        }
    }
}

#[test]
fn status_line_reads_back() {
    for code in [100u16, 200, 422, 503, 999] {
        let text = format!("HTTP/1.1 {code} Reason\r\nx: y\r\n\r\nbody");
        assert_eq!(read_reply(&text), (code, "body".to_string()));
    }
}

#[test]
fn prepares_request_for_url() {
    let (authority, text) = prepare_request("POST", "http://127.0.0.1:1", Some("{}"));
    assert_eq!(authority, "127.0.0.1:1");
    assert_eq!(
        text,
        "POST / HTTP/1.1\r\nHost: 127.0.0.1:1\r\nContent-Type: application/json\r\nContent-Length: 2\r\nConnection: close\r\n\r\n{}"
    );
    let (_, empty) = prepare_request("GET", "h/p", None);
    assert!(empty.starts_with("GET /p HTTP/1.1\r\nHost: h\r\n"));
    assert!(empty.ends_with("Content-Length: 0\r\nConnection: close\r\n\r\n"));
}

#[test]
fn prepares_call_with_compact_json() {
    let payload = JsonValue::Object(vec![
        ("a".to_string(), JsonValue::Bool(true)),
        ("b".to_string(), JsonValue::Array(vec![JsonValue::Number("1.5".to_string()), JsonValue::Null])),
    ]);
    let (authority, text) = prepare_call("http://127.0.0.1:7/", &payload);
    assert_eq!(authority, "127.0.0.1:7");
    assert_eq!(
        text,
        "POST / HTTP/1.1\r\nHost: 127.0.0.1:7\r\nContent-Type: application/json\r\nContent-Length: 25\r\nConnection: close\r\n\r\n{\"a\":true,\"b\":[1.5,null]}"
    );
}

#[test]
fn call_payload_keys_are_written_sorted() {
    let payload = JsonValue::Object(vec![
        ("value".to_string(), JsonValue::Bool(false)),
        ("error".to_string(), JsonValue::Str("x\"y".to_string())),
    ]);
    let (_, text) = prepare_call("h", &payload);
    assert!(text.ends_with("\r\n\r\n{\"error\":\"x\\\"y\",\"value\":false}"));
}

#[test]
fn reads_call_reply_document() {
    let (status, body) = read_call_reply(b"HTTP/1.1 200 OK\r\n\r\n{\"result\": true, \"n\": -2}");
    assert_eq!(status, 200);
    assert_eq!(
        body,
        JsonValue::Object(vec![
            ("n".to_string(), JsonValue::Number("-2".to_string())),
            ("result".to_string(), JsonValue::Bool(true)),
        ])
    );
}

#[test]
fn unparsable_reply_body_is_null() {
    assert_eq!(read_call_reply(b"HTTP/1.1 200 OK\r\n\r\nnot json"), (200, JsonValue::Null));
    assert_eq!(read_call_reply(b"HTTP/1.1 503 x\r\n"), (503, JsonValue::Null));
    assert_eq!(read_call_reply(b""), (0, JsonValue::Null));
}
