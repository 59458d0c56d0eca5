use yap::proxy::{
    bad_gateway_body, connect_established_response, echo_response_body, failed_read_body,
    is_connect, make_log_entry, parse_connect_target, BAD_GATEWAY_STATUS,
};

#[test]
fn connect_method_is_recognized() {
    assert!(is_connect("CONNECT"));
    assert!(!is_connect("GET"));
    assert!(!is_connect("connect"));
}

#[test]
fn connect_target_parses_host_and_port() {
    assert_eq!(
        parse_connect_target("host:443"),
        Some((String::from("host"), 443))
    );
    assert_eq!(
        parse_connect_target("example.com:8080"),
        Some((String::from("example.com"), 8080))
    );
}

#[test]
fn connect_target_takes_the_last_colon() {
    assert_eq!(
        parse_connect_target("[::1]:443"),
        Some((String::from("[::1]"), 443))
    );
}

#[test]
fn connect_target_rejects_malformed_uris() {
    assert_eq!(parse_connect_target("noport"), None);
    assert_eq!(parse_connect_target(":443"), None);
    assert_eq!(parse_connect_target("host:"), None);
    assert_eq!(parse_connect_target("host:abc"), None);
    assert_eq!(parse_connect_target("host:99999"), None);
    assert_eq!(parse_connect_target("host:65536"), None);
    assert_eq!(parse_connect_target("host:65535"), Some((String::from("host"), 65535)));
}

#[test]
fn tunnel_handshake_is_the_fixed_established_line() {
    assert_eq!(
        connect_established_response(),
        "HTTP/1.1 200 Connection Established\r\n\r\n"
    );
}

#[test]
fn echo_body_reports_method_and_uri() {
    assert_eq!(
        echo_response_body("GET", "http://example.com/"),
        "HTTP Proxy received:\nMethod: GET\nURI: http://example.com/\n"
    );
}

#[test]
fn synthesized_bad_gateway_texts() {
    assert_eq!(BAD_GATEWAY_STATUS, 502);
    assert_eq!(
        bad_gateway_body("connection refused"),
        "Failed to forward request: connection refused"
    );
    assert_eq!(failed_read_body(), "Failed to read response");
}

#[test]
fn log_entry_records_method_uri_and_timestamps() {
    let entry = make_log_entry("GET", "http://example.com/a.txt");
    assert_eq!(entry.method, "GET");
    assert_eq!(entry.uri, "http://example.com/a.txt");
    assert_eq!(entry.path, "http://example.com/a.txt");
    assert_eq!(entry.time_hms.chars().count(), 8);
    assert!(!entry.timestamp.is_empty());
}
