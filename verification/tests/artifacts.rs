use yap::artifact::{build_artifact, is_binary_content, log_line, parse_artifact, BodyContent};

#[test]
fn textual_artifact_has_exact_layout() {
    let headers = vec![
        (String::from("content-type"), String::from("text/plain")),
        (String::from("server"), String::from("demo")),
    ];
    let text = build_artifact(
        "2024-01-01T00:00:00+00:00",
        "GET",
        "http://example.com/a.txt",
        200,
        &headers,
        &BodyContent::Text(String::from("hello")),
    );
    let expected = "=== HTTP Response ===\n\
                    Timestamp: 2024-01-01T00:00:00+00:00\n\
                    Method: GET\n\
                    URI: http://example.com/a.txt\n\
                    Status: 200\n\n\
                    Response Headers:\n\
                    \u{20} content-type: text/plain\n\
                    \u{20} server: demo\n\
                    \n\
                    Response Body:\nhello";
    assert_eq!(text, expected.replace("\u{20} ", "  "));
}

#[test]
fn empty_body_is_marked() {
    let text = build_artifact(
        "t",
        "GET",
        "u",
        204,
        &Vec::new(),
        &BodyContent::Text(String::new()),
    );
    assert!(text.ends_with("Response Body:\n[Empty]\n"));
}

#[test]
fn binary_body_records_reference_and_size() {
    let text = build_artifact(
        "t",
        "GET",
        "u",
        200,
        &Vec::new(),
        &BodyContent::Binary(String::from(".yap/h/x.bin"), 17),
    );
    assert!(text.ends_with(
        "Response Body:\n[Binary data stored in: .yap/h/x.bin]\nSize: 17 bytes\n"
    ));
}

#[test]
fn parse_recovers_status_and_body() {
    let headers = vec![(String::from("content-type"), String::from("text/plain"))];
    let text = build_artifact(
        "2024-01-01T00:00:00+00:00",
        "GET",
        "http://example.com/a.txt",
        200,
        &headers,
        &BodyContent::Text(String::from("hello world\nsecond line")),
    );
    let (status, body) = parse_artifact(&text);
    assert_eq!(status, "200");
    assert_eq!(body, "hello world\nsecond line");
}

#[test]
fn parse_without_status_reports_unknown() {
    let (status, body) = parse_artifact("no markers here\nat all\n");
    assert_eq!(status, "Unknown");
    assert_eq!(body, "");
}

#[test]
fn binary_detection_is_case_insensitive_on_fixed_prefixes() {
    assert!(is_binary_content(Some("image/png")));
    assert!(is_binary_content(Some("IMAGE/PNG")));
    assert!(is_binary_content(Some("Application/PDF")));
    assert!(is_binary_content(Some("font/woff2")));
    assert!(is_binary_content(Some("application/octet-stream")));
    assert!(is_binary_content(Some("application/zip")));
    assert!(is_binary_content(Some("video/mp4")));
    assert!(is_binary_content(Some("audio/ogg")));
    assert!(!is_binary_content(Some("text/html")));
    assert!(!is_binary_content(Some("application/json")));
    assert!(!is_binary_content(None));
}

#[test]
fn log_line_is_exact() {
    let line = log_line("2024-01-01T00:00:00+00:00", "GET", "http://example.com/");
    assert_eq!(line, "2024-01-01T00:00:00+00:00 GET http://example.com/\n");
}
