use yap::artifact::{build_artifact, parse_artifact, BodyContent};
use yap::log_store::LogStore;
use yap::persist::uri_to_file_path;
use yap::proxy::{connect_established_response, is_connect, make_log_entry, parse_connect_target};

#[test]
fn proxied_get_is_logged_and_its_artifact_records_status_and_body() {
    let mut store = LogStore::with_default_capacity();
    let entry = make_log_entry("GET", "http://example.com/a.txt");
    let path = uri_to_file_path(&entry.uri);
    store.append(entry);

    let snap = store.snapshot();
    assert_eq!(snap.len(), 1);
    assert_eq!(snap[0].method, "GET");
    assert_eq!(snap[0].uri, "http://example.com/a.txt");

    assert!(path.starts_with(".yap/example.com/"));
    let headers = vec![(String::from("content-type"), String::from("text/plain"))];
    let artifact = build_artifact(
        &snap[0].timestamp,
        "GET",
        "http://example.com/a.txt",
        200,
        &headers,
        &BodyContent::Text(String::from("file body")),
    );
    assert!(artifact.contains("Status: 200"));
    assert!(artifact.contains("file body"));
    let (status, body) = parse_artifact(&artifact);
    assert_eq!(status, "200");
    assert_eq!(body, "file body");
}

#[test]
fn eviction_does_not_move_the_artifact() {
    let mut store = LogStore::with_default_capacity();
    let first_uri = "http://example.com/page0";
    let path_at_write = uri_to_file_path(first_uri);
    for i in 0..101 {
        store.append(make_log_entry("GET", &format!("http://example.com/page{}", i)));
    }
    let snap = store.snapshot();
    assert_eq!(snap.len(), 100);
    assert!(snap.iter().all(|l| l.uri != first_uri));
    assert_eq!(uri_to_file_path(first_uri), path_at_write);
}

#[test]
fn connect_handshake_and_single_tunnel_entry() {
    let method = "CONNECT";
    let uri = "host:443";
    assert!(is_connect(method));
    let target = parse_connect_target(uri);
    assert_eq!(target, Some((String::from("host"), 443)));
    assert_eq!(
        connect_established_response(),
        "HTTP/1.1 200 Connection Established\r\n\r\n"
    );
    let mut store = LogStore::with_default_capacity();
    store.append(make_log_entry(method, uri));
    let snap = store.snapshot();
    assert_eq!(snap.len(), 1);
    assert_eq!(snap[0].method, "CONNECT");
    assert_eq!(snap[0].uri, "host:443");
}
