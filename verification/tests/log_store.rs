use yap::log_store::{HttpLog, LogStore};

fn entry(uri: &str) -> HttpLog {
    HttpLog {
        method: String::from("GET"),
        uri: String::from(uri),
        timestamp: String::from("2024-01-01T00:00:00+00:00"),
        time_hms: String::from("00:00:00"),
        path: String::from(uri),
    }
}

#[test]
fn appends_within_capacity_keep_order() {
    let mut store = LogStore::new(5);
    for i in 0..4 {
        store.append(entry(&format!("http://h/{}", i)));
    }
    let snap = store.snapshot();
    assert_eq!(snap.len(), 4);
    for i in 0..4 {
        assert_eq!(snap[i].uri, format!("http://h/{}", i));
    }
}

#[test]
fn append_beyond_capacity_evicts_oldest() {
    let mut store = LogStore::new(3);
    for i in 0..5 {
        store.append(entry(&format!("http://h/{}", i)));
    }
    let snap = store.snapshot();
    assert_eq!(snap.len(), 3);
    assert_eq!(snap[0].uri, "http://h/2");
    assert_eq!(snap[1].uri, "http://h/3");
    assert_eq!(snap[2].uri, "http://h/4");
}

#[test]
fn default_capacity_is_one_hundred() {
    let store = LogStore::with_default_capacity();
    assert_eq!(store.capacity(), 100);
    assert_eq!(store.len(), 0);
}

#[test]
fn hundred_and_one_appends_drop_the_first() {
    let mut store = LogStore::with_default_capacity();
    for i in 0..101 {
        store.append(entry(&format!("http://host/page{}", i)));
    }
    let snap = store.snapshot();
    assert_eq!(snap.len(), 100);
    assert!(snap.iter().all(|l| l.uri != "http://host/page0"));
    assert_eq!(snap[0].uri, "http://host/page1");
    assert_eq!(snap[99].uri, "http://host/page100");
}
