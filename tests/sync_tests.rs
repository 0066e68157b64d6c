use vuru::store::{Cache, StoreError};
use vuru::sync::{begin_sync, finish_sync, FetchOutcome, SyncError, SyncStep};

const FOO: &str = r#"{"foo": {"category":"dev","version":"1.0","repo_url":"http://x"}}"#;
const FOO2: &str = r#"{"foo": {"category":"dev","version":"2.0","repo_url":"http://x"}}"#;

#[test]
fn cache_hit_needs_no_fetch() {
    match begin_sync(false, Some(FOO), Some("etag-1".to_string())) {
        SyncStep::Ready(index) => assert_eq!(index.get("foo").unwrap().version, "1.0"),
        SyncStep::Fetch(_) => panic!("a usable cache must be served"),
    }
}

#[test]
fn second_sync_is_cache_hit() {
    let first = match begin_sync(false, None, None) {
        SyncStep::Fetch(token) => {
            assert!(token.is_none());
            let body = FOO.to_string();
            finish_sync(None, FetchOutcome::Fetched { body, token: Some("etag-1".to_string()) }).unwrap()
        }
        SyncStep::Ready(_) => panic!("nothing is cached yet"),
    };
    let write = first.write.unwrap();
    assert_eq!(write.token.as_deref(), Some("etag-1"));
    match begin_sync(false, Some(write.text.as_str()), write.token) {
        SyncStep::Ready(index) => {
            assert_eq!(index.get("foo").unwrap().version, first.index.get("foo").unwrap().version);
        }
        SyncStep::Fetch(_) => panic!("the second sync must not fetch"),
    }
}

#[test]
fn written_index_reads_back() {
    let done = finish_sync(None, FetchOutcome::Fetched { body: FOO2.to_string(), token: None }).unwrap();
    assert!(!done.stale);
    let write = done.write.unwrap();
    assert!(write.token.is_none());
    let back = vuru::index::Index::decode(&write.text).unwrap();
    assert_eq!(back.get("foo").unwrap().version, "2.0");
}

#[test]
fn forced_refresh_sends_stored_token() {
    match begin_sync(true, Some(FOO), Some("etag-1".to_string())) {
        SyncStep::Fetch(token) => assert_eq!(token.as_deref(), Some("etag-1")),
        SyncStep::Ready(_) => panic!("a forced refresh must fetch"),
    }
}

#[test]
fn token_without_index_is_not_sent() {
    match begin_sync(false, None, Some("etag-1".to_string())) {
        SyncStep::Fetch(token) => assert!(token.is_none()),
        SyncStep::Ready(_) => panic!("nothing is cached"),
    }
}

#[test]
fn corrupt_cache_fetches() {
    match begin_sync(false, Some("not json"), Some("etag-1".to_string())) {
        SyncStep::Fetch(token) => assert_eq!(token.as_deref(), Some("etag-1")),
        SyncStep::Ready(_) => panic!("a corrupt cache is a miss"),
    }
}

#[test]
fn not_modified_serves_cache_without_write() {
    let token = match begin_sync(true, Some(FOO), Some("etag-1".to_string())) {
        SyncStep::Fetch(token) => token,
        SyncStep::Ready(_) => panic!("a forced refresh must fetch"),
    };
    assert_eq!(token.as_deref(), Some("etag-1"));
    let done = finish_sync(Some(FOO), FetchOutcome::NotModified).unwrap();
    assert!(done.write.is_none());
    assert!(!done.stale);
    let info = done.index.get("foo").unwrap();
    assert_eq!(info.category, "dev");
    assert_eq!(info.version, "1.0");
    assert_eq!(info.repo_url, "http://x");
}

#[test]
fn not_modified_without_cache_fails() {
    assert!(matches!(finish_sync(None, FetchOutcome::NotModified), Err(SyncError::SyncUnavailable)));
}

#[test]
fn failed_refresh_falls_back_to_cache() {
    let done = finish_sync(Some(FOO), FetchOutcome::Failed).unwrap();
    assert!(done.stale);
    assert!(done.write.is_none());
    assert_eq!(done.index.get("foo").unwrap().version, "1.0");
}

#[test]
fn undecodable_payload_falls_back_to_cache() {
    let done = finish_sync(
        Some(FOO),
        FetchOutcome::Fetched { body: "<html>".to_string(), token: Some("etag-2".to_string()) },
    )
    .unwrap();
    assert!(done.stale);
    assert!(done.write.is_none());
    assert_eq!(done.index.get("foo").unwrap().version, "1.0");
}

#[test]
fn new_payload_replaces_cache() {
    let done = finish_sync(
        Some(FOO),
        FetchOutcome::Fetched { body: FOO2.to_string(), token: Some("etag-2".to_string()) },
    )
    .unwrap();
    assert!(!done.stale);
    assert_eq!(done.index.get("foo").unwrap().version, "2.0");
    let write = done.write.unwrap();
    assert_eq!(write.text, FOO2);
    assert_eq!(write.token.as_deref(), Some("etag-2"));
}

#[test]
fn no_cache_and_failed_fetch_is_unavailable() {
    assert!(matches!(finish_sync(None, FetchOutcome::Failed), Err(SyncError::SyncUnavailable)));
    assert!(matches!(finish_sync(Some("garbage"), FetchOutcome::Failed), Err(SyncError::SyncUnavailable)));
    let bad = FetchOutcome::Fetched { body: "{".to_string(), token: None };
    assert!(matches!(finish_sync(None, bad), Err(SyncError::SyncUnavailable)));
}

#[test]
fn cache_paths() {
    let cache = Cache::new(Some("/home/u/.cache")).unwrap();
    assert_eq!(cache.template_path("foo"), "/home/u/.cache/vup/templates/foo");
    assert_eq!(cache.index_path(), "/home/u/.cache/vup/templates/index.json");
    assert_eq!(cache.token_path(), "/home/u/.cache/vup/templates/index.json.etag");
}

#[test]
fn cache_without_directory_is_unavailable() {
    assert!(matches!(Cache::new(None), Err(StoreError::StorageUnavailable)));
}
