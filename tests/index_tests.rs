use vuru::index::{DecodeError, Index};

const THREE: &str = r#"{
    "foo": {"category": "dev", "version": "1.0", "repo_url": "http://x"},
    "food": {"category": "misc", "version": "2.1", "repo_url": "http://y"},
    "bar": {"category": "dev", "version": "0.3", "repo_url": "http://z"}
}"#;

fn names(index: &Index, query: &str) -> Vec<String> {
    index.search(query).into_iter().map(|(n, _)| n.clone()).collect()
}

#[test]
fn search_substring_in_name_order() {
    let index = Index::decode(THREE).unwrap();
    assert_eq!(names(&index, "oo"), vec!["foo".to_string(), "food".to_string()]);
}

#[test]
fn search_empty_query_matches_all() {
    let index = Index::decode(THREE).unwrap();
    assert_eq!(
        names(&index, ""),
        vec!["bar".to_string(), "foo".to_string(), "food".to_string()]
    );
}

#[test]
fn search_no_match() {
    let index = Index::decode(THREE).unwrap();
    assert!(index.search("qux").is_empty());
    assert!(index.search("foods").is_empty());
}

#[test]
fn search_returns_metadata() {
    let index = Index::decode(THREE).unwrap();
    let found = index.search("ar");
    assert_eq!(found.len(), 1);
    assert_eq!(found[0].1.version, "0.3");
    assert_eq!(found[0].1.repo_url, "http://z");
}

#[test]
fn get_exact_name() {
    let index = Index::decode(THREE).unwrap();
    let info = index.get("food").unwrap();
    assert_eq!(info.category, "misc");
    assert_eq!(info.version, "2.1");
    assert_eq!(info.repo_url, "http://y");
    assert!(index.get("fo").is_none());
    assert!(index.get("").is_none());
}

#[test]
fn decode_ignores_unknown_fields() {
    let text = r#"{"a": {"category": "c", "version": "v", "repo_url": "u", "extra": 3}}"#;
    let index = Index::decode(text).unwrap();
    assert_eq!(index.get("a").unwrap().version, "v");
}

#[test]
fn decode_empty_object() {
    let index = Index::decode("{}").unwrap();
    assert!(index.search("").is_empty());
}

#[test]
fn decode_rejects_malformed_json() {
    assert!(matches!(Index::decode("{\"a\": "), Err(DecodeError::NotJson)));
    assert!(matches!(Index::decode("[1, 2]"), Err(DecodeError::NotJson)));
    assert!(matches!(Index::decode("{\"a\": 1}"), Err(DecodeError::NotJson)));
}

#[test]
fn decode_rejects_incomplete_record() {
    let missing = r#"{"a": {"category": "c", "version": "v"}}"#;
    assert!(matches!(Index::decode(missing), Err(DecodeError::BadRecord)));
    let wrong_type = r#"{"a": {"category": "c", "version": 1, "repo_url": "u"}}"#;
    assert!(matches!(Index::decode(wrong_type), Err(DecodeError::BadRecord)));
}

#[test]
fn empty_index_has_nothing() {
    let index = Index::empty();
    assert!(index.get("foo").is_none());
    assert!(index.search("").is_empty());
}
