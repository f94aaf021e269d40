use http::{HeaderMap, HeaderValue};

use imgdl::output::metadata::{describe_file, recorded_headers, sidecar_filename, FileMetadata};
use imgdl::time::Duration;

fn sample_metadata() -> FileMetadata {
    let mut headers = HeaderMap::new();
    headers.insert("content-type", HeaderValue::from_static("image/jpeg"));
    headers.insert("content-length", HeaderValue::from_static("1024"));
    describe_file(
        "https://example.com/photo.jpg".to_string(),
        "photo.jpg".to_string(),
        1024,
        Some("abcdef1234567890".to_string()),
        &headers,
        Duration::from_millis(150),
        "2025-01-15T10:30:00+00:00".to_string(),
    )
}

#[test]
fn metadata_filename_appends_json() {
    assert_eq!(sidecar_filename("photo.jpg"), "photo.jpg.json");
}

#[test]
fn metadata_content_hash_populated() {
    let meta = sample_metadata();
    assert_eq!(meta.content_hash, Some("abcdef1234567890".to_string()));
}

#[test]
fn metadata_contains_response_headers() {
    let meta = sample_metadata();
    let names: Vec<&str> = meta.headers.iter().map(|(name, _)| name.as_str()).collect();
    assert!(names.contains(&"content-type"));
    assert!(names.contains(&"content-length"));
    assert_eq!(meta.content_type.as_deref(), Some("image/jpeg"));
}

#[test]
fn the_last_value_of_a_header_is_recorded() {
    let mut headers = HeaderMap::new();
    headers.append("X-Tag", HeaderValue::from_static("one"));
    headers.append("x-other", HeaderValue::from_static("o"));
    headers.append("x-tag", HeaderValue::from_static("two"));
    headers.append("X-TAG", HeaderValue::from_static("three"));
    headers.insert("x-binary", HeaderValue::from_bytes(&[0xE9]).unwrap());
    let mut recorded = recorded_headers(&headers);
    recorded.sort();
    assert_eq!(
        recorded,
        vec![
            ("x-binary".to_string(), String::new()),
            ("x-other".to_string(), "o".to_string()),
            ("x-tag".to_string(), "three".to_string()),
        ]
    );
    assert!(recorded_headers(&HeaderMap::new()).is_empty());
}

#[test]
fn content_types_that_are_no_text_are_left_out() {
    let mut headers = HeaderMap::new();
    headers.insert("content-type", HeaderValue::from_bytes(&[0xE9]).unwrap());
    let meta = describe_file(
        String::new(),
        String::new(),
        0,
        None,
        &headers,
        Duration::zero(),
        String::new(),
    );
    assert_eq!(meta.content_type, None);
    assert_eq!(meta.headers, vec![("content-type".to_string(), String::new())]);
}
