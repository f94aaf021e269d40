use bytes::Bytes;
use http::{HeaderMap, HeaderValue};

use imgdl::headers::{header_text, lookup_text};
use imgdl::output::validation::{validate_body, validate_response};
use imgdl::types::DownloadError;

#[test]
fn passes_valid_response_with_matching_content_length() {
    let body = Bytes::from(vec![0u8; 100]);
    let mut headers = HeaderMap::new();
    headers.insert(http::header::CONTENT_LENGTH, "100".parse().unwrap());
    assert!(validate_response(&body, &headers).is_ok());
}

#[test]
fn passes_when_no_content_length_header() {
    let body = Bytes::from(vec![1u8; 50]);
    let headers = HeaderMap::new();
    assert!(validate_response(&body, &headers).is_ok());
}

#[test]
fn rejects_zero_byte_body() {
    let body = Bytes::new();
    let headers = HeaderMap::new();
    let err = validate_response(&body, &headers).unwrap_err();
    assert!(matches!(err, DownloadError::ValidationFailed(_)));
}

#[test]
fn rejects_content_length_mismatch() {
    let body = Bytes::from(vec![0u8; 500]);
    let mut headers = HeaderMap::new();
    headers.insert(http::header::CONTENT_LENGTH, "1000".parse().unwrap());
    let err = validate_response(&body, &headers).unwrap_err();
    match err {
        DownloadError::ValidationFailed(msg) => {
            assert!(msg.contains("content-length mismatch"));
            assert_eq!(msg, "content-length mismatch: expected 1000, got 500");
        }
        _ => panic!("expected ValidationFailed"),
    }
}

#[test]
fn passes_exact_content_length_match() {
    let body = Bytes::from(vec![0u8; 256]);
    let mut headers = HeaderMap::new();
    headers.insert(http::header::CONTENT_LENGTH, "256".parse().unwrap());
    assert!(validate_response(&body, &headers).is_ok());
}

#[test]
fn a_length_that_is_no_number_does_not_match() {
    for value in ["", "abc", "-1", "1.0", " 3", "99999999999999999999999", "+"] {
        match validate_body(3, Some(value.as_bytes())) {
            Err(DownloadError::ValidationFailed(msg)) => assert_eq!(
                msg,
                format!("content-length mismatch: expected {value}, got 3")
            ),
            other => panic!("expected ValidationFailed, got {other:?}"),
        }
    }
    match validate_body(3, Some(&[0xFF, 0x33])) {
        Err(DownloadError::ValidationFailed(msg)) => {
            assert_eq!(msg, "content-length mismatch: expected , got 3")
        }
        other => panic!("expected ValidationFailed, got {other:?}"),
    }
    assert!(validate_body(3, Some(b"+3")).is_ok());
    assert!(validate_body(3, Some(b"0003")).is_ok());
    assert!(validate_body(3, Some(b"4")).is_err());
    assert!(validate_body(3, None).is_ok());
    assert!(validate_body(0, Some(b"0")).is_err());
}

#[test]
fn empty_bodies_say_so() {
    match validate_body(0, None) {
        Err(e) => assert_eq!(e.to_string(), "validation failed: empty response body"),
        Ok(()) => panic!("expected an error"),
    }
}

#[test]
fn header_values_are_read_as_visible_ascii() {
    assert_eq!(header_text(b"image/png"), Some("image/png".to_string()));
    assert_eq!(header_text(b"a\tb"), Some("a\tb".to_string()));
    assert_eq!(header_text(b""), Some(String::new()));
    assert_eq!(header_text(&[31]), None);
    assert_eq!(header_text(&[127]), None);
    assert_eq!(header_text(&[0xC3, 0xA9]), None);
}

#[test]
fn headers_are_looked_up_without_regard_to_case() {
    let mut headers = HeaderMap::new();
    headers.append("X-One", HeaderValue::from_static("first"));
    headers.append("x-one", HeaderValue::from_static("second"));
    headers.insert("x-two", HeaderValue::from_bytes(&[0xE9]).unwrap());
    assert_eq!(lookup_text(&headers, "x-ONE"), Some("first".to_string()));
    assert_eq!(lookup_text(&headers, "x-two"), None);
    assert_eq!(lookup_text(&headers, "x-three"), None);
    assert_eq!(lookup_text(&headers, "not a name"), None);
}
