use bytes::Bytes;
use http::{HeaderMap, HeaderValue};

use imgdl::time::Duration;
use imgdl::transport::{
    finish_request, on_error_body, on_resource_body, parse_retry_after, retry_after_value,
    status_error, CrossHostRedirect, Exchange, HeadStep, RedirectStep, RequestConfig,
    RequestFault, ResponseData, TransportResult,
};
use imgdl::types::DownloadError;
use imgdl::uri::{resolve_parsed, resolve_redirect, Uri};

fn test_config() -> RequestConfig {
    RequestConfig {
        user_agent: "imgdl/0.1".to_string(),
        request_timeout: Duration::from_secs(5),
        max_redirects: 5,
    }
}

fn server_uri(path: &str) -> Uri {
    Uri {
        scheme: Some("http".to_string()),
        host: Some("127.0.0.1".to_string()),
        port: Some(8080),
        path_and_query: Some(path.to_string()),
    }
}

fn exchange(path: &str) -> Exchange {
    Exchange::new(&server_uri(path), "127.0.0.1", &test_config())
}

fn location(value: &'static str) -> HeaderMap {
    let mut headers = HeaderMap::new();
    headers.insert("Location", HeaderValue::from_static(value));
    headers
}

/// Follows one redirect and returns the path that is requested next.
fn follow(status: u16, from: &str, to: &'static str) -> String {
    let mut exchange = exchange(from);
    match exchange.on_head(status, &location(to)) {
        HeadStep::Drain(target) => match exchange.on_drained(&target) {
            RedirectStep::Again => exchange.request().path,
            other => panic!("expected the same host, got {other:?}"),
        },
        other => panic!("expected a redirect, got {other:?}"),
    }
}

#[test]
fn sends_correct_headers() {
    let head = exchange("/test.jpg").request();
    assert_eq!(head.path, "/test.jpg");
    assert_eq!(
        head.headers,
        vec![
            ("Host".to_string(), "127.0.0.1".to_string()),
            ("User-Agent".to_string(), "imgdl/0.1".to_string()),
            ("Accept".to_string(), "image/*".to_string()),
        ]
    );
}

#[test]
fn no_accept_encoding_header() {
    let head = exchange("/test.jpg").request();
    assert!(
        !head
            .headers
            .iter()
            .any(|(name, _)| name.eq_ignore_ascii_case("accept-encoding")),
        "should NOT send Accept-Encoding header"
    );
}

#[test]
fn requests_the_root_where_no_path_is_given() {
    let mut uri = server_uri("/");
    uri.path_and_query = None;
    let head = Exchange::new(&uri, "127.0.0.1", &test_config()).request();
    assert_eq!(head.path, "/");
}

#[test]
fn returns_response_data_correctly() {
    let mut exchange = exchange("/img.jpg");
    let mut headers = HeaderMap::new();
    headers.insert("Content-Type", HeaderValue::from_static("image/jpeg"));
    assert!(matches!(exchange.on_head(200, &headers), HeadStep::ReadResource));
    let result = on_resource_body(headers, Ok(Bytes::from_static(b"image-data-here")));
    match finish_request(Some(result), Duration::from_millis(3)).unwrap() {
        TransportResult::Response(data) => {
            assert_eq!(data.bytes.as_ref(), b"image-data-here");
            assert_eq!(data.headers.get("content-type").unwrap(), "image/jpeg");
            assert!(data.elapsed.as_nanos() > 0);
            assert_eq!(data.elapsed, Duration::from_millis(3));
        }
        TransportResult::Redirect(_) => panic!("expected response, got redirect"),
    }
}

#[test]
fn returns_timeout_on_slow_response() {
    let result = finish_request(None, Duration::from_millis(100));
    assert!(matches!(result, Err(DownloadError::Timeout)));
}

#[test]
fn finishing_leaves_redirects_and_errors_alone() {
    let redirect = TransportResult::Redirect(CrossHostRedirect {
        new_uri: server_uri("/x"),
        redirects_remaining: 2,
    });
    match finish_request(Some(Ok(redirect)), Duration::from_secs(1)) {
        Ok(TransportResult::Redirect(redirect)) => {
            assert_eq!(redirect.redirects_remaining, 2);
        }
        other => panic!("expected a redirect, got {other:?}"),
    }
    let failed = finish_request(
        Some(Err(DownloadError::TlsError("bad".to_string()))),
        Duration::from_secs(1),
    );
    assert!(matches!(failed, Err(DownloadError::TlsError(_))));
}

#[test]
fn returns_http_status_for_404() {
    let mut exchange = exchange("/missing.jpg");
    let headers = HeaderMap::new();
    assert!(matches!(exchange.on_head(404, &headers), HeadStep::ReadError));
    match on_error_body(404, &headers, Ok(Bytes::from_static(b"Not Found"))) {
        DownloadError::HttpStatus {
            code: 404, message, ..
        } => {
            assert!(message.contains("Not Found"));
        }
        other => panic!("expected HttpStatus 404, got {other:?}"),
    }
}

#[test]
fn follows_301_redirect() {
    assert_eq!(follow(301, "/old", "/new"), "/new");
}

#[test]
fn follows_302_redirect() {
    assert_eq!(follow(302, "/temp-old", "/temp-new"), "/temp-new");
}

#[test]
fn follows_307_redirect() {
    assert_eq!(follow(307, "/a", "/b"), "/b");
}

#[test]
fn follows_308_redirect() {
    assert_eq!(follow(308, "/c", "/d"), "/d");
}

#[test]
fn follows_absolute_redirect_to_the_same_host() {
    assert_eq!(follow(302, "/c", "http://127.0.0.1:8080/e?f=1"), "/e?f=1");
}

#[test]
fn other_statuses_are_no_redirects() {
    for status in [300u16, 303, 304, 305, 306, 309, 199, 400] {
        assert!(matches!(
            exchange("/a").on_head(status, &location("/b")),
            HeadStep::ReadError
        ));
    }
    for status in [200u16, 206, 299] {
        assert!(matches!(
            exchange("/a").on_head(status, &location("/b")),
            HeadStep::ReadResource
        ));
    }
}

#[test]
fn returns_too_many_redirects() {
    let config = RequestConfig {
        user_agent: "imgdl/0.1".to_string(),
        request_timeout: Duration::from_secs(5),
        max_redirects: 3,
    };
    let mut exchange = Exchange::new(&server_uri("/loop"), "127.0.0.1", &config);
    let mut followed = 0;
    let error = loop {
        match exchange.on_head(302, &location("/loop")) {
            HeadStep::Drain(target) => {
                followed += 1;
                assert!(matches!(exchange.on_drained(&target), RedirectStep::Again));
            }
            HeadStep::Fail(e) => break e,
            other => panic!("expected a redirect, got {other:?}"),
        }
    };
    assert_eq!(followed, 3);
    assert!(
        matches!(error, DownloadError::TooManyRedirects(_)),
        "expected TooManyRedirects, got {error:?}"
    );
    assert_eq!(error.to_string(), "too many redirects: exceeded 3 redirects");
}

#[test]
fn the_largest_limit_is_kept_too() {
    let config = RequestConfig {
        max_redirects: 255,
        ..test_config()
    };
    let mut exchange = Exchange::new(&server_uri("/loop"), "127.0.0.1", &config);
    for _ in 0..255 {
        assert!(matches!(
            exchange.on_status(302, Some(b"/loop")),
            HeadStep::Drain(_)
        ));
    }
    match exchange.on_status(302, Some(b"/loop")) {
        HeadStep::Fail(e) => {
            assert_eq!(e.to_string(), "too many redirects: exceeded 255 redirects")
        }
        other => panic!("expected an error, got {other:?}"),
    }
}

#[test]
fn redirects_without_a_usable_location_fail() {
    match exchange("/a").on_status(301, None) {
        HeadStep::Fail(e) => assert_eq!(
            e.to_string(),
            "connection failed: redirect response missing Location header"
        ),
        other => panic!("expected an error, got {other:?}"),
    }
    match exchange("/a").on_status(301, Some(&[0x2F, 0xE9])) {
        HeadStep::Fail(e) => assert_eq!(
            e.to_string(),
            "connection failed: invalid Location header: failed to convert header to a str"
        ),
        other => panic!("expected an error, got {other:?}"),
    }
}

#[test]
fn returns_connection_failed_for_broken_connection() {
    let error = RequestFault::Send("broken pipe".to_string()).into_error();
    assert!(
        matches!(error, DownloadError::ConnectionFailed(_)),
        "expected ConnectionFailed, got {error:?}"
    );
    assert_eq!(error.to_string(), "connection failed: send failed: broken pipe");
}

#[test]
fn every_fault_says_what_failed() {
    let cases = vec![
        (RequestFault::Build("e".to_string()), "failed to build request: e"),
        (RequestFault::NotReady("e".to_string()), "sender not ready: e"),
        (RequestFault::Send("e".to_string()), "send failed: e"),
        (RequestFault::ErrorBody("e".to_string()), "failed to read error body: e"),
        (
            RequestFault::ResponseBody("e".to_string()),
            "failed to read response body: e",
        ),
    ];
    for (fault, text) in cases {
        assert_eq!(fault.into_error().to_string(), format!("connection failed: {text}"));
    }
    let headers = HeaderMap::new();
    assert_eq!(
        on_error_body(500, &headers, Err("cut".to_string())).to_string(),
        "connection failed: failed to read error body: cut"
    );
    match on_resource_body(headers, Err("cut".to_string())) {
        Err(e) => assert_eq!(
            e.to_string(),
            "connection failed: failed to read response body: cut"
        ),
        Ok(_) => panic!("expected an error"),
    }
}

#[test]
fn cross_host_redirect_returns_redirect_signal() {
    let mut exchange = exchange("/cross");
    let headers = location("https://other-host.example.com/image.jpg");
    let target = match exchange.on_head(301, &headers) {
        HeadStep::Drain(target) => target,
        other => panic!("expected a redirect, got {other:?}"),
    };
    match exchange.on_drained(&target) {
        RedirectStep::Leave(redir) => {
            assert_eq!(redir.new_uri.host.as_deref().unwrap(), "other-host.example.com");
            assert_eq!(redir.redirects_remaining, 4); // 5 - 1
            assert_eq!(redir.new_uri.port_or_default(), 443);
        }
        _ => panic!("expected cross-host redirect signal"),
    }
}

#[test]
fn hosts_are_compared_without_regard_to_case() {
    let uri = Uri {
        scheme: Some("https".to_string()),
        host: Some("Example.COM".to_string()),
        port: None,
        path_and_query: Some("/a".to_string()),
    };
    let mut exchange = Exchange::new(&uri, "Example.COM", &test_config());
    match exchange.on_drained("https://example.com/b") {
        RedirectStep::Again => assert_eq!(exchange.request().path, "/b"),
        other => panic!("expected the same host, got {other:?}"),
    }
}

#[test]
fn returns_429_with_retry_after() {
    let mut headers = HeaderMap::new();
    headers.insert("Retry-After", HeaderValue::from_static("2"));
    match on_error_body(429, &headers, Ok(Bytes::from_static(b"rate limited"))) {
        DownloadError::HttpStatus {
            code: 429,
            message,
            retry_after,
        } => {
            assert_eq!(retry_after, Some(Duration::from_secs(2)));
            assert_eq!(message, "rate limited");
        }
        other => panic!("expected HttpStatus 429, got {other:?}"),
    }
}

#[test]
fn only_429_asks_for_a_wait() {
    let mut headers = HeaderMap::new();
    headers.insert("Retry-After", HeaderValue::from_static("2"));
    for status in [404, 500, 503] {
        match on_error_body(status, &headers, Ok(Bytes::from_static(b"later"))) {
            DownloadError::HttpStatus { code, retry_after, .. } => {
                assert_eq!(code, status);
                assert_eq!(retry_after, None);
            }
            other => panic!("expected HttpStatus, got {other:?}"),
        }
    }
}

#[test]
fn retry_after_counts_whole_seconds_only() {
    assert_eq!(retry_after_value(Some(b"120")), Some(Duration::from_secs(120)));
    assert_eq!(retry_after_value(Some(b"1.5")), None);
    assert_eq!(retry_after_value(Some(b"Wed, 21 Oct 2015 07:28:00 GMT")), None);
    assert_eq!(retry_after_value(Some(b"18446744073709551616")), None);
    assert_eq!(
        retry_after_value(Some(b"18446744073709551615")),
        Some(Duration::from_secs(u64::MAX))
    );
    assert_eq!(retry_after_value(None), None);
    assert_eq!(parse_retry_after(&HeaderMap::new()), None);
}

#[test]
fn messages_are_cut_to_200_characters() {
    let body = "\u{e9}".repeat(300);
    match status_error(500, &body, None) {
        DownloadError::HttpStatus { message, .. } => assert_eq!(message, "\u{e9}".repeat(200)),
        other => panic!("expected HttpStatus, got {other:?}"),
    }
    // What is not UTF-8 is replaced.
    match on_error_body(500, &HeaderMap::new(), Ok(Bytes::from_static(&[0x61, 0xFF, 0x62]))) {
        DownloadError::HttpStatus { message, .. } => assert_eq!(message, "a\u{FFFD}b"),
        other => panic!("expected HttpStatus, got {other:?}"),
    }
}

#[test]
fn response_data_starts_without_elapsed_time() {
    match on_resource_body(HeaderMap::new(), Ok(Bytes::from_static(b"x"))) {
        Ok(TransportResult::Response(ResponseData { elapsed, .. })) => {
            assert_eq!(elapsed, Duration::zero())
        }
        other => panic!("expected a response, got {other:?}"),
    }
}

#[test]
fn redirects_are_resolved_against_the_current_uri() {
    let current = server_uri("/old?x=1");
    let target = resolve_redirect(&current, "/new?y=2").unwrap();
    assert_eq!(target.host.as_deref(), Some("127.0.0.1"));
    assert_eq!(target.port, Some(8080));
    assert_eq!(target.scheme.as_deref(), Some("http"));
    assert_eq!(target.path_and_query.as_deref(), Some("/new?y=2"));

    // A fragment is not part of what is requested.
    let target = resolve_redirect(&current, "/new#part").unwrap();
    assert_eq!(target.path_and_query.as_deref(), Some("/new"));

    let absolute = resolve_redirect(&current, "https://cdn.example.com:8443/p").unwrap();
    assert_eq!(absolute.scheme.as_deref(), Some("https"));
    assert_eq!(absolute.host.as_deref(), Some("cdn.example.com"));
    assert_eq!(absolute.port, Some(8443));
    assert_eq!(absolute.path_and_query.as_deref(), Some("/p"));
}

#[test]
fn locations_that_are_no_paths_are_refused() {
    let current = server_uri("/old");
    match resolve_redirect(&current, "/a b") {
        Err(DownloadError::ConnectionFailed(message)) => {
            assert!(message.starts_with("invalid redirect location '/a b': "));
        }
        other => panic!("expected ConnectionFailed, got {other:?}"),
    }
}

#[test]
fn a_path_needs_both_scheme_and_host_or_neither() {
    let mut no_host = server_uri("/old");
    no_host.host = None;
    match resolve_parsed(&no_host, "/n", Err("e".to_string()), Ok("/n".to_string())) {
        Err(e) => assert_eq!(
            e.to_string(),
            "connection failed: failed to construct redirect URI: authority missing"
        ),
        Ok(_) => panic!("expected an error"),
    }
    let mut no_scheme = server_uri("/old");
    no_scheme.scheme = None;
    match resolve_parsed(&no_scheme, "/n", Err("e".to_string()), Ok("/n".to_string())) {
        Err(e) => assert_eq!(
            e.to_string(),
            "connection failed: failed to construct redirect URI: scheme missing"
        ),
        Ok(_) => panic!("expected an error"),
    }
    let mut neither = no_scheme.clone();
    neither.host = None;
    let target =
        resolve_parsed(&neither, "/n", Err("e".to_string()), Ok("/n".to_string())).unwrap();
    assert_eq!(target.path_and_query.as_deref(), Some("/n"));
}

#[test]
fn ports_default_by_scheme() {
    let mut uri = server_uri("/");
    assert_eq!(uri.port_or_default(), 8080);
    uri.port = None;
    assert_eq!(uri.port_or_default(), 80);
    uri.scheme = Some("https".to_string());
    assert_eq!(uri.port_or_default(), 443);
    uri.scheme = None;
    assert_eq!(uri.port_or_default(), 443);
}
