use std::path::PathBuf;

use bytes::Bytes;
use http::{HeaderMap, HeaderValue};

use imgdl::config::{Config, NamingStrategy};
use imgdl::download::{result_is_usable, Download, DownloadStep, Target};
use imgdl::time::Duration;
use imgdl::transport::{CrossHostRedirect, ResponseData, TransportResult};
use imgdl::types::{DownloadError, DownloadOutcome, DownloadResult};
use imgdl::uri::Uri;

fn start(url: &str, config: &Config) -> (Download, DownloadStep) {
    Download::start(
        url.to_string(),
        0,
        config.clone(),
        PathBuf::from("/out"),
        Duration::zero(),
    )
}

fn fetched(step: DownloadStep) -> Target {
    match step {
        DownloadStep::Fetch(target) => target,
        other => panic!("expected a request, got {other:?}"),
    }
}

fn finished(step: DownloadStep) -> DownloadResult {
    match step {
        DownloadStep::Finished(result) => result,
        other => panic!("expected a result, got {other:?}"),
    }
}

fn error_of(result: &DownloadResult) -> (String, u32) {
    match &result.outcome {
        DownloadOutcome::Failure {
            error,
            retries_attempted,
            ..
        } => (error.to_string(), *retries_attempted),
        other => panic!("expected Failure, got {other:?}"),
    }
}

fn response(body: &'static [u8]) -> Result<TransportResult, DownloadError> {
    let mut headers = HeaderMap::new();
    headers.insert("content-type", HeaderValue::from_static("image/jpeg"));
    Ok(TransportResult::Response(ResponseData {
        bytes: Bytes::from_static(body),
        headers,
        elapsed: Duration::zero(),
    }))
}

fn redirect(host: Option<&str>, remaining: u8) -> Result<TransportResult, DownloadError> {
    Ok(TransportResult::Redirect(CrossHostRedirect {
        new_uri: Uri {
            scheme: Some("http".to_string()),
            host: host.map(|h| h.to_string()),
            port: None,
            path_and_query: Some("/moved.jpg".to_string()),
        },
        redirects_remaining: remaining,
    }))
}

#[test]
fn downloads_single_url_to_disk() {
    let config = Config::default();
    let (mut download, step) = start("http://example.com:8080/photo.jpg", &config);
    let target = fetched(step);
    assert_eq!(target.host, "example.com");
    assert_eq!(target.port, 8080);
    assert_eq!(target.uri.path_and_query.as_deref(), Some("/photo.jpg"));
    assert_eq!(target.request.user_agent, "imgdl/0.1");
    assert_eq!(target.request.max_redirects, 5);
    assert_eq!(target.request.request_timeout, Duration::from_secs(30));
    assert!(download.body().is_none());

    let body: &[u8] = &[0xFF, 0xD8, 0xFF, 0xE0, 0x00, 0x10, 0x4A, 0x46];
    match download.on_attempt(response(&[0xFF, 0xD8, 0xFF, 0xE0, 0x00, 0x10, 0x4A, 0x46]), Duration::zero()) {
        DownloadStep::Write { filename, path } => {
            assert_eq!(filename, "photo.jpg");
            assert_eq!(path, PathBuf::from("/out/photo.jpg"));
        }
        other => panic!("expected to write, got {other:?}"),
    }
    assert_eq!(download.body().unwrap().as_ref(), body);
    let (result, metadata) = download.on_written(
        Ok(()),
        Duration::from_millis(7),
        "now".to_string(),
    );
    assert!(metadata.is_none());
    assert_eq!(result.url, "http://example.com:8080/photo.jpg");
    match result.outcome {
        DownloadOutcome::Success {
            path,
            size_bytes,
            content_hash,
            elapsed,
        } => {
            assert_eq!(path, PathBuf::from("/out/photo.jpg"));
            assert_eq!(size_bytes, 8);
            assert_eq!(content_hash, None);
            assert_eq!(elapsed, Duration::from_millis(7));
        }
        other => panic!("expected Success, got {other:?}"),
    }
}

#[test]
fn handles_invalid_urls() {
    let config = Config::default();
    // A bare name is taken for a host, which then cannot be resolved.
    for (url, host) in [("not-a-url", "not-a-url"), ("://bad", "bad")] {
        let (mut download, step) = start(url, &config);
        assert_eq!(fetched(step).host, host);
        let unknown = Err(DownloadError::DnsResolutionFailed("no such host".to_string()));
        let result = finished(download.on_attempt(unknown, Duration::zero()));
        assert_eq!(result.url, url);
        assert!(matches!(result.outcome, DownloadOutcome::Failure { .. }));
    }

    let (_, step) = start("http://a b/", &config);
    let result = finished(step);
    assert_eq!(result.url, "http://a b/");
    let (error, retries) = error_of(&result);
    assert!(error.starts_with("connection failed: invalid URL: "), "{error}");
    assert_eq!(retries, 0);
    let (_, step) = start("/just/a/path", &config);
    assert_eq!(
        error_of(&finished(step)).0,
        "connection failed: URL missing host"
    );
    let (_, step) = Download::start_parsed(
        "x".to_string(),
        0,
        config,
        PathBuf::from("/out"),
        Err("invalid format".to_string()),
        Duration::zero(),
    );
    assert_eq!(
        error_of(&finished(step)).0,
        "connection failed: invalid URL: invalid format"
    );
}

#[test]
fn ports_follow_the_scheme() {
    let config = Config::default();
    assert_eq!(fetched(start("http://a.example/x.jpg", &config).1).port, 80);
    assert_eq!(fetched(start("https://a.example/x.jpg", &config).1).port, 443);
}

#[test]
fn retry_429_then_200() {
    let config = Config::default();
    let (mut download, _) = start("http://a.example/x.jpg", &config);
    let busy = Err(DownloadError::HttpStatus {
        code: 429,
        message: "slow down".to_string(),
        retry_after: Some(Duration::from_secs(2)),
    });
    match download.on_attempt(busy, Duration::zero()) {
        DownloadStep::Wait(delay) => assert_eq!(delay, Duration::from_secs(2)),
        other => panic!("expected to wait, got {other:?}"),
    }
    assert!(matches!(
        download.on_attempt(response(b"abc"), Duration::zero()),
        DownloadStep::Write { .. }
    ));
}

#[test]
fn non_retryable_404() {
    let config = Config::default();
    let (mut download, _) = start("http://a.example/x.jpg", &config);
    let missing = Err(DownloadError::HttpStatus {
        code: 404,
        message: "Not Found".to_string(),
        retry_after: None,
    });
    let result = finished(download.on_attempt(missing, Duration::from_millis(9)));
    assert_eq!(error_of(&result), ("HTTP error 404: Not Found".to_string(), 0));
}

#[test]
fn retries_end_with_the_last_error() {
    let config = Config {
        max_retries: 2,
        ..Default::default()
    };
    let (mut download, _) = start("http://a.example/x.jpg", &config);
    for _ in 0..2 {
        assert!(matches!(
            download.on_attempt(Err(DownloadError::Timeout), Duration::zero()),
            DownloadStep::Wait(_)
        ));
    }
    let last = DownloadError::ConnectionFailed("reset".to_string());
    let result = finished(download.on_attempt(Err(last), Duration::zero()));
    assert_eq!(error_of(&result), ("connection failed: reset".to_string(), 2));
}

#[test]
fn one_redirect_to_another_host_is_followed() {
    let config = Config {
        max_retries: 1,
        ..Default::default()
    };
    let (mut download, _) = start("https://a.example/x.jpg", &config);
    assert!(matches!(
        download.on_attempt(Err(DownloadError::Timeout), Duration::zero()),
        DownloadStep::Wait(_)
    ));
    let target = fetched(download.on_attempt(redirect(Some("b.example"), 3), Duration::zero()));
    assert_eq!(target.host, "b.example");
    assert_eq!(target.port, 80);
    assert_eq!(target.request.max_redirects, 3);
    // The new target has retries of its own.
    assert!(matches!(
        download.on_attempt(Err(DownloadError::Timeout), Duration::zero()),
        DownloadStep::Wait(_)
    ));
    let result = finished(download.on_attempt(redirect(Some("c.example"), 2), Duration::zero()));
    assert_eq!(
        error_of(&result),
        ("too many redirects: too many cross-host redirects".to_string(), 1)
    );
}

#[test]
fn a_redirect_needs_a_host() {
    let config = Config::default();
    let (mut download, _) = start("https://a.example/x.jpg", &config);
    let result = finished(download.on_attempt(redirect(None, 3), Duration::zero()));
    assert_eq!(
        error_of(&result).0,
        "too many redirects: redirect to URL without host"
    );
}

#[test]
fn bodies_are_checked_before_they_are_written() {
    let config = Config::default();
    let (mut download, _) = start("https://a.example/x.jpg", &config);
    let result = finished(download.on_attempt(response(b""), Duration::zero()));
    assert_eq!(error_of(&result).0, "validation failed: empty response body");

    for (length, kept) in [("3", true), ("4", false), ("abc", false)] {
        let mut headers = HeaderMap::new();
        headers.insert("content-length", HeaderValue::from_static(length));
        let data = ResponseData {
            bytes: Bytes::from_static(b"abc"),
            headers,
            elapsed: Duration::zero(),
        };
        let (mut download, _) = start("https://a.example/x.jpg", &config);
        let step = download.on_attempt(Ok(TransportResult::Response(data)), Duration::zero());
        if kept {
            assert!(matches!(step, DownloadStep::Write { .. }));
        } else {
            assert_eq!(
                error_of(&finished(step)).0,
                format!("validation failed: content-length mismatch: expected {length}, got 3")
            );
        }
    }
}

#[test]
fn write_failures_are_reported() {
    let config = Config::default();
    let (mut download, _) = start("https://a.example/x.jpg", &config);
    download.on_attempt(response(b"abc"), Duration::zero());
    let (result, metadata) =
        download.on_written(Err("disk full".to_string()), Duration::zero(), String::new());
    assert_eq!(error_of(&result).0, "write error: disk full");
    assert!(metadata.is_none());
}

#[test]
fn hashes_are_computed_where_they_are_called_for() {
    let plain = Config::default();
    let by_hash = Config {
        naming_strategy: NamingStrategy::ContentHash,
        ..Default::default()
    };
    let with_metadata = Config {
        write_metadata: true,
        ..Default::default()
    };
    let with_summary = Config {
        write_summary: true,
        ..Default::default()
    };
    let cases = vec![
        (plain, false),
        (by_hash, true),
        (with_metadata, true),
        (with_summary, true),
    ];
    for (config, hashed) in cases {
        let (mut download, _) = start("https://a.example/x.jpg", &config);
        download.on_attempt(response(b"hello world"), Duration::zero());
        let (result, _) =
            download.on_written(Ok(()), Duration::zero(), String::new());
        match result.outcome {
            DownloadOutcome::Success { content_hash, .. } => {
                if hashed {
                    assert_eq!(
                        content_hash,
                        Some("b94d27b9934d3e08a52e52d7da7dabfa".to_string())
                    );
                } else {
                    assert_eq!(content_hash, None);
                }
            }
            other => panic!("expected Success, got {other:?}"),
        }
    }
}

#[test]
fn metadata_sidecars_written() {
    let config = Config {
        write_metadata: true,
        ..Default::default()
    };
    let (mut download, _) = start("https://a.example/x.jpg", &config);
    download.on_attempt(response(b"hello world"), Duration::zero());
    let (_, metadata) = download.on_written(
        Ok(()),
        Duration::from_millis(12),
        "2025-01-15T10:30:00+00:00".to_string(),
    );
    let metadata = metadata.unwrap();
    assert_eq!(metadata.url, "https://a.example/x.jpg");
    assert_eq!(metadata.filename, "x.jpg");
    assert_eq!(metadata.size_bytes, 11);
    assert_eq!(
        metadata.content_hash.as_deref(),
        Some("b94d27b9934d3e08a52e52d7da7dabfa")
    );
    assert_eq!(metadata.content_type.as_deref(), Some("image/jpeg"));
    assert_eq!(metadata.elapsed, Duration::from_millis(12));
    assert_eq!(metadata.downloaded_at, "2025-01-15T10:30:00+00:00");
    assert_eq!(
        metadata.headers,
        vec![("content-type".to_string(), "image/jpeg".to_string())]
    );
}

#[test]
fn connections_are_usable_after_any_response() {
    assert!(result_is_usable(&response(b"x")));
    assert!(result_is_usable(&redirect(Some("b"), 1)));
    assert!(result_is_usable(&Err(DownloadError::HttpStatus {
        code: 500,
        message: String::new(),
        retry_after: None,
    })));
    assert!(!result_is_usable(&Err(DownloadError::Timeout)));
    assert!(!result_is_usable(&Err(DownloadError::ConnectionFailed(String::new()))));
    assert!(!result_is_usable(&Err(DownloadError::TooManyRedirects(String::new()))));
}

#[test]
fn requests_stay_within_their_bound() {
    let config = Config {
        max_retries: 2,
        ..Default::default()
    };
    let (mut download, mut step) = start("https://a.example/x.jpg", &config);
    let mut requests = 0;
    // The first host fails twice and then redirects; the second always fails.
    loop {
        match step {
            DownloadStep::Fetch(_) | DownloadStep::Wait(_) => {
                requests += 1;
                let result = if requests == 3 {
                    redirect(Some("b.example"), 1)
                } else {
                    Err(DownloadError::Timeout)
                };
                step = download.on_attempt(result, Duration::zero());
            }
            DownloadStep::Finished(result) => {
                assert_eq!(error_of(&result), ("request timed out".to_string(), 2));
                break;
            }
            DownloadStep::Write { .. } => panic!("nothing was received"),
        }
    }
    assert_eq!(requests, 6);
}
